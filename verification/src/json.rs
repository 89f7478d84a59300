//! JSON text of strings, lists and fields of strings.
use crate::random;
use crate::text::push_char;
use vstd::prelude::*;
use vstd::string::StringExecFns;

verus! {

/// A character inside a JSON string.
pub open spec fn escaped(ch: char) -> Seq<char> {
    if ch == '"' || ch == '\\' {
        seq!['\\', ch]
    } else if ch == '\u{8}' {
        seq!['\\', 'b']
    } else if ch == '\t' {
        seq!['\\', 't']
    } else if ch == '\n' {
        seq!['\\', 'n']
    } else if ch == '\u{c}' {
        seq!['\\', 'f']
    } else if ch == '\r' {
        seq!['\\', 'r']
    } else if ch <= '\u{1f}' {
        seq![
            '\\',
            'u',
            '0',
            '0',
            random::hex_digit(ch as int / 16),
            random::hex_digit(ch as int % 16),
        ]
    } else {
        seq![ch]
    }
}

/// The characters between the quotes of a JSON string.
pub open spec fn escaped_text(chars: Seq<char>) -> Seq<char>
    decreases chars.len(),
{
    if chars.len() == 0 {
        chars
    } else {
        escaped_text(chars.drop_last()) + escaped(chars.last())
    }
}

/// A JSON string.
pub open spec fn quoted(chars: Seq<char>) -> Seq<char> {
    seq!['"'] + escaped_text(chars) + seq!['"']
}

/// Calls `serde_json::to_string` on a text: claims the JSON string of it, in
/// which quotes, backslashes and the controls below U+0020 are escaped and
/// nothing else is.
#[verifier::external_body]
pub(crate) fn json_string(text: &str) -> (json: String)
    ensures
        json@ == quoted(text@),
{
    serde_json::to_string(text).expect("a string is always representable")
}

/// Items with commas between them.
pub open spec fn joined(items: Seq<Seq<char>>) -> Seq<char>
    decreases items.len(),
{
    if items.len() == 0 {
        Seq::empty()
    } else if items.len() == 1 {
        items[0]
    } else {
        joined(items.drop_last()) + seq![','] + items.last()
    }
}

/// A JSON array of items that are JSON.
pub open spec fn list(items: Seq<Seq<char>>) -> Seq<char> {
    seq!['['] + joined(items) + seq![']']
}

/// The contents of texts.
pub open spec fn texts(items: Seq<String>) -> Seq<Seq<char>> {
    Seq::new(items.len(), |i: int| items[i]@)
}

/// The JSON strings of texts.
pub open spec fn quoted_all(items: Seq<Seq<char>>) -> Seq<Seq<char>> {
    Seq::new(items.len(), |i: int| quoted(items[i]))
}

/// A JSON array of items that are JSON.
pub fn json_list(items: &[String]) -> (json: String)
    ensures
        json@ == list(texts(items@)),
{
    let mut json = String::new();
    push_char(&mut json, '[');
    let ghost all = texts(items@);
    let mut i: usize = 0;
    assert(all.take(0) =~= Seq::empty());
    assert(json@ =~= seq!['['] + joined(all.take(0)));
    while i < items.len()
        invariant
            i <= items.len(),
            all == texts(items@),
            json@ == seq!['['] + joined(all.take(i as int)),
        decreases items.len() - i,
    {
        let ghost next = all.take(i as int + 1);
        assert(next.drop_last() =~= all.take(i as int));
        assert(next.last() == items@[i as int]@);
        if i > 0 {
            push_char(&mut json, ',');
        } else {
            assert(all.take(0) =~= Seq::empty());
        }
        json.append(items[i].as_str());
        i += 1;
        assert(json@ =~= seq!['['] + joined(next));
    }
    assert(all.take(i as int) =~= all);
    push_char(&mut json, ']');
    assert(json@ =~= list(all));
    json
}

/// A JSON array of strings.
pub fn json_strings(items: &[String]) -> (json: String)
    ensures
        json@ == list(quoted_all(texts(items@))),
{
    let mut parts: Vec<String> = Vec::new();
    let mut i: usize = 0;
    while i < items.len()
        invariant
            i <= items.len(),
            texts(parts@) == quoted_all(texts(items@)).take(i as int),
        decreases items.len() - i,
    {
        let ghost before = texts(parts@);
        parts.push(json_string(items[i].as_str()));
        assert(texts(parts@) =~= before.push(quoted(items@[i as int]@)));
        i += 1;
        assert(texts(parts@) =~= quoted_all(texts(items@)).take(i as int));
    }
    assert(texts(parts@) =~= quoted_all(texts(items@)));
    json_list(parts.as_slice())
}

/// A JSON string holds no character below U+0020, whatever the text holds.
pub proof fn law_no_raw_controls(chars: Seq<char>)
    ensures
        forall|i: int| 0 <= i < quoted(chars).len() ==> ' ' <= #[trigger] quoted(chars)[i],
{
    lemma_escaped_text(chars);
}

proof fn lemma_escaped(ch: char)
    ensures
        forall|i: int| 0 <= i < escaped(ch).len() ==> ' ' <= #[trigger] escaped(ch)[i],
{
    assert(random::hex_digit(ch as int % 16) >= '0');
    assert(ch <= '\u{1f}' ==> random::hex_digit(ch as int / 16) >= '0');
}

proof fn lemma_escaped_text(chars: Seq<char>)
    ensures
        forall|i: int|
            0 <= i < escaped_text(chars).len() ==> ' ' <= #[trigger] escaped_text(chars)[i],
    decreases chars.len(),
{
    if chars.len() > 0 {
        lemma_escaped_text(chars.drop_last());
        let earlier = escaped_text(chars.drop_last());
        let last = escaped(chars.last());
        lemma_escaped(chars.last());
        assert forall|i: int| 0 <= i < escaped_text(chars).len() implies ' '
            <= #[trigger] escaped_text(chars)[i] by {
            if i < earlier.len() {
                assert(escaped_text(chars)[i] == earlier[i]);
            } else {
                assert(escaped_text(chars)[i] == last[i - earlier.len()]);
            }
        }
    }
}

/// Quotes and backslashes are escaped, and so are controls: those with a letter of their own by
/// it, the others by their number. Every other character stands for itself.
pub proof fn law_characters_are_escaped(ch: char)
    ensures
        ch == '"' ==> escaped(ch) == seq!['\\', '"'],
        ch == '\\' ==> escaped(ch) == seq!['\\', '\\'],
        ch as u32 == 8 ==> escaped(ch) == seq!['\\', 'b'],
        ch as u32 == 9 ==> escaped(ch) == seq!['\\', 't'],
        ch as u32 == 10 ==> escaped(ch) == seq!['\\', 'n'],
        ch as u32 == 12 ==> escaped(ch) == seq!['\\', 'f'],
        ch as u32 == 13 ==> escaped(ch) == seq!['\\', 'r'],
        ch as u32 == 11 ==> escaped(ch) == seq!['\\', 'u', '0', '0', '0', 'b'],
        ch as u32 <= 7 ==> escaped(ch) == seq![
            '\\',
            'u',
            '0',
            '0',
            '0',
            (48 + ch as u32) as char,
        ],
        0x10 <= ch as u32 <= 0x19 ==> escaped(ch) == seq![
            '\\',
            'u',
            '0',
            '0',
            '1',
            (48 + ch as u32 - 0x10) as char,
        ],
        0x1a <= ch as u32 <= 0x1f ==> escaped(ch) == seq![
            '\\',
            'u',
            '0',
            '0',
            '1',
            (97 + ch as u32 - 0x1a) as char,
        ],
        ch >= ' ' && ch != '"' && ch != '\\' ==> escaped(ch) == seq![ch],
{
}

/// A JSON string is its characters in order, each escaped on its own, between quotes.
pub proof fn law_strings_are_quoted(chars: Seq<char>, ch: char)
    ensures
        quoted(Seq::<char>::empty()) == seq!['"', '"'],
        quoted(chars.push(ch)) == quoted(chars).drop_last() + escaped(ch) + seq!['"'],
        quoted(chars)[0] == '"' && quoted(chars).last() == '"',
{
    assert(quoted(Seq::<char>::empty()) =~= seq!['"', '"']);
    assert(chars.push(ch).drop_last() =~= chars);
    assert(quoted(chars).drop_last() =~= seq!['"'] + escaped_text(chars));
    assert(quoted(chars.push(ch)) =~= quoted(chars).drop_last() + escaped(ch) + seq!['"']);
}

/// A list holds its items in order, with one comma between two of them, between brackets.
pub proof fn law_lists_hold_their_items(items: Seq<Seq<char>>, item: Seq<char>)
    ensures
        list(Seq::<Seq<char>>::empty()) == seq!['[', ']'],
        list(seq![item]) == seq!['['] + item + seq![']'],
        items.len() > 0 ==> list(items.push(item)) == list(items).drop_last() + seq![','] + item
            + seq![']'],
        quoted_all(items).len() == items.len(),
        forall|i: int| 0 <= i < items.len() ==> #[trigger] quoted_all(items)[i] == quoted(items[i]),
{
    assert(list(Seq::<Seq<char>>::empty()) =~= seq!['[', ']']);
    if items.len() > 0 {
        assert(items.push(item).drop_last() =~= items);
        assert(list(items).drop_last() =~= seq!['['] + joined(items));
        assert(list(items.push(item)) =~= list(items).drop_last() + seq![','] + item + seq![']']);
    }
}

} // verus!
