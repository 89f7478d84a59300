//! Text: comparison, decoding, character classes and decimal numbers.
use crate::bytes::bytes_equal;
use vstd::prelude::*;

verus! {

/// What decoding arbitrary bytes as UTF-8 with replacement characters gives.
pub uninterp spec fn utf8_lossy(bytes: Seq<u8>) -> Seq<char>;

/// Calls `String::from_utf8_lossy`: claims that its result is a function of the
/// bytes alone, and that valid UTF-8 is decoded unchanged. What replaces an
/// invalid sequence is left to the name.
#[verifier::external_body]
pub(crate) fn from_utf8_lossy(bytes: &[u8]) -> (text: String)
    ensures
        text@ == utf8_lossy(bytes@),
        vstd::utf8::valid_utf8(bytes@) ==> text@ == vstd::utf8::decode_utf8(bytes@),
{
    String::from_utf8_lossy(bytes).into_owned()
}

/// Calls `String::from_utf8`: claims that it decodes exactly the valid UTF-8
/// byte sequences and refuses every other.
#[verifier::external_body]
pub(crate) fn from_utf8(bytes: Vec<u8>) -> (text: Option<String>)
    ensures
        match text {
            Some(text) => vstd::utf8::valid_utf8(bytes@) && text@ == vstd::utf8::decode_utf8(
                bytes@,
            ),
            None => !vstd::utf8::valid_utf8(bytes@),
        },
{
    String::from_utf8(bytes).ok()
}

/// Calls `String::push`: claims that the character is appended.
#[verifier::external_body]
pub(crate) fn push_char(text: &mut String, ch: char)
    ensures
        final(text)@ == old(text)@.push(ch),
{
    text.push(ch)
}

/// The control characters: U+0000 to U+001F and U+007F to U+009F.
pub open spec fn control(ch: char) -> bool {
    ch <= '\u{1f}' || '\u{7f}' <= ch <= '\u{9f}'
}

pub fn is_control(ch: char) -> (found: bool)
    ensures
        found == control(ch),
{
    ch <= '\u{1f}' || ('\u{7f}' <= ch && ch <= '\u{9f}')
}

/// The characters with the Unicode property White_Space.
pub open spec fn whitespace(ch: char) -> bool {
    ||| '\u{9}' <= ch <= '\u{d}'
    ||| ch == ' '
    ||| ch == '\u{85}'
    ||| ch == '\u{a0}'
    ||| ch == '\u{1680}'
    ||| '\u{2000}' <= ch <= '\u{200a}'
    ||| ch == '\u{2028}'
    ||| ch == '\u{2029}'
    ||| ch == '\u{202f}'
    ||| ch == '\u{205f}'
    ||| ch == '\u{3000}'
}

pub fn is_whitespace(ch: char) -> (found: bool)
    ensures
        found == whitespace(ch),
{
    ('\u{9}' <= ch && ch <= '\u{d}') || ch == ' ' || ch == '\u{85}' || ch == '\u{a0}' || ch
        == '\u{1680}' || ('\u{2000}' <= ch && ch <= '\u{200a}') || ch == '\u{2028}' || ch
        == '\u{2029}' || ch == '\u{202f}' || ch == '\u{205f}' || ch == '\u{3000}'
}

/// The characters that are no control characters, in order.
pub open spec fn printable(chars: Seq<char>) -> Seq<char>
    decreases chars.len(),
{
    if chars.len() == 0 {
        chars
    } else if control(chars.last()) {
        printable(chars.drop_last())
    } else {
        printable(chars.drop_last()).push(chars.last())
    }
}

pub proof fn lemma_printable(chars: Seq<char>)
    ensures
        forall|i: int|
            0 <= i < printable(chars).len() ==> !control(#[trigger] printable(chars)[i]),
    decreases chars.len(),
{
    if chars.len() > 0 {
        let earlier = printable(chars.drop_last());
        lemma_printable(chars.drop_last());
        assert forall|i: int| 0 <= i < printable(chars).len() implies !control(
            #[trigger] printable(chars)[i],
        ) by {
            if i < earlier.len() {
                assert(printable(chars)[i] == earlier[i]);
            }
        }
    }
}

/// At most the first `n` items.
pub open spec fn at_most<T>(s: Seq<T>, n: int) -> Seq<T> {
    if s.len() <= n {
        s
    } else {
        s.take(n)
    }
}

/// `chars` without the white space at its start.
pub open spec fn trim_start(chars: Seq<char>) -> Seq<char>
    decreases chars.len(),
{
    if chars.len() > 0 && whitespace(chars[0]) {
        trim_start(chars.drop_first())
    } else {
        chars
    }
}

/// `chars` without the white space at its end.
pub open spec fn trim_end(chars: Seq<char>) -> Seq<char>
    decreases chars.len(),
{
    if chars.len() > 0 && whitespace(chars.last()) {
        trim_end(chars.drop_last())
    } else {
        chars
    }
}

/// `chars` without the white space at its start and end.
pub open spec fn trim(chars: Seq<char>) -> Seq<char> {
    trim_end(trim_start(chars))
}

pub open spec fn ascii_lower(ch: char) -> char {
    if 'A' <= ch <= 'Z' {
        (ch as u32 + 32) as char
    } else {
        ch
    }
}

pub open spec fn lowered(chars: Seq<char>) -> Seq<char> {
    Seq::new(chars.len(), |i: int| ascii_lower(chars[i]))
}

/// Whether a text is `name` but for the case of ASCII letters.
pub open spec fn same_ignoring_case(text: Seq<char>, name: Seq<char>) -> bool {
    lowered(text) == lowered(name)
}

/// Where `ch` first occurs in `chars`; the length of `chars` when it does not.
pub open spec fn char_index(chars: Seq<char>, ch: char) -> int
    decreases chars.len(),
{
    if chars.len() == 0 || chars[0] == ch {
        0
    } else {
        1 + char_index(chars.drop_first(), ch)
    }
}

pub proof fn lemma_char_index_found(chars: Seq<char>, ch: char)
    ensures
        0 <= char_index(chars, ch) <= chars.len(),
        char_index(chars, ch) < chars.len() ==> chars[char_index(chars, ch)] == ch,
    decreases chars.len(),
{
    if chars.len() > 0 && chars[0] != ch {
        lemma_char_index_found(chars.drop_first(), ch);
    }
}

pub proof fn lemma_char_index(chars: Seq<char>, ch: char, i: int)
    requires
        0 <= i <= chars.len(),
        i < chars.len() ==> chars[i] == ch,
        forall|j: int| 0 <= j < i ==> chars[j] != ch,
    ensures
        char_index(chars, ch) == i,
    decreases chars.len(),
{
    if i > 0 {
        assert forall|j: int| 0 <= j < i - 1 implies chars.drop_first()[j] != ch by {
            assert(chars.drop_first()[j] == chars[j + 1]);
        }
        lemma_char_index(chars.drop_first(), ch, i - 1);
    }
}

/// The decimal digits of a number, without leading zeros.
pub open spec fn decimal(n: nat) -> Seq<char>
    decreases n,
{
    if n < 10 {
        seq![('0' as u32 + n) as char]
    } else {
        decimal(n / 10).push(('0' as u32 + n % 10) as char)
    }
}

/// The content of an optional text.
pub open spec fn opt_text(text: Option<String>) -> Option<Seq<char>> {
    match text {
        Some(text) => Some(text@),
        None => None,
    }
}

/// Whether two optional texts are the same.
pub fn same_opt_text(left: &Option<String>, right: &Option<String>) -> (same: bool)
    ensures
        same == (opt_text(*left) == opt_text(*right)),
{
    match (left, right) {
        (Some(left), Some(right)) => same_text(left.as_str(), right.as_str()),
        (None, None) => true,
        _ => false,
    }
}

/// The characters of a text.
pub fn chars_of(text: &str) -> (chars: Vec<char>)
    ensures
        chars@ == text@,
{
    let mut chars: Vec<char> = Vec::new();
    for ch in it: text.chars()
        invariant
            it.seq() == text@,
            chars@ == text@.take(it.index() as int),
    {
        chars.push(ch);
    }
    assert(text@.take(text@.len() as int) =~= text@);
    chars
}

/// The text of characters.
pub fn text_of(chars: &[char]) -> (text: String)
    ensures
        text@ == chars@,
{
    let mut text = String::new();
    let mut i: usize = 0;
    while i < chars.len()
        invariant
            i <= chars.len(),
            text@ == chars@.take(i as int),
        decreases chars.len() - i,
    {
        push_char(&mut text, chars[i]);
        i += 1;
        assert(text@ =~= chars@.take(i as int));
    }
    assert(chars@.take(i as int) =~= chars@);
    text
}

/// Whether two texts are the same.
pub fn same_text(left: &str, right: &str) -> (same: bool)
    ensures
        same == (left@ == right@),
{
    proof {
        vstd::utf8::encode_utf8_decode_utf8(left@);
        vstd::utf8::encode_utf8_decode_utf8(right@);
    }
    bytes_equal(left.as_bytes(), right.as_bytes())
}

/// Lower-cases the ASCII letters.
pub fn ascii_lowercase(chars: &[char]) -> (lower: Vec<char>)
    ensures
        lower@ == lowered(chars@),
{
    let mut lower: Vec<char> = Vec::new();
    let mut i: usize = 0;
    while i < chars.len()
        invariant
            i <= chars.len(),
            lower@ == lowered(chars@.take(i as int)),
        decreases chars.len() - i,
    {
        let ch = chars[i];
        let low = if 'A' <= ch && ch <= 'Z' {
            (ch as u8 + 32) as char
        } else {
            ch
        };
        lower.push(low);
        i += 1;
        assert(lower@ =~= lowered(chars@.take(i as int)));
    }
    assert(chars@.take(i as int) =~= chars@);
    lower
}

/// Whether two texts are the same but for the case of ASCII letters.
pub fn eq_ignore_ascii_case(left: &str, right: &str) -> (same: bool)
    ensures
        same == same_ignoring_case(left@, right@),
{
    let lower_left = text_of(ascii_lowercase(chars_of(left).as_slice()).as_slice());
    let lower_right = text_of(ascii_lowercase(chars_of(right).as_slice()).as_slice());
    same_text(lower_left.as_str(), lower_right.as_str())
}

/// Where `ch` first occurs.
pub fn find_char(chars: &[char], ch: char) -> (found: Option<usize>)
    ensures
        match found {
            Some(i) => i < chars@.len() && i == char_index(chars@, ch),
            None => char_index(chars@, ch) == chars@.len(),
        },
{
    let mut i: usize = 0;
    while i < chars.len() && chars[i] != ch
        invariant
            i <= chars.len(),
            forall|j: int| 0 <= j < i ==> chars@[j] != ch,
        decreases chars.len() - i,
    {
        i += 1;
    }
    proof {
        lemma_char_index(chars@, ch, i as int);
    }
    if i < chars.len() {
        Some(i)
    } else {
        None
    }
}

/// Whether `chars` begins with `prefix`.
pub fn starts_with_chars(chars: &[char], prefix: &[char]) -> (found: bool)
    ensures
        found == prefix@.is_prefix_of(chars@),
{
    if chars.len() < prefix.len() {
        return false;
    }
    let mut i: usize = 0;
    while i < prefix.len()
        invariant
            i <= prefix.len() <= chars.len(),
            forall|j: int| 0 <= j < i ==> prefix[j] == chars[j],
        decreases prefix.len() - i,
    {
        if prefix[i] != chars[i] {
            return false;
        }
        i += 1;
    }
    assert(prefix@ =~= chars@.subrange(0, prefix@.len() as int));
    true
}

/// At most `max_chars` of the characters of a payload, control characters left out.
pub fn sanitize(payload: &[u8], max_chars: usize) -> (text: String)
    ensures
        text@ == at_most(printable(utf8_lossy(payload@)), max_chars as int),
{
    let chars = chars_of(from_utf8_lossy(payload).as_str());
    printable_prefix(chars.as_slice(), max_chars)
}

/// At most `max_chars` of the characters, control characters left out.
pub fn printable_prefix(chars: &[char], max_chars: usize) -> (text: String)
    ensures
        text@ == at_most(printable(chars@), max_chars as int),
{
    let mut kept: Vec<char> = Vec::new();
    let mut i: usize = 0;
    assert(chars@.take(0) =~= Seq::empty());
    while i < chars.len()
        invariant
            i <= chars.len(),
            kept@ == at_most(printable(chars@.take(i as int)), max_chars as int),
        decreases chars.len() - i,
    {
        assert(chars@.take(i as int + 1).drop_last() =~= chars@.take(i as int));
        if !is_control(chars[i]) && kept.len() < max_chars {
            kept.push(chars[i]);
        }
        i += 1;
        assert(kept@ =~= at_most(printable(chars@.take(i as int)), max_chars as int));
    }
    assert(chars@.take(i as int) =~= chars@);
    text_of(kept.as_slice())
}

/// The text without white space at its start and end.
pub fn trimmed(chars: &[char]) -> (rest: &[char])
    ensures
        rest@ == trim(chars@),
{
    let mut start: usize = 0;
    assert(chars@.skip(0) =~= chars@);
    while start < chars.len() && is_whitespace(chars[start])
        invariant
            start <= chars.len(),
            trim_start(chars@) == trim_start(chars@.skip(start as int)),
        decreases chars.len() - start,
    {
        assert(chars@.skip(start as int).drop_first() =~= chars@.skip(start as int + 1));
        start += 1;
    }
    assert(trim_start(chars@) =~= chars@.skip(start as int));
    let mut end: usize = chars.len();
    assert(chars@.skip(start as int) =~= chars@.subrange(start as int, end as int));
    while end > start && is_whitespace(chars[end - 1])
        invariant
            start <= end <= chars.len(),
            trim(chars@) == trim_end(chars@.subrange(start as int, end as int)),
        decreases end,
    {
        assert(chars@.subrange(start as int, end as int).drop_last() =~= chars@.subrange(
            start as int,
            end - 1,
        ));
        end -= 1;
    }
    &chars[start..end]
}

/// The decimal digits of a number.
pub fn decimal_text(n: u128) -> (text: String)
    ensures
        text@ == decimal(n as nat),
{
    text_of(decimal_chars(n).as_slice())
}

fn decimal_chars(n: u128) -> (digits: Vec<char>)
    ensures
        digits@ == decimal(n as nat),
    decreases n,
{
    if n < 10 {
        let mut digits: Vec<char> = Vec::new();
        digits.push(digit_char(n as u8));
        assert(digits@ =~= decimal(n as nat));
        digits
    } else {
        let mut digits = decimal_chars(n / 10);
        digits.push(digit_char((n % 10) as u8));
        digits
    }
}

fn digit_char(digit: u8) -> (ch: char)
    requires
        digit < 10,
    ensures
        ch == ('0' as u32 + digit) as char,
{
    ('0' as u8 + digit) as char
}

/// Trimming takes white space from both ends and leaves what stands between.
pub proof fn law_trim(before: Seq<char>, core: Seq<char>, after: Seq<char>)
    requires
        forall|i: int| 0 <= i < before.len() ==> whitespace(#[trigger] before[i]),
        forall|i: int| 0 <= i < after.len() ==> whitespace(#[trigger] after[i]),
        core.len() > 0,
        !whitespace(core[0]),
        !whitespace(core.last()),
    ensures
        trim(before + core + after) == core,
    decreases before.len() + after.len(),
{
    let whole = before + core + after;
    if before.len() > 0 {
        assert(whole[0] == before[0]);
        let rest = before.drop_first();
        assert forall|i: int| 0 <= i < rest.len() implies whitespace(#[trigger] rest[i]) by {
            assert(rest[i] == before[i + 1]);
        }
        assert(whole.drop_first() =~= rest + core + after);
        law_trim(rest, core, after);
    } else {
        assert(whole =~= core + after);
        assert(whole[0] == core[0]);
        assert(trim_start(whole) == whole);
        if after.len() > 0 {
            assert(whole.last() == after[after.len() - 1]);
            let rest = after.drop_last();
            assert forall|i: int| 0 <= i < rest.len() implies whitespace(#[trigger] rest[i]) by {
                assert(rest[i] == after[i]);
            }
            assert(whole.drop_last() =~= before + core + rest);
            law_trim(before, core, rest);
            assert((before + core + rest)[0] == core[0]);
            assert(trim_start(before + core + rest) == before + core + rest);
        } else {
            assert(whole =~= core);
        }
    }
}

/// Control characters are left out, and everything else stays in its order.
pub proof fn law_printable(left: Seq<char>, right: Seq<char>)
    ensures
        printable(left + right) == printable(left) + printable(right),
        (forall|i: int| 0 <= i < left.len() ==> !control(#[trigger] left[i])) ==> printable(left)
            == left,
        (forall|i: int| 0 <= i < left.len() ==> control(#[trigger] left[i])) ==> printable(left)
            == Seq::<char>::empty(),
    decreases left.len() + right.len(),
{
    if right.len() > 0 {
        law_printable(left, right.drop_last());
        assert((left + right).drop_last() =~= left + right.drop_last());
        assert((left + right).last() == right.last());
        assert(printable(left + right) =~= printable(left) + printable(right));
    } else {
        assert(left + right =~= left);
        assert(printable(left) + printable(right) =~= printable(left));
        if left.len() > 0 {
            law_printable(left.drop_last(), right);
            assert(left.drop_last().push(left.last()) =~= left);
            assert(!control(left.last()) ==> left[left.len() - 1] == left.last());
        }
    }
}

/// The control characters are those below the space, DEL, and the eighth bit's.
pub proof fn law_control_characters(ch: char)
    ensures
        control(ch) <==> (ch as u32) < 0x20 || 0x7f <= ch as u32 <= 0x9f,
{
}

/// White space of ASCII is the space, and the controls from the tab to the carriage return.
pub proof fn law_ascii_whitespace(ch: char)
    ensures
        (ch as u32) < 0x80 ==> (whitespace(ch) <==> ch == ' ' || 9 <= ch as u32 <= 13),
        ch as u32 == 0x85 || ch as u32 == 0xa0 || ch as u32 == 0x1680 || 0x2000 <= ch as u32
            <= 0x200a || ch as u32 == 0x2028 || ch as u32 == 0x2029 || ch as u32 == 0x202f || ch
            as u32 == 0x205f || ch as u32 == 0x3000 ==> whitespace(ch),
        (ch as u32) > 0x3000 || 0x200b <= ch as u32 <= 0x2027 || 0xa1 <= ch as u32 <= 0x167f
            ==> !whitespace(ch),
{
}

/// Letters of ASCII are the same in either case, and no other characters are.
pub proof fn law_case_is_ignored(left: Seq<char>, right: Seq<char>)
    ensures
        same_ignoring_case(left, left),
        same_ignoring_case(left, right) ==> left.len() == right.len(),
        same_ignoring_case(left, right) <==> left.len() == right.len() && forall|i: int|
            0 <= i < left.len() ==> (#[trigger] left[i] == right[i] || ('A' <= left[i] <= 'Z'
                && right[i] as u32 == left[i] as u32 + 32) || ('A' <= right[i] <= 'Z' && left[i]
                as u32 == right[i] as u32 + 32)),
{
    if same_ignoring_case(left, right) {
        assert(lowered(left).len() == lowered(right).len());
        assert forall|i: int| 0 <= i < left.len() implies (#[trigger] left[i] == right[i] || ('A'
            <= left[i] <= 'Z' && right[i] as u32 == left[i] as u32 + 32) || ('A' <= right[i] <= 'Z'
            && left[i] as u32 == right[i] as u32 + 32)) by {
            assert(lowered(left)[i] == lowered(right)[i]);
        }
    }
    if left.len() == right.len() && (forall|i: int|
        0 <= i < left.len() ==> (#[trigger] left[i] == right[i] || ('A' <= left[i] <= 'Z' && right[i]
            as u32 == left[i] as u32 + 32) || ('A' <= right[i] <= 'Z' && left[i] as u32 == right[i]
            as u32 + 32))) {
        assert(lowered(left) =~= lowered(right));
    }
}

/// The digits of a number are those of its tenth and then its last one.
pub proof fn law_decimal(n: nat, digit: nat)
    requires
        digit < 10,
    ensures
        n > 0 ==> decimal(10 * n + digit) == decimal(n).push("0123456789"@[digit as int]),
        decimal(digit) == seq!["0123456789"@[digit as int]],
{
    reveal_strlit("0123456789");
    assert((10 * n + digit) / 10 == n && (10 * n + digit) % 10 == digit);
}

} // verus!
