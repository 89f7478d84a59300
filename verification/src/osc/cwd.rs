//! Working directories that a terminal reports.
use crate::bytes::copied;
use crate::text::{self, chars_of, from_utf8, text_of, trimmed};
use vstd::prelude::*;

verus! {

/// A reported directory and, where the report names one, the host it is on.
pub type ReportedCwd = (String, Option<String>);

pub open spec fn cwd_view(cwd: Option<ReportedCwd>) -> Option<(Seq<char>, Option<Seq<char>>)> {
    match cwd {
        Some((path, authority)) => Some((path@, text::opt_text(authority))),
        None => None,
    }
}

/// The value of a hexadecimal digit.
pub open spec fn hex_digit_value(byte: u8) -> Option<u8> {
    if '0' as u8 <= byte <= '9' as u8 {
        Some((byte - '0' as u8) as u8)
    } else if 'a' as u8 <= byte <= 'f' as u8 {
        Some((byte - 'a' as u8 + 10) as u8)
    } else if 'A' as u8 <= byte <= 'F' as u8 {
        Some((byte - 'A' as u8 + 10) as u8)
    } else {
        None
    }
}

pub fn hex_value(byte: u8) -> (value: Option<u8>)
    ensures
        value == hex_digit_value(byte),
        value matches Some(value) ==> value < 16,
{
    if '0' as u8 <= byte && byte <= '9' as u8 {
        Some(byte - '0' as u8)
    } else if 'a' as u8 <= byte && byte <= 'f' as u8 {
        Some(byte - 'a' as u8 + 10)
    } else if 'A' as u8 <= byte && byte <= 'F' as u8 {
        Some(byte - 'A' as u8 + 10)
    } else {
        None
    }
}

/// The byte that `%` and two hexadecimal digits stand for.
pub open spec fn percent_byte(s: Seq<u8>) -> Option<u8> {
    if s.len() < 3 {
        None
    } else {
        match (hex_digit_value(s[1]), hex_digit_value(s[2])) {
            (Some(high), Some(low)) => Some((high * 16 + low) as u8),
            _ => None,
        }
    }
}

/// The bytes that percent-encoded bytes stand for; nothing where a `%` is not
/// followed by two hexadecimal digits.
pub open spec fn percent_decoded(s: Seq<u8>) -> Option<Seq<u8>>
    decreases s.len(),
{
    if s.len() == 0 {
        Some(s)
    } else if s[0] == '%' as u8 {
        match percent_byte(s) {
            Some(byte) => put_before(seq![byte], percent_decoded(s.skip(3))),
            None => None,
        }
    } else {
        put_before(seq![s[0]], percent_decoded(s.skip(1)))
    }
}

pub open spec fn put_before(start: Seq<u8>, rest: Option<Seq<u8>>) -> Option<Seq<u8>> {
    match rest {
        Some(rest) => Some(start + rest),
        None => None,
    }
}

/// The text that a percent-encoded text stands for.
pub open spec fn percent_decoded_text(chars: Seq<char>) -> Option<Seq<char>> {
    match percent_decoded(vstd::utf8::encode_utf8(chars)) {
        Some(bytes) => if vstd::utf8::valid_utf8(bytes) {
            Some(vstd::utf8::decode_utf8(bytes))
        } else {
            None
        },
        None => None,
    }
}

/// The directory and host of what follows `file://`.
pub open spec fn file_uri_cwd(rest: Seq<char>) -> Option<(Seq<char>, Option<Seq<char>>)> {
    let slash = text::char_index(rest, '/');
    if slash == rest.len() {
        None
    } else {
        match (percent_decoded_text(rest.take(slash)), percent_decoded_text(rest.skip(slash))) {
            (Some(authority), Some(path)) => Some(
                (
                    path,
                    if authority.len() == 0 {
                        None
                    } else {
                        Some(authority)
                    },
                ),
            ),
            _ => None,
        }
    }
}

/// `chars` without the quotes at its start and end.
pub open spec fn unquoted(chars: Seq<char>) -> Seq<char>
    decreases chars.len(),
{
    if chars.len() > 0 && chars[0] == '"' {
        unquoted(chars.drop_first())
    } else if chars.len() > 0 && chars.last() == '"' {
        unquoted(chars.drop_last())
    } else {
        chars
    }
}

/// The directory that a report names: a `file:` URI, or a bare path.
pub open spec fn reported_cwd(value: Seq<u8>) -> Option<(Seq<char>, Option<Seq<char>>)> {
    if !vstd::utf8::valid_utf8(value) {
        None
    } else {
        let chars = text::trim(vstd::utf8::decode_utf8(value));
        if seq!['f', 'i', 'l', 'e', ':', '/', '/'].is_prefix_of(chars) {
            file_uri_cwd(chars.skip(7))
        } else if unquoted(chars).len() == 0 {
            None
        } else {
            Some((unquoted(chars), None))
        }
    }
}

fn percent_decode_utf8(input: &[char]) -> (decoded: Option<String>)
    ensures
        text::opt_text(decoded) == percent_decoded_text(input@),
{
    let source = text_of(input);
    let bytes = source.as_str().as_bytes();
    let mut output: Vec<u8> = Vec::new();
    let mut idx: usize = 0;
    proof {
        assert(bytes@.skip(0) =~= bytes@);
        if let Some(all) = percent_decoded(bytes@) {
            assert(Seq::<u8>::empty() + all =~= all);
        }
    }
    while idx < bytes.len()
        invariant
            idx <= bytes.len(),
            bytes@ == vstd::utf8::encode_utf8(input@),
            percent_decoded(bytes@) == put_before(
                output@,
                percent_decoded(bytes@.skip(idx as int)),
            ),
        decreases bytes.len() - idx,
    {
        let ghost remaining = bytes@.skip(idx as int);
        let ghost before = output@;
        if bytes[idx] == '%' as u8 {
            if bytes.len() - idx < 3 {
                return None;
            }
            match (hex_value(bytes[idx + 1]), hex_value(bytes[idx + 2])) {
                (Some(high), Some(low)) => {
                    output.push(high * 16 + low);
                    proof {
                        assert(remaining.skip(3) =~= bytes@.skip(idx + 3));
                        lemma_put_before(before, (high * 16 + low) as u8, bytes@.skip(idx + 3));
                    }
                    idx += 3;
                },
                _ => return None,
            }
        } else {
            output.push(bytes[idx]);
            proof {
                assert(remaining.skip(1) =~= bytes@.skip(idx + 1));
                lemma_put_before(before, bytes@[idx as int], bytes@.skip(idx + 1));
            }
            idx += 1;
        }
    }
    assert(bytes@.skip(idx as int) =~= Seq::empty());
    assert(output@ + Seq::<u8>::empty() =~= output@);
    from_utf8(output)
}

proof fn lemma_put_before(start: Seq<u8>, byte: u8, rest: Seq<u8>)
    ensures
        put_before(start, put_before(seq![byte], percent_decoded(rest))) == put_before(
            start.push(byte),
            percent_decoded(rest),
        ),
{
    if let Some(decoded) = percent_decoded(rest) {
        assert(start + (seq![byte] + decoded) =~= start.push(byte) + decoded);
    }
}

proof fn lemma_empty_authority(rest: Seq<char>)
    ensures
        percent_decoded_text(rest.take(0)) == Some(Seq::<char>::empty()),
{
    assert(rest.take(0) =~= Seq::empty());
    assert(vstd::utf8::encode_utf8(rest.take(0)) =~= Seq::empty());
    assert(vstd::utf8::decode_utf8(Seq::empty()) =~= Seq::empty());
}

fn parse_file_uri_cwd(rest: &[char]) -> (cwd: Option<ReportedCwd>)
    ensures
        cwd_view(cwd) == file_uri_cwd(rest@),
{
    let mut slash: usize = 0;
    while slash < rest.len() && rest[slash] != '/'
        invariant
            slash <= rest.len(),
            forall|j: int| 0 <= j < slash ==> rest@[j] != '/',
        decreases rest.len() - slash,
    {
        slash += 1;
    }
    proof {
        text::lemma_char_index(rest@, '/', slash as int);
        lemma_empty_authority(rest@);
    }
    if slash == rest.len() {
        return None;
    }
    let authority: Option<String> = match percent_decode_utf8(&rest[0..slash]) {
        Some(authority) => if authority.as_str().is_empty() {
            None
        } else {
            Some(authority)
        },
        None => return None,
    };
    match percent_decode_utf8(&rest[slash..rest.len()]) {
        Some(path) => Some((path, authority)),
        None => None,
    }
}

fn without_quotes(chars: &[char]) -> (rest: &[char])
    ensures
        rest@ == unquoted(chars@),
{
    let mut start: usize = 0;
    let mut end: usize = chars.len();
    assert(chars@.subrange(0, end as int) =~= chars@);
    while start < end && (chars[start] == '"' || chars[end - 1] == '"')
        invariant
            start <= end <= chars.len(),
            unquoted(chars@) == unquoted(chars@.subrange(start as int, end as int)),
        decreases end - start,
    {
        let ghost middle = chars@.subrange(start as int, end as int);
        if chars[start] == '"' {
            assert(middle.drop_first() =~= chars@.subrange(start + 1, end as int));
            start += 1;
        } else {
            assert(middle.drop_last() =~= chars@.subrange(start as int, end - 1));
            end -= 1;
        }
    }
    &chars[start..end]
}

/// The directory that a report names.
pub fn parse_reported_cwd(value: &[u8]) -> (cwd: Option<ReportedCwd>)
    ensures
        cwd_view(cwd) == reported_cwd(value@),
{
    let decoded = match from_utf8(copied(value)) {
        Some(decoded) => decoded,
        None => return None,
    };
    let all = chars_of(decoded.as_str());
    let chars = trimmed(all.as_slice());
    if chars.len() >= 7 && chars[0] == 'f' && chars[1] == 'i' && chars[2] == 'l' && chars[3] == 'e'
        && chars[4] == ':' && chars[5] == '/' && chars[6] == '/' {
        assert(seq!['f', 'i', 'l', 'e', ':', '/', '/'] =~= chars@.subrange(0, 7));
        assert(chars@.subrange(7, chars@.len() as int) =~= chars@.skip(7));
        return parse_file_uri_cwd(&chars[7..chars.len()]);
    }
    proof {
        if seq!['f', 'i', 'l', 'e', ':', '/', '/'].is_prefix_of(chars@) {
            let prefix = chars@.subrange(0, 7);
            assert(prefix[0] == 'f' && prefix[1] == 'i' && prefix[2] == 'l' && prefix[3] == 'e'
                && prefix[4] == ':' && prefix[5] == '/' && prefix[6] == '/');
        }
    }
    let path = without_quotes(chars);
    if path.len() == 0 {
        None
    } else {
        Some((text_of(path), None))
    }
}

pub open spec fn ascii_letter(ch: char) -> bool {
    'a' <= ch <= 'z' || 'A' <= ch <= 'Z'
}

/// The Windows path of a URI path: a drive letter loses the slash before it,
/// and slashes become backslashes.
pub open spec fn windows_path_of(path: Seq<char>) -> Seq<char> {
    let path = if path.len() >= 3 && path[0] == '/' && path[2] == ':' && ascii_letter(path[1]) {
        path.skip(1)
    } else {
        path
    };
    Seq::new(
        path.len(),
        |i: int|
            if path[i] == '/' {
                '\\'
            } else {
                path[i]
            },
    )
}

pub fn windows_path(path: &str) -> (native: String)
    ensures
        native@ == windows_path_of(path@),
{
    let chars = chars_of(path);
    let ghost all = chars@;
    let start: usize = if chars.len() >= 3 && chars[0] == '/' && chars[2] == ':' && (('a'
        <= chars[1] && chars[1] <= 'z') || ('A' <= chars[1] && chars[1] <= 'Z')) {
        1
    } else {
        0
    };
    let ghost kept = all.skip(start as int);
    assert(start == 0 ==> kept =~= all);
    let mut native: Vec<char> = Vec::new();
    let mut i: usize = start;
    while i < chars.len()
        invariant
            start <= i <= chars.len(),
            start <= 1,
            chars@ == all,
            kept == all.skip(start as int),
            native@ == windows_path_of(all).take(i - start),
            windows_path_of(all).len() == kept.len(),
            forall|j: int|
                0 <= j < kept.len() ==> #[trigger] windows_path_of(all)[j] == (if kept[j] == '/' {
                    '\\'
                } else {
                    kept[j]
                }),
        decreases chars.len() - i,
    {
        let ch = if chars[i] == '/' {
            '\\'
        } else {
            chars[i]
        };
        native.push(ch);
        assert(kept[i - start] == all[i as int]);
        assert(windows_path_of(all)[i - start] == ch);
        i += 1;
        assert(native@ =~= windows_path_of(all).take(i - start));
    }
    assert(native@ =~= windows_path_of(all));
    text_of(native.as_slice())
}

/// Percent decoding leaves a text without percent signs as it is.
pub proof fn law_plain_text_decodes_to_itself(s: Seq<u8>)
    requires
        forall|i: int| 0 <= i < s.len() ==> s[i] != '%' as u8,
    ensures
        percent_decoded(s) == Some(s),
    decreases s.len(),
{
    if s.len() > 0 {
        law_plain_text_decodes_to_itself(s.skip(1));
        assert(seq![s[0]] + s.skip(1) =~= s);
    }
}

/// Decoding never makes a text longer.
pub proof fn law_decoding_does_not_grow(s: Seq<u8>)
    ensures
        percent_decoded(s) matches Some(decoded) ==> decoded.len() <= s.len(),
    decreases s.len(),
{
    if s.len() > 0 {
        if s[0] == '%' as u8 {
            if percent_byte(s) is Some {
                law_decoding_does_not_grow(s.skip(3));
            }
        } else {
            law_decoding_does_not_grow(s.skip(1));
        }
    }
}

/// A percent sign and two hexadecimal digits, in either case, stand for the byte of that
/// value; without them the whole text means nothing.
pub proof fn law_percent_signs(high: u8, low: u8, rest: Seq<u8>)
    requires
        high < 16,
        low < 16,
    ensures
        ({
            let lower = "0123456789abcdef"@;
            let upper = "0123456789ABCDEF"@;
            let byte = (high * 16 + low) as u8;
            let decoded = match percent_decoded(rest) {
                Some(rest) => Some(seq![byte] + rest),
                None => None,
            };
            &&& percent_decoded(
                seq!['%' as u8, lower[high as int] as u8, lower[low as int] as u8] + rest,
            ) == decoded
            &&& percent_decoded(
                seq!['%' as u8, upper[high as int] as u8, upper[low as int] as u8] + rest,
            ) == decoded
        }),
{
    reveal_strlit("0123456789abcdef");
    reveal_strlit("0123456789ABCDEF");
    let lower = "0123456789abcdef"@;
    let upper = "0123456789ABCDEF"@;
    let first = seq!['%' as u8, lower[high as int] as u8, lower[low as int] as u8] + rest;
    let second = seq!['%' as u8, upper[high as int] as u8, upper[low as int] as u8] + rest;
    assert(first.skip(3) =~= rest);
    assert(second.skip(3) =~= rest);
    assert(hex_digit_value(lower[high as int] as u8) == Some(high));
    assert(hex_digit_value(lower[low as int] as u8) == Some(low));
    assert(hex_digit_value(upper[high as int] as u8) == Some(high));
    assert(hex_digit_value(upper[low as int] as u8) == Some(low));
}

/// A percent sign that no two hexadecimal digits follow makes a text meaningless.
pub proof fn law_broken_percent_signs(s: Seq<u8>)
    requires
        s.len() > 0,
        s[0] == '%' as u8,
        s.len() < 3 || hex_digit_value(s[1]) is None || hex_digit_value(s[2]) is None,
    ensures
        percent_decoded(s) is None,
{
}

proof fn lemma_plain_chars(chars: Seq<char>)
    requires
        vstd::utf8::is_ascii_chars(chars),
        forall|i: int| 0 <= i < chars.len() ==> chars[i] != '%',
    ensures
        percent_decoded_text(chars) == Some(chars),
{
    let bytes = vstd::utf8::encode_utf8(chars);
    vstd::utf8::is_ascii_chars_encode_utf8(chars);
    assert forall|i: int| 0 <= i < bytes.len() implies bytes[i] != '%' as u8 by {
        assert(bytes[i] == chars[i] as u8);
    }
    law_plain_text_decodes_to_itself(bytes);
    vstd::utf8::encode_utf8_valid_utf8(chars);
    vstd::utf8::encode_utf8_decode_utf8(chars);
}

/// A file URI reports the directory behind its host, and the host where it names one.
pub proof fn law_file_uris_report_host_and_directory(host: Seq<char>, path: Seq<char>)
    requires
        vstd::utf8::is_ascii_chars(host),
        vstd::utf8::is_ascii_chars(path),
        forall|i: int| 0 <= i < host.len() ==> host[i] != '%' && host[i] != '/',
        forall|i: int| 0 <= i < path.len() ==> path[i] != '%',
        path.len() > 0,
        path[0] == '/',
    ensures
        host.len() > 0 ==> file_uri_cwd(host + path) == Some((path, Some(host))),
        host.len() == 0 ==> file_uri_cwd(host + path) == Some((path, None::<Seq<char>>)),
        file_uri_cwd(host) is None,
{
    let rest = host + path;
    assert(rest[host.len() as int] == '/');
    assert forall|j: int| 0 <= j < host.len() implies rest[j] != '/' by {
        assert(rest[j] == host[j]);
    }
    text::lemma_char_index(rest, '/', host.len() as int);
    text::lemma_char_index(host, '/', host.len() as int);
    assert(rest.take(host.len() as int) =~= host);
    assert(rest.skip(host.len() as int) =~= path);
    lemma_plain_chars(host);
    lemma_plain_chars(path);
}

/// A report without a scheme is the directory itself, without the quotes around it; an empty
/// one reports nothing.
pub proof fn law_bare_paths_are_directories(path: Seq<char>)
    requires
        path.len() > 0,
        !text::whitespace(path[0]),
        !text::whitespace(path.last()),
        path[0] != '"',
        path.last() != '"',
        path[0] != 'f',
    ensures
        reported_cwd(vstd::utf8::encode_utf8(path)) == Some((path, None::<Seq<char>>)),
        reported_cwd(vstd::utf8::encode_utf8(seq!['"'] + path + seq!['"'])) == Some(
            (path, None::<Seq<char>>),
        ),
        reported_cwd(Seq::empty()) is None,
{
    vstd::utf8::encode_utf8_valid_utf8(path);
    vstd::utf8::encode_utf8_decode_utf8(path);
    let empty = Seq::<char>::empty();
    text::law_trim(empty, path, empty);
    assert(empty + path + empty =~= path);
    let file = seq!['f', 'i', 'l', 'e', ':', '/', '/'];
    if file.is_prefix_of(path) {
        assert(path.subrange(0, 7)[0] == path[0]);
        assert(file[0] == 'f');
    }
    let quoted = seq!['"'] + path + seq!['"'];
    vstd::utf8::encode_utf8_valid_utf8(quoted);
    vstd::utf8::encode_utf8_decode_utf8(quoted);
    text::law_trim(empty, quoted, empty);
    assert(empty + quoted + empty =~= quoted);
    if file.is_prefix_of(quoted) {
        assert(quoted.subrange(0, 7)[0] == quoted[0]);
        assert(file[0] == 'f');
    }
    let open = quoted.drop_first();
    assert(open =~= path + seq!['"']);
    assert(open.drop_last() =~= path);
    reveal_with_fuel(unquoted, 4);
    assert(unquoted(path) == path);
    assert(unquoted(open) == path);
    assert(unquoted(quoted) == path);
    assert(Seq::<u8>::empty() =~= vstd::utf8::encode_utf8(empty));
    vstd::utf8::encode_utf8_valid_utf8(empty);
    vstd::utf8::encode_utf8_decode_utf8(empty);
    assert(text::trim(empty) == empty);
}

/// On Windows a path loses the slash before its drive, and its slashes turn round.
pub proof fn law_windows_paths(drive: char, rest: Seq<char>)
    requires
        'a' <= drive <= 'z' || 'A' <= drive <= 'Z',
    ensures
        ({
            let path = seq!['/', drive, ':'] + rest;
            let native = windows_path_of(path);
            &&& native.len() == path.len() - 1
            &&& native[0] == drive && native[1] == ':'
            &&& forall|i: int|
                0 <= i < rest.len() ==> #[trigger] native[i + 2] == (if rest[i] == '/' {
                    '\\'
                } else {
                    rest[i]
                })
        }),
        rest.len() > 0 && rest[0] != '/' ==> windows_path_of(rest).len() == rest.len(),
        forall|i: int|
            0 <= i < windows_path_of(rest).len() ==> #[trigger] windows_path_of(rest)[i] != '/',
{
    let path = seq!['/', drive, ':'] + rest;
    let kept = path.skip(1);
    let native = windows_path_of(path);
    assert(native.len() == kept.len());
    assert forall|i: int| 0 <= i < rest.len() implies #[trigger] native[i + 2] == (if rest[i]
        == '/' {
        '\\'
    } else {
        rest[i]
    }) by {
        assert(kept[i + 2] == rest[i]);
    }
    assert(kept[0] == drive && kept[1] == ':');
}

} // verus!
