//! Random bytes and their hexadecimal text.
use crate::text::text_of;
use vstd::prelude::*;

verus! {

/// The error of the system's random source.
#[verifier::external_type_specification]
#[verifier::external_body]
pub struct ExRandomError(getrandom::Error);

/// Calls `getrandom::fill`: claims that on success as many bytes as were asked
/// for are filled. Nothing is claimed of the bytes themselves.
#[verifier::external_body]
pub(crate) fn random_bytes(len: usize) -> (bytes: Result<Vec<u8>, getrandom::Error>)
    ensures
        bytes matches Ok(bytes) ==> bytes@.len() == len,
{
    let mut bytes = vec![0_u8; len];
    getrandom::fill(&mut bytes).map(|()| bytes)
}

/// Calls the `Display` of `getrandom::Error`; nothing is claimed of the text.
#[verifier::external_body]
pub(crate) fn random_error_text(error: getrandom::Error) -> (text: String) {
    error.to_string()
}

/// The lower-case hexadecimal digit of a value below 16.
pub open spec fn hex_digit(value: int) -> char {
    if value < 10 {
        ('0' as u32 + value) as char
    } else {
        ('a' as u32 + value - 10) as char
    }
}

pub open spec fn lower_hex(ch: char) -> bool {
    '0' <= ch <= '9' || 'a' <= ch <= 'f'
}

/// Two hexadecimal digits for each byte.
pub open spec fn hex_of(bytes: Seq<u8>) -> Seq<char>
    decreases bytes.len(),
{
    if bytes.len() == 0 {
        Seq::empty()
    } else {
        hex_of(bytes.drop_last()).push(hex_digit(bytes.last() as int / 16)).push(
            hex_digit(bytes.last() as int % 16),
        )
    }
}

pub fn hex_digit_char(value: u8) -> (digit: char)
    requires
        value < 16,
    ensures
        digit == hex_digit(value as int),
{
    if value < 10 {
        ('0' as u8 + value) as char
    } else {
        ('a' as u8 + (value - 10)) as char
    }
}

/// Two hexadecimal digits for each byte.
pub fn hex_string(bytes: &[u8]) -> (text: String)
    ensures
        text@ == hex_of(bytes@),
{
    let mut digits: Vec<char> = Vec::new();
    let mut i: usize = 0;
    assert(bytes@.take(0) =~= Seq::empty());
    while i < bytes.len()
        invariant
            i <= bytes.len(),
            digits@ == hex_of(bytes@.take(i as int)),
        decreases bytes.len() - i,
    {
        assert(bytes@.take(i as int + 1).drop_last() =~= bytes@.take(i as int));
        digits.push(hex_digit_char(bytes[i] / 16));
        digits.push(hex_digit_char(bytes[i] % 16));
        i += 1;
    }
    assert(bytes@.take(i as int) =~= bytes@);
    text_of(digits.as_slice())
}

/// The hexadecimal text of `n` bytes is `2 * n` lower-case hexadecimal digits.
pub proof fn law_hex_text(bytes: Seq<u8>)
    ensures
        hex_of(bytes).len() == 2 * bytes.len(),
        forall|i: int| 0 <= i < hex_of(bytes).len() ==> lower_hex(#[trigger] hex_of(bytes)[i]),
    decreases bytes.len(),
{
    if bytes.len() > 0 {
        law_hex_text(bytes.drop_last());
        let earlier = hex_of(bytes.drop_last());
        assert forall|i: int| 0 <= i < hex_of(bytes).len() implies lower_hex(
            #[trigger] hex_of(bytes)[i],
        ) by {
            if i < earlier.len() {
                assert(hex_of(bytes)[i] == earlier[i]);
            }
        }
    }
}

/// Different byte sequences have different hexadecimal texts.
pub proof fn law_hex_injective(left: Seq<u8>, right: Seq<u8>)
    requires
        hex_of(left) == hex_of(right),
    ensures
        left == right,
    decreases left.len(),
{
    law_hex_text(left);
    law_hex_text(right);
    assert(left.len() == right.len());
    if left.len() > 0 {
        let n = hex_of(left).len();
        let before_left = hex_of(left.drop_last());
        let before_right = hex_of(right.drop_last());
        law_hex_text(left.drop_last());
        law_hex_text(right.drop_last());
        assert(hex_of(left).take(n - 2) =~= before_left);
        assert(hex_of(right).take(n - 2) =~= before_right);
        law_hex_injective(left.drop_last(), right.drop_last());
        assert(hex_of(left)[n - 2] == hex_digit(left.last() as int / 16));
        assert(hex_of(right)[n - 2] == hex_digit(right.last() as int / 16));
        assert(hex_of(left)[n - 1] == hex_digit(left.last() as int % 16));
        assert(hex_of(right)[n - 1] == hex_digit(right.last() as int % 16));
        lemma_hex_digit_injective(left.last() as int / 16, right.last() as int / 16);
        lemma_hex_digit_injective(left.last() as int % 16, right.last() as int % 16);
        assert(left =~= left.drop_last().push(left.last()));
        assert(right =~= right.drop_last().push(right.last()));
    }
}

proof fn lemma_hex_digit_injective(left: int, right: int)
    requires
        0 <= left < 16,
        0 <= right < 16,
        hex_digit(left) == hex_digit(right),
    ensures
        left == right,
{
    assert(left < 10 ==> hex_digit(left) as u32 == '0' as u32 + left);
    assert(left >= 10 ==> hex_digit(left) as u32 == 'a' as u32 + left - 10);
    assert(right < 10 ==> hex_digit(right) as u32 == '0' as u32 + right);
    assert(right >= 10 ==> hex_digit(right) as u32 == 'a' as u32 + right - 10);
}

/// A byte is written as its higher and then its lower digit, in the order of the bytes.
pub proof fn law_hex_digits_of_each_byte(bytes: Seq<u8>, i: int)
    requires
        0 <= i < bytes.len(),
    ensures
        hex_of(bytes).len() == 2 * bytes.len(),
        hex_of(bytes)[2 * i] == "0123456789abcdef"@[bytes[i] as int / 16],
        hex_of(bytes)[2 * i + 1] == "0123456789abcdef"@[bytes[i] as int % 16],
    decreases bytes.len(),
{
    reveal_strlit("0123456789abcdef");
    law_hex_text(bytes);
    law_hex_text(bytes.drop_last());
    if i < bytes.len() - 1 {
        law_hex_digits_of_each_byte(bytes.drop_last(), i);
    }
}

} // verus!
