//! The secret by which a pane knows that its remote helper is ready.
use crate::execution::error::ExecutionError;
use crate::random::{self, hex_string, random_bytes, random_error_text};
use crate::text::{chars_of, same_text};
use vstd::prelude::*;

verus! {

pub const REMOTE_EXEC_READY_NONCE_BYTES: usize = 16;

/// A readiness secret: hexadecimal digits, two for each of its bytes. It has no
/// `Debug`, so that no log can hold it.
#[derive(Clone, PartialEq, Eq)]
pub struct RemoteExecReadyNonce {
    text: String,
}

impl View for RemoteExecReadyNonce {
    type V = Seq<char>;

    closed spec fn view(&self) -> Seq<char> {
        self.text@
    }
}

pub open spec fn hex_digit_of_either_case(ch: char) -> bool {
    '0' <= ch <= '9' || 'a' <= ch <= 'f' || 'A' <= ch <= 'F'
}

/// What a nonce that was received may be.
pub open spec fn valid_nonce(text: Seq<char>) -> bool {
    &&& text.len() == 2 * REMOTE_EXEC_READY_NONCE_BYTES
    &&& forall|i: int| 0 <= i < text.len() ==> hex_digit_of_either_case(#[trigger] text[i])
}

/// Random bytes as hexadecimal text.
pub fn random_hex_string(byte_len: usize) -> (text: Result<String, ExecutionError>)
    ensures
        match text {
            Ok(text) => exists|bytes: Seq<u8>| #[trigger]
                random::hex_of(bytes) == text@ && bytes.len() == byte_len,
            Err(error) => error is RandomUnavailable,
        },
{
    match random_bytes(byte_len) {
        Ok(bytes) => random_hex_string_of(Ok(bytes)),
        Err(error) => random_hex_string_of(Err(random_error_text(error))),
    }
}

/// The text for what the random source gave: its bytes as hexadecimal text, or its
/// error where it gave none.
pub fn random_hex_string_of(filled: Result<Vec<u8>, String>) -> (text: Result<
    String,
    ExecutionError,
>)
    ensures
        match filled {
            Ok(bytes) => text matches Ok(text) && text@ == random::hex_of(bytes@),
            Err(error) => text == Err::<String, ExecutionError>(
                ExecutionError::RandomUnavailable(error),
            ),
        },
{
    match filled {
        Ok(bytes) => Ok(hex_string(bytes.as_slice())),
        Err(error) => Err(ExecutionError::RandomUnavailable(error)),
    }
}

impl RemoteExecReadyNonce {
    /// The nonce of given bytes.
    pub fn from_bytes(bytes: &[u8]) -> (nonce: Self)
        ensures
            nonce@ == random::hex_of(bytes@),
    {
        RemoteExecReadyNonce { text: hex_string(bytes) }
    }

    /// A fresh nonce.
    pub fn generate() -> (nonce: Result<Self, ExecutionError>)
        ensures
            match nonce {
                Ok(nonce) => valid_nonce(nonce@) && exists|bytes: Seq<u8>| #[trigger]
                    random::hex_of(bytes) == nonce@ && bytes.len() == REMOTE_EXEC_READY_NONCE_BYTES,
                Err(error) => error is RandomUnavailable,
            },
    {
        match random_bytes(REMOTE_EXEC_READY_NONCE_BYTES) {
            Ok(bytes) => {
                proof {
                    random::law_hex_text(bytes@);
                    assert forall|i: int| 0 <= i < random::hex_of(bytes@).len() implies
                        hex_digit_of_either_case(#[trigger] random::hex_of(bytes@)[i]) by {
                        assert(random::lower_hex(random::hex_of(bytes@)[i]));
                    }
                }
                RemoteExecReadyNonce::generated_from(Ok(bytes))
            },
            Err(error) => RemoteExecReadyNonce::generated_from(Err(random_error_text(error))),
        }
    }

    /// The nonce for what the random source gave.
    pub fn generated_from(filled: Result<Vec<u8>, String>) -> (nonce: Result<Self, ExecutionError>)
        ensures
            match filled {
                Ok(bytes) => nonce matches Ok(nonce) && nonce@ == random::hex_of(bytes@),
                Err(error) => nonce == Err::<Self, ExecutionError>(
                    ExecutionError::RandomUnavailable(error),
                ),
            },
    {
        match filled {
            Ok(bytes) => Ok(RemoteExecReadyNonce::from_bytes(bytes.as_slice())),
            Err(error) => Err(ExecutionError::RandomUnavailable(error)),
        }
    }

    /// A nonce that was received: exactly the hexadecimal texts of its length.
    pub fn received(text: &str) -> (nonce: Result<Self, ExecutionError>)
        ensures
            match nonce {
                Ok(nonce) => valid_nonce(text@) && nonce@ == text@,
                Err(error) => !valid_nonce(text@) && error is InvalidReadyNonce,
            },
    {
        let chars = chars_of(text);
        if chars.len() != 2 * REMOTE_EXEC_READY_NONCE_BYTES {
            return Err(ExecutionError::InvalidReadyNonce);
        }
        let mut i: usize = 0;
        while i < chars.len()
            invariant
                i <= chars.len(),
                chars@ == text@,
                forall|j: int| 0 <= j < i ==> hex_digit_of_either_case(#[trigger] text@[j]),
            decreases chars.len() - i,
        {
            let ch = chars[i];
            if !(('0' <= ch && ch <= '9') || ('a' <= ch && ch <= 'f') || ('A' <= ch && ch
                <= 'F')) {
                assert(!hex_digit_of_either_case(text@[i as int]));
                return Err(ExecutionError::InvalidReadyNonce);
            }
            i += 1;
        }
        Ok(RemoteExecReadyNonce { text: text.to_owned() })
    }

    pub fn as_str(&self) -> (text: &str)
        ensures
            text@ == self@,
    {
        self.text.as_str()
    }

    pub fn matches(&self, candidate: &str) -> (same: bool)
        ensures
            same == (candidate@ == self@),
    {
        same_text(self.text.as_str(), candidate)
    }

    /// Another copy of the same secret.
    pub fn duplicate(&self) -> (copy: Self)
        ensures
            copy@ == self@,
    {
        RemoteExecReadyNonce { text: self.text.clone() }
    }
}

/// A nonce is accepted exactly if it is thirty-two hexadecimal digits, large or small.
pub proof fn law_accepted_nonces(text: Seq<char>)
    ensures
        valid_nonce(text) <==> text.len() == 32 && forall|i: int|
            0 <= i < text.len() ==> ('0' <= #[trigger] text[i] <= '9' || 'a' <= text[i] <= 'f'
                || 'A' <= text[i] <= 'F'),
{
    if valid_nonce(text) {
        assert forall|i: int| 0 <= i < text.len() implies ('0' <= #[trigger] text[i] <= '9' || 'a'
            <= text[i] <= 'f' || 'A' <= text[i] <= 'F') by {
            assert(hex_digit_of_either_case(text[i]));
        }
    }
}

} // verus!
