//! The identity that a client announces: its display name and its tokens.
use crate::execution::remote;
use crate::random::{random_bytes, random_error_text};
use crate::text::{self, chars_of, is_control, is_whitespace};
use base64::Engine;
use unicode_width::UnicodeWidthStr;
use vstd::prelude::*;
use vstd::string::StringExecFns;

verus! {

/// The random bytes behind a token.
pub const PROFILE_ID_BYTES: usize = 32;

/// Client-local, non-authoritative identity announced on a connection.
#[derive(Debug, Clone, PartialEq, Eq)]
pub struct ClientIdentity {
    pub display_name: Option<String>,
    pub frontend_profile_id: String,
    /// Local high-entropy capability used only to bind this client's native renderer process.
    pub renderer_binding_token: String,
}

/// The content of an identity.
pub struct IdentityView {
    pub display_name: Option<Seq<char>>,
    pub frontend_profile_id: Seq<char>,
    pub renderer_binding_token: Seq<char>,
}

impl View for ClientIdentity {
    type V = IdentityView;

    open spec fn view(&self) -> IdentityView {
        IdentityView {
            display_name: text::opt_text(self.display_name),
            frontend_profile_id: self.frontend_profile_id@,
            renderer_binding_token: self.renderer_binding_token@,
        }
    }
}

/// What is stored of an identity.
#[derive(Debug, Clone, PartialEq, Eq)]
pub struct IdentityFile {
    pub display_name: Option<String>,
    pub frontend_profile_id: String,
    pub renderer_binding_token: Option<String>,
}

/// The content of a stored identity.
pub struct IdentityFileView {
    pub display_name: Option<Seq<char>>,
    pub frontend_profile_id: Seq<char>,
    pub renderer_binding_token: Option<Seq<char>>,
}

impl View for IdentityFile {
    type V = IdentityFileView;

    open spec fn view(&self) -> IdentityFileView {
        IdentityFileView {
            display_name: text::opt_text(self.display_name),
            frontend_profile_id: self.frontend_profile_id@,
            renderer_binding_token: text::opt_text(self.renderer_binding_token),
        }
    }
}

/// What is wrong with a display name.
#[derive(Debug, Clone, Copy, PartialEq, Eq, Structural)]
pub enum NameProblem {
    NotTrimmed,
    WrongLength,
    TooManyBytes,
    TooWide,
    DisallowedCharacter,
}

impl NameProblem {
    pub open spec fn text(self) -> Seq<char> {
        match self {
            NameProblem::NotTrimmed => "must already be trimmed"@,
            NameProblem::WrongLength => "must contain 1–64 Unicode scalar values"@,
            NameProblem::TooManyBytes => "must be at most 64 UTF-8 bytes"@,
            NameProblem::TooWide => "must be at most 32 display cells"@,
            NameProblem::DisallowedCharacter => "contains a disallowed control character"@,
        }
    }

    pub fn message(self) -> (message: &'static str)
        ensures
            message@ == self.text(),
    {
        match self {
            NameProblem::NotTrimmed => "must already be trimmed",
            NameProblem::WrongLength => "must contain 1–64 Unicode scalar values",
            NameProblem::TooManyBytes => "must be at most 64 UTF-8 bytes",
            NameProblem::TooWide => "must be at most 32 display cells",
            NameProblem::DisallowedCharacter => "contains a disallowed control character",
        }
    }
}

#[derive(Debug, Clone, PartialEq, Eq)]
pub enum IdentityError {
    InvalidDisplayName(NameProblem),
    InvalidProfileId,
    Random(String),
}

/// How many terminal columns a text takes.
pub uninterp spec fn display_width(text: Seq<char>) -> nat;

/// Calls `UnicodeWidthStr::width`: claims that the width is a function of the
/// text alone. How wide a given text is, is left to the name.
#[verifier::external_body]
pub(crate) fn width_of(text: &str) -> (width: usize)
    ensures
        width == display_width(text@),
{
    text.width()
}

/// The six bits from bit `6 * i` on, with zeros behind the last byte.
pub open spec fn sextet(bytes: Seq<u8>, i: int) -> int {
    let at = 6 * i / 8;
    let pair = bytes[at] * 256 + (if at + 1 < bytes.len() {
        bytes[at + 1] as int
    } else {
        0
    });
    let offset = 6 * i % 8;
    if offset == 0 {
        pair / 1024 % 64
    } else if offset == 6 {
        pair / 16 % 64
    } else if offset == 4 {
        pair / 64 % 64
    } else {
        pair / 256 % 64
    }
}

/// The URL-safe base64 digit of a value below 64.
pub open spec fn url_safe_digit(value: int) -> char {
    if value < 26 {
        ('A' as u32 + value) as char
    } else if value < 52 {
        ('a' as u32 + value - 26) as char
    } else if value < 62 {
        ('0' as u32 + value - 52) as char
    } else if value == 62 {
        '-'
    } else {
        '_'
    }
}

/// URL-safe base64 without padding.
pub open spec fn url_safe_base64(bytes: Seq<u8>) -> Seq<char> {
    Seq::new(((8 * bytes.len() + 5) / 6) as nat, |i: int| url_safe_digit(sextet(bytes, i)))
}

/// Calls `URL_SAFE_NO_PAD.encode` of `base64`: claims one digit of the URL-safe
/// alphabet for every six bits, and no padding.
#[verifier::external_body]
pub(crate) fn encode_url_safe(bytes: &[u8]) -> (text: String)
    requires
        bytes@.len() <= usize::MAX / 2,
    ensures
        text@ == url_safe_base64(bytes@),
{
    base64::engine::general_purpose::URL_SAFE_NO_PAD.encode(bytes)
}

pub open spec fn token_char(ch: char) -> bool {
    'a' <= ch <= 'z' || 'A' <= ch <= 'Z' || '0' <= ch <= '9' || ch == '-' || ch == '_'
}

/// A token: as many URL-safe base64 digits as its bytes make.
pub open spec fn valid_profile_id(value: Seq<char>) -> bool {
    value.len() == 43 && forall|i: int| 0 <= i < value.len() ==> token_char(#[trigger] value[i])
}

/// Characters that could disguise a name: brackets, controls, and characters
/// that are invisible or change the direction of text.
pub open spec fn disallowed_in_names(ch: char) -> bool {
    ||| ch == '['
    ||| ch == ']'
    ||| text::control(ch)
    ||| ch == '\u{61c}'
    ||| ch == '\u{2028}'
    ||| ch == '\u{2029}'
    ||| ch == '\u{feff}'
    ||| '\u{200b}' <= ch <= '\u{200f}'
    ||| '\u{202a}' <= ch <= '\u{202e}'
    ||| '\u{2060}' <= ch <= '\u{2069}'
}

pub open spec fn holds_disallowed(name: Seq<char>) -> bool {
    exists|i: int| 0 <= i < name.len() && disallowed_in_names(#[trigger] name[i])
}

/// What is wrong with a name of a given width, where anything is.
pub open spec fn name_problem(name: Seq<char>, width: nat) -> Option<NameProblem> {
    if text::trim(name) != name {
        Some(NameProblem::NotTrimmed)
    } else if name.len() == 0 || name.len() > 64 {
        Some(NameProblem::WrongLength)
    } else if vstd::utf8::encode_utf8(name).len() > 64 {
        Some(NameProblem::TooManyBytes)
    } else if width > 32 {
        Some(NameProblem::TooWide)
    } else if holds_disallowed(name) {
        Some(NameProblem::DisallowedCharacter)
    } else {
        None
    }
}

fn is_disallowed_name_char(ch: char) -> (disallowed: bool)
    ensures
        disallowed == disallowed_in_names(ch),
{
    ch == '[' || ch == ']' || is_control(ch) || ch == '\u{61c}' || ch == '\u{2028}' || ch
        == '\u{2029}' || ch == '\u{feff}' || ('\u{200b}' <= ch && ch <= '\u{200f}') || ('\u{202a}'
        <= ch && ch <= '\u{202e}') || ('\u{2060}' <= ch && ch <= '\u{2069}')
}

proof fn lemma_trimmed(chars: Seq<char>)
    ensures
        (text::trim(chars) == chars) == (chars.len() == 0 || (!text::whitespace(chars[0])
            && !text::whitespace(chars.last()))),
{
    if chars.len() > 0 {
        lemma_trim_shortens(chars);
        lemma_trim_end_shortens(text::trim_start(chars));
        if text::whitespace(chars[0]) {
            assert(text::trim(chars).len() < chars.len());
        } else if text::whitespace(chars.last()) {
            assert(text::trim_start(chars) == chars);
            lemma_trim_end_shortens(chars.drop_last());
            assert(text::trim_end(chars).len() < chars.len());
        }
    }
}

proof fn lemma_trim_shortens(chars: Seq<char>)
    ensures
        text::trim_start(chars).len() <= chars.len(),
        chars.len() > 0 && text::whitespace(chars[0]) ==> text::trim_start(chars).len()
            < chars.len(),
    decreases chars.len(),
{
    if chars.len() > 0 && text::whitespace(chars[0]) {
        lemma_trim_shortens(chars.drop_first());
    }
}

proof fn lemma_trim_end_shortens(chars: Seq<char>)
    ensures
        text::trim_end(chars).len() <= chars.len(),
    decreases chars.len(),
{
    if chars.len() > 0 && text::whitespace(chars.last()) {
        lemma_trim_end_shortens(chars.drop_last());
    }
}

/// What is wrong with a name that takes `width` columns.
pub fn display_name_problem(name: &str, width: usize) -> (problem: Option<NameProblem>)
    ensures
        problem == name_problem(name@, width as nat),
{
    let chars = chars_of(name);
    proof {
        lemma_trimmed(name@);
    }
    if chars.len() > 0 && (is_whitespace(chars[0]) || is_whitespace(chars[chars.len() - 1])) {
        return Some(NameProblem::NotTrimmed);
    }
    if chars.len() == 0 || chars.len() > 64 {
        return Some(NameProblem::WrongLength);
    }
    if name.as_bytes().len() > 64 {
        return Some(NameProblem::TooManyBytes);
    }
    if width > 32 {
        return Some(NameProblem::TooWide);
    }
    let mut i: usize = 0;
    while i < chars.len()
        invariant
            i <= chars.len(),
            chars@ == name@,
            text::trim(name@) == name@,
            0 < name@.len() <= 64,
            vstd::utf8::encode_utf8(name@).len() <= 64,
            width <= 32,
            forall|j: int| 0 <= j < i ==> !disallowed_in_names(#[trigger] name@[j]),
        decreases chars.len() - i,
    {
        if is_disallowed_name_char(chars[i]) {
            assert(disallowed_in_names(name@[i as int]));
            return Some(NameProblem::DisallowedCharacter);
        }
        i += 1;
    }
    None
}

/// Validates a display-only name without transforming it.
pub fn validate_display_name(value: &str) -> (valid: Result<(), IdentityError>)
    ensures
        match name_problem(value@, display_width(value@)) {
            Some(problem) => valid == Err::<(), IdentityError>(
                IdentityError::InvalidDisplayName(problem),
            ),
            None => valid is Ok,
        },
{
    match display_name_problem(value, width_of(value)) {
        Some(problem) => Err(IdentityError::InvalidDisplayName(problem)),
        None => Ok(()),
    }
}

/// Whether a text can be a token.
pub fn validate_frontend_profile_id(value: &str) -> (valid: Result<(), IdentityError>)
    ensures
        valid is Ok == valid_profile_id(value@),
        valid matches Err(error) ==> error == IdentityError::InvalidProfileId,
{
    let chars = chars_of(value);
    if chars.len() != 43 {
        return Err(IdentityError::InvalidProfileId);
    }
    let mut i: usize = 0;
    while i < chars.len()
        invariant
            i <= chars.len(),
            chars@ == value@,
            forall|j: int| 0 <= j < i ==> token_char(#[trigger] value@[j]),
        decreases chars.len() - i,
    {
        let ch = chars[i];
        if !(('a' <= ch && ch <= 'z') || ('A' <= ch && ch <= 'Z') || ('0' <= ch && ch <= '9') || ch
            == '-' || ch == '_') {
            assert(!token_char(value@[i as int]));
            return Err(IdentityError::InvalidProfileId);
        }
        i += 1;
    }
    Ok(())
}

/// The base64 text of the bytes behind a token is a token.
pub proof fn law_random_token_valid(bytes: Seq<u8>)
    requires
        bytes.len() == PROFILE_ID_BYTES,
    ensures
        valid_profile_id(url_safe_base64(bytes)),
{
    let token = url_safe_base64(bytes);
    assert forall|i: int| 0 <= i < token.len() implies token_char(#[trigger] token[i]) by {
        assert(0 <= sextet(bytes, i) < 64);
        assert(token[i] == url_safe_digit(sextet(bytes, i)));
    }
}

/// A fresh token.
pub fn random_token() -> (token: Result<String, IdentityError>)
    ensures
        match token {
            Ok(token) => valid_profile_id(token@) && exists|bytes: Seq<u8>| #[trigger]
                url_safe_base64(bytes) == token@ && bytes.len() == PROFILE_ID_BYTES,
            Err(error) => error is Random,
        },
{
    match random_bytes(PROFILE_ID_BYTES) {
        Ok(bytes) => {
            proof {
                law_random_token_valid(bytes@);
            }
            random_token_of(Ok(bytes))
        },
        Err(error) => random_token_of(Err(random_error_text(error))),
    }
}

/// The token for what the random source gave: its bytes as URL-safe base64, or its
/// error where it gave none.
pub fn random_token_of(filled: Result<Vec<u8>, String>) -> (token: Result<String, IdentityError>)
    requires
        filled matches Ok(bytes) ==> bytes@.len() == PROFILE_ID_BYTES,
    ensures
        match filled {
            Ok(bytes) => token matches Ok(token) && token@ == url_safe_base64(bytes@),
            Err(error) => token == Err::<String, IdentityError>(IdentityError::Random(error)),
        },
{
    match filled {
        Ok(bytes) => Ok(encode_url_safe(bytes.as_slice())),
        Err(error) => Err(IdentityError::Random(error)),
    }
}

/// Where the identity is stored, given the configuration directory.
pub fn identity_path(config_dir: &str) -> (path: String)
    ensures
        path@ == remote::path_below(config_dir@, "identity.toml"@),
{
    let base = chars_of(config_dir);
    let mut path = config_dir.to_owned();
    if base.len() > 0 && base[base.len() - 1] != '/' {
        text::push_char(&mut path, '/');
        assert(path@ =~= config_dir@ + seq!['/']);
    }
    path.append("identity.toml");
    path
}

/// What is wrong with the fields of an identity, in the order in which they are
/// looked at.
pub open spec fn identity_problem(
    display_name: Option<Seq<char>>,
    frontend_profile_id: Seq<char>,
) -> Option<IdentityError> {
    let problem = match display_name {
        Some(name) => name_problem(name, display_width(name)),
        None => None,
    };
    match problem {
        Some(problem) => Some(IdentityError::InvalidDisplayName(problem)),
        None => if valid_profile_id(frontend_profile_id) {
            None
        } else {
            Some(IdentityError::InvalidProfileId)
        },
    }
}

/// The identity that a stored one comes to, and whether it must be stored again
/// because it had no renderer token and got `fresh_token`.
pub open spec fn stored_identity(file: IdentityFileView, fresh_token: Seq<char>) -> Result<
    (IdentityView, bool),
    IdentityError,
> {
    let token = match file.renderer_binding_token {
        Some(token) => token,
        None => fresh_token,
    };
    match identity_problem(file.display_name, file.frontend_profile_id) {
        Some(error) => Err(error),
        None => if valid_profile_id(token) {
            Ok(
                (
                    IdentityView {
                        display_name: file.display_name,
                        frontend_profile_id: file.frontend_profile_id,
                        renderer_binding_token: token,
                    },
                    file.renderer_binding_token is None,
                ),
            )
        } else {
            Err(IdentityError::InvalidProfileId)
        },
    }
}

fn check_fields(display_name: &Option<String>, frontend_profile_id: &str) -> (valid: Result<
    (),
    IdentityError,
>)
    ensures
        match identity_problem(text::opt_text(*display_name), frontend_profile_id@) {
            Some(problem) => valid == Err::<(), IdentityError>(problem),
            None => valid is Ok,
        },
{
    if let Some(name) = display_name {
        if let Err(error) = validate_display_name(name.as_str()) {
            return Err(error);
        }
    }
    validate_frontend_profile_id(frontend_profile_id)
}

/// The identity of a stored one, with a token for a file that has none.
pub fn identity_from_file(file: IdentityFile, fresh_token: String) -> (identity: Result<
    (ClientIdentity, bool),
    IdentityError,
>)
    ensures
        match identity {
            Ok((identity, save)) => stored_identity(file@, fresh_token@) == Ok::<
                (IdentityView, bool),
                IdentityError,
            >((identity@, save)),
            Err(error) => stored_identity(file@, fresh_token@) == Err::<
                (IdentityView, bool),
                IdentityError,
            >(error),
        },
{
    if let Err(error) = check_fields(&file.display_name, file.frontend_profile_id.as_str()) {
        return Err(error);
    }
    let (token, save) = match file.renderer_binding_token {
        Some(token) => (token, false),
        None => (fresh_token, true),
    };
    if let Err(error) = validate_frontend_profile_id(token.as_str()) {
        return Err(error);
    }
    Ok(
        (
            ClientIdentity {
                display_name: file.display_name,
                frontend_profile_id: file.frontend_profile_id,
                renderer_binding_token: token,
            },
            save,
        ),
    )
}

/// The identity that was stored, or a new one where none was, and whether it
/// must be stored now.
pub fn load_or_create_identity(stored: Option<IdentityFile>) -> (identity: Result<
    (ClientIdentity, bool),
    IdentityError,
>)
    ensures
        match (stored, identity) {
            (Some(file), Ok((identity, save))) => exists|token: Seq<char>|
                valid_profile_id(token) && #[trigger] stored_identity(file@, token) == Ok::<
                    (IdentityView, bool),
                    IdentityError,
                >((identity@, save)),
            (Some(file), Err(error)) => match identity_problem(
                file@.display_name,
                file@.frontend_profile_id,
            ) {
                Some(problem) => error == problem,
                None => error is Random || (file.renderer_binding_token is Some && error
                    == IdentityError::InvalidProfileId && !valid_profile_id(
                    file.renderer_binding_token->0@,
                )),
            },
            (None, Ok((identity, save))) => {
                &&& save
                &&& identity.display_name is None
                &&& valid_profile_id(identity.frontend_profile_id@)
                &&& valid_profile_id(identity.renderer_binding_token@)
            },
            (None, Err(error)) => error is Random,
        },
{
    match stored {
        Some(file) => {
            if let Err(error) = check_fields(&file.display_name, file.frontend_profile_id.as_str()) {
                return Err(error);
            }
            let token = match random_token() {
                Ok(token) => token,
                Err(error) => return Err(error),
            };
            let ghost fresh = token@;
            let identity = identity_from_file(file, token);
            proof {
                assert(valid_profile_id(fresh));
            }
            identity
        },
        None => {
            let frontend_profile_id = match random_token() {
                Ok(token) => token,
                Err(error) => return Err(error),
            };
            let renderer_binding_token = match random_token() {
                Ok(token) => token,
                Err(error) => return Err(error),
            };
            Ok(new_identity_of(frontend_profile_id, renderer_binding_token))
        },
    }
}

/// A new identity of two tokens. It has no name yet, and must be stored.
pub fn new_identity_of(profile: String, token: String) -> (made: (ClientIdentity, bool))
    ensures
        made.0@ == (IdentityView {
            display_name: None,
            frontend_profile_id: profile@,
            renderer_binding_token: token@,
        }),
        made.1,
{
    (
        ClientIdentity {
            display_name: None,
            frontend_profile_id: profile,
            renderer_binding_token: token,
        },
        true,
    )
}

/// What to write where to store an identity: a temporary file, which then
/// replaces the stored one.
#[derive(Debug, Clone, PartialEq, Eq)]
pub struct IdentitySave {
    pub file: IdentityFile,
    pub temporary_name: String,
}

/// What is wrong with an identity that is to be stored.
pub open spec fn save_problem(identity: IdentityView) -> Option<IdentityError> {
    match identity_problem(identity.display_name, identity.frontend_profile_id) {
        Some(error) => Some(error),
        None => if valid_profile_id(identity.renderer_binding_token) {
            None
        } else {
            Some(IdentityError::InvalidProfileId)
        },
    }
}

/// What is stored of an identity.
pub open spec fn stored_form(identity: IdentityView) -> IdentityFileView {
    IdentityFileView {
        display_name: identity.display_name,
        frontend_profile_id: identity.frontend_profile_id,
        renderer_binding_token: Some(identity.renderer_binding_token),
    }
}

/// How many random bytes make the name of a temporary file unique.
pub const TEMPORARY_NAME_BYTES: usize = 16;

/// The name of a temporary file, made unique by random bytes.
pub open spec fn temporary_name(random: Seq<u8>) -> Seq<char> {
    ".identity.toml."@ + url_safe_base64(random) + ".tmp"@
}

fn copied_name(name: &Option<String>) -> (copy: Option<String>)
    ensures
        text::opt_text(copy) == text::opt_text(*name),
{
    match name {
        Some(name) => Some(name.clone()),
        None => None,
    }
}

/// Whether an identity can be stored.
pub fn check_identity(identity: &ClientIdentity) -> (valid: Result<(), IdentityError>)
    ensures
        match save_problem(identity@) {
            Some(problem) => valid == Err::<(), IdentityError>(problem),
            None => valid is Ok,
        },
{
    if let Err(error) = check_fields(
        &identity.display_name,
        identity.frontend_profile_id.as_str(),
    ) {
        return Err(error);
    }
    validate_frontend_profile_id(identity.renderer_binding_token.as_str())
}

/// Re-validates every field of an identity and says what to store.
pub fn save_identity(identity: &ClientIdentity) -> (save: Result<IdentitySave, IdentityError>)
    ensures
        match save {
            Ok(save) => {
                &&& save_problem(identity@) is None
                &&& save.file@ == stored_form(identity@)
                &&& exists|random: Seq<u8>| #[trigger]
                    temporary_name(random) == save.temporary_name@ && random.len()
                        == TEMPORARY_NAME_BYTES
            },
            Err(error) => match save_problem(identity@) {
                Some(problem) => error == problem,
                None => error is Random,
            },
        },
{
    if let Err(error) = check_identity(identity) {
        return Err(error);
    }
    match random_bytes(TEMPORARY_NAME_BYTES) {
        Ok(random) => save_identity_with(identity, Ok(random)),
        Err(error) => save_identity_with(identity, Err(random_error_text(error))),
    }
}

/// What to store, for what the random source gave for the name of the temporary file.
pub fn save_identity_with(identity: &ClientIdentity, random: Result<Vec<u8>, String>) -> (save:
    Result<IdentitySave, IdentityError>)
    requires
        random matches Ok(bytes) ==> bytes@.len() == TEMPORARY_NAME_BYTES,
    ensures
        match (save_problem(identity@), random) {
            (Some(problem), _) => save == Err::<IdentitySave, IdentityError>(problem),
            (None, Ok(bytes)) => save matches Ok(save) && save.file@ == stored_form(identity@)
                && save.temporary_name@ == temporary_name(bytes@),
            (None, Err(error)) => save == Err::<IdentitySave, IdentityError>(
                IdentityError::Random(error),
            ),
        },
{
    if let Err(error) = check_identity(identity) {
        return Err(error);
    }
    let random = match random {
        Ok(random) => random,
        Err(error) => return Err(IdentityError::Random(error)),
    };
    let mut name = ".identity.toml.".to_owned();
    name.append(encode_url_safe(random.as_slice()).as_str());
    name.append(".tmp");
    assert(temporary_name(random@) == name@);
    Ok(
        IdentitySave {
            file: IdentityFile {
                display_name: copied_name(&identity.display_name),
                frontend_profile_id: identity.frontend_profile_id.clone(),
                renderer_binding_token: Some(identity.renderer_binding_token.clone()),
            },
            temporary_name: name,
        },
    )
}

/// An identity that can be stored is found again unchanged, and need not be
/// stored once more.
pub proof fn law_stored_identity_found_again(identity: IdentityView, fresh_token: Seq<char>)
    requires
        save_problem(identity) is None,
    ensures
        stored_identity(stored_form(identity), fresh_token) == Ok::<
            (IdentityView, bool),
            IdentityError,
        >((identity, false)),
{
}

/// An identity that is loaded can be stored.
pub proof fn law_loaded_identity_can_be_stored(file: IdentityFileView, fresh_token: Seq<char>)
    ensures
        stored_identity(file, fresh_token) matches Ok((identity, _)) ==> save_problem(identity)
            is None,
{
}

/// A name is accepted exactly if it is trimmed, has one to 64 characters, at most 64 bytes and
/// at most 32 columns, and holds nothing that could disguise it.
pub proof fn law_accepted_names(name: Seq<char>, width: nat)
    ensures
        name_problem(name, width) is None <==> {
            &&& 1 <= name.len() <= 64
            &&& !text::whitespace(name[0]) && !text::whitespace(name.last())
            &&& vstd::utf8::encode_utf8(name).len() <= 64
            &&& width <= 32
            &&& forall|i: int| 0 <= i < name.len() ==> !disallowed_in_names(#[trigger] name[i])
        },
        name.len() == 0 || (name.len() > 64 && !text::whitespace(name[0]) && !text::whitespace(
            name.last(),
        )) ==> name_problem(name, width) == Some(NameProblem::WrongLength),
        name.len() > 0 && (text::whitespace(name[0]) || text::whitespace(name.last()))
            ==> name_problem(name, width) == Some(NameProblem::NotTrimmed),
{
    lemma_trimmed(name);
}

/// Brackets, control characters and the characters that hide or turn text are not accepted in
/// names; letters, digits and spaces are.
pub proof fn law_disguises_are_not_accepted(ch: char)
    ensures
        ch == '[' || ch == ']' || ch as u32 <= 0x1f || 0x7f <= ch as u32 <= 0x9f
            ==> disallowed_in_names(ch),
        0x200b <= ch as u32 <= 0x200f || 0x202a <= ch as u32 <= 0x202e || 0x2060 <= ch as u32
            <= 0x2069 ==> disallowed_in_names(ch),
        ch as u32 == 0x61c || ch as u32 == 0x2028 || ch as u32 == 0x2029 || ch as u32 == 0xfeff
            ==> disallowed_in_names(ch),
        ' ' <= ch <= '~' && ch != '[' && ch != ']' ==> !disallowed_in_names(ch),
        0xa0 <= ch as u32 <= 0x61b || ch as u32 >= 0x1_0000 ==> !disallowed_in_names(ch),
{
}

/// A token is 43 letters, digits, dashes and underscores.
pub proof fn law_tokens(value: Seq<char>)
    ensures
        valid_profile_id(value) <==> value.len() == 43 && forall|i: int|
            0 <= i < value.len() ==> ('a' <= #[trigger] value[i] <= 'z' || 'A' <= value[i] <= 'Z'
                || '0' <= value[i] <= '9' || value[i] == '-' || value[i] == '_'),
{
    if valid_profile_id(value) {
        assert forall|i: int| 0 <= i < value.len() implies ('a' <= #[trigger] value[i] <= 'z' || 'A'
            <= value[i] <= 'Z' || '0' <= value[i] <= '9' || value[i] == '-' || value[i] == '_') by {
            assert(token_char(value[i]));
        }
    }
}

/// A stored identity is loaded as it was stored. Only a renderer token that it lacks is
/// added, and only then is it stored again.
pub proof fn law_loading_adds_only_a_missing_token(file: IdentityFileView, fresh_token: Seq<char>)
    ensures
        stored_identity(file, fresh_token) matches Ok((identity, save)) ==> {
            &&& identity.display_name == file.display_name
            &&& identity.frontend_profile_id == file.frontend_profile_id
            &&& file.renderer_binding_token == Some(identity.renderer_binding_token) || (
            file.renderer_binding_token is None && identity.renderer_binding_token == fresh_token)
            &&& save <==> file.renderer_binding_token is None
        },
        valid_profile_id(file.frontend_profile_id) && file.display_name is None
            && valid_profile_id(fresh_token) && file.renderer_binding_token is None
            ==> stored_identity(file, fresh_token) is Ok,
        !valid_profile_id(file.frontend_profile_id) ==> stored_identity(file, fresh_token) is Err,
{
}

/// A temporary file is named after the stored one, and hidden.
pub proof fn law_temporary_names(random: Seq<u8>)
    ensures
        temporary_name(random) == ".identity.toml."@ + url_safe_base64(random) + ".tmp"@,
        stored_form(
            IdentityView {
                display_name: None,
                frontend_profile_id: Seq::empty(),
                renderer_binding_token: url_safe_base64(random),
            },
        ).renderer_binding_token == Some(url_safe_base64(random)),
{
}

/// The digits of a token are the capital letters, the small ones, the figures, the dash and the
/// underscore, in this order.
pub proof fn law_token_digits(value: int)
    ensures
        0 <= value < 26 ==> url_safe_digit(value) as u32 == 65 + value,
        26 <= value < 52 ==> url_safe_digit(value) as u32 == 97 + value - 26,
        52 <= value < 62 ==> url_safe_digit(value) as u32 == 48 + value - 52,
        url_safe_digit(62) == '-',
        url_safe_digit(63) == '_',
{
}

} // verus!
