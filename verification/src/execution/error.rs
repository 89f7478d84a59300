//! Why an execution request is refused.
use vstd::prelude::*;

verus! {

/// The class of an error, as callers tell errors apart.
#[derive(Debug, Clone, Copy, PartialEq, Eq, Structural)]
pub enum ErrorKind {
    InvalidInput,
    InvalidData,
    TimedOut,
    AddrInUse,
    Other,
}

#[derive(Debug, Clone, PartialEq, Eq)]
pub enum ExecutionError {
    InvalidScheme,
    InvalidTarget,
    InvalidSshHost,
    MalformedTarget,
    NotAnExtensionTarget,
    NotAnSshTarget,
    UnresolvedPluginCommand,
    ProviderRequestTooLarge,
    RandomUnavailable(String),
    SocketPathNotUtf8,
    SocketPathNotRepresentable,
    InvalidApiSocket,
    InvalidRequestSocket,
    /// A request that encodes to more than may be sent.
    RequestTooLarge,
    /// A payload to write that is more than may be sent.
    PayloadTooLarge,
    /// A frame that tells a length over the limit.
    FrameTooLarge,
    ReadyPayloadTooLarge,
    InvalidReadyNonce,
    EmptyArgv,
    EmptyPluginCommand,
    ConnectTimedOut,
    DeliveryFailed(String),
    EmptyProviderCommand,
    SocketNotUnique,
}

impl ExecutionError {
    pub open spec fn kind_of(self) -> ErrorKind {
        match self {
            ExecutionError::RandomUnavailable(_) => ErrorKind::Other,
            ExecutionError::DeliveryFailed(_) => ErrorKind::Other,
            ExecutionError::FrameTooLarge => ErrorKind::InvalidData,
            ExecutionError::EmptyPluginCommand => ErrorKind::InvalidData,
            ExecutionError::ConnectTimedOut => ErrorKind::TimedOut,
            ExecutionError::EmptyProviderCommand => ErrorKind::InvalidData,
            ExecutionError::SocketNotUnique => ErrorKind::AddrInUse,
            _ => ErrorKind::InvalidInput,
        }
    }

    pub fn kind(&self) -> (kind: ErrorKind)
        ensures
            kind == self.kind_of(),
    {
        match self {
            ExecutionError::RandomUnavailable(_) => ErrorKind::Other,
            ExecutionError::DeliveryFailed(_) => ErrorKind::Other,
            ExecutionError::FrameTooLarge => ErrorKind::InvalidData,
            ExecutionError::EmptyPluginCommand => ErrorKind::InvalidData,
            ExecutionError::ConnectTimedOut => ErrorKind::TimedOut,
            ExecutionError::EmptyProviderCommand => ErrorKind::InvalidData,
            ExecutionError::SocketNotUnique => ErrorKind::AddrInUse,
            _ => ErrorKind::InvalidInput,
        }
    }

    pub open spec fn text(self) -> Seq<char> {
        match self {
            ExecutionError::InvalidScheme =>
                "execution provider scheme must match [a-z][a-z0-9+.-]* and must not be local or ssh"@,
            ExecutionError::InvalidTarget =>
                "execution provider target must be non-empty and contain no whitespace or control characters"@,
            ExecutionError::InvalidSshHost =>
                "SSH host must be a non-empty target without whitespace or a leading dash"@,
            ExecutionError::MalformedTarget =>
                "execution target must be local, ssh:<host>, or <provider-scheme>:<target>"@,
            ExecutionError::NotAnExtensionTarget =>
                "execution provider command requires an extension execution target"@,
            ExecutionError::NotAnSshTarget => "SSH command requires an SSH execution target"@,
            ExecutionError::UnresolvedPluginCommand =>
                "execution providers require Herdr to resolve plugin commands to argv"@,
            ExecutionError::ProviderRequestTooLarge =>
                "execution provider request exceeds 16384 bytes"@,
            ExecutionError::RandomUnavailable(text) => text@,
            ExecutionError::SocketPathNotUtf8 => "SSH streamlocal socket path must be valid UTF-8"@,
            ExecutionError::SocketPathNotRepresentable =>
                "SSH streamlocal socket path must be absolute and contain no ':', '\\', or NUL"@,
            ExecutionError::InvalidApiSocket =>
                "remote API socket must be a random Herdr socket under /tmp"@,
            ExecutionError::InvalidRequestSocket =>
                "remote execution request socket must be a random Herdr socket under /tmp"@,
            ExecutionError::RequestTooLarge => "remote execution request exceeds 1048576 bytes"@,
            ExecutionError::PayloadTooLarge => "remote execution request is too large"@,
            ExecutionError::FrameTooLarge => "remote execution request exceeds 1048576 bytes"@,
            ExecutionError::ReadyPayloadTooLarge =>
                "remote execution ready payload exceeds 32768 bytes"@,
            ExecutionError::InvalidReadyNonce => "invalid remote execution readiness nonce"@,
            ExecutionError::EmptyArgv => "argv must not be empty"@,
            ExecutionError::EmptyPluginCommand => "resolved plugin command is empty"@,
            ExecutionError::ConnectTimedOut =>
                "remote execution did not connect to its request socket"@,
            ExecutionError::DeliveryFailed(text) => text@,
            ExecutionError::EmptyProviderCommand =>
                "execution provider process command must not be empty"@,
            ExecutionError::SocketNotUnique =>
                "could not create a unique remote execution request socket"@,
        }
    }

    /// The message that is shown for the error.
    pub fn message(&self) -> (message: String)
        ensures
            message@ == self.text(),
    {
        match self {
            ExecutionError::InvalidScheme =>
                "execution provider scheme must match [a-z][a-z0-9+.-]* and must not be local or ssh".to_owned(),
            ExecutionError::InvalidTarget =>
                "execution provider target must be non-empty and contain no whitespace or control characters".to_owned(),
            ExecutionError::InvalidSshHost =>
                "SSH host must be a non-empty target without whitespace or a leading dash".to_owned(),
            ExecutionError::MalformedTarget =>
                "execution target must be local, ssh:<host>, or <provider-scheme>:<target>".to_owned(),
            ExecutionError::NotAnExtensionTarget =>
                "execution provider command requires an extension execution target".to_owned(),
            ExecutionError::NotAnSshTarget =>
                "SSH command requires an SSH execution target".to_owned(),
            ExecutionError::UnresolvedPluginCommand =>
                "execution providers require Herdr to resolve plugin commands to argv".to_owned(),
            ExecutionError::ProviderRequestTooLarge =>
                "execution provider request exceeds 16384 bytes".to_owned(),
            ExecutionError::RandomUnavailable(text) => text.clone(),
            ExecutionError::SocketPathNotUtf8 =>
                "SSH streamlocal socket path must be valid UTF-8".to_owned(),
            ExecutionError::SocketPathNotRepresentable =>
                "SSH streamlocal socket path must be absolute and contain no ':', '\\', or NUL".to_owned(),
            ExecutionError::InvalidApiSocket =>
                "remote API socket must be a random Herdr socket under /tmp".to_owned(),
            ExecutionError::InvalidRequestSocket =>
                "remote execution request socket must be a random Herdr socket under /tmp".to_owned(),
            ExecutionError::RequestTooLarge =>
                "remote execution request exceeds 1048576 bytes".to_owned(),
            ExecutionError::PayloadTooLarge => "remote execution request is too large".to_owned(),
            ExecutionError::FrameTooLarge =>
                "remote execution request exceeds 1048576 bytes".to_owned(),
            ExecutionError::ReadyPayloadTooLarge =>
                "remote execution ready payload exceeds 32768 bytes".to_owned(),
            ExecutionError::InvalidReadyNonce =>
                "invalid remote execution readiness nonce".to_owned(),
            ExecutionError::EmptyArgv => "argv must not be empty".to_owned(),
            ExecutionError::EmptyPluginCommand => "resolved plugin command is empty".to_owned(),
            ExecutionError::ConnectTimedOut =>
                "remote execution did not connect to its request socket".to_owned(),
            ExecutionError::DeliveryFailed(text) => text.clone(),
            ExecutionError::EmptyProviderCommand =>
                "execution provider process command must not be empty".to_owned(),
            ExecutionError::SocketNotUnique =>
                "could not create a unique remote execution request socket".to_owned(),
        }
    }
}

} // verus!
