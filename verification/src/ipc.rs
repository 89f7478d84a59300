//! Local sockets: what errors mean, and when a socket or its directory may be touched.
use crate::bytes::{bytes_equal, split_fields};
use crate::text::{decimal_text, push_char};
use vstd::prelude::*;
use vstd::string::StringExecFns;

verus! {

/// The classes of system errors that are told apart.
#[derive(Debug, Clone, Copy, PartialEq, Eq, Structural)]
pub enum IoErrorKind {
    NotFound,
    PermissionDenied,
    ConnectionRefused,
    ConnectionReset,
    ConnectionAborted,
    NotConnected,
    AddrInUse,
    BrokenPipe,
    AlreadyExists,
    WouldBlock,
    InvalidInput,
    InvalidData,
    TimedOut,
    WriteZero,
    Interrupted,
    Unsupported,
    UnexpectedEof,
    Other,
}

/// Errors that say that nobody listens on a socket any more.
pub open spec fn stale_connect_error(kind: IoErrorKind, windows: bool) -> bool {
    ||| kind == IoErrorKind::ConnectionRefused
    ||| kind == IoErrorKind::NotFound
    ||| kind == IoErrorKind::TimedOut
    ||| windows && kind == IoErrorKind::WouldBlock
}

pub fn stale_socket_connect_error(kind: IoErrorKind, windows: bool) -> (stale: bool)
    ensures
        stale == stale_connect_error(kind, windows),
{
    matches!(
        kind,
        IoErrorKind::ConnectionRefused | IoErrorKind::NotFound | IoErrorKind::TimedOut
    ) || (windows && matches!(kind, IoErrorKind::WouldBlock))
}

/// Errors that say that the peer is gone.
pub open spec fn connection_closed(kind: IoErrorKind) -> bool {
    ||| kind == IoErrorKind::BrokenPipe
    ||| kind == IoErrorKind::ConnectionAborted
    ||| kind == IoErrorKind::ConnectionReset
    ||| kind == IoErrorKind::NotConnected
    ||| kind == IoErrorKind::UnexpectedEof
    ||| kind == IoErrorKind::WriteZero
}

pub fn is_connection_closed_error(kind: IoErrorKind) -> (closed: bool)
    ensures
        closed == connection_closed(kind),
{
    matches!(
        kind,
        IoErrorKind::BrokenPipe | IoErrorKind::ConnectionAborted | IoErrorKind::ConnectionReset
            | IoErrorKind::NotConnected | IoErrorKind::UnexpectedEof | IoErrorKind::WriteZero
    )
}

/// System error codes that say that a named pipe's other end is closed.
pub fn windows_named_pipe_closed_error(code: Option<i32>) -> (closed: bool)
    ensures
        closed == (code matches Some(code) && (code == 6 || code == 109 || code == 232 || code
            == 233)),
{
    match code {
        Some(code) => code == 6 || code == 109 || code == 232 || code == 233,
        None => false,
    }
}

/// How an attempt to connect went.
#[derive(Debug, Clone, Copy, PartialEq, Eq, Structural)]
pub enum ConnectOutcome {
    Connected,
    Failed(IoErrorKind),
}

/// What to do with a socket path before it is bound.
#[derive(Debug, Clone, Copy, PartialEq, Eq, Structural)]
pub enum SocketPathStep {
    Ready,
    Busy,
    RemoveStale,
    Fail(IoErrorKind),
}

/// What to do with a socket path. `existing` is how connecting went, where
/// something stands at the path: somebody who answers is left alone, what
/// nobody listens on is removed, and any other error is reported.
pub fn prepare_socket_path(existing: Option<ConnectOutcome>, windows: bool) -> (step:
    SocketPathStep)
    ensures
        step == (match existing {
            None => SocketPathStep::Ready,
            Some(ConnectOutcome::Connected) => SocketPathStep::Busy,
            Some(ConnectOutcome::Failed(kind)) => if stale_connect_error(kind, windows) {
                SocketPathStep::RemoveStale
            } else {
                SocketPathStep::Fail(kind)
            },
        }),
{
    match existing {
        None => SocketPathStep::Ready,
        Some(ConnectOutcome::Connected) => SocketPathStep::Busy,
        Some(ConnectOutcome::Failed(kind)) => if stale_socket_connect_error(kind, windows) {
            SocketPathStep::RemoveStale
        } else {
            SocketPathStep::Fail(kind)
        },
    }
}

/// What removing a file comes to: a file that is already gone counts as removed.
pub fn removal_result(failed: Option<IoErrorKind>) -> (result: Result<(), IoErrorKind>)
    ensures
        result == (match failed {
            Some(kind) => if kind == IoErrorKind::NotFound {
                Ok::<(), IoErrorKind>(())
            } else {
                Err(kind)
            },
            None => Ok(()),
        }),
{
    match failed {
        Some(kind) => if matches!(kind, IoErrorKind::NotFound) {
            Ok(())
        } else {
            Err(kind)
        },
        None => Ok(()),
    }
}

/// How a read went.
#[derive(Debug, Clone, Copy, PartialEq, Eq, Structural)]
pub enum ReadOutcome {
    Read(usize),
    Failed(IoErrorKind),
}

/// What a read says about a stream.
#[derive(Debug, Clone, Copy, PartialEq, Eq, Structural)]
pub enum LocalStreamReadCount {
    Data(usize),
    Pending,
    Closed,
    Error(IoErrorKind),
}

/// What a read that does not block says about a stream.
pub fn poll_read_count(outcome: ReadOutcome) -> (count: LocalStreamReadCount)
    ensures
        count == (match outcome {
            ReadOutcome::Read(read) => if read == 0 {
                LocalStreamReadCount::Closed
            } else {
                LocalStreamReadCount::Data(read)
            },
            ReadOutcome::Failed(kind) => if kind == IoErrorKind::WouldBlock {
                LocalStreamReadCount::Pending
            } else {
                LocalStreamReadCount::Error(kind)
            },
        }),
{
    match outcome {
        ReadOutcome::Read(read) => if read == 0 {
            LocalStreamReadCount::Closed
        } else {
            LocalStreamReadCount::Data(read)
        },
        ReadOutcome::Failed(kind) => if matches!(kind, IoErrorKind::WouldBlock) {
            LocalStreamReadCount::Pending
        } else {
            LocalStreamReadCount::Error(kind)
        },
    }
}

/// What a named pipe says: how much is available, `None` once its other end is
/// closed, and how reading went where anything was available.
pub fn poll_pipe_read_count(available: Option<u32>, outcome: ReadOutcome) -> (count:
    LocalStreamReadCount)
    ensures
        count == (match available {
            None => LocalStreamReadCount::Closed,
            Some(available) => if available == 0 {
                LocalStreamReadCount::Pending
            } else {
                match outcome {
                    ReadOutcome::Read(read) => if read == 0 {
                        LocalStreamReadCount::Closed
                    } else {
                        LocalStreamReadCount::Data(read)
                    },
                    ReadOutcome::Failed(kind) => if connection_closed(kind) {
                        LocalStreamReadCount::Closed
                    } else {
                        LocalStreamReadCount::Error(kind)
                    },
                }
            },
        }),
{
    match available {
        None => LocalStreamReadCount::Closed,
        Some(available) => if available == 0 {
            LocalStreamReadCount::Pending
        } else {
            match outcome {
                ReadOutcome::Read(read) => if read == 0 {
                    LocalStreamReadCount::Closed
                } else {
                    LocalStreamReadCount::Data(read)
                },
                ReadOutcome::Failed(kind) => if is_connection_closed_error(kind) {
                    LocalStreamReadCount::Closed
                } else {
                    LocalStreamReadCount::Error(kind)
                },
            }
        },
    }
}

/// Whether a one-byte read that does not block shows that the peer has closed.
/// A peer that is not expected to send counts as closed also when it does.
pub fn probe_stream_closed(outcome: ReadOutcome) -> (closed: Result<bool, IoErrorKind>)
    ensures
        closed == (match outcome {
            ReadOutcome::Read(_) => Ok::<bool, IoErrorKind>(true),
            ReadOutcome::Failed(kind) => if kind == IoErrorKind::WouldBlock || kind
                == IoErrorKind::Interrupted {
                Ok(false)
            } else if connection_closed(kind) {
                Ok(true)
            } else {
                Err(kind)
            },
        }),
{
    match outcome {
        ReadOutcome::Read(_) => Ok(true),
        ReadOutcome::Failed(kind) => if matches!(
            kind,
            IoErrorKind::WouldBlock | IoErrorKind::Interrupted
        ) {
            Ok(false)
        } else if is_connection_closed_error(kind) {
            Ok(true)
        } else {
            Err(kind)
        },
    }
}

/// Whether syncing a directory failed only because the system cannot do it.
pub fn directory_sync_unsupported(kind: IoErrorKind) -> (unsupported: bool)
    ensures
        unsupported == (kind == IoErrorKind::Unsupported || kind == IoErrorKind::InvalidInput),
{
    matches!(kind, IoErrorKind::Unsupported | IoErrorKind::InvalidInput)
}

/// What is known of a file without following links.
#[derive(Debug, Clone, Copy, PartialEq, Eq, Structural)]
pub struct FileFacts {
    pub is_dir: bool,
    pub is_file: bool,
    pub is_symlink: bool,
    pub uid: u32,
    pub mode: u32,
    pub dev: u64,
    pub ino: u64,
}

/// Why a socket's directory is refused.
#[derive(Debug, Clone, Copy, PartialEq, Eq, Structural)]
pub enum ParentRefusal {
    NotOwnerControlled,
    ChangedWhileSecured,
    HasAccessControlList,
}

/// The permission bits of a mode.
pub open spec fn permission_bits(mode: u32) -> int {
    mode as int % 512
}

/// Whether a directory may be made private: it must be the user's own.
pub fn parent_before(opened: FileFacts, euid: u32) -> (checked: Result<(), ParentRefusal>)
    ensures
        checked == (if opened.is_dir && opened.uid == euid {
            Ok::<(), ParentRefusal>(())
        } else {
            Err(ParentRefusal::NotOwnerControlled)
        }),
{
    if !opened.is_dir || opened.uid != euid {
        Err(ParentRefusal::NotOwnerControlled)
    } else {
        Ok(())
    }
}

/// Whether the directory that was made private is still the one that its name
/// leads to, still the user's own, and private.
pub fn parent_after(opened: FileFacts, named: FileFacts, euid: u32) -> (checked: Result<
    (),
    ParentRefusal,
>)
    ensures
        checked == (if !named.is_symlink && named.is_dir && named.dev == opened.dev && named.ino
            == opened.ino && opened.uid == euid && permission_bits(opened.mode) == 0o700 {
            Ok::<(), ParentRefusal>(())
        } else {
            Err(ParentRefusal::ChangedWhileSecured)
        }),
{
    if named.is_symlink || !named.is_dir || named.dev != opened.dev || named.ino != opened.ino
        || opened.uid != euid || opened.mode % 512 != 0o700 {
        Err(ParentRefusal::ChangedWhileSecured)
    } else {
        Ok(())
    }
}

pub open spec fn lower_byte(byte: u8) -> u8 {
    if 'A' as u8 <= byte <= 'Z' as u8 {
        (byte + 32) as u8
    } else {
        byte
    }
}

/// Whether `acl` stands at position `i`, in letters of either case.
pub open spec fn acl_at(name: Seq<u8>, i: int) -> bool {
    &&& 0 <= i
    &&& i + 3 <= name.len()
    &&& lower_byte(name[i]) == 'a' as u8
    &&& lower_byte(name[i + 1]) == 'c' as u8
    &&& lower_byte(name[i + 2]) == 'l' as u8
}

pub open spec fn names_acl(name: Seq<u8>) -> bool {
    exists|i: int| #[trigger] acl_at(name, i)
}

/// Whether one of the attribute names, which zero bytes separate, is of an
/// access control list.
pub open spec fn attributes_name_acl(names: Seq<u8>) -> bool {
    exists|k: int|
        0 <= k < crate::bytes::fields(names, 0).len() && names_acl(
            #[trigger] crate::bytes::fields(names, 0)[k],
        )
}

fn lower(byte: u8) -> (low: u8)
    ensures
        low == lower_byte(byte),
{
    if 'A' as u8 <= byte && byte <= 'Z' as u8 {
        byte + 32
    } else {
        byte
    }
}

fn is_acl_name(name: &[u8]) -> (found: bool)
    ensures
        found == names_acl(name@),
{
    let mut i: usize = 0;
    while i < name.len() && name.len() - i >= 3
        invariant
            i <= name.len(),
            forall|j: int| 0 <= j < i ==> !acl_at(name@, j),
        decreases name.len() - i,
    {
        if lower(name[i]) == 'a' as u8 && lower(name[i + 1]) == 'c' as u8 && lower(name[i + 2])
            == 'l' as u8 {
            assert(acl_at(name@, i as int));
            return true;
        }
        i += 1;
    }
    false
}

/// Whether a directory's attributes leave it to its permission bits alone who
/// may enter it.
pub fn parent_attributes(names: &[u8]) -> (checked: Result<(), ParentRefusal>)
    ensures
        checked == (if attributes_name_acl(names@) {
            Err::<(), ParentRefusal>(ParentRefusal::HasAccessControlList)
        } else {
            Ok(())
        }),
{
    let pieces = split_fields(names, 0);
    let ghost all = crate::bytes::fields(names@, 0);
    let mut k: usize = 0;
    while k < pieces.len()
        invariant
            k <= pieces.len(),
            all == crate::bytes::fields(names@, 0),
            crate::bytes::views(pieces@) == all,
            forall|j: int| 0 <= j < k ==> !names_acl(#[trigger] all[j]),
        decreases pieces.len() - k,
    {
        assert(all[k as int] == pieces@[k as int]@);
        if is_acl_name(pieces[k].as_slice()) {
            assert(names_acl(crate::bytes::fields(names@, 0)[k as int]));
            return Err(ParentRefusal::HasAccessControlList);
        }
        k += 1;
    }
    Ok(())
}

/// What tells one socket file from another at the same path.
#[derive(Debug, Clone, PartialEq, Eq)]
pub enum SocketFileIdentity {
    Node { dev: u64, ino: u64 },
    Marker { content: Vec<u8> },
}

pub open spec fn same_socket_file(left: SocketFileIdentity, right: SocketFileIdentity) -> bool {
    match (left, right) {
        (
            SocketFileIdentity::Node { dev, ino },
            SocketFileIdentity::Node { dev: other_dev, ino: other_ino },
        ) => dev == other_dev && ino == other_ino,
        (
            SocketFileIdentity::Marker { content },
            SocketFileIdentity::Marker { content: other },
        ) => content@ == other@,
        _ => false,
    }
}

/// What to do about a socket file that is to be removed.
#[derive(Debug, Clone, Copy, PartialEq, Eq, Structural)]
pub enum OwnedRemoval {
    Remove,
    Leave,
    Fail(IoErrorKind),
}

/// A socket file is removed only while it still is the one that was bound.
/// `current` is what stands at the path now.
pub fn remove_socket_file_if_owned(
    current: Result<SocketFileIdentity, IoErrorKind>,
    bound: &SocketFileIdentity,
) -> (removal: OwnedRemoval)
    ensures
        removal == (match current {
            Ok(current) => if same_socket_file(current, *bound) {
                OwnedRemoval::Remove
            } else {
                OwnedRemoval::Leave
            },
            Err(kind) => if kind == IoErrorKind::NotFound {
                OwnedRemoval::Leave
            } else {
                OwnedRemoval::Fail(kind)
            },
        }),
{
    let current = match current {
        Ok(current) => current,
        Err(kind) => {
            return if matches!(kind, IoErrorKind::NotFound) {
                OwnedRemoval::Leave
            } else {
                OwnedRemoval::Fail(kind)
            };
        },
    };
    let same = match (&current, bound) {
        (
            SocketFileIdentity::Node { dev, ino },
            SocketFileIdentity::Node { dev: other_dev, ino: other_ino },
        ) => *dev == *other_dev && *ino == *other_ino,
        (
            SocketFileIdentity::Marker { content },
            SocketFileIdentity::Marker { content: other },
        ) => bytes_equal(content.as_slice(), other.as_slice()),
        _ => false,
    };
    if same {
        OwnedRemoval::Remove
    } else {
        OwnedRemoval::Leave
    }
}

/// The content that marks a pipe's file: the process and the time that made it.
pub fn windows_socket_marker(pid: u32, nanos: u128) -> (marker: String)
    ensures
        marker@ == crate::text::decimal(pid as nat) + seq![':'] + crate::text::decimal(
            nanos as nat,
        ),
{
    let mut marker = decimal_text(pid as u128);
    push_char(&mut marker, ':');
    marker.append(decimal_text(nanos).as_str());
    assert(marker@ =~= crate::text::decimal(pid as nat) + seq![':'] + crate::text::decimal(
        nanos as nat,
    ));
    marker
}

/// A socket is stale exactly where nobody answers at it: the connection is refused, times
/// out, or there is nothing; on Windows also where it would block.
pub proof fn law_stale_sockets(kind: IoErrorKind)
    ensures
        stale_connect_error(kind, false) <==> kind is ConnectionRefused || kind is NotFound || kind
            is TimedOut,
        stale_connect_error(kind, true) <==> kind is ConnectionRefused || kind is NotFound || kind
            is TimedOut || kind is WouldBlock,
{
}

/// A peer is gone exactly if its end of the connection was closed, broken or never there;
/// an error that may pass does not say so.
pub proof fn law_closed_connections(kind: IoErrorKind)
    ensures
        connection_closed(kind) <==> kind is BrokenPipe || kind is ConnectionAborted || kind
            is ConnectionReset || kind is NotConnected || kind is UnexpectedEof || kind is WriteZero,
        kind is WouldBlock || kind is Interrupted || kind is TimedOut ==> !connection_closed(kind),
{
}

/// The permissions are the lowest nine bits of a mode.
pub proof fn law_permission_bits(above: u32, permissions: u32)
    requires
        permissions < 512,
        above <= 0x7f_ffff,
    ensures
        permission_bits((above * 512 + permissions) as u32) == permissions,
{
    assert((above * 512 + permissions) % 512 == permissions) by (nonlinear_arith)
        requires
            0 <= permissions < 512,
            above >= 0,
    ;
    assert(above * 512 + permissions <= 0xffff_ffff) by (nonlinear_arith)
        requires
            0 <= permissions < 512,
            0 <= above <= 0x7f_ffff,
    ;
}

/// An attribute is of an access control list if `acl` stands anywhere in its name, in letters
/// of either case, and only then.
pub proof fn law_access_control_lists_are_found(start: Seq<u8>, word: Seq<u8>, end: Seq<u8>)
    requires
        word.len() == 3,
        word[0] == 'a' as u8 || word[0] == 'A' as u8,
        word[1] == 'c' as u8 || word[1] == 'C' as u8,
        word[2] == 'l' as u8 || word[2] == 'L' as u8,
    ensures
        names_acl(start + word + end),
        forall|name: Seq<u8>|
            (forall|i: int|
                0 <= i < name.len() ==> #[trigger] name[i] != 'l' as u8 && name[i] != 'L' as u8)
                ==> !#[trigger] names_acl(name),
{
    let whole = start + word + end;
    let at = start.len() as int;
    assert(whole[at] == word[0] && whole[at + 1] == word[1] && whole[at + 2] == word[2]);
    assert(acl_at(whole, at));
    assert forall|name: Seq<u8>|
        (forall|i: int|
            0 <= i < name.len() ==> #[trigger] name[i] != 'l' as u8 && name[i] != 'L' as u8)
            implies !#[trigger] names_acl(name) by {
        if names_acl(name) {
            let i = choose|i: int| #[trigger] acl_at(name, i);
            assert(name[i + 2] != 'l' as u8 && name[i + 2] != 'L' as u8);
        }
    }
}

/// A socket file is known by its node, or by what it holds; the two never stand for each
/// other.
pub proof fn law_socket_files_are_told_apart(left: SocketFileIdentity, right: SocketFileIdentity)
    ensures
        same_socket_file(left, left),
        same_socket_file(left, right) == same_socket_file(right, left),
        left is Node && right is Marker ==> !same_socket_file(left, right),
        left is Node && right is Node && same_socket_file(left, right) ==> left == right,
        left is Marker && right is Marker ==> (same_socket_file(left, right)
            <==> left->content@ == right->content@),
{
}

} // verus!
