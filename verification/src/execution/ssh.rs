//! Running the remote helper over SSH: its arguments and its private sockets.
use crate::bytes::{bytes_equal, copied, split_fields, starts_with};
use crate::execution::error::ExecutionError;
use crate::execution::nonce::random_hex_string;
use crate::random;
use crate::text::{chars_of, find_char, from_utf8};
use vstd::prelude::*;
use vstd::string::StringExecFns;

verus! {

pub const REMOTE_SOCKET_NONCE_BYTES: usize = 16;

/// The sockets that a remote command reaches its session and its request by.
#[derive(Debug, Clone, PartialEq, Eq)]
pub struct RemoteExecSsh {
    pub api_forward: String,
    pub request_forward: String,
    pub remote_command: String,
}

/// The arguments of `ssh`.
pub open spec fn ssh_argument_list(
    host: Seq<char>,
    pty: bool,
    api_forward: Seq<char>,
    request_forward: Seq<char>,
    remote_command: Seq<char>,
) -> Seq<Seq<char>> {
    seq![
        if pty {
            "-tt"@
        } else {
            "-T"@
        },
        "-o"@,
        "BatchMode=yes"@,
        "-o"@,
        "ConnectTimeout=10"@,
        "-o"@,
        "ConnectionAttempts=1"@,
        "-o"@,
        "ExitOnForwardFailure=yes"@,
        "-o"@,
        "ControlPath=none"@,
        "-o"@,
        "StreamLocalBindMask=0177"@,
        "-R"@,
        api_forward,
        "-R"@,
        request_forward,
        host,
        remote_command,
    ]
}

impl RemoteExecSsh {
    pub fn ssh_args(&self, host: &str, pty: bool) -> (args: Vec<String>)
        ensures
            crate::json::texts(args@) == ssh_argument_list(
                host@,
                pty,
                self.api_forward@,
                self.request_forward@,
                self.remote_command@,
            ),
    {
        let mut args: Vec<String> = Vec::new();
        args.push(
            if pty {
                "-tt".to_owned()
            } else {
                "-T".to_owned()
            },
        );
        args.push("-o".to_owned());
        args.push("BatchMode=yes".to_owned());
        args.push("-o".to_owned());
        args.push("ConnectTimeout=10".to_owned());
        args.push("-o".to_owned());
        args.push("ConnectionAttempts=1".to_owned());
        args.push("-o".to_owned());
        args.push("ExitOnForwardFailure=yes".to_owned());
        args.push("-o".to_owned());
        args.push("ControlPath=none".to_owned());
        args.push("-o".to_owned());
        args.push("StreamLocalBindMask=0177".to_owned());
        args.push("-R".to_owned());
        args.push(self.api_forward.clone());
        args.push("-R".to_owned());
        args.push(self.request_forward.clone());
        args.push(host.to_owned());
        args.push(self.remote_command.clone());
        assert(crate::json::texts(args@) =~= ssh_argument_list(
            host@,
            pty,
            self.api_forward@,
            self.request_forward@,
            self.remote_command@,
        ));
        args
    }
}

/// A path that an SSH forward can name.
pub open spec fn forwardable(path: Seq<char>) -> bool {
    &&& path.len() > 0
    &&& path[0] == '/'
    &&& !path.contains(':')
    &&& !path.contains('\\')
    &&& !path.contains('\0')
}

/// The text of a socket path in an SSH forward.
pub open spec fn streamlocal_path(path: Seq<u8>) -> Result<Seq<char>, ExecutionError> {
    if !vstd::utf8::valid_utf8(path) {
        Err(ExecutionError::SocketPathNotUtf8)
    } else if !forwardable(vstd::utf8::decode_utf8(path)) {
        Err(ExecutionError::SocketPathNotRepresentable)
    } else {
        Ok(vstd::utf8::decode_utf8(path))
    }
}

/// The text of a forward from a remote to a local socket.
pub open spec fn forward_of(remote: Seq<u8>, local: Seq<u8>) -> Result<Seq<char>, ExecutionError> {
    match (streamlocal_path(remote), streamlocal_path(local)) {
        (Err(error), _) => Err(error),
        (_, Err(error)) => Err(error),
        (Ok(remote), Ok(local)) => Ok(remote + ":"@ + local),
    }
}

fn lacks_char(chars: &[char], ch: char) -> (lacks: bool)
    ensures
        lacks == !chars@.contains(ch),
{
    proof {
        crate::text::lemma_char_index_found(chars@, ch);
    }
    match find_char(chars, ch) {
        Some(i) => false,
        None => {
            proof {
                lemma_absent(chars@, ch);
            }
            true
        },
    }
}

proof fn lemma_absent(chars: Seq<char>, ch: char)
    requires
        crate::text::char_index(chars, ch) == chars.len(),
    ensures
        !chars.contains(ch),
    decreases chars.len(),
{
    if chars.len() > 0 {
        lemma_absent(chars.drop_first(), ch);
        if chars.contains(ch) {
            let i = choose|i: int| 0 <= i < chars.len() && chars[i] == ch;
            assert(chars.drop_first()[i - 1] == ch);
        }
    }
}

/// The text of a socket path in an SSH forward.
pub fn ssh_streamlocal_socket_path(path: &[u8]) -> (text: Result<String, ExecutionError>)
    ensures
        match text {
            Ok(text) => streamlocal_path(path@) == Ok::<Seq<char>, ExecutionError>(text@),
            Err(error) => streamlocal_path(path@) == Err::<Seq<char>, ExecutionError>(error),
        },
{
    let text = match from_utf8(copied(path)) {
        Some(text) => text,
        None => return Err(ExecutionError::SocketPathNotUtf8),
    };
    let chars = chars_of(text.as_str());
    if chars.len() > 0 && chars[0] == '/' && lacks_char(chars.as_slice(), ':') && lacks_char(
        chars.as_slice(),
        '\\',
    ) && lacks_char(chars.as_slice(), '\0') {
        Ok(text)
    } else {
        Err(ExecutionError::SocketPathNotRepresentable)
    }
}

/// The text of a forward from a remote to a local socket.
pub fn socket_forward(remote_socket: &[u8], local_socket: &[u8]) -> (forward: Result<
    String,
    ExecutionError,
>)
    ensures
        match forward {
            Ok(forward) => forward_of(remote_socket@, local_socket@) == Ok::<
                Seq<char>,
                ExecutionError,
            >(forward@),
            Err(error) => forward_of(remote_socket@, local_socket@) == Err::<
                Seq<char>,
                ExecutionError,
            >(error),
        },
{
    let mut forward = match ssh_streamlocal_socket_path(remote_socket) {
        Ok(forward) => forward,
        Err(error) => return Err(error),
    };
    let local = match ssh_streamlocal_socket_path(local_socket) {
        Ok(local) => local,
        Err(error) => return Err(error),
    };
    forward.append(":");
    forward.append(local.as_str());
    Ok(forward)
}

/// The command that starts the remote helper. `shell_path` is already quoted for
/// the remote shell; the request socket is a private one, whose path holds nothing
/// to quote.
pub fn remote_exec_command(shell_path: &str, request_socket: &str) -> (command: String)
    requires
        private_socket_path(
            vstd::utf8::encode_utf8(request_socket@),
            crate::bytes::utf8("herdr-remote-request-"),
        ),
    ensures
        command@ == "exec "@ + shell_path@ + " remote-exec "@ + request_socket@,
{
    let mut command = "exec ".to_owned();
    command.append(shell_path);
    command.append(" remote-exec ");
    command.append(request_socket);
    command
}

/// A socket under `/tmp` that a nonce makes unguessable.
pub open spec fn socket_path(prefix: Seq<char>, nonce: Seq<char>) -> Seq<char> {
    "/tmp/"@ + prefix + nonce + ".sock"@
}

/// The path of a new private socket.
pub fn random_socket_path(prefix: &str) -> (path: Result<String, ExecutionError>)
    ensures
        match path {
            Ok(path) => exists|bytes: Seq<u8>|
                bytes.len() == REMOTE_SOCKET_NONCE_BYTES && #[trigger] socket_path(
                    prefix@,
                    random::hex_of(bytes),
                ) == path@,
            Err(error) => error is RandomUnavailable,
        },
{
    match random_hex_string(REMOTE_SOCKET_NONCE_BYTES) {
        Ok(nonce) => {
            let path = socket_path_of(prefix, nonce.as_str());
            proof {
                let bytes = choose|bytes: Seq<u8>| #[trigger]
                    random::hex_of(bytes) == nonce@ && bytes.len() == REMOTE_SOCKET_NONCE_BYTES;
                assert(socket_path(prefix@, random::hex_of(bytes)) == path@);
            }
            Ok(path)
        },
        Err(error) => Err(error),
    }
}

/// The path of the private socket with a given nonce.
pub fn socket_path_of(prefix: &str, nonce: &str) -> (path: String)
    ensures
        path@ == socket_path(prefix@, nonce@),
{
    let mut path = "/tmp/".to_owned();
    path.append(prefix);
    path.append(nonce);
    path.append(".sock");
    path
}

pub open spec fn lower_hex_byte(byte: u8) -> bool {
    '0' as u8 <= byte <= '9' as u8 || 'a' as u8 <= byte <= 'f' as u8
}

/// The name of a private socket: the prefix, a full nonce, and `.sock`.
pub open spec fn private_socket_name(name: Seq<u8>, prefix: Seq<u8>) -> bool {
    &&& name.len() == prefix.len() + 2 * REMOTE_SOCKET_NONCE_BYTES + 5
    &&& prefix.is_prefix_of(name)
    &&& name.subrange(name.len() - 5, name.len() as int) == crate::bytes::utf8(".sock")
    &&& forall|i: int|
        prefix.len() <= i < name.len() - 5 ==> lower_hex_byte(#[trigger] name[i])
}

/// The names on a path: its pieces between slashes, without empty ones and `.`.
pub open spec fn path_names(pieces: Seq<Seq<u8>>) -> Seq<Seq<u8>>
    decreases pieces.len(),
{
    if pieces.len() == 0 {
        pieces
    } else if pieces.last().len() == 0 || pieces.last() == crate::bytes::utf8(".") {
        path_names(pieces.drop_last())
    } else {
        path_names(pieces.drop_last()).push(pieces.last())
    }
}

/// Whether a path is a private socket directly under `/tmp`.
pub open spec fn private_socket_path(path: Seq<u8>, prefix: Seq<u8>) -> bool {
    let names = path_names(crate::bytes::fields(path, '/' as u8));
    &&& path.len() > 0
    &&& path[0] == '/' as u8
    &&& names.len() == 2
    &&& names[0] == crate::bytes::utf8("tmp")
    &&& private_socket_name(names[1], prefix)
}

fn is_private_socket_name(name: &[u8], prefix: &[u8]) -> (valid: bool)
    ensures
        valid == private_socket_name(name@, prefix@),
{
    if !starts_with(name, prefix) {
        return false;
    }
    assert(prefix.len() <= name.len());
    let rest: usize = name.len() - prefix.len();
    if rest != 2 * REMOTE_SOCKET_NONCE_BYTES + 5 {
        return false;
    }
    if !bytes_equal(&name[name.len() - 5..name.len()], ".sock".as_bytes()) {
        return false;
    }
    let mut i: usize = prefix.len();
    while i < name.len() - 5
        invariant
            name.len() == prefix.len() + 37,
            prefix.len() <= i <= name.len() - 5,
            forall|j: int| prefix.len() <= j < i ==> lower_hex_byte(#[trigger] name@[j]),
        decreases name.len() - i,
    {
        let byte: u8 = name[i];
        if !(('0' as u8 <= byte && byte <= '9' as u8) || ('a' as u8 <= byte && byte
            <= 'f' as u8)) {
            assert(!lower_hex_byte(name@[i as int]));
            return false;
        }
        i += 1;
    }
    true
}

fn names_of(pieces: &Vec<Vec<u8>>) -> (names: Vec<Vec<u8>>)
    ensures
        crate::bytes::views(names@) == path_names(crate::bytes::views(pieces@)),
{
    let mut names: Vec<Vec<u8>> = Vec::new();
    let ghost all = crate::bytes::views(pieces@);
    let mut i: usize = 0;
    assert(all.take(0) =~= Seq::empty());
    assert(crate::bytes::views(names@) =~= Seq::empty());
    while i < pieces.len()
        invariant
            i <= pieces.len(),
            all == crate::bytes::views(pieces@),
            crate::bytes::views(names@) == path_names(all.take(i as int)),
        decreases pieces.len() - i,
    {
        let ghost before = crate::bytes::views(names@);
        assert(all.take(i as int + 1).drop_last() =~= all.take(i as int));
        assert(all[i as int] == pieces@[i as int]@);
        if pieces[i].len() > 0 && !crate::bytes::is_text(pieces[i].as_slice(), ".") {
            names.push(copied(pieces[i].as_slice()));
            assert(crate::bytes::views(names@) =~= before.push(all[i as int]));
        }
        i += 1;
    }
    assert(all.take(i as int) =~= all);
    names
}

fn is_private_socket_path(path: &[u8], prefix: &[u8]) -> (valid: bool)
    ensures
        valid == private_socket_path(path@, prefix@),
{
    if path.len() == 0 || path[0] != '/' as u8 {
        return false;
    }
    let pieces = split_fields(path, '/' as u8);
    let names = names_of(&pieces);
    let ghost all = crate::bytes::views(names@);
    assert(all.len() == names@.len());
    if names.len() != 2 {
        return false;
    }
    assert(all[0] == names@[0]@ && all[1] == names@[1]@);
    crate::bytes::is_text(names[0].as_slice(), "tmp") && is_private_socket_name(
        names[1].as_slice(),
        prefix,
    )
}

/// Whether a path is a private socket of the session's own interface.
pub fn validate_remote_api_socket_path(path: &[u8]) -> (valid: Result<(), ExecutionError>)
    ensures
        valid is Ok == private_socket_path(path@, crate::bytes::utf8("herdr-remote-api-")),
        valid matches Err(error) ==> error == ExecutionError::InvalidApiSocket,
{
    if is_private_socket_path(path, "herdr-remote-api-".as_bytes()) {
        Ok(())
    } else {
        Err(ExecutionError::InvalidApiSocket)
    }
}

/// Whether a path is a private socket that a request is delivered by.
pub fn validate_remote_request_socket_path(path: &[u8]) -> (valid: Result<(), ExecutionError>)
    ensures
        valid is Ok == private_socket_path(path@, crate::bytes::utf8("herdr-remote-request-")),
        valid matches Err(error) ==> error == ExecutionError::InvalidRequestSocket,
{
    if is_private_socket_path(path, "herdr-remote-request-".as_bytes()) {
        Ok(())
    } else {
        Err(ExecutionError::InvalidRequestSocket)
    }
}

proof fn lemma_fresh_socket(prefix: Seq<char>, bytes: Seq<u8>)
    requires
        bytes.len() == REMOTE_SOCKET_NONCE_BYTES,
        vstd::utf8::is_ascii_chars(prefix),
        !prefix.contains('/'),
    ensures
        private_socket_path(
            vstd::utf8::encode_utf8(socket_path(prefix, random::hex_of(bytes))),
            vstd::utf8::encode_utf8(prefix),
        ),
{
    reveal_strlit("/tmp/");
    reveal_strlit(".sock");
    reveal_strlit("tmp");
    reveal_strlit(".");
    random::law_hex_text(bytes);
    let nonce = random::hex_of(bytes);
    let chars = socket_path(prefix, nonce);
    let n = prefix.len() as int;
    assert forall|i: int| 0 <= i < chars.len() implies '\0' <= #[trigger] chars[i] <= '\u{7f}' by {
        if 5 <= i < 5 + n {
            assert(chars[i] == prefix[i - 5]);
        } else if 5 + n <= i < 5 + n + 32 {
            assert(chars[i] == nonce[i - 5 - n]);
            assert(random::lower_hex(nonce[i - 5 - n]));
        }
    }
    vstd::utf8::is_ascii_chars_encode_utf8(chars);
    vstd::utf8::is_ascii_chars_encode_utf8(prefix);
    vstd::utf8::is_ascii_chars_encode_utf8(".sock"@);
    vstd::utf8::is_ascii_chars_encode_utf8("tmp"@);
    vstd::utf8::is_ascii_chars_encode_utf8("."@);
    let path = vstd::utf8::encode_utf8(chars);
    let slash = '/' as u8;
    let name = path.skip(5);
    let tmp = crate::bytes::utf8("tmp");
    assert(path[0] == slash && path[4] == slash);
    assert(tmp =~= seq!['t' as u8, 'm' as u8, 'p' as u8]);
    assert forall|i: int| 0 <= i < name.len() implies name[i] != slash by {
        assert(name[i] == chars[i + 5] as u8);
        if i < n {
            assert(chars[i + 5] == prefix[i]);
            assert(prefix[i] != '/');
        } else if i < n + 32 {
            assert(chars[i + 5] == nonce[i - n]);
            assert(random::lower_hex(nonce[i - n]));
        } else {
            assert(chars[i + 5] == ".sock"@[i - n - 32]);
        }
    }
    let empty = Seq::<u8>::empty();
    let start = empty.push(slash) + tmp;
    crate::bytes::lemma_fields_append(empty, slash, tmp);
    crate::bytes::lemma_fields_append(start, slash, name);
    assert(path =~= start.push(slash) + name);
    let pieces = crate::bytes::fields(path, slash);
    assert(crate::bytes::fields(empty, slash) =~= seq![empty]);
    assert(pieces =~= seq![empty, tmp, name]);
    assert(path_names(pieces) =~= seq![tmp, name]) by {
        reveal_with_fuel(path_names, 4);
        assert(pieces.drop_last() =~= seq![empty, tmp]);
        assert(pieces.drop_last().drop_last() =~= seq![empty]);
        assert(pieces.drop_last().drop_last().drop_last() =~= Seq::empty());
        assert(crate::bytes::utf8(".").len() == 1);
    }
    assert(private_socket_name(name, vstd::utf8::encode_utf8(prefix))) by {
        assert(vstd::utf8::encode_utf8(prefix) =~= name.subrange(0, n)) by {
            assert forall|i: int| 0 <= i < n implies vstd::utf8::encode_utf8(prefix)[i]
                == name[i] by {
                assert(name[i] == chars[i + 5] as u8);
                assert(prefix[i] as u8 == vstd::utf8::encode_utf8(prefix)[i]);
            }
        }
        let ending = name.subrange(name.len() - 5, name.len() as int);
        assert forall|i: int| 0 <= i < 5 implies ending[i] == crate::bytes::utf8(".sock")[i] by {
            assert(ending[i] == chars[i + 5 + n + 32] as u8);
            assert(chars[i + 5 + n + 32] == ".sock"@[i]);
        }
        assert(ending =~= crate::bytes::utf8(".sock"));
        assert forall|i: int| n <= i < name.len() - 5 implies lower_hex_byte(
            #[trigger] name[i],
        ) by {
            assert(name[i] == chars[i + 5] as u8);
            assert(chars[i + 5] == nonce[i - n]);
            assert(random::lower_hex(nonce[i - n]));
        }
    }
}

/// Every socket path that is made for the session's own interface is accepted as one.
pub proof fn law_fresh_api_socket_accepted(bytes: Seq<u8>)
    requires
        bytes.len() == REMOTE_SOCKET_NONCE_BYTES,
    ensures
        private_socket_path(
            vstd::utf8::encode_utf8(socket_path("herdr-remote-api-"@, random::hex_of(bytes))),
            crate::bytes::utf8("herdr-remote-api-"),
        ),
{
    reveal_strlit("herdr-remote-api-");
    lemma_fresh_socket("herdr-remote-api-"@, bytes);
}

/// Every socket path that is made for delivering a request is accepted as one.
pub proof fn law_fresh_request_socket_accepted(bytes: Seq<u8>)
    requires
        bytes.len() == REMOTE_SOCKET_NONCE_BYTES,
    ensures
        private_socket_path(
            vstd::utf8::encode_utf8(socket_path("herdr-remote-request-"@, random::hex_of(bytes))),
            crate::bytes::utf8("herdr-remote-request-"),
        ),
{
    reveal_strlit("herdr-remote-request-");
    lemma_fresh_socket("herdr-remote-request-"@, bytes);
}

/// `ssh` is given the host and the command last, a terminal exactly where one is wanted, and
/// both forwards; it never asks, and it gives up where a forward fails.
pub proof fn law_ssh_is_asked_for_both_forwards(
    host: Seq<char>,
    pty: bool,
    api_forward: Seq<char>,
    request_forward: Seq<char>,
    remote_command: Seq<char>,
)
    ensures
        ({
            let args = ssh_argument_list(host, pty, api_forward, request_forward, remote_command);
            let n = args.len();
            &&& args[0] == "-tt"@ <==> pty
            &&& args[0] == "-T"@ <==> !pty
            &&& n >= 6
            &&& args[n - 1] == remote_command
            &&& args[n - 2] == host
            &&& args[n - 3] == request_forward && args[n - 4] == "-R"@
            &&& args[n - 5] == api_forward && args[n - 6] == "-R"@
            &&& args.contains("BatchMode=yes"@)
            &&& args.contains("ConnectTimeout=10"@)
            &&& args.contains("ConnectionAttempts=1"@)
            &&& args.contains("ExitOnForwardFailure=yes"@)
            &&& args.contains("ControlPath=none"@)
            &&& args.contains("StreamLocalBindMask=0177"@)
            &&& forall|i: int| 1 <= i < n - 6 && i % 2 == 1 ==> #[trigger] args[i] == "-o"@
        }),
{
    reveal_strlit("-tt");
    reveal_strlit("-T");
    assert("-tt"@.len() != "-T"@.len());
    let args = ssh_argument_list(host, pty, api_forward, request_forward, remote_command);
    assert(args[2] == "BatchMode=yes"@);
    assert(args[4] == "ConnectTimeout=10"@);
    assert(args[6] == "ConnectionAttempts=1"@);
    assert(args[8] == "ExitOnForwardFailure=yes"@);
    assert(args[10] == "ControlPath=none"@);
    assert(args[12] == "StreamLocalBindMask=0177"@);
}

/// A forward names the remote socket first. It is made exactly where both paths are text and
/// can be named, and its one colon then parts them.
pub proof fn law_forward_names_both_sockets(remote: Seq<u8>, local: Seq<u8>)
    ensures
        forward_of(remote, local) is Ok <==> {
            &&& vstd::utf8::valid_utf8(remote) && forwardable(vstd::utf8::decode_utf8(remote))
            &&& vstd::utf8::valid_utf8(local) && forwardable(vstd::utf8::decode_utf8(local))
        },
        forward_of(remote, local) matches Ok(forward) ==> forward == vstd::utf8::decode_utf8(remote)
            + seq![':'] + vstd::utf8::decode_utf8(local),
        !vstd::utf8::valid_utf8(remote) ==> forward_of(remote, local) == Err::<
            Seq<char>,
            ExecutionError,
        >(ExecutionError::SocketPathNotUtf8),
{
    reveal_strlit(":");
    assert(":"@ =~= seq![':']);
}

/// A path can be named in a forward exactly if it is absolute and holds none of the
/// characters that part or escape one.
pub proof fn law_nameable_paths(path: Seq<char>)
    ensures
        forwardable(path) <==> {
            &&& path.len() > 0 && path[0] == '/'
            &&& forall|i: int|
                0 <= i < path.len() ==> #[trigger] path[i] != ':' && path[i] != '\\' && path[i]
                    != '\0'
        },
{
    if forwardable(path) {
        assert forall|i: int| 0 <= i < path.len() implies #[trigger] path[i] != ':' && path[i]
            != '\\' && path[i] != '\0' by {
            assert(path.contains(path[i]));
        }
    }
}

/// A private socket is under `/tmp`, and its name has the prefix, a nonce of 32 lower-case
/// hexadecimal digits and nothing else before `.sock`.
pub proof fn law_private_socket_names(name: Seq<u8>, prefix: Seq<u8>)
    ensures
        private_socket_name(name, prefix) <==> exists|nonce: Seq<u8>|
            nonce.len() == 32 && (forall|i: int|
                0 <= i < nonce.len() ==> ('0' as u8 <= #[trigger] nonce[i] <= '9' as u8 || 'a' as u8
                    <= nonce[i] <= 'f' as u8)) && name == #[trigger] (prefix + nonce)
                + crate::bytes::utf8(".sock"),
{
    reveal_strlit(".sock");
    vstd::utf8::is_ascii_chars_encode_utf8(".sock"@);
    let end = crate::bytes::utf8(".sock");
    assert(end.len() == 5);
    if private_socket_name(name, prefix) {
        let nonce = name.subrange(prefix.len() as int, name.len() - 5);
        assert(name =~= (prefix + nonce) + end) by {
            assert(prefix =~= name.subrange(0, prefix.len() as int));
            assert(name =~= name.subrange(0, prefix.len() as int) + nonce + name.subrange(
                name.len() - 5,
                name.len() as int,
            ));
        }
        assert forall|i: int| 0 <= i < nonce.len() implies ('0' as u8 <= #[trigger] nonce[i]
            <= '9' as u8 || 'a' as u8 <= nonce[i] <= 'f' as u8) by {
            assert(nonce[i] == name[prefix.len() + i]);
        }
    }
    if exists|nonce: Seq<u8>|
        nonce.len() == 32 && (forall|i: int|
            0 <= i < nonce.len() ==> ('0' as u8 <= #[trigger] nonce[i] <= '9' as u8 || 'a' as u8
                <= nonce[i] <= 'f' as u8)) && name == #[trigger] (prefix + nonce) + end {
        let nonce = choose|nonce: Seq<u8>|
            nonce.len() == 32 && (forall|i: int|
                0 <= i < nonce.len() ==> ('0' as u8 <= #[trigger] nonce[i] <= '9' as u8 || 'a' as u8
                    <= nonce[i] <= 'f' as u8)) && name == #[trigger] (prefix + nonce) + end;
        assert(prefix =~= name.subrange(0, prefix.len() as int));
        assert(name.subrange(name.len() - 5, name.len() as int) =~= end);
        assert forall|i: int| prefix.len() <= i < name.len() - 5 implies lower_hex_byte(
            #[trigger] name[i],
        ) by {
            assert(name[i] == nonce[i - prefix.len()]);
        }
    }
}

/// The names on a path are its pieces in order, without empty pieces and single dots.
pub proof fn law_names_on_a_path(pieces: Seq<Seq<u8>>, piece: Seq<u8>)
    ensures
        path_names(Seq::<Seq<u8>>::empty()).len() == 0,
        piece.len() == 0 || piece == crate::bytes::utf8(".") ==> path_names(pieces.push(piece))
            == path_names(pieces),
        piece.len() > 0 && piece != crate::bytes::utf8(".") ==> path_names(pieces.push(piece))
            == path_names(pieces).push(piece),
{
    assert(pieces.push(piece).drop_last() =~= pieces);
}

/// A private socket stands directly under `/tmp`, under a private name.
pub proof fn law_private_sockets_stand_under_tmp(path: Seq<u8>, prefix: Seq<u8>)
    ensures
        private_socket_path(path, prefix) <==> {
            let names = path_names(crate::bytes::fields(path, 47u8));
            &&& path.len() > 0 && path[0] == 47u8
            &&& names == seq![crate::bytes::utf8("tmp"), names[1]]
            &&& private_socket_name(names[1], prefix)
        },
{
    let names = path_names(crate::bytes::fields(path, 47u8));
    assert('/' as u8 == 47u8);
    if private_socket_path(path, prefix) {
        assert(names =~= seq![crate::bytes::utf8("tmp"), names[1]]);
    }
}

} // verus!
