//! Starting a command on another host: the SSH command with its request
//! channel, and the command of an execution provider.
use crate::execution::error::ExecutionError;
use crate::execution::remote::{self, push_assignment, push_removal, EnvOp, EnvOpView};
use crate::execution::ssh::{self, remote_exec_command, socket_forward, RemoteExecSsh};
use crate::execution::target::{self, validate_ssh_host, ExecutionTarget, TargetView};
use crate::json;
use vstd::prelude::*;

verus! {

/// How often a request channel is tried on a fresh socket path.
pub const REMOTE_SOCKET_BIND_ATTEMPTS: usize = 4;

/// The host that SSH is run for, or why there is none.
pub open spec fn ssh_host(target: TargetView) -> Result<Seq<char>, ExecutionError> {
    match target {
        TargetView::Ssh { host } => if target::valid_ssh_host(host) {
            Ok(host)
        } else {
            Err(ExecutionError::InvalidSshHost)
        },
        _ => Err(ExecutionError::NotAnSshTarget),
    }
}

/// The host that SSH is run for.
pub fn ssh_target_host(target: &ExecutionTarget) -> (host: Result<String, ExecutionError>)
    ensures
        match host {
            Ok(host) => ssh_host(target@) == Ok::<Seq<char>, ExecutionError>(host@),
            Err(error) => ssh_host(target@) == Err::<Seq<char>, ExecutionError>(error),
        },
{
    match target {
        ExecutionTarget::Ssh { host } => match validate_ssh_host(host.as_str()) {
            Ok(()) => Ok(host.clone()),
            Err(error) => Err(error),
        },
        _ => Err(ExecutionError::NotAnSshTarget),
    }
}

/// The sockets of one remote command: those on the remote host, and the local
/// ones that they are forwarded to.
pub struct RemoteSockets {
    pub api_socket: String,
    pub request_socket: String,
    pub session_socket: Vec<u8>,
    pub channel_socket: Vec<u8>,
}

/// The SSH side of a remote command, whose request socket is a private one. A
/// session socket that cannot be forwarded is reported before a request channel
/// that cannot be.
pub fn remote_exec_ssh(sockets: &RemoteSockets, shell_path: &str) -> (ssh: Result<
    RemoteExecSsh,
    ExecutionError,
>)
    requires
        ssh::private_socket_path(
            vstd::utf8::encode_utf8(sockets.request_socket@),
            crate::bytes::utf8("herdr-remote-request-"),
        ),
    ensures
        ({
            let api = ssh::forward_of(
                vstd::utf8::encode_utf8(sockets.api_socket@),
                sockets.session_socket@,
            );
            let request = ssh::forward_of(
                vstd::utf8::encode_utf8(sockets.request_socket@),
                sockets.channel_socket@,
            );
            match ssh {
                Ok(ssh) => {
                    &&& api == Ok::<Seq<char>, ExecutionError>(ssh.api_forward@)
                    &&& request == Ok::<Seq<char>, ExecutionError>(ssh.request_forward@)
                    &&& ssh.remote_command@ == "exec "@ + shell_path@ + " remote-exec "@
                        + sockets.request_socket@
                },
                Err(error) => api == Err::<Seq<char>, ExecutionError>(error) || (api is Ok
                    && request == Err::<Seq<char>, ExecutionError>(error)),
            }
        }),
{
    let api_forward = match socket_forward(
        sockets.api_socket.as_str().as_bytes(),
        sockets.session_socket.as_slice(),
    ) {
        Ok(forward) => forward,
        Err(error) => return Err(error),
    };
    let request_forward = match socket_forward(
        sockets.request_socket.as_str().as_bytes(),
        sockets.channel_socket.as_slice(),
    ) {
        Ok(forward) => forward,
        Err(error) => return Err(error),
    };
    Ok(
        RemoteExecSsh {
            api_forward,
            request_forward,
            remote_command: remote_exec_command(shell_path, sockets.request_socket.as_str()),
        },
    )
}

/// What came of binding a request channel's socket.
#[derive(Debug, Clone, Copy, PartialEq, Eq, Structural)]
pub enum BindOutcome {
    Bound,
    AddrInUse,
    Failed,
}

/// What follows an attempt to bind a request channel's socket.
#[derive(Debug, Clone, Copy, PartialEq, Eq, Structural)]
pub enum BindStep {
    Serve,
    TryAnother,
    NotUnique,
    Fail,
}

/// Decides after the `attempt`th attempt, counted from zero, to bind a request
/// channel's socket: a path that is taken is tried again under another name, a
/// few times.
pub fn after_bind(attempt: usize, outcome: BindOutcome) -> (step: BindStep)
    ensures
        step == (match outcome {
            BindOutcome::Bound => BindStep::Serve,
            BindOutcome::AddrInUse => if attempt + 1 < REMOTE_SOCKET_BIND_ATTEMPTS {
                BindStep::TryAnother
            } else {
                BindStep::NotUnique
            },
            BindOutcome::Failed => BindStep::Fail,
        }),
{
    match outcome {
        BindOutcome::Bound => BindStep::Serve,
        BindOutcome::AddrInUse => if attempt < REMOTE_SOCKET_BIND_ATTEMPTS - 1 {
            BindStep::TryAnother
        } else {
            BindStep::NotUnique
        },
        BindOutcome::Failed => BindStep::Fail,
    }
}

/// How far the preparation of a private listener has come.
#[derive(Debug, Clone, Copy, PartialEq, Eq, Structural)]
pub enum ListenerStage {
    Bind,
    Identify,
    Restrict,
    Unblock,
}

/// What the preparation of a private listener asks for next.
#[derive(Debug, Clone, Copy, PartialEq, Eq, Structural)]
pub enum ListenerStep {
    Perform(ListenerStage),
    Ready,
    /// Give up, and take the socket file away first where it is known to be
    /// this listener's.
    Fail { remove_socket: bool },
}

/// Decides after a stage of preparing a private listener. The socket file is
/// removed only once it has been identified.
pub fn after_listener_stage(stage: ListenerStage, done: bool) -> (step: ListenerStep)
    ensures
        step == (if done {
            match stage {
                ListenerStage::Bind => ListenerStep::Perform(ListenerStage::Identify),
                ListenerStage::Identify => ListenerStep::Perform(ListenerStage::Restrict),
                ListenerStage::Restrict => ListenerStep::Perform(ListenerStage::Unblock),
                ListenerStage::Unblock => ListenerStep::Ready,
            }
        } else {
            ListenerStep::Fail {
                remove_socket: stage == ListenerStage::Restrict || stage == ListenerStage::Unblock,
            }
        }),
{
    if done {
        match stage {
            ListenerStage::Bind => ListenerStep::Perform(ListenerStage::Identify),
            ListenerStage::Identify => ListenerStep::Perform(ListenerStage::Restrict),
            ListenerStage::Restrict => ListenerStep::Perform(ListenerStage::Unblock),
            ListenerStage::Unblock => ListenerStep::Ready,
        }
    } else {
        ListenerStep::Fail {
            remove_socket: matches!(stage, ListenerStage::Restrict | ListenerStage::Unblock),
        }
    }
}

/// The terminal that a command is shown in.
#[derive(Debug, Clone, PartialEq, Eq)]
pub struct TerminalKind {
    pub term: String,
    pub colorterm: String,
}

/// The variables that describe a terminal.
pub open spec fn terminal_assignments(terminal: TerminalKind) -> Seq<EnvOpView> {
    seq![
        EnvOpView::Assign("TERM"@, terminal.term@),
        EnvOpView::Assign("COLORTERM"@, terminal.colorterm@),
    ]
}

/// The environment of an SSH command that has a terminal.
pub fn ssh_terminal_environment(terminal: &TerminalKind) -> (ops: Vec<EnvOp>)
    ensures
        remote::op_views(ops@) == terminal_assignments(*terminal),
{
    let mut ops: Vec<EnvOp> = Vec::new();
    push_assignment(&mut ops, "TERM", terminal.term.as_str());
    push_assignment(&mut ops, "COLORTERM", terminal.colorterm.as_str());
    assert(remote::op_views(ops@) =~= terminal_assignments(*terminal));
    ops
}

/// An installed provider: what it runs and how it changes the environment.
pub struct InstalledProvider {
    pub command: Vec<String>,
    pub remove_env: Vec<String>,
    pub env: Vec<(String, String)>,
}

/// The environment of a provider's command: the provider's own changes, then
/// the request, then the terminal where there is one.
pub open spec fn provider_ops(
    provider: InstalledProvider,
    payload: Seq<char>,
    terminal: Option<TerminalKind>,
) -> Seq<EnvOpView> {
    remote::removals(json::texts(provider.remove_env@)) + remote::assignments(
        remote::entry_views(provider.env@),
    ) + seq![EnvOpView::Assign("HERDR_EXECUTION_PROVIDER_REQUEST"@, payload)] + (match terminal {
        Some(terminal) => terminal_assignments(terminal),
        None => Seq::empty(),
    })
}

/// The environment of a provider's command.
pub fn provider_environment(
    provider: &InstalledProvider,
    payload: &str,
    terminal: Option<&TerminalKind>,
) -> (ops: Vec<EnvOp>)
    ensures
        remote::op_views(ops@) == provider_ops(
            *provider,
            payload@,
            match terminal {
                Some(terminal) => Some(*terminal),
                None => None,
            },
        ),
{
    let mut ops: Vec<EnvOp> = Vec::new();
    let ghost removed = remote::removals(json::texts(provider.remove_env@));
    let ghost assigned = remote::assignments(remote::entry_views(provider.env@));
    assert(remote::op_views(ops@) =~= removed.take(0));
    let mut i: usize = 0;
    while i < provider.remove_env.len()
        invariant
            i <= provider.remove_env.len(),
            removed == remote::removals(json::texts(provider.remove_env@)),
            remote::op_views(ops@) == removed.take(i as int),
        decreases provider.remove_env.len() - i,
    {
        push_removal(&mut ops, provider.remove_env[i].as_str());
        i += 1;
        assert(remote::op_views(ops@) =~= removed.take(i as int));
    }
    assert(removed.take(i as int) =~= removed);
    assert(remote::op_views(ops@) =~= removed + assigned.take(0));
    let mut k: usize = 0;
    while k < provider.env.len()
        invariant
            k <= provider.env.len(),
            assigned == remote::assignments(remote::entry_views(provider.env@)),
            remote::op_views(ops@) == removed + assigned.take(k as int),
        decreases provider.env.len() - k,
    {
        push_assignment(&mut ops, provider.env[k].0.as_str(), provider.env[k].1.as_str());
        k += 1;
        assert(remote::op_views(ops@) =~= removed + assigned.take(k as int));
    }
    assert(assigned.take(k as int) =~= assigned);
    push_assignment(&mut ops, "HERDR_EXECUTION_PROVIDER_REQUEST", payload);
    if let Some(terminal) = terminal {
        push_assignment(&mut ops, "TERM", terminal.term.as_str());
        push_assignment(&mut ops, "COLORTERM", terminal.colorterm.as_str());
        assert(remote::op_views(ops@) =~= provider_ops(*provider, payload@, Some(*terminal)));
    } else {
        assert(remote::op_views(ops@) =~= provider_ops(*provider, payload@, None));
    }
    ops
}

/// The program of a provider's command and its arguments.
pub fn provider_program(provider: &InstalledProvider) -> (program: Result<
    (String, Vec<String>),
    ExecutionError,
>)
    ensures
        match program {
            Ok((program, args)) => provider.command@.len() > 0 && program@
                == provider.command@[0]@ && json::texts(args@) == json::texts(
                provider.command@,
            ).skip(1),
            Err(error) => provider.command@.len() == 0 && error
                == ExecutionError::EmptyProviderCommand,
        },
{
    match remote::split_first(provider.command.as_slice()) {
        Some(split) => Ok(split),
        None => Err(ExecutionError::EmptyProviderCommand),
    }
}

/// A provider finds the request in its environment, whatever it sets itself, and the terminal
/// where there is one.
pub proof fn law_provider_finds_the_request(
    provider: InstalledProvider,
    payload: Seq<char>,
    terminal: Option<TerminalKind>,
    inherited: Map<Seq<char>, Seq<char>>,
)
    ensures
        ({
            let env = remote::environment_after(
                provider_ops(provider, payload, terminal),
                inherited,
            );
            &&& env.contains_key("HERDR_EXECUTION_PROVIDER_REQUEST"@)
            &&& env["HERDR_EXECUTION_PROVIDER_REQUEST"@] == payload
            &&& terminal matches Some(terminal) ==> env.contains_key("TERM"@) && env["TERM"@]
                == terminal.term@ && env.contains_key("COLORTERM"@) && env["COLORTERM"@]
                == terminal.colorterm@
        }),
{
    reveal_strlit("HERDR_EXECUTION_PROVIDER_REQUEST");
    reveal_strlit("TERM");
    reveal_strlit("COLORTERM");
    assert("TERM"@.len() == 4 && "COLORTERM"@.len() == 9);
    assert("HERDR_EXECUTION_PROVIDER_REQUEST"@.len() == 32);
    reveal_with_fuel(remote::environment_after, 4);
    let own = remote::removals(json::texts(provider.remove_env@)) + remote::assignments(
        remote::entry_views(provider.env@),
    );
    let asked = own.push(EnvOpView::Assign("HERDR_EXECUTION_PROVIDER_REQUEST"@, payload));
    let ops = provider_ops(provider, payload, terminal);
    assert(asked.drop_last() =~= own);
    match terminal {
        Some(terminal) => {
            let first = asked.push(EnvOpView::Assign("TERM"@, terminal.term@));
            assert(ops =~= first.push(EnvOpView::Assign("COLORTERM"@, terminal.colorterm@)));
            assert(ops.drop_last() =~= first);
            assert(first.drop_last() =~= asked);
        },
        None => {
            assert(ops =~= asked);
        },
    }
}

/// A command that is shown in a terminal finds what that terminal is.
pub proof fn law_terminal_is_told(terminal: TerminalKind, inherited: Map<Seq<char>, Seq<char>>)
    ensures
        ({
            let env = remote::environment_after(terminal_assignments(terminal), inherited);
            &&& env.contains_key("TERM"@) && env["TERM"@] == terminal.term@
            &&& env.contains_key("COLORTERM"@) && env["COLORTERM"@] == terminal.colorterm@
        }),
{
    reveal_strlit("TERM");
    reveal_strlit("COLORTERM");
    assert("TERM"@.len() == 4 && "COLORTERM"@.len() == 9);
    reveal_with_fuel(remote::environment_after, 3);
    let ops = terminal_assignments(terminal);
    assert(ops.drop_last() =~= seq![EnvOpView::Assign("TERM"@, terminal.term@)]);
}

/// SSH is run for exactly the host of an SSH target, and for no other target.
pub proof fn law_ssh_is_run_for_its_host(target: TargetView)
    ensures
        target is Ssh && target::valid_ssh_host(target->host) ==> ssh_host(target) == Ok::<
            Seq<char>,
            ExecutionError,
        >(target->host),
        target is Ssh && !target::valid_ssh_host(target->host) ==> ssh_host(target) == Err::<
            Seq<char>,
            ExecutionError,
        >(ExecutionError::InvalidSshHost),
        !(target is Ssh) ==> ssh_host(target) == Err::<Seq<char>, ExecutionError>(
            ExecutionError::NotAnSshTarget,
        ),
{
}

} // verus!
