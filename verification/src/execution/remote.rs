//! The remote helper: its request, the process it starts, and its announcement.
use crate::bytes::{append_slice, copied};
use crate::execution::error::ExecutionError;
use crate::execution::nonce::RemoteExecReadyNonce;
use crate::execution::provider::RemoteCommand;
use crate::execution::ssh::{self, validate_remote_api_socket_path};
use crate::json::{self, json_string};
use crate::osc::ready::{self, remote_exec_ready_osc_prefix, REMOTE_EXEC_READY_PAYLOAD_MAX_BYTES};
use crate::text::{self, chars_of, same_text, trimmed};
use vstd::prelude::*;
use vstd::string::StringExecFns;

verus! {

pub const REMOTE_EXEC_REQUEST_MAX_BYTES: usize = 1048576;

/// A change to a process environment.
#[derive(Debug, Clone, PartialEq, Eq)]
pub enum EnvOp {
    Remove(String),
    Assign(String, String),
}

/// The content of a change to a process environment.
pub enum EnvOpView {
    Remove(Seq<char>),
    Assign(Seq<char>, Seq<char>),
}

impl View for EnvOp {
    type V = EnvOpView;

    open spec fn view(&self) -> EnvOpView {
        match self {
            EnvOp::Remove(key) => EnvOpView::Remove(key@),
            EnvOp::Assign(key, value) => EnvOpView::Assign(key@, value@),
        }
    }
}

pub open spec fn op_views(ops: Seq<EnvOp>) -> Seq<EnvOpView> {
    Seq::new(ops.len(), |i: int| ops[i]@)
}

/// The contents of environment entries.
pub open spec fn entry_views(env: Seq<(String, String)>) -> Seq<(Seq<char>, Seq<char>)> {
    Seq::new(env.len(), |i: int| (env[i].0@, env[i].1@))
}

/// The variables by which a session tells its processes who they are.
#[derive(Debug, Clone, PartialEq, Eq)]
pub struct IdentityVariables {
    pub workspace_id: String,
    pub tab_id: String,
    pub pane_id: String,
}

pub open spec fn removals(keys: Seq<Seq<char>>) -> Seq<EnvOpView> {
    Seq::new(keys.len(), |i: int| EnvOpView::Remove(keys[i]))
}

pub open spec fn assignments(env: Seq<(Seq<char>, Seq<char>)>) -> Seq<EnvOpView> {
    Seq::new(env.len(), |i: int| EnvOpView::Assign(env[i].0, env[i].1))
}

/// The inherited variables that describe another process.
pub open spec fn inherited_identity(names: IdentityVariables) -> Seq<Seq<char>> {
    seq![
        "CODEX_THREAD_ID"@,
        "TMUX"@,
        "STY"@,
        "ZELLIJ"@,
        names.workspace_id@,
        names.tab_id@,
        names.pane_id@,
        "HERDR_VIEW_ID"@,
    ]
}

/// The environment of a remote process: inherited identity goes first, then
/// what the request removes, then what it sets.
pub open spec fn remote_env_ops(
    names: IdentityVariables,
    env: Seq<(Seq<char>, Seq<char>)>,
    remove_env: Seq<Seq<char>>,
) -> Seq<EnvOpView> {
    removals(inherited_identity(names)) + removals(remove_env) + assignments(env) + seq![
        EnvOpView::Remove("HERDR_BUILD_BIN_PATH"@),
    ]
}

/// An environment after changes, made in order.
pub open spec fn environment_after(
    ops: Seq<EnvOpView>,
    env: Map<Seq<char>, Seq<char>>,
) -> Map<Seq<char>, Seq<char>>
    decreases ops.len(),
{
    if ops.len() == 0 {
        env
    } else {
        let before = environment_after(ops.drop_last(), env);
        match ops.last() {
            EnvOpView::Remove(key) => before.remove(key),
            EnvOpView::Assign(key, value) => before.insert(key, value),
        }
    }
}

pub(crate) fn push_removal(ops: &mut Vec<EnvOp>, key: &str)
    ensures
        op_views(final(ops)@) == op_views(old(ops)@).push(EnvOpView::Remove(key@)),
{
    ops.push(EnvOp::Remove(key.to_owned()));
    assert(op_views(ops@) =~= op_views(old(ops)@).push(EnvOpView::Remove(key@)));
}

pub(crate) fn push_assignment(ops: &mut Vec<EnvOp>, key: &str, value: &str)
    ensures
        op_views(final(ops)@) == op_views(old(ops)@).push(EnvOpView::Assign(key@, value@)),
{
    ops.push(EnvOp::Assign(key.to_owned(), value.to_owned()));
    assert(op_views(ops@) =~= op_views(old(ops)@).push(EnvOpView::Assign(key@, value@)));
}

/// The changes that make a remote process's environment.
pub fn remote_exec_env(
    names: &IdentityVariables,
    env: &[(String, String)],
    remove_env: &[String],
) -> (ops: Vec<EnvOp>)
    ensures
        op_views(ops@) == remote_env_ops(*names, entry_views(env@), json::texts(remove_env@)),
{
    let mut ops: Vec<EnvOp> = Vec::new();
    push_removal(&mut ops, "CODEX_THREAD_ID");
    // Outer multiplexer markers do not describe the process launched here.
    push_removal(&mut ops, "TMUX");
    push_removal(&mut ops, "STY");
    push_removal(&mut ops, "ZELLIJ");
    push_removal(&mut ops, names.workspace_id.as_str());
    push_removal(&mut ops, names.tab_id.as_str());
    push_removal(&mut ops, names.pane_id.as_str());
    push_removal(&mut ops, "HERDR_VIEW_ID");
    let ghost first = removals(inherited_identity(*names));
    assert(op_views(ops@) =~= first);
    let ghost removed = removals(json::texts(remove_env@));
    let mut i: usize = 0;
    assert(op_views(ops@) =~= first + removed.take(0));
    while i < remove_env.len()
        invariant
            i <= remove_env.len(),
            removed == removals(json::texts(remove_env@)),
            op_views(ops@) == first + removed.take(i as int),
        decreases remove_env.len() - i,
    {
        let ghost before = op_views(ops@);
        push_removal(&mut ops, remove_env[i].as_str());
        assert(removed[i as int] == EnvOpView::Remove(remove_env@[i as int]@));
        i += 1;
        assert(op_views(ops@) =~= first + removed.take(i as int));
    }
    assert(removed.take(i as int) =~= removed);
    let ghost second = first + removed;
    let ghost assigned = assignments(entry_views(env@));
    let mut k: usize = 0;
    assert(op_views(ops@) =~= second + assigned.take(0));
    while k < env.len()
        invariant
            k <= env.len(),
            assigned == assignments(entry_views(env@)),
            op_views(ops@) == second + assigned.take(k as int),
        decreases env.len() - k,
    {
        push_assignment(&mut ops, env[k].0.as_str(), env[k].1.as_str());
        assert(assigned[k as int] == EnvOpView::Assign(env@[k as int].0@, env@[k as int].1@));
        k += 1;
        assert(op_views(ops@) =~= second + assigned.take(k as int));
    }
    assert(assigned.take(k as int) =~= assigned);
    push_removal(&mut ops, "HERDR_BUILD_BIN_PATH");
    assert(op_views(ops@) =~= remote_env_ops(
        *names,
        entry_views(env@),
        json::texts(remove_env@),
    ));
    ops
}

/// A path below a directory.
pub open spec fn path_below(base: Seq<char>, path: Seq<char>) -> Seq<char> {
    if base.len() == 0 || base.last() == '/' {
        base + path
    } else {
        base + seq!['/'] + path
    }
}

/// The directory of a remote process: the requested one, else the home
/// directory, else the helper's own; a relative one is taken from the helper's.
pub open spec fn remote_cwd(
    cwd: Option<Seq<char>>,
    process_cwd: Seq<char>,
    home: Option<Seq<char>>,
) -> Seq<char> {
    let requested = match (cwd, home) {
        (Some(cwd), _) => cwd,
        (None, Some(home)) => home,
        (None, None) => process_cwd,
    };
    if requested.len() > 0 && requested[0] == '/' {
        requested
    } else {
        path_below(process_cwd, requested)
    }
}

/// The directory of a remote process.
pub fn resolve_remote_cwd(cwd: Option<&str>, process_cwd: &str, home: Option<&str>) -> (resolved:
    String)
    ensures
        resolved@ == remote_cwd(
            crate::execution::target::str_view(cwd),
            process_cwd@,
            crate::execution::target::str_view(home),
        ),
{
    let requested: &str = match cwd {
        Some(cwd) => cwd,
        None => match home {
            Some(home) => home,
            None => process_cwd,
        },
    };
    let chars = chars_of(requested);
    if chars.len() > 0 && chars[0] == '/' {
        return requested.to_owned();
    }
    let base = chars_of(process_cwd);
    let mut resolved = process_cwd.to_owned();
    if base.len() > 0 && base[base.len() - 1] != '/' {
        text::push_char(&mut resolved, '/');
        assert(resolved@ =~= process_cwd@ + seq!['/']);
    }
    resolved.append(requested);
    resolved
}

pub open spec fn names_key(env: Seq<(Seq<char>, Seq<char>)>, key: Seq<char>) -> bool {
    exists|i: int| 0 <= i < env.len() && (#[trigger] env[i]).0 == key
}

/// The environment with `PWD` set, unless it already is.
pub open spec fn with_default_pwd(
    env: Seq<(Seq<char>, Seq<char>)>,
    cwd: Seq<char>,
) -> Seq<(Seq<char>, Seq<char>)> {
    if names_key(env, "PWD"@) {
        env
    } else {
        env.push(("PWD"@, cwd))
    }
}

/// Sets `PWD` to the directory that a process starts in, unless the request did.
pub fn set_default_pwd(env: &mut Vec<(String, String)>, cwd: &str)
    ensures
        entry_views(final(env)@) == with_default_pwd(entry_views(old(env)@), cwd@),
{
    let ghost all = entry_views(env@);
    let mut i: usize = 0;
    while i < env.len()
        invariant
            i <= env.len(),
            env@ == old(env)@,
            all == entry_views(env@),
            forall|j: int| 0 <= j < i ==> (#[trigger] all[j]).0 != "PWD"@,
        decreases env.len() - i,
    {
        assert(all[i as int].0 == env@[i as int].0@);
        if same_text(env[i].0.as_str(), "PWD") {
            return ;
        }
        i += 1;
    }
    env.push(("PWD".to_owned(), cwd.to_owned()));
    assert(entry_views(env@) =~= all.push(("PWD"@, cwd@)));
}

/// Whether a shell is started as a login shell.
#[derive(Debug, Clone, Copy, PartialEq, Eq, Structural)]
pub enum ShellModeConfig {
    Auto,
    Login,
    NonLogin,
}

pub fn remote_shell_is_login(mode: ShellModeConfig, macos: bool) -> (login: bool)
    ensures
        login == (mode is Login || (mode is Auto && macos)),
{
    match mode {
        ShellModeConfig::Auto => macos,
        ShellModeConfig::Login => true,
        ShellModeConfig::NonLogin => false,
    }
}

/// The shell to start: the configured one, else the user's, else `/bin/sh`.
pub fn remote_shell(configured: &str, user_shell: Option<String>) -> (shell: String)
    ensures
        shell@ == (if text::trim(configured@).len() > 0 {
            configured@
        } else {
            match user_shell {
                Some(user_shell) => user_shell@,
                None => "/bin/sh"@,
            }
        }),
{
    let chars = chars_of(configured);
    if trimmed(chars.as_slice()).len() > 0 {
        configured.to_owned()
    } else {
        match user_shell {
            Some(user_shell) => user_shell,
            None => "/bin/sh".to_owned(),
        }
    }
}

/// A process to start.
#[derive(Debug, Clone, PartialEq, Eq)]
pub struct ResolvedRemoteProcess {
    pub program: String,
    pub args: Vec<String>,
    pub cwd: Option<String>,
    pub env: Vec<(String, String)>,
}

/// The content of a process to start.
pub struct ProcessView {
    pub program: Seq<char>,
    pub args: Seq<Seq<char>>,
    pub cwd: Option<Seq<char>>,
    pub env: Seq<(Seq<char>, Seq<char>)>,
}

impl View for ResolvedRemoteProcess {
    type V = ProcessView;

    open spec fn view(&self) -> ProcessView {
        ProcessView {
            program: self.program@,
            args: json::texts(self.args@),
            cwd: text::opt_text(self.cwd),
            env: entry_views(self.env@),
        }
    }
}

/// What a requested command comes to: a process, or a plugin that must be
/// looked up first.
#[derive(Debug, Clone, PartialEq, Eq)]
pub enum RemoteProcessChoice {
    Process(ResolvedRemoteProcess),
    Plugin { plugin_id: String, target: String },
}

pub open spec fn plain_process(program: Seq<char>, args: Seq<Seq<char>>) -> ProcessView {
    ProcessView { program, args, cwd: None, env: Seq::empty() }
}

pub(crate) fn split_first(argv: &[String]) -> (split: Option<(String, Vec<String>)>)
    ensures
        match split {
            Some((program, args)) => argv@.len() > 0 && program@ == argv@[0]@ && json::texts(args@)
                == json::texts(argv@).skip(1),
            None => argv@.len() == 0,
        },
{
    if argv.len() == 0 {
        return None;
    }
    let mut args: Vec<String> = Vec::new();
    let mut i: usize = 1;
    while i < argv.len()
        invariant
            1 <= i <= argv.len(),
            json::texts(args@) == json::texts(argv@).subrange(1, i as int),
        decreases argv.len() - i,
    {
        let ghost before = json::texts(args@);
        args.push(argv[i].clone());
        assert(json::texts(args@) =~= before.push(argv@[i as int]@));
        i += 1;
        assert(json::texts(args@) =~= json::texts(argv@).subrange(1, i as int));
    }
    assert(json::texts(args@) =~= json::texts(argv@).skip(1));
    Some((argv[0].clone(), args))
}

/// What a requested command comes to, with a given shell.
pub fn remote_process_command(command: &RemoteCommand, shell: &str, login: bool) -> (choice: Result<
    RemoteProcessChoice,
    ExecutionError,
>)
    ensures
        match (*command, choice) {
            (RemoteCommand::Shell, Ok(RemoteProcessChoice::Process(process))) => process@
                == plain_process(
                shell@,
                if login {
                    seq!["-l"@]
                } else {
                    Seq::empty()
                },
            ),
            (
                RemoteCommand::ShellCommand { command },
                Ok(RemoteProcessChoice::Process(process)),
            ) => process@ == plain_process(shell@, seq!["-lc"@, command@]),
            (RemoteCommand::Argv { argv }, Ok(RemoteProcessChoice::Process(process))) => argv@.len()
                > 0 && process@ == plain_process(argv@[0]@, json::texts(argv@).skip(1)),
            (RemoteCommand::Argv { argv }, Err(error)) => argv@.len() == 0 && error
                == ExecutionError::EmptyArgv,
            (
                RemoteCommand::Plugin { plugin_id, target },
                Ok(RemoteProcessChoice::Plugin { plugin_id: id, target: named }),
            ) => id@ == plugin_id@ && named@ == target@,
            _ => false,
        },
{
    let no_env: Vec<(String, String)> = Vec::new();
    assert(entry_views(no_env@) =~= Seq::empty());
    let mut args: Vec<String> = Vec::new();
    match command {
        RemoteCommand::Shell => {
            if login {
                args.push("-l".to_owned());
                assert(json::texts(args@) =~= seq!["-l"@]);
            } else {
                assert(json::texts(args@) =~= Seq::empty());
            }
            Ok(
                RemoteProcessChoice::Process(
                    ResolvedRemoteProcess {
                        program: shell.to_owned(),
                        args,
                        cwd: None,
                        env: no_env,
                    },
                ),
            )
        },
        RemoteCommand::ShellCommand { command } => {
            args.push("-lc".to_owned());
            args.push(command.clone());
            assert(json::texts(args@) =~= seq!["-lc"@, command@]);
            Ok(
                RemoteProcessChoice::Process(
                    ResolvedRemoteProcess {
                        program: shell.to_owned(),
                        args,
                        cwd: None,
                        env: no_env,
                    },
                ),
            )
        },
        RemoteCommand::Argv { argv } => match split_first(argv.as_slice()) {
            Some((program, args)) => Ok(
                RemoteProcessChoice::Process(
                    ResolvedRemoteProcess { program, args, cwd: None, env: no_env },
                ),
            ),
            None => Err(ExecutionError::EmptyArgv),
        },
        RemoteCommand::Plugin { plugin_id, target } => Ok(
            RemoteProcessChoice::Plugin { plugin_id: plugin_id.clone(), target: target.clone() },
        ),
    }
}

/// The process of a plugin that was looked up.
pub fn plugin_process(command: &[String], cwd: String, env: Vec<(String, String)>) -> (process:
    Result<ResolvedRemoteProcess, ExecutionError>)
    ensures
        match process {
            Ok(process) => command@.len() > 0 && process@ == (ProcessView {
                program: command@[0]@,
                args: json::texts(command@).skip(1),
                cwd: Some(cwd@),
                env: entry_views(env@),
            }),
            Err(error) => command@.len() == 0 && error == ExecutionError::EmptyPluginCommand,
        },
{
    match split_first(command) {
        Some((program, args)) => Ok(
            ResolvedRemoteProcess { program, args, cwd: Some(cwd), env },
        ),
        None => Err(ExecutionError::EmptyPluginCommand),
    }
}

/// A request as it was received.
pub struct RemoteExecRequest {
    pub cwd: String,
    pub command: RemoteCommand,
    pub env: Vec<(String, String)>,
    pub remove_env: Vec<String>,
    pub api_socket: String,
    pub ready_nonce: RemoteExecReadyNonce,
}

/// What the helper knows of the machine it runs on.
pub struct RemoteSurroundings {
    pub process_cwd: String,
    pub home: Option<String>,
    pub executable: Option<String>,
    pub term: String,
    pub colorterm: String,
    pub session_variable: String,
    pub session_value: String,
    pub socket_path_variable: String,
    pub identity: IdentityVariables,
}

/// How a requested process is started.
pub struct RemoteExecPlan {
    pub program: String,
    pub args: Vec<String>,
    pub cwd: String,
    pub environment: Vec<EnvOp>,
}

/// The directory that a request and its resolved process ask for.
pub open spec fn asked_cwd(request_cwd: Seq<char>, resolved_cwd: Option<Seq<char>>) -> Option<
    Seq<char>,
> {
    if request_cwd.len() == 0 {
        resolved_cwd
    } else {
        Some(request_cwd)
    }
}

/// The directory that a requested process starts in.
pub open spec fn planned_cwd(
    request: RemoteExecRequest,
    process: ProcessView,
    surroundings: RemoteSurroundings,
) -> Seq<char> {
    remote_cwd(
        asked_cwd(request.cwd@, process.cwd),
        surroundings.process_cwd@,
        match surroundings.home {
            Some(home) => if home@.len() > 0 {
                Some(home@)
            } else {
                None
            },
            None => None,
        },
    )
}

/// What the helper adds to every process's environment.
pub open spec fn session_assignments(
    request: RemoteExecRequest,
    surroundings: RemoteSurroundings,
) -> Seq<(Seq<char>, Seq<char>)> {
    let always = seq![
        ("TERM"@, surroundings.term@),
        ("COLORTERM"@, surroundings.colorterm@),
        (surroundings.session_variable@, surroundings.session_value@),
        (surroundings.socket_path_variable@, request.api_socket@),
    ];
    match surroundings.executable {
        Some(executable) => always.push(("HERDR_BIN_PATH"@, executable@)),
        None => always,
    }
}

/// The changes that make a requested process's environment.
pub open spec fn planned_environment(
    request: RemoteExecRequest,
    process: ProcessView,
    surroundings: RemoteSurroundings,
) -> Seq<EnvOpView> {
    remote_env_ops(
        surroundings.identity,
        with_default_pwd(
            entry_views(request.env@) + process.env,
            planned_cwd(request, process, surroundings),
        ),
        json::texts(request.remove_env@),
    ) + assignments(session_assignments(request, surroundings))
}

/// Plans the process that a request asks for. `process` is what its command
/// came to. A request whose session socket is no private socket is refused.
pub fn plan_remote_exec(
    request: RemoteExecRequest,
    process: ResolvedRemoteProcess,
    surroundings: &RemoteSurroundings,
) -> (plan: Result<RemoteExecPlan, ExecutionError>)
    ensures
        match plan {
            Ok(plan) => {
                &&& ssh::private_socket_path(
                    vstd::utf8::encode_utf8(request.api_socket@),
                    crate::bytes::utf8("herdr-remote-api-"),
                )
                &&& plan.program@ == process.program@
                &&& json::texts(plan.args@) == json::texts(process.args@)
                &&& plan.cwd@ == planned_cwd(request, process@, *surroundings)
                &&& request.cwd@.len() > 0 && request.cwd@[0] == '/' ==> plan.cwd@ == request.cwd@
                &&& request.cwd@.len() > 0 && request.cwd@[0] != '/' ==> plan.cwd@ == path_below(
                    surroundings.process_cwd@,
                    request.cwd@,
                )
                &&& op_views(plan.environment@) == planned_environment(
                    request,
                    process@,
                    *surroundings,
                )
            },
            Err(error) => {
                &&& !ssh::private_socket_path(
                    vstd::utf8::encode_utf8(request.api_socket@),
                    crate::bytes::utf8("herdr-remote-api-"),
                )
                &&& error == ExecutionError::InvalidApiSocket
            },
        },
{
    if let Err(error) = validate_remote_api_socket_path(request.api_socket.as_str().as_bytes()) {
        return Err(error);
    }
    let asked: Option<&str> = if request.cwd.as_str().is_empty() {
        match &process.cwd {
            Some(cwd) => Some(cwd.as_str()),
            None => None,
        }
    } else {
        Some(request.cwd.as_str())
    };
    let home: Option<&str> = match &surroundings.home {
        Some(home) => if home.as_str().is_empty() {
            None
        } else {
            Some(home.as_str())
        },
        None => None,
    };
    let cwd = resolve_remote_cwd(asked, surroundings.process_cwd.as_str(), home);
    let ghost requested = entry_views(request.env@);
    let ghost added = entry_views(process.env@);
    let mut env = request.env;
    let mut more = process.env;
    env.append(&mut more);
    assert(entry_views(env@) =~= requested + added);
    set_default_pwd(&mut env, cwd.as_str());
    let mut environment = remote_exec_env(
        &surroundings.identity,
        env.as_slice(),
        request.remove_env.as_slice(),
    );
    let ghost base = op_views(environment@);
    push_assignment(&mut environment, "TERM", surroundings.term.as_str());
    push_assignment(&mut environment, "COLORTERM", surroundings.colorterm.as_str());
    push_assignment(
        &mut environment,
        surroundings.session_variable.as_str(),
        surroundings.session_value.as_str(),
    );
    push_assignment(
        &mut environment,
        surroundings.socket_path_variable.as_str(),
        request.api_socket.as_str(),
    );
    if let Some(executable) = &surroundings.executable {
        push_assignment(&mut environment, "HERDR_BIN_PATH", executable.as_str());
    }
    assert(op_views(environment@) =~= base + assignments(
        session_assignments(request, *surroundings),
    ));
    Ok(RemoteExecPlan { program: process.program, args: process.args, cwd, environment })
}

/// The exit status that the helper ends with.
pub fn remote_exit_code(code: Option<i32>) -> (exit: i32)
    ensures
        exit == (match code {
            Some(code) => code,
            None => 1i32,
        }),
{
    match code {
        Some(code) => code,
        None => 1,
    }
}

/// The JSON that a marker carries.
pub open spec fn ready_payload(
    nonce: Seq<char>,
    hostname: Option<Seq<char>>,
    cwd: Seq<char>,
) -> Seq<char> {
    "{\"nonce\":"@ + json::quoted(nonce) + ",\"hostname\":"@ + (match hostname {
        Some(hostname) => json::quoted(hostname),
        None => "null"@,
    }) + ",\"cwd\":"@ + json::quoted(cwd) + "}"@
}

/// A marker around a payload.
pub open spec fn marker_of(payload: Seq<u8>) -> Seq<u8> {
    ready::marker_prefix() + payload + seq![0x1bu8, '\\' as u8]
}

/// The marker that announces a running command.
pub fn remote_exec_ready_marker(
    nonce: &RemoteExecReadyNonce,
    hostname: Option<&str>,
    cwd: &str,
) -> (marker: Result<Vec<u8>, ExecutionError>)
    ensures
        ({
            let payload = vstd::utf8::encode_utf8(
                ready_payload(nonce@, crate::execution::target::str_view(hostname), cwd@),
            );
            match marker {
                Ok(marker) => payload.len() <= REMOTE_EXEC_READY_PAYLOAD_MAX_BYTES && marker@
                    == marker_of(payload),
                Err(error) => payload.len() > REMOTE_EXEC_READY_PAYLOAD_MAX_BYTES && error
                    == ExecutionError::ReadyPayloadTooLarge,
            }
        }),
{
    let mut payload = "{\"nonce\":".to_owned();
    payload.append(json_string(nonce.as_str()).as_str());
    payload.append(",\"hostname\":");
    match hostname {
        Some(hostname) => payload.append(json_string(hostname).as_str()),
        None => payload.append("null"),
    }
    payload.append(",\"cwd\":");
    payload.append(json_string(cwd).as_str());
    payload.append("}");
    let bytes = payload.as_str().as_bytes();
    if bytes.len() > REMOTE_EXEC_READY_PAYLOAD_MAX_BYTES {
        return Err(ExecutionError::ReadyPayloadTooLarge);
    }
    let mut marker = copied(remote_exec_ready_osc_prefix());
    append_slice(&mut marker, bytes);
    marker.push(0x1b);
    marker.push('\\' as u8);
    assert(marker@ =~= marker_of(bytes@));
    Ok(marker)
}

/// The marker to write, which only a terminal gets.
pub fn remote_exec_ready_marker_for_terminal(
    stdout_is_terminal: bool,
    nonce: &RemoteExecReadyNonce,
    hostname: Option<&str>,
    cwd: &str,
) -> (marker: Result<Option<Vec<u8>>, ExecutionError>)
    ensures
        ({
            let payload = vstd::utf8::encode_utf8(
                ready_payload(nonce@, crate::execution::target::str_view(hostname), cwd@),
            );
            match marker {
                Ok(None) => !stdout_is_terminal,
                Ok(Some(marker)) => stdout_is_terminal && payload.len()
                    <= REMOTE_EXEC_READY_PAYLOAD_MAX_BYTES && marker@ == marker_of(payload),
                Err(error) => stdout_is_terminal && payload.len()
                    > REMOTE_EXEC_READY_PAYLOAD_MAX_BYTES && error
                    == ExecutionError::ReadyPayloadTooLarge,
            }
        }),
{
    if !stdout_is_terminal {
        return Ok(None);
    }
    match remote_exec_ready_marker(nonce, hostname, cwd) {
        Ok(marker) => Ok(Some(marker)),
        Err(error) => Err(error),
    }
}

/// The bytes of a length, the highest first.
pub open spec fn length_bytes(length: int) -> Seq<u8> {
    seq![
        (length / 0x1000000 % 256) as u8,
        (length / 0x10000 % 256) as u8,
        (length / 0x100 % 256) as u8,
        (length % 256) as u8,
    ]
}

/// The length that four bytes tell.
pub open spec fn length_told(header: Seq<u8>) -> int {
    header[0] * 0x1000000 + header[1] * 0x10000 + header[2] * 0x100 + header[3]
}

/// A request's bytes, where they are few enough to be sent.
pub fn bounded_remote_exec_request(payload: Vec<u8>) -> (bounded: Result<Vec<u8>, ExecutionError>)
    ensures
        match bounded {
            Ok(bounded) => payload@.len() <= REMOTE_EXEC_REQUEST_MAX_BYTES && bounded@ == payload@,
            Err(error) => payload@.len() > REMOTE_EXEC_REQUEST_MAX_BYTES && error
                == ExecutionError::RequestTooLarge,
        },
{
    if payload.len() > REMOTE_EXEC_REQUEST_MAX_BYTES {
        Err(ExecutionError::RequestTooLarge)
    } else {
        Ok(payload)
    }
}

/// What is written to deliver a request: its length and its bytes.
pub fn frame_remote_exec_request(payload: &[u8]) -> (frame: Result<Vec<u8>, ExecutionError>)
    ensures
        match frame {
            Ok(frame) => payload@.len() <= REMOTE_EXEC_REQUEST_MAX_BYTES && frame@ == length_bytes(
                payload@.len() as int,
            ) + payload@,
            Err(error) => payload@.len() > REMOTE_EXEC_REQUEST_MAX_BYTES && error
                == ExecutionError::PayloadTooLarge,
        },
{
    if payload.len() > REMOTE_EXEC_REQUEST_MAX_BYTES {
        return Err(ExecutionError::PayloadTooLarge);
    }
    let length: u32 = payload.len() as u32;
    let mut frame: Vec<u8> = Vec::new();
    frame.push((length / 0x1000000) as u8);
    frame.push((length / 0x10000 % 256) as u8);
    frame.push((length / 0x100 % 256) as u8);
    frame.push((length % 256) as u8);
    assert(frame@ =~= length_bytes(payload@.len() as int));
    append_slice(&mut frame, payload);
    Ok(frame)
}

/// How many bytes follow a frame's header.
pub fn remote_exec_request_length(header: &[u8; 4]) -> (length: Result<usize, ExecutionError>)
    ensures
        match length {
            Ok(length) => length == length_told(header@) && length
                <= REMOTE_EXEC_REQUEST_MAX_BYTES,
            Err(error) => length_told(header@) > REMOTE_EXEC_REQUEST_MAX_BYTES && error
                == ExecutionError::FrameTooLarge,
        },
{
    let length: u32 = header[0] as u32 * 0x1000000 + header[1] as u32 * 0x10000 + header[2] as u32
        * 0x100 + header[3] as u32;
    if length > REMOTE_EXEC_REQUEST_MAX_BYTES as u32 {
        Err(ExecutionError::FrameTooLarge)
    } else {
        Ok(length as usize)
    }
}

/// What a delivering process does next.
#[derive(Debug, Clone, Copy, PartialEq, Eq, Structural)]
pub enum DeliveryStep {
    Accept,
    Deliver,
    Wait,
    Cancelled,
    TimedOut,
    Failed,
}

/// How accepting a connection went.
#[derive(Debug, Clone, Copy, PartialEq, Eq, Structural)]
pub enum AcceptOutcome {
    Connected,
    WouldBlock,
    Failed,
}

/// Before a connection is accepted: a cancelled delivery ends.
pub fn before_accept(cancelled: bool) -> (step: DeliveryStep)
    ensures
        step == (if cancelled {
            DeliveryStep::Cancelled
        } else {
            DeliveryStep::Accept
        }),
{
    if cancelled {
        DeliveryStep::Cancelled
    } else {
        DeliveryStep::Accept
    }
}

/// After it was tried to accept one: only a deadline that passed while nobody
/// connected ends the waiting.
pub fn after_accept(outcome: AcceptOutcome, now: u64, deadline: u64) -> (step: DeliveryStep)
    ensures
        step == (match outcome {
            AcceptOutcome::Connected => DeliveryStep::Deliver,
            AcceptOutcome::WouldBlock => if now >= deadline {
                DeliveryStep::TimedOut
            } else {
                DeliveryStep::Wait
            },
            AcceptOutcome::Failed => DeliveryStep::Failed,
        }),
{
    match outcome {
        AcceptOutcome::Connected => DeliveryStep::Deliver,
        AcceptOutcome::WouldBlock => if now >= deadline {
            DeliveryStep::TimedOut
        } else {
            DeliveryStep::Wait
        },
        AcceptOutcome::Failed => DeliveryStep::Failed,
    }
}

/// What a request channel ends with, once it ends. `failure` is what accepting
/// or writing failed with.
pub fn delivery_result(step: DeliveryStep, failure: Option<String>) -> (result: Option<
    Result<(), ExecutionError>,
>)
    ensures
        match step {
            DeliveryStep::Accept | DeliveryStep::Wait => result is None,
            DeliveryStep::Cancelled => result == Some(Ok::<(), ExecutionError>(())),
            DeliveryStep::TimedOut => result == Some(
                Err::<(), ExecutionError>(ExecutionError::ConnectTimedOut),
            ),
            DeliveryStep::Deliver | DeliveryStep::Failed => result == Some(
                match failure {
                    Some(failure) => Err::<(), ExecutionError>(
                        ExecutionError::DeliveryFailed(failure),
                    ),
                    None => Ok::<(), ExecutionError>(()),
                },
            ),
        },
{
    match step {
        DeliveryStep::Accept | DeliveryStep::Wait => None,
        DeliveryStep::Cancelled => Some(Ok(())),
        DeliveryStep::TimedOut => Some(Err(ExecutionError::ConnectTimedOut)),
        DeliveryStep::Deliver | DeliveryStep::Failed => match failure {
            Some(failure) => Some(Err(ExecutionError::DeliveryFailed(failure))),
            None => Some(Ok(())),
        },
    }
}

/// What is known of a request's delivery.
#[derive(Debug, Clone, PartialEq, Eq)]
pub enum RemoteRequestDelivery {
    Pending,
    Delivered,
    Failed(String),
}

/// What a delivering process reported, where it reported anything yet.
#[derive(Debug, Clone, PartialEq, Eq)]
pub enum DeliveryReport {
    Delivered,
    Failed(String),
    Nothing,
    Gone,
}

pub fn delivery_status(report: DeliveryReport) -> (status: RemoteRequestDelivery)
    ensures
        match report {
            DeliveryReport::Delivered => status is Delivered,
            DeliveryReport::Failed(error) => status matches RemoteRequestDelivery::Failed(text)
                && text@ == error@,
            DeliveryReport::Nothing => status is Pending,
            DeliveryReport::Gone => status matches RemoteRequestDelivery::Failed(text) && text@
                == "remote execution request channel disconnected"@,
        },
{
    match report {
        DeliveryReport::Delivered => RemoteRequestDelivery::Delivered,
        DeliveryReport::Failed(error) => RemoteRequestDelivery::Failed(error),
        DeliveryReport::Nothing => RemoteRequestDelivery::Pending,
        DeliveryReport::Gone => RemoteRequestDelivery::Failed(
            "remote execution request channel disconnected".to_owned(),
        ),
    }
}

/// The length that is read from a frame is the length of what follows.
pub proof fn law_frame_tells_its_length(payload: Seq<u8>)
    requires
        payload.len() <= REMOTE_EXEC_REQUEST_MAX_BYTES,
    ensures
        length_told((length_bytes(payload.len() as int) + payload).take(4)) == payload.len(),
        (length_bytes(payload.len() as int) + payload).skip(4) == payload,
{
    let frame = length_bytes(payload.len() as int) + payload;
    assert(frame.take(4) =~= length_bytes(payload.len() as int));
    assert(frame.skip(4) =~= payload);
}

proof fn lemma_encoded_char(ch: char)
    requires
        ch >= ' ',
    ensures
        forall|i: int|
            0 <= i < vstd::utf8::encode_scalar(ch as u32).len() ==> #[trigger]
            vstd::utf8::encode_scalar(ch as u32)[i] >= 0x20,
{
    let scalar = ch as u32;
    assert(0x20 <= scalar <= 0x7f ==> (scalar & 0x7f) as u8 >= 0x20) by (bit_vector);
    assert(0xc0u8 | ((scalar >> 6) & 0x1f) as u8 >= 0x20) by (bit_vector);
    assert(0xe0u8 | ((scalar >> 12) & 0x0f) as u8 >= 0x20) by (bit_vector);
    assert(0xf0u8 | ((scalar >> 18) & 0x7) as u8 >= 0x20) by (bit_vector);
    assert(0x80u8 | (scalar & 0x3f) as u8 >= 0x20) by (bit_vector);
    assert(0x80u8 | ((scalar >> 6) & 0x3f) as u8 >= 0x20) by (bit_vector);
    assert(0x80u8 | ((scalar >> 12) & 0x3f) as u8 >= 0x20) by (bit_vector);
}

proof fn lemma_encoded_text(chars: Seq<char>)
    requires
        forall|i: int| 0 <= i < chars.len() ==> ' ' <= #[trigger] chars[i],
    ensures
        forall|i: int|
            0 <= i < vstd::utf8::encode_utf8(chars).len() ==> #[trigger]
            vstd::utf8::encode_utf8(chars)[i] >= 0x20,
    decreases chars.len(),
{
    if chars.len() > 0 {
        lemma_encoded_char(chars[0]);
        assert forall|i: int| 0 <= i < chars.drop_first().len() implies ' '
            <= #[trigger] chars.drop_first()[i] by {
            assert(chars.drop_first()[i] == chars[i + 1]);
        }
        lemma_encoded_text(chars.drop_first());
        let first = vstd::utf8::encode_scalar(chars[0] as u32);
        let rest = vstd::utf8::encode_utf8(chars.drop_first());
        assert forall|i: int| 0 <= i < vstd::utf8::encode_utf8(chars).len() implies #[trigger]
            vstd::utf8::encode_utf8(chars)[i] >= 0x20 by {
            if i < first.len() {
                assert(vstd::utf8::encode_utf8(chars)[i] == first[i]);
            } else {
                assert(vstd::utf8::encode_utf8(chars)[i] == rest[i - first.len()]);
            }
        }
    }
}

/// A marker that the helper writes is taken out of the pane's output whole, and
/// exactly its payload is handed over, whatever the host and directory are called.
pub proof fn law_marker_reaches_its_reader(
    nonce: Seq<char>,
    hostname: Option<Seq<char>>,
    cwd: Seq<char>,
)
    requires
        vstd::utf8::encode_utf8(ready_payload(nonce, hostname, cwd)).len()
            <= REMOTE_EXEC_READY_PAYLOAD_MAX_BYTES,
    ensures
        ({
            let payload = vstd::utf8::encode_utf8(ready_payload(nonce, hostname, cwd));
            ready::ReadyView::initial().run(marker_of(payload)) == (ready::Filtered {
                next: ready::ReadyView::initial(),
                shown: Seq::empty(),
                payloads: seq![payload],
            })
        }),
{
    reveal_strlit("{\"nonce\":");
    reveal_strlit(",\"hostname\":");
    reveal_strlit(",\"cwd\":");
    reveal_strlit("null");
    reveal_strlit("}");
    let chars = ready_payload(nonce, hostname, cwd);
    json::law_no_raw_controls(nonce);
    json::law_no_raw_controls(cwd);
    let host = match hostname {
        Some(hostname) => json::quoted(hostname),
        None => "null"@,
    };
    if let Some(hostname) = hostname {
        json::law_no_raw_controls(hostname);
    }
    assert(forall|i: int| 0 <= i < host.len() ==> ' ' <= #[trigger] host[i]);
    let a = "{\"nonce\":"@ + json::quoted(nonce);
    let b = a + ",\"hostname\":"@ + host;
    let c = b + ",\"cwd\":"@ + json::quoted(cwd);
    assert(forall|i: int| 0 <= i < a.len() ==> ' ' <= #[trigger] a[i]);
    assert(forall|i: int| 0 <= i < b.len() ==> ' ' <= #[trigger] b[i]);
    assert(forall|i: int| 0 <= i < c.len() ==> ' ' <= #[trigger] c[i]);
    assert(chars == c + "}"@);
    assert(forall|i: int| 0 <= i < chars.len() ==> ' ' <= #[trigger] chars[i]);
    lemma_encoded_text(chars);
    let payload = vstd::utf8::encode_utf8(chars);
    assert forall|i: int| 0 <= i < payload.len() implies payload[i] != 0x07 && payload[i]
        != 0x1b by {
        assert(payload[i] >= 0x20);
    }
    ready::law_marker_taken_out(payload);
}

proof fn lemma_after_append(
    first: Seq<EnvOpView>,
    second: Seq<EnvOpView>,
    env: Map<Seq<char>, Seq<char>>,
)
    ensures
        environment_after(first + second, env) == environment_after(
            second,
            environment_after(first, env),
        ),
    decreases second.len(),
{
    if second.len() == 0 {
        assert(first + second =~= first);
    } else {
        assert((first + second).drop_last() =~= first + second.drop_last());
        lemma_after_append(first, second.drop_last(), env);
    }
}

pub(crate) proof fn lemma_removals(keys: Seq<Seq<char>>, env: Map<Seq<char>, Seq<char>>, key: Seq<char>)
    ensures
        keys.contains(key) ==> !environment_after(removals(keys), env).contains_key(key),
        !env.contains_key(key) ==> !environment_after(removals(keys), env).contains_key(key),
    decreases keys.len(),
{
    if keys.len() > 0 {
        assert(removals(keys).drop_last() =~= removals(keys.drop_last()));
        lemma_removals(keys.drop_last(), env, key);
        if keys.contains(key) && keys.last() != key {
            let i = choose|i: int| 0 <= i < keys.len() && keys[i] == key;
            assert(keys.drop_last()[i] == key);
        }
    }
}

proof fn lemma_assignments(
    entries: Seq<(Seq<char>, Seq<char>)>,
    env: Map<Seq<char>, Seq<char>>,
    key: Seq<char>,
)
    ensures
        !names_key(entries, key) ==> environment_after(assignments(entries), env).contains_key(key)
            == env.contains_key(key),
    decreases entries.len(),
{
    if entries.len() > 0 {
        assert(assignments(entries).drop_last() =~= assignments(entries.drop_last()));
        lemma_assignments(entries.drop_last(), env, key);
        if !names_key(entries, key) {
            assert(entries[entries.len() - 1].0 != key);
            assert forall|i: int| 0 <= i < entries.drop_last().len() implies (
            #[trigger] entries.drop_last()[i]).0 != key by {
                assert(entries.drop_last()[i] == entries[i]);
            }
        }
    }
}

/// An inherited variable that describes another process never reaches a remote
/// process, unless the request itself sets it.
pub proof fn law_inherited_identity_scrubbed(
    names: IdentityVariables,
    entries: Seq<(Seq<char>, Seq<char>)>,
    remove_env: Seq<Seq<char>>,
    inherited: Map<Seq<char>, Seq<char>>,
    key: Seq<char>,
)
    requires
        inherited_identity(names).contains(key) || remove_env.contains(key),
        !names_key(entries, key),
    ensures
        !environment_after(remote_env_ops(names, entries, remove_env), inherited).contains_key(key),
{
    let first = removals(inherited_identity(names));
    let second = removals(remove_env);
    let third = assignments(entries);
    let last = seq![EnvOpView::Remove("HERDR_BUILD_BIN_PATH"@)];
    let after_first = environment_after(first, inherited);
    let after_second = environment_after(second, after_first);
    let after_third = environment_after(third, after_second);
    lemma_removals(inherited_identity(names), inherited, key);
    lemma_removals(remove_env, after_first, key);
    lemma_assignments(entries, after_second, key);
    lemma_after_append(first, second, inherited);
    lemma_after_append(first + second, third, inherited);
    lemma_after_append(first + second + third, last, inherited);
    assert(environment_after(last, after_third) == after_third.remove("HERDR_BUILD_BIN_PATH"@)) by {
        reveal_with_fuel(environment_after, 2);
        assert(last.drop_last() =~= Seq::empty());
    }
}

/// The last value that the request sets for a variable is the one that the
/// process gets, whatever it inherited or had removed.
pub proof fn law_request_environment_wins(
    names: IdentityVariables,
    entries: Seq<(Seq<char>, Seq<char>)>,
    remove_env: Seq<Seq<char>>,
    inherited: Map<Seq<char>, Seq<char>>,
    at: int,
)
    requires
        0 <= at < entries.len(),
        forall|i: int| at < i < entries.len() ==> (#[trigger] entries[i]).0 != entries[at].0,
        entries[at].0 != "HERDR_BUILD_BIN_PATH"@,
    ensures
        ({
            let env = environment_after(remote_env_ops(names, entries, remove_env), inherited);
            env.contains_key(entries[at].0) && env[entries[at].0] == entries[at].1
        }),
{
    let first = removals(inherited_identity(names)) + removals(remove_env);
    let third = assignments(entries);
    let last = seq![EnvOpView::Remove("HERDR_BUILD_BIN_PATH"@)];
    lemma_after_append(first, third, inherited);
    lemma_after_append(first + third, last, inherited);
    lemma_last_assignment_wins(entries, environment_after(first, inherited), at);
    let after_third = environment_after(third, environment_after(first, inherited));
    assert(environment_after(last, after_third) == after_third.remove("HERDR_BUILD_BIN_PATH"@)) by {
        reveal_with_fuel(environment_after, 2);
        assert(last.drop_last() =~= Seq::empty());
    }
}

proof fn lemma_last_assignment_wins(
    entries: Seq<(Seq<char>, Seq<char>)>,
    env: Map<Seq<char>, Seq<char>>,
    at: int,
)
    requires
        0 <= at < entries.len(),
        forall|i: int| at < i < entries.len() ==> (#[trigger] entries[i]).0 != entries[at].0,
    ensures
        environment_after(assignments(entries), env).contains_key(entries[at].0),
        environment_after(assignments(entries), env)[entries[at].0] == entries[at].1,
    decreases entries.len(),
{
    assert(assignments(entries).drop_last() =~= assignments(entries.drop_last()));
    assert(assignments(entries).last() == EnvOpView::Assign(entries.last().0, entries.last().1));
    if at < entries.len() - 1 {
        assert(entries[entries.len() - 1].0 != entries[at].0);
        assert forall|i: int| at < i < entries.drop_last().len() implies (
        #[trigger] entries.drop_last()[i]).0 != entries.drop_last()[at].0 by {
            assert(entries.drop_last()[i] == entries[i]);
        }
        lemma_last_assignment_wins(entries.drop_last(), env, at);
    }
}

/// A process starts in exactly the directory that the request names: an absolute one as it
/// is, a relative one below the helper's own directory. Neither the process's own directory
/// nor the home directory matters then.
pub proof fn law_requested_directory_is_used(
    request: RemoteExecRequest,
    process: ProcessView,
    surroundings: RemoteSurroundings,
)
    requires
        request.cwd@.len() > 0,
    ensures
        ({
            let cwd = planned_cwd(request, process, surroundings);
            let helper = surroundings.process_cwd@;
            &&& request.cwd@[0] == '/' ==> cwd == request.cwd@
            &&& request.cwd@[0] != '/' ==> {
                &&& helper.is_prefix_of(cwd)
                &&& request.cwd@.is_suffix_of(cwd)
                &&& helper.len() > 0 && helper.last() != '/' ==> cwd == helper + seq!['/']
                    + request.cwd@
                &&& helper.len() == 0 || helper.last() == '/' ==> cwd == helper + request.cwd@
            }
        }),
{
    let helper = surroundings.process_cwd@;
    let cwd = planned_cwd(request, process, surroundings);
    if request.cwd@[0] != '/' {
        assert(helper =~= cwd.subrange(0, helper.len() as int));
        assert(request.cwd@ =~= cwd.subrange(
            cwd.len() - request.cwd@.len(),
            cwd.len() as int,
        ));
    }
}

/// Where the request names no directory, a process starts in its own one, else in the home
/// directory where there is one, else where the helper runs.
pub proof fn law_directory_without_a_request(
    request: RemoteExecRequest,
    process: ProcessView,
    surroundings: RemoteSurroundings,
)
    requires
        request.cwd@.len() == 0,
    ensures
        ({
            let cwd = planned_cwd(request, process, surroundings);
            &&& process.cwd is Some && process.cwd->0.len() > 0 && process.cwd->0[0] == '/' ==> cwd
                == process.cwd->0
            &&& process.cwd is None && surroundings.home is Some && surroundings.home->0@.len() > 0
                && surroundings.home->0@[0] == '/' ==> cwd == surroundings.home->0@
            &&& process.cwd is None && (surroundings.home is None || surroundings.home->0@.len()
                == 0) && surroundings.process_cwd@.len() > 0 && surroundings.process_cwd@[0] == '/'
                ==> cwd == surroundings.process_cwd@
        }),
{
}

proof fn lemma_unnamed_kept(
    entries: Seq<(Seq<char>, Seq<char>)>,
    env: Map<Seq<char>, Seq<char>>,
    key: Seq<char>,
)
    requires
        !names_key(entries, key),
        env.contains_key(key),
    ensures
        environment_after(assignments(entries), env).contains_key(key),
        environment_after(assignments(entries), env)[key] == env[key],
    decreases entries.len(),
{
    if entries.len() > 0 {
        let shorter = entries.drop_last();
        assert(!names_key(shorter, key)) by {
            if names_key(shorter, key) {
                let i = choose|i: int| 0 <= i < shorter.len() && (#[trigger] shorter[i]).0 == key;
                assert(entries[i].0 == key);
            }
        }
        lemma_unnamed_kept(shorter, env, key);
        assert(assignments(entries).drop_last() =~= assignments(shorter));
        assert(entries[entries.len() - 1].0 != key);
    }
}

/// A process finds its directory in `PWD`, unless the request or the process sets that
/// itself.
pub proof fn law_directory_is_in_the_environment(
    request: RemoteExecRequest,
    process: ProcessView,
    surroundings: RemoteSurroundings,
    inherited: Map<Seq<char>, Seq<char>>,
)
    requires
        !names_key(entry_views(request.env@) + process.env, "PWD"@),
        !names_key(session_assignments(request, surroundings), "PWD"@),
    ensures
        ({
            let env = environment_after(
                planned_environment(request, process, surroundings),
                inherited,
            );
            env.contains_key("PWD"@) && env["PWD"@] == planned_cwd(request, process, surroundings)
        }),
{
    reveal_strlit("PWD");
    reveal_strlit("HERDR_BUILD_BIN_PATH");
    assert("PWD"@.len() == 3 && "HERDR_BUILD_BIN_PATH"@.len() == 20);
    let cwd = planned_cwd(request, process, surroundings);
    let named = entry_views(request.env@) + process.env;
    let entries = with_default_pwd(named, cwd);
    assert(entries == named.push(("PWD"@, cwd)));
    let removed = json::texts(request.remove_env@);
    let base = remote_env_ops(surroundings.identity, entries, removed);
    let last = session_assignments(request, surroundings);
    law_request_environment_wins(
        surroundings.identity,
        entries,
        removed,
        inherited,
        named.len() as int,
    );
    lemma_after_append(base, assignments(last), inherited);
    lemma_unnamed_kept(last, environment_after(base, inherited), "PWD"@);
}

/// A process always learns of its session, whatever it inherited or the request sets: of the
/// terminal that it runs in, of the helper's program and of the request's own socket.
pub proof fn law_process_learns_of_its_session(
    request: RemoteExecRequest,
    process: ProcessView,
    surroundings: RemoteSurroundings,
    inherited: Map<Seq<char>, Seq<char>>,
)
    requires
        surroundings.session_variable@ != surroundings.socket_path_variable@,
        surroundings.session_variable@ != "TERM"@,
        surroundings.session_variable@ != "COLORTERM"@,
        surroundings.session_variable@ != "HERDR_BIN_PATH"@,
        surroundings.socket_path_variable@ != "TERM"@,
        surroundings.socket_path_variable@ != "COLORTERM"@,
        surroundings.socket_path_variable@ != "HERDR_BIN_PATH"@,
    ensures
        ({
            let env = environment_after(
                planned_environment(request, process, surroundings),
                inherited,
            );
            &&& env.contains_key("TERM"@) && env["TERM"@] == surroundings.term@
            &&& env.contains_key("COLORTERM"@) && env["COLORTERM"@] == surroundings.colorterm@
            &&& env.contains_key(surroundings.session_variable@)
                && env[surroundings.session_variable@] == surroundings.session_value@
            &&& env.contains_key(surroundings.socket_path_variable@)
                && env[surroundings.socket_path_variable@] == request.api_socket@
            &&& surroundings.executable matches Some(executable) ==> env.contains_key(
                "HERDR_BIN_PATH"@,
            ) && env["HERDR_BIN_PATH"@] == executable@
        }),
{
    reveal_strlit("TERM");
    reveal_strlit("COLORTERM");
    reveal_strlit("HERDR_BIN_PATH");
    assert("TERM"@.len() == 4 && "COLORTERM"@.len() == 9 && "HERDR_BIN_PATH"@.len() == 14);
    let last = session_assignments(request, surroundings);
    let base = remote_env_ops(
        surroundings.identity,
        with_default_pwd(
            entry_views(request.env@) + process.env,
            planned_cwd(request, process, surroundings),
        ),
        json::texts(request.remove_env@),
    );
    let env = environment_after(base, inherited);
    lemma_after_append(base, assignments(last), inherited);
    lemma_last_assignment_wins(last, env, 0);
    lemma_last_assignment_wins(last, env, 1);
    lemma_last_assignment_wins(last, env, 2);
    lemma_last_assignment_wins(last, env, 3);
    if surroundings.executable is Some {
        lemma_last_assignment_wins(last, env, 4);
    }
}

/// The markers of an outer multiplexer and of the pane that the helper was started from do not
/// reach a process, unless the request sets them.
pub proof fn law_outer_session_is_not_inherited(
    names: IdentityVariables,
    entries: Seq<(Seq<char>, Seq<char>)>,
    remove_env: Seq<Seq<char>>,
    inherited: Map<Seq<char>, Seq<char>>,
    key: Seq<char>,
)
    requires
        !names_key(entries, key),
        key == "CODEX_THREAD_ID"@ || key == "TMUX"@ || key == "STY"@ || key == "ZELLIJ"@ || key
            == names.workspace_id@ || key == names.tab_id@ || key == names.pane_id@ || key
            == "HERDR_VIEW_ID"@ || key == "HERDR_BUILD_BIN_PATH"@,
    ensures
        !environment_after(remote_env_ops(names, entries, remove_env), inherited).contains_key(key),
{
    let all = inherited_identity(names);
    if key == "HERDR_BUILD_BIN_PATH"@ {
        let ops = remote_env_ops(names, entries, remove_env);
        assert(ops.last() == EnvOpView::Remove(key));
    } else {
        assert(all[0] == "CODEX_THREAD_ID"@ && all[1] == "TMUX"@ && all[2] == "STY"@ && all[3]
            == "ZELLIJ"@ && all[4] == names.workspace_id@ && all[5] == names.tab_id@ && all[6]
            == names.pane_id@ && all[7] == "HERDR_VIEW_ID"@);
        assert(all.contains(key));
        law_inherited_identity_scrubbed(names, entries, remove_env, inherited, key);
    }
}

/// A variable that nobody names keeps the value that the helper itself has.
pub proof fn law_other_variables_are_inherited(
    names: IdentityVariables,
    entries: Seq<(Seq<char>, Seq<char>)>,
    remove_env: Seq<Seq<char>>,
    inherited: Map<Seq<char>, Seq<char>>,
    key: Seq<char>,
)
    requires
        !names_key(entries, key),
        !inherited_identity(names).contains(key),
        !remove_env.contains(key),
        key != "HERDR_BUILD_BIN_PATH"@,
        inherited.contains_key(key),
    ensures
        ({
            let env = environment_after(remote_env_ops(names, entries, remove_env), inherited);
            env.contains_key(key) && env[key] == inherited[key]
        }),
{
    let first = removals(inherited_identity(names));
    let second = removals(remove_env);
    let third = assignments(entries);
    let ops = remote_env_ops(names, entries, remove_env);
    lemma_unremoved_kept(inherited_identity(names), inherited, key);
    lemma_after_append(first, second, inherited);
    lemma_unremoved_kept(remove_env, environment_after(first, inherited), key);
    lemma_after_append(first + second, third, inherited);
    lemma_unnamed_kept(entries, environment_after(first + second, inherited), key);
    assert(ops.drop_last() =~= first + second + third);
}

proof fn lemma_unremoved_kept(
    keys: Seq<Seq<char>>,
    env: Map<Seq<char>, Seq<char>>,
    key: Seq<char>,
)
    requires
        !keys.contains(key),
        env.contains_key(key),
    ensures
        environment_after(removals(keys), env).contains_key(key),
        environment_after(removals(keys), env)[key] == env[key],
    decreases keys.len(),
{
    if keys.len() > 0 {
        let shorter = keys.drop_last();
        assert(!shorter.contains(key)) by {
            if shorter.contains(key) {
                let i = choose|i: int| 0 <= i < shorter.len() && shorter[i] == key;
                assert(keys[i] == key);
            }
        }
        lemma_unremoved_kept(shorter, env, key);
        assert(removals(keys).drop_last() =~= removals(shorter));
        assert(keys[keys.len() - 1] != key);
    }
}

/// A length is written with its highest byte first, and read back from any four bytes in
/// that order.
pub proof fn law_length_has_its_highest_byte_first(length: u32, header: Seq<u8>)
    requires
        header.len() == 4,
    ensures
        length_bytes(length as int).len() == 4,
        length_bytes(length as int)[0] * 256 * 256 * 256 + length_bytes(length as int)[1] * 256
            * 256 + length_bytes(length as int)[2] * 256 + length_bytes(length as int)[3] == length,
        length_told(header) == ((header[0] * 256 + header[1]) * 256 + header[2]) * 256 + header[3],
        length_told(length_bytes(length as int)) == length,
{
}

/// The announcement of a running command tells its nonce first, its directory last, and its
/// host between them; a host without a name is told as none.
pub proof fn law_announcement_tells_host_and_directory(
    nonce: Seq<char>,
    hostname: Option<Seq<char>>,
    cwd: Seq<char>,
)
    ensures
        ({
            let payload = ready_payload(nonce, hostname, cwd);
            let first = "{\"nonce\":"@ + json::quoted(nonce);
            let last = ",\"cwd\":"@ + json::quoted(cwd) + "}"@;
            let host = match hostname {
                Some(hostname) => json::quoted(hostname),
                None => "null"@,
            };
            &&& payload == first + (",\"hostname\":"@ + host) + last
        }),
{
    let host = match hostname {
        Some(hostname) => json::quoted(hostname),
        None => "null"@,
    };
    assert(ready_payload(nonce, hostname, cwd) =~= ("{\"nonce\":"@ + json::quoted(nonce)) + (
    ",\"hostname\":"@ + host) + (",\"cwd\":"@ + json::quoted(cwd) + "}"@));
}

/// A directory that is asked for is used, from the root or below the helper's own; without one
/// the home directory is, and without that the helper's own.
pub proof fn law_directories_are_resolved(
    cwd: Seq<char>,
    process_cwd: Seq<char>,
    home: Option<Seq<char>>,
)
    requires
        process_cwd.len() > 0,
        process_cwd[0] == '/',
        process_cwd.last() != '/',
    ensures
        cwd.len() > 0 && cwd[0] == '/' ==> remote_cwd(Some(cwd), process_cwd, home) == cwd,
        cwd.len() > 0 && cwd[0] != '/' ==> remote_cwd(Some(cwd), process_cwd, home) == process_cwd
            + seq!['/'] + cwd,
        home is Some && home->0.len() > 0 && home->0[0] == '/' ==> remote_cwd(
            None,
            process_cwd,
            home,
        ) == home->0,
        home is None ==> remote_cwd(None, process_cwd, home) == process_cwd,
{
}

/// `PWD` is added with the directory only where the request does not set it itself.
pub proof fn law_directory_is_told_once(env: Seq<(Seq<char>, Seq<char>)>, cwd: Seq<char>)
    ensures
        (exists|i: int| 0 <= i < env.len() && (#[trigger] env[i]).0 == "PWD"@) ==> with_default_pwd(
            env,
            cwd,
        ) == env,
        !(exists|i: int| 0 <= i < env.len() && (#[trigger] env[i]).0 == "PWD"@)
            ==> with_default_pwd(env, cwd) == env.push(("PWD"@, cwd)),
{
}

} // verus!
