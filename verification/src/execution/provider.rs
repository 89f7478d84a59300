//! Requests that are handed to an execution provider.
use crate::execution::error::ExecutionError;
use crate::execution::nonce::{
    valid_nonce, RemoteExecReadyNonce, REMOTE_EXEC_READY_NONCE_BYTES,
};
use crate::execution::target::{
    self, validate_execution_provider_scheme, validate_execution_provider_target, ExecutionTarget,
    TargetView,
};
use crate::json::{self, json_list, json_string, json_strings};
use crate::random;
use vstd::prelude::*;
use vstd::string::StringExecFns;

verus! {

pub const EXECUTION_PROVIDER_PROTOCOL: u32 = 1;

pub const EXECUTION_PROVIDER_REQUEST_MAX_BYTES: usize = 16384;

/// The command that is run at an execution target.
#[derive(Debug, Clone, PartialEq, Eq)]
pub enum RemoteCommand {
    Shell,
    ShellCommand { command: String },
    Argv { argv: Vec<String> },
    Plugin { plugin_id: String, target: String },
}

/// The JSON of a command, where a provider can run it.
pub open spec fn command_json(command: RemoteCommand) -> Option<Seq<char>> {
    match command {
        RemoteCommand::Shell => Some("{\"kind\":\"shell\"}"@),
        RemoteCommand::ShellCommand { command } => Some(
            "{\"kind\":\"shell_command\",\"command\":"@ + json::quoted(command@) + "}"@,
        ),
        RemoteCommand::Argv { argv } => Some(
            "{\"kind\":\"argv\",\"argv\":"@ + json::list(json::quoted_all(json::texts(argv@)))
                + "}"@,
        ),
        RemoteCommand::Plugin { .. } => None,
    }
}

/// The JSON of environment entries: a list of pairs.
pub open spec fn env_json(env: Seq<(String, String)>) -> Seq<char> {
    json::list(Seq::new(env.len(), |i: int| pair_json(env[i])))
}

pub open spec fn pair_json(entry: (String, String)) -> Seq<char> {
    json::list(seq![json::quoted(entry.0@), json::quoted(entry.1@)])
}

/// The JSON of a whole request.
pub open spec fn request_json(
    target: Seq<char>,
    cwd: Seq<char>,
    command: Seq<char>,
    env: Seq<(String, String)>,
    remove_env: Seq<String>,
    ready_nonce: Seq<char>,
) -> Seq<char> {
    "{\"version\":1,\"target\":"@ + json::quoted(target) + ",\"cwd\":"@ + json::quoted(cwd)
        + ",\"command\":"@ + command + ",\"env\":"@ + env_json(env) + ",\"remove_env\":"@
        + json::list(json::quoted_all(json::texts(remove_env))) + ",\"ready_nonce\":"@
        + json::quoted(ready_nonce) + "}"@
}

/// Why no request can be made for a target, whatever the command is.
pub open spec fn target_refusal(target: TargetView) -> Option<ExecutionError> {
    match target {
        TargetView::Extension { scheme, target } => if !target::valid_scheme(scheme) {
            Some(ExecutionError::InvalidScheme)
        } else if !target::valid_target(target) {
            Some(ExecutionError::InvalidTarget)
        } else {
            None
        },
        _ => Some(ExecutionError::NotAnExtensionTarget),
    }
}

/// The scheme that serves a request and the request's payload.
pub open spec fn provider_request(
    target: TargetView,
    cwd: Seq<char>,
    command: RemoteCommand,
    env: Seq<(String, String)>,
    remove_env: Seq<String>,
    ready_nonce: Seq<char>,
) -> Result<(Seq<char>, Seq<char>), ExecutionError> {
    match (target_refusal(target), command_json(command)) {
        (Some(error), _) => Err(error),
        (None, None) => Err(ExecutionError::UnresolvedPluginCommand),
        (None, Some(command)) => {
            let payload = request_json(
                target->target,
                cwd,
                command,
                env,
                remove_env,
                ready_nonce,
            );
            if vstd::utf8::encode_utf8(payload).len() > EXECUTION_PROVIDER_REQUEST_MAX_BYTES {
                Err(ExecutionError::ProviderRequestTooLarge)
            } else {
                Ok((target->scheme, payload))
            }
        },
    }
}

fn provider_command(command: &RemoteCommand) -> (json: Option<String>)
    ensures
        crate::text::opt_text(json) == command_json(*command),
{
    match command {
        RemoteCommand::Shell => Some("{\"kind\":\"shell\"}".to_owned()),
        RemoteCommand::ShellCommand { command } => {
            let mut json = "{\"kind\":\"shell_command\",\"command\":".to_owned();
            json.append(json_string(command.as_str()).as_str());
            json.append("}");
            Some(json)
        },
        RemoteCommand::Argv { argv } => {
            let mut json = "{\"kind\":\"argv\",\"argv\":".to_owned();
            json.append(json_strings(argv.as_slice()).as_str());
            json.append("}");
            Some(json)
        },
        RemoteCommand::Plugin { .. } => None,
    }
}

fn env_list(env: &[(String, String)]) -> (json: String)
    ensures
        json@ == env_json(env@),
{
    let mut pairs: Vec<String> = Vec::new();
    let ghost expected = Seq::new(env@.len(), |i: int| pair_json(env@[i]));
    let mut i: usize = 0;
    while i < env.len()
        invariant
            i <= env.len(),
            expected == Seq::new(env@.len(), |i: int| pair_json(env@[i])),
            json::texts(pairs@) == expected.take(i as int),
        decreases env.len() - i,
    {
        let ghost before = json::texts(pairs@);
        let mut pair: Vec<String> = Vec::new();
        pair.push(json_string(env[i].0.as_str()));
        pair.push(json_string(env[i].1.as_str()));
        assert(json::texts(pair@) =~= seq![
            json::quoted(env@[i as int].0@),
            json::quoted(env@[i as int].1@),
        ]);
        pairs.push(json_list(pair.as_slice()));
        assert(json::texts(pairs@) =~= before.push(pair_json(env@[i as int])));
        i += 1;
        assert(json::texts(pairs@) =~= expected.take(i as int));
    }
    assert(json::texts(pairs@) =~= expected);
    json_list(pairs.as_slice())
}

/// A request with a given nonce: the scheme that serves it, and its payload.
pub fn execution_provider_request_with_nonce(
    target: &ExecutionTarget,
    cwd: &str,
    command: &RemoteCommand,
    env: &[(String, String)],
    remove_env: &[String],
    ready_nonce: &RemoteExecReadyNonce,
) -> (request: Result<(String, String), ExecutionError>)
    ensures
        match request {
            Ok((scheme, payload)) => provider_request(
                target@,
                cwd@,
                *command,
                env@,
                remove_env@,
                ready_nonce@,
            ) == Ok::<(Seq<char>, Seq<char>), ExecutionError>((scheme@, payload@)),
            Err(error) => provider_request(
                target@,
                cwd@,
                *command,
                env@,
                remove_env@,
                ready_nonce@,
            ) == Err::<(Seq<char>, Seq<char>), ExecutionError>(error),
        },
{
    let (scheme, target) = match target {
        ExecutionTarget::Extension { scheme, target } => (scheme, target),
        _ => return Err(ExecutionError::NotAnExtensionTarget),
    };
    if let Err(error) = validate_execution_provider_scheme(scheme.as_str()) {
        return Err(error);
    }
    if let Err(error) = validate_execution_provider_target(target.as_str()) {
        return Err(error);
    }
    let command = match provider_command(command) {
        Some(command) => command,
        None => return Err(ExecutionError::UnresolvedPluginCommand),
    };
    let mut payload = "{\"version\":1,\"target\":".to_owned();
    payload.append(json_string(target.as_str()).as_str());
    payload.append(",\"cwd\":");
    payload.append(json_string(cwd).as_str());
    payload.append(",\"command\":");
    payload.append(command.as_str());
    payload.append(",\"env\":");
    payload.append(env_list(env).as_str());
    payload.append(",\"remove_env\":");
    payload.append(json_strings(remove_env).as_str());
    payload.append(",\"ready_nonce\":");
    payload.append(json_string(ready_nonce.as_str()).as_str());
    payload.append("}");
    if payload.as_str().as_bytes().len() > EXECUTION_PROVIDER_REQUEST_MAX_BYTES {
        return Err(ExecutionError::ProviderRequestTooLarge);
    }
    Ok((scheme.clone(), payload))
}

/// A request with a fresh nonce: the scheme that serves it, its payload and the
/// nonce that it holds.
pub fn execution_provider_request(
    target: &ExecutionTarget,
    cwd: &str,
    command: &RemoteCommand,
    env: &[(String, String)],
    remove_env: &[String],
) -> (request: Result<(String, String, RemoteExecReadyNonce), ExecutionError>)
    ensures
        match request {
            Ok((scheme, payload, nonce)) => {
                &&& provider_request(target@, cwd@, *command, env@, remove_env@, nonce@) == Ok::<
                    (Seq<char>, Seq<char>),
                    ExecutionError,
                >((scheme@, payload@))
                &&& valid_nonce(nonce@)
                &&& exists|bytes: Seq<u8>| #[trigger]
                    random::hex_of(bytes) == nonce@ && bytes.len() == REMOTE_EXEC_READY_NONCE_BYTES
            },
            Err(error) => match target_refusal(target@) {
                Some(refusal) => error == refusal,
                None => error is RandomUnavailable || exists|nonce: Seq<char>|
                    valid_nonce(nonce) && #[trigger] provider_request(
                        target@,
                        cwd@,
                        *command,
                        env@,
                        remove_env@,
                        nonce,
                    ) == Err::<(Seq<char>, Seq<char>), ExecutionError>(error),
            },
        },
{
    match target {
        ExecutionTarget::Extension { scheme, target } => {
            if let Err(error) = validate_execution_provider_scheme(scheme.as_str()) {
                return Err(error);
            }
            if let Err(error) = validate_execution_provider_target(target.as_str()) {
                return Err(error);
            }
        },
        _ => return Err(ExecutionError::NotAnExtensionTarget),
    }
    let nonce = match RemoteExecReadyNonce::generate() {
        Ok(nonce) => nonce,
        Err(error) => return Err(error),
    };
    match execution_provider_request_with_nonce(target, cwd, command, env, remove_env, &nonce) {
        Ok((scheme, payload)) => Ok((scheme, payload, nonce)),
        Err(error) => Err(error),
    }
}

/// A request is served by the scheme of its target, and its payload tells the target, the
/// directory, the command, the environment and the nonce, each in its own field. It fails
/// exactly for a target that no provider serves, for a plugin command and for a payload over
/// the bound.
pub proof fn law_request_tells_what_was_asked(
    scheme: Seq<char>,
    target: Seq<char>,
    cwd: Seq<char>,
    command: RemoteCommand,
    env: Seq<(String, String)>,
    remove_env: Seq<String>,
    ready_nonce: Seq<char>,
)
    requires
        target::valid_scheme(scheme),
        target::valid_target(target),
    ensures
        ({
            let request = provider_request(
                TargetView::Extension { scheme, target },
                cwd,
                command,
                env,
                remove_env,
                ready_nonce,
            );
            &&& request matches Ok((served, payload)) ==> {
                &&& served == scheme
                &&& payload == "{\"version\":1,\"target\":"@ + json::quoted(target) + (
                ",\"cwd\":"@ + json::quoted(cwd)) + (",\"command\":"@ + command_json(command)->0)
                    + (",\"env\":"@ + env_json(env)) + (",\"remove_env\":"@ + json::list(
                    json::quoted_all(json::texts(remove_env)),
                )) + (",\"ready_nonce\":"@ + json::quoted(ready_nonce) + "}"@)
                &&& vstd::utf8::encode_utf8(payload).len() <= 16384
            }
            &&& request == Err::<(Seq<char>, Seq<char>), ExecutionError>(
                ExecutionError::UnresolvedPluginCommand,
            ) <==> command is Plugin
            &&& request matches Err(error) ==> error == ExecutionError::UnresolvedPluginCommand
                || error == ExecutionError::ProviderRequestTooLarge
        }),
{
    let request = provider_request(
        TargetView::Extension { scheme, target },
        cwd,
        command,
        env,
        remove_env,
        ready_nonce,
    );
    if request is Ok {
        assert(request->Ok_0.1 =~= "{\"version\":1,\"target\":"@ + json::quoted(target) + (
        ",\"cwd\":"@ + json::quoted(cwd)) + (",\"command\":"@ + command_json(command)->0) + (
        ",\"env\":"@ + env_json(env)) + (",\"remove_env\":"@ + json::list(
            json::quoted_all(json::texts(remove_env)),
        )) + (",\"ready_nonce\":"@ + json::quoted(ready_nonce) + "}"@));
    }
}

/// A command is told with its kind and with nothing left out: the whole command line, or all
/// of the arguments in order.
pub proof fn law_command_is_told_whole(command: RemoteCommand)
    ensures
        command is Shell ==> command_json(command) == Some("{\"kind\":\"shell\"}"@),
        command matches RemoteCommand::ShellCommand { command: line } ==> command_json(command)
            == Some("{\"kind\":\"shell_command\",\"command\":"@ + json::quoted(line@) + "}"@),
        command matches RemoteCommand::Argv { argv } ==> command_json(command) == Some(
            "{\"kind\":\"argv\",\"argv\":"@ + json::list(
                Seq::new(argv@.len(), |i: int| json::quoted(argv@[i]@)),
            ) + "}"@,
        ),
        command is Plugin <==> command_json(command) is None,
{
    if let RemoteCommand::Argv { argv } = command {
        assert(json::quoted_all(json::texts(argv@)) =~= Seq::new(
            argv@.len(),
            |i: int| json::quoted(argv@[i]@),
        ));
    }
}

/// An environment is told as a list of pairs, each with its name first.
pub proof fn law_environment_is_told_in_pairs(env: Seq<(String, String)>, i: int)
    requires
        0 <= i < env.len(),
    ensures
        pair_json(env[i]) == seq!['['] + json::quoted(env[i].0@) + seq![','] + json::quoted(
            env[i].1@,
        ) + seq![']'],
        env_json(env) == json::list(Seq::new(env.len(), |k: int| pair_json(env[k]))),
{
    let items = seq![json::quoted(env[i].0@), json::quoted(env[i].1@)];
    reveal_with_fuel(json::joined, 3);
    assert(items.drop_last() =~= seq![json::quoted(env[i].0@)]);
    assert(pair_json(env[i]) =~= seq!['['] + json::quoted(env[i].0@) + seq![','] + json::quoted(
        env[i].1@,
    ) + seq![']']);
}

/// Only targets that providers serve can be asked for.
pub proof fn law_other_targets_are_refused(target: TargetView)
    ensures
        target_refusal(target) is None <==> target is Extension && target::valid_scheme(
            target->scheme,
        ) && target::valid_target(target->target),
        target is Local || target is Ssh ==> target_refusal(target) == Some(
            ExecutionError::NotAnExtensionTarget,
        ),
        target is Extension && !target::valid_scheme(target->scheme) ==> target_refusal(target)
            == Some(ExecutionError::InvalidScheme),
{
}

} // verus!
