use herdr::execution::error::{ErrorKind, ExecutionError};
use herdr::execution::launch::{
    after_bind, after_listener_stage, provider_environment, provider_program, remote_exec_ssh,
    ssh_target_host, ssh_terminal_environment, BindOutcome, BindStep, InstalledProvider,
    ListenerStage, ListenerStep, RemoteSockets, TerminalKind, REMOTE_SOCKET_BIND_ATTEMPTS,
};
use herdr::execution::nonce::{random_hex_string, random_hex_string_of, RemoteExecReadyNonce};
use herdr::execution::provider::{
    execution_provider_request, execution_provider_request_with_nonce, RemoteCommand,
    EXECUTION_PROVIDER_PROTOCOL, EXECUTION_PROVIDER_REQUEST_MAX_BYTES,
};
use herdr::execution::remote::{
    after_accept, before_accept, bounded_remote_exec_request, delivery_result, delivery_status,
    frame_remote_exec_request, plan_remote_exec, plugin_process, remote_exec_env,
    remote_exec_ready_marker, remote_exec_ready_marker_for_terminal, remote_exec_request_length,
    remote_exit_code, remote_process_command, remote_shell, remote_shell_is_login,
    resolve_remote_cwd, set_default_pwd, AcceptOutcome, DeliveryReport, DeliveryStep, EnvOp,
    IdentityVariables, RemoteExecRequest, RemoteProcessChoice, RemoteRequestDelivery,
    RemoteSurroundings, ResolvedRemoteProcess, ShellModeConfig, REMOTE_EXEC_REQUEST_MAX_BYTES,
};
use herdr::execution::ssh::{
    random_socket_path, remote_exec_command, socket_forward, socket_path_of,
    validate_remote_api_socket_path, validate_remote_request_socket_path, RemoteExecSsh,
};
use herdr::execution::target::ExecutionTarget;
use herdr::osc::ready::{
    RemoteExecReady, RemoteExecReadyFilter, RemoteExecReadyPayload,
    REMOTE_EXEC_READY_PAYLOAD_MAX_BYTES,
};

const REMOTE_API_SOCKET_PREFIX: &str = "herdr-remote-api-";
const REMOTE_REQUEST_SOCKET_PREFIX: &str = "herdr-remote-request-";

fn identity() -> IdentityVariables {
    IdentityVariables {
        workspace_id: "HERDR_WORKSPACE_ID".into(),
        tab_id: "HERDR_TAB_ID".into(),
        pane_id: "HERDR_PANE_ID".into(),
    }
}

/// The value of a variable after the changes; `Some(None)` where it was removed.
fn env_value(ops: &[EnvOp], key: &str) -> Option<Option<String>> {
    let mut found = None;
    for op in ops {
        match op {
            EnvOp::Remove(name) if name == key => found = Some(None),
            EnvOp::Assign(name, value) if name == key => found = Some(Some(value.clone())),
            _ => {}
        }
    }
    found
}

fn pair(key: &str, value: &str) -> (String, String) {
    (key.to_string(), value.to_string())
}

#[test]
fn remote_cwd_sets_default_pwd_without_overriding_explicit_value() {
    let cwd = "/remote/plugin-root";
    let mut env = Vec::new();
    let resolved = resolve_remote_cwd(Some(cwd), "/process", None);
    set_default_pwd(&mut env, &resolved);
    assert_eq!(env, [pair("PWD", "/remote/plugin-root")]);
    assert_eq!(resolved, cwd);

    let mut env = vec![pair("PWD", "/caller/pwd")];
    set_default_pwd(&mut env, cwd);
    assert_eq!(env, [pair("PWD", "/caller/pwd")]);

    let relative = "nested/plugin-root";
    let resolved = resolve_remote_cwd(Some(relative), "/current", None);
    assert_eq!(resolved, "/current/nested/plugin-root");
    assert!(resolved.starts_with('/'));

    assert_eq!(
        resolve_remote_cwd(None, "/remote/process-cwd", Some("/home/remote")),
        "/home/remote"
    );
}

#[test]
fn remote_exec_scrubs_inherited_identity_before_request_env() {
    let ops = remote_exec_env(
        &identity(),
        &[
            pair("HERDR_VIEW_ID", "request-view"),
            pair("HERDR_WORKSPACE_ID", "request-workspace"),
        ],
        &[],
    );
    assert_eq!(
        env_value(&ops, "HERDR_VIEW_ID"),
        Some(Some("request-view".to_string()))
    );
    assert_eq!(
        env_value(&ops, "HERDR_WORKSPACE_ID"),
        Some(Some("request-workspace".to_string()))
    );
    for key in ["CODEX_THREAD_ID", "HERDR_TAB_ID", "HERDR_PANE_ID"] {
        assert_eq!(env_value(&ops, key), Some(None), "{key} should remain scrubbed");
    }
}

#[test]
fn remote_exec_scrubs_inherited_mux_markers() {
    let ops = remote_exec_env(&identity(), &[], &[]);
    for key in ["TMUX", "STY", "ZELLIJ"] {
        assert_eq!(env_value(&ops, key), Some(None), "inherited {key} marker survived");
    }
}

#[test]
fn remote_exec_applies_explicit_environment_removals() {
    let ops = remote_exec_env(&identity(), &[], &["BUN_OPTIONS".to_string()]);
    assert_eq!(env_value(&ops, "BUN_OPTIONS"), Some(None));
}

#[test]
fn remote_exec_ready_marker_json_encodes_hostname_and_resolved_cwd() {
    let cwd = "/remote/plugin-root";
    let nonce = RemoteExecReadyNonce::generate().unwrap();
    let expected = format!(
        "\x1b]6973;herdr-remote-exec-ready={{\"nonce\":\"{}\",\"hostname\":\"build-\\\"node\",\"cwd\":\"/remote/plugin-root\"}}\x1b\\",
        nonce.as_str()
    );
    assert_eq!(
        remote_exec_ready_marker(&nonce, Some("build-\"node"), cwd).unwrap(),
        expected.as_bytes()
    );
    assert_eq!(
        remote_exec_ready_marker_for_terminal(false, &nonce, Some("build-node"), cwd).unwrap(),
        None
    );
}

#[test]
fn osc7_authority_uses_only_precomputed_and_runtime_hostnames() {
    let local = ExecutionTarget::Local.osc7_authority_with(Some("local-node".to_string()), None);
    assert!(local.accepts(Some("LOCAL-NODE"), None));
    assert!(!local.accepts(Some("other-node"), None));

    let remote = ExecutionTarget::ssh("deploy@build-alias")
        .unwrap()
        .osc7_authority_with(None, Some("real.example.com".to_string()));
    assert!(remote.accepts(Some("BUILD-ALIAS"), None));
    assert!(remote.accepts(Some("REAL.EXAMPLE.COM"), None));
    assert!(remote.accepts(Some("ACTUAL-NODE"), Some("actual-node")));
    assert!(remote.accepts(None, Some("actual-node")));
    assert!(remote.accepts(Some("localhost"), Some("actual-node")));
    assert!(!remote.accepts(Some("deploy@build-alias"), None));
    assert!(!remote.accepts(Some("other-node"), None));
}

#[test]
fn execution_target_round_trips_and_defaults_local() {
    let local = ExecutionTarget::from_str("local").unwrap();
    let ssh = ExecutionTarget::from_str("ssh:primary").unwrap();
    let runtime = ExecutionTarget::from_str("runtime:dev2").unwrap();
    assert_eq!(local, ExecutionTarget::Local);
    assert!(local.is_local());
    assert_eq!(ssh.to_text(), "ssh:primary");
    assert_eq!(runtime.to_text(), "runtime:dev2");
    assert_eq!(
        runtime,
        ExecutionTarget::Extension { scheme: "runtime".into(), target: "dev2".into() }
    );
    assert!(ExecutionTarget::from_str("ssh:-bad").is_err());
    assert!(ExecutionTarget::from_str("local:anywhere").is_err());
    assert!(ExecutionTarget::from_str("Runtime:dev2").is_err());
    assert!(ExecutionTarget::from_str("runtime:bad target").is_err());
}

#[test]
fn each_malformed_target_names_its_fault() {
    assert_eq!(ExecutionTarget::from_str("nowhere"), Err(ExecutionError::MalformedTarget));
    assert_eq!(ExecutionTarget::from_str("ssh:"), Err(ExecutionError::InvalidSshHost));
    assert_eq!(ExecutionTarget::from_str("local:x"), Err(ExecutionError::InvalidScheme));
    assert_eq!(ExecutionTarget::from_str("runtime:"), Err(ExecutionError::InvalidTarget));
    assert_eq!(
        ExecutionError::MalformedTarget.message(),
        "execution target must be local, ssh:<host>, or <provider-scheme>:<target>"
    );
    assert_eq!(ExecutionError::MalformedTarget.kind(), ErrorKind::InvalidInput);
}

#[test]
fn execution_provider_request_is_versioned_tagged_and_bounded() {
    let target = ExecutionTarget::extension("runtime", "dev2").unwrap();
    let (_, payload, ready_nonce) = execution_provider_request(
        &target,
        "/work",
        &RemoteCommand::Argv {
            argv: vec!["omp".into(), "--help".into()],
        },
        &[("EXAMPLE".into(), "value".into())],
        &["BUN_OPTIONS".into()],
    )
    .unwrap();
    let request: serde_json::Value = serde_json::from_str(&payload).unwrap();
    assert_eq!(request["version"], EXECUTION_PROVIDER_PROTOCOL);
    assert_eq!(request["target"], "dev2");
    assert_eq!(request["cwd"], "/work");
    assert_eq!(request["command"]["kind"], "argv");
    assert_eq!(request["command"]["argv"][0], "omp");
    assert_eq!(request["ready_nonce"], ready_nonce.as_str());

    let error = execution_provider_request(
        &target,
        "",
        &RemoteCommand::ShellCommand {
            command: "x".repeat(EXECUTION_PROVIDER_REQUEST_MAX_BYTES),
        },
        &[],
        &[],
    )
    .err()
    .unwrap();
    assert_eq!(error.kind(), ErrorKind::InvalidInput);
    assert_eq!(error, ExecutionError::ProviderRequestTooLarge);
}

#[test]
fn provider_requests_refuse_other_targets_and_plugin_commands() {
    let nonce = RemoteExecReadyNonce::from_bytes(&[0xab; 16]);
    assert_eq!(
        execution_provider_request_with_nonce(
            &ExecutionTarget::Local,
            "/work",
            &RemoteCommand::Shell,
            &[],
            &[],
            &nonce,
        ),
        Err(ExecutionError::NotAnExtensionTarget)
    );
    let target = ExecutionTarget::extension("runtime", "dev2").unwrap();
    assert_eq!(
        execution_provider_request_with_nonce(
            &target,
            "/work",
            &RemoteCommand::Plugin { plugin_id: "p".into(), target: "t".into() },
            &[],
            &[],
            &nonce,
        ),
        Err(ExecutionError::UnresolvedPluginCommand)
    );
    let (scheme, payload) = execution_provider_request_with_nonce(
        &target,
        "/w",
        &RemoteCommand::ShellCommand { command: "echo \"hi\"".into() },
        &[pair("A", "b")],
        &["C".into()],
        &nonce,
    )
    .unwrap();
    assert_eq!(scheme, "runtime");
    assert_eq!(
        payload,
        format!(
            "{{\"version\":1,\"target\":\"dev2\",\"cwd\":\"/w\",\"command\":{{\"kind\":\"shell_command\",\"command\":\"echo \\\"hi\\\"\"}},\"env\":[[\"A\",\"b\"]],\"remove_env\":[\"C\"],\"ready_nonce\":\"{}\"}}",
            "ab".repeat(16)
        )
    );
}

#[test]
fn random_remote_socket_paths_require_full_nonces() {
    let api_socket = random_socket_path(REMOTE_API_SOCKET_PREFIX).unwrap();
    let request_socket = random_socket_path(REMOTE_REQUEST_SOCKET_PREFIX).unwrap();

    assert_ne!(api_socket, request_socket);
    assert!(validate_remote_api_socket_path(api_socket.as_bytes()).is_ok());
    assert!(validate_remote_request_socket_path(request_socket.as_bytes()).is_ok());
    assert!(validate_remote_api_socket_path(b"/tmp/herdr-remote-api-short.sock").is_err());
    assert!(validate_remote_request_socket_path(
        b"/var/tmp/herdr-remote-request-0123456789abcdef0123456789abcdef.sock"
    )
    .is_err());
}

#[test]
fn random_text_is_the_text_of_its_bytes() {
    assert_eq!(socket_path_of("herdr-remote-api-", "0aff"), "/tmp/herdr-remote-api-0aff.sock");
    assert_eq!(random_hex_string_of(Ok(vec![0x0a, 0xff])), Ok("0aff".into()));
    assert_eq!(
        random_hex_string_of(Err("no source".into())),
        Err(ExecutionError::RandomUnavailable("no source".into()))
    );
    let nonce = RemoteExecReadyNonce::generated_from(Ok(vec![0xab; 16])).ok().unwrap();
    assert_eq!(nonce.as_str(), "ab".repeat(16));
    assert_eq!(
        RemoteExecReadyNonce::generated_from(Err("no source".into())).err(),
        Some(ExecutionError::RandomUnavailable("no source".into()))
    );
}

#[test]
fn request_delivery_timeout_is_reported_and_reclaims_socket() {
    assert_eq!(before_accept(false), DeliveryStep::Accept);
    let step = after_accept(AcceptOutcome::WouldBlock, 1, 1);
    let result = delivery_result(step, None).unwrap();
    assert_eq!(result.unwrap_err().kind(), ErrorKind::TimedOut);
}

#[test]
fn dropping_request_channel_cancels_listener_and_removes_socket() {
    assert_eq!(before_accept(true), DeliveryStep::Cancelled);
    assert_eq!(delivery_result(DeliveryStep::Cancelled, None), Some(Ok(())));
    assert_eq!(after_accept(AcceptOutcome::WouldBlock, 0, 1), DeliveryStep::Wait);
    assert_eq!(delivery_result(DeliveryStep::Wait, None), None);
    assert_eq!(after_accept(AcceptOutcome::Connected, 9, 1), DeliveryStep::Deliver);
    assert_eq!(delivery_result(DeliveryStep::Deliver, None), Some(Ok(())));
    assert_eq!(
        delivery_result(after_accept(AcceptOutcome::Failed, 0, 1), Some("reset".into())),
        Some(Err(ExecutionError::DeliveryFailed("reset".into())))
    );
}

#[test]
fn delivery_status_follows_the_channel() {
    assert_eq!(delivery_status(DeliveryReport::Nothing), RemoteRequestDelivery::Pending);
    assert_eq!(delivery_status(DeliveryReport::Delivered), RemoteRequestDelivery::Delivered);
    assert_eq!(
        delivery_status(DeliveryReport::Failed("x".into())),
        RemoteRequestDelivery::Failed("x".into())
    );
    assert_eq!(
        delivery_status(DeliveryReport::Gone),
        RemoteRequestDelivery::Failed("remote execution request channel disconnected".into())
    );
}

#[test]
fn remote_exec_request_round_trips_over_a_framed_socket() {
    let payload = b"{\"cwd\":\"/tmp/work\"}";
    let frame = frame_remote_exec_request(payload).unwrap();
    let header: [u8; 4] = frame[..4].try_into().unwrap();
    assert_eq!(remote_exec_request_length(&header).unwrap(), payload.len());
    assert_eq!(&frame[4..], payload);
}

#[test]
fn remote_exec_request_size_is_bounded() {
    let payload = vec![b'x'; REMOTE_EXEC_REQUEST_MAX_BYTES + 1];
    assert_eq!(
        bounded_remote_exec_request(payload.clone()).unwrap_err().kind(),
        ErrorKind::InvalidInput
    );
    assert_eq!(
        bounded_remote_exec_request(payload.clone()).unwrap_err().message(),
        "remote execution request exceeds 1048576 bytes"
    );
    let error = frame_remote_exec_request(&payload).unwrap_err();
    assert_eq!(error, ExecutionError::PayloadTooLarge);
    assert_eq!(error.kind(), ErrorKind::InvalidInput);
    assert_eq!(error.message(), "remote execution request is too large");
    let header = ((REMOTE_EXEC_REQUEST_MAX_BYTES as u32) + 1).to_be_bytes();
    assert_eq!(
        remote_exec_request_length(&header).unwrap_err().kind(),
        ErrorKind::InvalidData
    );
    assert_eq!(bounded_remote_exec_request(vec![1, 2]), Ok(vec![1, 2]));
}

#[test]
fn ssh_streamlocal_forward_rejects_unrepresentable_socket_paths() {
    let remote_socket = b"/tmp/herdr-remote.sock";
    assert_eq!(
        socket_forward(remote_socket, b"/tmp/herdr-local.sock").unwrap(),
        "/tmp/herdr-remote.sock:/tmp/herdr-local.sock"
    );

    for local_socket in [
        &b"relative.sock"[..],
        b"/tmp/herdr:local.sock",
        br"/tmp/herdr\local.sock",
    ] {
        assert_eq!(
            socket_forward(remote_socket, local_socket).unwrap_err().kind(),
            ErrorKind::InvalidInput
        );
    }

    for bytes in [b"/tmp/herdr-\xff.sock".as_slice(), b"/tmp/herdr-\0.sock"] {
        assert_eq!(
            socket_forward(remote_socket, bytes).unwrap_err().kind(),
            ErrorKind::InvalidInput
        );
    }
    assert_eq!(
        socket_forward(remote_socket, b"/tmp/\xff"),
        Err(ExecutionError::SocketPathNotUtf8)
    );
}

#[test]
fn ssh_args_keep_request_data_off_the_command_line() {
    let request_socket = "/tmp/herdr-remote-request-0123456789abcdef0123456789abcdef.sock";
    let remote_command = remote_exec_command("/opt/herdr/bin/herdr", request_socket);
    let remote_exec = RemoteExecSsh {
        api_forward: "/tmp/herdr-remote-api-0123456789abcdef0123456789abcdef.sock:/tmp/api.sock"
            .to_string(),
        request_forward: format!("{}:/tmp/herdr-local-request.sock", request_socket),
        remote_command: remote_command.clone(),
    };

    let pty_args = remote_exec.ssh_args("user@example", true);
    let process_args = remote_exec.ssh_args("user@example", false);

    assert_eq!(pty_args.first().map(String::as_str), Some("-tt"));
    assert_eq!(process_args.first().map(String::as_str), Some("-T"));
    for option in [
        "BatchMode=yes",
        "ConnectTimeout=10",
        "ConnectionAttempts=1",
        "StreamLocalBindMask=0177",
        "ControlPath=none",
    ] {
        for args in [&pty_args, &process_args] {
            assert!(args.windows(2).any(|args| args == ["-o", option]));
        }
    }
    assert!(!pty_args.iter().any(|arg| arg.contains("StreamLocalBindUnlink")));
    assert_eq!(pty_args.last(), Some(&remote_command));
    assert!(!pty_args.iter().any(|arg| arg.contains("structured")));
}

#[test]
fn remote_exec_command_uses_only_the_verified_helper() {
    let request_socket = "/tmp/herdr-remote-request-0123456789abcdef0123456789abcdef.sock";

    assert_eq!(
        remote_exec_command("'/opt/herdr bin/herdr'", request_socket),
        format!("exec '/opt/herdr bin/herdr' remote-exec {}", request_socket)
    );
}

#[test]
fn remote_exec_ready_marker_enforces_shared_payload_bound() {
    let nonce = RemoteExecReadyNonce::generate().unwrap();
    let accepted = format!("/{}", "x".repeat(4096));
    assert!(remote_exec_ready_marker(&nonce, Some("build-node"), &accepted).is_ok());

    let oversized = format!("/{}", "x".repeat(REMOTE_EXEC_READY_PAYLOAD_MAX_BYTES));
    assert_eq!(
        remote_exec_ready_marker(&nonce, Some("build-node"), &oversized)
            .unwrap_err()
            .kind(),
        ErrorKind::InvalidInput
    );
}

#[test]
fn a_ready_marker_reaches_the_filter_that_waits_for_it() {
    let nonce = RemoteExecReadyNonce::generate().unwrap();
    let marker = remote_exec_ready_marker(&nonce, Some("node"), "/w").unwrap();
    let mut filter = RemoteExecReadyFilter::default();
    filter.set_expected_nonce(Some(nonce.duplicate()));
    let filtered = filter.filter(&marker);
    assert!(filtered.bytes.is_empty());
    assert_eq!(filtered.payloads.len(), 1);
    let object: serde_json::Value = serde_json::from_slice(&filtered.payloads[0]).unwrap();
    assert_eq!(object["nonce"], nonce.as_str());
    let payload = RemoteExecReadyPayload {
        nonce: nonce.as_str().to_string(),
        hostname: Some("node".into()),
        cwd: Some("/w".into()),
    };
    assert_eq!(
        filter.accept(&[Some(payload.clone())]),
        Some(RemoteExecReady { hostname: Some("node".into()), cwd: Some("/w".into()) })
    );
    assert_eq!(filter.accept(&[Some(payload)]), None);
}

#[test]
fn random_text_is_hexadecimal_of_the_asked_length() {
    let text = random_hex_string(5).unwrap();
    assert_eq!(text.len(), 10);
    assert!(text.bytes().all(|byte| byte.is_ascii_digit() || (b'a'..=b'f').contains(&byte)));
    let nonce = RemoteExecReadyNonce::from_bytes(&[0x00, 0x9f, 0xff]);
    assert_eq!(nonce.as_str(), "009fff");
    assert!(nonce.matches("009fff"));
    assert!(!nonce.matches("009ffe"));
}

#[test]
fn a_received_nonce_has_full_length() {
    let text = "0123456789abcdef0123456789abcdef";
    assert_eq!(RemoteExecReadyNonce::received(text).ok().unwrap().as_str(), text);
    assert_eq!(
        RemoteExecReadyNonce::received("short").err(),
        Some(ExecutionError::InvalidReadyNonce)
    );
    assert_eq!(ExecutionError::InvalidReadyNonce.kind(), ErrorKind::InvalidInput);
}

#[test]
fn commands_resolve_through_the_shell() {
    match remote_process_command(&RemoteCommand::Shell, "/bin/zsh", true).unwrap() {
        RemoteProcessChoice::Process(process) => {
            assert_eq!(process.program, "/bin/zsh");
            assert_eq!(process.args, ["-l"]);
        }
        RemoteProcessChoice::Plugin { .. } => panic!("a shell is no plugin"),
    }
    assert_eq!(
        remote_process_command(&RemoteCommand::Argv { argv: vec![] }, "/bin/sh", false).err(),
        Some(ExecutionError::EmptyArgv)
    );
    assert_eq!(
        plugin_process(&[], "/p".into(), vec![]).err(),
        Some(ExecutionError::EmptyPluginCommand)
    );
    let process = plugin_process(&["run".into(), "x".into()], "/p".into(), vec![]).ok().unwrap();
    assert_eq!(process.program, "run");
    assert_eq!(process.args, ["x"]);
    assert_eq!(process.cwd.as_deref(), Some("/p"));
    assert_eq!(remote_shell("  ", Some("/bin/fish".into())), "/bin/fish");
    assert_eq!(remote_shell("", None), "/bin/sh");
    assert_eq!(remote_shell("/bin/nu", None), "/bin/nu");
    assert!(remote_shell_is_login(ShellModeConfig::Auto, true));
    assert!(!remote_shell_is_login(ShellModeConfig::Auto, false));
    assert!(remote_shell_is_login(ShellModeConfig::Login, false));
    assert!(!remote_shell_is_login(ShellModeConfig::NonLogin, true));
    assert_eq!(remote_exit_code(Some(3)), 3);
    assert_eq!(remote_exit_code(None), 1);
}

fn surroundings() -> RemoteSurroundings {
    RemoteSurroundings {
        process_cwd: "/helper".into(),
        home: Some("/home/remote".into()),
        executable: Some("/opt/herdr".into()),
        term: "xterm-256color".into(),
        colorterm: "truecolor".into(),
        session_variable: "HERDR".into(),
        session_value: "1".into(),
        socket_path_variable: "HERDR_SOCKET_PATH".into(),
        identity: identity(),
    }
}

fn request(cwd: &str, api_socket: &str) -> RemoteExecRequest {
    RemoteExecRequest {
        cwd: cwd.into(),
        command: RemoteCommand::Shell,
        env: vec![pair("A", "1")],
        remove_env: vec!["B".into()],
        api_socket: api_socket.into(),
        ready_nonce: RemoteExecReadyNonce::from_bytes(&[1; 16]),
    }
}

fn shell_process() -> ResolvedRemoteProcess {
    ResolvedRemoteProcess {
        program: "/bin/sh".into(),
        args: vec![],
        cwd: None,
        env: vec![pair("P", "2")],
    }
}

#[test]
fn a_plan_sets_the_session_variables_last() {
    let socket = "/tmp/herdr-remote-api-0123456789abcdef0123456789abcdef.sock";
    let plan = plan_remote_exec(request("", socket), shell_process(), &surroundings()).ok().unwrap();
    assert_eq!(plan.program, "/bin/sh");
    assert_eq!(plan.cwd, "/home/remote");
    let value = |key: &str| env_value(&plan.environment, key);
    assert_eq!(value("A"), Some(Some("1".into())));
    assert_eq!(value("P"), Some(Some("2".into())));
    assert_eq!(value("B"), Some(None));
    assert_eq!(value("PWD"), Some(Some("/home/remote".into())));
    assert_eq!(value("TERM"), Some(Some("xterm-256color".into())));
    assert_eq!(value("HERDR_SOCKET_PATH"), Some(Some(socket.into())));
    assert_eq!(value("HERDR_BIN_PATH"), Some(Some("/opt/herdr".into())));
    assert_eq!(value("TMUX"), Some(None));

    assert_eq!(
        plan_remote_exec(request("/w", "/tmp/other.sock"), shell_process(), &surroundings()).err(),
        Some(ExecutionError::InvalidApiSocket)
    );
}

#[test]
fn ssh_commands_need_an_ssh_target() {
    assert_eq!(
        ssh_target_host(&ExecutionTarget::ssh("build").unwrap()),
        Ok("build".to_string())
    );
    assert_eq!(
        ssh_target_host(&ExecutionTarget::Local),
        Err(ExecutionError::NotAnSshTarget)
    );
    assert_eq!(
        ssh_target_host(&ExecutionTarget::Ssh { host: "-oProxy".into() }),
        Err(ExecutionError::InvalidSshHost)
    );
}

#[test]
fn remote_sockets_are_forwarded_to_local_ones() {
    let request_socket = "/tmp/herdr-remote-request-0123456789abcdef0123456789abcdef.sock";
    let sockets = RemoteSockets {
        api_socket: "/tmp/a.sock".into(),
        request_socket: request_socket.into(),
        session_socket: b"/run/session.sock".to_vec(),
        channel_socket: b"/tmp/local.sock".to_vec(),
    };
    let ssh = remote_exec_ssh(&sockets, "herdr").ok().unwrap();
    assert_eq!(ssh.api_forward, "/tmp/a.sock:/run/session.sock");
    assert_eq!(ssh.request_forward, format!("{}:/tmp/local.sock", request_socket));
    assert_eq!(ssh.remote_command, format!("exec herdr remote-exec {}", request_socket));
    let refused = RemoteSockets { session_socket: b"run".to_vec(), ..sockets };
    assert_eq!(
        remote_exec_ssh(&refused, "herdr").err(),
        Some(ExecutionError::SocketPathNotRepresentable)
    );
}

#[test]
fn a_taken_socket_path_is_tried_a_few_times() {
    for attempt in 0..REMOTE_SOCKET_BIND_ATTEMPTS - 1 {
        assert_eq!(after_bind(attempt, BindOutcome::AddrInUse), BindStep::TryAnother);
    }
    assert_eq!(
        after_bind(REMOTE_SOCKET_BIND_ATTEMPTS - 1, BindOutcome::AddrInUse),
        BindStep::NotUnique
    );
    assert_eq!(after_bind(0, BindOutcome::Bound), BindStep::Serve);
    assert_eq!(after_bind(0, BindOutcome::Failed), BindStep::Fail);
    assert_eq!(ExecutionError::SocketNotUnique.kind(), ErrorKind::AddrInUse);
}

#[test]
fn a_listener_is_removed_only_once_identified() {
    assert_eq!(
        after_listener_stage(ListenerStage::Identify, false),
        ListenerStep::Fail { remove_socket: false }
    );
    assert_eq!(
        after_listener_stage(ListenerStage::Restrict, false),
        ListenerStep::Fail { remove_socket: true }
    );
    assert_eq!(
        after_listener_stage(ListenerStage::Bind, true),
        ListenerStep::Perform(ListenerStage::Identify)
    );
    assert_eq!(after_listener_stage(ListenerStage::Unblock, true), ListenerStep::Ready);
}

#[test]
fn a_provider_gets_its_request_in_the_environment() {
    let provider = InstalledProvider {
        command: vec!["run".into(), "--now".into()],
        remove_env: vec!["X".into()],
        env: vec![pair("Y", "z")],
    };
    let terminal = TerminalKind { term: "t".into(), colorterm: "c".into() };
    assert_eq!(
        provider_environment(&provider, "{}", Some(&terminal)),
        [
            EnvOp::Remove("X".into()),
            EnvOp::Assign("Y".into(), "z".into()),
            EnvOp::Assign("HERDR_EXECUTION_PROVIDER_REQUEST".into(), "{}".into()),
            EnvOp::Assign("TERM".into(), "t".into()),
            EnvOp::Assign("COLORTERM".into(), "c".into()),
        ]
    );
    assert_eq!(provider_environment(&provider, "{}", None).len(), 3);
    assert_eq!(
        ssh_terminal_environment(&terminal),
        [
            EnvOp::Assign("TERM".into(), "t".into()),
            EnvOp::Assign("COLORTERM".into(), "c".into()),
        ]
    );
    assert_eq!(provider_program(&provider), Ok(("run".into(), vec!["--now".into()])));
    let empty = InstalledProvider { command: vec![], remove_env: vec![], env: vec![] };
    assert_eq!(provider_program(&empty), Err(ExecutionError::EmptyProviderCommand));
    assert_eq!(ExecutionError::EmptyProviderCommand.kind(), ErrorKind::InvalidData);
}
