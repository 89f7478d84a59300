use herdr::execution::remote::EnvOp;
use herdr::guest_state::{
    agent_dir, allocation_step, guest_env, guest_root_name, guest_root_name_of, guest_root_pid,
    owner_process_is_inactive_with, parse_u32, root_is_reclaimable, AllocationStep, CreateOutcome,
    OwnerMetadata, ALLOCATION_ATTEMPTS,
};
use herdr::osc::ready::RemoteExecReadyFilter;
use herdr::handoff::{
    api_agent_state, detect_agent_state, AgentSessionRef, AgentSessionRefKind, AgentState,
    HandoffAgentState, HandoffRuntimeState, HookAuthority, PaneAgentState, TerminalAgent,
};
use herdr::identity::{
    check_identity, display_name_problem, identity_from_file, identity_path,
    load_or_create_identity, new_identity_of, random_token, random_token_of, save_identity,
    save_identity_with, validate_display_name, validate_frontend_profile_id, ClientIdentity,
    IdentityError, IdentityFile, NameProblem, TEMPORARY_NAME_BYTES,
};
use herdr::ipc::{
    directory_sync_unsupported, is_connection_closed_error, parent_after, parent_attributes,
    parent_before, poll_pipe_read_count, poll_read_count, prepare_socket_path,
    probe_stream_closed, removal_result, remove_socket_file_if_owned, stale_socket_connect_error,
    windows_named_pipe_closed_error, windows_socket_marker, ConnectOutcome, FileFacts, IoErrorKind,
    LocalStreamReadCount, OwnedRemoval, ParentRefusal, ReadOutcome, SocketFileIdentity,
    SocketPathStep,
};

#[test]
fn stale_socket_connect_errors_keep_unix_would_block_strict() {
    for windows in [false, true] {
        assert!(stale_socket_connect_error(IoErrorKind::ConnectionRefused, windows));
        assert!(stale_socket_connect_error(IoErrorKind::NotFound, windows));
        assert!(stale_socket_connect_error(IoErrorKind::TimedOut, windows));
        assert_eq!(
            stale_socket_connect_error(IoErrorKind::WouldBlock, windows),
            windows
        );
    }
}

#[test]
fn a_socket_path_is_taken_over_only_when_stale() {
    assert_eq!(prepare_socket_path(None, false), SocketPathStep::Ready);
    assert_eq!(
        prepare_socket_path(Some(ConnectOutcome::Connected), false),
        SocketPathStep::Busy
    );
    assert_eq!(
        prepare_socket_path(Some(ConnectOutcome::Failed(IoErrorKind::ConnectionRefused)), false),
        SocketPathStep::RemoveStale
    );
    assert_eq!(
        prepare_socket_path(Some(ConnectOutcome::Failed(IoErrorKind::WouldBlock)), false),
        SocketPathStep::Fail(IoErrorKind::WouldBlock)
    );
    assert_eq!(removal_result(Some(IoErrorKind::NotFound)), Ok(()));
    assert_eq!(
        removal_result(Some(IoErrorKind::PermissionDenied)),
        Err(IoErrorKind::PermissionDenied)
    );
}

#[test]
fn reads_tell_data_from_silence_and_end() {
    assert_eq!(poll_read_count(ReadOutcome::Read(3)), LocalStreamReadCount::Data(3));
    assert_eq!(poll_read_count(ReadOutcome::Read(0)), LocalStreamReadCount::Closed);
    assert_eq!(
        poll_read_count(ReadOutcome::Failed(IoErrorKind::WouldBlock)),
        LocalStreamReadCount::Pending
    );
    assert_eq!(
        poll_read_count(ReadOutcome::Failed(IoErrorKind::Other)),
        LocalStreamReadCount::Error(IoErrorKind::Other)
    );
    assert_eq!(
        poll_pipe_read_count(None, ReadOutcome::Read(1)),
        LocalStreamReadCount::Closed
    );
    assert_eq!(
        poll_pipe_read_count(Some(0), ReadOutcome::Read(1)),
        LocalStreamReadCount::Pending
    );
    assert_eq!(probe_stream_closed(ReadOutcome::Read(0)), Ok(true));
    assert_eq!(probe_stream_closed(ReadOutcome::Failed(IoErrorKind::WouldBlock)), Ok(false));
    assert_eq!(probe_stream_closed(ReadOutcome::Failed(IoErrorKind::BrokenPipe)), Ok(true));
    assert_eq!(
        probe_stream_closed(ReadOutcome::Failed(IoErrorKind::Other)),
        Err(IoErrorKind::Other)
    );
    assert!(is_connection_closed_error(IoErrorKind::UnexpectedEof));
    assert!(!is_connection_closed_error(IoErrorKind::TimedOut));
    assert!(windows_named_pipe_closed_error(Some(109)));
    assert!(!windows_named_pipe_closed_error(Some(5)));
    assert!(directory_sync_unsupported(IoErrorKind::Unsupported));
    assert!(!directory_sync_unsupported(IoErrorKind::Other));
}

fn directory(uid: u32, mode: u32) -> FileFacts {
    FileFacts {
        is_dir: true,
        is_file: false,
        is_symlink: false,
        uid,
        mode,
        dev: 1,
        ino: 2,
    }
}

#[test]
fn private_listener_rejects_symlinked_parent() {
    let opened = directory(7, 0o40700);
    assert_eq!(parent_before(opened, 7), Ok(()));
    assert_eq!(parent_before(opened, 8), Err(ParentRefusal::NotOwnerControlled));
    assert_eq!(parent_after(opened, opened, 7), Ok(()));
    let link = FileFacts { is_symlink: true, ..opened };
    assert_eq!(
        parent_after(opened, link, 7),
        Err(ParentRefusal::ChangedWhileSecured)
    );
    assert_eq!(
        parent_after(directory(7, 0o40755), opened, 7),
        Err(ParentRefusal::ChangedWhileSecured)
    );
    assert_eq!(parent_attributes(b"user.note\0"), Ok(()));
    assert_eq!(
        parent_attributes(b"user.note\0system.posix_Acl_access\0"),
        Err(ParentRefusal::HasAccessControlList)
    );
}

#[test]
fn remove_socket_file_if_owned_compares_windows_marker_contents() {
    let bound = SocketFileIdentity::Marker { content: b"1:2".to_vec() };
    assert_eq!(
        remove_socket_file_if_owned(
            Ok(SocketFileIdentity::Marker { content: b"1:2".to_vec() }),
            &bound
        ),
        OwnedRemoval::Remove
    );
    assert_eq!(
        remove_socket_file_if_owned(
            Ok(SocketFileIdentity::Marker { content: b"1:3".to_vec() }),
            &bound
        ),
        OwnedRemoval::Leave
    );
    assert_eq!(
        remove_socket_file_if_owned(Err(IoErrorKind::NotFound), &bound),
        OwnedRemoval::Leave
    );
    assert_eq!(
        remove_socket_file_if_owned(Err(IoErrorKind::PermissionDenied), &bound),
        OwnedRemoval::Fail(IoErrorKind::PermissionDenied)
    );
    assert_eq!(windows_socket_marker(12, 345), "12:345");
}

#[test]
fn owner_launch_identity_distinguishes_pid_reuse() {
    let owner = OwnerMetadata {
        schema: 1,
        pid: 42,
        process_start_identity: Some(7),
    };
    assert!(!owner_process_is_inactive_with(&owner, true, Some(7)));
    assert!(owner_process_is_inactive_with(&owner, true, Some(8)));
    assert!(!owner_process_is_inactive_with(&owner, true, None));
    assert!(owner_process_is_inactive_with(&owner, false, None));
}

#[test]
fn abrupt_owner_death_root_is_reclaimed_on_restart() {
    let owner = OwnerMetadata { schema: 1, pid: 42, process_start_identity: Some(7) };
    let home = directory(1000, 0o40700);
    let metadata = FileFacts { is_dir: false, is_file: true, mode: 0o100600, ..home };
    assert!(root_is_reclaimable(42, home, metadata, 1000, &owner, false, None));
    assert!(!root_is_reclaimable(42, home, metadata, 1000, &owner, true, Some(7)));
    assert!(!root_is_reclaimable(43, home, metadata, 1000, &owner, false, None));
    assert!(!root_is_reclaimable(42, directory(1000, 0o40755), metadata, 1000, &owner, false, None));
}

#[test]
fn guest_command_clears_global_state_and_uses_private_home() {
    assert_eq!(agent_dir("/home"), "/home/.omp/agent");
    let ops = guest_env("/home");
    assert!(ops.contains(&EnvOp::Remove("XDG_CONFIG_HOME".into())));
    assert!(ops.contains(&EnvOp::Assign("HOME".into(), "/home".into())));
    let name = guest_root_name(42).ok().unwrap();
    assert!(name.starts_with("herdr-omp-42-"));
    assert_eq!(guest_root_pid(&name), Some(42));
    assert_eq!(guest_root_pid("herdr-omp-42-xyz"), None);
    assert_eq!(guest_root_pid("other"), None);
    let digits: Vec<char> = "4294967295".chars().collect();
    assert_eq!(parse_u32(&digits), Some(u32::MAX));
    let over: Vec<char> = "4294967296".chars().collect();
    assert_eq!(parse_u32(&over), None);
    assert_eq!(
        allocation_step(ALLOCATION_ATTEMPTS, CreateOutcome::AlreadyExists),
        AllocationStep::GiveUp
    );
    assert_eq!(
        allocation_step(0, CreateOutcome::AlreadyExists),
        AllocationStep::TryAnotherName
    );
    assert_eq!(allocation_step(0, CreateOutcome::Created), AllocationStep::Initialize);
    assert_eq!(allocation_step(0, CreateOutcome::Failed), AllocationStep::Fail);
}

#[test]
fn display_name_validation_rejects_untrusted_boundary_characters_and_limits() {
    let over_scalars = "x".repeat(65);
    let over_width = "界".repeat(17);
    let over_bytes = "é".repeat(33);
    for invalid in [
        " leading",
        "trailing ",
        "[brackets]",
        "line\nbreak",
        "tab\tname",
        "escape\u{1b}",
        "bidi\u{202e}name",
        "isolate\u{2067}name",
        "zero\u{200b}width",
        "join\u{200d}er",
        "word\u{2060}joiner",
        "function\u{2061}application",
        "invisible\u{2062}times",
        "separator\u{2063}name",
        "plus\u{2064}name",
        "bom\u{feff}name",
        &over_scalars,
        &over_width,
        &over_bytes,
    ] {
        assert!(
            validate_display_name(invalid).is_err(),
            "{invalid:?} must be rejected"
        );
    }

    let max_width = "界".repeat(16);
    let max_bytes = "é".repeat(32);
    for valid in ["Ada", max_width.as_str(), max_bytes.as_str()] {
        assert!(
            validate_display_name(valid).is_ok(),
            "{valid:?} must be accepted"
        );
    }
}

#[test]
fn each_unfit_name_says_why() {
    assert_eq!(display_name_problem(" x", 2), Some(NameProblem::NotTrimmed));
    assert_eq!(display_name_problem("", 0), Some(NameProblem::WrongLength));
    assert_eq!(display_name_problem(&"é".repeat(33), 33), Some(NameProblem::TooManyBytes));
    assert_eq!(display_name_problem("x", 33), Some(NameProblem::TooWide));
    assert_eq!(display_name_problem("a\u{1b}b", 2), Some(NameProblem::DisallowedCharacter));
    assert_eq!(display_name_problem("Ada", 3), None);
    assert_eq!(NameProblem::TooWide.message(), "must be at most 32 display cells");
}

fn identity() -> ClientIdentity {
    ClientIdentity {
        display_name: Some("Ada".to_string()),
        frontend_profile_id: "a".repeat(43),
        renderer_binding_token: "b".repeat(43),
    }
}

#[test]
fn identity_save_overwrites_existing_file() {
    let save = save_identity(&identity()).ok().unwrap();
    assert_eq!(save.file.display_name.as_deref(), Some("Ada"));
    assert_eq!(save.file.renderer_binding_token, Some("b".repeat(43)));
    let (loaded, again) = load_or_create_identity(Some(save.file)).ok().unwrap();
    assert_eq!(loaded, identity());
    assert!(!again);
}

#[test]
fn stale_pid_temporary_file_does_not_block_identity_save() {
    let first = save_identity(&identity()).ok().unwrap();
    let second = save_identity(&identity()).ok().unwrap();
    assert!(first.temporary_name.starts_with(".identity.toml."));
    assert!(first.temporary_name.ends_with(".tmp"));
    assert_ne!(first.temporary_name, second.temporary_name);
    let mut unfit = identity();
    unfit.renderer_binding_token = "short".into();
    assert_eq!(save_identity(&unfit).err(), Some(IdentityError::InvalidProfileId));
}

#[test]
fn an_identity_without_a_token_gets_one() {
    let file = IdentityFile {
        display_name: None,
        frontend_profile_id: "a".repeat(43),
        renderer_binding_token: None,
    };
    let (loaded, save) = identity_from_file(file, "c".repeat(43)).ok().unwrap();
    assert!(save);
    assert_eq!(loaded.renderer_binding_token, "c".repeat(43));
    let (fresh, save) = load_or_create_identity(None).ok().unwrap();
    assert!(save);
    assert!(validate_frontend_profile_id(&fresh.frontend_profile_id).is_ok());
    let file = IdentityFile {
        display_name: None,
        frontend_profile_id: "bad".into(),
        renderer_binding_token: None,
    };
    assert_eq!(
        identity_from_file(file, "c".repeat(43)).err(),
        Some(IdentityError::InvalidProfileId)
    );
    assert_eq!(identity_path("/config"), "/config/identity.toml");
}

#[test]
fn random_tokens_are_profile_ids() {
    let token = random_token().ok().unwrap();
    assert!(validate_frontend_profile_id(&token).is_ok());
    assert_ne!(token, random_token().ok().unwrap());
}

#[test]
fn a_token_is_the_text_of_its_bytes() {
    assert_eq!(
        random_token_of(Ok((0..32).collect())),
        Ok("AAECAwQFBgcICQoLDA0ODxAREhMUFRYXGBkaGxwdHh8".into())
    );
    assert_eq!(
        random_token_of(Err("no source".into())),
        Err(IdentityError::Random("no source".into()))
    );
}

#[test]
fn an_identity_is_stored_under_a_name_of_random_bytes() {
    let save = save_identity_with(&identity(), Ok(vec![0; TEMPORARY_NAME_BYTES])).ok().unwrap();
    assert_eq!(save.temporary_name, format!(".identity.toml.{}.tmp", "A".repeat(22)));
    assert_eq!(save.file.display_name.as_deref(), Some("Ada"));
    assert_eq!(save.file.frontend_profile_id, "a".repeat(43));
    assert_eq!(save.file.renderer_binding_token, Some("b".repeat(43)));
    assert_eq!(
        save_identity_with(&identity(), Err("no source".into())).err(),
        Some(IdentityError::Random("no source".into()))
    );
    let mut unfit = identity();
    unfit.renderer_binding_token = "short".into();
    assert_eq!(
        save_identity_with(&unfit, Err("no source".into())).err(),
        Some(IdentityError::InvalidProfileId)
    );
    assert_eq!(check_identity(&unfit), Err(IdentityError::InvalidProfileId));
    assert_eq!(check_identity(&identity()), Ok(()));
}

#[test]
fn a_new_identity_has_its_tokens_and_no_name() {
    let (made, save) = new_identity_of("a".repeat(43), "b".repeat(43));
    assert!(save);
    assert_eq!(made, ClientIdentity { display_name: None, ..identity() });
}

#[test]
fn a_home_is_named_after_its_process() {
    assert_eq!(guest_root_name_of(42, "0aff"), "herdr-omp-42-0aff");
}

#[test]
fn an_agent_survives_a_handoff() {
    let terminal = TerminalAgent {
        effective_agent_label: Some("codex".into()),
        state: AgentState::Working,
        hook_authority: Some(HookAuthority {
            source: "hook".into(),
            agent_label: "codex".into(),
            message: None,
            session_ref: Some(AgentSessionRef {
                kind: AgentSessionRefKind::Id,
                value: "s1".into(),
            }),
        }),
    };
    let captured = HandoffAgentState::capture(&terminal, true);
    assert_eq!(captured.state, PaneAgentState::Working);
    assert_eq!(captured.detection_seed(Some(1u8)), (Some(1), AgentState::Working, true));
    assert_eq!(captured.detection_seed(None::<u8>), (None, AgentState::Unknown, true));
    let restored = captured.restore(Some(1u8));
    assert_eq!(restored.detected, Some((1, AgentState::Working)));
    assert_eq!(restored.hook, terminal.hook_authority.map(|hook| (hook, AgentState::Working)));
    assert!(restored.seen);
    for state in [AgentState::Idle, AgentState::Working, AgentState::Blocked, AgentState::Unknown] {
        assert_eq!(detect_agent_state(api_agent_state(state)), state);
    }
}

#[test]
fn a_runtime_keeps_everything_under_another_pane_id() {
    let state = HandoffRuntimeState {
        pane_id: 7,
        child_pid: 42,
        rows: 24,
        cols: 80,
        cell_width_px: 0,
        cell_height_px: 0,
        remote_execution_ready: true,
        remote_hostname: Some("actual-node".into()),
        remote_exec_ready_filter: RemoteExecReadyFilter::default(),
        pending_agent_resume_plan: None,
        pending_agent_resume_attempt_pid: Some(42),
        pending_agent_resume_retired_pids: vec![40, 41],
        respawn_shell_on_exit: Some(false),
        keyboard_protocol_flags: 0,
        keyboard_protocol_ansi: None,
        input_state: None,
        terminal_title: None,
        initial_history_ansi: None,
        agent_state: None,
    };
    let moved = state.with_pane_id(9);
    assert_eq!(moved.pane_id, 9);
    assert_eq!(moved.child_pid, 42);
    assert!(moved.remote_execution_ready);
    assert_eq!(moved.remote_hostname.as_deref(), Some("actual-node"));
    assert_eq!(moved.pending_agent_resume_retired_pids, [40, 41]);
    assert_eq!(moved.respawn_shell_on_exit, Some(false));
}
