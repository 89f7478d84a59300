use herdr::execution::nonce::RemoteExecReadyNonce;
use herdr::osc::agent::{
    AgentOscObservation, AgentOscStateTracker, AGENT_OSC_MAX_CHARS, OMP_REPLY_ANCHOR_MAX_BYTES,
};
use herdr::osc::color::{
    DefaultColorEvent, DefaultColorEventTracker, DefaultColorOscTracker, DefaultColorQuery,
    DefaultColorTrackedEvent,
};
use herdr::osc::cwd::parse_reported_cwd;
use herdr::osc::debug::{OscDebugEvent, OscDebugTracker};
use herdr::osc::ready::{
    remote_exec_ready_osc_prefix, RemoteExecReady, RemoteExecReadyFilter, RemoteExecReadyPayload,
    REMOTE_EXEC_READY_PAYLOAD_MAX_BYTES,
};
use herdr::osc::screen::{PrimaryScreenEscapeTracker, PRIMARY_SCREEN_ESCAPE_MAX_CSI_BYTES};
use herdr::osc::scrollback::{
    foreground_job_uses_droid_scrollback_compat, maybe_filter_primary_screen_scrollback_clear,
    strip_scrollback_clear_sequences, ForegroundJob, ForegroundProcess,
};
use herdr::osc::stream::OscStreamCollector;
use herdr::osc::theme::{
    should_restore_host_terminal_theme, should_restore_host_terminal_theme_on_macos,
    DefaultColorKind, DefaultColorOwnership, HostColorWrite, HostTheme, RgbColor,
};

/// Output on the primary screen, with no reply anchor registered.
trait PrimaryScreen {
    fn observe(&mut self, bytes: &[u8]) -> AgentOscObservation;
}

impl PrimaryScreen for AgentOscStateTracker {
    fn observe(&mut self, bytes: &[u8]) -> AgentOscObservation {
        self.observe_on_screen(bytes, false, &[])
    }
}

struct Observed {
    bytes: Vec<u8>,
    ready: Option<RemoteExecReady>,
}

fn text_of(object: &serde_json::Value, key: &str) -> Option<String> {
    object.get(key)?.as_str().map(str::to_string)
}

fn decoded(payload: &[u8]) -> Option<RemoteExecReadyPayload> {
    let object: serde_json::Value = serde_json::from_slice(payload).ok()?;
    Some(RemoteExecReadyPayload {
        nonce: text_of(&object, "nonce")?,
        hostname: text_of(&object, "hostname"),
        cwd: text_of(&object, "cwd"),
    })
}

fn observe(filter: &mut RemoteExecReadyFilter, bytes: &[u8]) -> Observed {
    let filtered = filter.filter(bytes);
    let payloads: Vec<_> = filtered.payloads.iter().map(|payload| decoded(payload)).collect();
    Observed { bytes: filtered.bytes, ready: filter.accept(&payloads) }
}

fn object(fields: &[(&str, &str)]) -> Vec<u8> {
    let mut object = serde_json::Map::new();
    for (key, value) in fields {
        object.insert(key.to_string(), serde_json::Value::String(value.to_string()));
    }
    serde_json::to_vec(&serde_json::Value::Object(object)).unwrap()
}

fn shell_job(shell_pid: u32) -> ForegroundJob {
    ForegroundJob {
        process_group_id: shell_pid,
        processes: vec![ForegroundProcess {
            pid: shell_pid,
            name: "zsh".to_string(),
            argv0: Some("zsh".to_string()),
            argv: Some(vec!["zsh".to_string()]),
            cmdline: Some("zsh".to_string()),
        }],
    }
}

fn tracked_default_color_events(events: Vec<DefaultColorTrackedEvent>) -> Vec<DefaultColorEvent> {
    events.into_iter().map(|event| event.event).collect()
}

fn enabled_osc_debug_tracker() -> OscDebugTracker {
    OscDebugTracker::new(true)
}

#[test]
fn osc_stream_collector_honors_ghostty_raw_c1_anywhere_transitions() {
    let mut collector = OscStreamCollector::default();
    let bodies = collector.observe(
        b"\x1bPqX\x9b?1049h\x1b]9;a\x07\x1bPignored\x9d2;c\x07\x1b%\x9d2;b\x1b\\",
    );

    assert_eq!(
        bodies,
        vec![b"9;a".to_vec(), b"2;c".to_vec(), b"2;b".to_vec()]
    );
}

#[test]
fn ground_utf8_c1_osc_lookalike_does_not_synthesize_reply_marker() {
    let mut tracker = AgentOscStateTracker::default();
    let generation = tracker.omp_reply_generation();

    let observation = tracker.observe(b"\xC3\x9D133;A;aid=omp-response-forged:reply-1\x07");

    assert!(observation.reply_anchor_events.is_empty());
    assert!(!observation.reset_reply_selection);
    assert_eq!(tracker.omp_reply_generation(), generation);
}

#[test]
fn ground_utf8_c1_csi_lookalike_does_not_clear_primary_replies() {
    let mut tracker = PrimaryScreenEscapeTracker::default();

    for &byte in b"\xC3\x9B3J" {
        assert!(!tracker.observe(byte));
    }
}

#[test]
fn osc_del_is_data_and_cannot_normalize_malformed_reply_marker() {
    let malformed = b"\x1b]13\x7f3;A;aid=omp-response-forged:reply-1\x07";
    let mut collector = OscStreamCollector::default();
    let bodies = collector.observe(malformed);
    assert_eq!(
        bodies,
        vec![b"13\x7f3;A;aid=omp-response-forged:reply-1".to_vec()]
    );

    let mut tracker = AgentOscStateTracker::default();
    let observation = tracker.observe(malformed);
    assert!(observation.reply_anchor_events.is_empty());
    assert!(!observation.reset_reply_selection);
}

#[test]
fn default_color_tracker_detects_split_osc_11_sequences() {
    let mut tracker = DefaultColorOscTracker::default();

    assert!(!tracker.observe(b"\x1b]11;rgb:11/22"));
    assert!(tracker.observe(b"/33\x1b\\"));
}

#[test]
fn default_color_tracker_ignores_osc_queries() {
    let mut tracker = DefaultColorOscTracker::default();

    assert!(!tracker.observe(b"\x1b]10;?\x1b\\"));
    assert!(!tracker.observe(b"\x1b]11;?\x07"));
}

#[test]
fn reported_cwd_parses_file_uri_and_bare_paths() {
    assert_eq!(
        parse_reported_cwd(b"file:///tmp/herdr%20repo"),
        Some((String::from("/tmp/herdr repo"), None))
    );
    assert_eq!(
        parse_reported_cwd(b"file://build-host/tmp/herdr%20repo"),
        Some((
            String::from("/tmp/herdr repo"),
            Some("build-host".into())
        ))
    );
    assert_eq!(
        parse_reported_cwd(b"C:\\Users\\herdr\\src\\herdr"),
        Some((
            String::from("C:\\Users\\herdr\\src\\herdr"),
            None
        ))
    );
    assert_eq!(
        parse_reported_cwd(b"\"C:\\my proj\""),
        Some((String::from("C:\\my proj"), None))
    );
}

#[test]
fn reported_cwd_rejects_invalid_or_empty_values() {
    assert_eq!(parse_reported_cwd(b""), None);
    assert_eq!(parse_reported_cwd(b"\xff"), None);
}

#[test]
fn remote_exec_ready_filter_requires_exact_nonce_without_losing_output() {
    let nonce = RemoteExecReadyNonce::generate().unwrap();
    let wrong_nonce = RemoteExecReadyNonce::generate().unwrap();
    let mut filter = RemoteExecReadyFilter::default();
    filter.set_expected_nonce(Some(nonce.clone()));

    let spoof = format!(
        "\x1b]6973;herdr-remote-exec-ready={{\"nonce\":\"{}\",\"hostname\":\"spoof\"}}\x1b\\",
        wrong_nonce.as_str()
    );
    let spoofed = observe(&mut filter, spoof.as_bytes());
    assert!(spoofed.bytes.is_empty());
    assert_eq!(spoofed.ready, None);

    let first = observe(&mut filter, b"before\x1b]6973;herdr-remote-");
    assert_eq!(first.bytes.as_slice(), b"before");
    assert_eq!(first.ready, None);

    let second_payload = format!(
        "exec-ready={{\"nonce\":\"{}\",\"hostname\":\"actual-",
        nonce.as_str()
    );
    let second = observe(&mut filter, second_payload.as_bytes());
    assert!(second.bytes.is_empty());
    assert_eq!(second.ready, None);

    let third = observe(&mut filter, b"node\",\"cwd\":\"/remote/plugin-root\"}\x1b\\after");
    assert_eq!(third.bytes.as_slice(), b"after");
    assert_eq!(
        third.ready,
        Some(RemoteExecReady {
            hostname: Some("actual-node".into()),
            cwd: Some("/remote/plugin-root".into()),
        })
    );
}

#[test]
fn remote_exec_ready_filter_accepts_payloads_beyond_the_old_cwd_limit() {
    let cwd = format!("/{}", "x".repeat(4096));
    let nonce = RemoteExecReadyNonce::generate().unwrap();
    let payload = object(&[
        ("nonce", nonce.as_str()),
        ("hostname", "actual-node"),
        ("cwd", &cwd),
    ]);
    assert!(payload.len() > 1024);
    assert!(payload.len() <= REMOTE_EXEC_READY_PAYLOAD_MAX_BYTES);
    let mut marker = remote_exec_ready_osc_prefix().to_vec();
    marker.extend_from_slice(&payload);
    marker.extend_from_slice(b"\x1b\\");

    let mut filter = RemoteExecReadyFilter::default();
    filter.set_expected_nonce(Some(nonce));
    let filtered = observe(&mut filter, &marker);

    assert!(filtered.bytes.is_empty());
    assert_eq!(
        filtered.ready,
        Some(RemoteExecReady {
            hostname: Some("actual-node".into()),
            cwd: Some(String::from(format!("/{}", "x".repeat(4096)))),
        })
    );
}

#[test]
fn remote_exec_ready_filter_preserves_split_non_marker_osc() {
    let mut filter = RemoteExecReadyFilter::default();
    let mut output = Vec::new();

    output.extend_from_slice(observe(&mut filter, b"\x1b]6973;herdr-remote-exec").bytes.as_slice());
    output.extend_from_slice(observe(&mut filter, b"-other=visible\x1b\\").bytes.as_slice());

    assert_eq!(output, b"\x1b]6973;herdr-remote-exec-other=visible\x1b\\");
}

#[test]
fn remote_exec_ready_filter_discards_control_hostname_but_keeps_ready() {
    let nonce = RemoteExecReadyNonce::generate().unwrap();
    let mut filter = RemoteExecReadyFilter::default();
    filter.set_expected_nonce(Some(nonce.clone()));
    let payload = format!(
        "\x1b]6973;herdr-remote-exec-ready={{\"nonce\":\"{}\",\"hostname\":\"build\\u0007node\"}}\x1b\\",
        nonce.as_str()
    );
    let filtered = observe(&mut filter, payload.as_bytes());

    assert!(filtered.bytes.is_empty());
    assert_eq!(
        filtered.ready,
        Some(RemoteExecReady {
            hostname: None,
            cwd: None,
        })
    );
}

#[test]
fn agent_osc_osc0_title_with_bel() {
    let mut t = AgentOscStateTracker::default();
    t.observe("hello\x1b]0;braille title\x07world".as_bytes());
    assert_eq!(t.latest_title(), "braille title");
    assert_eq!(t.terminal_title(), Some("braille title"));
    assert_eq!(t.latest_progress(), "");
}

#[test]
fn agent_osc_osc2_title_with_st() {
    let mut t = AgentOscStateTracker::default();
    t.observe("hello\x1b]2;static title\x1b\\world".as_bytes());
    assert_eq!(t.latest_title(), "static title");
    assert_eq!(t.latest_progress(), "");
}

#[test]
fn agent_osc_empty_osc0_clears_title() {
    let mut t = AgentOscStateTracker::default();
    // First set a title.
    t.observe(b"\x1b]0;some title\x07");
    assert_eq!(t.latest_title(), "some title");
    // Then clear it with an empty payload (Codex pattern).
    t.observe(b"\x1b]0;\x07");
    assert_eq!(t.latest_title(), "");
    assert_eq!(t.terminal_title(), None);
}

#[test]
fn clearing_agent_evidence_preserves_the_terminal_title() {
    let mut tracker = AgentOscStateTracker::default();
    tracker.observe("\x1b]2;✳ 修复🙂标题\x1b\\".as_bytes());

    tracker.clear_retained();

    assert_eq!(tracker.latest_title(), "");
    assert_eq!(tracker.terminal_title(), Some("✳ 修复🙂标题"));
}

#[test]
fn handoff_seed_does_not_restore_agent_detection_evidence() {
    let mut tracker = AgentOscStateTracker::default();

    tracker.seed_terminal_title(Some("✳ restored title".into()));

    assert_eq!(tracker.terminal_title(), Some("✳ restored title"));
    assert_eq!(tracker.latest_title(), "");
}

#[test]
fn agent_osc_osc9_sets_progress_with_bel() {
    let mut t = AgentOscStateTracker::default();
    t.observe(b"\x1b]9;4;3;\x07");
    assert_eq!(t.latest_progress(), "4;3;");
    assert_eq!(t.latest_title(), "");
}

#[test]
fn agent_osc_osc9_clear_progress_with_st() {
    let mut t = AgentOscStateTracker::default();
    t.observe(b"\x1b]9;4;3;\x07");
    assert_eq!(t.latest_progress(), "4;3;");
    t.observe(b"\x1b]9;4;0;\x1b\\");
    assert_eq!(t.latest_progress(), "4;0;");
}

#[test]
fn agent_osc_split_sequence_across_chunks() {
    let mut t = AgentOscStateTracker::default();
    t.observe(b"\x1b]9;4;3");
    assert_eq!(t.latest_progress(), "");
    t.observe(b";\x07");
    assert_eq!(t.latest_progress(), "4;3;");
}

#[test]
fn agent_osc_queues_each_safe_reply_aid_by_process_session() {
    let mut tracker = AgentOscStateTracker::default();
    let initial_generation = tracker.omp_reply_generation();

    let first = tracker.observe(
        b"\x1b]133;A;aid=omp-response-run-a:reply-1\x07\x1b]133;A;redraw=1;aid=omp-response-run-a:reply-1\x1b\\\
          \x1b]133;A;aid=omp-response-run-a:reply-2\x07",
    );
    assert!(first.reset_reply_selection);
    assert_eq!(
        first
            .reply_anchor_events
            .iter()
            .map(|event| event.anchor_id.as_slice())
            .collect::<Vec<_>>(),
        vec![
            b"run-a:reply-1".as_slice(),
            b"run-a:reply-1".as_slice(),
            b"run-a:reply-2".as_slice(),
        ]
    );
    let first_generation = tracker.omp_reply_generation();
    assert_eq!(first_generation.process, initial_generation.process);
    assert_eq!(
        first_generation.marker_epoch,
        initial_generation.marker_epoch.wrapping_add(1)
    );

    let replacement = tracker.observe(b"\x1b]133;A;aid=omp-response-run-b:reply-1\x07");
    assert!(replacement.reset_reply_selection);
    assert_eq!(
        replacement
            .reply_anchor_events
            .iter()
            .map(|event| event.anchor_id.as_slice())
            .collect::<Vec<_>>(),
        vec![b"run-b:reply-1".as_slice()]
    );
    let replacement_generation = tracker.omp_reply_generation();
    assert_eq!(replacement_generation.process, first_generation.process);
    assert_eq!(
        replacement_generation.marker_epoch,
        first_generation.marker_epoch.wrapping_add(1)
    );
}

#[test]
fn agent_osc_discards_alternate_aids_and_resets_before_same_or_split_ed3_replay() {
    let mut tracker = AgentOscStateTracker::default();
    let alternate = tracker.observe_on_screen(
        b"\x1b[?1049h\x1b]133;A;aid=omp-response-forged:reply-1\x07\x1b[?1049l",
        false,
        &[],
    );
    assert!(alternate.reply_anchor_events.is_empty());
    assert!(!alternate.reset_reply_selection);

    let same_buffer = tracker.observe(
        b"\x1b]133;A;aid=omp-response-run-a:old\x07\x1b[3J\x1b]133;A;aid=omp-response-run-a:fresh\x07",
    );
    assert!(same_buffer.reset_reply_selection);
    assert_eq!(same_buffer.reply_anchor_events[0].anchor_id, b"run-a:fresh");

    let split_start = tracker.observe(b"\x1b[3");
    assert!(!split_start.reset_reply_selection);
    let split_end = tracker.observe(b"J\x1b]133;A;aid=omp-response-run-a:new\x07");
    assert!(split_end.reset_reply_selection);
    assert_eq!(split_end.reply_anchor_events[0].anchor_id, b"run-a:new");

    let oversized = format!(
        "\x1b]133;A;aid=omp-response-run-a:{}\x07",
        "x".repeat(OMP_REPLY_ANCHOR_MAX_BYTES)
    );
    assert!(tracker
        .observe(oversized.as_bytes())
        .reply_anchor_events
        .is_empty());
    assert!(tracker
        .observe(b"\x1b]133;A;aid=omp-response-run-a:reply/unsafe\x07")
        .reply_anchor_events
        .is_empty());
}

#[test]
fn dcs_c1_alternate_transition_cannot_replace_primary_reply_session() {
    let mut tracker = AgentOscStateTracker::default();
    let primary = tracker.observe(b"\x1b]133;A;aid=omp-response-run-a:reply-1\x07");
    assert!(primary.reset_reply_selection);

    let alternate = tracker.observe_on_screen(
        b"\x1bPqX\x9b?1049h\x1b]133;A;aid=omp-response-forged:reply-1\x07",
        false,
        &[],
    );
    assert!(alternate.reply_anchor_events.is_empty());
    assert!(!alternate.reset_reply_selection);

    let resumed = tracker.observe_on_screen(
        b"\x1b[?1049l\x1b]133;A;aid=omp-response-run-a:reply-2\x1b\\",
        true,
        &[],
    );
    assert!(!resumed.reset_reply_selection);
    assert_eq!(
        resumed
            .reply_anchor_events
            .iter()
            .map(|event| event.anchor_id.as_slice())
            .collect::<Vec<_>>(),
        vec![b"run-a:reply-2".as_slice()]
    );
}

#[test]
fn primary_screen_escape_tracker_caps_csi_and_keeps_split_ed3() {
    let mut tracker = PrimaryScreenEscapeTracker::default();
    assert!(!tracker.observe(0x1b));
    assert!(!tracker.observe(b'['));
    for _ in 0..=PRIMARY_SCREEN_ESCAPE_MAX_CSI_BYTES {
        assert!(!tracker.observe(b'3'));
    }
    assert!(!tracker.observe(b'J'));

    assert!(!tracker.observe(0x1b));
    assert!(!tracker.observe(b'['));
    assert!(!tracker.observe(b'3'));
    assert!(tracker.observe(b'J'));
}

#[test]
fn agent_osc_bel_and_st_terminators_both_work() {
    let mut t = AgentOscStateTracker::default();
    t.observe(b"\x1b]0;title-bel\x07");
    assert_eq!(t.latest_title(), "title-bel");
    t.observe(b"\x1b]0;title-st\x1b\\");
    assert_eq!(t.latest_title(), "title-st");
}

#[test]
fn agent_osc_oversized_payload_is_discarded_and_recovers() {
    let mut t = AgentOscStateTracker::default();
    // Set a title first.
    t.observe(b"\x1b]0;before\x07");
    assert_eq!(t.latest_title(), "before");

    // Feed an oversized OSC body (> 4096 bytes).
    let mut oversized = Vec::from(b"\x1b]0;".as_slice());
    oversized.extend(std::iter::repeat_n(b'x', 4097));
    oversized.push(0x07);
    t.observe(&oversized);
    // The oversized body is dropped; the previously stored title is kept.
    assert_eq!(t.latest_title(), "before");

    // After recovery, subsequent valid sequences are captured normally.
    t.observe(b"\x1b]0;after\x07");
    assert_eq!(t.latest_title(), "after");
}

#[test]
fn agent_osc_cap_length_is_respected() {
    let mut t = AgentOscStateTracker::default();
    // Build a title of AGENT_OSC_MAX_CHARS + 50 ASCII chars.
    let long_title: String = "a".repeat(AGENT_OSC_MAX_CHARS + 50);
    let seq = format!("\x1b]0;{long_title}\x07");
    t.observe(seq.as_bytes());
    assert_eq!(t.latest_title().len(), AGENT_OSC_MAX_CHARS);
}

#[test]
fn agent_osc_control_chars_stripped() {
    let mut t = AgentOscStateTracker::default();
    t.observe(b"\x1b]0;before\x01after\x07");
    assert_eq!(t.latest_title(), "beforeafter");
}

#[test]
fn agent_osc_unrelated_osc_does_not_overwrite_title() {
    let mut t = AgentOscStateTracker::default();
    t.observe(b"\x1b]0;my title\x07");
    // OSC 4 (palette color), OSC 52 (clipboard) — should not touch title/progress.
    t.observe(b"\x1b]4;1;rgb:aa/bb/cc\x07");
    t.observe(b"\x1b]52;c;aGVsbG8=\x07");
    assert_eq!(t.latest_title(), "my title");
    assert_eq!(t.latest_progress(), "");
}

#[test]
fn agent_osc_interleaved_sequences() {
    let mut t = AgentOscStateTracker::default();
    // OSC 0 title, then OSC 9 progress, then OSC 2 title update.
    t.observe(b"\x1b]0;first\x07\x1b]9;4;3;\x07\x1b]2;second\x07");
    assert_eq!(t.latest_title(), "second");
    assert_eq!(t.latest_progress(), "4;3;");
}

#[test]
fn agent_osc_default_state_is_empty() {
    let t = AgentOscStateTracker::default();
    assert_eq!(t.latest_title(), "");
    assert_eq!(t.latest_progress(), "");
}

#[test]
fn osc_debug_tracker_detects_title_with_bel() {
    let mut tracker = enabled_osc_debug_tracker();

    tracker.observe("hello\x1b]0;✻ working title\x07world".as_bytes());

    assert_eq!(
        tracker.drain_pending(),
        vec![OscDebugEvent {
            command: "0".to_string(),
            payload: "✻ working title".to_string(),
        }]
    );
}

#[test]
fn osc_debug_tracker_detects_title_with_st() {
    let mut tracker = enabled_osc_debug_tracker();

    tracker.observe("hello\x1b]2;static title\x1b\\world".as_bytes());

    assert_eq!(
        tracker.drain_pending(),
        vec![OscDebugEvent {
            command: "2".to_string(),
            payload: "static title".to_string(),
        }]
    );
}

#[test]
fn osc_debug_tracker_detects_split_status_sequences() {
    let mut tracker = enabled_osc_debug_tracker();

    tracker.observe(b"\x1b]9;4;3");
    assert!(tracker.drain_pending().is_empty());
    tracker.observe(b"\x07\x1b]21337;status=working\x1b\\");

    assert_eq!(
        tracker.drain_pending(),
        vec![
            OscDebugEvent {
                command: "9".to_string(),
                payload: "4;3".to_string(),
            },
            OscDebugEvent {
                command: "21337".to_string(),
                payload: "status=working".to_string(),
            },
        ]
    );
}

#[test]
fn osc_debug_tracker_ignores_untracked_osc_commands() {
    let mut tracker = enabled_osc_debug_tracker();

    tracker.observe(b"\x1b]52;c;SGVsbG8=\x07\x1b]7;file:///tmp\x07");

    assert!(tracker.drain_pending().is_empty());
}

#[test]
fn osc_debug_tracker_sanitizes_control_characters() {
    let mut tracker = enabled_osc_debug_tracker();

    tracker.observe(b"\x1b]0;before\x01after\x07");

    assert_eq!(
        tracker.drain_pending(),
        vec![OscDebugEvent {
            command: "0".to_string(),
            payload: "beforeafter".to_string(),
        }]
    );
}

#[test]
fn osc_debug_tracker_recovers_after_oversized_payload() {
    let mut tracker = enabled_osc_debug_tracker();
    let oversized = vec![b'a'; 4097];

    tracker.observe(b"\x1b]0;");
    tracker.observe(&oversized);
    tracker.observe(b"\x07\x1b]0;ok\x07");

    assert_eq!(
        tracker.drain_pending(),
        vec![OscDebugEvent {
            command: "0".to_string(),
            payload: "ok".to_string(),
        }]
    );
}

#[test]
fn default_color_event_tracker_detects_queries_sets_and_resets() {
    let mut tracker = DefaultColorEventTracker::default();

    tracker.observe(
        b"\x1b]10;?\x07\x1b]11;?\x1b\\\x1b]12;?\x07\x1b]4;0;?\x07\x1b]10;rgb:11/22/33\x07\x1b]111\x07",
    );

    assert_eq!(
        tracked_default_color_events(tracker.drain_pending()),
        vec![
            DefaultColorEvent::Query(DefaultColorQuery::Foreground),
            DefaultColorEvent::Query(DefaultColorQuery::Background),
            DefaultColorEvent::Query(DefaultColorQuery::Cursor),
            DefaultColorEvent::PaletteQuery(0),
            DefaultColorEvent::SetColor(DefaultColorQuery::Foreground),
            DefaultColorEvent::Reset(DefaultColorQuery::Background),
        ]
    );
}

#[test]
fn default_color_event_tracker_tracks_each_multi_value_set() {
    let mut tracker = DefaultColorEventTracker::default();

    tracker.observe(
        b"\x1b]10;rgb:11/22/33;rgb:44/55/66\x1b\\\x1b]10;?;rgb:77/88/99\x1b\\\x1b]10;;rgb:aa/bb/cc\x1b\\",
    );

    assert_eq!(
        tracked_default_color_events(tracker.drain_pending()),
        vec![
            DefaultColorEvent::SetColor(DefaultColorQuery::Foreground),
            DefaultColorEvent::SetColor(DefaultColorQuery::Background),
            DefaultColorEvent::SetColor(DefaultColorQuery::Background),
            DefaultColorEvent::SetColor(DefaultColorQuery::Foreground),
        ]
    );
}

#[test]
fn default_color_event_tracker_handles_split_default_color_queries() {
    let mut tracker = DefaultColorEventTracker::default();

    tracker.observe(b"\x1b]11");
    assert!(tracker.drain_pending().is_empty());
    tracker.observe(b";?\x1b");
    assert!(tracker.drain_pending().is_empty());
    tracker.observe(b"\\");

    assert_eq!(
        tracked_default_color_events(tracker.drain_pending()),
        vec![DefaultColorEvent::Query(DefaultColorQuery::Background)]
    );
}

#[test]
fn default_color_event_tracker_handles_split_palette_color_queries() {
    let mut tracker = DefaultColorEventTracker::default();

    tracker.observe(b"\x1b]4;25");
    assert!(tracker.drain_pending().is_empty());
    tracker.observe(b"5;?\x1b");
    assert!(tracker.drain_pending().is_empty());
    tracker.observe(b"\\");

    assert_eq!(
        tracked_default_color_events(tracker.drain_pending()),
        vec![DefaultColorEvent::PaletteQuery(255)]
    );
}

#[test]
fn default_color_event_tracker_rejects_malformed_palette_color_queries() {
    let mut tracker = DefaultColorEventTracker::default();

    tracker.observe(b"\x1b]4;;?\x07");
    tracker.observe(b"\x1b]4;-1;?\x07");
    tracker.observe(b"\x1b]4;256;?\x07");
    tracker.observe(b"\x1b]4;0;?;1;?\x07");
    tracker.observe(b"\x1b]4;0;rgb:1111/2222/3333\x07");
    tracker.observe(b"\x1b]4;0;?\x07");

    assert_eq!(
        tracked_default_color_events(tracker.drain_pending()),
        vec![DefaultColorEvent::PaletteQuery(0)]
    );
}

#[test]
fn default_color_event_tracker_ignores_other_osc_and_dcs_payloads() {
    let mut tracker = DefaultColorEventTracker::default();

    tracker.observe(b"\x1b]0;title\x07");
    tracker.observe(b"\x1b]52;c;?\x07");
    tracker.observe(b"\x1bPtmux;\x1b\x1b]11;?\x07\x1b\\");
    tracker.observe(b"\x1bPtmux;payload\x07\x1b]11;?\x07\x1b\\");

    assert!(tracker.drain_pending().is_empty());
}

#[test]
fn default_color_event_tracker_ignores_oversized_osc_until_terminator() {
    let mut tracker = DefaultColorEventTracker::default();
    let mut oversized = Vec::from(b"\x1b]11;".as_slice());
    oversized.extend(std::iter::repeat_n(b'a', 1025));
    oversized.extend_from_slice(b"\x1b]11;?\x07");

    tracker.observe(&oversized);
    assert!(tracker.drain_pending().is_empty());

    tracker.observe(b"\x1b]11;?\x07");
    assert_eq!(
        tracked_default_color_events(tracker.drain_pending()),
        vec![DefaultColorEvent::Query(DefaultColorQuery::Background)]
    );
}

#[test]
fn droid_scrollback_compat_matches_process_name_and_cmdline() {
    let name_only = ForegroundJob {
        process_group_id: 42,
        processes: vec![ForegroundProcess {
            pid: 42,
            name: "droid".to_string(),
            argv0: None,
            argv: Some(vec![
                "/opt/factory/droid".to_string(),
                "--resume".to_string(),
            ]),
            cmdline: Some("/opt/factory/droid --resume".to_string()),
        }],
    };
    assert!(foreground_job_uses_droid_scrollback_compat(&name_only));

    let cmdline_only = ForegroundJob {
        process_group_id: 42,
        processes: vec![ForegroundProcess {
            pid: 42,
            name: "bun".to_string(),
            argv0: Some("bun".to_string()),
            argv: Some(vec![
                "bun".to_string(),
                "/home/can/.local/bin/droid".to_string(),
                "--resume".to_string(),
            ]),
            cmdline: Some("/home/can/.local/bin/droid --resume".to_string()),
        }],
    };
    assert!(foreground_job_uses_droid_scrollback_compat(&cmdline_only));

    let shell = shell_job(7);
    assert!(!foreground_job_uses_droid_scrollback_compat(&shell));
}

#[test]
fn strip_scrollback_clear_sequences_removes_ed3_only() {
    let filtered = strip_scrollback_clear_sequences(b"a\x1b[3Jb\x1b[?3Jc\x1b[2Jd");
    assert_eq!(filtered.as_slice(), b"abc\x1b[2Jd");
}

#[test]
fn primary_screen_droid_compat_ignores_scrollback_clear_only_for_droid() {
    let droid_job = ForegroundJob {
        process_group_id: 42,
        processes: vec![ForegroundProcess {
            pid: 42,
            name: "droid".to_string(),
            argv0: Some("droid".to_string()),
            argv: Some(vec!["droid".to_string()]),
            cmdline: Some("droid".to_string()),
        }],
    };

    let filtered = maybe_filter_primary_screen_scrollback_clear(
        b"\x1b[3J\x1b[2J",
        false,
        Some(&droid_job),
    );
    assert_eq!(filtered.as_slice(), b"\x1b[2J");

    let shell = maybe_filter_primary_screen_scrollback_clear(
        b"\x1b[3J\x1b[2J",
        false,
        Some(&shell_job(7)),
    );
    assert_eq!(shell.as_slice(), b"\x1b[3J\x1b[2J");

    let alternate =
        maybe_filter_primary_screen_scrollback_clear(b"\x1b[3J\x1b[2J", true, Some(&droid_job));
    assert_eq!(alternate.as_slice(), b"\x1b[3J\x1b[2J");
}

#[test]
fn host_theme_restore_waits_for_shell_and_non_alternate_screen() {
    assert!(!should_restore_host_terminal_theme(
        42,
        7,
        true,
        Some(&shell_job(7)),
    ));
    assert!(!should_restore_host_terminal_theme(42, 7, false, None));
    assert!(!should_restore_host_terminal_theme(
        42,
        7,
        false,
        Some(&ForegroundJob {
            process_group_id: 42,
            processes: vec![ForegroundProcess {
                pid: 42,
                name: "droid".to_string(),
                argv0: Some("droid".to_string()),
                argv: Some(vec!["droid".to_string()]),
                cmdline: Some("droid".to_string()),
            }],
        }),
    ));
    assert!(should_restore_host_terminal_theme(
        42,
        7,
        false,
        Some(&shell_job(7)),
    ));

    assert!(should_restore_host_terminal_theme_on_macos(
        7,
        false,
        Some(&shell_job(7)),
    ));

    assert!(!should_restore_host_terminal_theme(
        7,
        7,
        false,
        Some(&shell_job(7)),
    ));
}

#[test]
fn restore_host_terminal_theme_reapplies_cached_colors() {
    let shell_pid = 7;
    let host_theme = HostTheme {
        foreground: Some(RgbColor { r: 0xaa, g: 0xbb, b: 0xcc }),
        background: Some(RgbColor { r: 0x11, g: 0x22, b: 0x33 }),
    };
    let mut ownership = DefaultColorOwnership {
        transient_default_color_owner_pgid: Some(42),
        child_default_foreground_changed: false,
        child_default_background_changed: true,
    };

    let writes = ownership.restore_host_terminal_theme_if_needed(
        host_theme,
        false,
        shell_pid,
        false,
        Some(&shell_job(shell_pid)),
    );

    assert_eq!(
        writes,
        Some(vec![
            HostColorWrite {
                kind: DefaultColorKind::Foreground,
                color: host_theme.foreground,
            },
            HostColorWrite {
                kind: DefaultColorKind::Background,
                color: host_theme.background,
            },
        ])
    );
    assert_eq!(ownership.transient_default_color_owner_pgid, None);
    assert!(!ownership.child_default_background_changed);
}

#[test]
fn on_macos_the_theme_is_restored_in_the_owners_group_too() {
    let shell_pid = 7;
    let theme = HostTheme {
        foreground: Some(RgbColor { r: 0xaa, g: 0xbb, b: 0xcc }),
        background: None,
    };
    let owned = DefaultColorOwnership {
        transient_default_color_owner_pgid: Some(shell_pid),
        child_default_foreground_changed: true,
        child_default_background_changed: false,
    };
    let job = shell_job(shell_pid);
    let mut elsewhere = owned;
    assert_eq!(
        elsewhere.restore_host_terminal_theme_if_needed(theme, false, shell_pid, false, Some(&job)),
        None
    );
    assert_eq!(elsewhere, owned);
    let mut ownership = owned;
    let writes = ownership
        .restore_host_terminal_theme_if_needed_on_macos(theme, false, shell_pid, false, Some(&job));
    assert_eq!(
        writes,
        Some(vec![
            HostColorWrite { kind: DefaultColorKind::Foreground, color: theme.foreground },
            HostColorWrite { kind: DefaultColorKind::Background, color: None },
        ])
    );
    assert_eq!(ownership.transient_default_color_owner_pgid, None);
    assert!(!ownership.child_default_foreground_changed);
    let mut ownership = owned;
    assert_eq!(
        ownership
            .restore_host_terminal_theme_if_needed_on_macos(theme, true, shell_pid, false, Some(&job)),
        None
    );
}
