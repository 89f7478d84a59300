use herdr::input::framing::{
    classify_unix_input, idle_flush_timeout_ms, input_geometry, FramedChunk, FramerState,
    FramingAsk, HostGeometry, HostInputContext, HostInputSnapshot, InputEvent, InputFraming,
    InputTimeouts, PALETTE_BATCH,
};
use herdr::input::reader::{
    filter_direct_input, pending_input_bytes, poll_read_ready, read_events, stdin_reader_loop,
    FilterRoute, FilteredInput, FramePiece, FramerSetup, ReadEvent, ReaderAsk, ReaderEvent,
};
use herdr::input::windows::{
    console_step, send_windows_raw_events, windows_client_input_event_from_raw,
    windows_crossterm_input_event, windows_key_raw_bytes, windows_stdin_reader, ClientInputEvent,
    ClientKeyCode, ClientKeyKind, ClientKeySource, ClientMouseKind, ConsoleKey, ConsoleKeyCode,
    ConsoleReader, ConsoleStep, RawInputEvent, RawKey, MODIFIER_CONTROL, MODIFIER_SHIFT,
};

const TIMEOUTS: InputTimeouts = InputTimeouts { idle_flush: 10, mouse_escape: 150 };

const GEOMETRY: HostGeometry = HostGeometry { columns: 80, rows: 24, width: 800, height: 480 };

fn plain(data: &[u8]) -> FramedChunk {
    FramedChunk {
        data: data.to_vec(),
        palette_response: false,
        default_color_response: false,
        mouse_report: false,
    }
}

fn mouse(data: &[u8]) -> FramedChunk {
    FramedChunk { mouse_report: true, ..plain(data) }
}

fn palette(data: &[u8]) -> FramedChunk {
    FramedChunk { palette_response: true, ..plain(data) }
}

#[test]
fn stdin_input_event_carries_raw_bytes_and_snapshot() {
    let data = vec![0x1b, b'[', b'A'];
    let snapshot = HostInputSnapshot::from_parts(7, true, false);
    match InputEvent::StdinInput(data.clone(), snapshot) {
        InputEvent::StdinInput(actual, captured) => {
            assert_eq!(actual, data);
            assert_eq!(captured, snapshot);
        }
        _ => panic!("expected stdin input"),
    }
}

#[test]
fn inactive_direct_input_bypasses_filter() {
    assert_eq!(filter_direct_input(false, false, true), FilterRoute::Bypass);
    assert_eq!(filter_direct_input(true, false, true), FilterRoute::Filter);
    assert_eq!(filter_direct_input(false, true, true), FilterRoute::Filter);
    assert_eq!(filter_direct_input(true, false, false), FilterRoute::PassThrough);
}

#[test]
fn pixel_mouse_classification_is_narrow_and_uses_read_geometry() {
    let geometry = GEOMETRY;
    let snapshot = HostInputSnapshot::from_parts(7, true, true);
    let report = b"\x1b[<35;321;241M".to_vec();
    let Some(InputEvent::PixelMouse(data, captured, captured_snapshot)) = classify_unix_input(
        mouse(&report),
        HostInputContext { state: snapshot, geometry: Some(geometry) },
    ) else {
        panic!("expected pixel mouse event");
    };
    assert_eq!(data, report);
    assert_eq!(captured, geometry);
    assert_eq!(captured_snapshot, snapshot);
    assert!(classify_unix_input(
        mouse(&report),
        HostInputContext { state: snapshot, geometry: None }
    )
    .is_none());

    for raw in [
        b"key".as_slice(),
        b"\x1b[200~paste\x1b[201~".as_slice(),
        b"\x1b_Gi=7;unrelated\x1b\\".as_slice(),
        b"\x1b[<35;2;3Mtail".as_slice(),
    ] {
        let Some(InputEvent::StdinInput(data, captured_snapshot)) = classify_unix_input(
            plain(raw),
            HostInputContext { state: snapshot, geometry: Some(geometry) },
        ) else {
            panic!("unrelated input must remain raw");
        };
        assert_eq!(data, raw);
        assert_eq!(captured_snapshot, snapshot);
    }
}

#[test]
fn geometry_cache_does_not_cross_input_generations() {
    let geometry = GEOMETRY;
    let old = HostInputSnapshot::from_parts(7, true, true);
    let current = HostInputSnapshot::from_parts(8, true, true);
    let mut cached = None;
    assert_eq!(input_geometry(&mut cached, old, Some(geometry)), Some(geometry));
    assert_eq!(input_geometry(&mut cached, old, None), Some(geometry));
    assert_eq!(input_geometry(&mut cached, current, None), None);
}

#[test]
fn palette_replies_are_forwarded_as_one_input_batch() {
    let snapshot = HostInputSnapshot::from_parts(7, false, false);
    let mut framing = InputFraming::new(TIMEOUTS);
    framing.append_unix_input_chunks(
        vec![
            palette(b"\x1b]4;0;rgb:1111/2222/3333\x1b\\"),
            palette(b"\x1b]4;1;rgb:4444/5555/6666\x1b\\"),
        ],
        HostInputContext { state: snapshot, geometry: None },
    );
    assert!(framing.take_events().is_empty());
    framing.flush_unix_palette_input(snapshot);
    let InputEvent::StdinInput(data, captured) = framing.take_events().remove(0) else {
        panic!("expected palette input");
    };
    assert_eq!(
        data.windows(4).filter(|window| *window == b"\x1b]4;").count(),
        2
    );
    assert_eq!(captured, snapshot);
    assert_eq!(framing.pending_palette(), 0);
}

#[test]
fn a_full_palette_batch_is_forwarded_at_once() {
    let snapshot = HostInputSnapshot::from_parts(7, false, false);
    let mut framing = InputFraming::new(TIMEOUTS);
    framing.append_unix_input_chunks(
        (0..PALETTE_BATCH + 1).map(|_| palette(b"p")).collect(),
        HostInputContext { state: snapshot, geometry: None },
    );
    assert_eq!(
        framing.take_events(),
        [InputEvent::StdinInput(vec![b'p'; PALETTE_BATCH], snapshot)]
    );
    assert_eq!(framing.pending_palette(), 1);
    framing.append_unix_input_chunks(
        vec![plain(b"x")],
        HostInputContext { state: snapshot, geometry: None },
    );
    assert_eq!(
        framing.take_events(),
        [
            InputEvent::StdinInput(b"p".to_vec(), snapshot),
            InputEvent::StdinInput(b"x".to_vec(), snapshot),
        ]
    );
}

#[test]
fn direct_filter_idle_release_flushes_lone_escape_with_captured_state() {
    let snapshot = HostInputSnapshot::from_parts(7, true, false);
    assert_eq!(filter_direct_input(true, false, true), FilterRoute::Filter);
    let released = b"\x1b";

    let mut framing = InputFraming::new(TIMEOUTS);
    assert_eq!(
        framing.frame_input(released.len(), snapshot, None, snapshot, false),
        FramingAsk::Push { start: 0, end: 1 }
    );
    assert_eq!(framing.pushed(vec![], true), FramingAsk::Done);
    assert!(framing.take_events().is_empty());
    assert_eq!(
        framing.pending_context(),
        Some(HostInputContext { state: snapshot, geometry: None })
    );

    let framer = FramerState { pending: true, lone_escape: true, incomplete_mouse: false };
    let mut timeouts = Vec::new();
    let mut ask = framing.flush_framer_after_idle(framer, snapshot, None);
    let mut had_pending = true;
    loop {
        match ask {
            FramingAsk::Wait { timeout } => {
                timeouts.push(timeout);
                ask = framing.waited(Some(false));
            }
            FramingAsk::Flush => {
                let chunks = if had_pending { vec![plain(released)] } else { vec![] };
                ask = framing.flushed(had_pending, chunks, false);
                had_pending = false;
            }
            _ => break,
        }
    }
    assert_eq!(timeouts.first(), Some(&TIMEOUTS.mouse_escape));
    let events = framing.take_events();
    assert!(matches!(
        events.as_slice(),
        [InputEvent::StdinInput(data, captured)] if data == b"\x1b" && *captured == snapshot
    ));
    assert_eq!(framing.pending_context(), None);
}

#[test]
fn input_that_continues_is_taken_byte_by_byte() {
    let old = HostInputSnapshot::from_parts(1, true, false);
    let new = HostInputSnapshot::from_parts(2, true, false);
    let mut framing = InputFraming::new(TIMEOUTS);
    framing.frame_input(1, old, None, old, false);
    framing.pushed(vec![], true);
    assert_eq!(
        framing.frame_input(3, new, None, old, true),
        FramingAsk::Push { start: 0, end: 1 }
    );
    assert_eq!(framing.pushed(vec![], true), FramingAsk::Push { start: 1, end: 2 });
    assert_eq!(
        framing.pushed(vec![plain(b"\x1b[A")], false),
        FramingAsk::Push { start: 2, end: 3 }
    );
    assert_eq!(framing.pushed(vec![plain(b"x")], false), FramingAsk::Done);
    assert_eq!(
        framing.take_events(),
        [
            InputEvent::StdinInput(b"\x1b[A".to_vec(), old),
            InputEvent::StdinInput(b"x".to_vec(), new),
        ]
    );
}

#[test]
fn mouse_active_escape_sequences_get_longer_reassembly_window() {
    let escape = FramerState { pending: true, lone_escape: true, incomplete_mouse: false };
    let sgr_mouse = FramerState { pending: true, lone_escape: false, incomplete_mouse: true };
    let default_mouse = sgr_mouse;
    let unrelated = FramerState { pending: true, lone_escape: false, incomplete_mouse: false };

    for framer in [escape, sgr_mouse, default_mouse, unrelated] {
        assert_eq!(
            idle_flush_timeout_ms(framer, false, TIMEOUTS),
            TIMEOUTS.idle_flush
        );
    }
    for framer in [escape, sgr_mouse, default_mouse] {
        assert_eq!(
            idle_flush_timeout_ms(framer, true, TIMEOUTS),
            TIMEOUTS.mouse_escape
        );
    }
    assert_eq!(
        idle_flush_timeout_ms(unrelated, true, TIMEOUTS),
        TIMEOUTS.idle_flush
    );
    assert!(TIMEOUTS.mouse_escape > 100);
}

#[test]
fn reader_sets_up_its_framer() {
    assert_eq!(
        stdin_reader_loop(true, true).1,
        [
            FramerSetup::HostColorQuerySent,
            FramerSetup::TrackColorSchemeChanges,
            FramerSetup::QueryAppearanceOnFocus,
            FramerSetup::HostCellSizeQuerySent,
        ]
    );
    assert!(stdin_reader_loop(false, false).1.is_empty());
}

#[test]
fn reader_polls_until_it_is_told_to_quit() {
    let (mut reader, _) = stdin_reader_loop(false, false);
    assert_eq!(
        reader.step(ReaderEvent::Turn { quit: false, filter_pending: false }),
        ReaderAsk::PollInput
    );
    assert_eq!(
        reader.step(ReaderEvent::Polled { wake_ready: false, read_ready: false }),
        ReaderAsk::NextTurn
    );
    assert_eq!(
        reader.step(ReaderEvent::Turn { quit: false, filter_pending: true }),
        ReaderAsk::PollIdle
    );
    assert_eq!(reader.step(ReaderEvent::IdlePolled(Some(false))), ReaderAsk::Release);
    assert_eq!(
        reader.step(ReaderEvent::Released(true)),
        ReaderAsk::FrameReleased { context: None }
    );
    assert_eq!(reader.step(ReaderEvent::Framed { events: true }), ReaderAsk::SendEvents);
    assert_eq!(reader.step(ReaderEvent::Sent(false)), ReaderAsk::Stop);
}

#[test]
fn held_bytes_keep_the_state_they_were_read_under() {
    let old = HostInputContext {
        state: HostInputSnapshot::from_parts(1, true, false),
        geometry: None,
    };
    let new = HostInputContext {
        state: HostInputSnapshot::from_parts(2, true, false),
        geometry: None,
    };
    let (mut reader, _) = stdin_reader_loop(false, false);
    assert!(reader.filtered(&[], false, true, old).is_empty());
    assert_eq!(
        reader.filtered(&[FilteredInput { len: 5, pending_bytes: 2 }], false, false, new),
        [
            FramePiece { chunk: 0, start: 0, end: 2, context: old },
            FramePiece { chunk: 0, start: 2, end: 5, context: new },
        ]
    );
}

#[test]
fn one_read_gives_its_replies_before_its_input() {
    let state = HostInputSnapshot::from_parts(1, false, false);
    let typed = |text: &str| InputEvent::StdinInput(text.as_bytes().to_vec(), state);
    assert_eq!(read_events(vec![], vec![]), None);
    assert_eq!(
        read_events(vec![b"one".to_vec(), b"two".to_vec()], vec![typed("a"), typed("b")]),
        Some(vec![
            ReadEvent::DirectGraphicsResponse(b"one".to_vec()),
            ReadEvent::DirectGraphicsResponse(b"two".to_vec()),
            ReadEvent::Input(typed("a")),
            ReadEvent::Input(typed("b")),
        ])
    );
    assert_eq!(
        read_events(vec![], vec![typed("a")]),
        Some(vec![ReadEvent::Input(typed("a"))])
    );
}

#[test]
fn the_end_of_the_input_stops_the_reader() {
    let (mut reader, _) = stdin_reader_loop(false, false);
    reader.step(ReaderEvent::Turn { quit: false, filter_pending: false });
    assert_eq!(
        reader.step(ReaderEvent::Polled { wake_ready: false, read_ready: true }),
        ReaderAsk::Read
    );
    assert_eq!(reader.step(ReaderEvent::ReadEnded), ReaderAsk::Stop);
}

#[test]
fn poll_results_are_read_as_counts() {
    assert_eq!(pending_input_bytes(-1, 3), None);
    assert_eq!(pending_input_bytes(0, 3), Some(3));
    assert_eq!(pending_input_bytes(0, -3), Some(0));
    assert_eq!(poll_read_ready(-1), None);
    assert_eq!(poll_read_ready(0), Some(false));
    assert_eq!(poll_read_ready(2), Some(true));
}

fn console(code: ConsoleKeyCode, modifiers: u8) -> Option<ConsoleKey> {
    Some(ConsoleKey { code, modifiers, kind: ClientKeyKind::Press })
}

#[test]
fn windows_control_chars_are_reframed_as_raw_bytes() {
    let escape = console(ConsoleKeyCode::Esc, 0);
    assert_eq!(
        windows_key_raw_bytes(escape, false).as_deref(),
        Some(b"\x1b".as_slice())
    );

    let enter = console(ConsoleKeyCode::Char('\r'), 0);
    assert_eq!(
        windows_key_raw_bytes(enter, false).as_deref(),
        Some(b"\r".as_slice())
    );

    let printable = console(ConsoleKeyCode::Char('n'), 0);
    assert_eq!(windows_key_raw_bytes(printable, false), None);

    let pending_arrow_tail = console(ConsoleKeyCode::Char('['), 0);
    assert_eq!(
        windows_key_raw_bytes(pending_arrow_tail, true).as_deref(),
        Some(b"[".as_slice())
    );
}

#[test]
fn windows_crossterm_printable_press_keeps_key_semantics_and_text() {
    let event = ClientInputEvent::Key {
        code: ClientKeyCode::Char('你'),
        modifiers: 0,
        kind: ClientKeyKind::Press,
        repeat_count: 1,
        generated_text: None,
        source: ClientKeySource::Synthesized,
    };

    assert_eq!(
        windows_crossterm_input_event(Some(event)),
        Some(ClientInputEvent::Key {
            code: ClientKeyCode::Char('你'),
            modifiers: 0,
            kind: ClientKeyKind::Press,
            repeat_count: 1,
            generated_text: Some("你".to_string()),
            source: ClientKeySource::Synthesized,
        })
    );
}

#[test]
fn windows_ctrl_bracket_starts_raw_escape_sequence() {
    let ctrl_bracket = console(ConsoleKeyCode::Char('['), MODIFIER_CONTROL);
    assert_eq!(
        windows_key_raw_bytes(ctrl_bracket, false).as_deref(),
        Some(b"\x1b".as_slice())
    );

    let event = windows_client_input_event_from_raw(RawInputEvent::Mouse {
        kind: Some(ClientMouseKind::Moved),
        column: 47,
        row: 25,
        modifiers: 0,
    })
    .expect("raw mouse converts");
    assert!(matches!(
        event,
        ClientInputEvent::Mouse {
            kind: ClientMouseKind::Moved,
            column: 47,
            row: 25,
            modifiers: _,
        }
    ));
}

#[test]
fn windows_ctrl_shift_bracket_stays_semantic() {
    let ctrl_shift_bracket =
        console(ConsoleKeyCode::Char('['), MODIFIER_CONTROL | MODIFIER_SHIFT);
    assert_eq!(windows_key_raw_bytes(ctrl_shift_bracket, false), None);
}

#[test]
fn windows_ctrl_d_semantic_event_encodes_to_eot() {
    let event = console(ConsoleKeyCode::Char('d'), MODIFIER_CONTROL);
    assert_eq!(windows_key_raw_bytes(event, false), None);
    let event = ClientInputEvent::Key {
        code: ClientKeyCode::Char('d'),
        modifiers: MODIFIER_CONTROL,
        kind: ClientKeyKind::Press,
        repeat_count: 1,
        generated_text: None,
        source: ClientKeySource::Synthesized,
    };
    assert_eq!(windows_crossterm_input_event(Some(event.clone())), Some(event));
}

#[test]
fn windows_pasted_printable_ctrl_i_routes_as_literal_i() {
    let event = console(ConsoleKeyCode::Char('i'), MODIFIER_CONTROL);
    assert_eq!(
        windows_key_raw_bytes(event, false).as_deref(),
        Some(b"i".as_slice())
    );

    let event = console(ConsoleKeyCode::Char('I'), MODIFIER_CONTROL | MODIFIER_SHIFT);
    assert_eq!(
        windows_key_raw_bytes(event, false).as_deref(),
        Some(b"I".as_slice())
    );
}

fn raw_key(code: ClientKeyCode, modifiers: u8, bytes: &[u8]) -> RawInputEvent {
    RawInputEvent::Key(RawKey {
        identity: 1,
        physical: false,
        code: Some(code),
        modifiers,
        kind: ClientKeyKind::Press,
        repeat_count: 1,
        generated_text: None,
        vt_bytes: Some(bytes.to_vec()),
        windows_record: None,
    })
}

#[test]
fn windows_eot_control_char_normalizes_to_ctrl_d() {
    let event = console(ConsoleKeyCode::Char('\u{4}'), 0);
    let bytes = windows_key_raw_bytes(event, false).expect("eot routes through raw framer");
    assert_eq!(bytes, b"\x04");

    let event = windows_client_input_event_from_raw(raw_key(
        ClientKeyCode::Char('d'),
        MODIFIER_CONTROL,
        &bytes,
    ))
    .expect("raw eot converts");
    assert_eq!(
        event,
        ClientInputEvent::Key {
            code: ClientKeyCode::Char('d'),
            modifiers: MODIFIER_CONTROL,
            kind: ClientKeyKind::Press,
            repeat_count: 1,
            generated_text: None,
            source: ClientKeySource::Vt { bytes: vec![4] },
        }
    );
}

#[test]
fn windows_pending_escape_sequence_converts_to_semantic_arrow() {
    let event =
        windows_client_input_event_from_raw(raw_key(ClientKeyCode::Up, 0, b"\x1b[A"))
            .expect("raw arrow converts");
    assert_eq!(
        event,
        ClientInputEvent::Key {
            code: ClientKeyCode::Up,
            modifiers: 0,
            kind: ClientKeyKind::Press,
            repeat_count: 1,
            generated_text: None,
            source: ClientKeySource::Vt {
                bytes: b"\x1b[A".to_vec()
            },
        }
    );
}

#[test]
fn windows_bare_escape_flushes_to_semantic_escape() {
    let event = windows_client_input_event_from_raw(raw_key(ClientKeyCode::Esc, 0, &[0x1b]))
        .expect("raw escape converts");
    assert_eq!(
        event,
        ClientInputEvent::Key {
            code: ClientKeyCode::Esc,
            modifiers: 0,
            kind: ClientKeyKind::Press,
            repeat_count: 1,
            generated_text: None,
            source: ClientKeySource::Vt { bytes: vec![0x1b] },
        }
    );
}

#[test]
fn windows_replies_to_the_host_are_not_sent() {
    assert_eq!(send_windows_raw_events(vec![RawInputEvent::HostReply]), None);
    assert_eq!(
        send_windows_raw_events(vec![
            RawInputEvent::Text("hi".into()),
            RawInputEvent::Unsupported,
            RawInputEvent::OuterFocusLost,
        ]),
        Some(vec![
            ClientInputEvent::TextCommit("hi".into()),
            ClientInputEvent::FocusLost,
        ])
    );
    assert_eq!(windows_stdin_reader(true, true), ConsoleReader::TerminalInput);
    assert_eq!(windows_stdin_reader(true, false), ConsoleReader::KeyEvents);
    assert_eq!(
        console_step(console(ConsoleKeyCode::Esc, 0), false),
        ConsoleStep::Push(vec![0x1b])
    );
    assert_eq!(
        console_step(console(ConsoleKeyCode::Other, 0), true),
        ConsoleStep::Forward { flush_first: true }
    );
}
