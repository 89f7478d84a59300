use herdr::ipc::IoErrorKind;
use herdr::omp_pane::accept::{
    announcement_valid, fields_announce, timed_out_message, AcceptAsk, AcceptEvent,
    AnnouncementReader, AnnouncementStep, CandidateRead, GuestSearch, CANDIDATE_POLL,
    MAX_ANNOUNCEMENT_BYTES,
};
use herdr::omp_pane::bridge::{
    attach_reply, frame_line, send_to_guest_or_fail_close, AttachReply, BridgeAction, BridgeEvent,
    PaneBridge, QueueStep, ServerMessage,
};
use herdr::omp_pane::record::{
    bridge_token, bridge_token_of, encode_guest_payload, guest_args, guest_message, guest_read,
    room_id, room_id_of, validate_guest_record, BridgeMessage, GuestProblem, GuestRecord,
    OmpControlAction, OmpRoute, MAX_RECORD_BYTES,
};

const MAX_OMP_FRAME_PAYLOAD: usize = 1024 * 1024;

/// A record as it is read from a line of JSON.
fn parsed(line: &str) -> Result<GuestRecord, GuestProblem> {
    let object: serde_json::Map<String, serde_json::Value> =
        serde_json::from_str(line).map_err(|_| GuestProblem::UnknownType)?;
    let raw: std::collections::HashMap<String, Box<serde_json::value::RawValue>> =
        serde_json::from_str(line).map_err(|_| GuestProblem::UnknownType)?;
    Ok(GuestRecord {
        t: object["t"].as_str().unwrap_or_default().to_string(),
        action: object.get("action").and_then(|value| value.as_str()).map(str::to_string),
        frame: raw.get("frame").map(|value| value.get().to_string()),
        mutation: object.get("mutation").and_then(|value| value.as_bool()).unwrap_or(false),
    })
}

fn route() -> OmpRoute {
    OmpRoute {
        pane_id: "pane_1".into(),
        omp_session_id: "session".into(),
        route_generation: 3,
    }
}

fn record(t: &str, action: Option<&str>, frame: Option<&str>, mutation: bool) -> GuestRecord {
    GuestRecord {
        t: t.into(),
        action: action.map(str::to_string),
        frame: frame.map(str::to_string),
        mutation,
    }
}

#[test]
fn guest_frame_keeps_raw_json_spacing_and_key_order() {
    let line = r#"{"t":"frame","frame": { "z" : 1, "a" : [ 2,3 ] }}"#;
    let record = parsed(line).unwrap();
    assert!(!record.mutation);
    let frame = record.frame.clone().expect("frame record carries raw payload");
    assert_eq!(frame, r#"{ "z" : 1, "a" : [ 2,3 ] }"#);
    let encoded = encode_guest_payload(frame.as_bytes(), MAX_OMP_FRAME_PAYLOAD).unwrap();
    assert_eq!(encoded, frame.as_bytes());
    assert_eq!(
        guest_message(&route(), 7, &record, MAX_OMP_FRAME_PAYLOAD),
        Ok(BridgeMessage::OmpFrame {
            route: route(),
            attachment_epoch: 7,
            payload: frame.into_bytes(),
        })
    );
}

#[test]
fn malformed_unknown_and_missing_native_guest_records_fail_closed() {
    for line in [
        "not-json",
        r#"{"t":"unknown","frame":{}}"#,
        r#"{"t":"frame"}"#,
        r#"{"t":"control","action":"unknown"}"#,
    ] {
        let result = parsed(line).and_then(|record| validate_guest_record(&record));
        assert_eq!(result.unwrap_err().kind(), IoErrorKind::InvalidData);
    }
}

#[test]
fn oversized_guest_payload_fails_the_forwarder() {
    let payload = vec![b' '; MAX_OMP_FRAME_PAYLOAD + 1];
    assert!(encode_guest_payload(&payload, MAX_OMP_FRAME_PAYLOAD).is_err());
}

#[test]
fn each_problem_names_itself() {
    assert_eq!(
        validate_guest_record(&record("frame", None, None, false)),
        Err(GuestProblem::MissingPayload)
    );
    assert_eq!(
        validate_guest_record(&record("control", Some("x"), None, false)),
        Err(GuestProblem::InvalidControl)
    );
    assert_eq!(
        validate_guest_record(&record("x", None, None, false)),
        Err(GuestProblem::UnknownType)
    );
    assert_eq!(GuestProblem::UnknownType.message(), "unknown OMP guest bridge record type");
    assert_eq!(guest_read(0), Ok(false));
    assert_eq!(guest_read(5), Ok(true));
    assert_eq!(guest_read(MAX_RECORD_BYTES + 1), Err(GuestProblem::TooLarge));
    assert_eq!(
        guest_message(&route(), 1, &record("frame", None, Some("{}"), false), 1),
        Err(GuestProblem::OversizedPayload)
    );
}

#[test]
fn controls_and_mutations_become_their_messages() {
    let message = |record: GuestRecord| guest_message(&route(), 7, &record, 100).unwrap();
    assert_eq!(
        message(record("control", Some("request-controller"), None, false)),
        BridgeMessage::OmpControl {
            route: route(),
            attachment_epoch: 7,
            action: OmpControlAction::RequestController,
        }
    );
    assert_eq!(
        message(record("control", Some("release-controller"), None, false)),
        BridgeMessage::OmpControl {
            route: route(),
            attachment_epoch: 7,
            action: OmpControlAction::ReleaseController,
        }
    );
    assert_eq!(
        message(record("frame", None, Some("{}"), true)),
        BridgeMessage::OmpControl {
            route: route(),
            attachment_epoch: 7,
            action: OmpControlAction::Mutation { payload: b"{}".to_vec() },
        }
    );
}

#[test]
fn a_room_is_named_by_the_hash_of_its_attachment() {
    assert_eq!(
        room_id("/run/s.sock", &route(), 7),
        "herdr-01b8d0b50021573c833e668c66ed903ff8889f85eb892642a30e86491aab7506"
    );
    assert_eq!(room_id_of(&[0x0a, 0xff]), "herdr-0aff");
    assert_ne!(room_id("/run/s.sock", &route(), 7), room_id("/run/s.sock", &route(), 8));
}

#[test]
fn a_bridge_token_is_random_and_safe_in_a_url() {
    let token = bridge_token().unwrap();
    assert_eq!(token.len(), 43);
    assert!(token.chars().all(|c| c.is_ascii_alphanumeric() || c == '-' || c == '_'));
    assert_ne!(token, bridge_token().unwrap());
    let args = guest_args("127.0.0.1:9", "room", "token");
    assert_eq!(
        &args[..5],
        ["__collab-guest-bridge", "127.0.0.1:9", "room", "token", "--no-tools"]
    );
}

#[test]
fn a_bridge_token_is_the_text_of_its_bytes() {
    assert_eq!(
        bridge_token_of(Ok((0..32).collect())),
        Ok("AAECAwQFBgcICQoLDA0ODxAREhMUFRYXGBkaGxwdHh8".into())
    );
    assert_eq!(bridge_token_of(Ok(vec![0xff; 32])), Ok("_".repeat(42) + "8"));
    assert_eq!(bridge_token_of(Err("no source".into())), Err("no source".into()));
}

#[test]
fn full_server_to_guest_queue_fails_closed() {
    assert_eq!(send_to_guest_or_fail_close(false), QueueStep::FailClose);
}

#[test]
fn disconnected_server_to_guest_queue_fails_closed() {
    assert_eq!(send_to_guest_or_fail_close(false), QueueStep::FailClose);
    assert_eq!(send_to_guest_or_fail_close(true), QueueStep::Continue);
}

#[test]
fn only_the_announced_token_is_a_guest() {
    assert!(announcement_valid("{\"t\":\"guest\",\"token\":\"abc\"}\n", "abc"));
    assert!(!announcement_valid("{\"t\":\"guest\",\"token\":\"abd\"}\n", "abc"));
    assert!(!announcement_valid("{\"t\":\"host\",\"token\":\"abc\"}\n", "abc"));
    assert!(!announcement_valid("{\"t\":\"guest\",\"token\":7}\n", "abc"));
    assert!(!announcement_valid("guest abc", "abc"));
    assert!(fields_announce(&Some("guest".into()), &Some("abc".into()), "abc"));
    assert!(!fields_announce(&Some("guest".into()), &None, "abc"));
}

#[test]
fn an_announcement_is_one_line_of_bounded_length() {
    let mut reader = AnnouncementReader::new();
    assert_eq!(reader.read(CandidateRead::Byte(b'a')), AnnouncementStep::Continue);
    assert_eq!(
        reader.read(CandidateRead::Byte(b'\n')),
        AnnouncementStep::Finished(Some("a\n".into()))
    );
    let mut reader = AnnouncementReader::new();
    for _ in 1..MAX_ANNOUNCEMENT_BYTES {
        assert_eq!(reader.read(CandidateRead::Byte(b'a')), AnnouncementStep::Continue);
    }
    assert_eq!(reader.read(CandidateRead::Byte(b'a')), AnnouncementStep::Finished(None));
    assert_eq!(reader.poll(90, 100), Some(10));
    assert_eq!(reader.poll(0, 100), Some(CANDIDATE_POLL));
    assert_eq!(reader.poll(100, 100), None);
}

#[test]
fn trickling_candidate_expires_before_authenticated_guest() {
    let mut search = GuestSearch::new("abc".into(), 30_000, 500);
    let poll = |now: u64| AcceptEvent::Status { exited: None, now };
    assert_eq!(search.step(poll(0)), AcceptAsk::Accept);
    assert_eq!(
        search.step(AcceptEvent::Accepted { cloned: true, started: 0, now: 0 }),
        AcceptAsk::PollStatus
    );
    assert_eq!(search.step(poll(1)), AcceptAsk::Read { timeout: CANDIDATE_POLL });
    assert_eq!(
        search.step(AcceptEvent::Read(CandidateRead::Byte(b'{'))),
        AcceptAsk::PollStatus
    );
    // The candidate's time is up: the search goes on.
    assert_eq!(search.step(poll(500)), AcceptAsk::PollStatus);
    assert_eq!(search.step(poll(501)), AcceptAsk::Accept);
    assert_eq!(
        search.step(AcceptEvent::Accepted { cloned: true, started: 501, now: 501 }),
        AcceptAsk::PollStatus
    );
    let mut ask = AcceptAsk::PollStatus;
    for byte in b"{\"t\":\"guest\",\"token\":\"abc\"}\n" {
        assert_eq!(ask, AcceptAsk::PollStatus);
        assert_eq!(search.step(poll(502)), AcceptAsk::Read { timeout: CANDIDATE_POLL });
        ask = search.step(AcceptEvent::Read(CandidateRead::Byte(*byte)));
    }
    assert_eq!(ask, AcceptAsk::ClearTimeout);
    assert_eq!(search.step(AcceptEvent::Cleared(true)), AcceptAsk::Found);
}

#[test]
fn a_search_ends_with_its_guest_or_its_time() {
    let mut search = GuestSearch::new("abc".into(), 100, 500);
    assert_eq!(
        search.step(AcceptEvent::Status { exited: Some("exit status: 1".into()), now: 0 }),
        AcceptAsk::Exited("OMP guest bridge exited before connecting: exit status: 1".into())
    );
    let mut search = GuestSearch::new("abc".into(), 100, 500);
    assert_eq!(
        search.step(AcceptEvent::Status { exited: None, now: 100 }),
        AcceptAsk::TimedOut
    );
    assert_eq!(timed_out_message(), "OMP guest bridge did not connect within 30 seconds");
}

fn receiving() -> PaneBridge {
    let mut bridge = PaneBridge::new(route(), 7);
    assert_eq!(bridge.step(BridgeEvent::WorkerRunning), [BridgeAction::PollChild]);
    assert_eq!(bridge.step(BridgeEvent::ChildRunning), [BridgeAction::Receive]);
    bridge
}

fn farewell(epoch: u64, error: Option<&str>) -> Vec<BridgeAction> {
    vec![
        BridgeAction::Send(BridgeMessage::OmpPaneDetach {
            route: route(),
            attachment_epoch: epoch,
        }),
        BridgeAction::Send(BridgeMessage::Detach),
        BridgeAction::Close,
        BridgeAction::Finish { error: error.map(str::to_string) },
    ]
}

#[test]
fn guest_worker_failure_is_observed_by_main_forwarder() {
    let mut bridge = PaneBridge::new(route(), 7);
    assert_eq!(
        bridge.step(BridgeEvent::WorkerFinished { error: Some("bad record".into()) }),
        [BridgeAction::StopWorker]
    );
    assert_eq!(
        bridge.step(BridgeEvent::Joined { error: None }),
        farewell(7, Some("bad record"))
    );
}

#[test]
fn cleanup_frames_wait_for_inflight_guest_frame() {
    let mut bridge = receiving();
    assert_eq!(bridge.step(BridgeEvent::Disconnected), [BridgeAction::StopWorker]);
    assert_eq!(bridge.step(BridgeEvent::Joined { error: None }), farewell(7, None));
}

#[test]
fn frames_of_another_attachment_are_dropped() {
    let mut bridge = receiving();
    assert_eq!(
        bridge.step(BridgeEvent::Message(ServerMessage::OmpFrame {
            route: route(),
            attachment_epoch: 6,
            frame: vec![1],
        })),
        [BridgeAction::PollWorker]
    );
    let mut bridge = receiving();
    assert_eq!(
        bridge.step(BridgeEvent::Message(ServerMessage::OmpFrame {
            route: route(),
            attachment_epoch: 7,
            frame: vec![1],
        })),
        [BridgeAction::Validate { frame: vec![1] }]
    );
    assert_eq!(
        bridge.step(BridgeEvent::Validated { payload: b"{}".to_vec() }),
        [BridgeAction::Write {
            line: b"{\"t\":\"frame\",\"fromPeer\":0,\"frame\":{}}\n".to_vec()
        }]
    );
    assert_eq!(
        bridge.step(BridgeEvent::Written { error: None }),
        [BridgeAction::PollWorker]
    );
    assert_eq!(frame_line(b"1"), b"{\"t\":\"frame\",\"fromPeer\":0,\"frame\":1}\n");
}

#[test]
fn the_farewell_names_the_last_epoch() {
    let mut bridge = receiving();
    assert_eq!(
        bridge.step(BridgeEvent::Message(ServerMessage::OmpPane {
            route: route(),
            attachment_epoch: 9,
            controller: true,
            failed: true,
        })),
        [
            BridgeAction::Report("herdr OMP: host unavailable".into()),
            BridgeAction::StopWorker,
        ]
    );
    assert_eq!(bridge.attachment_epoch(), 9);
    assert_eq!(bridge.step(BridgeEvent::Joined { error: None }), farewell(9, None));
}

#[test]
fn an_attachment_is_confirmed_for_its_own_route() {
    let pane = |route: OmpRoute| ServerMessage::OmpPane {
        route,
        attachment_epoch: 4,
        controller: true,
        failed: false,
    };
    assert_eq!(
        attach_reply(&route(), &pane(route())),
        AttachReply::Attached { attachment_epoch: 4, controller: true }
    );
    let other = OmpRoute { route_generation: 4, ..route() };
    assert_eq!(attach_reply(&route(), &pane(other)), AttachReply::Unrelated);
    assert!(matches!(
        attach_reply(
            &route(),
            &ServerMessage::OmpError { code: "gone".into(), message: "no pane".into() }
        ),
        AttachReply::Refused(_)
    ));
}
