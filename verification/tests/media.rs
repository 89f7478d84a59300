use herdr::media::controller::{
    bounded, ClientEndpointId, ClientMedia, CloseCode, MediaClose, MediaControl, MediaEffect,
    MediaLimits, MediaMode, MediaMute, MediaOpen, MediaPeerState, MediaSdp, MediaStateUpdate,
    PeerEvent, MEDIA_CONSENT_TIMEOUT,
};
use herdr::media::peer::{advertised_capabilities, native_peer_available};
use herdr::media::playback::{
    push_capture, push_playback, take_playback, FRAME_SAMPLES, PLAYBACK_CAPACITY,
};
use herdr::media::session::{
    ConnectionState, PeerSession, SessionAction, SessionEvent,
};
use std::collections::VecDeque;

const MAX_MEDIA_TEXT_BYTES: usize = 512;

const LIMITS: MediaLimits = MediaLimits {
    max_text_bytes: MAX_MEDIA_TEXT_BYTES,
    input_window: 10_000,
};

/// The time at which a test begins, in milliseconds.
const START: u64 = 1_000_000;

#[derive(Debug, Clone, PartialEq, Eq)]
enum PeerCall {
    Start(String),
    Answer(String, String),
    Mute(String, bool),
    Close(String),
}

/// A client loop with a peer that records its calls.
struct Client {
    media: ClientMedia,
    fail: bool,
    calls: Vec<PeerCall>,
    effects: Vec<MediaEffect>,
}

impl Client {
    /// Applies the effects, as the client loop does after each call.
    fn pump(&mut self) {
        loop {
            let effects = self.media.take_effects();
            if effects.is_empty() {
                return;
            }
            for effect in effects {
                match effect {
                    MediaEffect::StartPeer { session_id } => {
                        self.calls.push(PeerCall::Start(session_id));
                        self.media.peer_started(if self.fail {
                            Some("no microphone".to_owned())
                        } else {
                            None
                        });
                    }
                    MediaEffect::AnswerPeer { session_id, sdp } => {
                        self.calls.push(PeerCall::Answer(session_id, sdp));
                    }
                    MediaEffect::MutePeer { session_id, muted } => {
                        self.calls.push(PeerCall::Mute(session_id, muted));
                    }
                    MediaEffect::ClosePeer { session_id } => {
                        self.calls.push(PeerCall::Close(session_id));
                    }
                    other => self.effects.push(other),
                }
            }
        }
    }

    fn take_effects(&mut self) -> Vec<MediaEffect> {
        std::mem::take(&mut self.effects)
    }

    fn deadline(&self) -> Option<u64> {
        self.media.deadline()
    }

    fn note_pane_input(&mut self, endpoint: &ClientEndpointId, pane: &str, now: u64) {
        self.media.note_pane_input(endpoint, pane, now);
        self.pump();
    }

    fn handle_server_control(
        &mut self,
        endpoint: &ClientEndpointId,
        control: MediaControl,
        shown: bool,
        label: Option<String>,
        now: u64,
    ) {
        self.media.handle_server_control(endpoint, control, shown, label, now);
        self.pump();
    }

    fn set_mode(&mut self, mode: MediaMode) {
        self.media.set_mode(mode);
        self.pump();
    }

    fn override_mode(&mut self, mode: MediaMode) {
        self.media.override_mode(mode);
        self.pump();
    }

    fn consent(&mut self, session_id: &str, allow: bool) {
        self.media.consent(session_id, allow);
        self.pump();
    }

    fn tick(&mut self, now: u64) {
        self.media.tick(now);
        self.pump();
    }

    fn handle_peer_event(&mut self, event: PeerEvent) {
        self.media.handle_peer_event(event);
        self.pump();
    }

    fn endpoint_gone(&mut self, endpoint: &ClientEndpointId) {
        self.media.endpoint_gone(endpoint);
        self.pump();
    }
}

fn client(mode: MediaMode, fail: bool) -> Client {
    Client {
        media: ClientMedia::new(mode, true, LIMITS),
        fail,
        calls: Vec::new(),
        effects: Vec::new(),
    }
}

fn local() -> ClientEndpointId {
    ClientEndpointId::Local
}

fn open(media: &mut Client, session_id: &str, pane_id: &str, now: u64) {
    let label = if pane_id == "pane_1" || pane_id == "pane_2" {
        Some(format!("label {pane_id}"))
    } else {
        None
    };
    media.handle_server_control(
        &local(),
        MediaControl::Open(MediaOpen {
            session_id: session_id.into(),
            pane_id: pane_id.into(),
        }),
        true,
        label,
        now,
    );
}

fn closes(effects: &[MediaEffect]) -> Vec<(String, Option<CloseCode>)> {
    effects
        .iter()
        .filter_map(|effect| match effect {
            MediaEffect::Send(_, MediaControl::Close(close)) => {
                Some((close.session_id.clone(), close.code))
            }
            _ => None,
        })
        .collect()
}

fn refusal(media: &mut Client) -> Option<CloseCode> {
    let effects = media.take_effects();
    match closes(&effects).as_slice() {
        [(_, code)] => *code,
        _ => None,
    }
}

#[test]
fn open_from_an_endpoint_the_client_does_not_show_is_wrong_endpoint() {
    let mut media = client(MediaMode::Auto, false);
    let now = START;
    media.note_pane_input(&local(), "pane_1", now);
    media.handle_server_control(
        &local(),
        MediaControl::Open(MediaOpen {
            session_id: "m1".into(),
            pane_id: "pane_1".into(),
        }),
        false,
        Some("label".into()),
        now,
    );
    assert_eq!(
        refusal(&mut media),
        Some(CloseCode::WrongEndpoint)
    );
    assert!(media.calls.is_empty());
}

#[test]
fn open_without_a_build_peer_is_unsupported() {
    let mut media = client(MediaMode::Auto, false);
    media.media = ClientMedia::new(MediaMode::Auto, false, LIMITS);
    let now = START;
    media.note_pane_input(&local(), "pane_1", now);
    open(&mut media, "m1", "pane_1", now);
    assert_eq!(
        refusal(&mut media),
        Some(CloseCode::Unsupported)
    );
}

#[test]
fn open_with_media_off_is_disabled_with_a_notice() {
    let mut media = client(MediaMode::Off, false);
    let now = START;
    media.note_pane_input(&local(), "pane_1", now);
    open(&mut media, "m1", "pane_1", now);
    let effects = media.take_effects();
    assert_eq!(
        closes(&effects),
        vec![("m1".to_owned(), Some(CloseCode::Disabled))]
    );
    assert!(effects
        .iter()
        .any(|effect| matches!(effect, MediaEffect::Notice(_))));
    assert!(media.calls.is_empty());
}

#[test]
fn open_for_a_pane_outside_the_view_is_not_viewed() {
    let mut media = client(MediaMode::Auto, false);
    let now = START;
    media.note_pane_input(&local(), "pane_9", now);
    open(&mut media, "m1", "pane_9", now);
    assert_eq!(refusal(&mut media), Some(CloseCode::NotViewed));
}

#[test]
fn stale_or_other_pane_input_is_stale_input() {
    let mut media = client(MediaMode::Auto, false);
    let start = START;
    media.note_pane_input(&local(), "pane_1", start);
    open(&mut media, "m1", "pane_1", start + 11_000);
    assert_eq!(
        refusal(&mut media),
        Some(CloseCode::StaleInput)
    );

    media.note_pane_input(&local(), "pane_2", start);
    open(&mut media, "m2", "pane_1", start);
    assert_eq!(
        refusal(&mut media),
        Some(CloseCode::StaleInput)
    );

    media.note_pane_input(&ClientEndpointId::Local, "pane_1", start);
    media.endpoint_gone(&local());
    open(&mut media, "m3", "pane_1", start);
    assert_eq!(
        refusal(&mut media),
        Some(CloseCode::StaleInput)
    );
    assert!(media.calls.is_empty());
}

#[test]
fn reloading_media_off_refuses_a_pending_prompt_and_a_late_accept_starts_nothing() {
    let mut media = client(MediaMode::Ask, false);
    let now = START;
    media.note_pane_input(&local(), "pane_1", now);
    open(&mut media, "m1", "pane_1", now);
    assert!(media
        .take_effects()
        .iter()
        .any(|effect| matches!(effect, MediaEffect::AskConsent { .. })));

    media.set_mode(MediaMode::Off);
    let effects = media.take_effects();
    assert_eq!(
        closes(&effects),
        vec![("m1".to_owned(), Some(CloseCode::Disabled))]
    );
    assert!(effects.iter().any(|effect| matches!(
        effect,
        MediaEffect::CancelConsent { session_id } if session_id == "m1"
    )));

    media.consent("m1", true);
    assert!(media.take_effects().is_empty());
    assert!(media.calls.is_empty(), "no peer after media off");
}

#[test]
fn accepting_after_media_turned_off_is_disabled_and_ask_still_works_otherwise() {
    let mut media = client(MediaMode::Ask, false);
    let now = START;
    media.note_pane_input(&local(), "pane_1", now);
    open(&mut media, "m1", "pane_1", now);
    media.take_effects();
    // A policy change that bypassed set_mode's cleanup must still win at the start boundary.
    media.override_mode(MediaMode::Off);
    media.consent("m1", true);
    assert_eq!(
        closes(&media.take_effects()),
        vec![("m1".to_owned(), Some(CloseCode::Disabled))]
    );
    assert!(media.calls.is_empty());

    // Counterexample: with ask still in force, accepting starts the peer.
    media.override_mode(MediaMode::Ask);
    open(&mut media, "m2", "pane_1", now);
    media.take_effects();
    media.consent("m2", true);
    assert_eq!(media.calls, vec![PeerCall::Start("m2".into())]);
}

#[test]
fn reloading_media_off_ends_a_live_call_and_releases_the_peer() {
    let mut media = client(MediaMode::Auto, false);
    let now = START;
    media.note_pane_input(&local(), "pane_1", now);
    open(&mut media, "m1", "pane_1", now);
    media.take_effects();
    media.set_mode(MediaMode::Ask);
    assert!(media.take_effects().is_empty(), "ask keeps the live call");

    media.set_mode(MediaMode::Off);
    assert_eq!(
        closes(&media.take_effects()),
        vec![("m1".to_owned(), Some(CloseCode::Disabled))]
    );
    assert_eq!(
        media.calls,
        vec![PeerCall::Start("m1".into()), PeerCall::Close("m1".into())]
    );
}

#[test]
fn auto_starts_the_peer_and_forwards_its_offer_and_state() {
    let mut media = client(MediaMode::Auto, false);
    let now = START;
    media.note_pane_input(&local(), "pane_1", now);
    open(&mut media, "m1", "pane_1", now + 9_000);
    assert_eq!(media.calls, vec![PeerCall::Start("m1".into())]);
    assert!(closes(&media.take_effects()).is_empty());

    media.handle_peer_event(PeerEvent::Offer {
        session_id: "m1".into(),
        sdp: "v=0".into(),
    });
    media.handle_peer_event(PeerEvent::State {
        session_id: "m1".into(),
        state: MediaPeerState::Connected,
        muted: false,
        detail: None,
    });
    media.handle_peer_event(PeerEvent::Offer {
        session_id: "stale".into(),
        sdp: "v=0".into(),
    });
    assert_eq!(
        media.take_effects(),
        vec![
            MediaEffect::Send(
                local(),
                MediaControl::Offer(MediaSdp {
                    session_id: "m1".into(),
                    sdp: "v=0".into(),
                })
            ),
            MediaEffect::Send(
                local(),
                MediaControl::State(MediaStateUpdate {
                    session_id: "m1".into(),
                    state: MediaPeerState::Connected,
                    muted: false,
                    detail: None,
                })
            ),
        ]
    );
}

#[test]
fn ask_waits_for_consent_then_starts_and_remembers_it() {
    let mut media = client(MediaMode::Ask, false);
    let now = START;
    media.note_pane_input(&local(), "pane_1", now);
    open(&mut media, "m1", "pane_1", now);
    assert!(media.take_effects().contains(&MediaEffect::AskConsent {
        session_id: "m1".into(),
        pane_label: "label pane_1".into(),
    }));
    assert_eq!(media.deadline(), Some(now + MEDIA_CONSENT_TIMEOUT));
    assert!(media.calls.is_empty());

    media.consent("m1", true);
    assert_eq!(media.calls, vec![PeerCall::Start("m1".into())]);
    assert_eq!(media.deadline(), None);

    // Allowed once in this process: the next open starts at once and replaces m1.
    media.take_effects();
    open(&mut media, "m2", "pane_1", now);
    assert_eq!(
        closes(&media.take_effects()),
        vec![("m1".to_owned(), Some(CloseCode::Replaced))]
    );
    assert_eq!(
        media.calls,
        vec![
            PeerCall::Start("m1".into()),
            PeerCall::Close("m1".into()),
            PeerCall::Start("m2".into()),
        ]
    );
}

#[test]
fn declined_or_unanswered_consent_is_declined() {
    let mut media = client(MediaMode::Ask, false);
    let now = START;
    media.note_pane_input(&local(), "pane_1", now);
    open(&mut media, "m1", "pane_1", now);
    media.take_effects();
    media.consent("m1", false);
    assert_eq!(refusal(&mut media), Some(CloseCode::Declined));

    open(&mut media, "m2", "pane_1", now);
    media.take_effects();
    media.tick(now + 29_000);
    assert!(media.take_effects().is_empty());
    media.tick(now + MEDIA_CONSENT_TIMEOUT);
    let effects = media.take_effects();
    assert!(effects.contains(&MediaEffect::CancelConsent {
        session_id: "m2".into()
    }));
    assert_eq!(
        closes(&effects),
        vec![("m2".to_owned(), Some(CloseCode::Declined))]
    );
    assert!(media.calls.is_empty());
}

#[test]
fn factory_failure_is_device_error() {
    let mut media = client(MediaMode::Auto, true);
    let now = START;
    media.note_pane_input(&local(), "pane_1", now);
    open(&mut media, "m1", "pane_1", now);
    assert_eq!(
        refusal(&mut media),
        Some(CloseCode::DeviceError)
    );
}

fn started(mode: MediaMode) -> Client {
    let mut media = client(mode, false);
    let now = START;
    media.note_pane_input(&local(), "pane_1", now);
    open(&mut media, "m1", "pane_1", now);
    media.take_effects();
    media
}

#[test]
fn answer_and_mute_reach_the_owned_peer_only() {
    let mut media = started(MediaMode::Auto);
    let now = START;
    let other = ClientEndpointId::Ssh("0123456789abcdef0123456789abcdef".into());
    let answer = |session_id: &str| {
        MediaControl::Answer(MediaSdp {
            session_id: session_id.into(),
            sdp: "answer".into(),
        })
    };
    media.handle_server_control(&local(), answer("m1"), true, None, now);
    media.handle_server_control(&local(), answer("unknown"), true, None, now);
    media.handle_server_control(&other, answer("m1"), true, None, now);
    media.handle_server_control(
        &local(),
        MediaControl::Mute(MediaMute {
            session_id: "m1".into(),
            muted: true,
        }),
        true,
        None,
        now,
    );
    assert_eq!(
        media.calls,
        vec![
            PeerCall::Start("m1".into()),
            PeerCall::Answer("m1".into(), "answer".into()),
            PeerCall::Mute("m1".into(), true),
        ]
    );
    assert!(media.take_effects().is_empty());
}

#[test]
fn server_close_releases_the_peer_once() {
    let mut media = started(MediaMode::Auto);
    let close = || MediaControl::Close(MediaClose {
            session_id: "m1".into(),
            code: Some(CloseCode::Closed),
            message: Some("done".into()),
        });
    media.handle_server_control(&local(), close(), true, None, START);
    media.handle_server_control(&local(), close(), true, None, START);
    assert_eq!(
        media.calls,
        vec![PeerCall::Start("m1".into()), PeerCall::Close("m1".into())]
    );
    assert!(!media.media.has_session());
    assert!(closes(&media.take_effects()).is_empty());
}

#[test]
fn server_close_cancels_a_pending_prompt() {
    let mut media = started(MediaMode::Ask);
    let close = MediaControl::Close(MediaClose {
            session_id: "m1".into(),
            code: Some(CloseCode::Closed),
            message: Some("done".into()),
        });
    media.handle_server_control(&local(), close, true, None, START);
    assert_eq!(
        media.take_effects(),
        vec![MediaEffect::CancelConsent {
            session_id: "m1".into()
        }]
    );
    assert_eq!(media.deadline(), None);
}

#[test]
fn endpoint_disconnect_closes_the_peer_without_a_message() {
    let mut media = started(MediaMode::Auto);
    media.endpoint_gone(&local());
    assert_eq!(
        media.calls,
        vec![PeerCall::Start("m1".into()), PeerCall::Close("m1".into())]
    );
    assert!(closes(&media.take_effects()).is_empty());
}

#[test]
fn peer_closed_event_reports_its_code_and_drops_the_session() {
    let mut media = started(MediaMode::Auto);
    media.handle_peer_event(PeerEvent::Closed {
        session_id: "m1".into(),
        code: CloseCode::DeviceError,
        message: "x".repeat(MAX_MEDIA_TEXT_BYTES + 10),
    });
    let effects = media.take_effects();
    assert_eq!(
        closes(&effects),
        vec![("m1".to_owned(), Some(CloseCode::DeviceError))]
    );
    assert!(!media.media.has_session());
    let MediaEffect::Send(_, MediaControl::Close(close)) = &effects[0] else {
        panic!("close is sent first");
    };
    assert_eq!(close.message, Some("x".repeat(MAX_MEDIA_TEXT_BYTES)));
}

#[test]
fn capability_is_advertised_only_where_the_native_peer_works() {
    for native_media in [false, true] {
        for macos in [false, true] {
            let expected = native_media && macos;
            let available = native_peer_available(native_media, macos);
            assert_eq!(available, expected);
            assert_eq!(!advertised_capabilities(available, "media").is_empty(), expected);
        }
    }
    assert_eq!(advertised_capabilities(true, "media"), ["media"]);
}

#[test]
fn bounded_text_ends_at_a_character() {
    assert_eq!(bounded("abcdef", 4), "abcd");
    assert_eq!(bounded("ab\u{20ac}d", 4), "ab");
    assert_eq!(bounded("short", 64), "short");
    assert_eq!(bounded("\u{20ac}", 0), "");
}

fn session_to_offer() -> PeerSession {
    let (mut session, first) = PeerSession::start("media_test".into(), false);
    assert_eq!(first, SessionAction::OpenAudio);
    assert_eq!(
        session.step(SessionEvent::AudioOpened { failure: None, cancelled: false }, false),
        [SessionAction::CreatePeer]
    );
    for next in [
        SessionAction::AddTrack,
        SessionAction::CreateChannel,
        SessionAction::CreateOffer,
        SessionAction::ApplyOffer,
        SessionAction::Gather,
    ] {
        assert_eq!(session.step(SessionEvent::Done { failure: None }, false), [next]);
    }
    assert_eq!(session.step(SessionEvent::Gathered, false), [SessionAction::Describe]);
    session
}

fn offered_session() -> PeerSession {
    let mut session = session_to_offer();
    assert_eq!(
        session.step(SessionEvent::Described { sdp: Some("v=0".into()) }, false),
        [
            SessionAction::Emit(PeerEvent::Offer {
                session_id: "media_test".into(),
                sdp: "v=0".into(),
            }),
            SessionAction::Wait,
        ]
    );
    session
}

fn state(state: MediaPeerState, muted: bool) -> SessionAction {
    SessionAction::Emit(PeerEvent::State {
        session_id: "media_test".into(),
        state,
        muted,
        detail: None,
    })
}

#[test]
fn native_peer_close_releases_devices_and_is_idempotent() {
    let mut session = offered_session();
    assert_eq!(
        session.step(SessionEvent::Close, true),
        [SessionAction::ReleaseAudio, SessionAction::ClosePeer, SessionAction::Stop]
    );
}

#[test]
fn close_during_a_slow_device_open_returns_at_once_and_starts_no_media() {
    let (mut session, first) = PeerSession::start("media_test".into(), false);
    assert_eq!(first, SessionAction::OpenAudio);
    assert_eq!(
        session.step(SessionEvent::AudioOpened { failure: None, cancelled: true }, true),
        [SessionAction::ReleaseAudio, SessionAction::Stop]
    );
    let (_, first) = PeerSession::start("media_test".into(), true);
    assert_eq!(first, SessionAction::Stop);
}

#[test]
fn close_before_the_offer_releases_the_devices() {
    let mut session = session_to_offer();
    assert_eq!(
        session.step(SessionEvent::Cancelled, true),
        [SessionAction::ReleaseAudio, SessionAction::ClosePeer, SessionAction::Stop]
    );
}

#[test]
fn native_peer_confirms_mute_before_connect() {
    let mut session = offered_session();
    assert_eq!(
        session.step(SessionEvent::Mute(true), false),
        [
            SessionAction::SetMuted(true),
            state(MediaPeerState::Connecting, true),
            SessionAction::Wait,
        ]
    );
    assert!(session.muted());
}

#[test]
fn native_peer_reports_device_failure_as_closed() {
    let (mut session, _) = PeerSession::start("media_test".into(), false);
    assert_eq!(
        session.step(
            SessionEvent::AudioOpened { failure: Some("no microphone".into()), cancelled: false },
            false,
        ),
        [
            SessionAction::Emit(PeerEvent::Closed {
                session_id: "media_test".into(),
                code: CloseCode::DeviceError,
                message: "no microphone".into(),
            }),
            SessionAction::Stop,
        ]
    );
}

#[test]
fn connected_is_reported_once_both_sides_are_open() {
    let mut session = offered_session();
    assert_eq!(
        session.step(SessionEvent::PeerState(ConnectionState::Connected), false),
        [SessionAction::Wait]
    );
    assert_eq!(
        session.step(SessionEvent::ChannelOpen, false),
        [state(MediaPeerState::Connected, false), SessionAction::Wait]
    );
    assert_eq!(session.step(SessionEvent::ChannelOpen, false), [SessionAction::Wait]);
}

#[test]
fn a_failed_step_ends_the_session_with_its_name() {
    let mut session = offered_session();
    assert_eq!(
        session.step(SessionEvent::Answered { problem: None }, false),
        [SessionAction::ApplyAnswer]
    );
    let actions = session.step(SessionEvent::Done { failure: Some("eof".into()) }, false);
    assert_eq!(actions, ended("could not apply the answer: eof"));
}

/// What a session does that ends with a failure.
fn ended(message: &str) -> [SessionAction; 4] {
    [
        SessionAction::ReleaseAudio,
        SessionAction::ClosePeer,
        SessionAction::Emit(PeerEvent::Closed {
            session_id: "media_test".into(),
            code: CloseCode::DeviceError,
            message: message.into(),
        }),
        SessionAction::Stop,
    ]
}

#[test]
fn an_answer_that_cannot_be_read_ends_the_session() {
    let mut session = offered_session();
    let (answer, actions) = session.answer("nonsense".into(), false);
    assert!(answer.is_none());
    assert_eq!(actions, ended("invalid answer: SdpInvalidSyntax: nonsense"));
    let mut session = offered_session();
    let actions = session.step(SessionEvent::Answered { problem: Some("eof".into()) }, false);
    assert_eq!(actions, ended("invalid answer: eof"));
}

#[test]
fn an_answer_that_was_read_is_applied() {
    let sdp = "v=0\r\no=- 1 2 IN IP4 127.0.0.1\r\ns=-\r\nt=0 0\r\n";
    let mut session = offered_session();
    let (answer, actions) = session.answer(sdp.into(), false);
    assert_eq!(answer.map(|answer| answer.sdp).as_deref(), Some(sdp));
    assert_eq!(actions, [SessionAction::ApplyAnswer]);
    assert_eq!(
        session.step(SessionEvent::Done { failure: None }, false),
        [state(MediaPeerState::Connecting, false), SessionAction::Wait]
    );
}

#[test]
fn a_call_that_asks_for_a_peer_is_over_when_it_is_reported() {
    let mut media = ClientMedia::new(MediaMode::Auto, true, LIMITS);
    media.note_pane_input(&local(), "pane_1", START);
    media.handle_server_control(
        &local(),
        MediaControl::Open(MediaOpen { session_id: "m1".into(), pane_id: "pane_1".into() }),
        true,
        Some("shell".into()),
        START,
    );
    assert!(media.is_starting());
    assert!(!media.has_session());
    assert_eq!(
        media.take_effects().last(),
        Some(&MediaEffect::StartPeer { session_id: "m1".into() })
    );
    media.peer_started(None);
    assert!(!media.is_starting());
    assert!(media.has_session());
    media.set_mode(MediaMode::Off);
    assert!(!media.is_starting());
    assert!(!media.has_session());
}

#[test]
fn playback_keeps_the_newest_samples() {
    let mut buffer: VecDeque<i16> = VecDeque::new();
    push_playback(&mut buffer, &vec![1; PLAYBACK_CAPACITY]);
    push_playback(&mut buffer, &[2, 3]);
    assert_eq!(buffer.len(), PLAYBACK_CAPACITY);
    assert_eq!(buffer.back(), Some(&3));
    let mut buffer: VecDeque<i16> = (0..PLAYBACK_CAPACITY + 9).map(|i| (i % 100) as i16).collect();
    push_playback(&mut buffer, &[]);
    assert_eq!(buffer.len(), PLAYBACK_CAPACITY);
    assert_eq!(buffer.front(), Some(&9));
    let mut buffer: VecDeque<i16> = VecDeque::new();
    push_playback(&mut buffer, &[5, 6, 7]);
    assert_eq!(take_playback(&mut buffer, 2, 0), [5, 6]);
    assert_eq!(take_playback(&mut buffer, 3, 0), [7, 0, 0]);
    assert!(buffer.is_empty());
}

#[test]
fn capture_is_cut_into_whole_frames() {
    let mut pending: Vec<i16> = Vec::new();
    let samples: Vec<i16> = (0..FRAME_SAMPLES as i16 + 5).collect();
    let mut frames = push_capture(&mut pending, &samples[..7]);
    assert!(frames.is_empty());
    frames.extend(push_capture(&mut pending, &samples[7..]));
    assert_eq!(frames, [samples[..FRAME_SAMPLES].to_vec()]);
    assert_eq!(pending, samples[FRAME_SAMPLES..]);
}
