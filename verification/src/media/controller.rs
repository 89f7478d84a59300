//! Client media control plane.
//!
//! [`ClientMedia`] decides whether this client accepts a server's request for a
//! voice call, asks the user when the setting is to ask, drives one peer and
//! turns peer events into media controls for the owning endpoint. It does no
//! input or output: the client loop passes in the view facts and the clock, then
//! applies the returned [`MediaEffect`]s. The one effect that is answered is
//! [`MediaEffect::StartPeer`]: the loop starts the peer and calls
//! [`ClientMedia::peer_started`].
use crate::text::{self, chars_of, same_text, text_of};
use vstd::prelude::*;
use vstd::string::StringExecFns;

verus! {

/// The consent prompt declines on its own after this many milliseconds.
pub const MEDIA_CONSENT_TIMEOUT: u64 = 30000;

/// Whether calls are refused, asked for, or accepted.
#[derive(Debug, Clone, Copy, PartialEq, Eq, Structural)]
pub enum MediaMode {
    Off,
    Ask,
    Auto,
}

/// The bounds of the media protocol.
#[derive(Debug, Clone, Copy, PartialEq, Eq, Structural)]
pub struct MediaLimits {
    /// The most bytes of a message or detail.
    pub max_text_bytes: usize,
    /// How many milliseconds pane input counts as fresh.
    pub input_window: u64,
}

/// A server that this client is connected to.
#[derive(Debug, Clone, PartialEq, Eq)]
pub enum ClientEndpointId {
    Local,
    Ssh(String),
}

/// The content of an endpoint's identity.
pub enum EndpointView {
    Local,
    Ssh(Seq<char>),
}

impl View for ClientEndpointId {
    type V = EndpointView;

    open spec fn view(&self) -> EndpointView {
        match self {
            ClientEndpointId::Local => EndpointView::Local,
            ClientEndpointId::Ssh(profile) => EndpointView::Ssh(profile@),
        }
    }
}

impl ClientEndpointId {
    pub fn same(&self, other: &ClientEndpointId) -> (same: bool)
        ensures
            same == (self@ == other@),
    {
        match (self, other) {
            (ClientEndpointId::Local, ClientEndpointId::Local) => true,
            (ClientEndpointId::Ssh(left), ClientEndpointId::Ssh(right)) => same_text(
                left.as_str(),
                right.as_str(),
            ),
            _ => false,
        }
    }

    pub fn duplicate(&self) -> (copy: Self)
        ensures
            copy@ == self@,
    {
        match self {
            ClientEndpointId::Local => ClientEndpointId::Local,
            ClientEndpointId::Ssh(profile) => ClientEndpointId::Ssh(profile.clone()),
        }
    }
}

/// Why a session ends.
#[derive(Debug, Clone, Copy, PartialEq, Eq, Structural)]
pub enum CloseCode {
    WrongEndpoint,
    Unsupported,
    Disabled,
    NotViewed,
    StaleInput,
    Replaced,
    Declined,
    DeviceError,
    Closed,
}

/// The state of a peer's connection.
#[derive(Debug, Clone, Copy, PartialEq, Eq, Structural)]
pub enum MediaPeerState {
    Connecting,
    Connected,
    Disconnected,
    Failed,
}

#[derive(Debug, Clone, PartialEq, Eq)]
pub struct MediaOpen {
    pub session_id: String,
    pub pane_id: String,
}

#[derive(Debug, Clone, PartialEq, Eq)]
pub struct MediaSdp {
    pub session_id: String,
    pub sdp: String,
}

#[derive(Debug, Clone, PartialEq, Eq)]
pub struct MediaMute {
    pub session_id: String,
    pub muted: bool,
}

#[derive(Debug, Clone, PartialEq, Eq)]
pub struct MediaStateUpdate {
    pub session_id: String,
    pub state: MediaPeerState,
    pub muted: bool,
    pub detail: Option<String>,
}

#[derive(Debug, Clone, PartialEq, Eq)]
pub struct MediaClose {
    pub session_id: String,
    pub code: Option<CloseCode>,
    pub message: Option<String>,
}

/// A message between a server and this client about a call.
#[derive(Debug, Clone, PartialEq, Eq)]
pub enum MediaControl {
    Open(MediaOpen),
    Offer(MediaSdp),
    Answer(MediaSdp),
    Mute(MediaMute),
    State(MediaStateUpdate),
    Close(MediaClose),
}

/// The content of a media control.
pub enum ControlView {
    Open { session_id: Seq<char>, pane_id: Seq<char> },
    Offer { session_id: Seq<char>, sdp: Seq<char> },
    Answer { session_id: Seq<char>, sdp: Seq<char> },
    Mute { session_id: Seq<char>, muted: bool },
    State {
        session_id: Seq<char>,
        state: MediaPeerState,
        muted: bool,
        detail: Option<Seq<char>>,
    },
    Close { session_id: Seq<char>, code: Option<CloseCode>, message: Option<Seq<char>> },
}

impl View for MediaControl {
    type V = ControlView;

    open spec fn view(&self) -> ControlView {
        match self {
            MediaControl::Open(open) => ControlView::Open {
                session_id: open.session_id@,
                pane_id: open.pane_id@,
            },
            MediaControl::Offer(sdp) => ControlView::Offer {
                session_id: sdp.session_id@,
                sdp: sdp.sdp@,
            },
            MediaControl::Answer(sdp) => ControlView::Answer {
                session_id: sdp.session_id@,
                sdp: sdp.sdp@,
            },
            MediaControl::Mute(mute) => ControlView::Mute {
                session_id: mute.session_id@,
                muted: mute.muted,
            },
            MediaControl::State(update) => ControlView::State {
                session_id: update.session_id@,
                state: update.state,
                muted: update.muted,
                detail: text::opt_text(update.detail),
            },
            MediaControl::Close(close) => ControlView::Close {
                session_id: close.session_id@,
                code: close.code,
                message: text::opt_text(close.message),
            },
        }
    }
}

/// Work for the client loop after a controller call.
#[derive(Debug, Clone, PartialEq, Eq)]
pub enum MediaEffect {
    /// Send this control to the endpoint.
    Send(ClientEndpointId, MediaControl),
    /// Show one short client notice.
    Notice(String),
    /// Show the consent prompt for a session.
    AskConsent { session_id: String, pane_label: String },
    /// Remove the consent prompt for a session.
    CancelConsent { session_id: String },
    /// Start a peer for a session, and report how that went.
    StartPeer { session_id: String },
    /// Apply the remote answer to the peer.
    AnswerPeer { session_id: String, sdp: String },
    /// Mute or unmute the peer's microphone.
    MutePeer { session_id: String, muted: bool },
    /// Stop the peer and release the microphone and speaker.
    ClosePeer { session_id: String },
}

/// The content of an effect.
pub enum EffectView {
    Send(EndpointView, ControlView),
    Notice(Seq<char>),
    AskConsent { session_id: Seq<char>, pane_label: Seq<char> },
    CancelConsent { session_id: Seq<char> },
    StartPeer { session_id: Seq<char> },
    AnswerPeer { session_id: Seq<char>, sdp: Seq<char> },
    MutePeer { session_id: Seq<char>, muted: bool },
    ClosePeer { session_id: Seq<char> },
}

impl View for MediaEffect {
    type V = EffectView;

    open spec fn view(&self) -> EffectView {
        match self {
            MediaEffect::Send(endpoint_id, control) => EffectView::Send(endpoint_id@, control@),
            MediaEffect::Notice(message) => EffectView::Notice(message@),
            MediaEffect::AskConsent { session_id, pane_label } => EffectView::AskConsent {
                session_id: session_id@,
                pane_label: pane_label@,
            },
            MediaEffect::CancelConsent { session_id } => EffectView::CancelConsent {
                session_id: session_id@,
            },
            MediaEffect::StartPeer { session_id } => EffectView::StartPeer {
                session_id: session_id@,
            },
            MediaEffect::AnswerPeer { session_id, sdp } => EffectView::AnswerPeer {
                session_id: session_id@,
                sdp: sdp@,
            },
            MediaEffect::MutePeer { session_id, muted } => EffectView::MutePeer {
                session_id: session_id@,
                muted: *muted,
            },
            MediaEffect::ClosePeer { session_id } => EffectView::ClosePeer {
                session_id: session_id@,
            },
        }
    }
}

pub open spec fn effect_views(effects: Seq<MediaEffect>) -> Seq<EffectView> {
    Seq::new(effects.len(), |i: int| effects[i]@)
}

/// Results from a peer.
#[derive(Debug, Clone, PartialEq, Eq)]
pub enum PeerEvent {
    /// The complete local offer.
    Offer { session_id: String, sdp: String },
    /// A connection or mute state change.
    State { session_id: String, state: MediaPeerState, muted: bool, detail: Option<String> },
    /// The peer ended on its own and has released the microphone and speaker.
    Closed { session_id: String, code: CloseCode, message: String },
}

/// The content of a peer event.
pub enum PeerEventView {
    Offer { session_id: Seq<char>, sdp: Seq<char> },
    State {
        session_id: Seq<char>,
        state: MediaPeerState,
        muted: bool,
        detail: Option<Seq<char>>,
    },
    Closed { session_id: Seq<char>, code: CloseCode, message: Seq<char> },
}

impl View for PeerEvent {
    type V = PeerEventView;

    open spec fn view(&self) -> PeerEventView {
        match self {
            PeerEvent::Offer { session_id, sdp } => PeerEventView::Offer {
                session_id: session_id@,
                sdp: sdp@,
            },
            PeerEvent::State { session_id, state, muted, detail } => PeerEventView::State {
                session_id: session_id@,
                state: *state,
                muted: *muted,
                detail: text::opt_text(*detail),
            },
            PeerEvent::Closed { session_id, code, message } => PeerEventView::Closed {
                session_id: session_id@,
                code: *code,
                message: message@,
            },
        }
    }
}

/// The longest start of a text that fits into a number of bytes.
pub open spec fn bounded_text(chars: Seq<char>, max: int) -> Seq<char>
    decreases chars.len(),
{
    if vstd::utf8::encode_utf8(chars).len() <= max || chars.len() == 0 {
        chars
    } else {
        bounded_text(chars.drop_last(), max)
    }
}

/// Where a session was opened from, and what it is called.
pub struct SessionView {
    pub endpoint_id: EndpointView,
    pub session_id: Seq<char>,
}

/// The controller's state.
pub struct MediaView {
    pub limits: MediaLimits,
    pub mode: MediaMode,
    pub peer_available: bool,
    /// This client's last pane input per endpoint: the pane, and when.
    pub last_input: Map<EndpointView, (Seq<char>, u64)>,
    /// The user allowed media once in this client process.
    pub allowed: bool,
    pub pending: Option<(SessionView, u64)>,
    pub session: Option<SessionView>,
    /// The session whose peer was asked for and has not been reported yet.
    pub starting: Option<SessionView>,
    pub effects: Seq<EffectView>,
}

/// What a request for a call comes to.
pub enum OpenOutcome {
    Duplicate,
    Refused { code: CloseCode, message: Seq<char>, notice: Option<Seq<char>> },
    Start,
    Ask { pane_label: Seq<char> },
}

pub open spec fn off_message() -> Seq<char> {
    "media is off in this client's config"@
}

impl MediaView {
    pub open spec fn effect(self, effect: EffectView) -> MediaView {
        MediaView { effects: self.effects.push(effect), ..self }
    }

    pub open spec fn notice(self, message: Seq<char>) -> MediaView {
        self.effect(EffectView::Notice(message))
    }

    pub open spec fn bounded(self, message: Seq<char>) -> Seq<char> {
        bounded_text(message, self.limits.max_text_bytes as int)
    }

    /// Tells an endpoint that a session is over.
    pub open spec fn send_close(
        self,
        session: SessionView,
        code: CloseCode,
        message: Seq<char>,
    ) -> MediaView {
        self.effect(
            EffectView::Send(
                session.endpoint_id,
                ControlView::Close {
                    session_id: session.session_id,
                    code: Some(code),
                    message: Some(self.bounded(message)),
                },
            ),
        )
    }

    pub open spec fn cancel_consent(self, session: SessionView) -> MediaView {
        self.effect(EffectView::CancelConsent { session_id: session.session_id })
    }

    /// A prompt that is open is withdrawn and its server told why.
    pub open spec fn withdraw_pending(self, code: CloseCode, message: Seq<char>) -> MediaView {
        match self.pending {
            Some((session, _)) => MediaView { pending: None, ..self }.cancel_consent(
                session,
            ).send_close(session, code, message),
            None => self,
        }
    }

    /// A live call is ended and its server told why.
    pub open spec fn replace_session(self, code: CloseCode, message: Seq<char>) -> MediaView {
        match self.session {
            Some(session) => MediaView { session: None, ..self }.effect(
                EffectView::ClosePeer { session_id: session.session_id },
            ).send_close(session, code, message),
            None => self,
        }
    }

    /// The setting changed. Turning media off also refuses an unanswered prompt
    /// and ends a live call, so nothing keeps the microphone against the setting.
    pub open spec fn with_mode(self, mode: MediaMode) -> MediaView {
        let changed = MediaView { mode, ..self };
        if mode != MediaMode::Off {
            changed
        } else {
            let quiet = changed.withdraw_pending(CloseCode::Disabled, off_message());
            match quiet.session {
                Some(session) => quiet.replace_session(
                    CloseCode::Disabled,
                    off_message(),
                ).notice("Voice call ended: media is off in this client's config"@),
                None => quiet,
            }
        }
    }

    pub open spec fn owns_session(self, endpoint_id: EndpointView, session_id: Seq<char>) -> bool {
        self.session == Some(SessionView { endpoint_id, session_id })
    }

    pub open spec fn asks_for(self, endpoint_id: EndpointView, session_id: Seq<char>) -> bool {
        self.pending matches Some((session, _)) && session == (SessionView {
            endpoint_id,
            session_id,
        })
    }

    /// A live call ends without a message to its server.
    pub open spec fn end_session(self, notice: Seq<char>) -> MediaView {
        match self.session {
            Some(session) => MediaView { session: None, ..self }.effect(
                EffectView::ClosePeer { session_id: session.session_id },
            ).notice(notice),
            None => self,
        }
    }

    /// An open prompt goes away without a message to its server.
    pub open spec fn cancel_pending(self) -> MediaView {
        match self.pending {
            Some((session, _)) => MediaView { pending: None, ..self }.cancel_consent(session),
            None => self,
        }
    }

    /// A peer is asked for; a live call gives way to it.
    pub open spec fn start(self, session: SessionView) -> MediaView {
        let free = self.replace_session(
            CloseCode::Replaced,
            "a newer media session replaced this one"@,
        );
        MediaView { starting: Some(session), ..free }.effect(
            EffectView::StartPeer { session_id: session.session_id },
        )
    }

    /// Whether a session of that name is live or asked for.
    pub open spec fn knows_session(self, session_id: Seq<char>) -> bool {
        ||| self.session matches Some(session) && session.session_id == session_id
        ||| self.pending matches Some((session, _)) && session.session_id == session_id
    }

    /// Whether this client just typed into the pane.
    pub open spec fn typed_into(self, endpoint_id: EndpointView, pane_id: Seq<char>, now: u64) -> bool {
        &&& self.last_input.contains_key(endpoint_id)
        &&& self.last_input[endpoint_id].0 == pane_id
        &&& now - self.last_input[endpoint_id].1 <= self.limits.input_window
    }

    /// What a request for a call comes to. `pane_label` is the pane's label,
    /// where the pane is in the layout that this client shows.
    pub open spec fn open_outcome(
        self,
        endpoint_id: EndpointView,
        session_id: Seq<char>,
        pane_id: Seq<char>,
        endpoint_shown: bool,
        pane_label: Option<Seq<char>>,
        now: u64,
    ) -> OpenOutcome {
        if self.knows_session(session_id) {
            OpenOutcome::Duplicate
        } else if !endpoint_shown {
            OpenOutcome::Refused {
                code: CloseCode::WrongEndpoint,
                message: "this client is not showing that server"@,
                notice: None,
            }
        } else if !self.peer_available {
            OpenOutcome::Refused {
                code: CloseCode::Unsupported,
                message: "this client was built without native media"@,
                notice: None,
            }
        } else if self.mode == MediaMode::Off {
            OpenOutcome::Refused {
                code: CloseCode::Disabled,
                message: off_message(),
                notice: Some("Voice call blocked: media is off in this client's config"@),
            }
        } else if pane_label is None {
            OpenOutcome::Refused {
                code: CloseCode::NotViewed,
                message: "the pane is not in the layout this client shows"@,
                notice: None,
            }
        } else if !self.typed_into(endpoint_id, pane_id, now) {
            OpenOutcome::Refused {
                code: CloseCode::StaleInput,
                message: "this client did not just type into that pane"@,
                notice: None,
            }
        } else if self.mode == MediaMode::Auto || self.allowed {
            OpenOutcome::Start
        } else {
            OpenOutcome::Ask { pane_label: pane_label->0 }
        }
    }

    /// A request for a call.
    pub open spec fn opened(self, session: SessionView, outcome: OpenOutcome, now: u64) -> MediaView {
        match outcome {
            OpenOutcome::Duplicate => self,
            OpenOutcome::Refused { code, message, notice } => {
                let told = match notice {
                    Some(notice) => self.notice(notice),
                    None => self,
                };
                told.send_close(session, code, message)
            },
            OpenOutcome::Start => self.start(session),
            OpenOutcome::Ask { pane_label } => {
                // A newer request supersedes an unanswered prompt.
                let free = self.withdraw_pending(
                    CloseCode::Replaced,
                    "a newer media request replaced this one"@,
                );
                MediaView {
                    pending: Some((session, (now + MEDIA_CONSENT_TIMEOUT) as u64)),
                    ..free
                }.effect(
                    EffectView::AskConsent { session_id: session.session_id, pane_label },
                )
            },
        }
    }

    /// A control from a server.
    pub open spec fn controlled(
        self,
        endpoint_id: EndpointView,
        control: ControlView,
        endpoint_shown: bool,
        pane_label: Option<Seq<char>>,
        now: u64,
    ) -> MediaView {
        match control {
            ControlView::Open { session_id, pane_id } => self.opened(
                SessionView { endpoint_id, session_id },
                self.open_outcome(
                    endpoint_id,
                    session_id,
                    pane_id,
                    endpoint_shown,
                    pane_label,
                    now,
                ),
                now,
            ),
            ControlView::Answer { session_id, sdp } => if self.owns_session(
                endpoint_id,
                session_id,
            ) {
                self.effect(EffectView::AnswerPeer { session_id, sdp })
            } else {
                self
            },
            ControlView::Mute { session_id, muted } => if self.owns_session(
                endpoint_id,
                session_id,
            ) {
                self.effect(EffectView::MutePeer { session_id, muted })
            } else {
                self
            },
            ControlView::Close { session_id, .. } => if self.owns_session(
                endpoint_id,
                session_id,
            ) {
                self.end_session("Voice call ended"@)
            } else if self.asks_for(endpoint_id, session_id) {
                self.cancel_pending()
            } else {
                self
            },
            // Client-to-server kinds; a server never sends them.
            ControlView::Offer { .. } | ControlView::State { .. } => self,
        }
    }

    /// The user's answer to the consent prompt.
    pub open spec fn consented(self, session_id: Seq<char>, allowed: bool) -> MediaView {
        match self.pending {
            Some((session, _)) => if session.session_id != session_id {
                self
            } else {
                let answered = MediaView { pending: None, ..self };
                if allowed && self.mode == MediaMode::Off {
                    // The policy may have changed while the prompt was open; it
                    // wins over the answer.
                    answered.send_close(session, CloseCode::Disabled, off_message())
                } else if allowed {
                    MediaView { allowed: true, ..answered }.start(session)
                } else {
                    answered.declined(session, "Voice call declined"@)
                }
            },
            None => self,
        }
    }

    pub open spec fn declined(self, session: SessionView, notice: Seq<char>) -> MediaView {
        self.notice(notice).send_close(
            session,
            CloseCode::Declined,
            "the user did not allow microphone access"@,
        )
    }

    /// Time passes; an unanswered prompt expires.
    pub open spec fn ticked(self, now: u64) -> MediaView {
        match self.pending {
            Some((session, deadline)) => if now >= deadline {
                MediaView { pending: None, ..self }.cancel_consent(session).declined(
                    session,
                    "Voice call declined: no answer"@,
                )
            } else {
                self
            },
            None => self,
        }
    }

    /// The peer that was asked for started, or failed with an error.
    pub open spec fn peer_reported(self, failure: Option<Seq<char>>) -> MediaView {
        match self.starting {
            Some(session) => {
                let ready = MediaView { starting: None, ..self };
                match failure {
                    None => MediaView { session: Some(session), ..ready }.notice(
                        "Voice call started"@,
                    ),
                    Some(error) => ready.notice("Voice call failed: "@ + error).send_close(
                        session,
                        CloseCode::DeviceError,
                        error,
                    ),
                }
            },
            None => self,
        }
    }

    /// An event from the live peer. Late events of a replaced or closed peer
    /// are ignored.
    pub open spec fn peer_event(self, event: PeerEventView) -> MediaView {
        match self.session {
            Some(session) => match event {
                PeerEventView::Offer { session_id, sdp } => if session_id == session.session_id {
                    self.effect(
                        EffectView::Send(
                            session.endpoint_id,
                            ControlView::Offer { session_id, sdp },
                        ),
                    )
                } else {
                    self
                },
                PeerEventView::State { session_id, state, muted, detail } => if session_id
                    == session.session_id {
                    self.effect(
                        EffectView::Send(
                            session.endpoint_id,
                            ControlView::State {
                                session_id,
                                state,
                                muted,
                                detail: match detail {
                                    Some(detail) => Some(self.bounded(detail)),
                                    None => None,
                                },
                            },
                        ),
                    )
                } else {
                    self
                },
                PeerEventView::Closed { session_id, code, message } => if session_id
                    == session.session_id {
                    MediaView { session: None, ..self }.send_close(session, code, message).notice(
                        "Voice call ended"@,
                    )
                } else {
                    self
                },
            },
            None => self,
        }
    }

    /// The endpoint's connection ended or was replaced: its session is released
    /// without a message.
    pub open spec fn endpoint_lost(self, endpoint_id: EndpointView) -> MediaView {
        let forgotten = MediaView { last_input: self.last_input.remove(endpoint_id), ..self };
        let released = if forgotten.session matches Some(session) && session.endpoint_id
            == endpoint_id {
            forgotten.end_session("Voice call ended: server disconnected"@)
        } else {
            forgotten
        };
        if released.pending matches Some((session, _)) && session.endpoint_id == endpoint_id {
            released.cancel_pending()
        } else {
            released
        }
    }
}

/// The last inputs as a map.
pub open spec fn inputs(entries: Seq<(ClientEndpointId, String, u64)>) -> Map<
    EndpointView,
    (Seq<char>, u64),
>
    decreases entries.len(),
{
    if entries.len() == 0 {
        Map::empty()
    } else {
        inputs(entries.drop_last()).insert(
            entries.last().0@,
            (entries.last().1@, entries.last().2),
        )
    }
}

/// No endpoint occurs twice.
pub open spec fn distinct(entries: Seq<(ClientEndpointId, String, u64)>) -> bool {
    forall|i: int, j: int|
        0 <= i < j < entries.len() ==> (#[trigger] entries[i]).0@ != (#[trigger] entries[j]).0@
}

proof fn lemma_inputs(entries: Seq<(ClientEndpointId, String, u64)>, key: EndpointView)
    requires
        distinct(entries),
    ensures
        inputs(entries).contains_key(key) == exists|i: int|
            0 <= i < entries.len() && (#[trigger] entries[i]).0@ == key,
        forall|i: int|
            0 <= i < entries.len() ==> inputs(entries)[(#[trigger] entries[i]).0@] == (
            entries[i].1@,
            entries[i].2,
        ),
    decreases entries.len(),
{
    if entries.len() > 0 {
        let shorter = entries.drop_last();
        assert(distinct(shorter)) by {
            assert forall|i: int, j: int| 0 <= i < j < shorter.len() implies (
            #[trigger] shorter[i]).0@ != (#[trigger] shorter[j]).0@ by {
                assert(shorter[i] == entries[i] && shorter[j] == entries[j]);
            }
        }
        lemma_inputs(shorter, key);
        assert forall|i: int| 0 <= i < entries.len() implies inputs(entries)[(
        #[trigger] entries[i]).0@] == (entries[i].1@, entries[i].2) by {
            if i < entries.len() - 1 {
                assert(shorter[i] == entries[i]);
                assert(entries[i].0@ != entries[entries.len() - 1].0@);
            }
        }
        if inputs(entries).contains_key(key) {
            if key == entries.last().0@ {
                assert(entries[entries.len() - 1].0@ == key);
            } else {
                let i = choose|i: int| 0 <= i < shorter.len() && (#[trigger] shorter[i]).0@ == key;
                assert(entries[i].0@ == key);
            }
        }
        if exists|i: int| 0 <= i < entries.len() && (#[trigger] entries[i]).0@ == key {
            let i = choose|i: int| 0 <= i < entries.len() && (#[trigger] entries[i]).0@ == key;
            if i < entries.len() - 1 {
                assert(shorter[i].0@ == key);
            }
        }
    }
}

proof fn lemma_inputs_remove(entries: Seq<(ClientEndpointId, String, u64)>, at: int)
    requires
        distinct(entries),
        0 <= at < entries.len(),
    ensures
        distinct(entries.remove(at)),
        inputs(entries.remove(at)) == inputs(entries).remove(entries[at].0@),
{
    let rest = entries.remove(at);
    let gone = entries[at].0@;
    assert forall|i: int, j: int| 0 <= i < j < rest.len() implies (#[trigger] rest[i]).0@ != (
    #[trigger] rest[j]).0@ by {
        let a = if i < at {
            i
        } else {
            i + 1
        };
        let b = if j < at {
            j
        } else {
            j + 1
        };
        assert(rest[i] == entries[a] && rest[j] == entries[b]);
        assert(entries[a].0@ != entries[b].0@);
    }
    let left = inputs(rest);
    let right = inputs(entries).remove(gone);
    assert forall|key: EndpointView| #[trigger] left.contains_key(key) == right.contains_key(
        key,
    ) && (left.contains_key(key) ==> left[key] == right[key]) by {
        lemma_inputs(rest, key);
        lemma_inputs(entries, key);
        if left.contains_key(key) {
            let i = choose|i: int| 0 <= i < rest.len() && (#[trigger] rest[i]).0@ == key;
            let a = if i < at {
                i
            } else {
                i + 1
            };
            assert(rest[i] == entries[a]);
            if a < at {
                assert(entries[a].0@ != entries[at].0@);
            } else {
                assert(entries[at].0@ != entries[a].0@);
            }
            assert(right.contains_key(key));
            assert(left[key] == right[key]);
        }
        if right.contains_key(key) {
            let a = choose|a: int| 0 <= a < entries.len() && (#[trigger] entries[a]).0@ == key;
            assert(a != at);
            let i = if a < at {
                a
            } else {
                a - 1
            };
            assert(rest[i] == entries[a]);
        }
    }
    assert(left =~= right);
}

struct MediaSession {
    endpoint_id: ClientEndpointId,
    session_id: String,
}

impl View for MediaSession {
    type V = SessionView;

    closed spec fn view(&self) -> SessionView {
        SessionView { endpoint_id: self.endpoint_id@, session_id: self.session_id@ }
    }
}

impl MediaSession {
    fn duplicate(&self) -> (copy: Self)
        ensures
            copy@ == self@,
    {
        MediaSession {
            endpoint_id: self.endpoint_id.duplicate(),
            session_id: self.session_id.clone(),
        }
    }
}

struct PendingConsent {
    session: MediaSession,
    deadline: u64,
}

/// The client media controller.
///
/// A call that asks for a peer, by [`MediaEffect::StartPeer`], is finished by
/// [`ClientMedia::peer_started`]; no other call comes between the two.
pub struct ClientMedia {
    limits: MediaLimits,
    mode: MediaMode,
    peer_available: bool,
    last_input: Vec<(ClientEndpointId, String, u64)>,
    allowed: bool,
    pending: Option<PendingConsent>,
    session: Option<MediaSession>,
    starting: Option<MediaSession>,
    effects: Vec<MediaEffect>,
}

impl View for ClientMedia {
    type V = MediaView;

    closed spec fn view(&self) -> MediaView {
        MediaView {
            limits: self.limits,
            mode: self.mode,
            peer_available: self.peer_available,
            last_input: inputs(self.last_input@),
            allowed: self.allowed,
            pending: match self.pending {
                Some(pending) => Some((pending.session@, pending.deadline)),
                None => None,
            },
            session: match self.session {
                Some(session) => Some(session@),
                None => None,
            },
            starting: match self.starting {
                Some(session) => Some(session@),
                None => None,
            },
            effects: effect_views(self.effects@),
        }
    }
}

fn utf8_len(ch: char) -> (len: usize)
    ensures
        len == vstd::utf8::encode_scalar(ch as u32).len(),
        1 <= len <= 4,
{
    if ch <= '\u{7f}' {
        1
    } else if ch <= '\u{7ff}' {
        2
    } else if ch <= '\u{ffff}' {
        3
    } else {
        4
    }
}

pub proof fn lemma_encode_push(chars: Seq<char>, ch: char)
    ensures
        vstd::utf8::encode_utf8(chars.push(ch)) == vstd::utf8::encode_utf8(chars)
            + vstd::utf8::encode_scalar(ch as u32),
    decreases chars.len(),
{
    let longer = chars.push(ch);
    if chars.len() == 0 {
        assert(longer.drop_first() =~= chars);
        assert(vstd::utf8::encode_utf8(chars) =~= Seq::empty());
        assert(vstd::utf8::encode_utf8(longer) =~= vstd::utf8::encode_scalar(ch as u32));
    } else {
        assert(longer.drop_first() =~= chars.drop_first().push(ch));
        lemma_encode_push(chars.drop_first(), ch);
        assert(vstd::utf8::encode_utf8(longer) =~= vstd::utf8::encode_utf8(chars)
            + vstd::utf8::encode_scalar(ch as u32));
    }
}

/// Keeps peer and device text inside the protocol's bound.
pub fn bounded(text: &str, max: usize) -> (kept: String)
    ensures
        kept@ == bounded_text(text@, max as int),
{
    let mut chars = chars_of(text);
    let mut total: usize = text.as_bytes().len();
    while total > max && chars.len() > 0
        invariant
            total == vstd::utf8::encode_utf8(chars@).len(),
            bounded_text(text@, max as int) == bounded_text(chars@, max as int),
        decreases chars.len(),
    {
        let ghost before = chars@;
        let last = chars[chars.len() - 1];
        proof {
            lemma_encode_push(before.drop_last(), last);
            assert(before.drop_last().push(last) =~= before);
        }
        let _ = chars.pop();
        assert(chars@ =~= before.drop_last());
        total -= utf8_len(last);
    }
    text_of(chars.as_slice())
}

impl ClientMedia {
    /// The bookkeeping is consistent: an endpoint's last input is kept once.
    pub closed spec fn wf(&self) -> bool {
        distinct(self.last_input@)
    }

    pub fn new(mode: MediaMode, peer_available: bool, limits: MediaLimits) -> (media: Self)
        ensures
            media.wf(),
            media@ == (MediaView {
                limits,
                mode,
                peer_available,
                last_input: Map::empty(),
                allowed: false,
                pending: None,
                session: None,
                starting: None,
                effects: Seq::empty(),
            }),
    {
        let media = ClientMedia {
            limits,
            mode,
            peer_available,
            last_input: Vec::new(),
            allowed: false,
            pending: None,
            session: None,
            starting: None,
            effects: Vec::new(),
        };
        assert(media@.effects =~= Seq::empty());
        media
    }

    fn push_effect(&mut self, effect: MediaEffect)
        ensures
            final(self)@ == old(self)@.effect(effect@),
            final(self).wf() == old(self).wf(),
    {
        let ghost content = effect@;
        self.effects.push(effect);
        assert(self@.effects =~= old(self)@.effects.push(content));
    }

    fn notice(&mut self, message: &str)
        ensures
            final(self)@ == old(self)@.notice(message@),
            final(self).wf() == old(self).wf(),
    {
        self.push_effect(MediaEffect::Notice(message.to_owned()));
    }

    fn send_close(&mut self, session: MediaSession, code: CloseCode, message: &str)
        ensures
            final(self)@ == old(self)@.send_close(session@, code, message@),
            final(self).wf() == old(self).wf(),
    {
        let message = bounded(message, self.limits.max_text_bytes);
        self.push_effect(
            MediaEffect::Send(
                session.endpoint_id,
                MediaControl::Close(
                    MediaClose {
                        session_id: session.session_id,
                        code: Some(code),
                        message: Some(message),
                    },
                ),
            ),
        );
    }

    fn withdraw_pending(&mut self, code: CloseCode, message: &str)
        ensures
            final(self)@ == old(self)@.withdraw_pending(code, message@),
            final(self).wf() == old(self).wf(),
    {
        if let Some(pending) = self.pending.take() {
            self.push_effect(
                MediaEffect::CancelConsent { session_id: pending.session.session_id.clone() },
            );
            self.send_close(pending.session, code, message);
        }
    }

    fn replace_session(&mut self, code: CloseCode, message: &str) -> (replaced: bool)
        ensures
            final(self)@ == old(self)@.replace_session(code, message@),
            final(self).wf() == old(self).wf(),
            replaced == (old(self)@.session is Some),
    {
        if let Some(session) = self.session.take() {
            self.push_effect(MediaEffect::ClosePeer { session_id: session.session_id.clone() });
            self.send_close(session, code, message);
            true
        } else {
            false
        }
    }

    /// Applies a reloaded setting.
    pub fn set_mode(&mut self, mode: MediaMode)
        requires
            old(self)@.starting is None,
        ensures
            final(self)@ == old(self)@.with_mode(mode),
            final(self).wf() == old(self).wf(),
    {
        self.mode = mode;
        if !matches!(mode, MediaMode::Off) {
            return ;
        }
        self.withdraw_pending(CloseCode::Disabled, "media is off in this client's config");
        if self.replace_session(CloseCode::Disabled, "media is off in this client's config") {
            self.notice("Voice call ended: media is off in this client's config");
        }
    }

    /// Changes the setting and leaves a prompt and a live call to it as they are: the setting
    /// then decides when the prompt is answered.
    pub fn override_mode(&mut self, mode: MediaMode)
        requires
            old(self)@.starting is None,
        ensures
            final(self)@ == (MediaView { mode, ..old(self)@ }),
            final(self).wf() == old(self).wf(),
    {
        self.mode = mode;
    }

    /// Hands out the effects.
    pub fn take_effects(&mut self) -> (effects: Vec<MediaEffect>)
        ensures
            effect_views(effects@) == old(self)@.effects,
            final(self)@ == (MediaView { effects: Seq::empty(), ..old(self)@ }),
            final(self).wf() == old(self).wf(),
    {
        let mut effects: Vec<MediaEffect> = Vec::new();
        effects.append(&mut self.effects);
        assert(effects@ =~= old(self).effects@);
        assert(self@.effects =~= Seq::empty());
        effects
    }

    /// When the consent prompt expires, if one is open.
    pub fn deadline(&self) -> (deadline: Option<u64>)
        ensures
            deadline == (match self@.pending {
                Some((_, deadline)) => Some(deadline),
                None => None,
            }),
    {
        match &self.pending {
            Some(pending) => Some(pending.deadline),
            None => None,
        }
    }

    /// Whether a peer was asked for and has not been reported yet.
    pub fn is_starting(&self) -> (starting: bool)
        ensures
            starting == (self@.starting is Some),
    {
        self.starting.is_some()
    }

    /// Whether a call is live.
    pub fn has_session(&self) -> (live: bool)
        ensures
            live == (self@.session is Some),
    {
        self.session.is_some()
    }

    fn input_index(&self, endpoint_id: &ClientEndpointId) -> (at: Option<usize>)
        ensures
            match at {
                Some(at) => at < self.last_input@.len() && self.last_input@[at as int].0@
                    == endpoint_id@,
                None => forall|i: int|
                    0 <= i < self.last_input@.len() ==> (#[trigger] self.last_input@[i]).0@
                        != endpoint_id@,
            },
    {
        let mut i: usize = 0;
        while i < self.last_input.len()
            invariant
                i <= self.last_input.len(),
                forall|j: int|
                    0 <= j < i ==> (#[trigger] self.last_input@[j]).0@ != endpoint_id@,
            decreases self.last_input.len() - i,
        {
            if self.last_input[i].0.same(endpoint_id) {
                return Some(i);
            }
            i += 1;
        }
        None
    }

    fn forget_input(&mut self, endpoint_id: &ClientEndpointId)
        requires
            old(self).wf(),
        ensures
            final(self).wf(),
            final(self)@ == (MediaView {
                last_input: old(self)@.last_input.remove(endpoint_id@),
                ..old(self)@
            }),
            forall|i: int|
                0 <= i < final(self).last_input@.len() ==> (
                #[trigger] final(self).last_input@[i]).0@ != endpoint_id@,
    {
        match self.input_index(endpoint_id) {
            Some(at) => {
                let ghost before = self.last_input@;
                proof {
                    lemma_inputs_remove(before, at as int);
                }
                let _ = self.last_input.remove(at);
                proof {
                    lemma_inputs(self.last_input@, endpoint_id@);
                    if exists|i: int|
                        0 <= i < self.last_input@.len() && (#[trigger] self.last_input@[i]).0@
                            == endpoint_id@ {
                        assert(inputs(self.last_input@).contains_key(endpoint_id@));
                    }
                }
            },
            None => {
                proof {
                    lemma_inputs(self.last_input@, endpoint_id@);
                    assert(inputs(self.last_input@).remove(endpoint_id@) =~= inputs(
                        self.last_input@,
                    ));
                }
            },
        }
    }

    /// Records pane input that this client actually sent to an endpoint.
    pub fn note_pane_input(&mut self, endpoint_id: &ClientEndpointId, pane_id: &str, now: u64)
        requires
            old(self).wf(),
            old(self)@.starting is None,
        ensures
            final(self).wf(),
            final(self)@ == (MediaView {
                last_input: old(self)@.last_input.insert(endpoint_id@, (pane_id@, now)),
                ..old(self)@
            }),
    {
        self.forget_input(endpoint_id);
        let ghost before = self.last_input@;
        self.last_input.push((endpoint_id.duplicate(), pane_id.to_owned(), now));
        proof {
            assert(self.last_input@.drop_last() =~= before);
            assert(distinct(self.last_input@)) by {
                assert forall|i: int, j: int| 0 <= i < j < self.last_input@.len() implies (
                #[trigger] self.last_input@[i]).0@ != (#[trigger] self.last_input@[j]).0@ by {
                    assert(self.last_input@[i] == before[i]);
                    if j < before.len() {
                        assert(self.last_input@[j] == before[j]);
                    }
                }
            }
            assert(self@.last_input =~= old(self)@.last_input.insert(
                endpoint_id@,
                (pane_id@, now),
            ));
        }
    }

    fn typed_into(&self, endpoint_id: &ClientEndpointId, pane_id: &str, now: u64) -> (fresh: bool)
        requires
            self.wf(),
        ensures
            fresh == self@.typed_into(endpoint_id@, pane_id@, now),
    {
        proof {
            lemma_inputs(self.last_input@, endpoint_id@);
        }
        match self.input_index(endpoint_id) {
            Some(at) => {
                let noted = self.last_input[at].2;
                let ghost entry = self.last_input@[at as int];
                assert(entry.0@ == endpoint_id@);
                let age: u64 = if now >= noted {
                    now - noted
                } else {
                    0
                };
                same_text(self.last_input[at].1.as_str(), pane_id) && age
                    <= self.limits.input_window
            },
            None => false,
        }
    }

    fn start(&mut self, session: MediaSession)
        ensures
            final(self)@ == old(self)@.start(session@),
            final(self).wf() == old(self).wf(),
    {
        let _ = self.replace_session(
            CloseCode::Replaced,
            "a newer media session replaced this one",
        );
        let session_id = session.session_id.clone();
        self.starting = Some(session);
        self.push_effect(MediaEffect::StartPeer { session_id });
    }

    fn refuse(&mut self, session: MediaSession, code: CloseCode, message: &str)
        ensures
            final(self)@ == old(self)@.send_close(session@, code, message@),
            final(self).wf() == old(self).wf(),
    {
        self.send_close(session, code, message);
    }

    fn handle_open(
        &mut self,
        endpoint_id: &ClientEndpointId,
        open: MediaOpen,
        endpoint_shown: bool,
        pane_label: Option<String>,
        now: u64,
    )
        requires
            old(self).wf(),
            old(self)@.starting is None,
            now + MEDIA_CONSENT_TIMEOUT <= u64::MAX,
        ensures
            final(self).wf(),
            final(self)@ == old(self)@.controlled(
                endpoint_id@,
                MediaControl::Open(open)@,
                endpoint_shown,
                text::opt_text(pane_label),
                now,
            ),
    {
        let MediaOpen { session_id, pane_id } = open;
        let live = match &self.session {
            Some(session) => same_text(session.session_id.as_str(), session_id.as_str()),
            None => false,
        };
        let asked = match &self.pending {
            Some(pending) => same_text(pending.session.session_id.as_str(), session_id.as_str()),
            None => false,
        };
        if live || asked {
            return ;
        }
        let session = MediaSession { endpoint_id: endpoint_id.duplicate(), session_id };
        if !endpoint_shown {
            self.refuse(
                session,
                CloseCode::WrongEndpoint,
                "this client is not showing that server",
            );
            return ;
        }
        if !self.peer_available {
            self.refuse(
                session,
                CloseCode::Unsupported,
                "this client was built without native media",
            );
            return ;
        }
        if matches!(self.mode, MediaMode::Off) {
            self.notice("Voice call blocked: media is off in this client's config");
            self.refuse(session, CloseCode::Disabled, "media is off in this client's config");
            return ;
        }
        let label = match pane_label {
            Some(label) => label,
            None => {
                self.refuse(
                    session,
                    CloseCode::NotViewed,
                    "the pane is not in the layout this client shows",
                );
                return ;
            },
        };
        if !self.typed_into(endpoint_id, pane_id.as_str(), now) {
            self.refuse(
                session,
                CloseCode::StaleInput,
                "this client did not just type into that pane",
            );
            return ;
        }
        if matches!(self.mode, MediaMode::Auto) || self.allowed {
            self.start(session);
            return ;
        }
        self.withdraw_pending(CloseCode::Replaced, "a newer media request replaced this one");
        let session_id = session.session_id.clone();
        self.pending = Some(PendingConsent { session, deadline: now + MEDIA_CONSENT_TIMEOUT });
        self.push_effect(MediaEffect::AskConsent { session_id, pane_label: label });
    }

    fn owns_session(&self, endpoint_id: &ClientEndpointId, session_id: &str) -> (owned: bool)
        ensures
            owned == self@.owns_session(endpoint_id@, session_id@),
    {
        match &self.session {
            Some(session) => session.endpoint_id.same(endpoint_id) && same_text(
                session.session_id.as_str(),
                session_id,
            ),
            None => false,
        }
    }

    fn asks_for(&self, endpoint_id: &ClientEndpointId, session_id: &str) -> (asked: bool)
        ensures
            asked == self@.asks_for(endpoint_id@, session_id@),
    {
        match &self.pending {
            Some(pending) => pending.session.endpoint_id.same(endpoint_id) && same_text(
                pending.session.session_id.as_str(),
                session_id,
            ),
            None => false,
        }
    }

    /// Handles one media control from an endpoint.
    ///
    /// `endpoint_shown` is true when that endpoint owns the surface that this
    /// client shows. `pane_label` is the label of the pane that a request names,
    /// where the pane is in the layout that this client shows.
    pub fn handle_server_control(
        &mut self,
        endpoint_id: &ClientEndpointId,
        control: MediaControl,
        endpoint_shown: bool,
        pane_label: Option<String>,
        now: u64,
    )
        requires
            old(self).wf(),
            old(self)@.starting is None,
            now + MEDIA_CONSENT_TIMEOUT <= u64::MAX,
        ensures
            final(self).wf(),
            final(self)@ == old(self)@.controlled(
                endpoint_id@,
                control@,
                endpoint_shown,
                text::opt_text(pane_label),
                now,
            ),
    {
        match control {
            MediaControl::Open(open) => {
                self.handle_open(endpoint_id, open, endpoint_shown, pane_label, now);
            },
            MediaControl::Answer(answer) => {
                if self.owns_session(endpoint_id, answer.session_id.as_str()) {
                    self.push_effect(
                        MediaEffect::AnswerPeer { session_id: answer.session_id, sdp: answer.sdp },
                    );
                }
            },
            MediaControl::Mute(mute) => {
                if self.owns_session(endpoint_id, mute.session_id.as_str()) {
                    self.push_effect(
                        MediaEffect::MutePeer { session_id: mute.session_id, muted: mute.muted },
                    );
                }
            },
            MediaControl::Close(close) => {
                if self.owns_session(endpoint_id, close.session_id.as_str()) {
                    self.end_session("Voice call ended");
                } else if self.asks_for(endpoint_id, close.session_id.as_str()) {
                    self.cancel_pending();
                }
            },
            MediaControl::Offer(_) | MediaControl::State(_) => {},
        }
    }

    /// The user's answer to the consent prompt.
    pub fn consent(&mut self, session_id: &str, allowed: bool)
        requires
            old(self)@.starting is None,
        ensures
            final(self)@ == old(self)@.consented(session_id@, allowed),
            final(self).wf() == old(self).wf(),
    {
        let named = match &self.pending {
            Some(pending) => same_text(pending.session.session_id.as_str(), session_id),
            None => false,
        };
        if !named {
            return ;
        }
        if let Some(pending) = self.pending.take() {
            if allowed && matches!(self.mode, MediaMode::Off) {
                self.send_close(
                    pending.session,
                    CloseCode::Disabled,
                    "media is off in this client's config",
                );
            } else if allowed {
                self.allowed = true;
                self.start(pending.session);
            } else {
                self.decline(pending.session, "Voice call declined");
            }
        }
    }

    /// Expires an unanswered consent prompt.
    pub fn tick(&mut self, now: u64)
        requires
            old(self)@.starting is None,
        ensures
            final(self)@ == old(self)@.ticked(now),
            final(self).wf() == old(self).wf(),
    {
        let expired = match &self.pending {
            Some(pending) => now >= pending.deadline,
            None => false,
        };
        if !expired {
            return ;
        }
        if let Some(pending) = self.pending.take() {
            self.push_effect(
                MediaEffect::CancelConsent { session_id: pending.session.session_id.clone() },
            );
            self.decline(pending.session, "Voice call declined: no answer");
        }
    }

    /// Reports how starting the peer went, after [`MediaEffect::StartPeer`].
    pub fn peer_started(&mut self, failure: Option<String>)
        ensures
            final(self)@ == old(self)@.peer_reported(text::opt_text(failure)),
            final(self).wf() == old(self).wf(),
    {
        if let Some(session) = self.starting.take() {
            match failure {
                None => {
                    self.session = Some(session);
                    self.notice("Voice call started");
                },
                Some(error) => {
                    let mut message = "Voice call failed: ".to_owned();
                    message.append(error.as_str());
                    self.notice(message.as_str());
                    self.send_close(session, CloseCode::DeviceError, error.as_str());
                },
            }
        }
    }

    /// Handles one event from the live peer.
    pub fn handle_peer_event(&mut self, event: PeerEvent)
        requires
            old(self)@.starting is None,
        ensures
            final(self)@ == old(self)@.peer_event(event@),
            final(self).wf() == old(self).wf(),
    {
        let current = match &self.session {
            Some(session) => session.duplicate(),
            None => return ,
        };
        match event {
            PeerEvent::Offer { session_id, sdp } => {
                if same_text(session_id.as_str(), current.session_id.as_str()) {
                    self.push_effect(
                        MediaEffect::Send(
                            current.endpoint_id,
                            MediaControl::Offer(MediaSdp { session_id, sdp }),
                        ),
                    );
                }
            },
            PeerEvent::State { session_id, state, muted, detail } => {
                if same_text(session_id.as_str(), current.session_id.as_str()) {
                    let detail: Option<String> = match detail {
                        Some(detail) => Some(
                            bounded(detail.as_str(), self.limits.max_text_bytes),
                        ),
                        None => None,
                    };
                    self.push_effect(
                        MediaEffect::Send(
                            current.endpoint_id,
                            MediaControl::State(
                                MediaStateUpdate { session_id, state, muted, detail },
                            ),
                        ),
                    );
                }
            },
            PeerEvent::Closed { session_id, code, message } => {
                if same_text(session_id.as_str(), current.session_id.as_str()) {
                    self.session = None;
                    self.send_close(current, code, message.as_str());
                    self.notice("Voice call ended");
                }
            },
        }
    }

    /// The endpoint's connection ended or was replaced.
    pub fn endpoint_gone(&mut self, endpoint_id: &ClientEndpointId)
        requires
            old(self).wf(),
            old(self)@.starting is None,
        ensures
            final(self).wf(),
            final(self)@ == old(self)@.endpoint_lost(endpoint_id@),
    {
        self.forget_input(endpoint_id);
        let live = match &self.session {
            Some(session) => session.endpoint_id.same(endpoint_id),
            None => false,
        };
        if live {
            self.end_session("Voice call ended: server disconnected");
        }
        let asked = match &self.pending {
            Some(pending) => pending.session.endpoint_id.same(endpoint_id),
            None => false,
        };
        if asked {
            self.cancel_pending();
        }
    }

    fn end_session(&mut self, notice: &str)
        ensures
            final(self)@ == old(self)@.end_session(notice@),
            final(self).wf() == old(self).wf(),
    {
        if let Some(session) = self.session.take() {
            self.push_effect(MediaEffect::ClosePeer { session_id: session.session_id });
            self.notice(notice);
        }
    }

    fn cancel_pending(&mut self)
        ensures
            final(self)@ == old(self)@.cancel_pending(),
            final(self).wf() == old(self).wf(),
    {
        if let Some(pending) = self.pending.take() {
            self.push_effect(
                MediaEffect::CancelConsent { session_id: pending.session.session_id },
            );
        }
    }

    fn decline(&mut self, session: MediaSession, notice: &str)
        ensures
            final(self)@ == old(self)@.declined(session@, notice@),
            final(self).wf() == old(self).wf(),
    {
        self.notice(notice);
        self.send_close(
            session,
            CloseCode::Declined,
            "the user did not allow microphone access",
        );
    }
}

/// A bounded text fits, is a start of the text, and is the longest start that
/// fits: the whole text where that does.
pub proof fn law_bounded_text(chars: Seq<char>, max: int)
    requires
        0 <= max,
    ensures
        vstd::utf8::encode_utf8(bounded_text(chars, max)).len() <= max,
        bounded_text(chars, max).is_prefix_of(chars),
        vstd::utf8::encode_utf8(chars).len() <= max ==> bounded_text(chars, max) == chars,
        forall|n: int|
            bounded_text(chars, max).len() < n <= chars.len() ==> vstd::utf8::encode_utf8(
                #[trigger] chars.take(n),
            ).len() > max,
    decreases chars.len(),
{
    if vstd::utf8::encode_utf8(chars).len() > max && chars.len() > 0 {
        law_bounded_text(chars.drop_last(), max);
        assert forall|n: int|
            bounded_text(chars, max).len() < n <= chars.len() implies vstd::utf8::encode_utf8(
            #[trigger] chars.take(n),
        ).len() > max by {
            if n == chars.len() {
                assert(chars.take(n) =~= chars);
            } else {
                assert(chars.take(n) =~= chars.drop_last().take(n));
            }
        }
        let kept = bounded_text(chars, max);
        assert(kept =~= chars.drop_last().subrange(0, kept.len() as int));
        assert(kept =~= chars.subrange(0, kept.len() as int));
    } else if chars.len() == 0 {
        assert(vstd::utf8::encode_utf8(chars) =~= Seq::empty());
        assert(chars =~= chars.subrange(0, 0));
    } else {
        assert(chars =~= chars.subrange(0, chars.len() as int));
    }
}

/// A request that is refused is answered: the server that asked gets exactly
/// one close for that session, with the refusal's code, and neither a live call
/// nor an open prompt is touched.
pub proof fn law_refused_request_is_answered(
    media: MediaView,
    session: SessionView,
    outcome: OpenOutcome,
    now: u64,
)
    requires
        outcome is Refused,
    ensures
        ({
            let after = media.opened(session, outcome, now);
            &&& after.effects.last() == EffectView::Send(
                session.endpoint_id,
                ControlView::Close {
                    session_id: session.session_id,
                    code: Some(outcome->code),
                    message: Some(media.bounded(outcome->message)),
                },
            )
            &&& after.effects.len() == media.effects.len() + (if outcome->notice is Some {
                2int
            } else {
                1
            })
            &&& after.session == media.session
            &&& after.pending == media.pending
            &&& after.starting == media.starting
        }),
{
}

/// A peer is asked for only while media is not off, and only where the setting
/// is to accept calls or the user has allowed them.
pub proof fn law_start_needs_permission(
    media: MediaView,
    endpoint_id: EndpointView,
    session_id: Seq<char>,
    pane_id: Seq<char>,
    endpoint_shown: bool,
    pane_label: Option<Seq<char>>,
    now: u64,
    answer: bool,
)
    ensures
        media.open_outcome(endpoint_id, session_id, pane_id, endpoint_shown, pane_label, now)
            is Start ==> media.peer_available && endpoint_shown && pane_label is Some
            && media.typed_into(endpoint_id, pane_id, now) && (media.mode == MediaMode::Auto || (
        media.mode == MediaMode::Ask && media.allowed)),
        media.consented(session_id, answer).starting != media.starting ==> answer && media.mode
            != MediaMode::Off && media.pending is Some,
{
}

/// A call that asks for a peer is over when the peer is reported: it is live, or its server
/// was told that it failed.
pub proof fn law_report_finishes_the_call(
    media: MediaView,
    session: SessionView,
    failure: Option<Seq<char>>,
)
    ensures
        ({
            let asked = media.start(session);
            let after = asked.peer_reported(failure);
            &&& asked.effects.last() == (EffectView::StartPeer { session_id: session.session_id })
            &&& after.starting is None
            &&& failure is None ==> after.session == Some(session)
            &&& failure matches Some(error) ==> after.session is None && after.effects.last()
                == EffectView::Send(
                session.endpoint_id,
                ControlView::Close {
                    session_id: session.session_id,
                    code: Some(CloseCode::DeviceError),
                    message: Some(media.bounded(error)),
                },
            )
        }),
{
}

/// Turning media off leaves neither a prompt nor a call, nor a peer that is still to start.
pub proof fn law_off_leaves_nothing(media: MediaView)
    requires
        media.starting is None,
    ensures
        media.with_mode(MediaMode::Off).session is None,
        media.with_mode(MediaMode::Off).pending is None,
        media.with_mode(MediaMode::Off).starting is None,
{
}

/// An endpoint reaches only its own sessions: any other control than a request
/// for a call, from an endpoint that has neither the live call nor the prompt,
/// changes nothing.
pub proof fn law_other_endpoints_reach_nothing(
    media: MediaView,
    endpoint_id: EndpointView,
    control: ControlView,
    endpoint_shown: bool,
    pane_label: Option<Seq<char>>,
    now: u64,
)
    requires
        !(control is Open),
        media.session matches Some(session) ==> session.endpoint_id != endpoint_id,
        media.pending matches Some((session, _)) ==> session.endpoint_id != endpoint_id,
    ensures
        media.controlled(endpoint_id, control, endpoint_shown, pane_label, now) == media,
{
}

/// What a peer reports of a session that is not the live one changes nothing.
pub proof fn law_late_events_ignored(media: MediaView, event: PeerEventView)
    requires
        media.session matches Some(session) ==> session.session_id != (match event {
            PeerEventView::Offer { session_id, .. } => session_id,
            PeerEventView::State { session_id, .. } => session_id,
            PeerEventView::Closed { session_id, .. } => session_id,
        }),
    ensures
        media.peer_event(event) == media,
{
}

/// An endpoint that is gone owns nothing, and nothing is sent to it.
pub proof fn law_gone_endpoint_owns_nothing(media: MediaView, endpoint_id: EndpointView)
    ensures
        ({
            let after = media.endpoint_lost(endpoint_id);
            &&& !(after.session matches Some(session) && session.endpoint_id == endpoint_id)
            &&& !(after.pending matches Some((session, _)) && session.endpoint_id == endpoint_id)
            &&& !after.last_input.contains_key(endpoint_id)
            &&& forall|i: int|
                media.effects.len() <= i < after.effects.len() ==> !(
                #[trigger] after.effects[i] is Send)
        }),
{
}

/// A mute control from the endpoint of the live call asks the peer for exactly the state
/// that it asks for, of that call, and does nothing else.
pub proof fn law_mute_reaches_the_peer(
    media: MediaView,
    session: SessionView,
    muted: bool,
    endpoint_shown: bool,
    pane_label: Option<Seq<char>>,
    now: u64,
)
    requires
        media.session == Some(session),
    ensures
        ({
            let after = media.controlled(
                session.endpoint_id,
                ControlView::Mute { session_id: session.session_id, muted },
                endpoint_shown,
                pane_label,
                now,
            );
            &&& after.effects == media.effects.push(
                EffectView::MutePeer { session_id: session.session_id, muted },
            )
            &&& after == MediaView { effects: after.effects, ..media }
        }),
{
}

/// An answer from the endpoint of the live call reaches the peer as it is, and does nothing
/// else.
pub proof fn law_answer_reaches_the_peer(
    media: MediaView,
    session: SessionView,
    sdp: Seq<char>,
    endpoint_shown: bool,
    pane_label: Option<Seq<char>>,
    now: u64,
)
    requires
        media.session == Some(session),
    ensures
        ({
            let after = media.controlled(
                session.endpoint_id,
                ControlView::Answer { session_id: session.session_id, sdp },
                endpoint_shown,
                pane_label,
                now,
            );
            &&& after.effects == media.effects.push(
                EffectView::AnswerPeer { session_id: session.session_id, sdp },
            )
            &&& after == MediaView { effects: after.effects, ..media }
        }),
{
}

/// A close from the endpoint of the live call releases the peer and tells the user; one for
/// an open prompt takes the prompt away. Neither is answered.
pub proof fn law_close_ends_its_session(
    media: MediaView,
    session: SessionView,
    code: Option<CloseCode>,
    message: Option<Seq<char>>,
    endpoint_shown: bool,
    pane_label: Option<Seq<char>>,
    now: u64,
)
    ensures
        ({
            let after = media.controlled(
                session.endpoint_id,
                ControlView::Close { session_id: session.session_id, code, message },
                endpoint_shown,
                pane_label,
                now,
            );
            &&& media.session == Some(session) ==> after == MediaView {
                session: None,
                effects: media.effects + seq![
                    EffectView::ClosePeer { session_id: session.session_id },
                    EffectView::Notice("Voice call ended"@),
                ],
                ..media
            }
            &&& media.session != Some(session) && media.pending is Some && (media.pending->0).0
                == session ==> after == MediaView {
                pending: None,
                effects: media.effects.push(
                    EffectView::CancelConsent { session_id: session.session_id },
                ),
                ..media
            }
            &&& media.session != Some(session) && !(media.pending is Some && (media.pending->0).0
                == session) ==> after == media
        }),
{
    let after = media.controlled(
        session.endpoint_id,
        ControlView::Close { session_id: session.session_id, code, message },
        endpoint_shown,
        pane_label,
        now,
    );
    if media.session == Some(session) {
        assert(after.effects =~= media.effects + seq![
            EffectView::ClosePeer { session_id: session.session_id },
            EffectView::Notice("Voice call ended"@),
        ]);
    }
}

/// A control for another session than the endpoint's live call or prompt does nothing, and
/// neither does a control that only clients send.
pub proof fn law_unknown_sessions_are_left_alone(
    media: MediaView,
    endpoint_id: EndpointView,
    session_id: Seq<char>,
    other: ControlView,
    muted: bool,
    sdp: Seq<char>,
    endpoint_shown: bool,
    pane_label: Option<Seq<char>>,
    now: u64,
)
    requires
        media.session != Some(SessionView { endpoint_id, session_id }),
        other is Offer || other is State,
    ensures
        media.controlled(
            endpoint_id,
            ControlView::Mute { session_id, muted },
            endpoint_shown,
            pane_label,
            now,
        ) == media,
        media.controlled(
            endpoint_id,
            ControlView::Answer { session_id, sdp },
            endpoint_shown,
            pane_label,
            now,
        ) == media,
        media.controlled(endpoint_id, other, endpoint_shown, pane_label, now) == media,
{
}

/// A request for a call is taken exactly where the server is shown, a peer can be had, media
/// is not off, the pane is in the layout and the user has just typed into it. It then starts
/// at once where the setting is to accept calls or the user has allowed them, and is asked
/// for otherwise, under the pane's own label.
pub proof fn law_request_is_taken_where_it_may_be(
    media: MediaView,
    endpoint_id: EndpointView,
    session_id: Seq<char>,
    pane_id: Seq<char>,
    endpoint_shown: bool,
    pane_label: Option<Seq<char>>,
    now: u64,
)
    requires
        media.session is None || media.session->0.session_id != session_id,
        media.pending is None || (media.pending->0).0.session_id != session_id,
    ensures
        ({
            let outcome = media.open_outcome(
                endpoint_id,
                session_id,
                pane_id,
                endpoint_shown,
                pane_label,
                now,
            );
            let typed = media.last_input.contains_key(endpoint_id)
                && media.last_input[endpoint_id].0 == pane_id && now
                <= media.last_input[endpoint_id].1 + media.limits.input_window;
            let taken = endpoint_shown && media.peer_available && media.mode != MediaMode::Off
                && pane_label is Some && typed;
            &&& taken && (media.mode == MediaMode::Auto || media.allowed) <==> outcome is Start
            &&& taken && media.mode == MediaMode::Ask && !media.allowed <==> outcome is Ask
            &&& outcome matches OpenOutcome::Ask { pane_label: shown } ==> pane_label == Some(shown)
            &&& !taken <==> outcome is Refused
            &&& !endpoint_shown ==> outcome->code == CloseCode::WrongEndpoint
            &&& endpoint_shown && !media.peer_available ==> outcome->code == CloseCode::Unsupported
            &&& endpoint_shown && media.peer_available && media.mode == MediaMode::Off
                ==> outcome->code == CloseCode::Disabled && outcome->notice is Some
            &&& endpoint_shown && media.peer_available && media.mode != MediaMode::Off && pane_label
                is None ==> outcome->code == CloseCode::NotViewed
            &&& endpoint_shown && media.peer_available && media.mode != MediaMode::Off && pane_label
                is Some && !typed ==> outcome->code == CloseCode::StaleInput
        }),
{
}

/// A session that is live or asked for already is not opened again, by anyone.
pub proof fn law_second_request_changes_nothing(
    media: MediaView,
    endpoint_id: EndpointView,
    session_id: Seq<char>,
    pane_id: Seq<char>,
    endpoint_shown: bool,
    pane_label: Option<Seq<char>>,
    now: u64,
)
    requires
        (media.session is Some && media.session->0.session_id == session_id) || (media.pending
            is Some && (media.pending->0).0.session_id == session_id),
    ensures
        media.controlled(
            endpoint_id,
            ControlView::Open { session_id, pane_id },
            endpoint_shown,
            pane_label,
            now,
        ) == media,
{
}

/// A call that starts asks for its own peer. A call that was live before gives way: its peer
/// is released and its server told.
pub proof fn law_start_asks_for_its_own_peer(media: MediaView, session: SessionView, now: u64)
    ensures
        ({
            let after = media.opened(session, OpenOutcome::Start, now);
            let asked = EffectView::StartPeer { session_id: session.session_id };
            &&& after.starting == Some(session)
            &&& after.session is None
            &&& after.pending == media.pending
            &&& after.mode == media.mode && after.allowed == media.allowed
            &&& media.session is None ==> after.effects == media.effects.push(asked)
            &&& media.session matches Some(live) ==> after.effects == media.effects + seq![
                EffectView::ClosePeer { session_id: live.session_id },
                EffectView::Send(
                    live.endpoint_id,
                    ControlView::Close {
                        session_id: live.session_id,
                        code: Some(CloseCode::Replaced),
                        message: Some(
                            media.bounded("a newer media session replaced this one"@),
                        ),
                    },
                ),
                asked,
            ]
        }),
{
    let after = media.opened(session, OpenOutcome::Start, now);
    if let Some(live) = media.session {
        assert(after.effects =~= media.effects + seq![
            EffectView::ClosePeer { session_id: live.session_id },
            EffectView::Send(
                live.endpoint_id,
                ControlView::Close {
                    session_id: live.session_id,
                    code: Some(CloseCode::Replaced),
                    message: Some(media.bounded("a newer media session replaced this one"@)),
                },
            ),
            EffectView::StartPeer { session_id: session.session_id },
        ]);
    }
}

/// A call that must be asked for opens its own prompt, which lasts half a minute. A prompt
/// that was open before is taken away and its server told; a live call goes on.
pub proof fn law_prompt_is_for_its_own_session(
    media: MediaView,
    session: SessionView,
    pane_label: Seq<char>,
    now: u64,
)
    requires
        now + 30000 <= u64::MAX,
    ensures
        ({
            let after = media.opened(session, OpenOutcome::Ask { pane_label }, now);
            let asked = EffectView::AskConsent { session_id: session.session_id, pane_label };
            &&& after.pending == Some((session, (now + 30000) as u64))
            &&& after.session == media.session
            &&& after.starting == media.starting
            &&& after.allowed == media.allowed
            &&& media.pending is None ==> after.effects == media.effects.push(asked)
            &&& media.pending matches Some((older, _)) ==> after.effects == media.effects + seq![
                EffectView::CancelConsent { session_id: older.session_id },
                EffectView::Send(
                    older.endpoint_id,
                    ControlView::Close {
                        session_id: older.session_id,
                        code: Some(CloseCode::Replaced),
                        message: Some(
                            media.bounded("a newer media request replaced this one"@),
                        ),
                    },
                ),
                asked,
            ]
        }),
{
    let after = media.opened(session, OpenOutcome::Ask { pane_label }, now);
    if let Some((older, _)) = media.pending {
        assert(after.effects =~= media.effects + seq![
            EffectView::CancelConsent { session_id: older.session_id },
            EffectView::Send(
                older.endpoint_id,
                ControlView::Close {
                    session_id: older.session_id,
                    code: Some(CloseCode::Replaced),
                    message: Some(media.bounded("a newer media request replaced this one"@)),
                },
            ),
            EffectView::AskConsent { session_id: session.session_id, pane_label },
        ]);
    }
}

/// The user's answer decides: yes starts the call of the prompt and counts for later calls,
/// no refuses it and starts nothing. An answer for another session decides nothing.
pub proof fn law_answer_to_the_prompt_decides(
    media: MediaView,
    session: SessionView,
    deadline: u64,
    session_id: Seq<char>,
)
    requires
        media.pending == Some((session, deadline)),
    ensures
        ({
            let yes = media.consented(session.session_id, true);
            let no = media.consented(session.session_id, false);
            &&& media.mode != MediaMode::Off ==> yes.allowed && yes.starting == Some(session)
                && yes.pending is None && yes.effects.last() == (EffectView::StartPeer {
                session_id: session.session_id,
            })
            &&& media.mode == MediaMode::Off ==> yes.allowed == media.allowed && yes.starting
                == media.starting && yes.pending is None && yes.session == media.session
                && yes.effects == media.effects.push(
                EffectView::Send(
                    session.endpoint_id,
                    ControlView::Close {
                        session_id: session.session_id,
                        code: Some(CloseCode::Disabled),
                        message: Some(media.bounded("media is off in this client's config"@)),
                    },
                ),
            )
            &&& no == MediaView {
                pending: None,
                effects: media.effects + seq![
                    EffectView::Notice("Voice call declined"@),
                    EffectView::Send(
                        session.endpoint_id,
                        ControlView::Close {
                            session_id: session.session_id,
                            code: Some(CloseCode::Declined),
                            message: Some(
                                media.bounded("the user did not allow microphone access"@),
                            ),
                        },
                    ),
                ],
                ..media
            }
            &&& session_id != session.session_id ==> media.consented(session_id, true) == media
                && media.consented(session_id, false) == media
        }),
{
    let no = media.consented(session.session_id, false);
    assert(no.effects =~= media.effects + seq![
        EffectView::Notice("Voice call declined"@),
        EffectView::Send(
            session.endpoint_id,
            ControlView::Close {
                session_id: session.session_id,
                code: Some(CloseCode::Declined),
                message: Some(media.bounded("the user did not allow microphone access"@)),
            },
        ),
    ]);
}

/// A prompt waits until its deadline and not longer: then it is taken away, and its server is
/// told that the user did not allow the call.
pub proof fn law_prompt_expires_at_its_deadline(
    media: MediaView,
    session: SessionView,
    deadline: u64,
    now: u64,
)
    requires
        media.pending == Some((session, deadline)),
    ensures
        now < deadline ==> media.ticked(now) == media,
        now >= deadline ==> media.ticked(now) == (MediaView {
            pending: None,
            effects: media.effects + seq![
                EffectView::CancelConsent { session_id: session.session_id },
                EffectView::Notice("Voice call declined: no answer"@),
                EffectView::Send(
                    session.endpoint_id,
                    ControlView::Close {
                        session_id: session.session_id,
                        code: Some(CloseCode::Declined),
                        message: Some(
                            media.bounded("the user did not allow microphone access"@),
                        ),
                    },
                ),
            ],
            ..media
        }),
{
    assert(now >= deadline ==> media.ticked(now).effects =~= media.effects + seq![
        EffectView::CancelConsent { session_id: session.session_id },
        EffectView::Notice("Voice call declined: no answer"@),
        EffectView::Send(
            session.endpoint_id,
            ControlView::Close {
                session_id: session.session_id,
                code: Some(CloseCode::Declined),
                message: Some(media.bounded("the user did not allow microphone access"@)),
            },
        ),
    ]);
}

/// What the live peer reports goes to the endpoint of the call as it was reported: its offer,
/// its state with its own mute, and its end with its own reason, which ends the call.
pub proof fn law_peer_reports_reach_the_server(
    media: MediaView,
    session: SessionView,
    sdp: Seq<char>,
    state: MediaPeerState,
    muted: bool,
    detail: Option<Seq<char>>,
    code: CloseCode,
    message: Seq<char>,
)
    requires
        media.session == Some(session),
    ensures
        ({
            let session_id = session.session_id;
            let ended = media.peer_event(PeerEventView::Closed { session_id, code, message });
            &&& media.peer_event(PeerEventView::Offer { session_id, sdp }) == MediaView {
                effects: media.effects.push(
                    EffectView::Send(
                        session.endpoint_id,
                        ControlView::Offer { session_id, sdp },
                    ),
                ),
                ..media
            }
            &&& media.peer_event(
                PeerEventView::State { session_id, state, muted, detail },
            ) == MediaView {
                effects: media.effects.push(
                    EffectView::Send(
                        session.endpoint_id,
                        ControlView::State {
                            session_id,
                            state,
                            muted,
                            detail: match detail {
                                Some(detail) => Some(
                                    bounded_text(detail, media.limits.max_text_bytes as int),
                                ),
                                None => None,
                            },
                        },
                    ),
                ),
                ..media
            }
            &&& ended == MediaView {
                session: None,
                effects: media.effects + seq![
                    EffectView::Send(
                        session.endpoint_id,
                        ControlView::Close {
                            session_id,
                            code: Some(code),
                            message: Some(
                                bounded_text(message, media.limits.max_text_bytes as int),
                            ),
                        },
                    ),
                    EffectView::Notice("Voice call ended"@),
                ],
                ..media
            }
        }),
{
    let session_id = session.session_id;
    let ended = media.peer_event(PeerEventView::Closed { session_id, code, message });
    assert(ended.effects =~= media.effects + seq![
        EffectView::Send(
            session.endpoint_id,
            ControlView::Close {
                session_id,
                code: Some(code),
                message: Some(bounded_text(message, media.limits.max_text_bytes as int)),
            },
        ),
        EffectView::Notice("Voice call ended"@),
    ]);
}

/// The setting changes nothing but itself, unless it turns media off: then a prompt is taken
/// away, a live call is released, and the servers of both are told why.
pub proof fn law_setting_ends_calls_only_when_off(media: MediaView, mode: MediaMode)
    ensures
        ({
            let after = media.with_mode(mode);
            let told = |session: SessionView|
                EffectView::Send(
                    session.endpoint_id,
                    ControlView::Close {
                        session_id: session.session_id,
                        code: Some(CloseCode::Disabled),
                        message: Some(media.bounded("media is off in this client's config"@)),
                    },
                );
            let prompt = match media.pending {
                Some((session, _)) => seq![
                    EffectView::CancelConsent { session_id: session.session_id },
                    told(session),
                ],
                None => Seq::empty(),
            };
            let call = match media.session {
                Some(session) => seq![
                    EffectView::ClosePeer { session_id: session.session_id },
                    told(session),
                    EffectView::Notice("Voice call ended: media is off in this client's config"@),
                ],
                None => Seq::empty(),
            };
            &&& mode != MediaMode::Off ==> after == MediaView { mode, ..media }
            &&& mode == MediaMode::Off ==> after == MediaView {
                mode,
                pending: None,
                session: None,
                effects: media.effects + prompt + call,
                ..media
            }
        }),
{
    let after = media.with_mode(mode);
    let told = |session: SessionView|
        EffectView::Send(
            session.endpoint_id,
            ControlView::Close {
                session_id: session.session_id,
                code: Some(CloseCode::Disabled),
                message: Some(media.bounded("media is off in this client's config"@)),
            },
        );
    let prompt = match media.pending {
        Some((session, _)) => seq![
            EffectView::CancelConsent { session_id: session.session_id },
            told(session),
        ],
        None => Seq::empty(),
    };
    let call = match media.session {
        Some(session) => seq![
            EffectView::ClosePeer { session_id: session.session_id },
            told(session),
            EffectView::Notice("Voice call ended: media is off in this client's config"@),
        ],
        None => Seq::empty(),
    };
    if mode == MediaMode::Off {
        assert(after.effects =~= media.effects + prompt + call);
    }
}

/// The loss of an endpoint leaves the sessions and inputs of the others alone.
pub proof fn law_other_endpoints_survive_a_loss(media: MediaView, endpoint_id: EndpointView)
    ensures
        ({
            let after = media.endpoint_lost(endpoint_id);
            &&& media.session is Some && media.session->0.endpoint_id != endpoint_id
                ==> after.session == media.session
            &&& media.pending is Some && (media.pending->0).0.endpoint_id != endpoint_id
                ==> after.pending == media.pending
            &&& media.session is Some && media.session->0.endpoint_id == endpoint_id
                ==> after.effects.contains(
                EffectView::ClosePeer { session_id: media.session->0.session_id },
            )
            &&& media.pending is Some && (media.pending->0).0.endpoint_id == endpoint_id
                ==> after.effects.contains(
                EffectView::CancelConsent { session_id: (media.pending->0).0.session_id },
            )
            &&& forall|other: EndpointView|
                other != endpoint_id && media.last_input.contains_key(other)
                    ==> #[trigger] after.last_input.contains_key(other) && after.last_input[other]
                    == media.last_input[other]
            &&& after.mode == media.mode && after.allowed == media.allowed && after.starting
                == media.starting
        }),
{
    let after = media.endpoint_lost(endpoint_id);
    let n = media.effects.len() as int;
    if media.session is Some && media.session->0.endpoint_id == endpoint_id {
        assert(after.effects[n] == (EffectView::ClosePeer {
            session_id: media.session->0.session_id,
        }));
    }
    if media.pending is Some && (media.pending->0).0.endpoint_id == endpoint_id {
        assert(after.effects.last() == (EffectView::CancelConsent {
            session_id: (media.pending->0).0.session_id,
        }));
    }
}

/// A peer that started makes the call live and the user hears of it; one that failed leaves
/// what was there, and the user and the server hear why.
pub proof fn law_started_peer_makes_the_call_live(
    media: MediaView,
    session: SessionView,
    error: Seq<char>,
)
    requires
        media.starting == Some(session),
    ensures
        media.peer_reported(None) == (MediaView {
            starting: None,
            session: Some(session),
            effects: media.effects.push(EffectView::Notice("Voice call started"@)),
            ..media
        }),
        media.peer_reported(Some(error)) == (MediaView {
            starting: None,
            effects: media.effects + seq![
                EffectView::Notice("Voice call failed: "@ + error),
                EffectView::Send(
                    session.endpoint_id,
                    ControlView::Close {
                        session_id: session.session_id,
                        code: Some(CloseCode::DeviceError),
                        message: Some(media.bounded(error)),
                    },
                ),
            ],
            ..media
        }),
{
    assert(media.peer_reported(Some(error)).effects =~= media.effects + seq![
        EffectView::Notice("Voice call failed: "@ + error),
        EffectView::Send(
            session.endpoint_id,
            ControlView::Close {
                session_id: session.session_id,
                code: Some(CloseCode::DeviceError),
                message: Some(media.bounded(error)),
            },
        ),
    ]);
}

/// A message is shortened to the limit of the protocol and not otherwise changed.
pub proof fn law_messages_are_bounded(media: MediaView, message: Seq<char>)
    ensures
        vstd::utf8::encode_utf8(media.bounded(message)).len() <= media.limits.max_text_bytes,
        media.bounded(message).is_prefix_of(message),
        vstd::utf8::encode_utf8(message).len() <= media.limits.max_text_bytes ==> media.bounded(
            message,
        ) == message,
{
    law_bounded_text(message, media.limits.max_text_bytes as int);
}

} // verus!
