//! The course of one native media session.
//!
//! The peer's thread does the device and network work. After each piece of work
//! it hands the outcome to [`PeerSession::step`], which says what to do next:
//! negotiate, report to the controller, or release everything and stop.
use crate::media::controller::{CloseCode, MediaPeerState, PeerEvent};
use crate::text;
use vstd::prelude::*;
use vstd::string::StringExecFns;
use webrtc::peer_connection::sdp::session_description::RTCSessionDescription;

verus! {

/// A session description that was read.
#[verifier::external_type_specification]
#[verifier::external_body]
pub struct ExSessionDescription(RTCSessionDescription);

/// What is wrong with the text of an answer, as the error says; nothing with a session
/// description.
pub uninterp spec fn answer_problem(sdp: Seq<char>) -> Option<Seq<char>>;

/// Calls `RTCSessionDescription::answer`, and `to_string` on its error: claims that whether
/// the text is a session description, and what the error says where it is none, depend on
/// the text alone. Of the description that comes back nothing is claimed.
#[verifier::external_body]
fn parse_answer(sdp: String) -> (parsed: Result<RTCSessionDescription, String>)
    ensures
        match parsed {
            Ok(_) => answer_problem(sdp@) is None,
            Err(error) => answer_problem(sdp@) == Some(error@),
        },
{
    RTCSessionDescription::answer(sdp).map_err(|error| error.to_string())
}

/// What the session waits for.
#[derive(Debug, Clone, Copy, PartialEq, Eq, Structural)]
pub enum SessionPhase {
    OpeningAudio,
    CreatingPeer,
    AddingTrack,
    CreatingChannel,
    CreatingOffer,
    ApplyingOffer,
    Gathering,
    Describing,
    Running,
    ApplyingAnswer,
    Stopped,
}

/// The state of the peer connection, as far as it matters.
#[derive(Debug, Clone, Copy, PartialEq, Eq, Structural)]
pub enum ConnectionState {
    Connected,
    Failed,
    /// Any other state; a lost connection may recover, and fails when it does not.
    Other,
}

/// What happened.
#[derive(Debug, Clone, PartialEq, Eq)]
pub enum SessionEvent {
    /// The controller closed the peer while the session waited.
    Cancelled,
    /// The devices opened, or failed with a message; `cancelled` tells whether the
    /// controller closed the peer meanwhile.
    AudioOpened { failure: Option<String>, cancelled: bool },
    /// The step that was asked for succeeded, or failed with an error.
    Done { failure: Option<String> },
    /// Candidates were gathered, or the time for it passed.
    Gathered,
    /// The local description.
    Described { sdp: Option<String> },
    /// The controller's remote answer was read; what is wrong with it, if anything is.
    Answered { problem: Option<String> },
    /// The controller mutes or unmutes.
    Mute(bool),
    /// The controller closes the session, or is gone.
    Close,
    /// The connection changed its state.
    PeerState(ConnectionState),
    /// The events channel is open.
    ChannelOpen,
    /// A device or codec failed.
    Fatal(String),
    /// Nothing can report to the session any more.
    Silent,
}

/// What to do next.
#[derive(Debug, Clone, PartialEq, Eq)]
pub enum SessionAction {
    /// Hand an event to the controller.
    Emit(PeerEvent),
    OpenAudio,
    CreatePeer,
    AddTrack,
    CreateChannel,
    CreateOffer,
    ApplyOffer,
    /// Wait for candidates, up to a time limit.
    Gather,
    Describe,
    /// Wait for a command or a report.
    Wait,
    ApplyAnswer,
    /// Send silence from now on, or the microphone again.
    SetMuted(bool),
    ReleaseAudio,
    ClosePeer,
    Stop,
}

/// The content of an event.
pub enum SessionEventView {
    Cancelled,
    AudioOpened { failure: Option<Seq<char>>, cancelled: bool },
    Done { failure: Option<Seq<char>> },
    Gathered,
    Described { sdp: Option<Seq<char>> },
    Answered { problem: Option<Seq<char>> },
    Mute(bool),
    Close,
    PeerState(ConnectionState),
    ChannelOpen,
    Fatal(Seq<char>),
    Silent,
}

impl View for SessionEvent {
    type V = SessionEventView;

    open spec fn view(&self) -> SessionEventView {
        match self {
            SessionEvent::Cancelled => SessionEventView::Cancelled,
            SessionEvent::AudioOpened { failure, cancelled } => SessionEventView::AudioOpened {
                failure: text::opt_text(*failure),
                cancelled: *cancelled,
            },
            SessionEvent::Done { failure } => SessionEventView::Done {
                failure: text::opt_text(*failure),
            },
            SessionEvent::Gathered => SessionEventView::Gathered,
            SessionEvent::Described { sdp } => SessionEventView::Described {
                sdp: text::opt_text(*sdp),
            },
            SessionEvent::Answered { problem } => SessionEventView::Answered {
                problem: text::opt_text(*problem),
            },
            SessionEvent::Mute(muted) => SessionEventView::Mute(*muted),
            SessionEvent::Close => SessionEventView::Close,
            SessionEvent::PeerState(state) => SessionEventView::PeerState(*state),
            SessionEvent::ChannelOpen => SessionEventView::ChannelOpen,
            SessionEvent::Fatal(message) => SessionEventView::Fatal(message@),
            SessionEvent::Silent => SessionEventView::Silent,
        }
    }
}

/// The content of an action.
pub enum SessionActionView {
    Emit(crate::media::controller::PeerEventView),
    OpenAudio,
    CreatePeer,
    AddTrack,
    CreateChannel,
    CreateOffer,
    ApplyOffer,
    Gather,
    Describe,
    Wait,
    ApplyAnswer,
    SetMuted(bool),
    ReleaseAudio,
    ClosePeer,
    Stop,
}

impl View for SessionAction {
    type V = SessionActionView;

    open spec fn view(&self) -> SessionActionView {
        match self {
            SessionAction::Emit(event) => SessionActionView::Emit(event@),
            SessionAction::OpenAudio => SessionActionView::OpenAudio,
            SessionAction::CreatePeer => SessionActionView::CreatePeer,
            SessionAction::AddTrack => SessionActionView::AddTrack,
            SessionAction::CreateChannel => SessionActionView::CreateChannel,
            SessionAction::CreateOffer => SessionActionView::CreateOffer,
            SessionAction::ApplyOffer => SessionActionView::ApplyOffer,
            SessionAction::Gather => SessionActionView::Gather,
            SessionAction::Describe => SessionActionView::Describe,
            SessionAction::Wait => SessionActionView::Wait,
            SessionAction::ApplyAnswer => SessionActionView::ApplyAnswer,
            SessionAction::SetMuted(muted) => SessionActionView::SetMuted(*muted),
            SessionAction::ReleaseAudio => SessionActionView::ReleaseAudio,
            SessionAction::ClosePeer => SessionActionView::ClosePeer,
            SessionAction::Stop => SessionActionView::Stop,
        }
    }
}

pub open spec fn action_views(actions: Seq<SessionAction>) -> Seq<SessionActionView> {
    Seq::new(actions.len(), |i: int| actions[i]@)
}

/// The session's state.
pub struct SessionView {
    pub session_id: Seq<char>,
    pub phase: SessionPhase,
    pub connected: bool,
    pub channel_open: bool,
    pub reported_connected: bool,
    pub muted: bool,
}

/// An event for the controller; nothing once the controller closed the peer.
pub open spec fn emitted(
    event: crate::media::controller::PeerEventView,
    closed: bool,
) -> Seq<SessionActionView> {
    if closed {
        Seq::empty()
    } else {
        seq![SessionActionView::Emit(event)]
    }
}

impl SessionView {
    pub open spec fn to(self, phase: SessionPhase) -> SessionView {
        SessionView { phase, ..self }
    }

    /// The connection state that is reported.
    pub open spec fn state_event(
        self,
        state: MediaPeerState,
    ) -> crate::media::controller::PeerEventView {
        crate::media::controller::PeerEventView::State {
            session_id: self.session_id,
            state,
            muted: self.muted,
            detail: None,
        }
    }

    /// Whether the devices are open.
    pub open spec fn holds_audio(self) -> bool {
        self.phase != SessionPhase::OpeningAudio && self.phase != SessionPhase::Stopped
    }

    /// Whether there is a peer connection.
    pub open spec fn holds_peer(self) -> bool {
        self.holds_audio() && self.phase != SessionPhase::CreatingPeer
    }

    /// What an event may be, in this phase.
    pub open spec fn expects(self, event: SessionEventView) -> bool {
        match event {
            SessionEventView::Cancelled => self.holds_audio(),
            SessionEventView::AudioOpened { .. } => self.phase == SessionPhase::OpeningAudio,
            SessionEventView::Done { .. } => match self.phase {
                SessionPhase::CreatingPeer
                | SessionPhase::AddingTrack
                | SessionPhase::CreatingChannel
                | SessionPhase::CreatingOffer
                | SessionPhase::ApplyingOffer
                | SessionPhase::ApplyingAnswer => true,
                _ => false,
            },
            SessionEventView::Gathered => self.phase == SessionPhase::Gathering,
            SessionEventView::Described { .. } => self.phase == SessionPhase::Describing,
            _ => self.phase == SessionPhase::Running,
        }
    }

    /// What a failed step was to do.
    pub open spec fn failed_step(self) -> Seq<char> {
        match self.phase {
            SessionPhase::CreatingPeer => "could not create the WebRTC peer"@,
            SessionPhase::AddingTrack => "could not add the microphone track"@,
            SessionPhase::CreatingChannel => "could not create the events channel"@,
            SessionPhase::CreatingOffer => "could not create the offer"@,
            SessionPhase::ApplyingOffer => "could not apply the offer"@,
            _ => "could not apply the answer"@,
        }
    }

    /// The session ends: the devices are released first, then the connection is
    /// closed, then a failure is reported.
    pub open spec fn ended(self, failure: Option<Seq<char>>, closed: bool) -> (
        SessionView,
        Seq<SessionActionView>,
    ) {
        let release = if self.holds_audio() {
            seq![SessionActionView::ReleaseAudio]
        } else {
            Seq::empty()
        };
        let close = if self.holds_peer() {
            seq![SessionActionView::ClosePeer]
        } else {
            Seq::empty()
        };
        let report = match failure {
            Some(message) => emitted(
                crate::media::controller::PeerEventView::Closed {
                    session_id: self.session_id,
                    code: CloseCode::DeviceError,
                    message,
                },
                closed,
            ),
            None => Seq::empty(),
        };
        (
            self.to(SessionPhase::Stopped),
            release + close + report + seq![SessionActionView::Stop],
        )
    }

    /// A step succeeded.
    pub open spec fn advanced(self, closed: bool) -> (SessionView, Seq<SessionActionView>) {
        match self.phase {
            SessionPhase::CreatingPeer => (
                self.to(SessionPhase::AddingTrack),
                seq![SessionActionView::AddTrack],
            ),
            SessionPhase::AddingTrack => (
                self.to(SessionPhase::CreatingChannel),
                seq![SessionActionView::CreateChannel],
            ),
            SessionPhase::CreatingChannel => (
                self.to(SessionPhase::CreatingOffer),
                seq![SessionActionView::CreateOffer],
            ),
            SessionPhase::CreatingOffer => (
                self.to(SessionPhase::ApplyingOffer),
                seq![SessionActionView::ApplyOffer],
            ),
            SessionPhase::ApplyingOffer => (
                self.to(SessionPhase::Gathering),
                seq![SessionActionView::Gather],
            ),
            _ => (
                self.to(SessionPhase::Running),
                (if self.reported_connected {
                    Seq::empty()
                } else {
                    emitted(self.state_event(MediaPeerState::Connecting), closed)
                }) + seq![SessionActionView::Wait],
            ),
        }
    }

    /// Reports the connection once it stands and the events channel is open.
    pub open spec fn settled(self, closed: bool) -> (SessionView, Seq<SessionActionView>) {
        if self.connected && self.channel_open && !self.reported_connected {
            let reported = SessionView { reported_connected: true, ..self };
            (
                reported,
                emitted(reported.state_event(MediaPeerState::Connected), closed)
                    + seq![SessionActionView::Wait],
            )
        } else {
            (self, seq![SessionActionView::Wait])
        }
    }

    /// One event. `closed` tells whether the controller closed the peer.
    pub open spec fn next(self, event: SessionEventView, closed: bool) -> (
        SessionView,
        Seq<SessionActionView>,
    ) {
        match event {
            SessionEventView::Cancelled => self.ended(None, closed),
            SessionEventView::AudioOpened { failure, cancelled } => match failure {
                Some(message) => self.ended(Some(message), closed),
                None => if cancelled {
                    // A close that came while the device opened releases it here.
                    self.to(SessionPhase::CreatingPeer).ended(None, closed)
                } else {
                    (self.to(SessionPhase::CreatingPeer), seq![SessionActionView::CreatePeer])
                },
            },
            SessionEventView::Done { failure } => match failure {
                Some(error) => self.ended(Some(self.failed_step() + ": "@ + error), closed),
                None => self.advanced(closed),
            },
            SessionEventView::Gathered => (
                self.to(SessionPhase::Describing),
                seq![SessionActionView::Describe],
            ),
            SessionEventView::Described { sdp } => match sdp {
                Some(sdp) => (
                    self.to(SessionPhase::Running),
                    emitted(
                        crate::media::controller::PeerEventView::Offer {
                            session_id: self.session_id,
                            sdp,
                        },
                        closed,
                    ) + seq![SessionActionView::Wait],
                ),
                None => self.ended(Some("the peer has no local description"@), closed),
            },
            SessionEventView::Answered { problem } => match problem {
                Some(error) => self.ended(Some("invalid answer: "@ + error), closed),
                None => (
                    self.to(SessionPhase::ApplyingAnswer),
                    seq![SessionActionView::ApplyAnswer],
                ),
            },
            SessionEventView::Mute(muted) => {
                let changed = SessionView { muted, ..self };
                (
                    changed,
                    seq![SessionActionView::SetMuted(muted)] + emitted(
                        changed.state_event(
                            if self.reported_connected {
                                MediaPeerState::Connected
                            } else {
                                MediaPeerState::Connecting
                            },
                        ),
                        closed,
                    ) + seq![SessionActionView::Wait],
                )
            },
            SessionEventView::Close | SessionEventView::Silent => self.ended(None, closed),
            SessionEventView::PeerState(state) => match state {
                ConnectionState::Connected => SessionView { connected: true, ..self }.settled(
                    closed,
                ),
                ConnectionState::Failed => self.ended(
                    Some("the WebRTC connection failed"@),
                    closed,
                ),
                ConnectionState::Other => self.settled(closed),
            },
            SessionEventView::ChannelOpen => SessionView { channel_open: true, ..self }.settled(
                closed,
            ),
            SessionEventView::Fatal(message) => self.ended(Some(message), closed),
        }
    }

    /// The connection is reported only once it is there; while the session waits
    /// for events, as soon as it is.
    pub open spec fn wf(self) -> bool {
        self.reported_connected <==> self.connected && self.channel_open
    }
}

/// A media session in progress.
pub struct PeerSession {
    session_id: String,
    phase: SessionPhase,
    connected: bool,
    channel_open: bool,
    reported_connected: bool,
    muted: bool,
}

impl View for PeerSession {
    type V = SessionView;

    closed spec fn view(&self) -> SessionView {
        SessionView {
            session_id: self.session_id@,
            phase: self.phase,
            connected: self.connected,
            channel_open: self.channel_open,
            reported_connected: self.reported_connected,
            muted: self.muted,
        }
    }
}

impl PeerSession {
    /// A session that starts; one that is already cancelled opens no device.
    pub fn start(session_id: String, cancelled: bool) -> (started: (Self, SessionAction))
        ensures
            started.0@ == (SessionView {
                session_id: session_id@,
                phase: if cancelled {
                    SessionPhase::Stopped
                } else {
                    SessionPhase::OpeningAudio
                },
                connected: false,
                channel_open: false,
                reported_connected: false,
                muted: false,
            }),
            started.1@ == (if cancelled {
                SessionActionView::Stop
            } else {
                SessionActionView::OpenAudio
            }),
    {
        let session = PeerSession {
            session_id,
            phase: if cancelled {
                SessionPhase::Stopped
            } else {
                SessionPhase::OpeningAudio
            },
            connected: false,
            channel_open: false,
            reported_connected: false,
            muted: false,
        };
        let action = if cancelled {
            SessionAction::Stop
        } else {
            SessionAction::OpenAudio
        };
        (session, action)
    }

    /// Whether microphone frames are replaced by silence.
    pub fn muted(&self) -> (muted: bool)
        ensures
            muted == self@.muted,
    {
        self.muted
    }

    fn holds_audio(&self) -> (held: bool)
        ensures
            held == self@.holds_audio(),
    {
        !matches!(self.phase, SessionPhase::OpeningAudio | SessionPhase::Stopped)
    }

    fn emit(&self, event: PeerEvent, closed: bool, actions: &mut Vec<SessionAction>)
        ensures
            action_views(final(actions)@) == action_views(old(actions)@) + emitted(event@, closed),
    {
        if !closed {
            actions.push(SessionAction::Emit(event));
        }
        assert(action_views(actions@) =~= action_views(old(actions)@) + emitted(event@, closed));
    }

    fn state(&self, state: MediaPeerState, closed: bool, actions: &mut Vec<SessionAction>)
        ensures
            action_views(final(actions)@) == action_views(old(actions)@) + emitted(
                self@.state_event(state),
                closed,
            ),
    {
        self.emit(
            PeerEvent::State {
                session_id: self.session_id.clone(),
                state,
                muted: self.muted,
                detail: None,
            },
            closed,
            actions,
        );
    }

    fn end(&mut self, failure: Option<String>, closed: bool) -> (actions: Vec<SessionAction>)
        ensures
            (final(self)@, action_views(actions@)) == old(self)@.ended(
                text::opt_text(failure),
                closed,
            ),
    {
        let ghost before = self@;
        let mut actions: Vec<SessionAction> = Vec::new();
        let peer = self.holds_audio() && !matches!(self.phase, SessionPhase::CreatingPeer);
        if self.holds_audio() {
            actions.push(SessionAction::ReleaseAudio);
        }
        if peer {
            actions.push(SessionAction::ClosePeer);
        }
        let ghost released = action_views(actions@);
        if let Some(message) = failure {
            self.emit(
                PeerEvent::Closed {
                    session_id: self.session_id.clone(),
                    code: CloseCode::DeviceError,
                    message,
                },
                closed,
                &mut actions,
            );
        }
        let ghost reported = action_views(actions@);
        actions.push(SessionAction::Stop);
        self.phase = SessionPhase::Stopped;
        assert(action_views(actions@) =~= reported.push(SessionActionView::Stop));
        assert(action_views(actions@) =~= before.ended(text::opt_text(failure), closed).1);
        actions
    }

    fn only(action: SessionAction) -> (actions: Vec<SessionAction>)
        ensures
            action_views(actions@) == seq![action@],
    {
        let ghost content = action@;
        let mut actions: Vec<SessionAction> = Vec::new();
        actions.push(action);
        assert(action_views(actions@) =~= seq![content]);
        actions
    }

    fn waiting(actions: Vec<SessionAction>) -> (longer: Vec<SessionAction>)
        ensures
            action_views(longer@) == action_views(actions@) + seq![SessionActionView::Wait],
    {
        let mut longer = actions;
        longer.push(SessionAction::Wait);
        assert(action_views(longer@) =~= action_views(actions@) + seq![SessionActionView::Wait]);
        longer
    }

    fn failed_step(&self) -> (what: &'static str)
        ensures
            what@ == self@.failed_step(),
    {
        match self.phase {
            SessionPhase::CreatingPeer => "could not create the WebRTC peer",
            SessionPhase::AddingTrack => "could not add the microphone track",
            SessionPhase::CreatingChannel => "could not create the events channel",
            SessionPhase::CreatingOffer => "could not create the offer",
            SessionPhase::ApplyingOffer => "could not apply the offer",
            _ => "could not apply the answer",
        }
    }

    fn advance(&mut self, closed: bool) -> (actions: Vec<SessionAction>)
        ensures
            (final(self)@, action_views(actions@)) == old(self)@.advanced(closed),
    {
        match self.phase {
            SessionPhase::CreatingPeer => {
                self.phase = SessionPhase::AddingTrack;
                PeerSession::only(SessionAction::AddTrack)
            },
            SessionPhase::AddingTrack => {
                self.phase = SessionPhase::CreatingChannel;
                PeerSession::only(SessionAction::CreateChannel)
            },
            SessionPhase::CreatingChannel => {
                self.phase = SessionPhase::CreatingOffer;
                PeerSession::only(SessionAction::CreateOffer)
            },
            SessionPhase::CreatingOffer => {
                self.phase = SessionPhase::ApplyingOffer;
                PeerSession::only(SessionAction::ApplyOffer)
            },
            SessionPhase::ApplyingOffer => {
                self.phase = SessionPhase::Gathering;
                PeerSession::only(SessionAction::Gather)
            },
            _ => {
                self.phase = SessionPhase::Running;
                let mut actions: Vec<SessionAction> = Vec::new();
                assert(action_views(actions@) =~= Seq::empty());
                if !self.reported_connected {
                    self.state(MediaPeerState::Connecting, closed, &mut actions);
                    assert(action_views(actions@) =~= emitted(
                        self@.state_event(MediaPeerState::Connecting),
                        closed,
                    ));
                }
                PeerSession::waiting(actions)
            },
        }
    }

    fn settle(&mut self, closed: bool) -> (actions: Vec<SessionAction>)
        ensures
            (final(self)@, action_views(actions@)) == old(self)@.settled(closed),
    {
        if self.connected && self.channel_open && !self.reported_connected {
            self.reported_connected = true;
            let mut actions: Vec<SessionAction> = Vec::new();
            self.state(MediaPeerState::Connected, closed, &mut actions);
            assert(action_views(actions@) =~= emitted(
                self@.state_event(MediaPeerState::Connected),
                closed,
            ));
            PeerSession::waiting(actions)
        } else {
            PeerSession::only(SessionAction::Wait)
        }
    }

    /// Takes an event and says what to do next. `closed` tells whether the controller
    /// closed the peer: from then on nothing is reported to it.
    pub fn step(&mut self, event: SessionEvent, closed: bool) -> (actions: Vec<SessionAction>)
        requires
            old(self)@.expects(event@),
        ensures
            (final(self)@, action_views(actions@)) == old(self)@.next(event@, closed),
    {
        match event {
            SessionEvent::Cancelled => self.end(None, closed),
            SessionEvent::AudioOpened { failure, cancelled } => {
                match failure {
                    Some(message) => self.end(Some(message), closed),
                    None => {
                        self.phase = SessionPhase::CreatingPeer;
                        if cancelled {
                            self.end(None, closed)
                        } else {
                            PeerSession::only(SessionAction::CreatePeer)
                        }
                    },
                }
            },
            SessionEvent::Done { failure } => {
                match failure {
                    Some(error) => {
                        let mut message = self.failed_step().to_owned();
                        message.append(": ");
                        message.append(error.as_str());
                        self.end(Some(message), closed)
                    },
                    None => self.advance(closed),
                }
            },
            SessionEvent::Gathered => {
                self.phase = SessionPhase::Describing;
                PeerSession::only(SessionAction::Describe)
            },
            SessionEvent::Described { sdp } => {
                match sdp {
                    Some(sdp) => {
                        self.phase = SessionPhase::Running;
                        let mut actions: Vec<SessionAction> = Vec::new();
                        let event = PeerEvent::Offer { session_id: self.session_id.clone(), sdp };
                        let ghost content = event@;
                        self.emit(event, closed, &mut actions);
                        assert(action_views(actions@) =~= emitted(content, closed));
                        PeerSession::waiting(actions)
                    },
                    None => self.end(
                        Some("the peer has no local description".to_owned()),
                        closed,
                    ),
                }
            },
            SessionEvent::Answered { problem } => {
                match problem {
                    Some(error) => {
                        let mut message = "invalid answer: ".to_owned();
                        message.append(error.as_str());
                        self.end(Some(message), closed)
                    },
                    None => {
                        self.phase = SessionPhase::ApplyingAnswer;
                        PeerSession::only(SessionAction::ApplyAnswer)
                    },
                }
            },
            SessionEvent::Mute(muted) => {
                self.muted = muted;
                let state = if self.reported_connected {
                    MediaPeerState::Connected
                } else {
                    MediaPeerState::Connecting
                };
                let mut actions = PeerSession::only(SessionAction::SetMuted(muted));
                self.state(state, closed, &mut actions);
                PeerSession::waiting(actions)
            },
            SessionEvent::Close | SessionEvent::Silent => self.end(None, closed),
            SessionEvent::PeerState(state) => {
                match state {
                    ConnectionState::Connected => {
                        self.connected = true;
                        self.settle(closed)
                    },
                    ConnectionState::Failed => self.end(
                        Some("the WebRTC connection failed".to_owned()),
                        closed,
                    ),
                    ConnectionState::Other => self.settle(closed),
                }
            },
            SessionEvent::ChannelOpen => {
                self.channel_open = true;
                self.settle(closed)
            },
            SessionEvent::Fatal(message) => self.end(Some(message), closed),
        }
    }

    /// Reads the controller's remote answer and says what to do next: the answer is to be
    /// applied, or it is none and the session ends. An answer that is to be applied comes
    /// along; it holds what was read of the text, of which nothing more is stated.
    pub fn answer(&mut self, sdp: String, closed: bool) -> (answered: (
        Option<RTCSessionDescription>,
        Vec<SessionAction>,
    ))
        requires
            old(self)@.phase == SessionPhase::Running,
        ensures
            answered.0 is Some == answer_problem(sdp@) is None,
            (final(self)@, action_views(answered.1@)) == old(self)@.next(
                SessionEventView::Answered { problem: answer_problem(sdp@) },
                closed,
            ),
    {
        match parse_answer(sdp) {
            Ok(answer) => {
                let actions = self.step(SessionEvent::Answered { problem: None }, closed);
                (Some(answer), actions)
            },
            Err(error) => {
                let actions = self.step(SessionEvent::Answered { problem: Some(error) }, closed);
                (None, actions)
            },
        }
    }
}

/// A session is well-formed from its start on, and every step keeps it so.
pub proof fn law_wf_kept(session: SessionView, event: SessionEventView, closed: bool)
    requires
        session.wf(),
        session.expects(event),
    ensures
        session.next(event, closed).0.wf(),
{
}

/// The controller is told that a call is connected only when the connection
/// stands and the events channel is open.
pub proof fn law_connected_means_ready(
    session: SessionView,
    event: SessionEventView,
    closed: bool,
    i: int,
)
    requires
        session.wf(),
        session.expects(event),
        0 <= i < session.next(event, closed).1.len(),
        session.next(event, closed).1[i] matches SessionActionView::Emit(report)
            && report matches crate::media::controller::PeerEventView::State { state, .. }
            && state == MediaPeerState::Connected,
    ensures
        session.next(event, closed).0.connected,
        session.next(event, closed).0.channel_open,
{
}

/// An answer that cannot be read ends the session with the reason, unless the controller
/// closed it; one that can is applied.
pub proof fn law_bad_answer_ends_the_session(session: SessionView, sdp: Seq<char>)
    requires
        session.phase == SessionPhase::Running,
    ensures
        ({
            let (after, actions) = session.next(
                SessionEventView::Answered { problem: answer_problem(sdp) },
                false,
            );
            match answer_problem(sdp) {
                Some(error) => after.phase == SessionPhase::Stopped && actions == seq![
                    SessionActionView::ReleaseAudio,
                    SessionActionView::ClosePeer,
                    SessionActionView::Emit(
                        crate::media::controller::PeerEventView::Closed {
                            session_id: session.session_id,
                            code: CloseCode::DeviceError,
                            message: "invalid answer: "@ + error,
                        },
                    ),
                    SessionActionView::Stop,
                ],
                None => after.phase == SessionPhase::ApplyingAnswer && actions == seq![
                    SessionActionView::ApplyAnswer,
                ],
            }
        }),
{
    let (after, actions) = session.next(
        SessionEventView::Answered { problem: answer_problem(sdp) },
        false,
    );
    if let Some(error) = answer_problem(sdp) {
        assert(actions =~= seq![
            SessionActionView::ReleaseAudio,
            SessionActionView::ClosePeer,
            SessionActionView::Emit(
                crate::media::controller::PeerEventView::Closed {
                    session_id: session.session_id,
                    code: CloseCode::DeviceError,
                    message: "invalid answer: "@ + error,
                },
            ),
            SessionActionView::Stop,
        ]);
    }
}

/// A closed peer reports nothing more.
pub proof fn law_closed_peer_is_silent(session: SessionView, event: SessionEventView, i: int)
    requires
        session.expects(event),
        0 <= i < session.next(event, true).1.len(),
    ensures
        !(session.next(event, true).1[i] is Emit),
{
}

/// Devices that are open are released when the session stops, before the
/// connection is closed and before anything is reported.
pub proof fn law_devices_released(session: SessionView, event: SessionEventView, closed: bool)
    requires
        session.expects(event),
        session.holds_audio(),
        session.next(event, closed).0.phase == SessionPhase::Stopped,
    ensures
        session.next(event, closed).1.first() == SessionActionView::ReleaseAudio,
        session.next(event, closed).1.last() == SessionActionView::Stop,
{
}

/// A close that came while the devices opened releases them without any
/// negotiation.
pub proof fn law_late_close_starts_nothing(session: SessionView, closed: bool)
    requires
        session.phase == SessionPhase::OpeningAudio,
    ensures
        session.next(
            SessionEventView::AudioOpened { failure: None, cancelled: true },
            closed,
        ).1 == seq![SessionActionView::ReleaseAudio, SessionActionView::Stop],
{
    assert(session.next(
        SessionEventView::AudioOpened { failure: None, cancelled: true },
        closed,
    ).1 =~= seq![SessionActionView::ReleaseAudio, SessionActionView::Stop]);
}

/// A session that nothing disturbs is negotiated in order: the devices, the peer, the
/// microphone, the events channel, the offer, its candidates; and what the peer then describes
/// is the offer that the controller gets.
pub proof fn law_negotiation_is_in_order(session: SessionView, sdp: Seq<char>)
    requires
        session.phase == SessionPhase::OpeningAudio,
    ensures
        ({
            let done = SessionEventView::Done { failure: None };
            let (s1, a1) = session.next(
                SessionEventView::AudioOpened { failure: None, cancelled: false },
                false,
            );
            let (s2, a2) = s1.next(done, false);
            let (s3, a3) = s2.next(done, false);
            let (s4, a4) = s3.next(done, false);
            let (s5, a5) = s4.next(done, false);
            let (s6, a6) = s5.next(done, false);
            let (s7, a7) = s6.next(SessionEventView::Gathered, false);
            let (s8, a8) = s7.next(SessionEventView::Described { sdp: Some(sdp) }, false);
            &&& a1 == seq![SessionActionView::CreatePeer]
            &&& a2 == seq![SessionActionView::AddTrack]
            &&& a3 == seq![SessionActionView::CreateChannel]
            &&& a4 == seq![SessionActionView::CreateOffer]
            &&& a5 == seq![SessionActionView::ApplyOffer]
            &&& a6 == seq![SessionActionView::Gather]
            &&& a7 == seq![SessionActionView::Describe]
            &&& a8 == seq![
                SessionActionView::Emit(
                    crate::media::controller::PeerEventView::Offer {
                        session_id: session.session_id,
                        sdp,
                    },
                ),
                SessionActionView::Wait,
            ]
            &&& s8 == SessionView { phase: SessionPhase::Running, ..session }
        }),
{
    let s7 = SessionView { phase: SessionPhase::Describing, ..session };
    assert(s7.next(SessionEventView::Described { sdp: Some(sdp) }, false).1 =~= seq![
        SessionActionView::Emit(
            crate::media::controller::PeerEventView::Offer { session_id: session.session_id, sdp },
        ),
        SessionActionView::Wait,
    ]);
}

/// Muting does what it was asked for and reports it: the microphone is set to exactly that
/// state, the controller hears of it, and the connection is not touched.
pub proof fn law_mute_is_done_and_reported(session: SessionView, muted: bool)
    requires
        session.phase == SessionPhase::Running,
    ensures
        ({
            let (after, actions) = session.next(SessionEventView::Mute(muted), false);
            &&& after == SessionView { muted, ..session }
            &&& actions == seq![
                SessionActionView::SetMuted(muted),
                SessionActionView::Emit(
                    crate::media::controller::PeerEventView::State {
                        session_id: session.session_id,
                        state: if session.reported_connected {
                            MediaPeerState::Connected
                        } else {
                            MediaPeerState::Connecting
                        },
                        muted,
                        detail: None,
                    },
                ),
                SessionActionView::Wait,
            ]
        }),
{
    assert(session.next(SessionEventView::Mute(muted), false).1 =~= seq![
        SessionActionView::SetMuted(muted),
        SessionActionView::Emit(
            crate::media::controller::PeerEventView::State {
                session_id: session.session_id,
                state: if session.reported_connected {
                    MediaPeerState::Connected
                } else {
                    MediaPeerState::Connecting
                },
                muted,
                detail: None,
            },
        ),
        SessionActionView::Wait,
    ]);
}

/// Whichever of the connection and the events channel comes last, the controller then hears
/// once that the call is connected; until then, and after it, nothing is reported.
pub proof fn law_connection_is_reported_once(session: SessionView)
    requires
        session.phase == SessionPhase::Running,
        session.wf(),
    ensures
        ({
            let up = session.next(
                SessionEventView::PeerState(ConnectionState::Connected),
                false,
            );
            let open = session.next(SessionEventView::ChannelOpen, false);
            let other = session.next(SessionEventView::PeerState(ConnectionState::Other), false);
            let connected = seq![
                SessionActionView::Emit(
                    crate::media::controller::PeerEventView::State {
                        session_id: session.session_id,
                        state: MediaPeerState::Connected,
                        muted: session.muted,
                        detail: None,
                    },
                ),
                SessionActionView::Wait,
            ];
            let quiet = seq![SessionActionView::Wait];
            &&& up.0.connected && up.0.channel_open == session.channel_open
            &&& open.0.channel_open && open.0.connected == session.connected
            &&& up.0.phase == SessionPhase::Running && open.0.phase == SessionPhase::Running
            &&& session.channel_open && !session.connected ==> up.1 == connected
            &&& session.connected && !session.channel_open ==> open.1 == connected
            &&& !session.channel_open ==> up.1 == quiet
            &&& !session.connected ==> open.1 == quiet
            &&& session.connected && session.channel_open ==> up.1 == quiet && open.1 == quiet
            &&& other == (session, quiet)
        }),
{
    let connected = seq![
        SessionActionView::Emit(
            crate::media::controller::PeerEventView::State {
                session_id: session.session_id,
                state: MediaPeerState::Connected,
                muted: session.muted,
                detail: None,
            },
        ),
        SessionActionView::Wait,
    ];
    if session.channel_open && !session.connected {
        assert(session.next(SessionEventView::PeerState(ConnectionState::Connected), false).1
            =~= connected);
    }
    if session.connected && !session.channel_open {
        assert(session.next(SessionEventView::ChannelOpen, false).1 =~= connected);
    }
}

/// An answer that was applied makes the session wait again, and the controller hears that it
/// connects unless it is connected already.
pub proof fn law_applied_answer_connects(session: SessionView)
    requires
        session.phase == SessionPhase::ApplyingAnswer,
    ensures
        ({
            let (after, actions) = session.next(SessionEventView::Done { failure: None }, false);
            &&& after == SessionView { phase: SessionPhase::Running, ..session }
            &&& session.reported_connected ==> actions == seq![SessionActionView::Wait]
            &&& !session.reported_connected ==> actions == seq![
                SessionActionView::Emit(
                    crate::media::controller::PeerEventView::State {
                        session_id: session.session_id,
                        state: MediaPeerState::Connecting,
                        muted: session.muted,
                        detail: None,
                    },
                ),
                SessionActionView::Wait,
            ]
        }),
{
    let actions = session.next(SessionEventView::Done { failure: None }, false).1;
    if session.reported_connected {
        assert(actions =~= seq![SessionActionView::Wait]);
    } else {
        assert(actions =~= seq![
            SessionActionView::Emit(
                crate::media::controller::PeerEventView::State {
                    session_id: session.session_id,
                    state: MediaPeerState::Connecting,
                    muted: session.muted,
                    detail: None,
                },
            ),
            SessionActionView::Wait,
        ]);
    }
}

/// What goes wrong ends the session and is reported with its own words, and with the step
/// that failed; what the controller itself ends, or what ends without a fault, is not
/// reported.
pub proof fn law_failures_are_reported(session: SessionView, message: Seq<char>)
    ensures
        ({
            let failed = |text: Seq<char>|
                seq![
                    SessionActionView::Emit(
                        crate::media::controller::PeerEventView::Closed {
                            session_id: session.session_id,
                            code: CloseCode::DeviceError,
                            message: text,
                        },
                    ),
                    SessionActionView::Stop,
                ];
            let held = seq![SessionActionView::ReleaseAudio, SessionActionView::ClosePeer];
            let step = |phase: SessionPhase|
                SessionView { phase, ..session }.next(
                    SessionEventView::Done { failure: Some(message) },
                    false,
                ).1;
            let running = SessionView { phase: SessionPhase::Running, ..session };
            let stopped = SessionView { phase: SessionPhase::Stopped, ..session };
            &&& step(SessionPhase::CreatingPeer) == seq![SessionActionView::ReleaseAudio] + failed(
                "could not create the WebRTC peer"@ + ": "@ + message,
            )
            &&& step(SessionPhase::AddingTrack) == held + failed(
                "could not add the microphone track"@ + ": "@ + message,
            )
            &&& step(SessionPhase::CreatingChannel) == held + failed(
                "could not create the events channel"@ + ": "@ + message,
            )
            &&& step(SessionPhase::CreatingOffer) == held + failed(
                "could not create the offer"@ + ": "@ + message,
            )
            &&& step(SessionPhase::ApplyingOffer) == held + failed(
                "could not apply the offer"@ + ": "@ + message,
            )
            &&& step(SessionPhase::ApplyingAnswer) == held + failed(
                "could not apply the answer"@ + ": "@ + message,
            )
            &&& running.next(SessionEventView::Fatal(message), false) == (
                stopped,
                held + failed(message),
            )
            &&& running.next(SessionEventView::PeerState(ConnectionState::Failed), false) == (
                stopped,
                held + failed("the WebRTC connection failed"@),
            )
            &&& SessionView { phase: SessionPhase::Describing, ..session }.next(
                SessionEventView::Described { sdp: None },
                false,
            ) == (stopped, held + failed("the peer has no local description"@))
            &&& SessionView { phase: SessionPhase::OpeningAudio, ..session }.next(
                SessionEventView::AudioOpened { failure: Some(message), cancelled: false },
                false,
            ) == (stopped, failed(message))
            &&& running.next(SessionEventView::Close, false) == (
                stopped,
                held + seq![SessionActionView::Stop],
            )
            &&& running.next(SessionEventView::Silent, false) == (
                stopped,
                held + seq![SessionActionView::Stop],
            )
            &&& running.next(SessionEventView::Cancelled, false) == (
                stopped,
                held + seq![SessionActionView::Stop],
            )
        }),
{
    let failed = |text: Seq<char>|
        seq![
            SessionActionView::Emit(
                crate::media::controller::PeerEventView::Closed {
                    session_id: session.session_id,
                    code: CloseCode::DeviceError,
                    message: text,
                },
            ),
            SessionActionView::Stop,
        ];
    let held = seq![SessionActionView::ReleaseAudio, SessionActionView::ClosePeer];
    let step = |phase: SessionPhase|
        SessionView { phase, ..session }.next(
            SessionEventView::Done { failure: Some(message) },
            false,
        ).1;
    let running = SessionView { phase: SessionPhase::Running, ..session };
    assert(step(SessionPhase::CreatingPeer) =~= seq![SessionActionView::ReleaseAudio] + failed(
        "could not create the WebRTC peer"@ + ": "@ + message,
    ));
    assert(step(SessionPhase::AddingTrack) =~= held + failed(
        "could not add the microphone track"@ + ": "@ + message,
    ));
    assert(step(SessionPhase::CreatingChannel) =~= held + failed(
        "could not create the events channel"@ + ": "@ + message,
    ));
    assert(step(SessionPhase::CreatingOffer) =~= held + failed(
        "could not create the offer"@ + ": "@ + message,
    ));
    assert(step(SessionPhase::ApplyingOffer) =~= held + failed(
        "could not apply the offer"@ + ": "@ + message,
    ));
    assert(step(SessionPhase::ApplyingAnswer) =~= held + failed(
        "could not apply the answer"@ + ": "@ + message,
    ));
    assert(running.next(SessionEventView::Fatal(message), false).1 =~= held + failed(message));
    assert(running.next(SessionEventView::PeerState(ConnectionState::Failed), false).1 =~= held
        + failed("the WebRTC connection failed"@));
    assert(SessionView { phase: SessionPhase::Describing, ..session }.next(
        SessionEventView::Described { sdp: None },
        false,
    ).1 =~= held + failed("the peer has no local description"@));
    assert(SessionView { phase: SessionPhase::OpeningAudio, ..session }.next(
        SessionEventView::AudioOpened { failure: Some(message), cancelled: false },
        false,
    ).1 =~= failed(message));
    assert(running.next(SessionEventView::Close, false).1 =~= held + seq![
        SessionActionView::Stop,
    ]);
    assert(running.next(SessionEventView::Silent, false).1 =~= held + seq![
        SessionActionView::Stop,
    ]);
    assert(running.next(SessionEventView::Cancelled, false).1 =~= held + seq![
        SessionActionView::Stop,
    ]);
}

} // verus!
