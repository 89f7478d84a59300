//! The bridge between the server and the guest, from the attachment to the end.
//!
//! The pane client's main thread polls, receives and writes; after each of these
//! [`PaneBridge::step`] takes the outcome and says what to do next.
use crate::bytes::append_slice;
use crate::omp_pane::record::{BridgeMessage, OmpRoute};
use crate::text;
use vstd::prelude::*;
use vstd::string::StringExecFns;

verus! {

/// How many messages may wait for the guest.
pub const SERVER_TO_GUEST_QUEUE_CAPACITY: usize = 64;

/// A message from the server, as far as the bridge reads it.
#[derive(Debug, Clone, PartialEq, Eq)]
pub enum ServerMessage {
    /// A frame for the guest.
    OmpFrame { route: OmpRoute, attachment_epoch: u64, frame: Vec<u8> },
    /// The state of a pane; `failed` tells whether its host is gone.
    OmpPane { route: OmpRoute, attachment_epoch: u64, controller: bool, failed: bool },
    OmpError { code: String, message: String },
    ServerShutdown { reason: Option<String> },
    Other,
}

/// The content of a server message.
pub enum ServerMessageView {
    OmpFrame {
        route: crate::omp_pane::record::RouteView,
        attachment_epoch: u64,
        frame: Seq<u8>,
    },
    OmpPane {
        route: crate::omp_pane::record::RouteView,
        attachment_epoch: u64,
        controller: bool,
        failed: bool,
    },
    OmpError { code: Seq<char>, message: Seq<char> },
    ServerShutdown { reason: Option<Seq<char>> },
    Other,
}

impl View for ServerMessage {
    type V = ServerMessageView;

    open spec fn view(&self) -> ServerMessageView {
        match self {
            ServerMessage::OmpFrame { route, attachment_epoch, frame } => {
                ServerMessageView::OmpFrame {
                    route: route@,
                    attachment_epoch: *attachment_epoch,
                    frame: frame@,
                }
            },
            ServerMessage::OmpPane { route, attachment_epoch, controller, failed } => {
                ServerMessageView::OmpPane {
                    route: route@,
                    attachment_epoch: *attachment_epoch,
                    controller: *controller,
                    failed: *failed,
                }
            },
            ServerMessage::OmpError { code, message } => ServerMessageView::OmpError {
                code: code@,
                message: message@,
            },
            ServerMessage::ServerShutdown { reason } => ServerMessageView::ServerShutdown {
                reason: text::opt_text(*reason),
            },
            ServerMessage::Other => ServerMessageView::Other,
        }
    }
}

/// What the server answers to the request to attach.
#[derive(Debug, Clone, PartialEq, Eq)]
pub enum AttachReply {
    Attached { attachment_epoch: u64, controller: bool },
    Refused(String),
    /// Some other message; the answer is still to come.
    Unrelated,
}

/// The content of an answer.
pub enum AttachReplyView {
    Attached { attachment_epoch: u64, controller: bool },
    Refused(Seq<char>),
    Unrelated,
}

impl View for AttachReply {
    type V = AttachReplyView;

    open spec fn view(&self) -> AttachReplyView {
        match self {
            AttachReply::Attached { attachment_epoch, controller } => AttachReplyView::Attached {
                attachment_epoch: *attachment_epoch,
                controller: *controller,
            },
            AttachReply::Refused(message) => AttachReplyView::Refused(message@),
            AttachReply::Unrelated => AttachReplyView::Unrelated,
        }
    }
}

/// What a message answers to the request to attach to a route.
pub open spec fn attach_answer(
    route: crate::omp_pane::record::RouteView,
    message: ServerMessageView,
) -> AttachReplyView {
    match message {
        ServerMessageView::OmpPane { route: attached, attachment_epoch, controller, .. } => {
            if attached == route {
                AttachReplyView::Attached { attachment_epoch, controller }
            } else {
                AttachReplyView::Unrelated
            }
        },
        ServerMessageView::OmpError { code, message } => AttachReplyView::Refused(
            code + ": "@ + message,
        ),
        _ => AttachReplyView::Unrelated,
    }
}

/// Reads the answer to the request to attach.
pub fn attach_reply(route: &OmpRoute, message: &ServerMessage) -> (reply: AttachReply)
    ensures
        reply@ == attach_answer(route@, message@),
{
    match message {
        ServerMessage::OmpPane { route: attached, attachment_epoch, controller, .. } => {
            if attached.same(route) {
                AttachReply::Attached {
                    attachment_epoch: *attachment_epoch,
                    controller: *controller,
                }
            } else {
                AttachReply::Unrelated
            }
        },
        ServerMessage::OmpError { code, message } => {
            let mut text = code.clone();
            text.append(": ");
            text.append(message.as_str());
            AttachReply::Refused(text)
        },
        _ => AttachReply::Unrelated,
    }
}

/// Whether the reader of the server goes on after it tried to queue a message for the
/// guest: a queue that is full or gone closes both sides.
pub fn send_to_guest_or_fail_close(queued: bool) -> (step: QueueStep)
    ensures
        step == (if queued {
            QueueStep::Continue
        } else {
            QueueStep::FailClose
        }),
{
    if queued {
        QueueStep::Continue
    } else {
        QueueStep::FailClose
    }
}

#[derive(Debug, Clone, Copy, PartialEq, Eq, Structural)]
pub enum QueueStep {
    Continue,
    /// Shut the server's and the guest's connection down, and stop.
    FailClose,
}

/// What the bridge waits for.
#[derive(Debug, Clone, Copy, PartialEq, Eq, Structural)]
pub enum BridgePhase {
    PollingWorker,
    PollingChild,
    Receiving,
    Validating,
    Writing,
    Joining,
    Over,
}

/// What happened.
#[derive(Debug, Clone, PartialEq, Eq)]
pub enum BridgeEvent {
    /// The guest's forwarder still runs.
    WorkerRunning,
    /// The forwarder ended, perhaps with an error.
    WorkerFinished { error: Option<String> },
    ChildRunning,
    ChildExited,
    /// The guest's process could not be asked.
    ChildUnknown { error: String },
    Message(ServerMessage),
    /// No message came in time.
    Idle,
    /// The reader of the server is gone.
    Disconnected,
    /// The payload of the frame, or why it is none.
    Validated { payload: Vec<u8> },
    Invalid { error: String },
    /// The guest was written to, perhaps in vain.
    Written { error: Option<String> },
    /// The forwarder was stopped. Its error counts if it still had to be joined.
    Joined { error: Option<String> },
}

/// What to do next.
#[derive(Debug, Clone, PartialEq, Eq)]
pub enum BridgeAction {
    PollWorker,
    PollChild,
    Receive,
    /// Take the payload out of a frame for the guest.
    Validate { frame: Vec<u8> },
    /// Write to the guest.
    Write { line: Vec<u8> },
    /// Tell the user.
    Report(String),
    /// Interrupt the forwarder and wait for it.
    StopWorker,
    /// Tell the server, if it still listens.
    Send(BridgeMessage),
    /// Close the connections, end the guest and join the reader.
    Close,
    /// The client ends, perhaps with an error.
    Finish { error: Option<String> },
}

/// The content of an event.
pub enum BridgeEventView {
    WorkerRunning,
    WorkerFinished { error: Option<Seq<char>> },
    ChildRunning,
    ChildExited,
    ChildUnknown { error: Seq<char> },
    Message(ServerMessageView),
    Idle,
    Disconnected,
    Validated { payload: Seq<u8> },
    Invalid { error: Seq<char> },
    Written { error: Option<Seq<char>> },
    Joined { error: Option<Seq<char>> },
}

impl View for BridgeEvent {
    type V = BridgeEventView;

    open spec fn view(&self) -> BridgeEventView {
        match self {
            BridgeEvent::WorkerRunning => BridgeEventView::WorkerRunning,
            BridgeEvent::WorkerFinished { error } => BridgeEventView::WorkerFinished {
                error: text::opt_text(*error),
            },
            BridgeEvent::ChildRunning => BridgeEventView::ChildRunning,
            BridgeEvent::ChildExited => BridgeEventView::ChildExited,
            BridgeEvent::ChildUnknown { error } => BridgeEventView::ChildUnknown {
                error: error@,
            },
            BridgeEvent::Message(message) => BridgeEventView::Message(message@),
            BridgeEvent::Idle => BridgeEventView::Idle,
            BridgeEvent::Disconnected => BridgeEventView::Disconnected,
            BridgeEvent::Validated { payload } => BridgeEventView::Validated {
                payload: payload@,
            },
            BridgeEvent::Invalid { error } => BridgeEventView::Invalid { error: error@ },
            BridgeEvent::Written { error } => BridgeEventView::Written {
                error: text::opt_text(*error),
            },
            BridgeEvent::Joined { error } => BridgeEventView::Joined {
                error: text::opt_text(*error),
            },
        }
    }
}

/// The content of an action.
pub enum BridgeActionView {
    PollWorker,
    PollChild,
    Receive,
    Validate { frame: Seq<u8> },
    Write { line: Seq<u8> },
    Report(Seq<char>),
    StopWorker,
    Send(crate::omp_pane::record::BridgeMessageView),
    Close,
    Finish { error: Option<Seq<char>> },
}

impl View for BridgeAction {
    type V = BridgeActionView;

    open spec fn view(&self) -> BridgeActionView {
        match self {
            BridgeAction::PollWorker => BridgeActionView::PollWorker,
            BridgeAction::PollChild => BridgeActionView::PollChild,
            BridgeAction::Receive => BridgeActionView::Receive,
            BridgeAction::Validate { frame } => BridgeActionView::Validate { frame: frame@ },
            BridgeAction::Write { line } => BridgeActionView::Write { line: line@ },
            BridgeAction::Report(message) => BridgeActionView::Report(message@),
            BridgeAction::StopWorker => BridgeActionView::StopWorker,
            BridgeAction::Send(message) => BridgeActionView::Send(message@),
            BridgeAction::Close => BridgeActionView::Close,
            BridgeAction::Finish { error } => BridgeActionView::Finish {
                error: text::opt_text(*error),
            },
        }
    }
}

pub open spec fn action_views(actions: Seq<BridgeAction>) -> Seq<BridgeActionView> {
    Seq::new(actions.len(), |i: int| actions[i]@)
}

/// The line that carries a payload to the guest.
pub open spec fn guest_line(payload: Seq<u8>) -> Seq<u8> {
    crate::bytes::utf8("{\"t\":\"frame\",\"fromPeer\":0,\"frame\":") + payload
        + crate::bytes::utf8("}\n")
}

/// The line that carries a payload to the guest.
pub fn frame_line(payload: &[u8]) -> (line: Vec<u8>)
    ensures
        line@ == guest_line(payload@),
{
    let mut line: Vec<u8> = Vec::new();
    append_slice(&mut line, "{\"t\":\"frame\",\"fromPeer\":0,\"frame\":".as_bytes());
    append_slice(&mut line, payload);
    append_slice(&mut line, "}\n".as_bytes());
    assert(line@ =~= guest_line(payload@));
    line
}

/// What the user is told when the server stops.
pub open spec fn shutdown_report(reason: Option<Seq<char>>) -> Seq<char> {
    "herdr server stopped"@ + match reason {
        Some(reason) => ": "@ + reason,
        None => Seq::empty(),
    }
}

/// The bridge's state.
pub struct BridgeView {
    pub route: crate::omp_pane::record::RouteView,
    pub attachment_epoch: u64,
    pub phase: BridgePhase,
    /// The first error of the guest's forwarder.
    pub forward_error: Option<Seq<char>>,
    /// The error that ended the loop.
    pub loop_error: Option<Seq<char>>,
}

impl BridgeView {
    pub open spec fn to(self, phase: BridgePhase) -> BridgeView {
        BridgeView { phase, ..self }
    }

    /// The loop ends: the forwarder is stopped first, so that what it is sending goes
    /// out before the farewell.
    pub open spec fn left(self, error: Option<Seq<char>>) -> (BridgeView, Seq<BridgeActionView>) {
        (
            BridgeView { loop_error: error, ..self.to(BridgePhase::Joining) },
            seq![BridgeActionView::StopWorker],
        )
    }

    /// The next round.
    pub open spec fn again(self) -> (BridgeView, Seq<BridgeActionView>) {
        (self.to(BridgePhase::PollingWorker), seq![BridgeActionView::PollWorker])
    }

    /// What an event may be, in this phase.
    pub open spec fn expects(self, event: BridgeEventView) -> bool {
        match event {
            BridgeEventView::WorkerRunning | BridgeEventView::WorkerFinished { .. } => self.phase
                == BridgePhase::PollingWorker,
            BridgeEventView::ChildRunning
            | BridgeEventView::ChildExited
            | BridgeEventView::ChildUnknown { .. } => self.phase == BridgePhase::PollingChild,
            BridgeEventView::Message(_)
            | BridgeEventView::Idle
            | BridgeEventView::Disconnected => self.phase == BridgePhase::Receiving,
            BridgeEventView::Validated { .. } | BridgeEventView::Invalid { .. } => self.phase
                == BridgePhase::Validating,
            BridgeEventView::Written { .. } => self.phase == BridgePhase::Writing,
            BridgeEventView::Joined { .. } => self.phase == BridgePhase::Joining,
        }
    }

    pub open spec fn received(self, message: ServerMessageView) -> (
        BridgeView,
        Seq<BridgeActionView>,
    ) {
        match message {
            ServerMessageView::OmpFrame { route, attachment_epoch, frame } => if route
                == self.route && attachment_epoch == self.attachment_epoch {
                (
                    self.to(BridgePhase::Validating),
                    seq![BridgeActionView::Validate { frame }],
                )
            } else {
                self.again()
            },
            ServerMessageView::OmpPane { route, attachment_epoch, failed, .. } => if route
                == self.route {
                let updated = BridgeView { attachment_epoch, ..self };
                if failed {
                    let (ended, actions) = updated.left(None);
                    (
                        ended,
                        seq![BridgeActionView::Report("herdr OMP: host unavailable"@)] + actions,
                    )
                } else {
                    updated.again()
                }
            } else {
                self.again()
            },
            ServerMessageView::OmpError { code, message } => {
                let (next, actions) = self.again();
                (
                    next,
                    seq![BridgeActionView::Report("herdr OMP: "@ + code + ": "@ + message)]
                        + actions,
                )
            },
            ServerMessageView::ServerShutdown { reason } => {
                let (ended, actions) = self.left(None);
                (ended, seq![BridgeActionView::Report(shutdown_report(reason))] + actions)
            },
            ServerMessageView::Other => self.again(),
        }
    }

    /// The farewell to the server, and the result.
    pub open spec fn ended(self) -> (BridgeView, Seq<BridgeActionView>) {
        (
            self.to(BridgePhase::Over),
            seq![
                BridgeActionView::Send(
                    crate::omp_pane::record::BridgeMessageView::OmpPaneDetach {
                        route: self.route,
                        attachment_epoch: self.attachment_epoch,
                    },
                ),
                BridgeActionView::Send(crate::omp_pane::record::BridgeMessageView::Detach),
                BridgeActionView::Close,
                BridgeActionView::Finish {
                    error: if self.loop_error is Some {
                        self.loop_error
                    } else {
                        self.forward_error
                    },
                },
            ],
        )
    }

    pub open spec fn next(self, event: BridgeEventView) -> (BridgeView, Seq<BridgeActionView>) {
        match event {
            BridgeEventView::WorkerRunning => (
                self.to(BridgePhase::PollingChild),
                seq![BridgeActionView::PollChild],
            ),
            BridgeEventView::WorkerFinished { error } => BridgeView {
                forward_error: error,
                ..self
            }.left(None),
            BridgeEventView::ChildRunning => (
                self.to(BridgePhase::Receiving),
                seq![BridgeActionView::Receive],
            ),
            BridgeEventView::ChildExited => self.left(None),
            BridgeEventView::ChildUnknown { error } => self.left(Some(error)),
            BridgeEventView::Message(message) => self.received(message),
            BridgeEventView::Idle => self.again(),
            BridgeEventView::Disconnected => self.left(None),
            BridgeEventView::Validated { payload } => (
                self.to(BridgePhase::Writing),
                seq![BridgeActionView::Write { line: guest_line(payload) }],
            ),
            BridgeEventView::Invalid { error } => self.left(Some(error)),
            BridgeEventView::Written { error } => match error {
                Some(error) => self.left(Some(error)),
                None => self.again(),
            },
            BridgeEventView::Joined { error } => BridgeView {
                forward_error: if self.forward_error is Some {
                    self.forward_error
                } else {
                    error
                },
                ..self
            }.ended(),
        }
    }
}

/// The bridge of an attached pane.
pub struct PaneBridge {
    route: OmpRoute,
    attachment_epoch: u64,
    phase: BridgePhase,
    forward_error: Option<String>,
    loop_error: Option<String>,
}

impl View for PaneBridge {
    type V = BridgeView;

    closed spec fn view(&self) -> BridgeView {
        BridgeView {
            route: self.route@,
            attachment_epoch: self.attachment_epoch,
            phase: self.phase,
            forward_error: text::opt_text(self.forward_error),
            loop_error: text::opt_text(self.loop_error),
        }
    }
}

impl PaneBridge {
    /// A bridge for an attachment; its forwarder is looked at first.
    pub fn new(route: OmpRoute, attachment_epoch: u64) -> (bridge: Self)
        ensures
            bridge@ == (BridgeView {
                route: route@,
                attachment_epoch,
                phase: BridgePhase::PollingWorker,
                forward_error: None,
                loop_error: None,
            }),
    {
        PaneBridge {
            route,
            attachment_epoch,
            phase: BridgePhase::PollingWorker,
            forward_error: None,
            loop_error: None,
        }
    }

    /// The epoch of the attachment, for what the guest sends.
    pub fn attachment_epoch(&self) -> (epoch: u64)
        ensures
            epoch == self@.attachment_epoch,
    {
        self.attachment_epoch
    }

    fn only(action: BridgeAction) -> (actions: Vec<BridgeAction>)
        ensures
            action_views(actions@) == seq![action@],
    {
        let ghost content = action@;
        let mut actions: Vec<BridgeAction> = Vec::new();
        actions.push(action);
        assert(action_views(actions@) =~= seq![content]);
        actions
    }

    fn reporting(message: String, next: BridgeAction) -> (actions: Vec<BridgeAction>)
        ensures
            action_views(actions@) == seq![BridgeActionView::Report(message@)] + seq![next@],
    {
        let ghost content = next@;
        let ghost told = message@;
        let mut actions: Vec<BridgeAction> = Vec::new();
        actions.push(BridgeAction::Report(message));
        actions.push(next);
        assert(action_views(actions@) =~= seq![BridgeActionView::Report(told)] + seq![content]);
        actions
    }

    fn leave(&mut self, error: Option<String>) -> (actions: Vec<BridgeAction>)
        ensures
            (final(self)@, action_views(actions@)) == old(self)@.left(text::opt_text(error)),
    {
        self.loop_error = error;
        self.phase = BridgePhase::Joining;
        PaneBridge::only(BridgeAction::StopWorker)
    }

    fn again(&mut self) -> (actions: Vec<BridgeAction>)
        ensures
            (final(self)@, action_views(actions@)) == old(self)@.again(),
    {
        self.phase = BridgePhase::PollingWorker;
        PaneBridge::only(BridgeAction::PollWorker)
    }

    fn receive(&mut self, message: ServerMessage) -> (actions: Vec<BridgeAction>)
        ensures
            (final(self)@, action_views(actions@)) == old(self)@.received(message@),
    {
        match message {
            ServerMessage::OmpFrame { route, attachment_epoch, frame } => {
                if route.same(&self.route) && attachment_epoch == self.attachment_epoch {
                    self.phase = BridgePhase::Validating;
                    PaneBridge::only(BridgeAction::Validate { frame })
                } else {
                    self.again()
                }
            },
            ServerMessage::OmpPane { route, attachment_epoch, failed, .. } => {
                if route.same(&self.route) {
                    self.attachment_epoch = attachment_epoch;
                    if failed {
                        let _ = self.leave(None);
                        PaneBridge::reporting(
                            "herdr OMP: host unavailable".to_owned(),
                            BridgeAction::StopWorker,
                        )
                    } else {
                        self.again()
                    }
                } else {
                    self.again()
                }
            },
            ServerMessage::OmpError { code, message } => {
                let mut report = "herdr OMP: ".to_owned();
                report.append(code.as_str());
                report.append(": ");
                report.append(message.as_str());
                let _ = self.again();
                PaneBridge::reporting(report, BridgeAction::PollWorker)
            },
            ServerMessage::ServerShutdown { reason } => {
                let mut report = "herdr server stopped".to_owned();
                if let Some(reason) = &reason {
                    report.append(": ");
                    report.append(reason.as_str());
                }
                assert(report@ =~= shutdown_report(text::opt_text(reason)));
                let _ = self.leave(None);
                PaneBridge::reporting(report, BridgeAction::StopWorker)
            },
            ServerMessage::Other => self.again(),
        }
    }

    fn end(&mut self) -> (actions: Vec<BridgeAction>)
        ensures
            (final(self)@, action_views(actions@)) == old(self)@.ended(),
    {
        let ghost before = self@;
        self.phase = BridgePhase::Over;
        let error = match &self.loop_error {
            Some(error) => Some(error.clone()),
            None => match &self.forward_error {
                Some(error) => Some(error.clone()),
                None => None,
            },
        };
        let mut actions: Vec<BridgeAction> = Vec::new();
        actions.push(
            BridgeAction::Send(
                BridgeMessage::OmpPaneDetach {
                    route: self.route.duplicate(),
                    attachment_epoch: self.attachment_epoch,
                },
            ),
        );
        actions.push(BridgeAction::Send(BridgeMessage::Detach));
        actions.push(BridgeAction::Close);
        actions.push(BridgeAction::Finish { error });
        assert(action_views(actions@) =~= before.ended().1);
        actions
    }

    /// Takes an event and says what to do next.
    pub fn step(&mut self, event: BridgeEvent) -> (actions: Vec<BridgeAction>)
        requires
            old(self)@.expects(event@),
        ensures
            (final(self)@, action_views(actions@)) == old(self)@.next(event@),
    {
        match event {
            BridgeEvent::WorkerRunning => {
                self.phase = BridgePhase::PollingChild;
                PaneBridge::only(BridgeAction::PollChild)
            },
            BridgeEvent::WorkerFinished { error } => {
                self.forward_error = error;
                self.leave(None)
            },
            BridgeEvent::ChildRunning => {
                self.phase = BridgePhase::Receiving;
                PaneBridge::only(BridgeAction::Receive)
            },
            BridgeEvent::ChildExited => self.leave(None),
            BridgeEvent::ChildUnknown { error } => self.leave(Some(error)),
            BridgeEvent::Message(message) => self.receive(message),
            BridgeEvent::Idle => self.again(),
            BridgeEvent::Disconnected => self.leave(None),
            BridgeEvent::Validated { payload } => {
                self.phase = BridgePhase::Writing;
                PaneBridge::only(BridgeAction::Write { line: frame_line(payload.as_slice()) })
            },
            BridgeEvent::Invalid { error } => self.leave(Some(error)),
            BridgeEvent::Written { error } => {
                match error {
                    Some(error) => self.leave(Some(error)),
                    None => self.again(),
                }
            },
            BridgeEvent::Joined { error } => {
                if self.forward_error.is_none() {
                    self.forward_error = error;
                }
                self.end()
            },
        }
    }
}

/// A frame reaches the guest only if it is for this pane, session, generation and
/// attachment: any other leaves the bridge as it was.
pub proof fn law_foreign_frames_dropped(
    bridge: BridgeView,
    route: crate::omp_pane::record::RouteView,
    attachment_epoch: u64,
    frame: Seq<u8>,
)
    requires
        bridge.phase == BridgePhase::Receiving,
        route != bridge.route || attachment_epoch != bridge.attachment_epoch,
    ensures
        bridge.next(
            BridgeEventView::Message(
                ServerMessageView::OmpFrame { route, attachment_epoch, frame },
            ),
        ) == bridge.again(),
{
}

/// What ended the bridge is not hidden: the client ends with the loop's error if
/// there is one, else with the first error of the forwarder; and without an error
/// only if neither had one.
pub proof fn law_errors_come_out(bridge: BridgeView, error: Option<Seq<char>>)
    requires
        bridge.phase == BridgePhase::Joining,
    ensures
        bridge.next(BridgeEventView::Joined { error }).1.last() == (BridgeActionView::Finish {
            error: if bridge.loop_error is Some {
                bridge.loop_error
            } else if bridge.forward_error is Some {
                bridge.forward_error
            } else {
                error
            },
        }),
{
}

/// The farewell comes after the forwarder was stopped, and names the last epoch
/// that the server gave.
pub proof fn law_farewell_names_the_last_epoch(
    bridge: BridgeView,
    attachment_epoch: u64,
    controller: bool,
    error: Option<Seq<char>>,
)
    requires
        bridge.phase == BridgePhase::Receiving,
    ensures
        ({
            let ended = bridge.next(
                BridgeEventView::Message(
                    ServerMessageView::OmpPane {
                        route: bridge.route,
                        attachment_epoch,
                        controller,
                        failed: true,
                    },
                ),
            );
            &&& ended.0.phase == BridgePhase::Joining
            &&& ended.1.last() == BridgeActionView::StopWorker
            &&& ended.0.next(BridgeEventView::Joined { error }).1.first()
                == BridgeActionView::Send(
                crate::omp_pane::record::BridgeMessageView::OmpPaneDetach {
                    route: bridge.route,
                    attachment_epoch,
                },
            )
        }),
{
}

/// A pane update that reports no failure never ends the bridge: it goes on with its next
/// round, with the epoch of the update where that is for its own pane.
pub proof fn law_pane_update_keeps_the_bridge(
    bridge: BridgeView,
    route: crate::omp_pane::record::RouteView,
    attachment_epoch: u64,
    controller: bool,
)
    requires
        bridge.phase == BridgePhase::Receiving,
    ensures
        ({
            let (next, actions) = bridge.next(
                BridgeEventView::Message(
                    ServerMessageView::OmpPane {
                        route,
                        attachment_epoch,
                        controller,
                        failed: false,
                    },
                ),
            );
            &&& next.phase == BridgePhase::PollingWorker
            &&& actions == seq![BridgeActionView::PollWorker]
            &&& next.loop_error == bridge.loop_error
            &&& next.forward_error == bridge.forward_error
            &&& next.route == bridge.route
            &&& route == bridge.route ==> next.attachment_epoch == attachment_epoch
            &&& route != bridge.route ==> next.attachment_epoch == bridge.attachment_epoch
        }),
{
}

/// The failure of another pane's host does not concern the bridge either; that of its own
/// ends it, and the user is told.
pub proof fn law_only_its_own_host_ends_the_bridge(
    bridge: BridgeView,
    route: crate::omp_pane::record::RouteView,
    attachment_epoch: u64,
    controller: bool,
)
    requires
        bridge.phase == BridgePhase::Receiving,
    ensures
        ({
            let (next, actions) = bridge.next(
                BridgeEventView::Message(
                    ServerMessageView::OmpPane {
                        route,
                        attachment_epoch,
                        controller,
                        failed: true,
                    },
                ),
            );
            &&& route != bridge.route ==> next.phase == BridgePhase::PollingWorker && actions
                == seq![BridgeActionView::PollWorker] && next.attachment_epoch
                == bridge.attachment_epoch
            &&& route == bridge.route ==> next.phase == BridgePhase::Joining && actions == seq![
                BridgeActionView::Report("herdr OMP: host unavailable"@),
                BridgeActionView::StopWorker,
            ] && next.loop_error is None
        }),
{
}

/// A frame for this attachment reaches the guest as a line of its own, with the payload
/// inside, and the bridge then goes on unchanged.
pub proof fn law_own_frames_reach_the_guest(bridge: BridgeView, frame: Seq<u8>, payload: Seq<u8>)
    requires
        bridge.phase == BridgePhase::Receiving,
    ensures
        ({
            let (validating, first) = bridge.next(
                BridgeEventView::Message(
                    ServerMessageView::OmpFrame {
                        route: bridge.route,
                        attachment_epoch: bridge.attachment_epoch,
                        frame,
                    },
                ),
            );
            let (writing, second) = validating.next(BridgeEventView::Validated { payload });
            let (done, third) = writing.next(BridgeEventView::Written { error: None });
            &&& validating.phase == BridgePhase::Validating
            &&& first == seq![BridgeActionView::Validate { frame }]
            &&& writing.phase == BridgePhase::Writing
            &&& second == seq![
                BridgeActionView::Write {
                    line: crate::bytes::utf8("{\"t\":\"frame\",\"fromPeer\":0,\"frame\":")
                        + payload + crate::bytes::utf8("}\n"),
                },
            ]
            &&& done == BridgeView { phase: BridgePhase::PollingWorker, ..bridge }
            &&& third == seq![BridgeActionView::PollWorker]
        }),
{
}

/// While nothing happens the bridge goes round: it looks at the forwarder, at the guest and
/// at the server in turn, and nothing else of it changes.
pub proof fn law_quiet_bridge_goes_round(bridge: BridgeView)
    requires
        bridge.phase == BridgePhase::PollingWorker,
    ensures
        ({
            let (asking, first) = bridge.next(BridgeEventView::WorkerRunning);
            let (receiving, second) = asking.next(BridgeEventView::ChildRunning);
            let (round, third) = receiving.next(BridgeEventView::Idle);
            let (other, fourth) = receiving.next(
                BridgeEventView::Message(ServerMessageView::Other),
            );
            &&& asking.phase == BridgePhase::PollingChild && first == seq![
                BridgeActionView::PollChild,
            ]
            &&& receiving.phase == BridgePhase::Receiving && second == seq![
                BridgeActionView::Receive,
            ]
            &&& round == bridge && third == seq![BridgeActionView::PollWorker]
            &&& other == bridge && fourth == seq![BridgeActionView::PollWorker]
        }),
{
}

/// An error that the server reports is shown, and the bridge goes on as it was.
pub proof fn law_reported_errors_do_not_end_the_bridge(
    bridge: BridgeView,
    code: Seq<char>,
    message: Seq<char>,
)
    requires
        bridge.phase == BridgePhase::Receiving,
    ensures
        ({
            let (next, actions) = bridge.next(
                BridgeEventView::Message(ServerMessageView::OmpError { code, message }),
            );
            &&& next == BridgeView { phase: BridgePhase::PollingWorker, ..bridge }
            &&& actions == seq![
                BridgeActionView::Report("herdr OMP: "@ + code + ": "@ + message),
                BridgeActionView::PollWorker,
            ]
        }),
{
}

/// Whatever ends the bridge stops the forwarder and nothing else yet. An end in order, of the
/// guest, the forwarder or the server, is no error of the loop; a guest that cannot be asked,
/// a frame that is none and a write that failed are, with their own text.
pub proof fn law_every_end_stops_the_forwarder(
    bridge: BridgeView,
    error: Seq<char>,
    forwarder: Option<Seq<char>>,
    reason: Option<Seq<char>>,
)
    ensures
        ({
            let stopped = BridgeView { phase: BridgePhase::Joining, loop_error: None, ..bridge };
            let failed = BridgeView {
                phase: BridgePhase::Joining,
                loop_error: Some(error),
                ..bridge
            };
            let stop = seq![BridgeActionView::StopWorker];
            &&& bridge.next(BridgeEventView::ChildExited) == (stopped, stop)
            &&& bridge.next(BridgeEventView::Disconnected) == (stopped, stop)
            &&& bridge.next(BridgeEventView::WorkerFinished { error: forwarder }) == (
                BridgeView { forward_error: forwarder, ..stopped },
                stop,
            )
            &&& bridge.next(BridgeEventView::ChildUnknown { error }) == (failed, stop)
            &&& bridge.next(BridgeEventView::Invalid { error }) == (failed, stop)
            &&& bridge.next(BridgeEventView::Written { error: Some(error) }) == (failed, stop)
            &&& bridge.next(
                BridgeEventView::Message(ServerMessageView::ServerShutdown { reason }),
            ).0 == stopped
            &&& bridge.next(
                BridgeEventView::Message(ServerMessageView::ServerShutdown { reason }),
            ).1 == seq![
                BridgeActionView::Report(
                    match reason {
                        Some(reason) => "herdr server stopped"@ + (": "@ + reason),
                        None => "herdr server stopped"@,
                    },
                ),
                BridgeActionView::StopWorker,
            ]
        }),
{
    if reason is None {
        assert("herdr server stopped"@ + Seq::<char>::empty() =~= "herdr server stopped"@);
    }
}

/// The end is complete and in order: the server hears of the pane and of the client, then the
/// connections are closed, then the client ends.
pub proof fn law_end_is_in_order(bridge: BridgeView, error: Option<Seq<char>>)
    requires
        bridge.phase == BridgePhase::Joining,
    ensures
        ({
            let (over, actions) = bridge.next(BridgeEventView::Joined { error });
            &&& over.phase == BridgePhase::Over
            &&& actions.len() == 4
            &&& actions[0] == BridgeActionView::Send(
                crate::omp_pane::record::BridgeMessageView::OmpPaneDetach {
                    route: bridge.route,
                    attachment_epoch: bridge.attachment_epoch,
                },
            )
            &&& actions[1] == BridgeActionView::Send(
                crate::omp_pane::record::BridgeMessageView::Detach,
            )
            &&& actions[2] == BridgeActionView::Close
            &&& actions[3] is Finish
        }),
{
}

/// A client is attached by the state of the pane that it asked for, with that state's epoch
/// and role, and refused by an error, with its text; nothing else answers its request.
pub proof fn law_attached_by_its_own_pane(
    route: crate::omp_pane::record::RouteView,
    message: ServerMessageView,
)
    ensures
        attach_answer(route, message) is Attached <==> (message is OmpPane
            && message->OmpPane_route == route),
        attach_answer(route, message) matches AttachReplyView::Attached {
            attachment_epoch,
            controller,
        } ==> message == (ServerMessageView::OmpPane {
            route,
            attachment_epoch,
            controller,
            failed: message->failed,
        }),
        attach_answer(route, message) is Refused <==> message is OmpError,
        message matches ServerMessageView::OmpError { code, message: text } ==> attach_answer(
            route,
            message,
        ) == AttachReplyView::Refused(code + ": "@ + text),
{
}

} // verus!
