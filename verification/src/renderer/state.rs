//! How the renderer's state changes.
//!
//! Work is a stack of tasks. One step takes the topmost task and the answer to the last
//! question; it changes the state, puts up further tasks, and may ask a question.
use crate::input::windows::{ClientKeyKind, ClientMouseKind, MouseButton};
use crate::omp_pane::record::OmpRoute;
use crate::renderer::model::{
    self, AnswerView, Ask, DeferredView, EventKind, HostPixels, InputUsage, LinkInputView, LinkView,
    LocalEffect, LocalMouse, MAX_PENDING_INPUT_EVENTS, MAX_PENDING_INPUT_PAYLOAD_BYTES,
    MAX_QUEUED_LINK_INPUTS, MAX_TRACKED_SERVER_PRESSES, MessageView, PhysicalRoute, PixelEvent,
    RoutedEvent, SemanticRoute, SurfaceSize, TargetEvent, TargetView,
};
use crate::renderer::frame::FrameView;
use vstd::prelude::*;

verus! {

/// What is to be done next.
#[derive(Debug, Clone, Copy, PartialEq, Eq)]
pub enum Task {
    /// The next event of the turn, or its end.
    NextEvent,
    OwnsAnswered(RoutedEvent),
    Existing(RoutedEvent),
    PhysicalAnswered(RoutedEvent),
    PhysicalForwarded(RoutedEvent),
    Navigated,
    SemanticAnswered(RoutedEvent),
    SemanticForwarded(RoutedEvent),
    Observe(RoutedEvent),
    Clicked(RoutedEvent),
    FocusReleased { event: RoutedEvent, forward: bool },
    LinkAnswered { event: RoutedEvent, request_id: u64 },
    Keyed(RoutedEvent),
    PrefixAnswered(RoutedEvent),
    PrefixDone,
    Owned(RoutedEvent),
    LocalRouted(RoutedEvent),
    DeferEvent(RoutedEvent),
    /// An event for the renderer's own terminal.
    Local(RoutedEvent),
    Reserved { event: RoutedEvent, navigate: bool },
    ReleasesDone { event: RoutedEvent, navigate: bool },
    LocalNavigated(RoutedEvent),
    SemanticPressed(RoutedEvent),
    OwnsSemanticAnswered(RoutedEvent),
    LocalForward(RoutedEvent),
    LocalSent(RoutedEvent),
    /// Something for the caller to do, without an answer.
    Perform(Ask),
    /// The renderer is given up, and the server takes over.
    BeginFallback,
    FailTarget,
    Fallen,
    /// The last picture of the renderer is kept until the server draws.
    Handoff,
    HandoffDrawn,
    Retire,
    Retired,
    ForwardReleases(usize),
    Delivered,
    /// The link under the pointer is looked up again.
    Refresh,
    Refreshed,
    Remap,
    Remapped,
    FocusLoss,
    FocusAsked,
    FocusOwned(bool),
    FocusReleases(bool),
    FocusForward(bool),
    FocusSent,
    DeferOverflow,
    /// A mouse report in pixels.
    Pixel { pixel: PixelEvent, generation: u64, observe: bool },
    PixelLocal { pixel: PixelEvent, generation: u64 },
    PixelPlaced { pixel: PixelEvent, generation: u64 },
    PixelLink { pixel: PixelEvent, generation: u64, mouse: LocalMouse, request_id: u64 },
    PixelSent { pixel: PixelEvent, generation: u64, wheel: bool },
    DeferPixel { pixel: PixelEvent, generation: u64 },
    AdmitPixel { pixel: PixelEvent, generation: u64 },
    DropResult,
    CancelStale(u64),
    DrainQueued,
    DrainNext,
    DrainRouted,
    Admit,
    AdmissionTail,
    ReleasePending,
    ReleasedPending,
    ReleaseNext,
    ReleaseRouted,
    PromoteNext(u64),
    PromoteRouted(u64),
    FlushPost,
    FlushPosted,
    ReplayNext(u64),
    ReplayRouted(u64),
    DeferReplay(u64),
    ReplayPixel(u64),
    ReplayPixelLocal(u64),
    ReplayPixelSent { generation: u64, wheel: bool },
    DeferReplayPixels(u64),
    ApplyTarget,
    SpawnTarget,
    Spawned,
    ApplyBinding,
    ApplySurface { loses_binding: bool },
    ApplyState,
    StopTarget,
    TargetStopped,
    ClearCached,
    Resized { size: SurfaceSize, geometry: Option<crate::input::framing::HostGeometry>, generation:
        u64 },
    Polled { size: (u16, u16), damaged: bool },
    Select { size: (u16, u16), damaged: bool },
    Selected { size: (u16, u16), damaged: bool, select: bool },
    Draw { size: (u16, u16), damaged: bool },
    Drawn,
}

/// The outcome of a step.
#[derive(Debug, Clone, Copy, PartialEq, Eq)]
pub enum Step {
    /// There is more to do.
    Continue,
    /// The next step needs an answer.
    Ask(Ask),
    /// Nothing is left to do.
    Finished,
}

/// The turn of some events: what is left of them and where the others went.
pub struct TurnView {
    pub events: Seq<RoutedEvent>,
    pub generation: u64,
    pub observe: bool,
    pub messages: Seq<MessageView>,
    pub batch: Seq<RoutedEvent>,
    pub deferred: Seq<RoutedEvent>,
    pub post_send: Seq<RoutedEvent>,
    /// Something was sent: what follows waits, unless it goes to the server too.
    pub tail: bool,
}

impl TurnView {
    pub open spec fn begin(events: Seq<RoutedEvent>, generation: u64, observe: bool) -> TurnView {
        TurnView {
            events,
            generation,
            observe,
            messages: Seq::empty(),
            batch: Seq::empty(),
            deferred: Seq::empty(),
            post_send: Seq::empty(),
            tail: false,
        }
    }
}

/// What a server message says about the local renderer.
#[derive(Debug, Clone, PartialEq, Eq)]
pub struct TargetRequest {
    pub launch_id: u64,
    pub target_app_client_id: u64,
    /// Nothing where there is to be no renderer.
    pub route: Option<OmpRoute>,
    pub bound: bool,
    pub surface_active: bool,
    pub size: SurfaceSize,
    pub generation: u64,
    pub now: u64,
}

/// The content of such a request.
pub struct RequestView {
    pub launch_id: u64,
    pub target_app_client_id: u64,
    pub route: Option<crate::omp_pane::record::RouteView>,
    pub bound: bool,
    pub surface_active: bool,
    pub size: SurfaceSize,
    pub generation: u64,
    pub now: u64,
}

impl View for TargetRequest {
    type V = RequestView;

    open spec fn view(&self) -> RequestView {
        RequestView {
            launch_id: self.launch_id,
            target_app_client_id: self.target_app_client_id,
            route: match self.route {
                Some(route) => Some(route@),
                None => None,
            },
            bound: self.bound,
            surface_active: self.surface_active,
            size: self.size,
            generation: self.generation,
            now: self.now,
        }
    }
}

/// The renderer's state.
pub struct RendererView {
    /// Whether there is an executable for the guest.
    pub available: bool,
    /// The longest link that the server takes, in bytes.
    pub max_link_url: usize,
    pub latest_launch_id: u64,
    pub target: Option<TargetView>,
    pub cached_server_frame: Option<FrameView>,
    pub handoff_frame: Option<FrameView>,
    pub local_selected: bool,
    pub server_owned_input: bool,
    /// Keys whose press went to the server, and whose release is still to come.
    pub server_forwarded_presses: Seq<u64>,
    pub server_forwarded_overflow: bool,
    pub next_link_request_id: u64,
    pub pending_link_click: bool,
    pub pending_link_request_id: Option<u64>,
    pub pending_link_input: Option<LinkInputView>,
    pub queued_link_inputs: Seq<LinkInputView>,
    pub pointer_cell: Option<(u16, u16)>,
    pub pointer_pixels: Option<HostPixels>,
    pub hovered_link_cells: Option<Seq<(u16, u16)>>,
    pub suppress_link_affordance: bool,
    pub awaiting_fallback: bool,
    pub awaiting_promotion: bool,
    pub deferred_messages: Seq<DeferredView>,
    pub outbound_messages: Seq<MessageView>,
    pub post_send_input: Seq<DeferredView>,
    pub effects: Seq<LocalEffect>,
    pub needs_render: bool,
    pub force_repaint: bool,
    /// The work in progress.
    pub tasks: Seq<Task>,
    pub turn: TurnView,
    pub incoming: Seq<RoutedEvent>,
    pub incoming_generation: u64,
    pub work: Seq<DeferredView>,
    pub overflow: Seq<LinkInputView>,
    pub delivered: bool,
    pub focus_delivered: bool,
    /// Whether the last local event changed the view, and whether it arrived.
    pub local: (bool, bool),
    pub replay: Seq<RoutedEvent>,
    pub replay_pixels: Seq<PixelEvent>,
    pub replay_render: bool,
    pub request: Option<RequestView>,
    /// What routing gave.
    pub result: Seq<MessageView>,
    pub surface: Option<(FrameView, bool)>,
}

/// All but the first.
pub open spec fn rest<T>(items: Seq<T>) -> Seq<T> {
    if items.len() == 0 {
        items
    } else {
        items.drop_first()
    }
}

/// The held keys without one.
pub open spec fn press_removed(presses: Seq<u64>, identity: u64) -> Seq<u64> {
    presses.filter(|pressed: u64| pressed != identity)
}

/// The keys that the server holds, and whether there are too many to know them, after an
/// event that goes to the server.
pub open spec fn held_after(held: (Seq<u64>, bool), event: RoutedEvent) -> (Seq<u64>, bool) {
    match event.kind {
        EventKind::FocusLost => (Seq::empty(), false),
        EventKind::Key { identity, kind, .. } => match kind {
            ClientKeyKind::Press => if held.0.contains(identity) {
                held
            } else if held.0.len() < MAX_TRACKED_SERVER_PRESSES {
                (held.0.push(identity), held.1)
            } else {
                (held.0, true)
            },
            ClientKeyKind::Release => (press_removed(held.0, identity), held.1),
            ClientKeyKind::Repeat => held,
        },
        _ => held,
    }
}

/// The same after several events, in order.
pub open spec fn held_after_all(held: (Seq<u64>, bool), events: Seq<RoutedEvent>) -> (
    Seq<u64>,
    bool,
)
    decreases events.len(),
{
    if events.len() == 0 {
        held
    } else {
        held_after(held_after_all(held, events.drop_last()), events.last())
    }
}

impl RendererView {
    // ---- Helpers -------------------------------------------------------------------------------
    pub open spec fn put(self, task: Task) -> RendererView {
        RendererView { tasks: self.tasks.push(task), ..self }
    }

    pub open spec fn go(self) -> (RendererView, Step) {
        (self, Step::Continue)
    }

    pub open spec fn ask(self, question: Ask, after: Task) -> (RendererView, Step) {
        (self.put(after), Step::Ask(question))
    }

    pub open spec fn running(self) -> bool {
        self.target matches Some(target) && target.running
    }

    pub open spec fn awaiting(self) -> bool {
        self.awaiting_fallback || self.awaiting_promotion
    }

    /// Input goes to the renderer's own terminal.
    pub open spec fn local_active(self) -> bool {
        self.local_selected && !self.server_owned_input && !self.server_forwarded_overflow
    }

    pub open spec fn link_visible(self) -> bool {
        self.local_active() && self.running()
    }

    /// A link that the server takes.
    pub open spec fn usable(self, link: Option<LinkView>) -> Option<
        LinkView,
    > {
        match link {
            Some(link) => if vstd::utf8::encode_utf8(link.url).len() <= self.max_link_url {
                Some(link)
            } else {
                None
            },
            None => None,
        }
    }

    pub open spec fn repaint(self) -> RendererView {
        RendererView { needs_render: true, force_repaint: true, ..self }
    }

    // ---- Keys that the server holds -----------------------------------------------------------
    pub open spec fn held(self) -> (Seq<u64>, bool) {
        (self.server_forwarded_presses, self.server_forwarded_overflow)
    }

    pub open spec fn with_held(self, held: (Seq<u64>, bool)) -> RendererView {
        RendererView {
            server_forwarded_presses: held.0,
            server_forwarded_overflow: held.1,
            ..self
        }
    }

    /// One event that goes to the server.
    pub open spec fn observe_one(self, event: RoutedEvent) -> RendererView {
        self.with_held(held_after(self.held(), event))
    }

    /// Events that go to the server, in order.
    pub open spec fn observe_server(self, events: Seq<RoutedEvent>) -> RendererView {
        self.with_held(held_after_all(self.held(), events))
    }

    /// Whether an event of a key belongs to the server because its press does; and what is
    /// then still held.
    pub open spec fn existing_server_route(self, event: RoutedEvent) -> (RendererView, bool) {
        match event.kind {
            EventKind::Key { identity, physical, kind } => if self.server_forwarded_overflow {
                (self, true)
            } else if !self.server_forwarded_presses.contains(identity) {
                (self, false)
            } else {
                let without = RendererView {
                    server_forwarded_presses: press_removed(
                        self.server_forwarded_presses,
                        identity,
                    ),
                    ..self
                };
                if kind == ClientKeyKind::Press && !physical {
                    (without, false)
                } else if kind == ClientKeyKind::Release {
                    (without, true)
                } else {
                    (self, true)
                }
            },
            _ => (self, false),
        }
    }

    /// A message for the server, kept for sending.
    pub open spec fn queue_server_events(self, events: Seq<RoutedEvent>) -> RendererView {
        let seen = self.observe_server(events);
        RendererView {
            outbound_messages: seen.outbound_messages.push(
                MessageView::InputEvents { events },
            ),
            ..seen
        }
    }

    // ---- Where events of a turn go ------------------------------------------------------------
    pub open spec fn defer_in_turn(self, event: RoutedEvent) -> RendererView {
        if event.sendable {
            RendererView {
                turn: TurnView { deferred: self.turn.deferred.push(event), ..self.turn },
                ..self
            }
        } else {
            self
        }
    }

    pub open spec fn post_in_turn(self, event: RoutedEvent) -> RendererView {
        if event.sendable {
            RendererView {
                turn: TurnView { post_send: self.turn.post_send.push(event), ..self.turn },
                ..self
            }
        } else {
            self
        }
    }

    pub open spec fn batch_in_turn(self, event: RoutedEvent) -> RendererView {
        if event.sendable {
            RendererView {
                turn: TurnView { batch: self.turn.batch.push(event), ..self.turn },
                ..self
            }
        } else {
            self
        }
    }

    pub open spec fn tailed(self) -> RendererView {
        RendererView { turn: TurnView { tail: true, ..self.turn }, ..self }
    }

    /// The batch becomes a message of its own.
    pub open spec fn batch_closed(self) -> RendererView {
        if self.turn.batch.len() == 0 {
            self
        } else {
            RendererView {
                turn: TurnView {
                    messages: self.turn.messages.push(
                        MessageView::InputEvents {
                            events: self.turn.batch,
                        },
                    ),
                    batch: Seq::empty(),
                    ..self.turn
                },
                ..self
            }
        }
    }

    pub open spec fn message_in_turn(
        self,
        message: MessageView,
    ) -> RendererView {
        RendererView {
            turn: TurnView { messages: self.turn.messages.push(message), ..self.turn },
            ..self
        }
    }

    /// The end of a turn.
    pub open spec fn turn_finished(self) -> RendererView {
        let closed = self.batch_closed();
        RendererView {
            deferred_messages: if closed.turn.deferred.len() == 0 {
                closed.deferred_messages
            } else {
                closed.deferred_messages.push(
                    DeferredView::InputEvents {
                        events: closed.turn.deferred,
                        generation: closed.turn.generation,
                    },
                )
            },
            post_send_input: if closed.turn.post_send.len() == 0 {
                closed.post_send_input
            } else {
                closed.post_send_input.push(
                    DeferredView::InputEvents {
                        events: closed.turn.post_send,
                        generation: closed.turn.generation,
                    },
                )
            },
            result: closed.turn.messages,
            turn: TurnView::begin(Seq::empty(), 0, false),
            ..closed
        }
    }

    // ---- Links --------------------------------------------------------------------------------
    pub open spec fn clear_activation(self) -> RendererView {
        RendererView {
            pending_link_click: false,
            pending_link_request_id: None,
            pending_link_input: None,
            ..self
        }
    }

    pub open spec fn clear_click(self) -> RendererView {
        RendererView { queued_link_inputs: Seq::empty(), ..self.clear_activation() }
    }

    /// Too much waits for the server's answer: the renderer is given up, and all of it is
    /// deferred.
    pub open spec fn link_overflow(
        self,
        input: LinkInputView,
    ) -> RendererView {
        let pending = match self.pending_link_input {
            Some(pending) => seq![pending],
            None => Seq::empty(),
        };
        RendererView {
            overflow: pending + self.queued_link_inputs + seq![input],
            queued_link_inputs: Seq::empty(),
            ..self.clear_activation()
        }.put(Task::DeferOverflow).put(Task::BeginFallback)
    }

    pub open spec fn queue_link(
        self,
        input: LinkInputView,
    ) -> RendererView {
        if self.queued_link_inputs.len() < MAX_QUEUED_LINK_INPUTS {
            RendererView { queued_link_inputs: self.queued_link_inputs.push(input), ..self }
        } else {
            self.link_overflow(input)
        }
    }

    pub open spec fn append_link_event(self, event: RoutedEvent) -> RendererView {
        if !event.sendable {
            self
        } else {
            match self.pending_link_input {
                Some(LinkInputView::Events { events, generation }) => {
                    if events.len() >= MAX_QUEUED_LINK_INPUTS {
                        self.link_overflow(
                            LinkInputView::Events {
                                events: seq![event],
                                generation,
                            },
                        )
                    } else {
                        RendererView {
                            pending_link_input: Some(
                                LinkInputView::Events {
                                    events: events.push(event),
                                    generation,
                                },
                            ),
                            ..self
                        }
                    }
                },
                _ => self,
            }
        }
    }

    pub open spec fn append_link_pixel(self, pixel: PixelEvent) -> RendererView {
        match self.pending_link_input {
            Some(LinkInputView::Pixels { inputs, generation }) => {
                if inputs.len() >= MAX_QUEUED_LINK_INPUTS {
                    self.link_overflow(
                        LinkInputView::Pixels {
                            inputs: seq![pixel],
                            generation,
                        },
                    )
                } else {
                    RendererView {
                        pending_link_input: Some(
                            LinkInputView::Pixels {
                                inputs: inputs.push(pixel),
                                generation,
                            },
                        ),
                        ..self
                    }
                }
            },
            _ => self,
        }
    }

    /// The number of the next request; it is never zero.
    pub open spec fn link_id_allocated(self) -> RendererView {
        RendererView {
            next_link_request_id: if self.next_link_request_id == u64::MAX {
                1
            } else {
                (self.next_link_request_id + 1) as u64
            },
            ..self
        }
    }

    /// An event while the server decides about a link: the rest of the click belongs to
    /// it, everything else queues.
    pub open spec fn link_waits(self, event: RoutedEvent) -> RendererView {
        if event.left_drag() && self.pending_link_click {
            self.append_link_event(event)
        } else if event.left_up() && self.pending_link_click {
            RendererView { pending_link_click: false, ..self }.append_link_event(event)
        } else {
            let seen = if event.left_down() {
                RendererView { pending_link_click: false, ..self }
            } else {
                self
            };
            if event.sendable {
                seen.queue_link(
                    LinkInputView::Events {
                        events: seq![event],
                        generation: self.turn.generation,
                    },
                )
            } else {
                seen
            }
        }
    }

    // ---- The pointer --------------------------------------------------------------------------
    pub open spec fn set_pointer(self, cell: Option<(u16, u16)>) -> RendererView {
        if self.pointer_cell == cell {
            self
        } else {
            RendererView { pointer_cell: cell, ..self }.put(Task::Refresh)
        }
    }

    pub open spec fn observe_pointer(self, cell: Option<(u16, u16)>) -> RendererView {
        RendererView { pointer_pixels: None, ..self }.set_pointer(cell)
    }

    pub open spec fn hovered(self, cells: Option<Seq<(u16, u16)>>) -> RendererView {
        if self.hovered_link_cells == cells {
            self
        } else {
            RendererView { hovered_link_cells: cells, needs_render: true, ..self }
        }
    }

    // ---- One event of a turn ------------------------------------------------------------------
    pub open spec fn next_event(self) -> (RendererView, Step) {
        if self.turn.events.len() == 0 {
            self.turn_finished().go()
        } else {
            let event = self.turn.events[0];
            let taken = RendererView {
                turn: TurnView { events: self.turn.events.drop_first(), ..self.turn },
                ..self
            }.put(Task::NextEvent);
            if taken.pending_link_request_id is Some {
                taken.link_waits(event).go()
            } else if taken.awaiting() && (taken.deferred_messages.len() > 0
                || taken.turn.deferred.len() > 0) {
                taken.defer_in_turn(event).go()
            } else if taken.turn.tail && (taken.turn.post_send.len() > 0
                || !taken.server_owned_input) {
                taken.post_in_turn(event).go()
            } else if taken.turn.tail && event.key() {
                taken.ask(Ask::OwnsKey(event), Task::OwnsAnswered(event))
            } else {
                taken.put(Task::Existing(event)).go()
            }
        }
    }

    pub open spec fn existing(self, event: RoutedEvent) -> (RendererView, Step) {
        let (seen, routed) = self.existing_server_route(event);
        if routed {
            seen.batch_in_turn(event).tailed().go()
        } else if event.key() {
            seen.ask(Ask::PhysicalRoute(event), Task::PhysicalAnswered(event))
        } else {
            seen.put(Task::Observe(event)).go()
        }
    }

    pub open spec fn physical_forwarded(self, event: RoutedEvent, sent: bool) -> RendererView {
        let failed = if sent {
            self
        } else {
            self.put(Task::BeginFallback)
        };
        if event.released() {
            failed.put(Task::Perform(Ask::ForgetPhysical(event)))
        } else if !sent {
            failed.put(Task::Perform(Ask::SuppressPhysical(event)))
        } else {
            self
        }
    }

    pub open spec fn semantic_forwarded(self, event: RoutedEvent, sent: bool) -> RendererView {
        let failed = if sent {
            self
        } else {
            self.put(Task::BeginFallback)
        };
        if event.released() {
            failed.put(Task::Perform(Ask::ForgetSemantic(event)))
        } else if !sent {
            failed.put(Task::Perform(Ask::SuppressSemantic(event)))
        } else {
            self
        }
    }

    /// The view moved to another reply.
    pub open spec fn moved(self, navigated: bool) -> RendererView {
        if navigated {
            RendererView { needs_render: true, ..self }.put(Task::Refresh)
        } else {
            self
        }
    }

    pub open spec fn physical_answered(
        self,
        event: RoutedEvent,
        route: Option<PhysicalRoute>,
    ) -> (RendererView, Step) {
        match route {
            Some(PhysicalRoute::Forwarded) => if self.running() {
                self.ask(Ask::Forward(event), Task::PhysicalForwarded(event))
            } else {
                self.physical_forwarded(event, false).go()
            },
            Some(PhysicalRoute::ReplyNavigation) => if !event.released() && self.running() {
                self.ask(Ask::Navigate(event), Task::Navigated)
            } else {
                self.go()
            },
            Some(PhysicalRoute::Suppressed) => self.go(),
            None => self.ask(Ask::SemanticRoute(event), Task::SemanticAnswered(event)),
        }
    }

    pub open spec fn semantic_answered(
        self,
        event: RoutedEvent,
        route: Option<SemanticRoute>,
    ) -> (RendererView, Step) {
        match route {
            Some(SemanticRoute::Forwarded) => if self.running() {
                self.ask(Ask::Forward(event), Task::SemanticForwarded(event))
            } else {
                self.semantic_forwarded(event, false).go()
            },
            Some(SemanticRoute::Consumed { navigated }) => self.moved(navigated).go(),
            None => self.put(Task::Observe(event)).go(),
        }
    }

    pub open spec fn observe(self, event: RoutedEvent) -> RendererView {
        let next = self.put(Task::Clicked(event));
        if !self.turn.observe {
            next
        } else {
            match event.kind {
                EventKind::Mouse { column, row, .. } => next.observe_pointer(Some((column, row))),
                EventKind::FocusLost => next.observe_pointer(None),
                _ => next,
            }
        }
    }

    pub open spec fn clicked(self, event: RoutedEvent) -> (RendererView, Step) {
        if event.left_drag() && self.pending_link_click {
            self.append_link_event(event).go()
        } else if event.left_up() && self.pending_link_click {
            RendererView { pending_link_click: false, ..self }.append_link_event(event).go()
        } else if event.left_down() {
            (if self.pending_link_request_id is None {
                self.clear_click()
            } else {
                RendererView { pending_link_click: false, ..self }
            }).placed(event)
        } else {
            self.placed(event)
        }
    }

    pub open spec fn placed(self, event: RoutedEvent) -> (RendererView, Step) {
        if self.awaiting() {
            self.defer_in_turn(event).go()
        } else if event.kind is FocusLost {
            let forward = self.server_forwarded_presses.len() > 0 || self.server_forwarded_overflow
                || self.server_owned_input || !self.local_selected;
            self.put(Task::FocusReleased { event, forward }).put(Task::FocusLoss).go()
        } else if self.local_active() && event.left_down() {
            let request_id = self.next_link_request_id;
            let numbered = self.link_id_allocated();
            if numbered.link_visible() {
                numbered.ask(
                    Ask::LinkAt {
                        column: event.kind->column,
                        row: event.kind->row,
                    },
                    Task::LinkAnswered { event, request_id },
                )
            } else {
                numbered.put(Task::Keyed(event)).go()
            }
        } else {
            self.put(Task::Keyed(event)).go()
        }
    }

    pub open spec fn link_answered(
        self,
        event: RoutedEvent,
        request_id: u64,
        link: Option<LinkView>,
    ) -> RendererView {
        match (self.usable(link), self.target) {
            (Some(link), Some(target)) => {
                let sent = self.batch_closed().message_in_turn(
                    MessageView::ActivateOmpLink {
                        launch_id: target.launch_id,
                        request_id,
                        url: link.url,
                    },
                ).tailed();
                RendererView {
                    pending_link_click: true,
                    pending_link_request_id: Some(request_id),
                    pending_link_input: if event.sendable {
                        Some(
                            LinkInputView::Events {
                                events: seq![event],
                                generation: self.turn.generation,
                            },
                        )
                    } else {
                        None
                    },
                    ..sent
                }
            },
            _ => self.put(Task::Keyed(event)),
        }
    }

    pub open spec fn keyed(self, event: RoutedEvent) -> (RendererView, Step) {
        if self.local_selected && event.key() && !event.released() && self.target is Some {
            self.ask(Ask::MatchesPrefix(event), Task::PrefixAnswered(event))
        } else {
            self.put(Task::Owned(event)).go()
        }
    }

    pub open spec fn prefix_answered(self, event: RoutedEvent, matching: bool) -> RendererView {
        if matching {
            let closed = self.observe_one(event).batch_closed();
            let sent = if event.sendable {
                closed.message_in_turn(
                    MessageView::InputEvents { events: seq![event] },
                )
            } else {
                closed
            };
            sent.tailed().put(Task::PrefixDone).put(Task::Handoff)
        } else {
            self.put(Task::Owned(event))
        }
    }

    pub open spec fn prefix_done(self) -> RendererView {
        RendererView {
            server_owned_input: true,
            cached_server_frame: None,
            ..self
        }.repaint().put(Task::Refresh)
    }

    pub open spec fn owned(self, event: RoutedEvent) -> RendererView {
        if !self.local_active() {
            let seen = self.observe_one(event);
            if event.sendable {
                seen.batch_in_turn(event).tailed()
            } else {
                seen
            }
        } else {
            self.put(Task::LocalRouted(event)).put(Task::Local(event))
        }
    }

    pub open spec fn local_routed(self, event: RoutedEvent) -> RendererView {
        if self.local.0 {
            self.moved(true)
        } else if !self.local.1 {
            self.put(Task::DeferEvent(event)).put(Task::BeginFallback)
        } else {
            self
        }
    }

    pub open spec fn focus_released(self, event: RoutedEvent, forward: bool) -> RendererView {
        let cleared = RendererView {
            server_forwarded_presses: Seq::empty(),
            server_forwarded_overflow: false,
            ..self
        };
        if forward || !self.focus_delivered {
            cleared.batch_in_turn(event).tailed()
        } else {
            cleared
        }
    }

    // ---- The renderer's own terminal ----------------------------------------------------------
    pub open spec fn with_local(self, needs_render: bool, sent: bool) -> RendererView {
        RendererView { local: (needs_render, sent), ..self }
    }

    pub open spec fn local_event(self, event: RoutedEvent) -> (RendererView, Step) {
        match event.kind {
            EventKind::Key { physical, .. } => if physical {
                if event.pressed() {
                    self.ask(
                        Ask::ReservePress(event),
                        Task::Reserved { event, navigate: true },
                    )
                } else {
                    self.with_local(false, true).go()
                }
            } else {
                self.ask(Ask::SemanticPress(event), Task::SemanticPressed(event))
            },
            _ => self.put(Task::LocalForward(event)).go(),
        }
    }

    pub open spec fn reserved(
        self,
        event: RoutedEvent,
        navigate: bool,
        releases: Option<usize>,
    ) -> RendererView {
        match releases {
            None => self.with_local(false, true),
            Some(count) => self.put(Task::ReleasesDone { event, navigate }).put(
                Task::ForwardReleases(count),
            ),
        }
    }

    pub open spec fn releases_done(self, event: RoutedEvent, navigate: bool) -> (
        RendererView,
        Step,
    ) {
        if !self.delivered {
            self.with_local(false, false).put(Task::BeginFallback).put(
                Task::Perform(Ask::ForgetPhysical(event)),
            ).go()
        } else if navigate {
            if self.running() {
                self.ask(Ask::Navigate(event), Task::LocalNavigated(event))
            } else {
                self.local_navigated(event, false).go()
            }
        } else {
            self.put(Task::LocalForward(event)).put(
                Task::Perform(Ask::CommitPress(event, PhysicalRoute::Forwarded)),
            ).go()
        }
    }

    pub open spec fn local_navigated(self, event: RoutedEvent, navigated: bool) -> RendererView {
        if navigated {
            self.with_local(true, true).put(
                Task::Perform(Ask::CommitPress(event, PhysicalRoute::ReplyNavigation)),
            )
        } else {
            self.put(Task::LocalForward(event)).put(
                Task::Perform(Ask::CommitPress(event, PhysicalRoute::Forwarded)),
            )
        }
    }

    pub open spec fn semantic_pressed(self, event: RoutedEvent, route: Option<SemanticRoute>) -> (
        RendererView,
        Step,
    ) {
        match route {
            Some(SemanticRoute::Consumed { navigated }) => self.with_local(navigated, true).go(),
            _ => self.ask(Ask::OwnsSemantic(event), Task::OwnsSemanticAnswered(event)),
        }
    }

    pub open spec fn owns_semantic_answered(self, event: RoutedEvent, owns: bool) -> (
        RendererView,
        Step,
    ) {
        if owns {
            self.put(Task::LocalForward(event)).go()
        } else if !event.pressed() {
            self.with_local(false, true).go()
        } else {
            self.ask(Ask::ReservePress(event), Task::Reserved { event, navigate: false })
        }
    }

    pub open spec fn local_forward(self, event: RoutedEvent) -> (RendererView, Step) {
        if self.running() {
            self.ask(Ask::Forward(event), Task::LocalSent(event))
        } else {
            self.local_sent(event, false).go()
        }
    }

    /// Whether an event moves the view: the wheel does, and typing returns to the end.
    pub open spec fn moves_view(event: RoutedEvent) -> bool {
        match event.kind {
            EventKind::Mouse { kind, .. } => model::wheel(kind),
            EventKind::Key { kind, .. } => kind != ClientKeyKind::Release,
            EventKind::Text | EventKind::Paste => true,
            _ => false,
        }
    }

    pub open spec fn local_sent(self, event: RoutedEvent, sent: bool) -> RendererView {
        let known = self.with_local(RendererView::moves_view(event) && sent, sent);
        if !sent && event.key() {
            known.put(Task::Perform(Ask::ForgetSemantic(event))).put(
                Task::Perform(Ask::ForgetPhysical(event)),
            )
        } else {
            known
        }
    }

    // ---- Giving the renderer up ---------------------------------------------------------------
    pub open spec fn begin_fallback(self) -> RendererView {
        self.put(Task::Fallen).put(Task::FailTarget).put(Task::Retire).put(Task::Handoff)
    }

    pub open spec fn fail_target(self) -> RendererView {
        match self.target {
            Some(target) => {
                let failed = RendererView { target: Some(target.fail()), ..self };
                if target.running {
                    failed.put(Task::Perform(Ask::StopRuntime))
                } else {
                    failed
                }
            },
            None => self,
        }
    }

    pub open spec fn fallen(self) -> RendererView {
        RendererView { awaiting_fallback: true, cached_server_frame: None, ..self }.repaint()
    }

    pub open spec fn handoff(self) -> (RendererView, Step) {
        if !self.local_selected {
            self.go()
        } else {
            let hidden = RendererView { suppress_link_affordance: true, ..self }.repaint();
            match self.target {
                Some(target) => if target.running {
                    hidden.ask(
                        Ask::RenderFrame { columns: target.size.columns, rows: target.size.rows },
                        Task::HandoffDrawn,
                    )
                } else {
                    hidden.go()
                },
                None => hidden.go(),
            }
        }
    }

    pub open spec fn handoff_drawn(
        self,
        frame: Option<FrameView>,
    ) -> RendererView {
        match frame {
            Some(frame) => RendererView { handoff_frame: Some(frame.without_links()), ..self },
            None => self,
        }
    }

    pub open spec fn forward_releases(self, count: usize) -> (RendererView, Step) {
        if count == 0 {
            RendererView { delivered: true, ..self }.go()
        } else if !self.running() {
            RendererView { delivered: false, ..self }.go()
        } else {
            self.ask(Ask::ForwardReleases, Task::Delivered)
        }
    }

    pub open spec fn refresh(self) -> (RendererView, Step) {
        match self.pointer_cell {
            Some((column, row)) => if self.link_visible() {
                self.ask(Ask::LinkAt { column, row }, Task::Refreshed)
            } else {
                self.hovered(None).go()
            },
            None => self.hovered(None).go(),
        }
    }

    pub open spec fn refreshed(
        self,
        link: Option<LinkView>,
    ) -> RendererView {
        self.hovered(
            match self.usable(link) {
                Some(link) => Some(link.cells),
                None => None,
            },
        )
    }

    pub open spec fn remap(self) -> (RendererView, Step) {
        match self.pointer_pixels {
            Some(pointer) => self.ask(
                Ask::PixelCell {
                    pointer,
                    size: match self.target {
                        Some(target) => Some(target.size),
                        None => None,
                    },
                },
                Task::Remapped,
            ),
            None => self.go(),
        }
    }

    // ---- The focus is lost --------------------------------------------------------------------
    pub open spec fn focus_loss(self) -> (RendererView, Step) {
        if self.local_selected && !self.server_owned_input {
            self.put(Task::FocusOwned(true)).go()
        } else {
            self.ask(Ask::HasForwarded, Task::FocusAsked)
        }
    }

    pub open spec fn focus_releases(self, forward: bool, count: usize) -> RendererView {
        self.put(Task::FocusForward(forward)).put(Task::ForwardReleases(count)).observe_pointer(
            None,
        )
    }

    pub open spec fn focus_forward(self, forward: bool) -> (RendererView, Step) {
        if !forward {
            self.focus_done(self.delivered).go()
        } else if self.running() {
            self.ask(Ask::ForwardFocusLost, Task::FocusSent)
        } else {
            self.focus_done(false).go()
        }
    }

    pub open spec fn focus_done(self, delivered: bool) -> RendererView {
        let known = RendererView { focus_delivered: delivered, ..self };
        if delivered {
            known
        } else {
            known.put(Task::BeginFallback)
        }
    }

    // ---- Mouse reports in pixels --------------------------------------------------------------
    pub open spec fn with_result(
        self,
        result: Seq<MessageView>,
    ) -> RendererView {
        RendererView { result, ..self }
    }

    pub open spec fn pixel(self, pixel: PixelEvent, generation: u64, observe: bool) -> RendererView {
        let next = self.put(Task::PixelLocal { pixel, generation });
        match pixel.report {
            Some((x, y)) => if observe {
                RendererView {
                    pointer_pixels: Some(HostPixels { x, y, geometry: pixel.geometry }),
                    ..next
                }.put(Task::Remap)
            } else {
                next
            },
            None => next,
        }
    }

    pub open spec fn pixel_local(self, pixel: PixelEvent, generation: u64) -> (RendererView, Step) {
        match self.target {
            Some(target) => self.ask(
                Ask::LocalMouse { pixel, size: target.size },
                Task::PixelPlaced { pixel, generation },
            ),
            None => self.pixel_placed(pixel, generation, None),
        }
    }

    pub open spec fn pixel_kind(pixel: PixelEvent, kind: ClientMouseKind) -> bool {
        pixel.kind == Some(kind)
    }

    pub open spec fn pixel_placed(
        self,
        pixel: PixelEvent,
        generation: u64,
        mouse: Option<LocalMouse>,
    ) -> (RendererView, Step) {
        let none = self.with_result(Seq::empty());
        if RendererView::pixel_kind(pixel, ClientMouseKind::Drag(MouseButton::Left))
            && self.pending_link_click {
            none.append_link_pixel(pixel).go()
        } else if RendererView::pixel_kind(pixel, ClientMouseKind::Up(MouseButton::Left))
            && self.pending_link_click {
            RendererView { pending_link_click: false, ..none }.append_link_pixel(pixel).go()
        } else if RendererView::pixel_kind(pixel, ClientMouseKind::Down(MouseButton::Left)) {
            (if self.pending_link_request_id is None {
                none.clear_click()
            } else {
                RendererView { pending_link_click: false, ..none }
            }).pixel_routed(pixel, generation, mouse)
        } else {
            none.pixel_routed(pixel, generation, mouse)
        }
    }

    pub open spec fn pixel_routed(
        self,
        pixel: PixelEvent,
        generation: u64,
        mouse: Option<LocalMouse>,
    ) -> (RendererView, Step) {
        if self.pending_link_request_id is Some {
            self.queue_link(
                LinkInputView::Pixels { inputs: seq![pixel], generation },
            ).go()
        } else if self.awaiting() {
            self.defer_pixel(pixel, generation).go()
        } else if !self.local_active() {
            self.with_result(
                seq![MessageView::InputPixels { pixel }],
            ).go()
        } else {
            match mouse {
                Some(mouse) => if mouse.kind == ClientMouseKind::Down(MouseButton::Left) {
                    let request_id = self.next_link_request_id;
                    let numbered = self.link_id_allocated();
                    if numbered.link_visible() {
                        numbered.ask(
                            Ask::LinkAt { column: mouse.column, row: mouse.row },
                            Task::PixelLink { pixel, generation, mouse, request_id },
                        )
                    } else {
                        numbered.pixel_forward(pixel, generation, Some(mouse))
                    }
                } else {
                    self.pixel_forward(pixel, generation, Some(mouse))
                },
                None => self.pixel_forward(pixel, generation, None),
            }
        }
    }

    pub open spec fn pixel_link(
        self,
        pixel: PixelEvent,
        generation: u64,
        mouse: LocalMouse,
        request_id: u64,
        link: Option<LinkView>,
    ) -> (RendererView, Step) {
        match (self.usable(link), self.target) {
            (Some(link), Some(target)) => RendererView {
                pending_link_click: true,
                pending_link_request_id: Some(request_id),
                pending_link_input: Some(
                    LinkInputView::Pixels {
                        inputs: seq![pixel],
                        generation,
                    },
                ),
                ..self
            }.with_result(
                seq![
                    MessageView::ActivateOmpLink {
                        launch_id: target.launch_id,
                        request_id,
                        url: link.url,
                    },
                ],
            ).go(),
            _ => self.pixel_forward(pixel, generation, Some(mouse)),
        }
    }

    pub open spec fn pixel_forward(
        self,
        pixel: PixelEvent,
        generation: u64,
        mouse: Option<LocalMouse>,
    ) -> (RendererView, Step) {
        match mouse {
            Some(mouse) => if self.running() {
                self.ask(
                    Ask::ForwardPixel(pixel),
                    Task::PixelSent {
                        pixel,
                        generation,
                        wheel: model::wheel(mouse.kind),
                    },
                )
            } else {
                self.with_result(
                    seq![MessageView::InputPixels { pixel }],
                ).go()
            },
            None => self.with_result(
                seq![MessageView::InputPixels { pixel }],
            ).go(),
        }
    }

    pub open spec fn pixel_sent(
        self,
        pixel: PixelEvent,
        generation: u64,
        wheel: bool,
        sent: bool,
    ) -> RendererView {
        let none = self.with_result(Seq::empty());
        if sent {
            none.moved(wheel)
        } else {
            none.put(Task::DeferPixel { pixel, generation }).put(Task::BeginFallback)
        }
    }

    pub open spec fn defer_pixel(self, pixel: PixelEvent, generation: u64) -> RendererView {
        RendererView {
            deferred_messages: self.deferred_messages.push(
                DeferredView::InputPixels { pixel, generation },
            ),
            ..self
        }
    }

    // ---- Input that waits ---------------------------------------------------------------------
    /// One waiting message is routed now.
    pub open spec fn start_item(self, item: DeferredView) -> RendererView {
        match item {
            DeferredView::InputEvents { events, generation } => {
                RendererView { turn: TurnView::begin(events, generation, false), ..self }.put(
                    Task::NextEvent,
                )
            },
            DeferredView::InputPixels { pixel, generation } => self.put(
                Task::Pixel { pixel, generation, observe: false },
            ),
        }
    }

    pub open spec fn cancel_stale(self, generation: u64) -> RendererView {
        let stale = self.pending_link_input matches Some(input) && input.generation() != generation;
        let changed = model::links_stale(self.queued_link_inputs, generation);
        let kept = RendererView {
            queued_link_inputs: model::links_kept(
                self.queued_link_inputs,
                generation,
            ),
            ..self
        };
        let cleared = if stale {
            kept.clear_activation()
        } else {
            kept
        };
        if stale || changed {
            cleared.put(Task::DrainQueued)
        } else {
            cleared
        }
    }

    pub open spec fn drain_for(self, generation: u64) -> RendererView {
        RendererView {
            queued_link_inputs: model::links_kept(
                self.queued_link_inputs,
                generation,
            ),
            ..self
        }.put(Task::DrainQueued)
    }

    pub open spec fn drain_queued(self) -> RendererView {
        RendererView {
            work: model::all_deferred(self.queued_link_inputs),
            queued_link_inputs: Seq::empty(),
            ..self
        }.put(Task::DrainNext)
    }

    pub open spec fn drain_next(self) -> RendererView {
        if self.work.len() == 0 {
            self
        } else {
            RendererView { work: self.work.drop_first(), ..self }.put(
                Task::DrainRouted,
            ).start_item(self.work[0])
        }
    }

    /// What was sent goes out first; what is left waits behind it.
    pub open spec fn sent_before(self) -> RendererView {
        RendererView {
            outbound_messages: self.outbound_messages + self.result,
            post_send_input: self.post_send_input + self.work,
            work: Seq::empty(),
            result: Seq::empty(),
            ..self
        }
    }

    pub open spec fn drain_routed(self) -> RendererView {
        if self.result.len() > 0 {
            self.sent_before()
        } else {
            self.put(Task::DrainNext)
        }
    }

    pub open spec fn pending_usage(self) -> InputUsage {
        let waiting = model::deferred_usage(self.deferred_messages).and(
            model::deferred_usage(self.post_send_input),
        );
        let linked = match self.pending_link_input {
            Some(input) => waiting.and(input.usage()),
            None => waiting,
        };
        linked.and(model::links_usage(self.queued_link_inputs)).and(
            model::messages_usage(self.outbound_messages),
        )
    }

    pub open spec fn would_overflow(self, incoming: InputUsage) -> bool {
        let total = self.pending_usage().and(incoming);
        total.events > MAX_PENDING_INPUT_EVENTS || total.payload > MAX_PENDING_INPUT_PAYLOAD_BYTES
    }

    pub open spec fn take_in(self) -> RendererView {
        if self.would_overflow(
            model::events_usage(model::sendable(self.incoming)),
        ) {
            self.put(Task::AdmissionTail).put(Task::ReleasePending).put(Task::BeginFallback)
        } else {
            RendererView {
                turn: TurnView::begin(self.incoming, self.incoming_generation, true),
                incoming: Seq::empty(),
                ..self
            }.put(Task::NextEvent)
        }
    }

    /// The events that were too many go to the server, but for the mouse; and everything
    /// that waits to be sent goes out.
    pub open spec fn admission_tail(self) -> RendererView {
        let events = model::without_mouse(
            model::sendable(self.incoming),
        );
        let queued = if events.len() == 0 {
            self
        } else {
            self.queue_server_events(events)
        };
        RendererView {
            incoming: Seq::empty(),
            result: queued.outbound_messages,
            outbound_messages: Seq::empty(),
            ..queued
        }
    }

    pub open spec fn admit_pixel(self, pixel: PixelEvent, generation: u64) -> RendererView {
        if self.would_overflow(
            (InputUsage { events: 1, payload: pixel.payload }),
        ) {
            self.put(Task::DropResult).put(Task::ReleasePending).put(Task::BeginFallback)
        } else {
            self.put(Task::Pixel { pixel, generation, observe: true })
        }
    }

    /// The input of the server from now on.
    pub open spec fn to_server(self) -> RendererView {
        RendererView {
            awaiting_fallback: false,
            awaiting_promotion: false,
            server_owned_input: true,
            ..self
        }
    }

    /// Events for the server, without the mouse.
    pub open spec fn events_to_server(self, events: Seq<RoutedEvent>) -> RendererView {
        let owned = self.to_server();
        RendererView {
            turn: TurnView::begin(model::without_mouse(events), 0, false),
            ..owned
        }.put(Task::NextEvent)
    }

    /// Everything that waits, in the order in which it would have gone out.
    pub open spec fn pending_events(self) -> Seq<RoutedEvent> {
        model::message_events(self.outbound_messages)
            + model::deferred_events(self.post_send_input)
            + model::link_events(
            (match self.pending_link_input {
                Some(input) => seq![input],
                None => Seq::empty(),
            }) + self.queued_link_inputs,
        ) + model::deferred_events(self.deferred_messages)
    }

    pub open spec fn release_pending(self) -> RendererView {
        RendererView {
            outbound_messages: Seq::empty(),
            post_send_input: Seq::empty(),
            queued_link_inputs: Seq::empty(),
            deferred_messages: Seq::empty(),
            ..self.clear_activation()
        }.put(Task::ReleasedPending).events_to_server(self.pending_events())
    }

    pub open spec fn released_pending(self) -> RendererView {
        RendererView {
            outbound_messages: self.outbound_messages + self.result,
            result: Seq::empty(),
            effects: Seq::empty(),
            ..self
        }
    }

    pub open spec fn release_deferred(self) -> RendererView {
        if self.awaiting() {
            RendererView {
                awaiting_fallback: false,
                awaiting_promotion: false,
                work: self.deferred_messages,
                deferred_messages: Seq::empty(),
                ..self
            }.put(Task::ReleaseNext)
        } else {
            self
        }
    }

    pub open spec fn release_next(self) -> RendererView {
        if self.work.len() == 0 {
            self
        } else {
            let rest = RendererView { work: self.work.drop_first(), ..self };
            match self.work[0] {
                DeferredView::InputEvents { events, .. } => rest.put(
                    Task::ReleaseRouted,
                ).events_to_server(events),
                DeferredView::InputPixels { .. } => rest.put(
                    Task::ReleaseNext,
                ),
            }
        }
    }

    pub open spec fn release_routed(self) -> RendererView {
        if self.result.len() > 0 {
            self.sent_before()
        } else {
            self.put(Task::ReleaseNext)
        }
    }

    pub open spec fn promote_next(self, generation: u64) -> RendererView {
        if self.work.len() == 0 {
            self
        } else if self.awaiting_fallback {
            RendererView {
                deferred_messages: self.deferred_messages + self.work,
                work: Seq::empty(),
                ..self
            }
        } else {
            let rest = RendererView { work: self.work.drop_first(), ..self };
            match self.work[0] {
                DeferredView::InputEvents { events, .. } => RendererView {
                    turn: TurnView::begin(
                        model::without_mouse(events),
                        generation,
                        false,
                    ),
                    ..rest.put(Task::PromoteRouted(generation))
                }.put(Task::NextEvent),
                DeferredView::InputPixels { .. } => rest.put(
                    Task::PromoteNext(generation),
                ),
            }
        }
    }

    pub open spec fn promote_routed(self, generation: u64) -> RendererView {
        if self.result.len() > 0 {
            self.sent_before()
        } else {
            self.put(Task::PromoteNext(generation))
        }
    }

    pub open spec fn flush_post(self) -> RendererView {
        if self.post_send_input.len() == 0 {
            self.with_result(Seq::empty())
        } else {
            RendererView {
                work: self.post_send_input.drop_first(),
                post_send_input: Seq::empty(),
                ..self
            }.put(Task::FlushPosted).start_item(self.post_send_input[0])
        }
    }

    pub open spec fn flush_posted(self) -> RendererView {
        let joined = RendererView {
            post_send_input: self.post_send_input + self.work,
            work: Seq::empty(),
            ..self
        };
        if self.result.len() > 0 {
            joined
        } else {
            joined.put(Task::FlushPost)
        }
    }

    // ---- The server's answer about a link -----------------------------------------------------
    pub open spec fn resolve_link(
        self,
        launch_id: u64,
        request_id: u64,
        activated: bool,
        generation: u64,
    ) -> RendererView {
        if self.pending_link_request_id != Some(request_id) {
            self
        } else if !(self.target matches Some(target) && target.launch_id == launch_id) {
            self.clear_activation().drain_for(generation)
        } else if activated {
            // The rest of the click stays with the link; what was kept of it is void.
            RendererView {
                pending_link_request_id: None,
                pending_link_input: None,
                ..self
            }.drain_for(generation)
        } else {
            let refused = RendererView {
                pending_link_request_id: None,
                pending_link_input: None,
                pending_link_click: false,
                ..self
            };
            match self.pending_link_input {
                None => refused.drain_for(generation),
                Some(input) => if input.generation() != generation {
                    refused.drain_for(generation)
                } else {
                    refused.put(Task::DrainQueued).replay_input(input, generation)
                },
            }
        }
    }

    /// The click was no link after all: it goes where it would have gone.
    pub open spec fn replay_input(
        self,
        input: LinkInputView,
        generation: u64,
    ) -> RendererView {
        match input {
            LinkInputView::Events { events, .. } => if self.local_active() {
                RendererView {
                    replay: events,
                    replay_render: false,
                    ..self
                }.put(Task::ReplayNext(generation))
            } else {
                self.queue_server_events(events)
            },
            LinkInputView::Pixels { inputs, .. } => if self.local_active() {
                let started = RendererView {
                    replay_pixels: inputs,
                    replay_render: false,
                    ..self
                };
                if self.running() {
                    started.put(Task::ReplayPixel(generation))
                } else {
                    started.put(Task::DeferReplayPixels(generation)).put(Task::BeginFallback)
                }
            } else {
                RendererView {
                    outbound_messages: self.outbound_messages + Seq::new(
                        inputs.len(),
                        |i: int|
                            MessageView::InputPixels { pixel: inputs[i] },
                    ),
                    ..self
                }
            },
        }
    }

    pub open spec fn replay_done(self, failed: Option<Task>) -> RendererView {
        let after = match failed {
            Some(task) => self.put(task).put(Task::BeginFallback),
            None => self,
        };
        after.moved(self.replay_render)
    }

    pub open spec fn replay_next(self, generation: u64) -> RendererView {
        if self.replay.len() > 0 {
            self.put(Task::ReplayRouted(generation)).put(Task::Local(self.replay[0]))
        } else {
            self.replay_done(None)
        }
    }

    pub open spec fn replay_routed(self, generation: u64) -> RendererView {
        let seen = RendererView { replay_render: self.replay_render || self.local.0, ..self };
        if self.local.1 {
            RendererView { replay: rest(self.replay), ..seen }.put(Task::ReplayNext(generation))
        } else {
            seen.replay_done(Some(Task::DeferReplay(generation)))
        }
    }

    pub open spec fn defer_replay(self, generation: u64) -> RendererView {
        RendererView {
            deferred_messages: self.deferred_messages.push(
                DeferredView::InputEvents {
                    events: self.replay,
                    generation,
                },
            ),
            replay: Seq::empty(),
            ..self
        }
    }

    pub open spec fn replay_pixel(self, generation: u64) -> (RendererView, Step) {
        match self.target {
            Some(target) => if self.replay_pixels.len() > 0 {
                self.ask(
                    Ask::LocalMouse { pixel: self.replay_pixels[0], size: target.size },
                    Task::ReplayPixelLocal(generation),
                )
            } else {
                self.replay_done(None).go()
            },
            None => self.replay_done(None).go(),
        }
    }

    pub open spec fn replay_pixel_local(self, generation: u64, mouse: Option<LocalMouse>) -> (
        RendererView,
        Step,
    ) {
        match mouse {
            Some(mouse) => if self.replay_pixels.len() > 0 {
                self.ask(
                    Ask::ForwardPixel(self.replay_pixels[0]),
                    Task::ReplayPixelSent {
                        generation,
                        wheel: model::wheel(mouse.kind),
                    },
                )
            } else {
                self.replay_done(None).go()
            },
            None => self.replay_done(Some(Task::DeferReplayPixels(generation))).go(),
        }
    }

    pub open spec fn replay_pixel_sent(
        self,
        generation: u64,
        wheel: bool,
        sent: bool,
    ) -> RendererView {
        if sent {
            RendererView {
                replay_render: self.replay_render || wheel,
                replay_pixels: rest(self.replay_pixels),
                ..self
            }.put(Task::ReplayPixel(generation))
        } else {
            self.replay_done(Some(Task::DeferReplayPixels(generation)))
        }
    }

    pub open spec fn defer_replay_pixels(self, generation: u64) -> RendererView {
        let left = self.replay_pixels;
        RendererView {
            deferred_messages: self.deferred_messages + Seq::new(
                left.len(),
                |i: int|
                    DeferredView::InputPixels {
                        pixel: left[i],
                        generation,
                    },
            ),
            ..self
        }
    }

    // ---- What the server says about the renderer ----------------------------------------------
    pub open spec fn apply_target(self) -> RendererView {
        match self.request {
            None => self,
            Some(request) => if !self.available || request.launch_id < self.latest_launch_id {
                self
            } else {
                match request.route {
                    None => RendererView { latest_launch_id: request.launch_id, ..self }.put(
                        Task::ClearCached,
                    ).put(Task::StopTarget).put(Task::ReleasePending).put(Task::Handoff),
                    Some(route) => {
                        let replace = request.launch_id > self.latest_launch_id || (
                        self.target matches Some(target) && (target.launch_id != request.launch_id
                            || target.target_app_client_id != request.target_app_client_id
                            || target.route != route));
                        let next = self.put(Task::ApplyBinding);
                        if replace {
                            next.put(Task::SpawnTarget).put(Task::StopTarget).put(
                                Task::ReleasePending,
                            ).put(Task::Handoff)
                        } else {
                            next
                        }
                    },
                }
            },
        }
    }

    pub open spec fn spawn_target(self) -> (RendererView, Step) {
        match self.request {
            None => self.go(),
            Some(request) => RendererView {
                cached_server_frame: None,
                latest_launch_id: request.launch_id,
                ..self
            }.ask(Ask::Spawn, Task::Spawned),
        }
    }

    pub open spec fn spawned(self, started: bool) -> RendererView {
        match (self.request, started) {
            (Some(request), true) => RendererView {
                target: match request.route {
                    Some(route) => Some(
                        TargetView {
                            launch_id: request.launch_id,
                            target_app_client_id: request.target_app_client_id,
                            route,
                            running: true,
                            size: request.size,
                            started_at: request.now,
                            bound_at: None,
                            bound: false,
                            surface_active: false,
                            first_damage: false,
                            ready_reported: false,
                            promoted: false,
                            failed: false,
                            fallback_confirmed: false,
                            unread: Seq::empty(),
                        },
                    ),
                    None => None,
                },
                needs_render: true,
                ..self
            },
            _ => RendererView { target: None, needs_render: true, ..self },
        }
    }

    pub open spec fn apply_binding(self) -> RendererView {
        match self.request {
            None => self,
            Some(request) => {
                let loses_binding = self.target matches Some(target) && target.bound
                    && !request.bound;
                let next = self.put(Task::ApplySurface { loses_binding });
                if loses_binding {
                    next.put(Task::ReleasePending)
                } else if !request.bound {
                    RendererView { cached_server_frame: None, ..next }.release_deferred()
                } else {
                    next
                }
            },
        }
    }

    pub open spec fn apply_surface(self, loses_binding: bool) -> RendererView {
        match self.request {
            None => self,
            Some(request) => {
                let next = self.put(Task::ApplyState);
                let retired = if loses_binding {
                    next.put(Task::Retire)
                } else {
                    next
                };
                if self.local_selected && (self.target matches Some(target) && ((
                target.surface_active && !request.surface_active) || loses_binding)) {
                    retired.put(Task::Handoff)
                } else {
                    retired
                }
            },
        }
    }

    /// The renderer's new state.
    pub open spec fn target_applied(
        target: TargetView,
        request: RequestView,
    ) -> TargetView {
        let confirmed = TargetView {
            fallback_confirmed: target.fallback_confirmed || (!request.bound
                && target.ready_reported),
            ..target
        };
        let checked = if target.bound && !request.bound {
            confirmed.fail()
        } else {
            confirmed
        };
        let bound = request.bound && !checked.failed;
        TargetView {
            bound_at: if request.bound && !checked.bound {
                Some(request.now)
            } else {
                checked.bound_at
            },
            bound,
            surface_active: request.surface_active && !checked.failed,
            promoted: checked.ready_reported && bound,
            size: request.size,
            ..checked
        }
    }

    /// The renderer has its new state.
    pub open spec fn target_shown(
        self,
        was_active: bool,
        target: TargetView,
    ) -> RendererView {
        RendererView {
            target: Some(target),
            cached_server_frame: if was_active && !target.surface_active {
                None
            } else {
                self.cached_server_frame
            },
            server_owned_input: self.server_owned_input && !(target.bound
                && target.surface_active),
            needs_render: true,
            ..self
        }.put(Task::Refresh).put(Task::Remap)
    }

    /// The server confirmed the renderer: what waited for that is settled.
    pub open spec fn promoted_by(
        self,
        target: TargetView,
        generation: u64,
    ) -> RendererView {
        if self.awaiting_promotion && target.ready_reported && target.bound {
            self.resolve_promotion(
                target.surface_active && target.first_damage && target.running && !target.failed
                    && !self.server_owned_input && !self.server_forwarded_overflow,
                generation,
            )
        } else {
            self
        }
    }

    /// The renderer's terminal is stopped, or learns its size.
    pub open spec fn terminal_told(
        self,
        was_running: bool,
        running: bool,
        size: SurfaceSize,
    ) -> RendererView {
        if running {
            self.put(Task::Perform(Ask::ResizeRuntime(size)))
        } else if was_running {
            self.put(Task::Perform(Ask::StopRuntime))
        } else {
            self
        }
    }

    pub open spec fn apply_state(self) -> RendererView {
        match (self.request, self.target) {
            (Some(request), Some(old_target)) => if old_target.launch_id != request.launch_id {
                self
            } else {
                let target = RendererView::target_applied(old_target, request);
                self.target_shown(old_target.surface_active, target).promoted_by(
                    target,
                    request.generation,
                ).terminal_told(old_target.running, target.running, request.size)
            },
            _ => self,
        }
    }

    pub open spec fn resolve_promotion(self, active: bool, generation: u64) -> RendererView {
        let settled = RendererView {
            awaiting_promotion: false,
            work: self.deferred_messages,
            deferred_messages: Seq::empty(),
            ..self
        };
        if active {
            RendererView {
                local_selected: true,
                cached_server_frame: None,
                handoff_frame: None,
                suppress_link_affordance: false,
                ..settled
            }.repaint().put(Task::PromoteNext(generation))
        } else {
            settled.put(Task::ReleaseNext)
        }
    }

    pub open spec fn target_stopped(self) -> RendererView {
        let stopped = RendererView {
            target: None,
            force_repaint: self.force_repaint || self.local_selected || self.server_owned_input
                || self.server_forwarded_overflow,
            local_selected: false,
            server_owned_input: false,
            hovered_link_cells: None,
            needs_render: true,
            ..self.clear_click()
        };
        if self.running() {
            stopped.put(Task::Perform(Ask::StopRuntime))
        } else {
            stopped
        }
    }

    pub open spec fn resized(
        self,
        size: SurfaceSize,
        geometry: Option<crate::input::framing::HostGeometry>,
        generation: u64,
    ) -> RendererView {
        let kept = self.thinned(size, geometry, generation).repaint().put(Task::Refresh);
        let placed = if kept.pointer_pixels is Some {
            kept.put(Task::Remap)
        } else {
            kept.set_pointer(None)
        };
        if self.running() {
            placed.put(Task::Perform(Ask::ResizeRuntime(size)))
        } else {
            placed
        }
    }

    /// Only what is still true at a new size is kept.
    pub open spec fn thinned(
        self,
        size: SurfaceSize,
        geometry: Option<crate::input::framing::HostGeometry>,
        generation: u64,
    ) -> RendererView {
        RendererView {
            deferred_messages: model::all_kept(self.deferred_messages, generation),
            post_send_input: model::all_kept(self.post_send_input, generation),
            pointer_pixels: match (self.pointer_pixels, geometry) {
                (Some(pointer), Some(geometry)) => Some(HostPixels { geometry, ..pointer }),
                _ => None,
            },
            target: match self.target {
                Some(target) => Some(TargetView { size, ..target }),
                None => None,
            },
            ..self
        }
    }

    // ---- What is shown ------------------------------------------------------------------------
    /// The renderer's terminal was polled.
    pub open spec fn poll(
        self,
        now: u64,
        size: (u16, u16),
        damage: Option<bool>,
        events: Seq<TargetEvent>,
    ) -> RendererView {
        match self.target {
            Some(old_target) => {
                let (target, effects, damaged) = model::polled(
                    old_target,
                    damage,
                    events,
                    now,
                );
                let seen = RendererView {
                    target: Some(target),
                    effects: self.effects + effects,
                    ..self
                }.put(Task::Polled { size, damaged });
                if old_target.running && !target.running {
                    seen.put(Task::Perform(Ask::StopRuntime))
                } else {
                    seen
                }
            },
            None => self.put(Task::Polled { size, damaged: false }),
        }
    }

    pub open spec fn polled(self, size: (u16, u16), damaged: bool) -> RendererView {
        match self.target {
            Some(target) => {
                let ready = target.bound && target.first_damage && target.running && !target.failed
                    && !target.ready_reported;
                let reported = if ready {
                    RendererView {
                        target: Some(
                            TargetView { ready_reported: true, ..target },
                        ),
                        outbound_messages: self.outbound_messages.push(
                            MessageView::OmpRendererReady {
                                launch_id: target.launch_id,
                            },
                        ),
                        awaiting_promotion: true,
                        ..self
                    }
                } else {
                    self
                };
                let fallen = if target.failed && target.ready_reported
                    && !target.fallback_confirmed {
                    RendererView {
                        awaiting_promotion: false,
                        awaiting_fallback: true,
                        cached_server_frame: None,
                        ..reported
                    }
                } else {
                    reported
                };
                let next = fallen.put(Task::Select { size, damaged });
                if target.failed || !target.running {
                    next.put(Task::Retire)
                } else {
                    next
                }
            },
            None => self.put(Task::Select { size, damaged }),
        }
    }

    /// Whether the renderer's own picture is to be shown.
    pub open spec fn should_select(self) -> bool {
        self.target matches Some(target) && !target.failed && target.running && target.bound
            && target.surface_active && target.first_damage && !self.server_owned_input
            && !self.server_forwarded_overflow
    }

    pub open spec fn select(self, size: (u16, u16), damaged: bool) -> RendererView {
        let select = self.should_select();
        if select == self.local_selected {
            let next = self.put(Task::Draw { size, damaged });
            if damaged {
                next.put(Task::Refresh)
            } else {
                next
            }
        } else {
            let next = self.put(Task::Selected { size, damaged, select });
            if select {
                next
            } else {
                next.put(Task::Handoff)
            }
        }
    }

    pub open spec fn selected(self, size: (u16, u16), damaged: bool, select: bool) -> RendererView {
        let chosen = RendererView { local_selected: select, ..self };
        (if select {
            RendererView {
                cached_server_frame: None,
                handoff_frame: None,
                suppress_link_affordance: false,
                ..chosen
            }
        } else {
            chosen
        }).repaint().put(Task::Draw { size, damaged }).put(Task::Refresh)
    }

    pub open spec fn draw(self, size: (u16, u16), damaged: bool) -> (RendererView, Step) {
        let none = RendererView { surface: None, ..self };
        if self.local_selected && (damaged || self.needs_render) {
            if self.running() {
                none.ask(Ask::RenderFrame { columns: size.0, rows: size.1 }, Task::Drawn)
            } else {
                none.go()
            }
        } else if !self.local_selected && self.needs_render {
            let settled = RendererView { needs_render: false, force_repaint: false, ..none };
            match (self.cached_server_frame, self.handoff_frame) {
                (Some(frame), _) => RendererView {
                    surface: Some((frame, self.force_repaint)),
                    ..settled
                }.go(),
                (None, Some(frame)) => RendererView {
                    surface: Some((frame, self.force_repaint)),
                    handoff_frame: None,
                    ..settled
                }.go(),
                (None, None) => settled.go(),
            }
        } else {
            none.go()
        }
    }

    pub open spec fn drawn(self, frame: Option<FrameView>) -> RendererView {
        match frame {
            None => self,
            Some(frame) => RendererView {
                handoff_frame: Some(frame.without_links()),
                surface: Some(
                    (
                        match self.hovered_link_cells {
                            Some(cells) => frame.underlined(cells),
                            None => frame,
                        },
                        self.force_repaint,
                    ),
                ),
                force_repaint: false,
                needs_render: false,
                ..self
            },
        }
    }

    // ---- One step -----------------------------------------------------------------------------
    pub open spec fn performed(self, task: Task, answer: AnswerView) -> (
        RendererView,
        Step,
    ) {
        match task {
            Task::NextEvent => self.next_event(),
            Task::OwnsAnswered(event) => if answer.yes() {
                self.post_in_turn(event).go()
            } else {
                self.put(Task::Existing(event)).go()
            },
            Task::Existing(event) => self.existing(event),
            Task::PhysicalAnswered(event) => self.physical_answered(event, answer.physical()),
            Task::PhysicalForwarded(event) => self.physical_forwarded(event, answer.yes()).go(),
            Task::Navigated => self.moved(answer.yes()).go(),
            Task::SemanticAnswered(event) => self.semantic_answered(event, answer.semantic()),
            Task::SemanticForwarded(event) => self.semantic_forwarded(event, answer.yes()).go(),
            Task::Observe(event) => self.observe(event).go(),
            Task::Clicked(event) => self.clicked(event),
            Task::FocusReleased { event, forward } => self.focus_released(event, forward).go(),
            Task::LinkAnswered { event, request_id } => self.link_answered(
                event,
                request_id,
                answer.link(),
            ).go(),
            Task::Keyed(event) => self.keyed(event),
            Task::PrefixAnswered(event) => self.prefix_answered(event, answer.yes()).go(),
            Task::PrefixDone => self.prefix_done().go(),
            Task::Owned(event) => self.owned(event).go(),
            Task::LocalRouted(event) => self.local_routed(event).go(),
            Task::DeferEvent(event) => self.defer_in_turn(event).go(),
            Task::Local(event) => self.local_event(event),
            Task::Reserved { event, navigate } => self.reserved(
                event,
                navigate,
                answer.reserved(),
            ).go(),
            Task::ReleasesDone { event, navigate } => self.releases_done(event, navigate),
            Task::LocalNavigated(event) => self.local_navigated(event, answer.yes()).go(),
            Task::SemanticPressed(event) => self.semantic_pressed(event, answer.semantic()),
            Task::OwnsSemanticAnswered(event) => self.owns_semantic_answered(event, answer.yes()),
            Task::LocalForward(event) => self.local_forward(event),
            Task::LocalSent(event) => self.local_sent(event, answer.yes()).go(),
            Task::Perform(question) => (self, Step::Ask(question)),
            Task::BeginFallback => self.begin_fallback().go(),
            Task::FailTarget => self.fail_target().go(),
            Task::Fallen => self.fallen().go(),
            Task::Handoff => self.handoff(),
            Task::HandoffDrawn => self.handoff_drawn(answer.drawn()).go(),
            Task::Retire => self.ask(Ask::RetireOwner, Task::Retired),
            Task::Retired => self.put(Task::ForwardReleases(answer.releases())).go(),
            Task::ForwardReleases(count) => self.forward_releases(count),
            Task::Delivered => RendererView { delivered: answer.yes(), ..self }.go(),
            Task::Refresh => self.refresh(),
            Task::Refreshed => self.refreshed(answer.link()).go(),
            Task::Remap => self.remap(),
            Task::Remapped => self.set_pointer(answer.cell()).go(),
            Task::FocusLoss => self.focus_loss(),
            Task::FocusAsked => self.put(Task::FocusOwned(answer.yes())).go(),
            Task::FocusOwned(forward) => self.ask(
                Ask::ReleaseForFocusLoss,
                Task::FocusReleases(forward),
            ),
            Task::FocusReleases(forward) => self.focus_releases(forward, answer.releases()).go(),
            Task::FocusForward(forward) => self.focus_forward(forward),
            Task::FocusSent => self.focus_done(self.delivered && answer.yes()).go(),
            Task::DeferOverflow => RendererView {
                deferred_messages: self.deferred_messages + model::all_deferred(
                    self.overflow,
                ),
                overflow: Seq::empty(),
                ..self
            }.go(),
            Task::Pixel { pixel, generation, observe } => self.pixel(
                pixel,
                generation,
                observe,
            ).go(),
            Task::PixelLocal { pixel, generation } => self.pixel_local(pixel, generation),
            Task::PixelPlaced { pixel, generation } => self.pixel_placed(
                pixel,
                generation,
                answer.mouse(),
            ),
            Task::PixelLink { pixel, generation, mouse, request_id } => self.pixel_link(
                pixel,
                generation,
                mouse,
                request_id,
                answer.link(),
            ),
            Task::PixelSent { pixel, generation, wheel } => self.pixel_sent(
                pixel,
                generation,
                wheel,
                answer.yes(),
            ).go(),
            Task::DeferPixel { pixel, generation } => self.defer_pixel(pixel, generation).go(),
            Task::AdmitPixel { pixel, generation } => self.admit_pixel(pixel, generation).go(),
            Task::DropResult => self.with_result(Seq::empty()).go(),
            Task::CancelStale(generation) => self.cancel_stale(generation).go(),
            Task::DrainQueued => self.drain_queued().go(),
            Task::DrainNext => self.drain_next().go(),
            Task::DrainRouted => self.drain_routed().go(),
            Task::Admit => self.take_in().go(),
            Task::AdmissionTail => self.admission_tail().go(),
            Task::ReleasePending => self.release_pending().go(),
            Task::ReleasedPending => self.released_pending().go(),
            Task::ReleaseNext => self.release_next().go(),
            Task::ReleaseRouted => self.release_routed().go(),
            Task::PromoteNext(generation) => self.promote_next(generation).go(),
            Task::PromoteRouted(generation) => self.promote_routed(generation).go(),
            Task::FlushPost => self.flush_post().go(),
            Task::FlushPosted => self.flush_posted().go(),
            Task::ReplayNext(generation) => self.replay_next(generation).go(),
            Task::ReplayRouted(generation) => self.replay_routed(generation).go(),
            Task::DeferReplay(generation) => self.defer_replay(generation).go(),
            Task::ReplayPixel(generation) => self.replay_pixel(generation),
            Task::ReplayPixelLocal(generation) => self.replay_pixel_local(
                generation,
                answer.mouse(),
            ),
            Task::ReplayPixelSent { generation, wheel } => self.replay_pixel_sent(
                generation,
                wheel,
                answer.yes(),
            ).go(),
            Task::DeferReplayPixels(generation) => self.defer_replay_pixels(generation).go(),
            Task::ApplyTarget => self.apply_target().go(),
            Task::SpawnTarget => self.spawn_target(),
            Task::Spawned => self.spawned(answer.yes()).go(),
            Task::ApplyBinding => self.apply_binding().go(),
            Task::ApplySurface { loses_binding } => self.apply_surface(loses_binding).go(),
            Task::ApplyState => self.apply_state().go(),
            Task::StopTarget => self.put(Task::TargetStopped).put(Task::Retire).go(),
            Task::TargetStopped => self.target_stopped().go(),
            Task::ClearCached => RendererView { cached_server_frame: None, ..self }.go(),
            Task::Resized { size, geometry, generation } => self.resized(
                size,
                geometry,
                generation,
            ).go(),
            Task::Polled { size, damaged } => self.polled(size, damaged).go(),
            Task::Select { size, damaged } => self.select(size, damaged).go(),
            Task::Selected { size, damaged, select } => self.selected(size, damaged, select).go(),
            Task::Draw { size, damaged } => self.draw(size, damaged),
            Task::Drawn => self.drawn(answer.drawn()).go(),
        }
    }

    /// One step: the topmost task, with the answer to the last question.
    pub open spec fn advanced(self, answer: AnswerView) -> (
        RendererView,
        Step,
    ) {
        if self.tasks.len() == 0 {
            (self, Step::Finished)
        } else {
            RendererView { tasks: self.tasks.drop_last(), ..self }.performed(
                self.tasks.last(),
                answer,
            )
        }
    }

    /// Nothing is in progress.
    pub open spec fn idle(self) -> bool {
        self.tasks.len() == 0
    }
}

} // verus!
