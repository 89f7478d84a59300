//! The renderer's fields.
//!
//! Each function here reads or changes one field, and says so over the renderer's state.
use crate::renderer::frame::{Frame, FrameView};
use crate::renderer::lists::{
    self, client_input_events_usage, collect_deferred, collect_messages, deferred_links,
    deferred_usage, events_sendable, join_deferred, join_link, join_message, kept_deferred,
    kept_links, links_usage, messages_usage, no_messages, pop_deferred, push_deferred, push_link,
    push_message, take_deferred, take_events, take_message,
};
use crate::renderer::model::{
    self, ClientMessage, DeferredMessage, DeferredView, HostPixels, InputUsage, LinkInput,
    LinkInputView, LinkView, LocalEffect, LocalTarget, MessageView, PixelEvent, RoutedEvent,
    SurfaceSize, TargetView, TerminalLink,
};
use crate::renderer::state::{self, RendererView, RequestView, TargetRequest, Task, TurnView};
use vstd::prelude::*;

verus! {

/// The turn of some events.
struct Turn {
    events: Vec<RoutedEvent>,
    generation: u64,
    observe: bool,
    messages: Vec<ClientMessage>,
    batch: Vec<RoutedEvent>,
    deferred: Vec<RoutedEvent>,
    post_send: Vec<RoutedEvent>,
    tail: bool,
}

impl View for Turn {
    type V = TurnView;

    closed spec fn view(&self) -> TurnView {
        TurnView {
            events: self.events@,
            generation: self.generation,
            observe: self.observe,
            messages: model::message_views(self.messages@),
            batch: self.batch@,
            deferred: self.deferred@,
            post_send: self.post_send@,
            tail: self.tail,
        }
    }
}

impl Turn {
    fn begin(events: Vec<RoutedEvent>, generation: u64, observe: bool) -> (turn: Turn)
        ensures
            turn@ == TurnView::begin(events@, generation, observe),
    {
        let turn = Turn {
            events,
            generation,
            observe,
            messages: no_messages(),
            batch: Vec::new(),
            deferred: Vec::new(),
            post_send: Vec::new(),
            tail: false,
        };
        turn
    }
}

/// The client's renderer of a pane.
pub struct ClientOmpRenderer {
    available: bool,
    max_link_url: usize,
    latest_launch_id: u64,
    target: Option<LocalTarget>,
    cached_server_frame: Option<Frame>,
    handoff_frame: Option<Frame>,
    local_selected: bool,
    server_owned_input: bool,
    server_forwarded_presses: Vec<u64>,
    server_forwarded_overflow: bool,
    next_link_request_id: u64,
    pending_link_click: bool,
    pending_link_request_id: Option<u64>,
    pending_link_input: Option<LinkInput>,
    queued_link_inputs: Vec<LinkInput>,
    pointer_cell: Option<(u16, u16)>,
    pointer_pixels: Option<HostPixels>,
    hovered_link_cells: Option<Vec<(u16, u16)>>,
    suppress_link_affordance: bool,
    awaiting_fallback: bool,
    awaiting_promotion: bool,
    deferred_messages: Vec<DeferredMessage>,
    outbound_messages: Vec<ClientMessage>,
    post_send_input: Vec<DeferredMessage>,
    effects: Vec<LocalEffect>,
    needs_render: bool,
    force_repaint: bool,
    tasks: Vec<Task>,
    turn: Turn,
    incoming: Vec<RoutedEvent>,
    incoming_generation: u64,
    work: Vec<DeferredMessage>,
    overflow: Vec<LinkInput>,
    delivered: bool,
    focus_delivered: bool,
    local: (bool, bool),
    replay: Vec<RoutedEvent>,
    replay_pixels: Vec<PixelEvent>,
    replay_render: bool,
    request: Option<TargetRequest>,
    result: Vec<ClientMessage>,
    surface: Option<SurfaceFrame>,
}

/// A frame to show.
#[derive(Debug, Clone, PartialEq, Eq)]
pub struct SurfaceFrame {
    pub frame: Frame,
    /// Whether everything is to be drawn anew.
    pub force_repaint: bool,
}

pub open spec fn frame_view(frame: Option<Frame>) -> Option<FrameView> {
    match frame {
        Some(frame) => Some(frame@),
        None => None,
    }
}

pub open spec fn surface_view(surface: Option<SurfaceFrame>) -> Option<
    (FrameView, bool),
> {
    match surface {
        Some(surface) => Some((surface.frame@, surface.force_repaint)),
        None => None,
    }
}

pub open spec fn input_view(input: Option<LinkInput>) -> Option<
    LinkInputView,
> {
    match input {
        Some(input) => Some(input@),
        None => None,
    }
}

pub open spec fn target_view(target: Option<LocalTarget>) -> Option<
    TargetView,
> {
    match target {
        Some(target) => Some(target@),
        None => None,
    }
}

pub open spec fn request_view(request: Option<TargetRequest>) -> Option<
    RequestView,
> {
    match request {
        Some(request) => Some(request@),
        None => None,
    }
}

pub open spec fn link_view(link: Option<TerminalLink>) -> Option<
    LinkView,
> {
    match link {
        Some(link) => Some(link@),
        None => None,
    }
}

impl View for ClientOmpRenderer {
    type V = RendererView;

    closed spec fn view(&self) -> RendererView {
        RendererView {
            available: self.available,
            max_link_url: self.max_link_url,
            latest_launch_id: self.latest_launch_id,
            target: target_view(self.target),
            cached_server_frame: frame_view(self.cached_server_frame),
            handoff_frame: frame_view(self.handoff_frame),
            local_selected: self.local_selected,
            server_owned_input: self.server_owned_input,
            server_forwarded_presses: self.server_forwarded_presses@,
            server_forwarded_overflow: self.server_forwarded_overflow,
            next_link_request_id: self.next_link_request_id,
            pending_link_click: self.pending_link_click,
            pending_link_request_id: self.pending_link_request_id,
            pending_link_input: input_view(self.pending_link_input),
            queued_link_inputs: model::link_views(self.queued_link_inputs@),
            pointer_cell: self.pointer_cell,
            pointer_pixels: self.pointer_pixels,
            hovered_link_cells: lists::cells_view(self.hovered_link_cells),
            suppress_link_affordance: self.suppress_link_affordance,
            awaiting_fallback: self.awaiting_fallback,
            awaiting_promotion: self.awaiting_promotion,
            deferred_messages: model::deferred_views(self.deferred_messages@),
            outbound_messages: model::message_views(self.outbound_messages@),
            post_send_input: model::deferred_views(self.post_send_input@),
            effects: self.effects@,
            needs_render: self.needs_render,
            force_repaint: self.force_repaint,
            tasks: self.tasks@,
            turn: self.turn@,
            incoming: self.incoming@,
            incoming_generation: self.incoming_generation,
            work: model::deferred_views(self.work@),
            overflow: model::link_views(self.overflow@),
            delivered: self.delivered,
            focus_delivered: self.focus_delivered,
            local: self.local,
            replay: self.replay@,
            replay_pixels: self.replay_pixels@,
            replay_render: self.replay_render,
            request: request_view(self.request),
            result: model::message_views(self.result@),
            surface: surface_view(self.surface),
        }
    }
}

/// What matters of a turn at the moment.
pub(crate) struct TurnState {
    pub generation: u64,
    pub observe: bool,
    pub tail: bool,
    /// Whether there are any of each.
    pub events: bool,
    pub batch: bool,
    pub deferred: bool,
    pub post_send: bool,
}

impl ClientOmpRenderer {
    /// A renderer without work. `available` tells whether there is an executable for the
    /// guest; `max_link_url` is the longest link that the server takes.
    pub fn new(available: bool, max_link_url: usize) -> (renderer: Self)
        ensures
            renderer@.idle(),
            renderer@.available == available,
            renderer@.max_link_url == max_link_url,
            renderer@.latest_launch_id == 0,
            renderer@.target is None,
            renderer@.cached_server_frame is None,
            renderer@.handoff_frame is None,
            !renderer@.local_selected,
            !renderer@.server_owned_input,
            renderer@.server_forwarded_presses == Seq::<u64>::empty(),
            !renderer@.server_forwarded_overflow,
            renderer@.next_link_request_id == 1,
            !renderer@.pending_link_click,
            renderer@.pending_link_request_id is None,
            renderer@.pending_link_input is None,
            renderer@.queued_link_inputs == Seq::<
                LinkInputView,
            >::empty(),
            renderer@.pointer_cell is None,
            renderer@.pointer_pixels is None,
            renderer@.hovered_link_cells is None,
            !renderer@.suppress_link_affordance,
            !renderer@.awaiting_fallback,
            !renderer@.awaiting_promotion,
            renderer@.deferred_messages == Seq::<DeferredView>::empty(),
            renderer@.outbound_messages == Seq::<MessageView>::empty(),
            renderer@.post_send_input == Seq::<DeferredView>::empty(),
            renderer@.effects == Seq::<LocalEffect>::empty(),
            !renderer@.needs_render,
            !renderer@.force_repaint,
            renderer@.overflow == Seq::<LinkInputView>::empty(),
            renderer@.work == Seq::<DeferredView>::empty(),
            renderer@.turn == TurnView::begin(Seq::empty(), 0, false),
            renderer@.incoming == Seq::<RoutedEvent>::empty(),
            renderer@.replay == Seq::<RoutedEvent>::empty(),
            renderer@.replay_pixels == Seq::<PixelEvent>::empty(),
            renderer@.result == Seq::<MessageView>::empty(),
            renderer@.local == (false, false),
            renderer@.request is None,
            renderer@.surface is None,
    {
        let renderer = ClientOmpRenderer {
            available,
            max_link_url,
            latest_launch_id: 0,
            target: None,
            cached_server_frame: None,
            handoff_frame: None,
            local_selected: false,
            server_owned_input: false,
            server_forwarded_presses: Vec::new(),
            server_forwarded_overflow: false,
            next_link_request_id: 1,
            pending_link_click: false,
            pending_link_request_id: None,
            pending_link_input: None,
            queued_link_inputs: Vec::new(),
            pointer_cell: None,
            pointer_pixels: None,
            hovered_link_cells: None,
            suppress_link_affordance: false,
            awaiting_fallback: false,
            awaiting_promotion: false,
            deferred_messages: Vec::new(),
            outbound_messages: Vec::new(),
            post_send_input: Vec::new(),
            effects: Vec::new(),
            needs_render: false,
            force_repaint: false,
            tasks: Vec::new(),
            turn: Turn::begin(Vec::new(), 0, false),
            incoming: Vec::new(),
            incoming_generation: 0,
            work: Vec::new(),
            overflow: Vec::new(),
            delivered: false,
            focus_delivered: false,
            local: (false, false),
            replay: Vec::new(),
            replay_pixels: Vec::new(),
            replay_render: false,
            request: None,
            result: Vec::new(),
            surface: None,
        };
        proof {
            assert(renderer@.queued_link_inputs =~= Seq::empty());
            assert(renderer@.deferred_messages =~= Seq::empty());
            assert(renderer@.outbound_messages =~= Seq::empty());
            assert(renderer@.post_send_input =~= Seq::empty());
            assert(renderer@.overflow =~= Seq::empty());
            assert(renderer@.work =~= Seq::empty());
            assert(renderer@.result =~= Seq::empty());
        }
        renderer
    }

    pub(crate) fn take_pending_link_input(&mut self) -> (input: Option<LinkInput>)
        ensures
            input_view(input) == old(self)@.pending_link_input,
            final(self)@ == (RendererView {
                pending_link_input: None,
                ..old(self)@
            }),
    {
        self.pending_link_input.take()
    }

    pub(crate) fn set_pending_link_input(&mut self, input: Option<LinkInput>)
        ensures
            final(self)@ == (RendererView {
                pending_link_input: input_view(input),
                ..old(self)@
            }),
    {
        self.pending_link_input = input;
    }

    pub(crate) fn take_queued_link_inputs(&mut self, first: Option<LinkInput>) -> (inputs: Vec<LinkInput>)
        ensures
            model::link_views(inputs@) == (match input_view(first) {
                Some(first) => seq![first],
                None => Seq::empty(),
            }) + old(self)@.queued_link_inputs,
            final(self)@ == (RendererView {
                queued_link_inputs: Seq::empty(),
                ..old(self)@
            }),
    {
        let ghost head = match input_view(first) {
            Some(first) => seq![first],
            None => Seq::empty(),
        };
        let mut inputs: Vec<LinkInput> = Vec::new();
        if let Some(first) = first {
            inputs.push(first);
        }
        assert(model::link_views(inputs@) =~= head);
        join_link(&mut inputs, &mut self.queued_link_inputs);
        inputs
    }

    pub(crate) fn set_overflow(&mut self, inputs: Vec<LinkInput>)
        ensures
            final(self)@ == (RendererView {
                overflow: model::link_views(inputs@),
                ..old(self)@
            }),
    {
        self.overflow = inputs;
    }

    pub(crate) fn take_turn_event(&mut self) -> (event: RoutedEvent)
        requires
            old(self)@.turn.events.len() > 0,
        ensures
            event == old(self)@.turn.events[0],
            final(self)@ == (RendererView {
                turn: TurnView {
                    events: old(self)@.turn.events.drop_first(),
                    ..old(self)@.turn
                },
                ..old(self)@
            }),
    {
        let event = self.turn.events.remove(0);
        assert(self.turn.events@ =~= old(self).turn.events@.drop_first());
        event
    }

    pub(crate) fn take_target(&mut self) -> (target: Option<LocalTarget>)
        ensures
            target_view(target) == old(self)@.target,
            final(self)@ == (RendererView { target: None, ..old(self)@ }),
    {
        self.target.take()
    }

    pub(crate) fn set_target(&mut self, target: Option<LocalTarget>)
        ensures
            final(self)@ == (RendererView {
                target: target_view(target),
                ..old(self)@
            }),
    {
        self.target = target;
    }

    pub(crate) fn target_size(&self) -> (size: Option<SurfaceSize>)
        ensures
            size == (match self@.target {
                Some(target) => Some(target.size),
                None => None,
            }),
    {
        match &self.target {
            Some(target) => Some(target.size),
            None => None,
        }
    }

    // ---- Fields -------------------------------------------------------------------------------
    pub(crate) fn local_selected(&self) -> (value: bool)
        ensures
            value == self@.local_selected,
    {
        self.local_selected
    }

    pub(crate) fn set_local_selected(&mut self, value: bool)
        ensures
            final(self)@ == (RendererView { local_selected: value, ..old(self)@ }),
    {
        self.local_selected = value;
    }

    pub(crate) fn server_owned_input(&self) -> (value: bool)
        ensures
            value == self@.server_owned_input,
    {
        self.server_owned_input
    }

    pub(crate) fn set_server_owned_input(&mut self, value: bool)
        ensures
            final(self)@ == (RendererView { server_owned_input: value, ..old(self)@ }),
    {
        self.server_owned_input = value;
    }

    pub(crate) fn pending_link_click(&self) -> (value: bool)
        ensures
            value == self@.pending_link_click,
    {
        self.pending_link_click
    }

    pub(crate) fn set_pending_link_click(&mut self, value: bool)
        ensures
            final(self)@ == (RendererView { pending_link_click: value, ..old(self)@ }),
    {
        self.pending_link_click = value;
    }

    pub(crate) fn pending_link_request_id(&self) -> (value: Option<u64>)
        ensures
            value == self@.pending_link_request_id,
    {
        self.pending_link_request_id
    }

    pub(crate) fn set_pending_link_request_id(&mut self, value: Option<u64>)
        ensures
            final(self)@ == (RendererView { pending_link_request_id: value, ..old(self)@ }),
    {
        self.pending_link_request_id = value;
    }

    pub(crate) fn pointer_pixels(&self) -> (value: Option<HostPixels>)
        ensures
            value == self@.pointer_pixels,
    {
        self.pointer_pixels
    }

    pub(crate) fn set_pointer_pixels(&mut self, value: Option<HostPixels>)
        ensures
            final(self)@ == (RendererView { pointer_pixels: value, ..old(self)@ }),
    {
        self.pointer_pixels = value;
    }

    pub(crate) fn suppress_link_affordance(&self) -> (value: bool)
        ensures
            value == self@.suppress_link_affordance,
    {
        self.suppress_link_affordance
    }

    pub(crate) fn set_suppress_link_affordance(&mut self, value: bool)
        ensures
            final(self)@ == (RendererView { suppress_link_affordance: value, ..old(self)@ }),
    {
        self.suppress_link_affordance = value;
    }

    pub(crate) fn awaiting_fallback(&self) -> (value: bool)
        ensures
            value == self@.awaiting_fallback,
    {
        self.awaiting_fallback
    }

    pub(crate) fn set_awaiting_fallback(&mut self, value: bool)
        ensures
            final(self)@ == (RendererView { awaiting_fallback: value, ..old(self)@ }),
    {
        self.awaiting_fallback = value;
    }

    pub(crate) fn awaiting_promotion(&self) -> (value: bool)
        ensures
            value == self@.awaiting_promotion,
    {
        self.awaiting_promotion
    }

    pub(crate) fn set_awaiting_promotion(&mut self, value: bool)
        ensures
            final(self)@ == (RendererView { awaiting_promotion: value, ..old(self)@ }),
    {
        self.awaiting_promotion = value;
    }

    pub(crate) fn needs_render(&self) -> (value: bool)
        ensures
            value == self@.needs_render,
    {
        self.needs_render
    }

    pub(crate) fn set_needs_render(&mut self, value: bool)
        ensures
            final(self)@ == (RendererView { needs_render: value, ..old(self)@ }),
    {
        self.needs_render = value;
    }

    pub(crate) fn force_repaint(&self) -> (value: bool)
        ensures
            value == self@.force_repaint,
    {
        self.force_repaint
    }

    pub(crate) fn set_force_repaint(&mut self, value: bool)
        ensures
            final(self)@ == (RendererView { force_repaint: value, ..old(self)@ }),
    {
        self.force_repaint = value;
    }

    pub(crate) fn latest_launch_id(&self) -> (value: u64)
        ensures
            value == self@.latest_launch_id,
    {
        self.latest_launch_id
    }

    pub(crate) fn set_latest_launch_id(&mut self, value: u64)
        ensures
            final(self)@ == (RendererView { latest_launch_id: value, ..old(self)@ }),
    {
        self.latest_launch_id = value;
    }

    pub(crate) fn delivered(&self) -> (value: bool)
        ensures
            value == self@.delivered,
    {
        self.delivered
    }

    pub(crate) fn set_delivered(&mut self, value: bool)
        ensures
            final(self)@ == (RendererView { delivered: value, ..old(self)@ }),
    {
        self.delivered = value;
    }

    pub(crate) fn replay_render(&self) -> (value: bool)
        ensures
            value == self@.replay_render,
    {
        self.replay_render
    }

    pub(crate) fn set_replay_render(&mut self, value: bool)
        ensures
            final(self)@ == (RendererView { replay_render: value, ..old(self)@ }),
    {
        self.replay_render = value;
    }

    pub(crate) fn server_forwarded_overflow(&self) -> (value: bool)
        ensures
            value == self@.server_forwarded_overflow,
    {
        self.server_forwarded_overflow
    }

    pub(crate) fn available(&self) -> (value: bool)
        ensures
            value == self@.available,
    {
        self.available
    }

    pub(crate) fn local(&self) -> (value: (bool, bool))
        ensures
            value == self@.local,
    {
        self.local
    }

    pub(crate) fn next_link_request_id(&self) -> (value: u64)
        ensures
            value == self@.next_link_request_id,
    {
        self.next_link_request_id
    }

    pub(crate) fn incoming_generation(&self) -> (value: u64)
        ensures
            value == self@.incoming_generation,
    {
        self.incoming_generation
    }

    pub(crate) fn set_cached_server_frame(&mut self, frame: Option<Frame>)
        ensures
            final(self)@ == (RendererView { cached_server_frame: frame_view(frame), ..old(self)@ }),
    {
        self.cached_server_frame = frame;
    }

    pub(crate) fn set_handoff_frame(&mut self, frame: Option<Frame>)
        ensures
            final(self)@ == (RendererView { handoff_frame: frame_view(frame), ..old(self)@ }),
    {
        self.handoff_frame = frame;
    }

    pub(crate) fn take_handoff_frame(&mut self) -> (frame: Option<Frame>)
        ensures
            frame_view(frame) == old(self)@.handoff_frame,
            final(self)@ == (RendererView { handoff_frame: None, ..old(self)@ }),
    {
        self.handoff_frame.take()
    }

    pub(crate) fn copy_cached_server_frame(&self) -> (frame: Option<Frame>)
        ensures
            frame_view(frame) == self@.cached_server_frame,
    {
        match &self.cached_server_frame {
            Some(frame) => Some(frame.duplicate()),
            None => None,
        }
    }

    pub(crate) fn set_surface(&mut self, surface: Option<SurfaceFrame>)
        ensures
            final(self)@ == (RendererView { surface: surface_view(surface), ..old(self)@ }),
    {
        self.surface = surface;
    }

    pub(crate) fn hovered_cells(&self) -> (cells: &Option<Vec<(u16, u16)>>)
        ensures
            lists::cells_view(*cells) == self@.hovered_link_cells,
    {
        &self.hovered_link_cells
    }

    pub(crate) fn clear_hovered_cells(&mut self)
        ensures
            final(self)@ == (RendererView { hovered_link_cells: None, ..old(self)@ }),
    {
        self.hovered_link_cells = None;
    }

    pub(crate) fn copy_target(&self) -> (target: Option<LocalTarget>)
        ensures
            target_view(target) == self@.target,
    {
        match &self.target {
            Some(target) => Some(target.duplicate()),
            None => None,
        }
    }

    pub(crate) fn target_ref(&self) -> (target: &Option<LocalTarget>)
        ensures
            target_view(*target) == self@.target,
    {
        &self.target
    }

    pub(crate) fn request_ref(&self) -> (request: &Option<TargetRequest>)
        ensures
            request_view(*request) == self@.request,
    {
        &self.request
    }

    pub(crate) fn set_request(&mut self, request: Option<TargetRequest>)
        ensures
            final(self)@ == (RendererView { request: request_view(request), ..old(self)@ }),
    {
        self.request = request;
    }

    pub(crate) fn set_result(&mut self, result: Vec<ClientMessage>)
        ensures
            final(self)@ == (RendererView {
                result: model::message_views(result@),
                ..old(self)@
            }),
    {
        self.result = result;
    }

    pub(crate) fn clear_result(&mut self)
        ensures
            final(self)@ == (RendererView { result: Seq::empty(), ..old(self)@ }),
    {
        self.result = no_messages();
    }

    pub(crate) fn has_result(&self) -> (found: bool)
        ensures
            found == (self@.result.len() > 0),
    {
        self.result.len() > 0
    }

    pub(crate) fn push_deferred_message(&mut self, message: DeferredMessage)
        ensures
            final(self)@ == (RendererView {
                deferred_messages: old(self)@.deferred_messages.push(message@),
                ..old(self)@
            }),
    {
        push_deferred(&mut self.deferred_messages, message);
    }


    pub(crate) fn begin_turn(&mut self, events: Vec<RoutedEvent>, generation: u64, observe: bool)
        ensures
            final(self)@ == (RendererView {
                turn: TurnView::begin(events@, generation, observe),
                ..old(self)@
            }),
    {
        self.turn = Turn::begin(events, generation, observe);
    }

    pub(crate) fn defer_overflow(&mut self)
        ensures
            final(self)@ == (RendererView {
                deferred_messages: old(self)@.deferred_messages + model::all_deferred(
                    old(self)@.overflow,
                ),
                overflow: Seq::empty(),
                ..old(self)@
            }),
    {
        let mut inputs: Vec<LinkInput> = Vec::new();
        assert(model::link_views(inputs@) =~= Seq::empty());
        join_link(&mut inputs, &mut self.overflow);
        assert(model::link_views(inputs@) =~= old(self)@.overflow);
        deferred_links(inputs, &mut self.deferred_messages);
    }

    pub(crate) fn keep_links(&mut self, generation: u64) -> (changed: bool)
        ensures
            final(self)@ == (RendererView {
                queued_link_inputs: model::links_kept(
                    old(self)@.queued_link_inputs,
                    generation,
                ),
                ..old(self)@
            }),
            changed == model::links_stale(
                old(self)@.queued_link_inputs,
                generation,
            ),
    {
        kept_links(&mut self.queued_link_inputs, generation)
    }

    pub(crate) fn pending_link_generation(&self) -> (generation: Option<u64>)
        ensures
            generation == (match self@.pending_link_input {
                Some(input) => Some(input.generation()),
                None => None,
            }),
    {
        match &self.pending_link_input {
            Some(input) => Some(input.generation()),
            None => None,
        }
    }

    pub(crate) fn queue_links_as_work(&mut self)
        ensures
            final(self)@ == (RendererView {
                work: model::all_deferred(old(self)@.queued_link_inputs),
                queued_link_inputs: Seq::empty(),
                ..old(self)@
            }),
    {
        let mut inputs: Vec<LinkInput> = Vec::new();
        assert(model::link_views(inputs@) =~= Seq::empty());
        join_link(&mut inputs, &mut self.queued_link_inputs);
        assert(model::link_views(inputs@) =~= old(self)@.queued_link_inputs);
        let mut work: Vec<DeferredMessage> = Vec::new();
        assert(model::deferred_views(work@) =~= Seq::empty());
        deferred_links(inputs, &mut work);
        assert(model::deferred_views(work@) =~= model::all_deferred(old(self)@.queued_link_inputs));
        self.work = work;
    }

    pub(crate) fn take_work(&mut self) -> (item: Option<DeferredMessage>)
        ensures
            match item {
                Some(item) => old(self)@.work.len() > 0 && item@ == old(self)@.work[0]
                    && final(self)@ == (RendererView { work: old(self)@.work.drop_first(), ..old(self)@ }),
                None => old(self)@.work.len() == 0 && final(self)@ == old(self)@,
            },
    {
        if self.work.len() == 0 {
            None
        } else {
            Some(pop_deferred(&mut self.work))
        }
    }

    pub(crate) fn sent_before(&mut self)
        ensures
            final(self)@ == (RendererView {
                outbound_messages: old(self)@.outbound_messages + old(self)@.result,
                post_send_input: old(self)@.post_send_input + old(self)@.work,
                work: Seq::empty(),
                result: Seq::empty(),
                ..old(self)@
            }),
    {
        join_message(&mut self.outbound_messages, &mut self.result);
        join_deferred(&mut self.post_send_input, &mut self.work);
    }

    pub(crate) fn defer_work(&mut self)
        ensures
            final(self)@ == (RendererView {
                deferred_messages: old(self)@.deferred_messages + old(self)@.work,
                work: Seq::empty(),
                ..old(self)@
            }),
    {
        join_deferred(&mut self.deferred_messages, &mut self.work);
    }

    pub(crate) fn deferred_as_work(&mut self)
        ensures
            final(self)@ == (RendererView {
                work: old(self)@.deferred_messages,
                deferred_messages: Seq::empty(),
                ..old(self)@
            }),
    {
        self.work = take_deferred(&mut self.deferred_messages);
    }

    pub(crate) fn post_as_work(&mut self) -> (first: Option<DeferredMessage>)
        ensures
            match first {
                Some(first) => old(self)@.post_send_input.len() > 0 && first@
                    == old(self)@.post_send_input[0] && final(self)@ == (RendererView {
                    work: old(self)@.post_send_input.drop_first(),
                    post_send_input: Seq::empty(),
                    ..old(self)@
                }),
                None => old(self)@.post_send_input.len() == 0 && final(self)@ == old(self)@,
            },
    {
        if self.post_send_input.len() == 0 {
            return None;
        }
        let first = pop_deferred(&mut self.post_send_input);
        self.work = take_deferred(&mut self.post_send_input);
        Some(first)
    }

    pub(crate) fn work_as_post(&mut self)
        ensures
            final(self)@ == (RendererView {
                post_send_input: old(self)@.post_send_input + old(self)@.work,
                work: Seq::empty(),
                ..old(self)@
            }),
    {
        join_deferred(&mut self.post_send_input, &mut self.work);
    }


    pub(crate) fn incoming_usage(&self) -> (usage: InputUsage)
        ensures
            usage == model::events_usage(model::sendable(self@.incoming)),
    {
        client_input_events_usage(&events_sendable(&self.incoming))
    }

    pub(crate) fn take_incoming(&mut self) -> (events: Vec<RoutedEvent>)
        ensures
            events@ == old(self)@.incoming,
            final(self)@ == (RendererView { incoming: Seq::empty(), ..old(self)@ }),
    {
        take_events(&mut self.incoming)
    }

    pub(crate) fn set_incoming(&mut self, events: Vec<RoutedEvent>, generation: u64)
        ensures
            final(self)@ == (RendererView {
                incoming: events@,
                incoming_generation: generation,
                ..old(self)@
            }),
    {
        self.incoming = events;
        self.incoming_generation = generation;
    }

    pub(crate) fn outbound_as_result(&mut self)
        ensures
            final(self)@ == (RendererView {
                result: old(self)@.outbound_messages,
                outbound_messages: Seq::empty(),
                ..old(self)@
            }),
    {
        self.result = take_message(&mut self.outbound_messages);
    }

    pub(crate) fn result_as_outbound(&mut self)
        ensures
            final(self)@ == (RendererView {
                outbound_messages: old(self)@.outbound_messages + old(self)@.result,
                result: Seq::empty(),
                ..old(self)@
            }),
    {
        join_message(&mut self.outbound_messages, &mut self.result);
    }

    pub(crate) fn clear_effects(&mut self)
        ensures
            final(self)@ == (RendererView { effects: Seq::empty(), ..old(self)@ }),
    {
        self.effects = Vec::new();
    }


    pub(crate) fn set_replay(&mut self, events: Vec<RoutedEvent>)
        ensures
            final(self)@ == (RendererView {
                replay: events@,
                    replay_render: false,
                ..old(self)@
            }),
    {
        self.replay = events;
        self.replay_render = false;
    }

    pub(crate) fn set_replay_pixels(&mut self, inputs: Vec<PixelEvent>)
        ensures
            final(self)@ == (RendererView {
                replay_pixels: inputs@,
                    replay_render: false,
                ..old(self)@
            }),
    {
        self.replay_pixels = inputs;
        self.replay_render = false;
    }

    pub(crate) fn replay_event(&self) -> (event: Option<RoutedEvent>)
        ensures
            event == (if self@.replay.len() > 0 {
                Some(self@.replay[0])
            } else {
                None
            }),
    {
        if self.replay.len() > 0 {
            Some(self.replay[0])
        } else {
            None
        }
    }

    pub(crate) fn replay_pixel_event(&self) -> (pixel: Option<PixelEvent>)
        ensures
            pixel == (if self@.replay_pixels.len() > 0 {
                Some(self@.replay_pixels[0])
            } else {
                None
            }),
    {
        if self.replay_pixels.len() > 0 {
            Some(self.replay_pixels[0])
        } else {
            None
        }
    }

    pub(crate) fn replay_step(&mut self)
        ensures
            final(self)@ == (RendererView {
                replay: state::rest(old(self)@.replay),
                ..old(self)@
            }),
    {
        if self.replay.len() > 0 {
            let _ = self.replay.remove(0);
            assert(self.replay@ =~= old(self).replay@.drop_first());
        }
    }

    pub(crate) fn replay_pixel_step(&mut self)
        ensures
            final(self)@ == (RendererView {
                replay_pixels: state::rest(old(self)@.replay_pixels),
                ..old(self)@
            }),
    {
        if self.replay_pixels.len() > 0 {
            let _ = self.replay_pixels.remove(0);
            assert(self.replay_pixels@ =~= old(self).replay_pixels@.drop_first());
        }
    }



    pub(crate) fn retain_waiting(&mut self, generation: u64)
        ensures
            final(self)@ == (RendererView {
                deferred_messages: model::all_kept(
                    old(self)@.deferred_messages,
                    generation,
                ),
                post_send_input: model::all_kept(
                    old(self)@.post_send_input,
                    generation,
                ),
                ..old(self)@
            }),
    {
        kept_deferred(&mut self.deferred_messages, generation);
        kept_deferred(&mut self.post_send_input, generation);
    }


    pub(crate) fn take_task(&mut self) -> (task: Option<Task>)
        ensures
            match task {
                Some(task) => old(self)@.tasks.len() > 0 && task == old(self)@.tasks.last()
                    && final(self)@ == (RendererView { tasks: old(self)@.tasks.drop_last(), ..old(self)@ }),
                None => old(self)@.tasks.len() == 0 && final(self)@ == old(self)@,
            },
    {
        if self.tasks.len() == 0 {
            return None;
        }
        let task = self.tasks.pop();
        assert(self.tasks@ =~= old(self).tasks@.drop_last());
        task
    }

    pub(crate) fn set_focus_delivered(&mut self, value: bool)
        ensures
            final(self)@ == (RendererView { focus_delivered: value, ..old(self)@ }),
    {
        self.focus_delivered = value;
    }

    /// Whether work is in progress.
    pub fn is_idle(&self) -> (idle: bool)
        ensures
            idle == (self@.tasks.len() == 0),
    {
        self.tasks.len() == 0
    }

    /// Hands out what routing gave.
    pub fn take_result(&mut self) -> (messages: Vec<ClientMessage>)
        ensures
            model::message_views(messages@) == old(self)@.result,
            final(self)@ == (RendererView { result: Seq::empty(), ..old(self)@ }),
    {
        take_message(&mut self.result)
    }

    /// Hands out the messages that wait to be sent.
    pub fn take_outbound_messages(&mut self) -> (messages: Vec<ClientMessage>)
        ensures
            model::message_views(messages@) == old(self)@.outbound_messages,
            final(self)@ == (RendererView { outbound_messages: Seq::empty(), ..old(self)@ }),
    {
        take_message(&mut self.outbound_messages)
    }

    /// Hands out the effects.
    pub fn take_effects(&mut self) -> (effects: Vec<LocalEffect>)
        ensures
            effects@ == old(self)@.effects,
            final(self)@ == (RendererView { effects: Seq::empty(), ..old(self)@ }),
    {
        let mut effects: Vec<LocalEffect> = Vec::new();
        effects.append(&mut self.effects);
        assert(effects@ =~= old(self).effects@);
        assert(self.effects@ =~= Seq::empty());
        effects
    }

    /// Hands out the frame to show.
    pub fn take_surface(&mut self) -> (surface: Option<SurfaceFrame>)
        ensures
            surface_view(surface) == old(self)@.surface,
            final(self)@ == (RendererView { surface: None, ..old(self)@ }),
    {
        self.surface.take()
    }

    pub(crate) fn has_post_send(&self) -> (found: bool)
        ensures
            found == (self@.post_send_input.len() > 0),
    {
        self.post_send_input.len() > 0
    }

    pub(crate) fn has_work(&self) -> (found: bool)
        ensures
            found == (self@.work.len() > 0),
    {
        self.work.len() > 0
    }

    pub(crate) fn put_task(&mut self, task: Task)
        ensures
            final(self)@ == (RendererView { tasks: old(self)@.tasks.push(task), ..old(self)@ }),
    {
        self.tasks.push(task);
    }

    pub(crate) fn presses(&self) -> (presses: &Vec<u64>)
        ensures
            presses@ == self@.server_forwarded_presses,
    {
        &self.server_forwarded_presses
    }

    pub(crate) fn set_presses(&mut self, presses: Vec<u64>)
        ensures
            final(self)@ == (RendererView { server_forwarded_presses: presses@, ..old(self)@ }),
    {
        self.server_forwarded_presses = presses;
    }

    pub(crate) fn push_press(&mut self, identity: u64)
        ensures
            final(self)@ == (RendererView {
                server_forwarded_presses: old(self)@.server_forwarded_presses.push(identity),
                ..old(self)@
            }),
    {
        self.server_forwarded_presses.push(identity);
    }

    pub(crate) fn link_limit(&self) -> (limit: usize)
        ensures
            limit == self@.max_link_url,
    {
        self.max_link_url
    }

    pub(crate) fn set_hovered_cells(&mut self, cells: Option<Vec<(u16, u16)>>)
        ensures
            final(self)@ == (RendererView { hovered_link_cells: lists::cells_view(cells), ..old(self)@ }),
    {
        self.hovered_link_cells = cells;
    }

    pub(crate) fn push_outbound(&mut self, message: ClientMessage)
        ensures
            final(self)@ == (RendererView {
                outbound_messages: old(self)@.outbound_messages.push(message@),
                ..old(self)@
            }),
    {
        push_message(&mut self.outbound_messages, message);
    }

    pub(crate) fn push_post_send(&mut self, message: DeferredMessage)
        ensures
            final(self)@ == (RendererView {
                post_send_input: old(self)@.post_send_input.push(message@),
                ..old(self)@
            }),
    {
        push_deferred(&mut self.post_send_input, message);
    }

    pub(crate) fn has_deferred(&self) -> (found: bool)
        ensures
            found == (self@.deferred_messages.len() > 0),
    {
        self.deferred_messages.len() > 0
    }

    pub(crate) fn queued_len(&self) -> (len: usize)
        ensures
            len == self@.queued_link_inputs.len(),
    {
        self.queued_link_inputs.len()
    }

    pub(crate) fn push_queued(&mut self, input: LinkInput)
        ensures
            final(self)@ == (RendererView {
                queued_link_inputs: old(self)@.queued_link_inputs.push(input@),
                ..old(self)@
            }),
    {
        push_link(&mut self.queued_link_inputs, input);
    }

    pub(crate) fn clear_queued(&mut self)
        ensures
            final(self)@ == (RendererView { queued_link_inputs: Seq::empty(), ..old(self)@ }),
    {
        self.queued_link_inputs = Vec::new();
        assert(self@.queued_link_inputs =~= Seq::empty());
    }

    // ---- The turn -----------------------------------------------------------------------------
    pub(crate) fn turn_state(&self) -> (state: TurnState)
        ensures
            state.generation == self@.turn.generation,
            state.observe == self@.turn.observe,
            state.tail == self@.turn.tail,
            state.events == (self@.turn.events.len() > 0),
            state.batch == (self@.turn.batch.len() > 0),
            state.deferred == (self@.turn.deferred.len() > 0),
            state.post_send == (self@.turn.post_send.len() > 0),
    {
        TurnState {
            generation: self.turn.generation,
            observe: self.turn.observe,
            tail: self.turn.tail,
            events: self.turn.events.len() > 0,
            batch: self.turn.batch.len() > 0,
            deferred: self.turn.deferred.len() > 0,
            post_send: self.turn.post_send.len() > 0,
        }
    }

    pub(crate) fn push_turn_deferred(&mut self, event: RoutedEvent)
        ensures
            final(self)@ == (RendererView {
                turn: TurnView {
                    deferred: old(self)@.turn.deferred.push(event),
                    ..old(self)@.turn
                },
                ..old(self)@
            }),
    {
        self.turn.deferred.push(event);
    }

    pub(crate) fn take_turn_deferred(&mut self) -> (events: Vec<RoutedEvent>)
        ensures
            events@ == old(self)@.turn.deferred,
            final(self)@ == (RendererView {
                turn: TurnView { deferred: Seq::empty(), ..old(self)@.turn },
                ..old(self)@
            }),
    {
        take_events(&mut self.turn.deferred)
    }

    pub(crate) fn push_turn_post_send(&mut self, event: RoutedEvent)
        ensures
            final(self)@ == (RendererView {
                turn: TurnView {
                    post_send: old(self)@.turn.post_send.push(event),
                    ..old(self)@.turn
                },
                ..old(self)@
            }),
    {
        self.turn.post_send.push(event);
    }

    pub(crate) fn take_turn_post_send(&mut self) -> (events: Vec<RoutedEvent>)
        ensures
            events@ == old(self)@.turn.post_send,
            final(self)@ == (RendererView {
                turn: TurnView { post_send: Seq::empty(), ..old(self)@.turn },
                ..old(self)@
            }),
    {
        take_events(&mut self.turn.post_send)
    }

    pub(crate) fn push_turn_batch(&mut self, event: RoutedEvent)
        ensures
            final(self)@ == (RendererView {
                turn: TurnView {
                    batch: old(self)@.turn.batch.push(event),
                    ..old(self)@.turn
                },
                ..old(self)@
            }),
    {
        self.turn.batch.push(event);
    }

    pub(crate) fn take_turn_batch(&mut self) -> (events: Vec<RoutedEvent>)
        ensures
            events@ == old(self)@.turn.batch,
            final(self)@ == (RendererView {
                turn: TurnView { batch: Seq::empty(), ..old(self)@.turn },
                ..old(self)@
            }),
    {
        take_events(&mut self.turn.batch)
    }

    pub(crate) fn set_turn_tail(&mut self)
        ensures
            final(self)@ == (RendererView {
                turn: TurnView { tail: true, ..old(self)@.turn },
                ..old(self)@
            }),
    {
        self.turn.tail = true;
    }

    pub(crate) fn push_turn_message(&mut self, message: ClientMessage)
        ensures
            final(self)@ == (RendererView {
                turn: TurnView {
                    messages: old(self)@.turn.messages.push(message@),
                    ..old(self)@.turn
                },
                ..old(self)@
            }),
    {
        push_message(&mut self.turn.messages, message);
    }

    pub(crate) fn end_turn(&mut self)
        ensures
            final(self)@ == (RendererView {
                result: old(self)@.turn.messages,
                turn: TurnView::begin(Seq::empty(), 0, false),
                ..old(self)@
            }),
    {
        let result = take_message(&mut self.turn.messages);
        self.result = result;
        self.turn = Turn::begin(Vec::new(), 0, false);
    }

    // ---- What waits ---------------------------------------------------------------------------
    pub(crate) fn usage_of_deferred(&self) -> (usage: InputUsage)
        ensures
            usage == model::deferred_usage(self@.deferred_messages),
    {
        deferred_usage(&self.deferred_messages)
    }

    pub(crate) fn usage_of_post_send(&self) -> (usage: InputUsage)
        ensures
            usage == model::deferred_usage(self@.post_send_input),
    {
        deferred_usage(&self.post_send_input)
    }

    pub(crate) fn usage_of_pending_link(&self) -> (usage: Option<InputUsage>)
        ensures
            usage == (match self@.pending_link_input {
                Some(input) => Some(input.usage()),
                None => None,
            }),
    {
        match &self.pending_link_input {
            Some(input) => Some(input.input_usage()),
            None => None,
        }
    }

    pub(crate) fn usage_of_queued_links(&self) -> (usage: InputUsage)
        ensures
            usage == model::links_usage(self@.queued_link_inputs),
    {
        links_usage(&self.queued_link_inputs)
    }

    pub(crate) fn usage_of_outbound(&self) -> (usage: InputUsage)
        ensures
            usage == model::messages_usage(self@.outbound_messages),
    {
        messages_usage(&self.outbound_messages)
    }

    pub(crate) fn drain_outbound_events(&mut self, events: &mut Vec<RoutedEvent>)
        ensures
            final(events)@ == old(events)@ + model::message_events(old(self)@.outbound_messages),
            final(self)@ == (RendererView { outbound_messages: Seq::empty(), ..old(self)@ }),
    {
        let list = take_message(&mut self.outbound_messages);
        collect_messages(&list, events);
    }

    pub(crate) fn drain_post_send_events(&mut self, events: &mut Vec<RoutedEvent>)
        ensures
            final(events)@ == old(events)@ + model::deferred_events(old(self)@.post_send_input),
            final(self)@ == (RendererView { post_send_input: Seq::empty(), ..old(self)@ }),
    {
        let list = take_deferred(&mut self.post_send_input);
        collect_deferred(&list, events);
    }

    pub(crate) fn drain_deferred_events(&mut self, events: &mut Vec<RoutedEvent>)
        ensures
            final(events)@ == old(events)@ + model::deferred_events(old(self)@.deferred_messages),
            final(self)@ == (RendererView { deferred_messages: Seq::empty(), ..old(self)@ }),
    {
        let list = take_deferred(&mut self.deferred_messages);
        collect_deferred(&list, events);
    }

    pub(crate) fn take_replay(&mut self) -> (events: Vec<RoutedEvent>)
        ensures
            events@ == old(self)@.replay,
            final(self)@ == (RendererView {
                replay: Seq::empty(),
                ..old(self)@
            }),
    {
        let mut events: Vec<RoutedEvent> = Vec::new();
        events.append(&mut self.replay);
        assert(events@ =~= old(self).replay@);
        assert(self.replay@ =~= Seq::empty());
        events
    }

    pub(crate) fn replay_pixels_left(&self) -> (inputs: Vec<PixelEvent>)
        ensures
            inputs@ == self@.replay_pixels,
    {
        let mut inputs: Vec<PixelEvent> = Vec::new();
        let mut i: usize = 0;
        while i < self.replay_pixels.len()
            invariant
                i <= self.replay_pixels@.len(),
                inputs@ == self.replay_pixels@.take(i as int),
            decreases self.replay_pixels.len() - i,
        {
            inputs.push(self.replay_pixels[i]);
            i += 1;
            assert(inputs@ =~= self.replay_pixels@.take(i as int));
        }
        assert(inputs@ =~= self.replay_pixels@);
        inputs
    }

    pub(crate) fn defer_pixels(&mut self, inputs: Vec<PixelEvent>, generation: u64)
        ensures
            final(self)@ == (RendererView {
                deferred_messages: old(self)@.deferred_messages + (LinkInputView::Pixels {
                    inputs: inputs@,
                    generation,
                }).deferred(),
                ..old(self)@
            }),
    {
        let input = LinkInput::Pixels { inputs, generation };
        input.defer_to(&mut self.deferred_messages);
    }

    pub(crate) fn add_effects(&mut self, effects: &mut Vec<LocalEffect>)
        ensures
            final(self)@ == (RendererView {
                effects: old(self)@.effects + old(effects)@,
                ..old(self)@
            }),
    {
        self.effects.append(effects);
        assert(self.effects@ =~= old(self).effects@ + old(effects)@);
    }

    /// The cell that the pointer is over.
    pub fn pointer_cell(&self) -> (value: Option<(u16, u16)>)
        ensures
            value == self@.pointer_cell,
    {
        self.pointer_cell
    }

    pub(crate) fn set_pointer_cell(&mut self, value: Option<(u16, u16)>)
        ensures
            final(self)@ == (RendererView { pointer_cell: value, ..old(self)@ }),
    {
        self.pointer_cell = value;
    }

    pub(crate) fn focus_delivered(&self) -> (value: bool)
        ensures
            value == self@.focus_delivered,
    {
        self.focus_delivered
    }

    pub(crate) fn set_local(&mut self, value: (bool, bool))
        ensures
            final(self)@ == (RendererView { local: value, ..old(self)@ }),
    {
        self.local = value;
    }

    pub(crate) fn set_server_forwarded_overflow(&mut self, value: bool)
        ensures
            final(self)@ == (RendererView { server_forwarded_overflow: value, ..old(self)@ }),
    {
        self.server_forwarded_overflow = value;
    }

    pub(crate) fn set_next_link_request_id(&mut self, value: u64)
        ensures
            final(self)@ == (RendererView { next_link_request_id: value, ..old(self)@ }),
    {
        self.next_link_request_id = value;
    }
}

} // verus!
