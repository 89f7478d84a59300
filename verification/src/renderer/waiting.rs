//! Mouse reports in pixels, clicks on links, and input that waits.
use crate::input::windows::{ClientMouseKind, MouseButton};
use crate::renderer::fields::{self, ClientOmpRenderer};
use crate::renderer::lists::{self, events_sendable, events_without_mouse, one_message, one_pixel};
use crate::renderer::model::{
    Ask, ClientMessage, DeferredMessage, HostPixels, InputUsage, LinkInput, LocalMouse,
    MAX_PENDING_INPUT_EVENTS, MAX_PENDING_INPUT_PAYLOAD_BYTES, MessageView, PixelEvent, RoutedEvent,
    TerminalLink, add_input_usage, is_wheel,
};
use crate::renderer::state::{RendererView, Step, Task};
use vstd::prelude::*;

verus! {

fn pixel_is(pixel: &PixelEvent, kind: ClientMouseKind) -> (found: bool)
    ensures
        found == RendererView::pixel_kind(*pixel, kind),
{
    match pixel.kind {
        Some(found) => found == kind,
        None => false,
    }
}

impl ClientOmpRenderer {
    // ---- Mouse reports in pixels ---------------------------------------------------------------
    pub(crate) fn pixel(&mut self, pixel: PixelEvent, generation: u64, observe: bool)
        ensures
            final(self)@ == old(self)@.pixel(pixel, generation, observe),
    {
        self.put(Task::PixelLocal { pixel, generation });
        if let Some((x, y)) = pixel.report {
            if observe {
                self.set_pointer_pixels(Some(HostPixels { x, y, geometry: pixel.geometry }));
                self.put(Task::Remap);
            }
        }
    }

    pub(crate) fn pixel_local(&mut self, pixel: PixelEvent, generation: u64) -> (step: Step)
        ensures
            (final(self)@, step) == old(self)@.pixel_local(pixel, generation),
    {
        match self.target_size() {
            Some(size) => self.ask(
                Ask::LocalMouse { pixel, size },
                Task::PixelPlaced { pixel, generation },
            ),
            None => self.pixel_placed(pixel, generation, None),
        }
    }

    pub(crate) fn pixel_placed(
        &mut self,
        pixel: PixelEvent,
        generation: u64,
        mouse: Option<LocalMouse>,
    ) -> (step: Step)
        ensures
            (final(self)@, step) == old(self)@.pixel_placed(pixel, generation, mouse),
    {
        self.clear_result();
        if pixel_is(&pixel, ClientMouseKind::Drag(MouseButton::Left)) && self.pending_link_click() {
            self.append_pending_link_pixels(pixel);
            return Step::Continue;
        }
        if pixel_is(&pixel, ClientMouseKind::Up(MouseButton::Left)) && self.pending_link_click() {
            self.set_pending_link_click(false);
            self.append_pending_link_pixels(pixel);
            return Step::Continue;
        }
        if pixel_is(&pixel, ClientMouseKind::Down(MouseButton::Left)) {
            if self.pending_link_request_id().is_none() {
                self.clear_click();
            } else {
                self.set_pending_link_click(false);
            }
        }
        self.route_pixel(pixel, generation, mouse)
    }

    pub(crate) fn defer_pixel(&mut self, pixel: PixelEvent, generation: u64)
        ensures
            final(self)@ == old(self)@.defer_pixel(pixel, generation),
    {
        self.push_deferred_message(DeferredMessage::InputPixels { pixel, generation });
    }

    fn send_pixel(&mut self, pixel: PixelEvent)
        ensures
            final(self)@ == old(self)@.with_result(
                seq![MessageView::InputPixels { pixel }],
            ),
    {
        self.set_result(one_message(ClientMessage::InputPixels { pixel }));
    }

    fn route_pixel(&mut self, pixel: PixelEvent, generation: u64, mouse: Option<LocalMouse>) -> (
    step: Step)
        ensures
            (final(self)@, step) == old(self)@.pixel_routed(pixel, generation, mouse),
    {
        if self.pending_link_request_id().is_some() {
            self.queue_link_input(LinkInput::Pixels { inputs: one_pixel(pixel), generation });
            return Step::Continue;
        }
        if self.awaiting() {
            self.defer_pixel(pixel, generation);
            return Step::Continue;
        }
        if !self.local_active() {
            self.send_pixel(pixel);
            return Step::Continue;
        }
        if let Some(mouse) = mouse {
            if mouse.kind == ClientMouseKind::Down(MouseButton::Left) {
                let request_id: u64 = self.allocate_link_request_id();
                if self.link_visible() {
                    return self.ask(
                        Ask::LinkAt { column: mouse.column, row: mouse.row },
                        Task::PixelLink { pixel, generation, mouse, request_id },
                    );
                }
            }
        }
        self.pixel_forward(pixel, generation, mouse)
    }

    pub(crate) fn pixel_link(
        &mut self,
        pixel: PixelEvent,
        generation: u64,
        mouse: LocalMouse,
        request_id: u64,
        link: Option<TerminalLink>,
    ) -> (step: Step)
        ensures
            (final(self)@, step) == old(self)@.pixel_link(
                pixel,
                generation,
                mouse,
                request_id,
                fields::link_view(link),
            ),
    {
        let launch_id: Option<u64> = match self.target_ref() {
            Some(target) => Some(target.launch_id),
            None => None,
        };
        match (self.usable(link), launch_id) {
            (Some(link), Some(launch_id)) => {
                self.set_pending_link_click(true);
                self.set_pending_link_request_id(Some(request_id));
                self.set_pending_link_input(
                    Some(LinkInput::Pixels { inputs: one_pixel(pixel), generation }),
                );
                self.set_result(
                    one_message(
                        ClientMessage::ActivateOmpLink { launch_id, request_id, url: link.url },
                    ),
                );
                Step::Continue
            },
            _ => self.pixel_forward(pixel, generation, Some(mouse)),
        }
    }

    fn pixel_forward(&mut self, pixel: PixelEvent, generation: u64, mouse: Option<LocalMouse>) -> (
    step: Step)
        ensures
            (final(self)@, step) == old(self)@.pixel_forward(pixel, generation, mouse),
    {
        if let Some(mouse) = mouse {
            if self.running() {
                return self.ask(
                    Ask::ForwardPixel(pixel),
                    Task::PixelSent { pixel, generation, wheel: is_wheel(mouse.kind) },
                );
            }
        }
        self.send_pixel(pixel);
        Step::Continue
    }

    pub(crate) fn pixel_sent(
        &mut self,
        pixel: PixelEvent,
        generation: u64,
        wheel: bool,
        sent: bool,
    )
        ensures
            final(self)@ == old(self)@.pixel_sent(pixel, generation, wheel, sent),
    {
        self.clear_result();
        if sent {
            self.moved(wheel);
        } else {
            self.put(Task::DeferPixel { pixel, generation });
            self.put(Task::BeginFallback);
        }
    }

    // ---- Input that waits ---------------------------------------------------------------------
    pub(crate) fn start_item(&mut self, item: DeferredMessage)
        ensures
            final(self)@ == old(self)@.start_item(item@),
    {
        match item {
            DeferredMessage::InputEvents { events, generation } => {
                self.begin_turn(events, generation, false);
                self.put(Task::NextEvent);
            },
            DeferredMessage::InputPixels { pixel, generation } => {
                self.put(Task::Pixel { pixel, generation, observe: false });
            },
        }
    }

    pub(crate) fn cancel_stale_link_inputs(&mut self, generation: u64)
        ensures
            final(self)@ == old(self)@.cancel_stale(generation),
    {
        let stale = match self.pending_link_generation() {
            Some(pending) => pending != generation,
            None => false,
        };
        let changed = self.keep_links(generation);
        if stale {
            self.clear_activation();
        }
        if stale || changed {
            self.put(Task::DrainQueued);
        }
    }

    pub(crate) fn drain_link_inputs_for_generation(&mut self, generation: u64)
        ensures
            final(self)@ == old(self)@.drain_for(generation),
    {
        let _ = self.keep_links(generation);
        self.put(Task::DrainQueued);
    }

    pub(crate) fn drain_queued_link_inputs(&mut self)
        ensures
            final(self)@ == old(self)@.drain_queued(),
    {
        self.queue_links_as_work();
        self.put(Task::DrainNext);
    }

    pub(crate) fn drain_next(&mut self)
        ensures
            final(self)@ == old(self)@.drain_next(),
    {
        if let Some(item) = self.take_work() {
            self.put(Task::DrainRouted);
            self.start_item(item);
        }
    }

    pub(crate) fn drain_routed(&mut self)
        ensures
            final(self)@ == old(self)@.drain_routed(),
    {
        if self.has_result() {
            self.sent_before();
        } else {
            self.put(Task::DrainNext);
        }
    }

    fn pending_input_would_overflow(&self, incoming: InputUsage) -> (overflow: bool)
        ensures
            overflow == self@.would_overflow(incoming),
    {
        let mut total = self.usage_of_deferred();
        add_input_usage(&mut total, self.usage_of_post_send());
        if let Some(usage) = self.usage_of_pending_link() {
            add_input_usage(&mut total, usage);
        }
        add_input_usage(&mut total, self.usage_of_queued_links());
        add_input_usage(&mut total, self.usage_of_outbound());
        add_input_usage(&mut total, incoming);
        total.events > MAX_PENDING_INPUT_EVENTS || total.payload > MAX_PENDING_INPUT_PAYLOAD_BYTES
    }

    pub(crate) fn take_in(&mut self)
        ensures
            final(self)@ == old(self)@.take_in(),
    {
        let usage = self.incoming_usage();
        if self.pending_input_would_overflow(usage) {
            self.put(Task::AdmissionTail);
            self.put(Task::ReleasePending);
            self.put(Task::BeginFallback);
        } else {
            let events = self.take_incoming();
            let generation: u64 = self.incoming_generation();
            self.begin_turn(events, generation, true);
            self.put(Task::NextEvent);
        }
    }

    pub(crate) fn admission_tail(&mut self)
        ensures
            final(self)@ == old(self)@.admission_tail(),
    {
        let incoming = self.take_incoming();
        let events = events_without_mouse(&events_sendable(&incoming));
        if events.len() > 0 {
            self.queue_server_events(events);
        }
        self.outbound_as_result();
    }

    pub(crate) fn admit_pixel(&mut self, pixel: PixelEvent, generation: u64)
        ensures
            final(self)@ == old(self)@.admit_pixel(pixel, generation),
    {
        if self.pending_input_would_overflow(InputUsage { events: 1, payload: pixel.payload }) {
            self.put(Task::DropResult);
            self.put(Task::ReleasePending);
            self.put(Task::BeginFallback);
        } else {
            self.put(Task::Pixel { pixel, generation, observe: true });
        }
    }

    pub(crate) fn queue_input_events_to_server(&mut self, events: &Vec<RoutedEvent>)
        ensures
            final(self)@ == old(self)@.events_to_server(events@),
    {
        self.set_awaiting_fallback(false);
        self.set_awaiting_promotion(false);
        self.set_server_owned_input(true);
        self.begin_turn(events_without_mouse(events), 0, false);
        self.put(Task::NextEvent);
    }

    pub(crate) fn release_pending_input_to_server(&mut self)
        ensures
            final(self)@ == old(self)@.release_pending(),
    {
        let mut events: Vec<RoutedEvent> = Vec::new();
        self.drain_outbound_events(&mut events);
        self.drain_post_send_events(&mut events);
        let pending = self.take_pending_link_input();
        let inputs = self.take_queued_link_inputs(pending);
        lists::collect_links(&inputs, &mut events);
        self.drain_deferred_events(&mut events);
        assert(events@ =~= old(self)@.pending_events());
        self.clear_activation();
        self.put(Task::ReleasedPending);
        self.queue_input_events_to_server(&events);
    }

    pub(crate) fn released_pending(&mut self)
        ensures
            final(self)@ == old(self)@.released_pending(),
    {
        self.result_as_outbound();
        self.clear_effects();
    }

    pub(crate) fn release_deferred_messages(&mut self)
        ensures
            final(self)@ == old(self)@.release_deferred(),
    {
        if self.awaiting() {
            self.set_awaiting_fallback(false);
            self.set_awaiting_promotion(false);
            self.deferred_as_work();
            self.put(Task::ReleaseNext);
        }
    }

    pub(crate) fn release_next(&mut self)
        ensures
            final(self)@ == old(self)@.release_next(),
    {
        if let Some(item) = self.take_work() {
            match item {
                DeferredMessage::InputEvents { events, .. } => {
                    self.put(Task::ReleaseRouted);
                    self.queue_input_events_to_server(&events);
                },
                DeferredMessage::InputPixels { .. } => self.put(Task::ReleaseNext),
            }
        }
    }

    pub(crate) fn release_routed(&mut self)
        ensures
            final(self)@ == old(self)@.release_routed(),
    {
        if self.has_result() {
            self.sent_before();
        } else {
            self.put(Task::ReleaseNext);
        }
    }

    pub(crate) fn promote_next(&mut self, generation: u64)
        ensures
            final(self)@ == old(self)@.promote_next(generation),
    {
        if !self.has_work() {
            return ;
        }
        if self.awaiting_fallback() {
            self.defer_work();
            return ;
        }
        if let Some(item) = self.take_work() {
            match item {
                DeferredMessage::InputEvents { events, .. } => {
                    self.put(Task::PromoteRouted(generation));
                    self.begin_turn(events_without_mouse(&events), generation, false);
                    self.put(Task::NextEvent);
                },
                DeferredMessage::InputPixels { .. } => self.put(Task::PromoteNext(generation)),
            }
        }
    }

    pub(crate) fn promote_routed(&mut self, generation: u64)
        ensures
            final(self)@ == old(self)@.promote_routed(generation),
    {
        if self.has_result() {
            self.sent_before();
        } else {
            self.put(Task::PromoteNext(generation));
        }
    }

    pub(crate) fn flush_post(&mut self)
        ensures
            final(self)@ == old(self)@.flush_post(),
    {
        match self.post_as_work() {
            Some(first) => {
                self.put(Task::FlushPosted);
                self.start_item(first);
            },
            None => self.clear_result(),
        }
    }

    pub(crate) fn flush_posted(&mut self)
        ensures
            final(self)@ == old(self)@.flush_posted(),
    {
        let found = self.has_result();
        self.work_as_post();
        if !found {
            self.put(Task::FlushPost);
        }
    }

    // ---- The server's answer about a link -----------------------------------------------------
    /// Takes the server's answer about a link.
    pub fn resolve_link_activation(
        &mut self,
        launch_id: u64,
        request_id: u64,
        activated: bool,
        generation: u64,
    )
        ensures
            final(self)@ == old(self)@.resolve_link(launch_id, request_id, activated, generation),
    {
        let asked = match self.pending_link_request_id() {
            Some(pending) => pending == request_id,
            None => false,
        };
        if !asked {
            return ;
        }
        let current = match self.target_ref() {
            Some(target) => target.launch_id == launch_id,
            None => false,
        };
        if !current {
            self.clear_activation();
            self.drain_link_inputs_for_generation(generation);
            return ;
        }
        self.set_pending_link_request_id(None);
        let input = self.take_pending_link_input();
        if activated {
            self.drain_link_inputs_for_generation(generation);
            return ;
        }
        self.set_pending_link_click(false);
        match input {
            None => self.drain_link_inputs_for_generation(generation),
            Some(input) => {
                if input.generation() != generation {
                    self.drain_link_inputs_for_generation(generation);
                } else {
                    self.put(Task::DrainQueued);
                    self.replay_input(input, generation);
                }
            },
        }
    }

    fn send_pixels(&mut self, inputs: Vec<PixelEvent>)
        ensures
            final(self)@ == (RendererView {
                outbound_messages: old(self)@.outbound_messages + Seq::new(
                    inputs@.len(),
                    |i: int|
                        MessageView::InputPixels { pixel: inputs@[i] },
                ),
                ..old(self)@
            }),
    {
        let ghost all = Seq::new(
            inputs@.len(),
            |i: int| MessageView::InputPixels { pixel: inputs@[i] },
        );
        let mut i: usize = 0;
        assert(old(self)@.outbound_messages + all.take(0) =~= old(self)@.outbound_messages);
        while i < inputs.len()
            invariant
                i <= inputs@.len(),
                all == Seq::new(
                    inputs@.len(),
                    |i: int|
                        MessageView::InputPixels { pixel: inputs@[i] },
                ),
                self@ == (RendererView {
                    outbound_messages: old(self)@.outbound_messages + all.take(i as int),
                    ..old(self)@
                }),
            decreases inputs.len() - i,
        {
            self.push_outbound(ClientMessage::InputPixels { pixel: inputs[i] });
            i += 1;
            assert(self@.outbound_messages =~= old(self)@.outbound_messages + all.take(i as int));
        }
        assert(all.take(i as int) =~= all);
    }

    fn replay_input(&mut self, input: LinkInput, generation: u64)
        ensures
            final(self)@ == old(self)@.replay_input(input@, generation),
    {
        let local = self.local_active();
        match input {
            LinkInput::Events { events, .. } => {
                if local {
                    self.set_replay(events);
                    self.put(Task::ReplayNext(generation));
                } else {
                    self.queue_server_events(events);
                }
            },
            LinkInput::Pixels { inputs, .. } => {
                if local {
                    self.set_replay_pixels(inputs);
                    if self.running() {
                        self.put(Task::ReplayPixel(generation));
                    } else {
                        self.put(Task::DeferReplayPixels(generation));
                        self.put(Task::BeginFallback);
                    }
                } else {
                    self.send_pixels(inputs);
                }
            },
        }
    }

    fn replay_done(&mut self, failed: Option<Task>)
        ensures
            final(self)@ == old(self)@.replay_done(failed),
    {
        let render = self.replay_render();
        if let Some(task) = failed {
            self.put(task);
            self.put(Task::BeginFallback);
        }
        self.moved(render);
    }

    pub(crate) fn replay_next(&mut self, generation: u64)
        ensures
            final(self)@ == old(self)@.replay_next(generation),
    {
        match self.replay_event() {
            Some(event) => {
                self.put(Task::ReplayRouted(generation));
                self.put(Task::Local(event));
            },
            None => self.replay_done(None),
        }
    }

    pub(crate) fn replay_routed(&mut self, generation: u64)
        ensures
            final(self)@ == old(self)@.replay_routed(generation),
    {
        let local = self.local();
        let render = self.replay_render();
        self.set_replay_render(render || local.0);
        if local.1 {
            self.replay_step();
            self.put(Task::ReplayNext(generation));
        } else {
            self.replay_done(Some(Task::DeferReplay(generation)));
        }
    }

    pub(crate) fn defer_replay(&mut self, generation: u64)
        ensures
            final(self)@ == old(self)@.defer_replay(generation),
    {
        let events = self.take_replay();
        self.push_deferred_message(DeferredMessage::InputEvents { events, generation });
    }

    pub(crate) fn replay_pixel(&mut self, generation: u64) -> (step: Step)
        ensures
            (final(self)@, step) == old(self)@.replay_pixel(generation),
    {
        match (self.target_size(), self.replay_pixel_event()) {
            (Some(size), Some(pixel)) => self.ask(
                Ask::LocalMouse { pixel, size },
                Task::ReplayPixelLocal(generation),
            ),
            _ => {
                self.replay_done(None);
                Step::Continue
            },
        }
    }

    pub(crate) fn replay_pixel_local(&mut self, generation: u64, mouse: Option<LocalMouse>) -> (step:
        Step)
        ensures
            (final(self)@, step) == old(self)@.replay_pixel_local(generation, mouse),
    {
        match mouse {
            Some(mouse) => {
                match self.replay_pixel_event() {
                    Some(pixel) => self.ask(
                        Ask::ForwardPixel(pixel),
                        Task::ReplayPixelSent { generation, wheel: is_wheel(mouse.kind) },
                    ),
                    None => {
                        self.replay_done(None);
                        Step::Continue
                    },
                }
            },
            None => {
                self.replay_done(Some(Task::DeferReplayPixels(generation)));
                Step::Continue
            },
        }
    }

    pub(crate) fn replay_pixel_sent(&mut self, generation: u64, wheel: bool, sent: bool)
        ensures
            final(self)@ == old(self)@.replay_pixel_sent(generation, wheel, sent),
    {
        if sent {
            let render = self.replay_render();
            self.set_replay_render(render || wheel);
            self.replay_pixel_step();
            self.put(Task::ReplayPixel(generation));
        } else {
            self.replay_done(Some(Task::DeferReplayPixels(generation)));
        }
    }

    pub(crate) fn defer_replay_pixels(&mut self, generation: u64)
        ensures
            final(self)@ == old(self)@.defer_replay_pixels(generation),
    {
        let inputs = self.replay_pixels_left();
        self.defer_pixels(inputs, generation);
        assert(self@.deferred_messages =~= old(self)@.defer_replay_pixels(
            generation,
        ).deferred_messages);
    }
}

} // verus!
