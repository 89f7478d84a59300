//! What the client loop asks of the renderer, and the steps in which it is done.
use crate::input::framing::HostGeometry;
use crate::renderer::fields::{self, ClientOmpRenderer, SurfaceFrame};
use crate::renderer::frame::Frame;
use crate::renderer::model::{Answer, Ask, PixelEvent, RoutedEvent, SurfaceSize, TargetEvent};
use crate::renderer::state::{RendererView, Step, TargetRequest, Task};
use vstd::prelude::*;

verus! {

impl ClientOmpRenderer {
    /// Does one piece of work, with the answer to the last question.
    pub fn advance(&mut self, answer: Answer) -> (step: Step)
        ensures
            (final(self)@, step) == old(self)@.advanced(answer@),
    {
        match self.take_task() {
            None => Step::Finished,
            Some(task) => self.perform(task, answer),
        }
    }

    fn perform(&mut self, task: Task, answer: Answer) -> (step: Step)
        ensures
            (final(self)@, step) == old(self)@.performed(task, answer@),
    {
        match task {
            Task::NextEvent => self.next_event(),
            Task::OwnsAnswered(event) => {
                if answer.yes() {
                    self.post_in_turn(event);
                } else {
                    self.put(Task::Existing(event));
                }
                Step::Continue
            },
            Task::Existing(event) => self.existing(event),
            Task::PhysicalAnswered(event) => self.physical_answered(event, answer.physical()),
            Task::PhysicalForwarded(event) => {
                self.physical_forwarded(event, answer.yes());
                Step::Continue
            },
            Task::Navigated => {
                self.moved(answer.yes());
                Step::Continue
            },
            Task::SemanticAnswered(event) => self.semantic_answered(event, answer.semantic()),
            Task::SemanticForwarded(event) => {
                self.semantic_forwarded(event, answer.yes());
                Step::Continue
            },
            Task::Observe(event) => {
                self.observe(event);
                Step::Continue
            },
            Task::Clicked(event) => self.clicked(event),
            Task::FocusReleased { event, forward } => {
                self.focus_released(event, forward);
                Step::Continue
            },
            Task::LinkAnswered { event, request_id } => {
                self.link_answered(event, request_id, answer.link());
                Step::Continue
            },
            Task::Keyed(event) => self.keyed(event),
            Task::PrefixAnswered(event) => {
                self.prefix_answered(event, answer.yes());
                Step::Continue
            },
            Task::PrefixDone => {
                self.prefix_done();
                Step::Continue
            },
            Task::Owned(event) => {
                self.owned(event);
                Step::Continue
            },
            Task::LocalRouted(event) => {
                self.local_routed(event);
                Step::Continue
            },
            Task::DeferEvent(event) => {
                self.defer_in_turn(event);
                Step::Continue
            },
            Task::Local(event) => self.route_local_event(event),
            Task::Reserved { event, navigate } => {
                self.reserved(event, navigate, answer.reserved());
                Step::Continue
            },
            Task::ReleasesDone { event, navigate } => self.releases_done(event, navigate),
            Task::LocalNavigated(event) => {
                self.local_navigated(event, answer.yes());
                Step::Continue
            },
            Task::SemanticPressed(event) => self.semantic_pressed(event, answer.semantic()),
            Task::OwnsSemanticAnswered(event) => self.owns_semantic_answered(event, answer.yes()),
            Task::LocalForward(event) => self.local_forward(event),
            Task::LocalSent(event) => {
                self.local_sent(event, answer.yes());
                Step::Continue
            },
            Task::Perform(question) => Step::Ask(question),
            other => self.perform_shared(other, answer),
        }
    }

    fn perform_shared(&mut self, task: Task, answer: Answer) -> (step: Step)
        requires
            shared_task(task),
        ensures
            (final(self)@, step) == old(self)@.performed(task, answer@),
    {
        match task {
            Task::BeginFallback => {
                self.begin_local_forward_fallback();
                Step::Continue
            },
            Task::FailTarget => {
                self.fail_target();
                Step::Continue
            },
            Task::Fallen => {
                self.fallen();
                Step::Continue
            },
            Task::Handoff => self.prepare_surface_handoff(),
            Task::HandoffDrawn => {
                self.store_handoff_frame(answer.drawn());
                Step::Continue
            },
            Task::Retire => self.ask(Ask::RetireOwner, Task::Retired),
            Task::Retired => {
                self.put(Task::ForwardReleases(answer.releases()));
                Step::Continue
            },
            Task::ForwardReleases(count) => self.forward_local_releases(count),
            Task::Delivered => {
                self.set_delivered(answer.yes());
                Step::Continue
            },
            Task::Refresh => self.refresh_hovered_link(),
            Task::Refreshed => {
                self.refreshed(answer.link());
                Step::Continue
            },
            Task::Remap => self.remap_pointer_pixels(),
            Task::Remapped => {
                self.point_at(answer.cell());
                Step::Continue
            },
            Task::FocusLoss => self.release_local_input_for_focus_loss(),
            Task::FocusAsked => {
                self.put(Task::FocusOwned(answer.yes()));
                Step::Continue
            },
            Task::FocusOwned(forward) => self.ask(
                Ask::ReleaseForFocusLoss,
                Task::FocusReleases(forward),
            ),
            Task::FocusReleases(forward) => {
                self.focus_releases(forward, answer.releases());
                Step::Continue
            },
            Task::FocusForward(forward) => self.focus_forward(forward),
            Task::FocusSent => {
                let delivered = self.delivered() && answer.yes();
                self.focus_done(delivered);
                Step::Continue
            },
            Task::DeferOverflow => {
                self.defer_overflow();
                Step::Continue
            },
            Task::Pixel { pixel, generation, observe } => {
                self.pixel(pixel, generation, observe);
                Step::Continue
            },
            Task::PixelLocal { pixel, generation } => self.pixel_local(pixel, generation),
            Task::PixelPlaced { pixel, generation } => self.pixel_placed(
                pixel,
                generation,
                answer.mouse(),
            ),
            Task::PixelLink { pixel, generation, mouse, request_id } => self.pixel_link(
                pixel,
                generation,
                mouse,
                request_id,
                answer.link(),
            ),
            Task::PixelSent { pixel, generation, wheel } => {
                self.pixel_sent(pixel, generation, wheel, answer.yes());
                Step::Continue
            },
            Task::DeferPixel { pixel, generation } => {
                self.defer_pixel(pixel, generation);
                Step::Continue
            },
            other => self.perform_waiting(other, answer),
        }
    }

    fn perform_waiting(&mut self, task: Task, answer: Answer) -> (step: Step)
        requires
            waiting_task(task),
        ensures
            (final(self)@, step) == old(self)@.performed(task, answer@),
    {
        match task {
            Task::AdmitPixel { pixel, generation } => {
                self.admit_pixel(pixel, generation);
                Step::Continue
            },
            Task::DropResult => {
                self.clear_result();
                Step::Continue
            },
            Task::CancelStale(generation) => {
                self.cancel_stale_link_inputs(generation);
                Step::Continue
            },
            Task::DrainQueued => {
                self.drain_queued_link_inputs();
                Step::Continue
            },
            Task::DrainNext => {
                self.drain_next();
                Step::Continue
            },
            Task::DrainRouted => {
                self.drain_routed();
                Step::Continue
            },
            Task::Admit => {
                self.take_in();
                Step::Continue
            },
            Task::AdmissionTail => {
                self.admission_tail();
                Step::Continue
            },
            Task::ReleasePending => {
                self.release_pending_input_to_server();
                Step::Continue
            },
            Task::ReleasedPending => {
                self.released_pending();
                Step::Continue
            },
            Task::ReleaseNext => {
                self.release_next();
                Step::Continue
            },
            Task::ReleaseRouted => {
                self.release_routed();
                Step::Continue
            },
            Task::PromoteNext(generation) => {
                self.promote_next(generation);
                Step::Continue
            },
            Task::PromoteRouted(generation) => {
                self.promote_routed(generation);
                Step::Continue
            },
            Task::FlushPost => {
                self.flush_post();
                Step::Continue
            },
            Task::FlushPosted => {
                self.flush_posted();
                Step::Continue
            },
            Task::ReplayNext(generation) => {
                self.replay_next(generation);
                Step::Continue
            },
            Task::ReplayRouted(generation) => {
                self.replay_routed(generation);
                Step::Continue
            },
            Task::DeferReplay(generation) => {
                self.defer_replay(generation);
                Step::Continue
            },
            Task::ReplayPixel(generation) => self.replay_pixel(generation),
            Task::ReplayPixelLocal(generation) => self.replay_pixel_local(
                generation,
                answer.mouse(),
            ),
            Task::ReplayPixelSent { generation, wheel } => {
                self.replay_pixel_sent(generation, wheel, answer.yes());
                Step::Continue
            },
            Task::DeferReplayPixels(generation) => {
                self.defer_replay_pixels(generation);
                Step::Continue
            },
            other => self.perform_target(other, answer),
        }
    }

    fn perform_target(&mut self, task: Task, answer: Answer) -> (step: Step)
        requires
            target_task(task),
        ensures
            (final(self)@, step) == old(self)@.performed(task, answer@),
    {
        match task {
            Task::ApplyTarget => {
                self.apply_target_request();
                Step::Continue
            },
            Task::SpawnTarget => self.spawn_target(),
            Task::Spawned => {
                self.spawned(answer.yes());
                Step::Continue
            },
            Task::ApplyBinding => {
                self.apply_binding();
                Step::Continue
            },
            Task::ApplySurface { loses_binding } => {
                self.apply_surface(loses_binding);
                Step::Continue
            },
            Task::ApplyState => {
                self.apply_state();
                Step::Continue
            },
            Task::StopTarget => {
                self.put(Task::TargetStopped);
                self.put(Task::Retire);
                Step::Continue
            },
            Task::TargetStopped => {
                self.target_stopped();
                Step::Continue
            },
            Task::ClearCached => {
                self.set_cached_server_frame(None);
                Step::Continue
            },
            Task::Resized { size, geometry, generation } => {
                self.resized(size, geometry, generation);
                Step::Continue
            },
            Task::Polled { size, damaged } => {
                self.polled(size, damaged);
                Step::Continue
            },
            Task::Select { size, damaged } => {
                self.select(size, damaged);
                Step::Continue
            },
            Task::Selected { size, damaged, select } => {
                self.selected(size, damaged, select);
                Step::Continue
            },
            Task::Draw { size, damaged } => self.draw(size, damaged),
            Task::Drawn => {
                self.drawn(answer.drawn());
                Step::Continue
            },
            _ => Step::Continue,
        }
    }

    // ---- Requests -----------------------------------------------------------------------------
    /// Takes up input events that were read in a generation. The messages to send now are
    /// the result.
    pub fn route_input_at_generation(&mut self, events: Vec<RoutedEvent>, input_generation: u64)
        requires
            old(self)@.idle(),
        ensures
            final(self)@ == (RendererView {
                incoming: events@,
                incoming_generation: input_generation,
                ..old(self)@
            }).put(Task::Admit).put(Task::CancelStale(input_generation)),
    {
        self.set_incoming(events, input_generation);
        self.put(Task::Admit);
        self.put(Task::CancelStale(input_generation));
    }

    /// Takes up input events of the first generation.
    pub fn route_input(&mut self, events: Vec<RoutedEvent>)
        requires
            old(self)@.idle(),
        ensures
            final(self)@ == (RendererView {
                incoming: events@,
                incoming_generation: 0,
                ..old(self)@
            }).put(Task::Admit).put(Task::CancelStale(0)),
    {
        self.route_input_at_generation(events, 0);
    }

    /// Takes up a mouse report in pixels. A message to send now is the result.
    pub fn route_pixel_input(&mut self, pixel: PixelEvent, input_generation: u64)
        requires
            old(self)@.idle(),
        ensures
            final(self)@ == old(self)@.put(
                Task::AdmitPixel { pixel, generation: input_generation },
            ).put(Task::CancelStale(input_generation)),
    {
        self.put(Task::AdmitPixel { pixel, generation: input_generation });
        self.put(Task::CancelStale(input_generation));
    }

    /// Takes up what waited for earlier messages to be sent. The messages to send now are
    /// the result.
    pub fn flush_post_send_input(&mut self)
        requires
            old(self)@.idle(),
        ensures
            final(self)@ == old(self)@.put(Task::FlushPost),
    {
        self.put(Task::FlushPost);
    }

    /// Takes up what the server says about the local renderer.
    pub fn apply_target(&mut self, request: TargetRequest)
        requires
            old(self)@.idle(),
        ensures
            final(self)@ == (RendererView {
                request: Some(request@),
                ..old(self)@
            }).put(Task::ApplyTarget),
    {
        self.set_request(Some(request));
        self.put(Task::ApplyTarget);
    }

    /// Takes up a new size of the surface.
    pub fn resize(
        &mut self,
        size: SurfaceSize,
        host_geometry: Option<HostGeometry>,
        current_input_generation: u64,
    )
        requires
            old(self)@.idle(),
        ensures
            final(self)@ == old(self)@.put(
                Task::Resized {
                    size,
                    geometry: host_geometry,
                    generation: current_input_generation,
                },
            ).put(Task::CancelStale(current_input_generation)),
    {
        self.put(
            Task::Resized {
                size,
                geometry: host_geometry,
                generation: current_input_generation,
            },
        );
        self.put(Task::CancelStale(current_input_generation));
    }

    /// Takes up what the renderer's terminal reported, and draws if there is need. `damage`
    /// tells whether a pending redraw concerns the renderer. The frame to show is the
    /// surface.
    pub fn next_frame(
        &mut self,
        now: u64,
        size: (u16, u16),
        damage: Option<bool>,
        events: &Vec<TargetEvent>,
    )
        requires
            old(self)@.idle(),
        ensures
            final(self)@ == old(self)@.poll(now, size, damage, events@),
    {
        self.poll_target(now, size, damage, events);
    }

    /// Takes up a pointer position, or that there is none.
    pub fn observe_pointer_cell(&mut self, cell: Option<(u16, u16)>)
        requires
            old(self)@.idle(),
        ensures
            final(self)@ == old(self)@.observe_pointer(cell),
    {
        self.observe_pointer(cell);
    }

    /// Takes up the end of the renderer.
    pub fn stop(&mut self)
        requires
            old(self)@.idle(),
        ensures
            final(self)@ == old(self)@.put(Task::StopTarget),
    {
        self.put(Task::StopTarget);
    }

    /// How many keys are held by the server.
    pub fn server_held_keys(&self) -> (count: usize)
        ensures
            count == self@.server_forwarded_presses.len(),
    {
        self.presses().len()
    }

    /// Whether the server holds more keys than can be known.
    pub fn server_holds_too_many(&self) -> (overflow: bool)
        ensures
            overflow == self@.server_forwarded_overflow,
    {
        self.server_forwarded_overflow()
    }

    /// Whether the renderer's own picture is shown.
    pub fn is_local_selected(&self) -> (selected: bool)
        ensures
            selected == self@.local_selected,
    {
        self.local_selected()
    }

    /// Whether the renderer was given up, and the server has not confirmed that yet.
    pub fn awaits_fallback(&self) -> (awaits: bool)
        ensures
            awaits == self@.awaiting_fallback,
    {
        self.awaiting_fallback()
    }

    /// Whether the renderer reported itself, and the server has not confirmed it yet.
    pub fn awaits_promotion(&self) -> (awaits: bool)
        ensures
            awaits == self@.awaiting_promotion,
    {
        self.awaiting_promotion()
    }

    /// Whether input goes to the server although the renderer's own picture is shown.
    pub fn server_owns_input(&self) -> (owns: bool)
        ensures
            owns == self@.server_owned_input,
    {
        self.server_owned_input()
    }

    /// Whether there is a local renderer.
    pub fn has_target(&self) -> (found: bool)
        ensures
            found == (self@.target is Some),
    {
        self.target_ref().is_some()
    }

    /// The last launch that the server spoke of.
    pub fn last_launch_id(&self) -> (launch_id: u64)
        ensures
            launch_id == self@.latest_launch_id,
    {
        self.latest_launch_id()
    }

    /// A frame from the server: it is shown at once, unless the renderer's own picture is.
    pub fn cache_server_frame(&mut self, frame: Frame) -> (surface: Option<SurfaceFrame>)
        ensures
            fields::surface_view(surface) == (if old(self)@.local_selected {
                None
            } else {
                Some((frame@, false))
            }),
            final(self)@ == (if old(self)@.local_selected {
                old(self)@
            } else {
                (RendererView {
                    handoff_frame: None,
                    suppress_link_affordance: false,
                    cached_server_frame: Some(frame@),
                    ..old(self)@
                })
            }),
    {
        if self.local_selected() {
            return None;
        }
        self.set_handoff_frame(None);
        self.set_suppress_link_affordance(false);
        self.set_cached_server_frame(Some(frame.duplicate()));
        Some(SurfaceFrame { frame, force_repaint: false })
    }

    /// Whether the surface's input passes through the renderer.
    pub fn owns_surface_input(&self) -> (owns: bool)
        ensures
            owns == (self@.local_selected || self@.server_owned_input
                || self@.server_forwarded_overflow || self@.awaiting()),
    {
        self.local_selected() || self.server_owned_input() || self.server_forwarded_overflow()
            || self.awaiting()
    }

    /// Whether any input passes through the renderer: the surface's, that of held keys, or
    /// what waits to be sent.
    pub fn owns_input(&self, holds_semantic_keys: bool, holds_physical_keys: bool) -> (owns: bool)
        ensures
            owns == (self@.local_selected || self@.server_owned_input
                || self@.server_forwarded_overflow || self@.awaiting() || holds_semantic_keys
                || holds_physical_keys || self@.post_send_input.len() > 0),
    {
        self.owns_surface_input() || holds_semantic_keys || holds_physical_keys
            || self.has_post_send()
    }

    /// Whether links are to be marked as such by the host terminal: never after a handover,
    /// and unknown while the server draws. `link` tells whether one is under the pointer.
    pub fn native_link_active(&self, link: bool) -> (active: Option<bool>)
        ensures
            active == (if self@.suppress_link_affordance {
                Some(false)
            } else if !self@.local_active() {
                None
            } else {
                Some(self@.pointer_cell is Some && link)
            }),
    {
        if self.suppress_link_affordance() {
            return Some(false);
        }
        if !self.local_active() {
            return None;
        }
        Some(self.pointer_cell().is_some() && link)
    }
}

/// Tasks about giving the renderer up, the pointer, the focus and pixels, and those after.
spec fn shared_task(task: Task) -> bool {
    match task {
        Task::BeginFallback | Task::FailTarget | Task::Fallen | Task::Handoff | Task::HandoffDrawn
        | Task::Retire | Task::Retired | Task::ForwardReleases(_) | Task::Delivered | Task::Refresh
        | Task::Refreshed | Task::Remap | Task::Remapped | Task::FocusLoss | Task::FocusAsked
        | Task::FocusOwned(_) | Task::FocusReleases(_) | Task::FocusForward(_) | Task::FocusSent
        | Task::DeferOverflow | Task::Pixel { .. } | Task::PixelLocal { .. }
        | Task::PixelPlaced { .. } | Task::PixelLink { .. } | Task::PixelSent { .. }
        | Task::DeferPixel { .. } => true,
        _ => waiting_task(task),
    }
}

/// Tasks about input that waits, and those after.
spec fn waiting_task(task: Task) -> bool {
    match task {
        Task::AdmitPixel { .. } | Task::DropResult | Task::CancelStale(_) | Task::DrainQueued
        | Task::DrainNext | Task::DrainRouted | Task::Admit | Task::AdmissionTail
        | Task::ReleasePending | Task::ReleasedPending | Task::ReleaseNext | Task::ReleaseRouted
        | Task::PromoteNext(_) | Task::PromoteRouted(_) | Task::FlushPost | Task::FlushPosted
        | Task::ReplayNext(_) | Task::ReplayRouted(_) | Task::DeferReplay(_) | Task::ReplayPixel(_)
        | Task::ReplayPixelLocal(_) | Task::ReplayPixelSent { .. } | Task::DeferReplayPixels(
            _,
        ) => true,
        _ => target_task(task),
    }
}

/// Tasks about the renderer itself.
spec fn target_task(task: Task) -> bool {
    match task {
        Task::ApplyTarget | Task::SpawnTarget | Task::Spawned | Task::ApplyBinding
        | Task::ApplySurface { .. } | Task::ApplyState | Task::StopTarget | Task::TargetStopped
        | Task::ClearCached | Task::Resized { .. } | Task::Polled { .. } | Task::Select { .. }
        | Task::Selected { .. } | Task::Draw { .. } | Task::Drawn => true,
        _ => false,
    }
}

} // verus!
