//! The local renderer itself: starting it, keeping its state, and showing its picture.
use crate::input::framing::HostGeometry;
use crate::renderer::fields::{self, ClientOmpRenderer, SurfaceFrame};
use crate::renderer::frame::Frame;
use crate::renderer::model::{
    self, Ask, ClientMessage, HostPixels, LocalEffect, LocalTarget, MessageView, SurfaceSize,
    TargetEvent, TargetView,
};
use crate::renderer::state::{RendererView, RequestView, Step, Task};
use vstd::prelude::*;

verus! {

/// What matters of a request at the moment.
#[derive(Clone, Copy)]
struct RequestState {
    launch_id: u64,
    target_app_client_id: u64,
    bound: bool,
    surface_active: bool,
    size: SurfaceSize,
    generation: u64,
    now: u64,
}

spec fn request_matches(state: RequestState, request: RequestView) -> bool {
    &&& state.launch_id == request.launch_id
    &&& state.target_app_client_id == request.target_app_client_id
    &&& state.bound == request.bound
    &&& state.surface_active == request.surface_active
    &&& state.size == request.size
    &&& state.generation == request.generation
    &&& state.now == request.now
}

fn applied_target(target: LocalTarget, request: &RequestState) -> (applied: LocalTarget)
    ensures
        forall|view: RequestView|
            request_matches(*request, view) ==> applied@
                == #[trigger] RendererView::target_applied(target@, view),
{
    let mut applied = target;
    if !request.bound && applied.ready_reported {
        applied.fallback_confirmed = true;
    }
    if applied.bound && !request.bound {
        let _ = applied.fail();
    }
    if request.bound && !applied.bound {
        applied.bound_at = Some(request.now);
    }
    applied.bound = request.bound && !applied.failed;
    applied.surface_active = request.surface_active && !applied.failed;
    applied.promoted = applied.ready_reported && applied.bound;
    applied.size = request.size;
    applied
}

impl ClientOmpRenderer {
    fn request_state(&self) -> (state: Option<RequestState>)
        ensures
            match (state, self@.request) {
                (Some(state), Some(request)) => request_matches(state, request),
                (None, None) => true,
                _ => false,
            },
    {
        match self.request_ref() {
            Some(request) => Some(
                RequestState {
                    launch_id: request.launch_id,
                    target_app_client_id: request.target_app_client_id,
                    bound: request.bound,
                    surface_active: request.surface_active,
                    size: request.size,
                    generation: request.generation,
                    now: request.now,
                },
            ),
            None => None,
        }
    }

    pub(crate) fn apply_target_request(&mut self)
        ensures
            final(self)@ == old(self)@.apply_target(),
    {
        let request = match self.request_state() {
            Some(request) => request,
            None => return ,
        };
        if !self.available() || request.launch_id < self.latest_launch_id() {
            return ;
        }
        let routed = match self.request_ref() {
            Some(request) => request.route.is_some(),
            None => false,
        };
        if !routed {
            self.set_latest_launch_id(request.launch_id);
            self.put(Task::ClearCached);
            self.put(Task::StopTarget);
            self.put(Task::ReleasePending);
            self.put(Task::Handoff);
            return ;
        }
        let other = match (self.target_ref(), self.request_ref()) {
            (Some(target), Some(request)) => {
                let same_route = match &request.route {
                    Some(route) => target.route.same(route),
                    None => false,
                };
                target.launch_id != request.launch_id || target.target_app_client_id
                    != request.target_app_client_id || !same_route
            },
            _ => false,
        };
        let replace = request.launch_id > self.latest_launch_id() || other;
        self.put(Task::ApplyBinding);
        if replace {
            self.put(Task::SpawnTarget);
            self.put(Task::StopTarget);
            self.put(Task::ReleasePending);
            self.put(Task::Handoff);
        }
    }

    pub(crate) fn spawn_target(&mut self) -> (step: Step)
        ensures
            (final(self)@, step) == old(self)@.spawn_target(),
    {
        match self.request_state() {
            None => Step::Continue,
            Some(request) => {
                self.set_cached_server_frame(None);
                self.set_latest_launch_id(request.launch_id);
                self.ask(Ask::Spawn, Task::Spawned)
            },
        }
    }

    fn new_target(&self) -> (target: Option<LocalTarget>)
        ensures
            fields::target_view(target) == self@.spawned(true).target,
    {
        match self.request_ref() {
            Some(request) => {
                match &request.route {
                    Some(route) => Some(
                        LocalTarget {
                            launch_id: request.launch_id,
                            target_app_client_id: request.target_app_client_id,
                            route: route.duplicate(),
                            running: true,
                            size: request.size,
                            started_at: request.now,
                            bound_at: None,
                            bound: false,
                            surface_active: false,
                            first_damage: false,
                            ready_reported: false,
                            promoted: false,
                            failed: false,
                            fallback_confirmed: false,
                            unread: Vec::new(),
                        },
                    ),
                    None => None,
                }
            },
            None => None,
        }
    }

    pub(crate) fn spawned(&mut self, started: bool)
        ensures
            final(self)@ == old(self)@.spawned(started),
    {
        let target = if started {
            self.new_target()
        } else {
            None
        };
        self.set_target(target);
        self.set_needs_render(true);
    }

    pub(crate) fn apply_binding(&mut self)
        ensures
            final(self)@ == old(self)@.apply_binding(),
    {
        let request = match self.request_state() {
            Some(request) => request,
            None => return ,
        };
        let loses_binding = match self.target_ref() {
            Some(target) => target.bound && !request.bound,
            None => false,
        };
        self.put(Task::ApplySurface { loses_binding });
        if loses_binding {
            self.put(Task::ReleasePending);
        } else if !request.bound {
            self.set_cached_server_frame(None);
            self.release_deferred_messages();
        }
    }

    pub(crate) fn apply_surface(&mut self, loses_binding: bool)
        ensures
            final(self)@ == old(self)@.apply_surface(loses_binding),
    {
        let request = match self.request_state() {
            Some(request) => request,
            None => return ,
        };
        let hides = match self.target_ref() {
            Some(target) => (target.surface_active && !request.surface_active) || loses_binding,
            None => false,
        };
        let handoff = self.local_selected() && hides;
        self.put(Task::ApplyState);
        if loses_binding {
            self.put(Task::Retire);
        }
        if handoff {
            self.put(Task::Handoff);
        }
    }

    fn resolve_promotion(&mut self, active: bool, generation: u64)
        ensures
            final(self)@ == old(self)@.resolve_promotion(active, generation),
    {
        self.set_awaiting_promotion(false);
        self.deferred_as_work();
        if active {
            self.set_local_selected(true);
            self.set_cached_server_frame(None);
            self.set_handoff_frame(None);
            self.set_suppress_link_affordance(false);
            self.repaint();
            self.put(Task::PromoteNext(generation));
        } else {
            self.put(Task::ReleaseNext);
        }
    }

    fn show_target(&mut self, was_active: bool, target: LocalTarget)
        ensures
            final(self)@ == old(self)@.target_shown(was_active, target@),
    {
        let shown = target.bound && target.surface_active;
        let hidden = was_active && !target.surface_active;
        self.set_target(Some(target));
        if hidden {
            self.set_cached_server_frame(None);
        }
        if shown {
            self.set_server_owned_input(false);
        }
        self.set_needs_render(true);
        self.put(Task::Refresh);
        self.put(Task::Remap);
    }

    fn promote(&mut self, bound: bool, drawn: bool, generation: u64)
        ensures
            forall|target: TargetView|
                bound == (target.ready_reported && target.bound) && drawn == (target.surface_active
                    && target.first_damage && target.running && !target.failed) ==> final(self)@
                    == #[trigger] old(self)@.promoted_by(target, generation),
    {
        if self.awaiting_promotion() && bound {
            let active = drawn && !self.server_owned_input() && !self.server_forwarded_overflow();
            self.resolve_promotion(active, generation);
        }
    }

    fn tell_terminal(&mut self, was_running: bool, running: bool, size: SurfaceSize)
        ensures
            final(self)@ == old(self)@.terminal_told(was_running, running, size),
    {
        if running {
            self.put(Task::Perform(Ask::ResizeRuntime(size)));
        } else if was_running {
            self.put(Task::Perform(Ask::StopRuntime));
        }
    }

    pub(crate) fn apply_state(&mut self)
        ensures
            final(self)@ == old(self)@.apply_state(),
    {
        let request = match self.request_state() {
            Some(request) => request,
            None => return ,
        };
        let old_target = match self.copy_target() {
            Some(target) => target,
            None => return ,
        };
        if old_target.launch_id != request.launch_id {
            return ;
        }
        let was_active = old_target.surface_active;
        let was_running = old_target.running;
        let target = applied_target(old_target, &request);
        let ghost applied = target@;
        assert(applied == RendererView::target_applied(
            old_target@,
            old(self)@.request->0,
        ));
        let running = target.running;
        let bound = target.ready_reported && target.bound;
        let drawn = target.surface_active && target.first_damage && target.running
            && !target.failed;
        self.show_target(was_active, target);
        assert(self@ == old(self)@.target_shown(was_active, applied));
        let ghost shown = self@;
        self.promote(bound, drawn, request.generation);
        assert(self@ == shown.promoted_by(applied, request.generation));
        self.tell_terminal(was_running, running, request.size);
    }

    pub(crate) fn target_stopped(&mut self)
        ensures
            final(self)@ == old(self)@.target_stopped(),
    {
        let running = self.running();
        let _ = self.take_target();
        if self.local_selected() || self.server_owned_input() || self.server_forwarded_overflow() {
            self.set_force_repaint(true);
        }
        self.set_local_selected(false);
        self.set_server_owned_input(false);
        self.clear_click();
        self.clear_hovered_cells();
        self.set_needs_render(true);
        if running {
            self.put(Task::Perform(Ask::StopRuntime));
        }
    }

    fn resize_target(&mut self, size: SurfaceSize)
        ensures
            final(self)@ == (RendererView {
                target: match old(self)@.target {
                    Some(target) => Some(TargetView { size, ..target }),
                    None => None,
                },
                ..old(self)@
            }),
    {
        match self.take_target() {
            Some(mut target) => {
                target.size = size;
                self.set_target(Some(target));
            },
            None => {},
        }
    }

    fn thin_out(
        &mut self,
        size: SurfaceSize,
        geometry: Option<HostGeometry>,
        generation: u64,
    ) -> (pointed: bool)
        ensures
            final(self)@ == old(self)@.thinned(size, geometry, generation),
            pointed == (final(self)@.pointer_pixels is Some),
    {
        self.retain_waiting(generation);
        let pointer = match (self.pointer_pixels(), geometry) {
            (Some(pointer), Some(geometry)) => Some(
                HostPixels { x: pointer.x, y: pointer.y, geometry },
            ),
            _ => None,
        };
        self.set_pointer_pixels(pointer);
        self.resize_target(size);
        pointer.is_some()
    }

    pub(crate) fn resized(
        &mut self,
        size: SurfaceSize,
        geometry: Option<HostGeometry>,
        generation: u64,
    )
        ensures
            final(self)@ == old(self)@.resized(size, geometry, generation),
    {
        let running = self.running();
        let pointed = self.thin_out(size, geometry, generation);
        self.repaint();
        self.put(Task::Refresh);
        if pointed {
            self.put(Task::Remap);
        } else {
            self.point_at(None);
        }
        if running {
            self.put(Task::Perform(Ask::ResizeRuntime(size)));
        }
    }

    // ---- What is shown ------------------------------------------------------------------------
    fn absorb(&mut self, target: LocalTarget, effects: &mut Vec<LocalEffect>)
        ensures
            final(self)@ == (RendererView {
                target: Some(target@),
                effects: old(self)@.effects + old(effects)@,
                ..old(self)@
            }),
    {
        self.set_target(Some(target));
        self.add_effects(effects);
    }

    pub(crate) fn poll_target(
        &mut self,
        now: u64,
        size: (u16, u16),
        damage: Option<bool>,
        events: &Vec<TargetEvent>,
    )
        ensures
            final(self)@ == old(self)@.poll(now, size, damage, events@),
    {
        match self.copy_target() {
            Some(target) => {
                let mut target = target;
                let mut effects: Vec<LocalEffect> = Vec::new();
                let (damaged, stopped) = target.poll(
                    damage,
                    events.as_slice(),
                    now,
                    &mut effects,
                );
                let ghost outcome = model::polled(
                    old(self)@.target->0,
                    damage,
                    events@,
                    now,
                );
                assert(effects@ =~= outcome.1);
                assert(target@ == outcome.0 && damaged == outcome.2);
                self.absorb(target, &mut effects);
                self.put(Task::Polled { size, damaged });
                if stopped {
                    self.put(Task::Perform(Ask::StopRuntime));
                }
            },
            None => self.put(Task::Polled { size, damaged: false }),
        }
    }

    fn report_ready(&mut self, launch_id: u64)
        requires
            old(self)@.target is Some,
        ensures
            final(self)@ == (RendererView {
                target: Some(
                    TargetView {
                        ready_reported: true,
                        ..old(self)@.target->0
                    },
                ),
                outbound_messages: old(self)@.outbound_messages.push(
                    MessageView::OmpRendererReady { launch_id },
                ),
                awaiting_promotion: true,
                ..old(self)@
            }),
    {
        if let Some(mut target) = self.take_target() {
            target.ready_reported = true;
            self.set_target(Some(target));
        }
        self.push_outbound(ClientMessage::OmpRendererReady { launch_id });
        self.set_awaiting_promotion(true);
    }

    pub(crate) fn polled(&mut self, size: (u16, u16), damaged: bool)
        ensures
            final(self)@ == old(self)@.polled(size, damaged),
    {
        let (launch_id, ready, fallen, gone) = match self.target_ref() {
            Some(target) => (
                target.launch_id,
                target.bound && target.first_damage && target.running && !target.failed
                    && !target.ready_reported,
                target.failed && target.ready_reported && !target.fallback_confirmed,
                target.failed || !target.running,
            ),
            None => (0u64, false, false, false),
        };
        if ready {
            self.report_ready(launch_id);
        }
        if fallen {
            self.set_awaiting_promotion(false);
            self.set_awaiting_fallback(true);
            self.set_cached_server_frame(None);
        }
        self.put(Task::Select { size, damaged });
        if gone {
            self.put(Task::Retire);
        }
    }

    fn should_select(&self) -> (select: bool)
        ensures
            select == self@.should_select(),
    {
        let shown = match self.target_ref() {
            Some(target) => !target.failed && target.running && target.bound
                && target.surface_active && target.first_damage,
            None => false,
        };
        shown && !self.server_owned_input() && !self.server_forwarded_overflow()
    }

    pub(crate) fn select(&mut self, size: (u16, u16), damaged: bool)
        ensures
            final(self)@ == old(self)@.select(size, damaged),
    {
        let select = self.should_select();
        if select == self.local_selected() {
            self.put(Task::Draw { size, damaged });
            if damaged {
                self.put(Task::Refresh);
            }
        } else {
            self.put(Task::Selected { size, damaged, select });
            if !select {
                self.put(Task::Handoff);
            }
        }
    }

    pub(crate) fn selected(&mut self, size: (u16, u16), damaged: bool, select: bool)
        ensures
            final(self)@ == old(self)@.selected(size, damaged, select),
    {
        self.set_local_selected(select);
        if select {
            self.set_cached_server_frame(None);
            self.set_handoff_frame(None);
            self.set_suppress_link_affordance(false);
        }
        self.repaint();
        self.put(Task::Draw { size, damaged });
        self.put(Task::Refresh);
    }

    pub(crate) fn draw(&mut self, size: (u16, u16), damaged: bool) -> (step: Step)
        ensures
            (final(self)@, step) == old(self)@.draw(size, damaged),
    {
        self.set_surface(None);
        let needs_render = self.needs_render();
        if self.local_selected() {
            if (damaged || needs_render) && self.running() {
                return self.ask(
                    Ask::RenderFrame { columns: size.0, rows: size.1 },
                    Task::Drawn,
                );
            }
            return Step::Continue;
        }
        if !needs_render {
            return Step::Continue;
        }
        let force_repaint = self.force_repaint();
        self.set_needs_render(false);
        self.set_force_repaint(false);
        let frame = match self.copy_cached_server_frame() {
            Some(frame) => Some(frame),
            None => self.take_handoff_frame(),
        };
        if let Some(frame) = frame {
            self.set_surface(Some(SurfaceFrame { frame, force_repaint }));
        }
        Step::Continue
    }

    pub(crate) fn drawn(&mut self, frame: Option<Frame>)
        ensures
            final(self)@ == old(self)@.drawn(fields::frame_view(frame)),
    {
        let mut frame = match frame {
            Some(frame) => frame,
            None => return ,
        };
        self.set_handoff_frame(Some(frame.without_links()));
        if let Some(cells) = self.hovered_cells() {
            frame.underline(cells.as_slice());
        }
        let force_repaint = self.force_repaint();
        self.set_surface(Some(SurfaceFrame { frame, force_repaint }));
        self.set_force_repaint(false);
        self.set_needs_render(false);
    }
}

} // verus!
