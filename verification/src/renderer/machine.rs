//! Input events, one by one: who gets each of them.
//!
//! A request puts up work; a step does one piece of it and may ask the caller for what
//! only the terminal, the keyboard state or the parsers know.
use crate::input::windows::ClientKeyKind;
use crate::renderer::fields::{self, ClientOmpRenderer};
use crate::renderer::frame::Frame;
use crate::renderer::lists::{
    self, holds_press, one_event, one_pixel, push_link, same_cell, same_cells, without_press,
};
use crate::renderer::model::{
    self, Ask, ClientMessage, DeferredMessage, EventKind, LinkInput, MAX_QUEUED_LINK_INPUTS,
    MAX_TRACKED_SERVER_PRESSES, PhysicalRoute, PixelEvent, RoutedEvent, SemanticRoute, SurfaceSize,
    TerminalLink, is_wheel,
};
use crate::renderer::state::{Step, Task};
use vstd::prelude::*;

verus! {

impl ClientOmpRenderer {

    pub(crate) fn put(&mut self, task: Task)
        ensures
            final(self)@ == old(self)@.put(task),
    {
        self.put_task(task);
    }

    pub(crate) fn ask(&mut self, question: Ask, after: Task) -> (step: Step)
        ensures
            (final(self)@, step) == old(self)@.ask(question, after),
    {
        self.put(after);
        Step::Ask(question)
    }

    pub(crate) fn running(&self) -> (running: bool)
        ensures
            running == self@.running(),
    {
        match self.target_ref() {
            Some(target) => target.running,
            None => false,
        }
    }

    pub(crate) fn awaiting(&self) -> (awaiting: bool)
        ensures
            awaiting == self@.awaiting(),
    {
        self.awaiting_fallback() || self.awaiting_promotion()
    }

    pub(crate) fn local_active(&self) -> (active: bool)
        ensures
            active == self@.local_active(),
    {
        self.local_selected() && !self.server_owned_input() && !self.server_forwarded_overflow()
    }

    pub(crate) fn link_visible(&self) -> (visible: bool)
        ensures
            visible == self@.link_visible(),
    {
        self.local_active() && self.running()
    }

    pub(crate) fn usable(&self, link: Option<TerminalLink>) -> (usable: Option<TerminalLink>)
        ensures
            fields::link_view(usable) == self@.usable(fields::link_view(link)),
    {
        match link {
            Some(link) => if link.url.as_str().as_bytes().len() <= self.link_limit() {
                Some(link)
            } else {
                None
            },
            None => None,
        }
    }

    pub(crate) fn repaint(&mut self)
        ensures
            final(self)@ == old(self)@.repaint(),
    {
        self.set_needs_render(true);
        self.set_force_repaint(true);
    }

    pub(crate) fn observe_one(&mut self, event: RoutedEvent)
        ensures
            final(self)@ == old(self)@.observe_one(event),
    {
        match event.kind {
            EventKind::FocusLost => {
                self.set_presses(Vec::new());
                self.set_server_forwarded_overflow(false);
            },
            EventKind::Key { identity, kind, .. } => {
                match kind {
                    ClientKeyKind::Press => {
                        if !holds_press(self.presses(), identity) {
                            if self.presses().len() < MAX_TRACKED_SERVER_PRESSES {
                                self.push_press(identity);
                            } else {
                                self.set_server_forwarded_overflow(true);
                            }
                        }
                    },
                    ClientKeyKind::Release => {
                        let kept = without_press(self.presses(), identity);
                            self.set_presses(kept);
                    },
                    ClientKeyKind::Repeat => {},
                }
            },
            _ => {},
        }
    }

    /// Takes note of events that went to the server.
    pub fn observe_server_input(&mut self, events: &Vec<RoutedEvent>)
        ensures
            final(self)@ == old(self)@.observe_server(events@),
    {
        let mut i: usize = 0;
        assert(events@.take(0) =~= Seq::empty());
        while i < events.len()
            invariant
                i <= events@.len(),
                self@ == old(self)@.observe_server(events@.take(i as int)),
            decreases events.len() - i,
        {
            self.observe_one(events[i]);
            i += 1;
            assert(events@.take(i as int).drop_last() =~= events@.take(i - 1));
        }
        assert(events@.take(i as int) =~= events@);
    }

    pub(crate) fn route_existing_server_input(&mut self, event: RoutedEvent) -> (routed: bool)
        ensures
            (final(self)@, routed) == old(self)@.existing_server_route(event),
    {
        match event.kind {
            EventKind::Key { identity, physical, kind } => {
                if self.server_forwarded_overflow() {
                    return true;
                }
                if !holds_press(self.presses(), identity) {
                    return false;
                }
                match kind {
                    ClientKeyKind::Press => {
                        if physical {
                            true
                        } else {
                            let kept = without_press(self.presses(), identity);
                            self.set_presses(kept);
                            false
                        }
                    },
                    ClientKeyKind::Release => {
                        let kept = without_press(self.presses(), identity);
                            self.set_presses(kept);
                        true
                    },
                    ClientKeyKind::Repeat => true,
                }
            },
            _ => false,
        }
    }

    pub(crate) fn queue_server_events(&mut self, events: Vec<RoutedEvent>)
        ensures
            final(self)@ == old(self)@.queue_server_events(events@),
    {
        self.observe_server_input(&events);
        self.push_outbound(ClientMessage::InputEvents { events });
    }

    pub(crate) fn defer_in_turn(&mut self, event: RoutedEvent)
        ensures
            final(self)@ == old(self)@.defer_in_turn(event),
    {
        if event.sendable {
            self.push_turn_deferred(event);
        }
    }

    pub(crate) fn post_in_turn(&mut self, event: RoutedEvent)
        ensures
            final(self)@ == old(self)@.post_in_turn(event),
    {
        if event.sendable {
            self.push_turn_post_send(event);
        }
    }

    pub(crate) fn batch_in_turn(&mut self, event: RoutedEvent)
        ensures
            final(self)@ == old(self)@.batch_in_turn(event),
    {
        if event.sendable {
            self.push_turn_batch(event);
        }
    }

    pub(crate) fn tailed(&mut self)
        ensures
            final(self)@ == old(self)@.tailed(),
    {
        self.set_turn_tail();
    }

    pub(crate) fn close_batch(&mut self)
        ensures
            final(self)@ == old(self)@.batch_closed(),
    {
        if self.turn_state().batch {
            let events = self.take_turn_batch();
            self.push_turn_message(ClientMessage::InputEvents { events });
        }
    }

    pub(crate) fn message_in_turn(&mut self, message: ClientMessage)
        ensures
            final(self)@ == old(self)@.message_in_turn(message@),
    {
        self.push_turn_message(message);
    }

    pub(crate) fn finish_turn(&mut self)
        ensures
            final(self)@ == old(self)@.turn_finished(),
    {
        self.close_batch();
        let state = self.turn_state();
        let generation: u64 = state.generation;
        if state.deferred {
            let events = self.take_turn_deferred();
            self.push_deferred_message(DeferredMessage::InputEvents { events, generation });
        }
        if state.post_send {
            let events = self.take_turn_post_send();
            self.push_post_send(DeferredMessage::InputEvents { events, generation });
        }
        self.end_turn();
    }

    pub(crate) fn clear_activation(&mut self)
        ensures
            final(self)@ == old(self)@.clear_activation(),
    {
        self.set_pending_link_click(false);
        self.set_pending_link_request_id(None);
        self.set_pending_link_input(None);
    }

    pub(crate) fn clear_click(&mut self)
        ensures
            final(self)@ == old(self)@.clear_click(),
    {
        self.clear_activation();
        self.clear_queued();
    }





    pub(crate) fn fail_link_input_overflow(&mut self, input: LinkInput)
        ensures
            final(self)@ == old(self)@.link_overflow(input@),
    {
        let pending = self.take_pending_link_input();
        let mut inputs = self.take_queued_link_inputs(pending);
        push_link(&mut inputs, input);
        proof {
            let pending = match old(self)@.pending_link_input {
                Some(pending) => seq![pending],
                None => Seq::empty(),
            };
            assert(model::link_views(inputs@) =~= pending
                + old(self)@.queued_link_inputs + seq![input@]);
        }
        self.set_overflow(inputs);
        self.clear_activation();
        self.put(Task::DeferOverflow);
        self.put(Task::BeginFallback);
    }

    pub(crate) fn queue_link_input(&mut self, input: LinkInput)
        ensures
            final(self)@ == old(self)@.queue_link(input@),
    {
        if self.queued_len() < MAX_QUEUED_LINK_INPUTS {
            self.push_queued(input);
        } else {
            self.fail_link_input_overflow(input);
        }
    }

    pub(crate) fn append_pending_link_event(&mut self, event: RoutedEvent)
        ensures
            final(self)@ == old(self)@.append_link_event(event),
    {
        if !event.sendable {
            return ;
        }
        match self.take_pending_link_input() {
            Some(LinkInput::Events { events, generation }) => {
                if events.len() >= MAX_QUEUED_LINK_INPUTS {
                    self.set_pending_link_input(Some(LinkInput::Events { events, generation }));
                    self.fail_link_input_overflow(
                        LinkInput::Events { events: one_event(event), generation },
                    );
                } else {
                    let mut events = events;
                    events.push(event);
                    self.set_pending_link_input(Some(LinkInput::Events { events, generation }));
                }
            },
            other => self.set_pending_link_input(other),
        }
    }

    pub(crate) fn append_pending_link_pixels(&mut self, pixel: PixelEvent)
        ensures
            final(self)@ == old(self)@.append_link_pixel(pixel),
    {
        match self.take_pending_link_input() {
            Some(LinkInput::Pixels { inputs, generation }) => {
                if inputs.len() >= MAX_QUEUED_LINK_INPUTS {
                    self.set_pending_link_input(Some(LinkInput::Pixels { inputs, generation }));
                    self.fail_link_input_overflow(
                        LinkInput::Pixels { inputs: one_pixel(pixel), generation },
                    );
                } else {
                    let mut inputs = inputs;
                    inputs.push(pixel);
                    self.set_pending_link_input(Some(LinkInput::Pixels { inputs, generation }));
                }
            },
            other => self.set_pending_link_input(other),
        }
    }

    pub(crate) fn allocate_link_request_id(&mut self) -> (request_id: u64)
        ensures
            final(self)@ == old(self)@.link_id_allocated(),
            request_id == old(self)@.next_link_request_id,
    {
        let request_id: u64 = self.next_link_request_id();
        self.set_next_link_request_id(if request_id == u64::MAX {
            1
        } else {
            request_id + 1
        });
        request_id
    }

    pub(crate) fn link_waits(&mut self, event: RoutedEvent)
        ensures
            final(self)@ == old(self)@.link_waits(event),
    {
        if event.is_left_drag() && self.pending_link_click() {
            self.append_pending_link_event(event);
            return ;
        }
        if event.is_left_up() && self.pending_link_click() {
            self.set_pending_link_click(false);
            self.append_pending_link_event(event);
            return ;
        }
        if event.is_left_down() {
            self.set_pending_link_click(false);
        }
        if event.sendable {
            let generation: u64 = self.turn_state().generation;
            self.queue_link_input(LinkInput::Events { events: one_event(event), generation });
        }
    }

    pub(crate) fn point_at(&mut self, cell: Option<(u16, u16)>)
        ensures
            final(self)@ == old(self)@.set_pointer(cell),
    {
        if !same_cell(self.pointer_cell(), cell) {
            self.set_pointer_cell(cell);
            self.put(Task::Refresh);
        }
    }

    pub(crate) fn observe_pointer(&mut self, cell: Option<(u16, u16)>)
        ensures
            final(self)@ == old(self)@.observe_pointer(cell),
    {
        self.set_pointer_pixels(None);
        self.point_at(cell);
    }

    pub(crate) fn hover(&mut self, cells: Option<Vec<(u16, u16)>>)
        ensures
            final(self)@ == old(self)@.hovered(lists::cells_view(cells)),
    {
        if !same_cells(self.hovered_cells(), &cells) {
            self.set_hovered_cells(cells);
            self.set_needs_render(true);
        }
    }


    pub(crate) fn next_event(&mut self) -> (step: Step)
        ensures
            (final(self)@, step) == old(self)@.next_event(),
    {
        let state = self.turn_state();
        if !state.events {
            self.finish_turn();
            return Step::Continue;
        }
        let event = self.take_turn_event();
        self.put(Task::NextEvent);
        if self.pending_link_request_id().is_some() {
            self.link_waits(event);
            Step::Continue
        } else if self.awaiting() && (self.has_deferred() || state.deferred) {
            self.defer_in_turn(event);
            Step::Continue
        } else if state.tail && (state.post_send || !self.server_owned_input()) {
            self.post_in_turn(event);
            Step::Continue
        } else if state.tail && event.is_key() {
            self.ask(Ask::OwnsKey(event), Task::OwnsAnswered(event))
        } else {
            self.put(Task::Existing(event));
            Step::Continue
        }
    }

    pub(crate) fn existing(&mut self, event: RoutedEvent) -> (step: Step)
        ensures
            (final(self)@, step) == old(self)@.existing(event),
    {
        if self.route_existing_server_input(event) {
            self.batch_in_turn(event);
            self.tailed();
            Step::Continue
        } else if event.is_key() {
            self.ask(Ask::PhysicalRoute(event), Task::PhysicalAnswered(event))
        } else {
            self.put(Task::Observe(event));
            Step::Continue
        }
    }

    pub(crate) fn physical_forwarded(&mut self, event: RoutedEvent, sent: bool)
        ensures
            final(self)@ == old(self)@.physical_forwarded(event, sent),
    {
        if !sent {
            self.put(Task::BeginFallback);
        }
        if event.is_released() {
            self.put(Task::Perform(Ask::ForgetPhysical(event)));
        } else if !sent {
            self.put(Task::Perform(Ask::SuppressPhysical(event)));
        }
    }

    pub(crate) fn semantic_forwarded(&mut self, event: RoutedEvent, sent: bool)
        ensures
            final(self)@ == old(self)@.semantic_forwarded(event, sent),
    {
        if !sent {
            self.put(Task::BeginFallback);
        }
        if event.is_released() {
            self.put(Task::Perform(Ask::ForgetSemantic(event)));
        } else if !sent {
            self.put(Task::Perform(Ask::SuppressSemantic(event)));
        }
    }

    pub(crate) fn moved(&mut self, navigated: bool)
        ensures
            final(self)@ == old(self)@.moved(navigated),
    {
        if navigated {
            self.set_needs_render(true);
            self.put(Task::Refresh);
        }
    }

    pub(crate) fn physical_answered(&mut self, event: RoutedEvent, route: Option<PhysicalRoute>) -> (step:
        Step)
        ensures
            (final(self)@, step) == old(self)@.physical_answered(event, route),
    {
        match route {
            Some(PhysicalRoute::Forwarded) => {
                if self.running() {
                    self.ask(Ask::Forward(event), Task::PhysicalForwarded(event))
                } else {
                    self.physical_forwarded(event, false);
                    Step::Continue
                }
            },
            Some(PhysicalRoute::ReplyNavigation) => {
                if !event.is_released() && self.running() {
                    self.ask(Ask::Navigate(event), Task::Navigated)
                } else {
                    Step::Continue
                }
            },
            Some(PhysicalRoute::Suppressed) => Step::Continue,
            None => self.ask(Ask::SemanticRoute(event), Task::SemanticAnswered(event)),
        }
    }

    pub(crate) fn semantic_answered(&mut self, event: RoutedEvent, route: Option<SemanticRoute>) -> (step:
        Step)
        ensures
            (final(self)@, step) == old(self)@.semantic_answered(event, route),
    {
        match route {
            Some(SemanticRoute::Forwarded) => {
                if self.running() {
                    self.ask(Ask::Forward(event), Task::SemanticForwarded(event))
                } else {
                    self.semantic_forwarded(event, false);
                    Step::Continue
                }
            },
            Some(SemanticRoute::Consumed { navigated }) => {
                self.moved(navigated);
                Step::Continue
            },
            None => {
                self.put(Task::Observe(event));
                Step::Continue
            },
        }
    }

    pub(crate) fn observe(&mut self, event: RoutedEvent)
        ensures
            final(self)@ == old(self)@.observe(event),
    {
        self.put(Task::Clicked(event));
        if self.turn_state().observe {
            match event.kind {
                EventKind::Mouse { column, row, .. } => self.observe_pointer(Some((column, row))),
                EventKind::FocusLost => self.observe_pointer(None),
                _ => {},
            }
        }
    }

    pub(crate) fn clicked(&mut self, event: RoutedEvent) -> (step: Step)
        ensures
            (final(self)@, step) == old(self)@.clicked(event),
    {
        if event.is_left_drag() && self.pending_link_click() {
            self.append_pending_link_event(event);
            return Step::Continue;
        }
        if event.is_left_up() && self.pending_link_click() {
            self.set_pending_link_click(false);
            self.append_pending_link_event(event);
            return Step::Continue;
        }
        if event.is_left_down() {
            if self.pending_link_request_id().is_none() {
                self.clear_click();
            } else {
                self.set_pending_link_click(false);
            }
        }
        self.placed(event)
    }

    pub(crate) fn placed(&mut self, event: RoutedEvent) -> (step: Step)
        ensures
            (final(self)@, step) == old(self)@.placed(event),
    {
        if self.awaiting() {
            self.defer_in_turn(event);
            return Step::Continue;
        }
        if matches!(event.kind, EventKind::FocusLost) {
            let forward = self.presses().len() > 0 || self.server_forwarded_overflow()
                || self.server_owned_input() || !self.local_selected();
            self.put(Task::FocusReleased { event, forward });
            self.put(Task::FocusLoss);
            return Step::Continue;
        }
        if self.local_active() && event.is_left_down() {
            if let EventKind::Mouse { column, row, .. } = event.kind {
                let request_id: u64 = self.allocate_link_request_id();
                if self.link_visible() {
                    return self.ask(
                        Ask::LinkAt { column, row },
                        Task::LinkAnswered { event, request_id },
                    );
                }
            }
        }
        self.put(Task::Keyed(event));
        Step::Continue
    }

    pub(crate) fn link_answered(&mut self, event: RoutedEvent, request_id: u64, link: Option<TerminalLink>)
        ensures
            final(self)@ == old(self)@.link_answered(event, request_id, fields::link_view(link)),
    {
        let launch_id: Option<u64> = match self.target_ref() {
            Some(target) => Some(target.launch_id),
            None => None,
        };
        match (self.usable(link), launch_id) {
            (Some(link), Some(launch_id)) => {
                self.close_batch();
                self.message_in_turn(
                    ClientMessage::ActivateOmpLink { launch_id, request_id, url: link.url },
                );
                self.tailed();
                self.set_pending_link_click(true);
                self.set_pending_link_request_id(Some(request_id));
                let generation: u64 = self.turn_state().generation;
                let input = if event.sendable {
                    Some(LinkInput::Events { events: one_event(event), generation })
                } else {
                    None
                };
                self.set_pending_link_input(input);
            },
            _ => self.put(Task::Keyed(event)),
        }
    }

    pub(crate) fn keyed(&mut self, event: RoutedEvent) -> (step: Step)
        ensures
            (final(self)@, step) == old(self)@.keyed(event),
    {
        if self.local_selected() && event.is_key() && !event.is_released() && self.target_ref().is_some() {
            self.ask(Ask::MatchesPrefix(event), Task::PrefixAnswered(event))
        } else {
            self.put(Task::Owned(event));
            Step::Continue
        }
    }

    pub(crate) fn prefix_answered(&mut self, event: RoutedEvent, matching: bool)
        ensures
            final(self)@ == old(self)@.prefix_answered(event, matching),
    {
        if !matching {
            self.put(Task::Owned(event));
            return ;
        }
        self.observe_one(event);
        self.close_batch();
        if event.sendable {
            self.message_in_turn(ClientMessage::InputEvents { events: one_event(event) });
        }
        self.tailed();
        self.put(Task::PrefixDone);
        self.put(Task::Handoff);
    }

    pub(crate) fn prefix_done(&mut self)
        ensures
            final(self)@ == old(self)@.prefix_done(),
    {
        self.set_server_owned_input(true);
        self.set_cached_server_frame(None);
        self.repaint();
        self.put(Task::Refresh);
    }

    pub(crate) fn owned(&mut self, event: RoutedEvent)
        ensures
            final(self)@ == old(self)@.owned(event),
    {
        if !self.local_active() {
            self.observe_one(event);
            if event.sendable {
                self.batch_in_turn(event);
                self.tailed();
            }
        } else {
            self.put(Task::LocalRouted(event));
            self.put(Task::Local(event));
        }
    }

    pub(crate) fn local_routed(&mut self, event: RoutedEvent)
        ensures
            final(self)@ == old(self)@.local_routed(event),
    {
        if self.local().0 {
            self.moved(true);
        } else if !self.local().1 {
            self.put(Task::DeferEvent(event));
            self.put(Task::BeginFallback);
        }
    }

    pub(crate) fn focus_released(&mut self, event: RoutedEvent, forward: bool)
        ensures
            final(self)@ == old(self)@.focus_released(event, forward),
    {
        let send = forward || !self.focus_delivered();
        self.set_presses(Vec::new());
        self.set_server_forwarded_overflow(false);
        if send {
            self.batch_in_turn(event);
            self.tailed();
        }
    }

    pub(crate) fn with_local(&mut self, needs_render: bool, sent: bool)
        ensures
            final(self)@ == old(self)@.with_local(needs_render, sent),
    {
        self.set_local((needs_render, sent));
    }

    pub(crate) fn route_local_event(&mut self, event: RoutedEvent) -> (step: Step)
        ensures
            (final(self)@, step) == old(self)@.local_event(event),
    {
        match event.kind {
            EventKind::Key { physical, .. } => {
                if physical {
                    if event.is_pressed() {
                        self.ask(
                            Ask::ReservePress(event),
                            Task::Reserved { event, navigate: true },
                        )
                    } else {
                        self.with_local(false, true);
                        Step::Continue
                    }
                } else {
                    self.ask(Ask::SemanticPress(event), Task::SemanticPressed(event))
                }
            },
            _ => {
                self.put(Task::LocalForward(event));
                Step::Continue
            },
        }
    }

    pub(crate) fn reserved(&mut self, event: RoutedEvent, navigate: bool, releases: Option<usize>)
        ensures
            final(self)@ == old(self)@.reserved(event, navigate, releases),
    {
        match releases {
            None => self.with_local(false, true),
            Some(count) => {
                self.put(Task::ReleasesDone { event, navigate });
                self.put(Task::ForwardReleases(count));
            },
        }
    }

    pub(crate) fn releases_done(&mut self, event: RoutedEvent, navigate: bool) -> (step: Step)
        ensures
            (final(self)@, step) == old(self)@.releases_done(event, navigate),
    {
        if !self.delivered() {
            self.with_local(false, false);
            self.put(Task::BeginFallback);
            self.put(Task::Perform(Ask::ForgetPhysical(event)));
            Step::Continue
        } else if navigate {
            if self.running() {
                self.ask(Ask::Navigate(event), Task::LocalNavigated(event))
            } else {
                self.local_navigated(event, false);
                Step::Continue
            }
        } else {
            self.put(Task::LocalForward(event));
            self.put(Task::Perform(Ask::CommitPress(event, PhysicalRoute::Forwarded)));
            Step::Continue
        }
    }

    pub(crate) fn local_navigated(&mut self, event: RoutedEvent, navigated: bool)
        ensures
            final(self)@ == old(self)@.local_navigated(event, navigated),
    {
        if navigated {
            self.with_local(true, true);
            self.put(Task::Perform(Ask::CommitPress(event, PhysicalRoute::ReplyNavigation)));
        } else {
            self.put(Task::LocalForward(event));
            self.put(Task::Perform(Ask::CommitPress(event, PhysicalRoute::Forwarded)));
        }
    }

    pub(crate) fn semantic_pressed(&mut self, event: RoutedEvent, route: Option<SemanticRoute>) -> (step: Step)
        ensures
            (final(self)@, step) == old(self)@.semantic_pressed(event, route),
    {
        match route {
            Some(SemanticRoute::Consumed { navigated }) => {
                self.with_local(navigated, true);
                Step::Continue
            },
            _ => self.ask(Ask::OwnsSemantic(event), Task::OwnsSemanticAnswered(event)),
        }
    }

    pub(crate) fn owns_semantic_answered(&mut self, event: RoutedEvent, owns: bool) -> (step: Step)
        ensures
            (final(self)@, step) == old(self)@.owns_semantic_answered(event, owns),
    {
        if owns {
            self.put(Task::LocalForward(event));
            Step::Continue
        } else if !event.is_pressed() {
            self.with_local(false, true);
            Step::Continue
        } else {
            self.ask(Ask::ReservePress(event), Task::Reserved { event, navigate: false })
        }
    }

    pub(crate) fn local_forward(&mut self, event: RoutedEvent) -> (step: Step)
        ensures
            (final(self)@, step) == old(self)@.local_forward(event),
    {
        if self.running() {
            self.ask(Ask::Forward(event), Task::LocalSent(event))
        } else {
            self.local_sent(event, false);
            Step::Continue
        }
    }

    pub(crate) fn local_sent(&mut self, event: RoutedEvent, sent: bool)
        ensures
            final(self)@ == old(self)@.local_sent(event, sent),
    {
        let moves = match event.kind {
            EventKind::Mouse { kind, .. } => is_wheel(kind),
            EventKind::Key { .. } => !event.is_released(),
            EventKind::Text | EventKind::Paste => true,
            _ => false,
        };
        self.with_local(moves && sent, sent);
        if !sent && event.is_key() {
            self.put(Task::Perform(Ask::ForgetSemantic(event)));
            self.put(Task::Perform(Ask::ForgetPhysical(event)));
        }
    }

    pub(crate) fn begin_local_forward_fallback(&mut self)
        ensures
            final(self)@ == old(self)@.begin_fallback(),
    {
        self.put(Task::Fallen);
        self.put(Task::FailTarget);
        self.put(Task::Retire);
        self.put(Task::Handoff);
    }



    pub(crate) fn fail_target(&mut self)
        ensures
            final(self)@ == old(self)@.fail_target(),
    {
        if let Some(mut target) = self.take_target() {
            let stopped = target.fail();
            self.set_target(Some(target));
            if stopped {
                self.put(Task::Perform(Ask::StopRuntime));
            }
        }
    }

    pub(crate) fn fallen(&mut self)
        ensures
            final(self)@ == old(self)@.fallen(),
    {
        self.set_awaiting_fallback(true);
        self.set_cached_server_frame(None);
        self.repaint();
    }

    pub(crate) fn prepare_surface_handoff(&mut self) -> (step: Step)
        ensures
            (final(self)@, step) == old(self)@.handoff(),
    {
        if !self.local_selected() {
            return Step::Continue;
        }
        self.set_suppress_link_affordance(true);
        self.repaint();
        let size: Option<SurfaceSize> = match self.target_ref() {
            Some(target) => if target.running {
                Some(target.size)
            } else {
                None
            },
            None => None,
        };
        match size {
            Some(size) => self.ask(
                Ask::RenderFrame { columns: size.columns, rows: size.rows },
                Task::HandoffDrawn,
            ),
            None => Step::Continue,
        }
    }

    pub(crate) fn store_handoff_frame(&mut self, frame: Option<Frame>)
        ensures
            final(self)@ == old(self)@.handoff_drawn(fields::frame_view(frame)),
    {
        if let Some(frame) = &frame {
            self.set_handoff_frame(Some(frame.without_links()));
        }
    }

    pub(crate) fn forward_local_releases(&mut self, count: usize) -> (step: Step)
        ensures
            (final(self)@, step) == old(self)@.forward_releases(count),
    {
        if count == 0 {
            self.set_delivered(true);
            Step::Continue
        } else if !self.running() {
            self.set_delivered(false);
            Step::Continue
        } else {
            self.ask(Ask::ForwardReleases, Task::Delivered)
        }
    }

    pub(crate) fn refresh_hovered_link(&mut self) -> (step: Step)
        ensures
            (final(self)@, step) == old(self)@.refresh(),
    {
        if let Some((column, row)) = self.pointer_cell() {
            if self.link_visible() {
                return self.ask(Ask::LinkAt { column, row }, Task::Refreshed);
            }
        }
        self.hover(None);
        Step::Continue
    }

    pub(crate) fn refreshed(&mut self, link: Option<TerminalLink>)
        ensures
            final(self)@ == old(self)@.refreshed(fields::link_view(link)),
    {
        let cells: Option<Vec<(u16, u16)>> = match self.usable(link) {
            Some(link) => Some(link.cells),
            None => None,
        };
        self.hover(cells);
    }


    pub(crate) fn remap_pointer_pixels(&mut self) -> (step: Step)
        ensures
            (final(self)@, step) == old(self)@.remap(),
    {
        match self.pointer_pixels() {
            Some(pointer) => {
                let size = self.target_size();
                self.ask(Ask::PixelCell { pointer, size }, Task::Remapped)
            },
            None => Step::Continue,
        }
    }

    pub(crate) fn release_local_input_for_focus_loss(&mut self) -> (step: Step)
        ensures
            (final(self)@, step) == old(self)@.focus_loss(),
    {
        if self.local_selected() && !self.server_owned_input() {
            self.put(Task::FocusOwned(true));
            Step::Continue
        } else {
            self.ask(Ask::HasForwarded, Task::FocusAsked)
        }
    }

    pub(crate) fn focus_releases(&mut self, forward: bool, count: usize)
        ensures
            final(self)@ == old(self)@.focus_releases(forward, count),
    {
        self.put(Task::FocusForward(forward));
        self.put(Task::ForwardReleases(count));
        self.observe_pointer(None);
    }

    pub(crate) fn focus_forward(&mut self, forward: bool) -> (step: Step)
        ensures
            (final(self)@, step) == old(self)@.focus_forward(forward),
    {
        if !forward {
            let delivered = self.delivered();
            self.focus_done(delivered);
            Step::Continue
        } else if self.running() {
            self.ask(Ask::ForwardFocusLost, Task::FocusSent)
        } else {
            self.focus_done(false);
            Step::Continue
        }
    }

    pub(crate) fn focus_done(&mut self, delivered: bool)
        ensures
            final(self)@ == old(self)@.focus_done(delivered),
    {
        self.set_focus_delivered(delivered);
        if !delivered {
            self.put(Task::BeginFallback);
        }
    }
}

} // verus!
