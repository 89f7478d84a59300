//! Every step of a turn keeps what waits.
use crate::renderer::kept::{self, lemma_fits, lemma_frame, lemma_top};
use crate::renderer::model::{self, LinkInputView, MessageView, RoutedEvent};
use crate::renderer::state::{RendererView, Task, TurnView};
use crate::renderer::waits::{self, Charge};
use vstd::prelude::*;

verus! {

/// The lists besides those of the turn are the same.
pub open spec fn same_other_lists(view: RendererView, next: RendererView) -> bool {
    &&& next.work == view.work
    &&& next.result == view.result
    &&& next.incoming == view.incoming
    &&& next.overflow == view.overflow
    &&& next.replay == view.replay
    &&& next.pending_link_request_id == view.pending_link_request_id
    &&& next.pending_link_input == view.pending_link_input
    &&& next.queued_link_inputs == view.queued_link_inputs
    &&& next.deferred_messages == view.deferred_messages
    &&& next.post_send_input == view.post_send_input
    &&& next.outbound_messages == view.outbound_messages
}

/// A step about one event of a turn that changes only the turn.
proof fn lemma_turned(view: RendererView, next: RendererView, event: RoutedEvent)
    requires
        waits::sound(view),
        view.tasks.len() > 0,
        waits::turn_task(view.tasks.last()),
        kept::builds_on(view, next),
        same_other_lists(view, next),
        next.local == view.local,
        waits::in_turn(view.turn, event) ==> waits::in_turn(next.turn, event),
        waits::carries(view.tasks.last(), event) ==> waits::in_tasks(
            kept::pushed(view, next),
            event,
        ) || waits::in_turn(next.turn, event),
    ensures
        kept::keeps(view, next, event),
{
    lemma_frame(view, next, event);
    lemma_top(view);
}

proof fn lemma_post_in_turn(view: RendererView, item: RoutedEvent, event: RoutedEvent)
    ensures
        waits::in_turn(view.turn, event) ==> waits::in_turn(view.post_in_turn(item).turn, event),
        item == event && event.sendable ==> waits::in_turn(view.post_in_turn(item).turn, event),
{
    waits::lemma_pushed_contains(view.turn.post_send, item, event);
}

proof fn lemma_batch_in_turn(view: RendererView, item: RoutedEvent, event: RoutedEvent)
    ensures
        waits::in_turn(view.turn, event) ==> waits::in_turn(view.batch_in_turn(item).turn, event),
        item == event && event.sendable ==> waits::in_turn(view.batch_in_turn(item).turn, event),
{
    waits::lemma_pushed_contains(view.turn.batch, item, event);
}

proof fn lemma_defer_in_turn(view: RendererView, item: RoutedEvent, event: RoutedEvent)
    ensures
        waits::in_turn(view.turn, event) ==> waits::in_turn(view.defer_in_turn(item).turn, event),
        item == event && event.sendable ==> waits::in_turn(view.defer_in_turn(item).turn, event),
{
    waits::lemma_pushed_contains(view.turn.deferred, item, event);
}

proof fn lemma_batch_closed(view: RendererView, event: RoutedEvent)
    ensures
        waits::in_turn(view.turn, event) ==> waits::in_turn(view.batch_closed().turn, event),
{
    waits::lemma_messages_push(
        view.turn.messages,
        MessageView::InputEvents { events: view.turn.batch },
        event,
    );
}

proof fn lemma_message_in_turn(view: RendererView, message: MessageView, event: RoutedEvent)
    ensures
        waits::in_turn(view.turn, event) ==> waits::in_turn(
            view.message_in_turn(message).turn,
            event,
        ),
        waits::message_holds(message, event) ==> waits::in_turn(
            view.message_in_turn(message).turn,
            event,
        ),
{
    waits::lemma_messages_push(view.turn.messages, message, event);
}

pub(crate) proof fn lemma_owns_answered(view: RendererView, item: RoutedEvent, event: RoutedEvent)
    requires
        waits::sound(view),
        waits::ordinary(event),
        view.tasks.len() > 0,
        view.tasks.last() == Task::OwnsAnswered(item),
    ensures
        kept::keeps(view, kept::popped(view).post_in_turn(item), event),
        kept::keeps(view, kept::popped(view).put(Task::Existing(item)), event),
{
    lemma_post_in_turn(kept::popped(view), item, event);
    lemma_turned(view, kept::popped(view).post_in_turn(item), event);
    lemma_turned(view, kept::popped(view).put(Task::Existing(item)), event);
}

pub(crate) proof fn lemma_existing(view: RendererView, item: RoutedEvent, event: RoutedEvent)
    requires
        waits::sound(view),
        waits::ordinary(event),
        view.tasks.len() > 0,
        view.tasks.last() == Task::Existing(item),
    ensures
        kept::keeps(view, kept::popped(view).existing(item).0, event),
{
    let here = kept::popped(view);
    let next = here.existing(item).0;
    let (seen, routed) = here.existing_server_route(item);
    if routed {
        lemma_batch_in_turn(seen, item, event);
        lemma_turned(view, next, event);
    } else {
        if item == event {
            assert(waits::carries(kept::pushed(view, next)[0], event));
        }
        lemma_turned(view, next, event);
    }
}

pub(crate) proof fn lemma_focus_released(
    view: RendererView,
    item: RoutedEvent,
    forward: bool,
    event: RoutedEvent,
)
    requires
        waits::sound(view),
        waits::ordinary(event),
        view.tasks.len() > 0,
        view.tasks.last() == (Task::FocusReleased { event: item, forward }),
    ensures
        kept::keeps(view, kept::popped(view).focus_released(item, forward), event),
{
    let here = kept::popped(view);
    let cleared = RendererView {
        server_forwarded_presses: Seq::empty(),
        server_forwarded_overflow: false,
        ..here
    };
    lemma_batch_in_turn(cleared, item, event);
    lemma_turned(view, here.focus_released(item, forward), event);
}

pub(crate) proof fn lemma_prefix_answered(
    view: RendererView,
    item: RoutedEvent,
    matching: bool,
    event: RoutedEvent,
)
    requires
        waits::sound(view),
        waits::ordinary(event),
        view.tasks.len() > 0,
        view.tasks.last() == Task::PrefixAnswered(item),
    ensures
        kept::keeps(view, kept::popped(view).prefix_answered(item, matching), event),
{
    let here = kept::popped(view);
    let next = here.prefix_answered(item, matching);
    if matching {
        let seen = here.observe_one(item);
        lemma_batch_closed(seen, event);
        let message = MessageView::InputEvents { events: seq![item] };
        lemma_message_in_turn(seen.batch_closed(), message, event);
        if item == event {
            assert(seq![item][0] == event);
            assert(waits::message_holds(message, event));
        }
        lemma_turned(view, next, event);
    } else {
        if item == event {
            assert(waits::carries(kept::pushed(view, next)[0], event));
        }
        lemma_turned(view, next, event);
    }
}

pub(crate) proof fn lemma_owned(view: RendererView, item: RoutedEvent, event: RoutedEvent)
    requires
        waits::sound(view),
        waits::ordinary(event),
        view.tasks.len() > 0,
        view.tasks.last() == Task::Owned(item),
    ensures
        kept::keeps(view, kept::popped(view).owned(item), event),
{
    let here = kept::popped(view);
    let next = here.owned(item);
    if !here.local_active() {
        lemma_batch_in_turn(here.observe_one(item), item, event);
        lemma_turned(view, next, event);
    } else {
        if item == event {
            assert(waits::carries(kept::pushed(view, next)[0], event));
        }
        lemma_turned(view, next, event);
    }
}

pub(crate) proof fn lemma_local_routed(view: RendererView, item: RoutedEvent, event: RoutedEvent)
    requires
        waits::sound(view),
        waits::ordinary(event),
        view.tasks.len() > 0,
        view.tasks.last() == Task::LocalRouted(item),
    ensures
        waits::sound(kept::popped(view).local_routed(item)),
        waits::waits(view, event) && !waits::arrived(view, event) ==> waits::waits(
            kept::popped(view).local_routed(item),
            event,
        ),
{
    let here = kept::popped(view);
    let next = here.local_routed(item);
    if !view.local.1 {
        if item == event {
            assert(waits::carries(kept::pushed(view, next)[0], event));
        }
        lemma_turned(view, next, event);
    } else {
        lemma_frame(view, next, event);
        lemma_top(view);
    }
}

pub(crate) proof fn lemma_defer_event(view: RendererView, item: RoutedEvent, event: RoutedEvent)
    requires
        waits::sound(view),
        waits::ordinary(event),
        view.tasks.len() > 0,
        view.tasks.last() == Task::DeferEvent(item),
    ensures
        kept::keeps(view, kept::popped(view).defer_in_turn(item), event),
{
    lemma_defer_in_turn(kept::popped(view), item, event);
    lemma_turned(view, kept::popped(view).defer_in_turn(item), event);
}

// ---- Links ------------------------------------------------------------------------------------
/// What input for a link does to a state: it is kept, or everything that waits for the link
/// overflows.
pub open spec fn linked(here: RendererView, next: RendererView, event: RoutedEvent) -> bool {
    &&& next.turn == here.turn
    &&& next.work == here.work
    &&& next.result == here.result
    &&& next.incoming == here.incoming
    &&& next.replay == here.replay
    &&& next.deferred_messages == here.deferred_messages
    &&& next.post_send_input == here.post_send_input
    &&& next.outbound_messages == here.outbound_messages
    &&& next.local == here.local
    &&& waits::mouse_only(next.pending_link_input)
    &&& waits::in_links(here.queued_link_inputs, event) ==> waits::in_links(
        next.queued_link_inputs,
        event,
    ) || waits::in_links(next.overflow, event)
    &&& if next.tasks.len() == here.tasks.len() {
        &&& next.tasks == here.tasks
        &&& next.overflow == here.overflow
        &&& next.pending_link_request_id == here.pending_link_request_id
        &&& next.pending_link_request_id is Some || next.queued_link_inputs
            == here.queued_link_inputs
    } else {
        &&& next.tasks == here.tasks.push(Task::DeferOverflow).push(Task::BeginFallback)
        &&& next.queued_link_inputs.len() == 0
    }
}

proof fn lemma_link_overflow(here: RendererView, input: LinkInputView, event: RoutedEvent)
    ensures
        linked(here, here.link_overflow(input), event),
        waits::link_holds(input, event) ==> waits::in_links(
            here.link_overflow(input).overflow,
            event,
        ),
{
    let pending = match here.pending_link_input {
        Some(pending) => seq![pending],
        None => Seq::empty(),
    };
    waits::lemma_links_add(pending, here.queued_link_inputs, event);
    waits::lemma_links_add(pending + here.queued_link_inputs, seq![input], event);
    if waits::link_holds(input, event) {
        assert(waits::link_holds(seq![input][0], event));
    }
}

pub(crate) proof fn lemma_queue_link(here: RendererView, input: LinkInputView, event: RoutedEvent)
    requires
        waits::mouse_only(here.pending_link_input),
        here.pending_link_request_id is Some,
    ensures
        linked(here, here.queue_link(input), event),
        waits::link_holds(input, event) ==> waits::in_links(
            here.queue_link(input).queued_link_inputs,
            event,
        ) || waits::in_links(here.queue_link(input).overflow, event),
{
    lemma_link_overflow(here, input, event);
    waits::lemma_links_push(here.queued_link_inputs, input, event);
}

proof fn lemma_append_link_event(here: RendererView, item: RoutedEvent, event: RoutedEvent)
    requires
        waits::mouse_only(here.pending_link_input),
        item.mouse(),
    ensures
        linked(here, here.append_link_event(item), event),
{
    if let Some(LinkInputView::Events { events, generation }) = here.pending_link_input {
        lemma_link_overflow(here, LinkInputView::Events { events: seq![item], generation }, event);
        let longer = events.push(item);
        assert forall|i: int| 0 <= i < longer.len() implies (#[trigger] longer[i]).mouse() by {
            if i < events.len() {
                assert(events[i].mouse());
            }
        }
    }
}

pub(crate) proof fn lemma_append_link_pixel(
    here: RendererView,
    pixel: model::PixelEvent,
    event: RoutedEvent,
)
    requires
        waits::mouse_only(here.pending_link_input),
    ensures
        linked(here, here.append_link_pixel(pixel), event),
{
    if let Some(LinkInputView::Pixels { inputs, generation }) = here.pending_link_input {
        lemma_link_overflow(here, LinkInputView::Pixels { inputs: seq![pixel], generation }, event);
    }
}

/// The rest of a click belongs to its link.
proof fn lemma_click_goes_on(
    view: RendererView,
    here: RendererView,
    item: RoutedEvent,
    event: RoutedEvent,
)
    requires
        waits::sound(view),
        waits::ordinary(event),
        view.tasks.len() > 0,
        view.tasks.last() == Task::Clicked(item),
        item.mouse(),
        here.tasks == kept::base(view),
        kept::same_lists(view, here),
        here.local == view.local,
    ensures
        kept::keeps(view, here.append_link_event(item), event),
{
    let next = here.append_link_event(item);
    lemma_append_link_event(here, item, event);
    lemma_frame(view, next, event);
    lemma_top(view);
    if next.tasks.len() != here.tasks.len() {
        assert(waits::in_charge(next.tasks[kept::base(view).len() as int], Charge::Overflow));
    }
}

/// All but what is kept of a click is the same.
pub open spec fn unclicked(view: RendererView, here: RendererView) -> bool {
    &&& here.tasks == kept::base(view)
    &&& here.turn == view.turn
    &&& here.local == view.local
    &&& waits::mouse_only(here.pending_link_input)
    &&& same_other_lists(
        RendererView { pending_link_input: here.pending_link_input, ..view },
        here,
    )
}

/// An event that no link is waiting for.
proof fn lemma_placed(
    view: RendererView,
    here: RendererView,
    item: RoutedEvent,
    event: RoutedEvent,
)
    requires
        waits::sound(view),
        waits::ordinary(event),
        view.tasks.len() > 0,
        view.tasks.last() == Task::Clicked(item),
        unclicked(view, here),
    ensures
        kept::keeps(view, here.placed(item).0, event),
{
    let next = here.placed(item).0;
    let before = RendererView { pending_link_input: here.pending_link_input, ..view };
    assert(kept::base(before) == kept::base(view));
    lemma_defer_in_turn(here, item, event);
    if item == event && !here.awaiting() {
        assert(waits::carries(kept::pushed(before, next)[0], event));
    }
    lemma_turned(before, next, event);
}

/// Nothing waits for a link that nobody asked for.
pub(crate) proof fn lemma_no_link(view: RendererView)
    requires
        waits::sound(view),
        view.tasks.len() > 0,
        !waits::quiet_task(view.tasks.last()),
        !(view.tasks.last() is DrainQueued),
        view.pending_link_request_id is None,
    ensures
        view.queued_link_inputs == Seq::<LinkInputView>::empty(),
{
    lemma_top(view);
    assert(view.queued_link_inputs =~= Seq::empty());
}

/// Before a click begins, nothing is kept of another.
proof fn lemma_click_begins(view: RendererView)
    requires
        waits::sound(view),
        view.tasks.len() > 0,
        view.tasks.last() is Clicked,
        view.pending_link_request_id is None,
    ensures
        unclicked(view, kept::popped(view).clear_click()),
{
    lemma_no_link(view);
}

pub(crate) proof fn lemma_clicked(view: RendererView, item: RoutedEvent, event: RoutedEvent)
    requires
        waits::sound(view),
        waits::ordinary(event),
        view.tasks.len() > 0,
        view.tasks.last() == Task::Clicked(item),
    ensures
        kept::keeps(view, kept::popped(view).clicked(item).0, event),
{
    let here = kept::popped(view);
    let next = here.clicked(item).0;
    if item.left_drag() && here.pending_link_click {
        let after = here.append_link_event(item);
        assert(kept::keeps(view, after, event)) by {
            lemma_click_goes_on(view, here, item, event);
        }
        assert(next == after);
    } else if item.left_up() && here.pending_link_click {
        let seen = RendererView { pending_link_click: false, ..here };
        let after = seen.append_link_event(item);
        assert(kept::keeps(view, after, event)) by {
            lemma_click_goes_on(view, seen, item, event);
        }
        assert(next == after);
    } else if item.left_down() {
        if here.pending_link_request_id is None {
            let after = here.clear_click().placed(item).0;
            assert(kept::keeps(view, after, event)) by {
                lemma_click_begins(view);
                lemma_placed(view, here.clear_click(), item, event);
            }
            assert(next == after);
        } else {
            let seen = RendererView { pending_link_click: false, ..here };
            let after = seen.placed(item).0;
            assert(kept::keeps(view, after, event)) by {
                lemma_placed(view, seen, item, event);
            }
            assert(next == after);
        }
    } else {
        let after = here.placed(item).0;
        assert(kept::keeps(view, after, event)) by {
            lemma_placed(view, here, item, event);
        }
        assert(next == after);
    }
}

pub(crate) proof fn lemma_link_answered(
    view: RendererView,
    item: RoutedEvent,
    request_id: u64,
    link: Option<model::LinkView>,
    event: RoutedEvent,
)
    requires
        waits::sound(view),
        waits::ordinary(event),
        view.tasks.len() > 0,
        view.tasks.last() == (Task::LinkAnswered { event: item, request_id }),
    ensures
        kept::keeps(view, kept::popped(view).link_answered(item, request_id, link), event),
{
    let here = kept::popped(view);
    let next = here.link_answered(item, request_id, link);
    lemma_fits(view);
    if let (Some(link), Some(target)) = (here.usable(link), here.target) {
        let message = MessageView::ActivateOmpLink {
            launch_id: target.launch_id,
            request_id,
            url: link.url,
        };
        lemma_batch_closed(here, event);
        lemma_message_in_turn(here.batch_closed(), message, event);
        lemma_frame(view, next, event);
        lemma_top(view);
    } else {
        lemma_turned(view, next, event);
    }
}

// ---- The events of a turn ---------------------------------------------------------------------
proof fn lemma_turn_finished(view: RendererView, event: RoutedEvent)
    requires
        waits::sound(view),
        waits::ordinary(event),
        view.tasks.len() > 0,
        view.tasks.last() is NextEvent,
        view.turn.events.len() == 0,
    ensures
        kept::keeps(view, kept::popped(view).turn_finished(), event),
{
    let here = kept::popped(view);
    let closed = here.batch_closed();
    let next = here.turn_finished();
    lemma_batch_closed(here, event);
    waits::lemma_deferred_push(
        closed.deferred_messages,
        model::DeferredView::InputEvents {
            events: closed.turn.deferred,
            generation: closed.turn.generation,
        },
        event,
    );
    waits::lemma_deferred_push(
        closed.post_send_input,
        model::DeferredView::InputEvents {
            events: closed.turn.post_send,
            generation: closed.turn.generation,
        },
        event,
    );
    lemma_frame(view, next, event);
    lemma_top(view);
}

proof fn lemma_link_waits(view: RendererView, event: RoutedEvent)
    requires
        waits::sound(view),
        waits::ordinary(event),
        view.tasks.len() > 0,
        view.tasks.last() is NextEvent,
        view.turn.events.len() > 0,
        view.pending_link_request_id is Some,
    ensures
        kept::keeps(view, taken(view).link_waits(view.turn.events[0]), event),
{
    let item = view.turn.events[0];
    let here = taken(view);
    let next = here.link_waits(item);
    let seen = RendererView { pending_link_click: false, ..here };
    let input = LinkInputView::Events { events: seq![item], generation: here.turn.generation };
    if item.left_drag() && here.pending_link_click {
        lemma_append_link_event(here, item, event);
        lemma_link_kept(view, here, next, event);
    } else if item.left_up() && here.pending_link_click {
        lemma_append_link_event(seen, item, event);
        lemma_link_kept(view, seen, next, event);
    } else {
        let at = if item.left_down() {
            seen
        } else {
            here
        };
        assert(seq![item][0] == item);
        lemma_queue_link(at, input, event);
        lemma_link_kept(view, at, next, event);
    }
}

/// The first event of a turn was kept for its link.
proof fn lemma_link_kept(
    view: RendererView,
    here: RendererView,
    next: RendererView,
    event: RoutedEvent,
)
    requires
        waits::sound(view),
        waits::ordinary(event),
        view.tasks.len() > 0,
        view.tasks.last() is NextEvent,
        view.turn.events.len() > 0,
        view.pending_link_request_id is Some,
        here.tasks == taken(view).tasks,
        here.turn == taken(view).turn,
        here.local == view.local,
        same_other_lists(view, here),
        linked(here, next, event),
        view.turn.events[0] == event ==> waits::in_links(next.queued_link_inputs, event)
            || waits::in_links(next.overflow, event),
    ensures
        kept::keeps(view, next, event),
{
    waits::lemma_first_contains(view.turn.events, event);
    lemma_frame(view, next, event);
    lemma_top(view);
    let first = kept::base(view).len() as int;
    assert(waits::in_charge(next.tasks[first], Charge::Turn));
    if next.tasks.len() != here.tasks.len() {
        assert(waits::in_charge(next.tasks[first + 1], Charge::Overflow));
    }
}

/// The turn without its first event, which is taken up.
pub open spec fn taken(view: RendererView) -> RendererView {
    RendererView {
        turn: TurnView { events: view.turn.events.drop_first(), ..view.turn },
        ..kept::popped(view)
    }.put(Task::NextEvent)
}

pub(crate) proof fn lemma_next_event(view: RendererView, event: RoutedEvent)
    requires
        waits::sound(view),
        waits::ordinary(event),
        view.tasks.len() > 0,
        view.tasks.last() is NextEvent,
    ensures
        kept::keeps(view, kept::popped(view).next_event().0, event),
{
    if view.turn.events.len() == 0 {
        lemma_turn_finished(view, event);
    } else if view.pending_link_request_id is Some {
        lemma_link_waits(view, event);
    } else {
        let item = view.turn.events[0];
        let here = taken(view);
        let next = kept::popped(view).next_event().0;
        waits::lemma_first_contains(view.turn.events, event);
        lemma_defer_in_turn(here, item, event);
        lemma_post_in_turn(here, item, event);
        lemma_frame(view, next, event);
        lemma_top(view);
        let first = kept::base(view).len() as int;
        assert(waits::in_charge(next.tasks[first], Charge::Turn));
        if next.tasks.len() > first + 1 && item == event {
            assert(waits::carries(next.tasks[first + 1], event));
        }
    }
}

} // verus!
