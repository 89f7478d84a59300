//! Without a renderer, input reaches the server whole and in order: what is held back behind
//! a message comes out by later calls, each event once.
use crate::renderer::kept::popped;
use crate::renderer::laws;
use crate::renderer::model::{self, AnswerView, DeferredView, RoutedEvent};
use crate::renderer::state::{RendererView, Task, TurnView};
use vstd::prelude::*;

verus! {

// ---- Events, in order -------------------------------------------------------------------------
/// What the server gets of an event.
pub open spec fn one(event: RoutedEvent) -> Seq<RoutedEvent> {
    if event.sendable {
        seq![event]
    } else {
        Seq::empty()
    }
}

/// What the server gets of waiting messages.
pub open spec fn waiting(items: Seq<DeferredView>) -> Seq<RoutedEvent> {
    model::sendable(model::deferred_events(items))
}

pub open spec fn events_only(items: Seq<DeferredView>) -> bool {
    forall|i: int| 0 <= i < items.len() ==> (#[trigger] items[i]) is InputEvents
}

proof fn lemma_sendable_add(left: Seq<RoutedEvent>, right: Seq<RoutedEvent>)
    ensures
        model::sendable(left + right) == model::sendable(left) + model::sendable(right),
{
    Seq::filter_distributes_over_add(left, right, |event: RoutedEvent| event.sendable);
}

proof fn lemma_sendable_none(events: Seq<RoutedEvent>)
    requires
        events.len() == 0,
    ensures
        model::sendable(events) == Seq::<RoutedEvent>::empty(),
        model::without_mouse(events) == Seq::<RoutedEvent>::empty(),
{
    reveal(Seq::filter);
}

proof fn lemma_sendable_one(event: RoutedEvent)
    ensures
        model::sendable(seq![event]) == one(event),
{
    reveal(Seq::filter);
    let alone = seq![event];
    assert(alone.drop_last() =~= Seq::empty());
    lemma_sendable_none(alone.drop_last());
    assert(model::sendable(alone) =~= one(event));
}

proof fn lemma_sendable_push(events: Seq<RoutedEvent>, event: RoutedEvent)
    ensures
        model::sendable(events.push(event)) == model::sendable(events) + one(event),
{
    assert(events.push(event) =~= events + seq![event]);
    lemma_sendable_add(events, seq![event]);
    lemma_sendable_one(event);
}

proof fn lemma_sendable_first(events: Seq<RoutedEvent>)
    requires
        events.len() > 0,
    ensures
        model::sendable(events) == one(events[0]) + model::sendable(events.drop_first()),
{
    assert(events =~= seq![events[0]] + events.drop_first());
    lemma_sendable_add(seq![events[0]], events.drop_first());
    lemma_sendable_one(events[0]);
}

proof fn lemma_waiting_none(items: Seq<DeferredView>)
    requires
        items.len() == 0,
    ensures
        waiting(items) == Seq::<RoutedEvent>::empty(),
{
    lemma_sendable_none(model::deferred_events(items));
}

proof fn lemma_waiting_add(left: Seq<DeferredView>, right: Seq<DeferredView>)
    ensures
        waiting(left + right) == waiting(left) + waiting(right),
{
    laws::lemma_deferred_events_add(left, right);
    lemma_sendable_add(model::deferred_events(left), model::deferred_events(right));
}

proof fn lemma_waiting_first(items: Seq<DeferredView>, events: Seq<RoutedEvent>, generation: u64)
    requires
        items.len() > 0,
        items[0] == (DeferredView::InputEvents { events, generation }),
    ensures
        waiting(items) == model::sendable(events) + waiting(items.drop_first()),
{
    let first = seq![items[0]];
    assert(items =~= first + items.drop_first());
    lemma_waiting_add(first, items.drop_first());
    assert(first.drop_last() =~= Seq::empty());
    assert(model::deferred_events(first.drop_last()) =~= Seq::empty());
    assert(model::deferred_events(first) =~= events);
}

// ---- A turn -----------------------------------------------------------------------------------
/// Nothing is asked of a renderer, and nothing waits for one.
pub open spec fn quiet(view: RendererView) -> bool {
    &&& view.target is None
    &&& !view.local_selected
    &&& !view.pending_link_click
    &&& view.pending_link_request_id is None
    &&& view.pending_link_input is None
    &&& view.queued_link_inputs.len() == 0
    &&& view.deferred_messages.len() == 0
    &&& view.turn.deferred.len() == 0
    &&& view.outbound_messages.len() == 0
}

/// The event that a step of a turn is about.
pub open spec fn subject(task: Task) -> Option<RoutedEvent> {
    match task {
        Task::OwnsAnswered(event) => Some(event),
        Task::Existing(event) => Some(event),
        Task::PhysicalAnswered(event) => Some(event),
        Task::SemanticAnswered(event) => Some(event),
        Task::Observe(event) => Some(event),
        Task::Clicked(event) => Some(event),
        Task::Keyed(event) => Some(event),
        Task::Owned(event) => Some(event),
        Task::FocusReleased { event, .. } => Some(event),
        _ => None,
    }
}

/// What stands above the loss of the focus while it is dealt with.
pub open spec fn losing_focus(above: Seq<Task>, delivered: bool) -> bool {
    ||| above.len() == 0
    ||| above.len() == 1 && (above[0] is FocusLoss || above[0] is FocusAsked || above[0]
        == Task::FocusOwned(false) || above[0] == Task::FocusReleases(false) || (above[0]
        == Task::FocusForward(false) && delivered))
    ||| above.len() == 2 && above[0] == Task::FocusForward(false) && above[1]
        == Task::ForwardReleases(0)
    ||| above.len() == 3 && above[0] == Task::FocusForward(false) && above[1]
        == Task::ForwardReleases(0) && above[2] is Refresh
}

/// The work of a turn, above `base` other tasks.
pub open spec fn turning(view: RendererView, base: int) -> bool {
    let above = view.tasks.skip(base + 1);
    &&& 0 <= base < view.tasks.len()
    &&& view.tasks[base] is NextEvent
    &&& !view.awaiting()
    &&& view.turn.post_send.len() > 0 ==> view.turn.tail
    &&& above.len() > 0 ==> {
        &&& view.turn.post_send.len() == 0
        &&& subject(above[0]) is Some
        &&& above[0] is OwnsAnswered ==> view.turn.tail
        &&& match above[0] {
            Task::FocusReleased { forward, .. } => forward && losing_focus(
                above.drop_first(),
                view.delivered,
            ),
            Task::Clicked(_) => above.len() == 1 || (above.len() == 2 && above[1] is Refresh),
            _ => above.len() == 1,
        }
    }
}

/// The event that the turn is about.
pub open spec fn flying(view: RendererView, base: int) -> Seq<RoutedEvent> {
    if view.tasks.len() > base + 1 {
        match subject(view.tasks[base + 1]) {
            Some(event) => one(event),
            None => Seq::empty(),
        }
    } else {
        Seq::empty()
    }
}

/// What the server gets of a turn, in order.
pub open spec fn turned(view: RendererView, base: int) -> Seq<RoutedEvent> {
    model::message_events(view.turn.messages) + view.turn.batch + model::sendable(
        view.turn.post_send,
    ) + flying(view, base) + model::sendable(view.turn.events)
}

/// The answers of a client that holds no key for a renderer.
pub open spec fn nothing_held(view: RendererView, answer: AnswerView) -> bool {
    view.tasks.len() > 0 ==> match view.tasks.last() {
        Task::PhysicalAnswered(_) => answer.physical() is None,
        Task::SemanticAnswered(_) => answer.semantic() is None,
        Task::FocusAsked => !answer.yes(),
        Task::FocusReleases(_) => answer.releases() == 0,
        _ => true,
    }
}

/// A step leaves everything but the turn as it was.
pub open spec fn only_turned(view: RendererView, next: RendererView, base: int) -> bool {
    &&& quiet(next)
    &&& next.post_send_input == view.post_send_input
    &&& next.work == view.work
    &&& next.tasks.take(base) == view.tasks.take(base)
}

/// A step of a turn keeps its events and their order.
pub open spec fn turn_kept(view: RendererView, next: RendererView, base: int) -> bool {
    &&& turning(next, base)
    &&& turned(next, base) == turned(view, base)
    &&& only_turned(view, next, base)
}

/// The next event of a turn is taken up.
proof fn lemma_next(view: RendererView, answer: AnswerView, base: int)
    requires
        quiet(view),
        turning(view, base),
        view.tasks.len() == base + 1,
        view.turn.events.len() > 0,
    ensures
        turn_kept(view, view.advanced(answer).0, base),
{
    let next = view.advanced(answer).0;
    let event = view.turn.events[0];
    assert(popped(view).next_event().0 == next);
    lemma_sendable_first(view.turn.events);
    lemma_sendable_push(view.turn.post_send, event);
    assert(next.turn.events == view.turn.events.drop_first());
    assert(next.tasks.take(base) =~= view.tasks.take(base));
    assert(next.tasks[base] is NextEvent);
    if next.tasks.len() == base + 1 {
        assert(next.turn.post_send == (if event.sendable {
            view.turn.post_send.push(event)
        } else {
            view.turn.post_send
        }));
        assert(model::sendable(next.turn.post_send) =~= model::sendable(view.turn.post_send) + one(
            event,
        ));
    } else {
        assert(next.tasks.skip(base + 1).len() == 1);
        assert(next.tasks.skip(base + 1)[0] == next.tasks[base + 1]);
        assert(subject(next.tasks[base + 1]) == Some(event));
    }
    assert(turned(next, base) =~= turned(view, base));
}

/// A turn with no event left ends.
proof fn lemma_finished(view: RendererView, answer: AnswerView, base: int)
    requires
        quiet(view),
        turning(view, base),
        view.tasks.len() == base + 1,
        view.turn.events.len() == 0,
        view.post_send_input.len() == 0,
    ensures
        ({
            let next = view.advanced(answer).0;
            &&& quiet(next)
            &&& !next.awaiting()
            &&& next.tasks == view.tasks.take(base)
            &&& next.work == view.work
            &&& events_only(next.post_send_input)
            &&& model::message_events(next.result) + waiting(next.post_send_input) == turned(
                view,
                base,
            )
        }),
{
    let next = view.advanced(answer).0;
    assert(next == popped(view).turn_finished());
    assert(next.tasks =~= view.tasks.take(base));
    laws::law_turn_keeps_its_events(popped(view));
    lemma_sendable_none(view.turn.events);
    assert(model::deferred_events(view.post_send_input) =~= Seq::empty());
    assert(model::deferred_events(next.post_send_input) =~= view.turn.post_send);
    assert(model::message_events(next.result) + waiting(next.post_send_input) =~= turned(
        view,
        base,
    ));
}

/// One event goes into the batch.
proof fn lemma_batched(view: RendererView, next: RendererView, base: int)
    requires
        quiet(view),
        turning(view, base),
        view.tasks.len() == base + 2,
        only_turned(view, next, base),
        !next.awaiting(),
        next.tasks == view.tasks.drop_last(),
        next.turn.messages == view.turn.messages,
        next.turn.post_send == view.turn.post_send,
        next.turn.events == view.turn.events,
        subject(view.tasks[base + 1]) matches Some(event) && next.turn.batch == view.turn.batch
            + one(event),
    ensures
        turn_kept(view, next, base),
{
    assert(view.tasks.skip(base + 1)[0] == view.tasks[base + 1]);
    lemma_sendable_none(view.turn.post_send);
    assert(turned(next, base) =~= turned(view, base));
}

/// A step goes on with its event.
proof fn lemma_goes_on(view: RendererView, next: RendererView, base: int)
    requires
        quiet(view),
        turning(view, base),
        view.tasks.len() > base + 1,
        only_turned(view, next, base),
        turning(next, base),
        next.tasks.len() > base + 1,
        subject(next.tasks[base + 1]) == subject(view.tasks[base + 1]),
        next.turn.messages == view.turn.messages,
        next.turn.batch == view.turn.batch,
        next.turn.post_send == view.turn.post_send,
        next.turn.events == view.turn.events,
    ensures
        turn_kept(view, next, base),
{
}

/// A step about an event, but for the loss of the focus.
proof fn lemma_event_step(view: RendererView, answer: AnswerView, base: int)
    requires
        quiet(view),
        turning(view, base),
        view.tasks.len() == base + 2,
        !(view.tasks.last() is FocusReleased),
        nothing_held(view, answer),
    ensures
        turn_kept(view, view.advanced(answer).0, base),
{
    let next = view.advanced(answer).0;
    let task = view.tasks.last();
    let above = view.tasks.skip(base + 1);
    let down = popped(view);
    assert(above[0] == task && task == view.tasks[base + 1]);
    let event = subject(task)->0;
    assert(next == down.performed(task, answer).0);
    assert(down.tasks.len() == base + 1);
    assert(next.tasks.take(base) =~= view.tasks.take(base));
    assert(next.tasks[base] is NextEvent);
    if next.tasks.len() > base + 1 {
        let after = next.tasks.skip(base + 1);
        assert(after[0] == next.tasks[base + 1]);
        assert(after.len() == next.tasks.len() - base - 1);
        if after.len() == 2 {
            assert(after[1] == next.tasks[base + 2]);
            assert(after.drop_first()[0] == after[1]);
        }
        lemma_goes_on(view, next, base);
    } else if task is OwnsAnswered {
        lemma_sendable_none(view.turn.post_send);
        lemma_sendable_push(view.turn.post_send, event);
        assert(turned(next, base) =~= turned(view, base));
    } else {
        assert(next.tasks =~= view.tasks.drop_last());
        assert(next.turn.batch =~= view.turn.batch + one(event));
        lemma_batched(view, next, base);
    }
}

/// The pointer is looked at before a click.
proof fn lemma_refresh_step(view: RendererView, answer: AnswerView, base: int)
    requires
        quiet(view),
        turning(view, base),
        view.tasks.len() > base + 2,
        view.tasks.last() is Refresh,
    ensures
        turn_kept(view, view.advanced(answer).0, base),
{
    let next = view.advanced(answer).0;
    let above = view.tasks.skip(base + 1);
    let after = next.tasks.skip(base + 1);
    assert(next == popped(view).refresh().0);
    assert(next.tasks =~= view.tasks.drop_last());
    assert(next.tasks.take(base) =~= view.tasks.take(base));
    assert(after =~= above.drop_last());
    assert(above[0] == view.tasks[base + 1]);
    assert(after.drop_first() =~= above.drop_first().drop_last());
    lemma_goes_on(view, next, base);
}

/// A step beside the turn.
pub open spec fn unturned(view: RendererView, next: RendererView) -> bool {
    &&& quiet(next)
    &&& !next.awaiting()
    &&& next.turn == view.turn
    &&& next.post_send_input == view.post_send_input
    &&& next.work == view.work
}

/// The keys that a renderer would hold are asked for: there are none.
proof fn lemma_focus_asks(view: RendererView, answer: AnswerView)
    requires
        quiet(view),
        !view.awaiting(),
        view.tasks.len() > 0,
        view.tasks.last() is FocusLoss || view.tasks.last() is FocusAsked || view.tasks.last()
            == Task::FocusOwned(false),
        nothing_held(view, answer),
    ensures
        unturned(view, view.advanced(answer).0),
        view.advanced(answer).0.tasks == view.tasks.drop_last().push(
            match view.tasks.last() {
                Task::FocusLoss => Task::FocusAsked,
                Task::FocusAsked => Task::FocusOwned(false),
                _ => Task::FocusReleases(false),
            },
        ),
{
}

/// No key is released, and the pointer is gone.
proof fn lemma_focus_releases(view: RendererView, answer: AnswerView)
    requires
        quiet(view),
        !view.awaiting(),
        view.tasks.len() > 0,
        view.tasks.last() == Task::FocusReleases(false),
        nothing_held(view, answer),
    ensures
        unturned(view, view.advanced(answer).0),
        ({
            let after = view.tasks.drop_last().push(Task::FocusForward(false)).push(
                Task::ForwardReleases(0),
            );
            let next = view.advanced(answer).0;
            next.tasks == after || next.tasks == after.push(Task::Refresh)
        }),
{
}

/// There is no renderer to tell.
proof fn lemma_focus_forwards(view: RendererView, answer: AnswerView)
    requires
        quiet(view),
        !view.awaiting(),
        view.tasks.len() > 0,
        view.tasks.last() == Task::ForwardReleases(0) || (view.tasks.last() == Task::FocusForward(
            false,
        ) && view.delivered),
    ensures
        unturned(view, view.advanced(answer).0),
        view.advanced(answer).0.tasks == view.tasks.drop_last(),
        view.advanced(answer).0.delivered,
{
}

/// A step beside the turn leaves a fitting rest of the loss of the focus.
proof fn lemma_losing_focus(view: RendererView, next: RendererView, base: int)
    requires
        quiet(view),
        turning(view, base),
        view.tasks.len() > base + 1,
        view.tasks[base + 1] is FocusReleased,
        unturned(view, next),
        next.tasks.len() > base + 1,
        next.tasks.take(base + 2) == view.tasks.take(base + 2),
        losing_focus(next.tasks.skip(base + 2), next.delivered),
    ensures
        turn_kept(view, next, base),
{
    let above = next.tasks.skip(base + 1);
    assert(above.drop_first() =~= next.tasks.skip(base + 2));
    assert(next.tasks.take(base + 2)[base] == next.tasks[base]);
    assert(next.tasks.take(base + 2)[base + 1] == next.tasks[base + 1]);
    assert(view.tasks.take(base + 2)[base] == view.tasks[base]);
    assert(view.tasks.take(base + 2)[base + 1] == view.tasks[base + 1]);
    assert(view.tasks.skip(base + 1)[0] == view.tasks[base + 1]);
    assert(above[0] == next.tasks[base + 1]);
    assert(next.tasks.take(base) =~= next.tasks.take(base + 2).take(base));
    assert(view.tasks.take(base) =~= view.tasks.take(base + 2).take(base));
    lemma_goes_on(view, next, base);
}

/// A step of the loss of the focus.
proof fn lemma_focus_step(view: RendererView, answer: AnswerView, base: int)
    requires
        quiet(view),
        turning(view, base),
        view.tasks.len() > base + 1,
        view.tasks[base + 1] is FocusReleased,
        !(view.tasks.last() is Refresh),
        nothing_held(view, answer),
    ensures
        turn_kept(view, view.advanced(answer).0, base),
{
    let next = view.advanced(answer).0;
    let task = view.tasks.last();
    let above = view.tasks.skip(base + 1);
    let over = above.drop_first();
    assert(above[0] == view.tasks[base + 1]);
    if over.len() == 0 {
        assert(task is FocusReleased);
        assert(next == popped(view).performed(task, answer).0);
        assert(next.tasks =~= view.tasks.drop_last());
        assert(next.tasks.take(base) =~= view.tasks.take(base));
        assert(next.turn.batch =~= view.turn.batch + one(subject(task)->0));
        lemma_batched(view, next, base);
    } else {
        assert(over.last() == task);
        if task is FocusLoss || task is FocusAsked || task == Task::FocusOwned(false) {
            lemma_focus_asks(view, answer);
        } else if task == Task::FocusReleases(false) {
            lemma_focus_releases(view, answer);
        } else {
            lemma_focus_forwards(view, answer);
        }
        assert(next.tasks.take(base + 2) =~= view.tasks.take(base + 2));
        let left = next.tasks.skip(base + 2);
        assert(left.len() == next.tasks.len() - base - 2);
        lemma_losing_focus(view, next, base);
    }
}

/// Any step of a turn, but for its end.
proof fn lemma_turn_step(view: RendererView, answer: AnswerView, base: int)
    requires
        quiet(view),
        turning(view, base),
        view.tasks.len() > base + 1 || view.turn.events.len() > 0,
        nothing_held(view, answer),
    ensures
        turn_kept(view, view.advanced(answer).0, base),
{
    let above = view.tasks.skip(base + 1);
    if view.tasks.len() == base + 1 {
        lemma_next(view, answer, base);
    } else {
        assert(above[0] == view.tasks[base + 1]);
        if view.tasks.len() > base + 2 && view.tasks.last() is Refresh {
            lemma_refresh_step(view, answer, base);
        } else if view.tasks[base + 1] is FocusReleased {
            lemma_focus_step(view, answer, base);
        } else {
            if view.tasks.len() > base + 2 {
                assert(above[1] == view.tasks.last());
            }
            lemma_event_step(view, answer, base);
        }
    }
}

// ---- A call -----------------------------------------------------------------------------------
/// What the server gets of events that are taken up: all that it knows, or, where they are too
/// many at once, all but the mouse.
pub open spec fn admitted(view: RendererView, events: Seq<RoutedEvent>) -> Seq<RoutedEvent> {
    let known = model::sendable(events);
    if view.would_overflow(model::events_usage(known)) {
        model::without_mouse(known)
    } else {
        known
    }
}

/// Too many events at once are handed over: what is left to do for that.
pub open spec fn handing_over(view: RendererView) -> bool {
    let tasks = view.tasks;
    &&& tasks.len() > 0
    &&& tasks[0] is AdmissionTail
    &&& if tasks.len() == 1 {
        !view.awaiting()
    } else if tasks[1] is ReleasedPending {
        &&& !view.awaiting()
        &&& if tasks.len() == 2 {
            view.result.len() == 0
        } else {
            &&& tasks.len() == 3
            &&& tasks[2] is NextEvent
            &&& view.turn == TurnView::begin(view.turn.events, 0, false)
            &&& view.turn.events.len() == 0
        }
    } else {
        &&& tasks[1] is ReleasePending
        &&& tasks.len() == 3 ==> tasks[2] is BeginFallback || tasks[2] is Fallen
        &&& tasks.len() > 3 ==> tasks[2] is Fallen && tasks[3] is FailTarget
        &&& tasks.len() == 5 ==> tasks[4] is Retire || tasks[4] is Retired
            || tasks[4] is ForwardReleases
        &&& tasks.len() == 6 ==> tasks[4] is Retire && tasks[5] is Handoff
        &&& tasks.len() <= 6
    }
}

/// What the server gets of a call and of the later calls that hand out what waits, in order.
/// `flushed` tells whether the call is one of the latter.
pub open spec fn handed_out(
    view: RendererView,
    flushed: bool,
    total: Seq<RoutedEvent>,
) -> bool {
    let tasks = view.tasks;
    &&& quiet(view)
    &&& events_only(view.post_send_input)
    &&& events_only(view.work)
    &&& if tasks.len() == 0 {
        &&& !view.awaiting()
        &&& view.work.len() == 0
        &&& flushed && view.result.len() == 0 ==> view.post_send_input.len() == 0
        &&& model::message_events(view.result) + waiting(view.post_send_input) == total
    } else if tasks[0] is FlushPost {
        &&& tasks.len() == 1
        &&& flushed
        &&& !view.awaiting()
        &&& view.work.len() == 0
        &&& waiting(view.post_send_input) == total
    } else if tasks[0] is FlushPosted {
        &&& flushed
        &&& if tasks.len() == 1 {
            &&& !view.awaiting()
            &&& model::message_events(view.result) + waiting(view.post_send_input) + waiting(
                view.work,
            ) == total
        } else {
            &&& turning(view, 1)
            &&& view.post_send_input.len() == 0
            &&& turned(view, 1) + waiting(view.work) == total
        }
    } else {
        &&& !flushed
        &&& view.work.len() == 0
        &&& view.post_send_input.len() == 0
        &&& if tasks[0] is Admit {
            &&& !view.awaiting()
            &&& tasks.len() == 1 || (tasks.len() == 2 && tasks[1] is CancelStale)
            &&& admitted(view, view.incoming) == total
        } else if tasks[0] is AdmissionTail {
            &&& handing_over(view)
            &&& model::without_mouse(model::sendable(view.incoming)) == total
        } else {
            &&& turning(view, 0)
            &&& turned(view, 0) == total
        }
    }
}

/// Waiting input is taken up.
proof fn lemma_flush_step(
    view: RendererView,
    answer: AnswerView,
    total: Seq<RoutedEvent>,
)
    requires
        handed_out(view, true, total),
        view.tasks.len() > 0,
        nothing_held(view, answer),
    ensures
        handed_out(view.advanced(answer).0, true, total),
{
    let next = view.advanced(answer).0;
    lemma_waiting_none(Seq::<DeferredView>::empty());
    if view.tasks[0] is FlushPost {
        assert(next == popped(view).flush_post());
        assert(popped(view).tasks =~= Seq::empty());
        if view.post_send_input.len() == 0 {
            lemma_waiting_none(view.post_send_input);
            assert(next.result.len() == 0);
            assert(model::message_events(next.result) + waiting(next.post_send_input) =~= total);
        } else {
            match view.post_send_input[0] {
                DeferredView::InputEvents { events, generation } => {
                    lemma_waiting_first(view.post_send_input, events, generation);
                    assert(next.tasks =~= seq![Task::FlushPosted, Task::NextEvent]);
                    assert(next.turn == TurnView::begin(events, generation, false));
                    assert(next.tasks.skip(2).len() == 0);
                    lemma_sendable_none(next.turn.post_send);
                    assert(turned(next, 1) =~= model::sendable(events));
                    assert forall|i: int| 0 <= i < next.work.len() implies (
                    #[trigger] next.work[i]) is InputEvents by {
                        assert(next.work[i] == view.post_send_input[i + 1]);
                    }
                },
                DeferredView::InputPixels { .. } => {},
            }
        }
    } else if view.tasks.len() == 1 {
        assert(next == popped(view).flush_posted());
        assert(popped(view).tasks =~= Seq::empty());
        lemma_waiting_add(view.post_send_input, view.work);
        let joined = view.post_send_input + view.work;
        assert(next.post_send_input == joined);
        assert forall|i: int| 0 <= i < joined.len() implies (#[trigger] joined[i])
            is InputEvents by {
            if i < view.post_send_input.len() {
                assert(joined[i] == view.post_send_input[i]);
            } else {
                assert(joined[i] == view.work[i - view.post_send_input.len()]);
            }
        }
        if view.result.len() == 0 {
            assert(model::message_events(view.result) =~= Seq::empty());
            assert(waiting(joined) =~= total);
            assert(next.tasks =~= seq![Task::FlushPost]);
        } else {
            assert(model::message_events(next.result) + waiting(joined) =~= total);
        }
    } else if view.tasks.len() == 2 && view.turn.events.len() == 0 {
        lemma_finished(view, answer, 1);
        assert(next.tasks =~= seq![view.tasks[0]]);
    } else {
        lemma_turn_step(view, answer, 1);
        assert(next.tasks.take(1)[0] == next.tasks[0]);
        assert(view.tasks.take(1)[0] == view.tasks[0]);
    }
}

/// Only the work changes, and whether the renderer was given up.
pub open spec fn only_falls(view: RendererView, next: RendererView) -> bool {
    &&& quiet(next)
    &&& next.work == view.work
    &&& next.post_send_input == view.post_send_input
    &&& next.incoming == view.incoming
}

/// The fallback that comes before events are handed over begins.
proof fn lemma_fallback_begins(view: RendererView, answer: AnswerView)
    requires
        quiet(view),
        view.tasks.len() > 0,
        view.tasks.last() is BeginFallback || view.tasks.last() is Handoff,
    ensures
        only_falls(view, view.advanced(answer).0),
        view.advanced(answer).0.tasks == (if view.tasks.last() is Handoff {
            view.tasks.drop_last()
        } else {
            view.tasks.drop_last().push(Task::Fallen).push(Task::FailTarget).push(
                Task::Retire,
            ).push(Task::Handoff)
        }),
{
}

/// No key is released to a renderer that is not there.
proof fn lemma_fallback_retires(view: RendererView, answer: AnswerView)
    requires
        quiet(view),
        view.tasks.len() > 0,
        view.tasks.last() is Retire || view.tasks.last() is Retired || view.tasks.last()
            is ForwardReleases,
    ensures
        only_falls(view, view.advanced(answer).0),
        view.advanced(answer).0.tasks == (match view.tasks.last() {
            Task::Retire => view.tasks.drop_last().push(Task::Retired),
            Task::Retired => view.tasks.drop_last().push(
                Task::ForwardReleases(answer.releases()),
            ),
            _ => view.tasks.drop_last(),
        }),
{
}

/// The fallback ends.
proof fn lemma_fallback_ends(view: RendererView, answer: AnswerView)
    requires
        quiet(view),
        view.tasks.len() > 0,
        view.tasks.last() is FailTarget || view.tasks.last() is Fallen,
    ensures
        only_falls(view, view.advanced(answer).0),
        view.advanced(answer).0.tasks == view.tasks.drop_last(),
{
}

/// The fallback that comes before events are handed over.
proof fn lemma_falling_back(view: RendererView, answer: AnswerView)
    requires
        quiet(view),
        handing_over(view),
        view.tasks.len() > 2,
        view.tasks[1] is ReleasePending,
    ensures
        only_falls(view, view.advanced(answer).0),
        handing_over(view.advanced(answer).0),
        view.advanced(answer).0.tasks[0] is AdmissionTail,
{
    let task = view.tasks.last();
    if task is BeginFallback || task is Handoff {
        lemma_fallback_begins(view, answer);
    } else if task is FailTarget || task is Fallen {
        lemma_fallback_ends(view, answer);
    } else {
        lemma_fallback_retires(view, answer);
    }
}

/// Events that are too many at once are handed over.
proof fn lemma_handing_over(
    view: RendererView,
    answer: AnswerView,
    total: Seq<RoutedEvent>,
)
    requires
        handed_out(view, false, total),
        view.tasks.len() > 0,
        view.tasks[0] is AdmissionTail,
    ensures
        handed_out(view.advanced(answer).0, false, total),
{
    let next = view.advanced(answer).0;
    let tasks = view.tasks;
    let task = tasks.last();
    let down = popped(view);
    assert(next == down.performed(task, answer).0);
    if tasks.len() == 1 {
        assert(next == down.admission_tail());
        lemma_waiting_none(next.post_send_input);
        let events = model::without_mouse(model::sendable(view.incoming));
        if events.len() == 0 {
            assert(model::message_events(next.result) =~= Seq::empty());
        } else {
            assert(next.result.len() == 1);
            assert(next.result.drop_last() =~= Seq::empty());
            assert(model::message_events(next.result.drop_last()) =~= Seq::empty());
            assert(model::message_events(next.result) =~= events);
        }
        assert(model::message_events(next.result) + waiting(next.post_send_input) =~= total);
    } else if tasks[1] is ReleasePending && tasks.len() > 2 {
        lemma_falling_back(view, answer);
    } else if task is ReleasePending {
        assert(next == down.release_pending());
        assert(down.pending_events().len() == 0);
        lemma_sendable_none(down.pending_events());
        assert(next.tasks =~= seq![tasks[0], Task::ReleasedPending, Task::NextEvent]);
        assert(next.turn == TurnView::begin(next.turn.events, 0, false));
    } else if task is NextEvent {
        assert(next == down.turn_finished());
        assert(next.tasks =~= seq![tasks[0], tasks[1]]);
    } else {
        assert(task is ReleasedPending);
        assert(next == down.released_pending());
        assert(next.tasks =~= seq![tasks[0]]);
    }
}

/// A step of a call keeps what the server gets, and its order.
proof fn lemma_handed_out(
    view: RendererView,
    answer: AnswerView,
    flushed: bool,
    total: Seq<RoutedEvent>,
)
    requires
        handed_out(view, flushed, total),
        view.tasks.len() > 0,
        nothing_held(view, answer),
    ensures
        handed_out(view.advanced(answer).0, flushed, total),
{
    let next = view.advanced(answer).0;
    let tasks = view.tasks;
    if flushed {
        lemma_flush_step(view, answer, total);
    } else if tasks[0] is AdmissionTail {
        lemma_handing_over(view, answer, total);
    } else if tasks[0] is Admit {
        if tasks.len() == 2 {
            assert(next == popped(view).cancel_stale(tasks.last()->CancelStale_0));
            assert(next.tasks =~= seq![tasks[0]]);
        } else {
            assert(next == popped(view).take_in());
            assert(popped(view).tasks =~= Seq::empty());
            let usage = model::events_usage(model::sendable(view.incoming));
            assert(popped(view).would_overflow(usage) == view.would_overflow(usage));
            if view.would_overflow(usage) {
                assert(next.tasks =~= seq![
                    Task::AdmissionTail,
                    Task::ReleasePending,
                    Task::BeginFallback,
                ]);
            } else {
                assert(next.tasks =~= seq![Task::NextEvent]);
                assert(next.tasks.skip(1).len() == 0);
                lemma_sendable_none(next.turn.post_send);
                assert(turned(next, 0) =~= model::sendable(view.incoming));
            }
        }
    } else if tasks.len() == 1 && view.turn.events.len() == 0 {
        lemma_finished(view, answer, 0);
        assert(next.tasks =~= Seq::empty());
    } else {
        lemma_turn_step(view, answer, 0);
    }
}

// ---- Several calls ----------------------------------------------------------------------------
/// The state after some steps, with the answers to their questions.
pub open spec fn ran(view: RendererView, answers: Seq<AnswerView>) -> RendererView
    decreases answers.len(),
{
    if answers.len() == 0 || view.idle() {
        view
    } else {
        ran(view.advanced(answers[0]).0, answers.drop_first())
    }
}

/// The answers are those of a client that holds no key for a renderer, and they are enough for
/// the call to finish.
pub open spec fn answered(view: RendererView, answers: Seq<AnswerView>) -> bool
    decreases answers.len(),
{
    view.idle() || (answers.len() > 0 && nothing_held(view, answers[0]) && answered(
        view.advanced(answers[0]).0,
        answers.drop_first(),
    ))
}

/// The result of a call was taken.
pub open spec fn taken(view: RendererView) -> RendererView {
    RendererView { result: Seq::empty(), ..view }
}

/// The state after calls that hand out what waits; the last result is not taken yet.
pub open spec fn flushed(view: RendererView, calls: Seq<Seq<AnswerView>>) -> RendererView
    decreases calls.len(),
{
    if calls.len() == 0 {
        view
    } else {
        ran(taken(flushed(view, calls.drop_last())).put(Task::FlushPost), calls.last())
    }
}

/// What those calls hand out, one after the other.
pub open spec fn flushed_events(view: RendererView, calls: Seq<Seq<AnswerView>>) -> Seq<
    RoutedEvent,
>
    decreases calls.len(),
{
    if calls.len() == 0 {
        model::message_events(view.result)
    } else {
        flushed_events(view, calls.drop_last()) + model::message_events(flushed(view, calls).result)
    }
}

/// All of those calls are answered.
pub open spec fn all_answered(view: RendererView, calls: Seq<Seq<AnswerView>>) -> bool
    decreases calls.len(),
{
    calls.len() == 0 || (all_answered(view, calls.drop_last()) && answered(
        taken(flushed(view, calls.drop_last())).put(Task::FlushPost),
        calls.last(),
    ))
}

proof fn lemma_ran(
    view: RendererView,
    answers: Seq<AnswerView>,
    flushed: bool,
    total: Seq<RoutedEvent>,
)
    requires
        handed_out(view, flushed, total),
        answered(view, answers),
    ensures
        handed_out(ran(view, answers), flushed, total),
        ran(view, answers).idle(),
    decreases answers.len(),
{
    if !view.idle() {
        lemma_handed_out(view, answers[0], flushed, total);
        lemma_ran(view.advanced(answers[0]).0, answers.drop_first(), flushed, total);
    }
}

proof fn lemma_flushed(view: RendererView, calls: Seq<Seq<AnswerView>>, total: Seq<RoutedEvent>)
    requires
        view.idle(),
        handed_out(view, false, total),
        all_answered(view, calls),
    ensures
        flushed(view, calls).idle(),
        flushed_events(view, calls) + waiting(flushed(view, calls).post_send_input) == total,
        handed_out(
            flushed(view, calls),
            calls.len() > 0,
            model::message_events(flushed(view, calls).result) + waiting(
                flushed(view, calls).post_send_input,
            ),
        ),
    decreases calls.len(),
{
    if calls.len() > 0 {
        let before = flushed(view, calls.drop_last());
        lemma_flushed(view, calls.drop_last(), total);
        let start = taken(before).put(Task::FlushPost);
        let left = waiting(before.post_send_input);
        assert(start.tasks =~= seq![Task::FlushPost]);
        assert(handed_out(start, true, left));
        lemma_ran(start, calls.last(), true, left);
        assert(flushed_events(view, calls) + waiting(flushed(view, calls).post_send_input)
            =~= flushed_events(view, calls.drop_last()) + left);
    }
}

proof fn lemma_no_mouse(events: Seq<RoutedEvent>)
    requires
        forall|i: int| 0 <= i < events.len() ==> !(#[trigger] events[i]).mouse(),
    ensures
        model::without_mouse(model::sendable(events)) == model::sendable(events),
    decreases events.len(),
{
    reveal(Seq::filter);
    if events.len() == 0 {
        lemma_sendable_none(events);
    } else {
        let before = events.drop_last();
        let known = model::sendable(before);
        assert forall|i: int| 0 <= i < before.len() implies !(#[trigger] before[i]).mouse() by {
            assert(before[i] == events[i]);
        }
        lemma_no_mouse(before);
        if events.last().sendable {
            assert(!events.last().mouse());
            assert(model::sendable(events) == known.push(events.last()));
            assert(known.push(events.last()).drop_last() =~= known);
        }
    }
}

/// Without a renderer, holding input back behind what is sent first loses no event, doubles
/// none and changes no order: what a call gives the server, and what later calls hand out
/// until one of them hands out nothing, are together the events that the call took up, as far
/// as the server knows them. Only where they are too many at once, the mouse is left out.
pub proof fn law_held_back_input_keeps_its_order(
    view: RendererView,
    events: Seq<RoutedEvent>,
    generation: u64,
    answers: Seq<AnswerView>,
    calls: Seq<Seq<AnswerView>>,
)
    requires
        view.idle(),
        quiet(view),
        !view.awaiting(),
        view.post_send_input.len() == 0,
        view.work.len() == 0,
        ({
            let start = RendererView {
                incoming: events,
                incoming_generation: generation,
                ..view
            }.put(Task::Admit).put(Task::CancelStale(generation));
            answered(start, answers) && all_answered(ran(start, answers), calls)
        }),
    ensures
        ({
            let start = RendererView {
                incoming: events,
                incoming_generation: generation,
                ..view
            }.put(Task::Admit).put(Task::CancelStale(generation));
            let routed = ran(start, answers);
            let last = flushed(routed, calls);
            &&& flushed_events(routed, calls) + waiting(last.post_send_input) == admitted(
                view,
                events,
            )
            &&& calls.len() > 0 && last.result.len() == 0 ==> flushed_events(routed, calls)
                == admitted(view, events)
            &&& (forall|i: int| 0 <= i < events.len() ==> !(#[trigger] events[i]).mouse())
                ==> admitted(view, events) == model::sendable(events)
        }),
{
    let start = RendererView {
        incoming: events,
        incoming_generation: generation,
        ..view
    }.put(Task::Admit).put(Task::CancelStale(generation));
    let total = admitted(view, events);
    assert(start.tasks =~= seq![Task::Admit, Task::CancelStale(generation)]);
    let usage = model::events_usage(model::sendable(events));
    assert(start.would_overflow(usage) == view.would_overflow(usage));
    assert(handed_out(start, false, total));
    lemma_ran(start, answers, false, total);
    let routed = ran(start, answers);
    lemma_flushed(routed, calls, total);
    if forall|i: int| 0 <= i < events.len() ==> !(#[trigger] events[i]).mouse() {
        lemma_no_mouse(events);
    }
    let last = flushed(routed, calls);
    if calls.len() > 0 && last.result.len() == 0 {
        lemma_waiting_none(last.post_send_input);
        assert(flushed_events(routed, calls) =~= total);
    }
}

} // verus!
