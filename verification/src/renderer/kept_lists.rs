//! Every step that moves whole lists keeps what waits.
use crate::input::windows::{ClientMouseKind, MouseButton};
use crate::renderer::kept::{self, lemma_frame, lemma_mild, lemma_top};
use crate::renderer::kept_turns::{self, linked};
use crate::renderer::model::{
    self, DeferredView, LinkInputView, LocalMouse, MessageView, PixelEvent, RoutedEvent,
};
use crate::renderer::state::{self, RendererView, Task};
use crate::renderer::waits::{self, Charge};
use vstd::prelude::*;

verus! {

// ---- Reports in pixels ------------------------------------------------------------------------
/// All but what is kept of a click, and the result, is the same.
pub open spec fn unreported(view: RendererView, here: RendererView) -> bool {
    &&& here.tasks == kept::base(view)
    &&& here.turn == view.turn
    &&& here.local == view.local
    &&& here.result.len() == 0
    &&& waits::mouse_only(here.pending_link_input)
    &&& here.work == view.work
    &&& here.incoming == view.incoming
    &&& here.overflow == view.overflow
    &&& here.replay == view.replay
    &&& here.pending_link_request_id == view.pending_link_request_id
    &&& here.queued_link_inputs == view.queued_link_inputs
    &&& here.deferred_messages == view.deferred_messages
    &&& here.post_send_input == view.post_send_input
    &&& here.outbound_messages == view.outbound_messages
}

/// All but the result is the same.
pub open spec fn said(here: RendererView, next: RendererView) -> bool {
    &&& next.turn == here.turn
    &&& next.local == here.local
    &&& next.work == here.work
    &&& next.incoming == here.incoming
    &&& next.overflow == here.overflow
    &&& next.replay == here.replay
    &&& next.pending_link_request_id == here.pending_link_request_id
    &&& next.pending_link_input == here.pending_link_input
    &&& next.queued_link_inputs == here.queued_link_inputs
    &&& next.deferred_messages == here.deferred_messages
    &&& next.post_send_input == here.post_send_input
    &&& next.outbound_messages == here.outbound_messages
}

/// A step about a report that leaves its result.
proof fn lemma_reported(
    view: RendererView,
    here: RendererView,
    next: RendererView,
    event: RoutedEvent,
)
    requires
        waits::sound(view),
        view.tasks.len() > 0,
        waits::pixel_task(view.tasks.last()),
        unreported(view, here),
        said(here, next),
        next.tasks == kept::base(view),
    ensures
        kept::keeps(view, next, event),
{
    lemma_frame(view, next, event);
    lemma_top(view);
}

/// A step about a report that asks for more.
proof fn lemma_reporting(
    view: RendererView,
    here: RendererView,
    next: RendererView,
    event: RoutedEvent,
)
    requires
        waits::sound(view),
        view.tasks.len() > 0,
        waits::pixel_task(view.tasks.last()),
        unreported(view, here),
        said(here, next),
        kept::builds_on(view, next),
        next.result.len() == 0,
    ensures
        kept::keeps(view, next, event),
{
    lemma_frame(view, next, event);
    lemma_top(view);
}

proof fn lemma_pixel_forward(
    view: RendererView,
    here: RendererView,
    pixel: PixelEvent,
    generation: u64,
    mouse: Option<LocalMouse>,
    event: RoutedEvent,
)
    requires
        waits::sound(view),
        view.tasks.len() > 0,
        waits::pixel_task(view.tasks.last()),
        unreported(view, here),
    ensures
        kept::keeps(view, here.pixel_forward(pixel, generation, mouse).0, event),
{
    let next = here.pixel_forward(pixel, generation, mouse).0;
    if mouse is Some && here.running() {
        lemma_reporting(view, here, next, event);
    } else {
        lemma_reported(view, here, next, event);
    }
}

/// A report joined what waits for a link.
proof fn lemma_pixel_linked(
    view: RendererView,
    here: RendererView,
    next: RendererView,
    event: RoutedEvent,
)
    requires
        waits::sound(view),
        view.tasks.len() > 0,
        waits::pixel_task(view.tasks.last()),
        unreported(view, here),
        linked(here, next, event),
    ensures
        kept::keeps(view, next, event),
{
    lemma_frame(view, next, event);
    lemma_top(view);
    if next.tasks.len() != here.tasks.len() {
        assert(waits::in_charge(next.tasks[kept::base(view).len() as int], Charge::Overflow));
    }
}

proof fn lemma_pixel_waits(
    view: RendererView,
    here: RendererView,
    pixel: PixelEvent,
    generation: u64,
    event: RoutedEvent,
)
    requires
        waits::sound(view),
        view.tasks.len() > 0,
        waits::pixel_task(view.tasks.last()),
        unreported(view, here),
    ensures
        kept::keeps(view, here.defer_pixel(pixel, generation), event),
{
    let next = here.defer_pixel(pixel, generation);
    waits::lemma_deferred_push(
        here.deferred_messages,
        DeferredView::InputPixels { pixel, generation },
        event,
    );
    lemma_frame(view, next, event);
    lemma_top(view);
}

proof fn lemma_pixel_routed(
    view: RendererView,
    here: RendererView,
    pixel: PixelEvent,
    generation: u64,
    mouse: Option<LocalMouse>,
    event: RoutedEvent,
)
    requires
        waits::sound(view),
        view.tasks.len() > 0,
        waits::pixel_task(view.tasks.last()),
        unreported(view, here),
    ensures
        kept::keeps(view, here.pixel_routed(pixel, generation, mouse).0, event),
{
    let next = here.pixel_routed(pixel, generation, mouse).0;
    if here.pending_link_request_id is Some {
        let input = LinkInputView::Pixels { inputs: seq![pixel], generation };
        kept_turns::lemma_queue_link(here, input, event);
        lemma_pixel_linked(view, here, next, event);
    } else if here.awaiting() {
        lemma_pixel_waits(view, here, pixel, generation, event);
    } else if !here.local_active() {
        lemma_reported(view, here, next, event);
    } else if mouse is Some && mouse->0.kind == ClientMouseKind::Down(
        MouseButton::Left,
    ) {
        let numbered = here.link_id_allocated();
        if numbered.link_visible() {
            lemma_reporting(view, here, next, event);
        } else {
            lemma_pixel_forward(view, numbered, pixel, generation, mouse, event);
        }
    } else {
        lemma_pixel_forward(view, here, pixel, generation, mouse, event);
    }
}

pub(crate) proof fn lemma_pixel_placed(
    view: RendererView,
    pixel: PixelEvent,
    generation: u64,
    mouse: Option<LocalMouse>,
    event: RoutedEvent,
)
    requires
        waits::sound(view),
        view.tasks.len() > 0,
        view.tasks.last() is PixelLocal || view.tasks.last() is PixelPlaced,
    ensures
        kept::keeps(
            view,
            kept::popped(view).pixel_placed(pixel, generation, mouse).0,
            event,
        ),
{
    let here = kept::popped(view).with_result(Seq::empty());
    let next = kept::popped(view).pixel_placed(pixel, generation, mouse).0;
    let seen = RendererView { pending_link_click: false, ..here };
    if RendererView::pixel_kind(pixel, ClientMouseKind::Drag(MouseButton::Left))
        && here.pending_link_click {
        assert(kept::keeps(view, here.append_link_pixel(pixel), event)) by {
            kept_turns::lemma_append_link_pixel(here, pixel, event);
            lemma_pixel_linked(view, here, here.append_link_pixel(pixel), event);
        }
    } else if RendererView::pixel_kind(pixel, ClientMouseKind::Up(MouseButton::Left))
        && here.pending_link_click {
        assert(kept::keeps(view, seen.append_link_pixel(pixel), event)) by {
            kept_turns::lemma_append_link_pixel(seen, pixel, event);
            lemma_pixel_linked(view, seen, seen.append_link_pixel(pixel), event);
        }
    } else if RendererView::pixel_kind(pixel, ClientMouseKind::Down(MouseButton::Left)) {
        if here.pending_link_request_id is None {
            assert(unreported(view, here.clear_click())) by {
                kept_turns::lemma_no_link(view);
            }
            lemma_pixel_routed(view, here.clear_click(), pixel, generation, mouse, event);
        } else {
            lemma_pixel_routed(view, seen, pixel, generation, mouse, event);
        }
    } else {
        lemma_pixel_routed(view, here, pixel, generation, mouse, event);
    }
}

pub(crate) proof fn lemma_pixel_local(
    view: RendererView,
    pixel: PixelEvent,
    generation: u64,
    event: RoutedEvent,
)
    requires
        waits::sound(view),
        view.tasks.len() > 0,
        view.tasks.last() is PixelLocal,
    ensures
        kept::keeps(view, kept::popped(view).pixel_local(pixel, generation).0, event),
{
    let here = kept::popped(view);
    if here.target is Some {
        lemma_mild(view, here.pixel_local(pixel, generation).0, event);
    } else {
        lemma_pixel_placed(view, pixel, generation, None, event);
    }
}

pub(crate) proof fn lemma_pixel_link(
    view: RendererView,
    pixel: PixelEvent,
    generation: u64,
    mouse: LocalMouse,
    request_id: u64,
    link: Option<model::LinkView>,
    event: RoutedEvent,
)
    requires
        waits::sound(view),
        view.tasks.len() > 0,
        view.tasks.last() is PixelLink,
    ensures
        kept::keeps(
            view,
            kept::popped(view).pixel_link(pixel, generation, mouse, request_id, link).0,
            event,
        ),
{
    let here = kept::popped(view);
    let next = here.pixel_link(pixel, generation, mouse, request_id, link).0;
    if here.usable(link) is Some && here.target is Some {
        lemma_frame(view, next, event);
        lemma_top(view);
    } else {
        lemma_pixel_forward(view, here, pixel, generation, Some(mouse), event);
    }
}

pub(crate) proof fn lemma_pixel_sent(
    view: RendererView,
    pixel: PixelEvent,
    generation: u64,
    wheel: bool,
    sent: bool,
    event: RoutedEvent,
)
    requires
        waits::sound(view),
        view.tasks.len() > 0,
        view.tasks.last() is PixelSent,
    ensures
        kept::keeps(
            view,
            kept::popped(view).pixel_sent(pixel, generation, wheel, sent),
            event,
        ),
{
    let next = kept::popped(view).pixel_sent(pixel, generation, wheel, sent);
    assert(view.result =~= Seq::empty());
    lemma_mild(view, next, event);
}

pub(crate) proof fn lemma_defer_pixel(
    view: RendererView,
    pixel: PixelEvent,
    generation: u64,
    event: RoutedEvent,
)
    requires
        waits::sound(view),
        view.tasks.len() > 0,
        view.tasks.last() is DeferPixel,
    ensures
        kept::keeps(view, kept::popped(view).defer_pixel(pixel, generation), event),
{
    let next = kept::popped(view).defer_pixel(pixel, generation);
    waits::lemma_deferred_push(
        view.deferred_messages,
        DeferredView::InputPixels { pixel, generation },
        event,
    );
    lemma_frame(view, next, event);
}

pub(crate) proof fn lemma_admit_pixel(
    view: RendererView,
    pixel: PixelEvent,
    generation: u64,
    event: RoutedEvent,
)
    requires
        waits::sound(view),
        view.tasks.len() > 0,
        view.tasks.last() is AdmitPixel,
    ensures
        kept::keeps(view, kept::popped(view).admit_pixel(pixel, generation), event),
{
    let next = kept::popped(view).admit_pixel(pixel, generation);
    lemma_mild(view, next, event);
}

pub(crate) proof fn lemma_drop_result(view: RendererView, event: RoutedEvent)
    requires
        waits::sound(view),
        view.tasks.len() > 0,
        view.tasks.last() is DropResult,
    ensures
        kept::keeps(view, kept::popped(view).with_result(Seq::empty()), event),
{
    lemma_frame(view, kept::popped(view).with_result(Seq::empty()), event);
}

// ---- Input that waits -------------------------------------------------------------------------
pub(crate) proof fn lemma_defer_overflow(view: RendererView, event: RoutedEvent)
    requires
        waits::sound(view),
        view.tasks.len() > 0,
        view.tasks.last() is DeferOverflow,
    ensures
        kept::keeps(
            view,
            (RendererView {
                deferred_messages: view.deferred_messages + model::all_deferred(view.overflow),
                overflow: Seq::empty(),
                ..kept::popped(view)
            }),
            event,
        ),
{
    let next = RendererView {
        deferred_messages: view.deferred_messages + model::all_deferred(view.overflow),
        overflow: Seq::empty(),
        ..kept::popped(view)
    };
    waits::lemma_deferred_add(view.deferred_messages, model::all_deferred(view.overflow), event);
    if waits::in_links(view.overflow, event) {
        waits::lemma_all_deferred_holds(view.overflow, event);
    }
    lemma_frame(view, next, event);
}

pub(crate) proof fn lemma_cancel_stale(view: RendererView, generation: u64, event: RoutedEvent)
    requires
        waits::sound(view),
        waits::ordinary(event),
        view.tasks.len() > 0,
        view.tasks.last() is CancelStale,
    ensures
        kept::keeps(view, kept::popped(view).cancel_stale(generation), event),
{
    let next = kept::popped(view).cancel_stale(generation);
    if waits::in_links(view.queued_link_inputs, event) {
        waits::lemma_links_kept(view.queued_link_inputs, generation, event);
    }
    lemma_frame(view, next, event);
    lemma_top(view);
    if next.tasks.len() > kept::base(view).len() {
        assert(waits::in_charge(next.tasks[kept::base(view).len() as int], Charge::Queue));
    }
}

pub(crate) proof fn lemma_drain_queued(view: RendererView, event: RoutedEvent)
    requires
        waits::sound(view),
        view.tasks.len() > 0,
        view.tasks.last() is DrainQueued,
    ensures
        kept::keeps(view, kept::popped(view).drain_queued(), event),
{
    let next = kept::popped(view).drain_queued();
    lemma_frame(view, next, event);
    lemma_top(view);
    if waits::in_links(view.queued_link_inputs, event) {
        waits::lemma_all_deferred_holds(view.queued_link_inputs, event);
    }
    assert(waits::in_charge(next.tasks[kept::base(view).len() as int], Charge::Work));
}

/// One item of the list is routed, under a task that answers for the rest of it.
proof fn lemma_item_started(
    view: RendererView,
    worker: Task,
    items: Seq<DeferredView>,
    next: RendererView,
    event: RoutedEvent,
)
    requires
        waits::sound(view),
        view.tasks.len() > 0,
        waits::worker(view.tasks.last()) || waits::starter(view.tasks.last()),
        !waits::mover(view.tasks.last()),
        !(view.tasks.last() is DrainQueued),
        items.len() > 0,
        waits::worker(worker) && waits::mover(worker),
        kept::builds_on(view, next),
        next.tasks.len() == kept::base(view).len() + 2,
        next.tasks[kept::base(view).len() as int] == worker,
        next.work == items.drop_first(),
        next.result == view.result,
        next.incoming == view.incoming,
        next.overflow == view.overflow,
        next.replay == view.replay,
        next.pending_link_request_id == view.pending_link_request_id,
        next.pending_link_input == view.pending_link_input,
        next.queued_link_inputs == view.queued_link_inputs,
        next.deferred_messages == view.deferred_messages,
        next.outbound_messages == view.outbound_messages,
        next.local == view.local,
        waits::in_deferred(view.post_send_input, event) ==> waits::in_deferred(
            next.post_send_input,
            event,
        ) || waits::in_deferred(items, event),
        waits::in_deferred(view.work, event) ==> waits::in_deferred(items, event),
        next.tasks.last() is NextEvent || waits::turn_empty(next.turn),
        waits::deferred_holds(items[0], event) ==> next.turn.events.contains(event),
    ensures
        kept::keeps(view, next, event),
{
    let first = kept::base(view).len() as int;
    waits::lemma_deferred_first(items, event);
    lemma_frame(view, next, event);
    lemma_top(view);
    assert(waits::in_charge(next.tasks[first], Charge::Work));
    if next.tasks.last() is NextEvent {
        assert(waits::in_charge(next.tasks[first + 1], Charge::Turn));
    }
}

pub(crate) proof fn lemma_drain_next(view: RendererView, event: RoutedEvent)
    requires
        waits::sound(view),
        view.tasks.len() > 0,
        view.tasks.last() is DrainNext,
    ensures
        kept::keeps(view, kept::popped(view).drain_next(), event),
{
    let next = kept::popped(view).drain_next();
    lemma_top(view);
    if view.work.len() == 0 {
        lemma_frame(view, next, event);
    } else {
        lemma_item_started(view, Task::DrainRouted, view.work, next, event);
    }
}

/// What was sent goes out; the rest of the list waits behind it.
proof fn lemma_sent_before(view: RendererView, event: RoutedEvent)
    requires
        waits::sound(view),
        view.tasks.len() > 0,
        waits::worker(view.tasks.last()),
        waits::mover(view.tasks.last()),
    ensures
        kept::keeps(view, kept::popped(view).sent_before(), event),
{
    let next = kept::popped(view).sent_before();
    waits::lemma_messages_add(view.outbound_messages, view.result, event);
    waits::lemma_deferred_add(view.post_send_input, view.work, event);
    lemma_frame(view, next, event);
}

/// Nothing was sent: the list is worked on.
proof fn lemma_goes_on(view: RendererView, worker: Task, event: RoutedEvent)
    requires
        waits::sound(view),
        view.tasks.len() > 0,
        waits::worker(view.tasks.last()),
        waits::mover(view.tasks.last()),
        !waits::bottom_task(worker),
        view.result.len() == 0,
        waits::worker(worker),
    ensures
        kept::keeps(view, kept::popped(view).put(worker), event),
{
    let next = kept::popped(view).put(worker);
    lemma_frame(view, next, event);
    assert(waits::in_charge(next.tasks[kept::base(view).len() as int], Charge::Work));
}

pub(crate) proof fn lemma_drain_routed(view: RendererView, event: RoutedEvent)
    requires
        waits::sound(view),
        view.tasks.len() > 0,
        view.tasks.last() is DrainRouted,
    ensures
        kept::keeps(view, kept::popped(view).drain_routed(), event),
{
    if view.result.len() > 0 {
        lemma_sent_before(view, event);
    } else {
        lemma_goes_on(view, Task::DrainNext, event);
    }
}

pub(crate) proof fn lemma_take_in(view: RendererView, event: RoutedEvent)
    requires
        waits::sound(view),
        view.tasks.len() > 0,
        view.tasks.last() is Admit,
    ensures
        kept::keeps(view, kept::popped(view).take_in(), event),
{
    let next = kept::popped(view).take_in();
    let first = kept::base(view).len() as int;
    lemma_frame(view, next, event);
    lemma_top(view);
    if next.tasks.len() > first + 1 {
        assert(waits::in_charge(next.tasks[first], Charge::Incoming));
    } else {
        assert(waits::in_charge(next.tasks[first], Charge::Turn));
    }
}

pub(crate) proof fn lemma_admission_tail(view: RendererView, event: RoutedEvent)
    requires
        waits::sound(view),
        waits::ordinary(event),
        view.tasks.len() > 0,
        view.tasks.last() is AdmissionTail,
    ensures
        kept::keeps(view, kept::popped(view).admission_tail(), event),
{
    let next = kept::popped(view).admission_tail();
    let events = model::without_mouse(model::sendable(view.incoming));
    if view.incoming.contains(event) {
        waits::lemma_sendable_contains(view.incoming, event);
        waits::lemma_without_mouse_contains(model::sendable(view.incoming), event);
    }
    waits::lemma_messages_push(
        view.outbound_messages,
        MessageView::InputEvents { events },
        event,
    );
    lemma_frame(view, next, event);
    lemma_top(view);
}

/// Everything that waits is among the pending events.
proof fn lemma_pending_events(here: RendererView, event: RoutedEvent)
    requires
        waits::in_messages(here.outbound_messages, event) || waits::in_deferred(
            here.post_send_input,
            event,
        ) || waits::in_links(here.queued_link_inputs, event) || waits::in_deferred(
            here.deferred_messages,
            event,
        ),
    ensures
        here.pending_events().contains(event),
{
    let messages = model::message_events(here.outbound_messages);
    let posted = model::deferred_events(here.post_send_input);
    let pending = match here.pending_link_input {
        Some(input) => seq![input],
        None => Seq::empty(),
    };
    let links = model::link_events(pending + here.queued_link_inputs);
    let deferred = model::deferred_events(here.deferred_messages);
    if waits::in_messages(here.outbound_messages, event) {
        waits::lemma_message_events_contain(here.outbound_messages, event);
    }
    if waits::in_deferred(here.post_send_input, event) {
        waits::lemma_deferred_events_contain(here.post_send_input, event);
    }
    waits::lemma_links_add(pending, here.queued_link_inputs, event);
    if waits::in_links(here.queued_link_inputs, event) {
        waits::lemma_link_events_contain(pending + here.queued_link_inputs, event);
    }
    if waits::in_deferred(here.deferred_messages, event) {
        waits::lemma_deferred_events_contain(here.deferred_messages, event);
    }
    waits::lemma_added_contains(messages, posted, event);
    waits::lemma_added_contains(messages + posted, links, event);
    waits::lemma_added_contains(messages + posted + links, deferred, event);
}

pub(crate) proof fn lemma_release_pending(view: RendererView, event: RoutedEvent)
    requires
        waits::sound(view),
        waits::ordinary(event),
        view.tasks.len() > 0,
        view.tasks.last() is ReleasePending,
    ensures
        kept::keeps(view, kept::popped(view).release_pending(), event),
{
    let here = kept::popped(view);
    let next = here.release_pending();
    if waits::in_messages(here.outbound_messages, event) || waits::in_deferred(
        here.post_send_input,
        event,
    ) || waits::in_links(here.queued_link_inputs, event) || waits::in_deferred(
        here.deferred_messages,
        event,
    ) {
        lemma_pending_events(here, event);
        waits::lemma_without_mouse_contains(here.pending_events(), event);
    }
    lemma_frame(view, next, event);
    lemma_top(view);
    assert(waits::in_charge(next.tasks[kept::base(view).len() as int + 1], Charge::Turn));
}

pub(crate) proof fn lemma_released_pending(view: RendererView, event: RoutedEvent)
    requires
        waits::sound(view),
        view.tasks.len() > 0,
        view.tasks.last() is ReleasedPending,
    ensures
        kept::keeps(view, kept::popped(view).released_pending(), event),
{
    let next = kept::popped(view).released_pending();
    waits::lemma_messages_add(view.outbound_messages, view.result, event);
    lemma_frame(view, next, event);
}

pub(crate) proof fn lemma_release_next(view: RendererView, event: RoutedEvent)
    requires
        waits::sound(view),
        waits::ordinary(event),
        view.tasks.len() > 0,
        view.tasks.last() is ReleaseNext,
    ensures
        kept::keeps(view, kept::popped(view).release_next(), event),
{
    let next = kept::popped(view).release_next();
    lemma_top(view);
    if view.work.len() == 0 {
        lemma_frame(view, next, event);
    } else {
        match view.work[0] {
            DeferredView::InputEvents { events, .. } => {
                if events.contains(event) {
                    waits::lemma_without_mouse_contains(events, event);
                }
                lemma_item_started(view, Task::ReleaseRouted, view.work, next, event);
            },
            DeferredView::InputPixels { .. } => {
                waits::lemma_deferred_first(view.work, event);
                lemma_frame(view, next, event);
                assert(waits::in_charge(next.tasks[kept::base(view).len() as int], Charge::Work));
            },
        }
    }
}

pub(crate) proof fn lemma_release_routed(view: RendererView, event: RoutedEvent)
    requires
        waits::sound(view),
        view.tasks.len() > 0,
        view.tasks.last() is ReleaseRouted,
    ensures
        kept::keeps(view, kept::popped(view).release_routed(), event),
{
    if view.result.len() > 0 {
        lemma_sent_before(view, event);
    } else {
        lemma_goes_on(view, Task::ReleaseNext, event);
    }
}

pub(crate) proof fn lemma_promote_next(view: RendererView, generation: u64, event: RoutedEvent)
    requires
        waits::sound(view),
        waits::ordinary(event),
        view.tasks.len() > 0,
        view.tasks.last() is PromoteNext,
    ensures
        kept::keeps(view, kept::popped(view).promote_next(generation), event),
{
    let next = kept::popped(view).promote_next(generation);
    lemma_top(view);
    if view.work.len() == 0 {
        lemma_frame(view, next, event);
    } else if view.awaiting_fallback {
        waits::lemma_deferred_add(view.deferred_messages, view.work, event);
        lemma_frame(view, next, event);
    } else {
        match view.work[0] {
            DeferredView::InputEvents { events, .. } => {
                if events.contains(event) {
                    waits::lemma_without_mouse_contains(events, event);
                }
                lemma_item_started(
                    view,
                    Task::PromoteRouted(generation),
                    view.work,
                    next,
                    event,
                );
            },
            DeferredView::InputPixels { .. } => {
                waits::lemma_deferred_first(view.work, event);
                lemma_frame(view, next, event);
                assert(waits::in_charge(next.tasks[kept::base(view).len() as int], Charge::Work));
            },
        }
    }
}

pub(crate) proof fn lemma_promote_routed(view: RendererView, generation: u64, event: RoutedEvent)
    requires
        waits::sound(view),
        view.tasks.len() > 0,
        view.tasks.last() is PromoteRouted,
    ensures
        kept::keeps(view, kept::popped(view).promote_routed(generation), event),
{
    if view.result.len() > 0 {
        lemma_sent_before(view, event);
    } else {
        lemma_goes_on(view, Task::PromoteNext(generation), event);
    }
}

pub(crate) proof fn lemma_flush_post(view: RendererView, event: RoutedEvent)
    requires
        waits::sound(view),
        view.tasks.len() > 0,
        view.tasks.last() is FlushPost,
    ensures
        kept::keeps(view, kept::popped(view).flush_post(), event),
{
    let next = kept::popped(view).flush_post();
    lemma_top(view);
    if view.post_send_input.len() == 0 {
        lemma_frame(view, next, event);
    } else {
        lemma_item_started(view, Task::FlushPosted, view.post_send_input, next, event);
    }
}

pub(crate) proof fn lemma_flush_posted(view: RendererView, event: RoutedEvent)
    requires
        waits::sound(view),
        view.tasks.len() > 0,
        view.tasks.last() is FlushPosted,
    ensures
        kept::keeps(view, kept::popped(view).flush_posted(), event),
{
    let next = kept::popped(view).flush_posted();
    waits::lemma_deferred_add(view.post_send_input, view.work, event);
    lemma_frame(view, next, event);
    lemma_top(view);
}

// ---- A click that was no link -----------------------------------------------------------------
pub(crate) proof fn lemma_replay_next(view: RendererView, generation: u64, event: RoutedEvent)
    requires
        waits::sound(view),
        view.tasks.len() > 0,
        view.tasks.last() is ReplayNext,
    ensures
        kept::keeps(view, kept::popped(view).replay_next(generation), event),
{
    let next = kept::popped(view).replay_next(generation);
    lemma_frame(view, next, event);
    if view.replay.len() > 0 {
        assert(waits::in_charge(next.tasks[kept::base(view).len() as int], Charge::Replay));
    }
}

proof fn lemma_replay_taken(view: RendererView, generation: u64, event: RoutedEvent)
    requires
        waits::sound(view),
        view.tasks.len() > 0,
        view.tasks.last() is ReplayRouted,
        view.local.1,
    ensures
        waits::sound(kept::popped(view).replay_routed(generation)),
        waits::waits(view, event) && !waits::arrived(view, event) ==> waits::waits(
            kept::popped(view).replay_routed(generation),
            event,
        ),
{
    let next = kept::popped(view).replay_routed(generation);
    if view.replay.len() > 0 {
        waits::lemma_first_contains(view.replay, event);
    }
    lemma_frame(view, next, event);
    assert(waits::in_charge(next.tasks[kept::base(view).len() as int], Charge::Replay));
}

proof fn lemma_replay_stopped(view: RendererView, generation: u64, event: RoutedEvent)
    requires
        waits::sound(view),
        view.tasks.len() > 0,
        view.tasks.last() is ReplayRouted,
        !view.local.1,
    ensures
        kept::keeps(view, kept::popped(view).replay_routed(generation), event),
{
    let next = kept::popped(view).replay_routed(generation);
    lemma_frame(view, next, event);
    assert(waits::in_charge(next.tasks[kept::base(view).len() as int], Charge::Replay));
}

pub(crate) proof fn lemma_replay_routed(view: RendererView, generation: u64, event: RoutedEvent)
    requires
        waits::sound(view),
        view.tasks.len() > 0,
        view.tasks.last() is ReplayRouted,
    ensures
        waits::sound(kept::popped(view).replay_routed(generation)),
        waits::waits(view, event) && !waits::arrived(view, event) ==> waits::waits(
            kept::popped(view).replay_routed(generation),
            event,
        ),
{
    if view.local.1 {
        lemma_replay_taken(view, generation, event);
    } else {
        lemma_replay_stopped(view, generation, event);
    }
}

pub(crate) proof fn lemma_defer_replay(view: RendererView, generation: u64, event: RoutedEvent)
    requires
        waits::sound(view),
        view.tasks.len() > 0,
        view.tasks.last() is DeferReplay,
    ensures
        kept::keeps(view, kept::popped(view).defer_replay(generation), event),
{
    let next = kept::popped(view).defer_replay(generation);
    waits::lemma_deferred_push(
        view.deferred_messages,
        DeferredView::InputEvents { events: view.replay, generation },
        event,
    );
    lemma_frame(view, next, event);
}

pub(crate) proof fn lemma_defer_replay_pixels(
    view: RendererView,
    generation: u64,
    event: RoutedEvent,
)
    requires
        waits::sound(view),
        view.tasks.len() > 0,
        view.tasks.last() is DeferReplayPixels,
    ensures
        kept::keeps(view, kept::popped(view).defer_replay_pixels(generation), event),
{
    let next = kept::popped(view).defer_replay_pixels(generation);
    let left = view.replay_pixels;
    waits::lemma_deferred_add(
        view.deferred_messages,
        Seq::new(left.len(), |i: int| DeferredView::InputPixels { pixel: left[i], generation }),
        event,
    );
    lemma_frame(view, next, event);
}

// ---- The renderer's own state -----------------------------------------------------------------
pub(crate) proof fn lemma_apply_binding(view: RendererView, event: RoutedEvent)
    requires
        waits::sound(view),
        view.tasks.len() > 0,
        view.tasks.last() is ApplyBinding,
    ensures
        kept::keeps(view, kept::popped(view).apply_binding(), event),
{
    let next = kept::popped(view).apply_binding();
    let first = kept::base(view).len() as int;
    lemma_frame(view, next, event);
    lemma_top(view);
    if next.tasks.len() > first + 1 && next.tasks[first + 1] is ReleaseNext {
        assert(waits::in_charge(next.tasks[first + 1], Charge::Work));
    }
}

pub(crate) proof fn lemma_apply_state(view: RendererView, event: RoutedEvent)
    requires
        waits::sound(view),
        view.tasks.len() > 0,
        view.tasks.last() is ApplyState,
    ensures
        kept::keeps(view, kept::popped(view).apply_state(), event),
{
    let next = kept::popped(view).apply_state();
    let first = kept::base(view).len() as int;
    lemma_frame(view, next, event);
    lemma_top(view);
    if next.tasks.len() > first + 2 && waits::worker(next.tasks[first + 2]) {
        assert(waits::in_charge(next.tasks[first + 2], Charge::Work));
    }
}

pub(crate) proof fn lemma_target_stopped(view: RendererView, event: RoutedEvent)
    requires
        waits::sound(view),
        view.tasks.len() > 0,
        view.tasks.last() is TargetStopped,
    ensures
        waits::sound(kept::popped(view).target_stopped()),
        waits::waits(view, event) && !waits::in_links(view.queued_link_inputs, event)
            ==> waits::waits(kept::popped(view).target_stopped(), event),
{
    let next = kept::popped(view).target_stopped();
    lemma_frame(view, next, event);
}

pub(crate) proof fn lemma_resized(
    view: RendererView,
    size: model::SurfaceSize,
    geometry: Option<crate::input::framing::HostGeometry>,
    generation: u64,
    event: RoutedEvent,
)
    requires
        waits::sound(view),
        waits::ordinary(event),
        view.tasks.len() > 0,
        view.tasks.last() is Resized,
    ensures
        kept::keeps(view, kept::popped(view).resized(size, geometry, generation), event),
{
    let next = kept::popped(view).resized(size, geometry, generation);
    if waits::in_deferred(view.deferred_messages, event) {
        waits::lemma_deferred_kept(view.deferred_messages, generation, event);
    }
    if waits::in_deferred(view.post_send_input, event) {
        waits::lemma_deferred_kept(view.post_send_input, generation, event);
    }
    lemma_frame(view, next, event);
}

pub(crate) proof fn lemma_polled(
    view: RendererView,
    size: (u16, u16),
    damaged: bool,
    event: RoutedEvent,
)
    requires
        waits::sound(view),
        view.tasks.len() > 0,
        view.tasks.last() is Polled,
    ensures
        kept::keeps(view, kept::popped(view).polled(size, damaged), event),
{
    let next = kept::popped(view).polled(size, damaged);
    if let Some(target) = view.target {
        waits::lemma_messages_push(
            view.outbound_messages,
            MessageView::OmpRendererReady { launch_id: target.launch_id },
            event,
        );
    }
    lemma_frame(view, next, event);
}

} // verus!
