//! What holds of the renderer, whatever is typed and whatever the server says.
use crate::input::windows::ClientKeyKind;
use crate::renderer::model::{
    self, DeferredView, EventKind, LinkInputView, MessageView, RoutedEvent, TargetEvent,
    MAX_QUEUED_LINK_INPUTS, MAX_TRACKED_SERVER_PRESSES,
};
use crate::renderer::state::{self, RendererView};
use vstd::prelude::*;

verus! {

// ---- Keys that the server holds ---------------------------------------------------------------
/// What is remembered of held keys: boundedly many, each once.
pub open spec fn held_bounded(held: (Seq<u64>, bool)) -> bool {
    held.0.len() <= MAX_TRACKED_SERVER_PRESSES && held.0.no_duplicates()
}

proof fn lemma_pushed<T>(items: Seq<T>, last: T)
    requires
        items.no_duplicates(),
        !items.contains(last),
    ensures
        items.push(last).no_duplicates(),
{
    let longer = items.push(last);
    assert forall|i: int, j: int|
        0 <= i < longer.len() && 0 <= j < longer.len() && i != j implies longer[i] != longer[j] by {
        if i == items.len() {
            assert(items.contains(items[j]));
        }
        if j == items.len() {
            assert(items.contains(items[i]));
        }
    }
}

pub(crate) proof fn lemma_press_removed(presses: Seq<u64>, identity: u64)
    ensures
        state::press_removed(presses, identity).len() <= presses.len(),
        presses.no_duplicates() ==> state::press_removed(presses, identity).no_duplicates(),
        !state::press_removed(presses, identity).contains(identity),
        forall|x: u64|
            #[trigger] state::press_removed(presses, identity).contains(x) ==> presses.contains(x),
    decreases presses.len(),
{
    reveal(Seq::filter);
    if presses.len() > 0 {
        let rest = presses.drop_last();
        let last = presses.last();
        lemma_press_removed(rest, identity);
        let kept = state::press_removed(rest, identity);
        let whole = state::press_removed(presses, identity);
        assert(whole =~= (if last != identity {
            kept.push(last)
        } else {
            kept
        }));
        assert forall|x: u64| #[trigger] whole.contains(x) implies presses.contains(x) by {
            let i = choose|i: int| 0 <= i < whole.len() && whole[i] == x;
            if i < kept.len() {
                assert(kept[i] == x);
                assert(kept.contains(x));
                let k = choose|k: int| 0 <= k < rest.len() && rest[k] == x;
                assert(presses[k] == x);
            } else {
                assert(presses[presses.len() - 1] == x);
            }
        }
        if whole.contains(identity) {
            let i = choose|i: int| 0 <= i < whole.len() && whole[i] == identity;
            assert(kept[i] == identity);
        }
        if presses.no_duplicates() {
            assert(rest.no_duplicates());
            if last != identity {
                if kept.contains(last) {
                    assert(rest.contains(last));
                    let i = choose|i: int| 0 <= i < rest.len() && rest[i] == last;
                    assert(presses[i] == presses[presses.len() - 1]);
                }
                lemma_pushed(kept, last);
            }
        }
    }
}

/// The keys that are remembered stay bounded, whatever is typed.
pub proof fn law_held_keys_bounded(held: (Seq<u64>, bool), event: RoutedEvent)
    requires
        held_bounded(held),
    ensures
        held_bounded(state::held_after(held, event)),
{
    if let EventKind::Key { identity, .. } = event.kind {
        lemma_press_removed(held.0, identity);
        assert(held_bounded((state::press_removed(held.0, identity), held.1)));
        if !held.0.contains(identity) {
            lemma_pushed(held.0, identity);
        }
    } else {
        assert(Seq::<u64>::empty().no_duplicates());
    }
}

/// A key that the server holds belongs to the server until it is released: its repeats and
/// its release are sent there, and after the release it is held no more. Only a new press
/// of a key without a place on the keyboard may go elsewhere.
pub proof fn law_held_key_returns_to_the_server(view: RendererView, event: RoutedEvent)
    requires
        event.kind matches EventKind::Key { identity, .. }
            && view.server_forwarded_presses.contains(identity),
    ensures
        event.released() || (event.kind matches EventKind::Key { kind, .. } && kind
            == ClientKeyKind::Repeat) ==> view.existing_server_route(event).1,
        event.released() && !view.server_forwarded_overflow ==> (event.kind matches EventKind::Key {
            identity,
            ..
        } && !view.existing_server_route(event).0.server_forwarded_presses.contains(identity)),
        view.existing_server_route(event).1 && event.sendable ==> {
            let (next, step) = view.existing(event);
            &&& step is Continue
            &&& next.turn.batch == view.turn.batch.push(event)
        },
{
    if let EventKind::Key { identity, .. } = event.kind {
        lemma_press_removed(view.server_forwarded_presses, identity);
    }
}

/// When the focus is lost, nothing is held any more.
pub proof fn law_focus_loss_forgets_held_keys(held: (Seq<u64>, bool), event: RoutedEvent)
    requires
        event.kind is FocusLost,
    ensures
        state::held_after(held, event) == (Seq::<u64>::empty(), false),
{
}

// ---- Effects and readiness --------------------------------------------------------------------
/// A renderer that the server has not confirmed does nothing to the host terminal.
pub proof fn law_unconfirmed_renderer_is_silent(events: Seq<TargetEvent>)
    ensures
        model::effects_of(false, events) == Seq::<model::LocalEffect>::empty(),
    decreases events.len(),
{
    if events.len() > 0 {
        law_unconfirmed_renderer_is_silent(events.drop_last());
    }
}

/// Polling loses no event: it reads up to the renderer's own end, whose effects are given, and
/// leaves exactly the rest for the next poll.
pub proof fn law_polling_reads_up_to_the_end(promoted: bool, events: Seq<TargetEvent>)
    ensures
        ({
            let left = model::unread_of(events);
            let read = events.len() - left.len();
            &&& 0 <= read <= events.len()
            &&& left == events.skip(read)
            &&& model::effects_of(promoted, events) == model::effects_of(
                promoted,
                events.take(read),
            )
            &&& left.len() > 0 ==> read > 0 && events[read - 1] == (TargetEvent::PaneDied {
                own: true,
            })
            &&& forall|i: int|
                0 <= i < read - 1 ==> (#[trigger] events[i]) != (TargetEvent::PaneDied {
                    own: true,
                })
        }),
{
    lemma_unread(events);
    let read = events.len() - model::unread_of(events).len();
    if model::unread_of(events).len() == 0 {
        assert(events.take(read) =~= events);
    } else {
        assert(events.take(read)[read - 1] == (TargetEvent::PaneDied { own: true }));
        model::lemma_effects_end(promoted, events, read);
    }
}

proof fn lemma_unread(events: Seq<TargetEvent>)
    ensures
        ({
            let left = model::unread_of(events);
            let read = events.len() - left.len();
            &&& 0 <= read <= events.len()
            &&& left == events.skip(read)
            &&& left.len() > 0 ==> read > 0 && events[read - 1] == (TargetEvent::PaneDied {
                own: true,
            })
            &&& forall|i: int|
                0 <= i < read - 1 ==> (#[trigger] events[i]) != (TargetEvent::PaneDied {
                    own: true,
                })
        }),
    decreases events.len(),
{
    let left = model::unread_of(events);
    let read = events.len() - left.len();
    if events.len() == 0 {
        assert(left =~= events.skip(0));
    } else if events[0] == (TargetEvent::PaneDied { own: true }) {
        assert(left =~= events.skip(1));
    } else {
        let rest = events.drop_first();
        lemma_unread(rest);
        assert(left =~= events.skip(read));
        assert(left.len() > 0 ==> rest[read - 2] == events[read - 1]);
        assert forall|i: int| 0 <= i < read - 1 implies (#[trigger] events[i]) != (
        TargetEvent::PaneDied { own: true }) by {
            if i > 0 {
                assert(rest[i - 1] == events[i]);
            }
        }
    }
}

/// A renderer reports itself once: after it did, polling it adds no message; and it does
/// not while it has not been bound, has not drawn, or has failed.
pub proof fn law_readiness_reported_once(view: RendererView, size: (u16, u16), damaged: bool)
    ensures
        ({
            let next = view.polled(size, damaged);
            &&& (view.target matches Some(target) && (target.ready_reported || !target.bound
                || !target.first_damage || target.failed)) ==> next.outbound_messages
                == view.outbound_messages
            &&& next.outbound_messages != view.outbound_messages ==> (next.target matches Some(
                target,
            ) && target.ready_reported)
        }),
{
}

// ---- Links ------------------------------------------------------------------------------------
/// A link that is longer than the server takes is no link: the click goes on as any click.
pub proof fn law_long_links_are_ignored(
    view: RendererView,
    event: RoutedEvent,
    request_id: u64,
    link: model::LinkView,
)
    requires
        vstd::utf8::encode_utf8(link.url).len() > view.max_link_url,
    ensures
        view.link_answered(event, request_id, Some(link)) == view.put(state::Task::Keyed(event)),
        view.refreshed(Some(link)) == view.hovered(None),
{
}

/// Requests about links are numbered from one, also after the largest number.
pub proof fn law_link_requests_are_numbered(view: RendererView)
    requires
        view.next_link_request_id >= 1,
    ensures
        view.link_id_allocated().next_link_request_id >= 1,
        view.link_id_allocated().next_link_request_id != view.next_link_request_id,
{
}

/// What waits around a click on a link is bounded: a full queue is given up as a whole.
pub proof fn law_link_queue_bounded(view: RendererView, input: LinkInputView)
    requires
        view.queued_link_inputs.len() <= MAX_QUEUED_LINK_INPUTS,
    ensures
        view.queue_link(input).queued_link_inputs.len() <= MAX_QUEUED_LINK_INPUTS,
{
}

proof fn lemma_link_events_add(left: Seq<LinkInputView>, right: Seq<LinkInputView>)
    ensures
        model::link_events(left + right) == model::link_events(left) + model::link_events(right),
    decreases right.len(),
{
    if right.len() == 0 {
        assert(left + right =~= left);
        assert(model::link_events(left) + model::link_events(right) =~= model::link_events(left));
    } else {
        lemma_link_events_add(left, right.drop_last());
        assert((left + right).drop_last() =~= left + right.drop_last());
        assert(model::link_events(left + right) =~= model::link_events(left) + model::link_events(
            right,
        ));
    }
}

pub(crate) proof fn lemma_deferred_events_add(left: Seq<DeferredView>, right: Seq<DeferredView>)
    ensures
        model::deferred_events(left + right) == model::deferred_events(left)
            + model::deferred_events(right),
    decreases right.len(),
{
    if right.len() == 0 {
        assert(left + right =~= left);
        assert(model::deferred_events(left) + model::deferred_events(right)
            =~= model::deferred_events(left));
    } else {
        lemma_deferred_events_add(left, right.drop_last());
        assert((left + right).drop_last() =~= left + right.drop_last());
        assert(model::deferred_events(left + right) =~= model::deferred_events(left)
            + model::deferred_events(right));
    }
}

proof fn lemma_message_events_add(left: Seq<MessageView>, right: Seq<MessageView>)
    ensures
        model::message_events(left + right) == model::message_events(left)
            + model::message_events(right),
    decreases right.len(),
{
    if right.len() == 0 {
        assert(left + right =~= left);
        assert(model::message_events(left) + model::message_events(right)
            =~= model::message_events(left));
    } else {
        lemma_message_events_add(left, right.drop_last());
        assert((left + right).drop_last() =~= left + right.drop_last());
        assert(model::message_events(left + right) =~= model::message_events(left)
            + model::message_events(right));
    }
}

proof fn lemma_pixels_hold_no_events(messages: Seq<DeferredView>)
    requires
        forall|i: int| 0 <= i < messages.len() ==> (#[trigger] messages[i]) is InputPixels,
    ensures
        model::deferred_events(messages) == Seq::<RoutedEvent>::empty(),
    decreases messages.len(),
{
    if messages.len() > 0 {
        assert(messages.last() is InputPixels);
        lemma_pixels_hold_no_events(messages.drop_last());
        assert(model::deferred_events(messages) =~= Seq::<RoutedEvent>::empty());
    }
}

/// Giving up a queue of link input loses none of its events, and keeps their order: they
/// wait for the server instead.
pub proof fn law_given_up_links_keep_their_events(inputs: Seq<LinkInputView>)
    ensures
        model::deferred_events(model::all_deferred(inputs)) == model::link_events(inputs),
    decreases inputs.len(),
{
    if inputs.len() > 0 {
        law_given_up_links_keep_their_events(inputs.drop_last());
        let last = inputs.last();
        lemma_deferred_events_add(model::all_deferred(inputs.drop_last()), last.deferred());
        match last {
            LinkInputView::Events { events, .. } => {
                let one = last.deferred();
                assert(one.len() == 1);
                assert(one.drop_last() =~= Seq::<DeferredView>::empty());
                assert(model::deferred_events(one.drop_last()) =~= Seq::<RoutedEvent>::empty());
                assert(model::deferred_events(one) =~= events);
            },
            LinkInputView::Pixels { .. } => {
                lemma_pixels_hold_no_events(last.deferred());
            },
        }
    }
}

// ---- Generations ------------------------------------------------------------------------------
proof fn lemma_without_mouse_add(left: Seq<RoutedEvent>, right: Seq<RoutedEvent>)
    ensures
        model::without_mouse(left + right) == model::without_mouse(left) + model::without_mouse(
            right,
        ),
    decreases right.len(),
{
    reveal(Seq::filter);
    if right.len() == 0 {
        assert(left + right =~= left);
        assert(model::without_mouse(left) + model::without_mouse(right) =~= model::without_mouse(
            left,
        ));
    } else {
        lemma_without_mouse_add(left, right.drop_last());
        assert((left + right).drop_last() =~= left + right.drop_last());
        assert(model::without_mouse(left + right) =~= model::without_mouse(left)
            + model::without_mouse(right));
    }
}

proof fn lemma_without_mouse_twice(events: Seq<RoutedEvent>)
    ensures
        model::without_mouse(model::without_mouse(events)) == model::without_mouse(events),
    decreases events.len(),
{
    reveal(Seq::filter);
    if events.len() > 0 {
        lemma_without_mouse_twice(events.drop_last());
        if !events.last().mouse() {
            let kept = model::without_mouse(events.drop_last());
            assert(model::without_mouse(events) =~= kept.push(events.last()));
            assert(kept.push(events.last()).drop_last() =~= kept);
            assert(model::without_mouse(kept.push(events.last())) =~= model::without_mouse(
                kept,
            ).push(events.last()));
        }
    }
}

/// The events of one waiting message.
pub open spec fn events_of(message: DeferredView) -> Seq<RoutedEvent> {
    match message {
        DeferredView::InputEvents { events, .. } => events,
        DeferredView::InputPixels { .. } => Seq::empty(),
    }
}

/// Mouse input of another generation is void, but nothing else is: keys, text and focus
/// that wait are kept, in their order.
pub proof fn law_other_generations_lose_only_the_mouse(messages: Seq<DeferredView>, current: u64)
    ensures
        model::without_mouse(model::deferred_events(model::all_kept(messages, current)))
            == model::without_mouse(model::deferred_events(messages)),
    decreases messages.len(),
{
    reveal(Seq::filter);
    if messages.len() > 0 {
        let rest = messages.drop_last();
        let last = messages.last();
        law_other_generations_lose_only_the_mouse(rest, current);
        let kept = model::all_kept(rest, current);
        lemma_without_mouse_add(model::deferred_events(rest), events_of(last));
        match last.kept(current) {
            Some(left) => {
                assert(kept.push(left).drop_last() =~= kept);
                lemma_without_mouse_add(model::deferred_events(kept), events_of(left));
                lemma_without_mouse_twice(events_of(last));
            },
            None => {
                assert(model::without_mouse(events_of(last)) =~= Seq::<RoutedEvent>::empty());
                assert(model::without_mouse(model::deferred_events(rest)) + model::without_mouse(
                    events_of(last),
                ) =~= model::without_mouse(model::deferred_events(rest)));
            },
        }
    }
}

/// The same of input around a click on a link.
pub proof fn law_other_generations_of_links_lose_only_the_mouse(
    inputs: Seq<LinkInputView>,
    current: u64,
)
    ensures
        model::without_mouse(model::link_events(model::links_kept(inputs, current)))
            == model::without_mouse(model::link_events(inputs)),
    decreases inputs.len(),
{
    reveal(Seq::filter);
    if inputs.len() > 0 {
        let rest = inputs.drop_last();
        let last = inputs.last();
        law_other_generations_of_links_lose_only_the_mouse(rest, current);
        let kept = model::links_kept(rest, current);
        let said = match last {
            LinkInputView::Events { events, .. } => events,
            LinkInputView::Pixels { .. } => Seq::empty(),
        };
        lemma_without_mouse_add(model::link_events(rest), said);
        match last.kept(current) {
            Some(left) => {
                let still = match left {
                    LinkInputView::Events { events, .. } => events,
                    LinkInputView::Pixels { .. } => Seq::empty(),
                };
                assert(kept.push(left).drop_last() =~= kept);
                lemma_without_mouse_add(model::link_events(kept), still);
                lemma_without_mouse_twice(said);
            },
            None => {
                assert(model::without_mouse(said) =~= Seq::<RoutedEvent>::empty());
                assert(model::without_mouse(model::link_events(rest)) + model::without_mouse(said)
                    =~= model::without_mouse(model::link_events(rest)));
            },
        }
    }
}

// ---- Order ------------------------------------------------------------------------------------
/// The end of a turn keeps every event and its order: what goes to the server is the result,
/// what waits for the server's word is deferred, and what waits for the result to be sent
/// comes after what already did.
pub proof fn law_turn_keeps_its_events(view: RendererView)
    ensures
        ({
            let done = view.turn_finished();
            &&& model::message_events(done.result) == model::message_events(view.turn.messages)
                + view.turn.batch
            &&& model::deferred_events(done.deferred_messages) == model::deferred_events(
                view.deferred_messages,
            ) + view.turn.deferred
            &&& model::deferred_events(done.post_send_input) == model::deferred_events(
                view.post_send_input,
            ) + view.turn.post_send
        }),
{
    let batch = MessageView::InputEvents { events: view.turn.batch };
    let messages = view.turn.messages;
    assert(messages.push(batch).drop_last() =~= messages);
    if view.turn.batch.len() == 0 {
        assert(model::message_events(messages) + view.turn.batch =~= model::message_events(
            messages,
        ));
    }
    let deferred = DeferredView::InputEvents {
        events: view.turn.deferred,
        generation: view.turn.generation,
    };
    assert(view.deferred_messages.push(deferred).drop_last() =~= view.deferred_messages);
    if view.turn.deferred.len() == 0 {
        assert(model::deferred_events(view.deferred_messages) + view.turn.deferred
            =~= model::deferred_events(view.deferred_messages));
    }
    let posted = DeferredView::InputEvents {
        events: view.turn.post_send,
        generation: view.turn.generation,
    };
    assert(view.post_send_input.push(posted).drop_last() =~= view.post_send_input);
    if view.turn.post_send.len() == 0 {
        assert(model::deferred_events(view.post_send_input) + view.turn.post_send
            =~= model::deferred_events(view.post_send_input));
    }
}

/// Where something was sent, everything that was to follow waits until it is out: the
/// messages come before, and the rest after, in order.
pub proof fn law_sending_is_a_barrier(view: RendererView)
    ensures
        ({
            let sent = view.sent_before();
            &&& model::message_events(sent.outbound_messages) == model::message_events(
                view.outbound_messages,
            ) + model::message_events(view.result)
            &&& model::deferred_events(sent.post_send_input) == model::deferred_events(
                view.post_send_input,
            ) + model::deferred_events(view.work)
            &&& sent.work.len() == 0
            &&& sent.result.len() == 0
        }),
{
    lemma_message_events_add(view.outbound_messages, view.result);
    lemma_deferred_events_add(view.post_send_input, view.work);
}

/// When the renderer is withdrawn, everything that waits goes to the server, without the
/// mouse, in the order in which it would have gone out; and input is the server's from then
/// on.
pub proof fn law_withdrawal_sends_everything(view: RendererView)
    ensures
        ({
            let next = view.release_pending();
            &&& next.turn.events == model::without_mouse(view.pending_events())
            &&& next.server_owned_input && !next.awaiting()
            &&& next.outbound_messages.len() == 0
            &&& next.post_send_input.len() == 0
            &&& next.deferred_messages.len() == 0
            &&& next.queued_link_inputs.len() == 0
            &&& next.pending_link_input is None
        }),
{
}

/// While the server's word is awaited, nothing overtakes what already waits.
pub proof fn law_nothing_overtakes_deferred_input(view: RendererView)
    requires
        view.turn.events.len() > 0,
        view.turn.events[0].sendable,
        view.pending_link_request_id is None,
        view.awaiting(),
        view.deferred_messages.len() > 0 || view.turn.deferred.len() > 0,
    ensures
        ({
            let (next, step) = view.next_event();
            &&& step is Continue
            &&& next.turn.deferred == view.turn.deferred.push(view.turn.events[0])
            &&& next.turn.batch == view.turn.batch
            &&& next.turn.messages == view.turn.messages
        }),
{
}

} // verus!
