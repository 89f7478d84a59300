//! Lists of input: moving, measuring and thinning them out.
use crate::renderer::model::{
    self, ClientMessage, DeferredMessage, DeferredView, InputUsage, LinkInput, LinkInputView,
    MessageView, PixelEvent, RoutedEvent, add_input_usage,
};
use crate::renderer::state;
use vstd::prelude::*;

verus! {

pub(crate) fn push_deferred(list: &mut Vec<DeferredMessage>, message: DeferredMessage)
    ensures
        model::deferred_views(final(list)@)
            == model::deferred_views(old(list)@).push(message@),
{
    let ghost content = message@;
    list.push(message);
    assert(model::deferred_views(list@)
        =~= model::deferred_views(old(list)@).push(content));
}

pub(crate) fn join_deferred(list: &mut Vec<DeferredMessage>, more: &mut Vec<DeferredMessage>)
    ensures
        model::deferred_views(final(list)@)
            == model::deferred_views(old(list)@)
            + model::deferred_views(old(more)@),
        model::deferred_views(final(more)@) == Seq::<
            DeferredView,
        >::empty(),
{
    list.append(more);
    assert(model::deferred_views(list@)
        =~= model::deferred_views(old(list)@)
        + model::deferred_views(old(more)@));
    assert(model::deferred_views(more@) =~= Seq::empty());
}

pub(crate) fn take_deferred(list: &mut Vec<DeferredMessage>) -> (taken: Vec<DeferredMessage>)
    ensures
        model::deferred_views(taken@) == model::deferred_views(
            old(list)@,
        ),
        model::deferred_views(final(list)@) == Seq::<
            DeferredView,
        >::empty(),
{
    let mut taken: Vec<DeferredMessage> = Vec::new();
    join_deferred(&mut taken, list);
    assert(model::deferred_views(taken@)
        =~= model::deferred_views(old(list)@));
    taken
}

pub(crate) fn pop_deferred(list: &mut Vec<DeferredMessage>) -> (first: DeferredMessage)
    requires
        old(list)@.len() > 0,
    ensures
        first@ == model::deferred_views(old(list)@)[0],
        model::deferred_views(final(list)@)
            == model::deferred_views(old(list)@).drop_first(),
{
    let first = list.remove(0);
    assert(model::deferred_views(list@)
        =~= model::deferred_views(old(list)@).drop_first());
    first
}

pub(crate) fn push_link(list: &mut Vec<LinkInput>, input: LinkInput)
    ensures
        model::link_views(final(list)@) == model::link_views(
            old(list)@,
        ).push(input@),
{
    let ghost content = input@;
    list.push(input);
    assert(model::link_views(list@) =~= model::link_views(
        old(list)@,
    ).push(content));
}

pub(crate) fn join_link(list: &mut Vec<LinkInput>, more: &mut Vec<LinkInput>)
    ensures
        model::link_views(final(list)@) == model::link_views(
            old(list)@,
        ) + model::link_views(old(more)@),
        model::link_views(final(more)@) == Seq::<
            LinkInputView,
        >::empty(),
{
    list.append(more);
    assert(model::link_views(list@) =~= model::link_views(
        old(list)@,
    ) + model::link_views(old(more)@));
    assert(model::link_views(more@) =~= Seq::empty());
}

pub(crate) fn push_message(list: &mut Vec<ClientMessage>, message: ClientMessage)
    ensures
        model::message_views(final(list)@)
            == model::message_views(old(list)@).push(message@),
{
    let ghost content = message@;
    list.push(message);
    assert(model::message_views(list@)
        =~= model::message_views(old(list)@).push(content));
}

pub(crate) fn join_message(list: &mut Vec<ClientMessage>, more: &mut Vec<ClientMessage>)
    ensures
        model::message_views(final(list)@)
            == model::message_views(old(list)@)
            + model::message_views(old(more)@),
        model::message_views(final(more)@) == Seq::<
            MessageView,
        >::empty(),
{
    list.append(more);
    assert(model::message_views(list@)
        =~= model::message_views(old(list)@)
        + model::message_views(old(more)@));
    assert(model::message_views(more@) =~= Seq::empty());
}

pub(crate) fn take_message(list: &mut Vec<ClientMessage>) -> (taken: Vec<ClientMessage>)
    ensures
        model::message_views(taken@) == model::message_views(
            old(list)@,
        ),
        model::message_views(final(list)@) == Seq::<
            MessageView,
        >::empty(),
{
    let mut taken: Vec<ClientMessage> = Vec::new();
    join_message(&mut taken, list);
    assert(model::message_views(taken@)
        =~= model::message_views(old(list)@));
    taken
}

pub(crate) fn take_events(list: &mut Vec<RoutedEvent>) -> (taken: Vec<RoutedEvent>)
    ensures
        taken@ == old(list)@,
        final(list)@ == Seq::<RoutedEvent>::empty(),
{
    let mut taken: Vec<RoutedEvent> = Vec::new();
    taken.append(list);
    assert(taken@ =~= old(list)@);
    assert(list@ =~= Seq::empty());
    taken
}

pub(crate) fn one_event(event: RoutedEvent) -> (events: Vec<RoutedEvent>)
    ensures
        events@ == seq![event],
{
    let mut events: Vec<RoutedEvent> = Vec::new();
    events.push(event);
    assert(events@ =~= seq![event]);
    events
}

pub(crate) fn one_pixel(pixel: PixelEvent) -> (pixels: Vec<PixelEvent>)
    ensures
        pixels@ == seq![pixel],
{
    let mut pixels: Vec<PixelEvent> = Vec::new();
    pixels.push(pixel);
    assert(pixels@ =~= seq![pixel]);
    pixels
}

pub(crate) fn one_message(message: ClientMessage) -> (messages: Vec<ClientMessage>)
    ensures
        model::message_views(messages@) == seq![message@],
{
    let ghost content = message@;
    let mut messages: Vec<ClientMessage> = Vec::new();
    messages.push(message);
    assert(model::message_views(messages@) =~= seq![content]);
    messages
}

pub(crate) fn no_messages() -> (messages: Vec<ClientMessage>)
    ensures
        model::message_views(messages@) == Seq::<
            MessageView,
        >::empty(),
{
    let messages: Vec<ClientMessage> = Vec::new();
    assert(model::message_views(messages@) =~= Seq::empty());
    messages
}

/// The events without the mouse.
pub fn events_without_mouse(events: &Vec<RoutedEvent>) -> (kept: Vec<RoutedEvent>)
    ensures
        kept@ == model::without_mouse(events@),
{
    let mut kept: Vec<RoutedEvent> = Vec::new();
    let mut i: usize = 0;
    proof {
        reveal(Seq::filter);
        assert(events@.take(0) =~= Seq::empty());
    }
    while i < events.len()
        invariant
            i <= events@.len(),
            kept@ == model::without_mouse(events@.take(i as int)),
        decreases events.len() - i,
    {
        proof {
            reveal(Seq::filter);
            assert(events@.take(i + 1).drop_last() =~= events@.take(i as int));
        }
        let event = events[i];
        if !event.is_mouse() {
            kept.push(event);
        }
        i += 1;
    }
    assert(events@.take(i as int) =~= events@);
    kept
}

/// The events that the server knows.
pub fn events_sendable(events: &Vec<RoutedEvent>) -> (kept: Vec<RoutedEvent>)
    ensures
        kept@ == model::sendable(events@),
{
    let mut kept: Vec<RoutedEvent> = Vec::new();
    let mut i: usize = 0;
    proof {
        reveal(Seq::filter);
        assert(events@.take(0) =~= Seq::empty());
    }
    while i < events.len()
        invariant
            i <= events@.len(),
            kept@ == model::sendable(events@.take(i as int)),
        decreases events.len() - i,
    {
        proof {
            reveal(Seq::filter);
            assert(events@.take(i + 1).drop_last() =~= events@.take(i as int));
        }
        let event = events[i];
        if event.sendable {
            kept.push(event);
        }
        i += 1;
    }
    assert(events@.take(i as int) =~= events@);
    kept
}

pub(crate) fn without_press(presses: &Vec<u64>, identity: u64) -> (kept: Vec<u64>)
    ensures
        kept@ == state::press_removed(presses@, identity),
{
    let mut kept: Vec<u64> = Vec::new();
    let mut i: usize = 0;
    proof {
        reveal(Seq::filter);
        assert(presses@.take(0) =~= Seq::empty());
    }
    while i < presses.len()
        invariant
            i <= presses@.len(),
            kept@ == state::press_removed(presses@.take(i as int), identity),
        decreases presses.len() - i,
    {
        proof {
            reveal(Seq::filter);
            assert(presses@.take(i + 1).drop_last() =~= presses@.take(i as int));
        }
        let pressed: u64 = presses[i];
        if pressed != identity {
            kept.push(pressed);
        }
        i += 1;
    }
    assert(presses@.take(i as int) =~= presses@);
    kept
}

pub(crate) fn holds_press(presses: &Vec<u64>, identity: u64) -> (held: bool)
    ensures
        held == presses@.contains(identity),
{
    let mut i: usize = 0;
    while i < presses.len()
        invariant
            i <= presses@.len(),
            forall|j: int| 0 <= j < i ==> presses@[j] != identity,
        decreases presses.len() - i,
    {
        if presses[i] == identity {
            assert(presses@[i as int] == identity);
            return true;
        }
        i += 1;
    }
    false
}

/// How much input some events are.
pub fn client_input_events_usage(events: &Vec<RoutedEvent>) -> (usage: InputUsage)
    ensures
        usage == model::events_usage(events@),
{
    let mut usage = InputUsage { events: 0, payload: 0 };
    let mut i: usize = 0;
    assert(events@.take(0) =~= Seq::empty());
    while i < events.len()
        invariant
            i <= events@.len(),
            usage == model::events_usage(events@.take(i as int)),
        decreases events.len() - i,
    {
        add_input_usage(&mut usage, InputUsage { events: 1, payload: events[i].payload });
        i += 1;
        assert(events@.take(i as int).drop_last() =~= events@.take(i - 1));
    }
    assert(events@.take(i as int) =~= events@);
    usage
}

pub(crate) fn pixels_usage(inputs: &Vec<PixelEvent>) -> (usage: InputUsage)
    ensures
        usage == model::pixels_usage(inputs@),
{
    let mut usage = InputUsage { events: 0, payload: 0 };
    let mut i: usize = 0;
    assert(inputs@.take(0) =~= Seq::empty());
    while i < inputs.len()
        invariant
            i <= inputs@.len(),
            usage == model::pixels_usage(inputs@.take(i as int)),
        decreases inputs.len() - i,
    {
        add_input_usage(&mut usage, InputUsage { events: 1, payload: inputs[i].payload });
        i += 1;
        assert(inputs@.take(i as int).drop_last() =~= inputs@.take(i - 1));
    }
    assert(inputs@.take(i as int) =~= inputs@);
    usage
}

impl DeferredMessage {
    /// How much input it is.
    pub fn input_usage(&self) -> (usage: InputUsage)
        ensures
            usage == self@.usage(),
    {
        match self {
            DeferredMessage::InputEvents { events, .. } => client_input_events_usage(events),
            DeferredMessage::InputPixels { pixel, .. } => InputUsage {
                events: 1,
                payload: pixel.payload,
            },
        }
    }

    /// What is left of it for a generation.
    pub fn retain_for_generation(self, current_generation: u64) -> (kept: Option<DeferredMessage>)
        ensures
            self@.kept(current_generation) == (match kept {
                Some(kept) => Some(kept@),
                None => None,
            }),
    {
        match self {
            DeferredMessage::InputEvents { events, generation } => {
                let left = if generation != current_generation {
                    events_without_mouse(&events)
                } else {
                    events
                };
                if left.len() == 0 {
                    None
                } else {
                    Some(DeferredMessage::InputEvents { events: left, generation })
                }
            },
            DeferredMessage::InputPixels { pixel, generation } => {
                if generation == current_generation {
                    Some(DeferredMessage::InputPixels { pixel, generation })
                } else {
                    None
                }
            },
        }
    }
}

impl LinkInput {
    pub fn generation(&self) -> (generation: u64)
        ensures
            generation == self@.generation(),
    {
        match self {
            LinkInput::Events { generation, .. } => *generation,
            LinkInput::Pixels { generation, .. } => *generation,
        }
    }

    /// How much input it is.
    pub fn input_usage(&self) -> (usage: InputUsage)
        ensures
            usage == self@.usage(),
    {
        match self {
            LinkInput::Events { events, .. } => client_input_events_usage(events),
            LinkInput::Pixels { inputs, .. } => pixels_usage(inputs),
        }
    }

    pub(crate) fn retain_for_generation(self, current_generation: u64) -> (kept: Option<LinkInput>)
        ensures
            self@.kept(current_generation) == (match kept {
                Some(kept) => Some(kept@),
                None => None,
            }),
    {
        match self {
            LinkInput::Events { events, generation } => {
                if generation != current_generation {
                    let left = events_without_mouse(&events);
                    if left.len() == 0 {
                        None
                    } else {
                        Some(LinkInput::Events { events: left, generation })
                    }
                } else {
                    Some(LinkInput::Events { events, generation })
                }
            },
            LinkInput::Pixels { inputs, generation } => {
                if generation == current_generation {
                    Some(LinkInput::Pixels { inputs, generation })
                } else {
                    None
                }
            },
        }
    }

    /// The same input as waiting messages, behind others.
    pub(crate) fn defer_to(self, list: &mut Vec<DeferredMessage>)
        ensures
            model::deferred_views(final(list)@)
                == model::deferred_views(old(list)@) + self@.deferred(),
    {
        let ghost before = model::deferred_views(list@);
        let ghost content = self@;
        match self {
            LinkInput::Events { events, generation } => {
                push_deferred(list, DeferredMessage::InputEvents { events, generation });
                assert(model::deferred_views(list@) =~= before
                    + content.deferred());
            },
            LinkInput::Pixels { inputs, generation } => {
                let ghost all = content.deferred();
                let mut i: usize = 0;
                assert(before + all.take(0) =~= before);
                while i < inputs.len()
                    invariant
                        i <= inputs@.len(),
                        all.len() == inputs@.len(),
                        forall|j: int|
                            0 <= j < all.len() ==> #[trigger] all[j] == (
                            DeferredView::InputPixels {
                                pixel: inputs@[j],
                                generation,
                            }),
                        model::deferred_views(list@) == before + all.take(
                            i as int,
                        ),
                    decreases inputs.len() - i,
                {
                    push_deferred(
                        list,
                        DeferredMessage::InputPixels { pixel: inputs[i], generation },
                    );
                    i += 1;
                    assert(model::deferred_views(list@) =~= before + all.take(
                        i as int,
                    ));
                }
                assert(all.take(i as int) =~= all);
            },
        }
    }
}

pub(crate) fn deferred_usage(list: &Vec<DeferredMessage>) -> (usage: InputUsage)
    ensures
        usage == model::deferred_usage(
            model::deferred_views(list@),
        ),
{
    let mut usage = InputUsage { events: 0, payload: 0 };
    let mut i: usize = 0;
    let ghost all = model::deferred_views(list@);
    assert(all.take(0) =~= Seq::empty());
    while i < list.len()
        invariant
            i <= list@.len(),
            all == model::deferred_views(list@),
            usage == model::deferred_usage(all.take(i as int)),
        decreases list.len() - i,
    {
        add_input_usage(&mut usage, list[i].input_usage());
        i += 1;
        assert(all.take(i as int).drop_last() =~= all.take(i - 1));
    }
    assert(all.take(i as int) =~= all);
    usage
}

pub(crate) fn links_usage(list: &Vec<LinkInput>) -> (usage: InputUsage)
    ensures
        usage == model::links_usage(model::link_views(list@)),
{
    let mut usage = InputUsage { events: 0, payload: 0 };
    let mut i: usize = 0;
    let ghost all = model::link_views(list@);
    assert(all.take(0) =~= Seq::empty());
    while i < list.len()
        invariant
            i <= list@.len(),
            all == model::link_views(list@),
            usage == model::links_usage(all.take(i as int)),
        decreases list.len() - i,
    {
        add_input_usage(&mut usage, list[i].input_usage());
        i += 1;
        assert(all.take(i as int).drop_last() =~= all.take(i - 1));
    }
    assert(all.take(i as int) =~= all);
    usage
}

pub(crate) fn messages_usage(list: &Vec<ClientMessage>) -> (usage: InputUsage)
    ensures
        usage == model::messages_usage(
            model::message_views(list@),
        ),
{
    let mut usage = InputUsage { events: 0, payload: 0 };
    let mut i: usize = 0;
    let ghost all = model::message_views(list@);
    assert(all.take(0) =~= Seq::empty());
    while i < list.len()
        invariant
            i <= list@.len(),
            all == model::message_views(list@),
            usage == model::messages_usage(all.take(i as int)),
        decreases list.len() - i,
    {
        let one = match &list[i] {
            ClientMessage::InputEvents { events } => client_input_events_usage(events),
            ClientMessage::InputPixels { pixel } => InputUsage {
                events: 1,
                payload: pixel.payload,
            },
            _ => InputUsage { events: 0, payload: 0 },
        };
        add_input_usage(&mut usage, one);
        i += 1;
        assert(all.take(i as int).drop_last() =~= all.take(i - 1));
    }
    assert(all.take(i as int) =~= all);
    usage
}

pub(crate) fn kept_deferred(list: &mut Vec<DeferredMessage>, current_generation: u64)
    ensures
        model::deferred_views(final(list)@) == model::all_kept(
            model::deferred_views(old(list)@),
            current_generation,
        ),
{
    let ghost all = model::deferred_views(list@);
    let mut kept: Vec<DeferredMessage> = Vec::new();
    let total: usize = list.len();
    let mut done: usize = 0;
    assert(all.take(0) =~= Seq::empty());
    assert(all.skip(0) =~= all);
    assert(model::deferred_views(kept@) =~= Seq::empty());
    while done < total
        invariant
            done <= total,
            total == all.len(),
            list@.len() == total - done,
            model::deferred_views(list@) == all.skip(done as int),
            model::deferred_views(kept@) == model::all_kept(
                all.take(done as int),
                current_generation,
            ),
        decreases total - done,
    {
        let message = pop_deferred(list);
        proof {
            assert(all.take(done + 1).drop_last() =~= all.take(done as int));
            assert(all.skip(done as int).drop_first() =~= all.skip(done + 1));
            assert(message@ == all[done as int]);
        }
        if let Some(message) = message.retain_for_generation(current_generation) {
            push_deferred(&mut kept, message);
        }
        done += 1;
    }
    assert(all.take(done as int) =~= all);
    *list = kept;
}

pub(crate) fn kept_links(list: &mut Vec<LinkInput>, current_generation: u64) -> (changed: bool)
    ensures
        model::link_views(final(list)@) == model::links_kept(
            model::link_views(old(list)@),
            current_generation,
        ),
        changed == model::links_stale(
            model::link_views(old(list)@),
            current_generation,
        ),
{
    let ghost all = model::link_views(list@);
    let mut kept: Vec<LinkInput> = Vec::new();
    let mut changed = false;
    let total: usize = list.len();
    let mut done: usize = 0;
    assert(all.take(0) =~= Seq::empty());
    assert(all.skip(0) =~= all);
    assert(model::link_views(kept@) =~= Seq::empty());
    while done < total
        invariant
            done <= total,
            total == all.len(),
            list@.len() == total - done,
            model::link_views(list@) == all.skip(done as int),
            model::link_views(kept@) == model::links_kept(
                all.take(done as int),
                current_generation,
            ),
            changed == model::links_stale(
                all.take(done as int),
                current_generation,
            ),
        decreases total - done,
    {
        let ghost before = list@;
        let input = list.remove(0);
        proof {
            assert(all.take(done + 1).drop_last() =~= all.take(done as int));
            assert(model::link_views(list@)
                =~= model::link_views(before).drop_first());
            assert(all.skip(done as int).drop_first() =~= all.skip(done + 1));
            assert(input@ == model::link_views(before)[0]);
            assert(input@ == all[done as int]);
        }
        let stale = input.generation() != current_generation;
        proof {
            let shorter = all.take(done as int);
            let longer = all.take(done + 1);
            assert(longer[done as int] == all[done as int]);
            if changed {
                let j = choose|j: int|
                    0 <= j < shorter.len() && (#[trigger] shorter[j]).generation()
                        != current_generation;
                assert(longer[j] == shorter[j]);
            }
            if model::links_stale(longer, current_generation) && !stale {
                let j = choose|j: int|
                    0 <= j < longer.len() && (#[trigger] longer[j]).generation()
                        != current_generation;
                assert(shorter[j] == longer[j]);
            }
        }
        changed = changed || stale;
        if let Some(input) = input.retain_for_generation(current_generation) {
            push_link(&mut kept, input);
        }
        done += 1;
    }
    assert(all.take(done as int) =~= all);
    *list = kept;
    changed
}

pub(crate) fn deferred_links(list: Vec<LinkInput>, to: &mut Vec<DeferredMessage>)
    ensures
        model::deferred_views(final(to)@)
            == model::deferred_views(old(to)@)
            + model::all_deferred(model::link_views(list@)),
{
    let ghost all = model::link_views(list@);
    let ghost before = model::deferred_views(to@);
    let mut rest = list;
    let total: usize = rest.len();
    let mut done: usize = 0;
    assert(all.take(0) =~= Seq::empty());
    assert(all.skip(0) =~= all);
    assert(before + Seq::<DeferredView>::empty() =~= before);
    while done < total
        invariant
            done <= total,
            total == all.len(),
            rest@.len() == total - done,
            model::link_views(rest@) == all.skip(done as int),
            model::deferred_views(to@) == before
                + model::all_deferred(all.take(done as int)),
        decreases total - done,
    {
        let ghost held = rest@;
        let input = rest.remove(0);
        proof {
            assert(all.take(done + 1).drop_last() =~= all.take(done as int));
            assert(model::link_views(rest@)
                =~= model::link_views(held).drop_first());
            assert(all.skip(done as int).drop_first() =~= all.skip(done + 1));
            assert(input@ == model::link_views(held)[0]);
            assert(input@ == all[done as int]);
        }
        input.defer_to(to);
        done += 1;
        proof {
            let own = all[done - 1].deferred();
            let earlier = model::all_deferred(all.take(done - 1));
            assert(before + earlier + own =~= before + (earlier + own));
        }
    }
    assert(all.take(done as int) =~= all);
}

pub(crate) fn collect_messages(list: &Vec<ClientMessage>, events: &mut Vec<RoutedEvent>)
    ensures
        final(events)@ == old(events)@ + model::message_events(
            model::message_views(list@),
        ),
{
    let ghost all = model::message_views(list@);
    let mut i: usize = 0;
    assert(all.take(0) =~= Seq::empty());
    assert(old(events)@ + Seq::<RoutedEvent>::empty() =~= old(events)@);
    while i < list.len()
        invariant
            i <= list@.len(),
            all == model::message_views(list@),
            events@ == old(events)@ + model::message_events(all.take(i as int)),
        decreases list.len() - i,
    {
        let ghost held = events@;
        if let ClientMessage::InputEvents { events: more } = &list[i] {
            extend_events(events, more);
        }
        i += 1;
        proof {
            assert(all.take(i as int).drop_last() =~= all.take(i - 1));
            assert(all.take(i as int).last() == all[i - 1]);
            assert(events@ =~= old(events)@ + model::message_events(
                all.take(i as int),
            ));
        }
    }
    assert(all.take(i as int) =~= all);
}

pub(crate) fn extend_events(events: &mut Vec<RoutedEvent>, more: &Vec<RoutedEvent>)
    ensures
        final(events)@ == old(events)@ + more@,
{
    let mut i: usize = 0;
    assert(old(events)@ + more@.take(0) =~= old(events)@);
    while i < more.len()
        invariant
            i <= more@.len(),
            events@ == old(events)@ + more@.take(i as int),
        decreases more.len() - i,
    {
        events.push(more[i]);
        i += 1;
        assert(events@ =~= old(events)@ + more@.take(i as int));
    }
    assert(more@.take(i as int) =~= more@);
}

pub(crate) fn collect_deferred(list: &Vec<DeferredMessage>, events: &mut Vec<RoutedEvent>)
    ensures
        final(events)@ == old(events)@ + model::deferred_events(
            model::deferred_views(list@),
        ),
{
    let ghost all = model::deferred_views(list@);
    let mut i: usize = 0;
    assert(all.take(0) =~= Seq::empty());
    assert(old(events)@ + Seq::<RoutedEvent>::empty() =~= old(events)@);
    while i < list.len()
        invariant
            i <= list@.len(),
            all == model::deferred_views(list@),
            events@ == old(events)@ + model::deferred_events(all.take(i as int)),
        decreases list.len() - i,
    {
        if let DeferredMessage::InputEvents { events: more, .. } = &list[i] {
            extend_events(events, more);
        }
        i += 1;
        proof {
            assert(all.take(i as int).drop_last() =~= all.take(i - 1));
            assert(all.take(i as int).last() == all[i - 1]);
            assert(events@ =~= old(events)@ + model::deferred_events(
                all.take(i as int),
            ));
        }
    }
    assert(all.take(i as int) =~= all);
}

pub(crate) fn collect_links(list: &Vec<LinkInput>, events: &mut Vec<RoutedEvent>)
    ensures
        final(events)@ == old(events)@ + model::link_events(
            model::link_views(list@),
        ),
{
    let ghost all = model::link_views(list@);
    let mut i: usize = 0;
    assert(all.take(0) =~= Seq::empty());
    assert(old(events)@ + Seq::<RoutedEvent>::empty() =~= old(events)@);
    while i < list.len()
        invariant
            i <= list@.len(),
            all == model::link_views(list@),
            events@ == old(events)@ + model::link_events(all.take(i as int)),
        decreases list.len() - i,
    {
        if let LinkInput::Events { events: more, .. } = &list[i] {
            extend_events(events, more);
        }
        i += 1;
        proof {
            assert(all.take(i as int).drop_last() =~= all.take(i - 1));
            assert(all.take(i as int).last() == all[i - 1]);
            assert(events@ =~= old(events)@ + model::link_events(
                all.take(i as int),
            ));
        }
    }
    assert(all.take(i as int) =~= all);
}

pub(crate) fn same_cell(left: Option<(u16, u16)>, right: Option<(u16, u16)>) -> (same: bool)
    ensures
        same == (left == right),
{
    match (left, right) {
        (Some(left), Some(right)) => left.0 == right.0 && left.1 == right.1,
        (None, None) => true,
        _ => false,
    }
}

pub open spec fn cells_view(cells: Option<Vec<(u16, u16)>>) -> Option<Seq<(u16, u16)>> {
    match cells {
        Some(cells) => Some(cells@),
        None => None,
    }
}

pub(crate) fn same_cell_list(left: &Vec<(u16, u16)>, right: &Vec<(u16, u16)>) -> (same: bool)
    ensures
        same == (left@ == right@),
{
    if left.len() != right.len() {
        return false;
    }
    let mut i: usize = 0;
    while i < left.len()
        invariant
            i <= left@.len(),
            left@.len() == right@.len(),
            forall|j: int| 0 <= j < i ==> left@[j] == right@[j],
        decreases left.len() - i,
    {
        if left[i].0 != right[i].0 || left[i].1 != right[i].1 {
            assert(left@[i as int] != right@[i as int]);
            return false;
        }
        i += 1;
    }
    assert(left@ =~= right@);
    true
}

pub(crate) fn same_cells(left: &Option<Vec<(u16, u16)>>, right: &Option<Vec<(u16, u16)>>) -> (same: bool)
    ensures
        same == (cells_view(*left) == cells_view(*right)),
{
    match (left, right) {
        (Some(left), Some(right)) => same_cell_list(left, right),
        (None, None) => true,
        _ => false,
    }
}

} // verus!
