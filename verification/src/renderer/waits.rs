//! Typed input is never lost: it waits somewhere until it arrived.
use crate::renderer::model::{self, DeferredView, LinkInputView, MessageView, RoutedEvent};
use crate::renderer::state::{self, RendererView, Task, TurnView};
use vstd::prelude::*;

verus! {

// ---- Where input waits ------------------------------------------------------------------------
/// Text, pasted text and the like: input that belongs to no key, no gesture and no focus.
pub open spec fn ordinary(event: RoutedEvent) -> bool {
    event.sendable && !event.mouse() && !event.key() && !(event.kind is FocusLost)
}

pub open spec fn deferred_holds(message: DeferredView, event: RoutedEvent) -> bool {
    message matches DeferredView::InputEvents { events, .. } && events.contains(event)
}

pub open spec fn in_deferred(messages: Seq<DeferredView>, event: RoutedEvent) -> bool {
    exists|i: int| 0 <= i < messages.len() && #[trigger] deferred_holds(messages[i], event)
}

pub open spec fn link_holds(input: LinkInputView, event: RoutedEvent) -> bool {
    input matches LinkInputView::Events { events, .. } && events.contains(event)
}

pub open spec fn in_links(inputs: Seq<LinkInputView>, event: RoutedEvent) -> bool {
    exists|i: int| 0 <= i < inputs.len() && #[trigger] link_holds(inputs[i], event)
}

pub open spec fn message_holds(message: MessageView, event: RoutedEvent) -> bool {
    message matches MessageView::InputEvents { events } && events.contains(event)
}

pub open spec fn in_messages(messages: Seq<MessageView>, event: RoutedEvent) -> bool {
    exists|i: int| 0 <= i < messages.len() && #[trigger] message_holds(messages[i], event)
}

/// Whether a task is about an event that is on its way.
pub open spec fn carries(task: Task, event: RoutedEvent) -> bool {
    match task {
        Task::Existing(carried)
        | Task::Observe(carried)
        | Task::Clicked(carried)
        | Task::Keyed(carried)
        | Task::PrefixAnswered(carried)
        | Task::Owned(carried)
        | Task::LocalRouted(carried)
        | Task::DeferEvent(carried) => carried == event,
        _ => false,
    }
}

pub open spec fn in_tasks(tasks: Seq<Task>, event: RoutedEvent) -> bool {
    exists|i: int| 0 <= i < tasks.len() && #[trigger] carries(tasks[i], event)
}

pub open spec fn in_turn(turn: TurnView, event: RoutedEvent) -> bool {
    ||| turn.events.contains(event)
    ||| turn.batch.contains(event)
    ||| turn.deferred.contains(event)
    ||| turn.post_send.contains(event)
    ||| in_messages(turn.messages, event)
}

/// Whether an event is still on its way, or in a message that is to be sent.
pub open spec fn waits(view: RendererView, event: RoutedEvent) -> bool {
    ||| in_turn(view.turn, event)
    ||| in_deferred(view.deferred_messages, event)
    ||| in_deferred(view.post_send_input, event)
    ||| in_deferred(view.work, event)
    ||| in_messages(view.outbound_messages, event)
    ||| in_messages(view.result, event)
    ||| in_links(view.queued_link_inputs, event)
    ||| in_links(view.overflow, event)
    ||| view.incoming.contains(event)
    ||| view.replay.contains(event)
    ||| in_tasks(view.tasks, event)
}

/// Whether the renderer's terminal took an event, as the next step will find.
pub open spec fn arrived(view: RendererView, event: RoutedEvent) -> bool {
    view.tasks.len() > 0 && view.local.1 && match view.tasks.last() {
        Task::LocalRouted(sent) => sent == event,
        Task::ReplayRouted(_) => view.replay.len() > 0 && view.replay[0] == event,
        _ => false,
    }
}

// ---- Which tasks stand on which ---------------------------------------------------------------
/// Tasks about one event of a turn.
pub open spec fn turn_task(task: Task) -> bool {
    match task {
        Task::OwnsAnswered(_)
        | Task::Existing(_)
        | Task::PhysicalAnswered(_)
        | Task::SemanticAnswered(_)
        | Task::Observe(_)
        | Task::Clicked(_)
        | Task::FocusReleased { .. }
        | Task::LinkAnswered { .. }
        | Task::Keyed(_)
        | Task::PrefixAnswered(_)
        | Task::Owned(_)
        | Task::LocalRouted(_)
        | Task::DeferEvent(_) => true,
        _ => false,
    }
}

/// Tasks of giving the renderer up, and what they lead to.
pub open spec fn fall_task(task: Task) -> bool {
    match task {
        Task::BeginFallback
        | Task::FailTarget
        | Task::Fallen
        | Task::Handoff
        | Task::HandoffDrawn
        | Task::Retire
        | Task::Retired
        | Task::ForwardReleases(_)
        | Task::Delivered
        | Task::Perform(_) => true,
        _ => false,
    }
}

/// Tasks of giving an event to the renderer's own terminal.
pub open spec fn local_task(task: Task) -> bool {
    match task {
        Task::Local(_)
        | Task::Reserved { .. }
        | Task::ReleasesDone { .. }
        | Task::LocalNavigated(_)
        | Task::SemanticPressed(_)
        | Task::OwnsSemanticAnswered(_)
        | Task::LocalForward(_)
        | Task::LocalSent(_) => true,
        _ => false,
    }
}

/// Other tasks that a turn leads to.
pub open spec fn aside_task(task: Task) -> bool {
    match task {
        Task::PhysicalForwarded(_)
        | Task::Navigated
        | Task::SemanticForwarded(_)
        | Task::PrefixDone
        | Task::Refresh
        | Task::Refreshed
        | Task::Remap
        | Task::Remapped
        | Task::FocusLoss
        | Task::FocusAsked
        | Task::FocusOwned(_)
        | Task::FocusReleases(_)
        | Task::FocusForward(_)
        | Task::FocusSent
        | Task::DeferOverflow => true,
        _ => false,
    }
}

/// Tasks that may stand above a turn.
pub open spec fn mid_task(task: Task) -> bool {
    turn_task(task) || fall_task(task) || local_task(task) || aside_task(task)
}

/// Tasks of replaying a click that was no link.
pub open spec fn replay_task(task: Task) -> bool {
    match task {
        Task::ReplayNext(_) | Task::ReplayRouted(_) | Task::DeferReplay(_) => true,
        _ => false,
    }
}

/// Tasks that may stand above the draining of queued input.
pub open spec fn quiet_task(task: Task) -> bool {
    replay_task(task) || fall_task(task) || local_task(task) || match task {
        Task::ReplayPixel(_)
        | Task::ReplayPixelLocal(_)
        | Task::ReplayPixelSent { .. }
        | Task::DeferReplayPixels(_)
        | Task::Refresh
        | Task::Refreshed => true,
        _ => false,
    }
}

/// Tasks that work through a list.
pub open spec fn worker(task: Task) -> bool {
    match task {
        Task::DrainNext
        | Task::DrainRouted
        | Task::ReleaseNext
        | Task::ReleaseRouted
        | Task::PromoteNext(_)
        | Task::PromoteRouted(_)
        | Task::FlushPosted => true,
        _ => false,
    }
}

/// Tasks that take up a list.
pub open spec fn starter(task: Task) -> bool {
    match task {
        Task::DrainQueued
        | Task::FlushPost
        | Task::ApplyTarget
        | Task::ApplyBinding
        | Task::ApplySurface { .. }
        | Task::ApplyState
        | Task::CancelStale(_) => true,
        _ => false,
    }
}

/// Tasks that take the result of a turn.
pub open spec fn mover(task: Task) -> bool {
    match task {
        Task::DrainRouted
        | Task::ReleaseRouted
        | Task::PromoteRouted(_)
        | Task::ReleasedPending
        | Task::FlushPosted => true,
        _ => false,
    }
}

/// Tasks about a pixel report that may leave a result.
pub open spec fn pixel_task(task: Task) -> bool {
    match task {
        Task::Pixel { .. }
        | Task::PixelLocal { .. }
        | Task::PixelPlaced { .. }
        | Task::PixelLink { .. } => true,
        _ => false,
    }
}

/// Tasks that stand on nothing.
pub open spec fn bottom_task(task: Task) -> bool {
    match task {
        Task::Admit
        | Task::AdmissionTail
        | Task::AdmitPixel { .. }
        | Task::FlushPost
        | Task::FlushPosted => true,
        _ => false,
    }
}

/// What a task is about fits the task.
pub open spec fn fits(task: Task) -> bool {
    match task {
        Task::OwnsAnswered(event)
        | Task::PhysicalAnswered(event)
        | Task::SemanticAnswered(event) => event.key(),
        Task::FocusReleased { event, .. } => event.kind is FocusLost,
        Task::LinkAnswered { event, .. } => event.mouse(),
        _ => true,
    }
}

/// A task directly above another, or above nothing.
pub open spec fn stands_on(lower: Option<Task>, upper: Task) -> bool {
    &&& turn_task(upper) ==> lower == Some(Task::NextEvent)
    &&& (upper is NextEvent || pixel_task(upper)) ==> (lower is None || mover(lower->0))
    &&& bottom_task(upper) ==> lower is None
}

/// A task anywhere above another.
pub open spec fn stands_above(lower: Task, upper: Task) -> bool {
    &&& lower is NextEvent ==> mid_task(upper)
    &&& (worker(upper) || starter(upper)) ==> !worker(lower)
    &&& lower is DeferOverflow ==> fall_task(upper)
    &&& lower is DrainQueued ==> quiet_task(upper)
}

pub open spec fn under(tasks: Seq<Task>, i: int) -> Option<Task> {
    if i <= 0 {
        None
    } else {
        Some(tasks[i - 1])
    }
}

/// The work in progress is well arranged.
#[verifier::opaque]
pub open spec fn arranged(tasks: Seq<Task>) -> bool {
    &&& forall|i: int| 0 <= i < tasks.len() ==> fits(#[trigger] tasks[i])
    &&& forall|i: int| 0 <= i < tasks.len() ==> stands_on(under(tasks, i), #[trigger] tasks[i])
    &&& forall|i: int, j: int|
        0 <= i < j < tasks.len() ==> stands_above(#[trigger] tasks[i], #[trigger] tasks[j])
}

/// What a task may be replaced by: what stood below it still does.
pub open spec fn replaces(old_task: Task, new_task: Task) -> bool {
    &&& fits(new_task)
    &&& mid_task(old_task) ==> mid_task(new_task)
    &&& (worker(new_task) || starter(new_task)) ==> (worker(old_task) || starter(old_task))
    &&& fall_task(old_task) ==> fall_task(new_task)
    &&& quiet_task(old_task) ==> quiet_task(new_task)
}

/// What a task may directly be replaced by.
pub open spec fn replaces_at(old_task: Task, new_task: Task) -> bool {
    &&& turn_task(new_task) ==> turn_task(old_task)
    &&& (new_task is NextEvent || pixel_task(new_task)) ==> (old_task is NextEvent || pixel_task(
        old_task,
    ) || bottom_task(old_task))
    &&& bottom_task(new_task) ==> bottom_task(old_task)
}

/// What a task puts in its place, in order.
#[verifier::opaque]
pub open spec fn follows(old_task: Task, pushed: Seq<Task>) -> bool {
    &&& forall|i: int| 0 <= i < pushed.len() ==> replaces(old_task, #[trigger] pushed[i])
    &&& pushed.len() > 0 ==> replaces_at(old_task, pushed[0])
    &&& forall|i: int| 0 < i < pushed.len() ==> stands_on(under(pushed, i), #[trigger] pushed[i])
    &&& forall|i: int, j: int|
        0 <= i < j < pushed.len() ==> stands_above(#[trigger] pushed[i], #[trigger] pushed[j])
}

/// The same, of a few tasks.
pub open spec fn puts(old_task: Task, pushed: Seq<Task>) -> bool {
    &&& pushed.len() <= 5
    &&& pushed.len() > 0 ==> replaces(old_task, pushed[0]) && replaces_at(old_task, pushed[0])
    &&& pushed.len() > 1 ==> replaces(old_task, pushed[1]) && stands_on(
        Some(pushed[0]),
        pushed[1],
    ) && stands_above(pushed[0], pushed[1])
    &&& pushed.len() > 2 ==> replaces(old_task, pushed[2]) && stands_on(
        Some(pushed[1]),
        pushed[2],
    ) && stands_above(pushed[0], pushed[2]) && stands_above(pushed[1], pushed[2])
    &&& pushed.len() > 3 ==> replaces(old_task, pushed[3]) && stands_on(
        Some(pushed[2]),
        pushed[3],
    ) && stands_above(pushed[0], pushed[3]) && stands_above(pushed[1], pushed[3]) && stands_above(
        pushed[2],
        pushed[3],
    )
    &&& pushed.len() > 4 ==> replaces(old_task, pushed[4]) && stands_on(
        Some(pushed[3]),
        pushed[4],
    ) && stands_above(pushed[0], pushed[4]) && stands_above(pushed[1], pushed[4]) && stands_above(
        pushed[2],
        pushed[4],
    ) && stands_above(pushed[3], pushed[4])
}

pub(crate) proof fn lemma_puts(old_task: Task, pushed: Seq<Task>)
    requires
        puts(old_task, pushed),
    ensures
        follows(old_task, pushed),
{
    reveal(follows);
    assert forall|i: int, j: int| 0 <= i < j < pushed.len() implies stands_above(
        #[trigger] pushed[i],
        #[trigger] pushed[j],
    ) by {
        assert(i == 0 || i == 1 || i == 2 || i == 3);
        assert(j == 1 || j == 2 || j == 3 || j == 4);
    }
    assert forall|i: int| 0 < i < pushed.len() implies stands_on(
        under(pushed, i),
        #[trigger] pushed[i],
    ) by {
        assert(i == 1 || i == 2 || i == 3 || i == 4);
    }
    assert forall|i: int| 0 <= i < pushed.len() implies replaces(
        old_task,
        #[trigger] pushed[i],
    ) by {
        assert(i == 0 || i == 1 || i == 2 || i == 3 || i == 4);
    }
}

pub(crate) proof fn lemma_arranged(base: Seq<Task>, old_task: Task, pushed: Seq<Task>)
    requires
        arranged(base.push(old_task)),
        follows(old_task, pushed),
    ensures
        arranged(base + pushed),
{
    reveal(arranged);
    reveal(follows);
    let before = base.push(old_task);
    let after = base + pushed;
    let n = base.len() as int;
    assert(before[n] == old_task);
    assert forall|i: int| 0 <= i < after.len() implies fits(#[trigger] after[i]) by {
        if i < n {
            assert(before[i] == after[i]);
        } else {
            assert(after[i] == pushed[i - n]);
        }
    }
    assert forall|i: int| 0 <= i < after.len() implies stands_on(
        under(after, i),
        #[trigger] after[i],
    ) by {
        if i < n {
            assert(before[i] == after[i]);
            assert(under(before, i) == under(after, i));
        } else {
            assert(after[i] == pushed[i - n]);
            if i == n {
                assert(stands_on(under(before, n), before[n]));
                assert(under(before, n) == under(after, n));
            } else {
                assert(under(after, i) == under(pushed, i - n));
            }
        }
    }
    assert forall|i: int, j: int| 0 <= i < j < after.len() implies stands_above(
        #[trigger] after[i],
        #[trigger] after[j],
    ) by {
        if j < n {
            assert(before[i] == after[i] && before[j] == after[j]);
        } else if i < n {
            assert(before[i] == after[i]);
            assert(after[j] == pushed[j - n]);
            assert(stands_above(before[i], before[n]));
        } else {
            assert(after[i] == pushed[i - n] && after[j] == pushed[j - n]);
        }
    }
}

// ---- What the lists hold while there is work --------------------------------------------------
/// What a task answers for.
pub enum Charge {
    Turn,
    Work,
    Incoming,
    Overflow,
    Replay,
    Queue,
}

pub open spec fn in_charge(task: Task, charge: Charge) -> bool {
    match charge {
        Charge::Turn => task is NextEvent,
        Charge::Work => worker(task),
        Charge::Incoming => task is Admit || task is AdmissionTail,
        Charge::Overflow => task is DeferOverflow,
        Charge::Replay => replay_task(task),
        Charge::Queue => task is DrainQueued,
    }
}

/// Whether some task answers for a list.
pub open spec fn charged(tasks: Seq<Task>, charge: Charge) -> bool {
    exists|i: int| 0 <= i < tasks.len() && #[trigger] in_charge(tasks[i], charge)
}

pub open spec fn turn_empty(turn: TurnView) -> bool {
    &&& turn.events.len() == 0
    &&& turn.messages.len() == 0
    &&& turn.batch.len() == 0
    &&& turn.deferred.len() == 0
    &&& turn.post_send.len() == 0
}

/// Every list that is not empty has a task that answers for it; and what belongs to a click
/// on a link is of the mouse.
pub open spec fn accounted(view: RendererView) -> bool {
    &&& charged(view.tasks, Charge::Turn) || turn_empty(view.turn)
    &&& charged(view.tasks, Charge::Work) || view.work.len() == 0
    &&& charged(view.tasks, Charge::Incoming) || view.incoming.len() == 0
    &&& charged(view.tasks, Charge::Overflow) || view.overflow.len() == 0
    &&& charged(view.tasks, Charge::Replay) || view.replay.len() == 0
    &&& charged(view.tasks, Charge::Queue) || view.pending_link_request_id is Some
        || view.queued_link_inputs.len() == 0
    &&& view.result.len() == 0 || view.tasks.len() == 0 || mover(view.tasks.last())
    &&& view.local.0 ==> view.local.1
    &&& mouse_only(view.pending_link_input)
}

pub open spec fn mouse_only(input: Option<LinkInputView>) -> bool {
    input matches Some(LinkInputView::Events { events, .. }) ==> forall|i: int|
        0 <= i < events.len() ==> (#[trigger] events[i]).mouse()
}

/// A state in which every event on its way is accounted for.
pub open spec fn sound(view: RendererView) -> bool {
    arranged(view.tasks) && accounted(view)
}

// ---- Lists ------------------------------------------------------------------------------------

pub(crate) proof fn lemma_deferred_push(
    items: Seq<DeferredView>,
    item: DeferredView,
    event: RoutedEvent,
)
    ensures
        in_deferred(items.push(item), event) == (in_deferred(items, event) || deferred_holds(item, event)),
{
    let longer = items.push(item);
    if in_deferred(items, event) {
        let i = choose|i: int| 0 <= i < items.len() && #[trigger] deferred_holds(items[i], event);
        assert(deferred_holds(longer[i], event));
    }
    if deferred_holds(item, event) {
        assert(deferred_holds(longer[items.len() as int], event));
    }
    if in_deferred(longer, event) {
        let i = choose|i: int| 0 <= i < longer.len() && #[trigger] deferred_holds(longer[i], event);
        if i < items.len() {
            assert(deferred_holds(items[i], event));
        }
    }
}

pub(crate) proof fn lemma_deferred_add(
    left: Seq<DeferredView>,
    right: Seq<DeferredView>,
    event: RoutedEvent,
)
    ensures
        in_deferred(left + right, event) == (in_deferred(left, event) || in_deferred(right, event)),
{
    let both = left + right;
    if in_deferred(left, event) {
        let i = choose|i: int| 0 <= i < left.len() && #[trigger] deferred_holds(left[i], event);
        assert(deferred_holds(both[i], event));
    }
    if in_deferred(right, event) {
        let i = choose|i: int| 0 <= i < right.len() && #[trigger] deferred_holds(right[i], event);
        assert(deferred_holds(both[left.len() + i], event));
    }
    if in_deferred(both, event) {
        let i = choose|i: int| 0 <= i < both.len() && #[trigger] deferred_holds(both[i], event);
        if i < left.len() {
            assert(deferred_holds(left[i], event));
        } else {
            assert(deferred_holds(right[i - left.len()], event));
        }
    }
}

pub(crate) proof fn lemma_links_push(
    items: Seq<LinkInputView>,
    item: LinkInputView,
    event: RoutedEvent,
)
    ensures
        in_links(items.push(item), event) == (in_links(items, event) || link_holds(item, event)),
{
    let longer = items.push(item);
    if in_links(items, event) {
        let i = choose|i: int| 0 <= i < items.len() && #[trigger] link_holds(items[i], event);
        assert(link_holds(longer[i], event));
    }
    if link_holds(item, event) {
        assert(link_holds(longer[items.len() as int], event));
    }
    if in_links(longer, event) {
        let i = choose|i: int| 0 <= i < longer.len() && #[trigger] link_holds(longer[i], event);
        if i < items.len() {
            assert(link_holds(items[i], event));
        }
    }
}

pub(crate) proof fn lemma_links_add(
    left: Seq<LinkInputView>,
    right: Seq<LinkInputView>,
    event: RoutedEvent,
)
    ensures
        in_links(left + right, event) == (in_links(left, event) || in_links(right, event)),
{
    let both = left + right;
    if in_links(left, event) {
        let i = choose|i: int| 0 <= i < left.len() && #[trigger] link_holds(left[i], event);
        assert(link_holds(both[i], event));
    }
    if in_links(right, event) {
        let i = choose|i: int| 0 <= i < right.len() && #[trigger] link_holds(right[i], event);
        assert(link_holds(both[left.len() + i], event));
    }
    if in_links(both, event) {
        let i = choose|i: int| 0 <= i < both.len() && #[trigger] link_holds(both[i], event);
        if i < left.len() {
            assert(link_holds(left[i], event));
        } else {
            assert(link_holds(right[i - left.len()], event));
        }
    }
}

pub(crate) proof fn lemma_messages_push(
    items: Seq<MessageView>,
    item: MessageView,
    event: RoutedEvent,
)
    ensures
        in_messages(items.push(item), event) == (in_messages(items, event) || message_holds(item, event)),
{
    let longer = items.push(item);
    if in_messages(items, event) {
        let i = choose|i: int| 0 <= i < items.len() && #[trigger] message_holds(items[i], event);
        assert(message_holds(longer[i], event));
    }
    if message_holds(item, event) {
        assert(message_holds(longer[items.len() as int], event));
    }
    if in_messages(longer, event) {
        let i = choose|i: int| 0 <= i < longer.len() && #[trigger] message_holds(longer[i], event);
        if i < items.len() {
            assert(message_holds(items[i], event));
        }
    }
}

pub(crate) proof fn lemma_messages_add(
    left: Seq<MessageView>,
    right: Seq<MessageView>,
    event: RoutedEvent,
)
    ensures
        in_messages(left + right, event) == (in_messages(left, event) || in_messages(right, event)),
{
    let both = left + right;
    if in_messages(left, event) {
        let i = choose|i: int| 0 <= i < left.len() && #[trigger] message_holds(left[i], event);
        assert(message_holds(both[i], event));
    }
    if in_messages(right, event) {
        let i = choose|i: int| 0 <= i < right.len() && #[trigger] message_holds(right[i], event);
        assert(message_holds(both[left.len() + i], event));
    }
    if in_messages(both, event) {
        let i = choose|i: int| 0 <= i < both.len() && #[trigger] message_holds(both[i], event);
        if i < left.len() {
            assert(message_holds(left[i], event));
        } else {
            assert(message_holds(right[i - left.len()], event));
        }
    }
}

pub(crate) proof fn lemma_deferred_first(items: Seq<DeferredView>, event: RoutedEvent)
    requires
        items.len() > 0,
    ensures
        in_deferred(items, event) == (deferred_holds(items[0], event) || in_deferred(
            items.drop_first(),
            event,
        )),
{
    let one = seq![items[0]];
    assert(items =~= one + items.drop_first());
    lemma_deferred_add(one, items.drop_first(), event);
    if deferred_holds(items[0], event) {
        assert(deferred_holds(one[0], event));
    }
    if in_deferred(one, event) {
        let i = choose|i: int| 0 <= i < one.len() && #[trigger] deferred_holds(one[i], event);
        assert(one[i] == items[0]);
    }
}

pub(crate) proof fn lemma_pushed_contains(
    events: Seq<RoutedEvent>,
    last: RoutedEvent,
    event: RoutedEvent,
)
    ensures
        events.push(last).contains(event) == (events.contains(event) || last == event),
{
    let longer = events.push(last);
    if events.contains(event) {
        let i = choose|i: int| 0 <= i < events.len() && events[i] == event;
        assert(longer[i] == event);
    }
    if last == event {
        assert(longer[events.len() as int] == event);
    }
    if longer.contains(event) {
        let i = choose|i: int| 0 <= i < longer.len() && longer[i] == event;
        if i < events.len() {
            assert(events[i] == event);
        }
    }
}

pub(crate) proof fn lemma_added_contains(
    left: Seq<RoutedEvent>,
    right: Seq<RoutedEvent>,
    event: RoutedEvent,
)
    ensures
        (left + right).contains(event) == (left.contains(event) || right.contains(event)),
{
    let both = left + right;
    if left.contains(event) {
        let i = choose|i: int| 0 <= i < left.len() && left[i] == event;
        assert(both[i] == event);
    }
    if right.contains(event) {
        let i = choose|i: int| 0 <= i < right.len() && right[i] == event;
        assert(both[left.len() + i] == event);
    }
    if both.contains(event) {
        let i = choose|i: int| 0 <= i < both.len() && both[i] == event;
        if i < left.len() {
            assert(left[i] == event);
        } else {
            assert(right[i - left.len()] == event);
        }
    }
}

pub(crate) proof fn lemma_first_contains(events: Seq<RoutedEvent>, event: RoutedEvent)
    requires
        events.len() > 0,
    ensures
        events.contains(event) == (events[0] == event || events.drop_first().contains(event)),
{
    if events.contains(event) {
        let i = choose|i: int| 0 <= i < events.len() && events[i] == event;
        if i > 0 {
            assert(events.drop_first()[i - 1] == event);
        }
    }
    if events.drop_first().contains(event) {
        let i = choose|i: int|
            0 <= i < events.drop_first().len() && events.drop_first()[i] == event;
        assert(events[i + 1] == event);
    }
}

pub(crate) proof fn lemma_without_mouse_contains(events: Seq<RoutedEvent>, event: RoutedEvent)
    requires
        events.contains(event),
        !event.mouse(),
    ensures
        model::without_mouse(events).contains(event),
    decreases events.len(),
{
    reveal(Seq::filter);
    let i = choose|i: int| 0 <= i < events.len() && events[i] == event;
    let rest = events.drop_last();
    if i < rest.len() {
        assert(rest[i] == event);
        lemma_without_mouse_contains(rest, event);
        lemma_pushed_contains(model::without_mouse(rest), events.last(), event);
    } else {
        lemma_pushed_contains(model::without_mouse(rest), events.last(), event);
    }
}

pub(crate) proof fn lemma_sendable_contains(events: Seq<RoutedEvent>, event: RoutedEvent)
    requires
        events.contains(event),
        event.sendable,
    ensures
        model::sendable(events).contains(event),
    decreases events.len(),
{
    reveal(Seq::filter);
    let i = choose|i: int| 0 <= i < events.len() && events[i] == event;
    let rest = events.drop_last();
    if i < rest.len() {
        assert(rest[i] == event);
        lemma_sendable_contains(rest, event);
        lemma_pushed_contains(model::sendable(rest), events.last(), event);
    } else {
        lemma_pushed_contains(model::sendable(rest), events.last(), event);
    }
}

pub(crate) proof fn lemma_deferred_events_contain(items: Seq<DeferredView>, event: RoutedEvent)
    requires
        in_deferred(items, event),
    ensures
        model::deferred_events(items).contains(event),
    decreases items.len(),
{
    if items.len() > 0 {
        let rest = items.drop_last();
        assert(items =~= rest.push(items.last()));
        lemma_deferred_push(rest, items.last(), event);
        let last = match items.last() {
            DeferredView::InputEvents { events, .. } => events,
            DeferredView::InputPixels { .. } => Seq::empty(),
        };
        lemma_added_contains(model::deferred_events(rest), last, event);
        if in_deferred(rest, event) {
            lemma_deferred_events_contain(rest, event);
        }
    }
}

pub(crate) proof fn lemma_link_events_contain(items: Seq<LinkInputView>, event: RoutedEvent)
    requires
        in_links(items, event),
    ensures
        model::link_events(items).contains(event),
    decreases items.len(),
{
    if items.len() > 0 {
        let rest = items.drop_last();
        assert(items =~= rest.push(items.last()));
        lemma_links_push(rest, items.last(), event);
        let last = match items.last() {
            LinkInputView::Events { events, .. } => events,
            LinkInputView::Pixels { .. } => Seq::empty(),
        };
        lemma_added_contains(model::link_events(rest), last, event);
        if in_links(rest, event) {
            lemma_link_events_contain(rest, event);
        }
    }
}

pub(crate) proof fn lemma_message_events_contain(items: Seq<MessageView>, event: RoutedEvent)
    requires
        in_messages(items, event),
    ensures
        model::message_events(items).contains(event),
    decreases items.len(),
{
    if items.len() > 0 {
        let rest = items.drop_last();
        assert(items =~= rest.push(items.last()));
        lemma_messages_push(rest, items.last(), event);
        let last = match items.last() {
            MessageView::InputEvents { events } => events,
            _ => Seq::empty(),
        };
        lemma_added_contains(model::message_events(rest), last, event);
        if in_messages(rest, event) {
            lemma_message_events_contain(rest, event);
        }
    }
}

/// Mouse input of another generation is void; everything else still waits.
pub(crate) proof fn lemma_deferred_kept(items: Seq<DeferredView>, current: u64, event: RoutedEvent)
    requires
        in_deferred(items, event),
        !event.mouse(),
    ensures
        in_deferred(model::all_kept(items, current), event),
    decreases items.len(),
{
    if items.len() > 0 {
        let rest = items.drop_last();
        let last = items.last();
        assert(items =~= rest.push(last));
        lemma_deferred_push(rest, last, event);
        let kept = model::all_kept(rest, current);
        if in_deferred(rest, event) {
            lemma_deferred_kept(rest, current, event);
            if let Some(left) = last.kept(current) {
                lemma_deferred_push(kept, left, event);
            }
        } else {
            if let DeferredView::InputEvents { events, generation } = last {
                if generation != current {
                    lemma_without_mouse_contains(events, event);
                }
                let left = last.kept(current)->0;
                assert(deferred_holds(left, event));
                lemma_deferred_push(kept, left, event);
            }
        }
    }
}

pub(crate) proof fn lemma_links_kept(items: Seq<LinkInputView>, current: u64, event: RoutedEvent)
    requires
        in_links(items, event),
        !event.mouse(),
    ensures
        in_links(model::links_kept(items, current), event),
    decreases items.len(),
{
    if items.len() > 0 {
        let rest = items.drop_last();
        let last = items.last();
        assert(items =~= rest.push(last));
        lemma_links_push(rest, last, event);
        let kept = model::links_kept(rest, current);
        if in_links(rest, event) {
            lemma_links_kept(rest, current, event);
            if let Some(left) = last.kept(current) {
                lemma_links_push(kept, left, event);
            }
        } else {
            if let LinkInputView::Events { events, generation } = last {
                if generation != current {
                    lemma_without_mouse_contains(events, event);
                }
                let left = last.kept(current)->0;
                assert(link_holds(left, event));
                lemma_links_push(kept, left, event);
            }
        }
    }
}

pub(crate) proof fn lemma_all_deferred_holds(items: Seq<LinkInputView>, event: RoutedEvent)
    requires
        in_links(items, event),
    ensures
        in_deferred(model::all_deferred(items), event),
    decreases items.len(),
{
    if items.len() > 0 {
        let rest = items.drop_last();
        let last = items.last();
        assert(items =~= rest.push(last));
        lemma_links_push(rest, last, event);
        lemma_deferred_add(model::all_deferred(rest), last.deferred(), event);
        if in_links(rest, event) {
            lemma_all_deferred_holds(rest, event);
        } else {
            assert(deferred_holds(last.deferred()[0], event));
        }
    }
}

// ---- Tasks ------------------------------------------------------------------------------------
pub(crate) proof fn lemma_charged(
    base: Seq<Task>,
    old_task: Task,
    pushed: Seq<Task>,
    charge: Charge,
)
    requires
        charged(base.push(old_task), charge),
        !in_charge(old_task, charge) || charged(pushed, charge),
    ensures
        charged(base + pushed, charge),
{
    let before = base.push(old_task);
    let after = base + pushed;
    if charged(pushed, charge) {
        let i = choose|i: int| 0 <= i < pushed.len() && #[trigger] in_charge(pushed[i], charge);
        assert(in_charge(after[base.len() + i], charge));
    } else {
        let i = choose|i: int| 0 <= i < before.len() && #[trigger] in_charge(before[i], charge);
        if i < base.len() {
            assert(in_charge(after[i], charge));
        }
    }
}

pub(crate) proof fn lemma_carried(
    base: Seq<Task>,
    old_task: Task,
    pushed: Seq<Task>,
    event: RoutedEvent,
)
    ensures
        in_tasks(base.push(old_task), event) == (in_tasks(base, event) || carries(old_task, event)),
        in_tasks(base + pushed, event) == (in_tasks(base, event) || in_tasks(pushed, event)),
{
    let before = base.push(old_task);
    let after = base + pushed;
    if in_tasks(base, event) {
        let i = choose|i: int| 0 <= i < base.len() && #[trigger] carries(base[i], event);
        assert(carries(before[i], event));
        assert(carries(after[i], event));
    }
    if carries(old_task, event) {
        assert(carries(before[base.len() as int], event));
    }
    if in_tasks(pushed, event) {
        let i = choose|i: int| 0 <= i < pushed.len() && #[trigger] carries(pushed[i], event);
        assert(carries(after[base.len() + i], event));
    }
    if in_tasks(before, event) {
        let i = choose|i: int| 0 <= i < before.len() && #[trigger] carries(before[i], event);
        if i < base.len() {
            assert(carries(base[i], event));
        }
    }
    if in_tasks(after, event) {
        let i = choose|i: int| 0 <= i < after.len() && #[trigger] carries(after[i], event);
        if i < base.len() {
            assert(carries(base[i], event));
        } else {
            assert(carries(pushed[i - base.len()], event));
        }
    }
}

} // verus!
