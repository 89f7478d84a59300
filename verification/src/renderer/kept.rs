//! Every step keeps what waits.
use crate::renderer::model::{self, RoutedEvent};
use crate::renderer::state::{self, RendererView, Task};
use crate::renderer::waits::{self, Charge};
use crate::renderer::frame::FrameView;
use vstd::prelude::*;

verus! {

/// The work below the topmost task.
pub open spec fn base(view: RendererView) -> Seq<Task> {
    view.tasks.drop_last()
}

/// The state in which the topmost task is performed.
pub open spec fn popped(view: RendererView) -> RendererView {
    RendererView { tasks: base(view), ..view }
}

/// What a step put above the rest of the work.
pub open spec fn pushed(view: RendererView, next: RendererView) -> Seq<Task> {
    next.tasks.skip(base(view).len() as int)
}

/// A step leaves the rest of the work as it is, and puts fitting tasks above it.
pub open spec fn builds_on(view: RendererView, next: RendererView) -> bool {
    &&& next.tasks.len() >= base(view).len()
    &&& next.tasks.take(base(view).len() as int) =~= base(view)
    &&& waits::puts(view.tasks.last(), pushed(view, next))
}

/// What a step that builds on the rest of the work keeps.
pub(crate) proof fn lemma_frame(view: RendererView, next: RendererView, event: RoutedEvent)
    requires
        waits::arranged(view.tasks),
        view.tasks.len() > 0,
        builds_on(view, next),
    ensures
        waits::arranged(next.tasks),
        forall|charge: Charge|
            #[trigger] waits::charged(view.tasks, charge) && (!waits::in_charge(
                view.tasks.last(),
                charge,
            ) || waits::charged(pushed(view, next), charge)) ==> waits::charged(next.tasks, charge),
        waits::in_tasks(view.tasks, event) ==> waits::in_tasks(next.tasks, event) || waits::carries(
            view.tasks.last(),
            event,
        ),
        waits::in_tasks(pushed(view, next), event) ==> waits::in_tasks(next.tasks, event),
{
    let below = base(view);
    let task = view.tasks.last();
    let above = pushed(view, next);
    assert(view.tasks =~= below.push(task));
    assert(next.tasks =~= below + above);
    waits::lemma_puts(task, above);
    waits::lemma_arranged(below, task, above);
    waits::lemma_carried(below, task, above, event);
    assert forall|charge: Charge|
        #[trigger] waits::charged(view.tasks, charge) && (!waits::in_charge(task, charge)
            || waits::charged(above, charge)) implies waits::charged(next.tasks, charge) by {
        waits::lemma_charged(below, task, above, charge);
    }
}

/// A task that no list depends on.
pub open spec fn free_task(task: Task) -> bool {
    &&& !(task is NextEvent) && !waits::worker(task) && !waits::mover(task)
    &&& !(task is Admit) && !(task is AdmissionTail) && !(task is DeferOverflow)
    &&& !waits::replay_task(task) && !(task is DrainQueued)
}

/// The lists are the same.
pub open spec fn same_lists(view: RendererView, next: RendererView) -> bool {
    &&& next.turn == view.turn
    &&& next.work == view.work
    &&& next.result == view.result
    &&& next.incoming == view.incoming
    &&& next.overflow == view.overflow
    &&& next.replay == view.replay
    &&& next.pending_link_request_id == view.pending_link_request_id
    &&& next.pending_link_input == view.pending_link_input
    &&& next.queued_link_inputs == view.queued_link_inputs
    &&& next.deferred_messages == view.deferred_messages
    &&& next.post_send_input == view.post_send_input
    &&& next.outbound_messages == view.outbound_messages
}

/// A step that leaves the lists alone.
pub(crate) proof fn lemma_mild(view: RendererView, next: RendererView, event: RoutedEvent)
    requires
        waits::sound(view),
        view.tasks.len() > 0,
        builds_on(view, next),
        free_task(view.tasks.last()),
        same_lists(view, next),
        next.local.0 ==> next.local.1,
        waits::carries(view.tasks.last(), event) ==> waits::in_tasks(pushed(view, next), event),
    ensures
        waits::sound(next),
        waits::waits(view, event) ==> waits::waits(next, event),
{
    lemma_frame(view, next, event);
}

/// What a step keeps.
pub open spec fn keeps(view: RendererView, next: RendererView, event: RoutedEvent) -> bool {
    waits::sound(next) && (waits::waits(view, event) ==> waits::waits(next, event))
}

pub(crate) proof fn lemma_begin_fallback(view: RendererView, event: RoutedEvent)
    requires
        waits::sound(view),
        waits::ordinary(event),
        view.tasks.len() > 0,
        view.tasks.last() is BeginFallback,
    ensures
        keeps(view, popped(view).begin_fallback(), event),
{
    lemma_mild(view, popped(view).begin_fallback(), event);
}

pub(crate) proof fn lemma_fail_target(view: RendererView, event: RoutedEvent)
    requires
        waits::sound(view),
        waits::ordinary(event),
        view.tasks.len() > 0,
        view.tasks.last() is FailTarget,
    ensures
        keeps(view, popped(view).fail_target(), event),
{
    lemma_mild(view, popped(view).fail_target(), event);
}

pub(crate) proof fn lemma_fallen(view: RendererView, event: RoutedEvent)
    requires
        waits::sound(view),
        waits::ordinary(event),
        view.tasks.len() > 0,
        view.tasks.last() is Fallen,
    ensures
        keeps(view, popped(view).fallen(), event),
{
    lemma_mild(view, popped(view).fallen(), event);
}

pub(crate) proof fn lemma_handoff(view: RendererView, event: RoutedEvent)
    requires
        waits::sound(view),
        waits::ordinary(event),
        view.tasks.len() > 0,
        view.tasks.last() is Handoff,
    ensures
        keeps(view, popped(view).handoff().0, event),
{
    lemma_mild(view, popped(view).handoff().0, event);
}

pub(crate) proof fn lemma_handoff_drawn(
    view: RendererView,
    frame: Option<FrameView>,
    event: RoutedEvent,
)
    requires
        waits::sound(view),
        waits::ordinary(event),
        view.tasks.len() > 0,
        view.tasks.last() is HandoffDrawn,
    ensures
        keeps(view, popped(view).handoff_drawn(frame), event),
{
    lemma_mild(view, popped(view).handoff_drawn(frame), event);
}

pub(crate) proof fn lemma_retire(view: RendererView, event: RoutedEvent)
    requires
        waits::sound(view),
        waits::ordinary(event),
        view.tasks.len() > 0,
        view.tasks.last() is Retire,
    ensures
        keeps(view, popped(view).ask(model::Ask::RetireOwner, Task::Retired).0, event),
{
    lemma_mild(view, popped(view).ask(model::Ask::RetireOwner, Task::Retired).0, event);
}

pub(crate) proof fn lemma_retired(view: RendererView, count: usize, event: RoutedEvent)
    requires
        waits::sound(view),
        waits::ordinary(event),
        view.tasks.len() > 0,
        view.tasks.last() is Retired,
    ensures
        keeps(view, popped(view).put(Task::ForwardReleases(count)), event),
{
    lemma_mild(view, popped(view).put(Task::ForwardReleases(count)), event);
}

pub(crate) proof fn lemma_forward_releases(view: RendererView, count: usize, event: RoutedEvent)
    requires
        waits::sound(view),
        waits::ordinary(event),
        view.tasks.len() > 0,
        view.tasks.last() is ForwardReleases,
    ensures
        keeps(view, popped(view).forward_releases(count).0, event),
{
    lemma_mild(view, popped(view).forward_releases(count).0, event);
}

pub(crate) proof fn lemma_local_event(view: RendererView, item: RoutedEvent, event: RoutedEvent)
    requires
        waits::sound(view),
        waits::ordinary(event),
        view.tasks.len() > 0,
        view.tasks.last() is Local,
    ensures
        keeps(view, popped(view).local_event(item).0, event),
{
    lemma_mild(view, popped(view).local_event(item).0, event);
}

pub(crate) proof fn lemma_reserved(
    view: RendererView,
    item: RoutedEvent,
    navigate: bool,
    releases: Option<usize>,
    event: RoutedEvent,
)
    requires
        waits::sound(view),
        waits::ordinary(event),
        view.tasks.len() > 0,
        view.tasks.last() is Reserved,
    ensures
        keeps(view, popped(view).reserved(item, navigate, releases), event),
{
    lemma_mild(view, popped(view).reserved(item, navigate, releases), event);
}

pub(crate) proof fn lemma_releases_done(
    view: RendererView,
    item: RoutedEvent,
    navigate: bool,
    event: RoutedEvent,
)
    requires
        waits::sound(view),
        waits::ordinary(event),
        view.tasks.len() > 0,
        view.tasks.last() is ReleasesDone,
    ensures
        keeps(view, popped(view).releases_done(item, navigate).0, event),
{
    lemma_mild(view, popped(view).releases_done(item, navigate).0, event);
}

pub(crate) proof fn lemma_local_navigated(
    view: RendererView,
    item: RoutedEvent,
    navigated: bool,
    event: RoutedEvent,
)
    requires
        waits::sound(view),
        waits::ordinary(event),
        view.tasks.len() > 0,
        view.tasks.last() is LocalNavigated,
    ensures
        keeps(view, popped(view).local_navigated(item, navigated), event),
{
    lemma_mild(view, popped(view).local_navigated(item, navigated), event);
}

pub(crate) proof fn lemma_semantic_pressed(
    view: RendererView,
    item: RoutedEvent,
    route: Option<model::SemanticRoute>,
    event: RoutedEvent,
)
    requires
        waits::sound(view),
        waits::ordinary(event),
        view.tasks.len() > 0,
        view.tasks.last() is SemanticPressed,
    ensures
        keeps(view, popped(view).semantic_pressed(item, route).0, event),
{
    lemma_mild(view, popped(view).semantic_pressed(item, route).0, event);
}

pub(crate) proof fn lemma_owns_semantic_answered(
    view: RendererView,
    item: RoutedEvent,
    owns: bool,
    event: RoutedEvent,
)
    requires
        waits::sound(view),
        waits::ordinary(event),
        view.tasks.len() > 0,
        view.tasks.last() is OwnsSemanticAnswered,
    ensures
        keeps(view, popped(view).owns_semantic_answered(item, owns).0, event),
{
    lemma_mild(view, popped(view).owns_semantic_answered(item, owns).0, event);
}

pub(crate) proof fn lemma_local_forward(view: RendererView, item: RoutedEvent, event: RoutedEvent)
    requires
        waits::sound(view),
        waits::ordinary(event),
        view.tasks.len() > 0,
        view.tasks.last() is LocalForward,
    ensures
        keeps(view, popped(view).local_forward(item).0, event),
{
    lemma_mild(view, popped(view).local_forward(item).0, event);
}

pub(crate) proof fn lemma_local_sent(
    view: RendererView,
    item: RoutedEvent,
    sent: bool,
    event: RoutedEvent,
)
    requires
        waits::sound(view),
        waits::ordinary(event),
        view.tasks.len() > 0,
        view.tasks.last() is LocalSent,
    ensures
        keeps(view, popped(view).local_sent(item, sent), event),
{
    lemma_mild(view, popped(view).local_sent(item, sent), event);
}

pub(crate) proof fn lemma_physical_forwarded(
    view: RendererView,
    item: RoutedEvent,
    sent: bool,
    event: RoutedEvent,
)
    requires
        waits::sound(view),
        waits::ordinary(event),
        view.tasks.len() > 0,
        view.tasks.last() is PhysicalForwarded,
    ensures
        keeps(view, popped(view).physical_forwarded(item, sent), event),
{
    lemma_mild(view, popped(view).physical_forwarded(item, sent), event);
}

pub(crate) proof fn lemma_semantic_forwarded(
    view: RendererView,
    item: RoutedEvent,
    sent: bool,
    event: RoutedEvent,
)
    requires
        waits::sound(view),
        waits::ordinary(event),
        view.tasks.len() > 0,
        view.tasks.last() is SemanticForwarded,
    ensures
        keeps(view, popped(view).semantic_forwarded(item, sent), event),
{
    lemma_mild(view, popped(view).semantic_forwarded(item, sent), event);
}

pub(crate) proof fn lemma_navigated(view: RendererView, navigated: bool, event: RoutedEvent)
    requires
        waits::sound(view),
        waits::ordinary(event),
        view.tasks.len() > 0,
        view.tasks.last() is Navigated,
    ensures
        keeps(view, popped(view).moved(navigated), event),
{
    lemma_mild(view, popped(view).moved(navigated), event);
}

pub(crate) proof fn lemma_prefix_done(view: RendererView, event: RoutedEvent)
    requires
        waits::sound(view),
        waits::ordinary(event),
        view.tasks.len() > 0,
        view.tasks.last() is PrefixDone,
    ensures
        keeps(view, popped(view).prefix_done(), event),
{
    lemma_mild(view, popped(view).prefix_done(), event);
}

pub(crate) proof fn lemma_refresh(view: RendererView, event: RoutedEvent)
    requires
        waits::sound(view),
        waits::ordinary(event),
        view.tasks.len() > 0,
        view.tasks.last() is Refresh,
    ensures
        keeps(view, popped(view).refresh().0, event),
{
    lemma_mild(view, popped(view).refresh().0, event);
}

pub(crate) proof fn lemma_refreshed(
    view: RendererView,
    link: Option<model::LinkView>,
    event: RoutedEvent,
)
    requires
        waits::sound(view),
        waits::ordinary(event),
        view.tasks.len() > 0,
        view.tasks.last() is Refreshed,
    ensures
        keeps(view, popped(view).refreshed(link), event),
{
    lemma_mild(view, popped(view).refreshed(link), event);
}

pub(crate) proof fn lemma_remap(view: RendererView, event: RoutedEvent)
    requires
        waits::sound(view),
        waits::ordinary(event),
        view.tasks.len() > 0,
        view.tasks.last() is Remap,
    ensures
        keeps(view, popped(view).remap().0, event),
{
    lemma_mild(view, popped(view).remap().0, event);
}

pub(crate) proof fn lemma_remapped(view: RendererView, cell: Option<(u16, u16)>, event: RoutedEvent)
    requires
        waits::sound(view),
        waits::ordinary(event),
        view.tasks.len() > 0,
        view.tasks.last() is Remapped,
    ensures
        keeps(view, popped(view).set_pointer(cell), event),
{
    lemma_mild(view, popped(view).set_pointer(cell), event);
}

pub(crate) proof fn lemma_focus_loss(view: RendererView, event: RoutedEvent)
    requires
        waits::sound(view),
        waits::ordinary(event),
        view.tasks.len() > 0,
        view.tasks.last() is FocusLoss,
    ensures
        keeps(view, popped(view).focus_loss().0, event),
{
    lemma_mild(view, popped(view).focus_loss().0, event);
}

pub(crate) proof fn lemma_focus_asked(view: RendererView, owned: bool, event: RoutedEvent)
    requires
        waits::sound(view),
        waits::ordinary(event),
        view.tasks.len() > 0,
        view.tasks.last() is FocusAsked,
    ensures
        keeps(view, popped(view).put(Task::FocusOwned(owned)), event),
{
    lemma_mild(view, popped(view).put(Task::FocusOwned(owned)), event);
}

pub(crate) proof fn lemma_focus_owned(view: RendererView, forward: bool, event: RoutedEvent)
    requires
        waits::sound(view),
        waits::ordinary(event),
        view.tasks.len() > 0,
        view.tasks.last() is FocusOwned,
    ensures
        keeps(view, popped(view).ask(model::Ask::ReleaseForFocusLoss, Task::FocusReleases(forward)).0, event),
{
    lemma_mild(view, popped(view).ask(model::Ask::ReleaseForFocusLoss, Task::FocusReleases(forward)).0, event);
}

pub(crate) proof fn lemma_focus_releases(
    view: RendererView,
    forward: bool,
    count: usize,
    event: RoutedEvent,
)
    requires
        waits::sound(view),
        waits::ordinary(event),
        view.tasks.len() > 0,
        view.tasks.last() is FocusReleases,
    ensures
        keeps(view, popped(view).focus_releases(forward, count), event),
{
    lemma_mild(view, popped(view).focus_releases(forward, count), event);
}

pub(crate) proof fn lemma_focus_forward(view: RendererView, forward: bool, event: RoutedEvent)
    requires
        waits::sound(view),
        waits::ordinary(event),
        view.tasks.len() > 0,
        view.tasks.last() is FocusForward,
    ensures
        keeps(view, popped(view).focus_forward(forward).0, event),
{
    lemma_mild(view, popped(view).focus_forward(forward).0, event);
}

pub(crate) proof fn lemma_focus_sent(view: RendererView, delivered: bool, event: RoutedEvent)
    requires
        waits::sound(view),
        waits::ordinary(event),
        view.tasks.len() > 0,
        view.tasks.last() is FocusSent,
    ensures
        keeps(view, popped(view).focus_done(delivered), event),
{
    lemma_mild(view, popped(view).focus_done(delivered), event);
}

pub(crate) proof fn lemma_physical_answered(
    view: RendererView,
    item: RoutedEvent,
    route: Option<model::PhysicalRoute>,
    event: RoutedEvent,
)
    requires
        waits::sound(view),
        waits::ordinary(event),
        view.tasks.len() > 0,
        view.tasks.last() == Task::PhysicalAnswered(item),
    ensures
        keeps(view, popped(view).physical_answered(item, route).0, event),
{
    lemma_fits(view);
    lemma_mild(view, popped(view).physical_answered(item, route).0, event);
}

pub(crate) proof fn lemma_semantic_answered(
    view: RendererView,
    item: RoutedEvent,
    route: Option<model::SemanticRoute>,
    event: RoutedEvent,
)
    requires
        waits::sound(view),
        waits::ordinary(event),
        view.tasks.len() > 0,
        view.tasks.last() == Task::SemanticAnswered(item),
    ensures
        keeps(view, popped(view).semantic_answered(item, route).0, event),
{
    lemma_fits(view);
    let next = popped(view).semantic_answered(item, route).0;
    match route {
        Some(model::SemanticRoute::Forwarded) => {
            if popped(view).running() {
                lemma_mild(view, next, event);
            } else if item.released() {
                lemma_mild(view, next, event);
            } else {
                lemma_mild(view, next, event);
            }
        },
        Some(model::SemanticRoute::Consumed { navigated }) => {
            if navigated {
                lemma_mild(view, next, event);
            } else {
                lemma_mild(view, next, event);
            }
        },
        None => {
            lemma_mild(view, next, event);
        },
    }
}

pub(crate) proof fn lemma_observe(view: RendererView, item: RoutedEvent, event: RoutedEvent)
    requires
        waits::sound(view),
        waits::ordinary(event),
        view.tasks.len() > 0,
        view.tasks.last() == Task::Observe(item),
    ensures
        keeps(view, popped(view).observe(item), event),
{
    let next = popped(view).observe(item);
    if item == event {
        assert(waits::carries(pushed(view, next)[0], event));
    }
    lemma_mild(view, popped(view).observe(item), event);
}

pub(crate) proof fn lemma_keyed(view: RendererView, item: RoutedEvent, event: RoutedEvent)
    requires
        waits::sound(view),
        waits::ordinary(event),
        view.tasks.len() > 0,
        view.tasks.last() == Task::Keyed(item),
    ensures
        keeps(view, popped(view).keyed(item).0, event),
{
    let next = popped(view).keyed(item).0;
    if item == event {
        assert(waits::carries(pushed(view, next)[0], event));
    }
    lemma_mild(view, popped(view).keyed(item).0, event);
}

pub(crate) proof fn lemma_pixel(
    view: RendererView,
    pixel: model::PixelEvent,
    generation: u64,
    observe: bool,
    event: RoutedEvent,
)
    requires
        waits::sound(view),
        waits::ordinary(event),
        view.tasks.len() > 0,
        view.tasks.last() is Pixel,
    ensures
        keeps(view, popped(view).pixel(pixel, generation, observe), event),
{
    lemma_mild(view, popped(view).pixel(pixel, generation, observe), event);
}

pub(crate) proof fn lemma_spawn_target(view: RendererView, event: RoutedEvent)
    requires
        waits::sound(view),
        waits::ordinary(event),
        view.tasks.len() > 0,
        view.tasks.last() is SpawnTarget,
    ensures
        keeps(view, popped(view).spawn_target().0, event),
{
    lemma_mild(view, popped(view).spawn_target().0, event);
}

pub(crate) proof fn lemma_spawned(view: RendererView, started: bool, event: RoutedEvent)
    requires
        waits::sound(view),
        waits::ordinary(event),
        view.tasks.len() > 0,
        view.tasks.last() is Spawned,
    ensures
        keeps(view, popped(view).spawned(started), event),
{
    lemma_mild(view, popped(view).spawned(started), event);
}

pub(crate) proof fn lemma_apply_target(view: RendererView, event: RoutedEvent)
    requires
        waits::sound(view),
        waits::ordinary(event),
        view.tasks.len() > 0,
        view.tasks.last() is ApplyTarget,
    ensures
        keeps(view, popped(view).apply_target(), event),
{
    lemma_mild(view, popped(view).apply_target(), event);
}

pub(crate) proof fn lemma_apply_surface(view: RendererView, loses_binding: bool, event: RoutedEvent)
    requires
        waits::sound(view),
        waits::ordinary(event),
        view.tasks.len() > 0,
        view.tasks.last() is ApplySurface,
    ensures
        keeps(view, popped(view).apply_surface(loses_binding), event),
{
    lemma_mild(view, popped(view).apply_surface(loses_binding), event);
}

pub(crate) proof fn lemma_stop_target(view: RendererView, event: RoutedEvent)
    requires
        waits::sound(view),
        waits::ordinary(event),
        view.tasks.len() > 0,
        view.tasks.last() is StopTarget,
    ensures
        keeps(view, popped(view).put(Task::TargetStopped).put(Task::Retire), event),
{
    lemma_mild(view, popped(view).put(Task::TargetStopped).put(Task::Retire), event);
}

pub(crate) proof fn lemma_select(
    view: RendererView,
    size: (u16, u16),
    damaged: bool,
    event: RoutedEvent,
)
    requires
        waits::sound(view),
        waits::ordinary(event),
        view.tasks.len() > 0,
        view.tasks.last() is Select,
    ensures
        keeps(view, popped(view).select(size, damaged), event),
{
    lemma_mild(view, popped(view).select(size, damaged), event);
}

pub(crate) proof fn lemma_selected(
    view: RendererView,
    size: (u16, u16),
    damaged: bool,
    select: bool,
    event: RoutedEvent,
)
    requires
        waits::sound(view),
        waits::ordinary(event),
        view.tasks.len() > 0,
        view.tasks.last() is Selected,
    ensures
        keeps(view, popped(view).selected(size, damaged, select), event),
{
    lemma_mild(view, popped(view).selected(size, damaged, select), event);
}

pub(crate) proof fn lemma_draw(
    view: RendererView,
    size: (u16, u16),
    damaged: bool,
    event: RoutedEvent,
)
    requires
        waits::sound(view),
        waits::ordinary(event),
        view.tasks.len() > 0,
        view.tasks.last() is Draw,
    ensures
        keeps(view, popped(view).draw(size, damaged).0, event),
{
    lemma_mild(view, popped(view).draw(size, damaged).0, event);
}

pub(crate) proof fn lemma_drawn(
    view: RendererView,
    frame: Option<FrameView>,
    event: RoutedEvent,
)
    requires
        waits::sound(view),
        waits::ordinary(event),
        view.tasks.len() > 0,
        view.tasks.last() is Drawn,
    ensures
        keeps(view, popped(view).drawn(frame), event),
{
    lemma_mild(view, popped(view).drawn(frame), event);
}

pub(crate) proof fn lemma_replay_pixel(view: RendererView, generation: u64, event: RoutedEvent)
    requires
        waits::sound(view),
        waits::ordinary(event),
        view.tasks.len() > 0,
        view.tasks.last() is ReplayPixel,
    ensures
        keeps(view, popped(view).replay_pixel(generation).0, event),
{
    let next = popped(view).replay_pixel(generation).0;
    if view.target is Some && view.replay_pixels.len() > 0 {
        lemma_mild(view, next, event);
    } else if view.replay_render {
        lemma_mild(view, next, event);
    } else {
        lemma_mild(view, next, event);
    }
}

pub(crate) proof fn lemma_replay_pixel_local(
    view: RendererView,
    generation: u64,
    mouse: Option<model::LocalMouse>,
    event: RoutedEvent,
)
    requires
        waits::sound(view),
        waits::ordinary(event),
        view.tasks.len() > 0,
        view.tasks.last() is ReplayPixelLocal,
    ensures
        keeps(view, popped(view).replay_pixel_local(generation, mouse).0, event),
{
    lemma_mild(view, popped(view).replay_pixel_local(generation, mouse).0, event);
}

pub(crate) proof fn lemma_replay_pixel_sent(
    view: RendererView,
    generation: u64,
    wheel: bool,
    sent: bool,
    event: RoutedEvent,
)
    requires
        waits::sound(view),
        waits::ordinary(event),
        view.tasks.len() > 0,
        view.tasks.last() is ReplayPixelSent,
    ensures
        keeps(view, popped(view).replay_pixel_sent(generation, wheel, sent), event),
{
    lemma_mild(view, popped(view).replay_pixel_sent(generation, wheel, sent), event);
}

/// What the topmost task is about fits it.
pub(crate) proof fn lemma_fits(view: RendererView)
    requires
        waits::sound(view),
        view.tasks.len() > 0,
    ensures
        waits::fits(view.tasks.last()),
        waits::stands_on(waits::under(view.tasks, view.tasks.len() - 1), view.tasks.last()),
{
    reveal(waits::arranged);
    assert(waits::fits(view.tasks[view.tasks.len() - 1]));
}

/// What the topmost task says about the others.
pub(crate) proof fn lemma_top(view: RendererView)
    requires
        waits::sound(view),
        view.tasks.len() > 0,
    ensures
        ({
            let task = view.tasks.last();
            &&& !waits::quiet_task(task) && !(task is DrainQueued) ==> !waits::charged(
                view.tasks,
                Charge::Queue,
            )
            &&& !waits::fall_task(task) && !(task is DeferOverflow) ==> !waits::charged(
                view.tasks,
                Charge::Overflow,
            )
            &&& waits::starter(task) ==> !waits::charged(view.tasks, Charge::Work)
            &&& waits::turn_task(task) ==> waits::charged(view.tasks, Charge::Turn)
            &&& !waits::mid_task(task) && !(task is NextEvent) ==> !waits::charged(
                view.tasks,
                Charge::Turn,
            )
            &&& waits::bottom_task(task) ==> view.tasks.len() == 1
            &&& (task is NextEvent || waits::pixel_task(task)) ==> view.tasks.len() == 1
                || waits::mover(base(view).last())
        }),
{
    reveal(waits::arranged);
    let tasks = view.tasks;
    let n = tasks.len() - 1;
    let task = tasks[n];
    lemma_fits(view);
    assert forall|i: int| 0 <= i < n implies waits::stands_above(#[trigger] tasks[i], task) by {
        assert(waits::stands_above(tasks[i], tasks[n]));
    }
    if waits::charged(tasks, Charge::Queue) {
        let i = choose|i: int|
            0 <= i < tasks.len() && #[trigger] waits::in_charge(tasks[i], Charge::Queue);
        assert(i == n || waits::stands_above(tasks[i], task));
    }
    if waits::charged(tasks, Charge::Overflow) {
        let i = choose|i: int|
            0 <= i < tasks.len() && #[trigger] waits::in_charge(tasks[i], Charge::Overflow);
        assert(i == n || waits::stands_above(tasks[i], task));
    }
    if waits::charged(tasks, Charge::Work) {
        let i = choose|i: int|
            0 <= i < tasks.len() && #[trigger] waits::in_charge(tasks[i], Charge::Work);
        assert(i == n || waits::stands_above(tasks[i], task));
    }
    if waits::charged(tasks, Charge::Turn) {
        let i = choose|i: int|
            0 <= i < tasks.len() && #[trigger] waits::in_charge(tasks[i], Charge::Turn);
        assert(i == n || waits::stands_above(tasks[i], task));
    }
    if waits::turn_task(task) {
        assert(waits::in_charge(tasks[n - 1], Charge::Turn));
    }
}

} // verus!
