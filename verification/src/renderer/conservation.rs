//! Input that was typed is never lost.
use crate::renderer::kept;
use crate::renderer::kept_lists as lists;
use crate::renderer::kept_turns as turns;
use crate::renderer::model::{self, AnswerView, RoutedEvent};
use crate::renderer::state::{RendererView, Task, TurnView};
use crate::renderer::waits::{self, Charge};
use vstd::prelude::*;

verus! {

/// What may become of an event in a step: it goes on waiting, or the renderer's terminal took
/// it, or it waited for the answer about a link when the renderer was taken away.
pub open spec fn followed(view: RendererView, next: RendererView, event: RoutedEvent) -> bool {
    waits::waits(view, event) ==> waits::waits(next, event) || waits::arrived(view, event) || (
    view.tasks.last() is TargetStopped && waits::in_links(view.queued_link_inputs, event))
}

pub open spec fn about_pixels(task: Task) -> bool {
    match task {
        Task::Pixel { .. }
        | Task::PixelLocal { .. }
        | Task::PixelPlaced { .. }
        | Task::PixelLink { .. }
        | Task::PixelSent { .. }
        | Task::DeferPixel { .. }
        | Task::AdmitPixel { .. }
        | Task::DropResult => true,
        _ => false,
    }
}

pub open spec fn about_lists(task: Task) -> bool {
    match task {
        Task::CancelStale(_)
        | Task::DrainQueued
        | Task::DrainNext
        | Task::DrainRouted
        | Task::Admit
        | Task::AdmissionTail
        | Task::ReleasePending
        | Task::ReleasedPending
        | Task::ReleaseNext
        | Task::ReleaseRouted
        | Task::PromoteNext(_)
        | Task::PromoteRouted(_)
        | Task::FlushPost
        | Task::FlushPosted => true,
        _ => false,
    }
}

pub open spec fn about_replay(task: Task) -> bool {
    match task {
        Task::ReplayNext(_)
        | Task::ReplayRouted(_)
        | Task::DeferReplay(_)
        | Task::ReplayPixel(_)
        | Task::ReplayPixelLocal(_)
        | Task::ReplayPixelSent { .. }
        | Task::DeferReplayPixels(_) => true,
        _ => false,
    }
}

pub open spec fn about_target(task: Task) -> bool {
    match task {
        Task::ApplyTarget
        | Task::SpawnTarget
        | Task::Spawned
        | Task::ApplyBinding
        | Task::ApplySurface { .. }
        | Task::ApplyState
        | Task::StopTarget
        | Task::TargetStopped
        | Task::ClearCached
        | Task::Resized { .. }
        | Task::Polled { .. }
        | Task::Select { .. }
        | Task::Selected { .. }
        | Task::Draw { .. }
        | Task::Drawn => true,
        _ => false,
    }
}

/// The steps of a turn.
proof fn lemma_turn_steps(view: RendererView, answer: AnswerView, event: RoutedEvent)
    requires
        waits::sound(view),
        waits::ordinary(event),
        view.tasks.len() > 0,
        waits::turn_task(view.tasks.last()) || view.tasks.last() is NextEvent,
    ensures
        waits::sound(view.advanced(answer).0),
        followed(view, view.advanced(answer).0, event),
{
    let next = view.advanced(answer).0;
    match view.tasks.last() {
        Task::NextEvent => {
            turns::lemma_next_event(view, event);
        },
        Task::OwnsAnswered(item) => {
            turns::lemma_owns_answered(view, item, event);
        },
        Task::Existing(item) => {
            turns::lemma_existing(view, item, event);
        },
        Task::PhysicalAnswered(item) => {
            kept::lemma_physical_answered(view, item, answer.physical(), event);
        },
        Task::SemanticAnswered(item) => {
            kept::lemma_semantic_answered(view, item, answer.semantic(), event);
        },
        Task::Observe(item) => {
            kept::lemma_observe(view, item, event);
        },
        Task::Clicked(item) => {
            turns::lemma_clicked(view, item, event);
        },
        Task::FocusReleased { event: item, forward } => {
            turns::lemma_focus_released(view, item, forward, event);
        },
        Task::LinkAnswered { event: item, request_id } => {
            turns::lemma_link_answered(view, item, request_id, answer.link(), event);
        },
        Task::Keyed(item) => {
            kept::lemma_keyed(view, item, event);
        },
        Task::PrefixAnswered(item) => {
            turns::lemma_prefix_answered(view, item, answer.yes(), event);
        },
        Task::Owned(item) => {
            turns::lemma_owned(view, item, event);
        },
        Task::LocalRouted(item) => {
            turns::lemma_local_routed(view, item, event);
        },
        Task::DeferEvent(item) => {
            turns::lemma_defer_event(view, item, event);
        },
        _ => {},
    }
}

/// The steps of giving the renderer up.
proof fn lemma_fall_steps(view: RendererView, answer: AnswerView, event: RoutedEvent)
    requires
        waits::sound(view),
        waits::ordinary(event),
        view.tasks.len() > 0,
        waits::fall_task(view.tasks.last()),
    ensures
        waits::sound(view.advanced(answer).0),
        followed(view, view.advanced(answer).0, event),
{
    let next = view.advanced(answer).0;
    match view.tasks.last() {
        Task::BeginFallback => {
            kept::lemma_begin_fallback(view, event);
        },
        Task::FailTarget => {
            kept::lemma_fail_target(view, event);
        },
        Task::Fallen => {
            kept::lemma_fallen(view, event);
        },
        Task::Handoff => {
            kept::lemma_handoff(view, event);
        },
        Task::HandoffDrawn => {
            kept::lemma_handoff_drawn(view, answer.drawn(), event);
        },
        Task::Retire => {
            kept::lemma_retire(view, event);
        },
        Task::Retired => {
            kept::lemma_retired(view, answer.releases(), event);
        },
        Task::ForwardReleases(count) => {
            kept::lemma_forward_releases(view, count, event);
        },
        Task::Delivered => {
            kept::lemma_mild(view, next, event);
        },
        Task::Perform(_) => {
            kept::lemma_mild(view, next, event);
        },
        _ => {},
    }
}

/// The steps of giving an event to the renderer.
proof fn lemma_local_steps(view: RendererView, answer: AnswerView, event: RoutedEvent)
    requires
        waits::sound(view),
        waits::ordinary(event),
        view.tasks.len() > 0,
        waits::local_task(view.tasks.last()),
    ensures
        waits::sound(view.advanced(answer).0),
        followed(view, view.advanced(answer).0, event),
{
    let next = view.advanced(answer).0;
    match view.tasks.last() {
        Task::Local(item) => {
            kept::lemma_local_event(view, item, event);
        },
        Task::Reserved { event: item, navigate } => {
            kept::lemma_reserved(view, item, navigate, answer.reserved(), event);
        },
        Task::ReleasesDone { event: item, navigate } => {
            kept::lemma_releases_done(view, item, navigate, event);
        },
        Task::LocalNavigated(item) => {
            kept::lemma_local_navigated(view, item, answer.yes(), event);
        },
        Task::SemanticPressed(item) => {
            kept::lemma_semantic_pressed(view, item, answer.semantic(), event);
        },
        Task::OwnsSemanticAnswered(item) => {
            kept::lemma_owns_semantic_answered(view, item, answer.yes(), event);
        },
        Task::LocalForward(item) => {
            kept::lemma_local_forward(view, item, event);
        },
        Task::LocalSent(item) => {
            kept::lemma_local_sent(view, item, answer.yes(), event);
        },
        _ => {},
    }
}

/// The steps that a turn leads to.
proof fn lemma_aside_steps(view: RendererView, answer: AnswerView, event: RoutedEvent)
    requires
        waits::sound(view),
        waits::ordinary(event),
        view.tasks.len() > 0,
        waits::aside_task(view.tasks.last()),
    ensures
        waits::sound(view.advanced(answer).0),
        followed(view, view.advanced(answer).0, event),
{
    let next = view.advanced(answer).0;
    match view.tasks.last() {
        Task::PhysicalForwarded(item) => {
            kept::lemma_physical_forwarded(view, item, answer.yes(), event);
        },
        Task::Navigated => {
            kept::lemma_navigated(view, answer.yes(), event);
        },
        Task::SemanticForwarded(item) => {
            kept::lemma_semantic_forwarded(view, item, answer.yes(), event);
        },
        Task::PrefixDone => {
            kept::lemma_prefix_done(view, event);
        },
        Task::Refresh => {
            kept::lemma_refresh(view, event);
        },
        Task::Refreshed => {
            kept::lemma_refreshed(view, answer.link(), event);
        },
        Task::Remap => {
            kept::lemma_remap(view, event);
        },
        Task::Remapped => {
            kept::lemma_remapped(view, answer.cell(), event);
        },
        Task::FocusLoss => {
            kept::lemma_focus_loss(view, event);
        },
        Task::FocusAsked => {
            kept::lemma_focus_asked(view, answer.yes(), event);
        },
        Task::FocusOwned(forward) => {
            kept::lemma_focus_owned(view, forward, event);
        },
        Task::FocusReleases(forward) => {
            kept::lemma_focus_releases(view, forward, answer.releases(), event);
        },
        Task::FocusForward(forward) => {
            kept::lemma_focus_forward(view, forward, event);
        },
        Task::FocusSent => {
            kept::lemma_focus_sent(view, view.delivered && answer.yes(), event);
        },
        Task::DeferOverflow => {
            lists::lemma_defer_overflow(view, event);
        },
        _ => {},
    }
}

/// The steps about reports in pixels.
proof fn lemma_pixel_steps(view: RendererView, answer: AnswerView, event: RoutedEvent)
    requires
        waits::sound(view),
        waits::ordinary(event),
        view.tasks.len() > 0,
        about_pixels(view.tasks.last()),
    ensures
        waits::sound(view.advanced(answer).0),
        followed(view, view.advanced(answer).0, event),
{
    let next = view.advanced(answer).0;
    match view.tasks.last() {
        Task::Pixel { pixel, generation, observe } => {
            kept::lemma_pixel(view, pixel, generation, observe, event);
        },
        Task::PixelLocal { pixel, generation } => {
            lists::lemma_pixel_local(view, pixel, generation, event);
        },
        Task::PixelPlaced { pixel, generation } => {
            lists::lemma_pixel_placed(view, pixel, generation, answer.mouse(), event);
        },
        Task::PixelLink { pixel, generation, mouse, request_id } => {
            lists::lemma_pixel_link(view, pixel, generation, mouse, request_id, answer.link(), event);
        },
        Task::PixelSent { pixel, generation, wheel } => {
            lists::lemma_pixel_sent(view, pixel, generation, wheel, answer.yes(), event);
        },
        Task::DeferPixel { pixel, generation } => {
            lists::lemma_defer_pixel(view, pixel, generation, event);
        },
        Task::AdmitPixel { pixel, generation } => {
            lists::lemma_admit_pixel(view, pixel, generation, event);
        },
        Task::DropResult => {
            lists::lemma_drop_result(view, event);
        },
        _ => {},
    }
}

/// The steps that move lists.
proof fn lemma_list_steps(view: RendererView, answer: AnswerView, event: RoutedEvent)
    requires
        waits::sound(view),
        waits::ordinary(event),
        view.tasks.len() > 0,
        about_lists(view.tasks.last()),
    ensures
        waits::sound(view.advanced(answer).0),
        followed(view, view.advanced(answer).0, event),
{
    let next = view.advanced(answer).0;
    match view.tasks.last() {
        Task::CancelStale(generation) => {
            lists::lemma_cancel_stale(view, generation, event);
        },
        Task::DrainQueued => {
            lists::lemma_drain_queued(view, event);
        },
        Task::DrainNext => {
            lists::lemma_drain_next(view, event);
        },
        Task::DrainRouted => {
            lists::lemma_drain_routed(view, event);
        },
        Task::Admit => {
            lists::lemma_take_in(view, event);
        },
        Task::AdmissionTail => {
            lists::lemma_admission_tail(view, event);
        },
        Task::ReleasePending => {
            lists::lemma_release_pending(view, event);
        },
        Task::ReleasedPending => {
            lists::lemma_released_pending(view, event);
        },
        Task::ReleaseNext => {
            lists::lemma_release_next(view, event);
        },
        Task::ReleaseRouted => {
            lists::lemma_release_routed(view, event);
        },
        Task::PromoteNext(generation) => {
            lists::lemma_promote_next(view, generation, event);
        },
        Task::PromoteRouted(generation) => {
            lists::lemma_promote_routed(view, generation, event);
        },
        Task::FlushPost => {
            lists::lemma_flush_post(view, event);
        },
        Task::FlushPosted => {
            lists::lemma_flush_posted(view, event);
        },
        _ => {},
    }
}

/// The steps of replaying a click.
proof fn lemma_replay_steps(view: RendererView, answer: AnswerView, event: RoutedEvent)
    requires
        waits::sound(view),
        waits::ordinary(event),
        view.tasks.len() > 0,
        about_replay(view.tasks.last()),
    ensures
        waits::sound(view.advanced(answer).0),
        followed(view, view.advanced(answer).0, event),
{
    let next = view.advanced(answer).0;
    match view.tasks.last() {
        Task::ReplayNext(generation) => {
            lists::lemma_replay_next(view, generation, event);
        },
        Task::ReplayRouted(generation) => {
            lists::lemma_replay_routed(view, generation, event);
        },
        Task::DeferReplay(generation) => {
            lists::lemma_defer_replay(view, generation, event);
        },
        Task::ReplayPixel(generation) => {
            kept::lemma_replay_pixel(view, generation, event);
        },
        Task::ReplayPixelLocal(generation) => {
            kept::lemma_replay_pixel_local(view, generation, answer.mouse(), event);
        },
        Task::ReplayPixelSent { generation, wheel } => {
            kept::lemma_replay_pixel_sent(view, generation, wheel, answer.yes(), event);
        },
        Task::DeferReplayPixels(generation) => {
            lists::lemma_defer_replay_pixels(view, generation, event);
        },
        _ => {},
    }
}

/// The steps about the renderer itself, and what is shown.
proof fn lemma_target_steps(view: RendererView, answer: AnswerView, event: RoutedEvent)
    requires
        waits::sound(view),
        waits::ordinary(event),
        view.tasks.len() > 0,
        about_target(view.tasks.last()),
    ensures
        waits::sound(view.advanced(answer).0),
        followed(view, view.advanced(answer).0, event),
{
    let next = view.advanced(answer).0;
    match view.tasks.last() {
        Task::ApplyTarget => {
            kept::lemma_apply_target(view, event);
        },
        Task::SpawnTarget => {
            kept::lemma_spawn_target(view, event);
        },
        Task::Spawned => {
            kept::lemma_spawned(view, answer.yes(), event);
        },
        Task::ApplyBinding => {
            lists::lemma_apply_binding(view, event);
        },
        Task::ApplySurface { loses_binding } => {
            kept::lemma_apply_surface(view, loses_binding, event);
        },
        Task::ApplyState => {
            lists::lemma_apply_state(view, event);
        },
        Task::StopTarget => {
            kept::lemma_stop_target(view, event);
        },
        Task::TargetStopped => {
            lists::lemma_target_stopped(view, event);
        },
        Task::ClearCached => {
            kept::lemma_mild(view, next, event);
        },
        Task::Resized { size, geometry, generation } => {
            lists::lemma_resized(view, size, geometry, generation, event);
        },
        Task::Polled { size, damaged } => {
            lists::lemma_polled(view, size, damaged, event);
        },
        Task::Select { size, damaged } => {
            kept::lemma_select(view, size, damaged, event);
        },
        Task::Selected { size, damaged, select } => {
            kept::lemma_selected(view, size, damaged, select, event);
        },
        Task::Draw { size, damaged } => {
            kept::lemma_draw(view, size, damaged, event);
        },
        Task::Drawn => {
            kept::lemma_drawn(view, answer.drawn(), event);
        },
        _ => {},
    }
}

/// Typed input is never lost: an event that waits goes on waiting, step after step, until the
/// renderer's terminal took it or it is in a message for the server. Only the renderer's end
/// takes with it what waited for the answer about a link.
pub proof fn law_ordinary_input_is_never_lost(
    view: RendererView,
    answer: AnswerView,
    event: RoutedEvent,
)
    requires
        waits::sound(view),
        waits::ordinary(event),
        view.tasks.len() > 0,
    ensures
        waits::sound(view.advanced(answer).0),
        followed(view, view.advanced(answer).0, event),
{
    let task = view.tasks.last();
    if waits::turn_task(task) || task is NextEvent {
        lemma_turn_steps(view, answer, event);
    } else if waits::fall_task(task) {
        lemma_fall_steps(view, answer, event);
    } else if waits::local_task(task) {
        lemma_local_steps(view, answer, event);
    } else if waits::aside_task(task) {
        lemma_aside_steps(view, answer, event);
    } else if about_pixels(task) {
        lemma_pixel_steps(view, answer, event);
    } else if about_lists(task) {
        lemma_list_steps(view, answer, event);
    } else if about_replay(task) {
        lemma_replay_steps(view, answer, event);
    } else {
        lemma_target_steps(view, answer, event);
    }
}

// ---- Operations -------------------------------------------------------------------------------
/// A state between operations: nothing is in progress, and the last result was taken.
pub open spec fn settled(view: RendererView) -> bool {
    waits::sound(view) && view.idle() && view.result.len() == 0
}

/// A new renderer is settled.
pub proof fn law_settled_at_first(view: RendererView)
    requires
        view.idle(),
        view.turn == TurnView::begin(Seq::empty(), 0, false),
        view.work.len() == 0,
        view.incoming.len() == 0,
        view.overflow.len() == 0,
        view.replay.len() == 0,
        view.queued_link_inputs.len() == 0,
        view.pending_link_input is None,
        view.result.len() == 0,
        view.local == (false, false),
    ensures
        settled(view),
{
    reveal(waits::arranged);
}

/// When an operation is finished, what waits is in the result, in a message that is to be
/// sent, behind such a message, or kept for the answer of the server.
pub proof fn law_finished_input_waits_in_a_queue(view: RendererView, event: RoutedEvent)
    requires
        waits::sound(view),
        view.idle(),
        waits::waits(view, event),
    ensures
        waits::in_messages(view.result, event) || waits::in_messages(view.outbound_messages, event)
            || waits::in_deferred(view.post_send_input, event) || waits::in_deferred(
            view.deferred_messages,
            event,
        ) || (view.pending_link_request_id is Some && waits::in_links(
            view.queued_link_inputs,
            event,
        )),
{
}

/// The work of an operation begins: one task, or one above another.
proof fn lemma_begun(view: RendererView, next: RendererView, event: RoutedEvent)
    requires
        settled(view),
        0 < next.tasks.len() <= 3,
        waits::fits(next.tasks[0]) && waits::stands_on(None, next.tasks[0]),
        next.tasks.len() > 1 ==> waits::fits(next.tasks[1]) && waits::stands_on(
            Some(next.tasks[0]),
            next.tasks[1],
        ) && waits::stands_above(next.tasks[0], next.tasks[1]),
        next.tasks.len() > 2 ==> waits::fits(next.tasks[2]) && waits::stands_on(
            Some(next.tasks[1]),
            next.tasks[2],
        ) && waits::stands_above(next.tasks[0], next.tasks[2]) && waits::stands_above(
            next.tasks[1],
            next.tasks[2],
        ),
        next.turn == view.turn,
        next.work == view.work,
        next.result == view.result,
        next.overflow == view.overflow,
        next.local == view.local,
        next.deferred_messages == view.deferred_messages,
        next.post_send_input == view.post_send_input,
        waits::in_messages(view.outbound_messages, event) ==> waits::in_messages(
            next.outbound_messages,
            event,
        ),
        next.incoming == view.incoming || next.tasks[0] is Admit,
        next.replay == view.replay || waits::replay_task(next.tasks[1]),
        next.tasks[0] is DrainQueued || (next.pending_link_request_id
            == view.pending_link_request_id && next.queued_link_inputs == view.queued_link_inputs),
        next.replay != view.replay ==> next.tasks.len() > 1,
        waits::mouse_only(next.pending_link_input),
        waits::in_links(view.queued_link_inputs, event) ==> waits::in_links(
            next.queued_link_inputs,
            event,
        ),
    ensures
        waits::sound(next),
        waits::waits(view, event) ==> waits::waits(next, event),
{
    reveal(waits::arranged);
    let tasks = next.tasks;
    assert forall|i: int| 0 <= i < tasks.len() implies waits::fits(#[trigger] tasks[i])
        && waits::stands_on(waits::under(tasks, i), tasks[i]) by {
        assert(i == 0 || i == 1 || i == 2);
    }
    assert forall|i: int, j: int| 0 <= i < j < tasks.len() implies waits::stands_above(
        #[trigger] tasks[i],
        #[trigger] tasks[j],
    ) by {
        assert(i == 0 || i == 1);
        assert(j == 1 || j == 2);
    }
    if tasks[0] is Admit {
        assert(waits::in_charge(tasks[0], Charge::Incoming));
    }
    if tasks[0] is DrainQueued {
        assert(waits::in_charge(tasks[0], Charge::Queue));
    }
    if next.replay != view.replay {
        assert(waits::in_charge(tasks[1], Charge::Replay));
    }
}

/// Input that is taken up waits, and what waited goes on waiting.
pub proof fn law_routed_input_waits(
    view: RendererView,
    events: Seq<RoutedEvent>,
    generation: u64,
    event: RoutedEvent,
)
    requires
        settled(view),
    ensures
        ({
            let next = RendererView {
                incoming: events,
                incoming_generation: generation,
                ..view
            }.put(Task::Admit).put(Task::CancelStale(generation));
            &&& waits::sound(next)
            &&& waits::waits(view, event) || events.contains(event) ==> waits::waits(next, event)
        }),
{
    let next = RendererView {
        incoming: events,
        incoming_generation: generation,
        ..view
    }.put(Task::Admit).put(Task::CancelStale(generation));
    lemma_begun(view, next, event);
}

/// Every other operation, too, begins with what waited.
pub proof fn law_operations_keep_what_waits(
    view: RendererView,
    task: Task,
    generation: u64,
    event: RoutedEvent,
)
    requires
        settled(view),
        task is AdmitPixel || task is Resized || task is FlushPost || task is ApplyTarget
            || task is StopTarget,
    ensures
        waits::sound(view.put(task)),
        waits::waits(view, event) ==> waits::waits(view.put(task), event),
        task is AdmitPixel || task is Resized ==> waits::sound(
            view.put(task).put(Task::CancelStale(generation)),
        ) && (waits::waits(view, event) ==> waits::waits(
            view.put(task).put(Task::CancelStale(generation)),
            event,
        )),
{
    lemma_begun(view, view.put(task), event);
    if task is AdmitPixel || task is Resized {
        lemma_begun(view, view.put(task).put(Task::CancelStale(generation)), event);
    }
}

/// A new frame, and a move of the pointer, begin with what waited.
pub proof fn law_frames_keep_what_waits(
    view: RendererView,
    now: u64,
    size: (u16, u16),
    damage: Option<bool>,
    events: Seq<model::TargetEvent>,
    cell: Option<(u16, u16)>,
    event: RoutedEvent,
)
    requires
        settled(view),
    ensures
        waits::sound(view.poll(now, size, damage, events)),
        waits::waits(view, event) ==> waits::waits(view.poll(now, size, damage, events), event),
        waits::sound(view.observe_pointer(cell)),
        waits::waits(view, event) ==> waits::waits(view.observe_pointer(cell), event),
{
    lemma_begun(view, view.poll(now, size, damage, events), event);
    let next = view.observe_pointer(cell);
    if next.tasks.len() > 0 {
        lemma_begun(view, next, event);
    }
}

/// The server's answer about a link begins with what waited for it.
pub proof fn law_answers_keep_what_waits(
    view: RendererView,
    launch_id: u64,
    request_id: u64,
    activated: bool,
    generation: u64,
    event: RoutedEvent,
)
    requires
        settled(view),
        waits::ordinary(event),
    ensures
        waits::sound(view.resolve_link(launch_id, request_id, activated, generation)),
        waits::waits(view, event) ==> waits::waits(
            view.resolve_link(launch_id, request_id, activated, generation),
            event,
        ),
{
    let next = view.resolve_link(launch_id, request_id, activated, generation);
    if waits::in_links(view.queued_link_inputs, event) {
        waits::lemma_links_kept(view.queued_link_inputs, generation, event);
    }
    if view.pending_link_request_id == Some(request_id) {
        match view.pending_link_input {
            Some(model::LinkInputView::Events { events, .. }) => {
                waits::lemma_messages_push(
                    view.outbound_messages,
                    model::MessageView::InputEvents { events },
                    event,
                );
            },
            Some(model::LinkInputView::Pixels { inputs, .. }) => {
                waits::lemma_messages_add(
                    view.outbound_messages,
                    Seq::new(
                        inputs.len(),
                        |i: int| model::MessageView::InputPixels { pixel: inputs[i] },
                    ),
                    event,
                );
            },
            None => {},
        }
        lemma_begun(view, next, event);
    }
}

} // verus!
