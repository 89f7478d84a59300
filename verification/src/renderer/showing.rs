//! What is shown, and by whom: the renderer's life and its pictures.
use crate::input::framing::HostGeometry;
use crate::renderer::frame::{CellView, FrameView};
use crate::renderer::model::{
    self, AnswerView, Ask, HostPixels, LocalEffect, MessageView, SurfaceSize, TargetEvent,
    TargetView,
};
use crate::renderer::state::{RendererView, RequestView, Step, Task};
use vstd::prelude::*;

verus! {

// ---- Giving the renderer up -------------------------------------------------------------------
/// The renderer is given up in order: its last picture is kept, the keys that it holds are
/// released, its terminal is stopped, and the server's word is awaited.
pub proof fn law_renderer_is_given_up_in_order(view: RendererView, answer: AnswerView)
    ensures
        view.performed(Task::BeginFallback, answer) == (
            RendererView {
                tasks: view.tasks.push(Task::Fallen).push(Task::FailTarget).push(
                    Task::Retire,
                ).push(Task::Handoff),
                ..view
            },
            Step::Continue,
        ),
        ({
            let (next, step) = view.performed(Task::FailTarget, answer);
            &&& step is Continue
            &&& view.target is None ==> next == view
            &&& view.target is Some ==> next.target is Some && next.target->0.failed
                && !next.target->0.bound && !next.target->0.surface_active
                && !next.target->0.running && next.target->0.launch_id
                == view.target->0.launch_id && next.target->0.ready_reported
                == view.target->0.ready_reported
            &&& view.target is Some && view.target->0.running ==> next.tasks == view.tasks.push(
                Task::Perform(Ask::StopRuntime),
            )
            &&& view.target is Some && !view.target->0.running ==> next.tasks == view.tasks
        }),
        ({
            let (next, step) = view.performed(Task::Fallen, answer);
            &&& step is Continue
            &&& next.awaiting_fallback
            &&& next.cached_server_frame is None
            &&& next.needs_render && next.force_repaint
            &&& next.local_selected == view.local_selected
            &&& next.tasks == view.tasks
        }),
        view.performed(Task::Perform(Ask::StopRuntime), answer) == (
            view,
            Step::Ask(Ask::StopRuntime),
        ),
{
}

/// When the renderer's picture is shown and is to be no more, its last picture is kept until the
/// server draws, and links are no longer marked.
pub proof fn law_last_picture_is_kept(view: RendererView, frame: FrameView, answer: AnswerView)
    ensures
        !view.local_selected ==> view.performed(Task::Handoff, answer) == (view, Step::Continue),
        view.local_selected ==> ({
            let (next, step) = view.performed(Task::Handoff, answer);
            let running = view.target is Some && view.target->0.running;
            &&& next.suppress_link_affordance
            &&& next.needs_render && next.force_repaint
            &&& running ==> step == Step::Ask(
                Ask::RenderFrame {
                    columns: view.target->0.size.columns,
                    rows: view.target->0.size.rows,
                },
            ) && next.tasks == view.tasks.push(Task::HandoffDrawn)
            &&& !running ==> step is Continue && next.tasks == view.tasks
        }),
        ({
            let (next, step) = view.performed(Task::HandoffDrawn, AnswerView::Drawn(Some(frame)));
            &&& step is Continue
            &&& next.handoff_frame is Some
            &&& next.handoff_frame->0.width == frame.width
            &&& next.handoff_frame->0.height == frame.height
            &&& next.handoff_frame->0.cells.len() == frame.cells.len()
            &&& next.handoff_frame->0.hyperlinks.len() == 0
            &&& forall|i: int|
                #![trigger next.handoff_frame->0.cells[i]]
                0 <= i < frame.cells.len() ==> next.handoff_frame->0.cells[i] == (CellView {
                    hyperlink: None,
                    ..frame.cells[i]
                })
        }),
        view.performed(Task::HandoffDrawn, AnswerView::Drawn(None)) == (view, Step::Continue),
{
}

/// Stopping the renderer forgets it: nobody's picture is selected, no link is marked, and the
/// click that waits is void.
pub proof fn law_stopped_renderer_is_forgotten(view: RendererView, answer: AnswerView)
    ensures
        view.performed(Task::StopTarget, answer) == (
            RendererView {
                tasks: view.tasks.push(Task::TargetStopped).push(Task::Retire),
                ..view
            },
            Step::Continue,
        ),
        ({
            let (next, step) = view.performed(Task::TargetStopped, answer);
            let running = view.target is Some && view.target->0.running;
            &&& step is Continue
            &&& next.target is None
            &&& !next.local_selected
            &&& !next.server_owned_input
            &&& next.hovered_link_cells is None
            &&& next.needs_render
            &&& view.local_selected || view.server_owned_input || view.server_forwarded_overflow
                ==> next.force_repaint
            &&& !view.local_selected && !view.server_owned_input && !view.server_forwarded_overflow
                ==> next.force_repaint == view.force_repaint
            &&& !next.pending_link_click && next.pending_link_request_id is None
                && next.pending_link_input is None && next.queued_link_inputs.len() == 0
            &&& running ==> next.tasks == view.tasks.push(Task::Perform(Ask::StopRuntime))
            &&& !running ==> next.tasks == view.tasks
        }),
        view.performed(Task::ClearCached, answer) == (
            RendererView { cached_server_frame: None, ..view },
            Step::Continue,
        ),
{
}

// ---- What the server asks for -----------------------------------------------------------------
/// What the server says of an earlier launch is ignored, and everything is where no renderer can
/// be had.
pub proof fn law_earlier_launches_are_ignored(
    view: RendererView,
    request: RequestView,
    answer: AnswerView,
)
    requires
        view.request == Some(request),
        !view.available || request.launch_id < view.latest_launch_id,
    ensures
        view.performed(Task::ApplyTarget, answer) == (view, Step::Continue),
{
}

/// A renderer that is wanted no more is stopped, after its picture was kept and what waits went
/// to the server.
pub proof fn law_unwanted_renderer_is_stopped(
    view: RendererView,
    request: RequestView,
    answer: AnswerView,
)
    requires
        view.request == Some(request),
        view.available,
        request.launch_id >= view.latest_launch_id,
        request.route is None,
    ensures
        ({
            let (next, step) = view.performed(Task::ApplyTarget, answer);
            &&& step is Continue
            &&& next.latest_launch_id == request.launch_id
            &&& next.target == view.target
            &&& next.tasks == view.tasks.push(Task::ClearCached).push(Task::StopTarget).push(
                Task::ReleasePending,
            ).push(Task::Handoff)
        }),
{
}

/// A renderer of a new launch, for another client or for another route takes the place of the
/// old; what the server says of the present one is applied to it.
pub proof fn law_latest_launch_counts(view: RendererView, request: RequestView, answer: AnswerView)
    requires
        view.request == Some(request),
        view.available,
        request.launch_id >= view.latest_launch_id,
        request.route is Some,
    ensures
        ({
            let (next, step) = view.performed(Task::ApplyTarget, answer);
            let same = view.target is None || (view.target->0.launch_id == request.launch_id
                && view.target->0.target_app_client_id == request.target_app_client_id
                && view.target->0.route == request.route->0);
            let fresh = request.launch_id > view.latest_launch_id || !same;
            let applied = view.tasks.push(Task::ApplyBinding);
            &&& step is Continue
            &&& next.target == view.target
            &&& next.latest_launch_id == view.latest_launch_id
            &&& fresh ==> next.tasks == applied.push(Task::SpawnTarget).push(
                Task::StopTarget,
            ).push(Task::ReleasePending).push(Task::Handoff)
            &&& !fresh ==> next.tasks == applied
        }),
{
}

/// A renderer is started under the launch that was asked for.
pub proof fn law_launch_is_remembered(view: RendererView, request: RequestView, answer: AnswerView)
    requires
        view.request == Some(request),
    ensures
        ({
            let (next, step) = view.performed(Task::SpawnTarget, answer);
            &&& step == Step::Ask(Ask::Spawn)
            &&& next.latest_launch_id == request.launch_id
            &&& next.cached_server_frame is None
            &&& next.tasks == view.tasks.push(Task::Spawned)
        }),
{
}

/// A renderer that was started is the one that was asked for, from now on; it has neither been
/// bound nor drawn. One that could not be started is none.
pub proof fn law_started_renderer_is_the_one_asked_for(view: RendererView, request: RequestView)
    requires
        view.request == Some(request),
        request.route is Some,
    ensures
        ({
            let (next, step) = view.performed(Task::Spawned, AnswerView::Yes(true));
            let target = next.target->0;
            &&& step is Continue
            &&& next.needs_render
            &&& next.target is Some
            &&& target.launch_id == request.launch_id
            &&& target.target_app_client_id == request.target_app_client_id
            &&& Some(target.route) == request.route
            &&& target.size == request.size
            &&& target.started_at == request.now
            &&& target.bound_at is None
            &&& target.running
            &&& !target.bound && !target.surface_active && !target.first_damage
            &&& !target.ready_reported && !target.promoted
            &&& !target.failed && !target.fallback_confirmed
            &&& target.unread.len() == 0
        }),
        ({
            let (next, step) = view.performed(Task::Spawned, AnswerView::Yes(false));
            &&& step is Continue
            &&& next.target is None
            &&& next.needs_render
        }),
{
}

/// A binding that is lost sends everything that waits to the server, releases the renderer's
/// keys and keeps its last picture; a binding that never was lets what waits go.
pub proof fn law_lost_binding_is_settled(
    view: RendererView,
    request: RequestView,
    loses_binding: bool,
    answer: AnswerView,
)
    requires
        view.request == Some(request),
    ensures
        ({
            let (next, step) = view.performed(Task::ApplyBinding, answer);
            let loses = view.target is Some && view.target->0.bound && !request.bound;
            let awaiting = view.awaiting_fallback || view.awaiting_promotion;
            &&& step is Continue
            &&& loses ==> next.tasks == view.tasks.push(
                Task::ApplySurface { loses_binding: true },
            ).push(Task::ReleasePending)
            &&& request.bound ==> next == (RendererView {
                tasks: view.tasks.push(Task::ApplySurface { loses_binding: false }),
                ..view
            })
            &&& !request.bound && !loses ==> next.cached_server_frame is None
                && !next.awaiting_fallback && !next.awaiting_promotion
            &&& !request.bound && !loses && awaiting ==> next.work == view.deferred_messages
                && next.deferred_messages.len() == 0 && next.tasks == view.tasks.push(
                Task::ApplySurface { loses_binding: false },
            ).push(Task::ReleaseNext)
            &&& !request.bound && !loses && !awaiting ==> next.deferred_messages
                == view.deferred_messages && next.tasks == view.tasks.push(
                Task::ApplySurface { loses_binding: false },
            )
        }),
        ({
            let (next, step) = view.performed(Task::ApplySurface { loses_binding }, answer);
            let hidden = view.local_selected && view.target is Some && (loses_binding || (
            view.target->0.surface_active && !request.surface_active));
            &&& step is Continue
            &&& loses_binding && hidden ==> next.tasks == view.tasks.push(Task::ApplyState).push(
                Task::Retire,
            ).push(Task::Handoff)
            &&& loses_binding && !hidden ==> next.tasks == view.tasks.push(Task::ApplyState).push(
                Task::Retire,
            )
            &&& !loses_binding && hidden ==> next.tasks == view.tasks.push(Task::ApplyState).push(
                Task::Handoff,
            )
            &&& !loses_binding && !hidden ==> next.tasks == view.tasks.push(Task::ApplyState)
        }),
{
}

/// The renderer takes the state that the server gives it: its size, whether it is bound and
/// shown. It is confirmed when it is bound after it reported itself; a binding that is lost
/// ends it; a failed renderer is neither bound nor shown.
pub proof fn law_renderer_takes_the_servers_state(target: TargetView, request: RequestView)
    ensures
        ({
            let next = RendererView::target_applied(target, request);
            let lost = target.bound && !request.bound;
            &&& next.size == request.size
            &&& next.launch_id == target.launch_id
            &&& next.route == target.route
            &&& next.bound == (request.bound && !target.failed)
            &&& next.surface_active == (request.surface_active && !target.failed && !lost)
            &&& next.promoted == (target.ready_reported && request.bound && !target.failed)
            &&& next.failed == (target.failed || lost)
            &&& next.running == (target.running && !lost)
            &&& next.fallback_confirmed == (target.fallback_confirmed || (!request.bound
                && target.ready_reported))
            &&& request.bound && !target.bound ==> next.bound_at == Some(request.now)
            &&& !request.bound || target.bound ==> next.bound_at == target.bound_at
            &&& next.first_damage == target.first_damage
            &&& next.ready_reported == target.ready_reported
            &&& next.started_at == target.started_at
        }),
{
}

/// The state that the server gives is for its own launch only. It is drawn; a running terminal
/// learns its size, and one that ends is stopped. Input comes back to the renderer when it is
/// bound and shown.
pub proof fn law_state_is_for_its_own_launch(
    view: RendererView,
    request: RequestView,
    answer: AnswerView,
)
    requires
        view.request == Some(request),
        view.target is Some,
    ensures
        view.target->0.launch_id != request.launch_id ==> view.performed(Task::ApplyState, answer)
            == (view, Step::Continue),
        view.target->0.launch_id == request.launch_id && !view.awaiting_promotion ==> ({
            let (next, step) = view.performed(Task::ApplyState, answer);
            let target = view.target->0;
            let lost = target.bound && !request.bound;
            let shown = request.bound && request.surface_active && !target.failed;
            let placed = view.tasks.push(Task::Refresh).push(Task::Remap);
            &&& step is Continue
            &&& next.needs_render
            &&& next.target is Some && next.target->0.size == request.size
            &&& shown ==> !next.server_owned_input
            &&& !shown ==> next.server_owned_input == view.server_owned_input
            &&& target.surface_active && !request.surface_active ==> next.cached_server_frame
                is None
            &&& !target.surface_active ==> next.cached_server_frame == view.cached_server_frame
            &&& target.running && !lost ==> next.tasks == placed.push(
                Task::Perform(Ask::ResizeRuntime(request.size)),
            )
            &&& target.running && lost ==> next.tasks == placed.push(
                Task::Perform(Ask::StopRuntime),
            )
            &&& !target.running ==> next.tasks == placed
        }),
{
}

/// When the server confirms a renderer that reported itself, what waited for that is routed
/// again: to the renderer where its picture can be shown, and else to the server.
pub proof fn law_confirmed_renderer_gets_what_waited(
    view: RendererView,
    request: RequestView,
    answer: AnswerView,
)
    requires
        view.request == Some(request),
        view.awaiting_promotion,
        view.target is Some,
        view.target->0.launch_id == request.launch_id,
        view.target->0.ready_reported,
        view.target->0.running,
        !view.target->0.failed,
        request.bound,
    ensures
        ({
            let (next, step) = view.performed(Task::ApplyState, answer);
            let active = request.surface_active && view.target->0.first_damage
                && !view.server_forwarded_overflow;
            let placed = view.tasks.push(Task::Refresh).push(Task::Remap);
            let told = Task::Perform(Ask::ResizeRuntime(request.size));
            &&& step is Continue
            &&& !next.awaiting_promotion
            &&& next.work == view.deferred_messages
            &&& next.deferred_messages.len() == 0
            &&& active ==> next.local_selected && next.cached_server_frame is None
                && next.handoff_frame is None && !next.suppress_link_affordance
                && next.needs_render && next.force_repaint && next.tasks == placed.push(
                Task::PromoteNext(request.generation),
            ).push(told)
            &&& !active ==> next.local_selected == view.local_selected && next.tasks
                == placed.push(Task::ReleaseNext).push(told)
        }),
{
}

// ---- Polling ----------------------------------------------------------------------------------
/// A renderer fails when its own pane dies, when it is not bound within five seconds, and when it
/// does not draw within ten seconds after that; and not otherwise.
pub proof fn law_renderer_fails_when_it_dies_or_is_late(
    target: TargetView,
    damage: Option<bool>,
    events: Seq<TargetEvent>,
    now: u64,
)
    ensures
        ({
            let (next, effects, damaged) = model::polled(target, damage, events, now);
            let died = exists|i: int|
                0 <= i < (target.unread + events).len() && (#[trigger] (target.unread + events)[i])
                    == (TargetEvent::PaneDied { own: true });
            let unbound = !target.bound && now >= target.started_at && now - target.started_at
                >= 5000;
            let drawn = target.first_damage || damage == Some(true);
            let undrawn = target.bound && !drawn && target.bound_at is Some && now
                >= target.bound_at->0 && now - target.bound_at->0 >= 10000;
            &&& died || unbound || undrawn ==> next.failed && !next.running && !next.bound
                && !next.surface_active && damaged
            &&& !(died || unbound || undrawn) ==> next.failed == target.failed && next.running
                == target.running && next.bound == target.bound && next.surface_active
                == target.surface_active && damaged == (damage == Some(true))
            &&& next.first_damage == drawn
            &&& next.launch_id == target.launch_id
            &&& next.ready_reported == target.ready_reported
        }),
{
}

/// What a confirmed renderer's terminal does is done in the host's: the bell, writing to the
/// clipboard and opening links, each with its own content; of other panes nothing is, but for
/// what is said of no pane.
pub proof fn law_effects_follow_their_events(
    events: Seq<TargetEvent>,
    own: bool,
    count: u16,
    content: u64,
)
    requires
        forall|i: int|
            0 <= i < events.len() ==> (#[trigger] events[i]) != (TargetEvent::PaneDied {
                own: true,
            }),
    ensures
        ({
            let before = model::effects_of(true, events);
            &&& model::effects_of(
                true,
                events.push(TargetEvent::TerminalBell { own: true, count }),
            ) == before.push(LocalEffect::Bell(count))
            &&& model::effects_of(
                true,
                events.push(TargetEvent::TerminalBell { own: false, count }),
            ) == before
            &&& model::effects_of(true, events.push(TargetEvent::ClipboardWrite { content }))
                == before.push(LocalEffect::ClipboardWrite(content))
            &&& model::effects_of(
                true,
                events.push(TargetEvent::PaneClipboardWrite { own: true, content }),
            ) == before.push(LocalEffect::ClipboardWrite(content))
            &&& model::effects_of(
                true,
                events.push(TargetEvent::PaneClipboardWrite { own: false, content }),
            ) == before
            &&& model::effects_of(true, events.push(TargetEvent::OpenUrl { url: content }))
                == before.push(LocalEffect::OpenUrl(content))
            &&& model::effects_of(true, events.push(TargetEvent::PaneDied { own })) == before
        }),
{
    let bell = events.push(TargetEvent::TerminalBell { own: true, count });
    assert(bell.drop_last() =~= events);
    let other_bell = events.push(TargetEvent::TerminalBell { own: false, count });
    assert(other_bell.drop_last() =~= events);
    let clipboard = events.push(TargetEvent::ClipboardWrite { content });
    assert(clipboard.drop_last() =~= events);
    let own_clipboard = events.push(TargetEvent::PaneClipboardWrite { own: true, content });
    assert(own_clipboard.drop_last() =~= events);
    let other_clipboard = events.push(TargetEvent::PaneClipboardWrite { own: false, content });
    assert(other_clipboard.drop_last() =~= events);
    let link = events.push(TargetEvent::OpenUrl { url: content });
    assert(link.drop_last() =~= events);
    let died = events.push(TargetEvent::PaneDied { own });
    assert(died.drop_last() =~= events);
}

/// A poll adds the effects to those that wait, and stops the terminal of a renderer that just
/// failed.
pub proof fn law_polling_adds_effects(
    view: RendererView,
    now: u64,
    size: (u16, u16),
    damage: Option<bool>,
    events: Seq<TargetEvent>,
)
    ensures
        ({
            let next = view.poll(now, size, damage, events);
            &&& view.target is None ==> next == (RendererView {
                tasks: view.tasks.push(Task::Polled { size, damaged: false }),
                ..view
            })
            &&& view.target is Some ==> ({
                let (target, effects, damaged) = model::polled(
                    view.target->0,
                    damage,
                    events,
                    now,
                );
                &&& next.target == Some(target)
                &&& next.effects == view.effects + effects
                &&& view.target->0.running && !target.running ==> next.tasks == view.tasks.push(
                    Task::Polled { size, damaged },
                ).push(Task::Perform(Ask::StopRuntime))
                &&& !(view.target->0.running && !target.running) ==> next.tasks
                    == view.tasks.push(Task::Polled { size, damaged })
            })
        }),
{
}

/// A renderer that is bound and has drawn reports itself to the server with its launch, and its
/// confirmation is awaited; one that fails after it reported itself is to be taken over by the
/// server; and one that does not run gives its keys back.
pub proof fn law_renderer_reports_itself(
    view: RendererView,
    size: (u16, u16),
    damaged: bool,
    answer: AnswerView,
)
    requires
        view.target is Some,
    ensures
        ({
            let (next, step) = view.performed(Task::Polled { size, damaged }, answer);
            let target = view.target->0;
            let ready = target.bound && target.first_damage && target.running && !target.failed
                && !target.ready_reported;
            let fallen = target.failed && target.ready_reported && !target.fallback_confirmed;
            &&& step is Continue
            &&& ready ==> next.outbound_messages == view.outbound_messages.push(
                MessageView::OmpRendererReady { launch_id: target.launch_id },
            ) && next.awaiting_promotion && next.target is Some && next.target->0.ready_reported
            &&& !ready ==> next.outbound_messages == view.outbound_messages && next.target
                == view.target
            &&& fallen ==> next.awaiting_fallback && !next.awaiting_promotion
                && next.cached_server_frame is None
            &&& !ready && !fallen ==> next.awaiting_fallback == view.awaiting_fallback
                && next.awaiting_promotion == view.awaiting_promotion
            &&& target.failed || !target.running ==> next.tasks == view.tasks.push(
                Task::Select { size, damaged },
            ).push(Task::Retire)
            &&& !target.failed && target.running ==> next.tasks == view.tasks.push(
                Task::Select { size, damaged },
            )
        }),
{
}

// ---- Pictures ---------------------------------------------------------------------------------
/// The renderer's picture is selected exactly where it runs, is bound and shown, has drawn and
/// has not failed, and the server has neither the input nor too many keys. A change of that is
/// drawn anew, and when the renderer loses it, its last picture is kept first.
pub proof fn law_picture_is_selected_where_it_may_be(
    view: RendererView,
    size: (u16, u16),
    damaged: bool,
    answer: AnswerView,
)
    ensures
        ({
            let (next, step) = view.performed(Task::Select { size, damaged }, answer);
            let may = view.target is Some && view.target->0.running && view.target->0.bound
                && view.target->0.surface_active && view.target->0.first_damage
                && !view.target->0.failed && !view.server_owned_input
                && !view.server_forwarded_overflow;
            &&& step is Continue
            &&& may && !view.local_selected ==> next.tasks == view.tasks.push(
                Task::Selected { size, damaged, select: true },
            )
            &&& !may && view.local_selected ==> next.tasks == view.tasks.push(
                Task::Selected { size, damaged, select: false },
            ).push(Task::Handoff)
            &&& may == view.local_selected && damaged ==> next.tasks == view.tasks.push(
                Task::Draw { size, damaged },
            ).push(Task::Refresh)
            &&& may == view.local_selected && !damaged ==> next.tasks == view.tasks.push(
                Task::Draw { size, damaged },
            )
            &&& next.local_selected == view.local_selected
        }),
{
}

/// A picture that is newly selected is drawn whole, and the pictures kept for the handover are
/// void; one that is deselected is drawn whole too, from what is kept.
pub proof fn law_change_of_picture_is_drawn_whole(
    view: RendererView,
    size: (u16, u16),
    damaged: bool,
    select: bool,
    answer: AnswerView,
)
    ensures
        ({
            let (next, step) = view.performed(Task::Selected { size, damaged, select }, answer);
            &&& step is Continue
            &&& next.local_selected == select
            &&& next.needs_render && next.force_repaint
            &&& next.tasks == view.tasks.push(Task::Draw { size, damaged }).push(Task::Refresh)
            &&& select ==> next.cached_server_frame is None && next.handoff_frame is None
                && !next.suppress_link_affordance
            &&& !select ==> next.cached_server_frame == view.cached_server_frame
                && next.handoff_frame == view.handoff_frame && next.suppress_link_affordance
                == view.suppress_link_affordance
        }),
{
}

/// The renderer's picture is drawn where something changed; otherwise the server's last frame is
/// shown again, or, where there is none, the renderer's last picture, once.
pub proof fn law_picture_is_shown_when_it_changed(
    view: RendererView,
    size: (u16, u16),
    damaged: bool,
    answer: AnswerView,
)
    ensures
        ({
            let (next, step) = view.performed(Task::Draw { size, damaged }, answer);
            let running = view.target is Some && view.target->0.running;
            let changed = damaged || view.needs_render;
            &&& view.local_selected && changed && running ==> step == Step::Ask(
                Ask::RenderFrame { columns: size.0, rows: size.1 },
            ) && next.tasks == view.tasks.push(Task::Drawn) && next.surface is None
            &&& view.local_selected && !(changed && running) ==> step is Continue && next.surface
                is None && next.tasks == view.tasks && next.needs_render == view.needs_render
            &&& !view.local_selected && !view.needs_render ==> step is Continue && next.surface
                is None && next.tasks == view.tasks
            &&& !view.local_selected && view.needs_render ==> step is Continue
                && !next.needs_render && !next.force_repaint && next.tasks == view.tasks
            &&& !view.local_selected && view.needs_render && view.cached_server_frame is Some
                ==> next.surface == Some((view.cached_server_frame->0, view.force_repaint))
                && next.handoff_frame == view.handoff_frame
            &&& !view.local_selected && view.needs_render && view.cached_server_frame is None
                && view.handoff_frame is Some ==> next.surface == Some(
                (view.handoff_frame->0, view.force_repaint),
            ) && next.handoff_frame is None
            &&& !view.local_selected && view.needs_render && view.cached_server_frame is None
                && view.handoff_frame is None ==> next.surface is None
        }),
{
}

/// A picture that was drawn is shown, with the link under the pointer underlined, and whole
/// where that was asked for; without its links it is kept for the handover. Where nothing came,
/// nothing is shown.
pub proof fn law_drawn_picture_is_shown(view: RendererView, frame: FrameView)
    ensures
        ({
            let (next, step) = view.performed(Task::Drawn, AnswerView::Drawn(Some(frame)));
            &&& step is Continue
            &&& next.tasks == view.tasks
            &&& !next.needs_render && !next.force_repaint
            &&& view.hovered_link_cells is None ==> next.surface == Some(
                (frame, view.force_repaint),
            )
            &&& view.hovered_link_cells is Some ==> next.surface == Some(
                (frame.underlined(view.hovered_link_cells->0), view.force_repaint),
            )
            &&& next.handoff_frame is Some
            &&& next.handoff_frame->0.cells.len() == frame.cells.len()
            &&& next.handoff_frame->0.hyperlinks.len() == 0
            &&& forall|i: int|
                #![trigger next.handoff_frame->0.cells[i]]
                0 <= i < frame.cells.len() ==> next.handoff_frame->0.cells[i] == (CellView {
                    hyperlink: None,
                    ..frame.cells[i]
                })
        }),
        view.performed(Task::Drawn, AnswerView::Drawn(None)) == (view, Step::Continue),
{
}

/// Cells that are named are underlined, and are otherwise as they were.
pub proof fn law_named_cells_are_underlined(frame: FrameView, cell: (u16, u16))
    requires
        cell.0 < frame.width,
        cell.1 < frame.height,
        cell.1 * frame.width + cell.0 < frame.cells.len(),
    ensures
        ({
            let at = cell.1 * frame.width + cell.0;
            let next = frame.underlined(seq![cell]);
            &&& next.cells.len() == frame.cells.len()
            &&& next.cells[at].modifier == frame.cells[at].modifier | 8
            &&& next.cells[at].symbol == frame.cells[at].symbol
            &&& next.cells[at].foreground == frame.cells[at].foreground
            &&& next.cells[at].background == frame.cells[at].background
            &&& next.cells[at].hyperlink == frame.cells[at].hyperlink
            &&& next.hyperlinks == frame.hyperlinks
            &&& next.width == frame.width && next.height == frame.height
            &&& forall|i: int|
                0 <= i < frame.cells.len() && i != at ==> (#[trigger] next.cells[i])
                    == frame.cells[i]
        }),
{
    reveal_with_fuel(FrameView::underlined, 2);
    assert(seq![cell].drop_last() =~= Seq::<(u16, u16)>::empty());
    assert(seq![cell].last() == cell);
    assert(0 <= cell.1 * frame.width) by (nonlinear_arith)
        requires
            cell.1 >= 0,
            frame.width >= 0,
    ;
}

/// At a new size the renderer and its terminal learn it, mouse input of another generation is
/// void, and everything is drawn anew. A pointer known by its pixels is found again under the
/// new geometry; any other is forgotten.
pub proof fn law_new_size_is_told(
    view: RendererView,
    size: SurfaceSize,
    geometry: Option<HostGeometry>,
    generation: u64,
    answer: AnswerView,
)
    ensures
        ({
            let (next, step) = view.performed(Task::Resized { size, geometry, generation }, answer);
            let running = view.target is Some && view.target->0.running;
            let pixels = view.pointer_pixels is Some && geometry is Some;
            let told = Task::Perform(Ask::ResizeRuntime(size));
            let refreshed = view.tasks.push(Task::Refresh);
            &&& step is Continue
            &&& next.needs_render && next.force_repaint
            &&& view.target is Some ==> next.target == Some(TargetView { size, ..view.target->0 })
            &&& view.target is None ==> next.target is None
            &&& next.deferred_messages == model::all_kept(view.deferred_messages, generation)
            &&& next.post_send_input == model::all_kept(view.post_send_input, generation)
            &&& pixels ==> next.pointer_pixels == Some(
                HostPixels {
                    x: view.pointer_pixels->0.x,
                    y: view.pointer_pixels->0.y,
                    geometry: geometry->0,
                },
            ) && next.pointer_cell == view.pointer_cell
            &&& !pixels ==> next.pointer_pixels is None && next.pointer_cell is None
            &&& pixels && running ==> next.tasks == refreshed.push(Task::Remap).push(told)
            &&& pixels && !running ==> next.tasks == refreshed.push(Task::Remap)
            &&& !pixels && view.pointer_cell is Some && running ==> next.tasks == refreshed.push(
                Task::Refresh,
            ).push(told)
            &&& !pixels && view.pointer_cell is None && running ==> next.tasks == refreshed.push(
                told,
            )
        }),
{
}

} // verus!
