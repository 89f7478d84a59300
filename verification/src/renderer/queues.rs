//! What waits: mouse reports in pixels, and input that is kept for later.
use crate::input::windows::{ClientMouseKind, MouseButton};
use crate::renderer::model::{
    self, AnswerView, Ask, DeferredView, HostPixels, InputUsage, LinkInputView, LinkView,
    LocalMouse, MessageView, PixelEvent, RoutedEvent,
};
use crate::renderer::state::{RendererView, Step, Task, TurnView};
use vstd::prelude::*;

verus! {

// ---- Mouse reports in pixels ------------------------------------------------------------------
/// A report in pixels tells where the pointer is, with the geometry that it was read under, and
/// is then seen as the renderer's terminal sees it; one that is routed again tells nothing.
pub proof fn law_pixel_reports_tell_the_pointer(
    view: RendererView,
    pixel: PixelEvent,
    generation: u64,
    observe: bool,
    answer: AnswerView,
)
    ensures
        ({
            let (next, step) = view.performed(Task::Pixel { pixel, generation, observe }, answer);
            &&& step is Continue
            &&& observe && pixel.report is Some ==> next.pointer_pixels == Some(
                HostPixels {
                    x: (pixel.report->0).0,
                    y: (pixel.report->0).1,
                    geometry: pixel.geometry,
                },
            ) && next.tasks == view.tasks.push(Task::PixelLocal { pixel, generation }).push(
                Task::Remap,
            )
            &&& !observe || pixel.report is None ==> next == (RendererView {
                tasks: view.tasks.push(Task::PixelLocal { pixel, generation }),
                ..view
            })
        }),
        view.target is Some ==> view.performed(Task::PixelLocal { pixel, generation }, answer) == (
            RendererView {
                tasks: view.tasks.push(Task::PixelPlaced { pixel, generation }),
                ..view
            },
            Step::Ask(Ask::LocalMouse { pixel, size: view.target->0.size }),
        ),
{
}

/// A report that starts no click goes to the server where the server has the input, waits while
/// its word is awaited, queues behind a link, and else goes to the renderer's terminal. A report
/// that its terminal cannot see goes to the server.
pub proof fn law_pixel_reports_go_where_the_input_goes(
    view: RendererView,
    pixel: PixelEvent,
    generation: u64,
    mouse: Option<LocalMouse>,
)
    requires
        pixel.kind != Some(ClientMouseKind::Down(MouseButton::Left)),
        !view.pending_link_click,
        mouse is Some ==> mouse->0.kind != ClientMouseKind::Down(MouseButton::Left),
    ensures
        ({
            let (next, step) = view.performed(
                Task::PixelPlaced { pixel, generation },
                AnswerView::Mouse(mouse),
            );
            let awaiting = view.awaiting_fallback || view.awaiting_promotion;
            let active = view.local_selected && !view.server_owned_input
                && !view.server_forwarded_overflow;
            let running = view.target is Some && view.target->0.running;
            let free = view.pending_link_request_id is None && !awaiting;
            let told = seq![MessageView::InputPixels { pixel }];
            &&& view.pending_link_request_id is Some && view.queued_link_inputs.len() < 256
                ==> step is Continue && next.result.len() == 0 && next.queued_link_inputs
                == view.queued_link_inputs.push(
                LinkInputView::Pixels { inputs: seq![pixel], generation },
            )
            &&& view.pending_link_request_id is None && awaiting ==> step is Continue
                && next.result.len() == 0 && next.deferred_messages == view.deferred_messages.push(
                DeferredView::InputPixels { pixel, generation },
            )
            &&& free && !active ==> step is Continue && next.result == told && next.tasks
                == view.tasks
            &&& free && active && mouse is Some && running ==> step == Step::Ask(
                Ask::ForwardPixel(pixel),
            ) && next.tasks == view.tasks.push(
                Task::PixelSent {
                    pixel,
                    generation,
                    wheel: mouse->0.kind == ClientMouseKind::ScrollUp || mouse->0.kind
                        == ClientMouseKind::ScrollDown,
                },
            ) && next.result.len() == 0
            &&& free && active && (mouse is None || !running) ==> step is Continue && next.result
                == told && next.tasks == view.tasks
        }),
{
}

/// A report that arrived is drawn where it was the wheel; one that did not waits for the server,
/// after the renderer was given up.
pub proof fn law_undelivered_pixels_wait_for_the_server(
    view: RendererView,
    pixel: PixelEvent,
    generation: u64,
    wheel: bool,
    answer: AnswerView,
)
    ensures
        ({
            let (next, step) = view.performed(
                Task::PixelSent { pixel, generation, wheel },
                AnswerView::Yes(true),
            );
            &&& step is Continue
            &&& next.result.len() == 0
            &&& wheel ==> next.needs_render && next.tasks == view.tasks.push(Task::Refresh)
            &&& !wheel ==> next.needs_render == view.needs_render && next.tasks == view.tasks
        }),
        ({
            let (next, step) = view.performed(
                Task::PixelSent { pixel, generation, wheel },
                AnswerView::Yes(false),
            );
            &&& step is Continue
            &&& next.result.len() == 0
            &&& next.tasks == view.tasks.push(Task::DeferPixel { pixel, generation }).push(
                Task::BeginFallback,
            )
        }),
        ({
            let (next, step) = view.performed(Task::DeferPixel { pixel, generation }, answer);
            &&& step is Continue
            &&& next.deferred_messages == view.deferred_messages.push(
                DeferredView::InputPixels { pixel, generation },
            )
            &&& next.tasks == view.tasks
        }),
{
}

/// A press of the left button in pixels looks for a link as one in cells does; a link is told to
/// the server, and the report waits for the answer. Without a link it goes to the terminal.
pub proof fn law_pixel_clicks_look_for_links(
    view: RendererView,
    pixel: PixelEvent,
    generation: u64,
    mouse: LocalMouse,
    request_id: u64,
    link: LinkView,
)
    requires
        view.target is Some && view.target->0.running,
        vstd::utf8::encode_utf8(link.url).len() <= view.max_link_url,
    ensures
        pixel.kind == Some(ClientMouseKind::Down(MouseButton::Left)) && mouse.kind
            == ClientMouseKind::Down(MouseButton::Left) && view.pending_link_request_id is None
            && !view.awaiting_fallback && !view.awaiting_promotion && view.local_selected
            && !view.server_owned_input && !view.server_forwarded_overflow ==> ({
            let (next, step) = view.performed(
                Task::PixelPlaced { pixel, generation },
                AnswerView::Mouse(Some(mouse)),
            );
            &&& step == Step::Ask(Ask::LinkAt { column: mouse.column, row: mouse.row })
            &&& next.tasks == view.tasks.push(
                Task::PixelLink { pixel, generation, mouse, request_id: view.next_link_request_id },
            )
            &&& view.next_link_request_id < u64::MAX ==> next.next_link_request_id
                == view.next_link_request_id + 1
        }),
        ({
            let (next, step) = view.performed(
                Task::PixelLink { pixel, generation, mouse, request_id },
                AnswerView::Link(Some(link)),
            );
            &&& step is Continue
            &&& next.result == seq![
                MessageView::ActivateOmpLink {
                    launch_id: view.target->0.launch_id,
                    request_id,
                    url: link.url,
                },
            ]
            &&& next.pending_link_click
            &&& next.pending_link_request_id == Some(request_id)
            &&& next.pending_link_input == Some(
                LinkInputView::Pixels { inputs: seq![pixel], generation },
            )
            &&& next.tasks == view.tasks
        }),
        view.performed(
            Task::PixelLink { pixel, generation, mouse, request_id },
            AnswerView::Link(None),
        ).1 == Step::Ask(Ask::ForwardPixel(pixel)),
{
}

/// The rest of a click in pixels belongs to its link until the button is released.
pub proof fn law_rest_of_the_pixel_click_waits(
    view: RendererView,
    pixel: PixelEvent,
    inputs: Seq<PixelEvent>,
    read: u64,
    generation: u64,
    mouse: Option<LocalMouse>,
)
    requires
        view.pending_link_click,
        view.pending_link_input == Some(LinkInputView::Pixels { inputs, generation: read }),
        inputs.len() < 256,
    ensures
        ({
            let (next, step) = view.performed(
                Task::PixelPlaced { pixel, generation },
                AnswerView::Mouse(mouse),
            );
            let joined = Some(
                LinkInputView::Pixels { inputs: inputs.push(pixel), generation: read },
            );
            &&& pixel.kind == Some(ClientMouseKind::Drag(MouseButton::Left)) ==> step is Continue
                && next.pending_link_input == joined && next.pending_link_click
                && next.result.len() == 0
            &&& pixel.kind == Some(ClientMouseKind::Up(MouseButton::Left)) ==> step is Continue
                && next.pending_link_input == joined && !next.pending_link_click
                && next.result.len() == 0
        }),
{
}

/// A refused click in pixels is given to the terminal report by report; what does not arrive
/// waits for the server with all that follows it.
pub proof fn law_refused_pixel_clicks_are_replayed(
    view: RendererView,
    generation: u64,
    wheel: bool,
    mouse: LocalMouse,
    answer: AnswerView,
)
    requires
        view.replay_pixels.len() > 0,
        view.target is Some,
        !view.replay_render,
    ensures
        view.performed(Task::ReplayPixel(generation), answer) == (
            RendererView { tasks: view.tasks.push(Task::ReplayPixelLocal(generation)), ..view },
            Step::Ask(
                Ask::LocalMouse { pixel: view.replay_pixels[0], size: view.target->0.size },
            ),
        ),
        ({
            let (next, step) = view.performed(
                Task::ReplayPixelLocal(generation),
                AnswerView::Mouse(Some(mouse)),
            );
            &&& step == Step::Ask(Ask::ForwardPixel(view.replay_pixels[0]))
            &&& next.tasks == view.tasks.push(
                Task::ReplayPixelSent {
                    generation,
                    wheel: mouse.kind == ClientMouseKind::ScrollUp || mouse.kind
                        == ClientMouseKind::ScrollDown,
                },
            )
        }),
        view.performed(Task::ReplayPixelLocal(generation), AnswerView::Mouse(None)) == (
            RendererView {
                tasks: view.tasks.push(Task::DeferReplayPixels(generation)).push(
                    Task::BeginFallback,
                ),
                ..view
            },
            Step::Continue,
        ),
        view.performed(
            Task::ReplayPixelSent { generation, wheel },
            AnswerView::Yes(true),
        ) == (
            RendererView {
                replay_render: wheel,
                replay_pixels: view.replay_pixels.drop_first(),
                tasks: view.tasks.push(Task::ReplayPixel(generation)),
                ..view
            },
            Step::Continue,
        ),
        view.performed(
            Task::ReplayPixelSent { generation, wheel },
            AnswerView::Yes(false),
        ) == (
            RendererView {
                tasks: view.tasks.push(Task::DeferReplayPixels(generation)).push(
                    Task::BeginFallback,
                ),
                ..view
            },
            Step::Continue,
        ),
{
}

/// Every report of a refused click that could not be given waits for the server, in order.
pub proof fn law_left_pixels_wait(view: RendererView, generation: u64, answer: AnswerView, i: int)
    requires
        0 <= i < view.replay_pixels.len(),
    ensures
        ({
            let (next, step) = view.performed(Task::DeferReplayPixels(generation), answer);
            &&& step is Continue
            &&& next.deferred_messages.len() == view.deferred_messages.len()
                + view.replay_pixels.len()
            &&& next.deferred_messages[view.deferred_messages.len() + i]
                == (DeferredView::InputPixels { pixel: view.replay_pixels[i], generation })
            &&& next.deferred_messages.take(view.deferred_messages.len() as int)
                == view.deferred_messages
        }),
{
}

/// A refused click in pixels goes to the server where the server has the input: every report,
/// in order.
pub proof fn law_refused_pixel_clicks_go_to_the_server(
    view: RendererView,
    launch_id: u64,
    request_id: u64,
    inputs: Seq<PixelEvent>,
    generation: u64,
    i: int,
)
    requires
        view.pending_link_request_id == Some(request_id),
        view.target is Some && view.target->0.launch_id == launch_id,
        view.pending_link_input == Some(LinkInputView::Pixels { inputs, generation }),
        !view.local_selected || view.server_owned_input || view.server_forwarded_overflow,
        0 <= i < inputs.len(),
    ensures
        ({
            let next = view.resolve_link(launch_id, request_id, false, generation);
            &&& next.outbound_messages.len() == view.outbound_messages.len() + inputs.len()
            &&& next.outbound_messages[view.outbound_messages.len() + i]
                == (MessageView::InputPixels { pixel: inputs[i] })
            &&& next.outbound_messages.take(view.outbound_messages.len() as int)
                == view.outbound_messages
            &&& next.tasks == view.tasks.push(Task::DrainQueued)
        }),
{
}

// ---- Limits -----------------------------------------------------------------------------------
/// Each event counts once, and with the bytes of its content.
pub proof fn law_every_event_counts(events: Seq<RoutedEvent>, event: RoutedEvent)
    ensures
        model::events_usage(Seq::<RoutedEvent>::empty()) == (InputUsage { events: 0, payload: 0 }),
        ({
            let before = model::events_usage(events);
            let after = model::events_usage(events.push(event));
            &&& before.events < usize::MAX ==> after.events == before.events + 1
            &&& before.payload + event.payload <= usize::MAX ==> after.payload == before.payload
                + event.payload
            &&& before.payload + event.payload > usize::MAX ==> after.payload == usize::MAX
        }),
{
    assert(events.push(event).drop_last() =~= events);
}

/// Everything that waits counts: what is deferred, what follows a message, what belongs to a
/// click on a link or queues behind it, and what is to be sent.
pub proof fn law_everything_that_waits_counts(view: RendererView)
    ensures
        ({
            let deferred = model::deferred_usage(view.deferred_messages).events;
            let posted = model::deferred_usage(view.post_send_input).events;
            let clicked: int = if view.pending_link_input is Some {
                view.pending_link_input->0.usage().events as int
            } else {
                0
            };
            let queued = model::links_usage(view.queued_link_inputs).events;
            let sent = model::messages_usage(view.outbound_messages).events;
            let sum = deferred + posted + clicked + queued + sent;
            &&& sum <= usize::MAX ==> view.pending_usage().events == sum
            &&& sum > usize::MAX ==> view.pending_usage().events == usize::MAX
        }),
        ({
            let deferred = model::deferred_usage(view.deferred_messages).payload;
            let posted = model::deferred_usage(view.post_send_input).payload;
            let clicked: int = if view.pending_link_input is Some {
                view.pending_link_input->0.usage().payload as int
            } else {
                0
            };
            let queued = model::links_usage(view.queued_link_inputs).payload;
            let sent = model::messages_usage(view.outbound_messages).payload;
            let sum = deferred + posted + clicked + queued + sent;
            &&& sum <= usize::MAX ==> view.pending_usage().payload == sum
            &&& sum > usize::MAX ==> view.pending_usage().payload == usize::MAX
        }),
{
}

/// Input is taken up as long as no more than four thousand and ninety-six events and one
/// mebibyte of content would wait. Otherwise the renderer is given up, everything that waits
/// goes to the server, and the new input behind it.
pub proof fn law_input_is_taken_up_to_its_limits(view: RendererView, answer: AnswerView)
    ensures
        ({
            let (next, step) = view.performed(Task::Admit, answer);
            let incoming = model::events_usage(model::sendable(view.incoming));
            let waiting = view.pending_usage();
            let fits = waiting.events + incoming.events <= 4096 && waiting.payload
                + incoming.payload <= 1048576;
            &&& step is Continue
            &&& fits ==> next.turn.events == view.incoming && next.turn.generation
                == view.incoming_generation && next.turn.observe && next.turn.batch.len() == 0
                && next.turn.messages.len() == 0 && !next.turn.tail && next.incoming.len() == 0
                && next.tasks == view.tasks.push(Task::NextEvent)
            &&& !fits ==> next == (RendererView {
                tasks: view.tasks.push(Task::AdmissionTail).push(Task::ReleasePending).push(
                    Task::BeginFallback,
                ),
                ..view
            })
        }),
{
}

/// The same for a report in pixels, which is dropped where too much waits.
pub proof fn law_pixel_reports_are_taken_up_to_their_limits(
    view: RendererView,
    pixel: PixelEvent,
    generation: u64,
    answer: AnswerView,
)
    ensures
        ({
            let (next, step) = view.performed(Task::AdmitPixel { pixel, generation }, answer);
            let waiting = view.pending_usage();
            let fits = waiting.events + 1 <= 4096 && waiting.payload + pixel.payload <= 1048576;
            &&& step is Continue
            &&& fits ==> next == (RendererView {
                tasks: view.tasks.push(Task::Pixel { pixel, generation, observe: true }),
                ..view
            })
            &&& !fits ==> next == (RendererView {
                tasks: view.tasks.push(Task::DropResult).push(Task::ReleasePending).push(
                    Task::BeginFallback,
                ),
                ..view
            })
        }),
        view.performed(Task::DropResult, answer) == (
            RendererView { result: Seq::empty(), ..view },
            Step::Continue,
        ),
{
}

/// Input that was too much goes to the server behind everything that waits, without the mouse.
pub proof fn law_refused_input_goes_to_the_server(view: RendererView, answer: AnswerView)
    ensures
        ({
            let (next, step) = view.performed(Task::AdmissionTail, answer);
            let events = model::without_mouse(model::sendable(view.incoming));
            &&& step is Continue
            &&& events.len() > 0 ==> next.result == view.outbound_messages.push(
                MessageView::InputEvents { events },
            )
            &&& events.len() == 0 ==> next.result == view.outbound_messages
            &&& next.outbound_messages.len() == 0
            &&& next.incoming.len() == 0
        }),
        ({
            let (next, step) = view.performed(Task::ReleasedPending, answer);
            &&& step is Continue
            &&& next.outbound_messages == view.outbound_messages + view.result
            &&& next.result.len() == 0
            &&& next.effects.len() == 0
        }),
{
}

// ---- Lists ------------------------------------------------------------------------------------
/// What queued behind a link is routed message by message, in order, until something is sent;
/// what is left then waits behind that.
pub proof fn law_queued_input_is_routed_in_order(
    view: RendererView,
    events: Seq<RoutedEvent>,
    pixel: PixelEvent,
    generation: u64,
    answer: AnswerView,
)
    ensures
        ({
            let (next, step) = view.performed(Task::DrainQueued, answer);
            &&& step is Continue
            &&& next.work == model::all_deferred(view.queued_link_inputs)
            &&& next.queued_link_inputs.len() == 0
            &&& next.tasks == view.tasks.push(Task::DrainNext)
        }),
        view.work.len() == 0 ==> view.performed(Task::DrainNext, answer) == (view, Step::Continue),
        view.work.len() > 0 && view.work[0] == (DeferredView::InputEvents { events, generation })
            ==> ({
            let (next, step) = view.performed(Task::DrainNext, answer);
            &&& step is Continue
            &&& next.work == view.work.drop_first()
            &&& next.turn.events == events
            &&& next.turn.generation == generation
            &&& !next.turn.observe
            &&& next.tasks == view.tasks.push(Task::DrainRouted).push(Task::NextEvent)
        }),
        view.work.len() > 0 && view.work[0] == (DeferredView::InputPixels { pixel, generation })
            ==> ({
            let (next, step) = view.performed(Task::DrainNext, answer);
            &&& step is Continue
            &&& next.work == view.work.drop_first()
            &&& next.tasks == view.tasks.push(Task::DrainRouted).push(
                Task::Pixel { pixel, generation, observe: false },
            )
        }),
        view.result.len() == 0 ==> view.performed(Task::DrainRouted, answer) == (
            RendererView { tasks: view.tasks.push(Task::DrainNext), ..view },
            Step::Continue,
        ),
        view.result.len() > 0 ==> ({
            let (next, step) = view.performed(Task::DrainRouted, answer);
            &&& step is Continue
            &&& next.outbound_messages == view.outbound_messages + view.result
            &&& next.post_send_input == view.post_send_input + view.work
            &&& next.work.len() == 0
            &&& next.tasks == view.tasks
        }),
{
}

/// Input of another generation is thinned before new input is taken up: a click of another
/// generation is void, and what is left behind it is routed.
pub proof fn law_stale_clicks_are_void(view: RendererView, generation: u64, answer: AnswerView)
    ensures
        ({
            let (next, step) = view.performed(Task::CancelStale(generation), answer);
            let stale = view.pending_link_input is Some
                && view.pending_link_input->0.generation() != generation;
            let changed = exists|i: int|
                0 <= i < view.queued_link_inputs.len() && (#[trigger] view.queued_link_inputs[i]).generation()
                    != generation;
            &&& step is Continue
            &&& next.queued_link_inputs == model::links_kept(view.queued_link_inputs, generation)
            &&& stale ==> next.pending_link_request_id is None && next.pending_link_input is None
                && !next.pending_link_click
            &&& !stale ==> next.pending_link_request_id == view.pending_link_request_id
                && next.pending_link_input == view.pending_link_input && next.pending_link_click
                == view.pending_link_click
            &&& stale || changed ==> next.tasks == view.tasks.push(Task::DrainQueued)
            &&& !stale && !changed ==> next.tasks == view.tasks
        }),
{
}

/// Reports in pixels of another generation are dropped, those of this one kept; and keys, text
/// and the focus are kept of every generation.
pub proof fn law_input_of_its_generation_is_kept(
    events: Seq<RoutedEvent>,
    pixel: PixelEvent,
    inputs: Seq<PixelEvent>,
    read: u64,
    generation: u64,
)
    ensures
        read != generation ==> (DeferredView::InputPixels { pixel, generation: read }).kept(
            generation,
        ) is None,
        (DeferredView::InputPixels { pixel, generation }).kept(generation) == Some(
            (DeferredView::InputPixels { pixel, generation }),
        ),
        events.len() > 0 ==> (DeferredView::InputEvents { events, generation }).kept(generation)
            == Some((DeferredView::InputEvents { events, generation })),
        read != generation ==> (LinkInputView::Pixels { inputs, generation: read }).kept(generation)
            is None,
        (LinkInputView::Pixels { inputs, generation }).kept(generation) == Some(
            (LinkInputView::Pixels { inputs, generation }),
        ),
        (LinkInputView::Events { events, generation }).kept(generation) == Some(
            (LinkInputView::Events { events, generation }),
        ),
{
}

/// Input that goes to the server because the renderer is withdrawn loses the mouse, and the
/// server has the input from then on; reports in pixels are dropped.
pub proof fn law_released_input_goes_to_the_server(
    view: RendererView,
    events: Seq<RoutedEvent>,
    generation: u64,
    answer: AnswerView,
)
    requires
        view.work.len() > 0,
    ensures
        ({
            let (next, step) = view.performed(Task::ReleaseNext, answer);
            &&& step is Continue
            &&& next.work == view.work.drop_first()
            &&& view.work[0] == (DeferredView::InputEvents { events, generation })
                ==> next.turn.events == model::without_mouse(events) && !next.turn.observe
                && next.server_owned_input && !next.awaiting_fallback && !next.awaiting_promotion
                && next.tasks == view.tasks.push(Task::ReleaseRouted).push(Task::NextEvent)
            &&& view.work[0] is InputPixels ==> next.tasks == view.tasks.push(Task::ReleaseNext)
                && next.turn == view.turn
        }),
        view.result.len() == 0 ==> view.performed(Task::ReleaseRouted, answer) == (
            RendererView { tasks: view.tasks.push(Task::ReleaseNext), ..view },
            Step::Continue,
        ),
        view.result.len() > 0 ==> ({
            let (next, step) = view.performed(Task::ReleaseRouted, answer);
            &&& next.outbound_messages == view.outbound_messages + view.result
            &&& next.post_send_input == view.post_send_input + view.work
            &&& next.work.len() == 0
            &&& next.tasks == view.tasks
        }),
{
}

/// Input that waited for the renderer to be confirmed is routed in order, without the mouse;
/// where the renderer fails meanwhile, the rest waits again.
pub proof fn law_promoted_input_is_routed_in_order(
    view: RendererView,
    events: Seq<RoutedEvent>,
    read: u64,
    generation: u64,
    answer: AnswerView,
)
    requires
        view.work.len() > 0,
    ensures
        ({
            let (next, step) = view.performed(Task::PromoteNext(generation), answer);
            &&& step is Continue
            &&& view.awaiting_fallback ==> next.deferred_messages == view.deferred_messages
                + view.work && next.work.len() == 0 && next.tasks == view.tasks
            &&& !view.awaiting_fallback ==> next.work == view.work.drop_first()
            &&& !view.awaiting_fallback && view.work[0] == (DeferredView::InputEvents {
                events,
                generation: read,
            }) ==> next.turn.events == model::without_mouse(events) && next.turn.generation
                == generation && !next.turn.observe && next.tasks == view.tasks.push(
                Task::PromoteRouted(generation),
            ).push(Task::NextEvent)
            &&& !view.awaiting_fallback && view.work[0] is InputPixels ==> next.tasks
                == view.tasks.push(Task::PromoteNext(generation))
        }),
        view.result.len() == 0 ==> view.performed(Task::PromoteRouted(generation), answer) == (
            RendererView { tasks: view.tasks.push(Task::PromoteNext(generation)), ..view },
            Step::Continue,
        ),
        view.result.len() > 0 ==> ({
            let (next, step) = view.performed(Task::PromoteRouted(generation), answer);
            &&& next.outbound_messages == view.outbound_messages + view.result
            &&& next.post_send_input == view.post_send_input + view.work
            &&& next.work.len() == 0
            &&& next.tasks == view.tasks
        }),
{
}

/// What waited for a message to be sent is routed message by message, until something is sent
/// again; what is left stays behind that.
pub proof fn law_posted_input_is_routed_in_order(
    view: RendererView,
    events: Seq<RoutedEvent>,
    pixel: PixelEvent,
    generation: u64,
    answer: AnswerView,
)
    ensures
        view.post_send_input.len() == 0 ==> view.performed(Task::FlushPost, answer) == (
            RendererView { result: Seq::empty(), ..view },
            Step::Continue,
        ),
        view.post_send_input.len() > 0 ==> ({
            let (next, step) = view.performed(Task::FlushPost, answer);
            let first = view.post_send_input[0];
            &&& step is Continue
            &&& next.work == view.post_send_input.drop_first()
            &&& next.post_send_input.len() == 0
            &&& first == (DeferredView::InputEvents { events, generation }) ==> next.turn.events
                == events && next.turn.generation == generation && !next.turn.observe && next.tasks
                == view.tasks.push(Task::FlushPosted).push(Task::NextEvent)
            &&& first == (DeferredView::InputPixels { pixel, generation }) ==> next.tasks
                == view.tasks.push(Task::FlushPosted).push(
                Task::Pixel { pixel, generation, observe: false },
            )
        }),
        ({
            let (next, step) = view.performed(Task::FlushPosted, answer);
            &&& step is Continue
            &&& next.post_send_input == view.post_send_input + view.work
            &&& next.work.len() == 0
            &&& next.result == view.result
            &&& view.result.len() > 0 ==> next.tasks == view.tasks
            &&& view.result.len() == 0 ==> next.tasks == view.tasks.push(Task::FlushPost)
        }),
{
}

/// A queue that is full is given up whole: the renderer is given up, and then the click, the
/// queue and the new input wait for the server, in this order.
pub proof fn law_full_link_queue_waits_for_the_server(
    view: RendererView,
    event: RoutedEvent,
    answer: AnswerView,
)
    requires
        view.turn.events.len() > 0,
        event == view.turn.events[0],
        event.sendable,
        !(event.kind is Mouse),
        view.pending_link_request_id is Some,
        view.pending_link_input is Some,
        view.queued_link_inputs.len() == 256,
    ensures
        ({
            let (next, step) = view.performed(Task::NextEvent, answer);
            &&& step is Continue
            &&& next.overflow == seq![view.pending_link_input->0] + view.queued_link_inputs + seq![
                LinkInputView::Events { events: seq![event], generation: view.turn.generation },
            ]
            &&& next.queued_link_inputs.len() == 0
            &&& next.pending_link_request_id is None
            &&& next.pending_link_input is None
            &&& !next.pending_link_click
            &&& next.tasks == view.tasks.push(Task::NextEvent).push(Task::DeferOverflow).push(
                Task::BeginFallback,
            )
        }),
        ({
            let (next, step) = view.performed(Task::DeferOverflow, answer);
            &&& step is Continue
            &&& next.deferred_messages == view.deferred_messages + model::all_deferred(
                view.overflow,
            )
            &&& next.overflow.len() == 0
            &&& next.tasks == view.tasks
        }),
{
}

/// A turn starts with its events and nothing else.
pub proof fn law_turn_starts_empty(events: Seq<RoutedEvent>, generation: u64, observe: bool)
    ensures
        ({
            let turn = TurnView::begin(events, generation, observe);
            &&& turn.events == events
            &&& turn.generation == generation
            &&& turn.observe == observe
            &&& turn.messages.len() == 0
            &&& turn.batch.len() == 0
            &&& turn.deferred.len() == 0
            &&& turn.post_send.len() == 0
            &&& !turn.tail
        }),
{
}

} // verus!
