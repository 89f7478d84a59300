//! Where input goes: what each step of routing does with the event that it is about.
use crate::input::windows::{ClientKeyKind, ClientMouseKind, MouseButton};
use crate::renderer::laws;
use crate::renderer::model::{
    self, AnswerView, Ask, EventKind, LinkInputView, LinkView, MessageView, PhysicalRoute,
    RoutedEvent, SemanticRoute,
};
use crate::renderer::state::{RendererView, Step, Task};
use vstd::prelude::*;

verus! {

// ---- Ordinary events --------------------------------------------------------------------------
/// The events of a turn are taken one by one, and the next is taken when this one is settled.
/// Where nothing holds it back, an event is routed at once; after something was sent, a key is
/// asked about first.
pub proof fn law_events_are_taken_in_turn(view: RendererView, answer: AnswerView)
    requires
        view.turn.events.len() > 0,
        view.pending_link_request_id is None,
        !view.awaiting_fallback && !view.awaiting_promotion,
    ensures
        ({
            let event = view.turn.events[0];
            let (next, step) = view.performed(Task::NextEvent, answer);
            &&& next.turn.events == view.turn.events.drop_first()
            &&& next.turn.batch == view.turn.batch
            &&& next.turn.messages == view.turn.messages
            &&& !view.turn.tail ==> step is Continue && next.tasks == view.tasks.push(
                Task::NextEvent,
            ).push(Task::Existing(event))
            &&& view.turn.tail && !view.server_owned_input && event.sendable ==> step is Continue
                && next.turn.post_send == view.turn.post_send.push(event) && next.tasks
                == view.tasks.push(Task::NextEvent)
            &&& view.turn.tail && view.turn.post_send.len() > 0 && event.sendable ==> step
                is Continue && next.turn.post_send == view.turn.post_send.push(event)
                && next.tasks == view.tasks.push(Task::NextEvent)
            &&& view.turn.tail && view.turn.post_send.len() == 0 && view.server_owned_input
                && event.kind is Key ==> step == Step::Ask(Ask::OwnsKey(event)) && next.tasks
                == view.tasks.push(Task::NextEvent).push(Task::OwnsAnswered(event))
            &&& view.turn.tail && view.turn.post_send.len() == 0 && view.server_owned_input && !(
            event.kind is Key) ==> step is Continue && next.tasks == view.tasks.push(
                Task::NextEvent,
            ).push(Task::Existing(event))
        }),
{
}

/// A key that the renderer's terminal holds waits behind what was sent; any other goes on.
pub proof fn law_owned_keys_wait_behind_what_was_sent(
    view: RendererView,
    event: RoutedEvent,
    yes: bool,
)
    requires
        event.sendable,
    ensures
        ({
            let (next, step) = view.performed(Task::OwnsAnswered(event), AnswerView::Yes(yes));
            &&& step is Continue
            &&& yes ==> next.turn.post_send == view.turn.post_send.push(event) && next.tasks
                == view.tasks
            &&& !yes ==> next == (RendererView {
                tasks: view.tasks.push(Task::Existing(event)),
                ..view
            })
        }),
{
}

/// While more keys are held by the server than can be known, every key is the server's. A key
/// that it does not hold is asked about; what is no key goes on.
pub proof fn law_keys_of_the_server_stay_with_it(
    view: RendererView,
    event: RoutedEvent,
    answer: AnswerView,
)
    requires
        event.sendable,
    ensures
        ({
            let (next, step) = view.performed(Task::Existing(event), answer);
            &&& event.kind is Key && view.server_forwarded_overflow ==> step is Continue
                && next.turn.batch == view.turn.batch.push(event) && next.turn.tail && next.tasks
                == view.tasks
            &&& event.kind is Key && !view.server_forwarded_overflow
                && !view.server_forwarded_presses.contains(event.kind->identity) ==> step
                == Step::Ask(Ask::PhysicalRoute(event)) && next.tasks == view.tasks.push(
                Task::PhysicalAnswered(event),
            ) && next.turn == view.turn
            &&& !(event.kind is Key) ==> step is Continue && next == (RendererView {
                tasks: view.tasks.push(Task::Observe(event)),
                ..view
            })
        }),
{
}

/// A key whose press went to the renderer's terminal goes there too, as long as the terminal
/// runs; one that moved between replies moves again until it is released; a suppressed one
/// goes nowhere; and one without a place on the keyboard is asked about further.
pub proof fn law_held_keys_follow_their_press(
    view: RendererView,
    event: RoutedEvent,
    route: Option<PhysicalRoute>,
)
    ensures
        ({
            let (next, step) = view.performed(
                Task::PhysicalAnswered(event),
                AnswerView::Physical(route),
            );
            let running = view.target is Some && view.target->0.running;
            let released = event.kind is Key && event.kind->Key_kind == ClientKeyKind::Release;
            &&& route == Some(PhysicalRoute::Forwarded) && running ==> step == Step::Ask(
                Ask::Forward(event),
            ) && next.tasks == view.tasks.push(Task::PhysicalForwarded(event))
            &&& route == Some(PhysicalRoute::Forwarded) && !running && released ==> step is Continue
                && next.tasks == view.tasks.push(Task::BeginFallback).push(
                Task::Perform(Ask::ForgetPhysical(event)),
            )
            &&& route == Some(PhysicalRoute::Forwarded) && !running && !released ==> step
                is Continue && next.tasks == view.tasks.push(Task::BeginFallback).push(
                Task::Perform(Ask::SuppressPhysical(event)),
            )
            &&& route == Some(PhysicalRoute::ReplyNavigation) && running && !released ==> step
                == Step::Ask(Ask::Navigate(event)) && next.tasks == view.tasks.push(Task::Navigated)
            &&& route == Some(PhysicalRoute::ReplyNavigation) && (released || !running) ==> next
                == view && step is Continue
            &&& route == Some(PhysicalRoute::Suppressed) ==> next == view && step is Continue
            &&& route is None ==> step == Step::Ask(Ask::SemanticRoute(event)) && next.tasks
                == view.tasks.push(Task::SemanticAnswered(event))
            &&& next.turn == view.turn
        }),
{
}

/// The same for keys without a place on the keyboard: a forwarded one goes to the terminal, a
/// consumed one is done, and any other is routed as a new event.
pub proof fn law_held_names_follow_their_press(
    view: RendererView,
    event: RoutedEvent,
    route: Option<SemanticRoute>,
)
    ensures
        ({
            let (next, step) = view.performed(
                Task::SemanticAnswered(event),
                AnswerView::Semantic(route),
            );
            let running = view.target is Some && view.target->0.running;
            let released = event.kind is Key && event.kind->Key_kind == ClientKeyKind::Release;
            &&& route == Some(SemanticRoute::Forwarded) && running ==> step == Step::Ask(
                Ask::Forward(event),
            ) && next.tasks == view.tasks.push(Task::SemanticForwarded(event))
            &&& route == Some(SemanticRoute::Forwarded) && !running && released ==> step is Continue
                && next.tasks == view.tasks.push(Task::BeginFallback).push(
                Task::Perform(Ask::ForgetSemantic(event)),
            )
            &&& route == Some(SemanticRoute::Forwarded) && !running && !released ==> step
                is Continue && next.tasks == view.tasks.push(Task::BeginFallback).push(
                Task::Perform(Ask::SuppressSemantic(event)),
            )
            &&& route == Some(SemanticRoute::Consumed { navigated: false }) ==> next == view
                && step is Continue
            &&& route == Some(SemanticRoute::Consumed { navigated: true }) ==> step is Continue
                && next.needs_render && next.tasks == view.tasks.push(Task::Refresh)
            &&& route is None ==> step is Continue && next.tasks == view.tasks.push(
                Task::Observe(event),
            )
            &&& next.turn == view.turn
        }),
{
}

/// A release that was given to the terminal is forgotten; a key that could not be given to it
/// is suppressed until its release, and the renderer is given up. A key that arrived changes
/// nothing.
pub proof fn law_lost_keys_are_suppressed(view: RendererView, event: RoutedEvent, sent: bool)
    ensures
        ({
            let (next, step) = view.performed(
                Task::PhysicalForwarded(event),
                AnswerView::Yes(sent),
            );
            let (named, other) = view.performed(
                Task::SemanticForwarded(event),
                AnswerView::Yes(sent),
            );
            let released = event.kind is Key && event.kind->Key_kind == ClientKeyKind::Release;
            &&& step is Continue && other is Continue
            &&& sent && !released ==> next == view && named == view
            &&& sent && released ==> next.tasks == view.tasks.push(
                Task::Perform(Ask::ForgetPhysical(event)),
            ) && named.tasks == view.tasks.push(Task::Perform(Ask::ForgetSemantic(event)))
            &&& !sent && released ==> next.tasks == view.tasks.push(Task::BeginFallback).push(
                Task::Perform(Ask::ForgetPhysical(event)),
            ) && named.tasks == view.tasks.push(Task::BeginFallback).push(
                Task::Perform(Ask::ForgetSemantic(event)),
            )
            &&& !sent && !released ==> next.tasks == view.tasks.push(Task::BeginFallback).push(
                Task::Perform(Ask::SuppressPhysical(event)),
            ) && named.tasks == view.tasks.push(Task::BeginFallback).push(
                Task::Perform(Ask::SuppressSemantic(event)),
            )
        }),
{
}

/// Moving to another reply is drawn, and the link under the pointer looked up again; where the
/// key did not move, nothing is.
pub proof fn law_moving_between_replies_is_drawn(view: RendererView, yes: bool)
    ensures
        ({
            let (next, step) = view.performed(Task::Navigated, AnswerView::Yes(yes));
            &&& step is Continue
            &&& yes ==> next == (RendererView {
                needs_render: true,
                tasks: view.tasks.push(Task::Refresh),
                ..view
            })
            &&& !yes ==> next == view
        }),
{
}

/// The mouse tells where the pointer is, and losing the focus that it is nowhere; input that is
/// routed again tells nothing.
pub proof fn law_mouse_tells_the_pointer(
    view: RendererView,
    event: RoutedEvent,
    answer: AnswerView,
)
    ensures
        ({
            let (next, step) = view.performed(Task::Observe(event), answer);
            &&& step is Continue
            &&& !view.turn.observe ==> next == (RendererView {
                tasks: view.tasks.push(Task::Clicked(event)),
                ..view
            })
            &&& view.turn.observe && event.kind is Mouse ==> next.pointer_cell == Some(
                (event.kind->column, event.kind->row),
            ) && next.pointer_pixels is None
            &&& view.turn.observe && event.kind is FocusLost ==> next.pointer_cell is None
                && next.pointer_pixels is None
            &&& view.turn.observe && !(event.kind is Mouse) && !(event.kind is FocusLost) ==> next
                == (RendererView { tasks: view.tasks.push(Task::Clicked(event)), ..view })
            &&& next.tasks.len() > view.tasks.len()
            &&& next.tasks[view.tasks.len() as int] == Task::Clicked(event)
            &&& next.pointer_cell != view.pointer_cell ==> next.tasks == view.tasks.push(
                Task::Clicked(event),
            ).push(Task::Refresh)
        }),
{
}

/// While the server's word is awaited, what is typed waits for it.
pub proof fn law_input_waits_for_the_servers_word(
    view: RendererView,
    event: RoutedEvent,
    answer: AnswerView,
)
    requires
        view.awaiting_fallback || view.awaiting_promotion,
        event.sendable,
        !(event.kind is Mouse),
    ensures
        ({
            let (next, step) = view.performed(Task::Clicked(event), answer);
            &&& step is Continue
            &&& next.turn.deferred == view.turn.deferred.push(event)
            &&& next.turn.batch == view.turn.batch
            &&& next.tasks == view.tasks
        }),
{
}

/// Keys may be the prefix of the client's own commands while the renderer's picture is shown;
/// releases and everything else are not asked about.
pub proof fn law_keys_are_held_against_the_prefix(
    view: RendererView,
    event: RoutedEvent,
    answer: AnswerView,
)
    ensures
        ({
            let (next, step) = view.performed(Task::Keyed(event), answer);
            let asks = view.local_selected && view.target is Some && event.kind is Key
                && event.kind->Key_kind != ClientKeyKind::Release;
            &&& asks ==> step == Step::Ask(Ask::MatchesPrefix(event)) && next == (RendererView {
                tasks: view.tasks.push(Task::PrefixAnswered(event)),
                ..view
            })
            &&& !asks ==> step is Continue && next == (RendererView {
                tasks: view.tasks.push(Task::Owned(event)),
                ..view
            })
        }),
{
}

/// The prefix is sent to the server on its own, after what was typed before it, and what is
/// typed from then on is the server's; any other key is routed as it would be.
pub proof fn law_prefix_hands_input_to_the_server(
    view: RendererView,
    event: RoutedEvent,
    answer: AnswerView,
)
    requires
        event.sendable,
    ensures
        ({
            let (next, step) = view.performed(Task::PrefixAnswered(event), AnswerView::Yes(true));
            &&& step is Continue
            &&& view.turn.batch.len() > 0 ==> next.turn.messages == view.turn.messages.push(
                MessageView::InputEvents { events: view.turn.batch },
            ).push(MessageView::InputEvents { events: seq![event] })
            &&& view.turn.batch.len() == 0 ==> next.turn.messages == view.turn.messages.push(
                MessageView::InputEvents { events: seq![event] },
            )
            &&& next.turn.batch.len() == 0
            &&& next.turn.tail
            &&& next.tasks == view.tasks.push(Task::PrefixDone).push(Task::Handoff)
            &&& event.kind is Key && event.kind->Key_kind == ClientKeyKind::Press
                && !view.server_forwarded_presses.contains(event.kind->identity)
                && view.server_forwarded_presses.len() < 256 ==> next.server_forwarded_presses
                == view.server_forwarded_presses.push(event.kind->identity)
        }),
        view.performed(Task::PrefixAnswered(event), AnswerView::Yes(false)) == (
            RendererView { tasks: view.tasks.push(Task::Owned(event)), ..view },
            Step::Continue,
        ),
        ({
            let (next, step) = view.performed(Task::PrefixDone, answer);
            &&& step is Continue
            &&& next.server_owned_input
            &&& next.cached_server_frame is None
            &&& next.needs_render && next.force_repaint
            &&& next.tasks == view.tasks.push(Task::Refresh)
        }),
{
}

/// Where the renderer is not in charge, an event goes to the server with the others of its
/// turn, and a key that is pressed there is remembered until its release.
pub proof fn law_server_gets_its_input(view: RendererView, event: RoutedEvent, answer: AnswerView)
    requires
        !view.local_selected || view.server_owned_input || view.server_forwarded_overflow,
        event.sendable,
    ensures
        ({
            let (next, step) = view.performed(Task::Owned(event), answer);
            &&& step is Continue
            &&& next.turn.batch == view.turn.batch.push(event)
            &&& next.turn.messages == view.turn.messages
            &&& next.turn.tail
            &&& next.tasks == view.tasks
            &&& event.kind is Key && event.kind->Key_kind == ClientKeyKind::Press
                && !view.server_forwarded_presses.contains(event.kind->identity)
                && view.server_forwarded_presses.len() < 256 ==> next.server_forwarded_presses
                == view.server_forwarded_presses.push(event.kind->identity)
                && next.server_forwarded_overflow == view.server_forwarded_overflow
            &&& event.kind is Key && event.kind->Key_kind == ClientKeyKind::Press
                && !view.server_forwarded_presses.contains(event.kind->identity)
                && view.server_forwarded_presses.len() >= 256 ==> next.server_forwarded_overflow
            &&& event.kind is Key && event.kind->Key_kind == ClientKeyKind::Release
                ==> !next.server_forwarded_presses.contains(event.kind->identity)
            &&& event.kind is Text || event.kind is Paste || event.kind is Mouse
                ==> next.server_forwarded_presses == view.server_forwarded_presses
                && next.server_forwarded_overflow == view.server_forwarded_overflow
        }),
{
    if event.kind is Key && event.kind->Key_kind == ClientKeyKind::Release {
        laws::lemma_press_removed(view.server_forwarded_presses, event.kind->identity);
    }
}

/// Where the renderer is in charge, an event goes to its terminal and to nobody else; what has
/// no place on the keyboard goes there as it is.
pub proof fn law_terminal_gets_its_input(
    view: RendererView,
    event: RoutedEvent,
    answer: AnswerView,
)
    requires
        view.local_selected && !view.server_owned_input && !view.server_forwarded_overflow,
    ensures
        view.performed(Task::Owned(event), answer) == (
            RendererView {
                tasks: view.tasks.push(Task::LocalRouted(event)).push(Task::Local(event)),
                ..view
            },
            Step::Continue,
        ),
        !(event.kind is Key) ==> view.performed(Task::Local(event), answer) == (
            RendererView { tasks: view.tasks.push(Task::LocalForward(event)), ..view },
            Step::Continue,
        ),
        view.target is Some && view.target->0.running ==> view.performed(
            Task::LocalForward(event),
            answer,
        ) == (
            RendererView { tasks: view.tasks.push(Task::LocalSent(event)), ..view },
            Step::Ask(Ask::Forward(event)),
        ),
{
}

/// What arrived at the terminal is drawn where it moves the view: what is typed and the wheel
/// do, releases, the pointer and the focus do not. What did not arrive is forgotten as a key,
/// and the server is to get it instead.
pub proof fn law_typing_returns_to_the_end(view: RendererView, event: RoutedEvent)
    ensures
        ({
            let (next, step) = view.performed(Task::LocalSent(event), AnswerView::Yes(true));
            &&& step is Continue
            &&& next.tasks == view.tasks
            &&& next.local.1
            &&& event.kind is Text || event.kind is Paste ==> next.local.0
            &&& event.kind is Key ==> next.local.0 == (event.kind->Key_kind
                != ClientKeyKind::Release)
            &&& event.kind is Mouse ==> next.local.0 == (event.kind->Mouse_kind
                == ClientMouseKind::ScrollUp || event.kind->Mouse_kind
                == ClientMouseKind::ScrollDown)
            &&& event.kind is FocusGained || event.kind is FocusLost || event.kind is Other
                ==> !next.local.0
        }),
        ({
            let (next, step) = view.performed(Task::LocalSent(event), AnswerView::Yes(false));
            &&& step is Continue
            &&& next.local == (false, false)
            &&& event.kind is Key ==> next.tasks == view.tasks.push(
                Task::Perform(Ask::ForgetSemantic(event)),
            ).push(Task::Perform(Ask::ForgetPhysical(event)))
            &&& !(event.kind is Key) ==> next.tasks == view.tasks
        }),
{
}

/// An event that could not be given to the terminal waits for the server, after the renderer
/// was given up; where the terminal is gone, that is known without asking.
pub proof fn law_undelivered_events_wait_for_the_server(
    view: RendererView,
    event: RoutedEvent,
    answer: AnswerView,
)
    ensures
        view.local == (false, false) ==> view.performed(Task::LocalRouted(event), answer) == (
            RendererView {
                tasks: view.tasks.push(Task::DeferEvent(event)).push(Task::BeginFallback),
                ..view
            },
            Step::Continue,
        ),
        view.local == (false, true) ==> view.performed(Task::LocalRouted(event), answer) == (
            view,
            Step::Continue,
        ),
        view.local.0 ==> view.performed(Task::LocalRouted(event), answer) == (
            RendererView { needs_render: true, tasks: view.tasks.push(Task::Refresh), ..view },
            Step::Continue,
        ),
        event.sendable ==> ({
            let (next, step) = view.performed(Task::DeferEvent(event), answer);
            &&& step is Continue
            &&& next.turn.deferred == view.turn.deferred.push(event)
            &&& next.tasks == view.tasks
        }),
        !(view.target is Some && view.target->0.running) ==> ({
            let (next, step) = view.performed(Task::LocalForward(event), answer);
            &&& step is Continue
            &&& next.local == (false, false)
        }),
{
}

/// A key of the keyboard is reserved when it is pressed; of what follows its press nothing is
/// made. A key without a place on the keyboard is asked about by its name.
pub proof fn law_presses_are_reserved(view: RendererView, event: RoutedEvent, answer: AnswerView)
    requires
        event.kind is Key,
    ensures
        ({
            let (next, step) = view.performed(Task::Local(event), answer);
            let pressed = event.kind->Key_kind == ClientKeyKind::Press;
            &&& event.kind->physical && pressed ==> step == Step::Ask(Ask::ReservePress(event))
                && next == (RendererView {
                tasks: view.tasks.push(Task::Reserved { event, navigate: true }),
                ..view
            })
            &&& event.kind->physical && !pressed ==> step is Continue && next == (RendererView {
                local: (false, true),
                ..view
            })
            &&& !event.kind->physical ==> step == Step::Ask(Ask::SemanticPress(event)) && next == (
            RendererView { tasks: view.tasks.push(Task::SemanticPressed(event)), ..view })
        }),
{
}

/// A press that is refused goes nowhere; one that is reserved comes after the releases that are
/// owed.
pub proof fn law_reserved_presses_come_after_releases(
    view: RendererView,
    event: RoutedEvent,
    navigate: bool,
    count: usize,
)
    ensures
        view.performed(Task::Reserved { event, navigate }, AnswerView::Reserved(None)) == (
            RendererView { local: (false, true), ..view },
            Step::Continue,
        ),
        view.performed(Task::Reserved { event, navigate }, AnswerView::Reserved(Some(count))) == (
            RendererView {
                tasks: view.tasks.push(Task::ReleasesDone { event, navigate }).push(
                    Task::ForwardReleases(count),
                ),
                ..view
            },
            Step::Continue,
        ),
{
}

/// Where the owed releases do not arrive, the press is forgotten and the renderer given up.
/// Otherwise the key may move between replies, and else goes to the terminal.
pub proof fn law_presses_go_on_after_releases(
    view: RendererView,
    event: RoutedEvent,
    navigate: bool,
    answer: AnswerView,
)
    ensures
        ({
            let (next, step) = view.performed(Task::ReleasesDone { event, navigate }, answer);
            let running = view.target is Some && view.target->0.running;
            &&& !view.delivered ==> step is Continue && next.local == (false, false) && next.tasks
                == view.tasks.push(Task::BeginFallback).push(
                Task::Perform(Ask::ForgetPhysical(event)),
            )
            &&& view.delivered && navigate && running ==> step == Step::Ask(Ask::Navigate(event))
                && next.tasks == view.tasks.push(Task::LocalNavigated(event)) && next.local
                == view.local
            &&& view.delivered && !(navigate && running) ==> step is Continue && next.tasks
                == view.tasks.push(Task::LocalForward(event)).push(
                Task::Perform(Ask::CommitPress(event, PhysicalRoute::Forwarded)),
            )
            &&& next.turn == view.turn
        }),
{
}

/// A key that moved between replies is kept as one that did, and drawn; one that did not is
/// kept as the terminal's, and goes there.
pub proof fn law_moving_keys_are_kept_as_such(view: RendererView, event: RoutedEvent)
    ensures
        ({
            let (next, step) = view.performed(Task::LocalNavigated(event), AnswerView::Yes(true));
            &&& step is Continue
            &&& next.local == (true, true)
            &&& next.tasks == view.tasks.push(
                Task::Perform(Ask::CommitPress(event, PhysicalRoute::ReplyNavigation)),
            )
        }),
        ({
            let (next, step) = view.performed(Task::LocalNavigated(event), AnswerView::Yes(false));
            &&& step is Continue
            &&& next.tasks == view.tasks.push(Task::LocalForward(event)).push(
                Task::Perform(Ask::CommitPress(event, PhysicalRoute::Forwarded)),
            )
        }),
{
}

/// A key by its name that is consumed is done; one whose press the terminal has goes there; a
/// new press is reserved; anything else goes nowhere.
pub proof fn law_names_are_reserved(
    view: RendererView,
    event: RoutedEvent,
    navigated: bool,
    yes: bool,
)
    requires
        event.kind is Key,
    ensures
        view.performed(
            Task::SemanticPressed(event),
            AnswerView::Semantic(Some(SemanticRoute::Consumed { navigated })),
        ) == (RendererView { local: (navigated, true), ..view }, Step::Continue),
        view.performed(Task::SemanticPressed(event), AnswerView::Semantic(None)) == (
            RendererView { tasks: view.tasks.push(Task::OwnsSemanticAnswered(event)), ..view },
            Step::Ask(Ask::OwnsSemantic(event)),
        ),
        view.performed(Task::OwnsSemanticAnswered(event), AnswerView::Yes(true)) == (
            RendererView { tasks: view.tasks.push(Task::LocalForward(event)), ..view },
            Step::Continue,
        ),
        event.kind->Key_kind == ClientKeyKind::Press ==> view.performed(
            Task::OwnsSemanticAnswered(event),
            AnswerView::Yes(false),
        ) == (
            RendererView {
                tasks: view.tasks.push(Task::Reserved { event, navigate: false }),
                ..view
            },
            Step::Ask(Ask::ReservePress(event)),
        ),
        event.kind->Key_kind != ClientKeyKind::Press ==> view.performed(
            Task::OwnsSemanticAnswered(event),
            AnswerView::Yes(false),
        ) == (RendererView { local: (false, true), ..view }, Step::Continue),
{
}

/// Owed releases are given to a running terminal; where none are owed all have arrived, and
/// where no terminal runs none have.
pub proof fn law_owed_releases_are_given(view: RendererView, count: usize, yes: bool)
    ensures
        ({
            let (next, step) = view.performed(
                Task::ForwardReleases(count),
                AnswerView::Yes(yes),
            );
            let running = view.target is Some && view.target->0.running;
            &&& count == 0 ==> next == (RendererView { delivered: true, ..view }) && step
                is Continue
            &&& count > 0 && !running ==> next == (RendererView { delivered: false, ..view })
                && step is Continue
            &&& count > 0 && running ==> step == Step::Ask(Ask::ForwardReleases) && next == (
            RendererView { tasks: view.tasks.push(Task::Delivered), ..view })
        }),
        view.performed(Task::Delivered, AnswerView::Yes(yes)) == (
            RendererView { delivered: yes, ..view },
            Step::Continue,
        ),
        view.performed(Task::Retire, AnswerView::Yes(yes)) == (
            RendererView { tasks: view.tasks.push(Task::Retired), ..view },
            Step::Ask(Ask::RetireOwner),
        ),
        view.performed(Task::Retired, AnswerView::Releases(count)) == (
            RendererView { tasks: view.tasks.push(Task::ForwardReleases(count)), ..view },
            Step::Continue,
        ),
{
}

// ---- The focus --------------------------------------------------------------------------------
/// When the focus is lost, owed releases are given first; then the terminal is told, where it
/// had the input or a key; and the server is told where it had the input or holds a key, or
/// where the terminal could not be told.
pub proof fn law_lost_focus_is_told(
    view: RendererView,
    event: RoutedEvent,
    count: usize,
    forward: bool,
    yes: bool,
)
    requires
        event.kind is FocusLost,
        event.sendable,
    ensures
        !view.awaiting_fallback && !view.awaiting_promotion ==> view.performed(
            Task::Clicked(event),
            AnswerView::Done,
        ) == (
            RendererView {
                tasks: view.tasks.push(
                    Task::FocusReleased {
                        event,
                        forward: view.server_forwarded_presses.len() > 0
                            || view.server_forwarded_overflow || view.server_owned_input
                            || !view.local_selected,
                    },
                ).push(Task::FocusLoss),
                ..view
            },
            Step::Continue,
        ),
        view.local_selected && !view.server_owned_input ==> view.performed(
            Task::FocusLoss,
            AnswerView::Done,
        ) == (
            RendererView { tasks: view.tasks.push(Task::FocusOwned(true)), ..view },
            Step::Continue,
        ),
        !view.local_selected || view.server_owned_input ==> view.performed(
            Task::FocusLoss,
            AnswerView::Done,
        ) == (
            RendererView { tasks: view.tasks.push(Task::FocusAsked), ..view },
            Step::Ask(Ask::HasForwarded),
        ),
        view.performed(Task::FocusAsked, AnswerView::Yes(yes)) == (
            RendererView { tasks: view.tasks.push(Task::FocusOwned(yes)), ..view },
            Step::Continue,
        ),
        view.performed(Task::FocusOwned(forward), AnswerView::Done) == (
            RendererView { tasks: view.tasks.push(Task::FocusReleases(forward)), ..view },
            Step::Ask(Ask::ReleaseForFocusLoss),
        ),
        ({
            let (next, step) = view.performed(
                Task::FocusReleases(forward),
                AnswerView::Releases(count),
            );
            let owed = view.tasks.push(Task::FocusForward(forward)).push(
                Task::ForwardReleases(count),
            );
            &&& step is Continue
            &&& next.pointer_cell is None && next.pointer_pixels is None
            &&& view.pointer_cell is None ==> next.tasks == owed
            &&& view.pointer_cell is Some ==> next.tasks == owed.push(Task::Refresh)
        }),
        ({
            let (next, step) = view.performed(Task::FocusReleased { event, forward }, AnswerView::Done);
            &&& step is Continue
            &&& next.server_forwarded_presses.len() == 0
            &&& !next.server_forwarded_overflow
            &&& next.tasks == view.tasks
            &&& forward || !view.focus_delivered ==> next.turn.batch == view.turn.batch.push(event)
                && next.turn.tail
            &&& !forward && view.focus_delivered ==> next.turn == view.turn
        }),
{
}

/// The terminal learns of the lost focus where it is to; where that, or a release before it,
/// does not arrive, the renderer is given up.
pub proof fn law_lost_focus_reaches_the_terminal(view: RendererView, yes: bool)
    ensures
        view.target is Some && view.target->0.running ==> view.performed(
            Task::FocusForward(true),
            AnswerView::Done,
        ) == (
            RendererView { tasks: view.tasks.push(Task::FocusSent), ..view },
            Step::Ask(Ask::ForwardFocusLost),
        ),
        !(view.target is Some && view.target->0.running) ==> view.performed(
            Task::FocusForward(true),
            AnswerView::Done,
        ) == (
            RendererView {
                focus_delivered: false,
                tasks: view.tasks.push(Task::BeginFallback),
                ..view
            },
            Step::Continue,
        ),
        view.delivered ==> view.performed(Task::FocusForward(false), AnswerView::Done) == (
            RendererView { focus_delivered: true, ..view },
            Step::Continue,
        ),
        !view.delivered ==> view.performed(Task::FocusForward(false), AnswerView::Done) == (
            RendererView {
                focus_delivered: false,
                tasks: view.tasks.push(Task::BeginFallback),
                ..view
            },
            Step::Continue,
        ),
        view.delivered && yes ==> view.performed(Task::FocusSent, AnswerView::Yes(yes)) == (
            RendererView { focus_delivered: true, ..view },
            Step::Continue,
        ),
        !(view.delivered && yes) ==> view.performed(Task::FocusSent, AnswerView::Yes(yes)) == (
            RendererView {
                focus_delivered: false,
                tasks: view.tasks.push(Task::BeginFallback),
                ..view
            },
            Step::Continue,
        ),
{
}

// ---- Links ------------------------------------------------------------------------------------
/// A press of the left button looks for a link under it, with a number of its own for the
/// request, where the renderer's terminal is shown and has the input.
pub proof fn law_clicks_look_for_links(view: RendererView, event: RoutedEvent, answer: AnswerView)
    requires
        event.kind is Mouse,
        event.kind->Mouse_kind == ClientMouseKind::Down(MouseButton::Left),
        view.pending_link_request_id is None,
        !view.awaiting_fallback && !view.awaiting_promotion,
    ensures
        ({
            let (next, step) = view.performed(Task::Clicked(event), answer);
            let active = view.local_selected && !view.server_owned_input
                && !view.server_forwarded_overflow;
            let running = view.target is Some && view.target->0.running;
            &&& active && running ==> step == Step::Ask(
                Ask::LinkAt { column: event.kind->column, row: event.kind->row },
            ) && next.tasks == view.tasks.push(
                Task::LinkAnswered { event, request_id: view.next_link_request_id },
            )
            &&& active && view.next_link_request_id < u64::MAX ==> next.next_link_request_id
                == view.next_link_request_id + 1
            &&& active && view.next_link_request_id == u64::MAX ==> next.next_link_request_id == 1
            &&& !(active && running) ==> step is Continue && next.tasks == view.tasks.push(
                Task::Keyed(event),
            )
            &&& !active ==> next.next_link_request_id == view.next_link_request_id
            &&& !next.pending_link_click
            &&& next.pending_link_input is None
            &&& next.queued_link_inputs.len() == 0
        }),
{
}

/// A link under the button is told to the server with its address, the number of the request
/// and that of the launch, after what came before in the turn; the click waits for the answer.
/// Where there is none, the click is routed as any event.
pub proof fn law_links_are_told_to_the_server(
    view: RendererView,
    event: RoutedEvent,
    request_id: u64,
    link: LinkView,
)
    requires
        view.target is Some,
        vstd::utf8::encode_utf8(link.url).len() <= view.max_link_url,
        event.sendable,
    ensures
        ({
            let (next, step) = view.performed(
                Task::LinkAnswered { event, request_id },
                AnswerView::Link(Some(link)),
            );
            let told = MessageView::ActivateOmpLink {
                launch_id: view.target->0.launch_id,
                request_id,
                url: link.url,
            };
            &&& step is Continue
            &&& view.turn.batch.len() == 0 ==> next.turn.messages == view.turn.messages.push(told)
            &&& view.turn.batch.len() > 0 ==> next.turn.messages == view.turn.messages.push(
                MessageView::InputEvents { events: view.turn.batch },
            ).push(told)
            &&& next.turn.batch.len() == 0
            &&& next.turn.tail
            &&& next.pending_link_click
            &&& next.pending_link_request_id == Some(request_id)
            &&& next.pending_link_input == Some(
                LinkInputView::Events { events: seq![event], generation: view.turn.generation },
            )
            &&& next.tasks == view.tasks
        }),
        view.performed(Task::LinkAnswered { event, request_id }, AnswerView::Link(None)) == (
            RendererView { tasks: view.tasks.push(Task::Keyed(event)), ..view },
            Step::Continue,
        ),
{
}

/// The rest of a click on a link belongs to it until the button is released; everything else
/// queues behind the request.
pub proof fn law_rest_of_the_click_waits(
    view: RendererView,
    event: RoutedEvent,
    events: Seq<RoutedEvent>,
    generation: u64,
    answer: AnswerView,
)
    requires
        view.turn.events.len() > 0,
        event == view.turn.events[0],
        event.sendable,
        view.pending_link_request_id is Some,
        view.pending_link_input == Some(LinkInputView::Events { events, generation }),
        events.len() < 256,
        view.queued_link_inputs.len() < 256,
    ensures
        ({
            let (next, step) = view.performed(Task::NextEvent, answer);
            let dragged = event.kind is Mouse && event.kind->Mouse_kind == ClientMouseKind::Drag(
                MouseButton::Left,
            );
            let raised = event.kind is Mouse && event.kind->Mouse_kind == ClientMouseKind::Up(
                MouseButton::Left,
            );
            let pressed = event.kind is Mouse && event.kind->Mouse_kind == ClientMouseKind::Down(
                MouseButton::Left,
            );
            let joined = Some(LinkInputView::Events { events: events.push(event), generation });
            &&& step is Continue
            &&& next.tasks == view.tasks.push(Task::NextEvent)
            &&& view.pending_link_click && dragged ==> next.pending_link_input == joined
                && next.pending_link_click && next.queued_link_inputs == view.queued_link_inputs
            &&& view.pending_link_click && raised ==> next.pending_link_input == joined
                && !next.pending_link_click && next.queued_link_inputs == view.queued_link_inputs
            &&& !(view.pending_link_click && (dragged || raised)) ==> next.queued_link_inputs
                == view.queued_link_inputs.push(
                LinkInputView::Events { events: seq![event], generation: view.turn.generation },
            ) && next.pending_link_input == view.pending_link_input
            &&& pressed ==> !next.pending_link_click
            &&& next.turn.batch == view.turn.batch
        }),
{
}

/// The same of a click whose request is answered already: the rest of it still belongs to the
/// link, and goes nowhere.
pub proof fn law_rest_of_an_activated_click_is_void(
    view: RendererView,
    event: RoutedEvent,
    answer: AnswerView,
)
    requires
        view.pending_link_click,
        view.pending_link_input is None,
        event.kind is Mouse,
    ensures
        event.kind->Mouse_kind == ClientMouseKind::Drag(MouseButton::Left) ==> view.performed(
            Task::Clicked(event),
            answer,
        ) == (view, Step::Continue),
        event.kind->Mouse_kind == ClientMouseKind::Up(MouseButton::Left) ==> view.performed(
            Task::Clicked(event),
            answer,
        ) == (RendererView { pending_link_click: false, ..view }, Step::Continue),
{
}

/// An answer to another request changes nothing. A link that the server took makes the click
/// void; one that it refused makes it an ordinary click again, for whoever has the input. What
/// queued behind follows.
pub proof fn law_answers_about_links(
    view: RendererView,
    launch_id: u64,
    request_id: u64,
    activated: bool,
    generation: u64,
)
    ensures
        ({
            let next = view.resolve_link(launch_id, request_id, activated, generation);
            let own = view.target is Some && view.target->0.launch_id == launch_id;
            let active = view.local_selected && !view.server_owned_input
                && !view.server_forwarded_overflow;
            &&& view.pending_link_request_id != Some(request_id) ==> next == view
            &&& view.pending_link_request_id == Some(request_id) ==> next.pending_link_request_id
                is None && next.pending_link_input is None
            &&& view.pending_link_request_id == Some(request_id) && own && activated
                ==> next.pending_link_click == view.pending_link_click && next.tasks
                == view.tasks.push(Task::DrainQueued) && next.outbound_messages
                == view.outbound_messages && next.replay == view.replay
            &&& view.pending_link_request_id == Some(request_id) && !own
                ==> !next.pending_link_click && next.tasks == view.tasks.push(Task::DrainQueued)
                && next.outbound_messages == view.outbound_messages
            &&& view.pending_link_request_id == Some(request_id) && own && !activated
                ==> !next.pending_link_click
            &&& view.pending_link_request_id == Some(request_id) && own && !activated
                && view.pending_link_input is None ==> next.tasks == view.tasks.push(
                Task::DrainQueued,
            )
            &&& view.pending_link_request_id == Some(request_id) && own && !activated && active && (
            view.pending_link_input matches Some(LinkInputView::Events { events, generation: read })
                && read == generation) ==> next.replay
                == view.pending_link_input->0->Events_events && !next.replay_render && next.tasks
                == view.tasks.push(Task::DrainQueued).push(Task::ReplayNext(generation))
            &&& view.pending_link_request_id == Some(request_id) && own && !activated && !active
                && (view.pending_link_input matches Some(
                LinkInputView::Events { events, generation: read },
            ) && read == generation) ==> next.outbound_messages == view.outbound_messages.push(
                MessageView::InputEvents { events: view.pending_link_input->0->Events_events },
            ) && next.tasks == view.tasks.push(Task::DrainQueued)
        }),
{
}

/// A refused click is given to the terminal event by event, in order; what arrives is drawn at
/// the end, and what does not waits for the server with all that follows it.
pub proof fn law_refused_clicks_are_replayed(
    view: RendererView,
    generation: u64,
    answer: AnswerView,
)
    ensures
        view.replay.len() > 0 ==> view.performed(Task::ReplayNext(generation), answer) == (
            RendererView {
                tasks: view.tasks.push(Task::ReplayRouted(generation)).push(
                    Task::Local(view.replay[0]),
                ),
                ..view
            },
            Step::Continue,
        ),
        view.replay.len() == 0 && !view.replay_render ==> view.performed(
            Task::ReplayNext(generation),
            answer,
        ) == (view, Step::Continue),
        view.replay.len() == 0 && view.replay_render ==> view.performed(
            Task::ReplayNext(generation),
            answer,
        ) == (
            RendererView { needs_render: true, tasks: view.tasks.push(Task::Refresh), ..view },
            Step::Continue,
        ),
        view.replay.len() > 0 && view.local.1 ==> view.performed(
            Task::ReplayRouted(generation),
            answer,
        ) == (
            RendererView {
                replay_render: view.replay_render || view.local.0,
                replay: view.replay.drop_first(),
                tasks: view.tasks.push(Task::ReplayNext(generation)),
                ..view
            },
            Step::Continue,
        ),
        !view.local.1 && !view.local.0 && !view.replay_render ==> view.performed(
            Task::ReplayRouted(generation),
            answer,
        ) == (
            RendererView {
                tasks: view.tasks.push(Task::DeferReplay(generation)).push(Task::BeginFallback),
                ..view
            },
            Step::Continue,
        ),
        ({
            let (next, step) = view.performed(Task::DeferReplay(generation), answer);
            &&& step is Continue
            &&& next.deferred_messages == view.deferred_messages.push(
                model::DeferredView::InputEvents { events: view.replay, generation },
            )
            &&& next.replay.len() == 0
            &&& next.tasks == view.tasks
        }),
{
}

// ---- The pointer ------------------------------------------------------------------------------
/// The link under the pointer is looked up where the renderer's terminal is shown and has the
/// input; its cells are marked. Without a link nothing is, and a change is drawn.
pub proof fn law_link_under_the_pointer_is_marked(
    view: RendererView,
    link: LinkView,
    answer: AnswerView,
)
    ensures
        ({
            let (next, step) = view.performed(Task::Refresh, answer);
            let seen = view.local_selected && !view.server_owned_input
                && !view.server_forwarded_overflow && view.target is Some
                && view.target->0.running;
            &&& seen && view.pointer_cell is Some ==> step == Step::Ask(
                Ask::LinkAt { column: (view.pointer_cell->0).0, row: (view.pointer_cell->0).1 },
            ) && next == (RendererView { tasks: view.tasks.push(Task::Refreshed), ..view })
            &&& !(seen && view.pointer_cell is Some) ==> step is Continue
                && next.hovered_link_cells is None && next.tasks == view.tasks && (
            view.hovered_link_cells is Some ==> next.needs_render)
        }),
        vstd::utf8::encode_utf8(link.url).len() <= view.max_link_url ==> ({
            let (next, step) = view.performed(Task::Refreshed, AnswerView::Link(Some(link)));
            &&& step is Continue
            &&& next.hovered_link_cells == Some(link.cells)
            &&& view.hovered_link_cells != Some(link.cells) ==> next.needs_render
            &&& view.hovered_link_cells == Some(link.cells) ==> next == view
        }),
        ({
            let (next, step) = view.performed(Task::Refreshed, AnswerView::Link(None));
            &&& step is Continue
            &&& next.hovered_link_cells is None
            &&& view.hovered_link_cells is Some ==> next.needs_render
            &&& view.hovered_link_cells is None ==> next == view
        }),
{
}

/// A pointer that is known by its pixels is found again in the surface of now; a new cell is
/// looked at for its link.
pub proof fn law_pointer_pixels_are_found_again(
    view: RendererView,
    cell: Option<(u16, u16)>,
    answer: AnswerView,
)
    ensures
        view.pointer_pixels is None ==> view.performed(Task::Remap, answer) == (
            view,
            Step::Continue,
        ),
        view.pointer_pixels is Some && view.target is Some ==> view.performed(Task::Remap, answer)
            == (
            RendererView { tasks: view.tasks.push(Task::Remapped), ..view },
            Step::Ask(
                Ask::PixelCell {
                    pointer: view.pointer_pixels->0,
                    size: Some(view.target->0.size),
                },
            ),
        ),
        view.pointer_pixels is Some && view.target is None ==> view.performed(Task::Remap, answer)
            == (
            RendererView { tasks: view.tasks.push(Task::Remapped), ..view },
            Step::Ask(
                Ask::PixelCell {
                    pointer: view.pointer_pixels->0,
                    size: None,
                },
            ),
        ),
        view.pointer_cell != cell ==> view.performed(Task::Remapped, AnswerView::Cell(cell)) == (
            RendererView { pointer_cell: cell, tasks: view.tasks.push(Task::Refresh), ..view },
            Step::Continue,
        ),
        view.pointer_cell == cell ==> view.performed(Task::Remapped, AnswerView::Cell(cell)) == (
            view,
            Step::Continue,
        ),
{
}

} // verus!
