use herdr::input::framing::HostGeometry;
use herdr::input::windows::{
    ClientInputEvent, ClientKeyCode, ClientKeyKind, ClientKeySource, ClientMouseKind, MouseButton,
    RawInputEvent, RawKey,
};
use herdr::omp_pane::record::OmpRoute;
use herdr::renderer::fields::{ClientOmpRenderer, SurfaceFrame};
use herdr::renderer::forward::{
    counts_as_sent, decode_local_pixel_mouse, encode_local_mouse, forward_local_event,
    forward_local_focus_event, forward_local_pixel_mouse, forward_local_wheel,
    local_pixel_position, surface_pixels, wheel_next, ForwardPlan, MouseEncoding, WheelAsk,
    WheelRouting,
};
use herdr::renderer::frame::{Frame, FrameCell};
use herdr::renderer::model::{
    add_input_usage, capabilities, client_input_event_usage, routed_event, Answer, Ask,
    ClientMessage, EventKind, InputUsage, LocalEffect, LocalMouse, PhysicalRoute, PixelEvent,
    RoutedEvent, SemanticRoute, SurfaceSize, TargetEvent, TerminalLink, MAX_PENDING_INPUT_EVENTS,
    MAX_PENDING_INPUT_PAYLOAD_BYTES, MAX_QUEUED_LINK_INPUTS, MAX_TRACKED_SERVER_PRESSES,
};
use herdr::renderer::spawn::{launch_id_value, launch_id_variable, renderer_args, terminal_side};
use herdr::renderer::state::{Step, TargetRequest};
use std::collections::HashMap;

const UNDERLINED: u16 = 8;
const MAX_LINK_URL: usize = 64;

const SIZE: SurfaceSize = SurfaceSize { columns: 4, rows: 1, cell_width: 10, cell_height: 20 };

const GEOMETRY: HostGeometry = HostGeometry { columns: 4, rows: 1, width: 40, height: 20 };

/// The key that begins a command of the client.
const PREFIX: u64 = 1000;

/// What reached the renderer's own terminal.
#[derive(Debug, Clone, Copy, PartialEq, Eq)]
enum Sent {
    Event(u64),
    Pixel(u64),
    Releases,
    FocusLost,
}

/// A client loop around the renderer, with a terminal that records what it is given.
struct Client {
    renderer: ClientOmpRenderer,
    sent: Vec<Sent>,
    /// Whether the terminal takes input.
    writable: bool,
    navigates: bool,
    link: Option<TerminalLink>,
    physical: HashMap<u64, PhysicalRoute>,
    semantic: HashMap<u64, SemanticRoute>,
    stopped: bool,
    now: u64,
}

fn route() -> OmpRoute {
    OmpRoute {
        pane_id: "pane".into(),
        omp_session_id: "session".into(),
        route_generation: 1,
    }
}

fn cell(symbol: &str) -> FrameCell {
    FrameCell {
        symbol: symbol.into(),
        foreground: 0,
        background: 0,
        modifier: 0,
        hyperlink: Some(0),
    }
}

fn frame(columns: u16, rows: u16) -> Frame {
    Frame {
        width: columns,
        height: rows,
        cells: (0..usize::from(columns) * usize::from(rows)).map(|_| cell("x")).collect(),
        hyperlinks: vec!["https://example.com".into()],
    }
}

fn link(url: &str) -> Option<TerminalLink> {
    Some(TerminalLink { url: url.into(), cells: vec![(0, 0), (1, 0)] })
}

impl Client {
    fn new(available: bool) -> Client {
        Client {
            renderer: ClientOmpRenderer::new(available, MAX_LINK_URL),
            sent: Vec::new(),
            writable: true,
            navigates: false,
            link: None,
            physical: HashMap::new(),
            semantic: HashMap::new(),
            stopped: false,
            now: 0,
        }
    }

    /// A client whose renderer was promoted and is shown.
    fn active() -> Client {
        let mut client = Client::warming();
        client.frame(true, &[]);
        assert_eq!(
            client.renderer.take_outbound_messages(),
            [ClientMessage::OmpRendererReady { launch_id: 1 }]
        );
        client.target(1, true, true);
        assert!(client.renderer.is_local_selected());
        client.frame(true, &[]);
        client.sent.clear();
        client
    }

    /// A client whose renderer was bound, and has not drawn yet.
    fn warming() -> Client {
        let mut client = Client::new(true);
        client.target(1, false, false);
        client.target(1, true, false);
        client
    }

    /// A client whose renderer waits for the server's word.
    fn ready() -> Client {
        let mut client = Client::warming();
        client.frame(true, &[]);
        client.renderer.take_outbound_messages();
        client
    }

    fn owed(&mut self) -> usize {
        let held: Vec<u64> = self
            .physical
            .iter()
            .filter(|(_, route)| **route == PhysicalRoute::Forwarded)
            .map(|(key, _)| *key)
            .collect();
        for key in &held {
            self.physical.insert(*key, PhysicalRoute::Suppressed);
        }
        let semantic = self.semantic.len();
        self.semantic.clear();
        held.len() + semantic
    }

    fn give(&mut self, sent: Sent) -> Answer {
        if self.writable {
            self.sent.push(sent);
        }
        Answer::Yes(self.writable)
    }

    fn answer(&mut self, ask: Ask) -> Answer {
        match ask {
            Ask::OwnsKey(event) => Answer::Yes(self.owns(&event)),
            Ask::PhysicalRoute(event) => match event.kind {
                EventKind::Key { identity, physical: true, kind } => {
                    let route = self.physical.get(&identity).copied();
                    if kind == ClientKeyKind::Release && route != Some(PhysicalRoute::Forwarded) {
                        self.physical.remove(&identity);
                    }
                    Answer::Physical(route)
                }
                _ => Answer::Physical(None),
            },
            Ask::SemanticRoute(event) => match event.kind {
                EventKind::Key { identity, kind, .. } if kind != ClientKeyKind::Press => {
                    Answer::Semantic(self.semantic.get(&identity).copied())
                }
                _ => Answer::Semantic(None),
            },
            Ask::SemanticPress(event) => Answer::Semantic(if self.navigates && event.is_pressed() {
                Some(SemanticRoute::Consumed { navigated: true })
            } else {
                None
            }),
            Ask::OwnsSemantic(event) => match event.kind {
                EventKind::Key { identity, .. } => {
                    Answer::Yes(self.semantic.contains_key(&identity))
                }
                _ => Answer::Yes(false),
            },
            Ask::Forward(event) => self.give(Sent::Event(event.id)),
            Ask::Navigate(_) => Answer::Yes(self.navigates),
            Ask::ReservePress(_) => Answer::Reserved(Some(0)),
            Ask::CommitPress(event, route) => {
                if let EventKind::Key { identity, physical, .. } = event.kind {
                    if physical {
                        self.physical.insert(identity, route);
                    } else {
                        self.semantic.insert(identity, SemanticRoute::Forwarded);
                    }
                }
                Answer::Done
            }
            Ask::ForgetPhysical(event) => {
                if let EventKind::Key { identity, .. } = event.kind {
                    self.physical.remove(&identity);
                }
                Answer::Done
            }
            Ask::ForgetSemantic(event) => {
                if let EventKind::Key { identity, .. } = event.kind {
                    self.semantic.remove(&identity);
                }
                Answer::Done
            }
            Ask::SuppressPhysical(event) => {
                if let EventKind::Key { identity, .. } = event.kind {
                    self.physical.insert(identity, PhysicalRoute::Suppressed);
                }
                Answer::Done
            }
            Ask::SuppressSemantic(_) => Answer::Done,
            Ask::HasForwarded => Answer::Yes(
                !self.semantic.is_empty()
                    || self.physical.values().any(|route| *route == PhysicalRoute::Forwarded),
            ),
            Ask::ReleaseForFocusLoss => {
                let owed = self.owed();
                self.physical.clear();
                Answer::Releases(owed)
            }
            Ask::RetireOwner => Answer::Releases(self.owed()),
            Ask::ForwardReleases => self.give(Sent::Releases),
            Ask::ForwardFocusLost => self.give(Sent::FocusLost),
            Ask::LinkAt { column, row } => Answer::Link(
                self.link.clone().filter(|link| link.cells.contains(&(column, row))),
            ),
            Ask::MatchesPrefix(event) => {
                Answer::Yes(matches!(event.kind, EventKind::Key { identity: PREFIX, .. }))
            }
            Ask::RenderFrame { columns, rows } => Answer::Drawn(Some(frame(columns, rows))),
            Ask::StopRuntime => {
                self.stopped = true;
                Answer::Done
            }
            Ask::ResizeRuntime(_) => Answer::Done,
            Ask::Spawn => Answer::Yes(true),
            Ask::PixelCell { pointer, size } => {
                let size = size.unwrap_or(SIZE);
                let column = (pointer.x - 1) * u32::from(size.columns) / pointer.geometry.width;
                let row = (pointer.y - 1) * u32::from(size.rows) / pointer.geometry.height;
                Answer::Cell(
                    if column < u32::from(size.columns) && row < u32::from(size.rows) {
                        Some((column as u16, row as u16))
                    } else {
                        None
                    },
                )
            }
            Ask::LocalMouse { pixel, size } => {
                let cell = pixel.report.and_then(|(x, y)| {
                    let column = (x - 1) * u32::from(size.columns) / pixel.geometry.width;
                    let row = (y - 1) * u32::from(size.rows) / pixel.geometry.height;
                    if column < u32::from(size.columns) && row < u32::from(size.rows) {
                        Some((column as u16, row as u16))
                    } else {
                        None
                    }
                });
                Answer::Mouse(decode_local_pixel_mouse(true, pixel.kind, pixel.report, cell))
            }
            Ask::ForwardPixel(pixel) => self.give(Sent::Pixel(pixel.id)),
        }
    }

    fn owns(&self, event: &RoutedEvent) -> bool {
        match event.kind {
            EventKind::Key { identity, .. } => {
                self.physical.contains_key(&identity) || self.semantic.contains_key(&identity)
            }
            _ => false,
        }
    }

    fn run(&mut self) {
        let mut answer = Answer::Done;
        loop {
            match self.renderer.advance(answer) {
                Step::Continue => answer = Answer::Done,
                Step::Ask(ask) => answer = self.answer(ask),
                Step::Finished => return,
            }
        }
    }

    fn input(&mut self, events: &[RoutedEvent]) -> Vec<ClientMessage> {
        self.input_in(events, 0)
    }

    fn input_in(&mut self, events: &[RoutedEvent], generation: u64) -> Vec<ClientMessage> {
        self.renderer.route_input_at_generation(events.to_vec(), generation);
        self.run();
        self.renderer.take_result()
    }

    fn pixel(&mut self, pixel: PixelEvent, generation: u64) -> Vec<ClientMessage> {
        self.renderer.route_pixel_input(pixel, generation);
        self.run();
        self.renderer.take_result()
    }

    fn flush(&mut self) -> Vec<ClientMessage> {
        self.renderer.flush_post_send_input();
        self.run();
        self.renderer.take_result()
    }

    fn target_in(&mut self, request: TargetRequest) {
        self.renderer.apply_target(request);
        self.run();
    }

    fn request(&self, launch_id: u64, bound: bool, surface_active: bool) -> TargetRequest {
        TargetRequest {
            launch_id,
            target_app_client_id: 2,
            route: Some(route()),
            bound,
            surface_active,
            size: SIZE,
            generation: 0,
            now: self.now,
        }
    }

    fn target(&mut self, launch_id: u64, bound: bool, surface_active: bool) {
        let request = self.request(launch_id, bound, surface_active);
        self.target_in(request);
    }

    fn withdraw(&mut self, launch_id: u64) {
        let request = TargetRequest { route: None, ..self.request(launch_id, false, false) };
        self.target_in(request);
    }

    fn frame(&mut self, damaged: bool, events: &[TargetEvent]) -> Option<SurfaceFrame> {
        let damage = if damaged { Some(true) } else { None };
        self.renderer.next_frame(self.now, (SIZE.columns, SIZE.rows), damage, &events.to_vec());
        self.run();
        self.renderer.take_surface()
    }

    fn pointer(&mut self, cell: Option<(u16, u16)>) {
        self.renderer.observe_pointer_cell(cell);
        self.run();
    }

    fn resolve(&mut self, request_id: u64, activated: bool, generation: u64) {
        self.renderer.resolve_link_activation(1, request_id, activated, generation);
        self.run();
    }

    /// Everything that is sent to the server, in order, each batch after the last was sent.
    fn collect(&mut self, mut messages: Vec<ClientMessage>) -> Vec<u64> {
        let mut sent = Vec::new();
        loop {
            for message in messages {
                if let ClientMessage::InputEvents { events } = message {
                    sent.extend(events.iter().map(|event| event.id));
                }
            }
            messages = self.flush();
            if messages.is_empty() {
                return sent;
            }
        }
    }

    fn native_link_active(&self) -> Option<bool> {
        let link = self
            .renderer
            .pointer_cell()
            .zip(self.link.as_ref())
            .is_some_and(|(cell, link)| {
                link.cells.contains(&cell) && link.url.len() <= MAX_LINK_URL
            });
        self.renderer.native_link_active(link)
    }
}

fn event(id: u64, kind: EventKind) -> RoutedEvent {
    RoutedEvent { id, kind, sendable: true, payload: 1 }
}

fn physical(id: u64, identity: u64, kind: ClientKeyKind) -> RoutedEvent {
    event(id, EventKind::Key { identity, physical: true, kind })
}

fn semantic(id: u64, identity: u64, kind: ClientKeyKind) -> RoutedEvent {
    event(id, EventKind::Key { identity, physical: false, kind })
}

fn text(id: u64) -> RoutedEvent {
    event(id, EventKind::Text)
}

fn mouse(id: u64, kind: ClientMouseKind) -> RoutedEvent {
    event(id, EventKind::Mouse { kind, column: 0, row: 0 })
}

fn pixel(id: u64, kind: ClientMouseKind, x: u32, y: u32) -> PixelEvent {
    PixelEvent { id, payload: 3, geometry: GEOMETRY, kind: Some(kind), report: Some((x, y)) }
}

fn ids(messages: &[ClientMessage]) -> Vec<u64> {
    messages
        .iter()
        .flat_map(|message| match message {
            ClientMessage::InputEvents { events } => events.iter().map(|event| event.id).collect(),
            _ => Vec::new(),
        })
        .collect()
}

const PRESS: ClientKeyKind = ClientKeyKind::Press;
const REPEAT: ClientKeyKind = ClientKeyKind::Repeat;
const RELEASE: ClientKeyKind = ClientKeyKind::Release;
const DOWN: ClientMouseKind = ClientMouseKind::Down(MouseButton::Left);
const DRAG: ClientMouseKind = ClientMouseKind::Drag(MouseButton::Left);
const UP: ClientMouseKind = ClientMouseKind::Up(MouseButton::Left);

fn raw_key(code: Option<ClientKeyCode>) -> RawInputEvent {
    RawInputEvent::Key(RawKey {
        identity: 7,
        physical: true,
        code,
        modifiers: 0,
        kind: RELEASE,
        repeat_count: 1,
        generated_text: Some("\u{e4}".into()),
        vt_bytes: Some(b"\x1b[A".to_vec()),
        windows_record: None,
    })
}

#[test]
fn a_framed_event_is_routed_by_what_matters_of_it() {
    let (routed, sent) = routed_event(3, raw_key(Some(ClientKeyCode::Up)));
    let kind = EventKind::Key { identity: 7, physical: true, kind: RELEASE };
    assert_eq!(routed, RoutedEvent { id: 3, kind, sendable: true, payload: 5 });
    let sent = sent.unwrap();
    assert_eq!(client_input_event_usage(&sent), InputUsage { events: 1, payload: 5 });
    assert_eq!(
        sent,
        ClientInputEvent::Key {
            code: ClientKeyCode::Up,
            modifiers: 0,
            kind: RELEASE,
            repeat_count: 1,
            generated_text: Some("\u{e4}".into()),
            source: ClientKeySource::Vt { bytes: b"\x1b[A".to_vec() },
        }
    );

    let (routed, sent) = routed_event(4, raw_key(None));
    assert_eq!(routed, RoutedEvent { id: 4, kind, sendable: false, payload: 0 });
    assert_eq!(sent, None);

    let mouse = |kind| RawInputEvent::Mouse { kind, column: 2, row: 5, modifiers: 1 };
    let (routed, sent) = routed_event(5, mouse(Some(DRAG)));
    let kind = EventKind::Mouse { kind: DRAG, column: 2, row: 5 };
    assert_eq!(routed, RoutedEvent { id: 5, kind, sendable: true, payload: 0 });
    assert_eq!(
        sent,
        Some(ClientInputEvent::Mouse { kind: DRAG, column: 2, row: 5, modifiers: 1 })
    );
    let (routed, _) = routed_event(6, mouse(None));
    assert_eq!(
        routed,
        RoutedEvent { id: 6, kind: EventKind::Other, sendable: false, payload: 0 }
    );

    for (event, kind, sendable, payload) in [
        (RawInputEvent::Text("abc".into()), EventKind::Text, true, 3),
        (RawInputEvent::Paste("\u{20ac}".into()), EventKind::Paste, true, 3),
        (RawInputEvent::OuterFocusGained, EventKind::FocusGained, true, 0),
        (RawInputEvent::OuterFocusLost, EventKind::FocusLost, true, 0),
        (RawInputEvent::HostReply, EventKind::Other, false, 0),
        (RawInputEvent::Unsupported, EventKind::Other, false, 0),
    ] {
        let (routed, sent) = routed_event(9, event);
        assert_eq!(routed, RoutedEvent { id: 9, kind, sendable, payload });
        assert_eq!(sent.is_some(), sendable);
    }
}

#[test]
fn routed_events_count_what_is_sent_of_them() {
    let events = vec![
        RawInputEvent::Text("abc".into()),
        RawInputEvent::HostReply,
        raw_key(Some(ClientKeyCode::Up)),
        raw_key(None),
    ];
    let mut counted = InputUsage { events: 0, payload: 0 };
    let mut sent_usage = InputUsage { events: 0, payload: 0 };
    for (id, event) in events.into_iter().enumerate() {
        let (routed, sent) = routed_event(id as u64, event);
        if routed.sendable {
            add_input_usage(&mut counted, InputUsage { events: 1, payload: routed.payload });
        }
        if let Some(sent) = sent {
            add_input_usage(&mut sent_usage, client_input_event_usage(&sent));
        }
    }
    assert_eq!(counted, sent_usage);
    assert_eq!(counted, InputUsage { events: 2, payload: 8 });
}

#[test]
fn capability_requires_semantic_app_tty() {
    assert!(capabilities(true, true, true, true, true, true));
    assert!(!capabilities(true, false, true, true, true, true));
    assert!(!capabilities(true, true, true, true, true, false));
    assert!(!capabilities(true, true, false, true, true, true));
    assert!(!capabilities(true, true, true, false, true, true));
}

#[test]
fn target_handling_reuses_pre_resolved_omp_without_resolving() {
    let mut client = Client::new(true);
    client.withdraw(1);
    assert_eq!(client.renderer.last_launch_id(), 1);
    assert!(!client.renderer.has_target());
}

#[test]
fn target_handling_ignores_native_target_without_pre_resolved_executable() {
    let mut client = Client::new(false);
    client.target(1, false, false);
    assert!(!client.renderer.has_target());
    assert_eq!(client.renderer.last_launch_id(), 0);
}

#[test]
fn surface_selection_requires_bound_active_damage_and_client_ownership() {
    let selected = |bound: bool, active: bool, damage: bool, server_owned: bool| {
        let mut client = Client::warming();
        if damage {
            client.frame(true, &[]);
        }
        client.target(1, bound, active);
        if server_owned {
            client.input(&[semantic(1, PREFIX, PRESS)]);
        }
        client.frame(false, &[]);
        client.renderer.is_local_selected()
    };
    assert!(!selected(false, true, true, false));
    assert!(!selected(true, false, true, false));
    assert!(!selected(true, true, false, false));
    assert!(!selected(true, true, true, true));
    assert!(selected(true, true, true, false));
}

#[test]
fn bound_renderer_allows_cold_start_before_first_damage() {
    let mut client = Client::warming();
    client.now = 3_000;
    assert!(client.frame(false, &[]).is_none());
    assert!(!client.stopped);
    client.now = 10_000;
    client.frame(false, &[]);
    assert!(client.stopped);
}

#[test]
fn local_omp_activation_keeps_existing_server_key_lifecycle_on_server() {
    let mut client = Client::active();
    client.renderer.observe_server_input(&vec![physical(1, 7, PRESS)]);
    let messages = client.input(&[physical(2, 7, REPEAT), physical(3, 7, RELEASE)]);
    assert_eq!(client.collect(messages), [2, 3]);
    assert_eq!(client.renderer.server_held_keys(), 0);
    assert!(client.sent.is_empty());
}

#[test]
fn local_omp_activation_keeps_existing_semantic_server_key_lifecycle_on_server() {
    let mut client = Client::active();
    client.renderer.observe_server_input(&vec![semantic(1, 7, PRESS)]);
    let messages = client.input(&[semantic(2, 7, REPEAT), semantic(3, 7, RELEASE)]);
    assert_eq!(client.collect(messages), [2, 3]);
    assert_eq!(client.renderer.server_held_keys(), 0);
    assert!(client.sent.is_empty());
}

#[test]
fn local_omp_promotion_routes_a_fresh_semantic_press_to_the_local_owner() {
    let mut client = Client::active();
    client.renderer.observe_server_input(&vec![semantic(1, 7, PRESS)]);
    assert!(client.input(&[semantic(2, 7, PRESS)]).is_empty());
    assert_eq!(client.sent, [Sent::Event(2)]);
    assert_eq!(client.renderer.server_held_keys(), 0);
    assert!(client.semantic.contains_key(&7));
}

#[test]
fn local_omp_inactive_forwarded_press_stays_server_owned_after_reactivation() {
    let mut client = Client::active();
    client.target(1, true, false);
    client.frame(false, &[]);
    assert!(!client.renderer.is_local_selected());
    let messages = client.input(&[physical(1, 7, PRESS)]);
    assert_eq!(ids(&messages), [1]);
    assert_eq!(client.renderer.server_held_keys(), 1);
    client.target(1, true, true);
    client.frame(true, &[]);
    assert!(client.renderer.is_local_selected());
    client.sent.clear();
    let messages = client.input(&[physical(2, 7, REPEAT), physical(3, 7, RELEASE)]);
    assert_eq!(client.collect(messages), [2, 3]);
    assert_eq!(client.renderer.server_held_keys(), 0);
    assert!(client.sent.is_empty());
}

#[test]
fn local_omp_focus_loss_reaches_local_surface_and_server_key_owner() {
    let mut client = Client::active();
    client.renderer.observe_server_input(&vec![physical(1, 7, PRESS)]);
    let messages = client.input(&[event(2, EventKind::FocusLost)]);
    assert_eq!(ids(&messages), [2]);
    assert_eq!(client.sent, [Sent::FocusLost]);
    assert_eq!(client.renderer.server_held_keys(), 0);
}

#[test]
fn local_omp_defers_focus_loss_behind_older_promotion_input() {
    let mut client = Client::ready();
    assert!(client
        .input(&[physical(1, 7, PRESS), event(2, EventKind::FocusLost)])
        .is_empty());
    assert_eq!(client.renderer.server_held_keys(), 0);
    client.target(1, true, false);
    let messages = client.renderer.take_outbound_messages();
    assert_eq!(client.collect(messages), [1, 2]);
    assert_eq!(client.renderer.server_held_keys(), 0);
    assert!(!client.renderer.server_holds_too_many());
}

#[test]
fn local_omp_inactive_forwarded_press_gets_focus_loss_teardown() {
    let mut client = Client::active();
    assert!(client.input(&[physical(1, 7, PRESS)]).is_empty());
    assert_eq!(client.sent, [Sent::Event(1)]);
    client.target(1, true, false);
    client.frame(false, &[]);
    client.sent.clear();
    let messages = client.input(&[event(2, EventKind::FocusLost)]);
    assert_eq!(ids(&messages), [2]);
    assert_eq!(client.sent, [Sent::Releases, Sent::FocusLost]);
    assert!(client.physical.is_empty());
}

#[test]
fn server_forwarded_physical_key_state_is_bounded() {
    let mut client = Client::new(true);
    let events: Vec<RoutedEvent> = (1..=MAX_TRACKED_SERVER_PRESSES as u64 + 1)
        .map(|index| physical(index, index, PRESS))
        .collect();
    client.renderer.observe_server_input(&events);
    assert_eq!(client.renderer.server_held_keys(), MAX_TRACKED_SERVER_PRESSES);
    assert!(client.renderer.server_holds_too_many());
    assert!(!client.renderer.server_owns_input());
    assert!(client.renderer.owns_surface_input());
    client.renderer.observe_server_input(&vec![event(0, EventKind::FocusLost)]);
    assert_eq!(client.renderer.server_held_keys(), 0);
    assert!(!client.renderer.server_holds_too_many());
    assert!(!client.renderer.owns_surface_input());
}

#[test]
fn local_semantic_owner_release_write_failure_closes_the_lifecycle() {
    let mut client = Client::active();
    assert!(client.input(&[semantic(1, 7, PRESS)]).is_empty());
    assert_eq!(client.sent, [Sent::Event(1)]);
    client.writable = false;
    assert!(client.input(&[semantic(2, 7, RELEASE)]).is_empty());
    assert!(client.renderer.awaits_fallback());
    assert!(client.renderer.take_outbound_messages().is_empty());
    assert!(client.semantic.is_empty());
}

#[test]
fn local_physical_owner_release_write_failure_closes_the_lifecycle() {
    let mut client = Client::active();
    assert!(client.input(&[physical(1, 7, PRESS)]).is_empty());
    client.writable = false;
    assert!(client.input(&[physical(2, 7, RELEASE)]).is_empty());
    assert!(client.renderer.awaits_fallback());
    assert!(client.renderer.take_outbound_messages().is_empty());
    assert!(client.physical.is_empty());
}

#[test]
fn local_focus_release_write_failure_fails_target_and_forwards_focus_to_server() {
    let mut client = Client::active();
    assert!(client.input(&[physical(1, 7, PRESS)]).is_empty());
    client.writable = false;
    let messages = client.input(&[event(2, EventKind::FocusLost)]);
    assert_eq!(ids(&messages), [2]);
    assert!(client.renderer.awaits_fallback());
    assert!(client.stopped);
    assert!(client.physical.is_empty());
}

#[test]
fn local_focus_write_failure_without_held_keys_falls_back_to_server() {
    let mut client = Client::active();
    client.writable = false;
    let messages = client.input(&[event(2, EventKind::FocusLost)]);
    assert_eq!(ids(&messages), [2]);
    assert!(client.renderer.awaits_fallback());
    assert!(client.stopped);
}

#[test]
fn a_navigating_key_stays_with_the_renderer() {
    let mut client = Client::active();
    client.navigates = true;
    assert!(client
        .input(&[physical(1, 7, PRESS), physical(2, 7, REPEAT), physical(3, 7, RELEASE)])
        .is_empty());
    assert!(client.sent.is_empty());
    assert!(client.frame(false, &[]).is_some());
}

#[test]
fn prefix_command_batch_sends_prefix_before_the_command() {
    let mut client = Client::active();
    let messages = client.input(&[semantic(1, PREFIX, PRESS), semantic(2, 8, PRESS)]);
    assert_eq!(client.collect(messages), [1, 2]);
    assert!(client.renderer.server_owns_input());
    assert!(client.renderer.is_local_selected());
}

#[test]
fn deferred_batches_keep_their_order_across_a_send_barrier() {
    for local_active in [true, false] {
        let mut client = Client::ready();
        client.physical.insert(7, PhysicalRoute::Forwarded);
        assert!(client.input(&[semantic(1, PREFIX, PRESS), physical(2, 7, REPEAT)]).is_empty());
        assert!(client.input(&[text(3)]).is_empty());
        client.target(1, true, local_active);
        assert_eq!(ids(&client.renderer.take_outbound_messages()), [1]);
        assert!(client.sent.is_empty());
        let later = client.flush();
        assert_eq!(ids(&later), [3]);
        assert_eq!(client.sent, [Sent::Event(2)]);
        assert!(client.flush().is_empty());
    }
}

#[test]
fn deferred_text_precedes_a_later_key_of_the_server() {
    for local_active in [true, false] {
        let mut client = Client::ready();
        client.renderer.observe_server_input(&vec![physical(1, 7, PRESS)]);
        assert!(client.input(&[text(2)]).is_empty());
        assert!(client.input(&[physical(3, 7, REPEAT), physical(4, 7, RELEASE)]).is_empty());
        assert!(client.sent.is_empty());
        client.target(1, true, local_active);
        let messages = client.renderer.take_outbound_messages();
        let sent = client.collect(messages);
        if local_active {
            assert_eq!(client.sent, [Sent::Event(2)]);
            assert_eq!(sent, [3, 4]);
        } else {
            assert_eq!(sent, [2, 3, 4]);
            assert!(client.sent.is_empty());
        }
    }
}

#[test]
fn server_release_is_sent_before_a_later_new_local_press() {
    let mut client = Client::active();
    client.renderer.observe_server_input(&vec![physical(1, 7, PRESS)]);
    let messages = client.input(&[physical(2, 7, RELEASE), physical(3, 8, PRESS)]);
    assert_eq!(ids(&messages), [2]);
    assert!(client.sent.is_empty());
    assert!(client.flush().is_empty());
    assert_eq!(client.sent, [Sent::Event(3)]);
}

#[test]
fn prefix_send_precedes_local_repeat_release_and_server_focus() {
    let mut client = Client::active();
    assert!(client.input(&[physical(1, 8, PRESS)]).is_empty());
    client.sent.clear();
    let messages = client.input(&[
        semantic(2, PREFIX, PRESS),
        physical(3, 8, REPEAT),
        physical(4, 8, RELEASE),
        event(5, EventKind::FocusLost),
    ]);
    assert_eq!(ids(&messages), [2]);
    assert!(client.sent.is_empty());
    let focus = client.flush();
    assert_eq!(ids(&focus), [5]);
    assert_eq!(client.sent, [Sent::Event(3), Sent::Event(4)]);
}

#[test]
fn server_release_is_sent_before_a_later_local_focus_loss() {
    let mut client = Client::active();
    client.renderer.observe_server_input(&vec![physical(1, 7, PRESS)]);
    let messages = client.input(&[physical(2, 7, RELEASE), event(3, EventKind::FocusLost)]);
    assert_eq!(ids(&messages), [2]);
    assert!(client.sent.is_empty());
    assert!(client.flush().is_empty());
    assert_eq!(client.sent, [Sent::FocusLost]);
}

#[test]
fn rejected_native_link_replays_the_buffered_mouse_gesture_locally() {
    let mut client = Client::active();
    client.link = link("artifact://native");
    client.pointer(Some((0, 0)));
    let messages = client.input(&[mouse(1, DOWN), mouse(2, DRAG), mouse(3, UP)]);
    assert_eq!(
        messages,
        [ClientMessage::ActivateOmpLink {
            launch_id: 1,
            request_id: 1,
            url: "artifact://native".into(),
        }]
    );
    client.resolve(1, false, 0);
    assert!(client.renderer.take_outbound_messages().is_empty());
    assert_eq!(client.sent, [Sent::Event(1), Sent::Event(2), Sent::Event(3)]);
}

#[test]
fn queued_native_links_resolve_in_gesture_order() {
    let mut client = Client::active();
    client.link = link("artifact://native-queued");
    let messages = client.input(&[mouse(1, DOWN), mouse(2, UP), mouse(3, DOWN), mouse(4, UP)]);
    assert!(matches!(
        messages.as_slice(),
        [ClientMessage::ActivateOmpLink { request_id: 1, .. }]
    ));
    client.resolve(1, false, 0);
    let queued = client.renderer.take_outbound_messages();
    assert!(matches!(
        queued.as_slice(),
        [ClientMessage::ActivateOmpLink { request_id: 2, .. }]
    ));
    assert!(client.collect(queued).is_empty());
    client.resolve(2, false, 0);
    assert!(client.renderer.take_outbound_messages().is_empty());
    assert_eq!(
        client.sent,
        [Sent::Event(1), Sent::Event(2), Sent::Event(3), Sent::Event(4)]
    );
}

#[test]
fn input_generation_change_cancels_stale_native_link_queue() {
    let mut client = Client::active();
    client.link = link("artifact://native-stale");
    let messages = client.input(&[mouse(1, DOWN), mouse(2, UP), semantic(3, 9, PRESS)]);
    assert!(matches!(
        messages.as_slice(),
        [ClientMessage::ActivateOmpLink { request_id: 1, .. }]
    ));
    client.renderer.resize(SIZE, Some(GEOMETRY), 1);
    client.run();
    client.resolve(1, false, 1);
    assert!(client.renderer.take_outbound_messages().is_empty());
    assert_eq!(client.sent, [Sent::Event(3)]);
}

#[test]
fn accepted_native_link_drops_stale_generation_mouse_queue() {
    let mut client = Client::active();
    client.link = link("artifact://native-accepted-stale");
    let messages = client.input(&[mouse(1, DOWN), mouse(2, UP), mouse(3, DOWN)]);
    assert!(matches!(
        messages.as_slice(),
        [ClientMessage::ActivateOmpLink { request_id: 1, .. }]
    ));
    client.resolve(1, true, 1);
    assert!(client.renderer.take_outbound_messages().is_empty());
    assert!(client.sent.is_empty());
}

#[test]
fn withdrawal_sends_what_waits_in_order() {
    let mut client = Client::active();
    client.link = link("artifact://native");
    client.input(&[mouse(1, DOWN), physical(2, 7, PRESS), event(3, EventKind::Paste)]);
    client.input(&[mouse(4, ClientMouseKind::Moved), text(5)]);
    client.withdraw(1);
    let messages = client.renderer.take_outbound_messages();
    assert_eq!(client.collect(messages), [2, 3, 5]);
    assert!(client.sent.is_empty());
    assert_eq!(client.renderer.server_held_keys(), 1);
}

#[test]
fn same_route_unbind_flushes_pending_input_and_tracks_server_key_lifecycle() {
    let mut client = Client::active();
    client.link = link("artifact://native");
    client.input(&[mouse(1, DOWN), physical(2, 7, PRESS), event(3, EventKind::Paste)]);
    client.target(1, false, false);
    let messages = client.renderer.take_outbound_messages();
    assert_eq!(client.collect(messages), [2, 3]);
    assert_eq!(client.renderer.server_held_keys(), 1);
    let messages = client.input(&[physical(4, 7, REPEAT), physical(5, 7, RELEASE)]);
    assert_eq!(client.collect(messages), [4, 5]);
    assert_eq!(client.renderer.server_held_keys(), 0);
    assert!(client.sent.is_empty());
}

#[test]
fn native_link_queue_overflow_enters_fallback_without_dropping_input() {
    let mut client = Client::active();
    client.link = link("artifact://native");
    client.input(&[mouse(1, DOWN)]);
    for id in 0..MAX_QUEUED_LINK_INPUTS as u64 {
        assert!(client.input(&[text(10 + id)]).is_empty());
    }
    assert!(!client.renderer.awaits_fallback());
    assert!(client.input(&[semantic(9_999, 9, PRESS)]).is_empty());
    assert!(client.renderer.awaits_fallback());
    client.target(1, false, false);
    let messages = client.renderer.take_outbound_messages();
    let sent = client.collect(messages);
    assert_eq!(sent.len(), MAX_QUEUED_LINK_INPUTS + 1);
    assert_eq!(sent.first(), Some(&10));
    assert_eq!(sent.last(), Some(&9_999));
}

#[test]
fn native_link_gesture_overflow_enters_fallback_without_dropping_release() {
    let mut client = Client::active();
    client.link = link("artifact://native-gesture-overflow");
    assert!(matches!(
        client.input(&[mouse(1, DOWN)]).as_slice(),
        [ClientMessage::ActivateOmpLink { .. }]
    ));
    for id in 0..=MAX_QUEUED_LINK_INPUTS as u64 {
        client.input(&[mouse(10 + id, DRAG)]);
    }
    client.input(&[mouse(9_999, UP)]);
    assert!(client.renderer.awaits_fallback());
}

#[test]
fn pending_input_item_budget_falls_back_without_dropping_ordinary_input() {
    let mut client = Client::ready();
    let queued: Vec<RoutedEvent> = (0..MAX_PENDING_INPUT_EVENTS as u64)
        .map(|id| RoutedEvent { payload: 6, ..text(id) })
        .collect();
    assert!(client.input(&queued).is_empty());
    let messages = client.input(&[text(9_999)]);
    let sent = client.collect(messages);
    assert_eq!(sent.len(), MAX_PENDING_INPUT_EVENTS + 1);
    assert_eq!(sent.first(), Some(&0));
    assert_eq!(sent.last(), Some(&9_999));
    assert!(client.stopped);
}

#[test]
fn pending_input_payload_budget_falls_back_without_dropping_ordinary_input() {
    let mut client = Client::ready();
    let paste = RoutedEvent {
        payload: MAX_PENDING_INPUT_PAYLOAD_BYTES,
        ..event(1, EventKind::Paste)
    };
    assert!(client.input(&[paste]).is_empty());
    let messages = client.input(&[text(2)]);
    assert_eq!(client.collect(messages), [1, 2]);
    assert!(client.stopped);
}

#[test]
fn pixel_mouse_maps_host_pixels_to_the_local_pty() {
    let mut client = Client::active();
    assert!(client.pixel(pixel(1, ClientMouseKind::Moved, 15, 5), 0).is_empty());
    assert_eq!(client.sent, [Sent::Pixel(1)]);
    assert_eq!(client.renderer.pointer_cell(), Some((1, 0)));
}

#[test]
fn local_omp_cell_wheel_host_scrolls_and_requests_frame() {
    let mut client = Client::active();
    assert!(client.frame(false, &[]).is_none());
    assert!(client.input(&[mouse(1, ClientMouseKind::ScrollUp)]).is_empty());
    assert!(client.frame(false, &[]).is_some());
    assert!(client.frame(false, &[]).is_none());
    assert!(client.pixel(pixel(2, ClientMouseKind::ScrollDown, 1, 1), 0).is_empty());
    assert!(client.frame(false, &[]).is_some());
}

#[test]
fn native_hover_tracks_pointer_while_server_surface_is_active() {
    let mut client = Client::active();
    client.link = link("https://example.com/hover");
    client.pointer(Some((3, 0)));
    client.target(1, true, false);
    let cleanup = client.frame(false, &[]).expect("inactive surface cleanup").frame;
    assert!(cleanup.hyperlinks.is_empty());
    client.pointer(Some((1, 0)));
    assert_eq!(client.native_link_active(), Some(false));
    client.target(1, true, true);
    let shown = client.frame(true, &[]).expect("reactivated surface").frame;
    assert_eq!(client.native_link_active(), Some(true));
    assert_ne!(shown.cells[1].modifier & UNDERLINED, 0);
    assert_eq!(shown.cells[2].modifier & UNDERLINED, 0);
}

#[test]
fn native_pixel_pointer_uses_the_same_displayed_cell_as_activation() {
    let mut client = Client::active();
    client.link = Some(TerminalLink { url: "https://example.com/pixel".into(), cells: vec![(2, 0)] });
    let messages = client.pixel(pixel(1, DOWN, 21, 1), 0);
    assert!(matches!(
        messages.as_slice(),
        [ClientMessage::ActivateOmpLink { url, .. }] if url == "https://example.com/pixel"
    ));
    assert_eq!(client.renderer.pointer_cell(), Some((2, 0)));
    assert_eq!(client.native_link_active(), Some(true));
    let shown = client.frame(false, &[]).expect("pixel hover repaint").frame;
    assert_ne!(shown.cells[2].modifier & UNDERLINED, 0);
}

#[test]
fn fractional_pixel_mapping_keeps_forwarded_position_in_the_hit_cell() {
    let size = SurfaceSize { columns: 80, rows: 1, cell_width: 10, cell_height: 20 };
    assert_eq!(surface_pixels(size), Some((800, 20)));
    assert_eq!(local_pixel_position(Some((10, 1)), Some((1, 0)), size), Some((11, 1)));
    assert_eq!(local_pixel_position(Some((11, 1)), Some((1, 0)), size), Some((11, 1)));
    assert_eq!(local_pixel_position(None, Some((1, 0)), size), None);
    let huge = SurfaceSize { columns: u16::MAX, rows: 1, cell_width: u32::MAX, cell_height: 1 };
    assert_eq!(surface_pixels(huge), None);
}

#[test]
fn pixel_pointer_observed_without_target_remaps_when_target_returns() {
    let mut client = Client::new(true);
    assert!(matches!(
        client.pixel(pixel(1, ClientMouseKind::Moved, 11, 1), 0).as_slice(),
        [ClientMessage::InputPixels { .. }]
    ));
    assert_eq!(client.renderer.pointer_cell(), Some((1, 0)));
    client.target(1, true, true);
    assert_eq!(client.renderer.pointer_cell(), Some((1, 0)));
}

#[test]
fn pixel_coordinates_update_even_when_the_button_code_is_unsupported() {
    let mut client = Client::active();
    client.pointer(Some((0, 0)));
    let report = PixelEvent { kind: None, ..pixel(1, DOWN, 21, 1) };
    assert!(matches!(
        client.pixel(report, 0).as_slice(),
        [ClientMessage::InputPixels { .. }]
    ));
    assert_eq!(client.renderer.pointer_cell(), Some((2, 0)));
}

#[test]
fn resize_refreshes_retained_pixel_geometry_before_remapping() {
    let mut client = Client::active();
    assert!(client.pixel(pixel(1, ClientMouseKind::Moved, 21, 1), 0).is_empty());
    assert_eq!(client.renderer.pointer_cell(), Some((2, 0)));
    let wider = SurfaceSize { columns: 8, ..SIZE };
    let geometry = HostGeometry { columns: 8, width: 80, ..GEOMETRY };
    client.renderer.resize(wider, Some(geometry), 0);
    client.run();
    assert_eq!(client.renderer.pointer_cell(), Some((2, 0)));
    client.pointer(Some((2, 0)));
    client.renderer.resize(SIZE, Some(GEOMETRY), 0);
    client.run();
    assert_eq!(client.renderer.pointer_cell(), None);
}

#[test]
fn prefix_handoff_immediately_clears_native_link_affordances() {
    let mut client = Client::active();
    client.link = link("https://example.com/handoff");
    assert!(client.input(&[mouse(1, ClientMouseKind::Moved)]).is_empty());
    let hovered = client.frame(false, &[]).expect("hovered frame").frame;
    assert_ne!(hovered.cells[0].modifier & UNDERLINED, 0);
    assert!(hovered.cells[0].hyperlink.is_some());
    client.input(&[semantic(2, PREFIX, PRESS)]);
    assert!(client.renderer.server_owns_input());
    assert_eq!(client.native_link_active(), Some(false));
    let cleanup = client.frame(false, &[]).expect("handoff cleanup frame").frame;
    assert_eq!(cleanup.cells[0].modifier & UNDERLINED, 0);
    assert!(cleanup.cells[0].hyperlink.is_none());
    assert!(cleanup.hyperlinks.is_empty());
}

#[test]
fn target_retirement_immediately_clears_native_link_affordances() {
    let mut client = Client::active();
    client.link = link("https://example.com/retired");
    client.input(&[mouse(1, ClientMouseKind::Moved)]);
    client.frame(false, &[]);
    client.withdraw(2);
    assert_eq!(client.native_link_active(), Some(false));
    let cleanup = client.frame(false, &[]).expect("retirement cleanup frame").frame;
    assert_eq!(cleanup.cells[0].modifier & UNDERLINED, 0);
    assert!(cleanup.cells[0].hyperlink.is_none());
    assert!(cleanup.hyperlinks.is_empty());
}

#[test]
fn failed_local_write_preserves_the_pre_failure_cleanup_frame() {
    let mut client = Client::active();
    client.link = link("https://example.com/failed");
    client.pointer(Some((0, 0)));
    client.frame(false, &[]);
    client.writable = false;
    client.input(&[semantic(1, 9, PRESS)]);
    assert!(client.renderer.awaits_fallback());
    let cleanup = client.frame(false, &[]).expect("cleanup survives target failure").frame;
    assert_eq!(cleanup.cells[0].modifier & UNDERLINED, 0);
    assert!(cleanup.cells[0].hyperlink.is_none());
}

#[test]
fn pane_death_uses_the_last_clean_local_frame() {
    let mut client = Client::active();
    client.link = link("https://example.com/died");
    client.pointer(Some((0, 0)));
    client.frame(false, &[]);
    assert!(client.renderer.cache_server_frame(frame(4, 1)).is_none());
    let cleanup = client
        .frame(false, &[TargetEvent::PaneDied { own: true }])
        .expect("last clean frame survives pane death")
        .frame;
    assert_eq!(cleanup.cells[0].modifier & UNDERLINED, 0);
    assert!(cleanup.cells[0].hyperlink.is_none());
    assert_eq!(client.native_link_active(), Some(false));
}

#[test]
fn clearing_pointer_repaints_without_the_synthetic_underline() {
    let mut client = Client::active();
    client.link = link("https://example.com/capture");
    client.input(&[mouse(1, ClientMouseKind::Moved)]);
    let hovered = client.frame(false, &[]).expect("hovered frame").frame;
    assert_ne!(hovered.cells[0].modifier & UNDERLINED, 0);
    client.pointer(None);
    assert_eq!(client.native_link_active(), Some(false));
    let cleanup = client.frame(false, &[]).expect("pointer-clear repaint").frame;
    assert_eq!(cleanup.cells[0].modifier & UNDERLINED, 0);
}

#[test]
fn native_link_activation_enforces_the_protocol_url_bound() {
    for (length, accepted) in [(MAX_LINK_URL, true), (MAX_LINK_URL + 1, false)] {
        let url = "a".repeat(length);
        let mut client = Client::active();
        client.link = link(&url);
        let messages = client.input(&[mouse(1, DOWN)]);
        assert_eq!(
            messages.iter().any(|message| matches!(
                message,
                ClientMessage::ActivateOmpLink { url: produced, .. } if produced == &url
            )),
            accepted
        );
        assert_eq!(client.native_link_active(), Some(accepted));
    }
}

#[test]
fn native_link_click_routes_the_full_gesture_to_the_server() {
    let mut client = Client::active();
    client.link = link("file:///tmp/report.md?line=7");
    assert!(matches!(
        client.input(&[mouse(1, DOWN)]).as_slice(),
        [ClientMessage::ActivateOmpLink { launch_id: 1, url, .. }]
            if url == "file:///tmp/report.md?line=7"
    ));
    assert!(client.input(&[mouse(2, DRAG)]).is_empty());
    assert!(client.input(&[mouse(3, UP)]).is_empty());
    assert!(client.sent.is_empty());
    client.resolve(1, true, 0);
    assert!(client.sent.is_empty());
    assert!(client.renderer.take_outbound_messages().is_empty());
}

#[test]
fn pixel_link_gesture_absorbs_out_of_bounds_drag_and_release() {
    let mut client = Client::active();
    client.link = link("file:///tmp/report.md");
    assert!(matches!(
        client.pixel(pixel(1, DOWN, 11, 1), 0).as_slice(),
        [ClientMessage::ActivateOmpLink { .. }]
    ));
    assert!(client.pixel(pixel(2, DRAG, 901, 1), 0).is_empty());
    assert!(client.pixel(pixel(3, UP, 901, 1), 0).is_empty());
    assert!(client.sent.is_empty());
}

#[test]
fn failed_local_write_waits_for_server_fallback_before_replay() {
    let mut client = Client::active();
    client.writable = false;
    assert!(client.input(&[physical(1, 7, PRESS)]).is_empty());
    assert!(client.renderer.awaits_fallback());
    assert!(client.renderer.take_outbound_messages().is_empty());
    client.target(1, false, false);
    assert!(!client.renderer.awaits_fallback());
    assert_eq!(ids(&client.renderer.take_outbound_messages()), [1]);
    assert_eq!(client.renderer.server_held_keys(), 1);
    let messages = client.input(&[physical(2, 7, REPEAT), physical(3, 7, RELEASE)]);
    assert_eq!(client.collect(messages), [2, 3]);
    assert_eq!(client.renderer.server_held_keys(), 0);
}

#[test]
fn native_child_death_releases_surface_after_server_fallback_confirmation() {
    let mut client = Client::active();
    client.frame(false, &[TargetEvent::PaneDied { own: true }]);
    assert!(client.stopped);
    assert!(!client.renderer.is_local_selected());
    assert!(client.renderer.awaits_fallback());
    client.target(1, false, false);
    assert!(!client.renderer.awaits_fallback());
    client.frame(false, &[]);
    assert!(!client.renderer.awaits_fallback());
}

#[test]
fn bound_false_confirmation_does_not_rearm_fallback_for_failed_ready_target() {
    let mut client = Client::active();
    client.writable = false;
    assert!(client.input(&[semantic(1, 9, PRESS)]).is_empty());
    assert!(client.renderer.awaits_fallback());
    client.target(1, false, false);
    assert_eq!(ids(&client.renderer.take_outbound_messages()), [1]);
    assert!(client.frame(false, &[]).is_some());
    assert!(!client.renderer.awaits_fallback());
    let messages = client.input(&[semantic(2, 10, PRESS)]);
    assert_eq!(ids(&messages), [2]);
}

#[test]
fn failed_focus_write_replays_after_bound_false_confirmation() {
    let mut client = Client::active();
    client.writable = false;
    assert!(client.input(&[event(1, EventKind::FocusGained)]).is_empty());
    assert!(client.stopped);
    assert!(client.renderer.awaits_fallback());
    client.target(1, false, false);
    assert_eq!(ids(&client.renderer.take_outbound_messages()), [1]);
}

#[test]
fn promotion_replays_non_mouse_input_without_cross_surface_gestures() {
    let mut client = Client::ready();
    assert!(client.renderer.awaits_promotion());
    assert!(!client.renderer.is_local_selected());
    assert!(client.renderer.owns_input(false, false));
    assert!(client.input(&[semantic(1, 9, PRESS), mouse(2, DOWN), mouse(3, UP)]).is_empty());
    assert!(client.pixel(pixel(4, ClientMouseKind::Moved, 11, 1), 0).is_empty());
    client.target(1, true, true);
    assert!(!client.renderer.awaits_promotion());
    assert!(client.renderer.is_local_selected());
    assert!(client.renderer.take_outbound_messages().is_empty());
    assert_eq!(client.sent, [Sent::Event(1)]);
}

#[test]
fn promotion_replay_does_not_restore_pointer_cleared_after_capture_disable() {
    let mut client = Client::ready();
    assert!(client.input(&[mouse(1, ClientMouseKind::Moved)]).is_empty());
    assert!(client.pixel(pixel(2, ClientMouseKind::Moved, 11, 1), 0).is_empty());
    client.pointer(None);
    client.target(1, true, true);
    assert_eq!(client.renderer.pointer_cell(), None);
}

#[test]
fn inactive_promotion_routes_buffered_input_and_forwards_effects() {
    let mut client = Client::ready();
    assert!(client.input(&[semantic(1, 9, PRESS)]).is_empty());
    assert!(client.pixel(pixel(2, ClientMouseKind::Moved, 11, 1), 0).is_empty());
    client.target(1, true, false);
    assert_eq!(ids(&client.renderer.take_outbound_messages()), [1]);
    client.frame(false, &[TargetEvent::TerminalBell { own: true, count: 1 }]);
    assert_eq!(client.renderer.take_effects(), [LocalEffect::Bell(1)]);
}

#[test]
fn native_authority_discards_server_frames_and_stale_fallback_cache() {
    let mut client = Client::active();
    assert!(client.renderer.cache_server_frame(frame(4, 1)).is_none());
    let mut client = Client::new(true);
    let shown = client.renderer.cache_server_frame(frame(4, 1)).expect("shown at once");
    assert!(!shown.force_repaint);
}

#[test]
fn failed_pixel_write_drops_pointer_input_during_server_fallback() {
    let mut client = Client::active();
    client.writable = false;
    assert!(client.pixel(pixel(1, ClientMouseKind::Moved, 11, 1), 0).is_empty());
    assert!(client.renderer.awaits_fallback());
    assert!(client.renderer.take_outbound_messages().is_empty());
    client.target(1, false, false);
    assert!(!client.renderer.awaits_fallback());
    assert!(client.renderer.take_outbound_messages().is_empty());
}

#[test]
fn fallback_preserves_keys_co_batched_with_stale_mouse_input() {
    let mut client = Client::active();
    client.writable = false;
    assert!(client
        .input(&[semantic(1, 9, PRESS), mouse(2, ClientMouseKind::Moved)])
        .is_empty());
    assert!(client.renderer.awaits_fallback());
    let request = TargetRequest { generation: 1, ..client.request(1, false, false) };
    client.target_in(request);
    assert!(!client.renderer.awaits_fallback());
    assert_eq!(ids(&client.renderer.take_outbound_messages()), [1]);
}

#[test]
fn replacement_launch_forwards_deferred_non_pointer_input() {
    let mut client = Client::active();
    client.writable = false;
    assert!(client.input(&[semantic(1, 9, PRESS)]).is_empty());
    assert!(client.renderer.awaits_fallback());
    client.withdraw(2);
    assert!(!client.renderer.awaits_fallback());
    assert_eq!(ids(&client.renderer.take_outbound_messages()), [1]);
}

#[test]
fn readiness_is_reported_once_before_surface_activation() {
    let mut client = Client::warming();
    assert!(client.frame(true, &[]).is_none());
    assert_eq!(
        client.renderer.take_outbound_messages(),
        [ClientMessage::OmpRendererReady { launch_id: 1 }]
    );
    assert!(client.renderer.awaits_promotion());
    assert!(client.renderer.owns_input(false, false));
    assert!(client.frame(true, &[]).is_none());
    assert!(client.renderer.take_outbound_messages().is_empty());
}

#[test]
fn warming_renderer_suppresses_terminal_effects() {
    let mut client = Client::warming();
    client.frame(
        true,
        &[
            TargetEvent::TerminalBell { own: true, count: 1 },
            TargetEvent::ClipboardWrite { content: 1 },
            TargetEvent::OpenUrl { url: 2 },
        ],
    );
    assert!(client.renderer.take_effects().is_empty());
}

#[test]
fn local_terminal_effects_are_forwarded() {
    let mut client = Client::active();
    client.frame(
        false,
        &[
            TargetEvent::TerminalBell { own: true, count: 2 },
            TargetEvent::TerminalBell { own: false, count: 3 },
            TargetEvent::ClipboardWrite { content: 7 },
            TargetEvent::OpenUrl { url: 8 },
        ],
    );
    assert_eq!(
        client.renderer.take_effects(),
        [
            LocalEffect::Bell(2),
            LocalEffect::ClipboardWrite(7),
            LocalEffect::OpenUrl(8),
        ]
    );
}

#[test]
fn stopping_ends_the_renderer() {
    let mut client = Client::active();
    client.renderer.stop();
    client.run();
    assert!(client.stopped);
    assert!(!client.renderer.has_target());
    assert!(client.renderer.is_idle());
}

#[test]
fn events_reach_the_terminal_in_their_own_form() {
    assert_eq!(forward_local_event(text(1)).0, ForwardPlan::Text);
    assert_eq!(
        forward_local_event(semantic(1, 2, RELEASE)),
        (ForwardPlan::Key, false)
    );
    assert_eq!(encode_local_mouse(ClientMouseKind::Moved), MouseEncoding::Motion);
    assert_eq!(encode_local_mouse(ClientMouseKind::ScrollUp), MouseEncoding::Nothing);
    assert!(counts_as_sent(None, false));
    assert!(counts_as_sent(Some(0), false));
    assert!(!counts_as_sent(Some(3), false));
    assert!(forward_local_focus_event(false, false, false));
    assert!(!forward_local_focus_event(true, true, false));
    assert_eq!(
        forward_local_wheel(Some(WheelRouting::MouseReport), ClientMouseKind::ScrollUp, 3),
        WheelAsk::EncodeReport
    );
    assert_eq!(
        forward_local_wheel(None, ClientMouseKind::ScrollUp, 0),
        WheelAsk::ScrollUp { lines: 1 }
    );
    assert_eq!(
        wheel_next(WheelAsk::EncodeReport, false, ClientMouseKind::ScrollDown, 3),
        WheelAsk::ScrollDown { lines: 3 }
    );
    assert_eq!(
        decode_local_pixel_mouse(true, Some(DOWN), Some((1, 1)), Some((0, 0))),
        Some(LocalMouse { kind: DOWN, column: 0, row: 0 })
    );
    assert_eq!(decode_local_pixel_mouse(true, None, Some((1, 1)), Some((0, 0))), None);
}

#[test]
fn input_is_counted_by_events_and_bytes() {
    let key = ClientInputEvent::Key {
        code: ClientKeyCode::Char('a'),
        modifiers: 0,
        kind: PRESS,
        repeat_count: 1,
        generated_text: Some("ab".into()),
        source: ClientKeySource::Vt { bytes: vec![1, 2, 3] },
    };
    let usage = client_input_event_usage(&key);
    assert_eq!(usage, InputUsage { events: 1, payload: 5 });
    let mut total = InputUsage { events: usize::MAX, payload: 1 };
    add_input_usage(&mut total, usage);
    assert_eq!(total, InputUsage { events: usize::MAX, payload: 6 });
}

#[test]
fn a_renderer_is_started_for_its_pane() {
    let args = renderer_args("/opt/omp", &route(), 2);
    assert_eq!(&args[..4], ["/opt/omp", "__omp-pane", "pane", "session"]);
    assert_eq!(launch_id_variable(), "HERDR_OMP_RENDERER_LAUNCH_ID");
    assert_eq!(launch_id_value(17), "17");
    assert_eq!(terminal_side(0), 1);
    assert_eq!(terminal_side(5), 5);
}

#[test]
fn underlining_touches_only_its_cells() {
    let mut shown = frame(2, 1);
    shown.underline(&[(1, 0), (9, 9)]);
    assert_eq!(shown.cells[0].modifier, 0);
    assert_eq!(shown.cells[1].modifier, UNDERLINED);
    let mut short = frame(2, 2);
    short.cells.pop();
    short.underline(&[(1, 0), (0, 1), (1, 1)]);
    let modifiers: Vec<u16> = short.cells.iter().map(|cell| cell.modifier).collect();
    assert_eq!(modifiers, [0, UNDERLINED, UNDERLINED]);
    let plain = shown.without_links();
    assert!(plain.hyperlinks.is_empty());
    assert!(plain.cells.iter().all(|cell| cell.hyperlink.is_none()));
    assert_eq!(shown.duplicate(), shown);
}

#[test]
fn typed_text_goes_to_the_server_where_there_is_no_renderer() {
    let mut client = Client::new(false);
    client.renderer.route_input(vec![text(1), text(2)]);
    client.run();
    let messages = client.renderer.take_result();
    assert_eq!(ids(&messages), [1]);
    assert_eq!(client.collect(messages), [1, 2]);
}

#[test]
fn events_after_the_panes_death_are_read_by_the_next_poll() {
    let mut client = Client::active();
    let bell = TargetEvent::TerminalBell { own: true, count: 2 };
    client.frame(false, &[bell, TargetEvent::PaneDied { own: true }, bell]);
    assert_eq!(client.renderer.take_effects(), [LocalEffect::Bell(2)]);
    client.frame(false, &[TargetEvent::OpenUrl { url: 3 }]);
    assert_eq!(
        client.renderer.take_effects(),
        [LocalEffect::Bell(2), LocalEffect::OpenUrl(3)]
    );
    client.frame(false, &[]);
    assert!(client.renderer.take_effects().is_empty());
}

#[test]
fn held_back_input_keeps_its_order() {
    let mut client = Client::new(false);
    let unknown = RoutedEvent { sendable: false, ..text(5) };
    let messages = client.input(&[
        text(1),
        event(2, EventKind::Paste),
        event(3, EventKind::FocusLost),
        event(4, EventKind::FocusGained),
        unknown,
        semantic(6, 7, PRESS),
        mouse(7, DOWN),
        text(8),
    ]);
    assert_eq!(client.collect(messages), [1, 2, 3, 4, 6, 7, 8]);
    assert!(client.flush().is_empty());
    assert!(!client.renderer.awaits_fallback());
}

#[test]
fn typed_text_survives_a_terminal_that_takes_nothing() {
    let mut client = Client::active();
    client.writable = false;
    assert!(ids(&client.input(&[text(1), text(2)])).is_empty());
    assert!(client.renderer.awaits_fallback());
    client.target(1, false, false);
    assert_eq!(ids(&client.renderer.take_outbound_messages()), [1, 2]);
}

#[test]
fn a_pixel_report_is_forwarded_like_a_mouse_event() {
    assert_eq!(forward_local_pixel_mouse(ClientMouseKind::ScrollUp), ForwardPlan::Wheel);
    assert_eq!(
        forward_local_pixel_mouse(ClientMouseKind::Moved),
        ForwardPlan::Mouse(MouseEncoding::Motion)
    );
    assert_eq!(
        forward_local_pixel_mouse(ClientMouseKind::ScrollLeft),
        ForwardPlan::Mouse(MouseEncoding::Nothing)
    );
}

#[test]
fn promotion_drops_pixel_click_from_an_older_input_generation() {
    let mut client = Client::ready();
    client.link = link("file:///tmp/old.md");
    assert!(client.pixel(pixel(1, DOWN, 11, 1), 0).is_empty());
    let request = TargetRequest { generation: 1, ..client.request(1, true, true) };
    client.target_in(request);
    assert!(client.renderer.take_outbound_messages().is_empty());
    assert!(client.sent.is_empty());
}

#[test]
fn promotion_drops_raw_click_from_an_older_input_generation() {
    let mut client = Client::ready();
    client.link = link("file:///tmp/old.md");
    assert!(client.input(&[mouse(1, DOWN)]).is_empty());
    let request = TargetRequest { generation: 1, ..client.request(1, true, true) };
    client.target_in(request);
    assert!(client.renderer.take_outbound_messages().is_empty());
    assert!(client.sent.is_empty());
}

#[test]
fn fallback_drops_pixel_input_from_an_older_generation() {
    let mut client = Client::active();
    client.writable = false;
    assert!(client.pixel(pixel(1, ClientMouseKind::Moved, 11, 1), 0).is_empty());
    assert!(client.renderer.awaits_fallback());
    let request = TargetRequest { generation: 1, ..client.request(1, false, false) };
    client.target_in(request);
    assert!(!client.renderer.awaits_fallback());
    assert!(client.renderer.take_outbound_messages().is_empty());
}

#[test]
fn disabled_focus_reporting_is_a_successful_local_noop() {
    let mut client = Client::active();
    assert!(forward_local_focus_event(false, false, false));
    assert!(client.input(&[event(1, EventKind::FocusGained)]).is_empty());
    assert!(!client.renderer.awaits_fallback());
    assert!(!client.stopped);
}

#[test]
fn local_omp_pixel_wheel_host_scrolls_and_requests_frame() {
    let mut client = Client::active();
    assert!(client.frame(false, &[]).is_none());
    assert!(client.pixel(pixel(1, ClientMouseKind::ScrollUp, 11, 1), 0).is_empty());
    assert!(client.frame(false, &[]).is_some());
}

#[test]
fn local_omp_prefix_handoff_keeps_ordinary_physical_key_lifecycle_local() {
    let mut client = Client::active();
    assert!(client.input(&[physical(1, 7, PRESS)]).is_empty());
    assert_eq!(ids(&client.input(&[semantic(2, PREFIX, PRESS)])), [2]);
    assert!(client.input(&[physical(3, 7, REPEAT), physical(4, 7, RELEASE)]).is_empty());
    assert_eq!(client.sent, [Sent::Event(1), Sent::Event(3), Sent::Event(4)]);
    assert!(client.physical.is_empty());
}

#[test]
fn local_omp_prefix_handoff_keeps_ordinary_semantic_key_lifecycle_local() {
    let mut client = Client::active();
    assert!(client.input(&[semantic(1, 7, PRESS)]).is_empty());
    assert_eq!(ids(&client.input(&[semantic(2, PREFIX, PRESS)])), [2]);
    assert!(client.input(&[semantic(3, 7, REPEAT), semantic(4, 7, RELEASE)]).is_empty());
    assert_eq!(client.sent, [Sent::Event(1), Sent::Event(3), Sent::Event(4)]);
}

#[test]
fn local_omp_binding_loss_releases_owned_keys_and_tombstones_late_release() {
    let mut client = Client::active();
    assert!(client.input(&[physical(1, 7, PRESS)]).is_empty());
    client.target(1, true, false);
    client.frame(false, &[]);
    client.target(1, false, false);
    assert_eq!(client.sent, [Sent::Event(1), Sent::Releases]);
    assert!(client.input(&[physical(2, 7, REPEAT)]).is_empty());
    assert!(client.input(&[physical(3, 7, RELEASE)]).is_empty());
    assert_eq!(client.sent, [Sent::Event(1), Sent::Releases]);
    assert!(client.physical.is_empty());
}
