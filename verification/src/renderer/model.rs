//! What the renderer routes, remembers and asks for.
//!
//! Input events are routed by what matters of them. Their content stays with the caller,
//! under the event's number.
use crate::input::framing::HostGeometry;
use crate::input::windows::{
    self, windows_client_input_event_from_raw, ClientInputEvent, ClientInputView, ClientKeyKind,
    ClientKeySource, ClientMouseKind, KeySourceView, MouseButton, RawInputEvent,
};
use crate::omp_pane::record::OmpRoute;
use crate::renderer::frame::{Frame, FrameView};
use vstd::prelude::*;

verus! {

/// How long a renderer may take to be bound, in milliseconds.
pub const BIND_TIMEOUT: u64 = 5000;

/// How long a bound renderer may take to draw, in milliseconds.
pub const FIRST_DAMAGE_TIMEOUT: u64 = 10000;

pub const MAX_QUEUED_LINK_INPUTS: usize = 256;

pub const MAX_TRACKED_SERVER_PRESSES: usize = 256;

pub const MAX_PENDING_INPUT_EVENTS: usize = 4096;

pub const MAX_PENDING_INPUT_PAYLOAD_BYTES: usize = 1048576;

/// Whether this client can render a pane itself: an application surface on a terminal,
/// with frames that carry meaning, and an executable for the guest.
pub fn capabilities(
    unix: bool,
    semantic_frames: bool,
    app_surface: bool,
    stdin_tty: bool,
    stdout_tty: bool,
    omp_executable: bool,
) -> (client_local_native: bool)
    ensures
        client_local_native == (unix && app_surface && semantic_frames && stdin_tty && stdout_tty
            && omp_executable),
{
    unix && app_surface && semantic_frames && stdin_tty && stdout_tty && omp_executable
}

/// What matters of an input event.
#[derive(Debug, Clone, Copy, PartialEq, Eq, Structural)]
pub enum EventKind {
    /// `identity` names the key; `physical` tells whether that is a key of the keyboard.
    Key { identity: u64, physical: bool, kind: ClientKeyKind },
    Text,
    Paste,
    Mouse { kind: ClientMouseKind, column: u16, row: u16 },
    FocusGained,
    FocusLost,
    /// A reply of the host terminal, or something unknown.
    Other,
}

/// An input event on its way.
#[derive(Debug, Clone, Copy, PartialEq, Eq, Structural)]
pub struct RoutedEvent {
    pub id: u64,
    pub kind: EventKind,
    /// Whether the server knows such events.
    pub sendable: bool,
    /// The bytes of its content.
    pub payload: usize,
}

impl RoutedEvent {
    pub open spec fn mouse(self) -> bool {
        self.kind is Mouse
    }

    pub open spec fn key(self) -> bool {
        self.kind is Key
    }

    pub open spec fn left_down(self) -> bool {
        self.kind matches EventKind::Mouse { kind, .. } && kind == ClientMouseKind::Down(
            MouseButton::Left,
        )
    }

    pub open spec fn left_drag(self) -> bool {
        self.kind matches EventKind::Mouse { kind, .. } && kind == ClientMouseKind::Drag(
            MouseButton::Left,
        )
    }

    pub open spec fn left_up(self) -> bool {
        self.kind matches EventKind::Mouse { kind, .. } && kind == ClientMouseKind::Up(
            MouseButton::Left,
        )
    }

    pub open spec fn released(self) -> bool {
        self.kind matches EventKind::Key { kind, .. } && kind == ClientKeyKind::Release
    }

    pub open spec fn pressed(self) -> bool {
        self.kind matches EventKind::Key { kind, .. } && kind == ClientKeyKind::Press
    }

    pub fn is_mouse(&self) -> (mouse: bool)
        ensures
            mouse == self.mouse(),
    {
        matches!(self.kind, EventKind::Mouse { .. })
    }

    pub fn is_key(&self) -> (key: bool)
        ensures
            key == self.key(),
    {
        matches!(self.kind, EventKind::Key { .. })
    }

    pub fn is_left_down(&self) -> (found: bool)
        ensures
            found == self.left_down(),
    {
        matches!(
            self.kind,
            EventKind::Mouse { kind: ClientMouseKind::Down(MouseButton::Left), .. }
        )
    }

    pub fn is_left_drag(&self) -> (found: bool)
        ensures
            found == self.left_drag(),
    {
        matches!(
            self.kind,
            EventKind::Mouse { kind: ClientMouseKind::Drag(MouseButton::Left), .. }
        )
    }

    pub fn is_left_up(&self) -> (found: bool)
        ensures
            found == self.left_up(),
    {
        matches!(
            self.kind,
            EventKind::Mouse { kind: ClientMouseKind::Up(MouseButton::Left), .. }
        )
    }

    pub fn is_released(&self) -> (found: bool)
        ensures
            found == self.released(),
    {
        matches!(self.kind, EventKind::Key { kind: ClientKeyKind::Release, .. })
    }

    pub fn is_pressed(&self) -> (found: bool)
        ensures
            found == self.pressed(),
    {
        matches!(self.kind, EventKind::Key { kind: ClientKeyKind::Press, .. })
    }
}

/// A mouse report in pixels, on its way.
#[derive(Debug, Clone, Copy, PartialEq, Eq)]
pub struct PixelEvent {
    pub id: u64,
    pub payload: usize,
    pub geometry: HostGeometry,
    /// What it reports, if it is understood.
    pub kind: Option<ClientMouseKind>,
    /// Where, in pixels.
    pub report: Option<(u32, u32)>,
}

/// A pointer position in pixels of the host terminal.
#[derive(Debug, Clone, Copy, PartialEq, Eq, Structural)]
pub struct HostPixels {
    pub x: u32,
    pub y: u32,
    pub geometry: HostGeometry,
}

/// Columns, rows, and the width and height of a cell in pixels.
#[derive(Debug, Clone, Copy, PartialEq, Eq, Structural)]
pub struct SurfaceSize {
    pub columns: u16,
    pub rows: u16,
    pub cell_width: u32,
    pub cell_height: u32,
}

/// A mouse report as the renderer's own terminal sees it.
#[derive(Debug, Clone, Copy, PartialEq, Eq, Structural)]
pub struct LocalMouse {
    pub kind: ClientMouseKind,
    pub column: u16,
    pub row: u16,
}

pub open spec fn wheel(kind: ClientMouseKind) -> bool {
    kind == ClientMouseKind::ScrollUp || kind == ClientMouseKind::ScrollDown
}

pub fn is_wheel(kind: ClientMouseKind) -> (found: bool)
    ensures
        found == wheel(kind),
{
    matches!(kind, ClientMouseKind::ScrollUp | ClientMouseKind::ScrollDown)
}

/// Input that waits, with the generation that it was read in.
#[derive(Debug, Clone, PartialEq, Eq)]
pub enum DeferredMessage {
    InputEvents { events: Vec<RoutedEvent>, generation: u64 },
    InputPixels { pixel: PixelEvent, generation: u64 },
}

/// The content of waiting input.
pub enum DeferredView {
    InputEvents { events: Seq<RoutedEvent>, generation: u64 },
    InputPixels { pixel: PixelEvent, generation: u64 },
}

impl View for DeferredMessage {
    type V = DeferredView;

    open spec fn view(&self) -> DeferredView {
        match self {
            DeferredMessage::InputEvents { events, generation } => DeferredView::InputEvents {
                events: events@,
                generation: *generation,
            },
            DeferredMessage::InputPixels { pixel, generation } => DeferredView::InputPixels {
                pixel: *pixel,
                generation: *generation,
            },
        }
    }
}

pub open spec fn deferred_views(messages: Seq<DeferredMessage>) -> Seq<DeferredView> {
    Seq::new(messages.len(), |i: int| messages[i]@)
}

/// Input around a click on a link, while the server decides about the link.
#[derive(Debug, Clone, PartialEq, Eq)]
pub enum LinkInput {
    Events { events: Vec<RoutedEvent>, generation: u64 },
    Pixels { inputs: Vec<PixelEvent>, generation: u64 },
}

/// The content of such input.
pub enum LinkInputView {
    Events { events: Seq<RoutedEvent>, generation: u64 },
    Pixels { inputs: Seq<PixelEvent>, generation: u64 },
}

impl LinkInputView {
    pub open spec fn generation(self) -> u64 {
        match self {
            LinkInputView::Events { generation, .. } => generation,
            LinkInputView::Pixels { generation, .. } => generation,
        }
    }

    /// The same input as waiting messages.
    pub open spec fn deferred(self) -> Seq<DeferredView> {
        match self {
            LinkInputView::Events { events, generation } => seq![
                DeferredView::InputEvents { events, generation },
            ],
            LinkInputView::Pixels { inputs, generation } => Seq::new(
                inputs.len(),
                |i: int| DeferredView::InputPixels { pixel: inputs[i], generation },
            ),
        }
    }
}

impl View for LinkInput {
    type V = LinkInputView;

    open spec fn view(&self) -> LinkInputView {
        match self {
            LinkInput::Events { events, generation } => LinkInputView::Events {
                events: events@,
                generation: *generation,
            },
            LinkInput::Pixels { inputs, generation } => LinkInputView::Pixels {
                inputs: inputs@,
                generation: *generation,
            },
        }
    }
}

pub open spec fn link_views(inputs: Seq<LinkInput>) -> Seq<LinkInputView> {
    Seq::new(inputs.len(), |i: int| inputs[i]@)
}

/// All of the inputs as waiting messages, in order.
pub open spec fn all_deferred(inputs: Seq<LinkInputView>) -> Seq<DeferredView>
    decreases inputs.len(),
{
    if inputs.len() == 0 {
        Seq::empty()
    } else {
        all_deferred(inputs.drop_last()) + inputs.last().deferred()
    }
}

/// A message to the server.
#[derive(Debug, Clone, PartialEq, Eq)]
pub enum ClientMessage {
    InputEvents { events: Vec<RoutedEvent> },
    InputPixels { pixel: PixelEvent },
    ActivateOmpLink { launch_id: u64, request_id: u64, url: String },
    OmpRendererReady { launch_id: u64 },
}

/// The content of a message.
pub enum MessageView {
    InputEvents { events: Seq<RoutedEvent> },
    InputPixels { pixel: PixelEvent },
    ActivateOmpLink { launch_id: u64, request_id: u64, url: Seq<char> },
    OmpRendererReady { launch_id: u64 },
}

impl View for ClientMessage {
    type V = MessageView;

    open spec fn view(&self) -> MessageView {
        match self {
            ClientMessage::InputEvents { events } => MessageView::InputEvents { events: events@ },
            ClientMessage::InputPixels { pixel } => MessageView::InputPixels { pixel: *pixel },
            ClientMessage::ActivateOmpLink { launch_id, request_id, url } => {
                MessageView::ActivateOmpLink {
                    launch_id: *launch_id,
                    request_id: *request_id,
                    url: url@,
                }
            },
            ClientMessage::OmpRendererReady { launch_id } => MessageView::OmpRendererReady {
                launch_id: *launch_id,
            },
        }
    }
}

pub open spec fn message_views(messages: Seq<ClientMessage>) -> Seq<MessageView> {
    Seq::new(messages.len(), |i: int| messages[i]@)
}

/// Something for the host terminal to do, at the renderer's wish. Contents stay with the
/// caller, under a number.
#[derive(Debug, Clone, Copy, PartialEq, Eq, Structural)]
pub enum LocalEffect {
    Bell(u16),
    ClipboardWrite(u64),
    OpenUrl(u64),
}

/// What the renderer's terminal reported.
#[derive(Debug, Clone, Copy, PartialEq, Eq, Structural)]
pub enum TargetEvent {
    /// `own` tells whether it is about the renderer's own pane.
    PaneDied { own: bool },
    TerminalBell { own: bool, count: u16 },
    ClipboardWrite { content: u64 },
    PaneClipboardWrite { own: bool, content: u64 },
    OpenUrl { url: u64 },
    Other,
}

/// A local renderer.
#[derive(Debug, Clone, PartialEq, Eq)]
pub struct LocalTarget {
    pub launch_id: u64,
    pub target_app_client_id: u64,
    pub route: OmpRoute,
    /// Whether its terminal runs.
    pub running: bool,
    pub size: SurfaceSize,
    pub started_at: u64,
    pub bound_at: Option<u64>,
    pub bound: bool,
    pub surface_active: bool,
    pub first_damage: bool,
    pub ready_reported: bool,
    pub promoted: bool,
    pub failed: bool,
    pub fallback_confirmed: bool,
    /// What its terminal reported after its own end, and no poll has read yet.
    pub unread: Vec<TargetEvent>,
}

/// The content of a local renderer.
pub struct TargetView {
    pub launch_id: u64,
    pub target_app_client_id: u64,
    pub route: crate::omp_pane::record::RouteView,
    pub running: bool,
    pub size: SurfaceSize,
    pub started_at: u64,
    pub bound_at: Option<u64>,
    pub bound: bool,
    pub surface_active: bool,
    pub first_damage: bool,
    pub ready_reported: bool,
    pub promoted: bool,
    pub failed: bool,
    pub fallback_confirmed: bool,
    pub unread: Seq<TargetEvent>,
}

impl View for LocalTarget {
    type V = TargetView;

    open spec fn view(&self) -> TargetView {
        TargetView {
            launch_id: self.launch_id,
            target_app_client_id: self.target_app_client_id,
            route: self.route@,
            running: self.running,
            size: self.size,
            started_at: self.started_at,
            bound_at: self.bound_at,
            bound: self.bound,
            surface_active: self.surface_active,
            first_damage: self.first_damage,
            ready_reported: self.ready_reported,
            promoted: self.promoted,
            failed: self.failed,
            fallback_confirmed: self.fallback_confirmed,
            unread: self.unread@,
        }
    }
}

/// Milliseconds from one moment to a later one; none if it is not later.
pub open spec fn elapsed(now: u64, since: u64) -> int {
    if now >= since {
        now - since
    } else {
        0
    }
}

impl TargetView {
    /// The renderer is given up.
    pub open spec fn fail(self) -> TargetView {
        TargetView { failed: true, bound: false, surface_active: false, running: false, ..self }
    }

    /// A renderer that was never bound, or never drew, in time.
    pub open spec fn timed_out(self, now: u64) -> bool {
        ||| !self.bound && elapsed(now, self.started_at) >= BIND_TIMEOUT
        ||| self.bound && !self.first_damage && (self.bound_at matches Some(bound_at) && elapsed(
            now,
            bound_at,
        ) >= FIRST_DAMAGE_TIMEOUT)
    }
}

/// What the host terminal is to do for the events before the renderer's own end.
pub open spec fn effects_of(promoted: bool, events: Seq<TargetEvent>) -> Seq<LocalEffect>
    decreases events.len(),
{
    if events.len() == 0 {
        Seq::empty()
    } else {
        let rest = effects_of(promoted, events.drop_last());
        if died(events.drop_last()) {
            rest
        } else {
            match events.last() {
                TargetEvent::TerminalBell { own, count } => if promoted && own {
                    rest.push(LocalEffect::Bell(count))
                } else {
                    rest
                },
                TargetEvent::ClipboardWrite { content } => if promoted {
                    rest.push(LocalEffect::ClipboardWrite(content))
                } else {
                    rest
                },
                TargetEvent::PaneClipboardWrite { own, content } => if promoted && own {
                    rest.push(LocalEffect::ClipboardWrite(content))
                } else {
                    rest
                },
                TargetEvent::OpenUrl { url } => if promoted {
                    rest.push(LocalEffect::OpenUrl(url))
                } else {
                    rest
                },
                _ => rest,
            }
        }
    }
}

/// Whether the renderer's own pane died.
pub open spec fn died(events: Seq<TargetEvent>) -> bool {
    exists|i: int|
        0 <= i < events.len() && (#[trigger] events[i]) == (TargetEvent::PaneDied { own: true })
}

/// What is left unread: the events after the renderer's own end.
pub open spec fn unread_of(events: Seq<TargetEvent>) -> Seq<TargetEvent>
    decreases events.len(),
{
    if events.len() == 0 {
        events
    } else if events[0] == (TargetEvent::PaneDied { own: true }) {
        events.drop_first()
    } else {
        unread_of(events.drop_first())
    }
}

/// What polling a renderer comes to: its state, the effects, and whether it changed.
/// `damage` tells whether a pending redraw concerns it. What an earlier poll left unread is
/// read before the new events.
pub open spec fn polled(
    target: TargetView,
    damage: Option<bool>,
    events: Seq<TargetEvent>,
    now: u64,
) -> (TargetView, Seq<LocalEffect>, bool) {
    let damaged = damage == Some(true);
    let reported = target.unread + events;
    let seen = TargetView {
        first_damage: target.first_damage || damaged,
        unread: unread_of(reported),
        ..target
    };
    let effects = effects_of(target.promoted, reported);
    if died(reported) || seen.timed_out(now) {
        (seen.fail(), effects, true)
    } else {
        (seen, effects, damaged)
    }
}

/// The events from one on.
fn copied_events(events: &[TargetEvent], from: usize) -> (copy: Vec<TargetEvent>)
    requires
        from <= events@.len(),
    ensures
        copy@ == events@.skip(from as int),
{
    let mut copy: Vec<TargetEvent> = Vec::new();
    let mut i: usize = from;
    while i < events.len()
        invariant
            from <= i <= events@.len(),
            copy@ == events@.subrange(from as int, i as int),
        decreases events.len() - i,
    {
        copy.push(events[i]);
        i += 1;
        assert(copy@ =~= events@.subrange(from as int, i as int));
    }
    assert(copy@ =~= events@.skip(from as int));
    copy
}

impl LocalTarget {
    pub fn duplicate(&self) -> (copy: LocalTarget)
        ensures
            copy@ == self@,
    {
        let unread = copied_events(self.unread.as_slice(), 0);
        assert(unread@ =~= self.unread@);
        LocalTarget {
            launch_id: self.launch_id,
            target_app_client_id: self.target_app_client_id,
            route: self.route.duplicate(),
            running: self.running,
            size: self.size,
            started_at: self.started_at,
            bound_at: self.bound_at,
            bound: self.bound,
            surface_active: self.surface_active,
            first_damage: self.first_damage,
            ready_reported: self.ready_reported,
            promoted: self.promoted,
            failed: self.failed,
            fallback_confirmed: self.fallback_confirmed,
            unread,
        }
    }

    pub fn fail(&mut self) -> (stopped: bool)
        ensures
            final(self)@ == old(self)@.fail(),
            stopped == old(self)@.running,
    {
        let stopped = self.running;
        self.failed = true;
        self.bound = false;
        self.surface_active = false;
        self.running = false;
        stopped
    }

    fn timed_out(&self, now: u64) -> (late: bool)
        ensures
            late == self@.timed_out(now),
    {
        let age: u64 = if now >= self.started_at {
            now - self.started_at
        } else {
            0
        };
        if !self.bound && age >= BIND_TIMEOUT {
            return true;
        }
        if self.bound && !self.first_damage {
            if let Some(bound_at) = self.bound_at {
                let waited: u64 = if now >= bound_at {
                    now - bound_at
                } else {
                    0
                };
                return waited >= FIRST_DAMAGE_TIMEOUT;
            }
        }
        false
    }

    /// Takes what the renderer's terminal reported; tells whether it changed, and whether
    /// its terminal is to be stopped.
    pub fn poll(
        &mut self,
        damage: Option<bool>,
        events: &[TargetEvent],
        now: u64,
        effects: &mut Vec<LocalEffect>,
    ) -> (changed: (bool, bool))
        ensures
            ({
                let (target, added, damaged) = polled(old(self)@, damage, events@, now);
                &&& final(self)@ == target
                &&& final(effects)@ == old(effects)@ + added
                &&& changed.0 == damaged
                &&& changed.1 == (old(self)@.running && !target.running)
            }),
    {
        let damaged = match damage {
            Some(damaged) => damaged,
            None => false,
        };
        self.first_damage = self.first_damage || damaged;
        let mut reported: Vec<TargetEvent> = Vec::new();
        reported.append(&mut self.unread);
        let mut fresh = copied_events(events, 0);
        reported.append(&mut fresh);
        assert(reported@ =~= old(self)@.unread + events@);
        let events = reported;
        let mut i: usize = 0;
        let mut dead = false;
        assert(events@.take(0) =~= Seq::empty());
        assert(events@.skip(0) =~= events@);
        assert(old(effects)@ + Seq::<LocalEffect>::empty() =~= old(effects)@);
        while i < events.len() && !dead
            invariant
                i <= events@.len(),
                dead == died(events@.take(i as int)),
                effects@ == old(effects)@ + effects_of(self.promoted, events@.take(i as int)),
                unread_of(events@) == (if dead {
                    events@.skip(i as int)
                } else {
                    unread_of(events@.skip(i as int))
                }),
            decreases events.len() - i,
        {
            let ghost before = events@.take(i as int);
            assert(events@.skip(i as int).drop_first() =~= events@.skip(i as int + 1));
            match events[i] {
                TargetEvent::PaneDied { own } => {
                    if own {
                        dead = true;
                    }
                },
                TargetEvent::TerminalBell { own, count } => {
                    if self.promoted && own {
                        effects.push(LocalEffect::Bell(count));
                    }
                },
                TargetEvent::ClipboardWrite { content } => {
                    if self.promoted {
                        effects.push(LocalEffect::ClipboardWrite(content));
                    }
                },
                TargetEvent::PaneClipboardWrite { own, content } => {
                    if self.promoted && own {
                        effects.push(LocalEffect::ClipboardWrite(content));
                    }
                },
                TargetEvent::OpenUrl { url } => {
                    if self.promoted {
                        effects.push(LocalEffect::OpenUrl(url));
                    }
                },
                TargetEvent::Other => {},
            }
            i += 1;
            proof {
                let longer = events@.take(i as int);
                assert(longer.drop_last() =~= before);
                assert(longer.last() == events@[i - 1]);
                assert(longer[i - 1] == events@[i - 1]);
                if dead {
                    assert(longer[i - 1] == (TargetEvent::PaneDied { own: true }));
                } else if died(longer) {
                    let j = choose|j: int|
                        0 <= j < longer.len() && (#[trigger] longer[j]) == (
                        TargetEvent::PaneDied { own: true });
                    assert(before[j] == longer[j]);
                }
                assert(effects@ =~= old(effects)@ + effects_of(self.promoted, longer));
            }
        }
        proof {
            lemma_effects_end(self.promoted, events@, i as int);
            if dead {
                let j = choose|j: int|
                    0 <= j < i && (#[trigger] events@.take(i as int)[j]) == (
                    TargetEvent::PaneDied { own: true });
                assert(events@[j] == (TargetEvent::PaneDied { own: true }));
            } else {
                assert(events@.take(i as int) =~= events@);
            }
        }
        self.unread = copied_events(events.as_slice(), i);
        assert(unread_of(events@) =~= self.unread@);
        if dead || self.timed_out(now) {
            let stopped = self.fail();
            (true, stopped)
        } else {
            (damaged, false)
        }
    }
}

/// After the renderer's end no effects are added.
pub(crate) proof fn lemma_effects_end(promoted: bool, events: Seq<TargetEvent>, n: int)
    requires
        0 <= n <= events.len(),
        n == events.len() || died(events.take(n)),
    ensures
        effects_of(promoted, events) == effects_of(promoted, events.take(n)),
    decreases events.len() - n,
{
    if n < events.len() {
        let longer = events.take(n + 1);
        assert(longer.drop_last() =~= events.take(n));
        let j = choose|j: int|
            0 <= j < n && (#[trigger] events.take(n)[j]) == (TargetEvent::PaneDied { own: true });
        assert(longer[j] == (TargetEvent::PaneDied { own: true }));
        lemma_effects_end(promoted, events, n + 1);
    } else {
        assert(events.take(n) =~= events);
    }
}

/// Where a key that is held went.
#[derive(Debug, Clone, Copy, PartialEq, Eq, Structural)]
pub enum PhysicalRoute {
    Forwarded,
    ReplyNavigation,
    Suppressed,
}

/// What became of a key without a place on the keyboard.
#[derive(Debug, Clone, Copy, PartialEq, Eq, Structural)]
pub enum SemanticRoute {
    Forwarded,
    Consumed { navigated: bool },
}

/// A link in the renderer's terminal.
#[derive(Debug, Clone, PartialEq, Eq)]
pub struct TerminalLink {
    pub url: String,
    pub cells: Vec<(u16, u16)>,
}

/// The content of a link.
pub struct LinkView {
    pub url: Seq<char>,
    pub cells: Seq<(u16, u16)>,
}

impl View for TerminalLink {
    type V = LinkView;

    open spec fn view(&self) -> LinkView {
        LinkView { url: self.url@, cells: self.cells@ }
    }
}

/// What the caller is asked to do, or to find out.
#[derive(Debug, Clone, Copy, PartialEq, Eq)]
pub enum Ask {
    /// Whether a held key belongs to the renderer.
    OwnsKey(RoutedEvent),
    /// Where the press of this key of the keyboard went.
    PhysicalRoute(RoutedEvent),
    /// What becomes of another event of a key that is held.
    SemanticRoute(RoutedEvent),
    /// What becomes of a new press.
    SemanticPress(RoutedEvent),
    OwnsSemantic(RoutedEvent),
    /// Give the event to the renderer's terminal.
    Forward(RoutedEvent),
    /// Go to another reply, if the key asks for that.
    Navigate(RoutedEvent),
    ReservePress(RoutedEvent),
    CommitPress(RoutedEvent, PhysicalRoute),
    ForgetPhysical(RoutedEvent),
    ForgetSemantic(RoutedEvent),
    SuppressPhysical(RoutedEvent),
    SuppressSemantic(RoutedEvent),
    /// Whether any held key was given to the renderer's terminal.
    HasForwarded,
    /// Which releases are owed when the focus is lost.
    ReleaseForFocusLoss,
    /// Which releases are owed when the renderer is no longer the owner.
    RetireOwner,
    /// Give the owed releases to the renderer's terminal; whether all arrived.
    ForwardReleases,
    ForwardFocusLost,
    /// The link under a cell.
    LinkAt { column: u16, row: u16 },
    /// Whether a key is the prefix of the client's own commands.
    MatchesPrefix(RoutedEvent),
    RenderFrame { columns: u16, rows: u16 },
    StopRuntime,
    ResizeRuntime(SurfaceSize),
    /// Start the renderer that was asked for; whether that worked.
    Spawn,
    /// The cell under a pixel, of a surface of a size if there is one.
    PixelCell { pointer: HostPixels, size: Option<SurfaceSize> },
    /// A pixel report as the renderer's terminal sees it.
    LocalMouse { pixel: PixelEvent, size: SurfaceSize },
    ForwardPixel(PixelEvent),
}

/// What the caller answers.
#[derive(Debug, Clone, PartialEq, Eq)]
pub enum Answer {
    Done,
    Yes(bool),
    Physical(Option<PhysicalRoute>),
    Semantic(Option<SemanticRoute>),
    /// How many releases are owed first; nothing where the press is refused.
    Reserved(Option<usize>),
    /// How many releases are owed.
    Releases(usize),
    Link(Option<TerminalLink>),
    Drawn(Option<Frame>),
    Cell(Option<(u16, u16)>),
    Mouse(Option<LocalMouse>),
}

/// The content of an answer.
pub enum AnswerView {
    Done,
    Yes(bool),
    Physical(Option<PhysicalRoute>),
    Semantic(Option<SemanticRoute>),
    Reserved(Option<usize>),
    Releases(usize),
    Link(Option<LinkView>),
    Drawn(Option<FrameView>),
    Cell(Option<(u16, u16)>),
    Mouse(Option<LocalMouse>),
}

impl View for Answer {
    type V = AnswerView;

    open spec fn view(&self) -> AnswerView {
        match self {
            Answer::Done => AnswerView::Done,
            Answer::Yes(yes) => AnswerView::Yes(*yes),
            Answer::Physical(route) => AnswerView::Physical(*route),
            Answer::Semantic(route) => AnswerView::Semantic(*route),
            Answer::Reserved(releases) => AnswerView::Reserved(*releases),
            Answer::Releases(count) => AnswerView::Releases(*count),
            Answer::Link(link) => AnswerView::Link(
                match link {
                    Some(link) => Some(link@),
                    None => None,
                },
            ),
            Answer::Drawn(frame) => AnswerView::Drawn(
                match frame {
                    Some(frame) => Some(frame@),
                    None => None,
                },
            ),
            Answer::Cell(cell) => AnswerView::Cell(*cell),
            Answer::Mouse(mouse) => AnswerView::Mouse(*mouse),
        }
    }
}

impl AnswerView {
    pub open spec fn yes(self) -> bool {
        self matches AnswerView::Yes(yes) && yes
    }

    pub open spec fn physical(self) -> Option<PhysicalRoute> {
        match self {
            AnswerView::Physical(route) => route,
            _ => None,
        }
    }

    pub open spec fn semantic(self) -> Option<SemanticRoute> {
        match self {
            AnswerView::Semantic(route) => route,
            _ => None,
        }
    }

    pub open spec fn reserved(self) -> Option<usize> {
        match self {
            AnswerView::Reserved(releases) => releases,
            _ => None,
        }
    }

    pub open spec fn releases(self) -> usize {
        match self {
            AnswerView::Releases(count) => count,
            _ => 0,
        }
    }

    pub open spec fn link(self) -> Option<LinkView> {
        match self {
            AnswerView::Link(link) => link,
            _ => None,
        }
    }

    pub open spec fn drawn(self) -> Option<FrameView> {
        match self {
            AnswerView::Drawn(frame) => frame,
            _ => None,
        }
    }

    pub open spec fn cell(self) -> Option<(u16, u16)> {
        match self {
            AnswerView::Cell(cell) => cell,
            _ => None,
        }
    }

    pub open spec fn mouse(self) -> Option<LocalMouse> {
        match self {
            AnswerView::Mouse(mouse) => mouse,
            _ => None,
        }
    }
}

impl Answer {
    pub fn yes(&self) -> (yes: bool)
        ensures
            yes == self@.yes(),
    {
        match self {
            Answer::Yes(yes) => *yes,
            _ => false,
        }
    }

    pub fn physical(&self) -> (route: Option<PhysicalRoute>)
        ensures
            route == self@.physical(),
    {
        match self {
            Answer::Physical(route) => *route,
            _ => None,
        }
    }

    pub fn semantic(&self) -> (route: Option<SemanticRoute>)
        ensures
            route == self@.semantic(),
    {
        match self {
            Answer::Semantic(route) => *route,
            _ => None,
        }
    }

    pub fn reserved(&self) -> (releases: Option<usize>)
        ensures
            releases == self@.reserved(),
    {
        match self {
            Answer::Reserved(releases) => *releases,
            _ => None,
        }
    }

    pub fn releases(&self) -> (count: usize)
        ensures
            count == self@.releases(),
    {
        match self {
            Answer::Releases(count) => *count,
            _ => 0,
        }
    }

    pub fn link(self) -> (link: Option<TerminalLink>)
        ensures
            self@.link() == (match link {
                Some(link) => Some(link@),
                None => None,
            }),
    {
        match self {
            Answer::Link(link) => link,
            _ => None,
        }
    }

    pub fn drawn(self) -> (frame: Option<Frame>)
        ensures
            self@.drawn() == (match frame {
                Some(frame) => Some(frame@),
                None => None,
            }),
    {
        match self {
            Answer::Drawn(frame) => frame,
            _ => None,
        }
    }

    pub fn cell(&self) -> (cell: Option<(u16, u16)>)
        ensures
            cell == self@.cell(),
    {
        match self {
            Answer::Cell(cell) => *cell,
            _ => None,
        }
    }

    pub fn mouse(&self) -> (mouse: Option<LocalMouse>)
        ensures
            mouse == self@.mouse(),
    {
        match self {
            Answer::Mouse(mouse) => *mouse,
            _ => None,
        }
    }
}

/// How much input there is: events, and bytes of content. Counts stop at the largest
/// number.
#[derive(Debug, Clone, Copy, PartialEq, Eq, Structural)]
pub struct InputUsage {
    pub events: usize,
    pub payload: usize,
}

pub open spec fn capped(n: int) -> usize {
    if n > usize::MAX {
        usize::MAX
    } else {
        n as usize
    }
}

impl InputUsage {
    pub open spec fn none() -> InputUsage {
        InputUsage { events: 0, payload: 0 }
    }

    pub open spec fn and(self, other: InputUsage) -> InputUsage {
        InputUsage {
            events: capped(self.events + other.events),
            payload: capped(self.payload + other.payload),
        }
    }
}

/// Adds to a usage.
pub fn add_input_usage(total: &mut InputUsage, usage: InputUsage)
    ensures
        *final(total) == old(total).and(usage),
{
    total.events = total.events.saturating_add(usage.events);
    total.payload = total.payload.saturating_add(usage.payload);
}

/// The bytes of an event's content.
pub open spec fn content_bytes(event: ClientInputView) -> int {
    match event {
        ClientInputView::Key { generated_text, source, .. } => (match generated_text {
            Some(text) => vstd::utf8::encode_utf8(text).len() as int,
            None => 0,
        }) + (match source {
            KeySourceView::Vt { bytes } => bytes.len() as int,
            _ => 0,
        }),
        ClientInputView::TextCommit(text) => vstd::utf8::encode_utf8(text).len() as int,
        ClientInputView::Paste { text } => vstd::utf8::encode_utf8(text).len() as int,
        _ => 0,
    }
}

/// How much input one event is.
pub fn client_input_event_usage(event: &ClientInputEvent) -> (usage: InputUsage)
    requires
        content_bytes(event@) <= usize::MAX,
    ensures
        usage == (InputUsage { events: 1, payload: content_bytes(event@) as usize }),
{
    let payload: usize = match event {
        ClientInputEvent::Key { generated_text, source, .. } => {
            let text: usize = match generated_text {
                Some(text) => text.as_str().as_bytes().len(),
                None => 0,
            };
            let bytes: usize = match source {
                ClientKeySource::Vt { bytes } => bytes.len(),
                _ => 0,
            };
            text + bytes
        },
        ClientInputEvent::TextCommit(text) => text.as_str().as_bytes().len(),
        ClientInputEvent::Paste { text } => text.as_str().as_bytes().len(),
        _ => 0,
    };
    InputUsage { events: 1, payload }
}

/// What matters of a framed event. A mouse event of an unknown kind is one of the others.
pub open spec fn kind_of(event: RawInputEvent) -> EventKind {
    match event {
        RawInputEvent::Text(_) => EventKind::Text,
        RawInputEvent::Key(key) => EventKind::Key {
            identity: key.identity,
            physical: key.physical,
            kind: key.kind,
        },
        RawInputEvent::Mouse { kind: Some(kind), column, row, .. } => EventKind::Mouse {
            kind,
            column,
            row,
        },
        RawInputEvent::Paste(_) => EventKind::Paste,
        RawInputEvent::OuterFocusGained => EventKind::FocusGained,
        RawInputEvent::OuterFocusLost => EventKind::FocusLost,
        _ => EventKind::Other,
    }
}

/// The bytes that a framed event sends to the server.
pub open spec fn bytes_to_send(event: RawInputEvent) -> int {
    match windows::sent_for(event) {
        Some(sent) => content_bytes(sent),
        None => 0,
    }
}

/// A framed event on its way under a number.
pub open spec fn routed_as(id: u64, event: RawInputEvent) -> RoutedEvent {
    RoutedEvent {
        id,
        kind: kind_of(event),
        sendable: windows::sent_for(event) is Some,
        payload: bytes_to_send(event) as usize,
    }
}

/// A framed event on its way under a number, and the event for the server that it becomes.
pub fn routed_event(id: u64, event: RawInputEvent) -> (routed: (
    RoutedEvent,
    Option<ClientInputEvent>,
))
    requires
        bytes_to_send(event) <= usize::MAX,
    ensures
        routed.0 == routed_as(id, event),
        windows::opt_view(routed.1) == windows::sent_for(event),
{
    let kind = match &event {
        RawInputEvent::Text(_) => EventKind::Text,
        RawInputEvent::Key(key) => EventKind::Key {
            identity: key.identity,
            physical: key.physical,
            kind: key.kind,
        },
        RawInputEvent::Mouse { kind: Some(kind), column, row, .. } => EventKind::Mouse {
            kind: *kind,
            column: *column,
            row: *row,
        },
        RawInputEvent::Paste(_) => EventKind::Paste,
        RawInputEvent::OuterFocusGained => EventKind::FocusGained,
        RawInputEvent::OuterFocusLost => EventKind::FocusLost,
        _ => EventKind::Other,
    };
    let sent = windows_client_input_event_from_raw(event);
    let (sendable, payload): (bool, usize) = match &sent {
        Some(sent) => (true, client_input_event_usage(sent).payload),
        None => (false, 0),
    };
    (RoutedEvent { id, kind, sendable, payload }, sent)
}

/// How much input some events are.
pub open spec fn events_usage(events: Seq<RoutedEvent>) -> InputUsage
    decreases events.len(),
{
    if events.len() == 0 {
        InputUsage::none()
    } else {
        events_usage(events.drop_last()).and(
            InputUsage { events: 1, payload: events.last().payload },
        )
    }
}

/// How much of the events the server knows.
pub open spec fn sendable(events: Seq<RoutedEvent>) -> Seq<RoutedEvent> {
    events.filter(|event: RoutedEvent| event.sendable)
}

/// How much input some events for the server are.
pub open spec fn sent_usage(events: Seq<ClientInputView>) -> InputUsage
    decreases events.len(),
{
    if events.len() == 0 {
        InputUsage::none()
    } else {
        sent_usage(events.drop_last()).and(
            InputUsage { events: 1, payload: content_bytes(events.last()) as usize },
        )
    }
}

/// Framed events count, on their way, for exactly what is sent to the server of them.
pub proof fn law_routed_events_count_what_is_sent(
    events: Seq<RawInputEvent>,
    routed: Seq<RoutedEvent>,
)
    requires
        routed.len() == events.len(),
        forall|i: int|
            0 <= i < events.len() ==> #[trigger] routed[i] == routed_as(routed[i].id, events[i]),
    ensures
        events_usage(sendable(routed)) == sent_usage(windows::all_sent_for(events)),
    decreases events.len(),
{
    reveal(Seq::filter);
    if events.len() > 0 {
        law_routed_events_count_what_is_sent(events.drop_last(), routed.drop_last());
        let last = routed.last();
        assert(last == routed_as(last.id, events.last()));
        let rest = sendable(routed.drop_last());
        let sent = windows::all_sent_for(events.drop_last());
        match windows::sent_for(events.last()) {
            Some(event) => {
                assert(sendable(routed) == rest.push(last));
                assert(rest.push(last).drop_last() =~= rest);
                assert(sent.push(event).drop_last() =~= sent);
            },
            None => {
                assert(sendable(routed) == rest);
            },
        }
    }
}

pub open spec fn without_mouse(events: Seq<RoutedEvent>) -> Seq<RoutedEvent> {
    events.filter(|event: RoutedEvent| !event.mouse())
}

pub open spec fn pixels_usage(inputs: Seq<PixelEvent>) -> InputUsage
    decreases inputs.len(),
{
    if inputs.len() == 0 {
        InputUsage::none()
    } else {
        pixels_usage(inputs.drop_last()).and(
            InputUsage { events: 1, payload: inputs.last().payload },
        )
    }
}

impl DeferredView {
    pub open spec fn usage(self) -> InputUsage {
        match self {
            DeferredView::InputEvents { events, .. } => events_usage(events),
            DeferredView::InputPixels { pixel, .. } => InputUsage {
                events: 1,
                payload: pixel.payload,
            },
        }
    }

    /// What is left for a generation: mouse input of another one is void.
    pub open spec fn kept(self, current: u64) -> Option<DeferredView> {
        match self {
            DeferredView::InputEvents { events, generation } => {
                let left = if generation != current {
                    without_mouse(events)
                } else {
                    events
                };
                if left.len() == 0 {
                    None
                } else {
                    Some(DeferredView::InputEvents { events: left, generation })
                }
            },
            DeferredView::InputPixels { generation, .. } => if generation == current {
                Some(self)
            } else {
                None
            },
        }
    }
}

impl LinkInputView {
    pub open spec fn usage(self) -> InputUsage {
        match self {
            LinkInputView::Events { events, .. } => events_usage(events),
            LinkInputView::Pixels { inputs, .. } => pixels_usage(inputs),
        }
    }

    /// What is left for a generation.
    pub open spec fn kept(self, current: u64) -> Option<LinkInputView> {
        match self {
            LinkInputView::Events { events, generation } => if generation != current {
                let left = without_mouse(events);
                if left.len() == 0 {
                    None
                } else {
                    Some(LinkInputView::Events { events: left, generation })
                }
            } else {
                Some(self)
            },
            LinkInputView::Pixels { generation, .. } => if generation == current {
                Some(self)
            } else {
                None
            },
        }
    }
}

impl MessageView {
    pub open spec fn usage(self) -> InputUsage {
        match self {
            MessageView::InputEvents { events } => events_usage(events),
            MessageView::InputPixels { pixel } => InputUsage {
                events: 1,
                payload: pixel.payload,
            },
            _ => InputUsage::none(),
        }
    }
}

pub open spec fn deferred_usage(messages: Seq<DeferredView>) -> InputUsage
    decreases messages.len(),
{
    if messages.len() == 0 {
        InputUsage::none()
    } else {
        deferred_usage(messages.drop_last()).and(messages.last().usage())
    }
}

pub open spec fn links_usage(inputs: Seq<LinkInputView>) -> InputUsage
    decreases inputs.len(),
{
    if inputs.len() == 0 {
        InputUsage::none()
    } else {
        links_usage(inputs.drop_last()).and(inputs.last().usage())
    }
}

pub open spec fn messages_usage(messages: Seq<MessageView>) -> InputUsage
    decreases messages.len(),
{
    if messages.len() == 0 {
        InputUsage::none()
    } else {
        messages_usage(messages.drop_last()).and(messages.last().usage())
    }
}

/// What is left of waiting messages for a generation, in order.
pub open spec fn all_kept(messages: Seq<DeferredView>, current: u64) -> Seq<DeferredView>
    decreases messages.len(),
{
    if messages.len() == 0 {
        Seq::empty()
    } else {
        let rest = all_kept(messages.drop_last(), current);
        match messages.last().kept(current) {
            Some(left) => rest.push(left),
            None => rest,
        }
    }
}

/// What is left of link input for a generation, in order.
pub open spec fn links_kept(inputs: Seq<LinkInputView>, current: u64) -> Seq<LinkInputView>
    decreases inputs.len(),
{
    if inputs.len() == 0 {
        Seq::empty()
    } else {
        let rest = links_kept(inputs.drop_last(), current);
        match inputs.last().kept(current) {
            Some(left) => rest.push(left),
            None => rest,
        }
    }
}

/// Whether any link input is of another generation.
pub open spec fn links_stale(inputs: Seq<LinkInputView>, current: u64) -> bool {
    exists|i: int| 0 <= i < inputs.len() && (#[trigger] inputs[i]).generation() != current
}

/// The events that wait in messages, in order.
pub open spec fn deferred_events(messages: Seq<DeferredView>) -> Seq<RoutedEvent>
    decreases messages.len(),
{
    if messages.len() == 0 {
        Seq::empty()
    } else {
        deferred_events(messages.drop_last()) + match messages.last() {
            DeferredView::InputEvents { events, .. } => events,
            DeferredView::InputPixels { .. } => Seq::empty(),
        }
    }
}

pub open spec fn link_events(inputs: Seq<LinkInputView>) -> Seq<RoutedEvent>
    decreases inputs.len(),
{
    if inputs.len() == 0 {
        Seq::empty()
    } else {
        link_events(inputs.drop_last()) + match inputs.last() {
            LinkInputView::Events { events, .. } => events,
            LinkInputView::Pixels { .. } => Seq::empty(),
        }
    }
}

pub open spec fn message_events(messages: Seq<MessageView>) -> Seq<RoutedEvent>
    decreases messages.len(),
{
    if messages.len() == 0 {
        Seq::empty()
    } else {
        message_events(messages.drop_last()) + match messages.last() {
            MessageView::InputEvents { events } => events,
            _ => Seq::empty(),
        }
    }
}

/// A pixel coordinate moved into a cell: cells start at one, and each has an extent.
/// Nothing where the numbers are too large.
pub fn clamp_pixel_to_cell(pixel: u32, cell: u16, cell_extent: u32) -> (clamped: Option<u32>)
    requires
        cell_extent > 0,
    ensures
        ({
            let start = cell * cell_extent + 1;
            let end = (cell + 1) * cell_extent;
            match clamped {
                Some(clamped) => start <= u32::MAX && end <= u32::MAX && clamped == (if pixel
                    < start {
                    start
                } else if pixel > end {
                    end
                } else {
                    pixel as int
                }),
                None => start > u32::MAX || end > u32::MAX,
            }
        }),
{
    assert(0 <= cell * cell_extent <= 0xffff * 0xffff_ffff) by (nonlinear_arith)
        requires
            0 <= cell <= 0xffff,
            0 <= cell_extent <= 0xffff_ffff,
    ;
    let product: u64 = (cell as u64) * (cell_extent as u64);
    assert((cell + 1) * cell_extent == cell * cell_extent + cell_extent) by (nonlinear_arith);
    let start: u64 = product + 1;
    let end: u64 = product + cell_extent as u64;
    if start > 0xffff_ffff || end > 0xffff_ffff {
        return None;
    }
    let start = start as u32;
    let end = end as u32;
    if pixel < start {
        Some(start)
    } else if pixel > end {
        Some(end)
    } else {
        Some(pixel)
    }
}

/// A framed event is routed as what it is: a key with its own name and kind, the mouse with
/// its own place, and so on; what is neither of these is one of the others.
pub proof fn law_framed_events_keep_their_kind(id: u64, event: RawInputEvent)
    ensures
        routed_as(id, event).id == id,
        kind_of(event) is Text <==> event is Text,
        kind_of(event) is Paste <==> event is Paste,
        kind_of(event) is FocusGained <==> event is OuterFocusGained,
        kind_of(event) is FocusLost <==> event is OuterFocusLost,
        kind_of(event) is Key <==> event is Key,
        event matches RawInputEvent::Key(key) ==> kind_of(event) == (EventKind::Key {
            identity: key.identity,
            physical: key.physical,
            kind: key.kind,
        }),
        event matches RawInputEvent::Mouse { kind: Some(kind), column, row, .. } ==> kind_of(event)
            == (EventKind::Mouse { kind, column, row }),
        event is HostReply || event is Unsupported ==> kind_of(event) is Other
            && !routed_as(id, event).sendable && routed_as(id, event).payload == 0,
        event is Text || event is Paste || event is OuterFocusGained || event is OuterFocusLost
            ==> routed_as(id, event).sendable,
{
}

/// The content of an event is its text, or the bytes that a key came as; the mouse and the focus
/// have none.
pub proof fn law_content_is_what_was_typed(event: ClientInputView)
    ensures
        event matches ClientInputView::TextCommit(text) ==> content_bytes(event)
            == vstd::utf8::encode_utf8(text).len(),
        event matches ClientInputView::Paste { text } ==> content_bytes(event)
            == vstd::utf8::encode_utf8(text).len(),
        event matches ClientInputView::Key {
            generated_text: Some(text),
            source: KeySourceView::Vt { bytes },
            ..
        } ==> content_bytes(event) == vstd::utf8::encode_utf8(text).len() + bytes.len(),
        event matches ClientInputView::Key {
            generated_text: None,
            source: KeySourceView::Vt { bytes },
            ..
        } ==> content_bytes(event) == bytes.len(),
        !(event is TextCommit) && !(event is Paste) && !(event is Key) ==> content_bytes(event) == 0,
{
}

/// Waiting input counts as what it holds: its events or its reports, each with its content; a
/// message that holds no input counts for nothing.
pub proof fn law_waiting_input_counts_as_what_it_holds(
    events: Seq<RoutedEvent>,
    pixel: PixelEvent,
    inputs: Seq<PixelEvent>,
    generation: u64,
    launch_id: u64,
)
    ensures
        (DeferredView::InputEvents { events, generation }).usage() == events_usage(events),
        (DeferredView::InputPixels { pixel, generation }).usage() == (InputUsage {
            events: 1,
            payload: pixel.payload,
        }),
        (LinkInputView::Events { events, generation }).usage() == events_usage(events),
        ({
            let before = (LinkInputView::Pixels { inputs, generation }).usage();
            let after = (LinkInputView::Pixels { inputs: inputs.push(pixel), generation }).usage();
            &&& before.events < usize::MAX ==> after.events == before.events + 1
            &&& before.payload + pixel.payload <= usize::MAX ==> after.payload == before.payload
                + pixel.payload
        }),
        (MessageView::InputEvents { events }).usage() == events_usage(events),
        (MessageView::InputPixels { pixel }).usage() == (InputUsage {
            events: 1,
            payload: pixel.payload,
        }),
        (MessageView::OmpRendererReady { launch_id }).usage() == (InputUsage {
            events: 0,
            payload: 0,
        }),
{
    assert(inputs.push(pixel).drop_last() =~= inputs);
}

/// Every message that waits counts, and all of them together.
pub proof fn law_every_waiting_message_counts(
    messages: Seq<DeferredView>,
    message: DeferredView,
    inputs: Seq<LinkInputView>,
    input: LinkInputView,
    sent: Seq<MessageView>,
    one: MessageView,
)
    ensures
        ({
            let before = deferred_usage(messages);
            let after = deferred_usage(messages.push(message));
            &&& before.events + message.usage().events <= usize::MAX ==> after.events
                == before.events + message.usage().events
            &&& before.payload + message.usage().payload <= usize::MAX ==> after.payload
                == before.payload + message.usage().payload
        }),
        ({
            let before = links_usage(inputs);
            let after = links_usage(inputs.push(input));
            &&& before.events + input.usage().events <= usize::MAX ==> after.events
                == before.events + input.usage().events
            &&& before.payload + input.usage().payload <= usize::MAX ==> after.payload
                == before.payload + input.usage().payload
        }),
        ({
            let before = messages_usage(sent);
            let after = messages_usage(sent.push(one));
            &&& before.events + one.usage().events <= usize::MAX ==> after.events == before.events
                + one.usage().events
            &&& before.payload + one.usage().payload <= usize::MAX ==> after.payload
                == before.payload + one.usage().payload
        }),
{
    assert(messages.push(message).drop_last() =~= messages);
    assert(inputs.push(input).drop_last() =~= inputs);
    assert(sent.push(one).drop_last() =~= sent);
}

} // verus!
