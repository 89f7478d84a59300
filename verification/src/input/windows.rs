//! Console key events on Windows.
//!
//! The console may hand out a terminal's control strings as single key events. Those are
//! turned back into bytes and framed; all others are forwarded as they are.
use crate::text::{self, is_control};
use vstd::prelude::*;

verus! {

/// Modifier bits.
pub const MODIFIER_SHIFT: u8 = 1;

pub const MODIFIER_CONTROL: u8 = 2;

pub const MODIFIER_ALT: u8 = 4;

#[derive(Debug, Clone, Copy, PartialEq, Eq, Structural)]
pub enum ClientKeyCode {
    Char(char),
    Esc,
    Enter,
    Tab,
    BackTab,
    Backspace,
    Delete,
    Insert,
    Up,
    Down,
    Left,
    Right,
    Home,
    End,
    PageUp,
    PageDown,
    Function(u8),
    Null,
}

#[derive(Debug, Clone, Copy, PartialEq, Eq, Structural)]
pub enum ClientKeyKind {
    Press,
    Repeat,
    Release,
}

#[derive(Debug, Clone, Copy, PartialEq, Eq, Structural)]
pub enum MouseButton {
    Left,
    Right,
    Middle,
}

#[derive(Debug, Clone, Copy, PartialEq, Eq, Structural)]
pub enum ClientMouseKind {
    Down(MouseButton),
    Up(MouseButton),
    Drag(MouseButton),
    Moved,
    ScrollUp,
    ScrollDown,
    ScrollLeft,
    ScrollRight,
}

/// Where a key event comes from.
#[derive(Debug, Clone, PartialEq, Eq)]
pub enum ClientKeySource {
    /// Terminal bytes.
    Vt { bytes: Vec<u8> },
    /// A console record, by its number.
    WindowsConsole { record: u64 },
    Synthesized,
}

/// An input event for the server.
#[derive(Debug, Clone, PartialEq, Eq)]
pub enum ClientInputEvent {
    Key {
        code: ClientKeyCode,
        modifiers: u8,
        kind: ClientKeyKind,
        repeat_count: u16,
        generated_text: Option<String>,
        source: ClientKeySource,
    },
    Mouse { kind: ClientMouseKind, column: u16, row: u16, modifiers: u8 },
    Paste { text: String },
    TextCommit(String),
    FocusGained,
    FocusLost,
}

/// The content of a key's source.
pub enum KeySourceView {
    Vt { bytes: Seq<u8> },
    WindowsConsole { record: u64 },
    Synthesized,
}

impl View for ClientKeySource {
    type V = KeySourceView;

    open spec fn view(&self) -> KeySourceView {
        match self {
            ClientKeySource::Vt { bytes } => KeySourceView::Vt { bytes: bytes@ },
            ClientKeySource::WindowsConsole { record } => KeySourceView::WindowsConsole {
                record: *record,
            },
            ClientKeySource::Synthesized => KeySourceView::Synthesized,
        }
    }
}

/// The content of an input event.
pub enum ClientInputView {
    Key {
        code: ClientKeyCode,
        modifiers: u8,
        kind: ClientKeyKind,
        repeat_count: u16,
        generated_text: Option<Seq<char>>,
        source: KeySourceView,
    },
    Mouse { kind: ClientMouseKind, column: u16, row: u16, modifiers: u8 },
    Paste { text: Seq<char> },
    TextCommit(Seq<char>),
    FocusGained,
    FocusLost,
}

impl View for ClientInputEvent {
    type V = ClientInputView;

    open spec fn view(&self) -> ClientInputView {
        match self {
            ClientInputEvent::Key {
                code,
                modifiers,
                kind,
                repeat_count,
                generated_text,
                source,
            } => ClientInputView::Key {
                code: *code,
                modifiers: *modifiers,
                kind: *kind,
                repeat_count: *repeat_count,
                generated_text: text::opt_text(*generated_text),
                source: source@,
            },
            ClientInputEvent::Mouse { kind, column, row, modifiers } => ClientInputView::Mouse {
                kind: *kind,
                column: *column,
                row: *row,
                modifiers: *modifiers,
            },
            ClientInputEvent::Paste { text } => ClientInputView::Paste { text: text@ },
            ClientInputEvent::TextCommit(text) => ClientInputView::TextCommit(text@),
            ClientInputEvent::FocusGained => ClientInputView::FocusGained,
            ClientInputEvent::FocusLost => ClientInputView::FocusLost,
        }
    }
}

pub open spec fn opt_view(event: Option<ClientInputEvent>) -> Option<ClientInputView> {
    match event {
        Some(event) => Some(event@),
        None => None,
    }
}

/// A key event of the console.
#[derive(Debug, Clone, Copy, PartialEq, Eq, Structural)]
pub struct ConsoleKey {
    pub code: ConsoleKeyCode,
    pub modifiers: u8,
    pub kind: ClientKeyKind,
}

#[derive(Debug, Clone, Copy, PartialEq, Eq, Structural)]
pub enum ConsoleKeyCode {
    Esc,
    Char(char),
    Other,
}

pub open spec fn holds_bit(modifiers: u8, bit: u8) -> bool {
    modifiers & bit != 0
}

/// The bytes that a console event stands for; nothing for an event that is no key or is
/// to be forwarded as it is.
pub open spec fn raw_bytes(key: Option<ConsoleKey>, raw_sequence_pending: bool) -> Option<
    Seq<u8>,
> {
    match key {
        None => None,
        Some(key) => if key.kind == ClientKeyKind::Release {
            None
        } else {
            match key.code {
                ConsoleKeyCode::Esc => if key.modifiers == 0 {
                    Some(seq![0x1bu8])
                } else {
                    None
                },
                ConsoleKeyCode::Char(ch) => {
                    let encoded = vstd::utf8::encode_utf8(seq![ch]);
                    if !raw_sequence_pending && ch == '[' && key.modifiers == MODIFIER_CONTROL {
                        Some(seq![0x1bu8])
                    } else if !raw_sequence_pending && (ch == 'i' || ch == 'I') && holds_bit(
                        key.modifiers,
                        MODIFIER_CONTROL,
                    ) && !holds_bit(key.modifiers, MODIFIER_ALT) {
                        Some(encoded)
                    } else if raw_sequence_pending || text::control(ch) {
                        Some(
                            (if holds_bit(key.modifiers, MODIFIER_ALT) {
                                seq![0x1bu8]
                            } else {
                                Seq::empty()
                            }) + encoded,
                        )
                    } else {
                        None
                    }
                },
                ConsoleKeyCode::Other => None,
            }
        },
    }
}

fn encoded(ch: char) -> (bytes: Vec<u8>)
    ensures
        bytes@ == vstd::utf8::encode_utf8(seq![ch]),
{
    let mut one = "".to_owned();
    text::push_char(&mut one, ch);
    proof {
        reveal_strlit("");
        assert(one@ =~= seq![ch]);
    }
    crate::bytes::copied(one.as_str().as_bytes())
}

/// The bytes that a console event stands for.
pub fn windows_key_raw_bytes(key: Option<ConsoleKey>, raw_sequence_pending: bool) -> (bytes: Option<
    Vec<u8>,
>)
    ensures
        raw_bytes(key, raw_sequence_pending) == (match bytes {
            Some(bytes) => Some(bytes@),
            None => None,
        }),
{
    let key = match key {
        Some(key) => key,
        None => return None,
    };
    if matches!(key.kind, ClientKeyKind::Release) {
        return None;
    }
    match key.code {
        ConsoleKeyCode::Esc => {
            if key.modifiers == 0 {
                let mut bytes: Vec<u8> = Vec::new();
                bytes.push(0x1b);
                assert(bytes@ =~= seq![0x1bu8]);
                Some(bytes)
            } else {
                None
            }
        },
        ConsoleKeyCode::Char(ch) => {
            if !raw_sequence_pending && ch == '[' && key.modifiers == MODIFIER_CONTROL {
                let mut bytes: Vec<u8> = Vec::new();
                bytes.push(0x1b);
                assert(bytes@ =~= seq![0x1bu8]);
                Some(bytes)
            } else if !raw_sequence_pending && (ch == 'i' || ch == 'I') && key.modifiers
                & MODIFIER_CONTROL != 0 && key.modifiers & MODIFIER_ALT == 0 {
                Some(encoded(ch))
            } else if raw_sequence_pending || is_control(ch) {
                let mut bytes: Vec<u8> = Vec::new();
                if key.modifiers & MODIFIER_ALT != 0 {
                    bytes.push(0x1b);
                    assert(bytes@ =~= seq![0x1bu8]);
                }
                crate::bytes::append_slice(&mut bytes, encoded(ch).as_slice());
                Some(bytes)
            } else {
                None
            }
        },
        ConsoleKeyCode::Other => None,
    }
}

/// The event to forward for a console event that was converted for the server: a plain
/// press of a character also carries its text.
pub open spec fn forwarded(event: ClientInputView) -> ClientInputView {
    match event {
        ClientInputView::Key { code, modifiers, kind, source, .. } => match code {
            ClientKeyCode::Char(ch) => if modifiers == 0 && kind == ClientKeyKind::Press {
                ClientInputView::Key {
                    code,
                    modifiers: 0,
                    kind,
                    repeat_count: 1,
                    generated_text: Some(seq![ch]),
                    source,
                }
            } else {
                event
            },
            _ => event,
        },
        _ => event,
    }
}

/// The event to forward for a console event; nothing where the server knows no such event.
pub fn windows_crossterm_input_event(event: Option<ClientInputEvent>) -> (sent: Option<
    ClientInputEvent,
>)
    ensures
        opt_view(sent) == (match event {
            Some(event) => Some(forwarded(event@)),
            None => None,
        }),
{
    match event {
        None => None,
        Some(event) => {
            match event {
                ClientInputEvent::Key {
                    code: ClientKeyCode::Char(ch),
                    modifiers: 0,
                    kind: ClientKeyKind::Press,
                    repeat_count: _,
                    generated_text: _,
                    source,
                } => {
                    let mut generated = "".to_owned();
                    text::push_char(&mut generated, ch);
                    proof {
                        reveal_strlit("");
                        assert(generated@ =~= seq![ch]);
                    }
                    Some(
                        ClientInputEvent::Key {
                            code: ClientKeyCode::Char(ch),
                            modifiers: 0,
                            kind: ClientKeyKind::Press,
                            repeat_count: 1,
                            generated_text: Some(generated),
                            source,
                        },
                    )
                },
                other => Some(other),
            }
        },
    }
}

/// A key from the framer.
#[derive(Debug, Clone, PartialEq, Eq)]
pub struct RawKey {
    /// Names the key: its presses, repeats and releases share one name.
    pub identity: u64,
    /// Whether `identity` is that of a key of the keyboard.
    pub physical: bool,
    /// Nothing where the server knows no such key.
    pub code: Option<ClientKeyCode>,
    pub modifiers: u8,
    pub kind: ClientKeyKind,
    pub repeat_count: u16,
    pub generated_text: Option<String>,
    pub vt_bytes: Option<Vec<u8>>,
    pub windows_record: Option<u64>,
}

/// An event from the framer.
#[derive(Debug, Clone, PartialEq, Eq)]
pub enum RawInputEvent {
    Text(String),
    Key(RawKey),
    /// The kind is nothing where the server knows no such event.
    Mouse { kind: Option<ClientMouseKind>, column: u16, row: u16, modifiers: u8 },
    Paste(String),
    OuterFocusGained,
    OuterFocusLost,
    /// A reply of the host terminal about its colours or cells.
    HostReply,
    Unsupported,
}

/// Where a framed key comes from.
pub open spec fn key_source(key: RawKey) -> KeySourceView {
    match key.vt_bytes {
        Some(bytes) => KeySourceView::Vt { bytes: bytes@ },
        None => match key.windows_record {
            Some(record) => KeySourceView::WindowsConsole { record },
            None => KeySourceView::Synthesized,
        },
    }
}

/// The event for the server that a framed event becomes.
pub open spec fn sent_for(event: RawInputEvent) -> Option<ClientInputView> {
    match event {
        RawInputEvent::Text(text) => Some(ClientInputView::TextCommit(text@)),
        RawInputEvent::Key(key) => match key.code {
            Some(code) => Some(
                ClientInputView::Key {
                    code,
                    modifiers: key.modifiers,
                    kind: key.kind,
                    repeat_count: key.repeat_count,
                    generated_text: text::opt_text(key.generated_text),
                    source: key_source(key),
                },
            ),
            None => None,
        },
        RawInputEvent::Mouse { kind, column, row, modifiers } => match kind {
            Some(kind) => Some(ClientInputView::Mouse { kind, column, row, modifiers }),
            None => None,
        },
        RawInputEvent::Paste(text) => Some(ClientInputView::Paste { text: text@ }),
        RawInputEvent::OuterFocusGained => Some(ClientInputView::FocusGained),
        RawInputEvent::OuterFocusLost => Some(ClientInputView::FocusLost),
        RawInputEvent::HostReply | RawInputEvent::Unsupported => None,
    }
}

/// The event for the server that a framed event becomes.
pub fn windows_client_input_event_from_raw(event: RawInputEvent) -> (sent: Option<
    ClientInputEvent,
>)
    ensures
        opt_view(sent) == sent_for(event),
{
    match event {
        RawInputEvent::Text(text) => Some(ClientInputEvent::TextCommit(text)),
        RawInputEvent::Key(key) => {
            let code = match key.code {
                Some(code) => code,
                None => return None,
            };
            let source = match key.vt_bytes {
                Some(bytes) => ClientKeySource::Vt { bytes },
                None => match key.windows_record {
                    Some(record) => ClientKeySource::WindowsConsole { record },
                    None => ClientKeySource::Synthesized,
                },
            };
            Some(
                ClientInputEvent::Key {
                    code,
                    modifiers: key.modifiers,
                    kind: key.kind,
                    repeat_count: key.repeat_count,
                    generated_text: key.generated_text,
                    source,
                },
            )
        },
        RawInputEvent::Mouse { kind, column, row, modifiers } => {
            match kind {
                Some(kind) => Some(ClientInputEvent::Mouse { kind, column, row, modifiers }),
                None => None,
            }
        },
        RawInputEvent::Paste(text) => Some(ClientInputEvent::Paste { text }),
        RawInputEvent::OuterFocusGained => Some(ClientInputEvent::FocusGained),
        RawInputEvent::OuterFocusLost => Some(ClientInputEvent::FocusLost),
        RawInputEvent::HostReply | RawInputEvent::Unsupported => None,
    }
}

/// The events for the server, in order.
pub open spec fn all_sent_for(events: Seq<RawInputEvent>) -> Seq<ClientInputView>
    decreases events.len(),
{
    if events.len() == 0 {
        Seq::empty()
    } else {
        let rest = all_sent_for(events.drop_last());
        match sent_for(events.last()) {
            Some(event) => rest.push(event),
            None => rest,
        }
    }
}

pub open spec fn event_views(events: Seq<ClientInputEvent>) -> Seq<ClientInputView> {
    Seq::new(events.len(), |i: int| events[i]@)
}

/// What to send for framed events; where nothing is left, nothing is sent.
pub fn send_windows_raw_events(events: Vec<RawInputEvent>) -> (sent: Option<Vec<ClientInputEvent>>)
    ensures
        match sent {
            Some(sent) => sent@.len() > 0 && event_views(sent@) == all_sent_for(events@),
            None => all_sent_for(events@).len() == 0,
        },
{
    let ghost all = events@;
    let mut rest = events;
    let mut sent: Vec<ClientInputEvent> = Vec::new();
    let total: usize = rest.len();
    let mut done: usize = 0;
    assert(all.take(0) =~= Seq::empty());
    assert(event_views(sent@) =~= Seq::empty());
    while done < total
        invariant
            done <= total,
            total == all.len(),
            rest@ == all.skip(done as int),
            event_views(sent@) == all_sent_for(all.take(done as int)),
        decreases total - done,
    {
        let event = rest.remove(0);
        proof {
            assert(event == all[done as int]);
            assert(all.take(done + 1).drop_last() =~= all.take(done as int));
            assert(rest@ =~= all.skip(done + 1));
        }
        let ghost before = event_views(sent@);
        if let Some(event) = windows_client_input_event_from_raw(event) {
            let ghost content = event@;
            sent.push(event);
            assert(event_views(sent@) =~= before.push(content));
        }
        done += 1;
    }
    assert(all.take(done as int) =~= all);
    assert(event_views(sent@).len() == sent@.len());
    if sent.len() == 0 {
        None
    } else {
        Some(sent)
    }
}

/// Which reader the console gets.
#[derive(Debug, Clone, Copy, PartialEq, Eq, Structural)]
pub enum ConsoleReader {
    KeyEvents,
    TerminalInput,
}

/// Which reader the console gets: terminal input where that is wanted and the console
/// has it.
pub fn windows_stdin_reader(backend_enabled: bool, console_has_it: bool) -> (reader: ConsoleReader)
    ensures
        reader == (if backend_enabled && console_has_it {
            ConsoleReader::TerminalInput
        } else {
            ConsoleReader::KeyEvents
        }),
{
    if backend_enabled && console_has_it {
        ConsoleReader::TerminalInput
    } else {
        ConsoleReader::KeyEvents
    }
}

/// What the key-event reader does with an event.
#[derive(Debug, Clone, PartialEq, Eq)]
pub enum ConsoleStep {
    /// Give the framer these bytes.
    Push(Vec<u8>),
    /// Forward the event itself, after what the framer holds.
    Forward { flush_first: bool },
}

/// What the key-event reader does with an event.
pub fn console_step(key: Option<ConsoleKey>, raw_sequence_pending: bool) -> (step: ConsoleStep)
    ensures
        match step {
            ConsoleStep::Push(bytes) => raw_bytes(key, raw_sequence_pending) == Some(bytes@),
            ConsoleStep::Forward { flush_first } => raw_bytes(key, raw_sequence_pending) is None
                && flush_first == raw_sequence_pending,
        },
{
    match windows_key_raw_bytes(key, raw_sequence_pending) {
        Some(bytes) => ConsoleStep::Push(bytes),
        None => ConsoleStep::Forward { flush_first: raw_sequence_pending },
    }
}

/// While a control string is being put together, every character that is pressed belongs
/// to it.
pub proof fn law_pending_sequence_takes_characters(key: ConsoleKey)
    requires
        key.kind != ClientKeyKind::Release,
        key.code is Char,
    ensures
        raw_bytes(Some(key), true) is Some,
{
}

/// What the user does reaches the server as it was done: text, pastes, the focus, the mouse
/// with its place, and every key that the server knows, with its modifiers, its kind and its
/// count. Only keys and mouse events that it does not know, and replies of the terminal, do
/// not.
pub proof fn law_input_is_sent_as_it_is(event: RawInputEvent)
    ensures
        event matches RawInputEvent::Text(text) ==> sent_for(event) == Some(
            ClientInputView::TextCommit(text@),
        ),
        event matches RawInputEvent::Paste(text) ==> sent_for(event) == Some(
            ClientInputView::Paste { text: text@ },
        ),
        event is OuterFocusGained ==> sent_for(event) == Some(ClientInputView::FocusGained),
        event is OuterFocusLost ==> sent_for(event) == Some(ClientInputView::FocusLost),
        event matches RawInputEvent::Mouse { kind: Some(kind), column, row, modifiers }
            ==> sent_for(event) == Some(ClientInputView::Mouse { kind, column, row, modifiers }),
        event matches RawInputEvent::Key(key) ==> {
            &&& sent_for(event) is Some <==> key.code is Some
            &&& sent_for(event) is Some ==> {
                &&& sent_for(event)->0 is Key
                &&& sent_for(event)->0->code == key.code->0
                &&& sent_for(event)->0->Key_modifiers == key.modifiers
                &&& sent_for(event)->0->Key_kind == key.kind
                &&& sent_for(event)->0->repeat_count == key.repeat_count
                &&& sent_for(event)->0->generated_text == text::opt_text(key.generated_text)
            }
        },
        sent_for(event) is None <==> event is HostReply || event is Unsupported || (event
            matches RawInputEvent::Key(key) && key.code is None) || (event
            matches RawInputEvent::Mouse { kind: None, .. }),
{
}

/// A key comes from the terminal where there are bytes of it, else from the console where
/// there is a record of it.
pub proof fn law_key_sources(key: RawKey)
    ensures
        key.vt_bytes matches Some(bytes) ==> key_source(key) == (KeySourceView::Vt {
            bytes: bytes@,
        }),
        key.vt_bytes is None && key.windows_record is Some ==> key_source(key) == (
        KeySourceView::WindowsConsole { record: key.windows_record->0 }),
        key.vt_bytes is None && key.windows_record is None ==> key_source(key) is Synthesized,
{
}

/// Events are sent in the order in which they came, and events that came apart are sent
/// apart.
pub proof fn law_events_are_sent_in_order(first: Seq<RawInputEvent>, second: Seq<RawInputEvent>)
    ensures
        all_sent_for(first + second) == all_sent_for(first) + all_sent_for(second),
        all_sent_for(first).len() <= first.len(),
    decreases first.len() + second.len(),
{
    if second.len() > 0 {
        law_events_are_sent_in_order(first, second.drop_last());
        assert((first + second).drop_last() =~= first + second.drop_last());
        assert((first + second).last() == second.last());
        assert(all_sent_for(first + second) =~= all_sent_for(first) + all_sent_for(second));
    } else {
        assert(first + second =~= first);
        assert(all_sent_for(first) + all_sent_for(second) =~= all_sent_for(first));
        if first.len() > 0 {
            law_events_are_sent_in_order(first.drop_last(), second);
        }
    }
}

/// A press of a plain character carries its text; any other console event is forwarded as it
/// is.
pub proof fn law_plain_characters_carry_their_text(event: ClientInputView)
    ensures
        event matches ClientInputView::Key {
            code: ClientKeyCode::Char(ch),
            modifiers: 0,
            kind: ClientKeyKind::Press,
            source,
            ..
        } ==> forwarded(event) == (ClientInputView::Key {
            code: ClientKeyCode::Char(ch),
            modifiers: 0,
            kind: ClientKeyKind::Press,
            repeat_count: 1,
            generated_text: Some(seq![ch]),
            source,
        }),
        !(event is Key && event->code is Char && event->Key_modifiers == 0 && event->Key_kind
            == ClientKeyKind::Press) ==> forwarded(event) == event,
{
}

/// A press of Escape, or of the control character that stands for it, begins a control
/// string. A release never gives bytes, and while nothing is pending neither does a plain
/// character.
pub proof fn law_console_keys_as_bytes(kind: ClientKeyKind, ch: char, pending: bool)
    requires
        kind != ClientKeyKind::Release,
    ensures
        raw_bytes(
            Some(ConsoleKey { code: ConsoleKeyCode::Esc, modifiers: 0, kind }),
            pending,
        ) == Some(seq![0x1bu8]),
        raw_bytes(
            Some(ConsoleKey { code: ConsoleKeyCode::Char('['), modifiers: 2, kind }),
            false,
        ) == Some(seq![0x1bu8]),
        raw_bytes(
            Some(ConsoleKey { code: ConsoleKeyCode::Char(ch), modifiers: 0, kind }),
            true,
        ) == Some(vstd::utf8::encode_utf8(seq![ch])),
        raw_bytes(
            Some(ConsoleKey { code: ConsoleKeyCode::Char(ch), modifiers: 4, kind }),
            true,
        ) == Some(seq![0x1bu8] + vstd::utf8::encode_utf8(seq![ch])),
        text::control(ch) ==> raw_bytes(
            Some(ConsoleKey { code: ConsoleKeyCode::Char(ch), modifiers: 0, kind }),
            false,
        ) == Some(vstd::utf8::encode_utf8(seq![ch])),
        !text::control(ch) ==> raw_bytes(
            Some(ConsoleKey { code: ConsoleKeyCode::Char(ch), modifiers: 0, kind }),
            false,
        ) is None,
        raw_bytes(
            Some(
                ConsoleKey {
                    code: ConsoleKeyCode::Char(ch),
                    modifiers: 0,
                    kind: ClientKeyKind::Release,
                },
            ),
            pending,
        ) is None,
        raw_bytes(
            Some(ConsoleKey { code: ConsoleKeyCode::Other, modifiers: 0, kind }),
            pending,
        ) is None,
        raw_bytes(None, pending) is None,
{
    assert(0u8 & 2u8 == 0) by (bit_vector);
    assert(0u8 & 4u8 == 0) by (bit_vector);
    assert(4u8 & 4u8 != 0) by (bit_vector);
    assert(4u8 & 2u8 == 0) by (bit_vector);
    let encoded = vstd::utf8::encode_utf8(seq![ch]);
    assert(Seq::<u8>::empty() + encoded =~= encoded);
}

} // verus!
