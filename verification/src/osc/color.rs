//! Default-color requests in terminal output: OSC 10, 11 and 12 queries and
//! sets, their resets, and OSC 4 palette queries.
use crate::bytes::{self, after, before, is_text, position, split_fields, starts_with, take_bytes};
use vstd::prelude::*;

verus! {

/// The longest OSC body that is looked at; longer ones are skipped whole.
pub const MAX_BODY_BYTES: usize = 1024;

#[derive(Debug, Clone, Copy, PartialEq, Eq, Structural)]
pub enum DefaultColorQuery {
    Foreground,
    Background,
    Cursor,
}

#[derive(Debug, Clone, Copy, PartialEq, Eq, Structural)]
pub enum DefaultColorEvent {
    Query(DefaultColorQuery),
    SetColor(DefaultColorQuery),
    Reset(DefaultColorQuery),
    PaletteQuery(u8),
}

/// An event and where in the observed chunk the sequence that made it ended.
#[derive(Debug, Clone, Copy, PartialEq, Eq, Structural)]
pub struct DefaultColorTrackedEvent {
    pub end_offset: usize,
    pub event: DefaultColorEvent,
}

#[derive(Debug, Clone, Copy, PartialEq, Eq, Structural)]
pub enum FrameState {
    Ground,
    Escape,
    OscBody,
    OscEscape,
    IgnoreString,
    IgnoreStringEscape,
    OversizedOsc,
    OversizedOscEscape,
}

/// The framing automaton's state: where it is and the body collected so far.
pub struct FrameView {
    pub state: FrameState,
    pub body: Seq<u8>,
}

impl DefaultColorQuery {
    pub open spec fn number(self) -> u8 {
        match self {
            Self::Foreground => 10,
            Self::Background => 11,
            Self::Cursor => 12,
        }
    }

    /// The OSC command that queries and sets this color.
    pub fn osc_number(self) -> (number: u8)
        ensures
            number == self.number(),
    {
        match self {
            Self::Foreground => 10,
            Self::Background => 11,
            Self::Cursor => 12,
        }
    }
}

/// Bytes that, after an escape, open a string whose content is skipped.
pub open spec fn ignored_string_intro(byte: u8) -> bool {
    byte == 'P' as u8 || byte == '_' as u8 || byte == '^' as u8 || byte == 'X' as u8
}

pub fn is_ignored_string_intro(byte: u8) -> (found: bool)
    ensures
        found == ignored_string_intro(byte),
{
    byte == 'P' as u8 || byte == '_' as u8 || byte == '^' as u8 || byte == 'X' as u8
}

impl FrameView {
    /// Moves to `state` with no body.
    pub open spec fn enter(state: FrameState) -> FrameView {
        FrameView { state, body: Seq::empty() }
    }

    /// What the automaton is before anything was observed.
    pub open spec fn initial() -> FrameView {
        FrameView::enter(FrameState::Ground)
    }

    /// A body is held only while one is being collected, and it is bounded.
    pub open spec fn wf(self) -> bool {
        &&& self.body.len() <= MAX_BODY_BYTES
        &&& self.body.len() > 0 ==> self.state is OscBody || self.state is OscEscape
    }

    /// Adds to the collected body; a body over the bound is dropped.
    pub open spec fn collect(self, more: Seq<u8>) -> FrameView {
        if self.body.len() + more.len() > MAX_BODY_BYTES {
            FrameView::enter(FrameState::OversizedOsc)
        } else {
            FrameView { state: FrameState::OscBody, body: self.body + more }
        }
    }

    /// One byte: the next state and the body that the byte completed, if any.
    pub open spec fn step(self, byte: u8) -> (FrameView, Option<Seq<u8>>) {
        match self.state {
            FrameState::Ground => if byte == 0x1b {
                (FrameView { state: FrameState::Escape, ..self }, None)
            } else {
                (self, None)
            },
            FrameState::Escape => if byte == ']' as u8 {
                (FrameView::enter(FrameState::OscBody), None)
            } else if ignored_string_intro(byte) {
                (FrameView::enter(FrameState::IgnoreString), None)
            } else if byte == 0x1b {
                (self, None)
            } else {
                (FrameView { state: FrameState::Ground, ..self }, None)
            },
            FrameState::OscBody => if byte == 0x07 {
                (FrameView::initial(), Some(self.body))
            } else if byte == 0x1b {
                (FrameView { state: FrameState::OscEscape, ..self }, None)
            } else {
                (self.collect(seq![byte]), None)
            },
            FrameState::OscEscape => if byte == '\\' as u8 {
                (FrameView::initial(), Some(self.body))
            } else {
                (self.collect(seq![0x1b, byte]), None)
            },
            FrameState::IgnoreString => if byte == 0x1b {
                (FrameView { state: FrameState::IgnoreStringEscape, ..self }, None)
            } else {
                (self, None)
            },
            FrameState::IgnoreStringEscape => if byte == '\\' as u8 {
                (FrameView { state: FrameState::Ground, ..self }, None)
            } else if byte == 0x1b {
                (self, None)
            } else {
                (FrameView { state: FrameState::IgnoreString, ..self }, None)
            },
            FrameState::OversizedOsc => if byte == 0x1b {
                (FrameView { state: FrameState::OversizedOscEscape, ..self }, None)
            } else if byte == 0x07 {
                (FrameView { state: FrameState::Ground, ..self }, None)
            } else {
                (self, None)
            },
            FrameState::OversizedOscEscape => if byte == '\\' as u8 {
                (FrameView { state: FrameState::Ground, ..self }, None)
            } else if byte == 0x1b {
                (self, None)
            } else {
                (FrameView { state: FrameState::OversizedOsc, ..self }, None)
            },
        }
    }

    /// The state after observing `bytes`.
    pub open spec fn run(self, bytes: Seq<u8>) -> FrameView
        decreases bytes.len(),
    {
        if bytes.len() == 0 {
            self
        } else {
            self.run(bytes.drop_last()).step(bytes.last()).0
        }
    }

    /// The bodies that `bytes` completes, in order, each with the number of
    /// bytes observed when it was complete.
    pub open spec fn bodies(self, bytes: Seq<u8>) -> Seq<(int, Seq<u8>)>
        decreases bytes.len(),
    {
        if bytes.len() == 0 {
            Seq::empty()
        } else {
            let earlier = self.bodies(bytes.drop_last());
            match self.run(bytes.drop_last()).step(bytes.last()).1 {
                Some(body) => earlier.push((bytes.len() as int, body)),
                None => earlier,
            }
        }
    }
}

/// The value of a sequence of decimal digits.
pub open spec fn decimal_value(digits: Seq<u8>) -> int
    decreases digits.len(),
{
    if digits.len() == 0 {
        0
    } else {
        decimal_value(digits.drop_last()) * 10 + (digits.last() - '0' as u8)
    }
}

/// Whether every byte is a decimal digit.
pub open spec fn all_digits(digits: Seq<u8>) -> bool {
    forall|i: int| 0 <= i < digits.len() ==> '0' as u8 <= #[trigger] digits[i] <= '9' as u8
}

/// The palette entry that `4;<index>;?` asks for: one to three digits, at most 255.
pub open spec fn palette_query(body: Seq<u8>) -> Option<u8> {
    if bytes::utf8("4;").is_prefix_of(body) && bytes::utf8(";?").is_suffix_of(body.skip(2)) {
        let digits = body.subrange(2, body.len() - 2);
        if 1 <= digits.len() <= 3 && all_digits(digits) && decimal_value(digits) <= 255 {
            Some(decimal_value(digits) as u8)
        } else {
            None
        }
    } else {
        None
    }
}

/// The pieces that hold anything.
pub open spec fn nonempty(pieces: Seq<Seq<u8>>) -> Seq<Seq<u8>>
    decreases pieces.len(),
{
    if pieces.len() == 0 {
        pieces
    } else if pieces.last().len() == 0 {
        nonempty(pieces.drop_last())
    } else {
        nonempty(pieces.drop_last()).push(pieces.last())
    }
}

pub open spec fn query_of_number(number: int) -> Option<DefaultColorQuery> {
    if number == 10 {
        Some(DefaultColorQuery::Foreground)
    } else if number == 11 {
        Some(DefaultColorQuery::Background)
    } else if number == 12 {
        Some(DefaultColorQuery::Cursor)
    } else {
        None
    }
}

/// The sets that a list of values makes: the values go to the colors from
/// `start` on, one each, and a `?` leaves its color alone.
pub open spec fn set_events(values: Seq<Seq<u8>>, start: int) -> Seq<DefaultColorEvent>
    decreases values.len(),
{
    if values.len() == 0 {
        Seq::empty()
    } else {
        let earlier = set_events(values.drop_last(), start);
        match query_of_number(start + values.len() - 1) {
            Some(query) => if values.last() == bytes::utf8("?") {
                earlier
            } else {
                earlier.push(DefaultColorEvent::SetColor(query))
            },
            None => earlier,
        }
    }
}

/// The color command number that a body begins with, where it is 10, 11 or 12.
pub open spec fn color_command(head: Seq<u8>) -> Option<int> {
    if head == bytes::utf8("10") {
        Some(10)
    } else if head == bytes::utf8("11") {
        Some(11)
    } else if head == bytes::utf8("12") {
        Some(12)
    } else {
        None
    }
}

/// The sets in an OSC body.
pub open spec fn color_set_events(body: Seq<u8>) -> Seq<DefaultColorEvent> {
    let separator = bytes::index_of(body, ';' as u8);
    if separator == body.len() {
        Seq::empty()
    } else {
        match color_command(body.take(separator)) {
            Some(start) => set_events(
                nonempty(bytes::fields(body.skip(separator + 1), ';' as u8)),
                start,
            ),
            None => Seq::empty(),
        }
    }
}

/// Every event in an OSC body.
pub open spec fn color_events(body: Seq<u8>) -> Seq<DefaultColorEvent> {
    if body == bytes::utf8("10;?") {
        seq![DefaultColorEvent::Query(DefaultColorQuery::Foreground)]
    } else if body == bytes::utf8("11;?") {
        seq![DefaultColorEvent::Query(DefaultColorQuery::Background)]
    } else if body == bytes::utf8("12;?") {
        seq![DefaultColorEvent::Query(DefaultColorQuery::Cursor)]
    } else if body == bytes::utf8("110") || body == bytes::utf8("110;") {
        seq![DefaultColorEvent::Reset(DefaultColorQuery::Foreground)]
    } else if body == bytes::utf8("111") || body == bytes::utf8("111;") {
        seq![DefaultColorEvent::Reset(DefaultColorQuery::Background)]
    } else {
        match palette_query(body) {
            Some(index) => seq![DefaultColorEvent::PaletteQuery(index)],
            None => color_set_events(body),
        }
    }
}

/// Whether an OSC body sets a default color.
pub open spec fn sets_default_color(body: Seq<u8>) -> bool {
    exists|i: int| 0 <= i < color_events(body).len() && #[trigger] color_events(body)[i] is SetColor
}

/// Whether one of the completed bodies sets a default color.
pub open spec fn any_sets(bodies: Seq<(int, Seq<u8>)>) -> bool {
    exists|k: int| 0 <= k < bodies.len() && sets_default_color((#[trigger] bodies[k]).1)
}

proof fn lemma_any_sets_push(bodies: Seq<(int, Seq<u8>)>, body: (int, Seq<u8>))
    ensures
        any_sets(bodies.push(body)) == (any_sets(bodies) || sets_default_color(body.1)),
{
    let more = bodies.push(body);
    if any_sets(bodies) {
        let k = choose|k: int|
            0 <= k < bodies.len() && sets_default_color((#[trigger] bodies[k]).1);
        assert(more[k] == bodies[k]);
    }
    assert(more[bodies.len() as int] == body);
    if any_sets(more) {
        let k = choose|k: int| 0 <= k < more.len() && sets_default_color((#[trigger] more[k]).1);
        if k < bodies.len() {
            assert(bodies[k] == more[k]);
        }
    }
}

/// The events of completed bodies, in order.
pub open spec fn tracked_events(bodies: Seq<(int, Seq<u8>)>) -> Seq<DefaultColorTrackedEvent>
    decreases bodies.len(),
{
    if bodies.len() == 0 {
        Seq::empty()
    } else {
        let (end_offset, body) = bodies.last();
        tracked_events(bodies.drop_last()) + Seq::new(
            color_events(body).len(),
            |i: int| DefaultColorTrackedEvent {
                end_offset: end_offset as usize,
                event: color_events(body)[i],
            },
        )
    }
}

fn parse_palette_color_query(body: &[u8]) -> (query: Option<u8>)
    ensures
        query == palette_query(body@),
{
    proof {
        reveal_strlit("4;");
        reveal_strlit(";?");
        vstd::utf8::is_ascii_chars_encode_utf8("4;"@);
        vstd::utf8::is_ascii_chars_encode_utf8(";?"@);
    }
    if !starts_with(body, "4;".as_bytes()) {
        return None;
    }
    let rest = after(body, 2);
    if rest.len() < 2 || !is_text(after(rest, rest.len() - 2), ";?") {
        proof {
            if bytes::utf8(";?").is_suffix_of(rest@) {
                assert(rest@.skip(rest@.len() - 2) =~= bytes::utf8(";?"));
            }
        }
        return None;
    }
    let digits = before(rest, rest.len() - 2);
    assert(bytes::utf8(";?").is_suffix_of(rest@));
    assert(digits@ =~= body@.subrange(2, body@.len() - 2));
    if digits.len() == 0 || digits.len() > 3 {
        return None;
    }
    let mut value: u16 = 0;
    let mut i: usize = 0;
    assert(digits@.take(0).len() == 0);
    while i < digits.len()
        invariant
            i <= digits.len() <= 3,
            digits@ == body@.subrange(2, body@.len() - 2),
            all_digits(digits@.take(i as int)),
            value == decimal_value(digits@.take(i as int)),
            i == 0 ==> value == 0,
            i == 1 ==> value <= 9,
            i == 2 ==> value <= 99,
            i == 3 ==> value <= 999,
        decreases digits.len() - i,
    {
        let digit: u8 = digits[i];
        let ghost next = digits@.take(i as int + 1);
        assert(next.drop_last() =~= digits@.take(i as int));
        assert(next.last() == digit);
        if digit < '0' as u8 || digit > '9' as u8 {
            assert(digits@[i as int] == digit);
            return None;
        }
        value = value * 10 + (digit - '0' as u8) as u16;
        i += 1;
    }
    assert(digits@.take(i as int) =~= digits@);
    if value <= 255 {
        Some(value as u8)
    } else {
        None
    }
}

fn parse_default_color_set_events(body: &[u8]) -> (events: Vec<DefaultColorEvent>)
    ensures
        events@ == color_set_events(body@),
{
    let mut events: Vec<DefaultColorEvent> = Vec::new();
    let separator: usize = match position(body, ';' as u8) {
        Some(separator) => separator,
        None => return events,
    };
    assert(separator < body.len());
    let head = before(body, separator);
    let start: usize = if is_text(head, "10") {
        10
    } else if is_text(head, "11") {
        11
    } else if is_text(head, "12") {
        12
    } else {
        return events;
    };
    let pieces = split_fields(after(body, separator + 1), ';' as u8);
    let ghost all = bytes::views(pieces@);
    let mut count: usize = 0;
    let mut i: usize = 0;
    assert(all.take(0) =~= Seq::empty());
    while i < pieces.len()
        invariant
            i <= pieces.len(),
            10 <= start <= 12,
            all == bytes::views(pieces@),
            count == nonempty(all.take(i as int)).len(),
            count <= i,
            events@ == set_events(nonempty(all.take(i as int)), start as int),
        decreases pieces.len() - i,
    {
        let ghost next = all.take(i as int + 1);
        assert(next.drop_last() =~= all.take(i as int));
        assert(next.last() == pieces@[i as int]@);
        if pieces[i].len() > 0 {
            let ghost values = nonempty(next);
            assert(values.drop_last() =~= nonempty(all.take(i as int)));
            if count <= 12 - start && !is_text(pieces[i].as_slice(), "?") {
                let query = if start + count == 10 {
                    DefaultColorQuery::Foreground
                } else if start + count == 11 {
                    DefaultColorQuery::Background
                } else {
                    DefaultColorQuery::Cursor
                };
                events.push(DefaultColorEvent::SetColor(query));
            }
            count += 1;
        }
        i += 1;
    }
    assert(all.take(i as int) =~= all);
    events
}

/// The default-color events in an OSC body.
pub fn parse_default_color_events(body: &[u8]) -> (events: Vec<DefaultColorEvent>)
    ensures
        events@ == color_events(body@),
{
    let mut events: Vec<DefaultColorEvent> = Vec::new();
    if is_text(body, "10;?") {
        events.push(DefaultColorEvent::Query(DefaultColorQuery::Foreground));
    } else if is_text(body, "11;?") {
        events.push(DefaultColorEvent::Query(DefaultColorQuery::Background));
    } else if is_text(body, "12;?") {
        events.push(DefaultColorEvent::Query(DefaultColorQuery::Cursor));
    } else if is_text(body, "110") || is_text(body, "110;") {
        events.push(DefaultColorEvent::Reset(DefaultColorQuery::Foreground));
    } else if is_text(body, "111") || is_text(body, "111;") {
        events.push(DefaultColorEvent::Reset(DefaultColorQuery::Background));
    } else if let Some(index) = parse_palette_color_query(body) {
        events.push(DefaultColorEvent::PaletteQuery(index));
    } else {
        return parse_default_color_set_events(body);
    }
    assert(events@ =~= color_events(body@));
    events
}

fn is_default_color_set_osc(body: &[u8]) -> (set: bool)
    ensures
        set == sets_default_color(body@),
{
    let events = parse_default_color_events(body);
    let mut i: usize = 0;
    while i < events.len()
        invariant
            i <= events.len(),
            events@ == color_events(body@),
            forall|j: int| 0 <= j < i ==> !(#[trigger] events@[j] is SetColor),
        decreases events.len() - i,
    {
        if matches!(events[i], DefaultColorEvent::SetColor(_)) {
            assert(color_events(body@)[i as int] is SetColor);
            return true;
        }
        i += 1;
    }
    false
}

/// Finds OSC bodies in a byte stream.
#[derive(Debug)]
pub struct OscFramer {
    state: FrameState,
    body: Vec<u8>,
}

impl View for OscFramer {
    type V = FrameView;

    closed spec fn view(&self) -> FrameView {
        FrameView { state: self.state, body: self.body@ }
    }
}

impl OscFramer {
    pub fn new() -> (framer: Self)
        ensures
            framer@ == FrameView::initial(),
    {
        let framer = OscFramer { state: FrameState::Ground, body: Vec::new() };
        assert(framer@.body =~= Seq::empty());
        framer
    }

    fn collect(&mut self)
        requires
            old(self).state is OscBody,
        ensures
            final(self)@ == (if old(self)@.body.len() > MAX_BODY_BYTES {
                FrameView::enter(FrameState::OversizedOsc)
            } else {
                old(self)@
            }),
    {
        if self.body.len() > MAX_BODY_BYTES {
            self.body.clear();
            self.state = FrameState::OversizedOsc;
        }
    }

    /// Observes one byte; returns the body that it completed.
    fn observe_byte(&mut self, byte: u8) -> (body: Option<Vec<u8>>)
        ensures
            final(self)@ == old(self)@.step(byte).0,
            match body {
                Some(body) => old(self)@.step(byte).1 == Some(body@),
                None => old(self)@.step(byte).1 is None,
            },
    {
        let ghost start = self@;
        match self.state {
            FrameState::Ground => {
                if byte == 0x1b {
                    self.state = FrameState::Escape;
                }
            },
            FrameState::Escape => {
                if byte == ']' as u8 {
                    self.body.clear();
                    self.state = FrameState::OscBody;
                } else if is_ignored_string_intro(byte) {
                    self.body.clear();
                    self.state = FrameState::IgnoreString;
                } else if byte != 0x1b {
                    self.state = FrameState::Ground;
                }
            },
            FrameState::OscBody => {
                if byte == 0x07 {
                    self.state = FrameState::Ground;
                    let body = take_bytes(&mut self.body);
                    return Some(body);
                } else if byte == 0x1b {
                    self.state = FrameState::OscEscape;
                } else {
                    self.body.push(byte);
                    assert(self.body@ =~= start.body + seq![byte]);
                    self.collect();
                }
            },
            FrameState::OscEscape => {
                if byte == '\\' as u8 {
                    self.state = FrameState::Ground;
                    let body = take_bytes(&mut self.body);
                    return Some(body);
                } else {
                    self.body.push(0x1b);
                    self.body.push(byte);
                    self.state = FrameState::OscBody;
                    assert(self.body@ =~= start.body + seq![0x1bu8, byte]);
                    self.collect();
                }
            },
            FrameState::IgnoreString => {
                if byte == 0x1b {
                    self.state = FrameState::IgnoreStringEscape;
                }
            },
            FrameState::IgnoreStringEscape => {
                if byte == '\\' as u8 {
                    self.state = FrameState::Ground;
                } else if byte != 0x1b {
                    self.state = FrameState::IgnoreString;
                }
            },
            FrameState::OversizedOsc => {
                if byte == 0x1b {
                    self.state = FrameState::OversizedOscEscape;
                } else if byte == 0x07 {
                    self.state = FrameState::Ground;
                }
            },
            FrameState::OversizedOscEscape => {
                if byte == '\\' as u8 {
                    self.state = FrameState::Ground;
                } else if byte != 0x1b {
                    self.state = FrameState::OversizedOsc;
                }
            },
        }
        None
    }
}

/// Tells whether terminal output has set a default color.
#[derive(Debug)]
pub struct DefaultColorOscTracker {
    framer: OscFramer,
}

impl View for DefaultColorOscTracker {
    type V = FrameView;

    closed spec fn view(&self) -> FrameView {
        self.framer@
    }
}

impl Default for DefaultColorOscTracker {
    fn default() -> (tracker: Self)
        ensures
            tracker@ == FrameView::initial(),
    {
        DefaultColorOscTracker { framer: OscFramer::new() }
    }
}

impl DefaultColorOscTracker {
    /// Observes a chunk of output; true when an OSC that the chunk completes
    /// sets a default color.
    pub fn observe(&mut self, bytes: &[u8]) -> (saw_default_color_set: bool)
        ensures
            final(self)@ == old(self)@.run(bytes@),
            saw_default_color_set == any_sets(old(self)@.bodies(bytes@)),
    {
        let ghost start = self@;
        let mut saw_default_color_set = false;
        let mut i: usize = 0;
        assert(bytes@.take(0) =~= Seq::empty());
        while i < bytes.len()
            invariant
                i <= bytes.len(),
                self@ == start.run(bytes@.take(i as int)),
                saw_default_color_set == any_sets(start.bodies(bytes@.take(i as int))),
            decreases bytes.len() - i,
        {
            let ghost earlier = start.bodies(bytes@.take(i as int));
            let ghost next = bytes@.take(i as int + 1);
            assert(next.drop_last() =~= bytes@.take(i as int));
            let completed = self.framer.observe_byte(bytes[i]);
            if let Some(body) = completed {
                let set = is_default_color_set_osc(body.as_slice());
                proof {
                    lemma_any_sets_push(earlier, (i as int + 1, body@));
                }
                saw_default_color_set = saw_default_color_set || set;
            }
            i += 1;
        }
        assert(bytes@.take(i as int) =~= bytes@);
        saw_default_color_set
    }
}

/// Collects the default-color events in terminal output.
#[derive(Debug)]
pub struct DefaultColorEventTracker {
    framer: OscFramer,
    pending: Vec<DefaultColorTrackedEvent>,
}

impl DefaultColorEventTracker {
    /// The framing state.
    pub closed spec fn frame(&self) -> FrameView {
        self.framer@
    }

    /// The events that were not drained yet.
    pub closed spec fn pending(&self) -> Seq<DefaultColorTrackedEvent> {
        self.pending@
    }

    /// Observes a chunk of output and keeps the events of the OSCs that it completes.
    pub fn observe(&mut self, bytes: &[u8])
        ensures
            final(self).frame() == old(self).frame().run(bytes@),
            final(self).pending() == old(self).pending() + tracked_events(
                old(self).frame().bodies(bytes@),
            ),
    {
        let ghost start = self.framer@;
        let ghost before = self.pending@;
        let mut i: usize = 0;
        assert(bytes@.take(0) =~= Seq::empty());
        assert(before =~= before + tracked_events(Seq::empty()));
        while i < bytes.len()
            invariant
                i <= bytes.len(),
                self.framer@ == start.run(bytes@.take(i as int)),
                self.pending@ == before + tracked_events(start.bodies(bytes@.take(i as int))),
            decreases bytes.len() - i,
        {
            let ghost earlier = start.bodies(bytes@.take(i as int));
            let ghost next = bytes@.take(i as int + 1);
            assert(next.drop_last() =~= bytes@.take(i as int));
            let completed = self.framer.observe_byte(bytes[i]);
            if let Some(body) = completed {
                proof {
                    assert(start.bodies(next).drop_last() =~= earlier);
                }
                self.finalize(body.as_slice(), i + 1);
                proof {
                    assert(self.pending@ =~= before + tracked_events(start.bodies(next)));
                }
            }
            i += 1;
        }
        assert(bytes@.take(i as int) =~= bytes@);
    }

    fn finalize(&mut self, body: &[u8], end_offset: usize)
        ensures
            final(self).framer == old(self).framer,
            final(self).pending@ == old(self).pending@ + Seq::new(
                color_events(body@).len(),
                |i: int| DefaultColorTrackedEvent { end_offset, event: color_events(body@)[i] },
            ),
    {
        let events = parse_default_color_events(body);
        let ghost before = self.pending@;
        let mut i: usize = 0;
        while i < events.len()
            invariant
                i <= events.len(),
                events@ == color_events(body@),
                self.framer == old(self).framer,
                self.pending@ == before + Seq::new(
                    i as nat,
                    |k: int| DefaultColorTrackedEvent { end_offset, event: events@[k] },
                ),
            decreases events.len() - i,
        {
            let event = events[i];
            self.pending.push(DefaultColorTrackedEvent { end_offset, event });
            i += 1;
            assert(self.pending@ =~= before + Seq::new(
                i as nat,
                |k: int| DefaultColorTrackedEvent { end_offset, event: events@[k] },
            ));
        }
        assert(self.pending@ =~= before + Seq::new(
            color_events(body@).len(),
            |k: int| DefaultColorTrackedEvent { end_offset, event: color_events(body@)[k] },
        ));
    }

    /// The event that the OSC being received would make if it ended here,
    /// where it would make exactly one.
    pub fn in_progress_event(&self) -> (event: Option<DefaultColorEvent>)
        ensures
            event == ({
                let frame = self.frame();
                if (frame.state is OscBody || frame.state is OscEscape)
                    && color_events(frame.body).len() == 1 {
                    Some(color_events(frame.body)[0])
                } else {
                    None
                }
            }),
    {
        if !matches!(self.framer.state, FrameState::OscBody | FrameState::OscEscape) {
            return None;
        }
        let events = parse_default_color_events(self.framer.body.as_slice());
        if events.len() == 1 {
            Some(events[0])
        } else {
            None
        }
    }

    /// Hands out the collected events.
    pub fn drain_pending(&mut self) -> (events: Vec<DefaultColorTrackedEvent>)
        ensures
            events@ == old(self).pending(),
            final(self).pending() == Seq::<DefaultColorTrackedEvent>::empty(),
            final(self).frame() == old(self).frame(),
    {
        let mut events: Vec<DefaultColorTrackedEvent> = Vec::new();
        events.append(&mut self.pending);
        assert(events@ =~= old(self).pending@);
        events
    }
}

impl Default for DefaultColorEventTracker {
    fn default() -> (tracker: Self)
        ensures
            tracker.frame() == FrameView::initial(),
            tracker.pending() == Seq::<DefaultColorTrackedEvent>::empty(),
    {
        DefaultColorEventTracker { framer: OscFramer::new(), pending: Vec::new() }
    }
}

/// Completed bodies as seen from `by` bytes earlier in the stream.
pub open spec fn later(bodies: Seq<(int, Seq<u8>)>, by: int) -> Seq<(int, Seq<u8>)> {
    Seq::new(bodies.len(), |i: int| (bodies[i].0 + by, bodies[i].1))
}

/// How a stream is cut into chunks does not matter: observing `first` and then
/// `second` ends in the same state and completes the same bodies as observing
/// both at once.
pub proof fn law_chunking(start: FrameView, first: Seq<u8>, second: Seq<u8>)
    ensures
        start.run(first + second) == start.run(first).run(second),
        start.bodies(first + second) == start.bodies(first) + later(
            start.run(first).bodies(second),
            first.len() as int,
        ),
    decreases second.len(),
{
    if second.len() == 0 {
        assert(first + second =~= first);
        assert(start.bodies(first) =~= start.bodies(first) + later(
            Seq::empty(),
            first.len() as int,
        ));
    } else {
        let whole = first + second;
        law_chunking(start, first, second.drop_last());
        assert(whole.drop_last() =~= first + second.drop_last());
        let middle = start.run(first);
        let earlier = middle.bodies(second.drop_last());
        match middle.run(second.drop_last()).step(second.last()).1 {
            Some(body) => {
                assert(start.bodies(whole) =~= start.bodies(first) + later(
                    earlier.push((second.len() as int, body)),
                    first.len() as int,
                ));
            },
            None => {},
        }
    }
}

/// What is kept of a stream is bounded, and kept only inside an OSC.
pub proof fn law_body_bounded(start: FrameView, bytes: Seq<u8>)
    requires
        start.wf(),
    ensures
        start.run(bytes).wf(),
    decreases bytes.len(),
{
    if bytes.len() > 0 {
        law_body_bounded(start, bytes.drop_last());
    }
}

proof fn lemma_collect_body(body: Seq<u8>, n: int)
    requires
        body.len() <= MAX_BODY_BYTES,
        forall|i: int| 0 <= i < body.len() ==> body[i] != 0x07 && body[i] != 0x1b,
        0 <= n <= body.len(),
    ensures
        FrameView::enter(FrameState::OscBody).run(body.take(n)) == (FrameView {
            state: FrameState::OscBody,
            body: body.take(n),
        }),
        FrameView::enter(FrameState::OscBody).bodies(body.take(n)).len() == 0,
    decreases n,
{
    if n == 0 {
        assert(body.take(0) =~= Seq::empty());
    } else {
        lemma_collect_body(body, n - 1);
        assert(body.take(n).drop_last() =~= body.take(n - 1));
        assert(body.take(n - 1) + seq![body[n - 1]] =~= body.take(n));
    }
}

proof fn lemma_osc_intro()
    ensures
        FrameView::initial().run(seq![0x1bu8, ']' as u8]) == FrameView::enter(FrameState::OscBody),
        FrameView::initial().bodies(seq![0x1bu8, ']' as u8]) == Seq::<(int, Seq<u8>)>::empty(),
{
    reveal_with_fuel(FrameView::run, 3);
    reveal_with_fuel(FrameView::bodies, 3);
    let intro = seq![0x1bu8, ']' as u8];
    assert(intro.drop_last() =~= seq![0x1bu8]);
    assert(intro.drop_last().drop_last() =~= Seq::empty());
    assert(FrameView::initial().bodies(intro) =~= Seq::empty());
}

proof fn lemma_osc_end(body: Seq<u8>, end: Seq<u8>)
    requires
        end == seq![0x07u8] || end == seq![0x1bu8, '\\' as u8],
    ensures
        (FrameView { state: FrameState::OscBody, body }).run(end) == FrameView::initial(),
        (FrameView { state: FrameState::OscBody, body }).bodies(end) == seq![
            (end.len() as int, body),
        ],
{
    reveal_with_fuel(FrameView::run, 3);
    reveal_with_fuel(FrameView::bodies, 3);
    let collected = FrameView { state: FrameState::OscBody, body };
    if end.len() == 1 {
        assert(end.drop_last() =~= Seq::empty());
    } else {
        assert(end.drop_last() =~= seq![0x1bu8]);
        assert(end.drop_last().drop_last() =~= Seq::empty());
    }
    assert(collected.bodies(end) =~= seq![(end.len() as int, body)]);
}

/// A whole OSC of at most the bounded length is reported once, with exactly its
/// body, whether a bell or a string terminator ends it.
pub proof fn law_whole_osc_reported(body: Seq<u8>, bell: bool)
    requires
        body.len() <= MAX_BODY_BYTES,
        forall|i: int| 0 <= i < body.len() ==> body[i] != 0x07 && body[i] != 0x1b,
    ensures
        ({
            let end = if bell {
                seq![0x07u8]
            } else {
                seq![0x1bu8, '\\' as u8]
            };
            let osc = seq![0x1bu8, ']' as u8] + body + end;
            &&& FrameView::initial().run(osc) == FrameView::initial()
            &&& FrameView::initial().bodies(osc) == seq![(osc.len() as int, body)]
        }),
{
    let start = FrameView::initial();
    let intro = seq![0x1bu8, ']' as u8];
    let open = FrameView::enter(FrameState::OscBody);
    let collected = FrameView { state: FrameState::OscBody, body };
    lemma_osc_intro();
    assert(start.run(intro) == open);
    lemma_collect_body(body, body.len() as int);
    assert(body.take(body.len() as int) =~= body);
    law_chunking(start, intro, body);
    let head = intro + body;
    assert(start.run(head) == collected);
    assert(start.bodies(head) =~= Seq::empty());
    let end = if bell {
        seq![0x07u8]
    } else {
        seq![0x1bu8, '\\' as u8]
    };
    lemma_osc_end(body, end);
    law_chunking(start, head, end);
    assert(start.bodies(head + end) =~= seq![((head + end).len() as int, body)]);
}

proof fn lemma_one_field(value: Seq<u8>, separator: u8)
    requires
        forall|i: int| 0 <= i < value.len() ==> value[i] != separator,
    ensures
        bytes::fields(value, separator) == seq![value],
    decreases value.len(),
{
    if value.len() == 0 {
        assert(value =~= Seq::empty());
    } else {
        let shorter = value.drop_last();
        assert forall|i: int| 0 <= i < shorter.len() implies shorter[i] != separator by {
            assert(shorter[i] == value[i]);
        }
        lemma_one_field(shorter, separator);
        assert(shorter.push(value.last()) =~= value);
        assert(bytes::fields(value, separator) =~= seq![value]);
    }
}

proof fn lemma_color_literals()
    ensures
        bytes::utf8("10") == seq!['1' as u8, '0' as u8],
        bytes::utf8("11") == seq!['1' as u8, '1' as u8],
        bytes::utf8("12") == seq!['1' as u8, '2' as u8],
        bytes::utf8("?") == seq!['?' as u8],
        bytes::utf8("10;?") == seq!['1' as u8, '0' as u8, ';' as u8, '?' as u8],
        bytes::utf8("11;?") == seq!['1' as u8, '1' as u8, ';' as u8, '?' as u8],
        bytes::utf8("12;?") == seq!['1' as u8, '2' as u8, ';' as u8, '?' as u8],
        bytes::utf8("110") == seq!['1' as u8, '1' as u8, '0' as u8],
        bytes::utf8("111") == seq!['1' as u8, '1' as u8, '1' as u8],
        bytes::utf8("110;") == seq!['1' as u8, '1' as u8, '0' as u8, ';' as u8],
        bytes::utf8("111;") == seq!['1' as u8, '1' as u8, '1' as u8, ';' as u8],
        bytes::utf8("4;") == seq!['4' as u8, ';' as u8],
        bytes::utf8(";?") == seq![';' as u8, '?' as u8],
{
    reveal_strlit("10");
    reveal_strlit("11");
    reveal_strlit("12");
    reveal_strlit("?");
    reveal_strlit("10;?");
    reveal_strlit("11;?");
    reveal_strlit("12;?");
    reveal_strlit("110");
    reveal_strlit("111");
    reveal_strlit("110;");
    reveal_strlit("111;");
    reveal_strlit("4;");
    reveal_strlit(";?");
    vstd::utf8::is_ascii_chars_encode_utf8("10"@);
    vstd::utf8::is_ascii_chars_encode_utf8("11"@);
    vstd::utf8::is_ascii_chars_encode_utf8("12"@);
    vstd::utf8::is_ascii_chars_encode_utf8("?"@);
    vstd::utf8::is_ascii_chars_encode_utf8("10;?"@);
    vstd::utf8::is_ascii_chars_encode_utf8("11;?"@);
    vstd::utf8::is_ascii_chars_encode_utf8("12;?"@);
    vstd::utf8::is_ascii_chars_encode_utf8("110"@);
    vstd::utf8::is_ascii_chars_encode_utf8("111"@);
    vstd::utf8::is_ascii_chars_encode_utf8("110;"@);
    vstd::utf8::is_ascii_chars_encode_utf8("111;"@);
    vstd::utf8::is_ascii_chars_encode_utf8("4;"@);
    vstd::utf8::is_ascii_chars_encode_utf8(";?"@);
    assert(bytes::utf8("10") =~= seq!['1' as u8, '0' as u8]);
    assert(bytes::utf8("11") =~= seq!['1' as u8, '1' as u8]);
    assert(bytes::utf8("12") =~= seq!['1' as u8, '2' as u8]);
    assert(bytes::utf8("?") =~= seq!['?' as u8]);
    assert(bytes::utf8("10;?") =~= seq!['1' as u8, '0' as u8, ';' as u8, '?' as u8]);
    assert(bytes::utf8("11;?") =~= seq!['1' as u8, '1' as u8, ';' as u8, '?' as u8]);
    assert(bytes::utf8("12;?") =~= seq!['1' as u8, '2' as u8, ';' as u8, '?' as u8]);
    assert(bytes::utf8("110") =~= seq!['1' as u8, '1' as u8, '0' as u8]);
    assert(bytes::utf8("111") =~= seq!['1' as u8, '1' as u8, '1' as u8]);
    assert(bytes::utf8("110;") =~= seq!['1' as u8, '1' as u8, '0' as u8, ';' as u8]);
    assert(bytes::utf8("111;") =~= seq!['1' as u8, '1' as u8, '1' as u8, ';' as u8]);
    assert(bytes::utf8("4;") =~= seq!['4' as u8, ';' as u8]);
    assert(bytes::utf8(";?") =~= seq![';' as u8, '?' as u8]);
}

/// The decimal digits of a number below 100.
pub open spec fn two_digits(number: int) -> Seq<u8> {
    seq![('0' as u8 + number / 10) as u8, ('0' as u8 + number % 10) as u8]
}

/// The foreground, the background and the cursor have the commands 10, 11 and 12.
pub proof fn law_color_numbers(query: DefaultColorQuery)
    ensures
        query.number() == 10 <==> query is Foreground,
        query.number() == 11 <==> query is Background,
        query.number() == 12 <==> query is Cursor,
{
}

/// A command that gives one value sets exactly the color whose number it has.
pub proof fn law_set_names_its_color(query: DefaultColorQuery, value: Seq<u8>)
    requires
        value.len() > 0,
        value != seq!['?' as u8],
        forall|i: int| 0 <= i < value.len() ==> value[i] != ';' as u8,
    ensures
        color_events(two_digits(query.number() as int) + seq![';' as u8] + value) == seq![
            DefaultColorEvent::SetColor(query),
        ],
{
    lemma_color_literals();
    let head = two_digits(query.number() as int);
    let body = head + seq![';' as u8] + value;
    assert(body[0] == '1' as u8 && body[2] == ';' as u8);
    assert(body.skip(3) =~= value);
    if body.len() == 4 && value[0] == '?' as u8 {
        assert(value =~= seq!['?' as u8]);
    }
    assert(body.len() == 4 ==> body[3] != '?' as u8) by {
        if body.len() == 4 {
            assert(body[3] == value[0]);
        }
    }
    assert(bytes::utf8("10;?")[3] == '?' as u8);
    assert(bytes::utf8("11;?")[3] == '?' as u8);
    assert(bytes::utf8("12;?")[3] == '?' as u8);
    assert(bytes::utf8("110;")[2] == '0' as u8);
    assert(bytes::utf8("111;")[2] == '1' as u8);
    assert(bytes::utf8("4;")[0] == '4' as u8);
    assert(!bytes::utf8("4;").is_prefix_of(body)) by {
        if bytes::utf8("4;").is_prefix_of(body) {
            assert(body.subrange(0, 2)[0] == body[0]);
        }
    }
    assert(palette_query(body) is None);
    bytes::lemma_index_of_unique(body, ';' as u8, 2);
    assert(body.take(2) =~= head);
    assert(color_command(head) == Some(query.number() as int)) by {
        assert(bytes::utf8("10")[1] == '0' as u8);
        assert(bytes::utf8("11")[1] == '1' as u8);
        assert(bytes::utf8("12")[1] == '2' as u8);
        match query {
            DefaultColorQuery::Foreground => {
                assert(head =~= bytes::utf8("10"));
            },
            DefaultColorQuery::Background => {
                assert(head =~= bytes::utf8("11"));
            },
            DefaultColorQuery::Cursor => {
                assert(head =~= bytes::utf8("12"));
            },
        }
    }
    lemma_one_field(value, ';' as u8);
    let pieces = seq![value];
    reveal_with_fuel(nonempty, 2);
    reveal_with_fuel(set_events, 2);
    assert(pieces.drop_last() =~= Seq::empty());
    assert(nonempty(pieces) =~= pieces);
    assert(set_events(pieces, query.number() as int) =~= seq![DefaultColorEvent::SetColor(query)]);
}

/// A command that asks with `?` asks for exactly the color whose number it has.
pub proof fn law_query_names_its_color(query: DefaultColorQuery)
    ensures
        color_events(two_digits(query.number() as int) + seq![';' as u8, '?' as u8]) == seq![
            DefaultColorEvent::Query(query),
        ],
{
    lemma_color_literals();
    let body = two_digits(query.number() as int) + seq![';' as u8, '?' as u8];
    assert(bytes::utf8("10;?")[1] == '0' as u8);
    assert(bytes::utf8("11;?")[1] == '1' as u8);
    assert(bytes::utf8("12;?")[1] == '2' as u8);
    match query {
        DefaultColorQuery::Foreground => {
            assert(body =~= bytes::utf8("10;?"));
        },
        DefaultColorQuery::Background => {
            assert(body =~= bytes::utf8("11;?"));
        },
        DefaultColorQuery::Cursor => {
            assert(body =~= bytes::utf8("12;?"));
        },
    }
}

/// The foreground and the background are reset by their numbers behind a 1, with or without
/// a separator behind them; the cursor has no reset.
pub proof fn law_reset_names_its_color(query: DefaultColorQuery, separated: bool)
    ensures
        ({
            let plain = seq!['1' as u8] + two_digits(query.number() as int);
            let body = if separated {
                plain + seq![';' as u8]
            } else {
                plain
            };
            color_events(body) == (if query is Cursor {
                Seq::empty()
            } else {
                seq![DefaultColorEvent::Reset(query)]
            })
        }),
{
    lemma_color_literals();
    let plain = seq!['1' as u8] + two_digits(query.number() as int);
    let body = if separated {
        plain + seq![';' as u8]
    } else {
        plain
    };
    assert(body[2] == ('0' as u8 + query.number() % 10) as u8);
    assert(bytes::utf8("10;?")[2] == ';' as u8);
    assert(bytes::utf8("11;?")[2] == ';' as u8);
    assert(bytes::utf8("12;?")[2] == ';' as u8);
    assert(bytes::utf8("110")[2] == '0' as u8 && bytes::utf8("110;")[2] == '0' as u8);
    assert(bytes::utf8("111")[2] == '1' as u8 && bytes::utf8("111;")[2] == '1' as u8);
    match query {
        DefaultColorQuery::Foreground => {
            assert(body =~= bytes::utf8("110") || body =~= bytes::utf8("110;"));
        },
        DefaultColorQuery::Background => {
            assert(body =~= bytes::utf8("111") || body =~= bytes::utf8("111;"));
        },
        DefaultColorQuery::Cursor => {
            assert(!bytes::utf8("4;").is_prefix_of(body)) by {
                if bytes::utf8("4;").is_prefix_of(body) {
                    assert(bytes::utf8("4;")[0] == body.subrange(0, 2)[0]);
                }
            }
            if separated {
                bytes::lemma_index_of_unique(body, ';' as u8, 3);
                assert(body.take(3).len() == 3);
            } else {
                bytes::lemma_index_of_unique(body, ';' as u8, 3);
            }
            assert(color_events(body) =~= Seq::empty());
        },
    }
}

/// A list of values goes to the colors in order, one each, from the command's own color on;
/// what is left over sets nothing.
pub proof fn law_values_set_consecutive_colors(values: Seq<Seq<u8>>, start: int)
    requires
        10 <= start <= 12,
        forall|i: int| 0 <= i < values.len() ==> #[trigger] values[i] != bytes::utf8("?"),
    ensures
        ({
            let events = set_events(values, start);
            let room = 13 - start;
            &&& events.len() == (if values.len() < room {
                values.len() as int
            } else {
                room
            })
            &&& forall|i: int|
                0 <= i < events.len() ==> (#[trigger] events[i] matches DefaultColorEvent::SetColor(
                    query,
                ) && query.number() == start + i)
        }),
    decreases values.len(),
{
    if values.len() > 0 {
        let shorter = values.drop_last();
        assert forall|i: int| 0 <= i < shorter.len() implies #[trigger] shorter[i] != bytes::utf8(
            "?",
        ) by {
            assert(shorter[i] == values[i]);
        }
        law_values_set_consecutive_colors(shorter, start);
        assert(values[values.len() - 1] != bytes::utf8("?"));
    }
}

/// A palette query of one to three digits asks for the entry of that number, and one over
/// 255 for none.
pub proof fn law_palette_query_names_its_entry(a: u8, b: u8, c: u8)
    requires
        a <= 9,
        b <= 9,
        c <= 9,
    ensures
        ({
            let zero = '0' as u8;
            let open = seq!['4' as u8, ';' as u8];
            let end = seq![';' as u8, '?' as u8];
            let digits = seq![(zero + a) as u8, (zero + b) as u8, (zero + c) as u8];
            let number = a * 100 + b * 10 + c;
            &&& palette_query(open + digits + end) == (if number <= 255 {
                Some(number as u8)
            } else {
                None::<u8>
            })
            &&& palette_query(open + digits.skip(1) + end) == Some((b * 10 + c) as u8)
            &&& palette_query(open + digits.skip(2) + end) == Some(c)
        }),
{
    let zero = '0' as u8;
    let digits = seq![(zero + a) as u8, (zero + b) as u8, (zero + c) as u8];
    lemma_palette(digits);
    lemma_palette(digits.skip(1));
    lemma_palette(digits.skip(2));
    reveal_with_fuel(decimal_value, 4);
    assert(digits.drop_last() =~= seq![(zero + a) as u8, (zero + b) as u8]);
    assert(digits.drop_last().drop_last() =~= seq![(zero + a) as u8]);
    assert(digits.drop_last().drop_last().drop_last() =~= Seq::empty());
    assert(digits.skip(1).drop_last() =~= seq![(zero + b) as u8]);
    assert(digits.skip(1).drop_last().drop_last() =~= Seq::empty());
    assert(digits.skip(2).drop_last() =~= Seq::empty());
    assert(decimal_value(digits) == a * 100 + b * 10 + c);
    assert(decimal_value(digits.skip(1)) == b * 10 + c);
    assert(decimal_value(digits.skip(2)) == c);
}

proof fn lemma_palette(digits: Seq<u8>)
    requires
        1 <= digits.len() <= 3,
        all_digits(digits),
    ensures
        palette_query(seq!['4' as u8, ';' as u8] + digits + seq![';' as u8, '?' as u8]) == (
        if decimal_value(digits) <= 255 {
            Some(decimal_value(digits) as u8)
        } else {
            None::<u8>
        }),
{
    lemma_color_literals();
    let body = seq!['4' as u8, ';' as u8] + digits + seq![';' as u8, '?' as u8];
    assert(bytes::utf8("4;") =~= body.subrange(0, 2));
    let rest = body.skip(2);
    assert(rest.subrange(rest.len() - 2, rest.len() as int) =~= bytes::utf8(";?"));
    assert(body.subrange(2, body.len() - 2) =~= digits);
}

/// A program that sets a default color is noticed, with the color that it set and with where
/// in its output it did, whether a bell or a string terminator ends the command.
pub proof fn law_color_set_is_noticed(query: DefaultColorQuery, value: Seq<u8>, bell: bool)
    requires
        0 < value.len() <= MAX_BODY_BYTES - 3,
        value != seq!['?' as u8],
        forall|i: int|
            0 <= i < value.len() ==> value[i] != ';' as u8 && value[i] != 0x07 && value[i] != 0x1b,
    ensures
        ({
            let body = two_digits(query.number() as int) + seq![';' as u8] + value;
            let end = if bell {
                seq![0x07u8]
            } else {
                seq![0x1bu8, '\\' as u8]
            };
            let osc = seq![0x1bu8, ']' as u8] + body + end;
            let bodies = FrameView::initial().bodies(osc);
            &&& any_sets(bodies)
            &&& tracked_events(bodies) == seq![
                DefaultColorTrackedEvent {
                    end_offset: osc.len() as usize,
                    event: DefaultColorEvent::SetColor(query),
                },
            ]
        }),
{
    let body = two_digits(query.number() as int) + seq![';' as u8] + value;
    law_set_names_its_color(query, value);
    law_whole_osc_reported(body, bell);
    let end = if bell {
        seq![0x07u8]
    } else {
        seq![0x1bu8, '\\' as u8]
    };
    let osc = seq![0x1bu8, ']' as u8] + body + end;
    let bodies = FrameView::initial().bodies(osc);
    assert(bodies == seq![(osc.len() as int, body)]);
    assert(color_events(body)[0] is SetColor);
    assert(sets_default_color(bodies[0].1));
    reveal_with_fuel(tracked_events, 2);
    assert(bodies.drop_last() =~= Seq::empty());
    assert(tracked_events(bodies) =~= seq![
        DefaultColorTrackedEvent {
            end_offset: osc.len() as usize,
            event: DefaultColorEvent::SetColor(query),
        },
    ]);
}

} // verus!
