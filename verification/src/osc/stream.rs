//! Complete OSC bodies from a raw byte stream.
use crate::bytes::take_bytes;
use crate::osc::color::{self, is_ignored_string_intro};
use vstd::prelude::*;

verus! {

/// The longest OSC body that is collected; longer ones are dropped whole.
pub const MAX_BODY_BYTES: usize = 4096;

/// Where a C1 control leads once a control sequence has left Ground.
#[derive(Debug, Clone, Copy, PartialEq, Eq, Structural)]
pub enum RawC1Transition {
    Ground,
    String,
    Csi,
    Osc,
}

pub open spec fn c1_transition(byte: u8) -> Option<RawC1Transition> {
    if byte == 0x9b {
        Some(RawC1Transition::Csi)
    } else if byte == 0x9d {
        Some(RawC1Transition::Osc)
    } else if byte == 0x90 || byte == 0x98 || byte == 0x9e || byte == 0x9f {
        Some(RawC1Transition::String)
    } else if 0x80 <= byte < 0xa0 {
        Some(RawC1Transition::Ground)
    } else {
        None
    }
}

pub fn raw_c1_transition(byte: u8) -> (transition: Option<RawC1Transition>)
    ensures
        transition == c1_transition(byte),
{
    match byte {
        0x80..=0x8f | 0x91..=0x97 | 0x99 | 0x9a | 0x9c => Some(RawC1Transition::Ground),
        0x90 | 0x98 | 0x9e | 0x9f => Some(RawC1Transition::String),
        0x9b => Some(RawC1Transition::Csi),
        0x9d => Some(RawC1Transition::Osc),
        _ => None,
    }
}

#[derive(Debug, Clone, Copy, PartialEq, Eq, Structural)]
pub enum OscStreamState {
    Ground,
    Escape,
    EscapeIntermediate,
    Csi,
    Body,
    IgnoringString,
    Discarding,
}

/// The collector's state and the body collected so far.
pub struct StreamView {
    pub state: OscStreamState,
    pub body: Seq<u8>,
}

/// Controls that an OSC body leaves out.
pub open spec fn osc_ignored_control(byte: u8) -> bool {
    byte < 0x20 && byte != 0x07 && byte != 0x18 && byte != 0x1a && byte != 0x1b
}

pub fn is_osc_ignored_control(byte: u8) -> (ignored: bool)
    ensures
        ignored == osc_ignored_control(byte),
{
    matches!(byte, 0x00..=0x06 | 0x08..=0x17 | 0x19 | 0x1c..=0x1f)
}

impl StreamView {
    pub open spec fn initial() -> StreamView {
        StreamView { state: OscStreamState::Ground, body: Seq::empty() }
    }

    pub open spec fn enter(state: OscStreamState) -> StreamView {
        StreamView { state, body: Seq::empty() }
    }

    /// A body is held only while one is being collected, and it is bounded.
    pub open spec fn wf(self) -> bool {
        &&& self.body.len() <= MAX_BODY_BYTES
        &&& self.body.len() > 0 ==> self.state is Body
    }

    /// Ends whatever is open; an open body is complete.
    pub open spec fn interrupt(self, state: OscStreamState) -> (StreamView, Option<Seq<u8>>) {
        if self.state is Body {
            (StreamView::enter(state), Some(self.body))
        } else {
            (StreamView { state, ..self }, None)
        }
    }

    pub open spec fn c1(self, transition: RawC1Transition) -> StreamView {
        match transition {
            RawC1Transition::Ground => StreamView { state: OscStreamState::Ground, ..self },
            RawC1Transition::String => StreamView { state: OscStreamState::IgnoringString, ..self },
            RawC1Transition::Csi => StreamView { state: OscStreamState::Csi, ..self },
            RawC1Transition::Osc => StreamView::enter(OscStreamState::Body),
        }
    }

    pub open spec fn after_escape(self, byte: u8) -> StreamView {
        if byte == '[' as u8 {
            StreamView { state: OscStreamState::Csi, ..self }
        } else if byte == ']' as u8 {
            StreamView::enter(OscStreamState::Body)
        } else if color::ignored_string_intro(byte) {
            StreamView { state: OscStreamState::IgnoringString, ..self }
        } else if 0x20 <= byte <= 0x2f {
            StreamView { state: OscStreamState::EscapeIntermediate, ..self }
        } else if 0x30 <= byte <= 0x7e {
            StreamView { state: OscStreamState::Ground, ..self }
        } else {
            self
        }
    }

    /// Adds to the collected body; a body over the bound is dropped.
    pub open spec fn collect(self, byte: u8) -> StreamView {
        if self.body.len() + 1 > MAX_BODY_BYTES {
            StreamView::enter(OscStreamState::Discarding)
        } else {
            StreamView { state: OscStreamState::Body, body: self.body.push(byte) }
        }
    }

    /// One byte: the next state and the body that the byte completed, if any.
    /// Ground is UTF-8 text, so C1 bytes are controls only after a control
    /// sequence has left it; inside an OSC they are data.
    pub open spec fn step(self, byte: u8) -> (StreamView, Option<Seq<u8>>) {
        if byte == 0x1b {
            self.interrupt(OscStreamState::Escape)
        } else if byte == 0x18 || byte == 0x1a {
            self.interrupt(OscStreamState::Ground)
        } else if !(self.state is Ground || self.state is Body || self.state is Discarding)
            && c1_transition(byte) is Some {
            (self.c1(c1_transition(byte)->0), None)
        } else {
            match self.state {
                OscStreamState::Ground => (self, None),
                OscStreamState::Escape => (self.after_escape(byte), None),
                OscStreamState::EscapeIntermediate => if 0x30 <= byte <= 0x7e {
                    (StreamView { state: OscStreamState::Ground, ..self }, None)
                } else {
                    (self, None)
                },
                OscStreamState::Csi => if 0x40 <= byte <= 0x7e {
                    (StreamView { state: OscStreamState::Ground, ..self }, None)
                } else {
                    (self, None)
                },
                OscStreamState::Body => if byte == 0x07 {
                    (StreamView::initial(), Some(self.body))
                } else if osc_ignored_control(byte) {
                    (self, None)
                } else {
                    (self.collect(byte), None)
                },
                OscStreamState::IgnoringString => (self, None),
                OscStreamState::Discarding => if byte == 0x07 {
                    (StreamView { state: OscStreamState::Ground, ..self }, None)
                } else {
                    (self, None)
                },
            }
        }
    }

    /// The state after observing `bytes`.
    pub open spec fn run(self, bytes: Seq<u8>) -> StreamView
        decreases bytes.len(),
    {
        if bytes.len() == 0 {
            self
        } else {
            self.run(bytes.drop_last()).step(bytes.last()).0
        }
    }

    /// The bodies that `bytes` completes, in order.
    pub open spec fn bodies(self, bytes: Seq<u8>) -> Seq<Seq<u8>>
        decreases bytes.len(),
    {
        if bytes.len() == 0 {
            Seq::empty()
        } else {
            let earlier = self.bodies(bytes.drop_last());
            match self.run(bytes.drop_last()).step(bytes.last()).1 {
                Some(body) => earlier.push(body),
                None => earlier,
            }
        }
    }
}

/// Collects complete OSC bodies from a raw byte stream. Consumers receive only
/// bodies, which keeps the framing independent from the OSC commands.
#[derive(Debug)]
pub struct OscStreamCollector {
    state: OscStreamState,
    body: Vec<u8>,
}

impl View for OscStreamCollector {
    type V = StreamView;

    closed spec fn view(&self) -> StreamView {
        StreamView { state: self.state, body: self.body@ }
    }
}

impl Default for OscStreamCollector {
    fn default() -> (collector: Self)
        ensures
            collector@ == StreamView::initial(),
    {
        let collector = OscStreamCollector { state: OscStreamState::Ground, body: Vec::new() };
        assert(collector@.body =~= Seq::empty());
        collector
    }
}

impl OscStreamCollector {
    /// Observes a chunk; returns the bodies that it completes.
    pub fn observe(&mut self, bytes: &[u8]) -> (bodies: Vec<Vec<u8>>)
        ensures
            final(self)@ == old(self)@.run(bytes@),
            crate::bytes::views(bodies@) == old(self)@.bodies(bytes@),
    {
        let ghost start = self@;
        let mut bodies: Vec<Vec<u8>> = Vec::new();
        let mut i: usize = 0;
        assert(bytes@.take(0) =~= Seq::empty());
        assert(crate::bytes::views(bodies@) =~= Seq::empty());
        while i < bytes.len()
            invariant
                i <= bytes.len(),
                self@ == start.run(bytes@.take(i as int)),
                crate::bytes::views(bodies@) == start.bodies(bytes@.take(i as int)),
            decreases bytes.len() - i,
        {
            let ghost next = bytes@.take(i as int + 1);
            let ghost earlier = crate::bytes::views(bodies@);
            assert(next.drop_last() =~= bytes@.take(i as int));
            let completed = self.observe_byte(bytes[i]);
            if let Some(body) = completed {
                let ghost content = body@;
                bodies.push(body);
                assert(crate::bytes::views(bodies@) =~= earlier.push(content));
            }
            i += 1;
        }
        assert(bytes@.take(i as int) =~= bytes@);
        bodies
    }

    /// Observes one byte; returns the body that it completed.
    pub fn observe_byte(&mut self, byte: u8) -> (body: Option<Vec<u8>>)
        ensures
            final(self)@ == old(self)@.step(byte).0,
            match body {
                Some(body) => old(self)@.step(byte).1 == Some(body@),
                None => old(self)@.step(byte).1 is None,
            },
    {
        if byte == 0x1b {
            return self.interrupt(OscStreamState::Escape);
        }
        if byte == 0x18 || byte == 0x1a {
            return self.interrupt(OscStreamState::Ground);
        }
        if !matches!(
            self.state,
            OscStreamState::Ground | OscStreamState::Body | OscStreamState::Discarding
        ) {
            if let Some(transition) = raw_c1_transition(byte) {
                self.state = match transition {
                    RawC1Transition::Ground => OscStreamState::Ground,
                    RawC1Transition::String => OscStreamState::IgnoringString,
                    RawC1Transition::Csi => OscStreamState::Csi,
                    RawC1Transition::Osc => {
                        self.body.clear();
                        OscStreamState::Body
                    },
                };
                return None;
            }
        }
        match self.state {
            OscStreamState::Ground => {},
            OscStreamState::Escape => {
                if byte == '[' as u8 {
                    self.state = OscStreamState::Csi;
                } else if byte == ']' as u8 {
                    self.body.clear();
                    self.state = OscStreamState::Body;
                } else if is_ignored_string_intro(byte) {
                    self.state = OscStreamState::IgnoringString;
                } else if 0x20 <= byte && byte <= 0x2f {
                    self.state = OscStreamState::EscapeIntermediate;
                } else if 0x30 <= byte && byte <= 0x7e {
                    self.state = OscStreamState::Ground;
                }
            },
            OscStreamState::EscapeIntermediate => {
                if 0x30 <= byte && byte <= 0x7e {
                    self.state = OscStreamState::Ground;
                }
            },
            OscStreamState::Csi => {
                if 0x40 <= byte && byte <= 0x7e {
                    self.state = OscStreamState::Ground;
                }
            },
            OscStreamState::Body => {
                if byte == 0x07 {
                    return self.interrupt(OscStreamState::Ground);
                } else if !is_osc_ignored_control(byte) {
                    self.push(byte);
                }
            },
            OscStreamState::IgnoringString => {},
            OscStreamState::Discarding => {
                if byte == 0x07 {
                    self.state = OscStreamState::Ground;
                }
            },
        }
        None
    }

    fn interrupt(&mut self, state: OscStreamState) -> (body: Option<Vec<u8>>)
        ensures
            final(self)@ == old(self)@.interrupt(state).0,
            match body {
                Some(body) => old(self)@.interrupt(state).1 == Some(body@),
                None => old(self)@.interrupt(state).1 is None,
            },
    {
        let open = matches!(self.state, OscStreamState::Body);
        self.state = state;
        if open {
            let body = take_bytes(&mut self.body);
            Some(body)
        } else {
            None
        }
    }

    /// Forgets whatever was being received.
    pub fn reset(&mut self)
        ensures
            final(self)@ == StreamView::initial(),
    {
        self.state = OscStreamState::Ground;
        self.body.clear();
        assert(self@.body =~= Seq::empty());
    }

    fn push(&mut self, byte: u8)
        ensures
            final(self)@ == old(self)@.collect(byte),
    {
        self.body.push(byte);
        if self.body.len() > MAX_BODY_BYTES {
            self.body.clear();
            self.state = OscStreamState::Discarding;
        } else {
            self.state = OscStreamState::Body;
        }
    }
}

/// How a stream is cut into chunks does not matter: observing `first` and then
/// `second` ends in the same state and completes the same bodies as observing
/// both at once.
pub proof fn law_chunking(start: StreamView, first: Seq<u8>, second: Seq<u8>)
    ensures
        start.run(first + second) == start.run(first).run(second),
        start.bodies(first + second) == start.bodies(first) + start.run(first).bodies(second),
    decreases second.len(),
{
    if second.len() == 0 {
        assert(first + second =~= first);
        assert(start.bodies(first) =~= start.bodies(first) + Seq::empty());
    } else {
        law_chunking(start, first, second.drop_last());
        assert((first + second).drop_last() =~= first + second.drop_last());
        assert(start.bodies(first + second) =~= start.bodies(first) + start.run(first).bodies(
            second,
        ));
    }
}

/// What is kept of a stream is bounded, and kept only inside an OSC.
pub proof fn law_body_bounded(start: StreamView, bytes: Seq<u8>)
    requires
        start.wf(),
    ensures
        start.run(bytes).wf(),
        forall|i: int|
            0 <= i < start.bodies(bytes).len() ==> (#[trigger] start.bodies(bytes)[i]).len()
                <= MAX_BODY_BYTES,
    decreases bytes.len(),
{
    if bytes.len() > 0 {
        law_body_bounded(start, bytes.drop_last());
        let earlier = start.bodies(bytes.drop_last());
        assert forall|i: int| 0 <= i < start.bodies(bytes).len() implies (#[trigger] start.bodies(
            bytes,
        )[i]).len() <= MAX_BODY_BYTES by {
            if i < earlier.len() {
                assert(start.bodies(bytes)[i] == earlier[i]);
            }
        }
    }
}

/// Text that holds no escape leaves the collector in Ground and completes
/// nothing, whatever C1 bytes its encoding holds.
pub proof fn law_plain_text_completes_nothing(text: Seq<u8>)
    requires
        forall|i: int| 0 <= i < text.len() ==> text[i] != 0x1b,
    ensures
        StreamView::initial().run(text) == StreamView::initial(),
        StreamView::initial().bodies(text).len() == 0,
    decreases text.len(),
{
    if text.len() > 0 {
        law_plain_text_completes_nothing(text.drop_last());
    }
}

proof fn lemma_body_collected(body: Seq<u8>, n: int)
    requires
        body.len() <= MAX_BODY_BYTES,
        forall|i: int| 0 <= i < body.len() ==> body[i] >= 0x20,
        0 <= n <= body.len(),
    ensures
        StreamView::enter(OscStreamState::Body).run(body.take(n)) == (StreamView {
            state: OscStreamState::Body,
            body: body.take(n),
        }),
        StreamView::enter(OscStreamState::Body).bodies(body.take(n)).len() == 0,
    decreases n,
{
    if n == 0 {
        assert(body.take(0) =~= Seq::empty());
    } else {
        lemma_body_collected(body, n - 1);
        assert(body.take(n).drop_last() =~= body.take(n - 1));
        assert(body.take(n - 1).push(body[n - 1]) =~= body.take(n));
    }
}

/// A whole OSC of at most the bounded length is collected once, with exactly its body,
/// whether a bell or a string terminator ends it, and text follows it as before.
pub proof fn law_whole_osc_collected(body: Seq<u8>, bell: bool)
    requires
        body.len() <= 4096,
        forall|i: int| 0 <= i < body.len() ==> body[i] >= 0x20,
    ensures
        ({
            let end = if bell {
                seq![0x07u8]
            } else {
                seq![0x1bu8, '\\' as u8]
            };
            let osc = seq![0x1bu8, ']' as u8] + body + end;
            &&& StreamView::initial().run(osc) == StreamView::initial()
            &&& StreamView::initial().bodies(osc) == seq![body]
        }),
{
    let start = StreamView::initial();
    let intro = seq![0x1bu8, ']' as u8];
    let open = StreamView::enter(OscStreamState::Body);
    let collected = StreamView { state: OscStreamState::Body, body };
    let end = if bell {
        seq![0x07u8]
    } else {
        seq![0x1bu8, '\\' as u8]
    };
    reveal_with_fuel(StreamView::run, 3);
    reveal_with_fuel(StreamView::bodies, 3);
    assert(intro.drop_last() =~= seq![0x1bu8]);
    assert(intro.drop_last().drop_last() =~= Seq::empty());
    assert(start.run(intro) == open);
    assert(start.bodies(intro) =~= Seq::empty());
    lemma_body_collected(body, body.len() as int);
    assert(body.take(body.len() as int) =~= body);
    law_chunking(start, intro, body);
    let head = intro + body;
    assert(start.run(head) == collected);
    assert(start.bodies(head) =~= Seq::empty());
    if bell {
        assert(end.drop_last() =~= Seq::empty());
    } else {
        assert(end.drop_last() =~= seq![0x1bu8]);
        assert(end.drop_last().drop_last() =~= Seq::empty());
    }
    assert(collected.run(end) == start);
    assert(collected.bodies(end) =~= seq![body]);
    law_chunking(start, head, end);
    assert(start.bodies(head + end) =~= seq![body]);
}

/// After a control sequence has begun, the eight-bit controls begin sequences and strings as
/// their seven-bit forms do; a byte that is none of them does nothing of the kind.
pub proof fn law_eight_bit_controls(byte: u8)
    ensures
        c1_transition(byte) == Some(RawC1Transition::Csi) <==> byte == 0x9b,
        c1_transition(byte) == Some(RawC1Transition::Osc) <==> byte == 0x9d,
        c1_transition(byte) == Some(RawC1Transition::String) <==> byte == 0x90 || byte == 0x98
            || byte == 0x9e || byte == 0x9f,
        c1_transition(byte) is None <==> byte < 0x80 || byte >= 0xa0,
{
}

} // verus!
