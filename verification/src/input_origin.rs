//! Origin frames for input that is written into a pane on behalf of an API caller.
//!
//! Only the server writes to a pane's input. When an API caller sends text or
//! keys to a pane whose program reads origin frames, those bytes are wrapped in
//! a start and an end frame that name the caller, so that the program can tell
//! sent input from typed input.
//!
//! ```text
//! U+FDD0 herdr-origin;v=1;kind=api;id=<id>;sender=<s>[;pane=<p>][;session=<s>] U+FDD1
//! <input bytes>
//! U+FDD0 herdr-origin;end;id=<id> U+FDD1
//! ```
//!
//! The markers are Unicode noncharacters. A UTF-8 reader gets `U+FDD0` whole, so
//! it knows that a frame has started however the rest of the write is split or
//! delayed. Every other write passes through [`OriginFrameFilter`], which breaks
//! `U+FDD0`, so that keyboard input, pastes and the payload inside a real frame
//! cannot start a frame.
use crate::bytes::append_slice;
use crate::osc::cwd;
use crate::random;
use crate::text::{self, decimal_text, push_char, text_of};
use vstd::prelude::*;
use vstd::string::StringExecFns;

verus! {

/// What replaces the last byte of a frame prefix that unframed input would
/// complete. The result is invalid UTF-8, which a reader shows as a replacement
/// character.
pub const BROKEN_PREFIX_BYTE: u8 = 0x3f;

/// `U+FDD0` in UTF-8: starts every origin frame, start or end.
pub open spec fn frame_prefix() -> Seq<u8> {
    seq![0xef, 0xb7, 0x90]
}

/// `U+FDD1` in UTF-8: ends a frame header.
pub open spec fn frame_header_end() -> Seq<u8> {
    seq![0xef, 0xb7, 0x91]
}

/// How many bytes of the frame prefix a stream ends with.
pub open spec fn partial_prefix(stream: Seq<u8>) -> int {
    if stream.len() >= 2 && stream[stream.len() - 2] == 0xef && stream.last() == 0xb7 {
        2
    } else if stream.len() >= 1 && stream.last() == 0xef {
        1
    } else {
        0
    }
}

/// A process that claimed, as the socket peer of its own report, to read origin
/// frames. The start time makes it one process generation, so a recycled process
/// ID is not the same claimant.
#[derive(Debug, Clone, Copy, PartialEq, Eq, Structural)]
pub struct InputOriginClaim {
    pub pid: u32,
    pub start_time: u64,
}

/// The API caller that a framed write comes from.
#[derive(Debug, Clone, PartialEq, Eq)]
pub struct InputOrigin {
    /// Best available caller name: agent name, else pane ID, else `pid:<n>`, else `unknown`.
    pub sender: String,
    /// Public pane ID of the caller, when it can be attributed.
    pub pane: Option<String>,
    /// Agent session ID of the caller, when its agent reported one.
    pub session: Option<String>,
    /// Pairs start and end frames. The two writes of one prompt share it.
    pub id: String,
}

/// Bytes that stand for themselves in an encoded value.
pub open spec fn plain_byte(byte: u8) -> bool {
    ||| '0' as u8 <= byte <= '9' as u8
    ||| 'A' as u8 <= byte <= 'Z' as u8
    ||| 'a' as u8 <= byte <= 'z' as u8
    ||| byte == '-' as u8
    ||| byte == '_' as u8
    ||| byte == '.' as u8
    ||| byte == ':' as u8
    ||| byte == '@' as u8
    ||| byte == '/' as u8
}

pub open spec fn upper_hex_byte(value: int) -> u8 {
    if value < 10 {
        ('0' as u8 + value) as u8
    } else {
        ('A' as u8 + value - 10) as u8
    }
}

/// A byte of a value as it stands in a frame header.
pub open spec fn encoded_byte(byte: u8) -> Seq<u8> {
    if plain_byte(byte) {
        seq![byte]
    } else {
        seq!['%' as u8, upper_hex_byte(byte as int / 16), upper_hex_byte(byte as int % 16)]
    }
}

/// A value as it stands in a frame header.
pub open spec fn encoded(bytes: Seq<u8>) -> Seq<u8>
    decreases bytes.len(),
{
    if bytes.len() == 0 {
        bytes
    } else {
        encoded(bytes.drop_last()) + encoded_byte(bytes.last())
    }
}

pub open spec fn encoded_text(text: Seq<char>) -> Seq<u8> {
    encoded(vstd::utf8::encode_utf8(text))
}

/// An optional field of a start frame.
pub open spec fn optional_field(name: Seq<u8>, value: Option<String>) -> Seq<u8> {
    match value {
        Some(value) => name + encoded_text(value@),
        None => Seq::empty(),
    }
}

/// The start frame of an origin.
pub open spec fn start_frame(origin: InputOrigin) -> Seq<u8> {
    frame_prefix() + start_fields(origin) + frame_header_end()
}

pub open spec fn start_fields(origin: InputOrigin) -> Seq<u8> {
    crate::bytes::utf8("herdr-origin;v=1;kind=api;id=") + encoded_text(origin.id@)
        + crate::bytes::utf8(";sender=") + encoded_text(origin.sender@) + optional_field(
        crate::bytes::utf8(";pane="),
        origin.pane,
    ) + optional_field(crate::bytes::utf8(";session="), origin.session)
}

/// The end frame of an origin.
pub open spec fn end_frame(origin: InputOrigin) -> Seq<u8> {
    frame_prefix() + end_fields(origin) + frame_header_end()
}

pub open spec fn end_fields(origin: InputOrigin) -> Seq<u8> {
    crate::bytes::utf8("herdr-origin;end;id=") + encoded_text(origin.id@)
}

/// Input wrapped in an origin's frames.
pub open spec fn framed(origin: InputOrigin, payload: Seq<u8>) -> Seq<u8> {
    start_frame(origin) + HistoryView::fresh().run(payload).1 + end_frame(origin)
}

/// Which partial prefixes the stream so far may end with.
pub struct HistoryView {
    pub none: bool,
    pub one: bool,
    pub two: bool,
}

impl HistoryView {
    pub open spec fn fresh() -> HistoryView {
        HistoryView { none: true, one: false, two: false }
    }

    pub open spec fn every() -> HistoryView {
        HistoryView { none: true, one: true, two: true }
    }

    /// Whether the stream may end with `n` bytes of the prefix.
    pub open spec fn may_end_with(self, n: int) -> bool {
        (n == 0 && self.none) || (n == 1 && self.one) || (n == 2 && self.two)
    }

    /// There is a possible history.
    pub open spec fn possible(self) -> bool {
        self.none || self.one || self.two
    }

    /// Whether a stream is among the possible histories.
    pub open spec fn covers(self, stream: Seq<u8>) -> bool {
        self.may_end_with(partial_prefix(stream))
    }

    /// The histories of either.
    pub open spec fn or(self, other: HistoryView) -> HistoryView {
        HistoryView {
            none: self.none || other.none,
            one: self.one || other.one,
            two: self.two || other.two,
        }
    }

    /// One byte: the histories after it, and the byte that is emitted.
    pub open spec fn step(self, byte: u8) -> (HistoryView, u8) {
        if self.two && byte == 0x90 {
            (HistoryView::fresh(), BROKEN_PREFIX_BYTE)
        } else {
            (
                HistoryView {
                    none: byte != 0xef && (self.none || (self.one && byte != 0xb7) || self.two),
                    one: byte == 0xef && (self.none || self.one || self.two),
                    two: byte == 0xb7 && self.one,
                },
                byte,
            )
        }
    }

    /// A write: the histories after it, and the bytes that are emitted.
    pub open spec fn run(self, bytes: Seq<u8>) -> (HistoryView, Seq<u8>)
        decreases bytes.len(),
    {
        if bytes.len() == 0 {
            (self, bytes)
        } else {
            let (before, emitted) = self.run(bytes.drop_last());
            let (after, byte) = before.step(bytes.last());
            (after, emitted.push(byte))
        }
    }

    /// The state in the form in which it is handed over.
    pub open spec fn bits(self) -> u16 {
        ((if self.none {
            1int
        } else {
            0
        }) + (if self.one {
            2int
        } else {
            0
        }) + (if self.two {
            4int
        } else {
            0
        })) as u16
    }

    /// The state that handed-over bits tell. Without any, every partial prefix
    /// may be pending.
    pub open spec fn of_bits(possible: Option<u16>) -> HistoryView {
        match possible {
            Some(possible) => HistoryView {
                none: true,
                one: possible as int / 2 % 2 == 1,
                two: possible as int / 4 % 2 == 1,
            },
            None => HistoryView::every(),
        }
    }
}

/// Keeps origin frame prefixes out of a stream of unframed writes.
///
/// The filter tracks how much of a prefix the emitted stream may end with. When
/// a byte would complete a prefix, the filter emits [`BROKEN_PREFIX_BYTE`]
/// instead. It never deletes bytes, because a deletion can join the bytes around
/// it into a new prefix.
///
/// A queued write can still be dropped before it lands. So the filter keeps the
/// set of partial prefixes that the stream may end with, and breaks a prefix
/// that any of them would complete. Callers filter with a copy and commit it
/// only after the write is accepted.
#[derive(Debug, Clone, Copy, PartialEq, Eq, Structural)]
pub struct OriginFrameFilter {
    none: bool,
    one: bool,
    two: bool,
}

impl View for OriginFrameFilter {
    type V = HistoryView;

    closed spec fn view(&self) -> HistoryView {
        HistoryView { none: self.none, one: self.one, two: self.two }
    }
}

impl Default for OriginFrameFilter {
    fn default() -> (filter: Self)
        ensures
            filter@ == HistoryView::fresh(),
    {
        OriginFrameFilter { none: true, one: false, two: false }
    }
}

impl OriginFrameFilter {
    /// The bytes to write in place of `input`.
    pub fn filter(&mut self, input: &[u8]) -> (out: Vec<u8>)
        ensures
            final(self)@ == old(self)@.run(input@).0,
            out@ == old(self)@.run(input@).1,
    {
        let ghost start = self@;
        let mut out: Vec<u8> = Vec::new();
        let mut index: usize = 0;
        assert(input@.take(0) =~= Seq::empty());
        while index < input.len()
            invariant
                index <= input.len(),
                self@ == start.run(input@.take(index as int)).0,
                out@ == start.run(input@.take(index as int)).1,
            decreases input.len() - index,
        {
            assert(input@.take(index as int + 1).drop_last() =~= input@.take(index as int));
            let byte: u8 = input[index];
            if self.two && byte == 0x90 {
                *self = OriginFrameFilter { none: true, one: false, two: false };
                out.push(BROKEN_PREFIX_BYTE);
            } else {
                *self = OriginFrameFilter {
                    none: byte != 0xef && (self.none || (self.one && byte != 0xb7) || self.two),
                    one: byte == 0xef && (self.none || self.one || self.two),
                    two: byte == 0xb7 && self.one,
                };
                out.push(byte);
            }
            index += 1;
        }
        assert(input@.take(index as int) =~= input@);
        out
    }

    /// Adds the states of another possible history, for a write that may not land.
    pub fn merge(&mut self, other: Self)
        ensures
            final(self)@ == old(self)@.or(other@),
    {
        self.none = self.none || other.none;
        self.one = self.one || other.one;
        self.two = self.two || other.two;
    }

    /// State to hand over with the pane to another server: bit `n` is set when
    /// the stream may end with the first `n` bytes of the prefix.
    pub fn to_handoff(self) -> (possible: u16)
        ensures
            possible == self@.bits(),
    {
        let none: u16 = if self.none {
            1
        } else {
            0
        };
        let one: u16 = if self.one {
            2
        } else {
            0
        };
        let two: u16 = if self.two {
            4
        } else {
            0
        };
        none + one + two
    }

    /// State received with a pane from another server.
    pub fn from_handoff(possible: Option<u16>) -> (filter: Self)
        ensures
            filter@ == HistoryView::of_bits(possible),
    {
        match possible {
            Some(possible) => OriginFrameFilter {
                none: true,
                one: possible / 2 % 2 == 1,
                two: possible / 4 % 2 == 1,
            },
            None => OriginFrameFilter { none: true, one: true, two: true },
        }
    }

    /// Adds the state after a framed write, which ends with a complete marker.
    pub fn merge_frame(&mut self)
        ensures
            final(self)@ == old(self)@.or(HistoryView::fresh()),
    {
        self.none = true;
    }
}

/// Breaks frame prefixes in one self-contained byte string.
pub fn strip_frame_prefixes(bytes: &[u8]) -> (stripped: Vec<u8>)
    ensures
        stripped@ == HistoryView::fresh().run(bytes@).1,
{
    let mut filter = OriginFrameFilter::default();
    filter.filter(bytes)
}

fn push_prefix(out: &mut Vec<u8>)
    ensures
        final(out)@ == old(out)@ + frame_prefix(),
{
    out.push(0xef);
    out.push(0xb7);
    out.push(0x90);
    assert(out@ =~= old(out)@ + frame_prefix());
}

fn push_header_end(out: &mut Vec<u8>)
    ensures
        final(out)@ == old(out)@ + frame_header_end(),
{
    out.push(0xef);
    out.push(0xb7);
    out.push(0x91);
    assert(out@ =~= old(out)@ + frame_header_end());
}

fn upper_hex_digit(value: u8) -> (digit: u8)
    requires
        value < 16,
    ensures
        digit == upper_hex_byte(value as int),
{
    if value < 10 {
        '0' as u8 + value
    } else {
        'A' as u8 + (value - 10)
    }
}

/// Percent-encodes every byte outside a conservative ASCII set, so that a value
/// cannot contain `;`, `=`, control bytes or a frame marker.
pub fn push_encoded(out: &mut Vec<u8>, value: &str)
    ensures
        final(out)@ == old(out)@ + encoded_text(value@),
{
    let bytes = value.as_bytes();
    let ghost start = out@;
    let mut i: usize = 0;
    assert(bytes@.take(0) =~= Seq::empty());
    assert(start + Seq::<u8>::empty() =~= start);
    while i < bytes.len()
        invariant
            i <= bytes.len(),
            out@ == start + encoded(bytes@.take(i as int)),
        decreases bytes.len() - i,
    {
        assert(bytes@.take(i as int + 1).drop_last() =~= bytes@.take(i as int));
        let byte: u8 = bytes[i];
        let ghost before = out@;
        let plain = ('0' as u8 <= byte && byte <= '9' as u8) || ('A' as u8 <= byte && byte
            <= 'Z' as u8) || ('a' as u8 <= byte && byte <= 'z' as u8) || byte == '-' as u8 || byte
            == '_' as u8 || byte == '.' as u8 || byte == ':' as u8 || byte == '@' as u8 || byte
            == '/' as u8;
        if plain {
            out.push(byte);
        } else {
            out.push('%' as u8);
            out.push(upper_hex_digit(byte / 16));
            out.push(upper_hex_digit(byte % 16));
        }
        assert(out@ =~= before + encoded_byte(byte));
        i += 1;
        assert(out@ =~= start + encoded(bytes@.take(i as int)));
    }
    assert(bytes@.take(i as int) =~= bytes@);
}

impl InputOrigin {
    /// A caller with a fresh frame ID.
    pub fn new(
        sender: String,
        pane: Option<String>,
        session: Option<String>,
        nanos: u128,
        pid: u32,
        count: u64,
    ) -> (origin: Self)
        ensures
            origin.sender == sender,
            origin.pane == pane,
            origin.session == session,
            origin.id@ == frame_id(nanos as nat, pid as nat, count as nat),
    {
        InputOrigin { sender, pane, session, id: next_frame_id(nanos, pid, count) }
    }

    /// Wraps `payload` in this origin's frames. Frame prefixes inside the
    /// payload are broken.
    pub fn wrap(&self, payload: &[u8]) -> (out: Vec<u8>)
        ensures
            out@ == framed(*self, payload@),
    {
        let payload = strip_frame_prefixes(payload);
        let mut out: Vec<u8> = Vec::new();
        push_prefix(&mut out);
        assert(out@ =~= frame_prefix());
        append_slice(&mut out, "herdr-origin;v=1;kind=api;id=".as_bytes());
        push_encoded(&mut out, self.id.as_str());
        append_slice(&mut out, ";sender=".as_bytes());
        push_encoded(&mut out, self.sender.as_str());
        if let Some(pane) = &self.pane {
            append_slice(&mut out, ";pane=".as_bytes());
            push_encoded(&mut out, pane.as_str());
        }
        if let Some(session) = &self.session {
            append_slice(&mut out, ";session=".as_bytes());
            push_encoded(&mut out, session.as_str());
        }
        assert(out@ =~= frame_prefix() + start_fields(*self));
        push_header_end(&mut out);
        assert(out@ =~= start_frame(*self));
        append_slice(&mut out, payload.as_slice());
        let ghost body = out@;
        push_prefix(&mut out);
        append_slice(&mut out, "herdr-origin;end;id=".as_bytes());
        push_encoded(&mut out, self.id.as_str());
        push_header_end(&mut out);
        assert(out@ =~= body + end_frame(*self));
        out
    }
}

/// Tells the process `pid` that its API input is framed from now on, so that it
/// may record unframed input as typed. Another process that reads the frame
/// ignores it.
pub fn ready_frame(pid: u32) -> (frame: Vec<u8>)
    ensures
        frame@ == frame_prefix() + crate::bytes::utf8("herdr-origin;ready;v=1;pid=")
            + vstd::utf8::encode_utf8(text::decimal(pid as nat)) + frame_header_end(),
{
    let mut frame: Vec<u8> = Vec::new();
    push_prefix(&mut frame);
    append_slice(&mut frame, "herdr-origin;ready;v=1;pid=".as_bytes());
    append_slice(&mut frame, decimal_text(pid as u128).as_str().as_bytes());
    push_header_end(&mut frame);
    assert(frame@ =~= frame_prefix() + crate::bytes::utf8("herdr-origin;ready;v=1;pid=")
        + vstd::utf8::encode_utf8(text::decimal(pid as nat)) + frame_header_end());
    frame
}

/// The hexadecimal digits of a number, without leading zeros.
pub open spec fn hexadecimal(n: nat) -> Seq<char>
    decreases n,
{
    if n < 16 {
        seq![random::hex_digit(n as int)]
    } else {
        hexadecimal(n / 16).push(random::hex_digit(n as int % 16))
    }
}

/// An ID made of a time, a process and a count.
pub open spec fn frame_id(nanos: nat, pid: nat, count: nat) -> Seq<char> {
    hexadecimal(nanos) + seq!['-'] + text::decimal(pid) + seq!['-'] + text::decimal(count)
}

fn hexadecimal_chars(n: u128) -> (digits: Vec<char>)
    ensures
        digits@ == hexadecimal(n as nat),
    decreases n,
{
    if n < 16 {
        let mut digits: Vec<char> = Vec::new();
        digits.push(random::hex_digit_char(n as u8));
        assert(digits@ =~= hexadecimal(n as nat));
        digits
    } else {
        let mut digits = hexadecimal_chars(n / 16);
        digits.push(random::hex_digit_char((n % 16) as u8));
        digits
    }
}

/// The ID of a frame that is made at `nanos` by process `pid` as its `count`th.
pub fn next_frame_id(nanos: u128, pid: u32, count: u64) -> (id: String)
    ensures
        id@ == frame_id(nanos as nat, pid as nat, count as nat),
{
    let mut id = text_of(hexadecimal_chars(nanos).as_slice());
    push_char(&mut id, '-');
    id.append(decimal_text(pid as u128).as_str());
    push_char(&mut id, '-');
    id.append(decimal_text(count as u128).as_str());
    assert(id@ =~= frame_id(nanos as nat, pid as nat, count as nat));
    id
}

// The stream never completes a frame prefix.

/// Appending to a stream changes the partial prefix as the filter assumes.
proof fn lemma_partial_step(stream: Seq<u8>, byte: u8)
    ensures
        partial_prefix(stream.push(byte)) == (if byte == 0xef {
            1int
        } else if byte == 0xb7 && partial_prefix(stream) == 1 {
            2
        } else {
            0
        }),
        crate::bytes::occurs_at(
            frame_prefix(),
            stream.push(byte),
            stream.len() - 2,
        ) == (byte == 0x90 && partial_prefix(stream) == 2),
{
    let longer = stream.push(byte);
    if stream.len() >= 2 {
        let tail = longer.subrange(stream.len() - 2, stream.len() as int + 1);
        assert(tail =~= seq![stream[stream.len() - 2], stream[stream.len() - 1], byte]);
        assert((tail == frame_prefix()) == (tail[0] == 0xef && tail[1] == 0xb7 && tail[2] == 0x90))
            by {
            if tail[0] == 0xef && tail[1] == 0xb7 && tail[2] == 0x90 {
                assert(tail =~= frame_prefix());
            }
        }
    }
}

/// Whatever of the possible histories is the true one, the bytes that the
/// filter lets through complete no frame prefix, also not together with what
/// was written before, and the true history stays among the possible ones.
pub proof fn law_no_prefix_completed(histories: HistoryView, stream: Seq<u8>, input: Seq<u8>)
    requires
        histories.covers(stream),
    ensures
        ({
            let (after, emitted) = histories.run(input);
            &&& after.covers(stream + emitted)
            &&& forall|i: int| #[trigger]
                crate::bytes::occurs_at(frame_prefix(), stream + emitted, i) ==> i + 3
                    <= stream.len()
        }),
    decreases input.len(),
{
    if input.len() == 0 {
        assert(stream + input =~= stream);
    } else {
        law_no_prefix_completed(histories, stream, input.drop_last());
        let (before, emitted) = histories.run(input.drop_last());
        let (after, byte) = before.step(input.last());
        let written = stream + emitted;
        lemma_partial_step(written, byte);
        let longer = written.push(byte);
        assert(stream + histories.run(input).1 =~= longer);
        assert forall|i: int| #[trigger]
            crate::bytes::occurs_at(frame_prefix(), longer, i) implies i + 3 <= stream.len() by {
            if i + 3 <= written.len() {
                assert(longer.subrange(i, i + 3) =~= written.subrange(i, i + 3));
                assert(crate::bytes::occurs_at(frame_prefix(), written, i));
            }
        }
    }
}

/// Input is never deleted or added to; a byte is replaced exactly where it would complete a
/// prefix that the stream may end with.
pub proof fn law_length_kept(histories: HistoryView, input: Seq<u8>)
    ensures
        histories.run(input).1.len() == input.len(),
        forall|i: int|
            0 <= i < input.len() ==> #[trigger] histories.run(input).1[i] == (if histories.run(
                input.take(i),
            ).0.may_end_with(2) && input[i] == 0x90 {
                BROKEN_PREFIX_BYTE
            } else {
                input[i]
            }),
    decreases input.len(),
{
    if input.len() > 0 {
        let before = input.drop_last();
        law_length_kept(histories, before);
        let earlier = histories.run(before).1;
        assert forall|i: int| 0 <= i < input.len() implies #[trigger] histories.run(input).1[i]
            == (if histories.run(input.take(i)).0.may_end_with(2) && input[i] == 0x90 {
            BROKEN_PREFIX_BYTE
        } else {
            input[i]
        }) by {
            if i < input.len() - 1 {
                assert(histories.run(input).1[i] == earlier[i]);
                assert(before[i] == input[i]);
                assert(before.take(i) =~= input.take(i));
            } else {
                assert(input.take(i) =~= before);
            }
        }
    }
}

/// Input without the last byte of a prefix passes unchanged.
pub proof fn law_ordinary_input_unchanged(histories: HistoryView, input: Seq<u8>)
    requires
        forall|i: int| 0 <= i < input.len() ==> input[i] != 0x90,
    ensures
        histories.run(input).1 == input,
{
    law_length_kept(histories, input);
    assert(histories.run(input).1 =~= input);
}

/// How input is cut into writes does not matter.
pub proof fn law_chunking(histories: HistoryView, first: Seq<u8>, second: Seq<u8>)
    ensures
        ({
            let (middle, emitted) = histories.run(first);
            let (after, more) = middle.run(second);
            histories.run(first + second) == (after, emitted + more)
        }),
    decreases second.len(),
{
    let (middle, emitted) = histories.run(first);
    if second.len() == 0 {
        assert(first + second =~= first);
        assert(emitted + second =~= emitted);
    } else {
        law_chunking(histories, first, second.drop_last());
        assert((first + second).drop_last() =~= first + second.drop_last());
        let (before, more) = middle.run(second.drop_last());
        let (after, byte) = before.step(second.last());
        assert((emitted + more).push(byte) =~= emitted + more.push(byte));
    }
}

/// A merged filter covers every history that either filter covers.
pub proof fn law_merge_covers_both(left: HistoryView, right: HistoryView, stream: Seq<u8>)
    requires
        left.covers(stream) || right.covers(stream),
    ensures
        left.or(right).covers(stream),
{
}

/// A filter that was handed over covers every history that it covered before,
/// and one without handed-over state covers every history there is.
pub proof fn law_handoff_covers(histories: HistoryView, stream: Seq<u8>)
    ensures
        histories.covers(stream) ==> HistoryView::of_bits(Some(histories.bits())).covers(stream),
        HistoryView::of_bits(None).covers(stream),
{
}

/// Some history is always possible: writing keeps it so.
pub proof fn law_some_history_is_possible(histories: HistoryView, input: Seq<u8>)
    requires
        histories.possible(),
    ensures
        histories.run(input).0.possible(),
    decreases input.len(),
{
    if input.len() > 0 {
        law_some_history_is_possible(histories, input.drop_last());
    }
}

/// A filter that was handed over writes what it would have written: the same bytes for the
/// same input, and it goes on to break the same prefixes.
pub proof fn law_handoff_keeps_the_output(histories: HistoryView, input: Seq<u8>)
    requires
        histories.possible(),
    ensures
        ({
            let restored = HistoryView::of_bits(Some(histories.bits()));
            &&& restored.run(input).1 == histories.run(input).1
            &&& restored.run(input).0.one == histories.run(input).0.one
            &&& restored.run(input).0.two == histories.run(input).0.two
        }),
    decreases input.len(),
{
    if input.len() > 0 {
        law_handoff_keeps_the_output(histories, input.drop_last());
        law_some_history_is_possible(histories, input.drop_last());
        law_some_history_is_possible(
            HistoryView::of_bits(Some(histories.bits())),
            input.drop_last(),
        );
    }
}

/// After a framed write the stream ends with a complete marker, which a merged
/// frame covers.
pub proof fn law_frame_covered(
    histories: HistoryView,
    origin: InputOrigin,
    stream: Seq<u8>,
    payload: Seq<u8>,
)
    ensures
        histories.or(HistoryView::fresh()).covers(stream + framed(origin, payload)),
{
    let written = stream + framed(origin, payload);
    let n = written.len();
    assert(written[n - 1] == 0x91) by {
        assert(written[n - 1] == framed(origin, payload).last());
        assert(framed(origin, payload).last() == end_frame(origin).last());
    }
}

proof fn lemma_encoded_safe(bytes: Seq<u8>)
    ensures
        forall|i: int|
            0 <= i < encoded(bytes).len() ==> plain_byte(#[trigger] encoded(bytes)[i])
                || encoded(bytes)[i] == '%' as u8,
    decreases bytes.len(),
{
    if bytes.len() > 0 {
        lemma_encoded_safe(bytes.drop_last());
        let earlier = encoded(bytes.drop_last());
        lemma_encoded_byte_safe(bytes.last());
        assert forall|i: int| 0 <= i < encoded(bytes).len() implies plain_byte(
            #[trigger] encoded(bytes)[i],
        ) || encoded(bytes)[i] == '%' as u8 by {
            if i < earlier.len() {
                assert(encoded(bytes)[i] == earlier[i]);
            } else {
                assert(encoded(bytes)[i] == encoded_byte(bytes.last())[i - earlier.len()]);
            }
        }
    }
}

proof fn lemma_encoded_byte_safe(byte: u8)
    ensures
        forall|i: int|
            0 <= i < encoded_byte(byte).len() ==> plain_byte(#[trigger] encoded_byte(byte)[i])
                || encoded_byte(byte)[i] == '%' as u8,
{
}

/// An encoded value holds only letters, digits and `-_.:@/%`: no separator, no
/// control byte and no part of a marker.
pub proof fn law_encoded_values_safe(value: Seq<char>)
    ensures
        forall|i: int|
            0 <= i < encoded_text(value).len() ==> plain_byte(#[trigger] encoded_text(value)[i])
                || encoded_text(value)[i] == '%' as u8,
{
    lemma_encoded_safe(vstd::utf8::encode_utf8(value));
}

proof fn lemma_decode_prefix(start: Seq<u8>, rest: Seq<u8>)
    ensures
        cwd::percent_decoded(encoded(start) + rest) == cwd::put_before(
            start,
            cwd::percent_decoded(rest),
        ),
    decreases start.len(),
{
    if start.len() == 0 {
        assert(encoded(start) + rest =~= rest);
        if let Some(decoded) = cwd::percent_decoded(rest) {
            assert(start + decoded =~= decoded);
        }
    } else {
        let byte = start.last();
        let shorter = start.drop_last();
        let more = encoded_byte(byte) + rest;
        assert(encoded(start) + rest =~= encoded(shorter) + more);
        lemma_decode_prefix(shorter, more);
        lemma_decode_byte(byte, rest);
        if let Some(decoded) = cwd::percent_decoded(rest) {
            assert(shorter + (seq![byte] + decoded) =~= start + decoded);
        }
    }
}

proof fn lemma_decode_byte(byte: u8, rest: Seq<u8>)
    ensures
        cwd::percent_decoded(encoded_byte(byte) + rest) == cwd::put_before(
            seq![byte],
            cwd::percent_decoded(rest),
        ),
{
    let all = encoded_byte(byte) + rest;
    if plain_byte(byte) {
        assert(all[0] == byte);
        assert(all.skip(1) =~= rest);
    } else {
        assert(all[0] == '%' as u8);
        assert(all[1] == upper_hex_byte(byte as int / 16));
        assert(all[2] == upper_hex_byte(byte as int % 16));
        assert(cwd::hex_digit_value(all[1]) == Some((byte as int / 16) as u8));
        assert(cwd::hex_digit_value(all[2]) == Some((byte as int % 16) as u8));
        assert(all.skip(3) =~= rest);
    }
}

/// The value is found again from its encoding.
pub proof fn law_encoded_value_decodes(value: Seq<u8>)
    ensures
        cwd::percent_decoded(encoded(value)) == Some(value),
{
    lemma_decode_prefix(value, Seq::empty());
    assert(encoded(value) + Seq::<u8>::empty() =~= encoded(value));
    assert(value + Seq::<u8>::empty() =~= value);
}

pub open spec fn ascii(bytes: Seq<u8>) -> bool {
    forall|i: int| 0 <= i < bytes.len() ==> #[trigger] bytes[i] < 0x80
}

proof fn lemma_fields_ascii(origin: InputOrigin)
    ensures
        ascii(start_fields(origin)),
        ascii(end_fields(origin)),
{
    reveal_strlit("herdr-origin;v=1;kind=api;id=");
    reveal_strlit(";sender=");
    reveal_strlit(";pane=");
    reveal_strlit(";session=");
    reveal_strlit("herdr-origin;end;id=");
    let a = crate::bytes::utf8("herdr-origin;v=1;kind=api;id=");
    let b = crate::bytes::utf8(";sender=");
    let c = crate::bytes::utf8(";pane=");
    let d = crate::bytes::utf8(";session=");
    let e = crate::bytes::utf8("herdr-origin;end;id=");
    vstd::utf8::is_ascii_chars_encode_utf8("herdr-origin;v=1;kind=api;id="@);
    vstd::utf8::is_ascii_chars_encode_utf8(";sender="@);
    vstd::utf8::is_ascii_chars_encode_utf8(";pane="@);
    vstd::utf8::is_ascii_chars_encode_utf8(";session="@);
    vstd::utf8::is_ascii_chars_encode_utf8("herdr-origin;end;id="@);
    lemma_ascii_text("herdr-origin;v=1;kind=api;id="@);
    lemma_ascii_text(";sender="@);
    lemma_ascii_text(";pane="@);
    lemma_ascii_text(";session="@);
    lemma_ascii_text("herdr-origin;end;id="@);
    law_encoded_values_safe(origin.id@);
    law_encoded_values_safe(origin.sender@);
    if let Some(pane) = origin.pane {
        law_encoded_values_safe(pane@);
    }
    if let Some(session) = origin.session {
        law_encoded_values_safe(session@);
    }
    lemma_ascii_concat(a, encoded_text(origin.id@));
    lemma_ascii_concat(a + encoded_text(origin.id@), b);
    lemma_ascii_concat(a + encoded_text(origin.id@) + b, encoded_text(origin.sender@));
    let head = a + encoded_text(origin.id@) + b + encoded_text(origin.sender@);
    let pane = optional_field(c, origin.pane);
    let session = optional_field(d, origin.session);
    if let Some(value) = origin.pane {
        lemma_ascii_concat(c, encoded_text(value@));
    }
    if let Some(value) = origin.session {
        lemma_ascii_concat(d, encoded_text(value@));
    }
    lemma_ascii_concat(head, pane);
    lemma_ascii_concat(head + pane, session);
    lemma_ascii_concat(e, encoded_text(origin.id@));
}

proof fn lemma_ascii_text(chars: Seq<char>)
    requires
        vstd::utf8::is_ascii_chars(chars),
    ensures
        ascii(vstd::utf8::encode_utf8(chars)),
{
    vstd::utf8::is_ascii_chars_encode_utf8(chars);
    assert forall|i: int| 0 <= i < vstd::utf8::encode_utf8(chars).len() implies #[trigger]
        vstd::utf8::encode_utf8(chars)[i] < 0x80 by {
        assert(chars[i] <= '\u{7f}');
        assert(chars[i] as u8 == vstd::utf8::encode_utf8(chars)[i]);
    }
}

proof fn lemma_ascii_concat(left: Seq<u8>, right: Seq<u8>)
    requires
        ascii(left),
        ascii(right),
    ensures
        ascii(left + right),
{
}

/// A framed write holds exactly two frame prefixes, whatever its payload holds:
/// the one that it begins with, and the one of its end frame.
pub proof fn law_framed_write_has_two_prefixes(origin: InputOrigin, payload: Seq<u8>)
    ensures
        forall|i: int| #[trigger]
            crate::bytes::occurs_at(frame_prefix(), framed(origin, payload), i) <==> i == 0 || i
                == start_frame(origin).len() + payload.len(),
{
    lemma_fields_ascii(origin);
    law_length_kept(HistoryView::fresh(), payload);
    let start = start_frame(origin);
    let body = HistoryView::fresh().run(payload).1;
    let whole = framed(origin, payload);
    let end_at = start.len() + payload.len() as int;
    let p = frame_prefix();
    assert(start.last() == 0x91);
    assert(partial_prefix(start) == 0);
    law_no_prefix_completed(HistoryView::fresh(), start, payload);
    let head = start + body;
    assert forall|i: int| #[trigger] crate::bytes::occurs_at(p, whole, i) implies i == 0 || i
        == end_at by {
        let found = whole.subrange(i, i + 3);
        assert(found[0] == 0xef && found[1] == 0xb7 && found[2] == 0x90);
        assert(whole[i] == 0xef && whole[i + 1] == 0xb7 && whole[i + 2] == 0x90);
        if i + 3 <= head.len() {
            assert(head.subrange(i, i + 3) =~= found);
            assert(crate::bytes::occurs_at(p, head, i));
            assert(i + 3 <= start.len());
            assert(start.subrange(i, i + 3) =~= found);
            lemma_one_marker(start_fields(origin), start, i);
        } else if i < end_at {
            assert(whole[end_at] == 0xef);
        } else {
            let end = end_frame(origin);
            assert(end.subrange(i - end_at, i - end_at + 3) =~= found);
            lemma_one_marker(end_fields(origin), end, i - end_at);
        }
    }
    assert(whole.subrange(0, 3) =~= p);
    assert(whole.subrange(end_at, end_at + 3) =~= p);
}

proof fn lemma_one_marker(fields: Seq<u8>, frame: Seq<u8>, i: int)
    requires
        ascii(fields),
        frame == frame_prefix() + fields + frame_header_end(),
        0 <= i,
        i + 3 <= frame.len(),
        frame.subrange(i, i + 3) == frame_prefix(),
    ensures
        i == 0,
{
    let found = frame.subrange(i, i + 3);
    assert(found[0] == 0xef && found[2] == 0x90);
    assert(frame[i] == 0xef && frame[i + 2] == 0x90);
    if i > 0 {
        if i < 3 {
            assert(frame[i] == frame_prefix()[i]);
        } else if i < 3 + fields.len() {
            assert(frame[i] == fields[i - 3]);
        } else {
            assert(i == 3 + fields.len());
            assert(frame[i + 2] == 0x91);
        }
    }
}

proof fn lemma_decimal_has_no_dash(n: nat)
    ensures
        text::decimal(n).len() >= 1,
        forall|i: int| 0 <= i < text::decimal(n).len() ==> '0' <= #[trigger] text::decimal(n)[i]
            <= '9',
    decreases n,
{
    if n >= 10 {
        lemma_decimal_has_no_dash(n / 10);
        let earlier = text::decimal(n / 10);
        assert forall|i: int| 0 <= i < text::decimal(n).len() implies '0'
            <= #[trigger] text::decimal(n)[i] <= '9' by {
            if i < earlier.len() {
                assert(text::decimal(n)[i] == earlier[i]);
            }
        }
    }
}

proof fn lemma_decimal_injective(left: nat, right: nat)
    requires
        text::decimal(left) == text::decimal(right),
    ensures
        left == right,
    decreases left,
{
    lemma_decimal_has_no_dash(left / 10);
    lemma_decimal_has_no_dash(right / 10);
    assert(text::decimal(left).last() == ('0' as u32 + left % 10) as char);
    assert(text::decimal(right).last() == ('0' as u32 + right % 10) as char);
    assert(left % 10 == right % 10);
    if left >= 10 && right >= 10 {
        assert(text::decimal(left).drop_last() =~= text::decimal(left / 10));
        assert(text::decimal(right).drop_last() =~= text::decimal(right / 10));
        lemma_decimal_injective(left / 10, right / 10);
    }
}

/// Frames with different counts have different IDs, whenever and wherever they
/// are made.
pub proof fn law_frame_ids_differ(
    first: (nat, nat, nat),
    second: (nat, nat, nat),
)
    requires
        first.2 != second.2,
    ensures
        frame_id(first.0, first.1, first.2) != frame_id(second.0, second.1, second.2),
{
    let left = frame_id(first.0, first.1, first.2);
    let right = frame_id(second.0, second.1, second.2);
    if left == right {
        let left_count = text::decimal(first.2);
        let right_count = text::decimal(second.2);
        lemma_decimal_has_no_dash(first.2);
        lemma_decimal_has_no_dash(second.2);
        let n = left.len() as int;
        let l = left_count.len() as int;
        let r = right_count.len() as int;
        assert(left[n - l - 1] == '-');
        assert(right[n - r - 1] == '-');
        if l < r {
            assert(right[n - l - 1] == right_count[r - l - 1]);
        } else if r < l {
            assert(left[n - r - 1] == left_count[l - r - 1]);
        }
        assert(left.skip(n - l) =~= left_count);
        assert(right.skip(n - r) =~= right_count);
        lemma_decimal_injective(first.2, second.2);
    }
}

/// A start frame tells the frame's ID and its sender, and the pane and the session where they
/// are known, each under its own name; an end frame repeats the ID.
pub proof fn law_frames_tell_their_origin(origin: InputOrigin)
    ensures
        ({
            let mark = seq![0xefu8, 0xb7, 0x90];
            let stop = seq![0xefu8, 0xb7, 0x91];
            let id = encoded(vstd::utf8::encode_utf8(origin.id@));
            let sender = encoded(vstd::utf8::encode_utf8(origin.sender@));
            let pane = match origin.pane {
                Some(pane) => crate::bytes::utf8(";pane=") + encoded(
                    vstd::utf8::encode_utf8(pane@),
                ),
                None => Seq::empty(),
            };
            let session = match origin.session {
                Some(session) => crate::bytes::utf8(";session=") + encoded(
                    vstd::utf8::encode_utf8(session@),
                ),
                None => Seq::empty(),
            };
            &&& start_frame(origin) == mark + (crate::bytes::utf8(
                "herdr-origin;v=1;kind=api;id=",
            ) + id + (crate::bytes::utf8(";sender=") + sender) + pane + session) + stop
            &&& end_frame(origin) == mark + (crate::bytes::utf8("herdr-origin;end;id=") + id) + stop
        }),
{
    let id = encoded(vstd::utf8::encode_utf8(origin.id@));
    let sender = encoded(vstd::utf8::encode_utf8(origin.sender@));
    let pane = match origin.pane {
        Some(pane) => crate::bytes::utf8(";pane=") + encoded(vstd::utf8::encode_utf8(pane@)),
        None => Seq::empty(),
    };
    let session = match origin.session {
        Some(session) => crate::bytes::utf8(";session=") + encoded(
            vstd::utf8::encode_utf8(session@),
        ),
        None => Seq::empty(),
    };
    assert(start_fields(origin) =~= crate::bytes::utf8("herdr-origin;v=1;kind=api;id=") + id + (
    crate::bytes::utf8(";sender=") + sender) + pane + session);
}

/// A framed write is its start frame, its payload byte for byte but for broken prefixes, and
/// its end frame. A payload that holds no last byte of a prefix is framed unchanged.
pub proof fn law_payload_stands_between_its_frames(origin: InputOrigin, payload: Seq<u8>)
    ensures
        start_frame(origin).is_prefix_of(framed(origin, payload)),
        end_frame(origin).is_suffix_of(framed(origin, payload)),
        framed(origin, payload).len() == start_frame(origin).len() + payload.len() + end_frame(
            origin,
        ).len(),
        (forall|i: int| 0 <= i < payload.len() ==> payload[i] != 0x90) ==> framed(origin, payload)
            == start_frame(origin) + payload + end_frame(origin),
{
    let whole = framed(origin, payload);
    let start = start_frame(origin);
    let end = end_frame(origin);
    law_length_kept(HistoryView::fresh(), payload);
    assert(start =~= whole.subrange(0, start.len() as int));
    assert(end =~= whole.subrange(whole.len() - end.len(), whole.len() as int));
    if forall|i: int| 0 <= i < payload.len() ==> payload[i] != 0x90 {
        law_ordinary_input_unchanged(HistoryView::fresh(), payload);
    }
}

/// Letters, digits and a few marks stand for themselves in a frame; every other byte is
/// written as a percent sign and two digits.
pub proof fn law_encoded_bytes(byte: u8)
    ensures
        ({
            let plain = '0' as u8 <= byte <= '9' as u8 || 'A' as u8 <= byte <= 'Z' as u8 || 'a'
                as u8 <= byte <= 'z' as u8 || byte == '-' as u8 || byte == '_' as u8 || byte
                == '.' as u8 || byte == ':' as u8 || byte == '@' as u8 || byte == '/' as u8;
            let digits = "0123456789ABCDEF"@;
            &&& plain ==> encoded_byte(byte) == seq![byte]
            &&& !plain ==> encoded_byte(byte) == seq![
                '%' as u8,
                digits[byte as int / 16] as u8,
                digits[byte as int % 16] as u8,
            ]
        }),
{
    reveal_strlit("0123456789ABCDEF");
}

/// A frame's ID is its time in hexadecimal, its process and its count.
pub proof fn law_frame_ids(nanos: nat, pid: nat, count: nat)
    ensures
        frame_id(nanos, pid, count) == hexadecimal(nanos) + seq!['-'] + (text::decimal(pid) + seq![
            '-',
        ] + text::decimal(count)),
        nanos < 16 ==> hexadecimal(nanos) == seq!["0123456789abcdef"@[nanos as int]],
        nanos > 0 && pid < 16 ==> hexadecimal(16 * nanos + pid) == hexadecimal(nanos).push(
            "0123456789abcdef"@[pid as int],
        ),
{
    reveal_strlit("0123456789abcdef");
    assert(frame_id(nanos, pid, count) =~= hexadecimal(nanos) + seq!['-'] + (text::decimal(pid)
        + seq!['-'] + text::decimal(count)));
    if pid < 16 {
        assert((16 * nanos + pid) / 16 == nanos && (16 * nanos + pid) % 16 == pid);
    }
}

} // verus!
