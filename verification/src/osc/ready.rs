//! The marker by which a remote helper announces that its command runs, and its
//! removal from what the pane shows.
use crate::bytes::{append_slice, starts_with, take_bytes};
use crate::execution::nonce::RemoteExecReadyNonce;
use crate::text::{self, chars_of, is_control};
use vstd::prelude::*;

verus! {

/// The longest payload that is taken; a longer one is skipped whole.
pub const REMOTE_EXEC_READY_PAYLOAD_MAX_BYTES: usize = 32768;

/// How a marker begins.
pub open spec fn marker_prefix() -> Seq<u8> {
    crate::bytes::utf8("\x1b]6973;herdr-remote-exec-ready=")
}

pub fn remote_exec_ready_osc_prefix() -> (prefix: &'static [u8])
    ensures
        prefix@ == marker_prefix(),
{
    "\x1b]6973;herdr-remote-exec-ready=".as_bytes()
}

pub proof fn lemma_marker_prefix()
    ensures
        marker_prefix().len() == 31,
        marker_prefix()[0] == 0x1b,
        forall|i: int| 0 < i < marker_prefix().len() ==> marker_prefix()[i] != 0x1b,
{
    reveal_strlit("\x1b]6973;herdr-remote-exec-ready=");
    vstd::utf8::is_ascii_chars_encode_utf8("\x1b]6973;herdr-remote-exec-ready="@);
}

#[derive(Debug, Clone, Copy, PartialEq, Eq, Structural)]
pub enum RemoteExecReadyFilterState {
    Ground,
    Prefix,
    Payload,
    PayloadEscape,
    Discarding,
    DiscardingEscape,
}

/// The filter's framing state: what is held back of a marker.
pub struct ReadyView {
    pub state: RemoteExecReadyFilterState,
    pub prefix: Seq<u8>,
    pub payload: Seq<u8>,
}

/// What observing bytes did: the next state, what is shown, and the payloads
/// that were completed.
pub struct Filtered {
    pub next: ReadyView,
    pub shown: Seq<u8>,
    pub payloads: Seq<Seq<u8>>,
}

impl ReadyView {
    pub open spec fn enter(state: RemoteExecReadyFilterState) -> ReadyView {
        ReadyView { state, prefix: Seq::empty(), payload: Seq::empty() }
    }

    pub open spec fn initial() -> ReadyView {
        ReadyView::enter(RemoteExecReadyFilterState::Ground)
    }

    /// Something is held back only in the state that it belongs to.
    pub open spec fn wf(self) -> bool {
        match self.state {
            RemoteExecReadyFilterState::Prefix => {
                &&& self.payload.len() == 0
                &&& 0 < self.prefix.len() < marker_prefix().len()
                &&& self.prefix.is_prefix_of(marker_prefix())
            },
            RemoteExecReadyFilterState::Payload | RemoteExecReadyFilterState::PayloadEscape => {
                &&& self.prefix.len() == 0
                &&& self.payload.len() <= REMOTE_EXEC_READY_PAYLOAD_MAX_BYTES
            },
            _ => self.prefix.len() == 0 && self.payload.len() == 0,
        }
    }

    /// A byte outside any marker.
    pub open spec fn ground(byte: u8) -> Filtered {
        if byte == 0x1b {
            Filtered {
                next: ReadyView {
                    state: RemoteExecReadyFilterState::Prefix,
                    prefix: seq![byte],
                    payload: Seq::empty(),
                },
                shown: Seq::empty(),
                payloads: Seq::empty(),
            }
        } else {
            Filtered { next: ReadyView::initial(), shown: seq![byte], payloads: Seq::empty() }
        }
    }

    pub open spec fn silently(next: ReadyView) -> Filtered {
        Filtered { next, shown: Seq::empty(), payloads: Seq::empty() }
    }

    pub open spec fn finish(self) -> Filtered {
        Filtered {
            next: ReadyView::initial(),
            shown: Seq::empty(),
            payloads: seq![self.payload],
        }
    }

    /// One byte.
    pub open spec fn step(self, byte: u8) -> Filtered {
        match self.state {
            RemoteExecReadyFilterState::Ground => ReadyView::ground(byte),
            RemoteExecReadyFilterState::Prefix => if byte == marker_prefix()[self.prefix.len()
                as int] {
                if self.prefix.len() + 1 == marker_prefix().len() {
                    ReadyView::silently(ReadyView::enter(RemoteExecReadyFilterState::Payload))
                } else {
                    ReadyView::silently(ReadyView { prefix: self.prefix.push(byte), ..self })
                }
            } else {
                let after = ReadyView::ground(byte);
                Filtered { shown: self.prefix + after.shown, ..after }
            },
            RemoteExecReadyFilterState::Payload => if byte == 0x07 {
                self.finish()
            } else if byte == 0x1b {
                ReadyView::silently(
                    ReadyView { state: RemoteExecReadyFilterState::PayloadEscape, ..self },
                )
            } else if self.payload.len() < REMOTE_EXEC_READY_PAYLOAD_MAX_BYTES {
                ReadyView::silently(ReadyView { payload: self.payload.push(byte), ..self })
            } else {
                ReadyView::silently(ReadyView::enter(RemoteExecReadyFilterState::Discarding))
            },
            RemoteExecReadyFilterState::PayloadEscape => if byte == '\\' as u8 {
                self.finish()
            } else if byte == 0x07 {
                ReadyView::silently(ReadyView::initial())
            } else if byte == 0x1b {
                ReadyView::silently(ReadyView::enter(RemoteExecReadyFilterState::DiscardingEscape))
            } else {
                ReadyView::silently(ReadyView::enter(RemoteExecReadyFilterState::Discarding))
            },
            RemoteExecReadyFilterState::Discarding => if byte == 0x07 {
                ReadyView::silently(ReadyView::initial())
            } else if byte == 0x1b {
                ReadyView::silently(ReadyView::enter(RemoteExecReadyFilterState::DiscardingEscape))
            } else {
                ReadyView::silently(self)
            },
            RemoteExecReadyFilterState::DiscardingEscape => if byte == '\\' as u8 {
                ReadyView::silently(ReadyView::initial())
            } else if byte == 0x1b {
                ReadyView::silently(self)
            } else {
                ReadyView::silently(ReadyView::enter(RemoteExecReadyFilterState::Discarding))
            },
        }
    }

    /// A chunk of bytes.
    pub open spec fn run(self, bytes: Seq<u8>) -> Filtered
        decreases bytes.len(),
    {
        if bytes.len() == 0 {
            ReadyView::silently(self)
        } else {
            let earlier = self.run(bytes.drop_last());
            let last = earlier.next.step(bytes.last());
            Filtered {
                next: last.next,
                shown: earlier.shown + last.shown,
                payloads: earlier.payloads + last.payloads,
            }
        }
    }

    /// A state that was handed over from another process: kept where it is
    /// consistent.
    pub open spec fn handed_over(self) -> Option<ReadyView> {
        if self.state is Ground {
            Some(ReadyView::initial())
        } else if self.wf() {
            Some(self)
        } else {
            None
        }
    }
}

/// A payload as it was decoded.
#[derive(Debug, Clone, PartialEq, Eq)]
pub struct RemoteExecReadyPayload {
    pub nonce: String,
    pub hostname: Option<String>,
    pub cwd: Option<String>,
}

/// What a remote helper announced: the host and directory that it runs on and in.
#[derive(Debug, Clone, PartialEq, Eq)]
pub struct RemoteExecReady {
    pub hostname: Option<String>,
    pub cwd: Option<String>,
}

/// The content of an announcement.
pub struct AnnouncementView {
    pub hostname: Option<Seq<char>>,
    pub cwd: Option<Seq<char>>,
}

impl View for RemoteExecReady {
    type V = AnnouncementView;

    open spec fn view(&self) -> AnnouncementView {
        AnnouncementView {
            hostname: text::opt_text(self.hostname),
            cwd: text::opt_text(self.cwd),
        }
    }
}

/// A host name that may be shown: not empty and free of control characters.
pub open spec fn usable_hostname(hostname: Seq<char>) -> bool {
    hostname.len() > 0 && forall|i: int|
        0 <= i < hostname.len() ==> !text::control(#[trigger] hostname[i])
}

/// What a payload announces. An unusable host name and a relative directory
/// are left out.
pub open spec fn announced(payload: RemoteExecReadyPayload) -> AnnouncementView {
    AnnouncementView {
        hostname: match payload.hostname {
            Some(hostname) => if usable_hostname(hostname@) {
                Some(hostname@)
            } else {
                None
            },
            None => None,
        },
        cwd: match payload.cwd {
            Some(cwd) => if cwd@.len() > 0 && cwd@[0] == '/' {
                Some(cwd@)
            } else {
                None
            },
            None => None,
        },
    }
}

/// Whether a decoded payload carries the nonce that is waited for.
pub open spec fn carries_nonce(
    decoded: Option<RemoteExecReadyPayload>,
    expected: Option<Seq<char>>,
) -> bool {
    decoded matches Some(payload) && expected matches Some(nonce) && payload.nonce@ == nonce
}

/// The announcement of the first payload from `from` on that carries the nonce.
pub open spec fn first_announcement(
    decoded: Seq<Option<RemoteExecReadyPayload>>,
    expected: Option<Seq<char>>,
    from: int,
) -> Option<AnnouncementView>
    decreases decoded.len() - from,
{
    if from >= decoded.len() {
        None
    } else if carries_nonce(decoded[from], expected) {
        Some(announced(decoded[from]->0))
    } else {
        first_announcement(decoded, expected, from + 1)
    }
}

/// What a chunk leaves to show, and the marker payloads that it completed.
#[derive(Debug)]
pub struct FilteredPtyBytes {
    pub bytes: Vec<u8>,
    pub payloads: Vec<Vec<u8>>,
}

/// Takes ready markers out of terminal output.
#[derive(Clone)]
pub struct RemoteExecReadyFilter {
    pub state: RemoteExecReadyFilterState,
    pub prefix: Vec<u8>,
    pub payload: Vec<u8>,
    pub expected_nonce: Option<RemoteExecReadyNonce>,
}

/// The content of a filter: how far the output is read, and the nonce that is expected.
pub struct ReadyFilterView {
    pub parsed: ReadyView,
    pub expected_nonce: Option<Seq<char>>,
}

impl View for RemoteExecReadyFilter {
    type V = ReadyFilterView;

    open spec fn view(&self) -> ReadyFilterView {
        ReadyFilterView {
            parsed: ReadyView {
                state: self.state,
                prefix: self.prefix@,
                payload: self.payload@,
            },
            expected_nonce: nonce_view(self.expected_nonce),
        }
    }
}

pub open spec fn nonce_view(nonce: Option<RemoteExecReadyNonce>) -> Option<Seq<char>> {
    match nonce {
        Some(nonce) => Some(nonce@),
        None => None,
    }
}

impl Default for RemoteExecReadyFilter {
    fn default() -> (filter: Self)
        ensures
            filter@.parsed == ReadyView::initial(),
            filter@.parsed.wf(),
            filter.expected_nonce is None,
    {
        let filter = RemoteExecReadyFilter {
            state: RemoteExecReadyFilterState::Ground,
            prefix: Vec::new(),
            payload: Vec::new(),
            expected_nonce: None,
        };
        assert(filter@.parsed.prefix =~= Seq::empty());
        assert(filter@.parsed.payload =~= Seq::empty());
        filter
    }
}

impl RemoteExecReadyFilter {
    /// The nonce without which no announcement is believed.
    pub fn set_expected_nonce(&mut self, expected_nonce: Option<RemoteExecReadyNonce>)
        ensures
            final(self)@.parsed == old(self)@.parsed,
            final(self).expected_nonce == expected_nonce,
    {
        self.expected_nonce = expected_nonce;
    }

    /// The filter that a handed-over state continues as: an inconsistent state
    /// starts over and believes nothing.
    pub fn validated_handoff_state(self) -> (filter: Self)
        ensures
            filter@.parsed.wf(),
            match self@.parsed.handed_over() {
                Some(view) => filter@.parsed == view && filter.expected_nonce == self.expected_nonce,
                None => filter@.parsed == ReadyView::initial() && filter.expected_nonce is None,
            },
    {
        let mut filter = self;
        let valid = match filter.state {
            RemoteExecReadyFilterState::Ground => {
                filter.prefix.clear();
                filter.payload.clear();
                assert(filter@.parsed.prefix =~= Seq::empty());
                assert(filter@.parsed.payload =~= Seq::empty());
                true
            },
            RemoteExecReadyFilterState::Prefix => {
                let marker = remote_exec_ready_osc_prefix();
                filter.payload.len() == 0 && filter.prefix.len() > 0 && filter.prefix.len()
                    < marker.len() && starts_with(marker, filter.prefix.as_slice())
            },
            RemoteExecReadyFilterState::Payload | RemoteExecReadyFilterState::PayloadEscape => {
                filter.prefix.len() == 0 && filter.payload.len()
                    <= REMOTE_EXEC_READY_PAYLOAD_MAX_BYTES
            },
            RemoteExecReadyFilterState::Discarding | RemoteExecReadyFilterState::DiscardingEscape
            => { filter.prefix.len() == 0 && filter.payload.len() == 0 },
        };
        if valid {
            filter
        } else {
            RemoteExecReadyFilter::default()
        }
    }

    /// Takes markers out of a chunk.
    pub fn filter(&mut self, bytes: &[u8]) -> (filtered: FilteredPtyBytes)
        requires
            old(self)@.parsed.wf(),
        ensures
            final(self)@.parsed == old(self)@.parsed.run(bytes@).next,
            final(self)@.parsed.wf(),
            final(self).expected_nonce == old(self).expected_nonce,
            filtered.bytes@ == old(self)@.parsed.run(bytes@).shown,
            crate::bytes::views(filtered.payloads@) == old(self)@.parsed.run(bytes@).payloads,
    {
        let ghost start = self@.parsed;
        let mut output: Vec<u8> = Vec::new();
        let mut payloads: Vec<Vec<u8>> = Vec::new();
        let mut i: usize = 0;
        assert(bytes@.take(0) =~= Seq::empty());
        assert(crate::bytes::views(payloads@) =~= Seq::empty());
        while i < bytes.len()
            invariant
                i <= bytes.len(),
                self@.parsed.wf(),
                self.expected_nonce == old(self).expected_nonce,
                self@.parsed == start.run(bytes@.take(i as int)).next,
                output@ == start.run(bytes@.take(i as int)).shown,
                crate::bytes::views(payloads@) == start.run(bytes@.take(i as int)).payloads,
            decreases bytes.len() - i,
        {
            let ghost earlier = crate::bytes::views(payloads@);
            assert(bytes@.take(i as int + 1).drop_last() =~= bytes@.take(i as int));
            let completed = self.filter_byte(bytes[i], &mut output);
            if let Some(payload) = completed {
                let ghost content = payload@;
                payloads.push(payload);
                assert(crate::bytes::views(payloads@) =~= earlier + seq![content]);
            } else {
                assert(earlier =~= earlier + Seq::empty());
            }
            i += 1;
        }
        assert(bytes@.take(i as int) =~= bytes@);
        FilteredPtyBytes { bytes: output, payloads }
    }

    fn filter_byte(&mut self, byte: u8, output: &mut Vec<u8>) -> (payload: Option<Vec<u8>>)
        requires
            old(self)@.parsed.wf(),
        ensures
            final(self)@.parsed == old(self)@.parsed.step(byte).next,
            final(self)@.parsed.wf(),
            final(self).expected_nonce == old(self).expected_nonce,
            final(output)@ == old(output)@ + old(self)@.parsed.step(byte).shown,
            match payload {
                Some(payload) => old(self)@.parsed.step(byte).payloads == seq![payload@],
                None => old(self)@.parsed.step(byte).payloads == Seq::<Seq<u8>>::empty(),
            },
    {
        proof {
            lemma_marker_prefix();
        }
        let ghost start = self@.parsed;
        let ghost written = output@;
        assert(written + Seq::<u8>::empty() =~= written);
        match self.state {
            RemoteExecReadyFilterState::Ground => {
                self.ground(byte, output);
            },
            RemoteExecReadyFilterState::Prefix => {
                let marker = remote_exec_ready_osc_prefix();
                if byte == marker[self.prefix.len()] {
                    if self.prefix.len() + 1 == marker.len() {
                        self.prefix.clear();
                        self.payload.clear();
                        self.state = RemoteExecReadyFilterState::Payload;
                        assert(self@.parsed.prefix =~= Seq::empty());
                        assert(self@.parsed.payload =~= Seq::empty());
                    } else {
                        self.prefix.push(byte);
                        assert(self@.parsed.prefix =~= marker_prefix().subrange(
                            0,
                            start.prefix.len() as int + 1,
                        ));
                    }
                } else {
                    append_slice(output, self.prefix.as_slice());
                    self.prefix.clear();
                    self.state = RemoteExecReadyFilterState::Ground;
                    let ghost held = output@;
                    self.ground(byte, output);
                    assert(held + ReadyView::ground(byte).shown =~= written + (start.prefix
                        + ReadyView::ground(byte).shown));
                }
            },
            RemoteExecReadyFilterState::Payload => {
                if byte == 0x07 {
                    return Some(self.finish());
                } else if byte == 0x1b {
                    self.state = RemoteExecReadyFilterState::PayloadEscape;
                } else if self.payload.len() < REMOTE_EXEC_READY_PAYLOAD_MAX_BYTES {
                    self.payload.push(byte);
                } else {
                    self.discard(RemoteExecReadyFilterState::Discarding);
                }
            },
            RemoteExecReadyFilterState::PayloadEscape => {
                if byte == '\\' as u8 {
                    return Some(self.finish());
                } else if byte == 0x07 {
                    self.discard(RemoteExecReadyFilterState::Ground);
                } else if byte == 0x1b {
                    self.discard(RemoteExecReadyFilterState::DiscardingEscape);
                } else {
                    self.discard(RemoteExecReadyFilterState::Discarding);
                }
            },
            RemoteExecReadyFilterState::Discarding => {
                if byte == 0x07 {
                    self.discard(RemoteExecReadyFilterState::Ground);
                } else if byte == 0x1b {
                    self.discard(RemoteExecReadyFilterState::DiscardingEscape);
                }
            },
            RemoteExecReadyFilterState::DiscardingEscape => {
                if byte == '\\' as u8 {
                    self.discard(RemoteExecReadyFilterState::Ground);
                } else if byte != 0x1b {
                    self.discard(RemoteExecReadyFilterState::Discarding);
                }
            },
        }
        None
    }

    fn ground(&mut self, byte: u8, output: &mut Vec<u8>)
        requires
            old(self).prefix@.len() == 0,
            old(self).payload@.len() == 0,
            old(self).state is Ground,
        ensures
            final(self)@.parsed == ReadyView::ground(byte).next,
            final(self)@.parsed.wf(),
            final(self).expected_nonce == old(self).expected_nonce,
            final(output)@ == old(output)@ + ReadyView::ground(byte).shown,
    {
        proof {
            lemma_marker_prefix();
        }
        if byte == 0x1b {
            self.prefix.push(byte);
            self.state = RemoteExecReadyFilterState::Prefix;
            assert(self@.parsed.prefix =~= seq![byte]);
            assert(self@.parsed.prefix =~= marker_prefix().subrange(0, 1));
            assert(output@ =~= old(output)@ + Seq::<u8>::empty());
        } else {
            output.push(byte);
            assert(output@ =~= old(output)@ + seq![byte]);
            assert(self@.parsed.prefix =~= Seq::empty());
        }
        assert(self@.parsed.payload =~= Seq::empty());
    }

    fn discard(&mut self, state: RemoteExecReadyFilterState)
        requires
            old(self).prefix@.len() == 0,
        ensures
            final(self)@.parsed == ReadyView::enter(state),
            final(self).expected_nonce == old(self).expected_nonce,
    {
        self.payload.clear();
        self.state = state;
        assert(self@.parsed.prefix =~= Seq::empty());
        assert(self@.parsed.payload =~= Seq::empty());
    }

    fn finish(&mut self) -> (payload: Vec<u8>)
        requires
            old(self).prefix@.len() == 0,
        ensures
            final(self)@.parsed == ReadyView::initial(),
            final(self).expected_nonce == old(self).expected_nonce,
            payload@ == old(self).payload@,
    {
        let payload = take_bytes(&mut self.payload);
        self.state = RemoteExecReadyFilterState::Ground;
        assert(self@.parsed.prefix =~= Seq::empty());
        payload
    }

    /// Takes the first of a chunk's payloads that carries the expected nonce.
    /// `decoded` holds what each completed payload decoded to, in order. A
    /// nonce is believed once.
    pub fn accept(&mut self, decoded: &[Option<RemoteExecReadyPayload>]) -> (ready: Option<
        RemoteExecReady,
    >)
        ensures
            final(self)@.parsed == old(self)@.parsed,
            match ready {
                Some(ready) => first_announcement(
                    decoded@,
                    nonce_view(old(self).expected_nonce),
                    0,
                ) == Some(ready@) && final(self).expected_nonce is None,
                None => first_announcement(decoded@, nonce_view(old(self).expected_nonce), 0)
                    is None && final(self).expected_nonce == old(self).expected_nonce,
            },
    {
        let mut i: usize = 0;
        while i < decoded.len()
            invariant
                i <= decoded.len(),
                *self == *old(self),
                first_announcement(decoded@, nonce_view(self.expected_nonce), 0)
                    == first_announcement(decoded@, nonce_view(self.expected_nonce), i as int),
            decreases decoded.len() - i,
        {
            let matched = match (&decoded[i], &self.expected_nonce) {
                (Some(payload), Some(nonce)) => nonce.matches(payload.nonce.as_str()),
                _ => false,
            };
            if matched {
                if let Some(payload) = &decoded[i] {
                    let ready = announcement(payload);
                    self.expected_nonce = None;
                    return Some(ready);
                }
            }
            i += 1;
        }
        None
    }
}

fn is_usable_hostname(hostname: &str) -> (usable: bool)
    ensures
        usable == usable_hostname(hostname@),
{
    let chars = chars_of(hostname);
    if chars.len() == 0 {
        return false;
    }
    let mut i: usize = 0;
    while i < chars.len()
        invariant
            i <= chars.len(),
            chars@ == hostname@,
            forall|j: int| 0 <= j < i ==> !text::control(#[trigger] hostname@[j]),
        decreases chars.len() - i,
    {
        if is_control(chars[i]) {
            assert(text::control(hostname@[i as int]));
            return false;
        }
        i += 1;
    }
    true
}

fn announcement(payload: &RemoteExecReadyPayload) -> (ready: RemoteExecReady)
    ensures
        ready@ == announced(*payload),
{
    let hostname: Option<String> = match &payload.hostname {
        Some(hostname) => if is_usable_hostname(hostname.as_str()) {
            Some(hostname.clone())
        } else {
            None
        },
        None => None,
    };
    let cwd: Option<String> = match &payload.cwd {
        Some(cwd) => {
            let chars = chars_of(cwd.as_str());
            if chars.len() > 0 && chars[0] == '/' {
                Some(cwd.clone())
            } else {
                None
            }
        },
        None => None,
    };
    RemoteExecReady { hostname, cwd }
}

/// How output is cut into chunks does not matter: filtering `first` and then
/// `second` shows the same and completes the same payloads as filtering both
/// at once.
pub proof fn law_chunking(start: ReadyView, first: Seq<u8>, second: Seq<u8>)
    ensures
        ({
            let one = start.run(first);
            let two = one.next.run(second);
            start.run(first + second) == (Filtered {
                next: two.next,
                shown: one.shown + two.shown,
                payloads: one.payloads + two.payloads,
            })
        }),
    decreases second.len(),
{
    let one = start.run(first);
    if second.len() == 0 {
        assert(first + second =~= first);
        assert(one.shown + Seq::<u8>::empty() =~= one.shown);
        assert(one.payloads + Seq::<Seq<u8>>::empty() =~= one.payloads);
    } else {
        law_chunking(start, first, second.drop_last());
        assert((first + second).drop_last() =~= first + second.drop_last());
        let before = one.next.run(second.drop_last());
        let last = before.next.step(second.last());
        assert((one.shown + before.shown) + last.shown =~= one.shown + (before.shown
            + last.shown));
        assert((one.payloads + before.payloads) + last.payloads =~= one.payloads + (
        before.payloads + last.payloads));
    }
}

/// Output in which no marker begins is never lost, altered or reordered: what
/// was held back before, followed by the chunk, is what is shown followed by
/// what is held back now.
pub proof fn law_other_output_not_lost(start: ReadyView, bytes: Seq<u8>)
    requires
        start.wf(),
        start.state is Ground || start.state is Prefix,
        !crate::bytes::occurs_in(marker_prefix(), start.prefix + bytes),
    ensures
        ({
            let end = start.run(bytes);
            &&& end.next.wf()
            &&& end.next.state is Ground || end.next.state is Prefix
            &&& end.shown + end.next.prefix == start.prefix + bytes
            &&& end.payloads.len() == 0
        }),
    decreases bytes.len(),
{
    lemma_marker_prefix();
    if bytes.len() == 0 {
        assert(start.prefix + bytes =~= Seq::empty() + start.prefix);
    } else {
        let all = start.prefix + bytes;
        let shorter = start.prefix + bytes.drop_last();
        assert(shorter =~= all.drop_last());
        if crate::bytes::occurs_in(marker_prefix(), shorter) {
            let i = choose|i: int| #[trigger] crate::bytes::occurs_at(marker_prefix(), shorter, i);
            assert(all.subrange(i, i + 31) =~= shorter.subrange(i, i + 31));
            assert(crate::bytes::occurs_at(marker_prefix(), all, i));
        }
        law_other_output_not_lost(start, bytes.drop_last());
        let before = start.run(bytes.drop_last());
        let byte = bytes.last();
        let last = before.next.step(byte);
        assert(all =~= shorter.push(byte));
        assert(before.shown + before.next.prefix.push(byte) =~= (before.shown
            + before.next.prefix).push(byte));
        if before.next.state is Prefix && byte == marker_prefix()[before.next.prefix.len()
            as int] {
            let held = before.next.prefix.push(byte);
            assert(held =~= marker_prefix().subrange(0, held.len() as int));
            if held.len() == marker_prefix().len() {
                let at = before.shown.len() as int;
                assert(marker_prefix() =~= held);
                assert(all.subrange(at, at + 31) =~= held);
                assert(crate::bytes::occurs_at(marker_prefix(), all, at));
            }
        } else if before.next.state is Prefix {
            assert((before.shown + last.shown) + last.next.prefix =~= all);
            if byte == 0x1b {
                assert(last.next.prefix =~= marker_prefix().subrange(0, 1));
            }
        } else {
            assert((before.shown + last.shown) + last.next.prefix =~= all);
            if byte == 0x1b {
                assert(last.next.prefix =~= marker_prefix().subrange(0, 1));
            }
        }
        assert(start.run(bytes).shown + start.run(bytes).next.prefix =~= all);
    }
}

proof fn lemma_prefix_enters_payload(n: int)
    requires
        1 <= n <= marker_prefix().len(),
    ensures
        ({
            let end = ReadyView::initial().run(marker_prefix().take(n));
            &&& end.shown =~= Seq::empty()
            &&& end.payloads =~= Seq::empty()
            &&& end.next == (if n == marker_prefix().len() {
                ReadyView::enter(RemoteExecReadyFilterState::Payload)
            } else {
                ReadyView {
                    state: RemoteExecReadyFilterState::Prefix,
                    prefix: marker_prefix().take(n),
                    payload: Seq::empty(),
                }
            })
        }),
    decreases n,
{
    lemma_marker_prefix();
    let taken = marker_prefix().take(n);
    assert(taken.drop_last() =~= marker_prefix().take(n - 1));
    if n == 1 {
        assert(taken.drop_last() =~= Seq::empty());
        assert(taken =~= seq![0x1bu8]);
    } else {
        lemma_prefix_enters_payload(n - 1);
        assert(marker_prefix().take(n - 1).push(marker_prefix()[n - 1]) =~= taken);
    }
}

proof fn lemma_payload_collected(payload: Seq<u8>, n: int)
    requires
        payload.len() <= REMOTE_EXEC_READY_PAYLOAD_MAX_BYTES,
        forall|i: int| 0 <= i < payload.len() ==> payload[i] != 0x07 && payload[i] != 0x1b,
        0 <= n <= payload.len(),
    ensures
        ({
            let end = ReadyView::enter(RemoteExecReadyFilterState::Payload).run(payload.take(n));
            &&& end.shown =~= Seq::empty()
            &&& end.payloads =~= Seq::empty()
            &&& end.next == (ReadyView {
                state: RemoteExecReadyFilterState::Payload,
                prefix: Seq::empty(),
                payload: payload.take(n),
            })
        }),
    decreases n,
{
    if n == 0 {
        assert(payload.take(0) =~= Seq::empty());
    } else {
        lemma_payload_collected(payload, n - 1);
        assert(payload.take(n).drop_last() =~= payload.take(n - 1));
        assert(payload.take(n - 1).push(payload[n - 1]) =~= payload.take(n));
    }
}

/// A whole marker with a payload of at most the bounded length is taken out,
/// and exactly its payload is handed over.
pub proof fn law_marker_taken_out(payload: Seq<u8>)
    requires
        payload.len() <= REMOTE_EXEC_READY_PAYLOAD_MAX_BYTES,
        forall|i: int| 0 <= i < payload.len() ==> payload[i] != 0x07 && payload[i] != 0x1b,
    ensures
        ReadyView::initial().run(marker_prefix() + payload + seq![0x1bu8, '\\' as u8]) == (
        Filtered {
            next: ReadyView::initial(),
            shown: Seq::empty(),
            payloads: seq![payload],
        }),
{
    lemma_marker_prefix();
    let start = ReadyView::initial();
    let open = ReadyView::enter(RemoteExecReadyFilterState::Payload);
    lemma_prefix_enters_payload(31);
    assert(marker_prefix().take(31) =~= marker_prefix());
    lemma_payload_collected(payload, payload.len() as int);
    assert(payload.take(payload.len() as int) =~= payload);
    law_chunking(start, marker_prefix(), payload);
    let head = marker_prefix() + payload;
    let end = seq![0x1bu8, '\\' as u8];
    let collected = start.run(head).next;
    assert(collected.run(end) == (Filtered {
        next: start,
        shown: Seq::empty(),
        payloads: seq![payload],
    })) by {
        reveal_with_fuel(ReadyView::run, 3);
        assert(end.drop_last() =~= seq![0x1bu8]);
        assert(end.drop_last().drop_last() =~= Seq::empty());
        let finished = collected.run(end);
        assert(finished.shown =~= Seq::empty());
        assert(finished.payloads =~= seq![payload]);
    }
    law_chunking(start, head, end);
    let whole = start.run(head + end);
    assert(whole.shown =~= Seq::empty());
    assert(whole.payloads =~= seq![payload]);
}

/// A nonce is believed at most once: after an announcement was taken, no
/// payload is believed until another nonce is set.
pub proof fn law_nonce_believed_once(decoded: Seq<Option<RemoteExecReadyPayload>>, from: int)
    requires
        0 <= from,
    ensures
        first_announcement(decoded, None, from) is None,
    decreases decoded.len() - from,
{
    if from < decoded.len() {
        law_nonce_believed_once(decoded, from + 1);
    }
}

/// An announcement tells the host and the directory of its payload, each as it is; a host
/// name that could not be shown and a directory that is not absolute are left out.
pub proof fn law_announcements_tell_their_payload(payload: RemoteExecReadyPayload)
    ensures
        payload.hostname is Some && payload.hostname->0@.len() > 0 && (forall|i: int|
            0 <= i < payload.hostname->0@.len() ==> !text::control(
                #[trigger] payload.hostname->0@[i],
            )) ==> announced(payload).hostname == Some(payload.hostname->0@),
        announced(payload).hostname matches Some(hostname) ==> payload.hostname is Some
            && payload.hostname->0@ == hostname && hostname.len() > 0,
        payload.cwd is Some && payload.cwd->0@.len() > 0 && payload.cwd->0@[0] == '/'
            ==> announced(payload).cwd == Some(payload.cwd->0@),
        announced(payload).cwd matches Some(cwd) ==> payload.cwd is Some && payload.cwd->0@ == cwd
            && cwd.len() > 0 && cwd[0] == '/',
        payload.hostname is None ==> announced(payload).hostname is None,
        payload.cwd is None ==> announced(payload).cwd is None,
{
}

/// The first payload that carries the awaited nonce is believed, whatever came before it; one
/// with another nonce never is.
pub proof fn law_awaited_nonce_is_believed(
    decoded: Seq<Option<RemoteExecReadyPayload>>,
    nonce: Seq<char>,
    from: int,
    at: int,
)
    requires
        0 <= from <= at < decoded.len(),
        decoded[at] is Some && decoded[at]->0.nonce@ == nonce,
        forall|i: int|
            from <= i < at ==> ((#[trigger] decoded[i]) is None || decoded[i]->0.nonce@ != nonce),
    ensures
        first_announcement(decoded, Some(nonce), from) == Some(announced(decoded[at]->0)),
    decreases at - from,
{
    if from < at {
        assert(decoded[from] is None || decoded[from]->0.nonce@ != nonce);
        law_awaited_nonce_is_believed(decoded, nonce, from + 1, at);
    }
}

/// Without the awaited nonce nothing is believed.
pub proof fn law_other_nonces_are_not_believed(
    decoded: Seq<Option<RemoteExecReadyPayload>>,
    nonce: Seq<char>,
    from: int,
)
    requires
        0 <= from,
        forall|i: int|
            from <= i < decoded.len() ==> ((#[trigger] decoded[i]) is None
                || decoded[i]->0.nonce@ != nonce),
    ensures
        first_announcement(decoded, Some(nonce), from) is None,
    decreases decoded.len() - from,
{
    if from < decoded.len() {
        assert(decoded[from] is None || decoded[from]->0.nonce@ != nonce);
        law_other_nonces_are_not_believed(decoded, nonce, from + 1);
    }
}

/// A state that was handed over goes on as it was where it can be one of a filter, and is
/// given up otherwise.
pub proof fn law_sound_states_are_handed_over(state: ReadyView)
    ensures
        state.wf() ==> state.handed_over() is Some,
        state.wf() && !(state.state is Ground) ==> state.handed_over() == Some(state),
        state.state is Ground ==> state.handed_over() == Some(ReadyView::initial()),
        !state.wf() && !(state.state is Ground) ==> state.handed_over() is None,
        ReadyView::initial().prefix.len() == 0 && ReadyView::initial().payload.len() == 0
            && ReadyView::initial().state is Ground,
{
}

} // verus!
