//! The thread that reads the host terminal: what it does next, and under which state
//! each byte is framed.
//!
//! A filter may hold bytes back that could be the reply to a graphics command. They keep
//! the state under which they were read.
use crate::input::framing::{self, HostInputContext, InputEvent, InputEventView};
use vstd::prelude::*;

verus! {

/// What the framer is told before the first byte.
#[derive(Debug, Clone, Copy, PartialEq, Eq, Structural)]
pub enum FramerSetup {
    HostColorQuerySent,
    TrackColorSchemeChanges,
    QueryAppearanceOnFocus,
    HostCellSizeQuerySent,
}

/// What the framer is told, given the questions that the client sent to the terminal.
pub open spec fn setup_for(color_query: bool, cell_size_query: bool) -> Seq<FramerSetup> {
    (if color_query {
        seq![
            FramerSetup::HostColorQuerySent,
            FramerSetup::TrackColorSchemeChanges,
            FramerSetup::QueryAppearanceOnFocus,
        ]
    } else {
        Seq::empty()
    }) + (if cell_size_query {
        seq![FramerSetup::HostCellSizeQuerySent]
    } else {
        Seq::empty()
    })
}

/// How input goes past the graphics filter.
#[derive(Debug, Clone, Copy, PartialEq, Eq, Structural)]
pub enum FilterRoute {
    /// No reply is expected and nothing is held back.
    Bypass,
    /// Through the filter.
    Filter,
    /// The matcher of replies is lost: as one chunk, unfiltered.
    PassThrough,
}

/// How input goes past the graphics filter.
pub fn filter_direct_input(active: bool, filter_pending: bool, matcher_available: bool) -> (route:
    FilterRoute)
    ensures
        route == (if !active && !filter_pending {
            FilterRoute::Bypass
        } else if matcher_available {
            FilterRoute::Filter
        } else {
            FilterRoute::PassThrough
        }),
{
    if !active && !filter_pending {
        FilterRoute::Bypass
    } else if matcher_available {
        FilterRoute::Filter
    } else {
        FilterRoute::PassThrough
    }
}

/// A chunk that the filter let through. Its first `pending_bytes` were held back before.
#[derive(Debug, Clone, Copy, PartialEq, Eq, Structural)]
pub struct FilteredInput {
    pub len: usize,
    pub pending_bytes: usize,
}

/// A part of a chunk, and the state to frame it under.
#[derive(Debug, Clone, Copy, PartialEq, Eq)]
pub struct FramePiece {
    pub chunk: usize,
    pub start: usize,
    pub end: usize,
    pub context: HostInputContext,
}

/// The parts of one chunk.
pub open spec fn pieces_of(
    chunk: int,
    input: FilteredInput,
    held: HostInputContext,
    current: HostInputContext,
) -> Seq<FramePiece> {
    (if input.pending_bytes > 0 {
        seq![
            FramePiece {
                chunk: chunk as usize,
                start: 0,
                end: input.pending_bytes,
                context: held,
            },
        ]
    } else {
        Seq::empty()
    }) + (if input.pending_bytes < input.len {
        seq![
            FramePiece {
                chunk: chunk as usize,
                start: input.pending_bytes,
                end: input.len,
                context: current,
            },
        ]
    } else {
        Seq::empty()
    })
}

/// The parts of all chunks, in order.
pub open spec fn pieces(
    chunks: Seq<FilteredInput>,
    held: HostInputContext,
    current: HostInputContext,
) -> Seq<FramePiece>
    decreases chunks.len(),
{
    if chunks.len() == 0 {
        Seq::empty()
    } else {
        pieces(chunks.drop_last(), held, current) + pieces_of(
            chunks.len() - 1,
            chunks.last(),
            held,
            current,
        )
    }
}

/// An event of the reader for the client loop.
#[derive(Debug, Clone, PartialEq, Eq)]
pub enum ReadEvent {
    /// The terminal's reply to a graphics command.
    DirectGraphicsResponse(Vec<u8>),
    Input(InputEvent),
}

/// The content of an event.
pub enum ReadEventView {
    DirectGraphicsResponse(Seq<u8>),
    Input(InputEventView),
}

impl View for ReadEvent {
    type V = ReadEventView;

    open spec fn view(&self) -> ReadEventView {
        match self {
            ReadEvent::DirectGraphicsResponse(reply) => ReadEventView::DirectGraphicsResponse(
                reply@,
            ),
            ReadEvent::Input(event) => ReadEventView::Input(event@),
        }
    }
}

pub open spec fn read_views(events: Seq<ReadEvent>) -> Seq<ReadEventView> {
    Seq::new(events.len(), |i: int| events[i]@)
}

/// The events of replies.
pub open spec fn reply_events(replies: Seq<Vec<u8>>) -> Seq<ReadEventView> {
    Seq::new(replies.len(), |i: int| ReadEventView::DirectGraphicsResponse(replies[i]@))
}

/// The events of framed input.
pub open spec fn input_events(framed: Seq<InputEvent>) -> Seq<ReadEventView> {
    Seq::new(framed.len(), |i: int| ReadEventView::Input(framed[i]@))
}

/// What one read gives the client loop: the replies to graphics commands, then the framed
/// input; nothing where there is neither.
pub fn read_events(replies: Vec<Vec<u8>>, framed: Vec<InputEvent>) -> (events: Option<
    Vec<ReadEvent>,
>)
    ensures
        events is None == (replies@.len() == 0 && framed@.len() == 0),
        events matches Some(events) ==> read_views(events@) == reply_events(replies@)
            + input_events(framed@),
{
    if replies.len() == 0 && framed.len() == 0 {
        return None;
    }
    let ghost all = reply_events(replies@) + input_events(framed@);
    let ghost all_replies = replies@;
    let ghost all_framed = framed@;
    let mut replies = replies;
    let mut framed = framed;
    // The events, the last one first.
    let mut backwards: Vec<ReadEvent> = Vec::new();
    while framed.len() > 0
        invariant
            framed@.len() <= all_framed.len(),
            framed@ == all_framed.take(framed@.len() as int),
            backwards@.len() == all_framed.len() - framed@.len(),
            forall|i: int|
                0 <= i < backwards@.len() ==> (#[trigger] backwards@[i])@ == ReadEventView::Input(
                    all_framed[all_framed.len() - 1 - i]@,
                ),
        decreases framed.len(),
    {
        if let Some(event) = framed.pop() {
            backwards.push(ReadEvent::Input(event));
        }
    }
    while replies.len() > 0
        invariant
            replies@.len() <= all_replies.len(),
            replies@ == all_replies.take(replies@.len() as int),
            all == reply_events(all_replies) + input_events(all_framed),
            backwards@.len() == all.len() - replies@.len(),
            forall|i: int|
                0 <= i < backwards@.len() ==> (#[trigger] backwards@[i])@ == all[all.len() - 1 - i],
        decreases replies.len(),
    {
        if let Some(reply) = replies.pop() {
            backwards.push(ReadEvent::DirectGraphicsResponse(reply));
        }
    }
    let mut events: Vec<ReadEvent> = Vec::new();
    let ghost reversed = backwards@;
    while backwards.len() > 0
        invariant
            reversed.len() == all.len(),
            backwards@.len() <= reversed.len(),
            backwards@ == reversed.take(backwards@.len() as int),
            events@.len() == reversed.len() - backwards@.len(),
            forall|i: int|
                0 <= i < reversed.len() ==> (#[trigger] reversed[i])@ == all[all.len() - 1 - i],
            read_views(events@) == all.take(events@.len() as int),
        decreases backwards.len(),
    {
        let ghost before = read_views(events@);
        if let Some(event) = backwards.pop() {
            events.push(event);
            assert(read_views(events@) =~= before.push(event@));
            assert(event@ == all[events@.len() - 1]);
            assert(all.take(events@.len() as int) =~= before.push(all[events@.len() - 1]));
        }
    }
    assert(all.take(events@.len() as int) =~= all);
    Some(events)
}

/// What the reader waits for.
#[derive(Debug, Clone, Copy, PartialEq, Eq, Structural)]
pub enum ReaderPhase {
    Turn,
    IdlePolling,
    Releasing,
    FramingReleased,
    SendingReleased,
    Flushing,
    SendingFlushed,
    PollingInput,
    Draining { read_ready: bool },
    Reading,
    Over,
}

/// What happened.
#[derive(Debug, Clone, Copy, PartialEq, Eq)]
pub enum ReaderEvent {
    /// A new turn; whether the client quits, and whether the filter holds bytes back.
    Turn { quit: bool, filter_pending: bool },
    /// Whether input is there; nothing where asking failed.
    IdlePolled(Option<bool>),
    /// Whether the filter gave up what it held back.
    Released(bool),
    /// The released bytes were framed; whether that gave events.
    Framed { events: bool },
    /// Whether the client loop took the events.
    Sent(bool),
    /// What was unfinished was flushed, or not; whether that gave events.
    Flushed { events: bool },
    Polled { wake_ready: bool, read_ready: bool },
    PollFailed { interrupted: bool },
    /// Whether the wake signal could be taken.
    Drained(bool),
    /// Bytes were read and framed.
    ReadBytes,
    ReadEnded,
    ReadFailed { interrupted: bool },
}

/// What to do next.
#[derive(Debug, Clone, Copy, PartialEq, Eq)]
pub enum ReaderAsk {
    NextTurn,
    /// Look for input for as long as unfinished input may wait.
    PollIdle,
    /// Let the filter give up what it holds back, if no reply is expected.
    Release,
    /// Frame the released bytes under the state that was kept for them, else under the
    /// present one.
    FrameReleased { context: Option<HostInputContext> },
    SendEvents,
    /// Flush what is unfinished, after a pause.
    FlushIdle,
    /// Wait for input or a wake signal.
    PollInput,
    DrainWake,
    /// Read, frame and publish.
    Read,
    Stop,
}

/// The reader's state.
pub struct ReaderView {
    /// The state of the bytes that the filter holds back.
    pub held: Option<HostInputContext>,
    pub phase: ReaderPhase,
}

impl ReaderView {
    pub open spec fn to(self, phase: ReaderPhase, ask: ReaderAsk) -> (ReaderView, ReaderAsk) {
        (ReaderView { phase, ..self }, ask)
    }

    /// What an event may be, in this phase.
    pub open spec fn expects(self, event: ReaderEvent) -> bool {
        match event {
            ReaderEvent::Turn { .. } => self.phase is Turn,
            ReaderEvent::IdlePolled(_) => self.phase is IdlePolling,
            ReaderEvent::Released(_) => self.phase is Releasing,
            ReaderEvent::Framed { .. } => self.phase is FramingReleased,
            ReaderEvent::Sent(_) => self.phase is SendingReleased || self.phase is SendingFlushed,
            ReaderEvent::Flushed { .. } => self.phase is Flushing,
            ReaderEvent::Polled { .. } | ReaderEvent::PollFailed { .. } => self.phase
                is PollingInput,
            ReaderEvent::Drained(_) => self.phase is Draining,
            ReaderEvent::ReadBytes
            | ReaderEvent::ReadEnded
            | ReaderEvent::ReadFailed { .. } => self.phase is Reading,
        }
    }

    pub open spec fn stopped(self) -> (ReaderView, ReaderAsk) {
        self.to(ReaderPhase::Over, ReaderAsk::Stop)
    }

    pub open spec fn turned(self) -> (ReaderView, ReaderAsk) {
        self.to(ReaderPhase::Turn, ReaderAsk::NextTurn)
    }

    pub open spec fn woken(self, read_ready: bool) -> (ReaderView, ReaderAsk) {
        if read_ready {
            self.to(ReaderPhase::Reading, ReaderAsk::Read)
        } else {
            self.turned()
        }
    }

    pub open spec fn next(self, event: ReaderEvent) -> (ReaderView, ReaderAsk) {
        match event {
            ReaderEvent::Turn { quit, filter_pending } => if quit {
                self.stopped()
            } else if filter_pending {
                self.to(ReaderPhase::IdlePolling, ReaderAsk::PollIdle)
            } else {
                self.to(ReaderPhase::PollingInput, ReaderAsk::PollInput)
            },
            ReaderEvent::IdlePolled(ready) => if ready == Some(false) {
                self.to(ReaderPhase::Releasing, ReaderAsk::Release)
            } else {
                self.to(ReaderPhase::PollingInput, ReaderAsk::PollInput)
            },
            ReaderEvent::Released(released) => if released {
                ReaderView { held: None, ..self }.to(
                    ReaderPhase::FramingReleased,
                    ReaderAsk::FrameReleased { context: self.held },
                )
            } else {
                self.turned()
            },
            ReaderEvent::Framed { events } => if events {
                self.to(ReaderPhase::SendingReleased, ReaderAsk::SendEvents)
            } else {
                self.to(ReaderPhase::Flushing, ReaderAsk::FlushIdle)
            },
            ReaderEvent::Sent(taken) => if !taken {
                self.stopped()
            } else if self.phase is SendingReleased {
                self.to(ReaderPhase::Flushing, ReaderAsk::FlushIdle)
            } else {
                self.turned()
            },
            ReaderEvent::Flushed { events } => if events {
                self.to(ReaderPhase::SendingFlushed, ReaderAsk::SendEvents)
            } else {
                self.turned()
            },
            ReaderEvent::Polled { wake_ready, read_ready } => if wake_ready {
                self.to(ReaderPhase::Draining { read_ready }, ReaderAsk::DrainWake)
            } else {
                self.woken(read_ready)
            },
            ReaderEvent::PollFailed { interrupted } | ReaderEvent::ReadFailed {
                interrupted,
            } => if interrupted {
                self.turned()
            } else {
                self.stopped()
            },
            ReaderEvent::Drained(drained) => if drained {
                self.woken(self.phase->read_ready)
            } else {
                self.stopped()
            },
            ReaderEvent::ReadBytes => self.to(ReaderPhase::Flushing, ReaderAsk::FlushIdle),
            ReaderEvent::ReadEnded => self.stopped(),
        }
    }

    /// The state of what is held back, or the present one.
    pub open spec fn held_or(self, current: HostInputContext) -> HostInputContext {
        match self.held {
            Some(held) => held,
            None => current,
        }
    }
}

/// The reader of the host terminal.
pub struct StdinReader {
    held: Option<HostInputContext>,
    phase: ReaderPhase,
}

impl View for StdinReader {
    type V = ReaderView;

    closed spec fn view(&self) -> ReaderView {
        ReaderView { held: self.held, phase: self.phase }
    }
}

/// A reader before its first turn, and what its framer is told.
pub fn stdin_reader_loop(host_color_query_sent: bool, host_cell_size_query_sent: bool) -> (reader: (
    StdinReader,
    Vec<FramerSetup>,
))
    ensures
        reader.0@ == (ReaderView { held: None, phase: ReaderPhase::Turn }),
        reader.1@ == setup_for(host_color_query_sent, host_cell_size_query_sent),
{
    let mut setup: Vec<FramerSetup> = Vec::new();
    if host_color_query_sent {
        setup.push(FramerSetup::HostColorQuerySent);
        setup.push(FramerSetup::TrackColorSchemeChanges);
        setup.push(FramerSetup::QueryAppearanceOnFocus);
    }
    if host_cell_size_query_sent {
        setup.push(FramerSetup::HostCellSizeQuerySent);
    }
    assert(setup@ =~= setup_for(host_color_query_sent, host_cell_size_query_sent));
    (StdinReader { held: None, phase: ReaderPhase::Turn }, setup)
}

impl StdinReader {
    fn go(&mut self, phase: ReaderPhase, ask: ReaderAsk) -> (asked: ReaderAsk)
        ensures
            (final(self)@, asked) == old(self)@.to(phase, ask),
    {
        self.phase = phase;
        ask
    }

    fn woken(&mut self, read_ready: bool) -> (ask: ReaderAsk)
        ensures
            (final(self)@, ask) == old(self)@.woken(read_ready),
    {
        if read_ready {
            self.go(ReaderPhase::Reading, ReaderAsk::Read)
        } else {
            self.go(ReaderPhase::Turn, ReaderAsk::NextTurn)
        }
    }

    /// Takes an event and says what to do next.
    pub fn step(&mut self, event: ReaderEvent) -> (ask: ReaderAsk)
        requires
            old(self)@.expects(event),
        ensures
            (final(self)@, ask) == old(self)@.next(event),
    {
        match event {
            ReaderEvent::Turn { quit, filter_pending } => {
                if quit {
                    self.go(ReaderPhase::Over, ReaderAsk::Stop)
                } else if filter_pending {
                    self.go(ReaderPhase::IdlePolling, ReaderAsk::PollIdle)
                } else {
                    self.go(ReaderPhase::PollingInput, ReaderAsk::PollInput)
                }
            },
            ReaderEvent::IdlePolled(ready) => {
                let quiet = match ready {
                    Some(ready) => !ready,
                    None => false,
                };
                if quiet {
                    self.go(ReaderPhase::Releasing, ReaderAsk::Release)
                } else {
                    self.go(ReaderPhase::PollingInput, ReaderAsk::PollInput)
                }
            },
            ReaderEvent::Released(released) => {
                if released {
                    let context = self.held;
                    self.held = None;
                    self.go(ReaderPhase::FramingReleased, ReaderAsk::FrameReleased { context })
                } else {
                    self.go(ReaderPhase::Turn, ReaderAsk::NextTurn)
                }
            },
            ReaderEvent::Framed { events } => {
                if events {
                    self.go(ReaderPhase::SendingReleased, ReaderAsk::SendEvents)
                } else {
                    self.go(ReaderPhase::Flushing, ReaderAsk::FlushIdle)
                }
            },
            ReaderEvent::Sent(taken) => {
                if !taken {
                    self.go(ReaderPhase::Over, ReaderAsk::Stop)
                } else if matches!(self.phase, ReaderPhase::SendingReleased) {
                    self.go(ReaderPhase::Flushing, ReaderAsk::FlushIdle)
                } else {
                    self.go(ReaderPhase::Turn, ReaderAsk::NextTurn)
                }
            },
            ReaderEvent::Flushed { events } => {
                if events {
                    self.go(ReaderPhase::SendingFlushed, ReaderAsk::SendEvents)
                } else {
                    self.go(ReaderPhase::Turn, ReaderAsk::NextTurn)
                }
            },
            ReaderEvent::Polled { wake_ready, read_ready } => {
                if wake_ready {
                    self.go(ReaderPhase::Draining { read_ready }, ReaderAsk::DrainWake)
                } else {
                    self.woken(read_ready)
                }
            },
            ReaderEvent::PollFailed { interrupted } | ReaderEvent::ReadFailed { interrupted } => {
                if interrupted {
                    self.go(ReaderPhase::Turn, ReaderAsk::NextTurn)
                } else {
                    self.go(ReaderPhase::Over, ReaderAsk::Stop)
                }
            },
            ReaderEvent::Drained(drained) => {
                if !drained {
                    return self.go(ReaderPhase::Over, ReaderAsk::Stop);
                }
                match self.phase {
                    ReaderPhase::Draining { read_ready } => self.woken(read_ready),
                    _ => self.go(ReaderPhase::Turn, ReaderAsk::NextTurn),
                }
            },
            ReaderEvent::ReadBytes => self.go(ReaderPhase::Flushing, ReaderAsk::FlushIdle),
            ReaderEvent::ReadEnded => self.go(ReaderPhase::Over, ReaderAsk::Stop),
        }
    }

    /// Takes what the filter made of bytes that were read under the present state, and
    /// says under which state each part of it is framed. `pending_uses_old` tells whether
    /// what the filter still holds back was held back before.
    pub fn filtered(
        &mut self,
        chunks: &[FilteredInput],
        pending_uses_old: bool,
        filter_pending: bool,
        current: HostInputContext,
    ) -> (plan: Vec<FramePiece>)
        requires
            forall|i: int|
                0 <= i < chunks@.len() ==> (#[trigger] chunks@[i]).pending_bytes <= chunks@[i].len,
        ensures
            plan@ == pieces(chunks@, old(self)@.held_or(current), current),
            final(self)@ == (ReaderView {
                held: if !filter_pending {
                    None
                } else if pending_uses_old {
                    Some(old(self)@.held_or(current))
                } else {
                    Some(current)
                },
                ..old(self)@
            }),
    {
        let held = match self.held {
            Some(held) => held,
            None => current,
        };
        self.held = if !filter_pending {
            None
        } else if pending_uses_old {
            Some(held)
        } else {
            Some(current)
        };
        let mut plan: Vec<FramePiece> = Vec::new();
        let mut i: usize = 0;
        while i < chunks.len()
            invariant
                i <= chunks@.len(),
                plan@ == pieces(chunks@.take(i as int), held, current),
            decreases chunks.len() - i,
        {
            let input = chunks[i];
            let ghost before = plan@;
            if input.pending_bytes > 0 {
                plan.push(
                    FramePiece { chunk: i, start: 0, end: input.pending_bytes, context: held },
                );
            }
            if input.pending_bytes < input.len {
                plan.push(
                    FramePiece {
                        chunk: i,
                        start: input.pending_bytes,
                        end: input.len,
                        context: current,
                    },
                );
            }
            assert(plan@ =~= before + pieces_of(i as int, input, held, current));
            i += 1;
            assert(chunks@.take(i as int).drop_last() =~= chunks@.take(i - 1));
        }
        assert(chunks@.take(i as int) =~= chunks@);
        plan
    }
}

/// How many input bytes are there, from the outcome of asking the terminal: none where
/// asking failed.
pub fn pending_input_bytes(status: i32, pending: i32) -> (bytes: Option<usize>)
    ensures
        bytes == (if status < 0 {
            None::<usize>
        } else if pending < 0 {
            Some(0)
        } else {
            Some(pending as usize)
        }),
{
    if status < 0 {
        None
    } else if pending < 0 {
        Some(0)
    } else {
        Some(pending as usize)
    }
}

/// Whether a descriptor can be read, from the outcome of polling it: unknown where
/// polling failed.
pub fn poll_read_ready(result: i32) -> (ready: Option<bool>)
    ensures
        ready == (if result < 0 {
            None::<bool>
        } else {
            Some(result > 0)
        }),
{
    if result < 0 {
        None
    } else {
        Some(result > 0)
    }
}

/// The bytes of a part of a chunk.
pub open spec fn piece_data(data: Seq<Seq<u8>>, piece: FramePiece) -> Seq<u8> {
    data[piece.chunk as int].subrange(piece.start as int, piece.end as int)
}

pub open spec fn pieces_data(data: Seq<Seq<u8>>, plan: Seq<FramePiece>) -> Seq<u8>
    decreases plan.len(),
{
    if plan.len() == 0 {
        Seq::empty()
    } else {
        pieces_data(data, plan.drop_last()) + piece_data(data, plan.last())
    }
}

proof fn lemma_pieces_data_append(
    data: Seq<Seq<u8>>,
    first: Seq<FramePiece>,
    second: Seq<FramePiece>,
)
    ensures
        pieces_data(data, first + second) == pieces_data(data, first) + pieces_data(data, second),
    decreases second.len(),
{
    if second.len() == 0 {
        assert(first + second =~= first);
        assert(pieces_data(data, first) + Seq::<u8>::empty() =~= pieces_data(data, first));
    } else {
        lemma_pieces_data_append(data, first, second.drop_last());
        assert((first + second).drop_last() =~= first + second.drop_last());
        assert((first + second).last() == second.last());
        assert(pieces_data(data, first) + (pieces_data(data, second.drop_last()) + piece_data(
            data,
            second.last(),
        )) =~= (pieces_data(data, first) + pieces_data(data, second.drop_last())) + piece_data(
            data,
            second.last(),
        ));
    }
}

/// Every byte that the filter lets through is framed once, in order.
pub proof fn law_filtered_input_kept_in_order(
    data: Seq<Seq<u8>>,
    chunks: Seq<FilteredInput>,
    held: HostInputContext,
    current: HostInputContext,
)
    requires
        data.len() == chunks.len(),
        data.len() <= usize::MAX,
        forall|i: int|
            0 <= i < chunks.len() ==> (#[trigger] chunks[i]).pending_bytes <= chunks[i].len
                && chunks[i].len == data[i].len(),
    ensures
        pieces_data(data, pieces(chunks, held, current)) == framing::concat(data),
    decreases chunks.len(),
{
    lemma_filtered(data, chunks, held, current, chunks.len() as int);
    assert(data.take(data.len() as int) =~= data);
    assert(chunks.take(chunks.len() as int) =~= chunks);
}

proof fn lemma_filtered(
    data: Seq<Seq<u8>>,
    chunks: Seq<FilteredInput>,
    held: HostInputContext,
    current: HostInputContext,
    n: int,
)
    requires
        data.len() == chunks.len(),
        data.len() <= usize::MAX,
        0 <= n <= data.len(),
        forall|i: int|
            0 <= i < chunks.len() ==> (#[trigger] chunks[i]).pending_bytes <= chunks[i].len
                && chunks[i].len == data[i].len(),
    ensures
        pieces_data(data, pieces(chunks.take(n), held, current)) == framing::concat(
            data.take(n),
        ),
    decreases n,
{
    if n > 0 {
        lemma_filtered(data, chunks, held, current, n - 1);
        let input = chunks[n - 1];
        let own = pieces_of(n - 1, input, held, current);
        assert(chunks.take(n).drop_last() =~= chunks.take(n - 1));
        assert(data.take(n).drop_last() =~= data.take(n - 1));
        assert(chunks.take(n).last() == input);
        assert(data.take(n).last() == data[n - 1]);
        lemma_pieces_data_append(data, pieces(chunks.take(n - 1), held, current), own);
        assert(pieces_data(data, own) =~= data[n - 1]) by {
            reveal_with_fuel(pieces_data, 3);
            if own.len() == 2 {
                assert(own.drop_last() =~= seq![own[0]]);
                assert(own.drop_last().drop_last() =~= Seq::empty());
                assert(own[0].chunk == n - 1 && own[1].chunk == n - 1);
            } else if own.len() == 1 {
                assert(own.drop_last() =~= Seq::empty());
                assert(own[0].chunk == n - 1);
            }
        }
    }
}

/// Released bytes are framed under the state under which they were read.
pub proof fn law_released_input_keeps_its_state(reader: ReaderView, held: HostInputContext)
    requires
        reader.phase is Releasing,
        reader.held == Some(held),
    ensures
        reader.next(ReaderEvent::Released(true)).1 == (ReaderAsk::FrameReleased {
            context: Some(held),
        }),
        reader.next(ReaderEvent::Released(true)).0.held is None,
{
}

/// In what one read gives, no input stands before a reply to a graphics command.
pub proof fn law_replies_come_first(
    replies: Seq<Vec<u8>>,
    framed: Seq<InputEvent>,
    earlier: int,
    later: int,
)
    requires
        0 <= earlier < later < replies.len() + framed.len(),
        (reply_events(replies) + input_events(framed))[later] is DirectGraphicsResponse,
    ensures
        (reply_events(replies) + input_events(framed))[earlier] is DirectGraphicsResponse,
{
}

/// Events are sent only where there are any.
pub proof fn law_nothing_empty_is_sent(reader: ReaderView, event: ReaderEvent)
    requires
        reader.expects(event),
        reader.next(event).1 is SendEvents,
    ensures
        event == (ReaderEvent::Framed { events: true }) || event == (ReaderEvent::Flushed {
            events: true,
        }),
{
}

/// The end of the input ends the reader: it stops, and nothing follows.
pub proof fn law_end_of_input_is_the_end(reader: ReaderView, later: ReaderEvent)
    requires
        reader.expects(ReaderEvent::ReadEnded),
    ensures
        reader.next(ReaderEvent::ReadEnded).1 is Stop,
        !reader.next(ReaderEvent::ReadEnded).0.expects(later),
{
}

/// A reader that is not told to quit looks for input; before that, what the filter holds back
/// is given up only where no input comes meanwhile.
pub proof fn law_turn_looks_for_input(reader: ReaderView, ready: Option<bool>)
    requires
        reader.phase is Turn,
    ensures
        ({
            let turn = |quit: bool, filter_pending: bool|
                reader.next(ReaderEvent::Turn { quit, filter_pending });
            let idle = turn(false, true).0;
            &&& turn(true, true).1 is Stop && turn(true, false).1 is Stop
            &&& turn(false, false).1 is PollInput && turn(false, false).0.phase is PollingInput
            &&& turn(false, true).1 is PollIdle && idle.phase is IdlePolling
            &&& idle.held == reader.held
            &&& idle.next(ReaderEvent::IdlePolled(ready)).1 is Release <==> ready == Some(false)
            &&& idle.next(ReaderEvent::IdlePolled(ready)).1 is PollInput <==> ready != Some(false)
        }),
{
}

/// Input that is there is read, also where a wake signal came with it; where only the signal
/// came, or nothing, the reader takes another turn.
pub proof fn law_ready_input_is_read(reader: ReaderView, wake_ready: bool, read_ready: bool)
    requires
        reader.phase is PollingInput,
    ensures
        ({
            let (polled, ask) = reader.next(ReaderEvent::Polled { wake_ready, read_ready });
            let (drained, then) = polled.next(ReaderEvent::Drained(true));
            &&& !wake_ready && read_ready ==> ask is Read && polled.phase is Reading
            &&& !wake_ready && !read_ready ==> ask is NextTurn && polled.phase is Turn
            &&& wake_ready ==> ask is DrainWake && polled.phase is Draining
            &&& wake_ready && read_ready ==> then is Read && drained.phase is Reading
            &&& wake_ready && !read_ready ==> then is NextTurn && drained.phase is Turn
            &&& wake_ready ==> polled.next(ReaderEvent::Drained(false)).1 is Stop
            &&& polled.held == reader.held
        }),
{
}

/// An interruption only costs a turn; any other failure, and a client loop that takes no more
/// events, stop the reader.
pub proof fn law_only_interruptions_are_survived(reader: ReaderView, interrupted: bool)
    ensures
        reader.next(ReaderEvent::PollFailed { interrupted }).1 is NextTurn <==> interrupted,
        reader.next(ReaderEvent::ReadFailed { interrupted }).1 is NextTurn <==> interrupted,
        reader.next(ReaderEvent::PollFailed { interrupted }).1 is Stop <==> !interrupted,
        reader.next(ReaderEvent::ReadFailed { interrupted }).1 is Stop <==> !interrupted,
        reader.next(ReaderEvent::Sent(false)).1 is Stop,
        reader.next(ReaderEvent::ReadEnded).1 is Stop,
{
}

/// What was read or released and is complete is sent, and what is unfinished is flushed after
/// it; then the reader takes its next turn.
pub proof fn law_read_input_is_sent_and_flushed(reader: ReaderView)
    ensures
        ({
            let read = reader.next(ReaderEvent::ReadBytes);
            let framed = reader.next(ReaderEvent::Framed { events: true });
            let sent = framed.0.next(ReaderEvent::Sent(true));
            let flushed = read.0.next(ReaderEvent::Flushed { events: true });
            let quiet = read.0.next(ReaderEvent::Flushed { events: false });
            &&& read.1 is FlushIdle && read.0.phase is Flushing
            &&& reader.next(ReaderEvent::Framed { events: false }).1 is FlushIdle
            &&& framed.1 is SendEvents
            &&& sent.1 is FlushIdle && sent.0.phase is Flushing
            &&& flushed.1 is SendEvents
            &&& flushed.0.next(ReaderEvent::Sent(true)).1 is NextTurn
            &&& quiet.1 is NextTurn && quiet.0.phase is Turn
            &&& reader.next(ReaderEvent::Released(false)).1 is NextTurn
        }),
{
}

/// The framer hears of each question that the client sent to the terminal, and of nothing
/// that it did not send.
pub proof fn law_framer_hears_of_the_questions(color_query: bool, cell_size_query: bool)
    ensures
        ({
            let setup = setup_for(color_query, cell_size_query);
            &&& setup.contains(FramerSetup::HostColorQuerySent) <==> color_query
            &&& setup.contains(FramerSetup::TrackColorSchemeChanges) <==> color_query
            &&& setup.contains(FramerSetup::QueryAppearanceOnFocus) <==> color_query
            &&& setup.contains(FramerSetup::HostCellSizeQuerySent) <==> cell_size_query
        }),
{
    let setup = setup_for(color_query, cell_size_query);
    if color_query {
        assert(setup[0] == FramerSetup::HostColorQuerySent);
        assert(setup[1] == FramerSetup::TrackColorSchemeChanges);
        assert(setup[2] == FramerSetup::QueryAppearanceOnFocus);
    }
    if cell_size_query {
        assert(setup.last() == FramerSetup::HostCellSizeQuerySent);
        assert(setup[setup.len() - 1] == FramerSetup::HostCellSizeQuerySent);
    }
}

/// The part of a chunk that was held back is framed under the state that was kept for it, and
/// the rest under the present one.
pub proof fn law_parts_keep_their_state(
    chunk: usize,
    input: FilteredInput,
    held: HostInputContext,
    current: HostInputContext,
)
    requires
        input.pending_bytes <= input.len,
    ensures
        ({
            let parts = pieces_of(chunk as int, input, held, current);
            let old_part = FramePiece { chunk, start: 0, end: input.pending_bytes, context: held };
            let new_part = FramePiece {
                chunk,
                start: input.pending_bytes,
                end: input.len,
                context: current,
            };
            &&& 0 < input.pending_bytes < input.len ==> parts == seq![old_part, new_part]
            &&& input.pending_bytes == 0 && input.len > 0 ==> parts == seq![new_part]
            &&& input.pending_bytes == input.len && input.len > 0 ==> parts == seq![old_part]
            &&& input.len == 0 ==> parts == Seq::<FramePiece>::empty()
        }),
{
    let parts = pieces_of(chunk as int, input, held, current);
    let old_part = FramePiece { chunk, start: 0, end: input.pending_bytes, context: held };
    let new_part = FramePiece {
        chunk,
        start: input.pending_bytes,
        end: input.len,
        context: current,
    };
    if 0 < input.pending_bytes && input.pending_bytes < input.len {
        assert(parts =~= seq![old_part, new_part]);
    } else if input.pending_bytes == 0 && input.len > 0 {
        assert(parts =~= seq![new_part]);
    } else if input.len > 0 {
        assert(parts =~= seq![old_part]);
    } else {
        assert(parts =~= Seq::empty());
    }
}

/// The events of a read are its replies and its input, each as it came and in its order.
pub proof fn law_read_events_keep_their_order(replies: Seq<Vec<u8>>, framed: Seq<InputEvent>, i: int)
    ensures
        0 <= i < replies.len() ==> (reply_events(replies) + input_events(framed))[i]
            == ReadEventView::DirectGraphicsResponse(replies[i]@),
        0 <= i < framed.len() ==> (reply_events(replies) + input_events(framed))[replies.len() + i]
            == ReadEventView::Input(framed[i]@),
        (reply_events(replies) + input_events(framed)).len() == replies.len() + framed.len(),
{
}

} // verus!
