//! Framed host input becomes client events.
//!
//! A byte framer cuts the input into whole sequences. What it has not finished is
//! finished under the input state in which it began, so a sequence that spans a
//! change of state is never read under the wrong one.
use crate::bytes::append_slice;
use vstd::prelude::*;

verus! {

/// The most palette replies in one batch.
pub const PALETTE_BATCH: usize = 256;

/// The mouse mode of the host terminal at one moment.
#[derive(Debug, Clone, Copy, PartialEq, Eq, Structural)]
pub struct HostInputSnapshot {
    pub generation: u64,
    pub capture_active: bool,
    pub sgr_pixels_active: bool,
    /// Whether the input was read outside a change of mode.
    pub stable: bool,
}

impl HostInputSnapshot {
    /// A stable snapshot.
    pub fn from_parts(generation: u64, capture_active: bool, sgr_pixels_active: bool) -> (snapshot:
        Self)
        ensures
            snapshot == (HostInputSnapshot {
                generation,
                capture_active,
                sgr_pixels_active,
                stable: true,
            }),
    {
        HostInputSnapshot { generation, capture_active, sgr_pixels_active, stable: true }
    }
}

/// The size of the host terminal, in cells and in pixels.
#[derive(Debug, Clone, Copy, PartialEq, Eq, Structural)]
pub struct HostGeometry {
    pub columns: u16,
    pub rows: u16,
    pub width: u32,
    pub height: u32,
}

/// The state in which input was read.
#[derive(Debug, Clone, Copy, PartialEq, Eq)]
pub struct HostInputContext {
    pub state: HostInputSnapshot,
    pub geometry: Option<HostGeometry>,
}

/// A whole sequence from the framer, and what the parsers of replies and reports say
/// of it.
#[derive(Debug, Clone, PartialEq, Eq)]
pub struct FramedChunk {
    pub data: Vec<u8>,
    /// It is the reply to a question for a palette colour.
    pub palette_response: bool,
    /// It is the reply to a question for a default colour.
    pub default_color_response: bool,
    /// It is exactly one mouse report.
    pub mouse_report: bool,
}

/// An event for the client loop.
#[derive(Debug, Clone, PartialEq, Eq)]
pub enum InputEvent {
    StdinInput(Vec<u8>, HostInputSnapshot),
    PixelMouse(Vec<u8>, HostGeometry, HostInputSnapshot),
}

/// The content of a chunk.
pub struct ChunkView {
    pub data: Seq<u8>,
    pub palette_response: bool,
    pub default_color_response: bool,
    pub mouse_report: bool,
}

impl View for FramedChunk {
    type V = ChunkView;

    open spec fn view(&self) -> ChunkView {
        ChunkView {
            data: self.data@,
            palette_response: self.palette_response,
            default_color_response: self.default_color_response,
            mouse_report: self.mouse_report,
        }
    }
}

/// The content of an event.
pub enum InputEventView {
    StdinInput(Seq<u8>, HostInputSnapshot),
    PixelMouse(Seq<u8>, HostGeometry, HostInputSnapshot),
}

impl InputEventView {
    /// The bytes that an event carries.
    pub open spec fn data(self) -> Seq<u8> {
        match self {
            InputEventView::StdinInput(data, _) => data,
            InputEventView::PixelMouse(data, _, _) => data,
        }
    }
}

impl View for InputEvent {
    type V = InputEventView;

    open spec fn view(&self) -> InputEventView {
        match self {
            InputEvent::StdinInput(data, state) => InputEventView::StdinInput(data@, *state),
            InputEvent::PixelMouse(data, geometry, state) => InputEventView::PixelMouse(
                data@,
                *geometry,
                *state,
            ),
        }
    }
}

pub open spec fn chunk_views(chunks: Seq<FramedChunk>) -> Seq<ChunkView> {
    Seq::new(chunks.len(), |i: int| chunks[i]@)
}

pub open spec fn event_views(events: Seq<InputEvent>) -> Seq<InputEventView> {
    Seq::new(events.len(), |i: int| events[i]@)
}

/// The event of one sequence: a pixel report needs the geometry that it was read
/// under, and is dropped without one; anything else stays raw.
pub open spec fn classified(
    chunk: ChunkView,
    context: HostInputContext,
) -> Option<InputEventView> {
    if context.state.sgr_pixels_active && chunk.mouse_report {
        match context.geometry {
            Some(geometry) => Some(
                InputEventView::PixelMouse(chunk.data, geometry, context.state),
            ),
            None => None,
        }
    } else {
        Some(InputEventView::StdinInput(chunk.data, context.state))
    }
}

/// The event of one sequence.
pub fn classify_unix_input(chunk: FramedChunk, context: HostInputContext) -> (event: Option<
    InputEvent,
>)
    ensures
        classified(chunk@, context) == (match event {
            Some(event) => Some(event@),
            None => None,
        }),
{
    if context.state.sgr_pixels_active && chunk.mouse_report {
        match context.geometry {
            Some(geometry) => Some(InputEvent::PixelMouse(chunk.data, geometry, context.state)),
            None => None,
        }
    } else {
        Some(InputEvent::StdinInput(chunk.data, context.state))
    }
}

/// The pieces, one after the other.
pub open spec fn concat(pieces: Seq<Seq<u8>>) -> Seq<u8>
    decreases pieces.len(),
{
    if pieces.len() == 0 {
        Seq::empty()
    } else {
        concat(pieces.drop_last()) + pieces.last()
    }
}

/// The palette replies that wait, and the events so far.
pub struct FramedView {
    pub palette: Seq<Seq<u8>>,
    pub events: Seq<InputEventView>,
}

impl FramedView {
    /// The waiting palette replies become one event.
    pub open spec fn flushed(self, state: HostInputSnapshot) -> FramedView {
        if self.palette.len() == 0 {
            self
        } else {
            FramedView {
                palette: Seq::empty(),
                events: self.events.push(
                    InputEventView::StdinInput(concat(self.palette), state),
                ),
            }
        }
    }

    /// One sequence. Palette replies are batched; replies for default colours may pass
    /// between them; everything else comes after those that wait.
    pub open spec fn chunk(self, chunk: ChunkView, context: HostInputContext) -> FramedView {
        if chunk.palette_response {
            let batched = FramedView { palette: self.palette.push(chunk.data), ..self };
            if batched.palette.len() == PALETTE_BATCH {
                batched.flushed(context.state)
            } else {
                batched
            }
        } else {
            let ready = if chunk.default_color_response {
                self
            } else {
                self.flushed(context.state)
            };
            match classified(chunk, context) {
                Some(event) => FramedView { events: ready.events.push(event), ..ready },
                None => ready,
            }
        }
    }

    pub open spec fn chunks(self, chunks: Seq<ChunkView>, context: HostInputContext) -> FramedView
        decreases chunks.len(),
    {
        if chunks.len() == 0 {
            self
        } else {
            self.chunks(chunks.drop_last(), context).chunk(chunks.last(), context)
        }
    }
}

/// The geometry to read input under, and the last known one afterwards. Without pixel
/// reports none is needed; a geometry is remembered for its own generation only.
pub open spec fn geometry_for(
    last: Option<(u64, HostGeometry)>,
    state: HostInputSnapshot,
    observed: Option<HostGeometry>,
) -> (Option<(u64, HostGeometry)>, Option<HostGeometry>) {
    if !state.sgr_pixels_active {
        (last, None)
    } else {
        match observed {
            Some(geometry) => (Some((state.generation, geometry)), Some(geometry)),
            None => match last {
                Some((generation, geometry)) => if generation == state.generation {
                    (last, Some(geometry))
                } else {
                    (last, None)
                },
                None => (last, None),
            },
        }
    }
}

/// The geometry to read input under.
pub fn input_geometry(
    last: &mut Option<(u64, HostGeometry)>,
    state: HostInputSnapshot,
    observed: Option<HostGeometry>,
) -> (geometry: Option<HostGeometry>)
    ensures
        (*final(last), geometry) == geometry_for(*old(last), state, observed),
{
    if !state.sgr_pixels_active {
        return None;
    }
    if let Some(geometry) = observed {
        *last = Some((state.generation, geometry));
        return Some(geometry);
    }
    match *last {
        Some((generation, geometry)) => if generation == state.generation {
            Some(geometry)
        } else {
            None
        },
        None => None,
    }
}

/// How long unfinished input may wait, in milliseconds.
#[derive(Debug, Clone, Copy, PartialEq, Eq, Structural)]
pub struct InputTimeouts {
    pub idle_flush: i32,
    /// For what may be the start of a mouse report.
    pub mouse_escape: i32,
}

/// What the framer holds back.
#[derive(Debug, Clone, Copy, PartialEq, Eq, Structural)]
pub struct FramerState {
    pub pending: bool,
    pub lone_escape: bool,
    pub incomplete_mouse: bool,
}

/// How long to wait before unfinished input is taken as it is: longer where it may
/// become a mouse report.
pub open spec fn flush_timeout(
    framer: FramerState,
    capture_active: bool,
    timeouts: InputTimeouts,
) -> i32 {
    if capture_active && (framer.lone_escape || framer.incomplete_mouse) {
        timeouts.mouse_escape
    } else {
        timeouts.idle_flush
    }
}

/// How long to wait before unfinished input is taken as it is.
pub fn idle_flush_timeout_ms(
    framer: FramerState,
    host_mouse_capture_active: bool,
    timeouts: InputTimeouts,
) -> (timeout: i32)
    ensures
        timeout == flush_timeout(framer, host_mouse_capture_active, timeouts),
{
    if host_mouse_capture_active && (framer.lone_escape || framer.incomplete_mouse) {
        timeouts.mouse_escape
    } else {
        timeouts.idle_flush
    }
}

fn same_geometry(left: Option<HostGeometry>, right: Option<HostGeometry>) -> (same: bool)
    ensures
        same == (left == right),
{
    match (left, right) {
        (Some(left), Some(right)) => left == right,
        (None, None) => true,
        _ => false,
    }
}

/// What framing waits for.
pub enum FramingPhase {
    /// For new input, or a pause.
    Ready,
    /// For the framer to take one more byte of input that continues under an earlier
    /// state: `next` bytes of `len` are taken.
    Continuing {
        len: usize,
        next: usize,
        current: HostInputContext,
        continued: HostInputContext,
    },
    /// For the framer to take the rest.
    Taking { current: HostInputContext },
    /// For input that may still come, before what is unfinished is taken as it is.
    Waiting { current: HostInputContext, context: HostInputContext },
    /// For the framer to give up what is unfinished.
    Flushing { current: HostInputContext, context: HostInputContext },
    /// As before, after the framer held an escape back once.
    WaitingAgain { current: HostInputContext },
    FlushingAgain { current: HostInputContext },
}

/// What framing asks for.
#[derive(Debug, Clone, Copy, PartialEq, Eq, Structural)]
pub enum FramingAsk {
    /// Give the framer these bytes of the input.
    Push { start: usize, end: usize },
    /// Wait for input, for so many milliseconds.
    Wait { timeout: i32 },
    /// Let the framer give up what is unfinished.
    Flush,
    /// The events are complete.
    Done,
    /// There was nothing to flush, or more input came.
    Nothing,
}

/// The state of framing.
pub struct FramingView {
    pub timeouts: InputTimeouts,
    /// The state under which the framer's unfinished input began.
    pub pending: Option<HostInputContext>,
    pub last_geometry: Option<(u64, HostGeometry)>,
    pub framed: FramedView,
    pub phase: FramingPhase,
}

pub open spec fn pending_if(pending: bool, context: HostInputContext) -> Option<HostInputContext> {
    if pending {
        Some(context)
    } else {
        None
    }
}

impl FramingView {
    pub open spec fn to(self, phase: FramingPhase) -> FramingView {
        FramingView { phase, ..self }
    }

    /// The loop over single bytes, and what follows it.
    pub open spec fn continued(
        self,
        len: usize,
        next: usize,
        current: HostInputContext,
        continued: HostInputContext,
        framer_pending: bool,
        emitted: bool,
    ) -> (FramingView, FramingAsk) {
        if !emitted && next < len && framer_pending {
            (
                self.to(
                    FramingPhase::Continuing { len, next: (next + 1) as usize, current, continued },
                ),
                FramingAsk::Push { start: next, end: (next + 1) as usize },
            )
        } else if framer_pending && next == len {
            (
                FramingView { pending: Some(continued), ..self }.to(FramingPhase::Ready),
                FramingAsk::Done,
            )
        } else {
            let settled = FramingView { pending: pending_if(framer_pending, current), ..self };
            if next == len {
                (settled.to(FramingPhase::Ready), FramingAsk::Done)
            } else {
                (
                    settled.to(FramingPhase::Taking { current }),
                    FramingAsk::Push { start: next, end: len },
                )
            }
        }
    }

    /// New input of `len` bytes. `continued` is the state that the unfinished input's
    /// state and this one make together.
    pub open spec fn begun(
        self,
        len: usize,
        state: HostInputSnapshot,
        observed: Option<HostGeometry>,
        continued: HostInputSnapshot,
        framer_pending: bool,
    ) -> (FramingView, FramingAsk) {
        let (last_geometry, geometry) = geometry_for(self.last_geometry, state, observed);
        let known = FramingView { last_geometry, ..self };
        let current = HostInputContext { state, geometry };
        let whole = (
            known.to(FramingPhase::Taking { current }),
            FramingAsk::Push { start: 0, end: len },
        );
        match self.pending {
            Some(pending) => {
                let kept = HostInputContext {
                    state: continued,
                    geometry: if pending.geometry == geometry {
                        geometry
                    } else {
                        None
                    },
                };
                if kept.state != state || kept.geometry != geometry {
                    known.continued(len, 0, current, kept, framer_pending, false)
                } else {
                    whole
                }
            },
            None => whole,
        }
    }

    /// The framer took bytes and gave whole sequences.
    pub open spec fn pushed(self, chunks: Seq<ChunkView>, framer_pending: bool) -> (
        FramingView,
        FramingAsk,
    ) {
        match self.phase {
            FramingPhase::Continuing { len, next, current, continued } => FramingView {
                framed: self.framed.chunks(chunks, continued),
                ..self
            }.continued(len, next, current, continued, framer_pending, chunks.len() > 0),
            FramingPhase::Taking { current } => (
                FramingView {
                    pending: pending_if(framer_pending, current),
                    framed: self.framed.chunks(chunks, current),
                    ..self
                }.to(FramingPhase::Ready),
                FramingAsk::Done,
            ),
            _ => (self, FramingAsk::Done),
        }
    }

    /// A pause in the input.
    pub open spec fn paused(
        self,
        framer: FramerState,
        state: HostInputSnapshot,
        observed: Option<HostGeometry>,
    ) -> (FramingView, FramingAsk) {
        if !framer.pending && self.framed.palette.len() == 0 {
            (self, FramingAsk::Nothing)
        } else {
            let (last_geometry, geometry) = geometry_for(self.last_geometry, state, observed);
            let current = HostInputContext { state, geometry };
            let context = match self.pending {
                Some(pending) => pending,
                None => current,
            };
            (
                FramingView { last_geometry, ..self }.to(
                    FramingPhase::Waiting { current, context },
                ),
                FramingAsk::Wait {
                    timeout: flush_timeout(framer, context.state.capture_active, self.timeouts),
                },
            )
        }
    }

    /// Whether input came meanwhile; nothing where waiting failed.
    pub open spec fn waited(self, ready: Option<bool>) -> (FramingView, FramingAsk) {
        match self.phase {
            FramingPhase::Waiting { current, context } => if ready == Some(false) {
                (self.to(FramingPhase::Flushing { current, context }), FramingAsk::Flush)
            } else {
                (self.to(FramingPhase::Ready), FramingAsk::Nothing)
            },
            FramingPhase::WaitingAgain { current } => if ready == Some(false) {
                (self.to(FramingPhase::FlushingAgain { current }), FramingAsk::Flush)
            } else {
                (self.to(FramingPhase::Ready), FramingAsk::Done)
            },
            _ => (self, FramingAsk::Nothing),
        }
    }

    /// The framer gave up what was unfinished, if anything was.
    pub open spec fn given_up(
        self,
        had_pending: bool,
        chunks: Seq<ChunkView>,
        framer_pending: bool,
    ) -> (FramingView, FramingAsk) {
        match self.phase {
            FramingPhase::Flushing { current, context } => {
                let taken = FramingView {
                    pending: pending_if(framer_pending, context),
                    framed: self.framed.chunks(chunks, context).flushed(context.state),
                    ..self
                };
                if had_pending && chunks.len() == 0 {
                    (
                        taken.to(FramingPhase::WaitingAgain { current }),
                        FramingAsk::Wait { timeout: self.timeouts.idle_flush },
                    )
                } else {
                    (taken.to(FramingPhase::Ready), FramingAsk::Done)
                }
            },
            FramingPhase::FlushingAgain { current } => {
                let context = match self.pending {
                    Some(pending) => pending,
                    None => current,
                };
                (
                    FramingView {
                        pending: pending_if(framer_pending, context),
                        framed: self.framed.chunks(chunks, context),
                        ..self
                    }.to(FramingPhase::Ready),
                    FramingAsk::Done,
                )
            },
            _ => (self, FramingAsk::Nothing),
        }
    }

    /// Fewer palette replies wait than make a batch, and bytes are taken in order.
    pub open spec fn wf(self) -> bool {
        &&& self.framed.palette.len() < PALETTE_BATCH
        &&& self.phase matches FramingPhase::Continuing { len, next, .. } ==> next <= len
    }
}

proof fn lemma_chunks_bounded(
    framed: FramedView,
    chunks: Seq<ChunkView>,
    context: HostInputContext,
)
    requires
        framed.palette.len() < PALETTE_BATCH,
    ensures
        framed.chunks(chunks, context).palette.len() < PALETTE_BATCH,
    decreases chunks.len(),
{
    if chunks.len() > 0 {
        lemma_chunks_bounded(framed, chunks.drop_last(), context);
    }
}

/// Host input on its way to the client loop.
pub struct InputFraming {
    timeouts: InputTimeouts,
    pending: Option<HostInputContext>,
    last_geometry: Option<(u64, HostGeometry)>,
    palette: Vec<Vec<u8>>,
    events: Vec<InputEvent>,
    phase: FramingPhase,
}

impl View for InputFraming {
    type V = FramingView;

    closed spec fn view(&self) -> FramingView {
        FramingView {
            timeouts: self.timeouts,
            pending: self.pending,
            last_geometry: self.last_geometry,
            framed: FramedView {
                palette: crate::bytes::views(self.palette@),
                events: event_views(self.events@),
            },
            phase: self.phase,
        }
    }
}

impl InputFraming {
    pub fn new(timeouts: InputTimeouts) -> (framing: Self)
        ensures
            framing@ == (FramingView {
                timeouts,
                pending: None,
                last_geometry: None,
                framed: FramedView { palette: Seq::empty(), events: Seq::empty() },
                phase: FramingPhase::Ready,
            }),
            framing@.wf(),
    {
        let framing = InputFraming {
            timeouts,
            pending: None,
            last_geometry: None,
            palette: Vec::new(),
            events: Vec::new(),
            phase: FramingPhase::Ready,
        };
        assert(framing@.framed.palette =~= Seq::empty());
        assert(framing@.framed.events =~= Seq::empty());
        framing
    }

    /// The state under which the framer's unfinished input began.
    pub fn pending_context(&self) -> (pending: Option<HostInputContext>)
        ensures
            pending == self@.pending,
    {
        self.pending
    }

    /// The number of palette replies that wait.
    pub fn pending_palette(&self) -> (count: usize)
        ensures
            count == self@.framed.palette.len(),
    {
        self.palette.len()
    }

    /// Hands out the events.
    pub fn take_events(&mut self) -> (events: Vec<InputEvent>)
        ensures
            event_views(events@) == old(self)@.framed.events,
            final(self)@ == (FramingView {
                framed: FramedView { events: Seq::empty(), ..old(self)@.framed },
                ..old(self)@
            }),
    {
        let mut events: Vec<InputEvent> = Vec::new();
        events.append(&mut self.events);
        assert(events@ =~= old(self).events@);
        assert(self@.framed.events =~= Seq::empty());
        events
    }

    /// The waiting palette replies become one event.
    pub fn flush_unix_palette_input(&mut self, state: HostInputSnapshot)
        ensures
            final(self)@ == (FramingView {
                framed: old(self)@.framed.flushed(state),
                ..old(self)@
            }),
    {
        if self.palette.len() == 0 {
            return ;
        }
        let ghost pieces = crate::bytes::views(self.palette@);
        let mut data: Vec<u8> = Vec::new();
        let mut i: usize = 0;
        while i < self.palette.len()
            invariant
                i <= self.palette@.len(),
                pieces == crate::bytes::views(self.palette@),
                data@ == concat(pieces.take(i as int)),
                self@ == old(self)@,
            decreases self.palette.len() - i,
        {
            append_slice(&mut data, self.palette[i].as_slice());
            i += 1;
            proof {
                assert(pieces.take(i as int).drop_last() =~= pieces.take(i - 1));
                assert(pieces.take(i as int).last() == pieces[i - 1]);
            }
        }
        assert(pieces.take(i as int) =~= pieces);
        let ghost before = self@.framed.events;
        let ghost content = data@;
        self.palette = Vec::new();
        self.events.push(InputEvent::StdinInput(data, state));
        assert(self@.framed.palette =~= Seq::empty());
        assert(self@.framed.events =~= before.push(InputEventView::StdinInput(content, state)));
    }

    fn append_chunk(&mut self, chunk: FramedChunk, context: HostInputContext)
        ensures
            final(self)@ == (FramingView {
                framed: old(self)@.framed.chunk(chunk@, context),
                ..old(self)@
            }),
    {
        if chunk.palette_response {
            let ghost before = self@.framed.palette;
            let ghost content = chunk.data@;
            self.palette.push(chunk.data);
            assert(self@.framed.palette =~= before.push(content));
            if self.palette.len() == PALETTE_BATCH {
                self.flush_unix_palette_input(context.state);
            }
            return ;
        }
        if !chunk.default_color_response {
            self.flush_unix_palette_input(context.state);
        }
        let ghost before = self@.framed.events;
        if let Some(event) = classify_unix_input(chunk, context) {
            let ghost content = event@;
            self.events.push(event);
            assert(self@.framed.events =~= before.push(content));
        }
    }

    /// Turns whole sequences into events.
    pub fn append_unix_input_chunks(
        &mut self,
        chunks: Vec<FramedChunk>,
        context: HostInputContext,
    )
        ensures
            final(self)@ == (FramingView {
                framed: old(self)@.framed.chunks(chunk_views(chunks@), context),
                ..old(self)@
            }),
    {
        let ghost all = chunk_views(chunks@);
        let ghost start = self@;
        let mut rest = chunks;
        let mut done: usize = 0;
        let total: usize = rest.len();
        assert(all.take(0) =~= Seq::empty());
        while done < total
            invariant
                done <= total,
                total == all.len(),
                rest@.len() == total - done,
                chunk_views(rest@) == all.skip(done as int),
                self@ == (FramingView {
                    framed: start.framed.chunks(all.take(done as int), context),
                    ..start
                }),
            decreases total - done,
        {
            let ghost before = rest@;
            let chunk = rest.remove(0);
            proof {
                assert(before[0]@ == chunk_views(before)[0]);
                assert(chunk@ == all[done as int]);
                assert(all.take(done + 1).drop_last() =~= all.take(done as int));
                assert(all.take(done + 1).last() == all[done as int]);
                assert(chunk_views(rest@) =~= chunk_views(before).skip(1));
                assert(all.skip(done as int).skip(1) =~= all.skip(done + 1));
            }
            self.append_chunk(chunk, context);
            done += 1;
        }
        assert(all.take(done as int) =~= all);
    }

    fn continue_bytes(
        &mut self,
        len: usize,
        next: usize,
        current: HostInputContext,
        continued: HostInputContext,
        framer_pending: bool,
        emitted: bool,
    ) -> (ask: FramingAsk)
        requires
            next <= len,
        ensures
            (final(self)@, ask) == old(self)@.continued(
                len,
                next,
                current,
                continued,
                framer_pending,
                emitted,
            ),
    {
        if !emitted && next < len && framer_pending {
            self.phase = FramingPhase::Continuing { len, next: next + 1, current, continued };
            FramingAsk::Push { start: next, end: next + 1 }
        } else if framer_pending && next == len {
            self.pending = Some(continued);
            self.phase = FramingPhase::Ready;
            FramingAsk::Done
        } else {
            self.pending = if framer_pending {
                Some(current)
            } else {
                None
            };
            if next == len {
                self.phase = FramingPhase::Ready;
                FramingAsk::Done
            } else {
                self.phase = FramingPhase::Taking { current };
                FramingAsk::Push { start: next, end: len }
            }
        }
    }

    /// Takes up new input of `len` bytes. `continued` is the state that the unfinished
    /// input's state and this one make together, if there is unfinished input.
    pub fn frame_input(
        &mut self,
        len: usize,
        state: HostInputSnapshot,
        observed: Option<HostGeometry>,
        continued: HostInputSnapshot,
        framer_pending: bool,
    ) -> (ask: FramingAsk)
        requires
            old(self)@.wf(),
        ensures
            (final(self)@, ask) == old(self)@.begun(
                len,
                state,
                observed,
                continued,
                framer_pending,
            ),
            final(self)@.wf(),
    {
        let geometry = input_geometry(&mut self.last_geometry, state, observed);
        let current = HostInputContext { state, geometry };
        if let Some(pending) = self.pending {
            let kept = HostInputContext {
                state: continued,
                geometry: if same_geometry(pending.geometry, geometry) {
                    geometry
                } else {
                    None
                },
            };
            if kept.state != state || !same_geometry(kept.geometry, geometry) {
                return self.continue_bytes(len, 0, current, kept, framer_pending, false);
            }
        }
        self.phase = FramingPhase::Taking { current };
        FramingAsk::Push { start: 0, end: len }
    }

    /// Takes the whole sequences that the framer gave for the bytes it was asked to take.
    pub fn pushed(&mut self, chunks: Vec<FramedChunk>, framer_pending: bool) -> (ask: FramingAsk)
        requires
            old(self)@.wf(),
        ensures
            (final(self)@, ask) == old(self)@.pushed(chunk_views(chunks@), framer_pending),
            final(self)@.wf(),
    {
        proof {
            match self@.phase {
                FramingPhase::Continuing { continued, .. } => lemma_chunks_bounded(
                    self@.framed,
                    chunk_views(chunks@),
                    continued,
                ),
                FramingPhase::Taking { current } => lemma_chunks_bounded(
                    self@.framed,
                    chunk_views(chunks@),
                    current,
                ),
                _ => {},
            }
        }
        match self.phase {
            FramingPhase::Continuing { len, next, current, continued } => {
                let emitted = chunks.len() > 0;
                self.append_unix_input_chunks(chunks, continued);
                self.continue_bytes(len, next, current, continued, framer_pending, emitted)
            },
            FramingPhase::Taking { current } => {
                self.pending = if framer_pending {
                    Some(current)
                } else {
                    None
                };
                self.append_unix_input_chunks(chunks, current);
                self.phase = FramingPhase::Ready;
                FramingAsk::Done
            },
            _ => FramingAsk::Done,
        }
    }

    /// Takes up a pause in the input.
    pub fn flush_framer_after_idle(
        &mut self,
        framer: FramerState,
        state: HostInputSnapshot,
        observed: Option<HostGeometry>,
    ) -> (ask: FramingAsk)
        requires
            old(self)@.wf(),
        ensures
            (final(self)@, ask) == old(self)@.paused(framer, state, observed),
            final(self)@.wf(),
    {
        if !framer.pending && self.palette.len() == 0 {
            return FramingAsk::Nothing;
        }
        let geometry = input_geometry(&mut self.last_geometry, state, observed);
        let current = HostInputContext { state, geometry };
        let context = match self.pending {
            Some(pending) => pending,
            None => current,
        };
        self.phase = FramingPhase::Waiting { current, context };
        FramingAsk::Wait {
            timeout: idle_flush_timeout_ms(framer, context.state.capture_active, self.timeouts),
        }
    }

    /// Takes whether input came during the wait.
    pub fn waited(&mut self, ready: Option<bool>) -> (ask: FramingAsk)
        requires
            old(self)@.wf(),
        ensures
            (final(self)@, ask) == old(self)@.waited(ready),
            final(self)@.wf(),
    {
        let quiet = match ready {
            Some(ready) => !ready,
            None => false,
        };
        match self.phase {
            FramingPhase::Waiting { current, context } => {
                if quiet {
                    self.phase = FramingPhase::Flushing { current, context };
                    FramingAsk::Flush
                } else {
                    self.phase = FramingPhase::Ready;
                    FramingAsk::Nothing
                }
            },
            FramingPhase::WaitingAgain { current } => {
                if quiet {
                    self.phase = FramingPhase::FlushingAgain { current };
                    FramingAsk::Flush
                } else {
                    self.phase = FramingPhase::Ready;
                    FramingAsk::Done
                }
            },
            _ => FramingAsk::Nothing,
        }
    }

    /// Takes what the framer gave up.
    pub fn flushed(&mut self, had_pending: bool, chunks: Vec<FramedChunk>, framer_pending: bool) -> (
    ask: FramingAsk)
        requires
            old(self)@.wf(),
        ensures
            (final(self)@, ask) == old(self)@.given_up(
                had_pending,
                chunk_views(chunks@),
                framer_pending,
            ),
            final(self)@.wf(),
    {
        let ghost views = chunk_views(chunks@);
        match self.phase {
            FramingPhase::Flushing { current, context } => {
                proof {
                    lemma_chunks_bounded(self@.framed, views, context);
                }
                let held = had_pending && chunks.len() == 0;
                self.pending = if framer_pending {
                    Some(context)
                } else {
                    None
                };
                self.append_unix_input_chunks(chunks, context);
                self.flush_unix_palette_input(context.state);
                if held {
                    self.phase = FramingPhase::WaitingAgain { current };
                    FramingAsk::Wait { timeout: self.timeouts.idle_flush }
                } else {
                    self.phase = FramingPhase::Ready;
                    FramingAsk::Done
                }
            },
            FramingPhase::FlushingAgain { current } => {
                let context = match self.pending {
                    Some(pending) => pending,
                    None => current,
                };
                proof {
                    lemma_chunks_bounded(self@.framed, views, context);
                }
                self.pending = if framer_pending {
                    Some(context)
                } else {
                    None
                };
                self.append_unix_input_chunks(chunks, context);
                self.phase = FramingPhase::Ready;
                FramingAsk::Done
            },
            _ => FramingAsk::Nothing,
        }
    }
}

/// The bytes of all events, one after the other.
pub open spec fn event_data(events: Seq<InputEventView>) -> Seq<u8>
    decreases events.len(),
{
    if events.len() == 0 {
        Seq::empty()
    } else {
        event_data(events.drop_last()) + events.last().data()
    }
}

/// The bytes of all sequences, one after the other.
pub open spec fn chunk_data(chunks: Seq<ChunkView>) -> Seq<u8>
    decreases chunks.len(),
{
    if chunks.len() == 0 {
        Seq::empty()
    } else {
        chunk_data(chunks.drop_last()) + chunks.last().data
    }
}

proof fn lemma_flush_keeps(framed: FramedView, state: HostInputSnapshot)
    ensures
        event_data(framed.flushed(state).events) + concat(framed.flushed(state).palette)
            == event_data(framed.events) + concat(framed.palette),
        framed.flushed(state).palette.len() == 0,
{
    if framed.palette.len() > 0 {
        let event = InputEventView::StdinInput(concat(framed.palette), state);
        assert(framed.events.push(event).drop_last() =~= framed.events);
        assert(framed.flushed(state).events.last() == event);
        assert(concat(Seq::<Seq<u8>>::empty()) =~= Seq::empty());
        assert(event_data(framed.flushed(state).events) + Seq::<u8>::empty() =~= event_data(
            framed.events,
        ) + concat(framed.palette));
    }
}

/// Input is neither lost nor reordered: the events and the waiting palette replies
/// hold, in order, what they held before and then the new sequences. That is so unless
/// a reply for a default colour passes palette replies, or a pixel report comes without
/// a geometry.
pub proof fn law_input_kept_in_order(
    framed: FramedView,
    chunks: Seq<ChunkView>,
    context: HostInputContext,
)
    requires
        forall|i: int|
            0 <= i < chunks.len() ==> (#[trigger] chunks[i]).palette_response
                || !chunks[i].default_color_response,
        !context.state.sgr_pixels_active || context.geometry is Some,
    ensures
        ({
            let after = framed.chunks(chunks, context);
            event_data(after.events) + concat(after.palette) == event_data(framed.events) + concat(
                framed.palette,
            ) + chunk_data(chunks)
        }),
    decreases chunks.len(),
{
    let before = event_data(framed.events) + concat(framed.palette);
    if chunks.len() == 0 {
        assert(before + Seq::<u8>::empty() =~= before);
    } else {
        let rest = chunks.drop_last();
        let last = chunks.last();
        assert forall|i: int| 0 <= i < rest.len() implies (#[trigger] rest[i]).palette_response
            || !rest[i].default_color_response by {
            assert(rest[i] == chunks[i]);
        }
        law_input_kept_in_order(framed, rest, context);
        let middle = framed.chunks(rest, context);
        let held = event_data(middle.events) + concat(middle.palette);
        assert(last == chunks[chunks.len() - 1]);
        if last.palette_response {
            let batched = FramedView { palette: middle.palette.push(last.data), ..middle };
            assert(batched.palette.drop_last() =~= middle.palette);
            assert(event_data(batched.events) + concat(batched.palette) =~= held + last.data);
            lemma_flush_keeps(batched, context.state);
        } else {
            lemma_flush_keeps(middle, context.state);
            let ready = middle.flushed(context.state);
            let event = classified(last, context)->0;
            assert(ready.events.push(event).drop_last() =~= ready.events);
            assert(concat(ready.palette) =~= Seq::empty());
            assert(event.data() == last.data);
            assert(event_data(ready.events.push(event)) + concat(ready.palette) =~= held
                + last.data);
        }
        assert(held + last.data =~= before + chunk_data(chunks));
    }
}

/// A geometry never crosses generations: what is remembered from one generation is not
/// used in another.
pub proof fn law_geometry_stays_in_its_generation(
    last: Option<(u64, HostGeometry)>,
    state: HostInputSnapshot,
)
    requires
        last matches Some((generation, _)) ==> generation != state.generation,
    ensures
        geometry_for(last, state, None).1 is None,
{
}

/// Input that is unfinished when the state changes is finished under a state that knows
/// of the change, and only it: as long as the framer has given nothing, bytes go to it
/// one at a time.
pub proof fn law_unfinished_input_is_taken_byte_by_byte(
    framing: FramingView,
    len: usize,
    state: HostInputSnapshot,
    observed: Option<HostGeometry>,
    continued: HostInputSnapshot,
)
    requires
        framing.pending is Some,
        continued != state,
        len > 0,
    ensures
        framing.begun(len, state, observed, continued, true).1 == (FramingAsk::Push {
            start: 0,
            end: 1,
        }),
{
}

/// A mouse report in pixels keeps the geometry that it was read under, and is dropped where
/// none is known; everything else is passed on as it came, with the state it was read in.
pub proof fn law_pixel_reports_keep_their_geometry(chunk: ChunkView, context: HostInputContext)
    ensures
        context.state.sgr_pixels_active && chunk.mouse_report ==> match context.geometry {
            Some(geometry) => classified(chunk, context) == Some(
                InputEventView::PixelMouse(chunk.data, geometry, context.state),
            ),
            None => classified(chunk, context) is None,
        },
        !context.state.sgr_pixels_active || !chunk.mouse_report ==> classified(chunk, context)
            == Some(InputEventView::StdinInput(chunk.data, context.state)),
{
}

/// A geometry that is seen now is used and remembered with its generation; otherwise the one
/// that is remembered from this generation is used. Without pixel reports nothing is asked for
/// and nothing forgotten.
pub proof fn law_geometry_is_remembered(
    last: Option<(u64, HostGeometry)>,
    state: HostInputSnapshot,
    geometry: HostGeometry,
)
    ensures
        state.sgr_pixels_active ==> geometry_for(last, state, Some(geometry)) == (
            Some((state.generation, geometry)),
            Some(geometry),
        ),
        state.sgr_pixels_active ==> geometry_for(
            Some((state.generation, geometry)),
            state,
            None,
        ) == (Some((state.generation, geometry)), Some(geometry)),
        state.sgr_pixels_active ==> geometry_for(last, state, None).0 == last,
        !state.sgr_pixels_active ==> geometry_for(last, state, Some(geometry)) == (
            last,
            None::<HostGeometry>,
        ),
{
}

/// Unfinished input waits for the longer time exactly where the mouse is captured and it may
/// still become a mouse report.
pub proof fn law_possible_mouse_reports_wait_longer(
    framer: FramerState,
    capture_active: bool,
    timeouts: InputTimeouts,
)
    ensures
        capture_active && framer.lone_escape ==> flush_timeout(framer, capture_active, timeouts)
            == timeouts.mouse_escape,
        capture_active && framer.incomplete_mouse ==> flush_timeout(
            framer,
            capture_active,
            timeouts,
        ) == timeouts.mouse_escape,
        !capture_active ==> flush_timeout(framer, capture_active, timeouts) == timeouts.idle_flush,
        !framer.lone_escape && !framer.incomplete_mouse ==> flush_timeout(
            framer,
            capture_active,
            timeouts,
        ) == timeouts.idle_flush,
{
}

/// Palette replies wait for each other: they become one event together, when two hundred and
/// fifty-six of them have come or when other input comes.
pub proof fn law_palette_replies_are_batched(
    framed: FramedView,
    chunk: ChunkView,
    context: HostInputContext,
)
    requires
        framed.palette.len() < 256,
    ensures
        chunk.palette_response && framed.palette.len() < 255 ==> framed.chunk(chunk, context) == (
        FramedView { palette: framed.palette.push(chunk.data), events: framed.events }),
        chunk.palette_response && framed.palette.len() == 255 ==> framed.chunk(chunk, context) == (
        FramedView {
            palette: Seq::empty(),
            events: framed.events.push(
                InputEventView::StdinInput(concat(framed.palette) + chunk.data, context.state),
            ),
        }),
        !chunk.palette_response && !chunk.default_color_response && framed.palette.len() > 0
            && !chunk.mouse_report ==> framed.chunk(chunk, context) == (FramedView {
            palette: Seq::empty(),
            events: framed.events.push(
                InputEventView::StdinInput(concat(framed.palette), context.state),
            ).push(InputEventView::StdinInput(chunk.data, context.state)),
        }),
        !chunk.palette_response && chunk.default_color_response && !chunk.mouse_report
            ==> framed.chunk(chunk, context) == (FramedView {
            palette: framed.palette,
            events: framed.events.push(InputEventView::StdinInput(chunk.data, context.state)),
        }),
{
    let batched = framed.palette.push(chunk.data);
    assert(batched.drop_last() =~= framed.palette);
    assert(batched.last() == chunk.data);
}

/// New input without unfinished input before it is given to the framer whole, and what the
/// framer gives back is taken under the state that the input was read in.
pub proof fn law_new_input_is_framed_whole(
    framing: FramingView,
    len: usize,
    state: HostInputSnapshot,
    observed: Option<HostGeometry>,
    continued: HostInputSnapshot,
    chunk: ChunkView,
    framer_pending: bool,
)
    requires
        framing.pending is None,
        !state.sgr_pixels_active,
        !chunk.palette_response,
        framing.framed.palette.len() == 0,
    ensures
        ({
            let (asked, ask) = framing.begun(len, state, observed, continued, framer_pending);
            let (done, end) = asked.pushed(seq![chunk], framer_pending);
            &&& ask == (FramingAsk::Push { start: 0, end: len })
            &&& end is Done
            &&& done.framed.events == framing.framed.events.push(
                InputEventView::StdinInput(chunk.data, state),
            )
            &&& done.phase is Ready
            &&& framer_pending ==> done.pending == Some(
                HostInputContext { state, geometry: None::<HostGeometry> },
            )
            &&& !framer_pending ==> done.pending is None
        }),
{
    reveal_with_fuel(FramedView::chunks, 2);
    assert(seq![chunk].drop_last() =~= Seq::<ChunkView>::empty());
    assert(seq![chunk].last() == chunk);
}

/// Unfinished input that is continued is finished under the continued state; as soon as the
/// framer has given something, the rest of the input is taken under its own state.
pub proof fn law_continued_input_returns_to_its_state(
    framing: FramingView,
    len: usize,
    next: usize,
    current: HostInputContext,
    continued: HostInputContext,
    chunk: ChunkView,
    framer_pending: bool,
)
    requires
        framing.phase == (FramingPhase::Continuing { len, next, current, continued }),
        next <= len,
        !continued.state.sgr_pixels_active,
        !chunk.palette_response,
        framing.framed.palette.len() == 0,
    ensures
        ({
            let (after, ask) = framing.pushed(seq![chunk], framer_pending);
            &&& after.framed.events == framing.framed.events.push(
                InputEventView::StdinInput(chunk.data, continued.state),
            )
            &&& next < len ==> ask == (FramingAsk::Push { start: next, end: len }) && after.phase
                == (FramingPhase::Taking { current })
            &&& next == len ==> ask is Done && after.phase is Ready
            &&& !framer_pending ==> after.pending is None
            &&& framer_pending && next < len ==> after.pending == Some(current)
            &&& framer_pending && next == len ==> after.pending == Some(continued)
        }),
{
    reveal_with_fuel(FramedView::chunks, 2);
    assert(seq![chunk].drop_last() =~= Seq::<ChunkView>::empty());
    assert(seq![chunk].last() == chunk);
}

/// Where nothing is unfinished and no palette reply waits, a pause asks for nothing. Otherwise
/// it is waited for the time that belongs to the unfinished input, and given up only when no
/// input came meanwhile.
pub proof fn law_pause_gives_up_what_is_unfinished(
    framing: FramingView,
    framer: FramerState,
    state: HostInputSnapshot,
    observed: Option<HostGeometry>,
    ready: Option<bool>,
)
    ensures
        !framer.pending && framing.framed.palette.len() == 0 ==> framing.paused(
            framer,
            state,
            observed,
        ) == (framing, FramingAsk::Nothing),
        framer.pending || framing.framed.palette.len() > 0 ==> ({
            let (waiting, ask) = framing.paused(framer, state, observed);
            let (after, asked) = waiting.waited(ready);
            &&& ask is Wait
            &&& framing.pending is None && state.capture_active && framer.lone_escape
                ==> ask->timeout == framing.timeouts.mouse_escape
            &&& framing.pending is None && !state.capture_active ==> ask->timeout
                == framing.timeouts.idle_flush
            &&& framing.pending matches Some(pending) ==> (pending.state.capture_active
                && framer.lone_escape ==> ask->timeout == framing.timeouts.mouse_escape)
            &&& framing.pending matches Some(pending) ==> (!pending.state.capture_active
                ==> ask->timeout == framing.timeouts.idle_flush)
            &&& ready == Some(false) ==> asked is Flush
            &&& ready != Some(false) ==> asked is Nothing && after.phase is Ready
            &&& after.framed == framing.framed
            &&& after.pending == framing.pending
        }),
{
}

/// What is given up after a pause is taken under the state that it began in, after the palette
/// replies; where the framer held an escape back, it is waited once more, and then given up
/// for good.
pub proof fn law_given_up_input_is_taken(
    framing: FramingView,
    current: HostInputContext,
    context: HostInputContext,
    chunk: ChunkView,
    had_pending: bool,
    framer_pending: bool,
)
    requires
        framing.phase == (FramingPhase::Flushing { current, context }),
        !context.state.sgr_pixels_active,
        !chunk.palette_response,
        !chunk.default_color_response,
    ensures
        ({
            let (after, ask) = framing.given_up(had_pending, seq![chunk], framer_pending);
            &&& ask is Done
            &&& after.phase is Ready
            &&& after.framed.palette.len() == 0
            &&& framing.framed.palette.len() == 0 ==> after.framed.events
                == framing.framed.events.push(
                InputEventView::StdinInput(chunk.data, context.state),
            )
            &&& framing.framed.palette.len() > 0 ==> after.framed.events
                == framing.framed.events.push(
                InputEventView::StdinInput(concat(framing.framed.palette), context.state),
            ).push(InputEventView::StdinInput(chunk.data, context.state))
        }),
        ({
            let (again, ask) = framing.given_up(true, Seq::<ChunkView>::empty(), framer_pending);
            &&& ask == (FramingAsk::Wait { timeout: framing.timeouts.idle_flush })
            &&& again.framed.palette.len() == 0
            &&& framing.framed.palette.len() == 0 ==> again.framed.events == framing.framed.events
            &&& framing.framed.palette.len() > 0 ==> again.framed.events
                == framing.framed.events.push(
                InputEventView::StdinInput(concat(framing.framed.palette), context.state),
            )
            &&& again.waited(Some(false)).1 is Flush
            &&& again.waited(Some(true)).1 is Done
            &&& again.waited(None).1 is Done
        }),
        framing.given_up(false, Seq::<ChunkView>::empty(), framer_pending).1 is Done,
{
    reveal_with_fuel(FramedView::chunks, 2);
    assert(seq![chunk].drop_last() =~= Seq::<ChunkView>::empty());
    assert(seq![chunk].last() == chunk);
}

/// What the framer gives up the second time is taken under the state in which it began, or,
/// where nothing is known of that, under the state of now.
pub proof fn law_held_back_escape_is_taken(
    framing: FramingView,
    current: HostInputContext,
    chunk: ChunkView,
    had_pending: bool,
    framer_pending: bool,
)
    requires
        framing.phase == (FramingPhase::FlushingAgain { current }),
        framing.framed.palette.len() == 0,
        !chunk.palette_response,
        !chunk.mouse_report,
    ensures
        ({
            let (after, ask) = framing.given_up(had_pending, seq![chunk], framer_pending);
            &&& ask is Done
            &&& after.phase is Ready
            &&& framing.pending is None ==> after.framed.events == framing.framed.events.push(
                InputEventView::StdinInput(chunk.data, current.state),
            )
            &&& framing.pending matches Some(pending) ==> after.framed.events
                == framing.framed.events.push(
                InputEventView::StdinInput(chunk.data, pending.state),
            )
        }),
{
    reveal_with_fuel(FramedView::chunks, 2);
    assert(seq![chunk].drop_last() =~= Seq::<ChunkView>::empty());
    assert(seq![chunk].last() == chunk);
}

} // verus!
