//! What an agent's terminal output says about it: its title, its progress and
//! the rows where its replies begin.
use crate::bytes::{
    after, before, bytes_equal, copied, is_text, position, split_fields, strip_prefix,
};
use crate::osc::screen::{PrimaryScreenEscapeTracker, ScreenView};
use crate::osc::stream::{OscStreamCollector, StreamView};
use crate::text::{self, same_opt_text, sanitize};
use std::collections::VecDeque;
use vstd::prelude::*;

verus! {

/// Maximum retained length of agent title and progress payloads. Title text is
/// untrusted model output; the cap bounds memory and log size.
pub const AGENT_OSC_MAX_CHARS: usize = 256;

/// Maximum retained reply ID length. The pending queue lives only for the
/// current buffer, so its total allocation is bounded by that buffer.
pub const OMP_REPLY_ANCHOR_MAX_BYTES: usize = 256;

/// Which process, and which of its reply sessions, a decision was made about.
#[derive(Debug, Clone, Copy, PartialEq, Eq, Structural)]
pub struct OmpReplyGenerationToken {
    pub process: u64,
    pub marker_epoch: u64,
}

impl OmpReplyGenerationToken {
    pub open spec fn initial() -> Self {
        OmpReplyGenerationToken { process: 0, marker_epoch: 0 }
    }

    pub open spec fn after_process(self) -> Self {
        OmpReplyGenerationToken { process: self.process.wrapping_add(1), ..self }
    }

    pub open spec fn after_marker(self) -> Self {
        OmpReplyGenerationToken { marker_epoch: self.marker_epoch.wrapping_add(1), ..self }
    }

    fn next_process(self) -> (next: Self)
        ensures
            next == self.after_process(),
    {
        OmpReplyGenerationToken {
            process: self.process.wrapping_add(1),
            marker_epoch: self.marker_epoch,
        }
    }

    fn next_marker(self) -> (next: Self)
        ensures
            next == self.after_marker(),
    {
        OmpReplyGenerationToken {
            process: self.process,
            marker_epoch: self.marker_epoch.wrapping_add(1),
        }
    }
}

/// A reply marker that was seen and is not yet bound to a row.
#[derive(Debug)]
pub struct PendingOmpReplyAnchor {
    pub end_offset: usize,
    pub anchor_id: Vec<u8>,
}

/// What one chunk of output changed.
#[derive(Debug)]
pub struct AgentOscObservation {
    pub terminal_title_changed: bool,
    pub reply_anchor_events: Vec<PendingOmpReplyAnchor>,
    pub reset_reply_selection: bool,
}

/// A reply bound to a row that the terminal tracks under `row`.
#[derive(Debug)]
pub struct OmpReplyAnchor {
    pub id: Vec<u8>,
    pub row: u64,
}

/// What the terminal says about a tracked row at this moment.
#[derive(Debug, Clone, Copy, PartialEq, Eq, Structural)]
pub struct AnchorRow {
    pub has_value: bool,
    pub primary_prompt: bool,
    pub screen_row: Option<usize>,
}

/// The content of an observation.
pub struct ObservationView {
    pub terminal_title_changed: bool,
    pub reply_anchors: Seq<(int, Seq<u8>)>,
    pub reset_reply_selection: bool,
}

/// The content of a tracker.
pub struct AgentView {
    pub collector: StreamView,
    pub escapes: ScreenView,
    pub latest_title: Option<Seq<char>>,
    pub terminal_title: Option<Seq<char>>,
    pub latest_progress: Option<Seq<char>>,
    pub reply_session: Option<Seq<u8>>,
    pub reply_anchors: Seq<(Seq<u8>, u64)>,
    pub reply_generation: OmpReplyGenerationToken,
}

pub open spec fn pending_views(events: Seq<PendingOmpReplyAnchor>) -> Seq<(int, Seq<u8>)> {
    Seq::new(events.len(), |i: int| (events[i].end_offset as int, events[i].anchor_id@))
}

pub open spec fn anchor_views(anchors: Seq<OmpReplyAnchor>) -> Seq<(Seq<u8>, u64)> {
    Seq::new(anchors.len(), |i: int| (anchors[i].id@, anchors[i].row))
}

pub open spec fn row_views(rows: Seq<(Vec<u8>, usize)>) -> Seq<(Seq<u8>, usize)> {
    Seq::new(rows.len(), |i: int| (rows[i].0@, rows[i].1))
}

impl View for AgentOscObservation {
    type V = ObservationView;

    open spec fn view(&self) -> ObservationView {
        ObservationView {
            terminal_title_changed: self.terminal_title_changed,
            reply_anchors: pending_views(self.reply_anchor_events@),
            reset_reply_selection: self.reset_reply_selection,
        }
    }
}

impl ObservationView {
    pub open spec fn nothing() -> ObservationView {
        ObservationView {
            terminal_title_changed: false,
            reply_anchors: Seq::empty(),
            reset_reply_selection: false,
        }
    }
}

/// A payload as it is retained.
pub open spec fn retained_text(payload: Seq<u8>) -> Seq<char> {
    text::at_most(text::printable(text::utf8_lossy(payload)), AGENT_OSC_MAX_CHARS as int)
}

/// The title that a payload sets; an empty one clears it.
pub open spec fn title_of(payload: Seq<u8>) -> Option<Seq<char>> {
    if retained_text(payload).len() == 0 {
        None
    } else {
        Some(retained_text(payload))
    }
}

/// Letters, digits, `-` and `_` only, and at least one of them.
pub open spec fn safe_id_part(value: Seq<u8>) -> bool {
    value.len() > 0 && forall|i: int| 0 <= i < value.len() ==> safe_id_byte(#[trigger] value[i])
}

pub open spec fn safe_id_byte(byte: u8) -> bool {
    ||| 'a' as u8 <= byte <= 'z' as u8
    ||| 'A' as u8 <= byte <= 'Z' as u8
    ||| '0' as u8 <= byte <= '9' as u8
    ||| byte == '-' as u8
    ||| byte == '_' as u8
}

/// What follows `prefix` in the first piece from `from` on that begins with it.
pub open spec fn first_with_prefix(pieces: Seq<Seq<u8>>, prefix: Seq<u8>, from: int) -> Option<
    Seq<u8>,
>
    decreases pieces.len() - from,
{
    if from >= pieces.len() {
        None
    } else if prefix.is_prefix_of(pieces[from]) {
        Some(pieces[from].skip(prefix.len() as int))
    } else {
        first_with_prefix(pieces, prefix, from + 1)
    }
}

/// The reply that an `A` prompt marker names, as `<session>:<reply>`.
pub open spec fn reply_id(payload: Seq<u8>) -> Option<Seq<u8>> {
    let pieces = crate::bytes::fields(payload, ';' as u8);
    if pieces[0] != crate::bytes::utf8("A") {
        None
    } else {
        match first_with_prefix(pieces, crate::bytes::utf8("aid=omp-response-"), 1) {
            Some(id) => {
                let separator = crate::bytes::index_of(id, ':' as u8);
                if separator < id.len() && id.len() <= OMP_REPLY_ANCHOR_MAX_BYTES && safe_id_part(
                    id.take(separator),
                ) && safe_id_part(id.skip(separator + 1)) {
                    Some(id)
                } else {
                    None
                }
            },
            None => None,
        }
    }
}

/// The session part of a reply ID.
pub open spec fn reply_session_of(id: Seq<u8>) -> Seq<u8> {
    id.take(crate::bytes::index_of(id, ':' as u8))
}

impl AgentView {
    pub open spec fn initial() -> AgentView {
        AgentView {
            collector: StreamView::initial(),
            escapes: ScreenView::initial(),
            latest_title: None,
            terminal_title: None,
            latest_progress: None,
            reply_session: None,
            reply_anchors: Seq::empty(),
            reply_generation: OmpReplyGenerationToken::initial(),
        }
    }

    /// A complete OSC body that ended at `end_offset`.
    pub open spec fn receive(self, seen: ObservationView, body: Seq<u8>, end_offset: int) -> (
        AgentView,
        ObservationView,
    ) {
        let separator = crate::bytes::index_of(body, ';' as u8);
        let command = body.take(separator);
        let payload = body.skip(separator + 1);
        if separator == body.len() {
            (self, seen)
        } else if command == crate::bytes::utf8("0") || command == crate::bytes::utf8("2") {
            let title = title_of(payload);
            (
                AgentView { latest_title: title, terminal_title: title, ..self },
                ObservationView {
                    terminal_title_changed: seen.terminal_title_changed || self.terminal_title
                        != title,
                    ..seen
                },
            )
        } else if command == crate::bytes::utf8("9") {
            (AgentView { latest_progress: Some(retained_text(payload)), ..self }, seen)
        } else if command == crate::bytes::utf8("133") && !self.escapes.alternate_screen {
            match reply_id(payload) {
                Some(id) => self.receive_reply(seen, id, end_offset),
                None => (self, seen),
            }
        } else {
            (self, seen)
        }
    }

    /// A reply marker. The first marker of a session other than the current
    /// one starts a new marker epoch and drops every earlier anchor.
    pub open spec fn receive_reply(self, seen: ObservationView, id: Seq<u8>, end_offset: int) -> (
        AgentView,
        ObservationView,
    ) {
        if self.reply_session == Some(reply_session_of(id)) {
            (
                self,
                ObservationView { reply_anchors: seen.reply_anchors.push((end_offset, id)), ..seen },
            )
        } else {
            (
                AgentView {
                    reply_generation: self.reply_generation.after_marker(),
                    reply_anchors: Seq::empty(),
                    reply_session: Some(reply_session_of(id)),
                    ..self
                },
                ObservationView {
                    reply_anchors: seq![(end_offset, id)],
                    reset_reply_selection: true,
                    ..seen
                },
            )
        }
    }

    /// One byte of output, the `end_offset`th of its chunk.
    pub open spec fn step(self, seen: ObservationView, byte: u8, end_offset: int) -> (
        AgentView,
        ObservationView,
    ) {
        let (escapes, clear) = self.escapes.step(byte);
        let (collector, body) = self.collector.step(byte);
        let next = AgentView {
            escapes,
            collector,
            reply_anchors: if clear {
                Seq::empty()
            } else {
                self.reply_anchors
            },
            ..self
        };
        let seen = if clear {
            ObservationView { reply_anchors: Seq::empty(), reset_reply_selection: true, ..seen }
        } else {
            seen
        };
        match body {
            Some(body) => next.receive(seen, body, end_offset),
            None => (next, seen),
        }
    }

    /// A chunk of output whose first byte is the `offset + 1`th.
    pub open spec fn run(self, seen: ObservationView, bytes: Seq<u8>, offset: int) -> (
        AgentView,
        ObservationView,
    )
        decreases bytes.len(),
    {
        if bytes.len() == 0 {
            (self, seen)
        } else {
            let (agent, seen) = self.run(seen, bytes.drop_last(), offset);
            agent.step(seen, bytes.last(), offset + bytes.len())
        }
    }

    /// The tracker when it is told which screen is shown.
    pub open spec fn on_screen(self, alternate_screen: bool) -> AgentView {
        AgentView { escapes: ScreenView { alternate_screen, ..self.escapes }, ..self }
    }

    /// The tracker without the anchors whose rows are gone.
    pub open spec fn pruned(self, rows: Seq<AnchorRow>) -> AgentView {
        AgentView { reply_anchors: live_anchors(self.reply_anchors, rows), ..self }
    }

    pub open spec fn without_replies(self) -> AgentView {
        AgentView { reply_session: None, reply_anchors: Seq::empty(), ..self }
    }

    /// The end of the process that `expected` names: the next state, and
    /// whether the reply state was reset.
    pub open spec fn reset_if_current(
        self,
        expected: OmpReplyGenerationToken,
        preserve_newer_replacement_marker: bool,
    ) -> (AgentView, bool) {
        if self.reply_generation.process != expected.process {
            (self, false)
        } else {
            let next = AgentView { reply_generation: self.reply_generation.after_process(), ..self };
            if preserve_newer_replacement_marker && self.reply_generation.marker_epoch
                != expected.marker_epoch {
                (next, false)
            } else {
                (
                    AgentView { collector: StreamView::initial(), ..next.without_replies() },
                    true,
                )
            }
        }
    }

    /// The row of a reply: an anchor with the same ID moves and keeps its place.
    pub open spec fn bind(self, id: Seq<u8>, row: u64) -> AgentView {
        let at = anchor_index(self.reply_anchors, id);
        AgentView {
            reply_anchors: if at < self.reply_anchors.len() {
                self.reply_anchors.update(at, (id, row))
            } else {
                self.reply_anchors.push((id, row))
            },
            ..self
        }
    }
}

/// Where the anchor with this ID first stands; the number of anchors when none has it.
pub open spec fn anchor_index(anchors: Seq<(Seq<u8>, u64)>, id: Seq<u8>) -> int
    decreases anchors.len(),
{
    if anchors.len() == 0 || anchors[0].0 == id {
        0
    } else {
        1 + anchor_index(anchors.drop_first(), id)
    }
}

proof fn lemma_anchor_index(anchors: Seq<(Seq<u8>, u64)>, id: Seq<u8>, i: int)
    requires
        0 <= i <= anchors.len(),
        i < anchors.len() ==> anchors[i].0 == id,
        forall|j: int| 0 <= j < i ==> (#[trigger] anchors[j]).0 != id,
    ensures
        anchor_index(anchors, id) == i,
    decreases anchors.len(),
{
    if i > 0 {
        assert(anchors[0].0 != id);
        assert forall|j: int| 0 <= j < i - 1 implies (#[trigger] anchors.drop_first()[j]).0
            != id by {
            assert(anchors.drop_first()[j] == anchors[j + 1]);
        }
        lemma_anchor_index(anchors.drop_first(), id, i - 1);
    }
}

/// The anchors whose rows still exist and still are primary prompts, in order.
pub open spec fn live_anchors(anchors: Seq<(Seq<u8>, u64)>, rows: Seq<AnchorRow>) -> Seq<
    (Seq<u8>, u64),
>
    decreases anchors.len(),
{
    if anchors.len() == 0 {
        anchors
    } else {
        let earlier = live_anchors(anchors.drop_last(), rows);
        let row = rows[anchors.len() - 1];
        if row.has_value && row.primary_prompt {
            earlier.push(anchors.last())
        } else {
            earlier
        }
    }
}

/// The anchors that stand on a screen row, in order.
pub open spec fn shown_anchors(anchors: Seq<(Seq<u8>, u64)>, rows: Seq<AnchorRow>) -> Seq<
    (Seq<u8>, u64),
>
    decreases anchors.len(),
{
    if anchors.len() == 0 {
        anchors
    } else {
        let earlier = shown_anchors(anchors.drop_last(), rows);
        let row = rows[anchors.len() - 1];
        if row.primary_prompt && row.screen_row is Some {
            earlier.push(anchors.last())
        } else {
            earlier
        }
    }
}

/// The screen rows of the anchors that stand on one, in order.
pub open spec fn shown_rows(anchors: Seq<(Seq<u8>, u64)>, rows: Seq<AnchorRow>) -> Seq<
    (Seq<u8>, usize),
>
    decreases anchors.len(),
{
    if anchors.len() == 0 {
        Seq::empty()
    } else {
        let earlier = shown_rows(anchors.drop_last(), rows);
        let row = rows[anchors.len() - 1];
        if row.primary_prompt && row.screen_row is Some {
            earlier.push((anchors.last().0, row.screen_row->0))
        } else {
            earlier
        }
    }
}

fn remove_anchor(anchors: &mut VecDeque<OmpReplyAnchor>, at: usize)
    requires
        at < old(anchors)@.len(),
    ensures
        anchor_views(final(anchors)@) == anchor_views(old(anchors)@).remove(at as int),
{
    let _ = anchors.remove(at);
    assert(anchor_views(anchors@) =~= anchor_views(old(anchors)@).remove(at as int));
}

fn safe_omp_reply_id_part(value: &[u8]) -> (safe: bool)
    ensures
        safe == safe_id_part(value@),
{
    if value.len() == 0 {
        return false;
    }
    let mut i: usize = 0;
    while i < value.len()
        invariant
            i <= value.len(),
            forall|j: int| 0 <= j < i ==> safe_id_byte(#[trigger] value@[j]),
        decreases value.len() - i,
    {
        let byte: u8 = value[i];
        let safe = ('a' as u8 <= byte && byte <= 'z' as u8) || ('A' as u8 <= byte && byte
            <= 'Z' as u8) || ('0' as u8 <= byte && byte <= '9' as u8) || byte == '-' as u8 || byte
            == '_' as u8;
        if !safe {
            assert(!safe_id_byte(value@[i as int]));
            return false;
        }
        i += 1;
    }
    true
}

/// The reply that a prompt marker's payload names.
pub fn omp_reply_anchor(payload: &[u8]) -> (id: Option<Vec<u8>>)
    ensures
        match id {
            Some(id) => reply_id(payload@) == Some(id@),
            None => reply_id(payload@) is None,
        },
{
    let pieces = split_fields(payload, ';' as u8);
    let ghost all = crate::bytes::views(pieces@);
    proof {
        crate::bytes::lemma_fields_nonempty(payload@, ';' as u8);
        assert(all[0] == pieces@[0]@);
    }
    if !is_text(pieces[0].as_slice(), "A") {
        return None;
    }
    let prefix = "aid=omp-response-".as_bytes();
    let mut i: usize = 1;
    while i < pieces.len()
        invariant
            1 <= i <= pieces.len(),
            all == crate::bytes::views(pieces@),
            all == crate::bytes::fields(payload@, ';' as u8),
            all[0] == crate::bytes::utf8("A"),
            prefix@ == crate::bytes::utf8("aid=omp-response-"),
            first_with_prefix(all, prefix@, 1) == first_with_prefix(all, prefix@, i as int),
        decreases pieces.len() - i,
    {
        assert(all[i as int] == pieces@[i as int]@);
        if let Some(id) = strip_prefix(pieces[i].as_slice(), prefix) {
            proof {
                crate::bytes::lemma_index_of(id@, ':' as u8);
            }
            let separator: usize = match position(id, ':' as u8) {
                Some(separator) => separator,
                None => return None,
            };
            assert(separator < id.len());
            if id.len() <= OMP_REPLY_ANCHOR_MAX_BYTES && safe_omp_reply_id_part(
                before(id, separator),
            ) && safe_omp_reply_id_part(after(id, separator + 1)) {
                return Some(copied(id));
            }
            return None;
        }
        i += 1;
    }
    None
}

/// Always-on tracker of the latest title and progress that a child process
/// announced, and of its reply markers. Nothing here affects rendering.
#[derive(Debug)]
pub struct AgentOscStateTracker {
    collector: OscStreamCollector,
    latest_title: Option<String>,
    terminal_title: Option<String>,
    latest_progress: Option<String>,
    primary_screen_escapes: PrimaryScreenEscapeTracker,
    omp_reply_session: Option<Vec<u8>>,
    omp_reply_anchors: VecDeque<OmpReplyAnchor>,
    omp_reply_generation: OmpReplyGenerationToken,
}

pub open spec fn opt_bytes(bytes: Option<Vec<u8>>) -> Option<Seq<u8>> {
    match bytes {
        Some(bytes) => Some(bytes@),
        None => None,
    }
}

impl View for AgentOscStateTracker {
    type V = AgentView;

    closed spec fn view(&self) -> AgentView {
        AgentView {
            collector: self.collector@,
            escapes: self.primary_screen_escapes@,
            latest_title: text::opt_text(self.latest_title),
            terminal_title: text::opt_text(self.terminal_title),
            latest_progress: text::opt_text(self.latest_progress),
            reply_session: opt_bytes(self.omp_reply_session),
            reply_anchors: anchor_views(self.omp_reply_anchors@),
            reply_generation: self.omp_reply_generation,
        }
    }
}

impl Default for AgentOscStateTracker {
    fn default() -> (tracker: Self)
        ensures
            tracker@ == AgentView::initial(),
    {
        let tracker = AgentOscStateTracker {
            collector: OscStreamCollector::default(),
            latest_title: None,
            terminal_title: None,
            latest_progress: None,
            primary_screen_escapes: PrimaryScreenEscapeTracker::default(),
            omp_reply_session: None,
            omp_reply_anchors: VecDeque::new(),
            omp_reply_generation: OmpReplyGenerationToken { process: 0, marker_epoch: 0 },
        };
        assert(tracker@.reply_anchors =~= Seq::empty());
        tracker
    }
}

impl AgentOscStateTracker {
    /// Observes a chunk of output. `rows` is what the terminal says about the
    /// anchors' rows; anchors whose rows are gone are dropped first.
    pub fn observe_on_screen(
        &mut self,
        bytes: &[u8],
        alternate_screen: bool,
        rows: &[AnchorRow],
    ) -> (observation: AgentOscObservation)
        requires
            rows@.len() == old(self)@.reply_anchors.len(),
        ensures
            (final(self)@, observation@) == old(self)@.pruned(rows@).on_screen(
                alternate_screen,
            ).run(ObservationView::nothing(), bytes@, 0),
    {
        self.drop_pruned_omp_reply_anchors(rows);
        self.primary_screen_escapes.set_alternate_screen(alternate_screen);
        let ghost start = self@;
        let mut observation = AgentOscObservation {
            terminal_title_changed: false,
            reply_anchor_events: Vec::new(),
            reset_reply_selection: false,
        };
        assert(observation@.reply_anchors =~= Seq::empty());
        let mut i: usize = 0;
        assert(bytes@.take(0) =~= Seq::empty());
        while i < bytes.len()
            invariant
                i <= bytes.len(),
                (self@, observation@) == start.run(
                    ObservationView::nothing(),
                    bytes@.take(i as int),
                    0,
                ),
            decreases bytes.len() - i,
        {
            assert(bytes@.take(i as int + 1).drop_last() =~= bytes@.take(i as int));
            self.observe_byte(bytes[i], i + 1, &mut observation);
            i += 1;
        }
        assert(bytes@.take(i as int) =~= bytes@);
        observation
    }

    fn observe_byte(&mut self, byte: u8, end_offset: usize, observation: &mut AgentOscObservation)
        ensures
            (final(self)@, final(observation)@) == old(self)@.step(
                old(observation)@,
                byte,
                end_offset as int,
            ),
    {
        if self.primary_screen_escapes.observe(byte) {
            self.omp_reply_anchors.clear();
            observation.reply_anchor_events.clear();
            observation.reset_reply_selection = true;
            assert(self@.reply_anchors =~= Seq::empty());
            assert(observation@.reply_anchors =~= Seq::empty());
        }
        if let Some(body) = self.collector.observe_byte(byte) {
            self.receive(body.as_slice(), end_offset, observation);
        }
    }

    fn receive(&mut self, body: &[u8], end_offset: usize, observation: &mut AgentOscObservation)
        ensures
            (final(self)@, final(observation)@) == old(self)@.receive(
                old(observation)@,
                body@,
                end_offset as int,
            ),
    {
        let separator: usize = match position(body, ';' as u8) {
            Some(separator) => separator,
            None => return,
        };
        assert(separator < body.len());
        let command = before(body, separator);
        let payload = after(body, separator + 1);
        if is_text(command, "0") || is_text(command, "2") {
            let retained = sanitize(payload, AGENT_OSC_MAX_CHARS);
            let title: Option<String> = if retained.as_str().is_empty() {
                None
            } else {
                Some(retained)
            };
            observation.terminal_title_changed = observation.terminal_title_changed
                || !same_opt_text(&self.terminal_title, &title);
            self.terminal_title = title.clone();
            self.latest_title = title;
        } else if is_text(command, "9") {
            self.latest_progress = Some(sanitize(payload, AGENT_OSC_MAX_CHARS));
        } else if is_text(command, "133") && !self.primary_screen_escapes.alternate_screen() {
            if let Some(id) = omp_reply_anchor(payload) {
                self.receive_reply(id, end_offset, observation);
            }
        }
    }

    fn receive_reply(
        &mut self,
        id: Vec<u8>,
        end_offset: usize,
        observation: &mut AgentOscObservation,
    )
        requires
            crate::bytes::index_of(id@, ':' as u8) < id@.len(),
        ensures
            (final(self)@, final(observation)@) == old(self)@.receive_reply(
                old(observation)@,
                id@,
                end_offset as int,
            ),
    {
        let ghost content = id@;
        let separator: usize = match position(id.as_slice(), ':' as u8) {
            Some(separator) => separator,
            None => 0,
        };
        let session = before(id.as_slice(), separator);
        let current = match &self.omp_reply_session {
            Some(current) => bytes_equal(current.as_slice(), session),
            None => false,
        };
        if !current {
            // The first marker of each process-private session is ordered
            // evidence newer than any earlier detector token.
            self.omp_reply_generation = self.omp_reply_generation.next_marker();
            self.omp_reply_anchors.clear();
            self.omp_reply_session = Some(copied(session));
            observation.reply_anchor_events.clear();
            observation.reset_reply_selection = true;
            assert(self@.reply_anchors =~= Seq::empty());
        }
        let ghost events = observation@.reply_anchors;
        // Registration occurs after the terminating byte has reached the
        // terminal, so a marker tracks its fresh prompt row.
        observation.reply_anchor_events.push(
            PendingOmpReplyAnchor { end_offset, anchor_id: id },
        );
        assert(observation@.reply_anchors =~= events.push((end_offset as int, content)));
        proof {
            if !current {
                assert(observation@.reply_anchors =~= seq![(end_offset as int, content)]);
            }
        }
    }

    /// Binds a reply to the row that the terminal tracks under `row`, where it
    /// could track one.
    pub fn register_omp_reply_anchor(
        &mut self,
        event: PendingOmpReplyAnchor,
        row: Option<u64>,
        rows: &[AnchorRow],
    )
        requires
            rows@.len() == old(self)@.reply_anchors.len(),
        ensures
            final(self)@ == (match row {
                Some(row) => old(self)@.pruned(rows@).bind(event.anchor_id@, row),
                None => old(self)@.pruned(rows@),
            }),
    {
        self.drop_pruned_omp_reply_anchors(rows);
        let tracked_row: u64 = match row {
            Some(tracked_row) => tracked_row,
            None => return,
        };
        let ghost start = self@;
        let ghost id = event.anchor_id@;
        let mut i: usize = 0;
        while i < self.omp_reply_anchors.len()
            invariant
                i <= self.omp_reply_anchors.len(),
                self@ == start,
                start == old(self)@.pruned(rows@),
                row == Some(tracked_row),
                id == event.anchor_id@,
                forall|j: int| 0 <= j < i ==> (#[trigger] start.reply_anchors[j]).0 != id,
            decreases self.omp_reply_anchors.len() - i,
        {
            assert(start.reply_anchors[i as int].0 == self.omp_reply_anchors@[i as int].id@);
            if bytes_equal(self.omp_reply_anchors[i].id.as_slice(), event.anchor_id.as_slice()) {
                proof {
                    lemma_anchor_index(start.reply_anchors, id, i as int);
                }
                let _ = self.omp_reply_anchors.remove(i);
                let bound = OmpReplyAnchor { id: event.anchor_id, row: tracked_row };
                self.omp_reply_anchors.insert(i, bound);
                assert(self@.reply_anchors =~= start.bind(id, tracked_row).reply_anchors);
                return;
            }
            i += 1;
        }
        proof {
            lemma_anchor_index(start.reply_anchors, id, i as int);
        }
        self.omp_reply_anchors.push_back(OmpReplyAnchor { id: event.anchor_id, row: tracked_row });
        assert(self@.reply_anchors =~= start.bind(id, tracked_row).reply_anchors);
    }

    /// The screen rows of the replies, in order. Anchors that are on none are dropped.
    pub fn omp_reply_anchor_rows(&mut self, rows: &[AnchorRow]) -> (shown: Vec<(Vec<u8>, usize)>)
        requires
            rows@.len() == old(self)@.reply_anchors.len(),
        ensures
            row_views(shown@) == shown_rows(old(self)@.reply_anchors, rows@),
            final(self)@ == (AgentView {
                reply_anchors: shown_anchors(old(self)@.reply_anchors, rows@),
                ..old(self)@
            }),
    {
        let ghost start = self@;
        let ghost anchors = start.reply_anchors;
        let mut shown: Vec<(Vec<u8>, usize)> = Vec::new();
        let mut i: usize = 0;
        let mut k: usize = 0;
        proof {
            assert(anchors.take(0) =~= Seq::empty());
            assert(row_views(shown@) =~= Seq::empty());
            assert(anchors =~= Seq::empty() + anchors.skip(0));
        }
        while k < rows.len()
            invariant
                k <= rows.len() == anchors.len(),
                start.reply_anchors == anchors,
                self@ == (AgentView { reply_anchors: self@.reply_anchors, ..start }),
                i == shown_anchors(anchors.take(k as int), rows@).len(),
                self@.reply_anchors == shown_anchors(anchors.take(k as int), rows@)
                    + anchors.skip(k as int),
                row_views(shown@) == shown_rows(anchors.take(k as int), rows@),
                i <= k,
            decreases rows.len() - k,
        {
            let ghost next = anchors.take(k as int + 1);
            let ghost kept = shown_anchors(anchors.take(k as int), rows@);
            let ghost shown_before = row_views(shown@);
            assert(next.drop_last() =~= anchors.take(k as int));
            assert(self@.reply_anchors[i as int] == anchors[k as int]);
            assert(self@.reply_anchors.len() == self.omp_reply_anchors@.len());
            let mut keep = false;
            if rows[k].primary_prompt {
                if let Some(row) = rows[k].screen_row {
                    let id = copied(self.omp_reply_anchors[i].id.as_slice());
                    let ghost entry = (id@, row);
                    shown.push((id, row));
                    assert(row_views(shown@) =~= shown_before.push(entry));
                    keep = true;
                }
            }
            if keep {
                i += 1;
                assert(self@.reply_anchors =~= shown_anchors(next, rows@) + anchors.skip(
                    k as int + 1,
                ));
            } else {
                remove_anchor(&mut self.omp_reply_anchors, i);
                assert(self@.reply_anchors =~= shown_anchors(next, rows@) + anchors.skip(
                    k as int + 1,
                ));
            }
            k += 1;
        }
        assert(anchors.take(k as int) =~= anchors);
        assert(self@.reply_anchors =~= shown_anchors(anchors, rows@));
        shown
    }

    pub fn terminal_title(&self) -> (title: Option<&str>)
        ensures
            match title {
                Some(title) => self@.terminal_title == Some(title@),
                None => self@.terminal_title is None,
            },
    {
        match &self.terminal_title {
            Some(title) => Some(title.as_str()),
            None => None,
        }
    }

    /// Restores a title that another tracker had retained.
    pub fn seed_terminal_title(&mut self, title: Option<String>)
        ensures
            final(self)@ == (AgentView { terminal_title: text::opt_text(title), ..old(self)@ }),
    {
        self.terminal_title = title;
    }

    /// The latest retained title, or `""` if none has been seen or the last
    /// update was an empty clear.
    pub fn latest_title(&self) -> (title: &str)
        ensures
            title@ == (match self@.latest_title {
                Some(title) => title,
                None => Seq::empty(),
            }),
    {
        match &self.latest_title {
            Some(title) => title.as_str(),
            None => {
                proof {
                    reveal_strlit("");
                    assert(""@ =~= Seq::empty());
                }
                ""
            },
        }
    }

    /// The latest retained progress payload, or `""` if none.
    pub fn latest_progress(&self) -> (progress: &str)
        ensures
            progress@ == (match self@.latest_progress {
                Some(progress) => progress,
                None => Seq::empty(),
            }),
    {
        match &self.latest_progress {
            Some(progress) => progress.as_str(),
            None => {
                proof {
                    reveal_strlit("");
                    assert(""@ =~= Seq::empty());
                }
                ""
            },
        }
    }

    pub fn clear_omp_reply_anchors(&mut self)
        ensures
            final(self)@ == old(self)@.without_replies(),
    {
        self.omp_reply_session = None;
        self.omp_reply_anchors.clear();
        assert(self@.reply_anchors =~= Seq::empty());
    }

    pub fn omp_reply_generation(&self) -> (generation: OmpReplyGenerationToken)
        ensures
            generation == self@.reply_generation,
    {
        self.omp_reply_generation
    }

    /// Advances only the process generation named by `expected`. A newer marker
    /// survives only when the detector confirmed that it came from a
    /// replacement process; marker order alone cannot suppress an exit reset.
    pub fn reset_omp_reply_state_if_current(
        &mut self,
        expected: OmpReplyGenerationToken,
        preserve_newer_replacement_marker: bool,
    ) -> (reset: bool)
        ensures
            (final(self)@, reset) == old(self)@.reset_if_current(
                expected,
                preserve_newer_replacement_marker,
            ),
    {
        if self.omp_reply_generation.process != expected.process {
            return false;
        }
        let newer_marker = self.omp_reply_generation.marker_epoch != expected.marker_epoch;
        self.omp_reply_generation = self.omp_reply_generation.next_process();
        if preserve_newer_replacement_marker && newer_marker {
            return false;
        }
        self.clear_omp_reply_anchors();
        self.collector.reset();
        true
    }

    pub fn omp_reply_anchor_count(&self) -> (count: usize)
        ensures
            count == self@.reply_anchors.len(),
    {
        self.omp_reply_anchors.len()
    }

    fn drop_pruned_omp_reply_anchors(&mut self, rows: &[AnchorRow])
        requires
            rows@.len() == old(self)@.reply_anchors.len(),
        ensures
            final(self)@ == old(self)@.pruned(rows@),
    {
        // Rebinding a stable ID keeps its logical position while moving its
        // row forward, so invalid older anchors can follow a valid front.
        let ghost start = self@;
        let ghost anchors = start.reply_anchors;
        let mut i: usize = 0;
        let mut k: usize = 0;
        proof {
            assert(anchors.take(0) =~= Seq::empty());
            assert(anchors =~= Seq::empty() + anchors.skip(0));
        }
        while k < rows.len()
            invariant
                k <= rows.len() == anchors.len(),
                start.reply_anchors == anchors,
                self@ == (AgentView { reply_anchors: self@.reply_anchors, ..start }),
                i == live_anchors(anchors.take(k as int), rows@).len(),
                self@.reply_anchors == live_anchors(anchors.take(k as int), rows@) + anchors.skip(
                    k as int,
                ),
                i <= k,
            decreases rows.len() - k,
        {
            let ghost next = anchors.take(k as int + 1);
            assert(next.drop_last() =~= anchors.take(k as int));
            assert(self@.reply_anchors[i as int] == anchors[k as int]);
            assert(self@.reply_anchors.len() == self.omp_reply_anchors@.len());
            if rows[k].has_value && rows[k].primary_prompt {
                i += 1;
            } else {
                remove_anchor(&mut self.omp_reply_anchors, i);
            }
            assert(self@.reply_anchors =~= live_anchors(next, rows@) + anchors.skip(k as int + 1));
            k += 1;
        }
        assert(anchors.take(k as int) =~= anchors);
        assert(self@.reply_anchors =~= live_anchors(anchors, rows@));
    }

    /// Drops the retained title and progress so that a new foreground agent
    /// cannot inherit evidence of a previous process. A sequence that is being
    /// received is kept and attributed to the new agent.
    pub fn clear_retained(&mut self)
        ensures
            final(self)@ == (AgentView {
                latest_title: None,
                latest_progress: None,
                ..old(self)@
            }),
    {
        self.latest_title = None;
        self.latest_progress = None;
    }
}

/// What two chunks changed together: a reset in the second drops the anchors
/// of the first, which ended `by` bytes before it began.
pub open spec fn both_observations(first: ObservationView, second: ObservationView, by: int) -> ObservationView {
    let later = Seq::new(
        second.reply_anchors.len(),
        |i: int| (second.reply_anchors[i].0 + by, second.reply_anchors[i].1),
    );
    ObservationView {
        terminal_title_changed: first.terminal_title_changed || second.terminal_title_changed,
        reply_anchors: if second.reset_reply_selection {
            later
        } else {
            first.reply_anchors + later
        },
        reset_reply_selection: first.reset_reply_selection || second.reset_reply_selection,
    }
}

proof fn lemma_run_append(
    agent: AgentView,
    seen: ObservationView,
    first: Seq<u8>,
    second: Seq<u8>,
    offset: int,
)
    ensures
        ({
            let (middle, seen_first) = agent.run(seen, first, offset);
            agent.run(seen, first + second, offset) == middle.run(
                seen_first,
                second,
                offset + first.len(),
            )
        }),
    decreases second.len(),
{
    if second.len() == 0 {
        assert(first + second =~= first);
    } else {
        lemma_run_append(agent, seen, first, second.drop_last(), offset);
        assert((first + second).drop_last() =~= first + second.drop_last());
    }
}

proof fn lemma_step_from_nothing(
    agent: AgentView,
    first: ObservationView,
    seen: ObservationView,
    byte: u8,
    end_offset: int,
    by: int,
)
    ensures
        ({
            let (plain, alone) = agent.step(seen, byte, end_offset);
            agent.step(both_observations(first, seen, by), byte, end_offset + by) == (
                plain,
                both_observations(first, alone, by),
            )
        }),
{
    let (plain, alone) = agent.step(seen, byte, end_offset);
    let (plain_later, together) = agent.step(
        both_observations(first, seen, by),
        byte,
        end_offset + by,
    );
    assert(plain == plain_later);
    assert(together.reply_anchors =~= both_observations(first, alone, by).reply_anchors);
}

proof fn lemma_run_from_nothing(
    agent: AgentView,
    seen: ObservationView,
    bytes: Seq<u8>,
    offset: int,
)
    ensures
        ({
            let (plain, alone) = agent.run(ObservationView::nothing(), bytes, 0);
            agent.run(seen, bytes, offset) == (plain, both_observations(seen, alone, offset))
        }),
    decreases bytes.len(),
{
    if bytes.len() == 0 {
        assert(both_observations(seen, ObservationView::nothing(), offset).reply_anchors
            =~= seen.reply_anchors);
    } else {
        lemma_run_from_nothing(agent, seen, bytes.drop_last(), offset);
        let (middle, alone) = agent.run(ObservationView::nothing(), bytes.drop_last(), 0);
        lemma_step_from_nothing(
            middle,
            seen,
            alone,
            bytes.last(),
            bytes.len() as int,
            offset,
        );
    }
}

/// How output is cut into chunks does not matter: observing `first` and then
/// `second` retains the same and reports the same as observing both at once.
pub proof fn law_chunking(agent: AgentView, first: Seq<u8>, second: Seq<u8>)
    ensures
        ({
            let (middle, seen_first) = agent.run(ObservationView::nothing(), first, 0);
            let (end, seen_second) = middle.run(ObservationView::nothing(), second, 0);
            agent.run(ObservationView::nothing(), first + second, 0) == (
                end,
                both_observations(seen_first, seen_second, first.len() as int),
            )
        }),
{
    let (middle, seen_first) = agent.run(ObservationView::nothing(), first, 0);
    lemma_run_append(agent, ObservationView::nothing(), first, second, 0);
    lemma_run_from_nothing(middle, seen_first, second, first.len() as int);
}

impl AgentView {
    /// What is retained is bounded and free of control characters.
    pub open spec fn wf(self) -> bool {
        &&& self.collector.wf()
        &&& self.escapes.wf()
        &&& self.latest_title matches Some(title) ==> retained(title)
        &&& self.terminal_title matches Some(title) ==> retained(title)
        &&& self.latest_progress matches Some(progress) ==> retained(progress)
    }
}

pub open spec fn retained(text: Seq<char>) -> bool {
    &&& text.len() <= AGENT_OSC_MAX_CHARS
    &&& forall|i: int| 0 <= i < text.len() ==> !text::control(#[trigger] text[i])
}

/// Whatever is observed, titles and progress stay bounded and printable, and
/// so does what is kept of a sequence that is still being received.
pub proof fn law_retained_bounded(
    agent: AgentView,
    seen: ObservationView,
    bytes: Seq<u8>,
    offset: int,
)
    requires
        agent.wf(),
    ensures
        agent.run(seen, bytes, offset).0.wf(),
    decreases bytes.len(),
{
    if bytes.len() > 0 {
        law_retained_bounded(agent, seen, bytes.drop_last(), offset);
        let (middle, seen_before) = agent.run(seen, bytes.drop_last(), offset);
        let byte = bytes.last();
        crate::osc::screen::law_params_bounded(middle.escapes, byte);
        if let Some(body) = middle.collector.step(byte).1 {
            let payload = body.skip(crate::bytes::index_of(body, ';' as u8) + 1);
            text::lemma_printable(text::utf8_lossy(payload));
            assert(retained(retained_text(payload)));
        }
    }
}

/// Every reply that is reported is named by a bounded ID of safe characters
/// around a colon.
pub proof fn law_reply_ids_safe(payload: Seq<u8>)
    ensures
        reply_id(payload) matches Some(id) ==> {
            &&& id.len() <= OMP_REPLY_ANCHOR_MAX_BYTES
            &&& forall|i: int|
                0 <= i < id.len() ==> safe_id_byte(#[trigger] id[i]) || id[i] == ':' as u8
        },
{
    if let Some(id) = reply_id(payload) {
        let separator = crate::bytes::index_of(id, ':' as u8);
        crate::bytes::lemma_index_of(id, ':' as u8);
        assert forall|i: int| 0 <= i < id.len() implies safe_id_byte(#[trigger] id[i]) || id[i]
            == ':' as u8 by {
            if i < separator {
                assert(id.take(separator)[i] == id[i]);
            } else if i > separator {
                assert(id.skip(separator + 1)[i - separator - 1] == id[i]);
            }
        }
    }
}

/// A body that completes while the alternate screen is shown leaves the reply
/// state as it was and reports no reply.
pub proof fn law_alternate_screen_holds_no_replies(
    agent: AgentView,
    seen: ObservationView,
    body: Seq<u8>,
    end_offset: int,
)
    requires
        agent.escapes.alternate_screen,
    ensures
        ({
            let (next, observed) = agent.receive(seen, body, end_offset);
            &&& next.reply_session == agent.reply_session
            &&& next.reply_anchors == agent.reply_anchors
            &&& next.reply_generation == agent.reply_generation
            &&& observed.reply_anchors == seen.reply_anchors
            &&& observed.reset_reply_selection == seen.reset_reply_selection
        }),
{
}

/// A process generation ends once: whatever the first call with a token did, a
/// second call with the same token changes nothing.
pub proof fn law_generation_ends_once(
    agent: AgentView,
    expected: OmpReplyGenerationToken,
    preserve_first: bool,
    preserve_second: bool,
)
    ensures
        ({
            let next = agent.reset_if_current(expected, preserve_first).0;
            next.reset_if_current(expected, preserve_second) == (next, false)
        }),
{
}

proof fn lemma_command_literals()
    ensures
        crate::bytes::utf8("0") == seq!['0' as u8],
        crate::bytes::utf8("2") == seq!['2' as u8],
        crate::bytes::utf8("9") == seq!['9' as u8],
        crate::bytes::utf8("133") == seq!['1' as u8, '3' as u8, '3' as u8],
        crate::bytes::utf8("A") == seq!['A' as u8],
{
    reveal_strlit("0");
    reveal_strlit("2");
    reveal_strlit("9");
    reveal_strlit("133");
    reveal_strlit("A");
    vstd::utf8::is_ascii_chars_encode_utf8("0"@);
    vstd::utf8::is_ascii_chars_encode_utf8("2"@);
    vstd::utf8::is_ascii_chars_encode_utf8("9"@);
    vstd::utf8::is_ascii_chars_encode_utf8("133"@);
    vstd::utf8::is_ascii_chars_encode_utf8("A"@);
    assert(crate::bytes::utf8("0") =~= seq!['0' as u8]);
    assert(crate::bytes::utf8("2") =~= seq!['2' as u8]);
    assert(crate::bytes::utf8("9") =~= seq!['9' as u8]);
    assert(crate::bytes::utf8("133") =~= seq!['1' as u8, '3' as u8, '3' as u8]);
    assert(crate::bytes::utf8("A") =~= seq!['A' as u8]);
}

proof fn lemma_command_split(command: Seq<u8>, payload: Seq<u8>)
    requires
        forall|i: int| 0 <= i < command.len() ==> command[i] != ';' as u8,
    ensures
        ({
            let body = command + seq![';' as u8] + payload;
            &&& crate::bytes::index_of(body, ';' as u8) == command.len()
            &&& body.take(command.len() as int) == command
            &&& body.skip(command.len() as int + 1) == payload
            &&& command.len() < body.len()
        }),
{
    let body = command + seq![';' as u8] + payload;
    crate::bytes::lemma_index_of_unique(body, ';' as u8, command.len() as int);
    assert(body.take(command.len() as int) =~= command);
    assert(body.skip(command.len() as int + 1) =~= payload);
}

/// What is kept of a payload is its printable text, cut off at the bound.
pub proof fn law_retained_text(payload: Seq<u8>)
    ensures
        retained_text(payload).len() <= 256,
        retained_text(payload).is_prefix_of(text::printable(text::utf8_lossy(payload))),
        text::printable(text::utf8_lossy(payload)).len() <= 256 ==> retained_text(payload)
            == text::printable(text::utf8_lossy(payload)),
        text::printable(text::utf8_lossy(payload)).len() > 256 ==> retained_text(payload).len()
            == 256,
{
    let all = text::printable(text::utf8_lossy(payload));
    let kept = retained_text(payload);
    assert(kept =~= all.subrange(0, kept.len() as int));
}

/// A title command sets both titles to its text, or clears them where it has none, and tells
/// whether the terminal's title changed; nothing else changes.
pub proof fn law_titles_are_taken(
    agent: AgentView,
    seen: ObservationView,
    icon: bool,
    payload: Seq<u8>,
    end_offset: int,
)
    ensures
        ({
            let command = if icon {
                seq!['0' as u8]
            } else {
                seq!['2' as u8]
            };
            let (next, observed) = agent.receive(
                seen,
                command + seq![';' as u8] + payload,
                end_offset,
            );
            let title = if retained_text(payload).len() > 0 {
                Some(retained_text(payload))
            } else {
                None
            };
            &&& next == AgentView { latest_title: title, terminal_title: title, ..agent }
            &&& observed.terminal_title_changed <==> seen.terminal_title_changed || title
                != agent.terminal_title
            &&& observed.reply_anchors == seen.reply_anchors
            &&& observed.reset_reply_selection == seen.reset_reply_selection
        }),
{
    lemma_command_literals();
    let command = if icon {
        seq!['0' as u8]
    } else {
        seq!['2' as u8]
    };
    lemma_command_split(command, payload);
}

/// A progress command keeps its text as the latest progress, and changes nothing else.
pub proof fn law_progress_is_taken(
    agent: AgentView,
    seen: ObservationView,
    payload: Seq<u8>,
    end_offset: int,
)
    ensures
        agent.receive(seen, seq!['9' as u8, ';' as u8] + payload, end_offset) == (
            AgentView { latest_progress: Some(retained_text(payload)), ..agent },
            seen,
        ),
{
    lemma_command_literals();
    lemma_command_split(seq!['9' as u8], payload);
    assert(seq!['9' as u8, ';' as u8] + payload =~= seq!['9' as u8] + seq![';' as u8] + payload);
    assert(crate::bytes::utf8("0")[0] == '0' as u8);
    assert(crate::bytes::utf8("2")[0] == '2' as u8);
}

/// Any other command changes nothing.
pub proof fn law_other_commands_change_nothing(
    agent: AgentView,
    seen: ObservationView,
    command: Seq<u8>,
    payload: Seq<u8>,
    end_offset: int,
)
    requires
        forall|i: int| 0 <= i < command.len() ==> command[i] != ';' as u8,
        command != seq!['0' as u8],
        command != seq!['2' as u8],
        command != seq!['9' as u8],
        command != seq!['1' as u8, '3' as u8, '3' as u8],
    ensures
        agent.receive(seen, command + seq![';' as u8] + payload, end_offset) == (agent, seen),
{
    lemma_command_literals();
    lemma_command_split(command, payload);
}

/// A prompt marker names a reply by the session and the reply that follow its prefix.
pub proof fn law_reply_markers_name_replies(session: Seq<u8>, reply: Seq<u8>)
    requires
        safe_id_part(session),
        safe_id_part(reply),
        session.len() + reply.len() < 256,
    ensures
        ({
            let id = session + seq![':' as u8] + reply;
            let payload = crate::bytes::utf8("A;aid=omp-response-") + id;
            &&& reply_id(payload) == Some(id)
            &&& reply_session_of(id) == session
        }),
{
    lemma_command_literals();
    reveal_strlit("A;aid=omp-response-");
    reveal_strlit("aid=omp-response-");
    vstd::utf8::is_ascii_chars_encode_utf8("A;aid=omp-response-"@);
    vstd::utf8::is_ascii_chars_encode_utf8("aid=omp-response-"@);
    let id = session + seq![':' as u8] + reply;
    let prefix = crate::bytes::utf8("aid=omp-response-");
    let payload = crate::bytes::utf8("A;aid=omp-response-") + id;
    assert(crate::bytes::utf8("A;aid=omp-response-") =~= seq!['A' as u8, ';' as u8] + prefix);
    let tail = prefix + id;
    assert forall|i: int| 0 <= i < tail.len() implies tail[i] != ';' as u8 by {
        if i >= prefix.len() {
            let k = i - prefix.len();
            assert(tail[i] == id[k]);
            if k < session.len() {
                assert(safe_id_byte(session[k]));
            } else if k > session.len() {
                assert(safe_id_byte(reply[k - session.len() - 1]));
            }
        } else {
            assert(tail[i] == prefix[i]);
        }
    }
    let head = seq!['A' as u8];
    assert(payload =~= head.push(';' as u8) + tail);
    crate::bytes::lemma_fields_append(head, ';' as u8, tail);
    reveal_with_fuel(crate::bytes::fields, 2);
    assert(head.drop_last() =~= Seq::empty());
    assert(Seq::<u8>::empty().push('A' as u8) =~= head);
    assert(crate::bytes::fields(head, ';' as u8) =~= seq![head]);
    let pieces = crate::bytes::fields(payload, ';' as u8);
    assert(pieces =~= seq![head, tail]);
    assert(prefix =~= tail.subrange(0, prefix.len() as int));
    assert(tail.skip(prefix.len() as int) =~= id);
    assert(first_with_prefix(pieces, prefix, 1) == Some(id));
    assert forall|j: int| 0 <= j < session.len() implies id[j] != ':' as u8 by {
        assert(safe_id_byte(session[j]));
    }
    crate::bytes::lemma_index_of_unique(id, ':' as u8, session.len() as int);
    assert(id.take(session.len() as int) =~= session);
    assert(id.skip(session.len() as int + 1) =~= reply);
}

/// On the primary screen a reply marker is reported with where it stood. A marker of the
/// current session is added; the first of another session drops what was known of the
/// earlier ones.
pub proof fn law_replies_are_reported(
    agent: AgentView,
    seen: ObservationView,
    session: Seq<u8>,
    reply: Seq<u8>,
    end_offset: int,
)
    requires
        !agent.escapes.alternate_screen,
        safe_id_part(session),
        safe_id_part(reply),
        session.len() + reply.len() < 256,
    ensures
        ({
            let id = session + seq![':' as u8] + reply;
            let body = seq!['1' as u8, '3' as u8, '3' as u8] + seq![';' as u8] + (
            crate::bytes::utf8("A;aid=omp-response-") + id);
            let (next, observed) = agent.receive(seen, body, end_offset);
            &&& agent.reply_session == Some(session) ==> next == agent && observed.reply_anchors
                == seen.reply_anchors.push((end_offset, id)) && observed.reset_reply_selection
                == seen.reset_reply_selection
            &&& agent.reply_session != Some(session) ==> {
                &&& next.reply_session == Some(session)
                &&& next.reply_anchors == Seq::<(Seq<u8>, u64)>::empty()
                &&& next.reply_generation.process == agent.reply_generation.process
                &&& next.reply_generation.marker_epoch
                    == agent.reply_generation.marker_epoch.wrapping_add(1)
                &&& observed.reply_anchors == seq![(end_offset, id)]
                &&& observed.reset_reply_selection
            }
            &&& next.latest_title == agent.latest_title && next.latest_progress
                == agent.latest_progress
            &&& observed.terminal_title_changed == seen.terminal_title_changed
        }),
{
    lemma_command_literals();
    let id = session + seq![':' as u8] + reply;
    let command = seq!['1' as u8, '3' as u8, '3' as u8];
    lemma_command_split(command, crate::bytes::utf8("A;aid=omp-response-") + id);
    law_reply_markers_name_replies(session, reply);
    assert(crate::bytes::utf8("0").len() == 1 && crate::bytes::utf8("2").len() == 1
        && crate::bytes::utf8("9").len() == 1);
}

/// An erased scrollback takes every reply with it, and the selection with them.
pub proof fn law_erased_scrollback_drops_replies(
    agent: AgentView,
    seen: ObservationView,
    byte: u8,
    end_offset: int,
)
    requires
        agent.escapes.step(byte).1,
        agent.collector.step(byte).1 is None,
    ensures
        ({
            let (next, observed) = agent.step(seen, byte, end_offset);
            &&& next.reply_anchors == Seq::<(Seq<u8>, u64)>::empty()
            &&& observed.reply_anchors == Seq::<(int, Seq<u8>)>::empty()
            &&& observed.reset_reply_selection
            &&& next.reply_session == agent.reply_session
            &&& next.latest_title == agent.latest_title
        }),
{
}

/// A reply that is bound stands on its new row and on no other, and every other reply stays
/// where it is.
pub proof fn law_reply_is_bound_to_its_row(agent: AgentView, id: Seq<u8>, row: u64)
    ensures
        ({
            let bound = agent.bind(id, row).reply_anchors;
            let at = anchor_index(agent.reply_anchors, id);
            &&& bound.contains((id, row))
            &&& bound.len() == agent.reply_anchors.len() || bound.len()
                == agent.reply_anchors.len() + 1
            &&& forall|i: int|
                0 <= i < agent.reply_anchors.len() && (#[trigger] agent.reply_anchors[i]).0 != id
                    ==> bound[i] == agent.reply_anchors[i]
            &&& (forall|i: int|
                0 <= i < agent.reply_anchors.len() ==> (#[trigger] agent.reply_anchors[i]).0 != id)
                ==> bound == agent.reply_anchors.push((id, row))
        }),
{
    let anchors = agent.reply_anchors;
    let at = anchor_index(anchors, id);
    lemma_anchor_found(anchors, id);
    let bound = agent.bind(id, row).reply_anchors;
    if at < anchors.len() {
        assert(bound[at] == (id, row));
    } else {
        assert(bound[anchors.len() as int] == (id, row));
    }
}

proof fn lemma_anchor_found(anchors: Seq<(Seq<u8>, u64)>, id: Seq<u8>)
    ensures
        0 <= anchor_index(anchors, id) <= anchors.len(),
        anchor_index(anchors, id) < anchors.len() ==> anchors[anchor_index(anchors, id)].0 == id,
    decreases anchors.len(),
{
    if anchors.len() > 0 && anchors[0].0 != id {
        lemma_anchor_found(anchors.drop_first(), id);
    }
}

/// Replies whose rows still are prompts stay, in order; the others go. Only those that are on
/// the screen are shown, each on its own row.
pub proof fn law_replies_stay_with_their_rows(anchors: Seq<(Seq<u8>, u64)>, rows: Seq<AnchorRow>)
    requires
        anchors.len() == rows.len(),
    ensures
        (forall|i: int|
            0 <= i < rows.len() ==> (#[trigger] rows[i]).has_value && rows[i].primary_prompt)
            ==> live_anchors(anchors, rows) == anchors,
        (forall|i: int|
            0 <= i < rows.len() ==> !((#[trigger] rows[i]).has_value && rows[i].primary_prompt))
            ==> live_anchors(anchors, rows).len() == 0,
        (forall|i: int|
            0 <= i < rows.len() ==> (#[trigger] rows[i]).primary_prompt && rows[i].screen_row
                is Some) ==> shown_anchors(anchors, rows) == anchors && shown_rows(anchors, rows)
            == Seq::new(anchors.len(), |i: int| (anchors[i].0, rows[i].screen_row->0)),
        (forall|i: int|
            0 <= i < rows.len() ==> !((#[trigger] rows[i]).primary_prompt && rows[i].screen_row
                is Some)) ==> shown_anchors(anchors, rows).len() == 0 && shown_rows(
            anchors,
            rows,
        ).len() == 0,
    decreases anchors.len(),
{
    if anchors.len() > 0 {
        let shorter = anchors.drop_last();
        let fewer = rows.drop_last();
        law_replies_stay_with_their_rows(shorter, fewer);
        lemma_rows_prefix(shorter, rows, fewer);
        assert forall|i: int| 0 <= i < fewer.len() implies fewer[i] == rows[i] by {}
        let last = rows[rows.len() - 1];
        assert(shorter.push(anchors.last()) =~= anchors);
        if forall|i: int|
            0 <= i < rows.len() ==> (#[trigger] rows[i]).primary_prompt && rows[i].screen_row
                is Some {
            assert(forall|i: int|
                0 <= i < fewer.len() ==> (#[trigger] fewer[i]).primary_prompt && fewer[i].screen_row
                    is Some);
            assert(shown_rows(anchors, rows) =~= Seq::new(
                anchors.len(),
                |i: int| (anchors[i].0, rows[i].screen_row->0),
            ));
        }
        if forall|i: int|
            0 <= i < rows.len() ==> (#[trigger] rows[i]).has_value && rows[i].primary_prompt {
            assert(forall|i: int|
                0 <= i < fewer.len() ==> (#[trigger] fewer[i]).has_value
                    && fewer[i].primary_prompt);
        }
    } else {
        assert(shown_rows(anchors, rows) =~= Seq::new(
            anchors.len(),
            |i: int| (anchors[i].0, rows[i].screen_row->0),
        ));
    }
}

proof fn lemma_rows_prefix(anchors: Seq<(Seq<u8>, u64)>, rows: Seq<AnchorRow>, fewer: Seq<AnchorRow>)
    requires
        fewer.len() >= anchors.len(),
        rows.len() >= anchors.len(),
        forall|i: int| 0 <= i < anchors.len() ==> #[trigger] fewer[i] == rows[i],
    ensures
        live_anchors(anchors, rows) == live_anchors(anchors, fewer),
        shown_anchors(anchors, rows) == shown_anchors(anchors, fewer),
        shown_rows(anchors, rows) == shown_rows(anchors, fewer),
    decreases anchors.len(),
{
    if anchors.len() > 0 {
        lemma_rows_prefix(anchors.drop_last(), rows, fewer);
        assert(fewer[anchors.len() - 1] == rows[anchors.len() - 1]);
    }
}

/// The end of a process counts once for its own generation, and then forgets its replies; a
/// newer session survives it only where it is known to be of another process. The end of any
/// other process changes nothing.
pub proof fn law_process_end_forgets_its_replies(
    agent: AgentView,
    expected: OmpReplyGenerationToken,
    preserve: bool,
)
    ensures
        ({
            let (next, reset) = agent.reset_if_current(expected, preserve);
            let current = agent.reply_generation.process == expected.process;
            let newer = agent.reply_generation.marker_epoch != expected.marker_epoch;
            &&& !current ==> next == agent && !reset
            &&& current ==> next.reply_generation.process
                == agent.reply_generation.process.wrapping_add(1)
                && next.reply_generation.marker_epoch == agent.reply_generation.marker_epoch
            &&& reset <==> current && !(preserve && newer)
            &&& reset ==> next.reply_session is None && next.reply_anchors.len() == 0
            &&& current && !reset ==> next.reply_session == agent.reply_session
                && next.reply_anchors == agent.reply_anchors
            &&& next.latest_title == agent.latest_title && next.terminal_title
                == agent.terminal_title
        }),
{
}

} // verus!
