//! How the client finds its guest among those that connect to its listener.
use crate::ipc::IoErrorKind;
use crate::text::{self, from_utf8, same_text};
use vstd::prelude::*;
use vstd::string::StringExecFns;

verus! {

/// The longest announcement of a candidate, in bytes, its newline counted.
pub const MAX_ANNOUNCEMENT_BYTES: usize = 4096;

/// A candidate is read for at most this many milliseconds at a time.
pub const CANDIDATE_POLL: u64 = 20;

/// The text under a key of a JSON object, if the line is one and holds a text there.
pub uninterp spec fn json_text_field(line: Seq<char>, key: Seq<char>) -> Option<Seq<char>>;

/// Calls `serde_json::from_str` for a `serde_json::Value`, and `Value::get` and
/// `Value::as_str` on it: claims that what comes out depends on the line and the
/// key alone.
#[verifier::external_body]
pub(crate) fn json_text(line: &str, key: &str) -> (found: Option<String>)
    ensures
        text::opt_text(found) == json_text_field(line@, key@),
{
    let value = serde_json::from_str::<serde_json::Value>(line).ok()?;
    value.get(key).and_then(serde_json::Value::as_str).map(str::to_owned)
}

/// Whether the fields of an announcement are those of this client's guest.
pub open spec fn announces(
    kind: Option<Seq<char>>,
    announced: Option<Seq<char>>,
    token: Seq<char>,
) -> bool {
    kind == Some("guest"@) && announced == Some(token)
}

/// Whether the fields of an announcement are those of this client's guest.
pub fn fields_announce(kind: &Option<String>, announced: &Option<String>, token: &str) -> (matching:
    bool)
    ensures
        matching == announces(text::opt_text(*kind), text::opt_text(*announced), token@),
{
    let guest = match kind {
        Some(kind) => same_text(kind.as_str(), "guest"),
        None => false,
    };
    let known = match announced {
        Some(announced) => same_text(announced.as_str(), token),
        None => false,
    };
    guest && known
}

/// Whether a line announces this client's guest.
pub open spec fn line_announces(line: Seq<char>, token: Seq<char>) -> bool {
    announces(json_text_field(line, "t"@), json_text_field(line, "token"@), token)
}

/// Whether a line announces this client's guest.
pub fn announcement_valid(line: &str, token: &str) -> (valid: bool)
    ensures
        valid == line_announces(line@, token@),
{
    let kind = json_text(line, "t");
    let announced = json_text(line, "token");
    fields_announce(&kind, &announced, token)
}

/// What reading one byte of a candidate gave.
#[derive(Debug, Clone, Copy, PartialEq, Eq, Structural)]
pub enum CandidateRead {
    Closed,
    Byte(u8),
    Failed(IoErrorKind),
}

/// What is to be done with a candidate.
#[derive(Debug, Clone, PartialEq, Eq)]
pub enum AnnouncementStep {
    /// Read on.
    Continue,
    /// The candidate said this, or nothing that counts.
    Finished(Option<String>),
    /// Reading failed for good.
    Failed,
}

/// The content of a step.
pub enum AnnouncementStepView {
    Continue,
    Finished(Option<Seq<char>>),
    Failed,
}

impl View for AnnouncementStep {
    type V = AnnouncementStepView;

    open spec fn view(&self) -> AnnouncementStepView {
        match self {
            AnnouncementStep::Continue => AnnouncementStepView::Continue,
            AnnouncementStep::Finished(line) => AnnouncementStepView::Finished(
                text::opt_text(*line),
            ),
            AnnouncementStep::Failed => AnnouncementStepView::Failed,
        }
    }
}

/// Errors after which a candidate is read again.
pub open spec fn passing_error(kind: IoErrorKind) -> bool {
    kind == IoErrorKind::WouldBlock || kind == IoErrorKind::TimedOut || kind
        == IoErrorKind::Interrupted
}

/// The text of a line, if it is UTF-8.
pub open spec fn decoded(line: Seq<u8>) -> Option<Seq<char>> {
    if vstd::utf8::valid_utf8(line) {
        Some(vstd::utf8::decode_utf8(line))
    } else {
        None
    }
}

/// One read of a candidate that has said `bytes` so far.
pub open spec fn candidate_step(bytes: Seq<u8>, read: CandidateRead) -> (
    Seq<u8>,
    AnnouncementStepView,
) {
    match read {
        CandidateRead::Closed => (bytes, AnnouncementStepView::Finished(None)),
        CandidateRead::Byte(byte) => {
            let longer = bytes.push(byte);
            if byte == '\n' as u8 {
                (Seq::empty(), AnnouncementStepView::Finished(decoded(longer)))
            } else if longer.len() >= MAX_ANNOUNCEMENT_BYTES {
                (longer, AnnouncementStepView::Finished(None))
            } else {
                (longer, AnnouncementStepView::Continue)
            }
        },
        CandidateRead::Failed(kind) => if passing_error(kind) {
            (bytes, AnnouncementStepView::Continue)
        } else {
            (bytes, AnnouncementStepView::Failed)
        },
    }
}

/// Reads the first line of a candidate, byte by byte, so that nothing after it
/// is taken.
pub struct AnnouncementReader {
    bytes: Vec<u8>,
}

impl View for AnnouncementReader {
    type V = Seq<u8>;

    closed spec fn view(&self) -> Seq<u8> {
        self.bytes@
    }
}

impl AnnouncementReader {
    pub fn new() -> (reader: Self)
        ensures
            reader@ == Seq::<u8>::empty(),
    {
        AnnouncementReader { bytes: Vec::new() }
    }

    /// How long the next read may take; nothing once the candidate's time is up.
    pub fn poll(&self, now: u64, deadline: u64) -> (timeout: Option<u64>)
        ensures
            timeout == (if now >= deadline {
                None::<u64>
            } else if deadline - now < CANDIDATE_POLL {
                Some((deadline - now) as u64)
            } else {
                Some(CANDIDATE_POLL)
            }),
    {
        if now >= deadline {
            None
        } else if deadline - now < CANDIDATE_POLL {
            Some(deadline - now)
        } else {
            Some(CANDIDATE_POLL)
        }
    }

    /// Takes what a read gave.
    pub fn read(&mut self, read: CandidateRead) -> (step: AnnouncementStep)
        ensures
            (final(self)@, step@) == candidate_step(old(self)@, read),
    {
        match read {
            CandidateRead::Closed => AnnouncementStep::Finished(None),
            CandidateRead::Byte(byte) => {
                self.bytes.push(byte);
                if byte == '\n' as u8 {
                    let line = crate::bytes::take_bytes(&mut self.bytes);
                    AnnouncementStep::Finished(from_utf8(line))
                } else if self.bytes.len() >= MAX_ANNOUNCEMENT_BYTES {
                    AnnouncementStep::Finished(None)
                } else {
                    AnnouncementStep::Continue
                }
            },
            CandidateRead::Failed(kind) => match kind {
                IoErrorKind::WouldBlock
                | IoErrorKind::TimedOut
                | IoErrorKind::Interrupted => AnnouncementStep::Continue,
                _ => AnnouncementStep::Failed,
            },
        }
    }
}

/// What becomes of a candidate that sends these bytes and then closes.
pub open spec fn announcement(bytes: Seq<u8>, stream: Seq<u8>) -> Option<Seq<char>>
    decreases stream.len(),
{
    if stream.len() == 0 {
        None
    } else {
        match candidate_step(bytes, CandidateRead::Byte(stream[0])) {
            (longer, AnnouncementStepView::Continue) => announcement(longer, stream.skip(1)),
            (_, AnnouncementStepView::Finished(line)) => line,
            (_, AnnouncementStepView::Failed) => None,
        }
    }
}

proof fn lemma_announcement(bytes: Seq<u8>, stream: Seq<u8>)
    requires
        bytes.len() < MAX_ANNOUNCEMENT_BYTES,
    ensures
        ({
            let end = crate::bytes::index_of(stream, '\n' as u8);
            announcement(bytes, stream) == (if end < stream.len() && bytes.len() + end
                < MAX_ANNOUNCEMENT_BYTES {
                decoded(bytes + stream.take(end + 1))
            } else {
                None
            })
        }),
    decreases stream.len(),
{
    crate::bytes::lemma_index_of(stream, '\n' as u8);
    let end = crate::bytes::index_of(stream, '\n' as u8);
    if stream.len() > 0 {
        let rest = stream.skip(1);
        let longer = bytes.push(stream[0]);
        if stream[0] == '\n' as u8 {
            crate::bytes::lemma_index_of_unique(stream, '\n' as u8, 0);
            assert(end == 0);
            assert(bytes + stream.take(1) =~= longer);
        } else {
            crate::bytes::lemma_index_of(rest, '\n' as u8);
            let tail = crate::bytes::index_of(rest, '\n' as u8);
            crate::bytes::lemma_index_of_unique(stream, '\n' as u8, tail + 1);
            assert(end == tail + 1);
            if longer.len() < MAX_ANNOUNCEMENT_BYTES {
                lemma_announcement(longer, rest);
                if end < stream.len() {
                    assert(longer + rest.take(tail + 1) =~= bytes + stream.take(end + 1));
                }
            }
        }
    }
}

/// A candidate is known by its first line: of what it sends, that line counts, its
/// newline included, if it is no longer than the bound and is UTF-8; and nothing
/// else does.
pub proof fn law_first_line_counts(stream: Seq<u8>)
    ensures
        ({
            let end = crate::bytes::index_of(stream, '\n' as u8);
            announcement(Seq::empty(), stream) == (if end < stream.len() && end
                < MAX_ANNOUNCEMENT_BYTES {
                decoded(stream.take(end + 1))
            } else {
                None
            })
        }),
{
    lemma_announcement(Seq::empty(), stream);
    crate::bytes::lemma_index_of(stream, '\n' as u8);
    let end = crate::bytes::index_of(stream, '\n' as u8);
    if end < stream.len() {
        assert(Seq::<u8>::empty() + stream.take(end + 1) =~= stream.take(end + 1));
    }
}

/// What the search for the guest waits for.
#[derive(Debug, Clone, Copy, PartialEq, Eq, Structural)]
pub enum AcceptPhase {
    /// The guest's process and the clock, before the next connection.
    Polling,
    /// A connection.
    Accepting,
    /// The guest's process and the clock, while a candidate has until a deadline.
    Watching { candidate_deadline: u64 },
    /// A byte of the candidate.
    Reading { candidate_deadline: u64 },
    /// The candidate was recognised; its read timeout is being cleared.
    Clearing,
    /// The search is over.
    Over,
}

/// What happened in the search.
#[derive(Debug, Clone, PartialEq, Eq)]
pub enum AcceptEvent {
    /// How the guest's process ended, if it has, and the time.
    Status { exited: Option<String>, now: u64 },
    /// A connection came; `cloned` tells whether a reader for it could be made.
    /// `started` and `now` are the times before and after.
    Accepted { cloned: bool, started: u64, now: u64 },
    /// No connection is waiting.
    NothingWaiting,
    /// The candidate was read.
    Read(CandidateRead),
    /// Whether the read timeout could be cleared.
    Cleared(bool),
    /// Something failed that ends the search.
    Failed,
}

/// What to do next in the search.
#[derive(Debug, Clone, PartialEq, Eq)]
pub enum AcceptAsk {
    PollStatus,
    Accept,
    /// Wait a moment, then poll.
    Pause,
    /// Read one byte of the candidate, for at most so many milliseconds.
    Read { timeout: u64 },
    ClearTimeout,
    /// The candidate is the guest.
    Found,
    /// The guest's process ended before it connected.
    Exited(String),
    TimedOut,
    /// What was reported as failed is the error.
    Failed,
}

/// The content of an event.
pub enum AcceptEventView {
    Status { exited: Option<Seq<char>>, now: u64 },
    Accepted { cloned: bool, started: u64, now: u64 },
    NothingWaiting,
    Read(CandidateRead),
    Cleared(bool),
    Failed,
}

impl View for AcceptEvent {
    type V = AcceptEventView;

    open spec fn view(&self) -> AcceptEventView {
        match self {
            AcceptEvent::Status { exited, now } => AcceptEventView::Status {
                exited: text::opt_text(*exited),
                now: *now,
            },
            AcceptEvent::Accepted { cloned, started, now } => AcceptEventView::Accepted {
                cloned: *cloned,
                started: *started,
                now: *now,
            },
            AcceptEvent::NothingWaiting => AcceptEventView::NothingWaiting,
            AcceptEvent::Read(read) => AcceptEventView::Read(*read),
            AcceptEvent::Cleared(cleared) => AcceptEventView::Cleared(*cleared),
            AcceptEvent::Failed => AcceptEventView::Failed,
        }
    }
}

/// The content of what is asked for.
pub enum AcceptAskView {
    PollStatus,
    Accept,
    Pause,
    Read { timeout: u64 },
    ClearTimeout,
    Found,
    Exited(Seq<char>),
    TimedOut,
    Failed,
}

impl View for AcceptAsk {
    type V = AcceptAskView;

    open spec fn view(&self) -> AcceptAskView {
        match self {
            AcceptAsk::PollStatus => AcceptAskView::PollStatus,
            AcceptAsk::Accept => AcceptAskView::Accept,
            AcceptAsk::Pause => AcceptAskView::Pause,
            AcceptAsk::Read { timeout } => AcceptAskView::Read { timeout: *timeout },
            AcceptAsk::ClearTimeout => AcceptAskView::ClearTimeout,
            AcceptAsk::Found => AcceptAskView::Found,
            AcceptAsk::Exited(message) => AcceptAskView::Exited(message@),
            AcceptAsk::TimedOut => AcceptAskView::TimedOut,
            AcceptAsk::Failed => AcceptAskView::Failed,
        }
    }
}

/// The error of a guest that ended too early.
pub open spec fn exited_message(status: Seq<char>) -> Seq<char> {
    "OMP guest bridge exited before connecting: "@ + status
}

/// The error of a guest that did not come in time.
pub fn timed_out_message() -> (message: &'static str)
    ensures
        message@ == "OMP guest bridge did not connect within 30 seconds"@,
{
    "OMP guest bridge did not connect within 30 seconds"
}

/// The search's state.
pub struct AcceptView {
    pub token: Seq<char>,
    pub deadline: u64,
    pub candidate_timeout: u64,
    pub phase: AcceptPhase,
    /// What the candidate has said so far.
    pub said: Seq<u8>,
}

impl AcceptView {
    pub open spec fn to(self, phase: AcceptPhase) -> AcceptView {
        AcceptView { phase, ..self }
    }

    /// What an event may be, in this phase.
    pub open spec fn expects(self, event: AcceptEventView) -> bool {
        match event {
            AcceptEventView::Status { .. } => self.phase is Polling || self.phase is Watching,
            AcceptEventView::Accepted { started, now, .. } => self.phase is Accepting && started
                <= now,
            AcceptEventView::NothingWaiting => self.phase is Accepting,
            AcceptEventView::Read(_) => self.phase is Reading,
            AcceptEventView::Cleared(_) => self.phase is Clearing,
            AcceptEventView::Failed => !(self.phase is Over),
        }
    }

    /// The candidate is given up; the search goes on.
    pub open spec fn passed_over(self) -> (AcceptView, AcceptAskView) {
        (self.to(AcceptPhase::Polling), AcceptAskView::PollStatus)
    }

    /// When a candidate's time is up: after its own limit, or with the search.
    pub open spec fn candidate_deadline(self, started: u64, now: u64) -> u64 {
        let left = if self.deadline > now {
            self.deadline - now
        } else {
            0
        };
        (started + if self.candidate_timeout < left {
            self.candidate_timeout as int
        } else {
            left
        }) as u64
    }

    pub open spec fn next(self, event: AcceptEventView) -> (AcceptView, AcceptAskView) {
        match event {
            AcceptEventView::Status { exited, now } => match exited {
                Some(status) => (
                    self.to(AcceptPhase::Over),
                    AcceptAskView::Exited(exited_message(status)),
                ),
                None => match self.phase {
                    AcceptPhase::Watching { candidate_deadline } => if now >= candidate_deadline {
                        self.passed_over()
                    } else {
                        (
                            self.to(AcceptPhase::Reading { candidate_deadline }),
                            AcceptAskView::Read {
                                timeout: if candidate_deadline - now < CANDIDATE_POLL {
                                    (candidate_deadline - now) as u64
                                } else {
                                    CANDIDATE_POLL
                                },
                            },
                        )
                    },
                    _ => if now >= self.deadline {
                        (self.to(AcceptPhase::Over), AcceptAskView::TimedOut)
                    } else {
                        (self.to(AcceptPhase::Accepting), AcceptAskView::Accept)
                    },
                },
            },
            AcceptEventView::Accepted { cloned, started, now } => if cloned {
                (
                    AcceptView {
                        said: Seq::empty(),
                        ..self.to(
                            AcceptPhase::Watching {
                                candidate_deadline: self.candidate_deadline(started, now),
                            },
                        )
                    },
                    AcceptAskView::PollStatus,
                )
            } else {
                self.passed_over()
            },
            AcceptEventView::NothingWaiting => (
                self.to(AcceptPhase::Polling),
                AcceptAskView::Pause,
            ),
            AcceptEventView::Read(read) => {
                let (said, step) = candidate_step(self.said, read);
                let heard = AcceptView { said, ..self };
                match step {
                    AnnouncementStepView::Continue => (
                        heard.to(
                            AcceptPhase::Watching {
                                candidate_deadline: self.phase->Reading_candidate_deadline,
                            },
                        ),
                        AcceptAskView::PollStatus,
                    ),
                    AnnouncementStepView::Finished(line) => if line matches Some(line)
                        && line_announces(line, self.token) {
                        (heard.to(AcceptPhase::Clearing), AcceptAskView::ClearTimeout)
                    } else {
                        heard.passed_over()
                    },
                    AnnouncementStepView::Failed => (
                        heard.to(AcceptPhase::Over),
                        AcceptAskView::Failed,
                    ),
                }
            },
            AcceptEventView::Cleared(cleared) => if cleared {
                (self.to(AcceptPhase::Over), AcceptAskView::Found)
            } else {
                self.passed_over()
            },
            AcceptEventView::Failed => (self.to(AcceptPhase::Over), AcceptAskView::Failed),
        }
    }
}

/// The search for this client's guest.
pub struct GuestSearch {
    token: String,
    deadline: u64,
    candidate_timeout: u64,
    phase: AcceptPhase,
    reader: AnnouncementReader,
}

impl View for GuestSearch {
    type V = AcceptView;

    closed spec fn view(&self) -> AcceptView {
        AcceptView {
            token: self.token@,
            deadline: self.deadline,
            candidate_timeout: self.candidate_timeout,
            phase: self.phase,
            said: self.reader@,
        }
    }
}

impl GuestSearch {
    /// Starts a search; the guest's process and the clock are looked at first.
    pub fn new(token: String, deadline: u64, candidate_timeout: u64) -> (search: Self)
        ensures
            search@ == (AcceptView {
                token: token@,
                deadline,
                candidate_timeout,
                phase: AcceptPhase::Polling,
                said: Seq::empty(),
            }),
    {
        GuestSearch {
            token,
            deadline,
            candidate_timeout,
            phase: AcceptPhase::Polling,
            reader: AnnouncementReader::new(),
        }
    }

    fn pass_over(&mut self) -> (ask: AcceptAsk)
        ensures
            (final(self)@, ask@) == old(self)@.passed_over(),
    {
        self.phase = AcceptPhase::Polling;
        AcceptAsk::PollStatus
    }

    fn heard(&mut self, line: Option<String>) -> (ask: AcceptAsk)
        ensures
            (final(self)@, ask@) == (if text::opt_text(line) matches Some(line) && line_announces(
                line,
                old(self)@.token,
            ) {
                (old(self)@.to(AcceptPhase::Clearing), AcceptAskView::ClearTimeout)
            } else {
                old(self)@.passed_over()
            }),
    {
        let valid = match &line {
            Some(line) => announcement_valid(line.as_str(), self.token.as_str()),
            None => false,
        };
        if valid {
            self.phase = AcceptPhase::Clearing;
            AcceptAsk::ClearTimeout
        } else {
            self.pass_over()
        }
    }

    /// Takes an event and says what to do next.
    pub fn step(&mut self, event: AcceptEvent) -> (ask: AcceptAsk)
        requires
            old(self)@.expects(event@),
        ensures
            (final(self)@, ask@) == old(self)@.next(event@),
    {
        match event {
            AcceptEvent::Status { exited, now } => {
                if let Some(status) = exited {
                    self.phase = AcceptPhase::Over;
                    let mut message = "OMP guest bridge exited before connecting: ".to_owned();
                    message.append(status.as_str());
                    return AcceptAsk::Exited(message);
                }
                match self.phase {
                    AcceptPhase::Watching { candidate_deadline } => {
                        match self.reader.poll(now, candidate_deadline) {
                            Some(timeout) => {
                                self.phase = AcceptPhase::Reading { candidate_deadline };
                                AcceptAsk::Read { timeout }
                            },
                            None => self.pass_over(),
                        }
                    },
                    _ => {
                        if now >= self.deadline {
                            self.phase = AcceptPhase::Over;
                            AcceptAsk::TimedOut
                        } else {
                            self.phase = AcceptPhase::Accepting;
                            AcceptAsk::Accept
                        }
                    },
                }
            },
            AcceptEvent::Accepted { cloned, started, now } => {
                if !cloned {
                    return self.pass_over();
                }
                let left: u64 = if self.deadline > now {
                    self.deadline - now
                } else {
                    0
                };
                let limit: u64 = if self.candidate_timeout < left {
                    self.candidate_timeout
                } else {
                    left
                };
                self.reader = AnnouncementReader::new();
                self.phase = AcceptPhase::Watching { candidate_deadline: started + limit };
                AcceptAsk::PollStatus
            },
            AcceptEvent::NothingWaiting => {
                self.phase = AcceptPhase::Polling;
                AcceptAsk::Pause
            },
            AcceptEvent::Read(read) => {
                let candidate_deadline: u64 = match self.phase {
                    AcceptPhase::Reading { candidate_deadline } => candidate_deadline,
                    _ => 0,
                };
                match self.reader.read(read) {
                    AnnouncementStep::Continue => {
                        self.phase = AcceptPhase::Watching { candidate_deadline };
                        AcceptAsk::PollStatus
                    },
                    AnnouncementStep::Finished(line) => self.heard(line),
                    AnnouncementStep::Failed => {
                        self.phase = AcceptPhase::Over;
                        AcceptAsk::Failed
                    },
                }
            },
            AcceptEvent::Cleared(cleared) => {
                if cleared {
                    self.phase = AcceptPhase::Over;
                    AcceptAsk::Found
                } else {
                    self.pass_over()
                }
            },
            AcceptEvent::Failed => {
                self.phase = AcceptPhase::Over;
                AcceptAsk::Failed
            },
        }
    }
}

/// Only a candidate whose first line announces this client's token is taken for the
/// guest: the search reaches its last question in no other way.
pub proof fn law_only_the_token_is_accepted(search: AcceptView, event: AcceptEventView)
    requires
        search.expects(event),
    ensures
        search.next(event).1 is Found ==> search.phase is Clearing,
        search.next(event).0.phase is Clearing ==> (event matches AcceptEventView::Read(
            CandidateRead::Byte(byte),
        ) && byte == '\n' as u8 && decoded(search.said.push(byte)) is Some && line_announces(
            decoded(search.said.push(byte))->0,
            search.token,
        )),
{
}

/// A candidate never has longer than its own limit, nor longer than the search.
pub proof fn law_candidate_time_bounded(search: AcceptView, started: u64, now: u64)
    requires
        started <= now,
    ensures
        search.candidate_deadline(started, now) <= started + search.candidate_timeout,
        now <= search.deadline ==> search.candidate_deadline(started, now) <= search.deadline,
        search.candidate_deadline(started, now) >= started,
{
}

/// A line announces this client's guest exactly if it says that it is a guest and holds this
/// client's own token.
pub proof fn law_guest_shows_its_token(line: Seq<char>, token: Seq<char>)
    ensures
        line_announces(line, token) <==> json_text_field(line, "t"@) == Some("guest"@)
            && json_text_field(line, "token"@) == Some(token),
{
}

/// Between candidates the search looks at the guest and the clock: it ends with a guest that
/// ended, saying how, and with its own deadline; until then it waits for a connection.
pub proof fn law_search_lasts_until_its_deadline(
    search: AcceptView,
    now: u64,
    status: Seq<char>,
)
    requires
        search.phase is Polling,
    ensures
        search.next(AcceptEventView::Status { exited: None, now }) == (if now < search.deadline {
            (AcceptView { phase: AcceptPhase::Accepting, ..search }, AcceptAskView::Accept)
        } else {
            (AcceptView { phase: AcceptPhase::Over, ..search }, AcceptAskView::TimedOut)
        }),
        search.next(AcceptEventView::Status { exited: Some(status), now }) == (
            AcceptView { phase: AcceptPhase::Over, ..search },
            AcceptAskView::Exited("OMP guest bridge exited before connecting: "@ + status),
        ),
{
}

/// A connection becomes a candidate that has said nothing yet, with its own time; one that
/// cannot be read is passed over, and where none waits the search pauses.
pub proof fn law_connections_become_candidates(search: AcceptView, started: u64, now: u64)
    requires
        search.phase is Accepting,
        started <= now <= search.deadline,
        started + search.candidate_timeout <= u64::MAX,
    ensures
        ({
            let (heard, ask) = search.next(
                AcceptEventView::Accepted { cloned: true, started, now },
            );
            &&& ask is PollStatus
            &&& heard.phase is Watching
            &&& heard.said == Seq::<u8>::empty()
            &&& heard.token == search.token && heard.deadline == search.deadline
            &&& search.candidate_timeout <= search.deadline - now
                ==> heard.phase->Watching_candidate_deadline == started + search.candidate_timeout
            &&& search.candidate_timeout > search.deadline - now
                ==> heard.phase->Watching_candidate_deadline == started + (search.deadline - now)
            &&& search.next(AcceptEventView::Accepted { cloned: false, started, now }) == (
                AcceptView { phase: AcceptPhase::Polling, ..search },
                AcceptAskView::PollStatus,
            )
            &&& search.next(AcceptEventView::NothingWaiting) == (
                AcceptView { phase: AcceptPhase::Polling, ..search },
                AcceptAskView::Pause,
            )
        }),
{
}

/// A candidate is read while it has time, never for longer than it has, and then passed over;
/// the search goes on in either case.
pub proof fn law_candidate_is_read_while_it_has_time(
    search: AcceptView,
    candidate_deadline: u64,
    now: u64,
)
    requires
        search.phase == (AcceptPhase::Watching { candidate_deadline }),
    ensures
        ({
            let (next, ask) = search.next(AcceptEventView::Status { exited: None, now });
            &&& now >= candidate_deadline ==> next.phase is Polling && ask is PollStatus
            &&& now < candidate_deadline ==> next.phase == (AcceptPhase::Reading {
                candidate_deadline,
            }) && (ask matches AcceptAskView::Read { timeout } && 0 < timeout <= 20 && timeout
                <= candidate_deadline - now && (candidate_deadline - now >= 20 ==> timeout == 20)
                && (candidate_deadline - now < 20 ==> timeout == candidate_deadline - now))
            &&& next.said == search.said && next.token == search.token
        }),
{
}

/// What a candidate says is collected byte by byte. The line that announces the guest ends
/// the search for it; any other line, a line that is too long and the end of the connection
/// pass the candidate over. A read that only has to be repeated loses nothing, and another
/// failure ends the search.
pub proof fn law_candidate_is_judged_by_its_line(
    search: AcceptView,
    candidate_deadline: u64,
    byte: u8,
    kind: IoErrorKind,
)
    requires
        search.phase == (AcceptPhase::Reading { candidate_deadline }),
        search.said.len() < 4096,
    ensures
        ({
            let (next, ask) = search.next(AcceptEventView::Read(CandidateRead::Byte(byte)));
            let whole = search.said.push(byte);
            let guest = vstd::utf8::valid_utf8(whole) && line_announces(
                vstd::utf8::decode_utf8(whole),
                search.token,
            );
            let watching = AcceptPhase::Watching { candidate_deadline };
            &&& byte == '\n' as u8 && guest ==> next.phase is Clearing && ask is ClearTimeout
            &&& byte == '\n' as u8 && !guest ==> next.phase is Polling && ask is PollStatus
            &&& byte != '\n' as u8 && whole.len() < 4096 ==> next == AcceptView {
                said: whole,
                phase: watching,
                ..search
            } && ask is PollStatus
            &&& byte != '\n' as u8 && whole.len() == 4096 ==> next.phase is Polling && ask
                is PollStatus
            &&& search.next(AcceptEventView::Read(CandidateRead::Closed)) == (
                AcceptView { phase: AcceptPhase::Polling, ..search },
                AcceptAskView::PollStatus,
            )
            &&& search.next(AcceptEventView::Read(CandidateRead::Failed(kind))) == (if kind
                == IoErrorKind::WouldBlock || kind == IoErrorKind::TimedOut || kind
                == IoErrorKind::Interrupted {
                (AcceptView { phase: watching, ..search }, AcceptAskView::PollStatus)
            } else {
                (AcceptView { phase: AcceptPhase::Over, ..search }, AcceptAskView::Failed)
            })
        }),
{
}

/// The candidate that was recognised is the guest, unless its connection cannot be used.
pub proof fn law_recognised_candidate_is_found(search: AcceptView)
    requires
        search.phase is Clearing,
    ensures
        search.next(AcceptEventView::Cleared(true)).1 is Found,
        search.next(AcceptEventView::Cleared(true)).0.phase is Over,
        search.next(AcceptEventView::Cleared(false)).1 is PollStatus,
        search.next(AcceptEventView::Cleared(false)).0.phase is Polling,
        search.next(AcceptEventView::Failed).1 is Failed,
        search.next(AcceptEventView::Failed).0.phase is Over,
{
}

} // verus!
