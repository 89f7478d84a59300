//! Selected OSC sequences, captured for diagnosing agent titles and status.
use crate::bytes::{after, before, is_text, position};
use crate::osc::stream::{OscStreamCollector, StreamView};
use crate::text::{
    self, ascii_lowercase, chars_of, from_utf8_lossy, printable_prefix, push_char, same_text,
    text_of, trimmed,
};
use vstd::prelude::*;

verus! {

/// The most characters of a payload that are captured.
pub const MAX_CHARS: usize = 512;

#[derive(Debug, Clone, PartialEq, Eq)]
pub struct OscDebugEvent {
    pub command: String,
    pub payload: String,
}

/// The content of an event.
pub struct DebugEventView {
    pub command: Seq<char>,
    pub payload: Seq<char>,
}

impl View for OscDebugEvent {
    type V = DebugEventView;

    open spec fn view(&self) -> DebugEventView {
        DebugEventView { command: self.command@, payload: self.payload@ }
    }
}

pub open spec fn event_views(events: Seq<OscDebugEvent>) -> Seq<DebugEventView> {
    Seq::new(events.len(), |i: int| events[i]@)
}

/// The commands that are captured.
pub open spec fn debug_command(command: Seq<u8>) -> Option<Seq<char>> {
    if command == crate::bytes::utf8("0") {
        Some("0"@)
    } else if command == crate::bytes::utf8("2") {
        Some("2"@)
    } else if command == crate::bytes::utf8("9") {
        Some("9"@)
    } else if command == crate::bytes::utf8("21337") {
        Some("21337"@)
    } else {
        None
    }
}

/// A payload as it is captured: the printable characters, cut off at the
/// bound, with an ellipsis where the payload is longer than the bound.
pub open spec fn captured_payload(payload: Seq<u8>) -> Seq<char> {
    let chars = text::utf8_lossy(payload);
    let kept = text::at_most(text::printable(chars), MAX_CHARS as int);
    if chars.len() > MAX_CHARS {
        kept + seq!['.', '.', '.']
    } else {
        kept
    }
}

/// The event in an OSC body.
pub open spec fn debug_event(body: Seq<u8>) -> Option<DebugEventView> {
    let separator = crate::bytes::index_of(body, ';' as u8);
    if separator == body.len() {
        None
    } else {
        match debug_command(body.take(separator)) {
            Some(command) => Some(
                DebugEventView { command, payload: captured_payload(body.skip(separator + 1)) },
            ),
            None => None,
        }
    }
}

/// The events in OSC bodies, in order.
pub open spec fn debug_events(bodies: Seq<Seq<u8>>) -> Seq<DebugEventView>
    decreases bodies.len(),
{
    if bodies.len() == 0 {
        Seq::empty()
    } else {
        let earlier = debug_events(bodies.drop_last());
        match debug_event(bodies.last()) {
            Some(event) => earlier.push(event),
            None => earlier,
        }
    }
}

/// Whether a setting's value switches capture on.
pub open spec fn setting_enables(value: Option<Seq<char>>) -> bool {
    match value {
        Some(value) => {
            let value = text::lowered(text::trim(value));
            value == "1"@ || value == "true"@ || value == "yes"@ || value == "on"@
        },
        None => false,
    }
}

/// Whether the value of the setting switches capture on.
pub fn osc_debug_enabled(value: Option<&str>) -> (enabled: bool)
    ensures
        enabled == setting_enables(
            match value {
                Some(value) => Some(value@),
                None => None,
            },
        ),
{
    match value {
        Some(value) => {
            let chars = chars_of(value);
            let lower = text_of(ascii_lowercase(trimmed(chars.as_slice())).as_slice());
            same_text(lower.as_str(), "1") || same_text(lower.as_str(), "true") || same_text(
                lower.as_str(),
                "yes",
            ) || same_text(lower.as_str(), "on")
        },
        None => false,
    }
}

fn sanitized_osc_debug_payload(payload: &[u8]) -> (sanitized: String)
    ensures
        sanitized@ == captured_payload(payload@),
{
    let chars = chars_of(from_utf8_lossy(payload).as_str());
    let mut sanitized = printable_prefix(chars.as_slice(), MAX_CHARS);
    if chars.len() > MAX_CHARS {
        push_char(&mut sanitized, '.');
        push_char(&mut sanitized, '.');
        push_char(&mut sanitized, '.');
        assert(sanitized@ =~= captured_payload(payload@));
    }
    sanitized
}

fn tracked_command(command: &[u8]) -> (name: Option<&'static str>)
    ensures
        match name {
            Some(name) => debug_command(command@) == Some(name@),
            None => debug_command(command@) is None,
        },
{
    if is_text(command, "0") {
        Some("0")
    } else if is_text(command, "2") {
        Some("2")
    } else if is_text(command, "9") {
        Some("9")
    } else if is_text(command, "21337") {
        Some("21337")
    } else {
        None
    }
}

/// The event in an OSC body.
pub fn parse_osc_debug_event(body: &[u8]) -> (event: Option<OscDebugEvent>)
    ensures
        match event {
            Some(event) => debug_event(body@) == Some(event@),
            None => debug_event(body@) is None,
        },
{
    let separator: usize = match position(body, ';' as u8) {
        Some(separator) => separator,
        None => return None,
    };
    assert(separator < body.len());
    match tracked_command(before(body, separator)) {
        Some(command) => Some(
            OscDebugEvent {
                command: command.to_owned(),
                payload: sanitized_osc_debug_payload(after(body, separator + 1)),
            },
        ),
        None => None,
    }
}

/// Reconstructs selected OSC sequences for local evidence while agent titles
/// and status are debugged. This is passive: nothing here affects rendering or
/// detection.
#[derive(Debug)]
pub struct OscDebugTracker {
    enabled: bool,
    collector: OscStreamCollector,
    pending: Vec<OscDebugEvent>,
}

impl OscDebugTracker {
    pub closed spec fn enabled(&self) -> bool {
        self.enabled
    }

    pub closed spec fn stream(&self) -> StreamView {
        self.collector@
    }

    pub closed spec fn pending(&self) -> Seq<DebugEventView> {
        event_views(self.pending@)
    }

    pub fn new(enabled: bool) -> (tracker: Self)
        ensures
            tracker.enabled() == enabled,
            tracker.stream() == StreamView::initial(),
            tracker.pending() == Seq::<DebugEventView>::empty(),
    {
        let tracker = OscDebugTracker {
            enabled,
            collector: OscStreamCollector::default(),
            pending: Vec::new(),
        };
        assert(tracker.pending() =~= Seq::empty());
        tracker
    }

    /// Observes a chunk of output, where capture is switched on.
    pub fn observe(&mut self, bytes: &[u8])
        ensures
            final(self).enabled() == old(self).enabled(),
            old(self).enabled() ==> final(self).stream() == old(self).stream().run(bytes@)
                && final(self).pending() == old(self).pending() + debug_events(
                old(self).stream().bodies(bytes@),
            ),
            !old(self).enabled() ==> final(self).stream() == old(self).stream()
                && final(self).pending() == old(self).pending(),
    {
        if !self.enabled {
            return ;
        }
        let ghost before = self.pending();
        let bodies = self.collector.observe(bytes);
        let ghost all = crate::bytes::views(bodies@);
        let mut i: usize = 0;
        assert(all.take(0) =~= Seq::empty());
        assert(before =~= before + Seq::empty());
        while i < bodies.len()
            invariant
                i <= bodies.len(),
                self.enabled,
                all == crate::bytes::views(bodies@),
                self.collector@ == old(self).collector@.run(bytes@),
                self.pending() == before + debug_events(all.take(i as int)),
            decreases bodies.len() - i,
        {
            let ghost earlier = self.pending();
            assert(all.take(i as int + 1).drop_last() =~= all.take(i as int));
            assert(all[i as int] == bodies@[i as int]@);
            if let Some(event) = parse_osc_debug_event(bodies[i].as_slice()) {
                let ghost content = event@;
                self.pending.push(event);
                assert(self.pending() =~= earlier.push(content));
                assert(self.pending() =~= before + debug_events(all.take(i as int + 1)));
            }
            i += 1;
        }
        assert(all.take(i as int) =~= all);
    }

    /// Hands out the captured events.
    pub fn drain_pending(&mut self) -> (events: Vec<OscDebugEvent>)
        ensures
            event_views(events@) == old(self).pending(),
            final(self).pending() == Seq::<DebugEventView>::empty(),
            final(self).enabled() == old(self).enabled(),
            final(self).stream() == old(self).stream(),
    {
        let mut events: Vec<OscDebugEvent> = Vec::new();
        events.append(&mut self.pending);
        assert(events@ =~= old(self).pending@);
        assert(self.pending() =~= Seq::empty());
        events
    }
}

/// The titles, the progress and the status are captured under their own numbers, with their
/// payload; other commands are not.
pub proof fn law_captured_commands(command: Seq<char>, payload: Seq<u8>)
    requires
        vstd::utf8::is_ascii_chars(command),
        !command.contains(';'),
    ensures
        ({
            let body = vstd::utf8::encode_utf8(command) + seq![';' as u8] + payload;
            &&& command == "0"@ || command == "2"@ || command == "9"@ || command == "21337"@
                ==> debug_event(body) == Some(
                DebugEventView { command, payload: captured_payload(payload) },
            )
            &&& command != "0"@ && command != "2"@ && command != "9"@ && command != "21337"@
                ==> debug_event(body) is None
        }),
{
    let name = vstd::utf8::encode_utf8(command);
    let body = name + seq![';' as u8] + payload;
    vstd::utf8::is_ascii_chars_encode_utf8(command);
    assert forall|j: int| 0 <= j < name.len() implies name[j] != ';' as u8 by {
        assert(command.contains(command[j]));
        assert(name[j] == command[j] as u8);
    }
    crate::bytes::lemma_index_of_unique(body, ';' as u8, name.len() as int);
    assert(body.take(name.len() as int) =~= name);
    assert(body.skip(name.len() as int + 1) =~= payload);
    vstd::utf8::encode_utf8_decode_utf8(command);
    vstd::utf8::encode_utf8_decode_utf8("0"@);
    vstd::utf8::encode_utf8_decode_utf8("2"@);
    vstd::utf8::encode_utf8_decode_utf8("9"@);
    vstd::utf8::encode_utf8_decode_utf8("21337"@);
}

/// A captured payload is printable text, cut off at the bound, with three dots where it is cut.
pub proof fn law_captured_payloads(payload: Seq<u8>)
    ensures
        ({
            let chars = text::utf8_lossy(payload);
            let kept = captured_payload(payload);
            &&& chars.len() <= 512 ==> kept == text::printable(chars)
            &&& chars.len() > 512 ==> kept.len() >= 3 && kept[kept.len() - 1] == '.'
                && kept[kept.len() - 2] == '.' && kept[kept.len() - 3] == '.' && kept.len() <= 515
                && kept.take(kept.len() - 3).is_prefix_of(text::printable(chars))
        }),
{
    let chars = text::utf8_lossy(payload);
    let kept = captured_payload(payload);
    lemma_printable_shorter(chars);
    if chars.len() > 512 {
        let all = text::printable(chars);
        let start = kept.take(kept.len() - 3);
        assert(start =~= text::at_most(all, 512));
        assert(start =~= all.subrange(0, start.len() as int));
    }
}

proof fn lemma_printable_shorter(chars: Seq<char>)
    ensures
        text::printable(chars).len() <= chars.len(),
    decreases chars.len(),
{
    if chars.len() > 0 {
        lemma_printable_shorter(chars.drop_last());
    }
}

/// Capture is switched on by `1`, `true`, `yes` and `on`, however they are written and spaced,
/// and by nothing else.
pub proof fn law_capture_setting(value: Seq<char>)
    ensures
        setting_enables(Some(value)) <==> text::same_ignoring_case(text::trim(value), "1"@)
            || text::same_ignoring_case(text::trim(value), "true"@) || text::same_ignoring_case(
            text::trim(value),
            "yes"@,
        ) || text::same_ignoring_case(text::trim(value), "on"@),
        !setting_enables(None),
{
    reveal_strlit("1");
    reveal_strlit("true");
    reveal_strlit("yes");
    reveal_strlit("on");
    assert(text::lowered("1"@) =~= "1"@);
    assert(text::lowered("true"@) =~= "true"@);
    assert(text::lowered("yes"@) =~= "yes"@);
    assert(text::lowered("on"@) =~= "on"@);
}

/// Events come in the order of their bodies.
pub proof fn law_captured_events_in_order(first: Seq<Seq<u8>>, second: Seq<Seq<u8>>)
    ensures
        debug_events(first + second) == debug_events(first) + debug_events(second),
    decreases second.len(),
{
    if second.len() > 0 {
        law_captured_events_in_order(first, second.drop_last());
        assert((first + second).drop_last() =~= first + second.drop_last());
        assert((first + second).last() == second.last());
        assert(debug_events(first + second) =~= debug_events(first) + debug_events(second));
    } else {
        assert(first + second =~= first);
        assert(debug_events(first) + debug_events(second) =~= debug_events(first));
    }
}

} // verus!
