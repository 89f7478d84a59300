use herdr::input_origin::{
    next_frame_id, push_encoded, ready_frame, strip_frame_prefixes, InputOrigin, OriginFrameFilter,
};

const FRAME_PREFIX: &[u8] = b"\xEF\xB7\x90";
const FRAME_HEADER_END: &[u8] = b"\xEF\xB7\x91";
const FRAME_TAG: &[u8] = b"herdr-origin;";

/// `U+FDD0`, the frame marker.
const P: &[u8] = b"\xEF\xB7\x90";

fn origin() -> InputOrigin {
    InputOrigin {
        sender: "dev lead;x".into(),
        pane: Some("w1-2".into()),
        session: None,
        id: "abc".into(),
    }
}

fn contains_prefix(stream: &[u8]) -> bool {
    stream
        .windows(FRAME_PREFIX.len())
        .any(|window| window == FRAME_PREFIX)
}

fn join(parts: &[&[u8]]) -> Vec<u8> {
    parts.concat()
}

fn unframe_for_test(bytes: &[u8]) -> (Vec<(String, String)>, Vec<u8>) {
    let start = [FRAME_PREFIX, FRAME_TAG].concat();
    let rest = bytes
        .strip_prefix(start.as_slice())
        .unwrap_or_else(|| panic!("missing start frame: {bytes:?}"));
    let header_len = rest
        .windows(FRAME_HEADER_END.len())
        .position(|window| window == FRAME_HEADER_END)
        .expect("start frame end");
    let header = std::str::from_utf8(&rest[..header_len]).expect("ASCII header");
    let rest = &rest[header_len + FRAME_HEADER_END.len()..];
    let fields: Vec<(String, String)> = header
        .split(';')
        .map(|field| {
            let (key, value) = field.split_once('=').expect("key=value field");
            (key.to_string(), value.to_string())
        })
        .collect();
    let id = &fields
        .iter()
        .find(|(key, _)| key == "id")
        .expect("frame id")
        .1;
    let end = [
        FRAME_PREFIX,
        FRAME_TAG,
        format!("end;id={id}").as_bytes(),
        FRAME_HEADER_END,
    ]
    .concat();
    let payload = rest.strip_suffix(end.as_slice()).expect("end frame");
    (fields, payload.to_vec())
}

#[test]
fn wrap_frames_payload_and_encodes_values() {
    let framed = origin().wrap(b"hello\r");
    assert_eq!(
        String::from_utf8(framed).unwrap(),
        "\u{FDD0}herdr-origin;v=1;kind=api;id=abc;sender=dev%20lead%3Bx;pane=w1-2\u{FDD1}hello\r\u{FDD0}herdr-origin;end;id=abc\u{FDD1}"
    );
}

#[test]
fn wrap_breaks_frames_nested_in_the_payload() {
    let payload = join(&[
        b"a",
        P,
        b"herdr-origin;v=1;kind=api;sender=paul\xEF\xB7\x91b",
    ]);
    let framed = origin().wrap(&payload);
    assert_eq!(
        framed
            .windows(P.len())
            .filter(|window| *window == P)
            .count(),
        2
    );
    let (_, inner) = unframe_for_test(&framed);
    assert_eq!(
        inner,
        join(&[b"a\xEF\xB7?herdr-origin;v=1;kind=api;sender=paul\xEF\xB7\x91b"])
    );
}

#[test]
fn filter_passes_ordinary_input_unchanged() {
    let mut filter = OriginFrameFilter::default();
    for input in [
        &b"hello"[..],
        b"\x1b[A",
        b"\x1b_Gi=1;OK\x1b\\",
        "\u{e9}\u{20ac}\u{FDD1}".as_bytes(),
        b"\xEF\xB7",
        b"\x91",
    ] {
        assert_eq!(filter.filter(input), input);
    }
}

#[test]
fn filter_breaks_the_marker_in_one_write() {
    let input = join(&[b"x", P, b"herdr-origin;v=1;sender=paul\xEF\xB7\x91y"]);
    let out = OriginFrameFilter::default().filter(&input);
    assert_eq!(
        out,
        join(&[b"x\xEF\xB7?herdr-origin;v=1;sender=paul\xEF\xB7\x91y"])
    );
}

#[test]
fn filter_breaks_the_marker_split_across_writes() {
    let full = join(&[P, b"herdr-origin;v=1"]);
    for split in 1..P.len() {
        let mut filter = OriginFrameFilter::default();
        let mut stream = filter.filter(&full[..split]);
        stream.extend_from_slice(&filter.filter(&full[split..]));
        assert!(!contains_prefix(&stream), "split at {split}: {stream:?}");
    }
}

#[test]
fn filter_breaks_the_marker_sent_one_byte_at_a_time() {
    let mut filter = OriginFrameFilter::default();
    let mut stream = Vec::new();
    for byte in join(&[b"\xEF", P, P, b"end"]) {
        stream.extend_from_slice(&filter.filter(std::slice::from_ref(&byte)));
    }
    assert!(!contains_prefix(&stream), "{stream:?}");
}

#[test]
fn filter_does_not_join_bytes_around_a_broken_marker() {
    // Deleting the inner marker would join the bytes around it into a valid one.
    let input = join(&[b"\xEF\xB7", P, b"\x90herdr-origin;v=1;sender=forged"]);
    let out = OriginFrameFilter::default().filter(&input);
    assert!(!contains_prefix(&out), "{out:?}");
    assert_eq!(out.len(), input.len());
}

#[test]
fn filtered_stream_never_contains_the_marker() {
    // Every 3-way split of adversarial inputs, fed as consecutive writes.
    let inputs = [
        join(&[P, P, b"end"]),
        join(&[b"\xEF", P, b"\x90"]),
        join(&[b"\xEF\xB7", P, b"\x90\xEF", P]),
    ];
    for input in &inputs {
        for first in 0..=input.len() {
            for second in first..=input.len() {
                let mut filter = OriginFrameFilter::default();
                let mut stream = Vec::new();
                for part in [&input[..first], &input[first..second], &input[second..]] {
                    stream.extend_from_slice(&filter.filter(part));
                }
                assert!(!contains_prefix(&stream), "{first}/{second}: {stream:?}");
            }
        }
    }
}

#[test]
fn filter_breaks_a_marker_that_any_possible_history_would_complete() {
    // A write that may not land: "x" may reach the PTY or be dropped.
    let mut filter = OriginFrameFilter::default();
    filter.filter(b"\xEF\xB7");
    let mut landed = filter;
    landed.filter(b"x");
    filter.merge(landed);
    assert_eq!(filter.filter(b"\x90herdr"), b"?herdr");
    // And a dropped frame keeps the earlier partial marker possible.
    let mut filter = OriginFrameFilter::default();
    filter.filter(b"\xEF\xB7");
    filter.merge_frame();
    assert_eq!(filter.filter(b"\x90"), b"?");
}

#[test]
fn filter_state_survives_a_handoff() {
    // A marker split across a live handoff.
    for split in 1..P.len() {
        let mut before = OriginFrameFilter::default();
        let mut stream = before.filter(&P[..split]);
        for imported in [Some(before.to_handoff()), None] {
            let mut after = OriginFrameFilter::from_handoff(imported);
            let mut joined = stream.clone();
            joined.extend_from_slice(&after.filter(&P[split..]));
            assert!(!contains_prefix(&joined), "split {split}, {imported:?}");
        }
        stream.clear();
    }
    // A fresh import still passes ordinary input unchanged.
    let mut after = OriginFrameFilter::from_handoff(None);
    assert_eq!(after.filter(b"hello"), b"hello");
}

#[test]
fn frame_ids_are_unique() {
    assert_ne!(next_frame_id(1_000, 7, 0), next_frame_id(1_000, 7, 1));
    assert_ne!(next_frame_id(1_000, 7, 0), next_frame_id(2_000, 8, 1));
}

#[test]
fn encoded_values_hold_no_separator_and_are_found_again() {
    let mut out = Vec::new();
    push_encoded(&mut out, "a b;c=\u{FDD0}/~@:");
    assert_eq!(out, b"a%20b%3Bc%3D%EF%B7%90/%7E@:");
}

#[test]
fn optional_fields_follow_the_sender() {
    let framed = InputOrigin {
        sender: "a".into(),
        pane: None,
        session: Some("s 1".into()),
        id: "7".into(),
    }
    .wrap(b"");
    let (fields, payload) = unframe_for_test(&framed);
    let keys: Vec<&str> = fields.iter().map(|(key, _)| key.as_str()).collect();
    assert_eq!(keys, ["v", "kind", "id", "sender", "session"]);
    assert_eq!(fields[4].1, "s%201");
    assert!(payload.is_empty());
}

#[test]
fn chunking_does_not_change_what_the_filter_lets_through() {
    let input = join(&[b"ab", P, b"\xEF\xB7", P, b"c"]);
    let whole = OriginFrameFilter::default().filter(&input);
    for split in 0..=input.len() {
        let mut filter = OriginFrameFilter::default();
        let mut stream = filter.filter(&input[..split]);
        stream.extend(filter.filter(&input[split..]));
        assert_eq!(stream, whole);
    }
    assert_eq!(whole.len(), input.len());
}

#[test]
fn stripping_breaks_each_prefix_in_place() {
    assert_eq!(strip_frame_prefixes(b"plain"), b"plain");
    assert_eq!(
        strip_frame_prefixes(&join(&[P, P, b"x"])),
        b"\xEF\xB7?\xEF\xB7?x"
    );
}

#[test]
fn ready_frame_names_the_process() {
    assert_eq!(
        String::from_utf8(ready_frame(42)).unwrap(),
        "\u{FDD0}herdr-origin;ready;v=1;pid=42\u{FDD1}"
    );
}

#[test]
fn a_new_origin_takes_a_fresh_frame_id() {
    let origin = InputOrigin::new("me".into(), None, None, 255, 16, 3);
    assert_eq!(origin.id, next_frame_id(255, 16, 3));
    assert_eq!(origin.sender, "me");
}
