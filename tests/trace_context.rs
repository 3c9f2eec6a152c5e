use bytes::Bytes;
use linkerd2_trace_context::id::{SPAN_ID_LEN, TRACE_ID_LEN};
use linkerd2_trace_context::propagation::{RESERVED_VERSION, SUPPORTED_VERSION};
use linkerd2_trace_context::{
    child_context, decode, emit, encode, resolve_context, BoundedSink, Config, DecodeError,
    Emission, Flags, Id, SinkError, Span,
};
use std::collections::HashSet;

const HEADER: &str = "00-4bf92f3577b34da6a3ce929d0e0e4736-00f067aa0ba902b7-01";
const TRACE: [u8; 16] = [
    0x4b, 0xf9, 0x2f, 0x35, 0x77, 0xb3, 0x4d, 0xa6, 0xa3, 0xce, 0x92, 0x9d, 0x0e, 0x0e, 0x47, 0x36,
];
const PARENT: [u8; 8] = [0x00, 0xf0, 0x67, 0xaa, 0x0b, 0xa9, 0x02, 0xb7];

fn config(default_sampled: bool) -> Config {
    Config { default_sampled, header_name: String::from("traceparent") }
}

fn span(name: &str, start: u64, end: u64) -> Span {
    Span {
        trace_id: Id::from_vec(TRACE.to_vec()),
        span_id: Id::from_vec(PARENT.to_vec()),
        parent_id: Id::empty(),
        span_name: name.to_string(),
        start,
        end,
    }
}

#[test]
fn flags_sampled_bit() {
    assert!(Flags(0x01).is_sampled());
    assert!(!Flags(0xFE).is_sampled());
    assert!(Flags(0xFF).is_sampled());
    assert!(!Flags(0x00).is_sampled());
    assert!(!Flags::default().is_sampled());
}

#[test]
fn flags_and_ids_render_as_padded_hex() {
    assert_eq!(Flags(0x01).to_string(), "01");
    assert_eq!(Flags(0xab).to_string(), "ab");
    assert_eq!(Id::from_vec(PARENT.to_vec()).to_string(), "00f067aa0ba902b7");
    assert_eq!(Id::from_vec(vec![0x0a, 0x00, 0xff]).to_string(), "0a00ff");
    assert_eq!(Id::empty().to_string(), "");
}

#[test]
fn ids_from_buffers() {
    let id = Id::from_bytes(&Bytes::from(vec![1u8, 2, 3]));
    assert_eq!(id.as_bytes(), &vec![1u8, 2, 3]);
    assert_eq!(id.len(), 3);
    assert_eq!(id.into_vec(), vec![1u8, 2, 3]);
    assert_eq!(Flags::from_bytes(&Bytes::from(vec![0x03u8, 0x07])), Some(Flags(0x03)));
    assert_eq!(Flags::from_bytes(&Bytes::new()), None);
    assert!(Id::default().as_bytes().is_empty());
}

#[test]
fn decode_known_header() {
    let c = decode(HEADER).unwrap();
    assert_eq!(c.version, 0x00);
    assert_eq!(c.trace_id.as_bytes(), &TRACE.to_vec());
    assert_eq!(c.trace_id.to_string(), "4bf92f3577b34da6a3ce929d0e0e4736");
    assert_eq!(c.parent_id.as_bytes(), &PARENT.to_vec());
    assert_eq!(c.parent_id.to_string(), "00f067aa0ba902b7");
    assert!(c.flags.is_sampled());
    assert_eq!(c.flags, Flags(0x01));
}

#[test]
fn decode_keeps_unknown_flag_bits_and_versions() {
    let c = decode("7f-4bf92f3577b34da6a3ce929d0e0e4736-00f067aa0ba902b7-fe").unwrap();
    assert_eq!(c.version, 0x7f);
    assert_eq!(c.flags, Flags(0xfe));
    assert!(!c.flags.is_sampled());
}

#[test]
fn decode_rejects_wrong_field_count() {
    assert_eq!(decode("").unwrap_err(), DecodeError::FieldCount);
    assert_eq!(
        decode("00-4bf92f3577b34da6a3ce929d0e0e4736-00f067aa0ba902b7").unwrap_err(),
        DecodeError::FieldCount
    );
    assert_eq!(
        decode("00-4bf92f3577b34da6a3ce929d0e0e4736-00f067aa0ba902b7-01-00").unwrap_err(),
        DecodeError::FieldCount
    );
}

#[test]
fn decode_rejects_wrong_width() {
    assert_eq!(
        decode("0-4bf92f3577b34da6a3ce929d0e0e4736-00f067aa0ba902b7-01").unwrap_err(),
        DecodeError::FieldWidth
    );
    assert_eq!(
        decode("00-4bf92f3577b34da6a3ce929d0e0e473-00f067aa0ba902b7-01").unwrap_err(),
        DecodeError::FieldWidth
    );
    assert_eq!(
        decode("00-4bf92f3577b34da6a3ce929d0e0e4736-00f067aa0ba902b77-01").unwrap_err(),
        DecodeError::FieldWidth
    );
    assert_eq!(
        decode("00-4bf92f3577b34da6a3ce929d0e0e4736-00f067aa0ba902b7-").unwrap_err(),
        DecodeError::FieldWidth
    );
}

#[test]
fn decode_rejects_non_hex() {
    assert_eq!(
        decode("00-zzzzzzzzzzzzzzzzzzzzzzzzzzzzzzzz-00f067aa0ba902b7-01").unwrap_err(),
        DecodeError::InvalidHex
    );
    assert_eq!(
        decode("00-4BF92F3577B34DA6A3CE929D0E0E4736-00f067aa0ba902b7-01").unwrap_err(),
        DecodeError::InvalidHex
    );
    assert_eq!(
        decode("00-4bf92f3577b34da6a3ce929d0e0e4736-00f067aa0ba902b7-0g").unwrap_err(),
        DecodeError::InvalidHex
    );
}

#[test]
fn decode_rejects_reserved_version() {
    assert_eq!(
        decode("ff-4bf92f3577b34da6a3ce929d0e0e4736-00f067aa0ba902b7-01").unwrap_err(),
        DecodeError::UnsupportedVersion
    );
    assert_eq!(RESERVED_VERSION, 0xff);
}

#[test]
fn encode_known_header() {
    let trace = Id::from_vec(TRACE.to_vec());
    let span = Id::from_vec(PARENT.to_vec());
    assert_eq!(encode(0, &trace, &span, Flags(1)), HEADER);
    assert_eq!(
        encode(0x0c, &trace, &span, Flags(0xa0)),
        "0c-4bf92f3577b34da6a3ce929d0e0e4736-00f067aa0ba902b7-a0"
    );
}

#[test]
fn encode_then_decode_round_trips() {
    for (version, flags) in [(0u8, 0u8), (1, 1), (0x42, 0xff), (0xfe, 0x80)] {
        let trace = Id::from_vec((0u8..16).map(|b| b * 17).collect());
        let span = Id::from_vec(vec![0xff, 0, 1, 2, 0x10, 0x20, 0xab, 0xcd]);
        let text = encode(version, &trace, &span, Flags(flags));
        let c = decode(&text).unwrap();
        assert_eq!(c.version, version);
        assert_eq!(c.trace_id.as_bytes(), trace.as_bytes());
        assert_eq!(c.parent_id.as_bytes(), span.as_bytes());
        assert_eq!(c.flags, Flags(flags));
    }
}

#[test]
fn random_ids_have_their_lengths() {
    assert_eq!(Id::new_span_id().len(), SPAN_ID_LEN);
    assert_eq!(Id::new_trace_id().len(), TRACE_ID_LEN);
    assert_eq!(Id::random(3).len(), 3);
    assert_eq!(Id::random(0).len(), 0);
}

#[test]
fn random_span_ids_are_distinct() {
    let mut seen = HashSet::new();
    for _ in 0..10_000 {
        assert!(seen.insert(Id::new_span_id().into_vec()));
    }
}

#[test]
fn context_inherited_from_valid_header() {
    let ctx = child_context(
        &config(false),
        Some(HEADER),
        Id::from_vec(vec![9; 16]),
        Id::from_vec(vec![7; 8]),
    );
    assert_eq!(ctx.trace_id.as_bytes(), &TRACE.to_vec());
    assert_eq!(ctx.parent_id.as_bytes(), &PARENT.to_vec());
    assert_eq!(ctx.span_id.as_bytes(), &vec![7u8; 8]);
    assert_eq!(ctx.flags, Flags(1));
    assert_eq!(
        ctx.outgoing_header(),
        "00-4bf92f3577b34da6a3ce929d0e0e4736-0707070707070707-01"
    );
}

#[test]
fn malformed_header_starts_a_new_trace() {
    let ctx = child_context(
        &config(true),
        Some("00-zzzzzzzzzzzzzzzzzzzzzzzzzzzzzzzz-00f067aa0ba902b7-01"),
        Id::from_vec(vec![9; 16]),
        Id::from_vec(vec![7; 8]),
    );
    assert_eq!(ctx.trace_id.as_bytes(), &vec![9u8; 16]);
    assert!(ctx.parent_id.as_bytes().is_empty());
    assert_eq!(ctx.flags, Flags(1));

    let ctx = resolve_context(&config(false), Some("00-zzzz-zz-01"));
    assert_eq!(ctx.trace_id.len(), TRACE_ID_LEN);
    assert_eq!(ctx.span_id.len(), SPAN_ID_LEN);
    assert!(ctx.parent_id.as_bytes().is_empty());
    assert_eq!(ctx.flags, Flags(0));
}

#[test]
fn absent_header_uses_default_sampling() {
    let ctx = child_context(&config(false), None, Id::from_vec(vec![1; 16]), Id::from_vec(vec![2; 8]));
    assert_eq!(ctx.trace_id.as_bytes(), &vec![1u8; 16]);
    assert!(ctx.parent_id.as_bytes().is_empty());
    assert_eq!(ctx.flags, Flags(0));
    assert_eq!(
        ctx.outgoing_header(),
        "00-01010101010101010101010101010101-0202020202020202-00"
    );
}

#[test]
fn resolved_context_propagates_downstream() {
    let ctx = resolve_context(&config(true), Some(HEADER));
    assert_eq!(ctx.trace_id.as_bytes(), &TRACE.to_vec());
    assert_eq!(ctx.parent_id.as_bytes(), &PARENT.to_vec());
    assert_eq!(ctx.span_id.len(), SPAN_ID_LEN);
    let next = decode(&ctx.outgoing_header()).unwrap();
    assert_eq!(next.version, SUPPORTED_VERSION);
    assert_eq!(next.trace_id.as_bytes(), &TRACE.to_vec());
    assert_eq!(next.parent_id.as_bytes(), ctx.span_id.as_bytes());
    assert_eq!(next.flags, Flags(1));
}

#[test]
fn finished_span_never_ends_before_start() {
    let ctx = child_context(&config(true), None, Id::from_vec(vec![1; 16]), Id::from_vec(vec![2; 8]));
    let s = ctx.finish(String::from("inbound"), 100, 250).unwrap();
    assert_eq!((s.start, s.end), (100, 250));
    assert_eq!(s.span_name, "inbound");
    assert_eq!(s.trace_id.as_bytes(), &vec![1u8; 16]);
    assert_eq!(s.span_id.as_bytes(), &vec![2u8; 8]);
    assert!(s.parent_id.as_bytes().is_empty());

    let ctx = child_context(&config(true), None, Id::from_vec(vec![1; 16]), Id::from_vec(vec![2; 8]));
    let s = ctx.finish(String::from("inbound"), 300, 250).unwrap();
    assert_eq!((s.start, s.end), (300, 300));
    assert!(s.start <= s.end);
}

#[test]
fn unsampled_trace_builds_no_span() {
    let ctx = child_context(&config(false), None, Id::from_vec(vec![1; 16]), Id::from_vec(vec![2; 8]));
    assert!(ctx.finish(String::from("inbound"), 1, 2).is_none());
    let mut sink = BoundedSink::new(4);
    assert_eq!(emit(&mut sink, None), Emission::Skipped);
    assert_eq!(sink.len(), 0);
}

#[test]
fn full_sink_drops_the_span() {
    let mut sink = BoundedSink::new(1);
    assert_eq!(emit(&mut sink, Some(span("a", 1, 2))), Emission::Emitted);
    assert_eq!(sink.len(), 1);
    assert_eq!(emit(&mut sink, Some(span("b", 3, 4))), Emission::Dropped(SinkError::Full));
    assert_eq!(sink.len(), 1);
    let held = sink.take_spans();
    assert_eq!(held.len(), 1);
    assert_eq!(held[0].span_name, "a");
    assert_eq!(sink.len(), 0);
    assert_eq!(sink.push(span("c", 5, 6)), Ok(()));
}

#[test]
fn closed_sink_refuses_spans() {
    let mut sink = BoundedSink::new(8);
    sink.close();
    assert!(sink.closed());
    assert_eq!(sink.push(span("a", 1, 2)), Err(SinkError::Closed));
    assert_eq!(emit(&mut sink, Some(span("b", 1, 2))), Emission::Dropped(SinkError::Closed));
    assert_eq!(sink.len(), 0);
}

#[test]
fn emission_follows_the_sink_answer() {
    assert_eq!(Emission::from_send(Ok(())), Emission::Emitted);
    assert_eq!(Emission::from_send(Err(SinkError::Full)), Emission::Dropped(SinkError::Full));
    assert_eq!(Emission::from_send(Err(SinkError::Closed)), Emission::Dropped(SinkError::Closed));
}
