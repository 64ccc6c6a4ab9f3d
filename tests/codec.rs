use trace_ids::{
    decode_multi, decode_single, encode_multi, encode_single, incoming_multi, incoming_single,
    DecodeError, MultiHeaders, PropagatedContext, SamplingFlag, SpanId, TraceId,
};

fn sample_context(parent: Option<u64>) -> PropagatedContext {
    PropagatedContext {
        trace_id: TraceId { value: 0x4bf92f3577b34da6a3ce929d0e0e4736 },
        span_id: SpanId { value: 0x00f067aa0ba902b7 },
        parent_span_id: parent.map(|value| SpanId { value }),
    }
}

#[test]
fn single_header_example() {
    let ctx = sample_context(Some(0x00f067aa0ba902b6));
    assert_eq!(
        encode_single(&ctx, SamplingFlag::Sampled),
        "4bf92f3577b34da6a3ce929d0e0e4736-00f067aa0ba902b7-1-00f067aa0ba902b6"
    );
}

#[test]
fn single_header_without_parent() {
    let ctx = sample_context(None);
    assert_eq!(
        encode_single(&ctx, SamplingFlag::NotSampled),
        "4bf92f3577b34da6a3ce929d0e0e4736-00f067aa0ba902b7-0"
    );
}

#[test]
fn single_round_trip_with_parent() {
    let ctx = sample_context(Some(0x00f067aa0ba902b6));
    let header = encode_single(&ctx, SamplingFlag::Sampled);
    assert_eq!(decode_single(&header), Ok((ctx, SamplingFlag::Sampled)));
}

#[test]
fn single_round_trip_without_parent() {
    let ctx = sample_context(None);
    let header = encode_single(&ctx, SamplingFlag::NotSampled);
    assert_eq!(decode_single(&header), Ok((ctx, SamplingFlag::NotSampled)));
}

#[test]
fn single_round_trip_small_values() {
    let ctx = PropagatedContext {
        trace_id: TraceId { value: 1 },
        span_id: SpanId { value: 2 },
        parent_span_id: Some(SpanId { value: u64::MAX }),
    };
    let header = encode_single(&ctx, SamplingFlag::Sampled);
    assert_eq!(header, "00000000000000000000000000000001-0000000000000002-1-ffffffffffffffff");
    assert_eq!(decode_single(&header), Ok((ctx, SamplingFlag::Sampled)));
}

#[test]
fn single_two_fields_is_malformed() {
    assert_eq!(
        decode_single("4bf92f3577b34da6a3ce929d0e0e4736-00f067aa0ba902b7"),
        Err(DecodeError::MalformedHeader)
    );
}

#[test]
fn single_five_fields_is_malformed() {
    assert_eq!(
        decode_single("4bf92f3577b34da6a3ce929d0e0e4736-00f067aa0ba902b7-1-00f067aa0ba902b6-00"),
        Err(DecodeError::MalformedHeader)
    );
}

#[test]
fn single_empty_is_malformed() {
    assert_eq!(decode_single(""), Err(DecodeError::MalformedHeader));
}

#[test]
fn single_non_hex_trace_id() {
    assert_eq!(
        decode_single("4bf92f3577b34da6a3ce929d0e0e473g-00f067aa0ba902b7-1-00f067aa0ba902b6"),
        Err(DecodeError::HexDecodeError)
    );
}

#[test]
fn single_non_hex_span_id() {
    assert_eq!(
        decode_single("4bf92f3577b34da6a3ce929d0e0e4736-00f067aa0ba9z2b7-1"),
        Err(DecodeError::HexDecodeError)
    );
}

#[test]
fn single_non_hex_parent() {
    assert_eq!(
        decode_single("4bf92f3577b34da6a3ce929d0e0e4736-00f067aa0ba902b7-1-00f067aa0ba902bx"),
        Err(DecodeError::HexDecodeError)
    );
}

#[test]
fn single_bad_flag() {
    assert_eq!(
        decode_single("4bf92f3577b34da6a3ce929d0e0e4736-00f067aa0ba902b7-x"),
        Err(DecodeError::HexDecodeError)
    );
    assert_eq!(
        decode_single("4bf92f3577b34da6a3ce929d0e0e4736-00f067aa0ba902b7-2"),
        Err(DecodeError::HexDecodeError)
    );
}

#[test]
fn single_wrong_width() {
    assert_eq!(
        decode_single("4bf92f3577b34da6-00f067aa0ba902b7-1"),
        Err(DecodeError::HexDecodeError)
    );
    assert_eq!(
        decode_single("4bf92f3577b34da6a3ce929d0e0e4736-f067aa0ba902b7-1"),
        Err(DecodeError::HexDecodeError)
    );
}

#[test]
fn single_upper_case_accepted() {
    let decoded = decode_single("4BF92F3577B34DA6A3CE929D0E0E4736-00F067AA0BA902B7-0");
    assert_eq!(decoded, Ok((sample_context(None), SamplingFlag::NotSampled)));
}

#[test]
fn multi_encode_values() {
    let headers = encode_multi(&sample_context(Some(0x00f067aa0ba902b6)));
    assert_eq!(headers.trace_id.as_deref(), Some("4bf92f3577b34da6a3ce929d0e0e4736"));
    assert_eq!(headers.span_id.as_deref(), Some("00f067aa0ba902b7"));
    assert_eq!(headers.parent_span_id.as_deref(), Some("00f067aa0ba902b6"));
    let root = encode_multi(&sample_context(None));
    assert_eq!(root.parent_span_id, None);
}

#[test]
fn multi_round_trip_with_parent() {
    let ctx = sample_context(Some(0x00f067aa0ba902b6));
    assert_eq!(decode_multi(&encode_multi(&ctx)), Ok(ctx));
}

#[test]
fn multi_round_trip_without_parent() {
    let ctx = sample_context(None);
    assert_eq!(decode_multi(&encode_multi(&ctx)), Ok(ctx));
}

#[test]
fn multi_missing_parent_means_root() {
    let headers = MultiHeaders {
        trace_id: Some("4bf92f3577b34da6a3ce929d0e0e4736".to_string()),
        span_id: Some("00f067aa0ba902b7".to_string()),
        parent_span_id: None,
    };
    assert_eq!(decode_multi(&headers), Ok(sample_context(None)));
}

#[test]
fn multi_missing_trace_id_fails() {
    let headers = MultiHeaders {
        trace_id: None,
        span_id: Some("00f067aa0ba902b7".to_string()),
        parent_span_id: Some("00f067aa0ba902b6".to_string()),
    };
    assert_eq!(decode_multi(&headers), Err(DecodeError::MalformedHeader));
}

#[test]
fn multi_missing_span_id_fails() {
    let headers = MultiHeaders {
        trace_id: Some("4bf92f3577b34da6a3ce929d0e0e4736".to_string()),
        span_id: None,
        parent_span_id: None,
    };
    assert_eq!(decode_multi(&headers), Err(DecodeError::MalformedHeader));
}

#[test]
fn multi_non_hex_parent_fails() {
    let headers = MultiHeaders {
        trace_id: Some("4bf92f3577b34da6a3ce929d0e0e4736".to_string()),
        span_id: Some("00f067aa0ba902b7".to_string()),
        parent_span_id: Some("not-a-span-id!!!".to_string()),
    };
    assert_eq!(decode_multi(&headers), Err(DecodeError::HexDecodeError));
}

#[test]
fn incoming_single_degrades_to_none() {
    assert_eq!(incoming_single(None), None);
    assert_eq!(incoming_single(Some("garbage")), None);
    assert_eq!(
        incoming_single(Some("4bf92f3577b34da6a3ce929d0e0e4736-00f067aa0ba902b7-1")),
        Some((sample_context(None), SamplingFlag::Sampled))
    );
}

#[test]
fn incoming_multi_degrades_to_none() {
    let missing = MultiHeaders { trace_id: None, span_id: None, parent_span_id: None };
    assert_eq!(incoming_multi(&missing), None);
    let ctx = sample_context(Some(0x00f067aa0ba902b6));
    assert_eq!(incoming_multi(&encode_multi(&ctx)), Some(ctx));
}
