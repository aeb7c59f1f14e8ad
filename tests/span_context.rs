use opentelemetry_otlp::span_context::{
    SpanContext, SpanId, TraceId, TRACE_FLAG_DEBUG, TRACE_FLAG_DEFERRED, TRACE_FLAG_SAMPLED,
};
use opentelemetry_otlp::trace_state::{KeyValue, TraceState};

fn trace_id_test_data() -> Vec<(TraceId, &'static str, [u8; 16])> {
    vec![
        (TraceId::from_u128(0), "00000000000000000000000000000000", [0, 0, 0, 0, 0, 0, 0, 0, 0, 0, 0, 0, 0, 0, 0, 0]),
        (TraceId::from_u128(42), "0000000000000000000000000000002a", [0, 0, 0, 0, 0, 0, 0, 0, 0, 0, 0, 0, 0,0, 0, 42]),
        (TraceId::from_u128(126642714606581564793456114182061442190), "5f467fe7bf42676c05e20ba4a90e448e", [95, 70, 127, 231, 191, 66, 103, 108, 5, 226, 11, 164, 169, 14, 68, 142])
    ]
}

fn span_id_test_data() -> Vec<(SpanId, &'static str, [u8; 8])> {
    vec![
        (SpanId::from_u64(0), "0000000000000000", [0, 0, 0, 0, 0, 0, 0, 0]),
        (SpanId::from_u64(42), "000000000000002a", [0, 0, 0, 0, 0, 0, 0, 42]),
        (SpanId::from_u64(5508496025762705295), "4c721bf33e3caf8f", [76, 114, 27, 243, 62, 60, 175, 143])
    ]
}

#[test]
fn test_trace_id() {
    for test_case in trace_id_test_data() {
        assert_eq!(test_case.0.to_hex(), test_case.1);
        assert_eq!(test_case.0.to_byte_array(), test_case.2);

        assert_eq!(test_case.0, TraceId::from_hex(test_case.1));
        assert_eq!(test_case.0, TraceId::from_byte_array(test_case.2));
    }
}

#[test]
fn test_span_id() {
    for test_case in span_id_test_data() {
        assert_eq!(test_case.0.to_hex(), test_case.1);
        assert_eq!(test_case.0.to_byte_array(), test_case.2);

        assert_eq!(test_case.0, SpanId::from_hex(test_case.1));
        assert_eq!(test_case.0, SpanId::from_byte_array(test_case.2));
    }
}

#[test]
fn trace_id_round_trips() {
    for x in [0u128, 1, 255, 256, 0xdead_beef, u128::MAX, u128::MAX - 1, 1u128 << 127] {
        let id = TraceId::from_u128(x);
        assert_eq!(TraceId::from_byte_array(id.to_byte_array()), id);
        assert_eq!(TraceId::from_hex(&id.to_hex()), id);
        assert_eq!(id.to_hex().len(), 32);
        assert_eq!(id.to_u128(), x);
    }
}

#[test]
fn span_id_round_trips() {
    for x in [0u64, 1, 255, 256, 0xdead_beef, u64::MAX, 1u64 << 63] {
        let id = SpanId::from_u64(x);
        assert_eq!(SpanId::from_byte_array(id.to_byte_array()), id);
        assert_eq!(SpanId::from_hex(&id.to_hex()), id);
        assert_eq!(id.to_hex().len(), 16);
        assert_eq!(id.to_u64(), x);
    }
}

#[test]
fn max_ids_encode_as_all_f() {
    assert_eq!(TraceId::from_u128(u128::MAX).to_hex(), "ffffffffffffffffffffffffffffffff");
    assert_eq!(TraceId::from_u128(u128::MAX).to_byte_array(), [255u8; 16]);
    assert_eq!(SpanId::from_u64(u64::MAX).to_hex(), "ffffffffffffffff");
    assert_eq!(SpanId::from_u64(1).to_byte_array(), [0, 0, 0, 0, 0, 0, 0, 1]);
}

#[test]
fn malformed_hex_gives_invalid_id() {
    for text in ["not hex", "xyz", "", "+", "+1f", "+ff", "-1", "12g4", "0x1f", " 1", "1 ", "ab\u{e9}"] {
        assert_eq!(TraceId::from_hex(text), TraceId::invalid(), "{text:?}");
        assert_eq!(SpanId::from_hex(text), SpanId::invalid(), "{text:?}");
    }
}

#[test]
fn hex_parsing_accepts_either_case_and_any_width() {
    assert_eq!(TraceId::from_hex("FF"), TraceId::from_u128(255));
    assert_eq!(SpanId::from_hex("aBc"), SpanId::from_u64(0xabc));
    assert_eq!(SpanId::from_hex("00000000000000000001"), SpanId::from_u64(1));
}

#[test]
fn hex_too_large_for_the_width_gives_invalid_id() {
    assert_eq!(TraceId::from_hex("100000000000000000000000000000000"), TraceId::invalid());
    assert_eq!(SpanId::from_hex("10000000000000000"), SpanId::invalid());
    assert_eq!(SpanId::from_hex("ffffffffffffffff"), SpanId::from_u64(u64::MAX));
}

#[test]
fn span_context_validity() {
    let cases = [(0u128, 0u64, false), (0, 7, false), (7, 0, false), (7, 7, true)];
    for (t, s, valid) in cases {
        for flags in [0u8, TRACE_FLAG_SAMPLED, 0xff] {
            for remote in [false, true] {
                let cx = SpanContext::new(
                    TraceId::from_u128(t),
                    SpanId::from_u64(s),
                    flags,
                    remote,
                    TraceState::default(),
                );
                assert_eq!(cx.is_valid(), valid);
                assert_eq!(cx.is_remote(), remote);
                assert_eq!(cx.trace_flags(), flags);
            }
        }
    }
}

#[test]
fn span_context_flags() {
    let cx = SpanContext::new(
        TraceId::from_u128(1),
        SpanId::from_u64(1),
        TRACE_FLAG_SAMPLED | TRACE_FLAG_DEBUG,
        false,
        TraceState::default(),
    );
    assert!(cx.is_sampled());
    assert!(cx.is_debug());
    assert!(!cx.is_deferred());
    let deferred = SpanContext::new(
        TraceId::from_u128(1),
        SpanId::from_u64(1),
        TRACE_FLAG_DEFERRED,
        true,
        TraceState::default(),
    );
    assert!(deferred.is_deferred());
    assert!(!deferred.is_sampled());
    assert!(!deferred.is_debug());
}

#[test]
fn empty_context_is_invalid() {
    let cx = SpanContext::empty_context();
    assert!(!cx.is_valid());
    assert!(!cx.is_remote());
    assert!(!cx.is_sampled());
    assert_eq!(cx.trace_flags(), 0);
    assert_eq!(cx.trace_id(), TraceId::invalid());
    assert_eq!(cx.span_id(), SpanId::invalid());
    assert_eq!(cx.trace_state().header(), "");
}

#[test]
fn span_context_trace_state_is_a_copy() {
    let state = TraceState::from_key_value(vec![KeyValue::new("k", "v")]);
    let cx = SpanContext::new(TraceId::from_u128(3), SpanId::from_u64(4), 1, false, state);
    let copy = cx.trace_state();
    let changed = copy.insert("k".to_string(), "w".to_string());
    assert_eq!(changed.header(), "k=w");
    assert_eq!(cx.trace_state().header(), "k=v");
    assert!(cx.clone() == cx);
}
