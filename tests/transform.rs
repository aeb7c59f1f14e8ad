use opentelemetry_otlp::api::{
    Attribute, EvictedHashMap, Event, Link, SpanData, SpanKind, StatusCode, Timestamp, Value,
};
use opentelemetry_otlp::proto::collector::ExportTraceServiceRequest;
use opentelemetry_otlp::proto::common::{AnyValue, AnyValueKind, KeyValueList};
use opentelemetry_otlp::proto::trace;
use opentelemetry_otlp::span_context::{SpanContext, SpanId, TraceId};
use opentelemetry_otlp::trace_state::TraceState;
use opentelemetry_otlp::transform::common::to_nanos;

fn nanos(n: u32) -> Timestamp {
    Timestamp::SinceEpoch { secs: 0, nanos: n }
}

fn context(trace: u128, span: u64) -> SpanContext {
    SpanContext::new(TraceId::from_u128(trace), SpanId::from_u64(span), 1, false, TraceState::default())
}

fn string_value(s: &str) -> Option<AnyValue> {
    Some(AnyValue { value: Some(AnyValueKind::StringValue(s.to_string())) })
}

fn span_data(name: &str, parent: u64, attributes: EvictedHashMap) -> SpanData {
    SpanData {
        span_context: context(0x0102030405060708090a0b0c0d0e0f10, 0x1112131415161718),
        parent_span_id: SpanId::from_u64(parent),
        span_kind: SpanKind::Server,
        name: name.to_string(),
        start_time: nanos(1000),
        end_time: nanos(2000),
        attributes,
        message_events: vec![],
        links: vec![],
        status_code: StatusCode::OK,
        status_message: String::new(),
    }
}

#[test]
fn end_to_end_server_span() {
    let mut attributes = EvictedHashMap::new(128);
    attributes.insert(Attribute::new("http.method", Value::String("GET".to_string())));
    let data = span_data("GET /users", 0, attributes);
    let rs = trace::ResourceSpans::from_span_data(&data);
    let resource = rs.resource.as_ref().unwrap();
    assert!(resource.attributes.is_empty());
    assert_eq!(resource.dropped_attributes_count, 0);
    assert_eq!(rs.instrumentation_library_spans.len(), 1);
    let group = &rs.instrumentation_library_spans[0];
    assert!(group.instrumentation_library.is_none());
    assert_eq!(group.spans.len(), 1);
    let span = &group.spans[0];
    assert_eq!(span.name, "GET /users");
    assert_eq!(span.kind, 2);
    assert_eq!(span.start_time_unix_nano, 1000);
    assert_eq!(span.end_time_unix_nano, 2000);
    assert_eq!(span.attributes.len(), 1);
    assert_eq!(span.attributes[0].key, "http.method");
    assert_eq!(span.attributes[0].value, string_value("GET"));
    assert_eq!(span.dropped_attributes_count, 0);
    assert!(span.events.is_empty());
    assert!(span.links.is_empty());
    assert_eq!(span.dropped_events_count, 0);
    assert_eq!(span.dropped_links_count, 0);
    assert_eq!(span.trace_state, "");
    assert_eq!(span.status, Some(trace::Status { code: 0, message: String::new() }));
    assert_eq!(span.trace_id, (1u8..=16).collect::<Vec<u8>>());
    assert_eq!(span.span_id, (17u8..=24).collect::<Vec<u8>>());
}

#[test]
fn zero_parent_is_empty_bytes() {
    let span = trace::Span::from_span_data(&span_data("root", 0, EvictedHashMap::new(4)));
    assert!(span.parent_span_id.is_empty());
}

#[test]
fn nonzero_parent_is_eight_big_endian_bytes() {
    let span = trace::Span::from_span_data(&span_data("child", 0x0a0b, EvictedHashMap::new(4)));
    assert_eq!(span.parent_span_id, vec![0, 0, 0, 0, 0, 0, 0x0a, 0x0b]);
}

#[test]
fn attribute_eviction_count_is_carried() {
    let mut attributes = EvictedHashMap::new(128);
    for i in 0..150 {
        attributes.insert(Attribute::new(&format!("key{i}"), Value::I64(i)));
    }
    assert_eq!(attributes.len(), 128);
    assert_eq!(attributes.dropped_count(), 22);
    let span = trace::Span::from_span_data(&span_data("busy", 0, attributes));
    assert_eq!(span.attributes.len(), 128);
    assert_eq!(span.dropped_attributes_count, 22);
    assert_eq!(span.attributes[0].key, "key22");
    assert_eq!(span.attributes[127].key, "key149");
}

#[test]
fn updating_an_attribute_does_not_evict() {
    let mut map = EvictedHashMap::new(2);
    map.insert(Attribute::new("a", Value::I64(1)));
    map.insert(Attribute::new("b", Value::I64(2)));
    map.insert(Attribute::new("a", Value::I64(3)));
    assert_eq!(map.len(), 2);
    assert_eq!(map.dropped_count(), 0);
    assert_eq!(map.entry(0).key, "b");
    assert_eq!(map.entry(1).key, "a");
    assert_eq!(map.entry(1).value, Value::I64(3));
    map.insert(Attribute::new("c", Value::I64(4)));
    assert_eq!(map.dropped_count(), 1);
    assert_eq!(map.entry(0).key, "a");
    assert_eq!(map.capacity(), 2);
}

#[test]
fn zero_capacity_map_drops_everything() {
    let mut map = EvictedHashMap::new(0);
    map.insert(Attribute::new("a", Value::Bool(true)));
    assert_eq!(map.len(), 0);
    assert_eq!(map.dropped_count(), 1);
}

#[test]
fn values_map_to_wire_values() {
    assert_eq!(AnyValue::from_value(&Value::Bool(true)).value, Some(AnyValueKind::BoolValue(true)));
    assert_eq!(AnyValue::from_value(&Value::I64(-5)).value, Some(AnyValueKind::IntValue(-5)));
    assert_eq!(AnyValue::from_value(&Value::U64(7)).value, Some(AnyValueKind::IntValue(7)));
    assert_eq!(AnyValue::from_value(&Value::U64(u64::MAX)).value, Some(AnyValueKind::IntValue(-1)));
    assert_eq!(
        AnyValue::from_value(&Value::U64(1u64 << 63)).value,
        Some(AnyValueKind::IntValue(i64::MIN))
    );
    let bits = 2.5f64.to_bits();
    assert_eq!(AnyValue::from_value(&Value::F64(bits)).value, Some(AnyValueKind::DoubleValue(bits)));
    assert_eq!(
        AnyValue::from_value(&Value::String("s".to_string())).value,
        Some(AnyValueKind::StringValue("s".to_string()))
    );
    assert_eq!(AnyValue::from_value(&Value::Bytes(vec![1, 2])).value, None);
}

#[test]
fn arrays_map_element_by_element() {
    let array = Value::Array(vec![Value::I64(1), Value::Bytes(vec![9]), Value::Array(vec![Value::Bool(false)])]);
    let wire = AnyValue::from_value(&array);
    match wire.value {
        Some(AnyValueKind::ArrayValue(a)) => {
            assert_eq!(a.values.len(), 3);
            assert_eq!(a.values[0].value, Some(AnyValueKind::IntValue(1)));
            assert_eq!(a.values[1].value, None);
            match &a.values[2].value {
                Some(AnyValueKind::ArrayValue(inner)) => {
                    assert_eq!(inner.values.len(), 1);
                    assert_eq!(inner.values[0].value, Some(AnyValueKind::BoolValue(false)));
                }
                other => panic!("unexpected {other:?}"),
            }
        }
        other => panic!("unexpected {other:?}"),
    }
}

#[test]
fn attribute_lists_keep_order() {
    let list = KeyValueList::from_attributes(&vec![
        Attribute::new("z", Value::I64(1)),
        Attribute::new("a", Value::String("x".to_string())),
    ]);
    assert_eq!(list.values.len(), 2);
    assert_eq!(list.values[0].key, "z");
    assert_eq!(list.values[1].key, "a");
    assert_eq!(list.values[1].value, string_value("x"));
}

#[test]
fn timestamps_in_nanoseconds() {
    assert_eq!(to_nanos(Timestamp::BeforeEpoch), 0);
    assert_eq!(to_nanos(Timestamp::SinceEpoch { secs: 2, nanos: 5 }), 2_000_000_005);
    assert_eq!(to_nanos(Timestamp::SinceEpoch { secs: 0, nanos: 0 }), 0);
    let wrapped = (u64::MAX as u128 * 1_000_000_000 % (1u128 << 64)) as u64;
    assert_eq!(to_nanos(Timestamp::SinceEpoch { secs: u64::MAX, nanos: 0 }), wrapped);
}

#[test]
fn span_kinds_map_one_to_one() {
    let cases = [
        (SpanKind::Internal, trace::SpanKind::Internal, 1),
        (SpanKind::Server, trace::SpanKind::Server, 2),
        (SpanKind::Client, trace::SpanKind::Client, 3),
        (SpanKind::Producer, trace::SpanKind::Producer, 4),
        (SpanKind::Consumer, trace::SpanKind::Consumer, 5),
    ];
    for (kind, wire, code) in cases {
        assert_eq!(trace::SpanKind::from(kind), wire);
        assert_eq!(wire.as_i32(), code);
        assert_eq!(trace::SpanKind::from_i32(code), Some(wire));
    }
    assert_eq!(trace::SpanKind::from_i32(0), Some(trace::SpanKind::Unspecified));
    assert_eq!(trace::SpanKind::from_i32(6), None);
}

#[test]
fn status_codes_map_to_wire_codes() {
    let cases = [
        (StatusCode::OK, 0),
        (StatusCode::Canceled, 1),
        (StatusCode::Unknown, 2),
        (StatusCode::InvalidArgument, 3),
        (StatusCode::DeadlineExceeded, 4),
        (StatusCode::NotFound, 5),
        (StatusCode::AlreadyExists, 6),
        (StatusCode::PermissionDenied, 7),
        (StatusCode::ResourceExhausted, 8),
        (StatusCode::FailedPrecondition, 9),
        (StatusCode::Aborted, 10),
        (StatusCode::OutOfRange, 11),
        (StatusCode::Unimplemented, 12),
        (StatusCode::Internal, 13),
        (StatusCode::Unavailable, 14),
        (StatusCode::DataLoss, 15),
        (StatusCode::Unauthenticated, 16),
    ];
    for (code, wire) in cases {
        assert_eq!(trace::StatusCode::from(code).as_i32(), wire);
    }
    assert_eq!(trace::StatusCode::from(StatusCode::Internal), trace::StatusCode::InternalError);
    assert_eq!(trace::StatusCode::from_i32(17), None);
}

#[test]
fn error_status_carries_message() {
    let mut data = span_data("failing", 0, EvictedHashMap::new(1));
    data.status_code = StatusCode::NotFound;
    data.status_message = "no such user".to_string();
    let span = trace::Span::from_span_data(&data);
    assert_eq!(span.status, Some(trace::Status { code: 5, message: "no such user".to_string() }));
}

#[test]
fn links_encode_ids_even_when_zero() {
    let link = Link { span_context: context(0, 0), attributes: vec![Attribute::new("k", Value::I64(1))] };
    let wire = trace::Link::from_link(&link);
    assert_eq!(wire.trace_id, vec![0u8; 16]);
    assert_eq!(wire.span_id, vec![0u8; 8]);
    assert_eq!(wire.trace_state, "");
    assert_eq!(wire.attributes.len(), 1);
    assert_eq!(wire.dropped_attributes_count, 0);
}

#[test]
fn events_and_links_are_carried_in_order() {
    let mut data = span_data("busy", 0, EvictedHashMap::new(1));
    data.message_events = vec![
        Event { name: "first".to_string(), timestamp: nanos(10), attributes: vec![] },
        Event {
            name: "second".to_string(),
            timestamp: Timestamp::BeforeEpoch,
            attributes: vec![Attribute::new("n", Value::I64(2))],
        },
    ];
    data.links = vec![Link { span_context: context(5, 6), attributes: vec![] }];
    let span = trace::Span::from_span_data(&data);
    assert_eq!(span.events.len(), 2);
    assert_eq!(span.events[0].name, "first");
    assert_eq!(span.events[0].time_unix_nano, 10);
    assert_eq!(span.events[1].time_unix_nano, 0);
    assert_eq!(span.events[1].attributes.len(), 1);
    assert_eq!(span.links.len(), 1);
    assert_eq!(span.links[0].span_id, vec![0, 0, 0, 0, 0, 0, 0, 6]);
    assert_eq!(span.links[0].trace_id[15], 5);
}

#[test]
fn batch_request_keeps_order() {
    let batch = vec![
        span_data("one", 0, EvictedHashMap::new(1)),
        span_data("two", 3, EvictedHashMap::new(1)),
    ];
    let request = ExportTraceServiceRequest::from_batch(&batch);
    assert_eq!(request.resource_spans.len(), 2);
    assert_eq!(request.resource_spans[0].instrumentation_library_spans[0].spans[0].name, "one");
    assert_eq!(request.resource_spans[1].instrumentation_library_spans[0].spans[0].name, "two");
    assert!(ExportTraceServiceRequest::from_batch(&vec![]).resource_spans.is_empty());
}
