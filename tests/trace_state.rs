use opentelemetry_otlp::trace_state::{KeyValue, TraceState};
use std::str::FromStr;

fn trace_state_test_data() -> Vec<(TraceState, &'static str, &'static str)> {
    vec![
        (TraceState::from_key_value(vec![KeyValue::new("foo", "bar")]), "foo=bar", "foo"),
        (TraceState::from_key_value(vec![KeyValue::new("foo", ""), KeyValue::new("apple", "banana")]), "foo=,apple=banana", "apple"),
        (TraceState::from_key_value(vec![KeyValue::new("foo", "bar"), KeyValue::new("apple", "banana")]), "foo=bar,apple=banana", "apple"),
    ]
}

#[test]
fn test_trace_state() {
    for test_case in trace_state_test_data() {
        assert_eq!(test_case.0.clone().header(), test_case.1);

        let new_key = format!(
            "{}-{}",
            test_case.0.get(test_case.2.to_string()).unwrap(),
            "test"
        );

        let updated_trace_state = test_case.0.insert(test_case.2.into(), new_key.clone());

        let updated = format!("{}={}", test_case.2, new_key);

        let index = updated_trace_state.clone().header().find(&updated);

        assert!(index.is_some());
        assert_eq!(index.unwrap(), 0);

        let deleted_trace_state = updated_trace_state.delete(test_case.2.to_string());

        assert!(deleted_trace_state.get(test_case.2.to_string()).is_none());
    }
}

#[test]
fn header_lists_distinct_pairs_in_input_order() {
    let state = TraceState::from_key_value(vec![
        KeyValue::new("a", "1"),
        KeyValue::new("b", "2"),
        KeyValue::new("c", "3"),
    ]);
    assert_eq!(state.header(), "a=1,b=2,c=3");
    assert_eq!(state.header_delimited(":", ";"), "a:1;b:2;c:3");
    assert_eq!(TraceState::from_key_value(vec![]).header(), "");
}

#[test]
fn repeated_key_keeps_last_value_at_last_position() {
    let state = TraceState::from_key_value(vec![
        KeyValue::new("a", "1"),
        KeyValue::new("b", "2"),
        KeyValue::new("a", "3"),
    ]);
    assert_eq!(state.header(), "b=2,a=3");
    assert_eq!(state.get("a".to_string()), Some("3".to_string()));
}

#[test]
fn insert_moves_existing_key_to_front() {
    let state = TraceState::from_key_value(vec![
        KeyValue::new("foo", "bar"),
        KeyValue::new("apple", "banana"),
    ]);
    let updated = state.insert("apple".to_string(), "banana-test".to_string());
    assert!(updated.header().starts_with("apple=banana-test"));
    assert_eq!(updated.header(), "apple=banana-test,foo=bar");
    assert_eq!(updated.get("apple".to_string()), Some("banana-test".to_string()));
}

#[test]
fn insert_new_key_goes_to_front() {
    let state = TraceState::from_key_value(vec![KeyValue::new("foo", "bar")]);
    let updated = state.insert("new".to_string(), "v".to_string());
    assert_eq!(updated.header(), "new=v,foo=bar");
}

#[test]
fn delete_existing_and_missing_keys() {
    let state = TraceState::from_key_value(vec![
        KeyValue::new("foo", "bar"),
        KeyValue::new("apple", "banana"),
    ]);
    let deleted = state.clone().delete("foo".to_string());
    assert_eq!(deleted.get("foo".to_string()), None);
    assert_eq!(deleted.header(), "apple=banana");
    let unchanged = state.clone().delete("missing".to_string());
    assert!(unchanged == state);
    assert_eq!(unchanged.header(), "foo=bar,apple=banana");
}

#[test]
fn get_missing_key_is_none() {
    let state = TraceState::default();
    assert_eq!(state.get("anything".to_string()), None);
}

#[test]
fn parse_rejects_member_without_equals() {
    assert!(TraceState::from_str("foo").is_err());
    assert!(TraceState::from_str("a=1,foo").is_err());
    assert!(TraceState::from_str(",a=1").is_err());
    assert!(TraceState::from_str("a=1,,b=2").is_err());
}

#[test]
fn parse_accepts_empty_value() {
    let state = TraceState::from_str("foo=bar,baz=").unwrap();
    assert_eq!(state.get("baz".to_string()), Some(String::new()));
    assert_eq!(state.get("foo".to_string()), Some("bar".to_string()));
    assert_eq!(state.header(), "foo=bar,baz=");
}

#[test]
fn parse_splits_at_first_equals_only() {
    let state = TraceState::from_str("k=v=w,x==y").unwrap();
    assert_eq!(state.get("k".to_string()), Some("v=w".to_string()));
    assert_eq!(state.get("x".to_string()), Some("=y".to_string()));
}

#[test]
fn parse_ignores_one_final_comma_and_accepts_empty_text() {
    let state = TraceState::from_str("a=1,").unwrap();
    assert_eq!(state.header(), "a=1");
    let empty = TraceState::from_str("").unwrap();
    assert_eq!(empty.header(), "");
    assert!(TraceState::from_str("a=1,,").is_err());
}

#[test]
fn equality_follows_members_and_order() {
    let a = TraceState::from_key_value(vec![KeyValue::new("a", "1"), KeyValue::new("b", "2")]);
    let b = TraceState::from_str("a=1,b=2").unwrap();
    let c = TraceState::from_str("b=2,a=1").unwrap();
    assert!(a == b);
    assert!(a != c);
}
