use opentelemetry_otlp::exporter::{export_result, ExportResult, ExporterConfig, Protocol};
use opentelemetry_otlp::proto::metrics::{Temporality, Type};
use opentelemetry_otlp::proto::trace::ConstantDecision;
use std::time::Duration;

#[test]
fn default_config() {
    let config = ExporterConfig::default();
    assert_eq!(config.endpoint, "localhost:55680");
    assert_eq!(config.protocol, Protocol::Grpc);
    assert!(config.credentials.is_none());
    assert!(config.headers.is_none());
    assert!(config.compression.is_none());
    assert_eq!(config.timeout, Duration::from_secs(60));
    assert_eq!(config.completion_queue_count, 2);
}

#[test]
fn export_outcome_classification() {
    assert_eq!(export_result(true), ExportResult::Success);
    assert_eq!(export_result(false), ExportResult::FailedNotRetryable);
}

#[test]
fn enum_wire_values() {
    assert_eq!(Type::Summary.as_i32(), 6);
    assert_eq!(Type::MonotonicInt64.as_i32(), 2);
    assert_eq!(Temporality::Cumulative.as_i32(), 3);
    assert_eq!(ConstantDecision::AlwaysParent.as_i32(), 2);
    assert_eq!(ConstantDecision::from_i32(1), Some(ConstantDecision::AlwaysOn));
}
