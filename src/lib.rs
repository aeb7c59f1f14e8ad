//! Trace identity, W3C trace state, and the mapping of finished span records
//! into OTLP wire messages.

pub mod api;
pub mod encoding;
pub mod exporter;
pub mod proto;
pub mod span_context;
pub mod trace_state;
pub mod transform;
