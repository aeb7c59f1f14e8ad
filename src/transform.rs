//! The mapping of finished span records into OTLP wire messages.

pub mod common;
pub mod traces;
