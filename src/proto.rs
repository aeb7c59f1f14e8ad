//! The OTLP wire messages, as plain values.

pub mod collector;
pub mod common;
pub mod metrics;
pub mod resource;
pub mod trace;
