//! Exporter settings and the classification of an export call's outcome.

use std::collections::HashMap;
use std::time::Duration;
use vstd::prelude::*;

verus! {

/// Relies on `Duration::from_secs`, only to build the default timeout;
/// nothing is assumed of the value.
pub assume_specification[ core::time::Duration::from_secs ](secs: u64) -> Duration;

/// Settings of the span exporter.
#[derive(Debug)]
pub struct ExporterConfig {
    /// The collector address.
    pub endpoint: String,
    pub protocol: Protocol,
    pub credentials: Option<Credentials>,
    /// Static headers sent with every export call.
    pub headers: Option<HashMap<String, String>>,
    pub compression: Option<Compression>,
    /// The bound on one export call.
    pub timeout: Duration,
    pub completion_queue_count: usize,
}

/// A client certificate and its key.
#[derive(Clone, Debug, PartialEq, Eq)]
pub struct Credentials {
    pub cert: String,
    pub key: String,
}

/// The transport of the export calls.
#[derive(Clone, Copy, Debug, PartialEq, Eq, Structural)]
pub enum Protocol {
    Grpc,
}

/// Compression of the export calls.
#[derive(Clone, Copy, Debug, PartialEq, Eq, Structural)]
pub enum Compression {
    Gzip,
}

impl Default for ExporterConfig {
    /// gRPC to `localhost:55680` with a 60 second timeout, no credentials,
    /// headers or compression, and two completion queues.
    fn default() -> (r: ExporterConfig)
        ensures
            r.endpoint@ == "localhost:55680"@,
            r.protocol == Protocol::Grpc,
            r.credentials is None,
            r.headers is None,
            r.compression is None,
            r.completion_queue_count == 2,
    {
        ExporterConfig {
            endpoint: String::from_str("localhost:55680"),
            protocol: Protocol::Grpc,
            credentials: None,
            headers: None,
            compression: None,
            timeout: Duration::from_secs(60),
            completion_queue_count: 2,
        }
    }
}

/// The outcome of exporting a batch.
#[derive(Clone, Copy, Debug, PartialEq, Eq, Structural)]
pub enum ExportResult {
    Success,
    FailedRetryable,
    FailedNotRetryable,
}

/// Classifies one export call: success when the collector answered, else a
/// failure that is not retried here.
pub fn export_result(answered: bool) -> (r: ExportResult)
    ensures
        r == (if answered {
            ExportResult::Success
        } else {
            ExportResult::FailedNotRetryable
        }),
{
    if answered {
        ExportResult::Success
    } else {
        ExportResult::FailedNotRetryable
    }
}

} // verus!
