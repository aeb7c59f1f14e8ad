//! The request and response of the trace export call.

use crate::proto::trace::ResourceSpans;
use vstd::prelude::*;

verus! {

/// One export call's payload: spans grouped by resource, in order.
#[derive(Debug, PartialEq)]
pub struct ExportTraceServiceRequest {
    pub resource_spans: Vec<ResourceSpans>,
}

/// The collector's reply; its arrival means the spans were accepted.
#[derive(Clone, Copy, Debug, PartialEq, Eq)]
pub struct ExportTraceServiceResponse {}

} // verus!
