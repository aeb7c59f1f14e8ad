//! Spans grouped by resource and instrumentation library, with their
//! events, links and status; and the trace configuration messages.

use crate::proto::common::{InstrumentationLibrary, KeyValue};
use crate::proto::resource::Resource;
use vstd::prelude::*;

verus! {

/// The spans of one resource, grouped by instrumentation library.
#[derive(Debug, PartialEq)]
pub struct ResourceSpans {
    pub resource: Option<Resource>,
    pub instrumentation_library_spans: Vec<InstrumentationLibrarySpans>,
}

/// The spans produced by one instrumentation library.
#[derive(Debug, PartialEq)]
pub struct InstrumentationLibrarySpans {
    pub instrumentation_library: Option<InstrumentationLibrary>,
    pub spans: Vec<Span>,
}

/// One operation within a trace.
#[derive(Debug, PartialEq)]
pub struct Span {
    /// Sixteen bytes.
    pub trace_id: Vec<u8>,
    /// Eight bytes.
    pub span_id: Vec<u8>,
    pub trace_state: String,
    /// Empty for a root span, else eight bytes.
    pub parent_span_id: Vec<u8>,
    pub name: String,
    /// A `SpanKind` wire value.
    pub kind: i32,
    pub start_time_unix_nano: u64,
    pub end_time_unix_nano: u64,
    pub attributes: Vec<KeyValue>,
    pub dropped_attributes_count: u32,
    pub events: Vec<Event>,
    pub dropped_events_count: u32,
    pub links: Vec<Link>,
    pub dropped_links_count: u32,
    pub status: Option<Status>,
}

/// A timed annotation of a span.
#[derive(Debug, PartialEq)]
pub struct Event {
    pub time_unix_nano: u64,
    pub name: String,
    pub attributes: Vec<KeyValue>,
    pub dropped_attributes_count: u32,
}

/// A reference to a span of the same or another trace.
#[derive(Debug, PartialEq)]
pub struct Link {
    pub trace_id: Vec<u8>,
    pub span_id: Vec<u8>,
    pub trace_state: String,
    pub attributes: Vec<KeyValue>,
    pub dropped_attributes_count: u32,
}

/// The role of a span; `Unspecified` is not to be sent.
#[derive(Clone, Copy, Debug, PartialEq, Eq, Structural)]
pub enum SpanKind {
    Unspecified,
    Internal,
    Server,
    Client,
    Producer,
    Consumer,
}

impl SpanKind {
    pub open spec fn spec_code(self) -> i32 {
        match self {
            SpanKind::Unspecified => 0,
            SpanKind::Internal => 1,
            SpanKind::Server => 2,
            SpanKind::Client => 3,
            SpanKind::Producer => 4,
            SpanKind::Consumer => 5,
        }
    }

    /// The wire value.
    pub fn as_i32(self) -> (r: i32)
        ensures
            r == self.spec_code(),
    {
        match self {
            SpanKind::Unspecified => 0,
            SpanKind::Internal => 1,
            SpanKind::Server => 2,
            SpanKind::Client => 3,
            SpanKind::Producer => 4,
            SpanKind::Consumer => 5,
        }
    }

    /// The variant with wire value `value`, if there is one.
    pub fn from_i32(value: i32) -> (r: Option<SpanKind>)
        ensures
            match r {
                Some(k) => k.spec_code() == value,
                None => !(0 <= value < 6),
            },
    {
        match value {
            0 => Some(SpanKind::Unspecified),
            1 => Some(SpanKind::Internal),
            2 => Some(SpanKind::Server),
            3 => Some(SpanKind::Client),
            4 => Some(SpanKind::Producer),
            5 => Some(SpanKind::Consumer),
            _ => None,
        }
    }
}

/// How a span ended: a `StatusCode` wire value and a message.
#[derive(Clone, Debug, PartialEq, Eq)]
pub struct Status {
    pub code: i32,
    pub message: String,
}

/// The canonical status codes.
#[derive(Clone, Copy, Debug, PartialEq, Eq, Structural)]
pub enum StatusCode {
    OK,
    Cancelled,
    UnknownError,
    InvalidArgument,
    DeadlineExceeded,
    NotFound,
    AlreadyExists,
    PermissionDenied,
    ResourceExhausted,
    FailedPrecondition,
    Aborted,
    OutOfRange,
    Unimplemented,
    InternalError,
    Unavailable,
    DataLoss,
    Unauthenticated,
}

impl StatusCode {
    pub open spec fn spec_code(self) -> i32 {
        match self {
            StatusCode::OK => 0,
            StatusCode::Cancelled => 1,
            StatusCode::UnknownError => 2,
            StatusCode::InvalidArgument => 3,
            StatusCode::DeadlineExceeded => 4,
            StatusCode::NotFound => 5,
            StatusCode::AlreadyExists => 6,
            StatusCode::PermissionDenied => 7,
            StatusCode::ResourceExhausted => 8,
            StatusCode::FailedPrecondition => 9,
            StatusCode::Aborted => 10,
            StatusCode::OutOfRange => 11,
            StatusCode::Unimplemented => 12,
            StatusCode::InternalError => 13,
            StatusCode::Unavailable => 14,
            StatusCode::DataLoss => 15,
            StatusCode::Unauthenticated => 16,
        }
    }

    /// The wire value.
    pub fn as_i32(self) -> (r: i32)
        ensures
            r == self.spec_code(),
    {
        match self {
            StatusCode::OK => 0,
            StatusCode::Cancelled => 1,
            StatusCode::UnknownError => 2,
            StatusCode::InvalidArgument => 3,
            StatusCode::DeadlineExceeded => 4,
            StatusCode::NotFound => 5,
            StatusCode::AlreadyExists => 6,
            StatusCode::PermissionDenied => 7,
            StatusCode::ResourceExhausted => 8,
            StatusCode::FailedPrecondition => 9,
            StatusCode::Aborted => 10,
            StatusCode::OutOfRange => 11,
            StatusCode::Unimplemented => 12,
            StatusCode::InternalError => 13,
            StatusCode::Unavailable => 14,
            StatusCode::DataLoss => 15,
            StatusCode::Unauthenticated => 16,
        }
    }

    /// The variant with wire value `value`, if there is one.
    pub fn from_i32(value: i32) -> (r: Option<StatusCode>)
        ensures
            match r {
                Some(k) => k.spec_code() == value,
                None => !(0 <= value < 17),
            },
    {
        match value {
            0 => Some(StatusCode::OK),
            1 => Some(StatusCode::Cancelled),
            2 => Some(StatusCode::UnknownError),
            3 => Some(StatusCode::InvalidArgument),
            4 => Some(StatusCode::DeadlineExceeded),
            5 => Some(StatusCode::NotFound),
            6 => Some(StatusCode::AlreadyExists),
            7 => Some(StatusCode::PermissionDenied),
            8 => Some(StatusCode::ResourceExhausted),
            9 => Some(StatusCode::FailedPrecondition),
            10 => Some(StatusCode::Aborted),
            11 => Some(StatusCode::OutOfRange),
            12 => Some(StatusCode::Unimplemented),
            13 => Some(StatusCode::InternalError),
            14 => Some(StatusCode::Unavailable),
            15 => Some(StatusCode::DataLoss),
            16 => Some(StatusCode::Unauthenticated),
            _ => None,
        }
    }
}

/// Default limits and sampler of the trace service.
#[derive(Clone, Debug, PartialEq, Eq)]
pub struct TraceConfig {
    pub max_number_of_attributes: i64,
    pub max_number_of_timed_events: i64,
    pub max_number_of_attributes_per_timed_event: i64,
    pub max_number_of_links: i64,
    pub max_number_of_attributes_per_link: i64,
    pub sampler: Option<Sampler>,
}

/// The default sampler.
#[derive(Clone, Debug, PartialEq, Eq)]
pub enum Sampler {
    ConstantSampler(ConstantSampler),
    ProbabilitySampler(ProbabilitySampler),
    RateLimitingSampler(RateLimitingSampler),
}

/// A sampler that always makes the same decision.
#[derive(Clone, Copy, Debug, PartialEq, Eq)]
pub struct ConstantSampler {
    /// A `ConstantDecision` wire value.
    pub decision: i32,
}

/// The decision of a constant sampler.
#[derive(Clone, Copy, Debug, PartialEq, Eq, Structural)]
pub enum ConstantDecision {
    AlwaysOff,
    AlwaysOn,
    AlwaysParent,
}

impl ConstantDecision {
    pub open spec fn spec_code(self) -> i32 {
        match self {
            ConstantDecision::AlwaysOff => 0,
            ConstantDecision::AlwaysOn => 1,
            ConstantDecision::AlwaysParent => 2,
        }
    }

    /// The wire value.
    pub fn as_i32(self) -> (r: i32)
        ensures
            r == self.spec_code(),
    {
        match self {
            ConstantDecision::AlwaysOff => 0,
            ConstantDecision::AlwaysOn => 1,
            ConstantDecision::AlwaysParent => 2,
        }
    }

    /// The variant with wire value `value`, if there is one.
    pub fn from_i32(value: i32) -> (r: Option<ConstantDecision>)
        ensures
            match r {
                Some(k) => k.spec_code() == value,
                None => !(0 <= value < 3),
            },
    {
        match value {
            0 => Some(ConstantDecision::AlwaysOff),
            1 => Some(ConstantDecision::AlwaysOn),
            2 => Some(ConstantDecision::AlwaysParent),
            _ => None,
        }
    }
}

/// A sampler that keeps traces with a fixed probability, carried as the
/// IEEE-754 bit pattern of the double.
#[derive(Clone, Copy, Debug, PartialEq, Eq)]
pub struct ProbabilitySampler {
    pub sampling_probability: u64,
}

/// A sampler bounded by a rate per second.
#[derive(Clone, Copy, Debug, PartialEq, Eq)]
pub struct RateLimitingSampler {
    pub qps: i64,
}

} // verus!
