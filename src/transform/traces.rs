//! Span kinds, status codes, links, events and whole spans in wire form.

use crate::api;
use crate::api::{attribute_pairs, SpanData};
use crate::encoding::be_bytes;
use crate::proto::collector::ExportTraceServiceRequest;
use crate::proto::common::KeyValueList;
use crate::proto::resource::Resource;
use crate::proto::trace::{
    Event, InstrumentationLibrarySpans, Link, ResourceSpans, Span, SpanKind, Status, StatusCode,
};
use crate::transform::common::{key_values_match, nanos_since_epoch, to_nanos};
use vstd::prelude::*;
use vstd::slice::slice_to_vec;

verus! {

/// The wire kind of each span kind.
pub open spec fn wire_span_kind(k: api::SpanKind) -> SpanKind {
    match k {
        api::SpanKind::Client => SpanKind::Client,
        api::SpanKind::Consumer => SpanKind::Consumer,
        api::SpanKind::Internal => SpanKind::Internal,
        api::SpanKind::Producer => SpanKind::Producer,
        api::SpanKind::Server => SpanKind::Server,
    }
}

impl From<api::SpanKind> for SpanKind {
    fn from(span_kind: api::SpanKind) -> SpanKind {
        match span_kind {
            api::SpanKind::Client => SpanKind::Client,
            api::SpanKind::Consumer => SpanKind::Consumer,
            api::SpanKind::Internal => SpanKind::Internal,
            api::SpanKind::Producer => SpanKind::Producer,
            api::SpanKind::Server => SpanKind::Server,
        }
    }
}

impl vstd::std_specs::convert::FromSpecImpl<api::SpanKind> for SpanKind {
    open spec fn obeys_from_spec() -> bool {
        true
    }

    open spec fn from_spec(v: api::SpanKind) -> SpanKind {
        wire_span_kind(v)
    }
}

/// The wire status code of each status code.
pub open spec fn wire_status_code(c: api::StatusCode) -> StatusCode {
    match c {
        api::StatusCode::OK => StatusCode::OK,
        api::StatusCode::Canceled => StatusCode::Cancelled,
        api::StatusCode::Unknown => StatusCode::UnknownError,
        api::StatusCode::InvalidArgument => StatusCode::InvalidArgument,
        api::StatusCode::DeadlineExceeded => StatusCode::DeadlineExceeded,
        api::StatusCode::NotFound => StatusCode::NotFound,
        api::StatusCode::AlreadyExists => StatusCode::AlreadyExists,
        api::StatusCode::PermissionDenied => StatusCode::PermissionDenied,
        api::StatusCode::ResourceExhausted => StatusCode::ResourceExhausted,
        api::StatusCode::FailedPrecondition => StatusCode::FailedPrecondition,
        api::StatusCode::Aborted => StatusCode::Aborted,
        api::StatusCode::OutOfRange => StatusCode::OutOfRange,
        api::StatusCode::Unimplemented => StatusCode::Unimplemented,
        api::StatusCode::Internal => StatusCode::InternalError,
        api::StatusCode::Unavailable => StatusCode::Unavailable,
        api::StatusCode::DataLoss => StatusCode::DataLoss,
        api::StatusCode::Unauthenticated => StatusCode::Unauthenticated,
    }
}

impl From<api::StatusCode> for StatusCode {
    fn from(status_code: api::StatusCode) -> StatusCode {
        match status_code {
            api::StatusCode::OK => StatusCode::OK,
            api::StatusCode::Canceled => StatusCode::Cancelled,
            api::StatusCode::Unknown => StatusCode::UnknownError,
            api::StatusCode::InvalidArgument => StatusCode::InvalidArgument,
            api::StatusCode::DeadlineExceeded => StatusCode::DeadlineExceeded,
            api::StatusCode::NotFound => StatusCode::NotFound,
            api::StatusCode::AlreadyExists => StatusCode::AlreadyExists,
            api::StatusCode::PermissionDenied => StatusCode::PermissionDenied,
            api::StatusCode::ResourceExhausted => StatusCode::ResourceExhausted,
            api::StatusCode::FailedPrecondition => StatusCode::FailedPrecondition,
            api::StatusCode::Aborted => StatusCode::Aborted,
            api::StatusCode::OutOfRange => StatusCode::OutOfRange,
            api::StatusCode::Unimplemented => StatusCode::Unimplemented,
            api::StatusCode::Internal => StatusCode::InternalError,
            api::StatusCode::Unavailable => StatusCode::Unavailable,
            api::StatusCode::DataLoss => StatusCode::DataLoss,
            api::StatusCode::Unauthenticated => StatusCode::Unauthenticated,
        }
    }
}

impl vstd::std_specs::convert::FromSpecImpl<api::StatusCode> for StatusCode {
    open spec fn obeys_from_spec() -> bool {
        true
    }

    open spec fn from_spec(v: api::StatusCode) -> StatusCode {
        wire_status_code(v)
    }
}

/// The wire parent id: empty for the invalid (zero) id, else its eight
/// big-endian bytes.
pub open spec fn parent_span_bytes(parent: u64) -> Seq<u8> {
    if parent == 0 {
        Seq::empty()
    } else {
        be_bytes(parent as nat, 8)
    }
}

/// The wire parent id of a root span is empty; any other parent id is its
/// eight big-endian bytes.
pub proof fn lemma_parent_span_bytes(parent: u64)
    ensures
        parent == 0 ==> parent_span_bytes(parent).len() == 0,
        parent != 0 ==> parent_span_bytes(parent) == be_bytes(parent as nat, 8)
            && parent_span_bytes(parent).len() == 8,
{
}

/// `w` is the wire form of link `l`: both ids as big-endian bytes, no trace
/// state, the attributes in order, nothing dropped.
pub open spec fn link_matches(l: api::Link, w: Link) -> bool {
    &&& w.trace_id@ == be_bytes(l.span_context@.trace_id as nat, 16)
    &&& w.span_id@ == be_bytes(l.span_context@.span_id as nat, 8)
    &&& w.trace_state@.len() == 0
    &&& key_values_match(attribute_pairs(l.attributes@), w.attributes@)
    &&& w.dropped_attributes_count == 0
}

/// `w` is the wire form of event `e`.
pub open spec fn event_matches(e: api::Event, w: Event) -> bool {
    &&& w.time_unix_nano == nanos_since_epoch(e.timestamp)
    &&& w.name@ == e.name@
    &&& key_values_match(attribute_pairs(e.attributes@), w.attributes@)
    &&& w.dropped_attributes_count == 0
}

/// `w` is the wire form of the finished span `s`.
pub open spec fn span_matches(s: SpanData, w: Span) -> bool {
    &&& w.trace_id@ == be_bytes(s.span_context@.trace_id as nat, 16)
    &&& w.span_id@ == be_bytes(s.span_context@.span_id as nat, 8)
    &&& w.trace_state@.len() == 0
    &&& w.parent_span_id@ == parent_span_bytes(s.parent_span_id@)
    &&& w.name@ == s.name@
    &&& w.kind == wire_span_kind(s.span_kind).spec_code()
    &&& w.start_time_unix_nano == nanos_since_epoch(s.start_time)
    &&& w.end_time_unix_nano == nanos_since_epoch(s.end_time)
    &&& key_values_match(s.attributes@.entries, w.attributes@)
    &&& w.dropped_attributes_count == s.attributes@.dropped_count
    &&& w.events.len() == s.message_events.len()
    &&& forall|i: int|
        0 <= i < s.message_events.len() ==> #[trigger] event_matches(
            s.message_events[i],
            w.events[i],
        )
    &&& w.dropped_events_count == 0
    &&& w.links.len() == s.links.len()
    &&& forall|i: int| 0 <= i < s.links.len() ==> #[trigger] link_matches(s.links[i], w.links[i])
    &&& w.dropped_links_count == 0
    &&& match w.status {
        Some(st) => st.code == wire_status_code(s.status_code).spec_code() && st.message@
            == s.status_message@,
        None => false,
    }
}

/// `r` holds exactly the span `s`: one resource without attributes, one
/// instrumentation library group with no library set, one span.
pub open spec fn resource_spans_matches(s: SpanData, r: ResourceSpans) -> bool {
    &&& match r.resource {
        Some(res) => res.attributes@.len() == 0 && res.dropped_attributes_count == 0,
        None => false,
    }
    &&& r.instrumentation_library_spans.len() == 1
    &&& r.instrumentation_library_spans[0].instrumentation_library is None
    &&& r.instrumentation_library_spans[0].spans.len() == 1
    &&& span_matches(s, r.instrumentation_library_spans[0].spans[0])
}

impl Link {
    /// The wire form of a link.
    pub fn from_link(link: &api::Link) -> (r: Link)
        ensures
            link_matches(*link, r),
    {
        let trace_id = link.span_context.trace_id().to_byte_array();
        let span_id = link.span_context.span_id().to_byte_array();
        Link {
            trace_id: slice_to_vec(trace_id.as_slice()),
            span_id: slice_to_vec(span_id.as_slice()),
            trace_state: String::new(),
            attributes: KeyValueList::from_attributes(&link.attributes).values,
            dropped_attributes_count: 0,
        }
    }
}

impl Event {
    /// The wire form of an event.
    pub fn from_event(event: &api::Event) -> (r: Event)
        ensures
            event_matches(*event, r),
    {
        Event {
            time_unix_nano: to_nanos(event.timestamp),
            name: event.name.clone(),
            attributes: KeyValueList::from_attributes(&event.attributes).values,
            dropped_attributes_count: 0,
        }
    }
}

impl Span {
    /// The wire form of a finished span.
    pub fn from_span_data(source_span: &SpanData) -> (r: Span)
        ensures
            span_matches(*source_span, r),
    {
        let trace_id = source_span.span_context.trace_id().to_byte_array();
        let span_id = source_span.span_context.span_id().to_byte_array();
        let parent = source_span.parent_span_id.to_u64();
        let parent_span_id = if parent > 0 {
            let bytes = source_span.parent_span_id.to_byte_array();
            slice_to_vec(bytes.as_slice())
        } else {
            let empty: Vec<u8> = Vec::new();
            assert(empty@ =~= Seq::<u8>::empty());
            empty
        };
        let mut events: Vec<Event> = Vec::new();
        let mut i: usize = 0;
        while i < source_span.message_events.len()
            invariant
                i <= source_span.message_events@.len(),
                events@.len() == i,
                forall|j: int|
                    0 <= j < i ==> #[trigger] event_matches(
                        source_span.message_events[j],
                        events@[j],
                    ),
            decreases source_span.message_events@.len() - i,
        {
            events.push(Event::from_event(&source_span.message_events[i]));
            i = i + 1;
        }
        let mut links: Vec<Link> = Vec::new();
        let mut i: usize = 0;
        while i < source_span.links.len()
            invariant
                i <= source_span.links@.len(),
                links@.len() == i,
                forall|j: int|
                    0 <= j < i ==> #[trigger] link_matches(source_span.links[j], links@[j]),
            decreases source_span.links@.len() - i,
        {
            links.push(Link::from_link(&source_span.links[i]));
            i = i + 1;
        }
        Span {
            trace_id: slice_to_vec(trace_id.as_slice()),
            span_id: slice_to_vec(span_id.as_slice()),
            trace_state: String::new(),
            parent_span_id,
            name: source_span.name.clone(),
            kind: SpanKind::from(source_span.span_kind).as_i32(),
            start_time_unix_nano: to_nanos(source_span.start_time),
            end_time_unix_nano: to_nanos(source_span.end_time),
            attributes: KeyValueList::from_evicted(&source_span.attributes).values,
            dropped_attributes_count: source_span.attributes.dropped_count(),
            events,
            dropped_events_count: 0,
            links,
            dropped_links_count: 0,
            status: Some(
                Status {
                    code: StatusCode::from(source_span.status_code).as_i32(),
                    message: source_span.status_message.clone(),
                },
            ),
        }
    }
}

impl ResourceSpans {
    /// One span in wire form, as the single span of a resource and of an
    /// instrumentation library group.
    pub fn from_span_data(source_span: &SpanData) -> (r: ResourceSpans)
        ensures
            resource_spans_matches(*source_span, r),
    {
        let span = Span::from_span_data(source_span);
        let group = InstrumentationLibrarySpans { instrumentation_library: None, spans: vec![span] };
        ResourceSpans {
            resource: Some(Resource { attributes: Vec::new(), dropped_attributes_count: 0 }),
            instrumentation_library_spans: vec![group],
        }
    }
}

impl ExportTraceServiceRequest {
    /// The export request for a batch: each span as its own resource group,
    /// in batch order.
    pub fn from_batch(batch: &Vec<SpanData>) -> (r: ExportTraceServiceRequest)
        ensures
            r.resource_spans@.len() == batch@.len(),
            forall|i: int|
                0 <= i < batch@.len() ==> #[trigger] resource_spans_matches(
                    batch@[i],
                    r.resource_spans@[i],
                ),
    {
        let mut resource_spans: Vec<ResourceSpans> = Vec::new();
        let mut i: usize = 0;
        while i < batch.len()
            invariant
                i <= batch@.len(),
                resource_spans@.len() == i,
                forall|j: int|
                    0 <= j < i ==> #[trigger] resource_spans_matches(batch@[j], resource_spans@[j]),
            decreases batch@.len() - i,
        {
            resource_spans.push(ResourceSpans::from_span_data(&batch[i]));
            i = i + 1;
        }
        ExportTraceServiceRequest { resource_spans }
    }
}

} // verus!
