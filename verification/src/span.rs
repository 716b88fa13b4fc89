//! The record kept for one span.

use vstd::prelude::*;
use crate::attributes::{merged, Attributes, Pair};
use crate::clock::{later, now};
use crate::id_generator::next_span_id;
use crate::ids::{SpanId, TraceId};
use crate::propagator::{decoded, parse_jaeger_trace_id};

verus! {

/// A span record as plain values: what contracts say of an [`OTelSpan`].
pub struct SpanView {
    pub name: Seq<char>,
    pub trace_id: TraceId,
    pub span_id: SpanId,
    pub parent_span_id: Option<SpanId>,
    pub start_time: u128,
    pub end_time: Option<u128>,
    pub attributes: Map<Seq<char>, Seq<char>>,
    pub is_recording: bool,
}

/// One unit of work: its name, its place in a trace, its time interval and
/// its attributes. Times are nanoseconds since the Unix epoch.
#[derive(Debug)]
pub struct OTelSpan {
    pub name: String,
    /// The trace this span belongs to.
    pub trace_id: TraceId,
    pub span_id: SpanId,
    /// The span id of the parent, copied when the span was made.
    pub parent_span_id: Option<SpanId>,
    pub start_time: u128,
    /// Absent until the span is closed.
    pub end_time: Option<u128>,
    pub attributes: Attributes,
    /// The sampling decision of the trace; it never changes.
    pub is_recording: bool,
}

impl View for OTelSpan {
    type V = SpanView;

    open spec fn view(&self) -> SpanView {
        SpanView {
            name: self.name@,
            trace_id: self.trace_id,
            span_id: self.span_id,
            parent_span_id: self.parent_span_id,
            start_time: self.start_time,
            end_time: self.end_time,
            attributes: self.attributes@,
            is_recording: self.is_recording,
        }
    }
}

impl SpanView {
    /// A span that has just started: no end time and no attributes.
    pub open spec fn started(
        name: Seq<char>,
        trace_id: TraceId,
        span_id: SpanId,
        parent_span_id: Option<SpanId>,
        start_time: u128,
        is_recording: bool,
    ) -> SpanView {
        SpanView {
            name,
            trace_id,
            span_id,
            parent_span_id,
            start_time,
            end_time: None,
            attributes: Map::empty(),
            is_recording,
        }
    }

    /// The span with `updates` written into its attributes, in order.
    pub open spec fn recorded(self, updates: Seq<Pair>) -> SpanView {
        SpanView { attributes: merged(self.attributes, updates), ..self }
    }

    /// The span closed at the clock reading `time`. The end is never put
    /// before the start: a clock that was set back reads as the start time.
    pub open spec fn closed(self, time: u128) -> SpanView {
        SpanView { end_time: Some(later(time, self.start_time)), ..self }
    }

    /// The span with the remote parent of `header` in place of its own
    /// parentage: the header's trace id, and the header's span id as parent.
    pub open spec fn with_remote_parent(self, header: Seq<char>) -> SpanView {
        SpanView {
            trace_id: decoded(header).0,
            parent_span_id: Some(decoded(header).1),
            ..self
        }
    }
}

impl OTelSpan {
    /// A span that starts now, under a span id drawn at random.
    pub fn new(
        name: String,
        trace_id: TraceId,
        parent_span_id: Option<SpanId>,
        is_recording: bool,
    ) -> (span: OTelSpan)
        ensures
            span@ == SpanView::started(
                name@,
                trace_id,
                span@.span_id,
                parent_span_id,
                span@.start_time,
                is_recording,
            ),
    {
        OTelSpan::started(name, trace_id, next_span_id(), parent_span_id, now(), is_recording)
    }

    /// A span that started at `start_time` under the span id `span_id`.
    pub fn started(
        name: String,
        trace_id: TraceId,
        span_id: SpanId,
        parent_span_id: Option<SpanId>,
        start_time: u128,
        is_recording: bool,
    ) -> (span: OTelSpan)
        ensures
            span@ == SpanView::started(
                name@,
                trace_id,
                span_id,
                parent_span_id,
                start_time,
                is_recording,
            ),
    {
        OTelSpan {
            name,
            trace_id,
            span_id,
            parent_span_id,
            start_time,
            end_time: None,
            attributes: Attributes::new(),
            is_recording,
        }
    }

    /// Writes `updates` into the attributes, in order; a later value for a
    /// key replaces the earlier one.
    pub fn record(&mut self, updates: Vec<(String, String)>)
        ensures
            final(self)@ == old(self)@.recorded(updates.deep_view()),
    {
        self.attributes.record(updates);
    }

    /// Puts the remote parent of `header` in place of the span's own
    /// parentage: the trace id that the header decodes to, and its span id
    /// as the parent. A header that cannot be read gives the zero pair.
    pub fn set_remote_parent(&mut self, header: &str)
        ensures
            final(self)@ == old(self)@.with_remote_parent(header@),
    {
        let (trace_id, parent_span_id) = parse_jaeger_trace_id(header);
        self.trace_id = trace_id;
        self.parent_span_id = Some(parent_span_id);
    }

    /// Stamps the end time from the clock reading `time`.
    pub fn close(&mut self, time: u128)
        ensures
            final(self)@ == old(self)@.closed(time),
    {
        self.end_time = Some(if time >= self.start_time {
            time
        } else {
            self.start_time
        });
    }
}

/// A closed span does not end before it starts.
pub proof fn lemma_closed_interval(span: SpanView, time: u128)
    ensures
        span.closed(time).end_time matches Some(end) && end >= span.closed(time).start_time,
{
}

} // verus!
