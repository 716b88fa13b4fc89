//! The SDK behind the host's span callbacks: it keeps the record of every
//! live span and decides, callback by callback, what becomes of spans and
//! events.

use std::collections::HashMap;
use vstd::pervasive::unreached;
use vstd::prelude::*;
use crate::clock::now;
use crate::id_generator::{next_span_id, next_trace_id};
use crate::lifecycle::{closed, local_parent, recorded, remote_parented, started, Store};
use crate::propagator::{encoded, jaeger_header};
use crate::span::SpanView;

pub use crate::event::{EventDescriptor, EventExportMode, EventRoute};
pub use crate::ids::{SpanId, TraceId};
pub use crate::sampler::{OTelSampler, ShouldSample};
pub use crate::span::OTelSpan;

verus! {

/// A span that has been closed, and whether it goes to the exporter.
#[derive(Debug)]
pub struct ClosedSpan {
    /// The finished record, for the local diagnostic.
    pub span: OTelSpan,
    /// The record is handed to the exporter: so for a sampled span only.
    pub export: bool,
}

/// The SDK: a sampler, an export mode for events, and the records of the
/// live spans, each under the key that the host gave its span.
pub struct OpenTelemetrySdk<S: ShouldSample = OTelSampler> {
    sampler: S,
    event_export_mode: EventExportMode,
    spans: HashMap<u64, OTelSpan>,
}

impl<S: ShouldSample> View for OpenTelemetrySdk<S> {
    type V = Store;

    closed spec fn view(&self) -> Store {
        self.spans@.map_values(|span: OTelSpan| span@)
    }
}

impl Default for OpenTelemetrySdk<OTelSampler> {
    fn default() -> (sdk: Self)
        ensures
            sdk@ == Store::empty(),
            sdk.mode() == EventExportMode::SpanEvent,
    {
        Self::new()
    }
}

impl OpenTelemetrySdk<OTelSampler> {
    /// An SDK that keeps every trace and attaches events to their spans.
    pub fn new() -> (sdk: Self)
        ensures
            sdk@ == Store::empty(),
            sdk.mode() == EventExportMode::SpanEvent,
    {
        Self::with_config(OTelSampler, EventExportMode::SpanEvent)
    }
}

impl<S: ShouldSample> OpenTelemetrySdk<S> {
    /// The sampler that decides for each new trace.
    pub closed spec fn sampler(&self) -> S {
        self.sampler
    }

    /// How events leave the SDK.
    pub closed spec fn mode(&self) -> EventExportMode {
        self.event_export_mode
    }

    /// An SDK with the given sampler and export mode, and no live span.
    pub fn with_config(sampler: S, event_export_mode: EventExportMode) -> (sdk: Self)
        ensures
            sdk@ == Store::empty(),
            sdk.sampler() == sampler,
            sdk.mode() == event_export_mode,
    {
        let sdk = OpenTelemetrySdk { sampler, event_export_mode, spans: HashMap::new() };
        assert(sdk@ =~= Store::empty());
        sdk
    }

    /// How events leave the SDK.
    pub fn event_export_mode(&self) -> (mode: EventExportMode)
        ensures
            mode == self.mode(),
    {
        self.event_export_mode
    }

    /// Whether a record is live under `id`.
    pub fn contains(&self, id: u64) -> (live: bool)
        ensures
            live == self@.contains_key(id),
    {
        self.spans.contains_key(&id)
    }

    /// The record that is live under `id`.
    pub fn span(&self, id: u64) -> (found: Option<&OTelSpan>)
        ensures
            match found {
                Some(span) => self@.contains_key(id) && span@ == self@[id],
                None => !self@.contains_key(id),
            },
    {
        self.spans.get(&id)
    }

    /// The host starts the span `id`, named `name` and with the attributes
    /// `attrs`, while the span `parent` is current. The new record gets a
    /// span id drawn at random and the present time as its start; a root
    /// also gets a trace id drawn at random and the sampler's decision for
    /// it. So the store becomes what [`started`] gives for the trace id,
    /// span id and start time that the new record shows.
    pub fn on_new_span(
        &mut self,
        id: u64,
        name: String,
        attrs: Vec<(String, String)>,
        parent: Option<u64>,
    )
        requires
            !old(self)@.contains_key(id),
        ensures
            final(self)@.contains_key(id),
            final(self)@ == started(
                old(self)@,
                id,
                name@,
                attrs.deep_view(),
                parent,
                final(self)@[id].trace_id,
                final(self)@[id].span_id,
                old(self).sampler().sampled(final(self)@[id].trace_id),
                final(self)@[id].start_time,
            ),
            final(self).sampler() == old(self).sampler(),
            final(self).mode() == old(self).mode(),
    {
        let fresh_trace = match self.parent_trace(parent) {
            Some(trace_id) => trace_id,
            None => next_trace_id(),
        };
        let span_id = next_span_id();
        let time = now();
        self.start_span(id, name, attrs, parent, fresh_trace, span_id, time);
        proof {
            let made = self@[id];
            assert(self@ =~= started(
                old(self)@,
                id,
                name@,
                attrs.deep_view(),
                parent,
                made.trace_id,
                made.span_id,
                old(self).sampler().sampled(made.trace_id),
                made.start_time,
            ));
        }
    }

    /// The trace id of the local parent, if there is one.
    fn parent_trace(&self, parent: Option<u64>) -> (trace_id: Option<TraceId>)
        ensures
            trace_id == (match local_parent(self@, parent) {
                Some(p) => Some(p.trace_id),
                None => None,
            }),
    {
        match parent {
            Some(key) => match self.spans.get(&key) {
                Some(span) => Some(span.trace_id),
                None => None,
            },
            None => None,
        }
    }

    /// Starts the span `id` with the identifiers and the start time given:
    /// `span_id` for the span, and `fresh_trace` for its trace if it turns
    /// out to be a root. Under a live local parent the new record copies the
    /// parent's trace id and sampling decision; the sampler is asked for a
    /// root only.
    pub fn start_span(
        &mut self,
        id: u64,
        name: String,
        attrs: Vec<(String, String)>,
        parent: Option<u64>,
        fresh_trace: TraceId,
        span_id: SpanId,
        time: u128,
    )
        requires
            !old(self)@.contains_key(id),
        ensures
            final(self)@ == started(
                old(self)@,
                id,
                name@,
                attrs.deep_view(),
                parent,
                fresh_trace,
                span_id,
                old(self).sampler().sampled(fresh_trace),
                time,
            ),
            final(self).sampler() == old(self).sampler(),
            final(self).mode() == old(self).mode(),
    {
        let link = match parent {
            Some(key) => match self.spans.get(&key) {
                Some(p) => Some((p.trace_id, p.span_id, p.is_recording)),
                None => None,
            },
            None => None,
        };
        let mut span = match link {
            Some((trace_id, parent_span_id, is_recording)) => OTelSpan::started(
                name,
                trace_id,
                span_id,
                Some(parent_span_id),
                time,
                is_recording,
            ),
            None => {
                let decision = self.sampler.should_sample(&fresh_trace);
                OTelSpan::started(name, fresh_trace, span_id, None, time, decision)
            },
        };
        span.record(attrs);
        self.spans.insert(id, span);
        assert(self@ =~= started(
            old(self)@,
            id,
            name@,
            attrs.deep_view(),
            parent,
            fresh_trace,
            span_id,
            old(self).sampler().sampled(fresh_trace),
            time,
        ));
    }

    /// The host records `values` on the span `id`: they are written into its
    /// attributes in order. Nothing happens where no record is live.
    pub fn on_record(&mut self, id: u64, values: Vec<(String, String)>)
        ensures
            final(self)@ == recorded(old(self)@, id, values.deep_view()),
            final(self).sampler() == old(self).sampler(),
            final(self).mode() == old(self).mode(),
    {
        match self.spans.remove(&id) {
            Some(span) => {
                let mut span = span;
                span.record(values);
                self.spans.insert(id, span);
            },
            None => {},
        }
        assert(self@ =~= recorded(old(self)@, id, values.deep_view()));
    }

    /// The host closes the span `id`: its record leaves the store with the
    /// present time as its end, or its start time if the clock reads
    /// earlier. It goes to the exporter if and only if it is sampled.
    pub fn on_close(&mut self, id: u64) -> (done: ClosedSpan)
        requires
            old(self)@.contains_key(id),
        ensures
            final(self)@ == closed(old(self)@, id),
            done.span@.end_time is Some,
            done.span@ == old(self)@[id].closed(done.span@.end_time->0),
            done.export == old(self)@[id].is_recording,
            final(self).sampler() == old(self).sampler(),
            final(self).mode() == old(self).mode(),
    {
        let time = now();
        self.close_span(id, time)
    }

    /// Closes the span `id` at the clock reading `time`.
    pub fn close_span(&mut self, id: u64, time: u128) -> (done: ClosedSpan)
        requires
            old(self)@.contains_key(id),
        ensures
            final(self)@ == closed(old(self)@, id),
            done.span@ == old(self)@[id].closed(time),
            done.export == old(self)@[id].is_recording,
            final(self).sampler() == old(self).sampler(),
            final(self).mode() == old(self).mode(),
    {
        let found = self.spans.remove(&id);
        assert(self@ =~= closed(old(self)@, id));
        match found {
            Some(span) => {
                let mut span = span;
                span.close(time);
                let export = span.is_recording;
                ClosedSpan { span, export }
            },
            None => unreached(),
        }
    }

    /// Puts a remote parent in place of the parentage of the span `id`: the
    /// trace id that `header` decodes to, and its span id as the parent.
    /// Nothing happens where no record is live. The sampling decision stays.
    pub fn set_remote_parent(&mut self, id: u64, header: &str)
        ensures
            final(self)@ == remote_parented(old(self)@, id, header@),
            final(self).sampler() == old(self).sampler(),
            final(self).mode() == old(self).mode(),
    {
        match self.spans.remove(&id) {
            Some(span) => {
                let mut span = span;
                span.set_remote_parent(header);
                self.spans.insert(id, span);
            },
            None => {},
        }
        assert(self@ =~= remote_parented(old(self)@, id, header@));
    }

    /// The host reports an event while the span `current` is current. The
    /// event goes where [`routed`](crate::event::routed) says.
    pub fn on_event(&self, event: EventDescriptor, current: Option<u64>) -> (route: EventRoute)
        ensures
            route@ == crate::event::routed(
                self.mode(),
                self@,
                event.name@,
                event.fields.deep_view(),
                event.parent,
                event.contextual,
                current,
            ),
    {
        let mut key: Option<u64> = None;
        if let Some(p) = event.parent {
            if self.spans.contains_key(&p) {
                key = Some(p);
            }
        }
        if key.is_none() && event.contextual {
            if let Some(c) = current {
                if self.spans.contains_key(&c) {
                    key = Some(c);
                }
            }
        }
        assert(key == crate::event::owner(self@, event.parent, event.contextual, current));
        let owner = match key {
            Some(k) => self.spans.get(&k),
            None => None,
        };
        match owner {
            Some(span) => match self.event_export_mode {
                EventExportMode::SpanEvent => {
                    if span.is_recording {
                        EventRoute::SpanEvent {
                            name: event.name,
                            fields: event.fields,
                            span_id: span.span_id,
                        }
                    } else {
                        EventRoute::Dropped
                    }
                },
                EventExportMode::LogRecord => EventRoute::LogRecord {
                    name: event.name,
                    fields: event.fields,
                    span_id: span.span_id,
                },
            },
            None => EventRoute::Dropped,
        }
    }

    /// Hands the record of the span `id` to `f` and returns what `f` makes
    /// of it; the default value where no record is live or `f` makes nothing.
    pub fn with_otel_span<F, T>(&self, id: u64, f: F) -> (value: T) where
        F: Fn(&OTelSpan) -> Option<T>,
        T: Default,

        requires
            forall|span: &OTelSpan| call_requires(f, (span,)),
        ensures
            self@.contains_key(id) ==> exists|span: &OTelSpan, made: Option<T>|
                span@ == self@[id] && #[trigger] call_ensures(f, (span,), made) && (made matches Some(
                    v,
                ) ==> value == v),
    {
        match self.spans.get(&id) {
            Some(span) => span.with_otel_span(f),
            None => T::default(),
        }
    }

    /// The propagation header for the span `id`.
    pub fn extract_jaeger_propagation(&self, id: u64) -> (header: String)
        ensures
            header@ == slot_header(
                if self@.contains_key(id) {
                    Some(self@[id])
                } else {
                    None
                },
            ),
    {
        propagation_header(self.spans.get(&id))
    }
}

/// The header for what the slot of a span holds: that of the record, and
/// for an empty slot that of the zero identifiers, marked as sampled.
pub open spec fn slot_header(slot: Option<SpanView>) -> Seq<char> {
    match slot {
        Some(span) => encoded(span.trace_id, span.span_id, span.parent_span_id, span.is_recording),
        None => encoded(TraceId(0), SpanId(0), None, true),
    }
}

/// Writes the propagation header for what the slot of a span holds.
pub fn propagation_header(slot: Option<&OTelSpan>) -> (header: String)
    ensures
        header@ == slot_header(
            match slot {
                Some(span) => Some(span@),
                None => None,
            },
        ),
{
    match slot {
        Some(span) => span.extract_jaeger_propagation(),
        None => jaeger_header(TraceId(0), SpanId(0), None, true),
    }
}

/// What a span offers for context propagation.
pub trait OtelSpanExt {
    /// The record that the methods read and change.
    spec fn otel_span(&self) -> OTelSpan;

    /// Puts the remote parent of the header `jaeger_format` in place of the
    /// span's own parentage.
    fn set_parent(&mut self, jaeger_format: String)
        ensures
            final(self).otel_span()@ == old(self).otel_span()@.with_remote_parent(jaeger_format@),
    ;

    /// The trace that the span belongs to.
    fn tract_id(&self) -> (id: TraceId)
        ensures
            id == self.otel_span()@.trace_id,
    ;

    /// The span's own id.
    fn span_id(&self) -> (id: SpanId)
        ensures
            id == self.otel_span()@.span_id,
    ;

    /// The span id of the parent; zero for a span without one.
    fn parent_span_id(&self) -> (id: SpanId)
        ensures
            id == (match self.otel_span()@.parent_span_id {
                Some(parent) => parent,
                None => SpanId(0),
            }),
    ;

    /// The propagation header that carries this span's identity and sampling
    /// decision to another process.
    fn extract_jaeger_propagation(&self) -> (header: String)
        ensures
            header@ == encoded(
                self.otel_span()@.trace_id,
                self.otel_span()@.span_id,
                self.otel_span()@.parent_span_id,
                self.otel_span()@.is_recording,
            ),
    ;

    /// Hands the record to `f` and returns what `f` makes of it; the default
    /// value where `f` makes nothing.
    fn with_otel_span<F, T>(&self, f: F) -> (value: T) where
        F: Fn(&OTelSpan) -> Option<T>,
        T: Default,

        requires
            call_requires(f, (&self.otel_span(),)),
        ensures
            exists|made: Option<T>| #[trigger]
                call_ensures(f, (&self.otel_span(),), made) && (made matches Some(v) ==> value == v),
    ;
}

impl OtelSpanExt for OTelSpan {
    open spec fn otel_span(&self) -> OTelSpan {
        *self
    }

    fn set_parent(&mut self, jaeger_format: String) {
        self.set_remote_parent(jaeger_format.as_str());
    }

    fn tract_id(&self) -> (id: TraceId) {
        self.trace_id
    }

    fn span_id(&self) -> (id: SpanId) {
        self.span_id
    }

    fn parent_span_id(&self) -> (id: SpanId) {
        match self.parent_span_id {
            Some(parent) => parent,
            None => SpanId(0),
        }
    }

    fn extract_jaeger_propagation(&self) -> (header: String) {
        jaeger_header(self.trace_id, self.span_id, self.parent_span_id, self.is_recording)
    }

    fn with_otel_span<F, T>(&self, f: F) -> (value: T) where
        F: Fn(&OTelSpan) -> Option<T>,
        T: Default,
     {
        let made = f(self);
        assert(call_ensures(f, (&self.otel_span(),), made));
        match made {
            Some(v) => v,
            None => T::default(),
        }
    }
}

} // verus!
