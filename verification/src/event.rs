//! Routing of events: to the owning span as a span-event, or on their own as
//! a log-record.

use vstd::prelude::*;
use crate::attributes::Pair;
use crate::ids::SpanId;
use crate::lifecycle::Store;

verus! {

/// How events leave the SDK.
#[derive(Clone, Copy, PartialEq, Eq, Structural, Debug)]
pub enum EventExportMode {
    /// Each event of a live span becomes a log-record that names the span.
    LogRecord,
    /// Each event of a sampled span is attached to that span.
    SpanEvent,
}

/// An event as the host reports it.
#[derive(Debug)]
pub struct EventDescriptor {
    pub name: String,
    /// The fields of the event, each as a key and a value.
    pub fields: Vec<(String, String)>,
    /// The span that the event names as its parent, if it names one.
    pub parent: Option<u64>,
    /// The event belongs to whatever span is current where it occurs.
    pub contextual: bool,
}

/// What becomes of an event.
#[derive(Debug)]
pub enum EventRoute {
    /// The event is dropped without a trace.
    Dropped,
    /// The event, with its name and fields, is attached to the span
    /// `span_id`.
    SpanEvent { name: String, fields: Vec<(String, String)>, span_id: SpanId },
    /// The event, with its name and fields, is emitted as a log-record
    /// correlated with `span_id`.
    LogRecord { name: String, fields: Vec<(String, String)>, span_id: SpanId },
}

/// An [`EventRoute`] as plain values.
pub enum RouteView {
    Dropped,
    SpanEvent { name: Seq<char>, fields: Seq<Pair>, span_id: SpanId },
    LogRecord { name: Seq<char>, fields: Seq<Pair>, span_id: SpanId },
}

impl View for EventRoute {
    type V = RouteView;

    open spec fn view(&self) -> RouteView {
        match *self {
            EventRoute::Dropped => RouteView::Dropped,
            EventRoute::SpanEvent { name, fields, span_id } => RouteView::SpanEvent {
                name: name@,
                fields: fields.deep_view(),
                span_id,
            },
            EventRoute::LogRecord { name, fields, span_id } => RouteView::LogRecord {
                name: name@,
                fields: fields.deep_view(),
                span_id,
            },
        }
    }
}

/// The key of the span that owns an event: the parent that the event names,
/// if its record is live; else, for a contextual event, the current span, if
/// there is one and its record is live. Otherwise the event has no owner.
pub open spec fn owner(
    store: Store,
    parent: Option<u64>,
    contextual: bool,
    current: Option<u64>,
) -> Option<u64> {
    if parent is Some && store.contains_key(parent->0) {
        parent
    } else if contextual && current is Some && store.contains_key(current->0) {
        current
    } else {
        None
    }
}

/// Where an event goes. Without an owner it is dropped. In span-event mode
/// it is attached to its owner only if the owner is sampled; in log-record
/// mode it is emitted whether the owner is sampled or not.
pub open spec fn routed(
    mode: EventExportMode,
    store: Store,
    name: Seq<char>,
    fields: Seq<Pair>,
    parent: Option<u64>,
    contextual: bool,
    current: Option<u64>,
) -> RouteView {
    match owner(store, parent, contextual, current) {
        None => RouteView::Dropped,
        Some(key) => match mode {
            EventExportMode::SpanEvent => if store[key].is_recording {
                RouteView::SpanEvent { name, fields, span_id: store[key].span_id }
            } else {
                RouteView::Dropped
            },
            EventExportMode::LogRecord => RouteView::LogRecord {
                name,
                fields,
                span_id: store[key].span_id,
            },
        },
    }
}

/// Sampling gates span-events and not log-records: an event whose owner is
/// not sampled still gives its one log-record in log-record mode, and gives
/// no span-event in span-event mode.
pub proof fn lemma_sampling_gates_span_events_only(
    store: Store,
    name: Seq<char>,
    fields: Seq<Pair>,
    parent: Option<u64>,
    contextual: bool,
    current: Option<u64>,
)
    requires
        owner(store, parent, contextual, current) matches Some(key) && !store[key].is_recording,
    ensures
        routed(EventExportMode::LogRecord, store, name, fields, parent, contextual, current)
            == (RouteView::LogRecord {
            name,
            fields,
            span_id: store[owner(store, parent, contextual, current)->0].span_id,
        }),
        routed(EventExportMode::SpanEvent, store, name, fields, parent, contextual, current)
            == RouteView::Dropped,
{
}

} // verus!
