use opentelemetry_tracing::opentelemetry_sdk::{
    EventDescriptor, EventExportMode, EventRoute, OTelSampler, OpenTelemetrySdk, ShouldSample,
    SpanId, TraceId,
};

struct Never;

impl ShouldSample for Never {
    fn sampled(&self, _trace_id: TraceId) -> bool {
        false
    }

    fn should_sample(&self, _trace_id: &TraceId) -> bool {
        false
    }
}

struct OddOnly;

impl ShouldSample for OddOnly {
    fn sampled(&self, trace_id: TraceId) -> bool {
        trace_id.0 % 2 == 1
    }

    fn should_sample(&self, trace_id: &TraceId) -> bool {
        trace_id.0 % 2 == 1
    }
}

const HEADER: &str = "262603779606908057216172753575155927278:4855502779463763640:0:1";

fn pair(key: &str, value: &str) -> (String, String) {
    (key.to_string(), value.to_string())
}

fn event(name: &str, parent: Option<u64>, contextual: bool) -> EventDescriptor {
    EventDescriptor {
        name: name.to_string(),
        fields: vec![pair("event_id", "20"), pair("user_name", "otel")],
        parent,
        contextual,
    }
}

fn is_dropped(route: &EventRoute) -> bool {
    matches!(route, EventRoute::Dropped)
}

fn is_span_event(route: &EventRoute, event_name: &str, id: SpanId) -> bool {
    match route {
        EventRoute::SpanEvent { name, fields, span_id } => {
            name == event_name
                && *span_id == id
                && *fields == vec![pair("event_id", "20"), pair("user_name", "otel")]
        }
        _ => false,
    }
}

fn is_log_record(route: &EventRoute, event_name: &str, id: SpanId) -> bool {
    match route {
        EventRoute::LogRecord { name, fields, span_id } => {
            name == event_name
                && *span_id == id
                && *fields == vec![pair("event_id", "20"), pair("user_name", "otel")]
        }
        _ => false,
    }
}

#[test]
fn the_default_sdk_attaches_events_to_spans() {
    let sdk = OpenTelemetrySdk::new();
    assert_eq!(sdk.event_export_mode(), EventExportMode::SpanEvent);
    assert!(!sdk.contains(1));
    assert!(sdk.span(1).is_none());
    let sdk: OpenTelemetrySdk = Default::default();
    assert_eq!(sdk.event_export_mode(), EventExportMode::SpanEvent);
    assert!(!sdk.contains(0));
}

#[test]
fn the_default_sampler_keeps_every_trace() {
    assert!(OTelSampler.should_sample(&TraceId(0)));
    assert!(OTelSampler.should_sample(&TraceId(u128::MAX)));
}

#[test]
fn a_root_and_its_child() {
    let mut sdk = OpenTelemetrySdk::new();
    sdk.on_new_span(1, "A".to_string(), vec![pair("attribute1", "v1")], None);
    let (a_trace, a_span) = {
        let a = sdk.span(1).unwrap();
        assert!(a.is_recording);
        assert_eq!(a.parent_span_id, None);
        assert_eq!(a.name, "A");
        assert_eq!(a.end_time, None);
        assert_eq!(a.attributes.get("attribute1"), Some(&"v1".to_string()));
        (a.trace_id, a.span_id)
    };
    sdk.on_new_span(2, "B".to_string(), Vec::new(), Some(1));
    let b = sdk.span(2).unwrap();
    assert_eq!(b.trace_id, a_trace);
    assert_eq!(b.parent_span_id, Some(a_span));
    assert!(b.is_recording);
    assert_eq!(b.name, "B");
    assert_eq!(b.attributes.len(), 0);
}

#[test]
fn start_span_uses_the_identifiers_given() {
    let mut sdk = OpenTelemetrySdk::new();
    sdk.start_span(
        1,
        "A".to_string(),
        vec![pair("k", "1"), pair("k", "2")],
        None,
        TraceId(100),
        SpanId(10),
        5_000,
    );
    let a = sdk.span(1).unwrap();
    assert_eq!(a.name, "A");
    assert_eq!(a.trace_id, TraceId(100));
    assert_eq!(a.span_id, SpanId(10));
    assert_eq!(a.parent_span_id, None);
    assert_eq!(a.start_time, 5_000);
    assert_eq!(a.end_time, None);
    assert!(a.is_recording);
    assert_eq!(a.attributes.get("k"), Some(&"2".to_string()));
    assert_eq!(a.attributes.len(), 1);

    sdk.start_span(2, "B".to_string(), Vec::new(), Some(1), TraceId(999), SpanId(20), 6_000);
    let b = sdk.span(2).unwrap();
    assert_eq!(b.trace_id, TraceId(100));
    assert_eq!(b.span_id, SpanId(20));
    assert_eq!(b.parent_span_id, Some(SpanId(10)));
    assert_eq!(b.start_time, 6_000);
    assert!(b.is_recording);
}

#[test]
fn a_parent_without_a_live_record_makes_a_root() {
    let mut sdk = OpenTelemetrySdk::new();
    sdk.start_span(2, "B".to_string(), Vec::new(), Some(1), TraceId(999), SpanId(20), 0);
    let b = sdk.span(2).unwrap();
    assert_eq!(b.trace_id, TraceId(999));
    assert_eq!(b.parent_span_id, None);
    assert!(b.is_recording);
}

#[test]
fn a_root_takes_the_decision_of_the_sampler() {
    let mut sdk = OpenTelemetrySdk::with_config(OddOnly, EventExportMode::SpanEvent);
    sdk.start_span(1, "odd".to_string(), Vec::new(), None, TraceId(7), SpanId(1), 0);
    sdk.start_span(2, "even".to_string(), Vec::new(), None, TraceId(8), SpanId(2), 0);
    assert!(sdk.span(1).unwrap().is_recording);
    assert!(!sdk.span(2).unwrap().is_recording);

    let mut sdk = OpenTelemetrySdk::with_config(OddOnly, EventExportMode::SpanEvent);
    for id in 0..32u64 {
        sdk.on_new_span(id, "root".to_string(), Vec::new(), None);
        let span = sdk.span(id).unwrap();
        assert_eq!(span.is_recording, span.trace_id.0 % 2 == 1);
        assert_eq!(span.parent_span_id, None);
    }
}

#[test]
fn a_child_takes_the_decision_of_its_parent() {
    let mut sdk = OpenTelemetrySdk::with_config(OddOnly, EventExportMode::SpanEvent);
    sdk.start_span(1, "even root".to_string(), Vec::new(), None, TraceId(8), SpanId(1), 0);
    sdk.start_span(2, "child".to_string(), Vec::new(), Some(1), TraceId(7), SpanId(2), 0);
    sdk.start_span(3, "grandchild".to_string(), Vec::new(), Some(2), TraceId(7), SpanId(3), 0);
    for id in [2u64, 3] {
        let span = sdk.span(id).unwrap();
        assert!(!span.is_recording);
        assert_eq!(span.trace_id, TraceId(8));
    }
    assert_eq!(sdk.span(3).unwrap().parent_span_id, Some(SpanId(2)));

    let mut sdk = OpenTelemetrySdk::with_config(Never, EventExportMode::SpanEvent);
    sdk.on_new_span(1, "root".to_string(), Vec::new(), None);
    sdk.on_new_span(2, "child".to_string(), Vec::new(), Some(1));
    assert!(!sdk.span(1).unwrap().is_recording);
    assert!(!sdk.span(2).unwrap().is_recording);
    assert_eq!(sdk.span(2).unwrap().trace_id, sdk.span(1).unwrap().trace_id);
}

#[test]
fn record_merges_into_the_attributes() {
    let mut sdk = OpenTelemetrySdk::new();
    sdk.on_new_span(1, "A".to_string(), vec![pair("attribute1", "v1")], None);
    sdk.on_record(1, vec![pair("attribute3", "value3"), pair("attribute1", "again")]);
    let a = sdk.span(1).unwrap();
    assert_eq!(a.attributes.get("attribute1"), Some(&"again".to_string()));
    assert_eq!(a.attributes.get("attribute3"), Some(&"value3".to_string()));
    assert_eq!(a.attributes.len(), 2);
}

#[test]
fn recording_the_same_value_twice_changes_nothing() {
    let mut sdk = OpenTelemetrySdk::new();
    sdk.on_new_span(1, "A".to_string(), vec![pair("a", "1")], None);
    sdk.on_record(1, vec![pair("k", "v")]);
    sdk.on_record(1, vec![pair("k", "v")]);
    let a = sdk.span(1).unwrap();
    assert_eq!(a.attributes.get("k"), Some(&"v".to_string()));
    assert_eq!(a.attributes.get("a"), Some(&"1".to_string()));
    assert_eq!(a.attributes.len(), 2);
}

#[test]
fn record_on_a_missing_span_does_nothing() {
    let mut sdk = OpenTelemetrySdk::new();
    sdk.on_new_span(1, "A".to_string(), Vec::new(), None);
    sdk.on_record(9, vec![pair("k", "v")]);
    assert!(!sdk.contains(9));
    assert!(sdk.contains(1));
    assert_eq!(sdk.span(1).unwrap().attributes.len(), 0);
}

#[test]
fn close_removes_the_record_and_stamps_the_end() {
    let mut sdk = OpenTelemetrySdk::new();
    sdk.on_new_span(1, "A".to_string(), vec![pair("k", "v")], None);
    let done = sdk.on_close(1);
    assert!(!sdk.contains(1));
    assert!(done.export);
    assert!(done.span.is_recording);
    assert_eq!(done.span.name, "A");
    assert_eq!(done.span.attributes.get("k"), Some(&"v".to_string()));
    let end = done.span.end_time.unwrap();
    assert!(end >= done.span.start_time);
}

#[test]
fn close_span_ends_at_the_time_given() {
    let mut sdk = OpenTelemetrySdk::new();
    sdk.start_span(1, "A".to_string(), Vec::new(), None, TraceId(1), SpanId(1), 1_000);
    sdk.start_span(2, "B".to_string(), Vec::new(), None, TraceId(2), SpanId(2), 1_000);
    let a = sdk.close_span(1, 3_000);
    assert_eq!(a.span.end_time, Some(3_000));
    assert_eq!(a.span.start_time, 1_000);
    assert_eq!(a.span.trace_id, TraceId(1));
    let b = sdk.close_span(2, 10);
    assert_eq!(b.span.end_time, Some(1_000));
    assert!(!sdk.contains(1));
    assert!(!sdk.contains(2));
}

#[test]
fn only_a_sampled_span_goes_to_the_exporter() {
    let mut sdk = OpenTelemetrySdk::with_config(OddOnly, EventExportMode::SpanEvent);
    sdk.start_span(1, "odd".to_string(), Vec::new(), None, TraceId(7), SpanId(1), 0);
    sdk.start_span(2, "even".to_string(), Vec::new(), None, TraceId(8), SpanId(2), 0);
    let odd = sdk.close_span(1, 1);
    let even = sdk.close_span(2, 1);
    assert!(odd.export);
    assert!(!even.export);
    assert_eq!(even.span.name, "even");
    assert_eq!(even.span.end_time, Some(1));
}

#[test]
fn a_child_keeps_its_identity_when_the_parent_closes_first() {
    let mut sdk = OpenTelemetrySdk::new();
    sdk.on_new_span(1, "A".to_string(), Vec::new(), None);
    sdk.on_new_span(2, "B".to_string(), Vec::new(), Some(1));
    let a = sdk.on_close(1);
    assert!(!sdk.contains(1));
    {
        let b = sdk.span(2).unwrap();
        assert_eq!(b.trace_id, a.span.trace_id);
        assert_eq!(b.parent_span_id, Some(a.span.span_id));
        assert_eq!(b.is_recording, a.span.is_recording);
    }
    let b = sdk.on_close(2);
    assert_eq!(b.span.trace_id, a.span.trace_id);
    assert_eq!(b.span.parent_span_id, Some(a.span.span_id));
    assert!(b.span.end_time.unwrap() >= b.span.start_time);
}

#[test]
fn a_key_can_be_used_again_after_close() {
    let mut sdk = OpenTelemetrySdk::new();
    sdk.start_span(1, "first".to_string(), Vec::new(), None, TraceId(1), SpanId(1), 0);
    sdk.close_span(1, 1);
    sdk.start_span(1, "second".to_string(), Vec::new(), None, TraceId(2), SpanId(2), 2);
    assert_eq!(sdk.span(1).unwrap().name, "second");
    assert_eq!(sdk.span(1).unwrap().trace_id, TraceId(2));
}

#[test]
fn a_remote_parent_reaches_every_descendant() {
    let mut sdk = OpenTelemetrySdk::new();
    sdk.on_new_span(1, "X".to_string(), Vec::new(), None);
    sdk.on_new_span(9, "unrelated".to_string(), Vec::new(), None);
    let own_span_id = sdk.span(1).unwrap().span_id;
    sdk.set_remote_parent(1, HEADER);
    {
        let x = sdk.span(1).unwrap();
        assert_eq!(x.trace_id, TraceId(262603779606908057216172753575155927278));
        assert_eq!(x.parent_span_id, Some(SpanId(4855502779463763640)));
        assert_eq!(x.span_id, own_span_id);
        assert!(x.is_recording);
    }
    sdk.on_new_span(2, "child".to_string(), Vec::new(), Some(1));
    sdk.on_new_span(3, "grandchild".to_string(), Vec::new(), Some(2));
    sdk.on_record(2, vec![pair("k", "v")]);
    sdk.on_close(1);
    sdk.on_new_span(4, "great-grandchild".to_string(), Vec::new(), Some(3));
    for id in [2u64, 3, 4] {
        assert_eq!(
            sdk.span(id).unwrap().trace_id,
            TraceId(262603779606908057216172753575155927278)
        );
    }
    assert_eq!(sdk.span(2).unwrap().parent_span_id, Some(own_span_id));
    assert_ne!(
        sdk.span(9).unwrap().trace_id,
        TraceId(262603779606908057216172753575155927278)
    );
}

#[test]
fn a_malformed_remote_parent_gives_the_zero_pair() {
    let mut sdk = OpenTelemetrySdk::new();
    sdk.start_span(1, "X".to_string(), Vec::new(), None, TraceId(5), SpanId(6), 0);
    sdk.set_remote_parent(1, "garbage");
    let x = sdk.span(1).unwrap();
    assert_eq!(x.trace_id, TraceId(0));
    assert_eq!(x.parent_span_id, Some(SpanId(0)));
    assert_eq!(x.span_id, SpanId(6));
}

#[test]
fn a_remote_parent_for_a_missing_span_does_nothing() {
    let mut sdk = OpenTelemetrySdk::new();
    sdk.start_span(1, "X".to_string(), Vec::new(), None, TraceId(5), SpanId(6), 0);
    sdk.set_remote_parent(2, HEADER);
    assert!(!sdk.contains(2));
    assert_eq!(sdk.span(1).unwrap().trace_id, TraceId(5));
    assert_eq!(sdk.span(1).unwrap().parent_span_id, None);
}

#[test]
fn span_events_are_gated_by_sampling() {
    let mut sdk = OpenTelemetrySdk::with_config(OddOnly, EventExportMode::SpanEvent);
    sdk.start_span(1, "sampled".to_string(), Vec::new(), None, TraceId(7), SpanId(70), 0);
    sdk.start_span(2, "unsampled".to_string(), Vec::new(), None, TraceId(8), SpanId(80), 0);
    let route = sdk.on_event(event("e", None, true), Some(1));
    assert!(is_span_event(&route, "e", SpanId(70)));
    let route = sdk.on_event(event("e", None, true), Some(2));
    assert!(is_dropped(&route));
    let route = sdk.on_event(event("e", Some(2), false), Some(1));
    assert!(is_dropped(&route));
}

#[test]
fn log_records_are_not_gated_by_sampling() {
    let mut sdk = OpenTelemetrySdk::with_config(OddOnly, EventExportMode::LogRecord);
    assert_eq!(sdk.event_export_mode(), EventExportMode::LogRecord);
    sdk.start_span(1, "sampled".to_string(), Vec::new(), None, TraceId(7), SpanId(70), 0);
    sdk.start_span(2, "unsampled".to_string(), Vec::new(), None, TraceId(8), SpanId(80), 0);
    let route = sdk.on_event(event("my-event-name", None, true), Some(2));
    assert!(is_log_record(&route, "my-event-name", SpanId(80)));
    let route = sdk.on_event(event("my-event-name", None, true), Some(1));
    assert!(is_log_record(&route, "my-event-name", SpanId(70)));
}

#[test]
fn an_event_goes_to_the_parent_it_names() {
    let mut sdk = OpenTelemetrySdk::new();
    sdk.start_span(1, "A".to_string(), Vec::new(), None, TraceId(1), SpanId(10), 0);
    sdk.start_span(2, "B".to_string(), Vec::new(), None, TraceId(2), SpanId(20), 0);
    let route = sdk.on_event(event("e", Some(2), false), Some(1));
    assert!(is_span_event(&route, "e", SpanId(20)));
    let route = sdk.on_event(event("e", Some(2), true), Some(1));
    assert!(is_span_event(&route, "e", SpanId(20)));
    let route = sdk.on_event(event("e", Some(2), false), None);
    assert!(is_span_event(&route, "e", SpanId(20)));
}

#[test]
fn a_contextual_event_goes_to_the_current_span() {
    let mut sdk = OpenTelemetrySdk::new();
    sdk.start_span(1, "A".to_string(), Vec::new(), None, TraceId(1), SpanId(10), 0);
    let route = sdk.on_event(event("e", None, true), Some(1));
    assert!(is_span_event(&route, "e", SpanId(10)));
    let route = sdk.on_event(event("e", Some(5), true), Some(1));
    assert!(is_span_event(&route, "e", SpanId(10)));
}

#[test]
fn an_event_without_an_owner_is_dropped() {
    let mut sdk = OpenTelemetrySdk::with_config(OTelSampler, EventExportMode::LogRecord);
    sdk.start_span(1, "A".to_string(), Vec::new(), None, TraceId(1), SpanId(10), 0);
    assert!(is_dropped(&sdk.on_event(event("e", None, false), Some(1))));
    assert!(is_dropped(&sdk.on_event(event("e", None, true), None)));
    assert!(is_dropped(&sdk.on_event(event("e", None, true), Some(3))));
    assert!(is_dropped(&sdk.on_event(event("e", Some(3), false), Some(1))));
    assert!(is_dropped(&sdk.on_event(event("e", None, false), None)));
    sdk.close_span(1, 1);
    assert!(is_dropped(&sdk.on_event(event("e", Some(1), true), Some(1))));
}

#[test]
fn the_sdk_writes_the_propagation_header_of_a_span() {
    let mut sdk = OpenTelemetrySdk::with_config(OddOnly, EventExportMode::SpanEvent);
    sdk.start_span(1, "A".to_string(), Vec::new(), None, TraceId(7), SpanId(70), 0);
    sdk.start_span(2, "B".to_string(), Vec::new(), Some(1), TraceId(0), SpanId(71), 0);
    sdk.start_span(3, "C".to_string(), Vec::new(), None, TraceId(8), SpanId(80), 0);
    assert_eq!(sdk.extract_jaeger_propagation(1), "7:70:0:1");
    assert_eq!(sdk.extract_jaeger_propagation(2), "7:71:70:1");
    assert_eq!(sdk.extract_jaeger_propagation(3), "8:80:0:0");
    assert_eq!(sdk.extract_jaeger_propagation(4), "0:0:0:1");
}

#[test]
fn a_header_carries_the_trace_to_another_sdk() {
    let mut client = OpenTelemetrySdk::new();
    client.on_new_span(1, "request".to_string(), Vec::new(), None);
    let header = client.extract_jaeger_propagation(1);
    let mut server = OpenTelemetrySdk::new();
    server.on_new_span(1, "handler".to_string(), Vec::new(), None);
    server.set_remote_parent(1, &header);
    server.on_new_span(2, "inner".to_string(), Vec::new(), Some(1));
    let request = client.span(1).unwrap();
    assert_eq!(server.span(1).unwrap().trace_id, request.trace_id);
    assert_eq!(server.span(1).unwrap().parent_span_id, Some(request.span_id));
    assert_eq!(server.span(2).unwrap().trace_id, request.trace_id);
}

#[test]
fn with_otel_span_reads_a_live_record() {
    let mut sdk = OpenTelemetrySdk::new();
    sdk.start_span(1, "A".to_string(), Vec::new(), None, TraceId(7), SpanId(70), 0);
    let trace: TraceId = sdk.with_otel_span(1, |span| Some(span.trace_id));
    assert_eq!(trace, TraceId(7));
    let parent: SpanId = sdk.with_otel_span(1, |span| span.parent_span_id);
    assert_eq!(parent, SpanId(0));
    let missing: TraceId = sdk.with_otel_span(2, |span| Some(span.trace_id));
    assert_eq!(missing, TraceId(0));
}
