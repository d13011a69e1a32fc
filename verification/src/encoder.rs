//! Encoding of events.
//!
//! Events become OTLP Protobuf messages: one resource for all events that tell the same of it, and
//! one for each event that tells nothing, in the order in which the resources came first.
use vstd::prelude::*;
use vstd::string::*;
use crate::config::OpenTelemetryConfig;
use crate::convert::{convert_object_map_to_key_value_vec, key_values_of};
use crate::encode::Message;
use crate::event::{fields_of, without_field, Event, LogEvent, SpecEvent, SpecLogEvent};
use crate::fields::{object_at, object_or_empty};
use crate::groups::{add_to_groups, groups, Group, SpecGroup, Told};
use crate::logs::log_record_of;
use crate::metric::{Metric, SpecMetric, SpecMetricValue};
use crate::metrics::{convert_vector_metric_to_otlp, otlp_metric_of, OtlpMetricNormalize};
use crate::proto::{
    ExportLogsServiceRequest, ExportMetricsServiceRequest, ExportTraceServiceRequest, KeyValue,
    LogRecord, OtlpMetric, Resource, ResourceLogs, ResourceMetrics, ResourceSpans, ScopeLogs,
    ScopeMetrics, ScopeSpans, Span, SpecKeyValue, SpecLogRecord, SpecOtlpMetric, SpecResource,
    SpecResourceLogs, SpecResourceMetrics, SpecResourceSpans, SpecScopeLogs, SpecScopeMetrics,
    SpecScopeSpans, SpecSpan,
};
use crate::resource::{resource_tags, trace_resource_attributes, ResourceAttributeExtractor};
use crate::settings::{
    applied, no_settings, settings_of, ResourceSettings, SpecResourceSettings,
};
use crate::severity::{
    extract_severity, has_own_severity, severity_told, tells_severity, without_severity,
};
use crate::totals::{normalized, totals_from, MetricSet, SpecSeries};
use crate::traces::{convert_vector_trace_to_otlp_span, span_of};
use crate::value::{SpecValue, Value};
use crate::views::{group_views, views};
use crate::wire::message_bytes;

verus! {

broadcast use group_views;

/// The encoder for OTLP, which converts batches of events into Protobuf payloads.
#[derive(Clone, Debug)]
pub struct OtlpEncoder {
    /// What the configuration says of all resources.
    pub settings: ResourceSettings,
}

/// A resource with the given attributes, none of which were dropped.
pub open spec fn resource_with(attributes: Seq<SpecKeyValue>) -> SpecResource {
    SpecResource { attributes, dropped_attributes_count: 0 }
}

/// The attributes of the resource of a log event: the entries of the object under `resource`, then
/// those of the object under `resources`.
pub open spec fn log_resource_attributes(log: SpecLogEvent) -> Seq<SpecKeyValue> {
    key_values_of(object_or_empty(fields_of(log.root), "resource"@)) + key_values_of(
        object_or_empty(fields_of(log.root), "resources"@),
    )
}

/// A log event without what tells of its resource: the field `resources`, and the field `resource`
/// where it is an object.
pub open spec fn without_resource(log: SpecLogEvent) -> SpecLogEvent {
    let root = without_field(log.root, "resources"@);
    if object_at(fields_of(log.root), "resource"@) is Some {
        log.with_root(without_field(root, "resource"@))
    } else {
        log.with_root(root)
    }
}

/// The log record of a log event. Where the event does not tell its severity in the words of the
/// protocol, the severity is what its other fields tell.
pub open spec fn record_of(log: SpecLogEvent) -> SpecLogRecord {
    let severity = severity_told(fields_of(log.root));
    if tells_severity(fields_of(log.root)) {
        log_record_of(log)
    } else {
        SpecLogRecord {
            severity_number: severity.number,
            severity_text: severity.text,
            ..log_record_of(without_severity(log))
        }
    }
}

/// A log event as it is grouped: its record, with the attributes of its resource. An event that
/// tells nothing of its resource is alone.
pub open spec fn told_log(settings: SpecResourceSettings, log: SpecLogEvent) -> Told<
    SpecLogRecord,
> {
    Told {
        alone: log_resource_attributes(log).len() == 0,
        attributes: applied(settings, log_resource_attributes(log)),
        item: record_of(without_resource(log)),
    }
}

/// The log records of one resource.
pub open spec fn resource_logs_of(group: SpecGroup<SpecLogRecord>) -> SpecResourceLogs {
    SpecResourceLogs {
        resource: Some(resource_with(group.attributes)),
        scope_logs: seq![SpecScopeLogs { log_records: group.items, schema_url: Seq::empty() }],
        schema_url: Seq::empty(),
    }
}

/// The attributes that the tags of a metric tell of its resource.
pub open spec fn metric_resource_attributes(metric: SpecMetric) -> Seq<SpecKeyValue> {
    match metric.tags {
        Some(tags) => resource_tags(tags),
        None => Seq::empty(),
    }
}

/// A metric as it is grouped: what it is sent as, with the attributes of its resource. A metric that
/// tells nothing of its resource is alone.
pub open spec fn told_metric(settings: SpecResourceSettings, metric: SpecMetric) -> Told<
    SpecOtlpMetric,
> {
    Told {
        alone: metric_resource_attributes(metric).len() == 0,
        attributes: applied(settings, metric_resource_attributes(metric)),
        item: otlp_metric_of(metric),
    }
}

/// The metrics of one resource.
pub open spec fn resource_metrics_of(group: SpecGroup<SpecOtlpMetric>) -> SpecResourceMetrics {
    SpecResourceMetrics {
        resource: Some(resource_with(group.attributes)),
        scope_metrics: seq![SpecScopeMetrics { metrics: group.items, schema_url: Seq::empty() }],
        schema_url: Seq::empty(),
    }
}

/// A trace event as it is grouped: its span, with the attributes of its resource, those of the
/// nested object before those that the fields tell. An event that tells nothing of its resource is
/// alone.
pub open spec fn told_trace(
    settings: SpecResourceSettings,
    fields: Seq<(Seq<char>, SpecValue)>,
) -> Told<SpecSpan> {
    Told {
        alone: trace_resource_attributes(fields).len() == 0,
        attributes: applied(settings, trace_resource_attributes(fields)),
        item: span_of(fields),
    }
}

/// The spans of one resource.
pub open spec fn resource_spans_of(group: SpecGroup<SpecSpan>) -> SpecResourceSpans {
    SpecResourceSpans {
        resource: Some(resource_with(group.attributes)),
        scope_spans: seq![SpecScopeSpans { spans: group.items, schema_url: Seq::empty() }],
        schema_url: Seq::empty(),
    }
}

/// Whether all events are logs.
pub open spec fn all_logs(events: Seq<SpecEvent>) -> bool {
    forall|i: int| 0 <= i < events.len() ==> (#[trigger] events[i]) is Log
}

/// Whether all events are metrics.
pub open spec fn all_metrics(events: Seq<SpecEvent>) -> bool {
    forall|i: int| 0 <= i < events.len() ==> (#[trigger] events[i]) is Metric
}

/// Whether all events are traces.
pub open spec fn all_traces(events: Seq<SpecEvent>) -> bool {
    forall|i: int| 0 <= i < events.len() ==> (#[trigger] events[i]) is Trace
}

/// Logs as they are grouped.
pub open spec fn told_logs(settings: SpecResourceSettings, events: Seq<SpecEvent>) -> Seq<
    Told<SpecLogRecord>,
> {
    Seq::new(events.len(), |i: int| told_log(settings, events[i]->Log_0))
}

/// The metrics of events, as totals.
pub open spec fn totals_in(
    totals: Seq<(SpecSeries, SpecMetricValue)>,
    events: Seq<SpecEvent>,
) -> Seq<SpecMetric> {
    normalized(totals, metrics_in(events))
}

/// The metrics of events.
pub open spec fn metrics_in(events: Seq<SpecEvent>) -> Seq<SpecMetric> {
    Seq::new(events.len(), |i: int| events[i]->Metric_0)
}

/// Metrics as they are grouped.
pub open spec fn told_metrics(
    settings: SpecResourceSettings,
    totals: Seq<(SpecSeries, SpecMetricValue)>,
    events: Seq<SpecEvent>,
) -> Seq<Told<SpecOtlpMetric>> {
    Seq::new(events.len(), |i: int| told_metric(settings, totals_in(totals, events)[i]))
}

/// Traces as they are grouped.
pub open spec fn told_traces(settings: SpecResourceSettings, events: Seq<SpecEvent>) -> Seq<
    Told<SpecSpan>,
> {
    Seq::new(events.len(), |i: int| told_trace(settings, events[i]->Trace_0))
}

/// The resources of groups of log records.
pub open spec fn all_resource_logs(all: Seq<SpecGroup<SpecLogRecord>>) -> Seq<SpecResourceLogs> {
    Seq::new(all.len(), |i: int| resource_logs_of(all[i]))
}

/// The resources of groups of metrics.
pub open spec fn all_resource_metrics(all: Seq<SpecGroup<SpecOtlpMetric>>) -> Seq<
    SpecResourceMetrics,
> {
    Seq::new(all.len(), |i: int| resource_metrics_of(all[i]))
}

/// The resources of groups of spans.
pub open spec fn all_resource_spans(all: Seq<SpecGroup<SpecSpan>>) -> Seq<SpecResourceSpans> {
    Seq::new(all.len(), |i: int| resource_spans_of(all[i]))
}

/// The request that exports logs: one resource for each that the events tell, with the records of
/// its events, and one for each event that tells none.
pub open spec fn logs_request(
    settings: SpecResourceSettings,
    events: Seq<SpecEvent>,
) -> Seq<SpecResourceLogs> {
    all_resource_logs(groups(told_logs(settings, events)))
}

/// The request that exports metrics, as totals that count on from `totals`: one resource for each that the events tell, with the metrics
/// of its events, and one for each metric that tells none.
pub open spec fn metrics_request(
    settings: SpecResourceSettings,
    totals: Seq<(SpecSeries, SpecMetricValue)>,
    events: Seq<SpecEvent>,
) -> Seq<SpecResourceMetrics> {
    all_resource_metrics(groups(told_metrics(settings, totals, events)))
}

/// The request that exports traces: one resource for each that the events tell, with the spans of
/// its events, and one for each event that tells none.
pub open spec fn traces_request(
    settings: SpecResourceSettings,
    events: Seq<SpecEvent>,
) -> Seq<SpecResourceSpans> {
    all_resource_spans(groups(told_traces(settings, events)))
}

/// The payload for logs.
pub open spec fn logs_payload(
    settings: SpecResourceSettings,
    events: Seq<SpecEvent>,
) -> Seq<u8> {
    message_bytes(ExportLogsServiceRequest::fields_of(logs_request(settings, events)))
}

/// The payload for metrics, as totals that count on from `totals`.
pub open spec fn metrics_payload(
    settings: SpecResourceSettings,
    totals: Seq<(SpecSeries, SpecMetricValue)>,
    events: Seq<SpecEvent>,
) -> Seq<u8> {
    message_bytes(
        ExportMetricsServiceRequest::fields_of(metrics_request(settings, totals, events)),
    )
}

/// The payload for traces.
pub open spec fn traces_payload(
    settings: SpecResourceSettings,
    events: Seq<SpecEvent>,
) -> Seq<u8> {
    message_bytes(ExportTraceServiceRequest::fields_of(traces_request(settings, events)))
}

/// Whether all events are of one kind.
pub open spec fn same_kind(events: Seq<SpecEvent>) -> bool {
    all_logs(events) || all_metrics(events) || all_traces(events)
}

/// The payload for events of one kind; empty where there are none.
pub open spec fn payload_of(
    settings: SpecResourceSettings,
    totals: Seq<(SpecSeries, SpecMetricValue)>,
    events: Seq<SpecEvent>,
) -> Seq<u8> {
    if events.len() == 0 {
        Seq::empty()
    } else {
        match events[0] {
            SpecEvent::Log(_) => logs_payload(settings, events),
            SpecEvent::Metric(_) => metrics_payload(settings, totals, events),
            SpecEvent::Trace(_) => traces_payload(settings, events),
        }
    }
}

/// The totals of changes after a batch of events of one kind: only metrics tell changes.
pub open spec fn totals_after_batch(
    totals: Seq<(SpecSeries, SpecMetricValue)>,
    events: Seq<SpecEvent>,
) -> Seq<(SpecSeries, SpecMetricValue)> {
    if events.len() > 0 && events[0] is Metric {
        totals_from(totals, metrics_in(events))
    } else {
        totals
    }
}

impl OtlpEncoder {
    /// Creates a new `OtlpEncoder`.
    pub fn new(config: &OpenTelemetryConfig) -> (encoder: Self)
        ensures
            encoder.settings@ == settings_of(config.otlp),
    {
        OtlpEncoder { settings: ResourceSettings::new(&config.otlp) }
    }

    /// Creates a new `OtlpEncoder` without a configuration.
    pub fn new_default() -> (encoder: Self)
        ensures
            encoder.settings@ == no_settings(),
    {
        OtlpEncoder { settings: ResourceSettings::none() }
    }

    /// Encodes a batch of log events into an `ExportLogsServiceRequest` message.
    pub fn encode_logs(&self, events: Vec<Event>) -> (payload: Result<Vec<u8>, ()>)
        requires
            all_logs(views(events@)),
        ensures
            payload matches Ok(bytes) && bytes@ == logs_payload(self.settings@, views(events@)),
    {
        let ghost all = views(events@);
        let ghost told = told_logs(self.settings@, all);
        let mut grouped: Vec<Group<LogRecord>> = Vec::new();
        assert(groups(told.take(0)) =~= Seq::empty());
        for event in iter: events
            invariant
                iter.seq() == events@,
                all == views(events@),
                told == told_logs(self.settings@, all),
                all_logs(all),
                views(grouped@) == groups(told.take(iter.index() as int)),
        {
            let ghost i = iter.index() as int;
            assert(all[i] == event@);
            if let Event::Log(log) = event {
                let (alone, attributes, record) = self.convert_log(log);
                grouped = add_to_groups(grouped, alone, attributes, record, Ghost(told.take(i)));
            }
            assert(told.take(i + 1) =~= told.take(i).push(told[i]));
        }
        assert(told.take(told.len() as int) =~= told);
        let mut resource_logs: Vec<ResourceLogs> = Vec::new();
        let ghost request = logs_request(self.settings@, all);
        for group in iter: grouped
            invariant
                iter.seq() == grouped@,
                request == all_resource_logs(views(grouped@)),
                views(resource_logs@) == request.take(iter.index() as int),
        {
            let ghost i = iter.index() as int;
            assert(views(grouped@)[i] == group@);
            let mut scope_logs: Vec<ScopeLogs> = Vec::new();
            scope_logs.push(self.create_scope_logs(group.items));
            resource_logs.push(
                ResourceLogs {
                    resource: Some(
                        Resource { attributes: group.attributes, dropped_attributes_count: 0 },
                    ),
                    scope_logs,
                    schema_url: String::new(),
                },
            );
            assert(views(scope_logs@) =~= request[i].scope_logs);
            assert(views(resource_logs@) =~= request.take(i + 1));
        }
        assert(views(resource_logs@) =~= request);
        let message = ExportLogsServiceRequest { resource_logs };
        Ok(message.write().finish())
    }

    /// Converts a log event into the attributes of its resource and a log record, and tells whether
    /// it is alone.
    fn convert_log(&self, log: LogEvent) -> (converted: (bool, Vec<KeyValue>, LogRecord))
        ensures
            converted.0 == told_log(self.settings@, log@).alone,
            views(converted.1@) == told_log(self.settings@, log@).attributes,
            converted.2@ == told_log(self.settings@, log@).item,
    {
        let mut log = log;
        // The resource comes out before the rest becomes a log record
        let mut told = log.extract_nested_resource_attributes();
        let nested = match log.as_map() {
            Some(fields) => fields.get_object("resource").is_some(),
            None => false,
        };
        let ghost event = log@;
        let resources = log.remove("resources");
        if let Some(Value::Object(map)) = &resources {
            let mut more = convert_object_map_to_key_value_vec(map);
            told.append(&mut more);
        }
        proof {
            assert(key_values_of(Seq::empty()) =~= Seq::empty());
            assert(views(told@) =~= log_resource_attributes(event));
        }
        if nested {
            let _ = log.remove("resource");
        }
        let alone = told.len() == 0;
        let attributes = self.settings.apply(told);
        if has_own_severity(&log) {
            return (alone, attributes, self.convert_log_event_to_log_record(log));
        }
        let (severity_number, severity_text) = extract_severity(&mut log);
        let record = self.convert_log_event_to_log_record(log);
        (alone, attributes, LogRecord { severity_number, severity_text, ..record })
    }

    fn create_scope_logs(&self, log_records: Vec<LogRecord>) -> (scope: ScopeLogs)
        ensures
            scope@ == (SpecScopeLogs {
                log_records: views(log_records@),
                schema_url: Seq::empty(),
            }),
    {
        ScopeLogs { log_records, schema_url: String::new() }
    }

    /// Encodes a batch of metric events into an `ExportMetricsServiceRequest` message. Changes are
    /// added to the totals in `state`, which holds the new totals afterwards.
    pub fn encode_metrics(&self, state: &mut MetricSet, events: Vec<Event>) -> (payload: Result<
        Vec<u8>,
        (),
    >)
        requires
            all_metrics(views(events@)),
        ensures
            payload matches Ok(bytes) && bytes@ == metrics_payload(
                self.settings@,
                old(state)@,
                views(events@),
            ),
            final(state)@ == totals_from(old(state)@, metrics_in(views(events@))),
    {
        let ghost totals = state@;
        let ghost all = views(events@);
        let ghost metrics = metrics_in(all);
        let ghost told = told_metrics(self.settings@, totals, all);
        let normalizer = OtlpMetricNormalize {  };
        let mut grouped: Vec<Group<OtlpMetric>> = Vec::new();
        assert(groups(told.take(0)) =~= Seq::empty());
        for event in iter: events
            invariant
                iter.seq() == events@,
                all == views(events@),
                metrics == metrics_in(all),
                told == told_metrics(self.settings@, totals, all),
                all_metrics(all),
                state@ == totals_from(totals, metrics.take(iter.index() as int)),
                views(grouped@) == groups(told.take(iter.index() as int)),
        {
            let ghost i = iter.index() as int;
            assert(all[i] == event@);
            assert(metrics.take(i + 1).drop_last() =~= metrics.take(i));
            if let Event::Metric(metric) = event {
                if let Some(total) = normalizer.normalize(state, metric) {
                    let (alone, attributes, converted) = self.convert_metric(total);
                    grouped =
                    add_to_groups(grouped, alone, attributes, converted, Ghost(told.take(i)));
                }
            }
            assert(told.take(i + 1) =~= told.take(i).push(told[i]));
        }
        assert(told.take(told.len() as int) =~= told);
        assert(metrics.take(metrics.len() as int) =~= metrics);
        let mut resource_metrics: Vec<ResourceMetrics> = Vec::new();
        let ghost request = metrics_request(self.settings@, totals, all);
        for group in iter: grouped
            invariant
                iter.seq() == grouped@,
                request == all_resource_metrics(views(grouped@)),
                views(resource_metrics@) == request.take(iter.index() as int),
        {
            let ghost i = iter.index() as int;
            assert(views(grouped@)[i] == group@);
            let mut scope_metrics: Vec<ScopeMetrics> = Vec::new();
            scope_metrics.push(self.create_scope_metrics(group.items));
            resource_metrics.push(
                ResourceMetrics {
                    resource: Some(
                        Resource { attributes: group.attributes, dropped_attributes_count: 0 },
                    ),
                    scope_metrics,
                    schema_url: String::new(),
                },
            );
            assert(views(scope_metrics@) =~= request[i].scope_metrics);
            assert(views(resource_metrics@) =~= request.take(i + 1));
        }
        assert(views(resource_metrics@) =~= request);
        let message = ExportMetricsServiceRequest { resource_metrics };
        Ok(message.write().finish())
    }

    /// Converts a metric into the attributes of its resource and a protocol metric, and tells
    /// whether it is alone.
    fn convert_metric(&self, metric: Metric) -> (converted: (bool, Vec<KeyValue>, OtlpMetric))
        ensures
            converted.0 == told_metric(self.settings@, metric@).alone,
            views(converted.1@) == told_metric(self.settings@, metric@).attributes,
            converted.2@ == told_metric(self.settings@, metric@).item,
    {
        let mut metric = metric;
        let told = metric.extract_all_resource_attributes();
        assert(Seq::<SpecKeyValue>::empty() + metric.flat_resource_attributes()
            =~= metric.flat_resource_attributes());
        let alone = told.len() == 0;
        let attributes = self.settings.apply(told);
        (alone, attributes, convert_vector_metric_to_otlp(&metric))
    }

    /// Encodes a batch of trace events into an `ExportTraceServiceRequest` message.
    pub fn encode_traces(&self, events: Vec<Event>) -> (payload: Result<Vec<u8>, ()>)
        requires
            all_traces(views(events@)),
        ensures
            payload matches Ok(bytes) && bytes@ == traces_payload(self.settings@, views(events@)),
    {
        let ghost all = views(events@);
        let ghost told = told_traces(self.settings@, all);
        let mut grouped: Vec<Group<Span>> = Vec::new();
        assert(groups(told.take(0)) =~= Seq::empty());
        for event in iter: events
            invariant
                iter.seq() == events@,
                all == views(events@),
                told == told_traces(self.settings@, all),
                all_traces(all),
                views(grouped@) == groups(told.take(iter.index() as int)),
        {
            let ghost i = iter.index() as int;
            assert(all[i] == event@);
            if let Event::Trace(trace) = event {
                let mut trace = trace;
                let from_event = trace.extract_all_resource_attributes();
                let alone = from_event.len() == 0;
                let attributes = self.settings.apply(from_event);
                let span = convert_vector_trace_to_otlp_span(&trace);
                grouped = add_to_groups(grouped, alone, attributes, span, Ghost(told.take(i)));
            }
            assert(told.take(i + 1) =~= told.take(i).push(told[i]));
        }
        assert(told.take(told.len() as int) =~= told);
        let mut resource_spans: Vec<ResourceSpans> = Vec::new();
        let ghost request = traces_request(self.settings@, all);
        for group in iter: grouped
            invariant
                iter.seq() == grouped@,
                request == all_resource_spans(views(grouped@)),
                views(resource_spans@) == request.take(iter.index() as int),
        {
            let ghost i = iter.index() as int;
            assert(views(grouped@)[i] == group@);
            let mut scope_spans: Vec<ScopeSpans> = Vec::new();
            scope_spans.push(self.create_scope_spans(group.items));
            resource_spans.push(
                ResourceSpans {
                    resource: Some(
                        Resource { attributes: group.attributes, dropped_attributes_count: 0 },
                    ),
                    scope_spans,
                    schema_url: String::new(),
                },
            );
            assert(views(scope_spans@) =~= request[i].scope_spans);
            assert(views(resource_spans@) =~= request.take(i + 1));
        }
        assert(views(resource_spans@) =~= request);
        let message = ExportTraceServiceRequest { resource_spans };
        Ok(message.write().finish())
    }

    fn create_scope_metrics(&self, metrics: Vec<OtlpMetric>) -> (scope: ScopeMetrics)
        ensures
            scope@ == (SpecScopeMetrics { metrics: views(metrics@), schema_url: Seq::empty() }),
    {
        ScopeMetrics { metrics, schema_url: String::new() }
    }

    fn create_scope_spans(&self, spans: Vec<Span>) -> (scope: ScopeSpans)
        ensures
            scope@ == (SpecScopeSpans { spans: views(spans@), schema_url: Seq::empty() }),
    {
        ScopeSpans { spans, schema_url: String::new() }
    }

    /// Encodes a batch of events of one kind. The kind of the first event decides how the batch is
    /// encoded; no events make no bytes.
    /// Changes that metrics tell are added to the totals in `state`.
    pub fn encode_input(&self, state: &mut MetricSet, events: Vec<Event>) -> (payload: Vec<u8>)
        requires
            same_kind(views(events@)),
        ensures
            payload@ == payload_of(self.settings@, old(state)@, views(events@)),
            final(state)@ == totals_after_batch(old(state)@, views(events@)),
    {
        if events.len() == 0 {
            return Vec::new();
        }
        let ghost all = views(events@);
        assert(all[0] == events@[0]@);
        let result = match &events[0] {
            Event::Log(_) => self.encode_logs(events),
            Event::Metric(_) => self.encode_metrics(state, events),
            Event::Trace(_) => self.encode_traces(events),
        };
        match result {
            Ok(payload) => payload,
            Err(()) => Vec::new(),
        }
    }
}

}
