//! The messages of the OpenTelemetry protocol that this sink writes.
//!
//! Each message has a model, whose name starts with `Spec`: what the message says, over sequences
//! and numbers. No message of this sink names an instrumentation scope or holds exemplars, so these
//! fields have no place here.
use vstd::prelude::*;
use crate::value::Double;
use crate::views::{view_option, views};

verus! {

/// A value of any kind; without a kind, the value is empty.
#[derive(Debug)]
pub struct AnyValue {
    pub value: Option<PbValue>,
}

/// The kinds of values.
#[derive(Debug)]
pub enum PbValue {
    StringValue(String),
    BoolValue(bool),
    IntValue(i64),
    DoubleValue(Double),
    ArrayValue(ArrayValue),
    KvlistValue(KeyValueList),
    BytesValue(Vec<u8>),
}

/// A list of values.
#[derive(Debug)]
pub struct ArrayValue {
    pub values: Vec<AnyValue>,
}

/// A list of keys with their values.
#[derive(Debug)]
pub struct KeyValueList {
    pub values: Vec<KeyValue>,
}

/// A key with its value.
#[derive(Debug)]
pub struct KeyValue {
    pub key: String,
    pub value: Option<AnyValue>,
}

/// What an `AnyValue` says.
#[verifier::ext_equal]
pub enum SpecAnyValue {
    Empty,
    Text(Seq<char>),
    Truth(bool),
    Number(i64),
    Real(Double),
    List(Seq<SpecAnyValue>),
    Pairs(Seq<SpecKeyValue>),
    Binary(Seq<u8>),
}

/// What a `KeyValue` says.
#[verifier::ext_equal]
pub struct SpecKeyValue {
    pub key: Seq<char>,
    pub value: Option<SpecAnyValue>,
}

impl AnyValue {
    /// What this value says.
    pub open spec fn model(&self) -> SpecAnyValue
        decreases self,
    {
        match &self.value {
            None => SpecAnyValue::Empty,
            Some(value) => value.model(),
        }
    }
}

impl PbValue {
    /// What a value of this kind says.
    pub open spec fn model(&self) -> SpecAnyValue
        decreases self,
    {
        match self {
            PbValue::StringValue(text) => SpecAnyValue::Text(text@),
            PbValue::BoolValue(truth) => SpecAnyValue::Truth(*truth),
            PbValue::IntValue(number) => SpecAnyValue::Number(*number),
            PbValue::DoubleValue(number) => SpecAnyValue::Real(*number),
            PbValue::ArrayValue(list) => SpecAnyValue::List(list.model()),
            PbValue::KvlistValue(list) => SpecAnyValue::Pairs(list.model()),
            PbValue::BytesValue(bytes) => SpecAnyValue::Binary(bytes@),
        }
    }
}

impl ArrayValue {
    /// What the values of this list say.
    pub open spec fn model(&self) -> Seq<SpecAnyValue>
        decreases self,
    {
        Seq::new(
            self.values@.len(),
            |i: int|
                if 0 <= i < self.values@.len() {
                    self.values@[i].model()
                } else {
                    arbitrary()
                },
        )
    }
}

impl KeyValueList {
    /// What the pairs of this list say.
    pub open spec fn model(&self) -> Seq<SpecKeyValue>
        decreases self,
    {
        Seq::new(
            self.values@.len(),
            |i: int|
                if 0 <= i < self.values@.len() {
                    self.values@[i].model()
                } else {
                    arbitrary()
                },
        )
    }
}

impl KeyValue {
    /// What this pair says.
    pub open spec fn model(&self) -> SpecKeyValue
        decreases self,
    {
        SpecKeyValue {
            key: self.key@,
            value: match &self.value {
                Some(value) => Some(value.model()),
                None => None,
            },
        }
    }
}

impl View for AnyValue {
    type V = SpecAnyValue;

    open spec fn view(&self) -> SpecAnyValue {
        self.model()
    }
}

impl View for KeyValue {
    type V = SpecKeyValue;

    open spec fn view(&self) -> SpecKeyValue {
        self.model()
    }
}

impl View for ArrayValue {
    type V = Seq<SpecAnyValue>;

    open spec fn view(&self) -> Seq<SpecAnyValue> {
        self.model()
    }
}

impl View for KeyValueList {
    type V = Seq<SpecKeyValue>;

    open spec fn view(&self) -> Seq<SpecKeyValue> {
        self.model()
    }
}

/// What telemetry comes from.
#[derive(Debug)]
pub struct Resource {
    pub attributes: Vec<KeyValue>,
    pub dropped_attributes_count: u32,
}

/// What a `Resource` says.
#[verifier::ext_equal]
pub struct SpecResource {
    pub attributes: Seq<SpecKeyValue>,
    pub dropped_attributes_count: u32,
}

impl View for Resource {
    type V = SpecResource;

    open spec fn view(&self) -> SpecResource {
        SpecResource {
            attributes: views(self.attributes@),
            dropped_attributes_count: self.dropped_attributes_count,
        }
    }
}

/// A log record.
#[derive(Debug)]
pub struct LogRecord {
    pub time_unix_nano: u64,
    pub observed_time_unix_nano: u64,
    pub severity_number: i32,
    pub severity_text: String,
    pub body: Option<AnyValue>,
    pub attributes: Vec<KeyValue>,
    pub dropped_attributes_count: u32,
    pub flags: u32,
    pub trace_id: Vec<u8>,
    pub span_id: Vec<u8>,
}

/// What a `LogRecord` says.
#[verifier::ext_equal]
pub struct SpecLogRecord {
    pub time_unix_nano: u64,
    pub observed_time_unix_nano: u64,
    pub severity_number: i32,
    pub severity_text: Seq<char>,
    pub body: Option<SpecAnyValue>,
    pub attributes: Seq<SpecKeyValue>,
    pub dropped_attributes_count: u32,
    pub flags: u32,
    pub trace_id: Seq<u8>,
    pub span_id: Seq<u8>,
}

impl View for LogRecord {
    type V = SpecLogRecord;

    open spec fn view(&self) -> SpecLogRecord {
        SpecLogRecord {
            time_unix_nano: self.time_unix_nano,
            observed_time_unix_nano: self.observed_time_unix_nano,
            severity_number: self.severity_number,
            severity_text: self.severity_text@,
            body: view_option(self.body),
            attributes: views(self.attributes@),
            dropped_attributes_count: self.dropped_attributes_count,
            flags: self.flags,
            trace_id: self.trace_id@,
            span_id: self.span_id@,
        }
    }
}

/// Log records of one scope.
#[derive(Debug)]
pub struct ScopeLogs {
    pub log_records: Vec<LogRecord>,
    pub schema_url: String,
}

/// What a `ScopeLogs` says.
#[verifier::ext_equal]
pub struct SpecScopeLogs {
    pub log_records: Seq<SpecLogRecord>,
    pub schema_url: Seq<char>,
}

impl View for ScopeLogs {
    type V = SpecScopeLogs;

    open spec fn view(&self) -> SpecScopeLogs {
        SpecScopeLogs { log_records: views(self.log_records@), schema_url: self.schema_url@ }
    }
}

/// Log records of one resource.
#[derive(Debug)]
pub struct ResourceLogs {
    pub resource: Option<Resource>,
    pub scope_logs: Vec<ScopeLogs>,
    pub schema_url: String,
}

/// What a `ResourceLogs` says.
#[verifier::ext_equal]
pub struct SpecResourceLogs {
    pub resource: Option<SpecResource>,
    pub scope_logs: Seq<SpecScopeLogs>,
    pub schema_url: Seq<char>,
}

impl View for ResourceLogs {
    type V = SpecResourceLogs;

    open spec fn view(&self) -> SpecResourceLogs {
        SpecResourceLogs {
            resource: view_option(self.resource),
            scope_logs: views(self.scope_logs@),
            schema_url: self.schema_url@,
        }
    }
}

/// A request to export logs.
#[derive(Debug)]
pub struct ExportLogsServiceRequest {
    pub resource_logs: Vec<ResourceLogs>,
}

impl View for ExportLogsServiceRequest {
    type V = Seq<SpecResourceLogs>;

    open spec fn view(&self) -> Seq<SpecResourceLogs> {
        views(self.resource_logs@)
    }
}

/// How the points of a metric relate to the time before them.
#[derive(Clone, Copy, Debug, PartialEq, Eq, Structural)]
pub enum AggregationTemporality {
    Unspecified,
    Delta,
    Cumulative,
}

/// The number that stands for a temporality.
pub open spec fn temporality_number(temporality: AggregationTemporality) -> i32 {
    match temporality {
        AggregationTemporality::Unspecified => 0,
        AggregationTemporality::Delta => 1,
        AggregationTemporality::Cumulative => 2,
    }
}

impl AggregationTemporality {
    /// The number that stands for this temporality.
    pub fn number(self) -> (number: i32)
        ensures
            number == temporality_number(self),
    {
        match self {
            AggregationTemporality::Unspecified => 0,
            AggregationTemporality::Delta => 1,
            AggregationTemporality::Cumulative => 2,
        }
    }
}

/// A point with one number.
#[derive(Debug)]
pub struct NumberDataPoint {
    pub attributes: Vec<KeyValue>,
    pub start_time_unix_nano: u64,
    pub time_unix_nano: u64,
    pub flags: u32,
    pub value: Option<Double>,
}

/// What a `NumberDataPoint` says.
#[verifier::ext_equal]
pub struct SpecNumberDataPoint {
    pub attributes: Seq<SpecKeyValue>,
    pub start_time_unix_nano: u64,
    pub time_unix_nano: u64,
    pub flags: u32,
    pub value: Option<Double>,
}

impl View for NumberDataPoint {
    type V = SpecNumberDataPoint;

    open spec fn view(&self) -> SpecNumberDataPoint {
        SpecNumberDataPoint {
            attributes: views(self.attributes@),
            start_time_unix_nano: self.start_time_unix_nano,
            time_unix_nano: self.time_unix_nano,
            flags: self.flags,
            value: self.value,
        }
    }
}

/// A point with a histogram.
#[derive(Debug)]
pub struct HistogramDataPoint {
    pub attributes: Vec<KeyValue>,
    pub start_time_unix_nano: u64,
    pub time_unix_nano: u64,
    pub count: u64,
    pub sum: Option<Double>,
    pub bucket_counts: Vec<u64>,
    pub explicit_bounds: Vec<Double>,
    pub flags: u32,
    pub min: Option<Double>,
    pub max: Option<Double>,
}

/// What a `HistogramDataPoint` says.
#[verifier::ext_equal]
pub struct SpecHistogramDataPoint {
    pub attributes: Seq<SpecKeyValue>,
    pub start_time_unix_nano: u64,
    pub time_unix_nano: u64,
    pub count: u64,
    pub sum: Option<Double>,
    pub bucket_counts: Seq<u64>,
    pub explicit_bounds: Seq<Double>,
    pub flags: u32,
    pub min: Option<Double>,
    pub max: Option<Double>,
}

impl View for HistogramDataPoint {
    type V = SpecHistogramDataPoint;

    open spec fn view(&self) -> SpecHistogramDataPoint {
        SpecHistogramDataPoint {
            attributes: views(self.attributes@),
            start_time_unix_nano: self.start_time_unix_nano,
            time_unix_nano: self.time_unix_nano,
            count: self.count,
            sum: self.sum,
            bucket_counts: self.bucket_counts@,
            explicit_bounds: self.explicit_bounds@,
            flags: self.flags,
            min: self.min,
            max: self.max,
        }
    }
}

/// The value at a quantile of a summary.
#[derive(Clone, Copy, Debug, PartialEq, Eq, Structural)]
pub struct ValueAtQuantile {
    pub quantile: Double,
    pub value: Double,
}

/// A point with a summary.
#[derive(Debug)]
pub struct SummaryDataPoint {
    pub attributes: Vec<KeyValue>,
    pub start_time_unix_nano: u64,
    pub time_unix_nano: u64,
    pub count: u64,
    pub sum: Double,
    pub quantile_values: Vec<ValueAtQuantile>,
    pub flags: u32,
}

/// What a `SummaryDataPoint` says.
#[verifier::ext_equal]
pub struct SpecSummaryDataPoint {
    pub attributes: Seq<SpecKeyValue>,
    pub start_time_unix_nano: u64,
    pub time_unix_nano: u64,
    pub count: u64,
    pub sum: Double,
    pub quantile_values: Seq<ValueAtQuantile>,
    pub flags: u32,
}

impl View for SummaryDataPoint {
    type V = SpecSummaryDataPoint;

    open spec fn view(&self) -> SpecSummaryDataPoint {
        SpecSummaryDataPoint {
            attributes: views(self.attributes@),
            start_time_unix_nano: self.start_time_unix_nano,
            time_unix_nano: self.time_unix_nano,
            count: self.count,
            sum: self.sum,
            quantile_values: self.quantile_values@,
            flags: self.flags,
        }
    }
}

/// Points with the last value each.
#[derive(Debug)]
pub struct Gauge {
    pub data_points: Vec<NumberDataPoint>,
}

/// Points with a sum each.
#[derive(Debug)]
pub struct Sum {
    pub data_points: Vec<NumberDataPoint>,
    pub aggregation_temporality: i32,
    pub is_monotonic: bool,
}

/// Points with a histogram each.
#[derive(Debug)]
pub struct Histogram {
    pub data_points: Vec<HistogramDataPoint>,
    pub aggregation_temporality: i32,
}

/// Points with a summary each.
#[derive(Debug)]
pub struct Summary {
    pub data_points: Vec<SummaryDataPoint>,
}

/// The points of a metric.
#[derive(Debug)]
pub enum Data {
    Gauge(Gauge),
    Sum(Sum),
    Histogram(Histogram),
    Summary(Summary),
}

/// What a `Data` says.
#[verifier::ext_equal]
pub enum SpecData {
    Gauge { gauge_points: Seq<SpecNumberDataPoint> },
    Sum {
        sum_points: Seq<SpecNumberDataPoint>,
        aggregation_temporality: i32,
        is_monotonic: bool,
    },
    Histogram { histogram_points: Seq<SpecHistogramDataPoint>, aggregation_temporality: i32 },
    Summary { summary_points: Seq<SpecSummaryDataPoint> },
}

impl View for Data {
    type V = SpecData;

    open spec fn view(&self) -> SpecData {
        match self {
            Data::Gauge(gauge) => SpecData::Gauge { gauge_points: views(gauge.data_points@) },
            Data::Sum(sum) => SpecData::Sum {
                sum_points: views(sum.data_points@),
                aggregation_temporality: sum.aggregation_temporality,
                is_monotonic: sum.is_monotonic,
            },
            Data::Histogram(histogram) => SpecData::Histogram {
                histogram_points: views(histogram.data_points@),
                aggregation_temporality: histogram.aggregation_temporality,
            },
            Data::Summary(summary) => SpecData::Summary {
                summary_points: views(summary.data_points@),
            },
        }
    }
}

/// A metric.
#[derive(Debug)]
pub struct OtlpMetric {
    pub name: String,
    pub description: String,
    pub unit: String,
    pub data: Option<Data>,
}

/// What an `OtlpMetric` says.
#[verifier::ext_equal]
pub struct SpecOtlpMetric {
    pub name: Seq<char>,
    pub description: Seq<char>,
    pub unit: Seq<char>,
    pub data: Option<SpecData>,
}

impl View for OtlpMetric {
    type V = SpecOtlpMetric;

    open spec fn view(&self) -> SpecOtlpMetric {
        SpecOtlpMetric {
            name: self.name@,
            description: self.description@,
            unit: self.unit@,
            data: view_option(self.data),
        }
    }
}

/// Metrics of one scope.
#[derive(Debug)]
pub struct ScopeMetrics {
    pub metrics: Vec<OtlpMetric>,
    pub schema_url: String,
}

/// What a `ScopeMetrics` says.
#[verifier::ext_equal]
pub struct SpecScopeMetrics {
    pub metrics: Seq<SpecOtlpMetric>,
    pub schema_url: Seq<char>,
}

impl View for ScopeMetrics {
    type V = SpecScopeMetrics;

    open spec fn view(&self) -> SpecScopeMetrics {
        SpecScopeMetrics { metrics: views(self.metrics@), schema_url: self.schema_url@ }
    }
}

/// Metrics of one resource.
#[derive(Debug)]
pub struct ResourceMetrics {
    pub resource: Option<Resource>,
    pub scope_metrics: Vec<ScopeMetrics>,
    pub schema_url: String,
}

/// What a `ResourceMetrics` says.
#[verifier::ext_equal]
pub struct SpecResourceMetrics {
    pub resource: Option<SpecResource>,
    pub scope_metrics: Seq<SpecScopeMetrics>,
    pub schema_url: Seq<char>,
}

impl View for ResourceMetrics {
    type V = SpecResourceMetrics;

    open spec fn view(&self) -> SpecResourceMetrics {
        SpecResourceMetrics {
            resource: view_option(self.resource),
            scope_metrics: views(self.scope_metrics@),
            schema_url: self.schema_url@,
        }
    }
}

/// A request to export metrics.
#[derive(Debug)]
pub struct ExportMetricsServiceRequest {
    pub resource_metrics: Vec<ResourceMetrics>,
}

impl View for ExportMetricsServiceRequest {
    type V = Seq<SpecResourceMetrics>;

    open spec fn view(&self) -> Seq<SpecResourceMetrics> {
        views(self.resource_metrics@)
    }
}

/// The part that a span plays in a trace.
#[derive(Clone, Copy, Debug, PartialEq, Eq, Structural)]
pub enum SpanKind {
    Unspecified,
    Internal,
    Server,
    Client,
    Producer,
    Consumer,
}

/// The number that stands for a kind.
pub open spec fn kind_number(kind: SpanKind) -> i32 {
    match kind {
        SpanKind::Unspecified => 0,
        SpanKind::Internal => 1,
        SpanKind::Server => 2,
        SpanKind::Client => 3,
        SpanKind::Producer => 4,
        SpanKind::Consumer => 5,
    }
}

impl SpanKind {
    /// The number that stands for this kind.
    pub fn number(self) -> (number: i32)
        ensures
            number == kind_number(self),
    {
        match self {
            SpanKind::Unspecified => 0,
            SpanKind::Internal => 1,
            SpanKind::Server => 2,
            SpanKind::Client => 3,
            SpanKind::Producer => 4,
            SpanKind::Consumer => 5,
        }
    }
}

/// Something that happened in the course of a span.
#[derive(Debug)]
pub struct SpanEvent {
    pub time_unix_nano: u64,
    pub name: String,
    pub attributes: Vec<KeyValue>,
    pub dropped_attributes_count: u32,
}

/// What a `SpanEvent` says.
#[verifier::ext_equal]
pub struct SpecSpanEvent {
    pub time_unix_nano: u64,
    pub name: Seq<char>,
    pub attributes: Seq<SpecKeyValue>,
    pub dropped_attributes_count: u32,
}

impl View for SpanEvent {
    type V = SpecSpanEvent;

    open spec fn view(&self) -> SpecSpanEvent {
        SpecSpanEvent {
            time_unix_nano: self.time_unix_nano,
            name: self.name@,
            attributes: views(self.attributes@),
            dropped_attributes_count: self.dropped_attributes_count,
        }
    }
}

/// A reference from a span to another.
#[derive(Debug)]
pub struct Link {
    pub trace_id: Vec<u8>,
    pub span_id: Vec<u8>,
    pub trace_state: String,
    pub attributes: Vec<KeyValue>,
    pub dropped_attributes_count: u32,
}

/// What a `Link` says.
#[verifier::ext_equal]
pub struct SpecLink {
    pub trace_id: Seq<u8>,
    pub span_id: Seq<u8>,
    pub trace_state: Seq<char>,
    pub attributes: Seq<SpecKeyValue>,
    pub dropped_attributes_count: u32,
}

impl View for Link {
    type V = SpecLink;

    open spec fn view(&self) -> SpecLink {
        SpecLink {
            trace_id: self.trace_id@,
            span_id: self.span_id@,
            trace_state: self.trace_state@,
            attributes: views(self.attributes@),
            dropped_attributes_count: self.dropped_attributes_count,
        }
    }
}

/// How a span ended.
#[derive(Debug)]
pub struct SpanStatus {
    pub message: String,
    pub code: i32,
}

/// What a `SpanStatus` says.
#[verifier::ext_equal]
pub struct SpecSpanStatus {
    pub message: Seq<char>,
    pub code: i32,
}

impl View for SpanStatus {
    type V = SpecSpanStatus;

    open spec fn view(&self) -> SpecSpanStatus {
        SpecSpanStatus { message: self.message@, code: self.code }
    }
}

/// A span of a trace.
#[derive(Debug)]
pub struct Span {
    pub trace_id: Vec<u8>,
    pub span_id: Vec<u8>,
    pub trace_state: String,
    pub parent_span_id: Vec<u8>,
    pub name: String,
    pub kind: i32,
    pub start_time_unix_nano: u64,
    pub end_time_unix_nano: u64,
    pub attributes: Vec<KeyValue>,
    pub dropped_attributes_count: u32,
    pub events: Vec<SpanEvent>,
    pub dropped_events_count: u32,
    pub links: Vec<Link>,
    pub dropped_links_count: u32,
    pub status: Option<SpanStatus>,
}

/// What a `Span` says.
#[verifier::ext_equal]
pub struct SpecSpan {
    pub trace_id: Seq<u8>,
    pub span_id: Seq<u8>,
    pub trace_state: Seq<char>,
    pub parent_span_id: Seq<u8>,
    pub name: Seq<char>,
    pub kind: i32,
    pub start_time_unix_nano: u64,
    pub end_time_unix_nano: u64,
    pub attributes: Seq<SpecKeyValue>,
    pub dropped_attributes_count: u32,
    pub events: Seq<SpecSpanEvent>,
    pub dropped_events_count: u32,
    pub links: Seq<SpecLink>,
    pub dropped_links_count: u32,
    pub status: Option<SpecSpanStatus>,
}

impl View for Span {
    type V = SpecSpan;

    open spec fn view(&self) -> SpecSpan {
        SpecSpan {
            trace_id: self.trace_id@,
            span_id: self.span_id@,
            trace_state: self.trace_state@,
            parent_span_id: self.parent_span_id@,
            name: self.name@,
            kind: self.kind,
            start_time_unix_nano: self.start_time_unix_nano,
            end_time_unix_nano: self.end_time_unix_nano,
            attributes: views(self.attributes@),
            dropped_attributes_count: self.dropped_attributes_count,
            events: views(self.events@),
            dropped_events_count: self.dropped_events_count,
            links: views(self.links@),
            dropped_links_count: self.dropped_links_count,
            status: view_option(self.status),
        }
    }
}

/// Spans of one scope.
#[derive(Debug)]
pub struct ScopeSpans {
    pub spans: Vec<Span>,
    pub schema_url: String,
}

/// What a `ScopeSpans` says.
#[verifier::ext_equal]
pub struct SpecScopeSpans {
    pub spans: Seq<SpecSpan>,
    pub schema_url: Seq<char>,
}

impl View for ScopeSpans {
    type V = SpecScopeSpans;

    open spec fn view(&self) -> SpecScopeSpans {
        SpecScopeSpans { spans: views(self.spans@), schema_url: self.schema_url@ }
    }
}

/// Spans of one resource.
#[derive(Debug)]
pub struct ResourceSpans {
    pub resource: Option<Resource>,
    pub scope_spans: Vec<ScopeSpans>,
    pub schema_url: String,
}

/// What a `ResourceSpans` says.
#[verifier::ext_equal]
pub struct SpecResourceSpans {
    pub resource: Option<SpecResource>,
    pub scope_spans: Seq<SpecScopeSpans>,
    pub schema_url: Seq<char>,
}

impl View for ResourceSpans {
    type V = SpecResourceSpans;

    open spec fn view(&self) -> SpecResourceSpans {
        SpecResourceSpans {
            resource: view_option(self.resource),
            scope_spans: views(self.scope_spans@),
            schema_url: self.schema_url@,
        }
    }
}

/// A request to export spans.
#[derive(Debug)]
pub struct ExportTraceServiceRequest {
    pub resource_spans: Vec<ResourceSpans>,
}

impl View for ExportTraceServiceRequest {
    type V = Seq<SpecResourceSpans>;

    open spec fn view(&self) -> Seq<SpecResourceSpans> {
        views(self.resource_spans@)
    }
}

/// The numbers by which the protocol knows the kinds of spans and the temporalities.
pub proof fn law_numbers_of_the_protocol()
    ensures
        kind_number(SpanKind::Unspecified) == 0,
        kind_number(SpanKind::Internal) == 1,
        kind_number(SpanKind::Server) == 2,
        kind_number(SpanKind::Client) == 3,
        kind_number(SpanKind::Producer) == 4,
        kind_number(SpanKind::Consumer) == 5,
        temporality_number(AggregationTemporality::Unspecified) == 0,
        temporality_number(AggregationTemporality::Delta) == 1,
        temporality_number(AggregationTemporality::Cumulative) == 2,
{
}

}
