//! The fields of the messages, by the numbers that the OpenTelemetry protocol gives them.
use vstd::prelude::*;
use vstd::string::*;
use vstd::utf8::*;
use crate::proto::{
    AnyValue, ArrayValue, Data, ExportLogsServiceRequest, ExportMetricsServiceRequest,
    ExportTraceServiceRequest, Gauge, Histogram, HistogramDataPoint, KeyValue, KeyValueList, Link,
    LogRecord, NumberDataPoint, OtlpMetric, PbValue, Resource, ResourceLogs, ResourceMetrics,
    ResourceSpans, ScopeLogs, ScopeMetrics, ScopeSpans, Span, SpanEvent, SpanStatus, SpecAnyValue,
    SpecData, SpecHistogramDataPoint, SpecKeyValue, SpecLink, SpecLogRecord, SpecNumberDataPoint,
    SpecOtlpMetric, SpecResource, SpecResourceLogs, SpecResourceMetrics, SpecResourceSpans,
    SpecScopeLogs, SpecScopeMetrics, SpecScopeSpans, SpecSpan, SpecSpanEvent, SpecSpanStatus,
    SpecSummaryDataPoint, Sum, Summary, SummaryDataPoint, ValueAtQuantile,
};
use crate::views::{group_views, view_option, views};
use crate::wire::{
    bool_field, bytes_field, double_bits, double_field, double_value_field, fixed32_field,
    fixed64_field, int32_field, message_bytes, message_field, one_field, optional_double_field,
    packed_field, string_field, truth_value, uint32_field, valid_number,
    MessageWriter, WireField, WireValue,
};

verus! {

broadcast use group_views;

/// The fields of a value.
pub open spec fn any_value_fields(value: SpecAnyValue) -> Seq<WireField>
    decreases value,
{
    match value {
        SpecAnyValue::Empty => Seq::empty(),
        SpecAnyValue::Text(text) => one_field(1, WireValue::Bytes(encode_utf8(text))),
        SpecAnyValue::Truth(truth) => one_field(2, truth_value(truth)),
        SpecAnyValue::Number(number) => one_field(3, WireValue::Varint(number as u64 as nat)),
        SpecAnyValue::Real(number) => double_value_field(4, number),
        SpecAnyValue::List(values) => message_field(5, list_fields(values)),
        SpecAnyValue::Pairs(pairs) => message_field(6, pairs_fields(1, pairs)),
        SpecAnyValue::Binary(bytes) => one_field(7, WireValue::Bytes(bytes)),
    }
}

/// The fields of a list of values.
pub open spec fn list_fields(values: Seq<SpecAnyValue>) -> Seq<WireField>
    decreases values,
{
    Seq::new(
        values.len(),
        |i: int|
            if 0 <= i < values.len() {
                WireField {
                    number: 1,
                    value: WireValue::Bytes(message_bytes(any_value_fields(values[i]))),
                }
            } else {
                arbitrary()
            },
    )
}

/// The fields of pairs, each under `number`.
pub open spec fn pairs_fields(number: nat, pairs: Seq<SpecKeyValue>) -> Seq<WireField>
    decreases pairs,
{
    Seq::new(
        pairs.len(),
        |i: int|
            if 0 <= i < pairs.len() {
                WireField {
                    number,
                    value: WireValue::Bytes(message_bytes(key_value_fields(pairs[i]))),
                }
            } else {
                arbitrary()
            },
    )
}

/// The fields of a pair.
pub open spec fn key_value_fields(pair: SpecKeyValue) -> Seq<WireField>
    decreases pair,
{
    string_field(1, pair.key) + match pair.value {
        Some(value) => message_field(2, any_value_fields(value)),
        None => Seq::empty(),
    }
}

/// Writes a value.
pub fn write_any_value(value: &AnyValue) -> (writer: MessageWriter)
    ensures
        writer@ == any_value_fields(value@),
    decreases value,
{
    let writer = MessageWriter::new();
    match &value.value {
        None => writer,
        Some(kind) => write_kind(kind),
    }
}

/// Writes a value of a kind.
fn write_kind(kind: &PbValue) -> (writer: MessageWriter)
    ensures
        writer@ == any_value_fields(kind.model()),
    decreases kind,
{
    let writer = MessageWriter::new();
    assert forall|fields: Seq<WireField>| #[trigger] (Seq::empty() + fields) == fields by {
        assert(Seq::<WireField>::empty() + fields =~= fields);
    }
    match kind {
        PbValue::StringValue(text) => writer.put_string_value(1, text),
        PbValue::BoolValue(truth) => writer.put_bool_value(2, *truth),
        PbValue::IntValue(number) => writer.put_int64_value(3, *number),
        PbValue::DoubleValue(number) => writer.put_double_value(4, *number),
        PbValue::ArrayValue(list) => writer.put_message(5, write_list(list)),
        PbValue::KvlistValue(list) => writer.put_message(6, write_pairs(list)),
        PbValue::BytesValue(bytes) => writer.put_bytes_value(7, bytes),
    }
}

/// Writes a list of values.
fn write_list(list: &ArrayValue) -> (writer: MessageWriter)
    ensures
        writer@ == list_fields(list@),
    decreases list,
{
    assert(list@ =~= views(list.values@));
    write_values(&list.values)
}

fn write_values(values: &Vec<AnyValue>) -> (writer: MessageWriter)
    ensures
        writer@ == list_fields(views(values@)),
    decreases values,
{
    let ghost model = views(values@);
    let mut writer = MessageWriter::new();
    let mut i: usize = 0;
    while i < values.len()
        invariant
            i <= values@.len(),
            model == views(values@),
            writer@ == list_fields(model).take(i as int),
        decreases values@.len() - i,
    {
        writer = writer.put_message(1, write_any_value(&values[i]));
        i = i + 1;
        assert(writer@ =~= list_fields(model).take(i as int));
    }
    assert(list_fields(model).take(i as int) =~= list_fields(model));
    writer
}

/// Writes a list of pairs.
fn write_pairs(list: &KeyValueList) -> (writer: MessageWriter)
    ensures
        writer@ == pairs_fields(1, list@),
    decreases list,
{
    assert(list@ =~= views(list.values@));
    write_pair_values(&list.values)
}

fn write_pair_values(pairs: &Vec<KeyValue>) -> (writer: MessageWriter)
    ensures
        writer@ == pairs_fields(1, views(pairs@)),
    decreases pairs,
{
    let ghost model = views(pairs@);
    let mut writer = MessageWriter::new();
    let mut i: usize = 0;
    while i < pairs.len()
        invariant
            i <= pairs@.len(),
            model == views(pairs@),
            writer@ == pairs_fields(1, model).take(i as int),
        decreases pairs@.len() - i,
    {
        writer = writer.put_message(1, write_key_value(&pairs[i]));
        i = i + 1;
        assert(writer@ =~= pairs_fields(1, model).take(i as int));
    }
    assert(pairs_fields(1, model).take(i as int) =~= pairs_fields(1, model));
    writer
}

/// Writes a pair.
pub fn write_key_value(pair: &KeyValue) -> (writer: MessageWriter)
    ensures
        writer@ == key_value_fields(pair@),
    decreases pair,
{
    let writer = MessageWriter::new().put_string(1, &pair.key);
    assert(writer@ =~= string_field(1, pair.key@));
    match &pair.value {
        Some(value) => writer.put_message(2, write_any_value(value)),
        None => {
            assert(writer@ + Seq::empty() =~= writer@);
            writer
        },
    }
}

/// A message that can be written.
pub trait Message: View + Sized {
    /// The fields of a message that says `model`.
    spec fn fields_of(model: Self::V) -> Seq<WireField>;

    /// Writes the message.
    fn write(&self) -> (writer: MessageWriter)
        ensures
            writer@ == Self::fields_of(self@),
    ;
}

/// The fields of messages, each under `number`.
pub open spec fn repeated_fields<M: Message>(number: nat, models: Seq<M::V>) -> Seq<WireField> {
    Seq::new(
        models.len(),
        |i: int|
            WireField { number, value: WireValue::Bytes(message_bytes(M::fields_of(models[i]))) },
    )
}

/// The field of an optional message.
pub open spec fn optional_field<M: Message>(number: nat, model: Option<M::V>) -> Seq<WireField> {
    match model {
        Some(m) => message_field(number, M::fields_of(m)),
        None => Seq::empty(),
    }
}

impl MessageWriter {
    /// Adds messages.
    pub fn put_messages<M: Message>(self, number: u32, messages: &Vec<M>) -> (writer: Self)
        requires
            valid_number(number),
        ensures
            writer@ == self@ + repeated_fields::<M>(number as nat, views(messages@)),
    {
        let ghost before = self@;
        let ghost fields = repeated_fields::<M>(number as nat, views(messages@));
        let mut writer = self;
        let mut i: usize = 0;
        assert(before + fields.take(0) =~= before);
        while i < messages.len()
            invariant
                i <= messages@.len(),
                valid_number(number),
                fields == repeated_fields::<M>(number as nat, views(messages@)),
                writer@ == before + fields.take(i as int),
            decreases messages@.len() - i,
        {
            writer = writer.put_message(number, messages[i].write());
            i = i + 1;
            assert(writer@ =~= before + fields.take(i as int));
        }
        assert(fields.take(i as int) =~= fields);
        writer
    }

    /// Adds an optional message.
    pub fn put_optional<M: Message>(self, number: u32, message: &Option<M>) -> (writer: Self)
        requires
            valid_number(number),
        ensures
            writer@ == self@ + optional_field::<M>(number as nat, view_option(*message)),
    {
        match message {
            Some(m) => self.put_message(number, m.write()),
            None => {
                assert(self@ + Seq::empty() =~= self@);
                self
            },
        }
    }
}

impl Message for AnyValue {
    open spec fn fields_of(model: SpecAnyValue) -> Seq<WireField> {
        any_value_fields(model)
    }

    fn write(&self) -> (writer: MessageWriter) {
        write_any_value(self)
    }
}

impl Message for KeyValue {
    open spec fn fields_of(model: SpecKeyValue) -> Seq<WireField> {
        key_value_fields(model)
    }

    fn write(&self) -> (writer: MessageWriter) {
        write_key_value(self)
    }
}

impl Message for Resource {
    open spec fn fields_of(model: SpecResource) -> Seq<WireField> {
        repeated_fields::<KeyValue>(1, model.attributes)
            + uint32_field(2, model.dropped_attributes_count)
    }

    fn write(&self) -> (writer: MessageWriter) {
        let writer = MessageWriter::new().put_messages::<KeyValue>(1, &self.attributes);
        assert(writer@ =~= repeated_fields::<KeyValue>(1, self@.attributes));
        writer
            .put_uint32(2, self.dropped_attributes_count)
    }
}

impl Message for LogRecord {
    open spec fn fields_of(model: SpecLogRecord) -> Seq<WireField> {
        fixed64_field(1, model.time_unix_nano)
            + int32_field(2, model.severity_number)
            + string_field(3, model.severity_text)
            + optional_field::<AnyValue>(5, model.body)
            + repeated_fields::<KeyValue>(6, model.attributes)
            + uint32_field(7, model.dropped_attributes_count)
            + fixed32_field(8, model.flags)
            + bytes_field(9, model.trace_id)
            + bytes_field(10, model.span_id)
            + fixed64_field(11, model.observed_time_unix_nano)
    }

    fn write(&self) -> (writer: MessageWriter) {
        let writer = MessageWriter::new().put_fixed64(1, self.time_unix_nano);
        assert(writer@ =~= fixed64_field(1, self@.time_unix_nano));
        writer
            .put_int32(2, self.severity_number)
            .put_string(3, &self.severity_text)
            .put_optional::<AnyValue>(5, &self.body)
            .put_messages::<KeyValue>(6, &self.attributes)
            .put_uint32(7, self.dropped_attributes_count)
            .put_fixed32(8, self.flags)
            .put_bytes(9, &self.trace_id)
            .put_bytes(10, &self.span_id)
            .put_fixed64(11, self.observed_time_unix_nano)
    }
}

impl Message for ScopeLogs {
    open spec fn fields_of(model: SpecScopeLogs) -> Seq<WireField> {
        repeated_fields::<LogRecord>(2, model.log_records)
            + string_field(3, model.schema_url)
    }

    fn write(&self) -> (writer: MessageWriter) {
        let writer = MessageWriter::new().put_messages::<LogRecord>(2, &self.log_records);
        assert(writer@ =~= repeated_fields::<LogRecord>(2, self@.log_records));
        writer
            .put_string(3, &self.schema_url)
    }
}

impl Message for ResourceLogs {
    open spec fn fields_of(model: SpecResourceLogs) -> Seq<WireField> {
        optional_field::<Resource>(1, model.resource)
            + repeated_fields::<ScopeLogs>(2, model.scope_logs)
            + string_field(3, model.schema_url)
    }

    fn write(&self) -> (writer: MessageWriter) {
        let writer = MessageWriter::new().put_optional::<Resource>(1, &self.resource);
        assert(writer@ =~= optional_field::<Resource>(1, self@.resource));
        writer
            .put_messages::<ScopeLogs>(2, &self.scope_logs)
            .put_string(3, &self.schema_url)
    }
}

impl Message for ExportLogsServiceRequest {
    open spec fn fields_of(model: Seq<SpecResourceLogs>) -> Seq<WireField> {
        repeated_fields::<ResourceLogs>(1, model)
    }

    fn write(&self) -> (writer: MessageWriter) {
        let writer = MessageWriter::new().put_messages::<ResourceLogs>(1, &self.resource_logs);
        assert(writer@ =~= repeated_fields::<ResourceLogs>(1, self@));
        writer
    }
}

impl Message for NumberDataPoint {
    open spec fn fields_of(model: SpecNumberDataPoint) -> Seq<WireField> {
        fixed64_field(2, model.start_time_unix_nano)
            + fixed64_field(3, model.time_unix_nano)
            + optional_double_field(4, model.value)
            + repeated_fields::<KeyValue>(7, model.attributes)
            + uint32_field(8, model.flags)
    }

    fn write(&self) -> (writer: MessageWriter) {
        let writer = MessageWriter::new().put_fixed64(2, self.start_time_unix_nano);
        assert(writer@ =~= fixed64_field(2, self@.start_time_unix_nano));
        writer
            .put_fixed64(3, self.time_unix_nano)
            .put_optional_double(4, self.value)
            .put_messages::<KeyValue>(7, &self.attributes)
            .put_uint32(8, self.flags)
    }
}

impl Message for HistogramDataPoint {
    open spec fn fields_of(model: SpecHistogramDataPoint) -> Seq<WireField> {
        fixed64_field(2, model.start_time_unix_nano)
            + fixed64_field(3, model.time_unix_nano)
            + fixed64_field(4, model.count)
            + optional_double_field(5, model.sum)
            + packed_field(6, model.bucket_counts)
            + packed_field(7, double_bits(model.explicit_bounds))
            + repeated_fields::<KeyValue>(9, model.attributes)
            + uint32_field(10, model.flags)
            + optional_double_field(11, model.min)
            + optional_double_field(12, model.max)
    }

    fn write(&self) -> (writer: MessageWriter) {
        let writer = MessageWriter::new().put_fixed64(2, self.start_time_unix_nano);
        assert(writer@ =~= fixed64_field(2, self@.start_time_unix_nano));
        writer
            .put_fixed64(3, self.time_unix_nano)
            .put_fixed64(4, self.count)
            .put_optional_double(5, self.sum)
            .put_packed(6, &self.bucket_counts)
            .put_packed_doubles(7, &self.explicit_bounds)
            .put_messages::<KeyValue>(9, &self.attributes)
            .put_uint32(10, self.flags)
            .put_optional_double(11, self.min)
            .put_optional_double(12, self.max)
    }
}

impl View for ValueAtQuantile {
    type V = ValueAtQuantile;

    open spec fn view(&self) -> ValueAtQuantile {
        *self
    }
}

impl Message for ValueAtQuantile {
    open spec fn fields_of(model: ValueAtQuantile) -> Seq<WireField> {
        double_field(1, model.quantile)
            + double_field(2, model.value)
    }

    fn write(&self) -> (writer: MessageWriter) {
        let writer = MessageWriter::new().put_double(1, self.quantile);
        assert(writer@ =~= double_field(1, self@.quantile));
        writer
            .put_double(2, self.value)
    }
}

impl Message for SummaryDataPoint {
    open spec fn fields_of(model: SpecSummaryDataPoint) -> Seq<WireField> {
        fixed64_field(2, model.start_time_unix_nano)
            + fixed64_field(3, model.time_unix_nano)
            + fixed64_field(4, model.count)
            + double_field(5, model.sum)
            + repeated_fields::<ValueAtQuantile>(6, model.quantile_values)
            + repeated_fields::<KeyValue>(7, model.attributes)
            + uint32_field(8, model.flags)
    }

    fn write(&self) -> (writer: MessageWriter) {
        let writer = MessageWriter::new().put_fixed64(2, self.start_time_unix_nano);
        assert(writer@ =~= fixed64_field(2, self@.start_time_unix_nano));
        writer
            .put_fixed64(3, self.time_unix_nano)
            .put_fixed64(4, self.count)
            .put_double(5, self.sum)
            .put_messages::<ValueAtQuantile>(6, &self.quantile_values)
            .put_messages::<KeyValue>(7, &self.attributes)
            .put_uint32(8, self.flags)
    }
}

/// The fields of the points of a gauge.
pub open spec fn gauge_fields(points: Seq<SpecNumberDataPoint>) -> Seq<WireField> {
    repeated_fields::<NumberDataPoint>(1, points)
}

/// The fields of the points of a sum.
pub open spec fn sum_fields(
    points: Seq<SpecNumberDataPoint>,
    temporality: i32,
    is_monotonic: bool,
) -> Seq<WireField> {
    repeated_fields::<NumberDataPoint>(1, points) + int32_field(2, temporality) + bool_field(
        3,
        is_monotonic,
    )
}

/// The fields of the points of a histogram.
pub open spec fn histogram_fields(points: Seq<SpecHistogramDataPoint>, temporality: i32) -> Seq<
    WireField,
> {
    repeated_fields::<HistogramDataPoint>(1, points) + int32_field(2, temporality)
}

/// The fields of the points of a summary.
pub open spec fn summary_fields(points: Seq<SpecSummaryDataPoint>) -> Seq<WireField> {
    repeated_fields::<SummaryDataPoint>(1, points)
}

/// The field of the data of a metric: its number tells the kind of data.
pub open spec fn data_field(data: Option<SpecData>) -> Seq<WireField> {
    match data {
        Some(SpecData::Gauge { gauge_points }) => message_field(5, gauge_fields(gauge_points)),
        Some(SpecData::Sum { sum_points, aggregation_temporality, is_monotonic }) => message_field(
            7,
            sum_fields(sum_points, aggregation_temporality, is_monotonic),
        ),
        Some(SpecData::Histogram { histogram_points, aggregation_temporality }) => message_field(
            9,
            histogram_fields(histogram_points, aggregation_temporality),
        ),
        Some(SpecData::Summary { summary_points }) => message_field(
            11,
            summary_fields(summary_points),
        ),
        None => Seq::empty(),
    }
}

impl MessageWriter {
    /// Adds the data of a metric.
    fn put_data(self, data: &Option<Data>) -> (writer: Self)
        ensures
            writer@ == self@ + data_field(view_option(*data)),
    {
        assert forall|fields: Seq<WireField>| #[trigger] (Seq::empty() + fields) == fields by {
            assert(Seq::<WireField>::empty() + fields =~= fields);
        }
        let inner = MessageWriter::new();
        match data {
            Some(Data::Gauge(gauge)) => self.put_message(
                5,
                inner.put_messages::<NumberDataPoint>(1, &gauge.data_points),
            ),
            Some(Data::Sum(sum)) => self.put_message(
                7,
                inner.put_messages::<NumberDataPoint>(1, &sum.data_points).put_int32(
                    2,
                    sum.aggregation_temporality,
                ).put_bool(3, sum.is_monotonic),
            ),
            Some(Data::Histogram(histogram)) => self.put_message(
                9,
                inner.put_messages::<HistogramDataPoint>(1, &histogram.data_points).put_int32(
                    2,
                    histogram.aggregation_temporality,
                ),
            ),
            Some(Data::Summary(summary)) => self.put_message(
                11,
                inner.put_messages::<SummaryDataPoint>(1, &summary.data_points),
            ),
            None => {
                assert(self@ + Seq::empty() =~= self@);
                self
            },
        }
    }
}

impl Message for OtlpMetric {
    open spec fn fields_of(model: SpecOtlpMetric) -> Seq<WireField> {
        string_field(1, model.name)
            + string_field(2, model.description)
            + string_field(3, model.unit)
            + data_field(model.data)
    }

    fn write(&self) -> (writer: MessageWriter) {
        let writer = MessageWriter::new().put_string(1, &self.name);
        assert(writer@ =~= string_field(1, self@.name));
        writer
            .put_string(2, &self.description)
            .put_string(3, &self.unit)
            .put_data(&self.data)
    }
}

impl Message for ScopeMetrics {
    open spec fn fields_of(model: SpecScopeMetrics) -> Seq<WireField> {
        repeated_fields::<OtlpMetric>(2, model.metrics)
            + string_field(3, model.schema_url)
    }

    fn write(&self) -> (writer: MessageWriter) {
        let writer = MessageWriter::new().put_messages::<OtlpMetric>(2, &self.metrics);
        assert(writer@ =~= repeated_fields::<OtlpMetric>(2, self@.metrics));
        writer
            .put_string(3, &self.schema_url)
    }
}

impl Message for ResourceMetrics {
    open spec fn fields_of(model: SpecResourceMetrics) -> Seq<WireField> {
        optional_field::<Resource>(1, model.resource)
            + repeated_fields::<ScopeMetrics>(2, model.scope_metrics)
            + string_field(3, model.schema_url)
    }

    fn write(&self) -> (writer: MessageWriter) {
        let writer = MessageWriter::new().put_optional::<Resource>(1, &self.resource);
        assert(writer@ =~= optional_field::<Resource>(1, self@.resource));
        writer
            .put_messages::<ScopeMetrics>(2, &self.scope_metrics)
            .put_string(3, &self.schema_url)
    }
}

impl Message for ExportMetricsServiceRequest {
    open spec fn fields_of(model: Seq<SpecResourceMetrics>) -> Seq<WireField> {
        repeated_fields::<ResourceMetrics>(1, model)
    }

    fn write(&self) -> (writer: MessageWriter) {
        let writer = MessageWriter::new()
            .put_messages::<ResourceMetrics>(1, &self.resource_metrics);
        assert(writer@ =~= repeated_fields::<ResourceMetrics>(1, self@));
        writer
    }
}

impl Message for SpanEvent {
    open spec fn fields_of(model: SpecSpanEvent) -> Seq<WireField> {
        fixed64_field(1, model.time_unix_nano)
            + string_field(2, model.name)
            + repeated_fields::<KeyValue>(3, model.attributes)
            + uint32_field(4, model.dropped_attributes_count)
    }

    fn write(&self) -> (writer: MessageWriter) {
        let writer = MessageWriter::new().put_fixed64(1, self.time_unix_nano);
        assert(writer@ =~= fixed64_field(1, self@.time_unix_nano));
        writer
            .put_string(2, &self.name)
            .put_messages::<KeyValue>(3, &self.attributes)
            .put_uint32(4, self.dropped_attributes_count)
    }
}

impl Message for Link {
    open spec fn fields_of(model: SpecLink) -> Seq<WireField> {
        bytes_field(1, model.trace_id)
            + bytes_field(2, model.span_id)
            + string_field(3, model.trace_state)
            + repeated_fields::<KeyValue>(4, model.attributes)
            + uint32_field(5, model.dropped_attributes_count)
    }

    fn write(&self) -> (writer: MessageWriter) {
        let writer = MessageWriter::new().put_bytes(1, &self.trace_id);
        assert(writer@ =~= bytes_field(1, self@.trace_id));
        writer
            .put_bytes(2, &self.span_id)
            .put_string(3, &self.trace_state)
            .put_messages::<KeyValue>(4, &self.attributes)
            .put_uint32(5, self.dropped_attributes_count)
    }
}

impl Message for SpanStatus {
    open spec fn fields_of(model: SpecSpanStatus) -> Seq<WireField> {
        string_field(2, model.message)
            + int32_field(3, model.code)
    }

    fn write(&self) -> (writer: MessageWriter) {
        let writer = MessageWriter::new().put_string(2, &self.message);
        assert(writer@ =~= string_field(2, self@.message));
        writer
            .put_int32(3, self.code)
    }
}

/// The fields of a span that tell what it is and when it was.
#[verifier::opaque]
pub open spec fn span_head_fields(model: SpecSpan) -> Seq<WireField> {
    bytes_field(1, model.trace_id)
        + bytes_field(2, model.span_id)
        + string_field(3, model.trace_state)
        + bytes_field(4, model.parent_span_id)
        + string_field(5, model.name)
        + int32_field(6, model.kind)
        + fixed64_field(7, model.start_time_unix_nano)
        + fixed64_field(8, model.end_time_unix_nano)
}

impl Message for Span {
    open spec fn fields_of(model: SpecSpan) -> Seq<WireField> {
        span_head_fields(model)
            + repeated_fields::<KeyValue>(9, model.attributes)
            + uint32_field(10, model.dropped_attributes_count)
            + repeated_fields::<SpanEvent>(11, model.events)
            + uint32_field(12, model.dropped_events_count)
            + repeated_fields::<Link>(13, model.links)
            + uint32_field(14, model.dropped_links_count)
            + optional_field::<SpanStatus>(15, model.status)
    }

    fn write(&self) -> (writer: MessageWriter) {
        reveal(span_head_fields);
        let writer = MessageWriter::new().put_bytes(1, &self.trace_id);
        assert(writer@ =~= bytes_field(1, self@.trace_id));
        writer
            .put_bytes(2, &self.span_id)
            .put_string(3, &self.trace_state)
            .put_bytes(4, &self.parent_span_id)
            .put_string(5, &self.name)
            .put_int32(6, self.kind)
            .put_fixed64(7, self.start_time_unix_nano)
            .put_fixed64(8, self.end_time_unix_nano)
            .put_messages::<KeyValue>(9, &self.attributes)
            .put_uint32(10, self.dropped_attributes_count)
            .put_messages::<SpanEvent>(11, &self.events)
            .put_uint32(12, self.dropped_events_count)
            .put_messages::<Link>(13, &self.links)
            .put_uint32(14, self.dropped_links_count)
            .put_optional::<SpanStatus>(15, &self.status)
    }
}

impl Message for ScopeSpans {
    open spec fn fields_of(model: SpecScopeSpans) -> Seq<WireField> {
        repeated_fields::<Span>(2, model.spans)
            + string_field(3, model.schema_url)
    }

    fn write(&self) -> (writer: MessageWriter) {
        let writer = MessageWriter::new().put_messages::<Span>(2, &self.spans);
        assert(writer@ =~= repeated_fields::<Span>(2, self@.spans));
        writer
            .put_string(3, &self.schema_url)
    }
}

impl Message for ResourceSpans {
    open spec fn fields_of(model: SpecResourceSpans) -> Seq<WireField> {
        optional_field::<Resource>(1, model.resource)
            + repeated_fields::<ScopeSpans>(2, model.scope_spans)
            + string_field(3, model.schema_url)
    }

    fn write(&self) -> (writer: MessageWriter) {
        let writer = MessageWriter::new().put_optional::<Resource>(1, &self.resource);
        assert(writer@ =~= optional_field::<Resource>(1, self@.resource));
        writer
            .put_messages::<ScopeSpans>(2, &self.scope_spans)
            .put_string(3, &self.schema_url)
    }
}

impl Message for ExportTraceServiceRequest {
    open spec fn fields_of(model: Seq<SpecResourceSpans>) -> Seq<WireField> {
        repeated_fields::<ResourceSpans>(1, model)
    }

    fn write(&self) -> (writer: MessageWriter) {
        let writer = MessageWriter::new().put_messages::<ResourceSpans>(1, &self.resource_spans);
        assert(writer@ =~= repeated_fields::<ResourceSpans>(1, self@));
        writer
    }
}

}
