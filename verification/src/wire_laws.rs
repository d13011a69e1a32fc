//! What holds of the messages as they are written: under which number each part of them stands.
//!
//! The numbers are those of the OpenTelemetry protocol.
use vstd::prelude::*;
use vstd::utf8::*;
use crate::encode::{
    gauge_fields, histogram_fields, list_fields, optional_field, pairs_fields, repeated_fields,
    span_head_fields, sum_fields, summary_fields, Message,
};
use crate::proto::{
    AnyValue, ExportLogsServiceRequest, ExportMetricsServiceRequest, ExportTraceServiceRequest,
    HistogramDataPoint, KeyValue, Link, LogRecord, NumberDataPoint, OtlpMetric, Resource,
    ResourceLogs, ResourceMetrics, ResourceSpans, ScopeLogs, ScopeMetrics, ScopeSpans, Span,
    SpanEvent, SpanStatus, SpecAnyValue, SpecData, SpecHistogramDataPoint, SpecKeyValue, SpecLink,
    SpecLogRecord, SpecNumberDataPoint, SpecOtlpMetric, SpecResource, SpecResourceLogs,
    SpecResourceMetrics, SpecResourceSpans, SpecScopeLogs, SpecScopeMetrics, SpecScopeSpans,
    SpecSpan, SpecSpanEvent, SpecSpanStatus, SpecSummaryDataPoint, SummaryDataPoint,
    ValueAtQuantile,
};
use crate::entries::lemma_as_unsigned;
use crate::value::Double;
use crate::wire::{
    bool_field, bytes_field, double_bits, double_field, fixed32_field, fixed64_field, int32_field,
    message_bytes, one_field, optional_double_field, packed_bytes, packed_field, string_field,
    uint32_field, WireField, WireValue,
};

verus! {

/// The values of fields.
pub open spec fn values_of(fields: Seq<WireField>) -> Seq<WireValue> {
    fields.map_values(|field: WireField| field.value)
}

/// The values that stand under a number, in their order.
pub open spec fn values_under(fields: Seq<WireField>, number: nat) -> Seq<WireValue> {
    values_of(fields.filter(|field: WireField| field.number == number))
}

/// A value where there is one.
pub open spec fn value_if(there: bool, value: WireValue) -> Seq<WireValue> {
    if there {
        seq![value]
    } else {
        Seq::empty()
    }
}

/// Bytes, unless there are none.
pub open spec fn as_bytes(bytes: Seq<u8>) -> Seq<WireValue> {
    value_if(bytes.len() > 0, WireValue::Bytes(bytes))
}

/// A text, unless it is empty.
pub open spec fn as_text(text: Seq<char>) -> Seq<WireValue> {
    value_if(text.len() > 0, WireValue::Bytes(encode_utf8(text)))
}

/// A number in groups of seven bits, unless it is zero; a negative one with 64 bits.
pub open spec fn as_number(number: int) -> Seq<WireValue> {
    value_if(number != 0, WireValue::Varint((number % 0x1_0000_0000_0000_0000) as nat))
}

/// A number of eight bytes, unless it is zero.
pub open spec fn as_eight_bytes(number: u64) -> Seq<WireValue> {
    value_if(number != 0, WireValue::Fixed64(number))
}

/// A number of four bytes, unless it is zero.
pub open spec fn as_four_bytes(number: u32) -> Seq<WireValue> {
    value_if(number != 0, WireValue::Fixed32(number))
}

/// A double, unless it is a zero.
pub open spec fn as_double(number: Double) -> Seq<WireValue> {
    value_if(
        number.bits != 0 && number.bits != 0x8000_0000_0000_0000,
        WireValue::Fixed64(number.bits),
    )
}

/// A double, where there is one.
pub open spec fn as_optional_double(number: Option<Double>) -> Seq<WireValue> {
    match number {
        Some(double) => seq![WireValue::Fixed64(double.bits)],
        None => Seq::empty(),
    }
}

/// Numbers of eight bytes each, unless there are none.
pub open spec fn as_packed(numbers: Seq<u64>) -> Seq<WireValue> {
    value_if(numbers.len() > 0, WireValue::Bytes(packed_bytes(numbers)))
}

/// Messages, one after the other.
pub open spec fn as_messages<M: Message>(models: Seq<M::V>) -> Seq<WireValue> {
    Seq::new(models.len(), |i: int| WireValue::Bytes(message_bytes(M::fields_of(models[i]))))
}

/// A message, where there is one.
pub open spec fn as_message<M: Message>(model: Option<M::V>) -> Seq<WireValue> {
    match model {
        Some(model) => seq![WireValue::Bytes(message_bytes(M::fields_of(model)))],
        None => Seq::empty(),
    }
}

broadcast proof fn lemma_under_none(number: nat)
    ensures
        #[trigger] values_under(Seq::empty(), number) == Seq::<WireValue>::empty(),
{
    reveal(Seq::filter);
    assert(values_under(Seq::empty(), number) =~= Seq::empty());
}

broadcast proof fn lemma_under_both(a: Seq<WireField>, b: Seq<WireField>, number: nat)
    ensures
        #[trigger] values_under(a + b, number) == values_under(a, number) + values_under(b, number),
    decreases b.len(),
{
    reveal(Seq::filter);
    let one = values_under(a, number);
    if b.len() == 0 {
        assert(a + b =~= a);
        assert(values_under(b, number) =~= Seq::empty());
        assert(one + values_under(b, number) =~= one);
    } else {
        let rest = b.drop_last();
        lemma_under_both(a, rest, number);
        assert((a + b).drop_last() =~= a + rest);
        assert(values_under(a + b, number) =~= one + values_under(b, number));
    }
}

broadcast proof fn lemma_under_one(own: nat, value: WireValue, number: nat)
    ensures
        #[trigger] values_under(one_field(own, value), number) == value_if(own == number, value),
{
    lemma_under_all(one_field(own, value), own, number);
    assert(values_of(one_field(own, value)) =~= seq![value]);
}

proof fn lemma_under_all(fields: Seq<WireField>, own: nat, number: nat)
    requires
        forall|i: int| 0 <= i < fields.len() ==> (#[trigger] fields[i]).number == own,
    ensures
        own == number ==> values_under(fields, number) == values_of(fields),
        own != number ==> values_under(fields, number) == Seq::<WireValue>::empty(),
    decreases fields.len(),
{
    reveal(Seq::filter);
    if fields.len() > 0 {
        let rest = fields.drop_last();
        assert forall|i: int| 0 <= i < rest.len() implies (#[trigger] rest[i]).number == own by {
            assert(rest[i] == fields[i]);
        }
        lemma_under_all(rest, own, number);
        assert(fields[fields.len() - 1].number == own);
        if own == number {
            assert(values_under(fields, number) =~= values_under(rest, number).push(
                fields.last().value,
            ));
            assert(values_of(fields) =~= values_of(rest).push(fields.last().value));
        }
    }
    if own == number {
        assert(values_under(fields, number) =~= values_of(fields));
    } else {
        assert(values_under(fields, number) =~= Seq::empty());
    }
}

/// The values where a number is the one looked for.
pub open spec fn only(same: bool, values: Seq<WireValue>) -> Seq<WireValue> {
    if same {
        values
    } else {
        Seq::empty()
    }
}

broadcast proof fn lemma_under_repeated<M: Message>(own: nat, models: Seq<M::V>, number: nat)
    ensures
        #[trigger] values_under(repeated_fields::<M>(own, models), number) == only(
            own == number,
            as_messages::<M>(models),
        ),
{
    let fields = repeated_fields::<M>(own, models);
    lemma_under_all(fields, own, number);
    assert(values_of(fields) =~= as_messages::<M>(models));
}

broadcast proof fn lemma_under_optional<M: Message>(own: nat, model: Option<M::V>, number: nat)
    ensures
        #[trigger] values_under(optional_field::<M>(own, model), number) == only(
            own == number,
            as_message::<M>(model),
        ),
{
    broadcast use {lemma_under_none, lemma_under_one};

}

broadcast proof fn lemma_under_uint32(own: nat, value: u32, number: nat)
    ensures
        #[trigger] values_under(uint32_field(own, value), number) == only(
            own == number,
            as_number(value as int),
        ),
{
    broadcast use {lemma_under_none, lemma_under_one};

}

broadcast proof fn lemma_under_int32(own: nat, value: i32, number: nat)
    ensures
        #[trigger] values_under(int32_field(own, value), number) == only(
            own == number,
            as_number(value as int),
        ),
{
    broadcast use {lemma_under_none, lemma_under_one};

    if value < 0 {
        assert((value as u64) == (value + 0x1_0000_0000_0000_0000)) by (bit_vector)
            requires
                value < 0,
        ;
    }
}

broadcast proof fn lemma_under_bool(own: nat, value: bool, number: nat)
    ensures
        #[trigger] values_under(bool_field(own, value), number) == only(
            own == number,
            value_if(value, WireValue::Varint(1)),
        ),
{
    broadcast use {lemma_under_none, lemma_under_one};

}

broadcast proof fn lemma_under_fixed32(own: nat, value: u32, number: nat)
    ensures
        #[trigger] values_under(fixed32_field(own, value), number) == only(
            own == number,
            as_four_bytes(value),
        ),
{
    broadcast use {lemma_under_none, lemma_under_one};

}

broadcast proof fn lemma_under_fixed64(own: nat, value: u64, number: nat)
    ensures
        #[trigger] values_under(fixed64_field(own, value), number) == only(
            own == number,
            as_eight_bytes(value),
        ),
{
    broadcast use {lemma_under_none, lemma_under_one};

}

broadcast proof fn lemma_under_double(own: nat, value: Double, number: nat)
    ensures
        #[trigger] values_under(double_field(own, value), number) == only(
            own == number,
            as_double(value),
        ),
{
    broadcast use {lemma_under_none, lemma_under_one};

}

broadcast proof fn lemma_under_optional_double(own: nat, value: Option<Double>, number: nat)
    ensures
        #[trigger] values_under(optional_double_field(own, value), number) == only(
            own == number,
            as_optional_double(value),
        ),
{
    broadcast use {lemma_under_none, lemma_under_one};

}

broadcast proof fn lemma_under_string(own: nat, text: Seq<char>, number: nat)
    ensures
        #[trigger] values_under(string_field(own, text), number) == only(
            own == number,
            as_text(text),
        ),
{
    broadcast use {lemma_under_none, lemma_under_one};

}

broadcast proof fn lemma_under_bytes(own: nat, bytes: Seq<u8>, number: nat)
    ensures
        #[trigger] values_under(bytes_field(own, bytes), number) == only(
            own == number,
            as_bytes(bytes),
        ),
{
    broadcast use {lemma_under_none, lemma_under_one};

}

broadcast proof fn lemma_under_packed(own: nat, values: Seq<u64>, number: nat)
    ensures
        #[trigger] values_under(packed_field(own, values), number) == only(
            own == number,
            as_packed(values),
        ),
{
    broadcast use {lemma_under_none, lemma_under_one};

}

broadcast group group_under {
    lemma_under_both,
    lemma_under_repeated,
    lemma_under_optional,
    lemma_under_uint32,
    lemma_under_int32,
    lemma_under_bool,
    lemma_under_fixed32,
    lemma_under_fixed64,
    lemma_under_double,
    lemma_under_optional_double,
    lemma_under_string,
    lemma_under_bytes,
    lemma_under_packed,
    Seq::add_empty_left,
    Seq::add_empty_right,
}

/// The parts of a log record stand under the numbers 1 to 11.
pub proof fn law_numbers_of_a_log_record(model: SpecLogRecord)
    ensures
        values_under(LogRecord::fields_of(model), 1) == as_eight_bytes(model.time_unix_nano),
        values_under(LogRecord::fields_of(model), 2) == as_number(model.severity_number as int),
        values_under(LogRecord::fields_of(model), 3) == as_text(model.severity_text),
        values_under(LogRecord::fields_of(model), 5) == as_message::<AnyValue>(model.body),
        values_under(LogRecord::fields_of(model), 6) == as_messages::<KeyValue>(model.attributes),
        values_under(LogRecord::fields_of(model), 7) == as_number(model.dropped_attributes_count as int),
        values_under(LogRecord::fields_of(model), 8) == as_four_bytes(model.flags),
        values_under(LogRecord::fields_of(model), 9) == as_bytes(model.trace_id),
        values_under(LogRecord::fields_of(model), 10) == as_bytes(model.span_id),
        values_under(LogRecord::fields_of(model), 11) == as_eight_bytes(model.observed_time_unix_nano),
{
    broadcast use group_under;

}

/// The parts of a span stand under the numbers 1 to 15.
pub proof fn law_numbers_of_a_span(model: SpecSpan)
    ensures
        values_under(Span::fields_of(model), 1) == as_bytes(model.trace_id),
        values_under(Span::fields_of(model), 2) == as_bytes(model.span_id),
        values_under(Span::fields_of(model), 3) == as_text(model.trace_state),
        values_under(Span::fields_of(model), 4) == as_bytes(model.parent_span_id),
        values_under(Span::fields_of(model), 5) == as_text(model.name),
        values_under(Span::fields_of(model), 6) == as_number(model.kind as int),
        values_under(Span::fields_of(model), 7) == as_eight_bytes(model.start_time_unix_nano),
        values_under(Span::fields_of(model), 8) == as_eight_bytes(model.end_time_unix_nano),
        values_under(Span::fields_of(model), 9) == as_messages::<KeyValue>(model.attributes),
        values_under(Span::fields_of(model), 10) == as_number(model.dropped_attributes_count as int),
        values_under(Span::fields_of(model), 11) == as_messages::<SpanEvent>(model.events),
        values_under(Span::fields_of(model), 12) == as_number(model.dropped_events_count as int),
        values_under(Span::fields_of(model), 13) == as_messages::<Link>(model.links),
        values_under(Span::fields_of(model), 14) == as_number(model.dropped_links_count as int),
        values_under(Span::fields_of(model), 15) == as_message::<SpanStatus>(model.status),
{
    broadcast use group_under;
    reveal(span_head_fields);

}

/// The parts of a span event stand under the numbers 1 to 4.
pub proof fn law_numbers_of_a_span_event(model: SpecSpanEvent)
    ensures
        values_under(SpanEvent::fields_of(model), 1) == as_eight_bytes(model.time_unix_nano),
        values_under(SpanEvent::fields_of(model), 2) == as_text(model.name),
        values_under(SpanEvent::fields_of(model), 3) == as_messages::<KeyValue>(model.attributes),
        values_under(SpanEvent::fields_of(model), 4) == as_number(model.dropped_attributes_count as int),
{
    broadcast use group_under;

}

/// The parts of a link stand under the numbers 1 to 5.
pub proof fn law_numbers_of_a_link(model: SpecLink)
    ensures
        values_under(Link::fields_of(model), 1) == as_bytes(model.trace_id),
        values_under(Link::fields_of(model), 2) == as_bytes(model.span_id),
        values_under(Link::fields_of(model), 3) == as_text(model.trace_state),
        values_under(Link::fields_of(model), 4) == as_messages::<KeyValue>(model.attributes),
        values_under(Link::fields_of(model), 5) == as_number(model.dropped_attributes_count as int),
{
    broadcast use group_under;

}

/// The message of a status stands under 2, its code under 3.
pub proof fn law_numbers_of_a_status(model: SpecSpanStatus)
    ensures
        values_under(SpanStatus::fields_of(model), 2) == as_text(model.message),
        values_under(SpanStatus::fields_of(model), 3) == as_number(model.code as int),
{
    broadcast use group_under;

}

/// The attributes of a resource stand under 1, what was dropped of them under 2.
pub proof fn law_numbers_of_a_resource(model: SpecResource)
    ensures
        values_under(Resource::fields_of(model), 1) == as_messages::<KeyValue>(model.attributes),
        values_under(Resource::fields_of(model), 2) == as_number(model.dropped_attributes_count as int),
{
    broadcast use group_under;

}

/// The parts of a point with a number stand under the numbers 2 to 8.
pub proof fn law_numbers_of_a_number_point(model: SpecNumberDataPoint)
    ensures
        values_under(NumberDataPoint::fields_of(model), 2) == as_eight_bytes(model.start_time_unix_nano),
        values_under(NumberDataPoint::fields_of(model), 3) == as_eight_bytes(model.time_unix_nano),
        values_under(NumberDataPoint::fields_of(model), 4) == as_optional_double(model.value),
        values_under(NumberDataPoint::fields_of(model), 7) == as_messages::<KeyValue>(model.attributes),
        values_under(NumberDataPoint::fields_of(model), 8) == as_number(model.flags as int),
{
    broadcast use group_under;

}

/// The parts of a point with a histogram stand under the numbers 2 to 12.
pub proof fn law_numbers_of_a_histogram_point(model: SpecHistogramDataPoint)
    ensures
        values_under(HistogramDataPoint::fields_of(model), 2) == as_eight_bytes(model.start_time_unix_nano),
        values_under(HistogramDataPoint::fields_of(model), 3) == as_eight_bytes(model.time_unix_nano),
        values_under(HistogramDataPoint::fields_of(model), 4) == as_eight_bytes(model.count),
        values_under(HistogramDataPoint::fields_of(model), 5) == as_optional_double(model.sum),
        values_under(HistogramDataPoint::fields_of(model), 6) == as_packed(model.bucket_counts),
        values_under(HistogramDataPoint::fields_of(model), 7) == as_packed(model.explicit_bounds.map_values(|bound: Double| bound.bits)),
        values_under(HistogramDataPoint::fields_of(model), 9) == as_messages::<KeyValue>(model.attributes),
        values_under(HistogramDataPoint::fields_of(model), 10) == as_number(model.flags as int),
        values_under(HistogramDataPoint::fields_of(model), 11) == as_optional_double(model.min),
        values_under(HistogramDataPoint::fields_of(model), 12) == as_optional_double(model.max),
{
    broadcast use group_under;
    assert(double_bits(model.explicit_bounds) =~= model.explicit_bounds.map_values(
        |bound: Double| bound.bits,
    ));

}

/// A quantile stands under 1, its value under 2.
pub proof fn law_numbers_of_a_quantile(model: ValueAtQuantile)
    ensures
        values_under(ValueAtQuantile::fields_of(model), 1) == as_double(model.quantile),
        values_under(ValueAtQuantile::fields_of(model), 2) == as_double(model.value),
{
    broadcast use group_under;

}

/// The parts of a point with a summary stand under the numbers 2 to 8.
pub proof fn law_numbers_of_a_summary_point(model: SpecSummaryDataPoint)
    ensures
        values_under(SummaryDataPoint::fields_of(model), 2) == as_eight_bytes(model.start_time_unix_nano),
        values_under(SummaryDataPoint::fields_of(model), 3) == as_eight_bytes(model.time_unix_nano),
        values_under(SummaryDataPoint::fields_of(model), 4) == as_eight_bytes(model.count),
        values_under(SummaryDataPoint::fields_of(model), 5) == as_double(model.sum),
        values_under(SummaryDataPoint::fields_of(model), 6) == as_messages::<ValueAtQuantile>(model.quantile_values),
        values_under(SummaryDataPoint::fields_of(model), 7) == as_messages::<KeyValue>(model.attributes),
        values_under(SummaryDataPoint::fields_of(model), 8) == as_number(model.flags as int),
{
    broadcast use group_under;

}

/// What a scope holds stands under 2, its schema under 3.
pub proof fn law_numbers_of_scope_logs(model: SpecScopeLogs)
    ensures
        values_under(ScopeLogs::fields_of(model), 2) == as_messages::<LogRecord>(model.log_records),
        values_under(ScopeLogs::fields_of(model), 3) == as_text(model.schema_url),
{
    broadcast use group_under;

}

/// A resource stands under 1, its scopes under 2, its schema under 3.
pub proof fn law_numbers_of_resource_logs(model: SpecResourceLogs)
    ensures
        values_under(ResourceLogs::fields_of(model), 1) == as_message::<Resource>(model.resource),
        values_under(ResourceLogs::fields_of(model), 2) == as_messages::<ScopeLogs>(model.scope_logs),
        values_under(ResourceLogs::fields_of(model), 3) == as_text(model.schema_url),
{
    broadcast use group_under;

}

/// The resources of a request stand under 1.
pub proof fn law_numbers_of_logs_request(model: Seq<SpecResourceLogs>)
    ensures
        values_under(ExportLogsServiceRequest::fields_of(model), 1) == as_messages::<ResourceLogs>(model),
{
    broadcast use group_under;

}

/// What a scope holds stands under 2, its schema under 3.
pub proof fn law_numbers_of_scope_metrics(model: SpecScopeMetrics)
    ensures
        values_under(ScopeMetrics::fields_of(model), 2) == as_messages::<OtlpMetric>(model.metrics),
        values_under(ScopeMetrics::fields_of(model), 3) == as_text(model.schema_url),
{
    broadcast use group_under;

}

/// A resource stands under 1, its scopes under 2, its schema under 3.
pub proof fn law_numbers_of_resource_metrics(model: SpecResourceMetrics)
    ensures
        values_under(ResourceMetrics::fields_of(model), 1) == as_message::<Resource>(model.resource),
        values_under(ResourceMetrics::fields_of(model), 2) == as_messages::<ScopeMetrics>(model.scope_metrics),
        values_under(ResourceMetrics::fields_of(model), 3) == as_text(model.schema_url),
{
    broadcast use group_under;

}

/// The resources of a request stand under 1.
pub proof fn law_numbers_of_metrics_request(model: Seq<SpecResourceMetrics>)
    ensures
        values_under(ExportMetricsServiceRequest::fields_of(model), 1) == as_messages::<ResourceMetrics>(model),
{
    broadcast use group_under;

}

/// What a scope holds stands under 2, its schema under 3.
pub proof fn law_numbers_of_scope_spans(model: SpecScopeSpans)
    ensures
        values_under(ScopeSpans::fields_of(model), 2) == as_messages::<Span>(model.spans),
        values_under(ScopeSpans::fields_of(model), 3) == as_text(model.schema_url),
{
    broadcast use group_under;

}

/// A resource stands under 1, its scopes under 2, its schema under 3.
pub proof fn law_numbers_of_resource_spans(model: SpecResourceSpans)
    ensures
        values_under(ResourceSpans::fields_of(model), 1) == as_message::<Resource>(model.resource),
        values_under(ResourceSpans::fields_of(model), 2) == as_messages::<ScopeSpans>(model.scope_spans),
        values_under(ResourceSpans::fields_of(model), 3) == as_text(model.schema_url),
{
    broadcast use group_under;

}

/// The resources of a request stand under 1.
pub proof fn law_numbers_of_spans_request(model: Seq<SpecResourceSpans>)
    ensures
        values_under(ExportTraceServiceRequest::fields_of(model), 1) == as_messages::<ResourceSpans>(model),
{
    broadcast use group_under;

}

/// The name of a metric stands under 1, its description under 2 and its unit under 3. Its data stands
/// under 5 for a gauge, 7 for a sum, 9 for a histogram and 11 for a summary.
pub proof fn law_numbers_of_a_metric(model: SpecOtlpMetric)
    ensures
        values_under(OtlpMetric::fields_of(model), 1) == as_text(model.name),
        values_under(OtlpMetric::fields_of(model), 2) == as_text(model.description),
        values_under(OtlpMetric::fields_of(model), 3) == as_text(model.unit),
        model.data matches Some(SpecData::Gauge { gauge_points }) ==> values_under(
            OtlpMetric::fields_of(model),
            5,
        ) == seq![WireValue::Bytes(message_bytes(gauge_fields(gauge_points)))],
        model.data matches Some(
            SpecData::Sum { sum_points, aggregation_temporality, is_monotonic },
        ) ==> values_under(OtlpMetric::fields_of(model), 7) == seq![
            WireValue::Bytes(
                message_bytes(sum_fields(sum_points, aggregation_temporality, is_monotonic)),
            ),
        ],
        model.data matches Some(
            SpecData::Histogram { histogram_points, aggregation_temporality },
        ) ==> values_under(OtlpMetric::fields_of(model), 9) == seq![
            WireValue::Bytes(
                message_bytes(histogram_fields(histogram_points, aggregation_temporality)),
            ),
        ],
        model.data matches Some(SpecData::Summary { summary_points }) ==> values_under(
            OtlpMetric::fields_of(model),
            11,
        ) == seq![WireValue::Bytes(message_bytes(summary_fields(summary_points)))],
{
    broadcast use group_under;
    broadcast use {lemma_under_none, lemma_under_one};

}

/// The points of data stand under 1, how they relate to the time before them under 2, and whether
/// they only grow under 3.
pub proof fn law_numbers_of_data(
    numbers: Seq<SpecNumberDataPoint>,
    histograms: Seq<SpecHistogramDataPoint>,
    summaries: Seq<SpecSummaryDataPoint>,
    temporality: i32,
    monotonic: bool,
)
    ensures
        values_under(gauge_fields(numbers), 1) == as_messages::<NumberDataPoint>(numbers),
        values_under(sum_fields(numbers, temporality, monotonic), 1) == as_messages::<
            NumberDataPoint,
        >(numbers),
        values_under(sum_fields(numbers, temporality, monotonic), 2) == as_number(
            temporality as int,
        ),
        values_under(sum_fields(numbers, temporality, monotonic), 3) == value_if(
            monotonic,
            WireValue::Varint(1),
        ),
        values_under(histogram_fields(histograms, temporality), 1) == as_messages::<
            HistogramDataPoint,
        >(histograms),
        values_under(histogram_fields(histograms, temporality), 2) == as_number(temporality as int),
        values_under(summary_fields(summaries), 1) == as_messages::<SummaryDataPoint>(summaries),
{
    broadcast use group_under;

}

/// The key of a pair stands under 1, its value under 2.
pub proof fn law_numbers_of_a_pair(model: SpecKeyValue)
    ensures
        values_under(KeyValue::fields_of(model), 1) == as_text(model.key),
        values_under(KeyValue::fields_of(model), 2) == as_message::<AnyValue>(model.value),
{
    broadcast use group_under;
    broadcast use {lemma_under_none, lemma_under_one};

}

/// A value is one field, whose number tells its kind: 1 for a text, 2 for a truth value, 3 for a
/// number, 4 for a double, 5 for a list, 6 for pairs and 7 for bytes. Nothing is no field.
pub proof fn law_numbers_of_a_value(model: SpecAnyValue)
    ensures
        model is Empty ==> AnyValue::fields_of(model).len() == 0,
        model matches SpecAnyValue::Text(text) ==> AnyValue::fields_of(model) == seq![
            WireField { number: 1, value: WireValue::Bytes(encode_utf8(text)) },
        ],
        model matches SpecAnyValue::Truth(truth) ==> AnyValue::fields_of(model) == seq![
            WireField {
                number: 2,
                value: WireValue::Varint(
                    if truth {
                        1
                    } else {
                        0
                    },
                ),
            },
        ],
        model matches SpecAnyValue::Number(number) ==> AnyValue::fields_of(model) == seq![
            WireField {
                number: 3,
                value: WireValue::Varint(((number as int) % 0x1_0000_0000_0000_0000) as nat),
            },
        ],
        model matches SpecAnyValue::Real(number) ==> AnyValue::fields_of(model) == seq![
            WireField { number: 4, value: WireValue::Fixed64(number.bits) },
        ],
        model matches SpecAnyValue::Binary(bytes) ==> AnyValue::fields_of(model) == seq![
            WireField { number: 7, value: WireValue::Bytes(bytes) },
        ],
{
    if let SpecAnyValue::Number(number) = model {
        lemma_as_unsigned(number);
    }
}

/// A list is a message with its values under 1, and pairs are a message with the pairs under 1.
pub proof fn law_numbers_of_lists(values: Seq<SpecAnyValue>, pairs: Seq<SpecKeyValue>)
    ensures
        AnyValue::fields_of(SpecAnyValue::List(values)).len() == 1,
        AnyValue::fields_of(SpecAnyValue::List(values))[0].number == 5,
        AnyValue::fields_of(SpecAnyValue::List(values))[0].value == WireValue::Bytes(
            message_bytes(list_fields(values)),
        ),
        values_under(list_fields(values), 1) == as_messages::<AnyValue>(values),
        AnyValue::fields_of(SpecAnyValue::Pairs(pairs)).len() == 1,
        AnyValue::fields_of(SpecAnyValue::Pairs(pairs))[0].number == 6,
        AnyValue::fields_of(SpecAnyValue::Pairs(pairs))[0].value == WireValue::Bytes(
            message_bytes(pairs_fields(1, pairs)),
        ),
        values_under(pairs_fields(1, pairs), 1) == as_messages::<KeyValue>(pairs),
{
    let list = list_fields(values);
    lemma_under_all(list, 1, 1);
    assert(values_of(list) =~= as_messages::<AnyValue>(values));
    let all = pairs_fields(1, pairs);
    lemma_under_all(all, 1, 1);
    assert(values_of(all) =~= as_messages::<KeyValue>(pairs));
}

}
