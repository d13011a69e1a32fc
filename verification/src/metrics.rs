//! Conversion of metrics to protocol metrics.
use vstd::prelude::*;
use vstd::string::*;
use crate::distribution::{
    bucket_bounds, convert_distribution_to_otlp, cumulative_counts, greatest, least, total,
};
use crate::metric::{
    tag_values, Bucket, Metric, MetricKind, MetricSketch, MetricTags, MetricValue, Quantile,
    SpecMetric, SpecMetricValue,
};
use crate::number::{double_from_integer, rounded, whole_bits, INFINITY_BITS};
use crate::proto::{
    temporality_number, AggregationTemporality, AnyValue, Data, Gauge, Histogram,
    HistogramDataPoint, KeyValue, NumberDataPoint, OtlpMetric, PbValue, SpecAnyValue, SpecData,
    SpecHistogramDataPoint, SpecKeyValue, SpecNumberDataPoint, SpecOtlpMetric, SpecSummaryDataPoint,
    Sum, Summary, SummaryDataPoint, ValueAtQuantile,
};
use crate::sketch::{convert_sketch_to_otlp, sketch_data};
use crate::totals::{absolute_of, totals_with, MetricSet};
use crate::value::{unix_nanos, Double, SpecTimestamp, Timestamp};
use crate::views::{group_views, view_option, views};

verus! {

broadcast use group_views;

/// A pair with a text.
pub open spec fn text_pair(key: Seq<char>, text: Seq<char>) -> SpecKeyValue {
    SpecKeyValue { key, value: Some(SpecAnyValue::Text(text)) }
}

/// The pairs for one tag: one for each of its values, with an empty text for a tag without a value
/// of its own.
pub open spec fn tag_pairs(name: Seq<char>, values: Seq<Option<Seq<char>>>) -> Seq<SpecKeyValue> {
    Seq::new(
        values.len(),
        |i: int|
            text_pair(
                name,
                match values[i] {
                    Some(text) => text,
                    None => Seq::empty(),
                },
            ),
    )
}

/// The attributes for all tags, in their order.
pub open spec fn tag_attributes(tags: Seq<(Seq<char>, Seq<Option<Seq<char>>>)>) -> Seq<
    SpecKeyValue,
>
    decreases tags.len(),
{
    if tags.len() == 0 {
        Seq::empty()
    } else {
        tag_attributes(tags.drop_last()) + tag_pairs(tags.last().0, tags.last().1)
    }
}

/// The attributes for the tags of a metric that has any.
pub open spec fn attributes_of(tags: Option<Seq<(Seq<char>, Seq<Option<Seq<char>>>)>>) -> Seq<
    SpecKeyValue,
> {
    match tags {
        Some(tags) => tag_attributes(tags),
        None => Seq::empty(),
    }
}

/// A pair with a text.
pub fn make_text_pair(key: String, text: String) -> (pair: KeyValue)
    ensures
        pair@ == text_pair(key@, text@),
{
    KeyValue { key, value: Some(AnyValue { value: Some(PbValue::StringValue(text)) }) }
}

/// Converts the tags of a metric to attributes.
pub fn convert_metric_tags_to_attributes(tags: Option<&MetricTags>) -> (attributes: Vec<KeyValue>)
    ensures
        views(attributes@) == attributes_of(
            match tags {
                Some(t) => Some(t@),
                None => None,
            },
        ),
{
    let mut attributes: Vec<KeyValue> = Vec::new();
    let tags = match tags {
        Some(tags) => tags,
        None => {
            return attributes;
        },
    };
    let mut i: usize = 0;
    let len = tags.len();
    while i < len
        invariant
            i <= len,
            len == tags@.len(),
            views(attributes@) == tag_attributes(tags@.take(i as int)),
        decreases len - i,
    {
        let name = tags.name(i);
        let values = tags.values(i);
        let ghost before = views(attributes@);
        let ghost pairs = tag_pairs(name@, tag_values(values@));
        let mut j: usize = 0;
        assert(before + pairs.take(0) =~= before);
        while j < values.len()
            invariant
                j <= values@.len(),
                pairs == tag_pairs(name@, tag_values(values@)),
                views(attributes@) == before + pairs.take(j as int),
            decreases values@.len() - j,
        {
            let text = match &values[j] {
                Some(text) => text.clone(),
                None => String::new(),
            };
            assert(values@[j as int] is None ==> text@ =~= Seq::empty());
            attributes.push(make_text_pair(name.clone(), text));
            j = j + 1;
            assert(before + pairs.take(j as int) =~= (before + pairs.take(j - 1)).push(
                pairs[j - 1],
            ));
        }
        assert(pairs.take(j as int) =~= pairs);
        assert(tags@.take(i + 1).drop_last() =~= tags@.take(i as int));
        i = i + 1;
    }
    assert(tags@.take(i as int) =~= tags@);
    attributes
}

/// A time in nanoseconds since the Unix epoch; zero where there is none, or one that an `i64` cannot
/// hold.
pub open spec fn nanos_or_zero(timestamp: Option<SpecTimestamp>) -> u64 {
    match timestamp {
        Some(time) => match unix_nanos(time) {
            Some(nanos) => nanos as u64,
            None => 0,
        },
        None => 0,
    }
}

/// Converts a time to nanoseconds since the Unix epoch.
pub fn convert_timestamp_to_nanos(timestamp: Option<Timestamp>) -> (nanos: u64)
    ensures
        nanos == nanos_or_zero(view_option(timestamp)),
{
    match timestamp {
        Some(time) => match time.timestamp_nanos_opt() {
            Some(nanos) => nanos as u64,
            None => 0,
        },
        None => 0,
    }
}

/// A point with one number, since an unknown start.
pub open spec fn number_point(
    attributes: Seq<SpecKeyValue>,
    time_unix_nano: u64,
    value: Double,
) -> SpecNumberDataPoint {
    SpecNumberDataPoint {
        attributes,
        start_time_unix_nano: 0,
        time_unix_nano,
        flags: 0,
        value: Some(value),
    }
}

/// The data of a counter: one cumulative, monotonic sum.
pub open spec fn counter_data(
    attributes: Seq<SpecKeyValue>,
    time_unix_nano: u64,
    value: Double,
) -> SpecData {
    SpecData::Sum {
        sum_points: seq![number_point(attributes, time_unix_nano, value)],
        aggregation_temporality: temporality_number(AggregationTemporality::Cumulative),
        is_monotonic: true,
    }
}

/// The data of a gauge: its value.
pub open spec fn gauge_data(
    attributes: Seq<SpecKeyValue>,
    time_unix_nano: u64,
    value: Double,
) -> SpecData {
    SpecData::Gauge { gauge_points: seq![number_point(attributes, time_unix_nano, value)] }
}

/// Data with one histogram, cumulative since an unknown start.
pub open spec fn histogram_data(
    attributes: Seq<SpecKeyValue>,
    time_unix_nano: u64,
    count: u64,
    sum: Option<Double>,
    bucket_counts: Seq<u64>,
    explicit_bounds: Seq<Double>,
    min: Option<Double>,
    max: Option<Double>,
) -> SpecData {
    SpecData::Histogram {
        histogram_points: seq![
            SpecHistogramDataPoint {
                attributes,
                start_time_unix_nano: 0,
                time_unix_nano,
                count,
                sum,
                bucket_counts,
                explicit_bounds,
                flags: 0,
                min,
                max,
            },
        ],
        aggregation_temporality: temporality_number(AggregationTemporality::Cumulative),
    }
}

/// Converts a counter.
pub fn convert_counter_to_otlp(
    attributes: Vec<KeyValue>,
    time_unix_nano: u64,
    value: Double,
) -> (data: Option<Data>)
    ensures
        view_option(data) == Some(counter_data(views(attributes@), time_unix_nano, value)),
{
    let mut data_points: Vec<NumberDataPoint> = Vec::new();
    data_points.push(
        NumberDataPoint {
            attributes,
            start_time_unix_nano: 0,
            time_unix_nano,
            flags: 0,
            value: Some(value),
        },
    );
    let sum = Sum {
        data_points,
        aggregation_temporality: AggregationTemporality::Cumulative.number(),
        is_monotonic: true,
    };
    assert(views(sum.data_points@) =~= seq![
        number_point(views(attributes@), time_unix_nano, value),
    ]);
    Some(Data::Sum(sum))
}

/// Converts a gauge.
pub fn convert_gauge_to_otlp(
    attributes: Vec<KeyValue>,
    time_unix_nano: u64,
    value: Double,
) -> (data: Option<Data>)
    ensures
        view_option(data) == Some(gauge_data(views(attributes@), time_unix_nano, value)),
{
    let mut data_points: Vec<NumberDataPoint> = Vec::new();
    data_points.push(
        NumberDataPoint {
            attributes,
            start_time_unix_nano: 0,
            time_unix_nano,
            flags: 0,
            value: Some(value),
        },
    );
    assert(views(data_points@) =~= seq![number_point(views(attributes@), time_unix_nano, value)]);
    Some(Data::Gauge(Gauge { data_points }))
}

/// The upper limits of the buckets of a histogram, but for infinity.
pub open spec fn finite_limits(buckets: Seq<Bucket>) -> Seq<Double>
    decreases buckets.len(),
{
    if buckets.len() == 0 {
        Seq::empty()
    } else if buckets.last().upper_limit.bits == INFINITY_BITS {
        finite_limits(buckets.drop_last())
    } else {
        finite_limits(buckets.drop_last()).push(buckets.last().upper_limit)
    }
}

/// The counts of the buckets of a histogram.
pub open spec fn counts_of(buckets: Seq<Bucket>) -> Seq<u64> {
    Seq::new(buckets.len(), |i: int| buckets[i].count)
}

/// Data with one histogram.
pub(crate) fn make_histogram(data_point: HistogramDataPoint) -> (data: Option<Data>)
    ensures
        view_option(data) == Some(
            SpecData::Histogram {
                histogram_points: seq![data_point@],
                aggregation_temporality: temporality_number(AggregationTemporality::Cumulative),
            },
        ),
{
    let mut data_points: Vec<HistogramDataPoint> = Vec::new();
    data_points.push(data_point);
    assert(views(data_points@) =~= seq![data_point@]);
    Some(
        Data::Histogram(
            Histogram {
                data_points,
                aggregation_temporality: AggregationTemporality::Cumulative.number(),
            },
        ),
    )
}

/// Converts a histogram.
pub fn convert_histogram_to_otlp(
    attributes: Vec<KeyValue>,
    time_unix_nano: u64,
    buckets: &Vec<Bucket>,
    count: u64,
    sum: Double,
) -> (data: Option<Data>)
    ensures
        view_option(data) == Some(
            histogram_data(
                views(attributes@),
                time_unix_nano,
                count,
                Some(sum),
                counts_of(buckets@),
                finite_limits(buckets@),
                None,
                None,
            ),
        ),
{
    let mut explicit_bounds: Vec<Double> = Vec::new();
    let mut bucket_counts: Vec<u64> = Vec::new();
    let mut i: usize = 0;
    while i < buckets.len()
        invariant
            i <= buckets@.len(),
            explicit_bounds@ == finite_limits(buckets@.take(i as int)),
            bucket_counts@ == counts_of(buckets@.take(i as int)),
        decreases buckets@.len() - i,
    {
        let bucket = buckets[i];
        assert(buckets@.take(i + 1).drop_last() =~= buckets@.take(i as int));
        if !bucket.upper_limit.is_infinity() {
            explicit_bounds.push(bucket.upper_limit);
        }
        bucket_counts.push(bucket.count);
        i = i + 1;
        assert(bucket_counts@ =~= counts_of(buckets@.take(i as int)));
    }
    assert(buckets@.take(i as int) =~= buckets@);
    make_histogram(
        HistogramDataPoint {
            attributes,
            start_time_unix_nano: 0,
            time_unix_nano,
            count,
            sum: Some(sum),
            bucket_counts,
            explicit_bounds,
            flags: 0,
            min: None,
            max: None,
        },
    )
}

/// The values at the quantiles of a summary.
pub open spec fn quantile_values(quantiles: Seq<Quantile>) -> Seq<ValueAtQuantile> {
    Seq::new(
        quantiles.len(),
        |i: int| ValueAtQuantile { quantile: quantiles[i].quantile, value: quantiles[i].value },
    )
}

/// Data with one summary, since an unknown start.
pub open spec fn summary_data(
    attributes: Seq<SpecKeyValue>,
    time_unix_nano: u64,
    quantiles: Seq<Quantile>,
    count: u64,
    sum: Double,
) -> SpecData {
    SpecData::Summary {
        summary_points: seq![
            SpecSummaryDataPoint {
                attributes,
                start_time_unix_nano: 0,
                time_unix_nano,
                count,
                sum,
                quantile_values: quantile_values(quantiles),
                flags: 0,
            },
        ],
    }
}

/// Converts a summary.
pub fn convert_summary_to_otlp(
    attributes: Vec<KeyValue>,
    time_unix_nano: u64,
    quantiles: &Vec<Quantile>,
    count: u64,
    sum: Double,
) -> (data: Option<Data>)
    ensures
        view_option(data) == Some(
            summary_data(views(attributes@), time_unix_nano, quantiles@, count, sum),
        ),
{
    let mut values: Vec<ValueAtQuantile> = Vec::new();
    let mut i: usize = 0;
    while i < quantiles.len()
        invariant
            i <= quantiles@.len(),
            values@ == quantile_values(quantiles@.take(i as int)),
        decreases quantiles@.len() - i,
    {
        let q = quantiles[i];
        values.push(ValueAtQuantile { quantile: q.quantile, value: q.value });
        i = i + 1;
        assert(values@ =~= quantile_values(quantiles@.take(i as int)));
    }
    assert(quantiles@.take(i as int) =~= quantiles@);
    let mut data_points: Vec<SummaryDataPoint> = Vec::new();
    data_points.push(
        SummaryDataPoint {
            attributes,
            start_time_unix_nano: 0,
            time_unix_nano,
            count,
            sum,
            quantile_values: values,
            flags: 0,
        },
    );
    assert(views(data_points@) =~= summary_data(
        views(attributes@),
        time_unix_nano,
        quantiles@,
        count,
        sum,
    )->summary_points);
    Some(Data::Summary(Summary { data_points }))
}

/// The double that is nearest to the number of members of a set.
pub open spec fn cardinality(members: nat) -> Double {
    Double { bits: whole_bits(rounded(members)) as u64 }
}

/// Converts a set to a gauge of the number of its members.
pub fn convert_set_to_otlp(
    attributes: Vec<KeyValue>,
    time_unix_nano: u64,
    members: usize,
) -> (data: Option<Data>)
    ensures
        view_option(data) == Some(
            gauge_data(views(attributes@), time_unix_nano, cardinality(members as nat)),
        ),
{
    convert_gauge_to_otlp(attributes, time_unix_nano, double_from_integer(members as u64))
}

/// The data of a metric.
pub open spec fn data_of(
    attributes: Seq<SpecKeyValue>,
    time_unix_nano: u64,
    value: SpecMetricValue,
) -> SpecData {
    match value {
        SpecMetricValue::Counter { value } => counter_data(attributes, time_unix_nano, value),
        SpecMetricValue::Gauge { value } => gauge_data(attributes, time_unix_nano, value),
        SpecMetricValue::AggregatedHistogram { buckets, count, sum } => histogram_data(
            attributes,
            time_unix_nano,
            count,
            Some(sum),
            counts_of(buckets),
            finite_limits(buckets),
            None,
            None,
        ),
        SpecMetricValue::AggregatedSummary { quantiles, count, sum } => summary_data(
            attributes,
            time_unix_nano,
            quantiles,
            count,
            sum,
        ),
        SpecMetricValue::UniqueValues { values } => gauge_data(
            attributes,
            time_unix_nano,
            cardinality(values.len()),
        ),
        SpecMetricValue::Distribution { samples, statistic: _ } => histogram_data(
            attributes,
            time_unix_nano,
            samples.len() as u64,
            Some(total(samples)),
            cumulative_counts(samples),
            bucket_bounds(),
            Some(least(samples)),
            Some(greatest(samples)),
        ),
        SpecMetricValue::Sketch { sketch } => match sketch {
            MetricSketch::AgentDDSketch(summary) => sketch_data(
                attributes,
                time_unix_nano,
                summary,
            ),
        },
    }
}

/// The protocol metric of a metric: its name, and its data with the time and the tags of the metric.
/// Metrics have neither descriptions nor units.
pub open spec fn otlp_metric_of(metric: SpecMetric) -> SpecOtlpMetric {
    SpecOtlpMetric {
        name: metric.name,
        description: Seq::empty(),
        unit: Seq::empty(),
        data: Some(
            data_of(attributes_of(metric.tags), nanos_or_zero(metric.timestamp), metric.value),
        ),
    }
}

/// Converts a metric to a protocol metric.
pub fn convert_vector_metric_to_otlp(metric: &Metric) -> (result: OtlpMetric)
    ensures
        result@ == otlp_metric_of(metric@),
{
    let name = metric.name.clone();
    let description = String::new();
    let unit = String::new();
    assert(description@ =~= Seq::empty());

    let attributes = convert_metric_tags_to_attributes(metric.tags.as_ref());
    let time_unix_nano: u64 = convert_timestamp_to_nanos(metric.timestamp);
    let data = match &metric.value {
        MetricValue::Counter { value } => convert_counter_to_otlp(
            attributes,
            time_unix_nano,
            *value,
        ),
        MetricValue::Gauge { value } => convert_gauge_to_otlp(attributes, time_unix_nano, *value),
        MetricValue::AggregatedHistogram { buckets, count, sum } => convert_histogram_to_otlp(
            attributes,
            time_unix_nano,
            buckets,
            *count,
            *sum,
        ),
        MetricValue::AggregatedSummary { quantiles, count, sum } => convert_summary_to_otlp(
            attributes,
            time_unix_nano,
            quantiles,
            *count,
            *sum,
        ),
        MetricValue::UniqueValues { values } => convert_set_to_otlp(
            attributes,
            time_unix_nano,
            values.len(),
        ),
        MetricValue::Distribution { samples, statistic: _ } => convert_distribution_to_otlp(
            attributes,
            time_unix_nano,
            samples,
        ),
        MetricValue::Sketch { sketch } => convert_sketch_to_otlp(
            attributes,
            time_unix_nano,
            sketch,
        ),
    };
    OtlpMetric { name, description, unit, data }
}

/// Normalizer that converts all metrics to totals.
#[derive(Clone, Copy, Debug)]
pub struct OtlpMetricNormalize {}

impl OtlpMetricNormalize {
    /// Converts a metric to a total: a change is added to the total of its series in `state`.
    pub fn normalize(&self, state: &mut MetricSet, metric: Metric) -> (normalized: Option<Metric>)
        ensures
            normalized matches Some(total) && total@ == absolute_of(old(state)@, metric@),
            final(state)@ == totals_with(old(state)@, metric@),
    {
        state.make_absolute(metric)
    }
}

/// The number that says how the points of data relate to the time before them, where data says so.
pub open spec fn temporality_in(data: SpecData) -> Option<i32> {
    match data {
        SpecData::Sum { aggregation_temporality, .. } => Some(aggregation_temporality),
        SpecData::Histogram { aggregation_temporality, .. } => Some(aggregation_temporality),
        _ => None,
    }
}

/// What is sent of a total is marked as cumulative.
pub proof fn law_data_is_cumulative(metric: SpecMetric)
    requires
        metric.kind == MetricKind::Absolute,
    ensures
        otlp_metric_of(metric).data matches Some(data) && (temporality_in(data) matches Some(
            number,
        ) ==> number == temporality_number(AggregationTemporality::Cumulative)),
{
}

/// Counters are monotonic.
pub proof fn law_counters_are_monotonic(metric: SpecMetric)
    requires
        metric.value is Counter,
    ensures
        otlp_metric_of(metric).data matches Some(SpecData::Sum { is_monotonic, .. })
            && is_monotonic,
{
}

/// The buckets of a histogram whose only infinite limit is its last are one more than its bounds.
pub proof fn law_histogram_has_one_count_more_than_bounds(buckets: Seq<Bucket>)
    requires
        buckets.len() > 0,
        buckets.last().upper_limit.bits == INFINITY_BITS,
        forall|i: int|
            0 <= i < buckets.len() - 1 ==> (#[trigger] buckets[i]).upper_limit.bits
                != INFINITY_BITS,
    ensures
        counts_of(buckets).len() == finite_limits(buckets).len() + 1,
{
    lemma_finite_limits(buckets.drop_last());
}

proof fn lemma_finite_limits(buckets: Seq<Bucket>)
    requires
        forall|i: int|
            0 <= i < buckets.len() ==> (#[trigger] buckets[i]).upper_limit.bits != INFINITY_BITS,
    ensures
        finite_limits(buckets).len() == buckets.len(),
    decreases buckets.len(),
{
    if buckets.len() > 0 {
        assert forall|i: int| 0 <= i < buckets.drop_last().len() implies (
        #[trigger] buckets.drop_last()[i]).upper_limit.bits != INFINITY_BITS by {
            assert(buckets.drop_last()[i] == buckets[i]);
        }
        lemma_finite_limits(buckets.drop_last());
        assert(buckets[buckets.len() - 1].upper_limit.bits != INFINITY_BITS);
    }
}

}
