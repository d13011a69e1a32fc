//! What holds of the metrics that are sent.
//!
//! The laws speak of the protocol metric that is sent for a metric, whatever its batch and its
//! resource are.
use vstd::prelude::*;
use vstd::arithmetic::power2::*;
use crate::distribution::{
    bucket_bounds, greatest, law_bucket_counts_samples_at_most_bound, law_last_bucket_counts_all,
    least, samples_at_most, total,
};
use crate::addition::sum_of;
use crate::encoder::told_metric;
use crate::entries::{in_nanos, lemma_as_unsigned, nanos_after_epoch, unsigned};
use crate::metric::{
    Bucket, MetricSketch, Quantile, Sample, SketchSummary, SpecMetric, SpecMetricValue,
};
use crate::metrics::{finite_limits, tag_attributes, tag_pairs};
use crate::number::{at_most, is_nan, law_small_numbers_exact, law_whole_numbers};
use crate::proto::{SpecAnyValue, SpecData, SpecKeyValue, SpecOtlpMetric};
use crate::settings::SpecResourceSettings;
use crate::sketch::{law_share_is_near, quantile_units, share, sketch_buckets};
use crate::value::{Double, SpecTimestamp};

verus! {

/// What is sent for a metric.
pub open spec fn sent_metric(settings: SpecResourceSettings, metric: SpecMetric) -> SpecOtlpMetric {
    told_metric(settings, metric).item
}

/// Whether there is one point, with this time.
pub open spec fn one_point_at(data: SpecData, time: int) -> bool {
    match data {
        SpecData::Gauge { gauge_points } => gauge_points.len() == 1
            && gauge_points[0].time_unix_nano == time,
        SpecData::Sum { sum_points, .. } => sum_points.len() == 1 && sum_points[0].time_unix_nano
            == time,
        SpecData::Histogram { histogram_points, .. } => histogram_points.len() == 1
            && histogram_points[0].time_unix_nano == time,
        SpecData::Summary { summary_points } => summary_points.len() == 1
            && summary_points[0].time_unix_nano == time,
    }
}

/// Whether there is one point, with these attributes, since an unknown start and without flags.
pub open spec fn one_point_with(data: SpecData, attributes: Seq<SpecKeyValue>) -> bool {
    match data {
        SpecData::Gauge { gauge_points } => gauge_points.len() == 1 && gauge_points[0].attributes
            == attributes && gauge_points[0].start_time_unix_nano == 0 && gauge_points[0].flags
            == 0,
        SpecData::Sum { sum_points, .. } => sum_points.len() == 1 && sum_points[0].attributes
            == attributes && sum_points[0].start_time_unix_nano == 0 && sum_points[0].flags == 0,
        SpecData::Histogram { histogram_points, .. } => histogram_points.len() == 1
            && histogram_points[0].attributes == attributes
            && histogram_points[0].start_time_unix_nano == 0 && histogram_points[0].flags == 0,
        SpecData::Summary { summary_points } => summary_points.len() == 1
            && summary_points[0].attributes == attributes && summary_points[0].start_time_unix_nano
            == 0 && summary_points[0].flags == 0,
    }
}

/// The point of every metric, whatever its kind, has the time of the metric, in nanoseconds after
/// the epoch; zero where it has none, or one that an `i64` cannot hold.
pub proof fn law_points_have_the_time_of_the_metric(
    settings: SpecResourceSettings,
    metric: SpecMetric,
    time: SpecTimestamp,
)
    ensures
        metric.timestamp == Some(time) && in_nanos(time) ==> (sent_metric(
            settings,
            metric,
        ).data matches Some(data) && one_point_at(data, unsigned(nanos_after_epoch(time)))),
        metric.timestamp is None || metric.timestamp == Some(time) && !in_nanos(time) ==> (
        sent_metric(settings, metric).data matches Some(data) && one_point_at(data, 0)),
{
    lemma_as_unsigned(nanos_after_epoch(time) as i64);
}

/// A metric keeps its name, and has neither a description nor a unit.
pub proof fn law_metric_keeps_its_name(settings: SpecResourceSettings, metric: SpecMetric)
    ensures
        sent_metric(settings, metric).name == metric.name,
        sent_metric(settings, metric).description.len() == 0,
        sent_metric(settings, metric).unit.len() == 0,
{
}

/// The attribute for one value of a tag: its text, or an empty one.
pub open spec fn attribute_for_tag(name: Seq<char>, value: Option<Seq<char>>) -> SpecKeyValue {
    SpecKeyValue {
        key: name,
        value: Some(
            SpecAnyValue::Text(
                match value {
                    Some(text) => text,
                    None => Seq::empty(),
                },
            ),
        ),
    }
}

/// The attributes for one tag, one for each of its values.
pub open spec fn attributes_for_tag(tag: (Seq<char>, Seq<Option<Seq<char>>>)) -> Seq<SpecKeyValue> {
    tag.1.map_values(|value: Option<Seq<char>>| attribute_for_tag(tag.0, value))
}

/// The attributes for tags, in their order.
pub open spec fn attributes_for_tags(tags: Seq<(Seq<char>, Seq<Option<Seq<char>>>)>) -> Seq<
    SpecKeyValue,
> {
    tags.map_values(|tag: (Seq<char>, Seq<Option<Seq<char>>>)| attributes_for_tag(tag)).flatten()
}

proof fn lemma_attributes_for_tags(tags: Seq<(Seq<char>, Seq<Option<Seq<char>>>)>)
    ensures
        tag_attributes(tags) == attributes_for_tags(tags),
    decreases tags.len(),
{
    let all = tags.map_values(
        |tag: (Seq<char>, Seq<Option<Seq<char>>>)| attributes_for_tag(tag),
    );
    all.lemma_flatten_and_flatten_alt_are_equivalent();
    if tags.len() > 0 {
        let rest = tags.drop_last();
        let before = rest.map_values(
            |tag: (Seq<char>, Seq<Option<Seq<char>>>)| attributes_for_tag(tag),
        );
        lemma_attributes_for_tags(rest);
        before.lemma_flatten_and_flatten_alt_are_equivalent();
        assert(all.drop_last() =~= before);
        assert(tag_pairs(tags.last().0, tags.last().1) =~= attributes_for_tag(tags.last()));
        assert(all.last() == attributes_for_tag(tags.last()));
    }
}

/// The point of every metric has an attribute for each value of each tag of the metric, in their
/// order, and no others.
pub proof fn law_points_have_the_tags_of_the_metric(
    settings: SpecResourceSettings,
    metric: SpecMetric,
    tags: Seq<(Seq<char>, Seq<Option<Seq<char>>>)>,
)
    ensures
        metric.tags == Some(tags) ==> (sent_metric(settings, metric).data matches Some(data)
            && one_point_with(data, attributes_for_tags(tags))),
        metric.tags is None ==> (sent_metric(settings, metric).data matches Some(data)
            && one_point_with(data, Seq::empty())),
{
    lemma_attributes_for_tags(tags);
}

/// A counter is sent as a cumulative, monotonic sum with its value.
pub proof fn law_counter_is_a_sum(
    settings: SpecResourceSettings,
    metric: SpecMetric,
    value: Double,
)
    requires
        metric.value == (SpecMetricValue::Counter { value }),
    ensures
        sent_metric(settings, metric).data matches Some(
            SpecData::Sum { sum_points, aggregation_temporality, is_monotonic },
        ) && sum_points.len() == 1 && sum_points[0].value == Some(value) && aggregation_temporality
            == 2 && is_monotonic,
{
}

/// A gauge is sent as a gauge with its value.
pub proof fn law_gauge_is_a_gauge(
    settings: SpecResourceSettings,
    metric: SpecMetric,
    value: Double,
)
    requires
        metric.value == (SpecMetricValue::Gauge { value }),
    ensures
        sent_metric(settings, metric).data matches Some(SpecData::Gauge { gauge_points })
            && gauge_points.len() == 1 && gauge_points[0].value == Some(value),
{
}

/// The limits of buckets but those without an end, in their order.
pub open spec fn limits_with_an_end(buckets: Seq<Bucket>) -> Seq<Double> {
    buckets.filter(
        |bucket: Bucket| bucket.upper_limit.bits != 0x7FF0_0000_0000_0000,
    ).map_values(|bucket: Bucket| bucket.upper_limit)
}

proof fn lemma_limits(buckets: Seq<Bucket>)
    ensures
        finite_limits(buckets) == limits_with_an_end(buckets),
    decreases buckets.len(),
{
    reveal(Seq::filter);
    if buckets.len() > 0 {
        lemma_limits(buckets.drop_last());
    }
    assert(finite_limits(buckets) =~= limits_with_an_end(buckets));
}

/// A histogram is sent as a cumulative histogram with its count, its sum, the counts of all its
/// buckets, and their limits but for the one without an end. It tells no least and no greatest
/// value.
pub proof fn law_histogram_keeps_its_buckets(
    settings: SpecResourceSettings,
    metric: SpecMetric,
    buckets: Seq<Bucket>,
    count: u64,
    sum: Double,
)
    requires
        metric.value == (SpecMetricValue::AggregatedHistogram { buckets, count, sum }),
    ensures
        sent_metric(settings, metric).data matches Some(
            SpecData::Histogram { histogram_points, aggregation_temporality },
        ) && aggregation_temporality == 2 && histogram_points.len() == 1
            && histogram_points[0].count == count && histogram_points[0].sum == Some(sum)
            && histogram_points[0].min is None && histogram_points[0].max is None
            && histogram_points[0].bucket_counts == buckets.map_values(
            |bucket: Bucket| bucket.count,
        ) && histogram_points[0].explicit_bounds == limits_with_an_end(buckets),
{
    lemma_limits(buckets);
    assert(crate::metrics::counts_of(buckets) =~= buckets.map_values(
        |bucket: Bucket| bucket.count,
    ));
}

/// A summary is sent as a summary with its count, its sum and all its quantiles.
pub proof fn law_summary_keeps_its_quantiles(
    settings: SpecResourceSettings,
    metric: SpecMetric,
    quantiles: Seq<Quantile>,
    count: u64,
    sum: Double,
    i: int,
)
    requires
        metric.value == (SpecMetricValue::AggregatedSummary { quantiles, count, sum }),
    ensures
        sent_metric(settings, metric).data matches Some(SpecData::Summary { summary_points })
            && summary_points.len() == 1 && summary_points[0].count == count
            && summary_points[0].sum == sum && summary_points[0].quantile_values.len()
            == quantiles.len() && (0 <= i < quantiles.len()
            ==> summary_points[0].quantile_values[i].quantile == quantiles[i].quantile
            && summary_points[0].quantile_values[i].value == quantiles[i].value),
{
}

/// A set is sent as a gauge of the number of its members, each of which it holds once.
pub proof fn law_set_is_its_size(
    settings: SpecResourceSettings,
    metric: SpecMetric,
    values: Seq<Seq<char>>,
)
    requires
        metric.value == (SpecMetricValue::UniqueValues { values }),
    ensures
        sent_metric(settings, metric).data matches Some(SpecData::Gauge { gauge_points })
            && gauge_points.len() == 1 && gauge_points[0].value == Some(
            crate::metrics::cardinality(values.len()),
        ),
{
}

/// The samples added up, in their order.
pub open spec fn sum_of_samples(samples: Seq<Sample>) -> Double {
    samples.fold_left(
        Double { bits: 0 },
        |sum: Double, sample: Sample| sum_of(sum, sample.value),
    )
}

proof fn lemma_sum_of_samples(samples: Seq<Sample>)
    ensures
        total(samples) == sum_of_samples(samples),
    decreases samples.len(),
{
    if samples.len() > 0 {
        lemma_sum_of_samples(samples.drop_last());
    }
}

/// The samples that are at most a bound.
pub open spec fn those_at_most(samples: Seq<Sample>, bound: Double) -> Seq<Sample> {
    samples.filter(|sample: Sample| at_most(sample.value, bound))
}

proof fn lemma_those_at_most(samples: Seq<Sample>, bound: Double)
    ensures
        samples_at_most(samples, bound) == those_at_most(samples, bound).len(),
        those_at_most(samples, bound).len() <= samples.len(),
    decreases samples.len(),
{
    reveal(Seq::filter);
    if samples.len() > 0 {
        lemma_those_at_most(samples.drop_last(), bound);
    }
}

/// A distribution is sent as a cumulative histogram with the number of its samples and their sum,
/// and with the least and the greatest of them.
pub proof fn law_distribution_counts_its_samples(
    settings: SpecResourceSettings,
    metric: SpecMetric,
    samples: Seq<Sample>,
)
    requires
        metric.value matches SpecMetricValue::Distribution { samples: held, .. } && held == samples,
        samples.len() <= u64::MAX,
    ensures
        sent_metric(settings, metric).data matches Some(
            SpecData::Histogram { histogram_points, aggregation_temporality },
        ) && aggregation_temporality == 2 && histogram_points.len() == 1
            && histogram_points[0].count == samples.len() && histogram_points[0].sum == Some(
            sum_of_samples(samples),
        ) && histogram_points[0].min == Some(least(samples)) && histogram_points[0].max == Some(
            greatest(samples),
        ),
{
    lemma_sum_of_samples(samples);
}

/// The least of the samples of a distribution is one of them, or infinite where none is a number;
/// the greatest likewise.
pub proof fn law_extremes_are_samples(samples: Seq<Sample>)
    ensures
        (exists|i: int| 0 <= i < samples.len() && #[trigger] samples[i].value == least(samples))
            || least(samples).bits == 0x7FF0_0000_0000_0000 && forall|i: int|
            0 <= i < samples.len() ==> is_nan(#[trigger] samples[i].value) || !at_most(
                samples[i].value,
                Double { bits: 0x7FEF_FFFF_FFFF_FFFF },
            ),
        (exists|i: int| 0 <= i < samples.len() && #[trigger] samples[i].value == greatest(samples))
            || greatest(samples).bits == 0xFFF0_0000_0000_0000 && forall|i: int|
            0 <= i < samples.len() ==> is_nan(#[trigger] samples[i].value) || !at_most(
                Double { bits: 0xFFEF_FFFF_FFFF_FFFF },
                samples[i].value,
            ),
    decreases samples.len(),
{
    if samples.len() > 0 {
        let rest = samples.drop_last();
        let end = samples.len() - 1;
        law_extremes_are_samples(rest);
        assert(samples[end] == samples.last());
        assert forall|i: int| 0 <= i < rest.len() implies rest[i] == #[trigger] samples[i] by {}
        if least(samples) != samples[end].value {
            assert(least(samples) == least(rest));
            if exists|i: int| 0 <= i < rest.len() && #[trigger] rest[i].value == least(rest) {
                let i = choose|i: int|
                    0 <= i < rest.len() && #[trigger] rest[i].value == least(rest);
                assert(samples[i].value == least(samples));
            }
        }
        if greatest(samples) != samples[end].value {
            assert(greatest(samples) == greatest(rest));
            if exists|i: int| 0 <= i < rest.len() && #[trigger] rest[i].value == greatest(rest) {
                let i = choose|i: int|
                    0 <= i < rest.len() && #[trigger] rest[i].value == greatest(rest);
                assert(samples[i].value == greatest(samples));
            }
        }
    }
}

/// The bounds of the buckets of a distribution are 0.1, 1, 10 and so on to ten million. Each bucket
/// but the last counts the samples that are at most its bound, and the last counts all.
pub proof fn law_distribution_buckets(
    settings: SpecResourceSettings,
    metric: SpecMetric,
    samples: Seq<Sample>,
    bucket: int,
)
    requires
        metric.value matches SpecMetricValue::Distribution { samples: held, .. } && held == samples,
        samples.len() <= u64::MAX,
        0 <= bucket < 9,
    ensures
        sent_metric(settings, metric).data matches Some(
            SpecData::Histogram { histogram_points, .. },
        ) && histogram_points.len() == 1 && histogram_points[0].explicit_bounds == seq![
            Double { bits: 0x3FB9_9999_9999_999A },
            Double { bits: 0x3FF0_0000_0000_0000 },
            Double { bits: 0x4024_0000_0000_0000 },
            Double { bits: 0x4059_0000_0000_0000 },
            Double { bits: 0x408F_4000_0000_0000 },
            Double { bits: 0x40C3_8800_0000_0000 },
            Double { bits: 0x40F8_6A00_0000_0000 },
            Double { bits: 0x412E_8480_0000_0000 },
            Double { bits: 0x4163_12D0_0000_0000 },
        ] && histogram_points[0].bucket_counts.len() == 10
            && histogram_points[0].bucket_counts[bucket] == those_at_most(
            samples,
            histogram_points[0].explicit_bounds[bucket],
        ).len() && histogram_points[0].bucket_counts[9] == samples.len(),
{
    law_bucket_counts_samples_at_most_bound(samples, bucket);
    lemma_those_at_most(samples, bucket_bounds()[bucket]);
    law_last_bucket_counts_all(samples);
}

/// A sketch is sent as a cumulative histogram with the count, the sum, the least and the greatest
/// value that it tells.
pub proof fn law_sketch_keeps_its_summary(
    settings: SpecResourceSettings,
    metric: SpecMetric,
    sketch: SketchSummary,
)
    requires
        metric.value == (SpecMetricValue::Sketch { sketch: MetricSketch::AgentDDSketch(sketch) }),
    ensures
        sent_metric(settings, metric).data matches Some(
            SpecData::Histogram { histogram_points, aggregation_temporality },
        ) && aggregation_temporality == 2 && histogram_points.len() == 1
            && histogram_points[0].count == sketch.count && histogram_points[0].sum == sketch.sum
            && histogram_points[0].min == sketch.min && histogram_points[0].max == sketch.max
            && histogram_points[0].explicit_bounds == values_there_are(sketch.quantiles@)
            && histogram_points[0].bucket_counts.len()
            == histogram_points[0].explicit_bounds.len() + 1,
{
    lemma_values_there_are(sketch.quantiles@, sketch.count as nat, 7);
    assert(sketch.quantiles@.take(7) =~= sketch.quantiles@);
    crate::sketch::law_sketch_has_one_count_more_than_bounds(sketch);
}

/// The values that there are, in their order.
pub open spec fn values_there_are(values: Seq<Option<Double>>) -> Seq<Double> {
    values.filter(|value: Option<Double>| value is Some).map_values(
        |value: Option<Double>| value->0,
    )
}

proof fn lemma_values_there_are(quantiles: Seq<Option<Double>>, count: nat, n: nat)
    requires
        n <= quantiles.len(),
    ensures
        sketch_buckets(quantiles, count, n).0 == values_there_are(quantiles.take(n as int)),
    decreases n,
{
    reveal(Seq::filter);
    if n > 0 {
        lemma_values_there_are(quantiles, count, (n - 1) as nat);
        assert(quantiles.take(n as int).drop_last() =~= quantiles.take(n - 1));
        assert(quantiles.take(n as int).last() == quantiles[n - 1]);
    }
    assert(sketch_buckets(quantiles, count, n).0 =~= values_there_are(quantiles.take(n as int)));
}

/// The quantiles of a sketch, in percent.
pub open spec fn percents() -> Seq<int> {
    seq![10, 25, 50, 75, 90, 95, 99]
}

/// The last of the first `n` quantiles that has a value, in percent; zero where there is none.
pub open spec fn percent_before(quantiles: Seq<Option<Double>>, n: nat) -> int
    decreases n,
{
    if n == 0 {
        0
    } else if quantiles[n - 1] is Some {
        percents()[n - 1]
    } else {
        percent_before(quantiles, (n - 1) as nat)
    }
}

proof fn lemma_units(n: int)
    requires
        0 <= n < 7,
    ensures
        -400 <= 100 * quantile_units()[n] - percents()[n] * 72057594037927936 <= 400,
        quantile_units()[n] <= 72057594037927936,
        n > 0 ==> quantile_units()[n - 1] < quantile_units()[n] && percents()[n - 1]
            < percents()[n],
        0 < percents()[n] < 100,
{
}

proof fn lemma_percent_before(quantiles: Seq<Option<Double>>, count: nat, n: nat)
    requires
        n <= 7,
        n <= quantiles.len(),
    ensures
        -400 <= 100 * sketch_buckets(quantiles, count, n).2 - percent_before(quantiles, n)
            * 72057594037927936 <= 400,
        sketch_buckets(quantiles, count, n).2 <= 72057594037927936,
        n < 7 ==> sketch_buckets(quantiles, count, n).2 <= quantile_units()[n as int],
        sketch_buckets(quantiles, count, n).1.len() == values_there_are(
            quantiles.take(n as int),
        ).len(),
        0 <= percent_before(quantiles, n) < 100,
    decreases n,
{
    lemma_values_there_are(quantiles, count, n);
    if n > 0 {
        lemma_percent_before(quantiles, count, (n - 1) as nat);
        lemma_values_there_are(quantiles, count, (n - 1) as nat);
        lemma_units(n - 1);
        if n < 7 {
            lemma_units(n as int);
        }
    }
}

/// Whether a count is the share of so many percent of all samples, to within one.
pub open spec fn is_share(part: u64, percent: int, count: u32) -> bool {
    part * 100 <= percent * count <= (part + 1) * 100
}

proof fn lemma_is_share(lower: nat, upper: nat, from: int, to: int, count: u32)
    requires
        lower <= upper <= 72057594037927936,
        0 <= from <= 100,
        0 <= to <= 100,
        -400 <= 100 * lower - from * 72057594037927936 <= 400,
        -400 <= 100 * upper - to * 72057594037927936 <= 400,
    ensures
        is_share(share(lower, upper, count as nat) as u64, to - from, count),
{
    let part = share(lower, upper, count as nat);
    law_share_is_near(lower, upper, count as nat);
    let d = (upper - lower) as nat;
    let exact = (to - from) * count;
    assert(100 * (d * count) <= exact * 72057594037927936 + 800 * count) by (nonlinear_arith)
        requires
            100 * d <= (to - from) * 72057594037927936 + 800,
            exact == (to - from) * count,
            count >= 0,
    ;
    assert(100 * (d * count) >= exact * 72057594037927936 - 800 * count) by (nonlinear_arith)
        requires
            100 * d >= (to - from) * 72057594037927936 - 800,
            exact == (to - from) * count,
            count >= 0,
    ;
}

/// The bucket of a quantile that has a value counts the share of the samples between the quantile
/// before it and itself, to within one; the last bucket counts the share above them all.
pub proof fn law_sketch_buckets_are_shares(
    settings: SpecResourceSettings,
    metric: SpecMetric,
    sketch: SketchSummary,
    n: nat,
)
    requires
        metric.value == (SpecMetricValue::Sketch { sketch: MetricSketch::AgentDDSketch(sketch) }),
        n < 7,
    ensures
        sent_metric(settings, metric).data matches Some(
            SpecData::Histogram { histogram_points, .. },
        ) && histogram_points.len() == 1 && (sketch.quantiles@[n as int] is Some ==> is_share(
            histogram_points[0].bucket_counts[values_there_are(
                sketch.quantiles@.take(n as int),
            ).len() as int],
            percents()[n as int] - percent_before(sketch.quantiles@, n),
            sketch.count,
        )) && is_share(
            histogram_points[0].bucket_counts.last(),
            100 - percent_before(sketch.quantiles@, 7),
            sketch.count,
        ),
{
    let quantiles = sketch.quantiles@;
    let count = sketch.count as nat;
    lemma_percent_before(quantiles, count, n);
    lemma_percent_before(quantiles, count, 7);
    lemma_units(n as int);
    let last = sketch_buckets(quantiles, count, n).2 as nat;
    lemma_is_share(
        last,
        quantile_units()[n as int] as nat,
        percent_before(quantiles, n),
        percents()[n as int],
        sketch.count,
    );
    lemma_is_share(
        sketch_buckets(quantiles, count, 7).2 as nat,
        72057594037927936,
        percent_before(quantiles, 7),
        100,
        sketch.count,
    );
    if quantiles[n as int] is Some {
        let at = sketch_buckets(quantiles, count, n).1.len() as int;
        lemma_bucket_stays(quantiles, count, n + 1, 7, at);
    }
}

proof fn lemma_bucket_stays(
    quantiles: Seq<Option<Double>>,
    count: nat,
    n: nat,
    m: nat,
    i: int,
)
    requires
        n <= m,
        0 <= i < sketch_buckets(quantiles, count, n).1.len(),
    ensures
        i < sketch_buckets(quantiles, count, m).1.len(),
        sketch_buckets(quantiles, count, m).1[i] == sketch_buckets(quantiles, count, n).1[i],
    decreases m,
{
    if n < m {
        lemma_bucket_stays(quantiles, count, n, (m - 1) as nat, i);
    }
}

/// The size of a set is sent as the double that is this number: so many powers of two below it, and
/// the rest in the places after them.
pub proof fn law_size_of_a_set(members: nat, power: nat)
    requires
        pow2(power) <= members < 2 * pow2(power),
        members < 0x20_0000_0000_0000,
    ensures
        0 <= crate::metrics::cardinality(members).bits - (1023 + power) * 0x10_0000_0000_0000
            < 0x10_0000_0000_0000,
        (crate::metrics::cardinality(members).bits - (1023 + power) * 0x10_0000_0000_0000) * pow2(
            power,
        ) == (members - pow2(power)) * 0x10_0000_0000_0000,
        crate::metrics::cardinality(0).bits == 0,
{
    law_small_numbers_exact(members);
    law_small_numbers_exact(0);
    law_whole_numbers(members, power);
}

}
