//! What holds of changes that are sent as totals.
//!
//! Changes are added up by name and tags. The laws speak of the metrics of all batches since the
//! start, one after the other.
use vstd::prelude::*;
use crate::addition::sum_of;
use crate::metric::{Bucket, MetricKind, Sample, SpecMetric, SpecMetricValue, StatisticKind};
use crate::totals::{
    added, is_change_of, law_batches_count_on, law_changes_are_added_up,
    law_first_change_counts_on, law_total_is_remembered, normalized, series_of, total_after,
    total_in, totals_from, with_members, SpecSeries,
};
use crate::number::at_most;
use crate::value::Double;

verus! {

/// The metrics as they are sent, where nothing was counted before them.
pub open spec fn sent_from_start(metrics: Seq<SpecMetric>) -> Seq<SpecMetric> {
    normalized(Seq::empty(), metrics)
}

/// Whether a metric is a change of what has this name and these tags.
pub open spec fn changes(
    metric: SpecMetric,
    name: Seq<char>,
    tags: Option<Seq<(Seq<char>, Seq<Option<Seq<char>>>)>>,
) -> bool {
    metric.kind == MetricKind::Incremental && metric.name == name && metric.tags == tags
}

/// The changes of what has this name and these tags, in their order.
pub open spec fn changes_of(
    metrics: Seq<SpecMetric>,
    name: Seq<char>,
    tags: Option<Seq<(Seq<char>, Seq<Option<Seq<char>>>)>>,
) -> Seq<SpecMetric> {
    metrics.filter(|metric: SpecMetric| changes(metric, name, tags))
}

/// The first change for a name and tags is sent as it came, whatever changes with another name or
/// with other tags came before it.
pub proof fn law_first_change_is_sent_as_it_came(metrics: Seq<SpecMetric>, i: int)
    requires
        0 <= i < metrics.len(),
        forall|k: int|
            0 <= k < i ==> !changes(#[trigger] metrics[k], metrics[i].name, metrics[i].tags),
    ensures
        sent_from_start(metrics)[i].value == metrics[i].value,
{
    if metrics[i].kind == MetricKind::Incremental {
        assert forall|k: int| 0 <= k < i implies !is_change_of(
            #[trigger] metrics[k],
            series_of(metrics[i]),
        ) by {
            assert(!changes(metrics[k], metrics[i].name, metrics[i].tags));
        }
        law_first_change_counts_on(Seq::empty(), metrics, i);
    }
}

/// What comes as a total is sent as it came, whatever came before it.
pub proof fn law_total_is_sent_as_it_came(
    before: Seq<(SpecSeries, SpecMetricValue)>,
    metrics: Seq<SpecMetric>,
    i: int,
)
    requires
        0 <= i < metrics.len(),
        metrics[i].kind == MetricKind::Absolute,
    ensures
        normalized(before, metrics)[i].value == metrics[i].value,
{
}

proof fn lemma_only_own_changes(metrics: Seq<SpecMetric>, series: SpecSeries)
    ensures
        total_in(totals_from(Seq::empty(), metrics), series) == total_in(
            totals_from(Seq::empty(), changes_of(metrics, series.name, series.tags)),
            series,
        ),
    decreases metrics.len(),
{
    reveal(Seq::filter);
    let none = Seq::<(SpecSeries, SpecMetricValue)>::empty();
    if metrics.len() > 0 {
        let rest = metrics.drop_last();
        let last = metrics.last();
        lemma_only_own_changes(rest, series);
        let own = changes_of(rest, series.name, series.tags);
        let before = totals_from(none, rest);
        law_total_is_remembered(before, series_of(last), total_after(before, last), series);
        if changes(last, series.name, series.tags) {
            assert(own.push(last).drop_last() =~= own);
            let few = totals_from(none, own);
            law_total_is_remembered(few, series_of(last), total_after(few, last), series);
            assert(series_of(last) == series);
        }
    }
}

/// What a change is sent as depends on the changes before it with the same name and the same tags
/// alone: where those are the same, it is sent as the same, whatever else came before it.
pub proof fn law_total_depends_on_its_own_changes(
    one: Seq<SpecMetric>,
    i: int,
    other: Seq<SpecMetric>,
    j: int,
)
    requires
        0 <= i < one.len(),
        0 <= j < other.len(),
        one[i] == other[j],
        changes_of(one.take(i), one[i].name, one[i].tags) == changes_of(
            other.take(j),
            one[i].name,
            one[i].tags,
        ),
    ensures
        sent_from_start(one)[i] == sent_from_start(other)[j],
{
    let series = series_of(one[i]);
    lemma_only_own_changes(one.take(i), SpecSeries { name: one[i].name, tags: one[i].tags });
    lemma_only_own_changes(other.take(j), SpecSeries { name: one[i].name, tags: one[i].tags });
}

/// A change is added to what the change before it was sent as, the last one before it with the same
/// name and the same tags: numbers are added.
pub proof fn law_numbers_are_added(
    before: Seq<(SpecSeries, SpecMetricValue)>,
    metrics: Seq<SpecMetric>,
    j: int,
    i: int,
    a: Double,
    b: Double,
)
    requires
        follows(metrics, j, i),
    ensures
        normalized(before, metrics)[j].value == (SpecMetricValue::Counter { value: a })
            && metrics[i].value == (SpecMetricValue::Counter { value: b }) ==> normalized(
            before,
            metrics,
        )[i].value == (SpecMetricValue::Counter { value: sum_of(a, b) }),
        normalized(before, metrics)[j].value == (SpecMetricValue::Gauge { value: a })
            && metrics[i].value == (SpecMetricValue::Gauge { value: b }) ==> normalized(
            before,
            metrics,
        )[i].value == (SpecMetricValue::Gauge { value: sum_of(a, b) }),
{
    lemma_follows(before, metrics, j, i);
}

/// Whether the change at place `i` comes next after the one at place `j` with the same name and the
/// same tags.
pub open spec fn follows(metrics: Seq<SpecMetric>, j: int, i: int) -> bool {
    &&& 0 <= j < i < metrics.len()
    &&& metrics[i].kind == MetricKind::Incremental
    &&& changes(metrics[j], metrics[i].name, metrics[i].tags)
    &&& forall|k: int|
        j < k < i ==> !changes(#[trigger] metrics[k], metrics[i].name, metrics[i].tags)
}

proof fn lemma_follows(
    before: Seq<(SpecSeries, SpecMetricValue)>,
    metrics: Seq<SpecMetric>,
    j: int,
    i: int,
)
    requires
        follows(metrics, j, i),
    ensures
        normalized(before, metrics)[i].value == (match added(
            normalized(before, metrics)[j].value,
            metrics[i].value,
        ) {
            Some(sum) => sum,
            None => metrics[i].value,
        }),
{
    assert forall|k: int| j < k < i implies !is_change_of(
        #[trigger] metrics[k],
        series_of(metrics[i]),
    ) by {
        assert(!changes(metrics[k], metrics[i].name, metrics[i].tags));
    }
    law_changes_are_added_up(before, metrics, j, i);
}

/// Sets are joined: a text is in the total where it is in either, and nothing is twice in it.
pub proof fn law_sets_are_joined(
    before: Seq<(SpecSeries, SpecMetricValue)>,
    metrics: Seq<SpecMetric>,
    j: int,
    i: int,
    a: Seq<Seq<char>>,
    b: Seq<Seq<char>>,
    text: Seq<char>,
)
    requires
        follows(metrics, j, i),
        normalized(before, metrics)[j].value == (SpecMetricValue::UniqueValues { values: a }),
        metrics[i].value == (SpecMetricValue::UniqueValues { values: b }),
    ensures
        normalized(before, metrics)[i].value matches SpecMetricValue::UniqueValues { values } && (
        values.contains(text) <==> a.contains(text) || b.contains(text)) && (a.no_duplicates()
            ==> values.no_duplicates()),
{
    lemma_follows(before, metrics, j, i);
    lemma_with_members(a, b, text);
}

proof fn lemma_with_members(a: Seq<Seq<char>>, b: Seq<Seq<char>>, text: Seq<char>)
    ensures
        with_members(a, b).contains(text) <==> a.contains(text) || b.contains(text),
        a.no_duplicates() ==> with_members(a, b).no_duplicates(),
    decreases b.len(),
{
    if b.len() > 0 {
        let rest = b.drop_last();
        let so_far = with_members(a, rest);
        lemma_with_members(a, rest, text);
        crate::metric::law_member_is_in(so_far, b.last(), text);
        assert(b[b.len() - 1] == b.last());
        if b.contains(text) && b.last() != text {
            let k = choose|k: int| 0 <= k < b.len() && b[k] == text;
            assert(rest[k] == text);
        }
        if rest.contains(text) {
            let k = choose|k: int| 0 <= k < rest.len() && rest[k] == text;
            assert(b[k] == text);
        }
    }
}

/// The samples of distributions for the same end follow one another.
pub proof fn law_samples_follow_one_another(
    before: Seq<(SpecSeries, SpecMetricValue)>,
    metrics: Seq<SpecMetric>,
    j: int,
    i: int,
    a: Seq<Sample>,
    b: Seq<Sample>,
    x: StatisticKind,
    y: StatisticKind,
)
    requires
        follows(metrics, j, i),
        normalized(before, metrics)[j].value == (SpecMetricValue::Distribution {
            samples: a,
            statistic: x,
        }),
        metrics[i].value == (SpecMetricValue::Distribution { samples: b, statistic: y }),
    ensures
        x == y ==> normalized(before, metrics)[i].value == (SpecMetricValue::Distribution {
            samples: a + b,
            statistic: x,
        }),
        x != y ==> normalized(before, metrics)[i].value == metrics[i].value,
{
    lemma_follows(before, metrics, j, i);
}

/// The counts and sums of histograms with the same limits are added, bucket by bucket.
pub proof fn law_buckets_are_added(
    before: Seq<(SpecSeries, SpecMetricValue)>,
    metrics: Seq<SpecMetric>,
    j: int,
    i: int,
    a: Seq<Bucket>,
    m: u64,
    x: Double,
    b: Seq<Bucket>,
    n: u64,
    y: Double,
    k: int,
)
    requires
        follows(metrics, j, i),
        normalized(before, metrics)[j].value == (SpecMetricValue::AggregatedHistogram {
            buckets: a,
            count: m,
            sum: x,
        }),
        metrics[i].value == (SpecMetricValue::AggregatedHistogram { buckets: b, count: n, sum: y }),
        a.len() == b.len(),
        forall|at: int|
            0 <= at < a.len() ==> at_most((#[trigger] a[at]).upper_limit, b[at].upper_limit)
                && at_most(b[at].upper_limit, a[at].upper_limit),
    ensures
        normalized(before, metrics)[i].value matches SpecMetricValue::AggregatedHistogram {
            buckets,
            count,
            sum,
        } && sum == sum_of(x, y) && count == (m + n) % 0x1_0000_0000_0000_0000 && buckets.len()
            == a.len() && (0 <= k < a.len() ==> buckets[k].upper_limit == a[k].upper_limit
            && buckets[k].count == (a[k].count + b[k].count) % 0x1_0000_0000_0000_0000),
{
    lemma_follows(before, metrics, j, i);
}

/// What cannot be added is sent as it came: summaries, histograms with other limits, and values of
/// another kind than the one before.
pub proof fn law_what_cannot_be_added(
    before: Seq<(SpecSeries, SpecMetricValue)>,
    metrics: Seq<SpecMetric>,
    j: int,
    i: int,
    k: int,
)
    requires
        follows(metrics, j, i),
    ensures
        metrics[i].value is AggregatedSummary ==> normalized(before, metrics)[i].value
            == metrics[i].value,
        metrics[i].value is Counter && !(normalized(before, metrics)[j].value is Counter)
            ==> normalized(before, metrics)[i].value == metrics[i].value,
        metrics[i].value is Gauge && !(normalized(before, metrics)[j].value is Gauge)
            ==> normalized(before, metrics)[i].value == metrics[i].value,
        metrics[i].value is UniqueValues && !(normalized(before, metrics)[j].value is UniqueValues)
            ==> normalized(before, metrics)[i].value == metrics[i].value,
        metrics[i].value is Distribution && !(normalized(before, metrics)[j].value is Distribution)
            ==> normalized(before, metrics)[i].value == metrics[i].value,
        metrics[i].value is AggregatedHistogram && !(normalized(
            before,
            metrics,
        )[j].value is AggregatedHistogram) ==> normalized(before, metrics)[i].value
            == metrics[i].value,
        normalized(before, metrics)[j].value matches SpecMetricValue::AggregatedHistogram {
            buckets: a,
            ..
        } ==> (metrics[i].value matches SpecMetricValue::AggregatedHistogram { buckets: b, .. } ==> (
        a.len() != b.len() || 0 <= k < a.len() && !(at_most(a[k].upper_limit, b[k].upper_limit)
            && at_most(b[k].upper_limit, a[k].upper_limit)) ==> normalized(before, metrics)[i].value
            == metrics[i].value)),
{
    lemma_follows(before, metrics, j, i);
    if let SpecMetricValue::AggregatedHistogram { buckets: a, .. } = normalized(
        before,
        metrics,
    )[j].value {
        assert(0 <= k < a.len() ==> a[k] == a[k]);
    }
}

/// The same holds from batch to batch: what was sent in batches one after the other is what would
/// have been sent in one.
pub proof fn law_batches_are_one(one: Seq<SpecMetric>, next: Seq<SpecMetric>)
    ensures
        normalized(totals_from(Seq::empty(), one), next) == sent_from_start(one + next).skip(
            one.len() as int,
        ),
{
    law_batches_count_on(Seq::empty(), one, next);
    let later = normalized(totals_from(Seq::empty(), one), next);
    assert((sent_from_start(one) + later).skip(one.len() as int) =~= later);
}

}
