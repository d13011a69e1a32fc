//! Running totals.
//!
//! Some metrics tell a change, and others a total. What is sent is always a total: a change becomes
//! the sum of all changes of its series so far, and a total is sent as it came.
use vstd::prelude::*;
use vstd::string::*;
use crate::addition::sum_of;
use crate::metric::{
    tag_values, with_member, Bucket, Metric, MetricKind, MetricTags, MetricValue, Quantile, Sample,
    SpecMetric, SpecMetricValue, TextSet,
};
use crate::number::at_most;
use crate::text::same_text;
use crate::value::Double;
use crate::views::view_option;

verus! {

/// What a metric is a point of: all metrics with one name and the same tags.
#[verifier::ext_equal]
pub struct SpecSeries {
    pub name: Seq<char>,
    pub tags: Option<Seq<(Seq<char>, Seq<Option<Seq<char>>>)>>,
}

/// The series that a metric is a point of.
pub open spec fn series_of(metric: SpecMetric) -> SpecSeries {
    SpecSeries { name: metric.name, tags: metric.tags }
}

/// Whether two numbers are equal. What is no number is equal to nothing.
pub open spec fn equal_numbers(a: Double, b: Double) -> bool {
    at_most(a, b) && at_most(b, a)
}

/// Whether two histograms have the same limits.
pub open spec fn same_limits(a: Seq<Bucket>, b: Seq<Bucket>) -> bool {
    &&& a.len() == b.len()
    &&& forall|i: int|
        0 <= i < a.len() ==> equal_numbers((#[trigger] a[i]).upper_limit, b[i].upper_limit)
}

/// The sum of two counts, without what goes beyond 64 bits.
pub open spec fn sum_of_counts(a: u64, b: u64) -> u64 {
    ((a + b) % 0x1_0000_0000_0000_0000) as u64
}

/// The buckets of two histograms with the same limits, added up.
pub open spec fn sum_of_buckets(a: Seq<Bucket>, b: Seq<Bucket>) -> Seq<Bucket> {
    Seq::new(
        a.len(),
        |i: int|
            Bucket {
                upper_limit: a[i].upper_limit,
                count: sum_of_counts(a[i].count, b[i].count),
            },
    )
}

/// The members of a set after those of another were put into it.
pub open spec fn with_members(members: Seq<Seq<char>>, more: Seq<Seq<char>>) -> Seq<Seq<char>>
    decreases more.len(),
{
    if more.len() == 0 {
        members
    } else {
        with_member(with_members(members, more.drop_last()), more.last())
    }
}

/// A total after a change, where the two can be added. Values of different kinds cannot, nor
/// distributions for different ends, nor histograms of different limits; summaries and the
/// summaries of sketches cannot be added at all.
pub open spec fn added(total: SpecMetricValue, change: SpecMetricValue) -> Option<
    SpecMetricValue,
> {
    match (total, change) {
        (SpecMetricValue::Counter { value: a }, SpecMetricValue::Counter { value: b }) => Some(
            SpecMetricValue::Counter { value: sum_of(a, b) },
        ),
        (SpecMetricValue::Gauge { value: a }, SpecMetricValue::Gauge { value: b }) => Some(
            SpecMetricValue::Gauge { value: sum_of(a, b) },
        ),
        (
            SpecMetricValue::UniqueValues { values: a },
            SpecMetricValue::UniqueValues { values: b },
        ) => Some(SpecMetricValue::UniqueValues { values: with_members(a, b) }),
        (
            SpecMetricValue::Distribution { samples: a, statistic: x },
            SpecMetricValue::Distribution { samples: b, statistic: y },
        ) => if x == y {
            Some(SpecMetricValue::Distribution { samples: a + b, statistic: x })
        } else {
            None
        },
        (
            SpecMetricValue::AggregatedHistogram { buckets: a, count: m, sum: x },
            SpecMetricValue::AggregatedHistogram { buckets: b, count: n, sum: y },
        ) => if same_limits(a, b) {
            Some(
                SpecMetricValue::AggregatedHistogram {
                    buckets: sum_of_buckets(a, b),
                    count: sum_of_counts(m, n),
                    sum: sum_of(x, y),
                },
            )
        } else {
            None
        },
        _ => None,
    }
}

/// Where a series has its total.
pub open spec fn series_index(
    totals: Seq<(SpecSeries, SpecMetricValue)>,
    series: SpecSeries,
) -> Option<int>
    decreases totals.len(),
{
    if totals.len() == 0 {
        None
    } else if totals.last().0 == series {
        Some(totals.len() - 1)
    } else {
        series_index(totals.drop_last(), series)
    }
}

/// The total of a series, if there is one yet.
pub open spec fn total_in(totals: Seq<(SpecSeries, SpecMetricValue)>, series: SpecSeries) -> Option<
    SpecMetricValue,
> {
    match series_index(totals, series) {
        Some(i) => Some(totals[i].1),
        None => None,
    }
}

/// The totals with another one for a series.
pub open spec fn with_total(
    totals: Seq<(SpecSeries, SpecMetricValue)>,
    series: SpecSeries,
    value: SpecMetricValue,
) -> Seq<(SpecSeries, SpecMetricValue)> {
    match series_index(totals, series) {
        Some(i) => totals.update(i, (series, value)),
        None => totals.push((series, value)),
    }
}

/// The total that a metric is sent as: what it tells, where that is a total; else the total of the
/// changes so far and what it tells, added up. A change that is the first of its series, or cannot
/// be added, is a total by itself.
pub open spec fn total_after(
    totals: Seq<(SpecSeries, SpecMetricValue)>,
    metric: SpecMetric,
) -> SpecMetricValue {
    match metric.kind {
        MetricKind::Absolute => metric.value,
        MetricKind::Incremental => match total_in(totals, series_of(metric)) {
            Some(total) => match added(total, metric.value) {
                Some(sum) => sum,
                None => metric.value,
            },
            None => metric.value,
        },
    }
}

/// A metric as a total.
pub open spec fn absolute_of(
    totals: Seq<(SpecSeries, SpecMetricValue)>,
    metric: SpecMetric,
) -> SpecMetric {
    SpecMetric { kind: MetricKind::Absolute, value: total_after(totals, metric), ..metric }
}

/// The totals of changes after a metric. What comes as a total is no change.
pub open spec fn totals_with(
    totals: Seq<(SpecSeries, SpecMetricValue)>,
    metric: SpecMetric,
) -> Seq<(SpecSeries, SpecMetricValue)> {
    match metric.kind {
        MetricKind::Absolute => totals,
        MetricKind::Incremental => with_total(
            totals,
            series_of(metric),
            total_after(totals, metric),
        ),
    }
}

/// The totals of changes after metrics, counted on from those before them.
pub open spec fn totals_from(
    totals: Seq<(SpecSeries, SpecMetricValue)>,
    metrics: Seq<SpecMetric>,
) -> Seq<(SpecSeries, SpecMetricValue)>
    decreases metrics.len(),
{
    if metrics.len() == 0 {
        totals
    } else {
        totals_with(totals_from(totals, metrics.drop_last()), metrics.last())
    }
}

/// Metrics as totals, counted on from those before them.
pub open spec fn normalized(
    totals: Seq<(SpecSeries, SpecMetricValue)>,
    metrics: Seq<SpecMetric>,
) -> Seq<SpecMetric> {
    Seq::new(
        metrics.len(),
        |i: int| absolute_of(totals_from(totals, metrics.take(i)), metrics[i]),
    )
}

/// Whether two optional texts are the same.
fn same_optional(a: &Option<String>, b: &Option<String>) -> (same: bool)
    ensures
        same == (view_option(*a) == view_option(*b)),
{
    match (a, b) {
        (Some(x), Some(y)) => same_text(x.as_str(), y.as_str()),
        (None, None) => true,
        _ => false,
    }
}

/// Whether two tags have the same values.
fn same_tag_values(a: &Vec<Option<String>>, b: &Vec<Option<String>>) -> (same: bool)
    ensures
        same == (tag_values(a@) == tag_values(b@)),
{
    if a.len() != b.len() {
        assert(tag_values(a@).len() != tag_values(b@).len());
        return false;
    }
    let mut i: usize = 0;
    while i < a.len()
        invariant
            i <= a@.len(),
            a@.len() == b@.len(),
            forall|j: int| 0 <= j < i ==> tag_values(a@)[j] == #[trigger] tag_values(b@)[j],
        decreases a@.len() - i,
    {
        if !same_optional(&a[i], &b[i]) {
            assert(tag_values(a@)[i as int] != tag_values(b@)[i as int]);
            return false;
        }
        i = i + 1;
    }
    assert(tag_values(a@) =~= tag_values(b@));
    true
}

/// Whether two lists of tags are the same.
fn same_tag_lists(a: &MetricTags, b: &MetricTags) -> (same: bool)
    ensures
        same == (a@ == b@),
{
    if a.len() != b.len() {
        return false;
    }
    let len = a.len();
    let mut i: usize = 0;
    while i < len
        invariant
            i <= len,
            len == a@.len(),
            len == b@.len(),
            forall|j: int| 0 <= j < i ==> a@[j] == #[trigger] b@[j],
        decreases len - i,
    {
        if !same_text(a.name(i).as_str(), b.name(i).as_str()) || !same_tag_values(
            a.values(i),
            b.values(i),
        ) {
            assert(a@[i as int] != b@[i as int]);
            return false;
        }
        assert(a@[i as int] == b@[i as int]);
        i = i + 1;
    }
    assert(a@ =~= b@);
    true
}

/// Whether two metrics have the same tags.
fn same_tags(a: &Option<MetricTags>, b: &Option<MetricTags>) -> (same: bool)
    ensures
        same == (view_option(*a) == view_option(*b)),
{
    match (a, b) {
        (Some(x), Some(y)) => same_tag_lists(x, y),
        (None, None) => true,
        _ => false,
    }
}

/// Copies samples.
fn copy_samples(samples: &Vec<Sample>) -> (copy: Vec<Sample>)
    ensures
        copy@ == samples@,
{
    let mut copy: Vec<Sample> = Vec::new();
    let mut i: usize = 0;
    while i < samples.len()
        invariant
            i <= samples@.len(),
            copy@ == samples@.take(i as int),
        decreases samples@.len() - i,
    {
        copy.push(samples[i]);
        assert(copy@ =~= samples@.take(i + 1));
        i = i + 1;
    }
    assert(copy@ =~= samples@);
    copy
}

/// Copies buckets.
fn copy_buckets(buckets: &Vec<Bucket>) -> (copy: Vec<Bucket>)
    ensures
        copy@ == buckets@,
{
    let mut copy: Vec<Bucket> = Vec::new();
    let mut i: usize = 0;
    while i < buckets.len()
        invariant
            i <= buckets@.len(),
            copy@ == buckets@.take(i as int),
        decreases buckets@.len() - i,
    {
        copy.push(buckets[i]);
        assert(copy@ =~= buckets@.take(i + 1));
        i = i + 1;
    }
    assert(copy@ =~= buckets@);
    copy
}

/// Copies quantiles.
fn copy_quantiles(quantiles: &Vec<Quantile>) -> (copy: Vec<Quantile>)
    ensures
        copy@ == quantiles@,
{
    let mut copy: Vec<Quantile> = Vec::new();
    let mut i: usize = 0;
    while i < quantiles.len()
        invariant
            i <= quantiles@.len(),
            copy@ == quantiles@.take(i as int),
        decreases quantiles@.len() - i,
    {
        copy.push(quantiles[i]);
        assert(copy@ =~= quantiles@.take(i + 1));
        i = i + 1;
    }
    assert(copy@ =~= quantiles@);
    copy
}

impl MetricValue {
    /// The same value.
    pub fn copy(&self) -> (copy: Self)
        ensures
            copy@ == self@,
    {
        match self {
            MetricValue::Counter { value } => MetricValue::Counter { value: *value },
            MetricValue::Gauge { value } => MetricValue::Gauge { value: *value },
            MetricValue::UniqueValues { values } => MetricValue::UniqueValues {
                values: values.copy(),
            },
            MetricValue::Distribution { samples, statistic } => MetricValue::Distribution {
                samples: copy_samples(samples),
                statistic: *statistic,
            },
            MetricValue::AggregatedHistogram { buckets, count, sum } =>
                MetricValue::AggregatedHistogram {
                buckets: copy_buckets(buckets),
                count: *count,
                sum: *sum,
            },
            MetricValue::AggregatedSummary { quantiles, count, sum } =>
                MetricValue::AggregatedSummary {
                quantiles: copy_quantiles(quantiles),
                count: *count,
                sum: *sum,
            },
            MetricValue::Sketch { sketch } => MetricValue::Sketch { sketch: *sketch },
        }
    }

    /// This total after a change, where the two can be added.
    pub fn plus(&self, change: &MetricValue) -> (sum: Option<MetricValue>)
        ensures
            view_option(sum) == added(self@, change@),
    {
        match (self, change) {
            (MetricValue::Counter { value: a }, MetricValue::Counter { value: b }) => Some(
                MetricValue::Counter { value: a.plus(*b) },
            ),
            (MetricValue::Gauge { value: a }, MetricValue::Gauge { value: b }) => Some(
                MetricValue::Gauge { value: a.plus(*b) },
            ),
            (
                MetricValue::UniqueValues { values: a },
                MetricValue::UniqueValues { values: b },
            ) => Some(MetricValue::UniqueValues { values: union(a, b) }),
            (
                MetricValue::Distribution { samples: a, statistic: x },
                MetricValue::Distribution { samples: b, statistic: y },
            ) => {
                if *x == *y {
                    let mut samples = copy_samples(a);
                    let mut more = copy_samples(b);
                    samples.append(&mut more);
                    Some(MetricValue::Distribution { samples, statistic: *x })
                } else {
                    None
                }
            },
            (
                MetricValue::AggregatedHistogram { buckets: a, count: m, sum: x },
                MetricValue::AggregatedHistogram { buckets: b, count: n, sum: y },
            ) => match add_buckets(a, b) {
                Some(buckets) => Some(
                    MetricValue::AggregatedHistogram {
                        buckets,
                        count: add_counts(*m, *n),
                        sum: x.plus(*y),
                    },
                ),
                None => None,
            },
            _ => None,
        }
    }
}

/// Adds two counts.
fn add_counts(a: u64, b: u64) -> (sum: u64)
    ensures
        sum == sum_of_counts(a, b),
{
    let room: u64 = u64::MAX - a;
    if b <= room {
        a + b
    } else {
        b - room - 1
    }
}

/// Puts the members of two sets into one.
fn union(a: &TextSet, b: &TextSet) -> (both: TextSet)
    ensures
        both@ == with_members(a@, b@),
{
    let mut both = a.copy();
    let len = b.len();
    let mut i: usize = 0;
    while i < len
        invariant
            i <= len,
            len == b@.len(),
            both@ == with_members(a@, b@.take(i as int)),
        decreases len - i,
    {
        both.insert(b.member(i).clone());
        assert(b@.take(i + 1).drop_last() =~= b@.take(i as int));
        i = i + 1;
    }
    assert(b@.take(i as int) =~= b@);
    both
}

/// Adds up the buckets of two histograms, where they have the same limits.
fn add_buckets(a: &Vec<Bucket>, b: &Vec<Bucket>) -> (sum: Option<Vec<Bucket>>)
    ensures
        sum is Some <==> same_limits(a@, b@),
        sum matches Some(buckets) ==> buckets@ == sum_of_buckets(a@, b@),
{
    if a.len() != b.len() {
        return None;
    }
    let mut buckets: Vec<Bucket> = Vec::new();
    let mut i: usize = 0;
    while i < a.len()
        invariant
            i <= a@.len(),
            a@.len() == b@.len(),
            buckets@ == sum_of_buckets(a@, b@).take(i as int),
            forall|j: int|
                0 <= j < i ==> equal_numbers((#[trigger] a@[j]).upper_limit, b@[j].upper_limit),
        decreases a@.len() - i,
    {
        if !a[i].upper_limit.at_most(b[i].upper_limit) || !b[i].upper_limit.at_most(
            a[i].upper_limit,
        ) {
            assert(!equal_numbers(a@[i as int].upper_limit, b@[i as int].upper_limit));
            return None;
        }
        buckets.push(
            Bucket {
                upper_limit: a[i].upper_limit,
                count: add_counts(a[i].count, b[i].count),
            },
        );
        assert(buckets@ =~= sum_of_buckets(a@, b@).take(i + 1));
        i = i + 1;
    }
    assert(buckets@ =~= sum_of_buckets(a@, b@));
    Some(buckets)
}

/// The total of one series.
#[derive(Debug)]
struct Total {
    name: String,
    tags: Option<MetricTags>,
    value: MetricValue,
}

impl View for Total {
    type V = (SpecSeries, SpecMetricValue);

    closed spec fn view(&self) -> (SpecSeries, SpecMetricValue) {
        (SpecSeries { name: self.name@, tags: view_option(self.tags) }, self.value@)
    }
}

/// The totals of all series that there were metrics of.
#[derive(Debug)]
pub struct MetricSet {
    totals: Vec<Total>,
}

impl View for MetricSet {
    type V = Seq<(SpecSeries, SpecMetricValue)>;

    closed spec fn view(&self) -> Seq<(SpecSeries, SpecMetricValue)> {
        Seq::new(self.totals@.len(), |i: int| self.totals@[i]@)
    }
}

impl MetricSet {
    /// No totals.
    pub fn new() -> (state: Self)
        ensures
            state@ == Seq::<(SpecSeries, SpecMetricValue)>::empty(),
    {
        let state = MetricSet { totals: Vec::new() };
        assert(state@ =~= Seq::empty());
        state
    }

    /// Finds the total of the series of a metric.
    fn find(&self, metric: &Metric) -> (found: Option<usize>)
        ensures
            series_index(self@, series_of(metric@)) == (match found {
                Some(i) => Some(i as int),
                None => None,
            }),
            found matches Some(i) ==> i < self.totals@.len(),
    {
        let ghost series = series_of(metric@);
        let ghost all = self@;
        let mut i: usize = self.totals.len();
        assert(all.take(i as int) =~= all);
        while i > 0
            invariant
                i <= self.totals@.len(),
                all == self@,
                series == series_of(metric@),
                series_index(all, series) == series_index(all.take(i as int), series),
            decreases i,
        {
            assert(all.take(i as int).drop_last() =~= all.take(i - 1));
            assert(all.take(i as int).last() == self.totals@[i - 1]@);
            i = i - 1;
            let total = &self.totals[i];
            if same_text(total.name.as_str(), metric.name.as_str()) && same_tags(
                &total.tags,
                &metric.tags,
            ) {
                return Some(i);
            }
        }
        None
    }

    /// Converts a metric to a total. The total of changes is remembered.
    pub fn make_absolute(&mut self, metric: Metric) -> (total: Option<Metric>)
        ensures
            total matches Some(t) && t@ == absolute_of(old(self)@, metric@),
            final(self)@ == totals_with(old(self)@, metric@),
    {
        match metric.kind {
            MetricKind::Absolute => Some(metric),
            MetricKind::Incremental => Some(self.incremental_to_absolute(metric)),
        }
    }

    /// Adds a change to the total of its series.
    fn incremental_to_absolute(&mut self, metric: Metric) -> (total: Metric)
        requires
            metric.kind == MetricKind::Incremental,
        ensures
            total@ == absolute_of(old(self)@, metric@),
            final(self)@ == totals_with(old(self)@, metric@),
    {
        let ghost before = self@;
        let found = self.find(&metric);
        let value = match found {
            Some(i) => match self.totals[i].value.plus(&metric.value) {
                Some(sum) => sum,
                None => metric.value,
            },
            None => metric.value,
        };
        let total = Metric {
            name: metric.name,
            kind: MetricKind::Absolute,
            timestamp: metric.timestamp,
            tags: metric.tags,
            value,
        };
        let tags = match &total.tags {
            Some(tags) => Some(tags.copy()),
            None => None,
        };
        let kept = Total { name: total.name.clone(), tags, value: total.value.copy() };
        match found {
            Some(i) => {
                self.totals.set(i, kept);
            },
            None => {
                self.totals.push(kept);
            },
        }
        assert(self@ =~= totals_with(before, metric@));
        total
    }
}

proof fn lemma_series_index(totals: Seq<(SpecSeries, SpecMetricValue)>, series: SpecSeries)
    ensures
        series_index(totals, series) matches Some(i) ==> 0 <= i < totals.len() && totals[i].0
            == series,
        series_index(totals, series) is None ==> forall|i: int|
            0 <= i < totals.len() ==> (#[trigger] totals[i]).0 != series,
    decreases totals.len(),
{
    if totals.len() > 0 {
        let rest = totals.drop_last();
        lemma_series_index(rest, series);
        if series_index(totals, series) is None {
            assert forall|i: int| 0 <= i < totals.len() implies (#[trigger] totals[i]).0
                != series by {
                if i < rest.len() {
                    assert(rest[i] == totals[i]);
                }
            }
        }
    }
}

proof fn lemma_series_index_update(
    totals: Seq<(SpecSeries, SpecMetricValue)>,
    at: int,
    value: SpecMetricValue,
    series: SpecSeries,
)
    requires
        0 <= at < totals.len(),
    ensures
        series_index(totals.update(at, (totals[at].0, value)), series) == series_index(
            totals,
            series,
        ),
    decreases totals.len(),
{
    let changed = totals.update(at, (totals[at].0, value));
    if at == totals.len() - 1 {
        assert(changed.drop_last() =~= totals.drop_last());
    } else {
        let rest = totals.drop_last();
        assert(changed.drop_last() =~= rest.update(at, (rest[at].0, value)));
        lemma_series_index_update(rest, at, value, series);
    }
}

/// A total is remembered, and those of all other series are as before.
pub proof fn law_total_is_remembered(
    totals: Seq<(SpecSeries, SpecMetricValue)>,
    series: SpecSeries,
    value: SpecMetricValue,
    other: SpecSeries,
)
    ensures
        total_in(with_total(totals, series, value), other) == (if other == series {
            Some(value)
        } else {
            total_in(totals, other)
        }),
{
    lemma_series_index(totals, series);
    lemma_series_index(totals, other);
    match series_index(totals, series) {
        Some(i) => {
            lemma_series_index_update(totals, i, value, other);
        },
        None => {
            assert(totals.push((series, value)).drop_last() =~= totals);
        },
    }
}

/// Whether a metric is a change of a series.
pub open spec fn is_change_of(metric: SpecMetric, series: SpecSeries) -> bool {
    metric.kind == MetricKind::Incremental && series_of(metric) == series
}

proof fn lemma_total_so_far(
    totals: Seq<(SpecSeries, SpecMetricValue)>,
    metrics: Seq<SpecMetric>,
    series: SpecSeries,
    j: int,
)
    requires
        -1 <= j < metrics.len(),
        j >= 0 ==> is_change_of(metrics[j], series),
        forall|k: int| j < k < metrics.len() ==> !is_change_of(#[trigger] metrics[k], series),
    ensures
        total_in(totals_from(totals, metrics), series) == (if j >= 0 {
            Some(normalized(totals, metrics)[j].value)
        } else {
            total_in(totals, series)
        }),
    decreases metrics.len(),
{
    if metrics.len() > 0 {
        let rest = metrics.drop_last();
        let last = metrics.last();
        let before = totals_from(totals, rest);
        law_total_is_remembered(before, series_of(last), total_after(before, last), series);
        assert(metrics[metrics.len() - 1] == last);
        if j == metrics.len() - 1 {
            assert(metrics.take(j) =~= rest);
        } else {
            assert forall|k: int| j < k < rest.len() implies !is_change_of(
                #[trigger] rest[k],
                series,
            ) by {
                assert(rest[k] == metrics[k]);
            }
            if j >= 0 {
                assert(rest[j] == metrics[j]);
                assert(rest.take(j) =~= metrics.take(j));
            }
            lemma_total_so_far(totals, rest, series, j);
        }
    }
}

/// Where the change before in the same series is the one at place `j`, a change is added to the
/// total there, as far as the two can be added.
pub proof fn law_changes_are_added_up(
    totals: Seq<(SpecSeries, SpecMetricValue)>,
    metrics: Seq<SpecMetric>,
    j: int,
    i: int,
)
    requires
        0 <= j < i < metrics.len(),
        metrics[i].kind == MetricKind::Incremental,
        is_change_of(metrics[j], series_of(metrics[i])),
        forall|k: int|
            j < k < i ==> !is_change_of(#[trigger] metrics[k], series_of(metrics[i])),
    ensures
        normalized(totals, metrics)[i].value == (match added(
            normalized(totals, metrics)[j].value,
            metrics[i].value,
        ) {
            Some(sum) => sum,
            None => metrics[i].value,
        }),
{
    let before = metrics.take(i);
    assert(before[j] == metrics[j]);
    assert forall|k: int| j < k < before.len() implies !is_change_of(
        #[trigger] before[k],
        series_of(metrics[i]),
    ) by {
        assert(before[k] == metrics[k]);
    }
    lemma_total_so_far(totals, before, series_of(metrics[i]), j);
    assert(before.take(j) =~= metrics.take(j));
}

/// The first change of a series in a batch counts on from the total before the batch, and from
/// nothing where there is none.
pub proof fn law_first_change_counts_on(
    totals: Seq<(SpecSeries, SpecMetricValue)>,
    metrics: Seq<SpecMetric>,
    i: int,
)
    requires
        0 <= i < metrics.len(),
        metrics[i].kind == MetricKind::Incremental,
        forall|k: int|
            0 <= k < i ==> !is_change_of(#[trigger] metrics[k], series_of(metrics[i])),
    ensures
        normalized(totals, metrics)[i].value == (match total_in(totals, series_of(metrics[i])) {
            Some(total) => match added(total, metrics[i].value) {
                Some(sum) => sum,
                None => metrics[i].value,
            },
            None => metrics[i].value,
        }),
{
    let before = metrics.take(i);
    assert forall|k: int| -1 < k < before.len() implies !is_change_of(
        #[trigger] before[k],
        series_of(metrics[i]),
    ) by {
        assert(before[k] == metrics[k]);
    }
    lemma_total_so_far(totals, before, series_of(metrics[i]), -1);
}

/// What comes as a total stays as it is, and no total of changes counts from it.
pub proof fn law_totals_stay(
    totals: Seq<(SpecSeries, SpecMetricValue)>,
    metrics: Seq<SpecMetric>,
    i: int,
)
    requires
        0 <= i < metrics.len(),
        metrics[i].kind == MetricKind::Absolute,
    ensures
        normalized(totals, metrics)[i] == metrics[i],
        totals_from(totals, metrics.take(i + 1)) == totals_from(totals, metrics.take(i)),
{
    assert(metrics.take(i + 1).drop_last() =~= metrics.take(i));
}

/// Counters of one series that all tell changes: each becomes the sum of itself and all before it.
pub proof fn law_counters_run(
    totals: Seq<(SpecSeries, SpecMetricValue)>,
    metrics: Seq<SpecMetric>,
    i: int,
)
    requires
        0 < i < metrics.len(),
        total_in(totals, series_of(metrics[0])) is None,
        forall|k: int|
            0 <= k <= i ==> is_change_of(#[trigger] metrics[k], series_of(metrics[0]))
                && metrics[k].value is Counter,
    ensures
        normalized(totals, metrics)[0].value == metrics[0].value,
        normalized(totals, metrics)[i - 1].value is Counter,
        normalized(totals, metrics)[i].value == (SpecMetricValue::Counter {
            value: sum_of(
                normalized(totals, metrics)[i - 1].value->Counter_value,
                metrics[i].value->Counter_value,
            ),
        }),
    decreases i,
{
    assert(is_change_of(metrics[0], series_of(metrics[0])));
    law_first_change_counts_on(totals, metrics, 0);
    if i > 1 {
        law_counters_run(totals, metrics, i - 1);
    }
    assert(is_change_of(metrics[i - 1], series_of(metrics[0])));
    assert(is_change_of(metrics[i], series_of(metrics[0])));
    law_changes_are_added_up(totals, metrics, i - 1, i);
}

/// Metrics become totals under the same names, tags and times.
pub proof fn law_only_values_change(
    totals: Seq<(SpecSeries, SpecMetricValue)>,
    metrics: Seq<SpecMetric>,
    i: int,
)
    requires
        0 <= i < metrics.len(),
    ensures
        normalized(totals, metrics).len() == metrics.len(),
        normalized(totals, metrics)[i].kind == MetricKind::Absolute,
        normalized(totals, metrics)[i].name == metrics[i].name,
        normalized(totals, metrics)[i].tags == metrics[i].tags,
        normalized(totals, metrics)[i].timestamp == metrics[i].timestamp,
{
}

proof fn lemma_totals_go_on(
    totals: Seq<(SpecSeries, SpecMetricValue)>,
    a: Seq<SpecMetric>,
    b: Seq<SpecMetric>,
)
    ensures
        totals_from(totals, a + b) == totals_from(totals_from(totals, a), b),
    decreases b.len(),
{
    if b.len() == 0 {
        assert(a + b =~= a);
    } else {
        lemma_totals_go_on(totals, a, b.drop_last());
        assert((a + b).drop_last() =~= a + b.drop_last());
    }
}

/// Nothing is forgotten between batches: metrics in two batches, the second of which counts on from
/// the totals after the first, become the same totals as in one.
pub proof fn law_batches_count_on(
    totals: Seq<(SpecSeries, SpecMetricValue)>,
    a: Seq<SpecMetric>,
    b: Seq<SpecMetric>,
)
    ensures
        totals_from(totals, a + b) == totals_from(totals_from(totals, a), b),
        normalized(totals, a + b) == normalized(totals, a) + normalized(
            totals_from(totals, a),
            b,
        ),
{
    lemma_totals_go_on(totals, a, b);
    let all = a + b;
    let both = normalized(totals, a) + normalized(totals_from(totals, a), b);
    assert forall|i: int| 0 <= i < all.len() implies normalized(totals, all)[i] == both[i] by {
        if i < a.len() {
            assert(all.take(i) =~= a.take(i));
        } else {
            let j = i - a.len();
            assert(all.take(i) =~= a + b.take(j));
            assert(all[i] == b[j]);
            lemma_totals_go_on(totals, a, b.take(j));
        }
    }
    assert(normalized(totals, all) =~= both);
}

}
