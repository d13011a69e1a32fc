//! Conversion of quantile sketches to histograms.
use vstd::prelude::*;
use crate::metric::{MetricSketch, SketchSummary};
use crate::metrics::{histogram_data, make_histogram};
use crate::number::{law_rounding_error, lemma_spacing_bound, round, rounded};
use crate::proto::{Data, HistogramDataPoint, KeyValue, SpecData, SpecKeyValue};
use crate::value::Double;
use crate::views::{group_views, view_option, views};

verus! {

broadcast use group_views;

/// One, as a multiple of the last place of the smallest quantile: two to the power of 56.
pub const WHOLE: u128 = 72057594037927936;

/// The doubles nearest to 0.1, 0.25, 0.5, 0.75, 0.9, 0.95 and 0.99, each as its multiple of that
/// place.
pub open spec fn quantile_units() -> Seq<u128> {
    seq![
        7205759403792794,
        18014398509481984,
        36028797018963968,
        54043195528445952,
        64851834634135144,
        68454714336031536,
        71337018097548656,
    ]
}

/// An estimate of how many of `count` samples lie between two quantiles: the difference of the two,
/// times the count, each held in 53 bits, without its fraction.
pub open spec fn share(lower: nat, upper: nat, count: nat) -> nat {
    rounded(rounded((upper - lower) as nat) * count) / 72057594037927936
}

/// The bounds and counts of the buckets for the first `n` quantiles, and the last quantile that has
/// a value.
pub open spec fn sketch_buckets(quantiles: Seq<Option<Double>>, count: nat, n: nat) -> (
    Seq<Double>,
    Seq<u64>,
    u128,
)
    decreases n,
{
    if n == 0 {
        (Seq::empty(), Seq::empty(), 0)
    } else {
        let (bounds, counts, last) = sketch_buckets(quantiles, count, (n - 1) as nat);
        match quantiles[n - 1] {
            Some(value) => (
                bounds.push(value),
                counts.push(
                    share(last as nat, quantile_units()[n - 1] as nat, count) as u64,
                ),
                quantile_units()[n - 1],
            ),
            None => (bounds, counts, last),
        }
    }
}

/// The bounds of the buckets for a sketch: its values at the quantiles.
pub open spec fn sketch_bounds(sketch: SketchSummary) -> Seq<Double> {
    sketch_buckets(sketch.quantiles@, sketch.count as nat, 7).0
}

/// The counts of the buckets for a sketch: one for each bound, and one for what lies above all of
/// them.
pub open spec fn sketch_counts(sketch: SketchSummary) -> Seq<u64> {
    let (_, counts, last) = sketch_buckets(sketch.quantiles@, sketch.count as nat, 7);
    counts.push(share(last as nat, WHOLE as nat, sketch.count as nat) as u64)
}

/// The histogram of a sketch.
pub open spec fn sketch_data(
    attributes: Seq<SpecKeyValue>,
    time_unix_nano: u64,
    sketch: SketchSummary,
) -> SpecData {
    histogram_data(
        attributes,
        time_unix_nano,
        sketch.count as u64,
        sketch.sum,
        sketch_counts(sketch),
        sketch_bounds(sketch),
        sketch.min,
        sketch.max,
    )
}

/// Estimates how many of `count` samples lie between two quantiles.
fn estimate(lower: u128, upper: u128, count: u32) -> (estimate: u64)
    requires
        lower <= upper <= WHOLE,
    ensures
        estimate == share(lower as nat, upper as nat, count as nat),
{
    let difference: u128 = round(upper - lower);
    assert(difference * (count as u128) <= 144115188075855872 * 4294967296) by (nonlinear_arith)
        requires
            difference <= 144115188075855872,
            count <= 4294967295,
    ;
    let product: u128 = round(difference * (count as u128));
    (product / WHOLE) as u64
}

/// Converts a sketch to a histogram.
pub fn convert_sketch_to_otlp(
    attributes: Vec<KeyValue>,
    time_unix_nano: u64,
    sketch: &MetricSketch,
) -> (data: Option<Data>)
    ensures
        (match sketch {
            MetricSketch::AgentDDSketch(summary) => view_option(data) == Some(
                sketch_data(views(attributes@), time_unix_nano, *summary),
            ),
        }),
{
    match sketch {
        MetricSketch::AgentDDSketch(summary) => {
            let units: [u128; 7] = [
                7205759403792794,
                18014398509481984,
                36028797018963968,
                54043195528445952,
                64851834634135144,
                68454714336031536,
                71337018097548656,
            ];
            assert(units@ =~= quantile_units());
            let mut bucket_counts: Vec<u64> = Vec::new();
            let mut explicit_bounds: Vec<Double> = Vec::new();
            let mut last: u128 = 0;
            let mut i: usize = 0;
            while i < 7
                invariant
                    i <= 7,
                    units@ == quantile_units(),
                    last <= WHOLE,
                    i < 7 ==> last <= quantile_units()[i as int],
                    sketch_buckets(summary.quantiles@, summary.count as nat, i as nat) == (
                        explicit_bounds@,
                        bucket_counts@,
                        last,
                    ),
                decreases 7 - i,
            {
                assert(quantile_units()[i as int] <= WHOLE);
                if let Some(value) = summary.quantiles[i] {
                    explicit_bounds.push(value);
                    bucket_counts.push(estimate(last, units[i], summary.count));
                    last = units[i];
                }
                i = i + 1;
            }
            // What lies above the last quantile
            bucket_counts.push(estimate(last, WHOLE, summary.count));
            make_histogram(
                HistogramDataPoint {
                    attributes,
                    start_time_unix_nano: 0,
                    time_unix_nano,
                    count: summary.count as u64,
                    sum: summary.sum,
                    bucket_counts,
                    explicit_bounds,
                    flags: 0,
                    min: summary.min,
                    max: summary.max,
                },
            )
        },
    }
}

proof fn lemma_buckets_match(quantiles: Seq<Option<Double>>, count: nat, n: nat)
    ensures
        sketch_buckets(quantiles, count, n).0.len() == sketch_buckets(quantiles, count, n).1.len(),
    decreases n,
{
    if n > 0 {
        lemma_buckets_match(quantiles, count, (n - 1) as nat);
    }
}

/// The histogram of a sketch has one count more than it has bounds.
pub proof fn law_sketch_has_one_count_more_than_bounds(sketch: SketchSummary)
    ensures
        sketch_counts(sketch).len() == sketch_bounds(sketch).len() + 1,
{
    lemma_buckets_match(sketch.quantiles@, sketch.count as nat, 7);
}

/// The sum of counts.
pub open spec fn sum_of_all(counts: Seq<u64>) -> nat
    decreases counts.len(),
{
    if counts.len() == 0 {
        0
    } else {
        sum_of_all(counts.drop_last()) + counts.last() as nat
    }
}

/// An estimate goes beyond the exact share by no more than rounding makes it.
proof fn lemma_share_bound(lower: nat, upper: nat, count: nat)
    requires
        lower <= upper <= 72057594037927936,
        count <= 4294967295,
    ensures
        share(lower, upper, count) * 72057594037927936 <= (upper - lower) * count + 137438953472,
        share(lower, upper, count) <= u64::MAX,
{
    let d = (upper - lower) as nat;
    law_rounding_error(d);
    lemma_spacing_bound(d);
    let r = rounded(d);
    assert(r <= d + 8);
    let x = r * count;
    assert(x <= d * count + 8 * count) by (nonlinear_arith)
        requires
            x == r * count,
            r <= d + 8,
    ;
    assert(d * count <= 72057594037927936 * 4294967295) by (nonlinear_arith)
        requires
            d <= 72057594037927936,
            count <= 4294967295,
    ;
    law_rounding_error(x);
    lemma_spacing_bound(x);
}

/// An estimate falls short of the exact share by less than one and what rounding makes it, and goes
/// beyond it by no more than rounding makes it.
pub proof fn law_share_is_near(lower: nat, upper: nat, count: nat)
    requires
        lower <= upper <= 72057594037927936,
        count <= 4294967295,
    ensures
        share(lower, upper, count) * 72057594037927936 <= (upper - lower) * count + 137438953472,
        (share(lower, upper, count) + 1) * 72057594037927936 >= (upper - lower) * count
            - 137438953472,
        share(lower, upper, count) <= u64::MAX,
{
    lemma_share_bound(lower, upper, count);
    let d = (upper - lower) as nat;
    law_rounding_error(d);
    lemma_spacing_bound(d);
    let r = rounded(d);
    assert(r >= d - 8);
    let x = r * count;
    assert(x >= d * count - 8 * count) by (nonlinear_arith)
        requires
            x == r * count,
            r >= d - 8,
    ;
    assert(x <= 72057594037927944 * 4294967295) by (nonlinear_arith)
        requires
            x == r * count,
            r <= 72057594037927944,
            count <= 4294967295,
    ;
    law_rounding_error(x);
    lemma_spacing_bound(x);
}

proof fn lemma_sum_bound(quantiles: Seq<Option<Double>>, count: nat, n: nat)
    requires
        n <= 7,
        count <= 4294967295,
    ensures
        sketch_buckets(quantiles, count, n).2 <= WHOLE,
        n < 7 ==> sketch_buckets(quantiles, count, n).2 <= quantile_units()[n as int],
        sum_of_all(sketch_buckets(quantiles, count, n).1) * 72057594037927936
            <= sketch_buckets(quantiles, count, n).2 * count + n * 137438953472,
    decreases n,
{
    if n > 0 {
        let before = (n - 1) as nat;
        lemma_sum_bound(quantiles, count, before);
        let (_, counts, last) = sketch_buckets(quantiles, count, before);
        let unit = quantile_units()[n - 1];
        assert(unit <= WHOLE);
        assert(n < 7 ==> unit <= quantile_units()[n as int]);
        if quantiles[n - 1] is Some {
            let part = share(last as nat, unit as nat, count);
            lemma_share_bound(last as nat, unit as nat, count);
            assert(counts.push(part as u64).drop_last() =~= counts);
            assert((unit - last) * count + last * count == unit * count) by (nonlinear_arith);
        }
    }
}

/// The counts of the buckets for a sketch add up to no more than the count of its samples.
pub proof fn law_sketch_counts_no_more_than_there_are(sketch: SketchSummary)
    ensures
        sum_of_all(sketch_counts(sketch)) <= sketch.count,
{
    let count = sketch.count as nat;
    lemma_sum_bound(sketch.quantiles@, count, 7);
    let (_, counts, last) = sketch_buckets(sketch.quantiles@, count, 7);
    let part = share(last as nat, WHOLE as nat, count);
    lemma_share_bound(last as nat, WHOLE as nat, count);
    assert(counts.push(part as u64).drop_last() =~= counts);
    assert((WHOLE - last) * count + last * count == WHOLE * count) by (nonlinear_arith);
}

}
