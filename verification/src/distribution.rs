//! Conversion of distributions to histograms.
use vstd::prelude::*;
use crate::addition::sum_of;
use crate::metric::Sample;
use crate::metrics::{histogram_data, make_histogram};
use crate::number::{at_most, is_nan, larger, place, smaller, INFINITY_BITS, NEG_INFINITY_BITS};
use crate::proto::{Data, HistogramDataPoint, KeyValue};
use crate::value::Double;
use crate::views::{group_views, view_option, views};

verus! {

broadcast use group_views;

/// The bounds of the buckets: the powers of ten from a tenth to ten million.
pub open spec fn bucket_bounds() -> Seq<Double> {
    seq![
        Double { bits: 0x3FB9_9999_9999_999A },
        Double { bits: 0x3FF0_0000_0000_0000 },
        Double { bits: 0x4024_0000_0000_0000 },
        Double { bits: 0x4059_0000_0000_0000 },
        Double { bits: 0x408F_4000_0000_0000 },
        Double { bits: 0x40C3_8800_0000_0000 },
        Double { bits: 0x40F8_6A00_0000_0000 },
        Double { bits: 0x412E_8480_0000_0000 },
        Double { bits: 0x4163_12D0_0000_0000 },
    ]
}

/// The first of the buckets whose bound is at least `value`; the one past the last bound where there
/// is none, and for what is no number.
pub open spec fn bucket_index(bounds: Seq<Double>, value: Double) -> nat
    decreases bounds.len(),
{
    if bounds.len() == 0 || at_most(value, bounds[0]) {
        0
    } else {
        1 + bucket_index(bounds.drop_first(), value)
    }
}

/// How many samples fall into the buckets up to and with `bucket`.
pub open spec fn samples_up_to(samples: Seq<Sample>, bucket: int) -> nat
    decreases samples.len(),
{
    if samples.len() == 0 {
        0
    } else {
        samples_up_to(samples.drop_last(), bucket) + (if bucket_index(
            bucket_bounds(),
            samples.last().value,
        ) <= bucket {
            1nat
        } else {
            0nat
        })
    }
}

/// The counts of the buckets: each counts the samples in it and in those before it.
pub open spec fn cumulative_counts(samples: Seq<Sample>) -> Seq<u64> {
    Seq::new(10, |bucket: int| samples_up_to(samples, bucket) as u64)
}

/// The smallest sample; positive infinity where there is none.
pub open spec fn least(samples: Seq<Sample>) -> Double
    decreases samples.len(),
{
    if samples.len() == 0 {
        Double { bits: INFINITY_BITS }
    } else {
        smaller(least(samples.drop_last()), samples.last().value)
    }
}

/// The largest sample; negative infinity where there is none.
pub open spec fn greatest(samples: Seq<Sample>) -> Double
    decreases samples.len(),
{
    if samples.len() == 0 {
        Double { bits: NEG_INFINITY_BITS }
    } else {
        larger(greatest(samples.drop_last()), samples.last().value)
    }
}

/// The samples added up, one after the other; zero where there is none.
pub open spec fn total(samples: Seq<Sample>) -> Double
    decreases samples.len(),
{
    if samples.len() == 0 {
        Double { bits: 0 }
    } else {
        sum_of(total(samples.drop_last()), samples.last().value)
    }
}

/// The bounds of the buckets.
fn make_bounds() -> (bounds: Vec<Double>)
    ensures
        bounds@ == bucket_bounds(),
{
    let mut bounds: Vec<Double> = Vec::new();
    bounds.push(Double { bits: 0x3FB9_9999_9999_999A });
    bounds.push(Double { bits: 0x3FF0_0000_0000_0000 });
    bounds.push(Double { bits: 0x4024_0000_0000_0000 });
    bounds.push(Double { bits: 0x4059_0000_0000_0000 });
    bounds.push(Double { bits: 0x408F_4000_0000_0000 });
    bounds.push(Double { bits: 0x40C3_8800_0000_0000 });
    bounds.push(Double { bits: 0x40F8_6A00_0000_0000 });
    bounds.push(Double { bits: 0x412E_8480_0000_0000 });
    bounds.push(Double { bits: 0x4163_12D0_0000_0000 });
    assert(bounds@ =~= bucket_bounds());
    bounds
}

/// Finds the bucket of a value.
fn find_bucket(bounds: &Vec<Double>, value: Double) -> (index: usize)
    ensures
        index == bucket_index(bounds@, value),
        index <= bounds@.len(),
{
    let mut i: usize = 0;
    assert(bounds@.skip(0) =~= bounds@);
    while i < bounds.len()
        invariant
            i <= bounds@.len(),
            bucket_index(bounds@, value) == i + bucket_index(bounds@.skip(i as int), value),
        decreases bounds@.len() - i,
    {
        if value.at_most(bounds[i]) {
            return i;
        }
        assert(bounds@.skip(i as int).drop_first() =~= bounds@.skip(i + 1));
        i = i + 1;
    }
    i
}

proof fn lemma_up_to_bound(samples: Seq<Sample>, bucket: int)
    ensures
        samples_up_to(samples, bucket) <= samples.len(),
    decreases samples.len(),
{
    if samples.len() > 0 {
        lemma_up_to_bound(samples.drop_last(), bucket);
    }
}

/// Converts a distribution to a histogram.
pub fn convert_distribution_to_otlp(
    attributes: Vec<KeyValue>,
    time_unix_nano: u64,
    samples: &Vec<Sample>,
) -> (data: Option<Data>)
    ensures
        view_option(data) == Some(
            histogram_data(
                views(attributes@),
                time_unix_nano,
                samples@.len() as u64,
                Some(total(samples@)),
                cumulative_counts(samples@),
                bucket_bounds(),
                Some(least(samples@)),
                Some(greatest(samples@)),
            ),
        ),
{
    let explicit_bounds = make_bounds();
    let mut bucket_counts: Vec<u64> = Vec::new();
    let mut filled: usize = 0;
    while filled < 10
        invariant
            filled <= 10,
            bucket_counts@.len() == filled,
            forall|b: int| 0 <= b < filled ==> bucket_counts@[b] == 0,
        decreases 10 - filled,
    {
        bucket_counts.push(0);
        filled = filled + 1;
    }
    let count: u64 = samples.len() as u64;
    let mut sum = Double { bits: 0 };
    let mut min = Double { bits: INFINITY_BITS };
    let mut max = Double { bits: NEG_INFINITY_BITS };

    let mut i: usize = 0;
    while i < samples.len()
        invariant
            i <= samples@.len(),
            explicit_bounds@ == bucket_bounds(),
            bucket_counts@.len() == 10,
            forall|b: int|
                0 <= b < 10 ==> #[trigger] bucket_counts@[b] == samples_up_to(
                    samples@.take(i as int),
                    b,
                ),
            sum == total(samples@.take(i as int)),
            min == least(samples@.take(i as int)),
            max == greatest(samples@.take(i as int)),
        decreases samples@.len() - i,
    {
        let value = samples[i].value;
        let ghost before = bucket_counts@;
        let ghost seen = samples@.take(i as int);
        proof {
            assert(samples@.take(i + 1).drop_last() =~= seen);
            assert(samples@.take(i + 1).last() == samples@[i as int]);
        }

        sum = sum.plus(value);

        // The sample counts in its bucket and in all that follow
        let index = find_bucket(&explicit_bounds, value);
        let mut b: usize = index;
        while b < 10
            invariant
                index <= b <= 10,
                index == bucket_index(bucket_bounds(), value),
                i < samples@.len(),
                i < usize::MAX,
                before.len() == 10,
                bucket_counts@.len() == 10,
                seen == samples@.take(i as int),
                forall|c: int| 0 <= c < 10 ==> #[trigger] before[c] == samples_up_to(seen, c),
                forall|c: int|
                    0 <= c < 10 ==> #[trigger] bucket_counts@[c] == (if index <= c < b {
                        before[c] + 1
                    } else {
                        before[c] as int
                    }),
            decreases 10 - b,
        {
            proof {
                lemma_up_to_bound(seen, b as int);
                assert(before[b as int] <= i);
            }
            let increased: u64 = bucket_counts[b] + 1;
            bucket_counts.set(b, increased);
            b = b + 1;
        }
        min = min.smaller(value);
        max = max.larger(value);
        i = i + 1;
    }
    proof {
        assert(samples@.take(i as int) =~= samples@);
        assert(bucket_counts@ =~= cumulative_counts(samples@));
    }
    make_histogram(
        HistogramDataPoint {
            attributes,
            start_time_unix_nano: 0,
            time_unix_nano,
            count,
            sum: Some(sum),
            bucket_counts,
            explicit_bounds,
            flags: 0,
            min: Some(min),
            max: Some(max),
        },
    )
}

/// How many samples are at most `bound`.
pub open spec fn samples_at_most(samples: Seq<Sample>, bound: Double) -> nat
    decreases samples.len(),
{
    if samples.len() == 0 {
        0
    } else {
        samples_at_most(samples.drop_last(), bound) + (if at_most(samples.last().value, bound) {
            1nat
        } else {
            0nat
        })
    }
}

proof fn lemma_bounds_ascend(i: int, j: int)
    requires
        0 <= i <= j < 9,
    ensures
        place(bucket_bounds()[i]) <= place(bucket_bounds()[j]),
        !is_nan(bucket_bounds()[i]),
        !is_nan(bucket_bounds()[j]),
{
}

/// The bucket of a value is the first whose bound is at least the value.
proof fn lemma_bucket_index(bounds: Seq<Double>, value: Double)
    ensures
        bucket_index(bounds, value) <= bounds.len(),
        forall|i: int|
            0 <= i < bucket_index(bounds, value) ==> !at_most(value, #[trigger] bounds[i]),
        bucket_index(bounds, value) < bounds.len() ==> at_most(
            value,
            bounds[bucket_index(bounds, value) as int],
        ),
    decreases bounds.len(),
{
    if bounds.len() > 0 && !at_most(value, bounds[0]) {
        let rest = bounds.drop_first();
        lemma_bucket_index(rest, value);
        assert forall|i: int| 0 <= i < bucket_index(bounds, value) implies !at_most(
            value,
            #[trigger] bounds[i],
        ) by {
            if i > 0 {
                assert(rest[i - 1] == bounds[i]);
            }
        }
    }
}

/// Each bucket of a distribution but the last counts the samples that are at most its bound.
pub proof fn law_bucket_counts_samples_at_most_bound(samples: Seq<Sample>, bucket: int)
    requires
        0 <= bucket < 9,
    ensures
        samples_up_to(samples, bucket) == samples_at_most(samples, bucket_bounds()[bucket]),
    decreases samples.len(),
{
    if samples.len() > 0 {
        law_bucket_counts_samples_at_most_bound(samples.drop_last(), bucket);
        let value = samples.last().value;
        let index = bucket_index(bucket_bounds(), value) as int;
        lemma_bucket_index(bucket_bounds(), value);
        if index <= bucket {
            lemma_bounds_ascend(index, bucket);
        } else {
            assert(!at_most(value, bucket_bounds()[bucket]));
        }
    }
}

/// The last bucket of a distribution counts all samples.
pub proof fn law_last_bucket_counts_all(samples: Seq<Sample>)
    ensures
        samples_up_to(samples, 9) == samples.len(),
        samples.len() <= u64::MAX ==> cumulative_counts(samples)[9] == samples.len(),
    decreases samples.len(),
{
    if samples.len() > 0 {
        law_last_bucket_counts_all(samples.drop_last());
        lemma_bucket_index(bucket_bounds(), samples.last().value);
    }
}

/// The counts of the buckets of a distribution do not decrease.
pub proof fn law_counts_do_not_decrease(samples: Seq<Sample>, bucket: int, later: int)
    requires
        bucket <= later,
    ensures
        samples_up_to(samples, bucket) <= samples_up_to(samples, later),
    decreases samples.len(),
{
    if samples.len() > 0 {
        law_counts_do_not_decrease(samples.drop_last(), bucket, later);
    }
}

/// No sample that is a number is smaller than the least or larger than the greatest.
pub proof fn law_least_and_greatest(samples: Seq<Sample>, i: int)
    requires
        0 <= i < samples.len(),
        !is_nan(samples[i].value),
    ensures
        at_most(least(samples), samples[i].value),
        at_most(samples[i].value, greatest(samples)),
    decreases samples.len(),
{
    let rest = samples.drop_last();
    lemma_extremes_are_numbers(rest);
    if i < rest.len() {
        law_least_and_greatest(rest, i);
    }
}

proof fn lemma_extremes_are_numbers(samples: Seq<Sample>)
    ensures
        !is_nan(least(samples)),
        !is_nan(greatest(samples)),
    decreases samples.len(),
{
    if samples.len() > 0 {
        lemma_extremes_are_numbers(samples.drop_last());
    }
}

}
