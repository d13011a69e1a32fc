//! Metrics.
use vstd::prelude::*;
use vstd::string::*;
use crate::keys::{
    ascending, find_key, find_place, inserted, keys_of, lemma_insert_ascending, lemma_key_index,
    lookup, names_of, rank,
};
use crate::value::{Double, SpecTimestamp, Timestamp};
use crate::views::view_option;

verus! {

/// Whether a metric tells a change or a total.
#[derive(Clone, Copy, Debug, PartialEq, Eq, Structural)]
pub enum MetricKind {
    Incremental,
    Absolute,
}

/// What the samples of a distribution are for.
#[derive(Clone, Copy, Debug, PartialEq, Eq, Structural)]
pub enum StatisticKind {
    Histogram,
    Summary,
}

/// A sample of a distribution.
#[derive(Clone, Copy, Debug, PartialEq, Eq, Structural)]
pub struct Sample {
    pub value: Double,
    pub rate: u32,
}

/// A bucket of a histogram.
#[derive(Clone, Copy, Debug, PartialEq, Eq, Structural)]
pub struct Bucket {
    pub upper_limit: Double,
    pub count: u64,
}

/// A quantile of a summary.
#[derive(Clone, Copy, Debug, PartialEq, Eq, Structural)]
pub struct Quantile {
    pub quantile: Double,
    pub value: Double,
}

/// What a quantile sketch tells of its samples.
#[derive(Clone, Copy, Debug)]
pub struct SketchSummary {
    pub count: u32,
    pub sum: Option<Double>,
    pub min: Option<Double>,
    pub max: Option<Double>,
    /// The values at the quantiles 0.1, 0.25, 0.5, 0.75, 0.9, 0.95 and 0.99, as far as the sketch
    /// has them.
    pub quantiles: [Option<Double>; 7],
}

/// The kinds of sketches.
#[derive(Clone, Copy, Debug)]
pub enum MetricSketch {
    AgentDDSketch(SketchSummary),
}

/// A set of texts.
#[derive(Debug)]
pub struct TextSet {
    entries: Vec<(String, ())>,
}

impl View for TextSet {
    type V = Seq<Seq<char>>;

    /// The members, in the order of text; none occurs twice.
    closed spec fn view(&self) -> Seq<Seq<char>> {
        names_of(self.entries@)
    }
}

/// The members of a set after a text was put into it.
pub open spec fn with_member(members: Seq<Seq<char>>, text: Seq<char>) -> Seq<Seq<char>> {
    if members.contains(text) {
        members
    } else {
        members.insert(rank(members, text), text)
    }
}

/// A text is in a set where it was, or where it was put in, and is not twice in it.
pub proof fn law_member_is_in(members: Seq<Seq<char>>, text: Seq<char>, other: Seq<char>)
    ensures
        with_member(members, text).contains(other) <==> members.contains(other) || other == text,
        members.no_duplicates() ==> with_member(members, text).no_duplicates(),
{
    let at = rank(members, text);
    lemma_rank_bound(members, text);
    let grown = members.insert(at, text);
    assert(grown[at] == text);
    if members.contains(other) {
        let i = choose|i: int| 0 <= i < members.len() && members[i] == other;
        if i < at {
            assert(grown[i] == other);
        } else {
            assert(grown[i + 1] == other);
        }
    }
    if grown.contains(other) && other != text {
        let i = choose|i: int| 0 <= i < grown.len() && grown[i] == other;
        if i < at {
            assert(members[i] == other);
        } else {
            assert(members[i - 1] == other);
        }
    }
    if members.no_duplicates() && !members.contains(text) {
        assert forall|i: int, j: int|
            0 <= i < grown.len() && 0 <= j < grown.len() && i != j implies grown[i]
            != grown[j] by {
            let a = if i < at {
                i
            } else {
                i - 1
            };
            let b = if j < at {
                j
            } else {
                j - 1
            };
            if i != at {
                assert(members[a] == grown[i]);
            }
            if j != at {
                assert(members[b] == grown[j]);
            }
        }
    }
}

proof fn lemma_rank_bound(keys: Seq<Seq<char>>, key: Seq<char>)
    ensures
        0 <= rank(keys, key) <= keys.len(),
    decreases keys.len(),
{
    if keys.len() > 0 {
        lemma_rank_bound(keys.drop_last(), key);
    }
}

impl TextSet {
    #[verifier::type_invariant]
    spec fn well_formed(self) -> bool {
        ascending(names_of(self.entries@))
    }

    /// The empty set.
    pub fn new() -> (set: Self)
        ensures
            set@ == Seq::<Seq<char>>::empty(),
    {
        let set = TextSet { entries: Vec::new() };
        assert(set@ =~= Seq::empty());
        set
    }

    /// Puts a text into the set.
    pub fn insert(&mut self, text: String)
        ensures
            ascending(final(self)@),
            final(self)@ == with_member(old(self)@, text@),
    {
        proof {
            use_type_invariant(&*self);
            lemma_key_index(self@, text@);
        }
        let ghost before = self@;
        let mut entries: Vec<(String, ())> = Vec::new();
        std::mem::swap(&mut entries, &mut self.entries);
        match find_key(&entries, text.as_str()) {
            Some(_) => {},
            None => {
                let at = find_place(&entries, text.as_str());
                proof {
                    lemma_insert_ascending(before, text@);
                }
                entries.insert(at, (text, ()));
                assert(names_of(entries@) =~= before.insert(at as int, text@));
            },
        }
        self.entries = entries;
    }

    /// The member at place `i`.
    pub fn member(&self, i: usize) -> (text: &String)
        requires
            i < self@.len(),
        ensures
            text@ == self@[i as int],
    {
        &self.entries[i].0
    }

    /// A set with the same members.
    pub fn copy(&self) -> (copy: Self)
        ensures
            copy@ == self@,
    {
        proof {
            use_type_invariant(self);
        }
        let mut entries: Vec<(String, ())> = Vec::new();
        let mut i: usize = 0;
        while i < self.entries.len()
            invariant
                i <= self.entries@.len(),
                entries@.len() == i,
                forall|j: int| 0 <= j < i ==> (#[trigger] entries@[j]).0@ == self.entries@[j].0@,
            decreases self.entries@.len() - i,
        {
            entries.push((self.entries[i].0.clone(), ()));
            i = i + 1;
        }
        assert(names_of(entries@) =~= names_of(self.entries@));
        TextSet { entries }
    }

    /// The number of members.
    pub fn len(&self) -> (len: usize)
        ensures
            len == self@.len(),
    {
        self.entries.len()
    }
}

/// The tags of a metric: names, in the order of text, with the values that each has. A name without
/// a value of its own has the value `None`.
#[derive(Debug)]
pub struct MetricTags {
    entries: Vec<(String, Vec<Option<String>>)>,
}

/// What the values of a tag stand for.
pub open spec fn tag_values(values: Seq<Option<String>>) -> Seq<Option<Seq<char>>> {
    Seq::new(values.len(), |i: int| view_option(values[i]))
}

/// Copies the values of a tag.
fn copy_tag_values(values: &Vec<Option<String>>) -> (copy: Vec<Option<String>>)
    ensures
        tag_values(copy@) == tag_values(values@),
{
    let mut copy: Vec<Option<String>> = Vec::new();
    let mut i: usize = 0;
    while i < values.len()
        invariant
            i <= values@.len(),
            copy@.len() == i,
            forall|j: int|
                0 <= j < i ==> view_option(#[trigger] copy@[j]) == view_option(values@[j]),
        decreases values@.len() - i,
    {
        let value = match &values[i] {
            Some(text) => Some(text.clone()),
            None => None,
        };
        copy.push(value);
        i = i + 1;
    }
    assert(tag_values(copy@) =~= tag_values(values@));
    copy
}

impl View for MetricTags {
    type V = Seq<(Seq<char>, Seq<Option<Seq<char>>>)>;

    closed spec fn view(&self) -> Seq<(Seq<char>, Seq<Option<Seq<char>>>)> {
        Seq::new(
            self.entries@.len(),
            |i: int| (self.entries@[i].0@, tag_values(self.entries@[i].1@)),
        )
    }
}

impl MetricTags {
    #[verifier::type_invariant]
    spec fn well_formed(self) -> bool {
        ascending(names_of(self.entries@))
    }

    proof fn lemma_keys(&self)
        ensures
            keys_of(self@) == names_of(self.entries@),
    {
        assert(keys_of(self@) =~= names_of(self.entries@));
    }

    /// No tags.
    pub fn new() -> (tags: Self)
        ensures
            tags@ == Seq::<(Seq<char>, Seq<Option<Seq<char>>>)>::empty(),
    {
        let tags = MetricTags { entries: Vec::new() };
        assert(tags@ =~= Seq::empty());
        tags
    }

    /// Gives the tag `name` the given values, in place of those that it had.
    pub fn set_values(&mut self, name: String, values: Vec<Option<String>>)
        ensures
            final(self)@ == inserted(old(self)@, name@, tag_values(values@)),
            ascending(keys_of(final(self)@)),
    {
        proof {
            use_type_invariant(&*self);
            self.lemma_keys();
            lemma_key_index(keys_of(self@), name@);
        }
        let ghost before = self.entries@;
        let ghost model = self@;
        let mut entries: Vec<(String, Vec<Option<String>>)> = Vec::new();
        std::mem::swap(&mut entries, &mut self.entries);
        match find_key(&entries, name.as_str()) {
            Some(i) => {
                entries.set(i, (name, values));
                assert(names_of(entries@) =~= names_of(before));
            },
            None => {
                let at = find_place(&entries, name.as_str());
                proof {
                    lemma_insert_ascending(names_of(before), name@);
                }
                entries.insert(at, (name, values));
                assert(names_of(entries@) =~= names_of(before).insert(at as int, name@));
            },
        }
        self.entries = entries;
        proof {
            self.lemma_keys();
            assert(self@ =~= inserted(model, name@, tag_values(values@)));
        }
    }

    /// Gives the tag `name` the one value `value`, in place of those that it had.
    pub fn replace(&mut self, name: String, value: String)
        ensures
            final(self)@ == inserted(old(self)@, name@, seq![Some(value@)]),
            ascending(keys_of(final(self)@)),
    {
        let mut values: Vec<Option<String>> = Vec::new();
        values.push(Some(value));
        assert(tag_values(values@) =~= seq![Some(value@)]);
        self.set_values(name, values);
    }

    /// Whether there is a tag `name`.
    pub fn contains_key(&self, name: &str) -> (found: bool)
        ensures
            found == (lookup(self@, name@) is Some),
    {
        proof {
            self.lemma_keys();
        }
        find_key(&self.entries, name).is_some()
    }

    /// The same tags.
    pub fn copy(&self) -> (copy: Self)
        ensures
            copy@ == self@,
    {
        proof {
            use_type_invariant(self);
        }
        let mut entries: Vec<(String, Vec<Option<String>>)> = Vec::new();
        let mut i: usize = 0;
        while i < self.entries.len()
            invariant
                i <= self.entries@.len(),
                entries@.len() == i,
                forall|j: int|
                    0 <= j < i ==> (#[trigger] entries@[j]).0@ == self.entries@[j].0@
                        && tag_values(entries@[j].1@) == tag_values(self.entries@[j].1@),
            decreases self.entries@.len() - i,
        {
            let values = copy_tag_values(&self.entries[i].1);
            entries.push((self.entries[i].0.clone(), values));
            i = i + 1;
        }
        assert(names_of(entries@) =~= names_of(self.entries@));
        let copy = MetricTags { entries };
        assert(copy@ =~= self@);
        copy
    }

    /// The number of tags.
    pub fn len(&self) -> (len: usize)
        ensures
            len == self@.len(),
    {
        self.entries.len()
    }

    /// The name of the tag at place `i`.
    pub fn name(&self, i: usize) -> (name: &String)
        requires
            i < self@.len(),
        ensures
            name@ == self@[i as int].0,
    {
        &self.entries[i].0
    }

    /// The values of the tag at place `i`.
    pub fn values(&self, i: usize) -> (values: &Vec<Option<String>>)
        requires
            i < self@.len(),
        ensures
            tag_values(values@) == self@[i as int].1,
    {
        &self.entries[i].1
    }
}

/// The value of a metric.
#[derive(Debug)]
pub enum MetricValue {
    Counter { value: Double },
    Gauge { value: Double },
    UniqueValues { values: TextSet },
    Distribution { samples: Vec<Sample>, statistic: StatisticKind },
    AggregatedHistogram { buckets: Vec<Bucket>, count: u64, sum: Double },
    AggregatedSummary { quantiles: Vec<Quantile>, count: u64, sum: Double },
    Sketch { sketch: MetricSketch },
}

/// What a `MetricValue` stands for.
#[verifier::ext_equal]
pub enum SpecMetricValue {
    Counter { value: Double },
    Gauge { value: Double },
    UniqueValues { values: Seq<Seq<char>> },
    Distribution { samples: Seq<Sample>, statistic: StatisticKind },
    AggregatedHistogram { buckets: Seq<Bucket>, count: u64, sum: Double },
    AggregatedSummary { quantiles: Seq<Quantile>, count: u64, sum: Double },
    Sketch { sketch: MetricSketch },
}

impl View for MetricValue {
    type V = SpecMetricValue;

    open spec fn view(&self) -> SpecMetricValue {
        match self {
            MetricValue::Counter { value } => SpecMetricValue::Counter { value: *value },
            MetricValue::Gauge { value } => SpecMetricValue::Gauge { value: *value },
            MetricValue::UniqueValues { values } => SpecMetricValue::UniqueValues {
                values: values@,
            },
            MetricValue::Distribution { samples, statistic } => SpecMetricValue::Distribution {
                samples: samples@,
                statistic: *statistic,
            },
            MetricValue::AggregatedHistogram { buckets, count, sum } =>
                SpecMetricValue::AggregatedHistogram {
                buckets: buckets@,
                count: *count,
                sum: *sum,
            },
            MetricValue::AggregatedSummary { quantiles, count, sum } =>
                SpecMetricValue::AggregatedSummary {
                quantiles: quantiles@,
                count: *count,
                sum: *sum,
            },
            MetricValue::Sketch { sketch } => SpecMetricValue::Sketch { sketch: *sketch },
        }
    }
}

/// A metric.
#[derive(Debug)]
pub struct Metric {
    pub name: String,
    pub kind: MetricKind,
    pub timestamp: Option<Timestamp>,
    pub tags: Option<MetricTags>,
    pub value: MetricValue,
}

/// What a `Metric` stands for.
#[verifier::ext_equal]
pub struct SpecMetric {
    pub name: Seq<char>,
    pub kind: MetricKind,
    pub timestamp: Option<SpecTimestamp>,
    pub tags: Option<Seq<(Seq<char>, Seq<Option<Seq<char>>>)>>,
    pub value: SpecMetricValue,
}

impl View for Metric {
    type V = SpecMetric;

    open spec fn view(&self) -> SpecMetric {
        SpecMetric {
            name: self.name@,
            kind: self.kind,
            timestamp: view_option(self.timestamp),
            tags: view_option(self.tags),
            value: self.value@,
        }
    }
}

impl Metric {
    /// A metric without a time and without tags.
    pub fn new(name: &str, kind: MetricKind, value: MetricValue) -> (metric: Self)
        ensures
            metric@ == (SpecMetric {
                name: name@,
                kind,
                timestamp: None,
                tags: None,
                value: value@,
            }),
    {
        Metric { name: name.to_owned(), kind, timestamp: None, tags: None, value }
    }

    /// The metric with another time.
    pub fn with_timestamp(self, timestamp: Option<Timestamp>) -> (metric: Self)
        ensures
            metric@ == (SpecMetric { timestamp: view_option(timestamp), ..self@ }),
    {
        Metric { timestamp, ..self }
    }

    /// The metric with other tags.
    pub fn with_tags(self, tags: Option<MetricTags>) -> (metric: Self)
        ensures
            metric@ == (SpecMetric { tags: view_option(tags), ..self@ }),
    {
        Metric { tags, ..self }
    }
}

}
