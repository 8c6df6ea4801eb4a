//! Aggregations of measurements: running statistic sets and bucketed histograms.
use std::collections::HashMap;
use vstd::prelude::*;

use crate::assoc::{assoc_map, find_key, lemma_assoc_dom_len, keys_unique, lemma_assoc_contains, lemma_assoc_index, lemma_assoc_push, lemma_assoc_update};
use crate::bucket::{bucket_10_2_sigfigs, bucket_spec};
use crate::types::{Distribution, Name, Observation};

verus! {

broadcast use vstd::std_specs::hash::group_hash_axioms;

/// Running minimum, maximum, sum and count of observed values.
#[derive(Clone, Copy, Debug, PartialEq, Eq, Structural)]
pub struct StatisticSet {
    pub min: i64,
    pub max: i64,
    pub sum: i64,
    pub count: u64,
}

/// The statistic set before any value is accumulated.
pub open spec fn empty_statistic_set() -> StatisticSet {
    StatisticSet { min: i64::MAX, max: i64::MIN, sum: 0, count: 0 }
}

/// `a + b`, clamped to the range of `i64`.
pub open spec fn saturating_sum(a: i64, b: i64) -> i64 {
    if a + b > i64::MAX {
        i64::MAX
    } else if a + b < i64::MIN {
        i64::MIN
    } else {
        (a + b) as i64
    }
}

/// `n + 1`, clamped to the range of `u64`.
pub open spec fn saturating_succ(n: u64) -> u64 {
    if n == u64::MAX {
        u64::MAX
    } else {
        (n + 1) as u64
    }
}

/// `s` with `v` folded in. Sum and count saturate instead of overflowing.
pub open spec fn accumulated(s: StatisticSet, v: i64) -> StatisticSet {
    StatisticSet {
        min: if v < s.min { v } else { s.min },
        max: if v > s.max { v } else { s.max },
        sum: saturating_sum(s.sum, v),
        count: saturating_succ(s.count),
    }
}

impl Default for StatisticSet {
    fn default() -> (r: Self)
        ensures
            r == empty_statistic_set(),
    {
        StatisticSet { min: i64::MAX, max: i64::MIN, sum: 0, count: 0 }
    }
}

impl StatisticSet {
    /// Folds `value` into the running statistics.
    pub fn accumulate(&mut self, value: i64)
        ensures
            *final(self) == accumulated(*old(self), value),
    {
        if value < self.min {
            self.min = value;
        }
        if value > self.max {
            self.max = value;
        }
        let wide: i128 = self.sum as i128 + value as i128;
        self.sum = if wide > i64::MAX as i128 {
            i64::MAX
        } else if wide < i64::MIN as i128 {
            i64::MIN
        } else {
            wide as i64
        };
        self.count = self.count.saturating_add(1);
    }
}

/// The bucket of a sample in a histogram: two significant figures.
pub open spec fn bucket_of(v: i64) -> i64 {
    bucket_spec(v as int, 2) as i64
}

/// `h` with one more occurrence in bucket `b`.
pub open spec fn histogram_add(h: Map<i64, u64>, b: i64) -> Map<i64, u64> {
    h.insert(
        b,
        if h.contains_key(b) {
            saturating_succ(h[b])
        } else {
            1
        },
    )
}

/// `h` with each of `samples` counted in its bucket.
pub open spec fn histogram_fold(h: Map<i64, u64>, samples: Seq<i64>) -> Map<i64, u64>
    decreases samples.len(),
{
    if samples.len() == 0 {
        h
    } else {
        histogram_add(histogram_fold(h, samples.drop_last()), bucket_of(samples.last()))
    }
}

/// An approximate histogram: occurrence counts per bucket.
#[derive(Clone, Debug, PartialEq, Eq)]
pub struct Histogram {
    pub buckets: HashMap<i64, u64>,
}

impl View for Histogram {
    type V = Map<i64, u64>;

    open spec fn view(&self) -> Map<i64, u64> {
        self.buckets@
    }
}

impl Histogram {
    pub fn new() -> (r: Histogram)
        ensures
            r@ == Map::<i64, u64>::empty(),
    {
        Histogram { buckets: HashMap::new() }
    }

    /// The number of buckets that hold a count.
    pub fn len(&self) -> (r: usize)
        ensures
            r == self@.len(),
    {
        self.buckets.len()
    }

    /// The count of bucket `b` (zero where the bucket is absent).
    pub fn count(&self, b: i64) -> (r: u64)
        ensures
            r == (if self@.contains_key(b) {
                self@[b]
            } else {
                0
            }),
    {
        match self.buckets.get(&b) {
            Some(n) => *n,
            None => 0,
        }
    }

    /// Counts one occurrence of `value` in its bucket.
    pub fn accumulate(&mut self, value: i64)
        ensures
            final(self)@ == histogram_add(old(self)@, bucket_of(value)),
    {
        let b = bucket_10_2_sigfigs(value);
        let n: u64 = match self.buckets.get(&b) {
            Some(c) => if *c == u64::MAX {
                *c
            } else {
                *c + 1
            },
            None => 1,
        };
        self.buckets.insert(b, n);
    }

    /// Counts each sample in its bucket, in order.
    pub fn accumulate_all(&mut self, samples: &Vec<i64>)
        ensures
            final(self)@ == histogram_fold(old(self)@, samples@),
    {
        let mut j: usize = 0;
        assert(samples@.take(0).len() == 0);
        while j < samples.len()
            invariant
                j <= samples@.len(),
                self@ == histogram_fold(old(self)@, samples@.take(j as int)),
            decreases samples@.len() - j,
        {
            self.accumulate(samples[j]);
            assert(samples@.take(j + 1).drop_last() =~= samples@.take(j as int));
            j = j + 1;
        }
        assert(samples@.take(j as int) =~= samples@);
    }
}

/// The samples of `d` counted into `h`, in submission order.
pub fn accumulate_samples(h: &mut Histogram, d: Distribution)
    ensures
        final(h)@ == histogram_fold(old(h)@, d.samples()),
{
    let ghost samples = d.samples();
    match d {
        Distribution::I64(v) => {
            h.accumulate(v);
        },
        Distribution::I32(v) => {
            h.accumulate(v as i64);
        },
        Distribution::U64(v) => {
            h.accumulate(#[verifier::truncate] (v as i64));
        },
        Distribution::U32(v) => {
            h.accumulate(v as i64);
        },
        Distribution::Collection(c) => {
            h.accumulate_all(&c);
        },
    }
    proof {
        if samples.len() == 1 {
            assert(samples.drop_last() =~= Seq::<i64>::empty());
            assert(histogram_fold(old(h)@, samples.drop_last()) == old(h)@);
        }
    }
}

/// What an aggregation holds: a histogram's counts per bucket, or a statistic set.
pub enum AggregationModel {
    Histogram(Map<i64, u64>),
    StatisticSet(StatisticSet),
}

/// The aggregation of one measurement name; its kind is fixed by the first value seen.
#[derive(Clone, Debug, PartialEq, Eq)]
pub enum Aggregation {
    Histogram(Histogram),
    StatisticSet(StatisticSet),
}

impl Aggregation {
    pub open spec fn model(&self) -> AggregationModel {
        match self {
            Aggregation::Histogram(h) => AggregationModel::Histogram(h@),
            Aggregation::StatisticSet(s) => AggregationModel::StatisticSet(*s),
        }
    }
}

/// The aggregations of one dimension position, by measurement name.
pub open spec fn aggregation_entries(s: Seq<(Name, Aggregation)>) -> Seq<(Seq<char>, AggregationModel)> {
    s.map_values(|e: (Name, Aggregation)| (e.0@, e.1.model()))
}

/// `aggs` after observing `v` under `name`: a new name starts a statistic set; a name that
/// holds a histogram is left as it was.
pub open spec fn observe(aggs: Map<Seq<char>, AggregationModel>, name: Seq<char>, v: i64) -> Map<
    Seq<char>,
    AggregationModel,
> {
    if !aggs.contains_key(name) {
        aggs.insert(name, AggregationModel::StatisticSet(accumulated(empty_statistic_set(), v)))
    } else {
        match aggs[name] {
            AggregationModel::StatisticSet(s) => aggs.insert(
                name,
                AggregationModel::StatisticSet(accumulated(s, v)),
            ),
            AggregationModel::Histogram(_) => aggs,
        }
    }
}

/// `aggs` after a distribution of `samples` under `name`: a new name starts a histogram; a
/// name that holds a statistic set is left as it was.
pub open spec fn distribute(
    aggs: Map<Seq<char>, AggregationModel>,
    name: Seq<char>,
    samples: Seq<i64>,
) -> Map<Seq<char>, AggregationModel> {
    if !aggs.contains_key(name) {
        aggs.insert(name, AggregationModel::Histogram(histogram_fold(Map::empty(), samples)))
    } else {
        match aggs[name] {
            AggregationModel::Histogram(h) => aggs.insert(
                name,
                AggregationModel::Histogram(histogram_fold(h, samples)),
            ),
            AggregationModel::StatisticSet(_) => aggs,
        }
    }
}

/// Aggregations keyed by measurement name.
pub struct MeasurementAggregations {
    pub entries: Vec<(Name, Aggregation)>,
}

impl View for MeasurementAggregations {
    type V = Map<Seq<char>, AggregationModel>;

    open spec fn view(&self) -> Map<Seq<char>, AggregationModel> {
        assoc_map(aggregation_entries(self.entries@))
    }
}

impl MeasurementAggregations {
    pub open spec fn wf(&self) -> bool {
        keys_unique(aggregation_entries(self.entries@))
    }

    pub fn new() -> (r: MeasurementAggregations)
        ensures
            r.wf(),
            r@ == Map::<Seq<char>, AggregationModel>::empty(),
    {
        MeasurementAggregations { entries: Vec::new() }
    }

    /// The number of measurement names.
    pub fn len(&self) -> (r: usize)
        requires
            self.wf(),
        ensures
            r == self@.len(),
    {
        proof {
            lemma_assoc_dom_len(aggregation_entries(self.entries@));
        }
        self.entries.len()
    }

    /// The aggregation kept under `name`, if any.
    pub fn get(&self, name: &Name) -> (r: Option<&Aggregation>)
        requires
            self.wf(),
        ensures
            match r {
                Some(a) => self@.contains_key(name@) && self@[name@] == a.model(),
                None => !self@.contains_key(name@),
            },
    {
        match self.find(name) {
            Some(i) => Some(&self.entries[i].1),
            None => None,
        }
    }

    /// The position of `name` among the entries, if it is there.
    fn find(&self, name: &Name) -> (r: Option<usize>)
        requires
            self.wf(),
        ensures
            match r {
                Some(i) => i < self.entries@.len() && self.entries@[i as int].0@ == name@
                    && self@.contains_key(name@) && self@[name@] == self.entries@[i as int].1.model(),
                None => !self@.contains_key(name@),
            },
    {
        let ghost vs = aggregation_entries(self.entries@);
        let r = find_key(&self.entries, name);
        proof {
            match r {
                Some(i) => lemma_assoc_index(vs, i as int),
                None => {
                    lemma_assoc_contains(vs, name@);
                    assert forall|j: int| 0 <= j < vs.len() implies vs[j].0 != name@ by {
                        assert(vs[j].0 == self.entries@[j].0@);
                    }
                },
            }
        }
        r
    }

    /// Puts `agg` under the name of entry `i`.
    fn replace(&mut self, i: usize, name: Name, agg: Aggregation)
        requires
            old(self).wf(),
            i < old(self).entries@.len(),
            old(self).entries@[i as int].0@ == name@,
        ensures
            final(self).wf(),
            final(self)@ == old(self)@.insert(name@, agg.model()),
    {
        let ghost vs = aggregation_entries(self.entries@);
        proof {
            lemma_assoc_update(vs, i as int, agg.model());
        }
        self.entries.set(i, (name, agg));
        assert(aggregation_entries(self.entries@) =~= vs.update(i as int, (vs[i as int].0, agg.model())));
    }

    /// Adds `agg` under a name that holds nothing yet.
    fn add(&mut self, name: Name, agg: Aggregation)
        requires
            old(self).wf(),
            !old(self)@.contains_key(name@),
        ensures
            final(self).wf(),
            final(self)@ == old(self)@.insert(name@, agg.model()),
    {
        let ghost vs = aggregation_entries(self.entries@);
        proof {
            lemma_assoc_push(vs, name@, agg.model());
        }
        self.entries.push((name, agg));
        assert(aggregation_entries(self.entries@) =~= vs.push((name@, agg.model())));
    }
}

/// Folds an observation into the statistic set of `name`. A name that already holds a
/// histogram keeps it, and the observation is discarded.
pub fn accumulate_statisticset(
    measurements_map: &mut MeasurementAggregations,
    name: Name,
    observation: Observation,
)
    requires
        old(measurements_map).wf(),
    ensures
        final(measurements_map).wf(),
        final(measurements_map)@ == observe(old(measurements_map)@, name@, observation.value()),
{
    let v = observation.as_i64();
    match measurements_map.find(&name) {
        None => {
            let mut s = StatisticSet::default();
            s.accumulate(v);
            measurements_map.add(name, Aggregation::StatisticSet(s));
        },
        Some(i) => {
            let current: Option<StatisticSet> = match &measurements_map.entries[i].1 {
                Aggregation::StatisticSet(s) => Some(*s),
                Aggregation::Histogram(_) => None,
            };
            match current {
                Some(s) => {
                    let mut s = s;
                    s.accumulate(v);
                    measurements_map.replace(i, name, Aggregation::StatisticSet(s));
                },
                None => {},
            }
        },
    }
}

/// Counts the samples of a distribution into the histogram of `name`. A name that already
/// holds a statistic set keeps it, and the samples are discarded.
pub fn accumulate_distribution(
    measurements_map: &mut MeasurementAggregations,
    name: Name,
    distribution: Distribution,
)
    requires
        old(measurements_map).wf(),
    ensures
        final(measurements_map).wf(),
        final(measurements_map)@ == distribute(
            old(measurements_map)@,
            name@,
            distribution.samples(),
        ),
{
    match measurements_map.find(&name) {
        None => {
            let mut h = Histogram::new();
            accumulate_samples(&mut h, distribution);
            measurements_map.add(name, Aggregation::Histogram(h));
        },
        Some(i) => {
            let ghost before = measurements_map.entries@;
            let ghost vs = aggregation_entries(before);
            let (k, agg) = measurements_map.entries.remove(i);
            let agg = match agg {
                Aggregation::Histogram(h) => {
                    let mut h = h;
                    accumulate_samples(&mut h, distribution);
                    Aggregation::Histogram(h)
                },
                // A statistic set keeps its kind; the samples are discarded.
                other => other,
            };
            measurements_map.entries.insert(i, (k, agg));
            proof {
                assert(measurements_map.entries@ =~= before.update(i as int, (k, agg)));
                lemma_assoc_update(vs, i as int, agg.model());
                assert(aggregation_entries(measurements_map.entries@) =~= vs.update(
                    i as int,
                    (vs[i as int].0, agg.model()),
                ));
                assert(measurements_map@ =~= distribute(
                    old(measurements_map)@,
                    name@,
                    distribution.samples(),
                ));
            }
        },
    }
}

} // verus!
