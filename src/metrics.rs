//! The metrics object: one scope's name, start time, behavior mask, dimensions and
//! measurements.
use std::time::Instant;
use vstd::prelude::*;

use crate::assoc::{assoc_map, find_key, names_distinct, keys_unique, lemma_assoc_contains, lemma_assoc_index, lemma_assoc_push, lemma_assoc_update};
use crate::types::{mask_has, Dimension, Distribution, Measurement, MetricsBehavior, Name, Observation};

verus! {

/// Dimension pairs read as plain text.
pub open spec fn dimension_entries(s: Seq<(Name, Dimension)>) -> Seq<(Seq<char>, Seq<char>)> {
    s.map_values(|e: (Name, Dimension)| (e.0@, e.1@))
}

/// The key/value map of a list of dimension pairs.
pub open spec fn dimension_map(s: Seq<(Name, Dimension)>) -> Map<Seq<char>, Seq<char>> {
    assoc_map(dimension_entries(s))
}

/// Measurement pairs keyed by plain text.
pub open spec fn measurement_entries(s: Seq<(Name, Measurement)>) -> Seq<(Seq<char>, Measurement)> {
    s.map_values(|e: (Name, Measurement)| (e.0@, e.1))
}

/// The samples already recorded as a distribution under `name` (none for an observation).
pub open spec fn prior_samples(m: Map<Seq<char>, Measurement>, name: Seq<char>) -> Seq<i64> {
    if m.contains_key(name) {
        match m[name] {
            Measurement::Distribution(d) => d.samples(),
            Measurement::Observation(_) => Seq::empty(),
        }
    } else {
        Seq::empty()
    }
}

/// One scope's recorded state.
pub struct Metrics {
    pub metrics_name: Name,
    pub start_time: Instant,
    pub behavior: u32,
    pub dimensions: Vec<(Name, Dimension)>,
    pub measurements: Vec<(Name, Measurement)>,
}

impl Metrics {
    /// Keys are unique among the dimensions and among the measurements.
    pub open spec fn wf(&self) -> bool {
        &&& keys_unique(dimension_entries(self.dimensions@))
        &&& keys_unique(measurement_entries(self.measurements@))
    }

    /// The dimensions as a map.
    pub open spec fn dimension_view(&self) -> Map<Seq<char>, Seq<char>> {
        dimension_map(self.dimensions@)
    }

    /// The measurements as a map.
    pub open spec fn measurement_view(&self) -> Map<Seq<char>, Measurement> {
        assoc_map(measurement_entries(self.measurements@))
    }

    /// A fresh metrics object: no dimensions, no measurements, no behavior.
    pub fn new(metrics_name: Name, start_time: Instant) -> (r: Metrics)
        ensures
            r.wf(),
            r.metrics_name == metrics_name,
            r.start_time == start_time,
            r.behavior == 0,
            r.dimensions@.len() == 0,
            r.measurements@.len() == 0,
    {
        Metrics {
            metrics_name,
            start_time,
            behavior: 0,
            dimensions: Vec::new(),
            measurements: Vec::new(),
        }
    }

    /// Sets dimension `name` to `value`; the last write wins.
    pub fn dimension(&mut self, name: Name, value: Dimension)
        requires
            old(self).wf(),
        ensures
            final(self).wf(),
            final(self).dimension_view() == old(self).dimension_view().insert(name@, value@),
            final(self).metrics_name == old(self).metrics_name,
            final(self).start_time == old(self).start_time,
            final(self).behavior == old(self).behavior,
            final(self).measurements == old(self).measurements,
    {
        let ghost vs = dimension_entries(self.dimensions@);
        match find_key(&self.dimensions, &name) {
            Some(i) => {
                proof {
                    lemma_assoc_update(vs, i as int, value@);
                }
                let ghost pair = (name@, value@);
                self.dimensions.set(i, (name, value));
                assert(dimension_entries(self.dimensions@) =~= vs.update(i as int, pair));
            },
            None => {
                proof {
                    lemma_assoc_contains(vs, name@);
                    lemma_assoc_push(vs, name@, value@);
                }
                let ghost pair = (name@, value@);
                self.dimensions.push((name, value));
                assert(dimension_entries(self.dimensions@) =~= vs.push(pair));
            },
        }
    }

    /// Puts `m` under `name`, replacing what was there.
    fn put_measurement(&mut self, name: Name, m: Measurement)
        requires
            old(self).wf(),
        ensures
            final(self).wf(),
            final(self).measurement_view() == old(self).measurement_view().insert(name@, m),
            final(self).metrics_name == old(self).metrics_name,
            final(self).start_time == old(self).start_time,
            final(self).behavior == old(self).behavior,
            final(self).dimensions == old(self).dimensions,
    {
        let ghost vs = measurement_entries(self.measurements@);
        match find_key(&self.measurements, &name) {
            Some(i) => {
                proof {
                    lemma_assoc_update(vs, i as int, m);
                }
                let ghost pair = (name@, m);
                self.measurements.set(i, (name, m));
                assert(measurement_entries(self.measurements@) =~= vs.update(i as int, pair));
            },
            None => {
                proof {
                    lemma_assoc_contains(vs, name@);
                    lemma_assoc_push(vs, name@, m);
                }
                let ghost pair = (name@, m);
                self.measurements.push((name, m));
                assert(measurement_entries(self.measurements@) =~= vs.push(pair));
            },
        }
    }

    /// Sets the observation of `name`, replacing what was recorded under it.
    pub fn measurement(&mut self, name: Name, value: Observation)
        requires
            old(self).wf(),
        ensures
            final(self).wf(),
            final(self).measurement_view() == old(self).measurement_view().insert(
                name@,
                Measurement::Observation(value),
            ),
            final(self).metrics_name == old(self).metrics_name,
            final(self).start_time == old(self).start_time,
            final(self).behavior == old(self).behavior,
            final(self).dimensions == old(self).dimensions,
    {
        self.put_measurement(name, Measurement::Observation(value));
    }

    /// Adds the samples of `value` to the distribution of `name`, creating it where none is
    /// recorded (an observation under that name is replaced).
    pub fn distribution(&mut self, name: Name, value: Distribution)
        requires
            old(self).wf(),
        ensures
            final(self).wf(),
            final(self).measurement_view() == old(self).measurement_view().insert(
                name@,
                final(self).measurement_view()[name@],
            ),
            final(self).measurement_view()[name@] is Distribution,
            final(self).measurement_view()[name@]->Distribution_0.samples() == prior_samples(
                old(self).measurement_view(),
                name@,
            ) + value.samples(),
            final(self).metrics_name == old(self).metrics_name,
            final(self).start_time == old(self).start_time,
            final(self).behavior == old(self).behavior,
            final(self).dimensions == old(self).dimensions,
    {
        let ghost vs = measurement_entries(self.measurements@);
        let prior: Option<Vec<i64>> = match find_key(&self.measurements, &name) {
            Some(i) => {
                proof {
                    lemma_assoc_index(vs, i as int);
                }
                match &self.measurements[i].1 {
                    Measurement::Distribution(d) => Some(samples_of(d)),
                    Measurement::Observation(_) => None,
                }
            },
            None => {
                proof {
                    lemma_assoc_contains(vs, name@);
                }
                None
            },
        };
        match prior {
            None => {
                assert(prior_samples(self.measurement_view(), name@) =~= Seq::<i64>::empty());
                assert(value.samples() =~= Seq::<i64>::empty() + value.samples());
                self.put_measurement(name, Measurement::Distribution(value));
            },
            Some(samples) => {
                let mut samples = samples;
                let more = samples_of(&value);
                let mut j: usize = 0;
                let ghost start = samples@;
                while j < more.len()
                    invariant
                        j <= more@.len(),
                        samples@ == start + more@.take(j as int),
                    decreases more@.len() - j,
                {
                    samples.push(more[j]);
                    assert(more@.take(j + 1) =~= more@.take(j as int).push(more@[j as int]));
                    j = j + 1;
                }
                assert(more@.take(j as int) =~= more@);
                self.put_measurement(name, Measurement::Distribution(Distribution::Collection(samples)));
            },
        }
    }

    /// Whether keys are unique among the dimensions and among the measurements, as every
    /// object built through these methods has them.
    pub fn has_unique_keys(&self) -> (r: bool)
        ensures
            r == self.wf(),
    {
        let d = names_distinct(&self.dimensions);
        let m = names_distinct(&self.measurements);
        proof {
            let (vd, vm) = (dimension_entries(self.dimensions@), measurement_entries(self.measurements@));
            assert(d == keys_unique(vd)) by {
                if !d {
                    let (i, j) = choose|i: int, j: int|
                        0 <= i < j < self.dimensions@.len() && self.dimensions@[i].0@ == self.dimensions@[j].0@;
                    assert(vd[i].0 == vd[j].0);
                }
            }
            assert(m == keys_unique(vm)) by {
                if !m {
                    let (i, j) = choose|i: int, j: int|
                        0 <= i < j < self.measurements@.len() && self.measurements@[i].0@ == self.measurements@[j].0@;
                    assert(vm[i].0 == vm[j].0);
                }
            }
        }
        d && m
    }

    /// Sets the bits of `behavior`.
    pub fn add_behavior(&mut self, behavior: MetricsBehavior)
        ensures
            final(self).behavior == old(self).behavior | behavior.spec_bits(),
            mask_has(final(self).behavior, behavior),
            final(self).metrics_name == old(self).metrics_name,
            final(self).start_time == old(self).start_time,
            final(self).dimensions == old(self).dimensions,
            final(self).measurements == old(self).measurements,
    {
        let b = behavior.bits();
        let m = self.behavior;
        self.behavior = m | b;
        assert((m | b) & b == b) by (bit_vector);
    }

    /// The object carries `behavior`.
    pub fn has_behavior(&self, behavior: MetricsBehavior) -> (r: bool)
        ensures
            r == mask_has(self.behavior, behavior),
    {
        let b = behavior.bits();
        self.behavior & b == b
    }

    /// Replaces the whole behavior mask.
    pub fn set_raw_behavior(&mut self, behavior: u32)
        ensures
            final(self).behavior == behavior,
            final(self).metrics_name == old(self).metrics_name,
            final(self).start_time == old(self).start_time,
            final(self).dimensions == old(self).dimensions,
            final(self).measurements == old(self).measurements,
    {
        self.behavior = behavior;
    }
}

/// The samples of a distribution, in order.
pub fn samples_of(d: &Distribution) -> (r: Vec<i64>)
    ensures
        r@ == d.samples(),
{
    match d {
        Distribution::I64(v) => vec![*v],
        Distribution::I32(v) => vec![*v as i64],
        Distribution::U64(v) => vec![#[verifier::truncate] (*v as i64)],
        Distribution::U32(v) => vec![*v as i64],
        Distribution::Collection(c) => {
            let mut r: Vec<i64> = Vec::new();
            let mut j: usize = 0;
            while j < c.len()
                invariant
                    j <= c@.len(),
                    r@ == c@.take(j as int),
                decreases c@.len() - j,
            {
                r.push(c[j]);
                assert(c@.take(j + 1) =~= c@.take(j as int).push(c@[j as int]));
                j = j + 1;
            }
            assert(c@.take(j as int) =~= c@);
            r
        },
    }
}

} // verus!
