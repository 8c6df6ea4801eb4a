//! The aggregation state: metric name, then dimension position, then measurement name.
use vstd::prelude::*;

use crate::aggregation::{
    accumulate_distribution, accumulate_statisticset, distribute, observe, AggregationModel,
    MeasurementAggregations,
};
use crate::assoc::{assoc_map, lemma_assoc_same_pairs, lemma_assoc_dom_len, find_key, keys_unique, lemma_assoc_contains, lemma_assoc_index, lemma_assoc_push, lemma_assoc_update};
use crate::metrics::{dimension_entries, dimension_map, Metrics};
use crate::types::{Dimension, Measurement, Name};

verus! {

/// A dimension position: the set of dimension key/value pairs of a metrics object.
pub type PositionModel = Map<Seq<char>, Seq<char>>;

/// Aggregations by measurement name.
pub type AggregationsModel = Map<Seq<char>, AggregationModel>;

/// Aggregations by dimension position, then measurement name.
pub type PositionsModel = Map<PositionModel, AggregationsModel>;

/// Aggregations by metric name, dimension position and measurement name.
pub type MetricsModel = Map<Seq<char>, PositionsModel>;

/// `aggs` after one measurement under `name`.
pub open spec fn apply_measurement(aggs: AggregationsModel, name: Seq<char>, m: Measurement) -> AggregationsModel {
    match m {
        Measurement::Observation(o) => observe(aggs, name, o.value()),
        Measurement::Distribution(d) => distribute(aggs, name, d.samples()),
    }
}

/// `aggs` after each of `ms`, first to last.
pub open spec fn fold_measurements(aggs: AggregationsModel, ms: Seq<(Name, Measurement)>) -> AggregationsModel
    decreases ms.len(),
{
    if ms.len() == 0 {
        aggs
    } else {
        fold_measurements(apply_measurement(aggs, ms[0].0@, ms[0].1), ms.drop_first())
    }
}

/// What `m` holds at `k`, or nothing.
pub open spec fn entry_or_empty<K, K2, V2>(m: Map<K, Map<K2, V2>>, k: K) -> Map<K2, V2> {
    if m.contains_key(k) {
        m[k]
    } else {
        Map::empty()
    }
}

/// `positions` with `ms` folded into the aggregations of `position`.
pub open spec fn fold_at_position(
    positions: PositionsModel,
    position: PositionModel,
    ms: Seq<(Name, Measurement)>,
) -> PositionsModel {
    positions.insert(position, fold_measurements(entry_or_empty(positions, position), ms))
}

/// `map` with a metrics object of name `name`, dimensions `position` and measurements `ms`
/// folded in.
pub open spec fn fold_metrics(
    map: MetricsModel,
    name: Seq<char>,
    position: PositionModel,
    ms: Seq<(Name, Measurement)>,
) -> MetricsModel {
    map.insert(name, fold_at_position(entry_or_empty(map, name), position, ms))
}

/// Two metrics objects with the same name, the same dimension pairs (in whatever order they
/// were set) and the same measurements aggregate into the same position of the same state.
pub proof fn lemma_position_order_irrelevant(map: MetricsModel, a: Metrics, b: Metrics)
    requires
        a.wf(),
        b.wf(),
        a.metrics_name@ == b.metrics_name@,
        dimension_entries(a.dimensions@).to_set() == dimension_entries(b.dimensions@).to_set(),
        a.measurements@ == b.measurements@,
    ensures
        a.dimension_view() == b.dimension_view(),
        fold_metrics(map, a.metrics_name@, a.dimension_view(), a.measurements@) == fold_metrics(
            map,
            b.metrics_name@,
            b.dimension_view(),
            b.measurements@,
        ),
{
    lemma_assoc_same_pairs(dimension_entries(a.dimensions@), dimension_entries(b.dimensions@));
}

/// A distribution under a name that holds a statistic set, or an observation under a name
/// that holds a histogram, is discarded: the aggregations stay as they were.
pub proof fn lemma_kind_conflict_keeps(aggs: AggregationsModel, name: Seq<char>, m: Measurement)
    requires
        aggs.contains_key(name),
        (aggs[name] is StatisticSet && m is Distribution) || (aggs[name] is Histogram
            && m is Observation),
    ensures
        apply_measurement(aggs, name, m) == aggs,
{
}

/// Once a name holds an aggregation, every later measurement leaves it holding one of the
/// same kind: the kind is fixed by the first measurement.
pub proof fn lemma_kind_fixed(aggs: AggregationsModel, name: Seq<char>, ms: Seq<(Name, Measurement)>)
    requires
        aggs.contains_key(name),
    ensures
        fold_measurements(aggs, ms).contains_key(name),
        (fold_measurements(aggs, ms)[name] is StatisticSet) == (aggs[name] is StatisticSet),
    decreases ms.len(),
{
    if ms.len() > 0 {
        lemma_kind_fixed(apply_measurement(aggs, ms[0].0@, ms[0].1), name, ms.drop_first());
    }
}

/// Folds every measurement of `measurements` into `aggs`, first to last.
pub fn fold_measurements_into(aggs: &mut MeasurementAggregations, measurements: Vec<(Name, Measurement)>)
    requires
        old(aggs).wf(),
    ensures
        final(aggs).wf(),
        final(aggs)@ == fold_measurements(old(aggs)@, measurements@),
{
    let mut rest = measurements;
    while rest.len() > 0
        invariant
            aggs.wf(),
            fold_measurements(old(aggs)@, measurements@) == fold_measurements(aggs@, rest@),
        decreases rest@.len(),
    {
        let ghost before = rest@;
        let (name, m) = rest.remove(0);
        assert(rest@ =~= before.drop_first());
        match m {
            Measurement::Observation(o) => accumulate_statisticset(aggs, name, o),
            Measurement::Distribution(d) => accumulate_distribution(aggs, name, d),
        }
    }
}

/// The pair `p` occurs in the map of `s`.
pub open spec fn pair_within(s: Seq<(Seq<char>, Seq<char>)>, p: (Seq<char>, Seq<char>)) -> bool {
    assoc_map(s).contains_key(p.0) && assoc_map(s)[p.0] == p.1
}

/// The pairs of `a` all occur in `b`.
fn dimensions_within(a: &Vec<(Name, Dimension)>, b: &Vec<(Name, Dimension)>) -> (r: bool)
    requires
        keys_unique(dimension_entries(a@)),
        keys_unique(dimension_entries(b@)),
    ensures
        r == dimension_map(a@).submap_of(dimension_map(b@)),
{
    let ghost va = dimension_entries(a@);
    let ghost vb = dimension_entries(b@);
    let mut i: usize = 0;
    while i < a.len()
        invariant
            i <= a@.len(),
            va == dimension_entries(a@),
            vb == dimension_entries(b@),
            keys_unique(va),
            keys_unique(vb),
            forall|j: int| 0 <= j < i ==> pair_within(vb, #[trigger] va[j]),
        decreases a@.len() - i,
    {
        proof {
            lemma_assoc_index(va, i as int);
        }
        match find_key(b, &a[i].0) {
            Some(k) => {
                proof {
                    lemma_assoc_index(vb, k as int);
                }
                if b[k].1 != a[i].1 {
                    return false;
                }
                assert(vb[k as int] == va[i as int]);
                assert(pair_within(vb, va[i as int]));
            },
            None => {
                proof {
                    lemma_assoc_contains(vb, va[i as int].0);
                }
                return false;
            },
        }
        i = i + 1;
    }
    proof {
        assert forall|key: Seq<char>| #[trigger] assoc_map(va).contains_key(key) implies assoc_map(
            vb,
        ).contains_key(key) && assoc_map(vb)[key] == assoc_map(va)[key] by {
            lemma_assoc_contains(va, key);
            let j = choose|j: int| 0 <= j < va.len() && va[j].0 == key;
            lemma_assoc_index(va, j);
            assert(pair_within(vb, va[j]));
        }
    }
    true
}

/// `a` and `b` hold the same dimension pairs, whatever their order.
pub fn same_position(a: &Vec<(Name, Dimension)>, b: &Vec<(Name, Dimension)>) -> (r: bool)
    requires
        keys_unique(dimension_entries(a@)),
        keys_unique(dimension_entries(b@)),
    ensures
        r == (dimension_map(a@) == dimension_map(b@)),
{
    let r = dimensions_within(a, b) && dimensions_within(b, a);
    proof {
        if r {
            let (ma, mb) = (dimension_map(a@), dimension_map(b@));
            assert(ma.dom() =~= mb.dom());
            assert(ma =~= mb);
        }
    }
    r
}

/// Positions read as dimension maps, with their aggregations.
pub open spec fn position_entries(s: Seq<(Vec<(Name, Dimension)>, MeasurementAggregations)>) -> Seq<
    (PositionModel, AggregationsModel),
> {
    s.map_values(|e: (Vec<(Name, Dimension)>, MeasurementAggregations)| (dimension_map(e.0@), e.1@))
}

/// The aggregations of one metric name, by dimension position.
pub struct DimensionedMeasurements {
    pub entries: Vec<(Vec<(Name, Dimension)>, MeasurementAggregations)>,
}

impl View for DimensionedMeasurements {
    type V = PositionsModel;

    open spec fn view(&self) -> PositionsModel {
        assoc_map(position_entries(self.entries@))
    }
}

impl DimensionedMeasurements {
    pub open spec fn wf(&self) -> bool {
        &&& keys_unique(position_entries(self.entries@))
        &&& forall|i: int|
            0 <= i < self.entries@.len() ==> keys_unique(
                dimension_entries((#[trigger] self.entries@[i]).0@),
            ) && self.entries@[i].1.wf()
    }

    pub fn new() -> (r: DimensionedMeasurements)
        ensures
            r.wf(),
            r@ == PositionsModel::empty(),
    {
        DimensionedMeasurements { entries: Vec::new() }
    }

    /// The number of dimension positions.
    pub fn len(&self) -> (r: usize)
        requires
            self.wf(),
        ensures
            r == self@.len(),
    {
        proof {
            lemma_assoc_dom_len(position_entries(self.entries@));
        }
        self.entries.len()
    }

    /// Where the position with the same pairs as `position` stands, if it is there.
    fn find(&self, position: &Vec<(Name, Dimension)>) -> (r: Option<usize>)
        requires
            self.wf(),
            keys_unique(dimension_entries(position@)),
        ensures
            match r {
                Some(i) => i < self.entries@.len() && dimension_map(self.entries@[i as int].0@)
                    == dimension_map(position@) && self@.contains_key(dimension_map(position@))
                    && self@[dimension_map(position@)] == self.entries@[i as int].1@,
                None => !self@.contains_key(dimension_map(position@)),
            },
    {
        let ghost vs = position_entries(self.entries@);
        let mut i: usize = 0;
        while i < self.entries.len()
            invariant
                i <= self.entries@.len(),
                vs == position_entries(self.entries@),
                self.wf(),
                keys_unique(dimension_entries(position@)),
                forall|j: int| 0 <= j < i ==> vs[j].0 != dimension_map(position@),
            decreases self.entries@.len() - i,
        {
            assert(keys_unique(dimension_entries(self.entries@[i as int].0@)));
            if same_position(&self.entries[i].0, position) {
                proof {
                    lemma_assoc_index(vs, i as int);
                }
                return Some(i);
            }
            i = i + 1;
        }
        proof {
            lemma_assoc_contains(vs, dimension_map(position@));
        }
        None
    }

    /// The aggregations at the position with the same pairs as `position`, if any.
    pub fn get(&self, position: &Vec<(Name, Dimension)>) -> (r: Option<&MeasurementAggregations>)
        requires
            self.wf(),
            keys_unique(dimension_entries(position@)),
        ensures
            match r {
                Some(a) => a.wf() && self@.contains_key(dimension_map(position@)) && self@[dimension_map(
                    position@,
                )] == a@,
                None => !self@.contains_key(dimension_map(position@)),
            },
    {
        match self.find(position) {
            Some(i) => Some(&self.entries[i].1),
            None => None,
        }
    }

    /// Folds `measurements` into the aggregations of `position`.
    pub fn fold(&mut self, position: Vec<(Name, Dimension)>, measurements: Vec<(Name, Measurement)>)
        requires
            old(self).wf(),
            keys_unique(dimension_entries(position@)),
        ensures
            final(self).wf(),
            final(self)@ == fold_at_position(old(self)@, dimension_map(position@), measurements@),
    {
        let ghost before = self.entries@;
        let ghost vs = position_entries(before);
        let ghost key = dimension_map(position@);
        match self.find(&position) {
            Some(i) => {
                let (k, aggs) = self.entries.remove(i);
                let mut aggs = aggs;
                fold_measurements_into(&mut aggs, measurements);
                self.entries.insert(i, (k, aggs));
                proof {
                    assert(self.entries@ =~= before.update(i as int, (k, aggs)));
                    lemma_assoc_update(vs, i as int, aggs@);
                    assert(position_entries(self.entries@) =~= vs.update(i as int, (vs[i as int].0, aggs@)));
                }
            },
            None => {
                let mut aggs = MeasurementAggregations::new();
                fold_measurements_into(&mut aggs, measurements);
                proof {
                    lemma_assoc_push(vs, key, aggs@);
                }
                self.entries.push((position, aggs));
                assert(position_entries(self.entries@) =~= vs.push((key, aggs@)));
            },
        }
    }
}

/// Metric names read as plain text, with their positions.
pub open spec fn metric_entries(s: Seq<(Name, DimensionedMeasurements)>) -> Seq<(Seq<char>, PositionsModel)> {
    s.map_values(|e: (Name, DimensionedMeasurements)| (e.0@, e.1@))
}

/// The whole aggregation state.
pub struct MetricsMap {
    entries: Vec<(Name, DimensionedMeasurements)>,
}

impl View for MetricsMap {
    type V = MetricsModel;

    closed spec fn view(&self) -> MetricsModel {
        assoc_map(metric_entries(self.entries@))
    }
}

impl MetricsMap {
    #[verifier::type_invariant]
    spec fn wf(&self) -> bool {
        &&& keys_unique(metric_entries(self.entries@))
        &&& forall|i: int| 0 <= i < self.entries@.len() ==> (#[trigger] self.entries@[i]).1.wf()
    }

    pub fn new() -> (r: MetricsMap)
        ensures
            r@ == MetricsModel::empty(),
    {
        let r = MetricsMap { entries: Vec::new() };
        assert(r@ =~= MetricsModel::empty());
        r
    }

    /// The number of metric names.
    pub fn len(&self) -> (r: usize)
        ensures
            r == self@.len(),
    {
        proof {
            use_type_invariant(self);
            lemma_assoc_dom_len(metric_entries(self.entries@));
        }
        self.entries.len()
    }

    /// The positions of metric `name`, if any.
    pub fn get(&self, name: &Name) -> (r: Option<&DimensionedMeasurements>)
        ensures
            match r {
                Some(p) => p.wf() && self@.contains_key(name@) && self@[name@] == p@,
                None => !self@.contains_key(name@),
            },
    {
        proof {
            use_type_invariant(self);
        }
        let ghost vs = metric_entries(self.entries@);
        match find_key(&self.entries, name) {
            Some(i) => {
                proof {
                    lemma_assoc_index(vs, i as int);
                }
                Some(&self.entries[i].1)
            },
            None => {
                proof {
                    lemma_assoc_contains(vs, name@);
                }
                None
            },
        }
    }

    /// Folds a completed metrics object into the aggregations of its name and position.
    pub fn update_metrics_map(&mut self, metrics: Metrics)
        requires
            metrics.wf(),
        ensures
            final(self)@ == fold_metrics(
                old(self)@,
                metrics.metrics_name@,
                metrics.dimension_view(),
                metrics.measurements@,
            ),
    {
        proof {
            use_type_invariant(&*self);
        }
        let mut entries: Vec<(Name, DimensionedMeasurements)> = Vec::new();
        std::mem::swap(&mut entries, &mut self.entries);
        let ghost before = entries@;
        let ghost vs = metric_entries(before);
        let Metrics { metrics_name, start_time: _, behavior: _, dimensions, measurements } = metrics;
        match find_key(&entries, &metrics_name) {
            Some(i) => {
                proof {
                    lemma_assoc_index(vs, i as int);
                }
                let (k, positions) = entries.remove(i);
                let mut positions = positions;
                positions.fold(dimensions, measurements);
                entries.insert(i, (k, positions));
                proof {
                    assert(entries@ =~= before.update(i as int, (k, positions)));
                    lemma_assoc_update(vs, i as int, positions@);
                    assert(metric_entries(entries@) =~= vs.update(i as int, (vs[i as int].0, positions@)));
                }
            },
            None => {
                proof {
                    lemma_assoc_contains(vs, metrics_name@);
                }
                let mut positions = DimensionedMeasurements::new();
                positions.fold(dimensions, measurements);
                let ghost key = metrics_name@;
                proof {
                    lemma_assoc_push(vs, key, positions@);
                }
                entries.push((metrics_name, positions));
                assert(metric_entries(entries@) =~= vs.push((key, positions@)));
            },
        }
        self.entries = entries;
    }
}

} // verus!
