//! Value types shared by the recording and aggregation sides.
use vstd::prelude::*;

verus! {

/// A metric name, a dimension key or a measurement key.
pub type Name = String;

/// The value of a dimension.
pub type Dimension = String;

/// A single scalar sample, of any of the supported integer widths.
#[derive(Clone, Copy, Debug, PartialEq, Eq, Structural)]
pub enum Observation {
    I64(i64),
    I32(i32),
    U64(u64),
    U32(u32),
}

impl Observation {
    /// The sample normalized to a 64-bit signed integer (a `u64` is reinterpreted).
    pub open spec fn value(self) -> i64 {
        match self {
            Observation::I64(v) => v,
            Observation::I32(v) => v as i64,
            Observation::U64(v) => v as i64,
            Observation::U32(v) => v as i64,
        }
    }

    pub fn as_i64(&self) -> (r: i64)
        ensures
            r == self.value(),
    {
        match self {
            Observation::I64(v) => *v,
            Observation::I32(v) => *v as i64,
            Observation::U64(v) => #[verifier::truncate] (*v as i64),
            Observation::U32(v) => *v as i64,
        }
    }
}

/// One or many samples submitted together.
#[derive(Clone, Debug, PartialEq, Eq)]
pub enum Distribution {
    I64(i64),
    I32(i32),
    U64(u64),
    U32(u32),
    Collection(Vec<i64>),
}

impl Distribution {
    /// The samples, each normalized to a 64-bit signed integer, in submission order.
    pub open spec fn samples(self) -> Seq<i64> {
        match self {
            Distribution::I64(v) => seq![v],
            Distribution::I32(v) => seq![v as i64],
            Distribution::U64(v) => seq![v as i64],
            Distribution::U32(v) => seq![v as i64],
            Distribution::Collection(c) => c@,
        }
    }
}

/// A recorded measurement: a running statistic or histogram input.
#[derive(Clone, Debug, PartialEq, Eq)]
pub enum Measurement {
    Observation(Observation),
    Distribution(Distribution),
}

/// Behavior flags, combined into a bitmask on each metrics object.
#[derive(Clone, Copy, Debug, PartialEq, Eq, Structural)]
pub enum MetricsBehavior {
    /// No special behavior.
    Default,
    /// The metrics object is discarded instead of reaching the sink.
    Suppress,
    /// No `totaltime` sample is recorded on emission.
    SuppressTotalTime,
}

impl MetricsBehavior {
    pub open spec fn spec_bits(self) -> u32 {
        match self {
            MetricsBehavior::Default => 0,
            MetricsBehavior::Suppress => 1,
            MetricsBehavior::SuppressTotalTime => 2,
        }
    }

    /// The bit of this flag in a behavior mask.
    pub fn bits(self) -> (r: u32)
        ensures
            r == self.spec_bits(),
    {
        match self {
            MetricsBehavior::Default => 0,
            MetricsBehavior::Suppress => 1,
            MetricsBehavior::SuppressTotalTime => 2,
        }
    }
}

/// `mask` carries `behavior`: all of the flag's bits are set.
pub open spec fn mask_has(mask: u32, behavior: MetricsBehavior) -> bool {
    mask & behavior.spec_bits() == behavior.spec_bits()
}

} // verus!
