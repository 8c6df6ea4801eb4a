//! Allocation of metrics objects, and the guard that returns one to its owner.
use std::time::Instant;
use vstd::prelude::*;

use crate::metrics::Metrics;
use crate::types::{Dimension, Distribution, MetricsBehavior, Name, Observation};

verus! {

/// Produces fresh metrics objects.
pub trait MetricsAllocator {
    /// A metrics object named `metrics_name`, with no dimensions, no measurements and no
    /// behavior, started now.
    fn new_metrics(&self, metrics_name: Name) -> (r: Metrics)
        ensures
            r.wf(),
            r.metrics_name == metrics_name,
            r.behavior == 0,
            r.dimensions@.len() == 0,
            r.measurements@.len() == 0,
    ;
}

/// An allocator that creates every metrics object afresh.
pub struct AlwaysNewMetricsAllocator {}

impl Default for AlwaysNewMetricsAllocator {
    fn default() -> (r: Self) {
        AlwaysNewMetricsAllocator {  }
    }
}

impl MetricsAllocator for AlwaysNewMetricsAllocator {
    fn new_metrics(&self, metrics_name: Name) -> (r: Metrics) {
        Metrics::new(metrics_name, Instant::now())
    }
}

/// Where a guard hands its metrics object back.
pub trait ReturnTarget {
    /// Takes back a metrics object that a guard held.
    fn return_referent(&self, to_return: Metrics)
        requires
            to_return.wf(),
    ;
}

/// Holds a metrics object for the length of a scope. It cannot be copied, and `close`, which
/// consumes it, hands the object back to its target: so the object is returned once.
#[must_use]
pub struct ReturningRef<'a, T: ReturnTarget> {
    target: &'a T,
    referent: Metrics,
}

impl<'a, T: ReturnTarget> ReturningRef<'a, T> {
    /// The metrics object held.
    pub closed spec fn held(&self) -> Metrics {
        self.referent
    }

    /// Where the object goes back to.
    pub closed spec fn return_target(&self) -> &'a T {
        self.target
    }

    /// A guard over `referent` that returns it to `target`.
    pub fn new(target: &'a T, referent: Metrics) -> (r: Self)
        requires
            referent.wf(),
        ensures
            r.held() == referent,
            r.return_target() == target,
    {
        ReturningRef { target, referent }
    }

    /// Sets dimension `name` of the held object to `value`.
    pub fn dimension(&mut self, name: Name, value: Dimension)
        requires
            old(self).held().wf(),
        ensures
            final(self).held().wf(),
            final(self).held().dimension_view() == old(self).held().dimension_view().insert(
                name@,
                value@,
            ),
            final(self).held().measurements == old(self).held().measurements,
            final(self).held().metrics_name == old(self).held().metrics_name,
            final(self).held().behavior == old(self).held().behavior,
            final(self).return_target() == old(self).return_target(),
    {
        self.referent.dimension(name, value);
    }

    /// Sets the observation `name` of the held object.
    pub fn measurement(&mut self, name: Name, value: Observation)
        requires
            old(self).held().wf(),
        ensures
            final(self).held().wf(),
            final(self).held().measurement_view() == old(self).held().measurement_view().insert(
                name@,
                crate::types::Measurement::Observation(value),
            ),
            final(self).held().dimensions == old(self).held().dimensions,
            final(self).held().metrics_name == old(self).held().metrics_name,
            final(self).held().behavior == old(self).held().behavior,
            final(self).return_target() == old(self).return_target(),
    {
        self.referent.measurement(name, value);
    }

    /// Adds samples to the distribution `name` of the held object.
    pub fn distribution(&mut self, name: Name, value: Distribution)
        requires
            old(self).held().wf(),
        ensures
            final(self).held().wf(),
            final(self).held().measurement_view() == old(self).held().measurement_view().insert(
                name@,
                final(self).held().measurement_view()[name@],
            ),
            final(self).held().measurement_view()[name@] is Distribution,
            final(self).held().measurement_view()[name@]->Distribution_0.samples()
                == crate::metrics::prior_samples(old(self).held().measurement_view(), name@)
                + value.samples(),
            final(self).held().dimensions == old(self).held().dimensions,
            final(self).held().metrics_name == old(self).held().metrics_name,
            final(self).held().behavior == old(self).held().behavior,
            final(self).return_target() == old(self).return_target(),
    {
        self.referent.distribution(name, value);
    }

    /// Sets the bits of `behavior` on the held object.
    pub fn add_behavior(&mut self, behavior: MetricsBehavior)
        requires
            old(self).held().wf(),
        ensures
            final(self).held().wf(),
            final(self).held().behavior == old(self).held().behavior | behavior.spec_bits(),
            final(self).held().dimensions == old(self).held().dimensions,
            final(self).held().measurements == old(self).held().measurements,
            final(self).held().metrics_name == old(self).held().metrics_name,
            final(self).return_target() == old(self).return_target(),
    {
        self.referent.add_behavior(behavior);
    }

    /// Ends the scope: hands the held object back to its target.
    pub fn close(self)
        requires
            self.held().wf(),
    {
        let ReturningRef { target, referent } = self;
        target.return_referent(referent);
    }
}

} // verus!
