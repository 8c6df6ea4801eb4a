//! The factory: creates metrics objects with the configured default behaviors, guards them
//! for a scope, and emits them to a sink.
use vstd::prelude::*;

use crate::allocator::{MetricsAllocator, ReturnTarget, ReturningRef};
use crate::metrics::{prior_samples, Metrics};
use crate::sink::Sink;
use crate::time::elapsed_nanos;
use crate::types::{mask_has, Distribution, MetricsBehavior, Name};

verus! {

/// The bitwise OR of the bits of `behaviors`.
pub open spec fn behavior_mask(behaviors: Seq<MetricsBehavior>) -> u32
    decreases behaviors.len(),
{
    if behaviors.len() == 0 {
        0
    } else {
        behavior_mask(behaviors.drop_last()) | behaviors.last().spec_bits()
    }
}

/// The name of the implicit time-in-scope distribution.
pub open spec fn total_time_name() -> Seq<char> {
    "totaltime"@
}

/// The `totaltime` sample of an elapsed time in nanoseconds, saturating at `i64::MAX`.
pub open spec fn elapsed_sample(elapsed: u64) -> i64 {
    if elapsed > i64::MAX {
        i64::MAX
    } else {
        elapsed as i64
    }
}

/// What emission hands to the sink: nothing for a suppressed object; otherwise the object,
/// with `elapsed` added to its `totaltime` distribution unless that is suppressed.
pub fn finish_scope(metrics: Metrics, elapsed: u64) -> (r: Option<Metrics>)
    requires
        metrics.wf(),
    ensures
        r is None <==> mask_has(metrics.behavior, MetricsBehavior::Suppress),
        r is Some ==> {
            let m = r->Some_0;
            &&& m.wf()
            &&& m.metrics_name == metrics.metrics_name
            &&& m.start_time == metrics.start_time
            &&& m.behavior == metrics.behavior
            &&& m.dimensions == metrics.dimensions
            &&& mask_has(metrics.behavior, MetricsBehavior::SuppressTotalTime) ==> m.measurements
                == metrics.measurements
            &&& !mask_has(metrics.behavior, MetricsBehavior::SuppressTotalTime) ==> {
                &&& m.measurement_view() == metrics.measurement_view().insert(
                    total_time_name(),
                    m.measurement_view()[total_time_name()],
                )
                &&& m.measurement_view()[total_time_name()] is Distribution
                &&& m.measurement_view()[total_time_name()]->Distribution_0.samples()
                    == prior_samples(metrics.measurement_view(), total_time_name()).push(
                    elapsed_sample(elapsed),
                )
            }
        },
{
    if metrics.has_behavior(MetricsBehavior::Suppress) {
        return None;
    }
    let mut metrics = metrics;
    if !metrics.has_behavior(MetricsBehavior::SuppressTotalTime) {
        let ghost before = metrics;
        let sample: i64 = if elapsed > i64::MAX as u64 {
            i64::MAX
        } else {
            elapsed as i64
        };
        metrics.distribution("totaltime".to_owned(), Distribution::I64(sample));
        assert(prior_samples(before.measurement_view(), total_time_name()) + seq![sample]
            =~= prior_samples(before.measurement_view(), total_time_name()).push(sample));
    }
    Some(metrics)
}

/// Creates, guards and emits metrics objects.
pub struct MetricsFactory<TMetricsAllocator, TSink> {
    allocator: TMetricsAllocator,
    default_metrics_behavior: u32,
    sink: TSink,
}

impl<TMetricsAllocator, TSink> MetricsFactory<TMetricsAllocator, TSink> {
    /// The behavior mask that every new metrics object starts with.
    pub closed spec fn default_behavior(&self) -> u32 {
        self.default_metrics_behavior
    }

    /// The sink that emitted objects go to.
    pub closed spec fn sink(&self) -> TSink {
        self.sink
    }

    /// The allocator of new objects.
    pub closed spec fn allocator(&self) -> TMetricsAllocator {
        self.allocator
    }

    /// The sink that emitted objects go to.
    pub fn sink_ref(&self) -> (r: &TSink)
        ensures
            *r == self.sink(),
    {
        &self.sink
    }

    /// A factory over `sink` and `allocator` whose default behavior mask is the OR of
    /// `behaviors`.
    pub fn new_with_allocator(
        sink: TSink,
        behaviors: &[MetricsBehavior],
        allocator: TMetricsAllocator,
    ) -> (r: Self)
        ensures
            r.default_behavior() == behavior_mask(behaviors@),
            r.sink() == sink,
            r.allocator() == allocator,
    {
        let mut mask: u32 = 0;
        let mut i: usize = 0;
        while i < behaviors.len()
            invariant
                i <= behaviors@.len(),
                mask == behavior_mask(behaviors@.take(i as int)),
            decreases behaviors@.len() - i,
        {
            assert(behaviors@.take(i + 1).drop_last() =~= behaviors@.take(i as int));
            mask = mask | behaviors[i].bits();
            i = i + 1;
        }
        assert(behaviors@.take(i as int) =~= behaviors@);
        MetricsFactory { allocator, default_metrics_behavior: mask, sink }
    }
}

impl<TMetricsAllocator: Default, TSink> MetricsFactory<TMetricsAllocator, TSink> {
    /// A factory over `sink` with the default allocator and the `Default` behavior.
    pub fn new(sink: TSink) -> (r: Self)
        ensures
            r.default_behavior() == MetricsBehavior::Default.spec_bits(),
            r.sink() == sink,
    {
        let behaviors = vec![MetricsBehavior::Default];
        let r = Self::new_with_behaviors(sink, behaviors.as_slice());
        assert(behaviors@.drop_last() =~= Seq::<MetricsBehavior>::empty());
        assert(behavior_mask(behaviors@.drop_last()) == 0);
        assert(behaviors@.last() == MetricsBehavior::Default);
        assert(0u32 | 0u32 == 0u32) by (bit_vector);
        assert(behavior_mask(behaviors@) == 0);
        r
    }

    /// A factory over `sink` with the default allocator and the OR of `behaviors`.
    pub fn new_with_behaviors(sink: TSink, behaviors: &[MetricsBehavior]) -> (r: Self)
        ensures
            r.default_behavior() == behavior_mask(behaviors@),
            r.sink() == sink,
    {
        Self::new_with_allocator(sink, behaviors, TMetricsAllocator::default())
    }
}

impl<TMetricsAllocator: Default, TSink: Default> Default for MetricsFactory<TMetricsAllocator, TSink> {
    fn default() -> (r: Self)
        ensures
            r.default_behavior() == MetricsBehavior::Default.spec_bits(),
    {
        Self::new(TSink::default())
    }
}

impl<TMetricsAllocator: MetricsAllocator, TSink: Sink> MetricsFactory<TMetricsAllocator, TSink> {
    /// A new metrics object named `metrics_name`, carrying the default behavior mask. It must
    /// be emitted through this factory; prefer `record_scope`.
    pub fn create_new_raw_metrics(&self, metrics_name: Name) -> (r: Metrics)
        ensures
            r.wf(),
            r.metrics_name == metrics_name,
            r.behavior == self.default_behavior(),
            r.dimensions@.len() == 0,
            r.measurements@.len() == 0,
    {
        let mut m = self.allocator.new_metrics(metrics_name);
        m.set_raw_behavior(self.default_metrics_behavior);
        m
    }

    /// Emits `metrics`: a suppressed object is discarded; any other goes to the sink, with
    /// its time in scope recorded as `totaltime` unless that is suppressed.
    pub fn emit(&self, metrics: Metrics)
        requires
            metrics.wf(),
    {
        let elapsed = elapsed_nanos(&metrics.start_time);
        match finish_scope(metrics, elapsed) {
            Some(m) => self.sink.accept(m),
            None => {},
        }
    }
}

impl<TMetricsAllocator: MetricsAllocator, TSink: Sink> ReturnTarget for MetricsFactory<
    TMetricsAllocator,
    TSink,
> {
    fn return_referent(&self, to_return: Metrics) {
        self.emit(to_return);
    }
}

/// Opens recording scopes whose metrics objects are emitted when the scope is closed.
pub trait RecordingScope: ReturnTarget + Sized {
    /// The behavior mask that each new scope starts with.
    spec fn scope_behavior(&self) -> u32;

    /// A guard over a new metrics object named `scope_name`.
    fn record_scope(&self, scope_name: Name) -> (r: ReturningRef<'_, Self>)
        ensures
            r.held().wf(),
            r.held().metrics_name == scope_name,
            r.held().behavior == self.scope_behavior(),
            r.held().dimensions@.len() == 0,
            r.held().measurements@.len() == 0,
            r.return_target() == self,
    ;

    /// A guard over a new metrics object named `scope_name` that also carries `behavior`.
    fn record_scope_with_behavior(&self, scope_name: Name, behavior: MetricsBehavior) -> (r:
        ReturningRef<'_, Self>)
        ensures
            r.held().wf(),
            r.held().metrics_name == scope_name,
            r.held().behavior == self.scope_behavior() | behavior.spec_bits(),
            mask_has(r.held().behavior, behavior),
            r.held().dimensions@.len() == 0,
            r.held().measurements@.len() == 0,
            r.return_target() == self,
    ;
}

impl<TMetricsAllocator: MetricsAllocator, TSink: Sink> RecordingScope for MetricsFactory<
    TMetricsAllocator,
    TSink,
> {
    open spec fn scope_behavior(&self) -> u32 {
        self.default_behavior()
    }

    fn record_scope(&self, scope_name: Name) -> (r: ReturningRef<'_, Self>) {
        ReturningRef::new(self, self.create_new_raw_metrics(scope_name))
    }

    fn record_scope_with_behavior(&self, scope_name: Name, behavior: MetricsBehavior) -> (r:
        ReturningRef<'_, Self>) {
        let mut m = self.create_new_raw_metrics(scope_name);
        m.add_behavior(behavior);
        ReturningRef::new(self, m)
    }
}

} // verus!
