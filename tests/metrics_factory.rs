use std::cell::RefCell;

use scope_metrics::aggregating_sink::AggregatingSink;
use scope_metrics::allocator::AlwaysNewMetricsAllocator;
use scope_metrics::metrics::Metrics;
use scope_metrics::metrics_factory::{finish_scope, MetricsFactory, RecordingScope};
use scope_metrics::sink::Sink;
use scope_metrics::types::{Distribution, Measurement, MetricsBehavior, Observation};

/// Keeps every metrics object it is handed.
#[derive(Default)]
struct CollectingSink {
    accepted: RefCell<Vec<Metrics>>,
}

impl Sink for CollectingSink {
    fn accept(&self, metrics: Metrics) {
        self.accepted.borrow_mut().push(metrics);
    }
}

fn measurement<'a>(m: &'a Metrics, name: &str) -> Option<&'a Measurement> {
    m.measurements.iter().find(|(k, _)| k == name).map(|(_, v)| v)
}

fn dimension<'a>(m: &'a Metrics, name: &str) -> Option<&'a String> {
    m.dimensions.iter().find(|(k, _)| k == name).map(|(_, v)| v)
}

#[test]
fn aggregating_metrics_factory() {
    let metrics_factory: MetricsFactory<AlwaysNewMetricsAllocator, AggregatingSink> =
        MetricsFactory::new_with_allocator(
            AggregatingSink::new(),
            &[MetricsBehavior::Default],
            AlwaysNewMetricsAllocator::default(),
        );
    {
        let mut metrics = metrics_factory.record_scope("test".to_string());
        metrics.dimension("some dimension".to_string(), "a dim".to_string());
        metrics.close();
    }
}

#[test]
fn collecting_metrics_factory() {
    let factory: MetricsFactory<AlwaysNewMetricsAllocator, CollectingSink> =
        MetricsFactory::new(CollectingSink::default());
    let mut metrics = factory.record_scope("test".to_string());
    metrics.dimension("some dimension".to_string(), "a dim".to_string());
    metrics.measurement("measure".to_string(), Observation::I64(13));
    metrics.distribution("distribution of".to_string(), Distribution::I64(61));
    metrics.distribution(
        "high frequency".to_string(),
        Distribution::Collection(vec![13, 13, 14, 10, 13, 11, 13]),
    );
    metrics.close();

    let accepted = factory_sink(&factory);
    assert_eq!(1, accepted.len());
    let m = &accepted[0];
    assert_eq!("test", m.metrics_name);
    assert_eq!(Some(&"a dim".to_string()), dimension(m, "some dimension"));
    assert_eq!(Some(&Measurement::Observation(Observation::I64(13))), measurement(m, "measure"));
    assert_eq!(
        Some(&Measurement::Distribution(Distribution::I64(61))),
        measurement(m, "distribution of"),
    );
    assert_eq!(
        Some(&Measurement::Distribution(Distribution::Collection(vec![13, 13, 14, 10, 13, 11, 13]))),
        measurement(m, "high frequency"),
    );
    assert!(matches!(measurement(m, "totaltime"), Some(Measurement::Distribution(Distribution::I64(_)))));
    assert_eq!(4, m.measurements.len());
}

fn factory_sink(factory: &MetricsFactory<AlwaysNewMetricsAllocator, CollectingSink>) -> Vec<Metrics> {
    std::mem::take(&mut *factory.sink_ref().accepted.borrow_mut())
}

fn collecting_factory(behaviors: &[MetricsBehavior]) -> MetricsFactory<AlwaysNewMetricsAllocator, CollectingSink> {
    MetricsFactory::new_with_behaviors(CollectingSink::default(), behaviors)
}

#[test]
fn suppressed_scope_never_reaches_the_sink() {
    let factory = collecting_factory(&[MetricsBehavior::Default]);
    let mut metrics = factory.record_scope_with_behavior("test".to_string(), MetricsBehavior::Suppress);
    metrics.measurement("measure".to_string(), Observation::I64(13));
    metrics.distribution("d".to_string(), Distribution::I64(1));
    metrics.close();
    assert_eq!(0, factory_sink(&factory).len());
}

#[test]
fn default_suppress_discards_every_scope() {
    let factory = collecting_factory(&[MetricsBehavior::Suppress]);
    factory.record_scope("a".to_string()).close();
    factory.record_scope("b".to_string()).close();
    assert_eq!(0, factory_sink(&factory).len());
}

#[test]
fn suppress_total_time_adds_no_sample() {
    let factory = collecting_factory(&[MetricsBehavior::Default]);
    let mut metrics = factory.record_scope_with_behavior("test".to_string(), MetricsBehavior::SuppressTotalTime);
    metrics.measurement("measure".to_string(), Observation::U64(4));
    metrics.close();
    let accepted = factory_sink(&factory);
    assert_eq!(1, accepted.len());
    assert_eq!(None, measurement(&accepted[0], "totaltime"));
    assert_eq!(1, accepted[0].measurements.len());
}

#[test]
fn total_time_is_recorded_by_default() {
    let factory = collecting_factory(&[MetricsBehavior::Default]);
    factory.record_scope("test".to_string()).close();
    let accepted = factory_sink(&factory);
    assert_eq!(1, accepted.len());
    match measurement(&accepted[0], "totaltime") {
        Some(Measurement::Distribution(Distribution::I64(nanos))) => assert!(*nanos >= 0),
        other => panic!("expected a totaltime sample, found {:?}", other),
    }
}

fn early_exit(factory: &MetricsFactory<AlwaysNewMetricsAllocator, CollectingSink>, leave: bool) -> u32 {
    let mut metrics = factory.record_scope("early".to_string());
    if leave {
        metrics.close();
        return 1;
    }
    metrics.dimension("path".to_string(), "long".to_string());
    metrics.close();
    2
}

#[test]
fn each_scope_is_emitted_once() {
    let factory = collecting_factory(&[]);
    assert_eq!(1, early_exit(&factory, true));
    assert_eq!(1, factory_sink(&factory).len());
    assert_eq!(2, early_exit(&factory, false));
    let accepted = factory_sink(&factory);
    assert_eq!(1, accepted.len());
    assert_eq!(Some(&"long".to_string()), dimension(&accepted[0], "path"));
}

#[test]
fn default_behaviors_are_combined() {
    let factory = collecting_factory(&[MetricsBehavior::Suppress, MetricsBehavior::SuppressTotalTime]);
    let m = factory.create_new_raw_metrics("raw".to_string());
    assert_eq!(3, m.behavior);
    assert!(m.has_behavior(MetricsBehavior::Suppress));
    assert!(m.has_behavior(MetricsBehavior::SuppressTotalTime));
    factory.emit(m);
    assert_eq!(0, factory_sink(&factory).len());
}

#[test]
fn raw_metrics_are_emitted_through_the_factory() {
    let factory = collecting_factory(&[MetricsBehavior::SuppressTotalTime]);
    let mut m = factory.create_new_raw_metrics("raw".to_string());
    assert_eq!(2, m.behavior);
    m.dimension("k".to_string(), "v1".to_string());
    m.dimension("k".to_string(), "v2".to_string());
    factory.emit(m);
    let accepted = factory_sink(&factory);
    assert_eq!(1, accepted.len());
    assert_eq!(1, accepted[0].dimensions.len());
    assert_eq!(Some(&"v2".to_string()), dimension(&accepted[0], "k"));
    assert!(accepted[0].measurements.is_empty());
}

#[test]
fn finish_scope_appends_elapsed_to_totaltime() {
    let factory = collecting_factory(&[]);
    let mut m = factory.create_new_raw_metrics("t".to_string());
    m.distribution("totaltime".to_string(), Distribution::U32(7));
    let done = finish_scope(m, 1500).unwrap();
    assert_eq!(
        Some(&Measurement::Distribution(Distribution::Collection(vec![7, 1500]))),
        measurement(&done, "totaltime"),
    );
    let m = factory.create_new_raw_metrics("t".to_string());
    let done = finish_scope(m, u64::MAX).unwrap();
    assert_eq!(
        Some(&Measurement::Distribution(Distribution::I64(i64::MAX))),
        measurement(&done, "totaltime"),
    );
}

#[test]
fn finish_scope_discards_suppressed() {
    let factory = collecting_factory(&[MetricsBehavior::Suppress]);
    let m = factory.create_new_raw_metrics("t".to_string());
    assert!(finish_scope(m, 10).is_none());
}

#[test]
fn observation_replaces_and_distribution_appends() {
    let factory = collecting_factory(&[]);
    let mut m = factory.create_new_raw_metrics("t".to_string());
    m.measurement("x".to_string(), Observation::I32(-3));
    m.measurement("x".to_string(), Observation::U32(9));
    m.distribution("y".to_string(), Distribution::I64(1));
    m.distribution("y".to_string(), Distribution::Collection(vec![2, 3]));
    m.distribution("x".to_string(), Distribution::I32(4));
    assert_eq!(2, m.measurements.len());
    assert_eq!(
        Some(&Measurement::Distribution(Distribution::Collection(vec![1, 2, 3]))),
        measurement(&m, "y"),
    );
    assert_eq!(Some(&Measurement::Distribution(Distribution::I32(4))), measurement(&m, "x"));
}

#[test]
fn behavior_bits() {
    assert_eq!(0, MetricsBehavior::Default.bits());
    assert_eq!(1, MetricsBehavior::Suppress.bits());
    assert_eq!(2, MetricsBehavior::SuppressTotalTime.bits());
    let factory = collecting_factory(&[]);
    let mut m = factory.create_new_raw_metrics("t".to_string());
    assert!(m.has_behavior(MetricsBehavior::Default));
    assert!(!m.has_behavior(MetricsBehavior::Suppress));
    m.add_behavior(MetricsBehavior::SuppressTotalTime);
    m.add_behavior(MetricsBehavior::Suppress);
    assert_eq!(3, m.behavior);
    m.set_raw_behavior(2);
    assert!(!m.has_behavior(MetricsBehavior::Suppress));
}
