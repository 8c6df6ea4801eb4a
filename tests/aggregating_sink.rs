use std::time::Instant;

use scope_metrics::aggregating_sink::AggregatingSink;
use scope_metrics::aggregation::{Aggregation, StatisticSet};
use scope_metrics::allocator::{AlwaysNewMetricsAllocator, MetricsAllocator};
use scope_metrics::bucket::{bucket_10, bucket_10_2_sigfigs};
use scope_metrics::metrics::Metrics;
use scope_metrics::metrics_map::MetricsMap;
use scope_metrics::sink::Sink;
use scope_metrics::time::{elapsed_nanos, saturate_nanos};
use scope_metrics::types::{Distribution, Observation};

fn get_metrics(dimension_name: &str, dimension: &str, measurement_name: &str, measurement: i64) -> Metrics {
    let mut metrics = AlwaysNewMetricsAllocator::default().new_metrics("test".to_string());
    metrics.dimension(dimension_name.to_string(), dimension.to_string());
    metrics.measurement(measurement_name.to_string(), Observation::I64(measurement));
    metrics
}

fn position(pairs: &[(&str, &str)]) -> Vec<(String, String)> {
    pairs.iter().map(|(k, v)| (k.to_string(), v.to_string())).collect()
}

fn aggregation_at<'a>(map: &'a MetricsMap, metric: &str, pairs: &[(&str, &str)], name: &str) -> Option<&'a Aggregation> {
    map.get(&metric.to_string())?.get(&position(pairs))?.get(&name.to_string())
}

#[test]
fn test_bucket() {
    assert_eq!(1, bucket_10_2_sigfigs(1));
    assert_eq!(-11, bucket_10_2_sigfigs(-11));

    assert_eq!(99, bucket_10_2_sigfigs(99));
    assert_eq!(100, bucket_10_2_sigfigs(100));
    assert_eq!(110, bucket_10_2_sigfigs(101));
    assert_eq!(110, bucket_10_2_sigfigs(109));
    assert_eq!(110, bucket_10_2_sigfigs(110));
    assert_eq!(120, bucket_10_2_sigfigs(111));

    assert_eq!(8000, bucket_10_2_sigfigs(8000));
    assert_eq!(8800, bucket_10_2_sigfigs(8799));
    assert_eq!(8800, bucket_10_2_sigfigs(8800));
    assert_eq!(8900, bucket_10_2_sigfigs(8801));

    assert_eq!(-8000, bucket_10_2_sigfigs(-8000));
    assert_eq!(-8800, bucket_10_2_sigfigs(-8799));
    assert_eq!(-8800, bucket_10_2_sigfigs(-8800));
    assert_eq!(-8900, bucket_10_2_sigfigs(-8801));
}

#[test]
fn bucket_mirrors_negative_inputs() {
    for v in [1i64, 11, 99, 100, 101, 109, 110, 111, 8000, 8799, 8800, 8801] {
        assert_eq!(-bucket_10_2_sigfigs(v), bucket_10_2_sigfigs(-v));
    }
}

#[test]
fn bucket_edges() {
    assert_eq!(0, bucket_10_2_sigfigs(0));
    assert_eq!(10, bucket_10_2_sigfigs(10));
    assert_eq!(1000, bucket_10_2_sigfigs(999));
    assert_eq!(i64::MAX, bucket_10_2_sigfigs(i64::MAX));
    assert_eq!(i64::MIN, bucket_10_2_sigfigs(i64::MIN));
    assert_eq!(9_200_000_000_000_000_000, bucket_10_2_sigfigs(9_123_456_789_012_345_678));
}

#[test]
fn bucket_other_figures() {
    assert_eq!(200, bucket_10::<1>(101));
    assert_eq!(102, bucket_10::<3>(102));
    assert_eq!(1010, bucket_10::<3>(1001));
    assert_eq!(-1010, bucket_10::<3>(-1001));
    assert_eq!(123_456, bucket_10::<30>(123_456));
}

#[test]
fn test_aggregation() {
    let sink = AggregatingSink::new();

    sink.update_metrics_map(get_metrics("a", "dimension", "v", 22));
    sink.update_metrics_map(get_metrics("a", "dimension", "v", 20));

    let map = sink.take_map();
    assert_eq!(1, map.len());
    let positions = map.get(&"test".to_string()).unwrap();
    assert_eq!(1, positions.len());
    let aggregations = positions.get(&position(&[("a", "dimension")])).unwrap();
    assert_eq!(1, aggregations.len());
    assert_eq!(
        Some(&Aggregation::StatisticSet(StatisticSet { min: 20, max: 22, sum: 42, count: 2 })),
        aggregations.get(&"v".to_string()),
    );
}

#[test]
fn dimension_order_does_not_split_positions() {
    let mut first = AlwaysNewMetricsAllocator::default().new_metrics("test".to_string());
    first.dimension("a".to_string(), "1".to_string());
    first.dimension("b".to_string(), "2".to_string());
    first.measurement("v".to_string(), Observation::I32(5));
    let mut second = AlwaysNewMetricsAllocator::default().new_metrics("test".to_string());
    second.dimension("b".to_string(), "2".to_string());
    second.dimension("a".to_string(), "1".to_string());
    second.measurement("v".to_string(), Observation::U32(7));

    let mut map = MetricsMap::new();
    map.update_metrics_map(first);
    map.update_metrics_map(second);

    let positions = map.get(&"test".to_string()).unwrap();
    assert_eq!(1, positions.len());
    assert_eq!(
        Some(&Aggregation::StatisticSet(StatisticSet { min: 5, max: 7, sum: 12, count: 2 })),
        aggregation_at(&map, "test", &[("b", "2"), ("a", "1")], "v"),
    );
}

#[test]
fn different_dimensions_are_separate_positions() {
    let mut map = MetricsMap::new();
    map.update_metrics_map(get_metrics("a", "x", "v", 1));
    map.update_metrics_map(get_metrics("a", "y", "v", 2));
    map.update_metrics_map(get_metrics("b", "x", "v", 3));
    assert_eq!(3, map.get(&"test".to_string()).unwrap().len());
}

#[test]
fn distribution_after_observation_is_discarded() {
    let mut map = MetricsMap::new();
    map.update_metrics_map(get_metrics("a", "dimension", "v", 22));
    let mut conflicting = AlwaysNewMetricsAllocator::default().new_metrics("test".to_string());
    conflicting.dimension("a".to_string(), "dimension".to_string());
    conflicting.distribution("v".to_string(), Distribution::I64(1000));
    map.update_metrics_map(conflicting);
    assert_eq!(
        Some(&Aggregation::StatisticSet(StatisticSet { min: 22, max: 22, sum: 22, count: 1 })),
        aggregation_at(&map, "test", &[("a", "dimension")], "v"),
    );
}

#[test]
fn observation_after_distribution_is_discarded() {
    let mut map = MetricsMap::new();
    let mut first = AlwaysNewMetricsAllocator::default().new_metrics("test".to_string());
    first.distribution("d".to_string(), Distribution::I64(101));
    map.update_metrics_map(first);
    let mut conflicting = AlwaysNewMetricsAllocator::default().new_metrics("test".to_string());
    conflicting.measurement("d".to_string(), Observation::I64(5));
    map.update_metrics_map(conflicting);
    match aggregation_at(&map, "test", &[], "d") {
        Some(Aggregation::Histogram(h)) => {
            assert_eq!(1, h.len());
            assert_eq!(1, h.count(110));
        }
        other => panic!("expected a histogram, found {:?}", other),
    }
}

#[test]
fn histogram_counts_buckets() {
    let mut metrics = AlwaysNewMetricsAllocator::default().new_metrics("test".to_string());
    metrics.distribution("high frequency".to_string(), Distribution::Collection(vec![13, 13, 14, 10, 13, 11, 13]));
    metrics.distribution("high frequency".to_string(), Distribution::U64(101));
    metrics.distribution("high frequency".to_string(), Distribution::I32(-109));
    metrics.distribution("high frequency".to_string(), Distribution::U32(0));
    let mut map = MetricsMap::new();
    map.update_metrics_map(metrics);
    match aggregation_at(&map, "test", &[], "high frequency") {
        Some(Aggregation::Histogram(h)) => {
            assert_eq!(7, h.len());
            assert_eq!(4, h.count(13));
            assert_eq!(1, h.count(14));
            assert_eq!(1, h.count(10));
            assert_eq!(1, h.count(11));
            assert_eq!(1, h.count(110));
            assert_eq!(1, h.count(-110));
            assert_eq!(1, h.count(0));
            assert_eq!(0, h.count(12));
        }
        other => panic!("expected a histogram, found {:?}", other),
    }
}

#[test]
fn statistic_set_sum_saturates() {
    let mut s = StatisticSet::default();
    assert_eq!(StatisticSet { min: i64::MAX, max: i64::MIN, sum: 0, count: 0 }, s);
    s.accumulate(i64::MAX);
    s.accumulate(1);
    assert_eq!(StatisticSet { min: 1, max: i64::MAX, sum: i64::MAX, count: 2 }, s);
    s.accumulate(i64::MIN);
    assert_eq!(StatisticSet { min: i64::MIN, max: i64::MAX, sum: -1, count: 3 }, s);
}

#[test]
fn full_channel_drops_without_blocking() {
    let sink = AggregatingSink::new_with_bound(1);
    sink.accept(get_metrics("a", "dimension", "v", 1));
    sink.accept(get_metrics("a", "dimension", "v", 1000));
    assert!(sink.aggregate_next());
    let map = sink.take_map();
    assert_eq!(
        Some(&Aggregation::StatisticSet(StatisticSet { min: 1, max: 1, sum: 1, count: 1 })),
        aggregation_at(&map, "test", &[("a", "dimension")], "v"),
    );
}

#[test]
fn take_map_leaves_the_sink_empty() {
    let sink = AggregatingSink::new();
    sink.update_metrics_map(get_metrics("a", "dimension", "v", 3));
    assert_eq!(1, sink.take_map().len());
    assert_eq!(0, sink.take_map().len());
}

#[test]
fn metrics_start_time_is_kept() {
    let start = Instant::now();
    let m = Metrics::new("n".to_string(), start);
    assert_eq!(start, m.start_time);
    assert_eq!(0, m.behavior);
}

#[test]
fn try_accept_reports_a_full_channel() {
    let sink = AggregatingSink::new_with_bound(2);
    assert!(sink.try_accept(get_metrics("a", "dimension", "v", 1)));
    assert!(sink.try_accept(get_metrics("a", "dimension", "v", 2)));
    assert!(!sink.try_accept(get_metrics("a", "dimension", "v", 3)));
    assert!(sink.aggregate_next());
    assert!(sink.aggregate_next());
    let map = sink.take_map();
    assert_eq!(
        Some(&Aggregation::StatisticSet(StatisticSet { min: 1, max: 2, sum: 3, count: 2 })),
        aggregation_at(&map, "test", &[("a", "dimension")], "v"),
    );
}

#[test]
fn fold_received_folds_what_came() {
    let sink = AggregatingSink::default();
    assert!(!sink.fold_received(None));
    assert_eq!(0, sink.take_map().len());
    assert!(sink.fold_received(Some(get_metrics("a", "dimension", "v", 9))));
    let map = sink.take_map();
    assert_eq!(
        Some(&Aggregation::StatisticSet(StatisticSet { min: 9, max: 9, sum: 9, count: 1 })),
        aggregation_at(&map, "test", &[("a", "dimension")], "v"),
    );
}

#[test]
fn fold_received_drops_repeated_keys() {
    let sink = AggregatingSink::new();
    let mut m = get_metrics("a", "dimension", "v", 9);
    m.dimensions.push(("a".to_string(), "other".to_string()));
    assert!(sink.fold_received(Some(m)));
    assert_eq!(0, sink.take_map().len());
}

#[test]
fn saturate_nanos_clamps() {
    assert_eq!(0, saturate_nanos(0));
    assert_eq!(1500, saturate_nanos(1500));
    assert_eq!(u64::MAX, saturate_nanos(u64::MAX as u128));
    assert_eq!(u64::MAX, saturate_nanos(u64::MAX as u128 + 1));
}

#[test]
fn elapsed_nanos_counts_from_start() {
    let start = Instant::now();
    let first = elapsed_nanos(&start);
    let second = elapsed_nanos(&start);
    assert!(second >= first);
}
