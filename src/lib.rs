//! In-process metrics: named, dimensioned recording scopes whose metrics objects are handed
//! to a sink when the scope closes, and a sink that aggregates them into running statistic
//! sets and approximate histograms.
pub mod assoc;
pub mod bucket;
pub mod types;
pub mod time;
pub mod metrics;
pub mod aggregation;
pub mod metrics_map;
pub mod sink;
pub mod aggregating_sink;
pub mod allocator;
pub mod metrics_factory;
