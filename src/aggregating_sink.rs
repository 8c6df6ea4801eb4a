//! A sink that folds completed metrics objects into bounded statistical summaries on a
//! dedicated worker, fed by a bounded channel that never blocks producers.
use std::sync::mpsc::{sync_channel, Receiver, SyncSender};
use std::sync::{Mutex, MutexGuard};
use vstd::prelude::*;

use crate::metrics::Metrics;
use crate::metrics_map::MetricsMap;
use crate::sink::Sink;

verus! {

#[verifier::external_type_specification]
#[verifier::external_body]
#[verifier::reject_recursive_types(T)]
pub struct ExMutex<T: ?Sized>(Mutex<T>);

#[verifier::external_type_specification]
#[verifier::external_body]
#[verifier::reject_recursive_types(T)]
pub struct ExMutexGuard<'a, T: ?Sized + 'a>(MutexGuard<'a, T>);

#[verifier::external_type_specification]
#[verifier::external_body]
#[verifier::reject_recursive_types(T)]
pub struct ExSyncSender<T>(SyncSender<T>);

#[verifier::external_type_specification]
#[verifier::external_body]
#[verifier::reject_recursive_types(T)]
pub struct ExReceiver<T>(Receiver<T>);

/// Relies on `Mutex::new`: a mutex holding `t`.
pub assume_specification<T>[ Mutex::<T>::new ](t: T) -> Mutex<T>;

/// The room that the channel behind a sender was made with.
pub uninterp spec fn channel_bound(s: SyncSender<Metrics>) -> usize;

/// Relies on `mpsc::sync_channel`: the two ends of a channel with room for `bound` values.
#[verifier::external_body]
fn make_channel(bound: usize) -> (r: (SyncSender<Metrics>, Receiver<Metrics>))
    ensures
        channel_bound(r.0) == bound,
{
    sync_channel(bound)
}

/// Relies on `SyncSender::try_send`: hands `metrics` over without blocking; `false` when
/// the channel is full or its receiver is gone, and `metrics` is then dropped.
#[verifier::external_body]
fn try_send(sender: &SyncSender<Metrics>, metrics: Metrics) -> (sent: bool) {
    sender.try_send(metrics).is_ok()
}

/// Relies on `Receiver::recv`: blocks for the next value; `None` once every sender is gone.
#[verifier::external_body]
fn recv(receiver: &Receiver<Metrics>) -> (r: Option<Metrics>) {
    receiver.recv().ok()
}

/// Relies on `Mutex::lock`: blocks until the map is held. It panics only where an earlier
/// holder panicked while holding it.
#[verifier::external_body]
fn lock(map: &Mutex<MetricsMap>) -> (r: MutexGuard<'_, MetricsMap>) {
    map.lock().expect("must be able to access metrics map")
}

/// Relies on `MutexGuard`'s `DerefMut`: the map that the guard holds.
#[verifier::external_body]
fn guarded<'a, 'b>(guard: &'a mut MutexGuard<'b, MetricsMap>) -> (r: &'a mut MetricsMap) {
    &mut **guard
}

/// Aggregates completed metrics objects by metric name, dimension position and measurement
/// name.
pub struct AggregatingSink {
    map: Mutex<MetricsMap>,
    sender: SyncSender<Metrics>,
    receiver: Receiver<Metrics>,
}

/// The room in the channel of `AggregatingSink::new`.
pub const DEFAULT_BOUND: usize = 1024;

impl AggregatingSink {
    /// The room in the channel to the aggregation worker.
    pub closed spec fn bound(&self) -> usize {
        channel_bound(self.sender)
    }

    /// A sink whose channel holds up to `bound` metrics objects in flight.
    pub fn new_with_bound(bound: usize) -> (r: Self)
        ensures
            r.bound() == bound,
    {
        let (sender, receiver) = make_channel(bound);
        AggregatingSink { map: Mutex::new(MetricsMap::new()), sender, receiver }
    }

    /// A sink whose channel holds up to 1024 metrics objects in flight.
    pub fn new() -> (r: Self)
        ensures
            r.bound() == DEFAULT_BOUND,
    {
        Self::new_with_bound(DEFAULT_BOUND)
    }

    /// Folds one metrics object into the map, holding the lock for that fold only.
    pub fn update_metrics_map(&self, metrics: Metrics)
        requires
            metrics.wf(),
    {
        let mut guard = lock(&self.map);
        guarded(&mut guard).update_metrics_map(metrics);
    }

    /// Takes the aggregated state out of the sink, leaving it empty.
    pub fn take_map(&self) -> (r: MetricsMap) {
        let mut taken = MetricsMap::new();
        let mut guard = lock(&self.map);
        std::mem::swap(&mut taken, guarded(&mut guard));
        taken
    }

    /// Folds what the channel handed over, if anything, into the map; `false` at the end of
    /// the stream. An object whose dimension or measurement keys repeat, which none of the
    /// recording methods produce, is dropped.
    pub fn fold_received(&self, received: Option<Metrics>) -> (r: bool)
        ensures
            r == received is Some,
    {
        match received {
            Some(metrics) => {
                if metrics.has_unique_keys() {
                    self.update_metrics_map(metrics);
                }
                true
            },
            None => false,
        }
    }

    /// Receives the next metrics object and folds it into the map; `false` once every
    /// sender is gone.
    pub fn aggregate_next(&self) -> (r: bool) {
        self.fold_received(recv(&self.receiver))
    }

    /// Hands `metrics` to the aggregation worker without blocking; `false` when the
    /// channel is full (or the worker's end is gone) and the object was dropped, so that a
    /// caller can report the loss.
    pub fn try_accept(&self, metrics: Metrics) -> (sent: bool) {
        try_send(&self.sender, metrics)
    }

    /// Receives and folds metrics objects until every sender is gone. The sink holds a
    /// sender of its own, so while the sink exists the worker keeps waiting for more. The
    /// worker counts what it folds and stops after `u64::MAX` objects.
    pub fn run_aggregator_forever(&self) {
        let mut processed: u64 = 0;
        while processed < u64::MAX
            decreases u64::MAX - processed,
        {
            if !self.aggregate_next() {
                break;
            }
            processed = processed + 1;
        }
    }
}

impl Default for AggregatingSink {
    fn default() -> (r: Self) {
        Self::new()
    }
}

impl Sink for AggregatingSink {
    /// Hands `metrics` to the aggregation worker without blocking; when the channel is
    /// full the object is dropped.
    fn accept(&self, metrics: Metrics) {
        let _sent = self.try_accept(metrics);
    }
}

} // verus!
