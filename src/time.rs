//! The monotonic clock that scopes are timed with.
use std::time::{Duration, Instant};
use vstd::prelude::*;

verus! {

/// A point of the monotonic clock; opaque to proofs.
#[verifier::external_type_specification]
#[verifier::external_body]
pub struct ExInstant(Instant);

/// Relies on `Instant::now`: reads the monotonic clock. Nothing is known of the value.
pub assume_specification[ Instant::now ]() -> Instant;

/// Relies on `Instant::elapsed`: the time since the instant. Nothing is known of the value.
pub assume_specification[ Instant::elapsed ](instant: &Instant) -> Duration;

/// Relies on `Duration::as_nanos`: the whole number of nanoseconds of a duration.
pub assume_specification[ Duration::as_nanos ](duration: &Duration) -> u128;

/// `n` nanoseconds as a `u64`, saturating at `u64::MAX`.
pub fn saturate_nanos(n: u128) -> (r: u64)
    ensures
        r as u128 == (if n > u64::MAX as u128 {
            u64::MAX as u128
        } else {
            n
        }),
{
    if n > u64::MAX as u128 {
        u64::MAX
    } else {
        n as u64
    }
}

/// Nanoseconds since `start`, saturating at `u64::MAX`.
pub fn elapsed_nanos(start: &Instant) -> (r: u64) {
    saturate_nanos(start.elapsed().as_nanos())
}

} // verus!
