//! The sink capability: where completed metrics objects go.
use vstd::prelude::*;

use crate::metrics::Metrics;

verus! {

/// Consumes completed metrics objects (log, encode, forward, aggregate).
pub trait Sink {
    /// Takes ownership of one completed metrics object.
    fn accept(&self, metrics: Metrics);
}

} // verus!
