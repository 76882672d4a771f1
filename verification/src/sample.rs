//! Span samplers.

use crate::trace_id::TraceId;
use vstd::prelude::*;

verus! {

/// A sampler decides whether or not a span should be recorded based on
/// its trace ID.
///
/// A trace context received from a remote service may already indicate if
/// the span should be recorded, but if it does not, a `Sample`r is
/// responsible for making that decision. Applications supply their own
/// implementations, so nothing is assumed of the answer.
pub trait Sample {
    /// Returns `true` if the span associated with the trace ID should be
    /// recorded.
    fn sample(&self, trace_id: TraceId) -> bool;
}

/// A `Sample`r which always returns `true`.
pub struct AlwaysSampler;

impl Sample for AlwaysSampler {
    fn sample(&self, _trace_id: TraceId) -> (r: bool)
        ensures
            r == true,
    {
        true
    }
}

/// A `Sample`r which always returns `false`.
pub struct NeverSampler;

impl Sample for NeverSampler {
    fn sample(&self, _trace_id: TraceId) -> (r: bool)
        ensures
            r == false,
    {
        false
    }
}

} // verus!
