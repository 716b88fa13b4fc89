//! The sampling decision: made once for a trace, from its trace id.

use vstd::prelude::*;
use crate::ids::TraceId;

verus! {

/// Decides whether a trace is kept for export.
pub trait ShouldSample {
    /// The decision for a trace. It is a function of the sampler and the
    /// trace id alone, so asking twice gives the same answer.
    spec fn sampled(&self, trace_id: TraceId) -> bool;

    /// Makes the decision for `trace_id`.
    fn should_sample(&self, trace_id: &TraceId) -> (decision: bool)
        ensures
            decision == self.sampled(*trace_id),
    ;
}

/// The default policy: every trace is kept.
pub struct OTelSampler;

impl ShouldSample for OTelSampler {
    open spec fn sampled(&self, trace_id: TraceId) -> bool {
        true
    }

    fn should_sample(&self, _trace_id: &TraceId) -> (decision: bool) {
        true
    }
}

} // verus!
