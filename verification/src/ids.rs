//! Trace and span identifiers.

use vstd::prelude::*;

verus! {

/// Identifier shared by every span of one trace.
#[derive(Clone, Copy, PartialEq, Eq, Structural, Hash, Debug)]
pub struct TraceId(pub u128);

/// Identifier of one span.
#[derive(Clone, Copy, PartialEq, Eq, Structural, Hash, Debug)]
pub struct SpanId(pub u64);

impl Default for TraceId {
    fn default() -> (id: Self)
        ensures
            id == TraceId(0),
    {
        TraceId(0)
    }
}

impl Default for SpanId {
    fn default() -> (id: Self)
        ensures
            id == SpanId(0),
    {
        SpanId(0)
    }
}

impl From<u128> for TraceId {
    fn from(value: u128) -> (id: Self) {
        TraceId(value)
    }
}

impl vstd::std_specs::convert::FromSpecImpl<u128> for TraceId {
    open spec fn obeys_from_spec() -> bool {
        true
    }

    open spec fn from_spec(value: u128) -> Self {
        TraceId(value)
    }
}

impl From<u64> for SpanId {
    fn from(value: u64) -> (id: Self) {
        SpanId(value)
    }
}

impl vstd::std_specs::convert::FromSpecImpl<u64> for SpanId {
    open spec fn obeys_from_spec() -> bool {
        true
    }

    open spec fn from_spec(value: u64) -> Self {
        SpanId(value)
    }
}

} // verus!
