//! Random identifiers for traces and spans. Each thread draws from a
//! generator of its own, so no thread waits for another.

use vstd::prelude::*;
use crate::ids::{SpanId, TraceId};

verus! {

/// Calls `rand::random::<u128>()`, which draws a value from the generator
/// that `rand` keeps for each thread and seeds from the operating system the
/// first time the thread asks; it panics if the system gives no seed then.
/// Nothing is claimed of the value: any of the 2^128 may come back, and two
/// calls may give the same one.
#[verifier::external_body]
fn random_u128() -> (value: u128) {
    rand::random::<u128>()
}

/// Calls `rand::random::<u64>()`, which draws a value from the generator
/// that `rand` keeps for each thread and seeds from the operating system the
/// first time the thread asks; it panics if the system gives no seed then.
/// Nothing is claimed of the value: any of the 2^64 may come back, and two
/// calls may give the same one.
#[verifier::external_body]
fn random_u64() -> (value: u64) {
    rand::random::<u64>()
}

/// A fresh trace id. Uniqueness is a matter of probability, not of proof.
pub fn next_trace_id() -> (id: TraceId) {
    TraceId(random_u128())
}

/// A fresh span id. Uniqueness is a matter of probability, not of proof.
pub fn next_span_id() -> (id: SpanId) {
    SpanId(random_u64())
}

} // verus!
