//! Wall-clock time as a count of nanoseconds since the Unix epoch.

use vstd::prelude::*;

verus! {

/// Calls `SystemTime::elapsed` on `std::time::UNIX_EPOCH`: the time from the
/// epoch to the system clock's present reading, here in whole nanoseconds;
/// `None` where the clock stands before the epoch. Nothing is claimed of the
/// number: the system clock may be set back, so a later call may give less.
#[verifier::external_body]
fn unix_nanos() -> (reading: Option<u128>) {
    match std::time::UNIX_EPOCH.elapsed() {
        Ok(since) => Some(since.as_nanos()),
        Err(_) => None,
    }
}

/// The present time. A clock that stands before the epoch reads as zero.
pub fn now() -> (time: u128) {
    time_from(unix_nanos())
}

/// The time that a clock reading stands for: the nanoseconds it counts, and
/// zero for a clock that stands before the epoch.
pub open spec fn time_of(reading: Option<u128>) -> u128 {
    match reading {
        Some(nanos) => nanos,
        None => 0,
    }
}

/// Turns a clock reading into a time.
pub fn time_from(reading: Option<u128>) -> (time: u128)
    ensures
        time == time_of(reading),
{
    match reading {
        Some(nanos) => nanos,
        None => 0,
    }
}

/// The later of two times.
pub open spec fn later(a: u128, b: u128) -> u128 {
    if a >= b {
        a
    } else {
        b
    }
}

} // verus!
