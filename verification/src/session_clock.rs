//! Session time in the units that counters and wire fields hold.

use crate::time::{clamp_u64, Duration, NANOS_PER_MICRO, NANOS_PER_MILLI};
use vstd::prelude::*;

verus! {

/// Whole milliseconds, the largest 64-bit value where there are more.
pub fn millis_u64(duration: Duration) -> (millis: u64)
    ensures
        millis == clamp_u64(duration as nat / 1_000_000),
{
    let millis: u128 = duration / NANOS_PER_MILLI;
    if millis <= u64::MAX as u128 {
        millis as u64
    } else {
        u64::MAX
    }
}

/// Whole microseconds, the largest 64-bit value where there are more.
pub fn micros_u64(duration: Duration) -> (micros: u64)
    ensures
        micros == clamp_u64(duration as nat / 1_000),
{
    let micros: u128 = duration / NANOS_PER_MICRO;
    if micros <= u64::MAX as u128 {
        micros as u64
    } else {
        u64::MAX
    }
}

} // verus!
