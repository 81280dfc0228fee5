//! Spans of monotonic time, counted in whole nanoseconds.

use vstd::prelude::*;

verus! {

/// A span of time in nanoseconds.
pub type Duration = u128;

/// No time at all.
pub const ZERO: Duration = 0;

/// The longest span, `u64::MAX` seconds and 999,999,999 nanoseconds.
pub const MAX: Duration = 18_446_744_073_709_551_615_999_999_999;

pub const NANOS_PER_MICRO: Duration = 1_000;

pub const NANOS_PER_MILLI: Duration = 1_000_000;

pub const NANOS_PER_SEC: Duration = 1_000_000_000;

/// How much later `later` is than `earlier`, nothing where it is not later.
pub open spec fn span(later: nat, earlier: nat) -> nat {
    if later >= earlier {
        (later - earlier) as nat
    } else {
        0
    }
}

/// The larger of two lengths.
pub open spec fn longer(a: nat, b: nat) -> nat {
    if a >= b {
        a
    } else {
        b
    }
}

/// `value` where it fits in 64 bits, else the largest 64-bit value.
pub open spec fn clamp_u64(value: nat) -> nat {
    if value <= u64::MAX {
        value
    } else {
        u64::MAX as nat
    }
}

pub fn from_micros(micros: u64) -> (length: Duration)
    ensures
        length == micros * 1_000,
{
    micros as u128 * NANOS_PER_MICRO
}

pub fn from_millis(millis: u64) -> (length: Duration)
    ensures
        length == millis * 1_000_000,
{
    millis as u128 * NANOS_PER_MILLI
}

pub fn from_secs(secs: u64) -> (length: Duration)
    ensures
        length == secs * 1_000_000_000,
{
    secs as u128 * NANOS_PER_SEC
}

/// Whichever of the two spans is longer.
pub fn longest(a: Duration, b: Duration) -> (result: Duration)
    ensures
        result == longer(a as nat, b as nat),
{
    if a >= b {
        a
    } else {
        b
    }
}

/// A span is the time between two moments, and nothing where the second is not later; the longer of
/// two lengths is one of them and no shorter than either.
pub proof fn law_spans_and_lengths(later: nat, earlier: nat)
    ensures
        earlier <= later ==> earlier + span(later, earlier) == later,
        later < earlier ==> span(later, earlier) == 0,
        longer(later, earlier) >= later && longer(later, earlier) >= earlier,
        longer(later, earlier) == later || longer(later, earlier) == earlier,
        clamp_u64(later) <= u64::MAX,
        later <= u64::MAX ==> clamp_u64(later) == later,
        later > u64::MAX ==> clamp_u64(later) == u64::MAX,
{
}

} // verus!
