//! The host's clock: microseconds since process start.
//!
//! Media capture timestamps, heartbeats and clock probes all use this one
//! process-wide clock, so timestamps survive pipeline restarts.

use vstd::prelude::*;

verus! {

/// Microseconds from the process start to a moment, both in nanoseconds of the
/// monotonic clock; 0 for a moment before the start.
pub open spec fn micros_since(epoch: u64, at: u64) -> u64 {
    if at < epoch {
        0
    } else {
        ((at - epoch) / 1000) as u64
    }
}

/// A moment that was taken elsewhere in the process, on the host's clock.
pub fn instant_to_us(epoch: u64, instant: u64) -> (us: u64)
    ensures
        us == micros_since(epoch, instant),
{
    if instant < epoch {
        0
    } else {
        (instant - epoch) / 1000
    }
}

/// The host's clock at the moment `now`.
pub fn host_now_us(epoch: u64, now: u64) -> (us: u64)
    ensures
        us == micros_since(epoch, now),
{
    instant_to_us(epoch, now)
}

/// The clock never goes back.
pub proof fn clock_is_monotonic(epoch: u64, a: u64, b: u64)
    requires
        a <= b,
    ensures
        micros_since(epoch, a) <= micros_since(epoch, b),
{
}

} // verus!
