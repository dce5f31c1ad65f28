//! Time as the probes count it: nanoseconds on the caller's monotonic
//! clock, from the start of a run.

use vstd::prelude::*;

verus! {

/// Nanoseconds in a second.
pub const NANOS_PER_SEC: u64 = 1_000_000_000;

/// Nanoseconds in a millisecond.
pub const NANOS_PER_MILLI: u64 = 1_000_000;

/// Whether the time `t` lies before the end of a run of `duration_sec`
/// seconds.
pub open spec fn lies_before(t: u64, duration_sec: u64) -> bool {
    (t as int) < duration_sec * NANOS_PER_SEC
}

/// The time `now` as a run takes it whose latest time seen is `clock`:
/// time never runs backwards, so an earlier `now` counts as `clock`.
pub open spec fn no_earlier(clock: u64, now: u64) -> u64 {
    if now < clock {
        clock
    } else {
        now
    }
}

/// Whether the time `t` lies before the end of a run of `duration_sec`
/// seconds.
pub fn is_before(t: u64, duration_sec: u64) -> (b: bool)
    ensures
        b == lies_before(t, duration_sec),
{
    assert(duration_sec * NANOS_PER_SEC <= u64::MAX * 1_000_000_000) by (nonlinear_arith)
        requires
            duration_sec <= u64::MAX,
            NANOS_PER_SEC == 1_000_000_000,
    ;
    (t as u128) < (duration_sec as u128) * (NANOS_PER_SEC as u128)
}

/// The time `now`, or `clock` where that is later.
pub fn advance(clock: u64, now: u64) -> (t: u64)
    ensures
        t == no_earlier(clock, now),
        t >= clock,
        t >= now,
{
    if now < clock {
        clock
    } else {
        now
    }
}

} // verus!
