//! The clock: points in time are opaque and the clock is read through the
//! items here, so nothing is claimed of the times they report.
use vstd::prelude::*;
use std::time::{Duration, Instant};

verus! {

#[verifier::external_type_specification]
#[verifier::external_body]
pub struct ExInstant(Instant);

/// `<Instant as Clone>::clone`: `Instant` is `Copy`, so a clone is the same point.
pub assume_specification[ <Instant as Clone>::clone ](i: &Instant) -> (r: Instant)
    ensures
        r == *i,
;

/// `<Duration as Clone>::clone`: `Duration` is `Copy`, so a clone is the same length.
pub assume_specification[ <Duration as Clone>::clone ](d: &Duration) -> (r: Duration)
    ensures
        r == *d,
;

/// `Instant::now`: the current time.
#[verifier::external_body]
pub(crate) fn instant_now() -> Instant {
    Instant::now()
}

/// `Instant::elapsed`: the time passed since `i` (zero if `i` is later than now).
#[verifier::external_body]
pub(crate) fn instant_elapsed(i: &Instant) -> Duration {
    i.elapsed()
}

/// The number of nanoseconds in `Duration::MAX` (`u64::MAX` seconds and
/// 999,999,999 nanoseconds): no duration is longer.
pub const MAX_DURATION_NANOS: u128 = 18_446_744_073_709_551_615_999_999_999;

/// `Duration::as_nanos`: the whole length in nanoseconds, which is at most
/// that of `Duration::MAX`. Durations compare as their nanosecond counts do.
#[verifier::external_body]
pub(crate) fn duration_as_nanos(d: &Duration) -> (r: u128)
    ensures
        r <= MAX_DURATION_NANOS,
{
    d.as_nanos()
}

/// `Duration::new`: `secs` seconds and `nanos` nanoseconds; with `nanos`
/// below one second nothing carries into the seconds, so it does not panic.
#[verifier::external_body]
pub(crate) fn duration_new(secs: u64, nanos: u32) -> Duration
    requires
        nanos < 1_000_000_000,
{
    Duration::new(secs, nanos)
}

/// `Instant::checked_sub`: the point `d` before `i`, if the clock can
/// represent it.
#[verifier::external_body]
pub(crate) fn instant_checked_sub(i: Instant, d: Duration) -> Option<Instant> {
    i.checked_sub(d)
}

} // verus!
