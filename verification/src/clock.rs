//! Reading the monotonic clock, for reporting how long a search took.

use vstd::prelude::*;
use std::time::{Duration, Instant};

verus! {

#[verifier::external_type_specification]
#[verifier::external_body]
pub struct ExInstant(Instant);

/// `std::time::Instant::now`: the current instant. Nothing is stated of it.
#[verifier::external_body]
pub(crate) fn clock_now() -> Instant {
    Instant::now()
}

/// `std::time::Instant::elapsed`: the time since `start`. Nothing is stated
/// of it: it depends on the clock.
#[verifier::external_body]
pub(crate) fn clock_elapsed(start: &Instant) -> Duration {
    start.elapsed()
}

/// `std::time::Duration::as_millis`: whole milliseconds of `d`. Nothing is
/// stated of the value.
#[verifier::external_body]
pub(crate) fn duration_millis(d: &Duration) -> u128 {
    d.as_millis()
}

/// A millisecond count as a `u64`, capped at `u64::MAX`.
pub fn capped_millis(ms: u128) -> (r: u64)
    ensures
        r == (if ms > u64::MAX { u64::MAX as u128 } else { ms }),
{
    if ms > u64::MAX as u128 {
        u64::MAX
    } else {
        ms as u64
    }
}

/// Whole milliseconds since `start`, capped at `u64::MAX`. The reading
/// depends on the clock, so nothing is stated of the value.
pub fn elapsed_ms_since(start: &Instant) -> u64 {
    let d = clock_elapsed(start);
    let ms = duration_millis(&d);
    capped_millis(ms)
}

} // verus!
