use std::time::{Duration, Instant};
use vstd::prelude::*;

verus! {

#[verifier::external_type_specification]
#[verifier::external_body]
pub struct ExInstant(Instant);

/// The largest whole number of microseconds a `Duration` can hold: `u64::MAX`
/// seconds and 999_999 microseconds.
pub open spec fn max_duration_micros() -> u128 {
    18_446_744_073_709_551_615_999_999u128
}

/// `Instant::now`: the current instant. Nothing is claimed of it.
#[verifier::external_body]
pub(crate) fn now() -> Instant {
    Instant::now()
}

/// `Instant::elapsed`: the time since `start`. Nothing is claimed of it; it depends on
/// the clock.
#[verifier::external_body]
pub(crate) fn elapsed(start: &Instant) -> Duration {
    start.elapsed()
}

/// `Duration::as_micros`: the whole microseconds in `d`. Claimed: no more than a
/// `Duration` can hold (its seconds are a `u64`). Its exact value is left unsaid: it
/// depends on the clock reading that produced `d`.
#[verifier::external_body]
pub(crate) fn as_micros(d: &Duration) -> (r: u128)
    ensures
        r <= max_duration_micros(),
{
    d.as_micros()
}

} // verus!
