//! The monotonic clock the buffer and the key handler read.

use vstd::prelude::*;
use std::time::{Duration, Instant};

verus! {

#[verifier::external_type_specification]
#[verifier::external_body]
pub struct ExInstant(Instant);

/// Relies on `std::time::Instant::now`: the current instant of the monotonic clock.
#[verifier::external_body]
pub(crate) fn instant_now() -> Instant {
    Instant::now()
}

/// Relies on `std::time::Instant::elapsed`: the time that passed since `since`.
#[verifier::external_body]
pub(crate) fn elapsed_since(since: &Instant) -> Duration {
    since.elapsed()
}

/// Relies on `std::time::Duration::as_nanos`: the whole duration in nanoseconds.
#[verifier::external_body]
pub(crate) fn nanos_of(d: &Duration) -> u128 {
    d.as_nanos()
}

/// Nanoseconds in a millisecond.
pub const NANOS_PER_MILLI: u128 = 1_000_000;

/// Whether `elapsed_nanos` is strictly longer than `timeout_ms` milliseconds.
pub fn exceeds_millis(elapsed_nanos: u128, timeout_ms: u64) -> (r: bool)
    ensures
        r == (elapsed_nanos > timeout_ms * 1_000_000),
{
    let limit: u128 = (timeout_ms as u128) * NANOS_PER_MILLI;
    elapsed_nanos > limit
}

/// Whether `elapsed_nanos` is strictly longer than `limit_nanos`.
pub fn exceeds_nanos(elapsed_nanos: u128, limit_nanos: u128) -> (r: bool)
    ensures
        r == (elapsed_nanos > limit_nanos),
{
    elapsed_nanos > limit_nanos
}

} // verus!
