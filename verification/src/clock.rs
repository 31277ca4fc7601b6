//! Wall-clock readings used to time each check's predicate.
//!
//! A reading depends on the machine's clock, so nothing is promised of the
//! values; durations are whole nanoseconds and thus never negative.

use vstd::prelude::*;

verus! {

#[verifier::external_type_specification]
#[verifier::external_body]
pub struct ExInstant(std::time::Instant);

/// Relies on std::time::Instant::now: an opaque reading of the monotonic
/// clock, taken just before a predicate is evaluated.
#[verifier::external_body]
pub(crate) fn clock_now() -> std::time::Instant {
    std::time::Instant::now()
}

/// Relies on std::time::Instant::elapsed: the time that passed since the
/// reading was taken.
#[verifier::external_body]
pub(crate) fn elapsed_since(start: &std::time::Instant) -> core::time::Duration {
    start.elapsed()
}

/// Relies on core::time::Duration::as_nanos: the duration as a whole number
/// of nanoseconds.
#[verifier::external_body]
pub(crate) fn duration_nanos(d: &core::time::Duration) -> u128 {
    d.as_nanos()
}

} // verus!
