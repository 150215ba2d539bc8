//! Wall-clock timing of single operations. A measured duration depends on
//! the machine and on the moment, so nothing is promised of the values that
//! come back: the rest of the library states what holds of a run whatever
//! durations were observed.

use vstd::prelude::*;

use std::time::Duration;
use std::time::Instant;

verus! {

/// A point on the monotonic process clock. Opaque: the library only ever
/// asks for the time elapsed since such a point.
#[verifier::external_type_specification]
#[verifier::external_body]
pub struct ExInstant(Instant);

/// Relies on `std::time::Instant::now`: the current point on the monotonic
/// clock. Nothing can be promised of it.
#[verifier::external_body]
pub(crate) fn clock_now() -> Instant {
    Instant::now()
}

/// Relies on `std::time::Instant::elapsed`: the span from the instant to
/// now. Nothing can be promised of it.
#[verifier::external_body]
pub(crate) fn clock_elapsed(t: &Instant) -> Duration {
    t.elapsed()
}

/// Relies on `std::time::Duration::as_nanos`: the whole nanoseconds of the
/// span. A `u128` holds the nanoseconds of any `Duration`, so the call
/// never panics.
#[verifier::external_body]
pub(crate) fn duration_nanos(d: &Duration) -> u128 {
    d.as_nanos()
}

} // verus!
