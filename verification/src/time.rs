//! Points in time, read from the system clock.

use vstd::prelude::*;

verus! {

/// A point in time of the monotonic system clock.
#[verifier::external_type_specification]
#[verifier::external_body]
pub struct ExInstant(std::time::Instant);

/// The current time: `Instant::now`.
#[verifier::external_body]
pub(crate) fn instant_now() -> std::time::Instant {
    std::time::Instant::now()
}

/// Microseconds since `t`, truncated to `u64`: `t.elapsed().as_micros()`.
/// The result depends on the clock; nothing is claimed of its value.
#[verifier::external_body]
pub(crate) fn micros_since(t: &std::time::Instant) -> u64 {
    t.elapsed().as_micros() as u64
}

/// Microseconds from `start` to `end`, truncated to `u64`:
/// `end.duration_since(start).as_micros()`. Zero when `end` is earlier
/// (the standard library saturates). Nothing more is claimed: instants
/// are opaque here.
#[verifier::external_body]
pub(crate) fn micros_between(start: &std::time::Instant, end: &std::time::Instant) -> u64 {
    end.duration_since(*start).as_micros() as u64
}

/// Milliseconds since `t`, truncated to `u64`: `t.elapsed().as_millis()`.
/// The result depends on the clock; nothing is claimed of its value.
#[verifier::external_body]
pub(crate) fn millis_since(t: &std::time::Instant) -> u64 {
    t.elapsed().as_millis() as u64
}

} // verus!
