//! Calls into `std::time` for the system clock.
use vstd::prelude::*;

verus! {

#[verifier::external_type_specification]
#[verifier::external_body]
pub struct ExInstant(std::time::Instant);

/// Calls `std::time::Instant::now`. The result depends on the time of the
/// call; nothing is claimed of it.
#[verifier::external_body]
pub fn instant_now() -> std::time::Instant {
    std::time::Instant::now()
}

/// Calls `std::time::Instant::elapsed`. The result depends on the time of
/// the call; nothing is claimed of it.
#[verifier::external_body]
pub fn instant_elapsed(base: &std::time::Instant) -> std::time::Duration {
    base.elapsed()
}

/// Calls `std::time::Duration::as_micros`. Nothing is claimed of the result.
#[verifier::external_body]
pub fn duration_as_micros(d: &std::time::Duration) -> u128 {
    d.as_micros()
}

} // verus!
