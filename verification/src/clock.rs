//! [`SystemClock`]: a monotonic microsecond clock for hosted targets.
use vstd::prelude::*;
use crate::shim_time::{duration_as_micros, instant_elapsed, instant_now};
use crate::traits::Clock;

verus! {

/// Monotonic clock whose epoch is the moment it was created.
#[derive(Debug)]
pub struct SystemClock {
    base: std::time::Instant,
}

/// Microseconds as a `u64`, saturating at `u64::MAX`.
pub open spec fn micros_to_u64(m: u128) -> u64 {
    if m > u64::MAX as u128 {
        u64::MAX
    } else {
        m as u64
    }
}

impl SystemClock {
    /// A clock whose epoch is now.
    pub fn new() -> Self {
        SystemClock { base: instant_now() }
    }

}

/// Converts a microsecond count to `u64`, saturating at `u64::MAX`.
pub fn saturate_micros(m: u128) -> (t: u64)
    ensures
        t == micros_to_u64(m),
{
    if m > u64::MAX as u128 {
        u64::MAX
    } else {
        m as u64
    }
}

impl Default for SystemClock {
    fn default() -> Self {
        Self::new()
    }
}

impl Clock for SystemClock {
    /// A real clock: its readings follow time, not a model.
    open spec fn obeys_clock_model() -> bool {
        false
    }

    /// Microseconds since the epoch, saturating at `u64::MAX`.
    fn now(&self) -> u64 {
        saturate_micros(duration_as_micros(&instant_elapsed(&self.base)))
    }
}

} // verus!
