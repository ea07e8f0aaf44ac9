//! Monotonic time, read through std and handed to the verified logic as
//! plain millisecond counts.

use std::time::Instant;
use vstd::prelude::*;

verus! {

/// A reading of std's monotonic clock, held opaquely.
#[verifier::external_type_specification]
#[verifier::external_body]
pub struct ExInstant(Instant);

/// Relies on std::time::Instant::now: a reading of the monotonic clock.
/// Nothing is promised of the reading.
#[verifier::external_body]
pub fn instant_now() -> Instant {
    Instant::now()
}

/// Relies on std::time::Instant::elapsed: the whole milliseconds that passed
/// since `start`, saturated at `u64::MAX`. Nothing is promised of the value.
#[verifier::external_body]
pub fn millis_since(start: &Instant) -> u64 {
    u64::try_from(start.elapsed().as_millis()).unwrap_or(u64::MAX)
}

/// Relies on std::time::SystemTime::now: whole seconds since the Unix
/// epoch, or 0 for a clock set before it. Nothing is promised of the value.
#[verifier::external_body]
pub fn unix_now_secs() -> i64 {
    match std::time::SystemTime::now().duration_since(std::time::UNIX_EPOCH) {
        Ok(d) => i64::try_from(d.as_secs()).unwrap_or(i64::MAX),
        Err(_) => 0,
    }
}

} // verus!
