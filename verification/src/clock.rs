//! The wall clock.

use std::time::{SystemTime, UNIX_EPOCH};
use vstd::prelude::*;

verus! {

/// Reads `SystemTime::now` and returns the milliseconds that have passed
/// since the Unix epoch, or nothing when the system clock stands before the
/// epoch. Nothing is claimed of the value: two readings may differ in
/// either direction.
#[verifier::external_body]
fn unix_time_millis() -> (millis: Option<u64>) {
    match SystemTime::now().duration_since(UNIX_EPOCH) {
        Ok(elapsed) => Some(elapsed.as_millis() as u64),
        Err(_) => None,
    }
}

/// Gets current time as Unix timestamp in milliseconds, 0 for a clock that
/// stands before the epoch. The value is whatever the system clock shows.
pub(crate) fn current_time_millis() -> (millis: u64) {
    match unix_time_millis() {
        Some(millis) => millis,
        None => 0,
    }
}

} // verus!
