//! The clock the core consults for prekey and skipped-key ages.

use vstd::prelude::*;

verus! {

/// `std::time::SystemTime::now`, as whole seconds since the Unix epoch; 0
/// where the system clock stands before the epoch. Nothing is claimed of
/// the value: two calls may differ in either direction.
#[verifier::external_body]
pub fn now() -> (seconds: u64) {
    match std::time::SystemTime::now().duration_since(std::time::UNIX_EPOCH) {
        Ok(elapsed) => elapsed.as_secs(),
        Err(_) => 0,
    }
}

/// The signed timestamp that stands for a number of seconds since the
/// epoch: the number itself, or the largest timestamp where it does not fit.
pub open spec fn timestamp_of(seconds: u64) -> i64 {
    if seconds <= i64::MAX {
        seconds as i64
    } else {
        i64::MAX
    }
}

/// Converts seconds since the epoch to a signed timestamp.
pub fn timestamp_from_seconds(seconds: u64) -> (timestamp: i64)
    ensures
        timestamp == timestamp_of(seconds),
        timestamp >= 0,
{
    if seconds <= i64::MAX as u64 {
        seconds as i64
    } else {
        i64::MAX
    }
}

/// The current time as a signed timestamp: never negative.
pub fn current_timestamp() -> (timestamp: i64)
    ensures
        timestamp >= 0,
{
    timestamp_from_seconds(now())
}

} // verus!
