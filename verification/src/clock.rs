//! The wall clock, for the timestamps of messages.

use vstd::prelude::*;
use std::time::Duration;

verus! {

/// The whole seconds of a duration, as `std::time::Duration::as_secs` gives
/// them.
pub uninterp spec fn whole_seconds(duration: Duration) -> u64;

/// The time that has passed since the Unix epoch, read from the system clock
/// with `std::time::SystemTime::elapsed` on `std::time::UNIX_EPOCH`; `None`
/// where the clock stands before the epoch. Nothing is claimed of it: it
/// depends on when it is asked.
#[verifier::external_body]
fn since_epoch() -> (elapsed: Option<Duration>) {
    std::time::UNIX_EPOCH.elapsed().ok()
}

/// `std::time::Duration::as_secs`: the whole seconds of a duration, without
/// its fraction. The result is a function of the duration: it is named by
/// [`whole_seconds`].
pub assume_specification[ Duration::as_secs ](duration: &Duration) -> (seconds: u64)
    ensures
        seconds == whole_seconds(*duration),
;

/// The timestamp that a reading of the clock stands for: the whole seconds
/// that have passed since the Unix epoch, and 0 where the clock stands before
/// the epoch.
pub open spec fn timestamp_of(elapsed: Option<Duration>) -> u64 {
    match elapsed {
        Some(duration) => whole_seconds(duration),
        None => 0,
    }
}

/// Turns a reading of the clock into a timestamp. `elapsed` is the time
/// since the Unix epoch, `None` where the clock stands before it.
pub fn timestamp_from(elapsed: Option<Duration>) -> (timestamp: u64)
    ensures
        timestamp == timestamp_of(elapsed),
{
    match elapsed {
        Some(duration) => duration.as_secs(),
        None => 0,
    }
}

/// The current time in whole seconds since the Unix epoch; 0 where the
/// system clock stands before the epoch.
pub fn get_timestamp() -> u64 {
    timestamp_from(since_epoch())
}

} // verus!
