//! Wall-clock time, as the cache stamps its entries with it.

use std::time::Duration;
use std::time::SystemTime;
use std::time::SystemTimeError;
use vstd::prelude::*;

verus! {

#[verifier::external_type_specification]
#[verifier::external_body]
pub struct ExSystemTime(SystemTime);

#[verifier::external_type_specification]
#[verifier::external_body]
pub struct ExSystemTimeError(SystemTimeError);

/// `SystemTime::now`: the system clock's reading. Nothing is claimed of it.
pub assume_specification[ SystemTime::now ]() -> (now: SystemTime)
;

/// `SystemTime::duration_since`, measured from `UNIX_EPOCH`: the time
/// elapsed since the epoch, or an error when `time` lies before it. Nothing
/// is claimed of it.
#[verifier::external_body]
fn since_epoch(time: &SystemTime) -> (elapsed: Result<Duration, SystemTimeError>) {
    time.duration_since(SystemTime::UNIX_EPOCH)
}

/// `Duration::as_millis`: the whole milliseconds in a duration. Nothing is
/// claimed of it.
pub assume_specification[ Duration::as_millis ](duration: &Duration) -> (millis: u128)
;

/// Milliseconds since the Unix epoch by the system clock, or the error of
/// a clock that stands before the epoch.
///
/// Two readings need not agree or be ordered: nothing more is promised of
/// the value. `reading_of` says what is made of the clock's answer.
pub fn get_time() -> (time: Result<u128, ClockError>)
    ensures
        exists|elapsed: Option<u128>| time == reading(elapsed),
{
    let now = SystemTime::now();
    let elapsed = match since_epoch(&now) {
        Ok(elapsed) => Some(elapsed.as_millis()),
        Err(_) => None,
    };
    reading_of(elapsed)
}

/// Why the clock has no reading.
#[derive(Clone, Copy, Debug, PartialEq, Eq, Structural)]
pub enum ClockError {
    /// The clock stands before the Unix epoch: time went backwards.
    BeforeEpoch,
}

/// What a clock reads that stands `elapsed` milliseconds after the epoch;
/// one that stands before the epoch has no reading.
pub open spec fn reading(elapsed: Option<u128>) -> Result<u128, ClockError> {
    match elapsed {
        Some(millis) => Ok(millis),
        None => Err(ClockError::BeforeEpoch),
    }
}

/// The reading of a clock from the milliseconds it stands after the epoch,
/// if it does: see `reading`.
pub fn reading_of(elapsed: Option<u128>) -> (time: Result<u128, ClockError>)
    ensures
        time == reading(elapsed),
{
    match elapsed {
        Some(millis) => Ok(millis),
        None => Err(ClockError::BeforeEpoch),
    }
}

} // verus!
