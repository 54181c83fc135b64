//! Wall-clock readings.

use std::time::{Duration, SystemTime, UNIX_EPOCH};
use vstd::prelude::*;

verus! {

/// `std::time::SystemTime`: a reading of the system clock, carried from
/// one call to the next without a look inside.
#[verifier::external_type_specification]
#[verifier::external_body]
pub struct ExSystemTime(SystemTime);

/// `SystemTime::now`: the current reading of the system clock. Two readings
/// need not agree, so nothing is claimed of the value.
#[verifier::external_body]
fn wall_clock() -> SystemTime {
    SystemTime::now()
}

/// `SystemTime::duration_since` measured from `UNIX_EPOCH`. The standard
/// library reports an error when the reading lies before the epoch; that
/// case comes back as `None`.
#[verifier::external_body]
fn since_epoch(reading: &SystemTime) -> Option<Duration> {
    reading.duration_since(UNIX_EPOCH).ok()
}

/// `Duration::as_secs`: the whole seconds of a span.
#[verifier::external_body]
fn whole_seconds(span: &Duration) -> u64 {
    span.as_secs()
}

/// `Duration::as_millis`: the whole milliseconds of a span.
#[verifier::external_body]
fn whole_millis(span: &Duration) -> u128 {
    span.as_millis()
}

/// What a clock counts, given the time that its reading lies after the
/// epoch: that time, and zero where the reading lies before the epoch.
pub open spec fn counted(elapsed: Option<int>) -> int {
    match elapsed {
        Some(time) => time,
        None => 0,
    }
}

/// The seconds that a clock counts, given the whole seconds that its
/// reading lies after the epoch.
pub fn seconds_counted(elapsed: Option<u64>) -> (seconds: u64)
    ensures
        seconds == counted(
            match elapsed {
                Some(time) => Some(time as int),
                None => None,
            },
        ),
{
    match elapsed {
        Some(time) => time,
        None => 0,
    }
}

/// The milliseconds that a clock counts, given the whole milliseconds that
/// its reading lies after the epoch.
pub fn milliseconds_counted(elapsed: Option<u128>) -> (milliseconds: u128)
    ensures
        milliseconds == counted(
            match elapsed {
                Some(time) => Some(time as int),
                None => None,
            },
        ),
{
    match elapsed {
        Some(time) => time,
        None => 0,
    }
}

/// Seconds elapsed since the Unix epoch. A clock set before the epoch reads
/// as zero. The value is a reading of the clock, so nothing holds of it
/// from one call to the next.
pub fn get_current_timestamp() -> u64 {
    let reading = wall_clock();
    let elapsed = match since_epoch(&reading) {
        Some(span) => Some(whole_seconds(&span)),
        None => None,
    };
    seconds_counted(elapsed)
}

/// Milliseconds elapsed since the Unix epoch. A clock set before the epoch
/// reads as zero. The value is a reading of the clock, so nothing holds of
/// it from one call to the next.
pub fn get_current_timestamp_ms() -> u128 {
    let reading = wall_clock();
    let elapsed = match since_epoch(&reading) {
        Some(span) => Some(whole_millis(&span)),
        None => None,
    };
    milliseconds_counted(elapsed)
}

} // verus!
