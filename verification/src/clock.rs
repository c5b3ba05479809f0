//! Readings of the system clock. Nothing is stated of what they return: the
//! functions that take a reading state what holds whatever it was, and hand
//! it to a function that takes the time as an argument.
use std::time::{Duration, SystemTime, UNIX_EPOCH};
use vstd::prelude::*;

verus! {

#[verifier::external_type_specification]
#[verifier::external_body]
pub struct ExSystemTime(SystemTime);

/// `SystemTime::now`: the current wall-clock time.
#[verifier::external_body]
fn system_now() -> SystemTime {
    SystemTime::now()
}

/// `SystemTime::duration_since(UNIX_EPOCH)`: the time since the Unix epoch,
/// or `None` for a time before it.
#[verifier::external_body]
fn since_unix_epoch(t: SystemTime) -> Option<Duration> {
    t.duration_since(UNIX_EPOCH).ok()
}

/// `Duration::as_secs`: the whole seconds of `d`.
#[verifier::external_body]
fn whole_seconds(d: Duration) -> u64 {
    d.as_secs()
}

/// `Duration::as_millis`: the whole milliseconds of `d`.
#[verifier::external_body]
fn whole_millis(d: Duration) -> u128 {
    d.as_millis()
}

/// Whole seconds since the Unix epoch; 0 for a clock set before it.
pub fn unix_seconds() -> u64 {
    match since_unix_epoch(system_now()) {
        Some(d) => whole_seconds(d),
        None => 0,
    }
}

/// Whole milliseconds since the Unix epoch; 0 for a clock set before it, and
/// `u64::MAX` past the range of `u64`.
pub fn unix_millis() -> u64 {
    match since_unix_epoch(system_now()) {
        Some(d) => {
            let ms = whole_millis(d);
            if ms > u64::MAX as u128 {
                u64::MAX
            } else {
                ms as u64
            }
        },
        None => 0,
    }
}

} // verus!
