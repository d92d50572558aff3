//! The wall clock, read through `std::time`.
use std::time::{Duration, SystemTime, SystemTimeError};
use vstd::prelude::*;

verus! {

#[verifier::external_type_specification]
#[verifier::external_body]
pub struct ExSystemTime(SystemTime);

#[verifier::external_type_specification]
#[verifier::external_body]
pub struct ExSystemTimeError(SystemTimeError);

/// `SystemTime::now`: the current wall-clock time; nothing is known of it.
#[verifier::external_body]
pub(crate) fn system_now() -> SystemTime {
    SystemTime::now()
}

/// `SystemTime::duration_since(UNIX_EPOCH)`: the time elapsed since the Unix
/// epoch, or an error when the clock reads earlier than the epoch.
#[verifier::external_body]
pub(crate) fn since_epoch(t: &SystemTime) -> Result<Duration, SystemTimeError> {
    t.duration_since(std::time::UNIX_EPOCH)
}

/// `Duration::as_secs`: the whole seconds of a duration.
#[verifier::external_body]
pub(crate) fn duration_secs(d: &Duration) -> u64 {
    d.as_secs()
}

/// `Duration::as_millis`: the whole milliseconds of a duration.
#[verifier::external_body]
pub(crate) fn duration_millis(d: &Duration) -> u128 {
    d.as_millis()
}

/// `SystemTimeError`'s `Display`: the error's message.
#[verifier::external_body]
pub(crate) fn clock_error_text(e: &SystemTimeError) -> String {
    format!("{e}")
}

/// A clock reading in milliseconds since the Unix epoch (none when the clock
/// reads earlier than the epoch) as an `i64`: the value truncated to 64 bits,
/// zero when there is none.
pub fn epoch_millis(millis: Option<u128>) -> (r: i64)
    ensures
        r == match millis {
            Some(m) => m as i64,
            None => 0i64,
        },
{
    match millis {
        Some(m) => m as i64,
        None => 0,
    }
}

/// Milliseconds since the Unix epoch, truncated to `i64`; zero when the clock
/// reads earlier than the epoch. Which value comes out depends on the clock:
/// `epoch_millis` states what is made of the reading.
pub fn now_ms() -> (r: i64) {
    let t = system_now();
    let reading = match since_epoch(&t) {
        Ok(d) => Some(duration_millis(&d)),
        Err(_) => None,
    };
    epoch_millis(reading)
}

} // verus!
