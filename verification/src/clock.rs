//! The wall clock as milliseconds since the Unix epoch, read without failing.
use vstd::prelude::*;

verus! {

#[verifier::external_type_specification]
#[verifier::external_body]
pub struct ExSystemTime(std::time::SystemTime);

#[verifier::external_type_specification]
#[verifier::external_body]
pub struct ExSystemTimeError(std::time::SystemTimeError);

/// Calls `std::time::SystemTime::now`: the current time. Nothing is stated of it.
#[verifier::external_body]
fn system_now() -> std::time::SystemTime {
    std::time::SystemTime::now()
}

/// Calls `SystemTime::duration_since` with `UNIX_EPOCH`: the time since the epoch, or an
/// error when `t` lies before it. Nothing is stated of the value.
#[verifier::external_body]
fn since_epoch(t: &std::time::SystemTime) -> Result<std::time::Duration, std::time::SystemTimeError> {
    t.duration_since(std::time::UNIX_EPOCH)
}

/// Calls `SystemTimeError::duration`: how far before the epoch the time lay.
#[verifier::external_body]
fn error_duration(e: &std::time::SystemTimeError) -> std::time::Duration {
    e.duration()
}

/// Calls `Duration::as_millis`: the whole milliseconds of `d`.
#[verifier::external_body]
fn duration_millis(d: &std::time::Duration) -> u128 {
    d.as_millis()
}

/// `m` as an `i64`, cut to `i64::MAX` beyond it.
fn millis_i64(m: u128) -> (r: i64)
    ensures
        r == if m <= i64::MAX { m as int } else { i64::MAX as int },
{
    if m <= 9223372036854775807u128 {
        m as i64
    } else {
        i64::MAX
    }
}

/// Milliseconds from the Unix epoch to now: negative when the clock is set before 1970, and
/// cut to `i64::MAX` (some 292 million years) in size. Reading the clock never fails.
pub fn now_millis() -> i64 {
    let now = system_now();
    match since_epoch(&now) {
        Ok(d) => millis_i64(duration_millis(&d)),
        Err(e) => {
            let before = millis_i64(duration_millis(&error_duration(&e)));
            -before
        },
    }
}

} // verus!
