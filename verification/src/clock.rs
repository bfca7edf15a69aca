use vstd::prelude::*;
use std::time::{Duration, SystemTime};

verus! {

#[verifier::external_type_specification]
#[verifier::external_body]
pub struct ExSystemTime(SystemTime);

/// Calls `SystemTime::now`; the result depends on the clock, so nothing is stated of it.
#[verifier::external_body]
fn system_time_now() -> SystemTime {
    SystemTime::now()
}

/// Calls `SystemTime::duration_since` with the Unix epoch; `None` when the time lies before the
/// epoch. Nothing more is stated of the result, which depends on the clock.
#[verifier::external_body]
fn elapsed_since_unix_epoch(time: &SystemTime) -> Option<Duration> {
    time.duration_since(SystemTime::UNIX_EPOCH).ok()
}

/// Calls `Duration::as_millis`; `Duration` is opaque here, so nothing is stated of the result.
#[verifier::external_body]
fn duration_millis(duration: &Duration) -> u128 {
    duration.as_millis()
}

/// Milliseconds since the Unix epoch as a `u64`: 0 when unknown, `u64::MAX` when larger.
pub open spec fn millis_or_zero(millis: Option<u128>) -> u64 {
    match millis {
        None => 0,
        Some(m) => if m > u64::MAX as u128 {
            u64::MAX
        } else {
            m as u64
        },
    }
}

/// Converts elapsed milliseconds, when known, to a `u64`.
pub fn millis_to_u64(millis: Option<u128>) -> (r: u64)
    ensures
        r == millis_or_zero(millis),
{
    match millis {
        None => 0,
        Some(m) => if m > u64::MAX as u128 {
            u64::MAX
        } else {
            m as u64
        },
    }
}

/// The current time in milliseconds since the Unix epoch (0 when the clock is set before it).
pub fn now_millis() -> u64 {
    let now = system_time_now();
    let millis = match elapsed_since_unix_epoch(&now) {
        None => None,
        Some(d) => Some(duration_millis(&d)),
    };
    millis_to_u64(millis)
}

} // verus!
