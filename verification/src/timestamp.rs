//! Time stamps of saved templates.

use vstd::prelude::*;

verus! {

/// A point in time.
#[verifier::external_type_specification]
#[verifier::external_body]
pub struct ExSystemTime(std::time::SystemTime);

/// The current time.
///
/// Trusted: calls `SystemTime::now`; nothing is claimed of the result, which
/// depends on the clock.
#[verifier::external_body]
fn system_time_now() -> (t: std::time::SystemTime) {
    std::time::SystemTime::now()
}

/// The time elapsed from the Unix epoch to `t`, where `t` is not earlier.
///
/// Trusted: calls `SystemTime::duration_since` with `UNIX_EPOCH`; nothing is
/// claimed of the result, since the time point is opaque here.
#[verifier::external_body]
fn elapsed_since_unix_epoch(t: &std::time::SystemTime) -> (r: Option<std::time::Duration>) {
    t.duration_since(std::time::UNIX_EPOCH).ok()
}

/// The whole seconds of a span of time.
///
/// Trusted: calls `Duration::as_secs`; nothing is claimed of the result,
/// since the span is opaque here.
#[verifier::external_body]
fn whole_seconds(d: &std::time::Duration) -> (r: u64) {
    d.as_secs()
}

/// The stamp for a clock reading: the whole seconds elapsed since the Unix
/// epoch, or 0 where the clock stands before it.
pub fn timestamp_from(elapsed: Option<u64>) -> (r: u64)
    ensures
        r == match elapsed {
            Some(s) => s,
            None => 0,
        },
{
    match elapsed {
        Some(s) => s,
        None => 0,
    }
}

/// The current time in whole seconds since the Unix epoch, or 0 where the
/// clock stands before it.
pub fn now_timestamp() -> (r: u64) {
    let now = system_time_now();
    let elapsed = match elapsed_since_unix_epoch(&now) {
        Some(d) => Some(whole_seconds(&d)),
        None => None,
    };
    timestamp_from(elapsed)
}

/// The earliest stamp chrono can show: the start of 1 January of year
/// -262143, its earliest date.
pub const UTC_MIN_TIMESTAMP: i64 = -8334601228800i64;

/// The latest stamp chrono can show: the last second of 31 December of year
/// 262142, its latest date.
pub const UTC_MAX_TIMESTAMP: i64 = 8210266876799i64;

/// Whether chrono can represent the instant `secs` seconds after the Unix
/// epoch.
///
/// Trusted: calls `chrono::DateTime::<Utc>::from_timestamp` with no
/// nanoseconds and tells its two outcomes apart. The call gives a date and
/// time exactly where the day falls within chrono's date range (years
/// -262143 to 262142), that is for the stamps from `UTC_MIN_TIMESTAMP` to
/// `UTC_MAX_TIMESTAMP`; the contract claims that much.
#[verifier::external_body]
fn utc_timestamp_representable(secs: i64) -> (b: bool)
    ensures
        b == (UTC_MIN_TIMESTAMP <= secs && secs <= UTC_MAX_TIMESTAMP),
{
    chrono::DateTime::<chrono::Utc>::from_timestamp(secs, 0).is_some()
}

/// The seconds of a stamp as a calendar time can take them: none where the
/// stamp lies beyond `UTC_MAX_TIMESTAMP`, the end of chrono's calendar, where
/// it is shown as an invalid time stamp.
pub fn timestamp_seconds(timestamp: u64) -> (r: Option<i64>)
    ensures
        r is Some <==> timestamp <= UTC_MAX_TIMESTAMP,
        r matches Some(s) ==> s == timestamp,
{
    if timestamp > 9223372036854775807u64 {
        return None;
    }
    let secs = timestamp as i64;
    if utc_timestamp_representable(secs) {
        Some(secs)
    } else {
        None
    }
}

} // verus!
