//! Time values the library hands out: `std::time::Duration`, UTC instants
//! and the wall clock.
use chrono::{DateTime, Utc};
use std::time::{Duration, SystemTime};
use vstd::prelude::*;

verus! {

/// Whether chrono can represent a millisecond UNIX timestamp as a
/// `DateTime<Utc>`: it lies between `DateTime::<Utc>::MIN_UTC` (the start of
/// year -262143) and `MAX_UTC` (the end of year 262142), in milliseconds.
pub open spec fn chrono_represents_millis(ms: i64) -> bool {
    -8_334_601_228_800_000 <= ms <= 8_210_266_876_799_999
}

/// `DateTime::from_timestamp_millis(ms).is_some()`: chrono turns the
/// milliseconds into whole days and accepts exactly the days of its
/// `NaiveDate::MIN..=NaiveDate::MAX` range.
#[verifier::external_body]
pub(crate) fn utc_millis_representable(ms: i64) -> (r: bool)
    ensures
        r == chrono_represents_millis(ms),
{
    DateTime::<Utc>::from_timestamp_millis(ms).is_some()
}

/// A millisecond timestamp as the UTC instant the event variants carry
/// (milliseconds since the epoch), clamped to the epoch when chrono cannot
/// represent it.
pub open spec fn utc_at_millis(ms: i64) -> i64 {
    if chrono_represents_millis(ms) {
        ms
    } else {
        0
    }
}

/// Millisecond timestamp → the UTC instant the event variants carry.
/// Out-of-range values clamp to the epoch.
pub fn ts_utc(ms: i64) -> (r: i64)
    ensures
        r == utc_at_millis(ms),
{
    if utc_millis_representable(ms) {
        ms
    } else {
        0
    }
}

/// The wall clock in UNIX milliseconds: `SystemTime::now()` converted with
/// chrono's `From<SystemTime> for DateTime<Utc>`, which also accepts a clock
/// set before the epoch (giving a negative value) instead of panicking.
/// Nothing is promised of the value: it is whatever the system clock says.
#[verifier::external_body]
pub(crate) fn now_millis() -> (ms: i64) {
    DateTime::<Utc>::from(SystemTime::now()).timestamp_millis()
}

/// What `Duration::as_nanos` returns for a duration: its total length in
/// nanoseconds, which fixes the duration entirely (whole seconds and the
/// sub-second part alike).
pub uninterp spec fn duration_nanos(d: Duration) -> int;

/// The whole milliseconds of a duration, as `Duration::as_millis` gives them.
pub open spec fn duration_millis(d: Duration) -> int {
    duration_nanos(d) / 1_000_000
}

/// The whole seconds of a duration, as `Duration::as_secs` gives them.
pub open spec fn duration_secs(d: Duration) -> int {
    duration_nanos(d) / 1_000_000_000
}

/// `Duration::from_millis`. std documents the result as exactly `ms`
/// milliseconds, so `as_nanos` is `ms` million.
#[verifier::external_body]
pub(crate) fn duration_from_millis(ms: u64) -> (d: Duration)
    ensures
        duration_nanos(d) == ms * 1_000_000,
{
    Duration::from_millis(ms)
}

/// `Duration::from_secs`. std documents the result as exactly `secs`
/// seconds, with no sub-second part.
#[verifier::external_body]
pub(crate) fn duration_from_secs(secs: u64) -> (d: Duration)
    ensures
        duration_nanos(d) == secs * 1_000_000_000,
{
    Duration::from_secs(secs)
}

/// `Duration::as_secs`: the whole seconds of a duration.
#[verifier::external_body]
pub(crate) fn duration_as_secs(d: &Duration) -> (s: u64)
    ensures
        s == duration_secs(*d),
{
    d.as_secs()
}

} // verus!
