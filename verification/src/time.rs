//! Durations and clock readings, as the rest of the crate uses them.
//!
//! Durations are described by their length in milliseconds. Readings of a
//! clock depend on when they are taken: nothing is stated of their values.

use std::time::Duration;
use std::time::Instant;
use std::time::SystemTime;
use vstd::prelude::*;

verus! {

/// A point in time of the monotonic clock.
#[verifier::external_type_specification]
#[verifier::external_body]
pub struct ExInstant(Instant);

/// A reading of the system clock.
#[verifier::external_type_specification]
#[verifier::external_body]
pub struct ExSystemTime(SystemTime);

/// Cloning a duration copies it (`Duration` is `Copy`).
pub assume_specification [<std::time::Duration as std::clone::Clone>::clone] (d: &std::time::Duration) -> (r: std::time::Duration)
    ensures
        r == *d,
;

/// Cloning a clock reading copies it (`Instant` is `Copy`).
pub assume_specification [<std::time::Instant as std::clone::Clone>::clone] (i: &std::time::Instant) -> (r: std::time::Instant)
    ensures
        r == *i,
;

/// The length of a duration in nanoseconds (`Duration::as_nanos`).
pub uninterp spec fn duration_as_nanos(d: Duration) -> u128;

/// The length of a duration in whole milliseconds.
pub open spec fn spec_millis(d: Duration) -> int {
    (duration_as_nanos(d) / 1_000_000) as int
}

/// The length of a duration in nanoseconds.
///
/// Trusted: `Duration::as_nanos` returns the named value.
#[verifier::external_body]
pub(crate) fn nanos_of(d: &Duration) -> (n: u128)
    ensures
        n == duration_as_nanos(*d),
{
    d.as_nanos()
}

/// The length of a duration in whole milliseconds (`Duration::as_millis`).
pub fn millis_of(d: &Duration) -> (ms: u128)
    ensures
        ms == spec_millis(*d),
{
    nanos_of(d) / 1_000_000
}

/// A duration of `ms` milliseconds.
///
/// Trusted: `Duration::from_millis(ms)` lasts `ms * 1_000_000` nanoseconds,
/// as its documentation says.
#[verifier::external_body]
pub(crate) fn from_millis(ms: u64) -> (d: Duration)
    ensures
        duration_as_nanos(d) == (ms as u128) * 1_000_000,
{
    Duration::from_millis(ms)
}

/// A duration of `s` seconds.
///
/// Trusted: `Duration::from_secs(s)` lasts `s * 1_000_000_000` nanoseconds,
/// as its documentation says.
#[verifier::external_body]
pub(crate) fn from_secs(s: u64) -> (d: Duration)
    ensures
        duration_as_nanos(d) == (s as u128) * 1_000_000_000,
{
    Duration::from_secs(s)
}

/// The difference of two durations (`Duration - Duration`, which panics
/// when the result would be negative).
///
/// Trusted: the difference lasts the difference of the two lengths, as the
/// documentation of `Duration::sub` says.
#[verifier::external_body]
pub(crate) fn sub(a: &Duration, b: &Duration) -> (d: Duration)
    requires
        duration_as_nanos(*b) <= duration_as_nanos(*a),
    ensures
        duration_as_nanos(d) == duration_as_nanos(*a) - duration_as_nanos(*b),
{
    *a - *b
}

/// The current reading of the monotonic clock (`Instant::now`).
///
/// Nothing is stated of the reading: it depends on when the call is made.
#[verifier::external_body]
pub(crate) fn now() -> Instant {
    Instant::now()
}

/// The time elapsed since `since` (`Instant::elapsed`).
///
/// Nothing is stated of the result: it depends on when the call is made.
#[verifier::external_body]
pub(crate) fn elapsed(since: &Instant) -> Duration {
    since.elapsed()
}

/// The current reading of the system clock (`SystemTime::now`).
///
/// Nothing is stated of the reading: it depends on when the call is made.
#[verifier::external_body]
pub(crate) fn system_now() -> SystemTime {
    SystemTime::now()
}

/// The time from the Unix epoch to `t` (`SystemTime::duration_since`), or
/// `None` for a time before the epoch.
///
/// Nothing is stated of the result: it depends on the reading.
#[verifier::external_body]
pub(crate) fn since_epoch(t: &SystemTime) -> Option<Duration> {
    match t.duration_since(std::time::UNIX_EPOCH) {
        Ok(d) => Some(d),
        Err(_) => None,
    }
}

/// The length of the time since the epoch in nanoseconds, zero before it.
fn epoch_nanos(d: Option<Duration>) -> (n: u128)
    ensures
        n == match d {
            Some(x) => duration_as_nanos(x),
            None => 0,
        },
{
    match d {
        Some(x) => nanos_of(&x),
        None => 0,
    }
}

/// Seconds since the Unix epoch on the system clock; a clock set before the
/// epoch reads as zero.
pub(crate) fn unix_time_secs() -> u64 {
    let n = epoch_nanos(since_epoch(&system_now()));
    let q = n / 1_000_000_000;
    if q > u64::MAX as u128 { u64::MAX } else { q as u64 }
}

/// Milliseconds since the Unix epoch on the system clock, truncated to
/// `u64` (as `as_millis() as u64` does); a clock set before the epoch reads
/// as zero.
pub(crate) fn unix_time_millis() -> u64 {
    let n = epoch_nanos(since_epoch(&system_now()));
    (n / 1_000_000) as u64
}

/// Nanoseconds since the Unix epoch on the system clock; a clock set before
/// the epoch reads as zero.
pub(crate) fn unix_time_nanos() -> u128 {
    epoch_nanos(since_epoch(&system_now()))
}

} // verus!
