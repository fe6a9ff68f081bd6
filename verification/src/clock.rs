//! The clocks of the standard library.

use std::time::{Duration, Instant, SystemTime, SystemTimeError};
use vstd::prelude::*;

verus! {

/// A point in time, of the standard library's system clock.
#[verifier::external_type_specification]
#[verifier::external_body]
pub struct ExSystemTime(SystemTime);

/// What the standard library returns where one point in time lies before another.
#[verifier::external_type_specification]
#[verifier::external_body]
pub struct ExSystemTimeError(SystemTimeError);

/// A point in time, of the standard library's monotonic clock.
#[verifier::external_type_specification]
#[verifier::external_body]
pub struct ExInstant(Instant);

/// Now, by `std::time::SystemTime::now`. Nothing is stated of the result: it
/// depends on the clock.
#[verifier::external_body]
fn system_now() -> (t: SystemTime) {
    SystemTime::now()
}

/// The time from the Unix epoch to a point in time, by
/// `std::time::SystemTime::duration_since`. Nothing is stated of the result: a
/// point in time has no model here.
#[verifier::external_body]
fn since_epoch(t: &SystemTime) -> (r: Result<Duration, SystemTimeError>) {
    t.duration_since(std::time::UNIX_EPOCH)
}

/// The whole milliseconds of a duration, by `std::time::Duration::as_millis`.
/// Nothing is stated of the result: a duration has no model here.
#[verifier::external_body]
fn millis(d: &Duration) -> (ms: u128) {
    d.as_millis()
}

/// Now, by `std::time::Instant::now`. Nothing is stated of the result: it depends
/// on the clock.
#[verifier::external_body]
pub(crate) fn instant_now() -> (t: Instant) {
    Instant::now()
}

/// The time since a point in time, by `std::time::Instant::elapsed`. Nothing is
/// stated of the result: it depends on the clock.
#[verifier::external_body]
fn elapsed(t: &Instant) -> (d: Duration) {
    t.elapsed()
}

/// The nanoseconds of a duration, by `std::time::Duration::as_nanos`. Nothing is
/// stated of the result: a duration has no model here.
#[verifier::external_body]
fn nanos(d: &Duration) -> (ns: u128) {
    d.as_nanos()
}

/// Milliseconds since the Unix epoch, by [`whole_millis`]: they depend on the clock.
pub(crate) fn epoch_millis() -> (r: Option<u128>) {
    let now = system_now();
    let since = since_epoch(&now);
    whole_millis(since)
}

/// Nanoseconds since a point in time. Nothing is stated of the result: it depends
/// on the clock, and those who call this rely on nothing of it.
pub(crate) fn nanos_since(t: &Instant) -> (ns: u128) {
    let d = elapsed(t);
    nanos(&d)
}

/// The milliseconds of the time since the Unix epoch, exactly where there is one: a
/// clock that stands before the epoch gives an error and no milliseconds. How many
/// they are is not stated: a duration has no model here.
fn whole_millis(since: Result<Duration, SystemTimeError>) -> (r: Option<u128>)
    ensures
        r is Some <==> since is Ok,
{
    match since {
        Ok(d) => Some(millis(&d)),
        Err(_) => None,
    }
}

} // verus!
