//! Reading the system clock.

use std::time::{Duration, SystemTime, SystemTimeError, UNIX_EPOCH};
use vstd::prelude::*;
use crate::error::GeneratorError;
use crate::generator::nano::Nanosecond;

verus! {

#[verifier::external_type_specification]
#[verifier::external_body]
pub struct ExSystemTime(SystemTime);

#[verifier::external_type_specification]
#[verifier::external_body]
pub struct ExSystemTimeError(SystemTimeError);

/// Calls `std::time::SystemTime::now`: a reading of the system clock. Nothing is claimed
/// of the reading.
#[verifier::external_body]
fn system_time_now() -> SystemTime {
    SystemTime::now()
}

/// Calls `SystemTime::duration_since` with `UNIX_EPOCH`: the time from the UNIX epoch to
/// `time`, or an error that holds the time from `time` to the epoch when `time` lies
/// before it. The time is opaque here, so nothing is claimed of the result.
#[verifier::external_body]
fn duration_since_unix_epoch(time: SystemTime) -> Result<Duration, SystemTimeError> {
    time.duration_since(UNIX_EPOCH)
}

/// Calls `SystemTimeError::duration`: how far the time lay before the epoch. The error is
/// opaque here, so nothing is claimed of the result.
#[verifier::external_body]
fn time_error_duration(error: SystemTimeError) -> Duration {
    error.duration()
}

/// Calls `Duration::as_nanos`: the whole nanoseconds of the duration. The duration is
/// opaque here, so nothing is claimed of the result.
#[verifier::external_body]
fn duration_as_nanos(duration: Duration) -> u128 {
    duration.as_nanos()
}

/// Reads the system clock: whether it lies at or after the UNIX epoch, and how many
/// nanoseconds from it it lies.
fn read_clock() -> (bool, u128) {
    match duration_since_unix_epoch(system_time_now()) {
        Ok(duration) => (true, duration_as_nanos(duration)),
        Err(error) => (false, duration_as_nanos(time_error_duration(error))),
    }
}

/// The signed `i64` count of a distance from the UNIX epoch: `magnitude` after it when
/// `after`, else before it, kept to its low 64 bits (negating the low 64 bits of `magnitude`
/// leaves `i64::MIN` as it is).
pub open spec fn signed_count(after: bool, magnitude: u128) -> i64 {
    let low = magnitude as i64;
    if after || low == i64::MIN {
        low
    } else {
        (-low) as i64
    }
}

/// The clock reading `magnitude` nanoseconds after (when `after`) or before the UNIX epoch,
/// as a `Nanosecond` kept to its low 64 bits.
pub fn nanos_from_reading(after: bool, magnitude: u128) -> (r: Nanosecond)
    ensures
        r.0 == signed_count(after, magnitude),
{
    let count = magnitude as i64;
    if after {
        Nanosecond(count)
    } else {
        Nanosecond(0i64.wrapping_sub(count))
    }
}

/// The signed count of `magnitude` microseconds after (when `after`) or before the UNIX
/// epoch, or `ItsTheFuture` where it does not fit in an `i64`.
pub open spec fn micros_outcome(after: bool, magnitude: u128) -> Result<i64, GeneratorError> {
    if after {
        if magnitude <= i64::MAX {
            Ok(magnitude as i64)
        } else {
            Err(GeneratorError::ItsTheFuture)
        }
    } else if magnitude <= i64::MAX + 1 {
        Ok((-magnitude) as i64)
    } else {
        Err(GeneratorError::ItsTheFuture)
    }
}

/// The whole microseconds of a reading of `nanos` nanoseconds after (when `after`) or
/// before the UNIX epoch, as `micros_outcome` gives them.
pub open spec fn micros_of_nanos(after: bool, nanos: u128) -> Result<i64, GeneratorError> {
    micros_outcome(after, nanos / 1000)
}

/// The clock reading `magnitude` microseconds after (when `after`) or before the UNIX epoch,
/// when it fits in an `i64`.
pub fn micros_from_reading(after: bool, magnitude: u128) -> (r: Result<i64, GeneratorError>)
    ensures
        r == micros_outcome(after, magnitude),
        after ==> (r is Ok <==> magnitude <= i64::MAX),
        !after ==> (r is Ok <==> magnitude <= i64::MAX + 1),
        r matches Ok(micros) ==> (after ==> micros == magnitude) && (!after ==> micros == -magnitude),
        r matches Err(e) ==> e == GeneratorError::ItsTheFuture,
{
    if after {
        if magnitude <= 9_223_372_036_854_775_807u128 {
            Ok(magnitude as i64)
        } else {
            Err(GeneratorError::ItsTheFuture)
        }
    } else if magnitude <= 9_223_372_036_854_775_807u128 {
        Ok(0 - (magnitude as i64))
    } else if magnitude == 9_223_372_036_854_775_808u128 {
        Ok(i64::MIN)
    } else {
        Err(GeneratorError::ItsTheFuture)
    }
}

/// The current time, in nanoseconds after the UNIX epoch, kept to the low 64 bits of the
/// count. Where the clock reads before 1970, the count is negative (this does not panic).
pub fn now() -> (r: Nanosecond)
    ensures
        exists|after: bool, magnitude: u128| r.0 == signed_count(after, magnitude),
{
    let (after, magnitude) = read_clock();
    nanos_from_reading(after, magnitude)
}

/// The current time, in microseconds after the UNIX epoch, or `ItsTheFuture` where that does
/// not fit in an `i64`. Where the clock reads before 1970, the count is negative (this does
/// not panic).
pub fn now_micros() -> (r: Result<i64, GeneratorError>)
    ensures
        exists|after: bool, nanos: u128| r == micros_of_nanos(after, nanos),
        r matches Err(e) ==> e == GeneratorError::ItsTheFuture,
{
    let (after, nanos) = read_clock();
    let r = micros_from_reading(after, nanos / 1000);
    assert(r == micros_of_nanos(after, nanos));
    r
}

} // verus!
