//! Wall-clock readings that never panic, timestamp validation, and a
//! monotonic timer.
use vstd::prelude::*;

use crate::provider::common::{prefixed, push_decimal};

verus! {

/// Why a timestamp could not be had.
#[derive(Debug, Clone)]
pub enum TimeError {
    SystemTimeError(String),
    InvalidTimestamp(i64),
}

impl TimeError {
    /// Renders the error as text.
    pub fn message(&self) -> (r: String)
        ensures
            self matches TimeError::SystemTimeError(m) ==> r@ == "System time error: "@ + m@,
    {
        match self {
            TimeError::SystemTimeError(m) => prefixed("System time error: ", m),
            TimeError::InvalidTimestamp(t) => {
                let mut s = String::from_str("Invalid timestamp: ");
                push_signed(&mut s, *t);
                s
            },
        }
    }
}

/// Appends the decimal text of a signed number.
fn push_signed(out: &mut String, n: i64) {
    if n < 0 {
        out.append("-");
        let magnitude: u64 = if n == i64::MIN {
            9223372036854775808
        } else {
            (-n) as u64
        };
        push_decimal(out, magnitude);
    } else {
        push_decimal(out, n as u64);
    }
}

/// The earliest accepted timestamp: 2000-01-01T00:00:00Z.
pub const MIN_TIMESTAMP: i64 = 946684800;

/// The latest accepted timestamp: 2038-01-19T03:14:07Z.
pub const MAX_TIMESTAMP: i64 = 2147483647;

/// The timestamp used when the clock cannot be read and none was known.
pub const FALLBACK_TIMESTAMP: i64 = 1700000000;

/// Relies on `std::time::SystemTime::now`, read as a duration since the Unix
/// epoch: the wall clock in milliseconds, or the error text when the clock
/// reads before the epoch.  Nothing is promised of the value.
#[verifier::external_body]
pub(crate) fn read_clock_millis() -> (r: Result<u128, String>) {
    match std::time::SystemTime::now().duration_since(std::time::UNIX_EPOCH) {
        Ok(d) => Ok(d.as_millis()),
        Err(e) => Err(e.to_string()),
    }
}

/// Whole seconds in a millisecond count, as `Duration::as_secs` gives them
/// and narrowed to `i64` as an `as` cast narrows.
pub open spec fn seconds_of(millis: u128) -> i64 {
    (millis / 1000) as i64
}

/// A clock reading in seconds.
pub fn seconds_from_reading(reading: Result<u128, String>) -> (r: Result<i64, TimeError>)
    ensures
        reading matches Ok(ms) ==> r == Ok::<i64, TimeError>(seconds_of(ms)),
        reading matches Err(msg) ==> (r matches Err(TimeError::SystemTimeError(m)) && m == msg),
{
    match reading {
        Ok(ms) => {
            #[verifier::truncate]
            let secs = (ms / 1000) as i64;
            Ok(secs)
        },
        Err(msg) => Err(TimeError::SystemTimeError(msg)),
    }
}

/// A clock reading in milliseconds.
pub fn millis_from_reading(reading: Result<u128, String>) -> (r: Result<i64, TimeError>)
    ensures
        reading matches Ok(ms) ==> r == Ok::<i64, TimeError>(ms as i64),
        reading matches Err(msg) ==> (r matches Err(TimeError::SystemTimeError(m)) && m == msg),
{
    match reading {
        Ok(ms) => {
            #[verifier::truncate]
            let v = ms as i64;
            Ok(v)
        },
        Err(msg) => Err(TimeError::SystemTimeError(msg)),
    }
}

/// The current time in seconds since the Unix epoch, or the clock's error.
pub fn safe_timestamp() -> (r: Result<i64, TimeError>)
    ensures
        r matches Err(e) ==> e is SystemTimeError,
{
    seconds_from_reading(read_clock_millis())
}

/// The current time in milliseconds since the Unix epoch, or the clock's
/// error.
pub fn safe_timestamp_millis() -> (r: Result<i64, TimeError>)
    ensures
        r matches Err(e) ==> e is SystemTimeError,
{
    millis_from_reading(read_clock_millis())
}

/// The timestamp to use given a clock reading: the reading itself, else the
/// last known timestamp when there is one, else a fixed estimate.
pub fn fallback_timestamp(reading: Result<i64, TimeError>, last_known: i64) -> (r: i64)
    ensures
        reading matches Ok(t) ==> r == t,
        reading is Err && last_known > 0 ==> r == last_known,
        reading is Err && last_known <= 0 ==> r == FALLBACK_TIMESTAMP,
{
    match reading {
        Ok(t) => t,
        Err(_) => if last_known > 0 {
            last_known
        } else {
            FALLBACK_TIMESTAMP
        },
    }
}

/// The current time in seconds, or a fixed estimate when the clock cannot
/// be read.
pub fn safe_timestamp_with_fallback() -> (r: i64) {
    fallback_timestamp(safe_timestamp(), 0)
}

/// Accepts a timestamp within [`MIN_TIMESTAMP`, `MAX_TIMESTAMP`].
pub fn validate_timestamp(timestamp: i64) -> (r: Result<i64, TimeError>)
    ensures
        MIN_TIMESTAMP <= timestamp <= MAX_TIMESTAMP ==> r == Ok::<i64, TimeError>(timestamp),
        !(MIN_TIMESTAMP <= timestamp <= MAX_TIMESTAMP) ==> (r matches Err(
            TimeError::InvalidTimestamp(t),
        ) && t == timestamp),
{
    if timestamp < MIN_TIMESTAMP || timestamp > MAX_TIMESTAMP {
        Err(TimeError::InvalidTimestamp(timestamp))
    } else {
        Ok(timestamp)
    }
}

/// A valid timestamp as it is; an out-of-range one replaced by the current
/// time.
pub fn sanitize_timestamp(timestamp: i64) -> (r: i64)
    ensures
        MIN_TIMESTAMP <= timestamp <= MAX_TIMESTAMP ==> r == timestamp,
{
    match validate_timestamp(timestamp) {
        Ok(t) => t,
        Err(_) => safe_timestamp_with_fallback(),
    }
}

#[verifier::external_type_specification]
#[verifier::external_body]
pub struct ExInstant(std::time::Instant);

/// Relies on `std::time::Instant::now`: a reading of the monotonic clock.
#[verifier::external_body]
pub(crate) fn instant_now() -> (r: std::time::Instant) {
    std::time::Instant::now()
}

/// Relies on `std::time::Instant::elapsed`, in whole milliseconds.
#[verifier::external_body]
pub(crate) fn elapsed_whole_millis(start: &std::time::Instant) -> (r: u128) {
    start.elapsed().as_millis()
}

/// Measures time elapsed since it was made, on the monotonic clock.
pub struct MonotonicTimer {
    start: std::time::Instant,
}

impl MonotonicTimer {
    /// A timer started now.
    pub fn new() -> (r: Self) {
        MonotonicTimer { start: instant_now() }
    }

    /// Whole seconds elapsed since the timer started.
    pub fn elapsed_secs(&self) -> (r: u64) {
        let secs = elapsed_whole_millis(&self.start) / 1000;
        if secs > u64::MAX as u128 {
            u64::MAX
        } else {
            secs as u64
        }
    }

    /// Whole milliseconds elapsed since the timer started.
    pub fn elapsed_millis(&self) -> (r: u128) {
        elapsed_whole_millis(&self.start)
    }
}

} // verus!
