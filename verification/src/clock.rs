//! Wall-clock time, as microseconds since the Unix epoch (UTC).
use vstd::prelude::*;

verus! {

/// The last microsecond that a UTC date-time can hold: the end of the year
/// 262142.
pub const MAX_TIMESTAMP_MICROS: i64 = 8_210_266_876_799_999_999;

/// Microseconds in one second.
pub const MICROS_PER_SECOND: i64 = 1_000_000;

/// Microseconds in one hour.
pub const MICROS_PER_HOUR: i64 = 3_600_000_000;

/// `chrono::Utc::now()` as microseconds since the Unix epoch. On the
/// platforms this tool runs on, chrono reads the system clock as a duration
/// since the epoch (it panics for a clock set before 1970) and builds a
/// date-time within its range, so the value is between zero and the last
/// representable microsecond. Which instant it is depends on the clock.
#[verifier::external_body]
pub(crate) fn now_micros() -> (t: i64)
    ensures
        0 <= t <= MAX_TIMESTAMP_MICROS,
{
    chrono::Utc::now().timestamp_micros()
}

} // verus!
