//! UTC instants as chrono represents them, and the chrono calls on them.
use vstd::prelude::*;

verus! {

/// A UTC instant as a UNIX timestamp: whole non-leap seconds and the
/// nanoseconds after them (up to 1,999,999,999 during a leap second).
#[derive(Clone, Copy, Debug)]
pub struct UtcInstant {
    pub secs: i64,
    pub nanos: u32,
}

/// The first second chrono can represent, -262143-01-01T00:00:00 UTC.
pub const CHRONO_MIN_SECS: i64 = -8_334_601_228_800;

/// The last second chrono can represent, +262142-12-31T23:59:59 UTC.
pub const CHRONO_MAX_SECS: i64 = 8_210_266_876_799;

/// Whether chrono accepts `(secs, nanos)` as a timestamp: the day lies in
/// chrono's date range, and the nanoseconds are below 10^9, or below 2 * 10^9
/// in the last second of a minute (a leap second).
pub open spec fn chrono_timestamp_valid(secs: i64, nanos: u32) -> bool {
    &&& CHRONO_MIN_SECS <= secs <= CHRONO_MAX_SECS
    &&& nanos < 2_000_000_000
    &&& (nanos < 1_000_000_000 || secs as int % 60 == 59)
}

/// The signed time from the valid instant `(earlier_secs, earlier_nanos)` to
/// `(later_secs, later_nanos)`, in nanoseconds, as chrono subtracts them: the
/// difference of the seconds and of the nanoseconds, where a leap second of
/// the earlier instant counts one second more when the later one is later in
/// its day, and a leap second of the later instant one second less when it is
/// earlier in its day.
pub open spec fn chrono_elapsed_nanos(
    later_secs: i64,
    later_nanos: u32,
    earlier_secs: i64,
    earlier_nanos: u32,
) -> int {
    let later_of_day = later_secs as int % 86400;
    let earlier_of_day = earlier_secs as int % 86400;
    let adjust: int = if later_of_day > earlier_of_day && earlier_nanos >= 1_000_000_000 {
        1
    } else if later_of_day < earlier_of_day && later_nanos >= 1_000_000_000 {
        -1
    } else {
        0
    };
    (later_secs - earlier_secs + adjust) * 1_000_000_000 + (later_nanos - earlier_nanos)
}

/// Whether chrono accepts `micros` microseconds after the UNIX epoch.
pub open spec fn chrono_micros_valid(micros: i64) -> bool {
    chrono_timestamp_valid(
        (micros as int / 1_000_000) as i64,
        ((micros as int % 1_000_000) * 1000) as u32,
    )
}

/// `NaiveDateTime::from_timestamp_opt(secs, nanos).is_some()`: chrono's source
/// (`DateTime::from_timestamp`) accepts the day when it lies within
/// `NaiveDate::MIN..=NaiveDate::MAX`, and the time of day as
/// `NaiveTime::from_num_seconds_from_midnight_opt` does.
#[verifier::external_body]
#[allow(deprecated)]
pub(crate) fn timestamp_is_valid(secs: i64, nanos: u32) -> (r: bool)
    ensures
        r == chrono_timestamp_valid(secs, nanos),
        r ==> nanos < 1_000_000_000 || (nanos < 2_000_000_000 && secs % 60 == 59),
{
    chrono::NaiveDateTime::from_timestamp_opt(secs, nanos).is_some()
}

/// `NaiveDateTime::from_timestamp_micros(micros).is_some()`; chrono's source
/// builds that instant from the Euclidean quotient and remainder of `micros`
/// by 1,000,000, as `chrono_micros_valid` does.
#[verifier::external_body]
#[allow(deprecated)]
pub(crate) fn micros_are_valid(micros: i64) -> (r: bool)
    ensures
        r == chrono_micros_valid(micros),
{
    chrono::NaiveDateTime::from_timestamp_micros(micros).is_some()
}

/// `Utc::now()`, as timestamp seconds and sub-second nanoseconds. chrono
/// documents that these two numbers rebuild the same instant, so they are valid.
/// `Utc::now` panics when the system clock reads before 1970, which no
/// argument decides.
#[verifier::external_body]
pub(crate) fn utc_now() -> (r: UtcInstant)
    ensures
        chrono_timestamp_valid(r.secs, r.nanos),
        r.secs >= 0,
{
    let t = chrono::Utc::now();
    UtcInstant { secs: t.timestamp(), nanos: t.timestamp_subsec_nanos() }
}

/// `later - earlier` for two valid UTC instants, as `TimeDelta::num_seconds`
/// and `TimeDelta::subsec_nanos`, whose documented sum (seconds times 10^9 plus
/// nanoseconds) is the whole difference; chrono's source computes it as the
/// day difference plus `NaiveTime::signed_duration_since`, which
/// `chrono_elapsed_nanos` states.
#[verifier::external_body]
pub(crate) fn elapsed_parts(later: &UtcInstant, earlier: &UtcInstant) -> (r: (i64, i32))
    requires
        chrono_timestamp_valid(later.secs, later.nanos),
        chrono_timestamp_valid(earlier.secs, earlier.nanos),
    ensures
        r.0 * 1_000_000_000 + r.1 == chrono_elapsed_nanos(
            later.secs,
            later.nanos,
            earlier.secs,
            earlier.nanos,
        ),
        -1_000_000_000 < r.1 < 1_000_000_000,
        later.nanos < 1_000_000_000 && earlier.nanos < 1_000_000_000 ==> r.0 * 1_000_000_000 + r.1
            == (later.secs - earlier.secs) * 1_000_000_000 + (later.nanos - earlier.nanos),
{
    let a = chrono::DateTime::from_timestamp(later.secs, later.nanos).unwrap();
    let b = chrono::DateTime::from_timestamp(earlier.secs, earlier.nanos).unwrap();
    let d = a - b;
    (d.num_seconds(), d.subsec_nanos())
}

} // verus!
