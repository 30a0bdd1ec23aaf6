//! UTC wall-clock instants of the proleptic Gregorian calendar, as
//! nanoseconds since the Unix epoch.
use vstd::prelude::*;

verus! {

/// Gregorian leap year (year 0 included).
pub open spec fn is_leap_year(y: int) -> bool {
    y % 4 == 0 && (y % 100 != 0 || y % 400 == 0)
}

/// Number of days of month `m` (1 to 12) in year `y`.
pub open spec fn days_in_month(y: int, m: int) -> int {
    if m == 2 {
        if is_leap_year(y) { 29 } else { 28 }
    } else if m == 4 || m == 6 || m == 9 || m == 11 {
        30
    } else {
        31
    }
}

/// `y-m-d` names a calendar day.
pub open spec fn valid_ymd(y: int, m: int, d: int) -> bool {
    1 <= m <= 12 && 1 <= d <= days_in_month(y, m)
}

/// Days from 1970-01-01 to `y-m-d` (negative before it).
pub open spec fn days_from_civil(y: int, m: int, d: int) -> int {
    let y2 = if m <= 2 { y - 1 } else { y };
    let era = y2 / 400;
    let yoe = y2 - era * 400;
    let mp = if m > 2 { m - 3 } else { m + 9 };
    let doy = (153 * mp + 2) / 5 + d - 1;
    let doe = yoe * 365 + yoe / 4 - yoe / 100 + doy;
    era * 146097 + doe - 719468
}

/// Nanoseconds since the epoch of `y-m-d hh:mm:00` UTC, when that names an
/// instant whose nanosecond count fits an `i64`.
pub open spec fn utc_wall_clock_ns(y: int, m: int, d: int, hour: int, minute: int) -> Option<int> {
    if valid_ymd(y, m, d) && 0 <= hour < 24 && 0 <= minute < 60 {
        let ns = ((days_from_civil(y, m, d) * 86400 + hour * 3600 + minute * 60) * 1_000_000_000) as int;
        if i64::MIN <= ns <= i64::MAX { Some(ns) } else { None }
    } else {
        None
    }
}

/// Nanoseconds since the epoch of `year-month-day hour:minute:00` UTC:
/// `None` where that names no instant of the calendar or where the count
/// does not fit an `i64`.
pub(crate) fn utc_timestamp_nanos(year: i32, month: u32, day: u32, hour: u32, minute: u32) -> (r: Option<i64>)
    requires
        -9999 <= year <= 9999,
    ensures
        r matches Some(ns) ==> utc_wall_clock_ns(year as int, month as int, day as int, hour as int, minute as int) == Some(ns as int),
        r is None ==> utc_wall_clock_ns(year as int, month as int, day as int, hour as int, minute as int) is None,
{
    if month < 1 || month > 12 || day < 1 || hour >= 24 || minute >= 60 {
        return None;
    }
    let y: i64 = year as i64;
    // A shift by a multiple of 400 years keeps every quotient and remainder
    // below on non-negative numbers and changes none of them.
    let shifted_year: i64 = y + 10000;
    let leap: bool = shifted_year % 4 == 0 && (shifted_year % 100 != 0 || shifted_year % 400 == 0);
    assert(leap == is_leap_year(y as int));
    let month_days: u32 = if month == 2 {
        if leap { 29 } else { 28 }
    } else if month == 4 || month == 6 || month == 9 || month == 11 {
        30
    } else {
        31
    };
    if day > month_days {
        return None;
    }
    let y2: i64 = if month <= 2 { y - 1 } else { y };
    let shifted: i64 = y2 + 10000;
    let era: i64 = shifted / 400 - 25;
    let yoe: i64 = shifted % 400;
    proof {
        vstd::arithmetic::div_mod::lemma_fundamental_div_mod_converse(y2 as int, 400, era as int, yoe as int);
    }
    let mp: i64 = if month > 2 { month as i64 - 3 } else { month as i64 + 9 };
    let doy: i64 = (153 * mp + 2) / 5 + day as i64 - 1;
    let doe: i64 = yoe * 365 + yoe / 4 - yoe / 100 + doy;
    let days: i64 = era * 146097 + doe - 719468;
    assert(days == days_from_civil(year as int, month as int, day as int));
    let secs: i128 = days as i128 * 86400 + hour as i128 * 3600 + minute as i128 * 60;
    let ns: i128 = secs * 1_000_000_000;
    if ns < i64::MIN as i128 || ns > i64::MAX as i128 {
        None
    } else {
        Some(ns as i64)
    }
}

} // verus!
