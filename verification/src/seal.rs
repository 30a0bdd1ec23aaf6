//! Seal schedule of segment lifecycles: when the active segment is sealed.
use vstd::prelude::*;

use crate::config::{LifecycleConfig, SealConfigFile};
use crate::error::CaptureError;
use crate::fields::{trim, trim_str};
use crate::row_group_capacity::{sat_add, sat_mul, saturating_mul_u64};
use crate::text::push_str;

verus! {

/// Nanoseconds per second.
pub const NANOSECONDS_IN_SECOND: u64 = 1_000_000_000;

#[verifier::external_type_specification]
#[verifier::external_body]
pub struct ExTz(chrono_tz::Tz);

/// Time of day that `NaiveTime::parse_from_str(text, format)` reads, as seconds from
/// midnight and the nanosecond field.
pub uninterp spec fn parsed_time_of_day(text: Seq<char>, format: Seq<char>) -> Option<(u32, u32)>;

/// The time zone `chrono_tz::Tz::from_str` finds for a name.
pub uninterp spec fn tz_named(name: Seq<char>) -> Option<chrono_tz::Tz>;

/// `chrono::NaiveTime::parse_from_str(text, format)`, read back as
/// (`num_seconds_from_midnight`, `nanosecond`); `None` when chrono rejects the text.
#[verifier::external_body]
fn parse_time_of_day(text: &str, format: &str) -> (r: Option<(u32, u32)>)
    ensures
        r == parsed_time_of_day(text@, format@),
{
    match chrono::NaiveTime::parse_from_str(text, format) {
        Ok(t) => Some((chrono::Timelike::num_seconds_from_midnight(&t), chrono::Timelike::nanosecond(&t))),
        Err(_) => None,
    }
}

/// `chrono_tz::Tz::from_str(name)`; `None` when no zone has that name.
#[verifier::external_body]
fn parse_time_zone(name: &str) -> (r: Option<chrono_tz::Tz>)
    ensures
        r == tz_named(name@),
{
    match name.parse::<chrono_tz::Tz>() {
        Ok(tz) => Some(tz),
        Err(_) => None,
    }
}

/// A seal schedule ready for use: time of day, zone and repeat interval.
#[derive(Debug, Clone, Copy, PartialEq, Eq)]
pub struct ResolvedSealSchedule {
    pub schedule_ns: u64,
    pub timezone: chrono_tz::Tz,
    pub interval_ns: u64,
}

/// Nanoseconds from midnight of a parsed time of day (saturating).
pub open spec fn time_of_day_ns(t: (u32, u32)) -> u64 {
    sat_add(sat_mul(t.0 as u64, NANOSECONDS_IN_SECOND), t.1 as u64)
}

/// The schedule `HH:MM`, else `HH:MM:SS`, of the trimmed text.
pub open spec fn spec_parse_seal_schedule(value: Seq<char>) -> Option<u64> {
    match parsed_time_of_day(trim(value), "%H:%M"@) {
        Some(t) => Some(time_of_day_ns(t)),
        None => match parsed_time_of_day(trim(value), "%H:%M:%S"@) {
            Some(t) => Some(time_of_day_ns(t)),
            None => None,
        },
    }
}

/// Seal time of day in nanoseconds from midnight, from `HH:MM` or `HH:MM:SS`.
pub fn parse_seal_schedule(value: &str) -> (r: Result<u64, CaptureError>)
    ensures
        match spec_parse_seal_schedule(value@) {
            Some(ns) => r == Ok::<u64, CaptureError>(ns),
            None => r matches Err(e) && e.message@ == "invalid seal schedule "@ + value@ + "; expected HH:MM or HH:MM:SS"@,
        },
{
    let trimmed = trim_str(value);
    let parsed = match parse_time_of_day(trimmed.as_str(), "%H:%M") {
        Some(t) => Some(t),
        None => parse_time_of_day(trimmed.as_str(), "%H:%M:%S"),
    };
    match parsed {
        Some((secs, nanos)) => {
            let a = saturating_mul_u64(secs as u64, NANOSECONDS_IN_SECOND);
            let ns = if nanos as u64 > u64::MAX - a { u64::MAX } else { a + nanos as u64 };
            Ok(ns)
        },
        None => {
            let mut message = String::new();
            push_str(&mut message, "invalid seal schedule ");
            push_str(&mut message, value);
            push_str(&mut message, "; expected HH:MM or HH:MM:SS");
            Err(CaptureError::new(message))
        },
    }
}

/// Seal time zone, by its name.
pub fn parse_seal_timezone(value: &str) -> (r: Result<chrono_tz::Tz, CaptureError>)
    ensures
        match tz_named(trim(value@)) {
            Some(tz) => r == Ok::<chrono_tz::Tz, CaptureError>(tz),
            None => r matches Err(e) && e.message@ == "invalid seal timezone "@ + value@,
        },
{
    let trimmed = trim_str(value);
    match parse_time_zone(trimmed.as_str()) {
        Some(tz) => Ok(tz),
        None => {
            let mut message = String::new();
            push_str(&mut message, "invalid seal timezone ");
            push_str(&mut message, value);
            Err(CaptureError::new(message))
        },
    }
}

/// Interval in nanoseconds of a configured interval in seconds (at least one second).
pub open spec fn seal_interval_ns(interval_secs: u64) -> u64 {
    sat_mul(if interval_secs >= 1 { interval_secs } else { 1 }, NANOSECONDS_IN_SECOND)
}

/// Resolves a seal configuration: the schedule is checked first, then the zone.
pub fn resolve_seal_schedule(config: &SealConfigFile) -> (r: Result<ResolvedSealSchedule, CaptureError>)
    ensures
        r is Ok <==> (spec_parse_seal_schedule(config.schedule@) is Some && tz_named(trim(config.timezone@)) is Some),
        r matches Ok(s) ==> Some(s.schedule_ns) == spec_parse_seal_schedule(config.schedule@)
            && Some(s.timezone) == tz_named(trim(config.timezone@))
            && s.interval_ns == seal_interval_ns(config.interval_secs),
        spec_parse_seal_schedule(config.schedule@) is None ==> (r matches Err(e)
            && e.message@ == "invalid seal schedule "@ + config.schedule@ + "; expected HH:MM or HH:MM:SS"@),
        spec_parse_seal_schedule(config.schedule@) is Some && tz_named(trim(config.timezone@)) is None ==> (r matches Err(e)
            && e.message@ == "invalid seal timezone "@ + config.timezone@),
{
    let schedule_ns = match parse_seal_schedule(config.schedule.as_str()) {
        Ok(ns) => ns,
        Err(e) => {
            return Err(e);
        },
    };
    let timezone = match parse_seal_timezone(config.timezone.as_str()) {
        Ok(tz) => tz,
        Err(e) => {
            return Err(e);
        },
    };
    let secs = if config.interval_secs >= 1 { config.interval_secs } else { 1 };
    Ok(ResolvedSealSchedule { schedule_ns, timezone, interval_ns: saturating_mul_u64(secs, NANOSECONDS_IN_SECOND) })
}

/// Whether a seal is due at `now_ns` for the boundary `next_seal_ns`.
pub fn should_seal_at(now_ns: u64, next_seal_ns: u64) -> (r: bool)
    ensures
        r == (now_ns >= next_seal_ns),
{
    now_ns >= next_seal_ns
}

/// How a local wall-clock time maps to instants in a zone, each instant as
/// nanoseconds since the epoch (`None` when that count does not fit an `i64`).
#[derive(Debug, Clone, Copy, PartialEq, Eq)]
pub enum LocalMapping {
    /// Skipped by a forward clock change.
    Gap,
    Single(Option<i64>),
    /// Repeated by a backward clock change: the earlier and the later instant.
    Ambiguous(Option<i64>, Option<i64>),
}

/// Local calendar date (days from 0001-01-01, day 1 being that date) in `tz` of the
/// instant `secs` + `nanos` after the epoch, as `chrono` computes it.
pub uninterp spec fn local_date_ce(secs: i64, nanos: u32, tz: chrono_tz::Tz) -> Option<i32>;

/// How the local time `secs` + `nanos` after midnight on day `days_ce` maps to
/// instants in `tz`, as `chrono-tz` resolves it.
pub uninterp spec fn local_mapping(tz: chrono_tz::Tz, days_ce: i32, secs: u32, nanos: u32) -> Option<LocalMapping>;

/// `DateTime::from_timestamp(secs, nanos)`, moved into `tz` with `with_timezone`,
/// then `date_naive().num_days_from_ce()`. `date_naive` panics when the zone's
/// offset carries the local time past chrono's range, so `secs` is kept to the
/// instants a `u64` nanosecond clock reaches (years 1970 to 2554), far inside it.
#[verifier::external_body]
fn local_date_of(secs: i64, nanos: u32, tz: &chrono_tz::Tz) -> (r: Option<i32>)
    requires
        0 <= secs <= u64::MAX / 1_000_000_000,
    ensures
        r == local_date_ce(secs, nanos, *tz),
{
    chrono::DateTime::from_timestamp(secs, nanos)
        .map(|utc| chrono::Datelike::num_days_from_ce(&utc.with_timezone(tz).date_naive()))
}

/// `tz.from_local_datetime` of the date `NaiveDate::from_num_days_from_ce_opt(days_ce)`
/// at `NaiveTime::from_num_seconds_from_midnight_opt(secs, nanos)`, each
/// resulting instant read with `timestamp_nanos_opt`; `None` when the date or
/// time does not exist.
#[verifier::external_body]
fn map_local_time(tz: &chrono_tz::Tz, days_ce: i32, secs: u32, nanos: u32) -> (r: Option<LocalMapping>)
    ensures
        r == local_mapping(*tz, days_ce, secs, nanos),
{
    let date = chrono::NaiveDate::from_num_days_from_ce_opt(days_ce)?;
    let time = chrono::NaiveTime::from_num_seconds_from_midnight_opt(secs, nanos)?;
    Some(match chrono::TimeZone::from_local_datetime(tz, &date.and_time(time)) {
        chrono::LocalResult::Single(v) => LocalMapping::Single(v.timestamp_nanos_opt()),
        chrono::LocalResult::Ambiguous(e, l) => LocalMapping::Ambiguous(e.timestamp_nanos_opt(), l.timestamp_nanos_opt()),
        chrono::LocalResult::None => LocalMapping::Gap,
    })
}

/// Days from 0001-01-01 (day 1) to 1970-01-01.
pub const UNIX_EPOCH_DAYS_CE: i64 = 719_163;

/// The schedule's time of day as (seconds from midnight, nanoseconds); midnight
/// when the schedule is not a time of day.
pub open spec fn schedule_time(schedule_ns: u64) -> (u32, u32) {
    let q = schedule_ns / NANOSECONDS_IN_SECOND;
    let secs: u32 = if q <= u32::MAX { q as u32 } else { 0 };
    let nanos = (schedule_ns % NANOSECONDS_IN_SECOND) as u32;
    if secs < 86_400 { (secs, nanos) } else { (0, 0) }
}

fn schedule_time_of(schedule_ns: u64) -> (r: (u32, u32))
    ensures
        r == schedule_time(schedule_ns),
{
    let q = schedule_ns / NANOSECONDS_IN_SECOND;
    let secs: u32 = if q <= u32::MAX as u64 { q as u32 } else { 0 };
    let nanos = (schedule_ns % NANOSECONDS_IN_SECOND) as u32;
    if secs < 86_400 { (secs, nanos) } else { (0, 0) }
}

/// Instant of a local date and time read as UTC.
pub open spec fn utc_naive_ns(days_ce: int, secs: int, nanos: int) -> int {
    ((days_ce - UNIX_EPOCH_DAYS_CE) * 86_400 + secs) * 1_000_000_000 + nanos
}

/// The first seal instant considered at `now_ns`: the schedule time on the
/// local date of now; if that time is skipped by a clock change, the same time
/// on the next day, or, when that is not a single instant either, the local
/// time read as UTC; a repeated time takes its earlier instant. `None` when a
/// conversion is out of range.
pub open spec fn first_local_boundary(now_ns: u64, tz: chrono_tz::Tz, schedule_ns: u64) -> Option<int> {
    let (s, n) = schedule_time(schedule_ns);
    match local_date_ce((now_ns / NANOSECONDS_IN_SECOND) as i64, (now_ns % NANOSECONDS_IN_SECOND) as u32, tz) {
        Some(d) => match local_mapping(tz, d, s, n) {
            Some(LocalMapping::Single(Some(t))) => Some(t as int),
            Some(LocalMapping::Ambiguous(Some(t), _)) => Some(t as int),
            Some(LocalMapping::Gap) => if d < i32::MAX {
                match local_mapping(tz, (d + 1) as i32, s, n) {
                    Some(LocalMapping::Single(Some(t))) => Some(t as int),
                    Some(LocalMapping::Single(None)) => None,
                    _ => Some(utc_naive_ns(d as int, s as int, n as int)),
                }
            } else {
                None
            },
            _ => None,
        },
        None => None,
    }
}

/// The first of `first`, `first + interval`, `first + 2 * interval`, ... that
/// lies after `now_ns`.
pub open spec fn boundary_after(now_ns: int, first: int, interval_ns: int) -> int {
    if first > now_ns { first } else { first + ((now_ns - first) / interval_ns + 1) * interval_ns }
}

/// The seal boundary at `now_ns` can be computed without leaving the `i64`
/// nanosecond range (outside it the boundary is never reached).
pub open spec fn seal_boundary_defined(now_ns: u64, seal: ResolvedSealSchedule) -> bool {
    &&& seal.interval_ns > 0
    &&& now_ns + seal.interval_ns <= i64::MAX
    &&& first_local_boundary(now_ns, seal.timezone, seal.schedule_ns) matches Some(f) && f <= i64::MAX
}

/// Next seal instant strictly after `now_ns`.
pub fn next_seal_boundary_from(now_ns: u64, first_ns: i128, interval_ns: u64) -> (r: u64)
    requires
        interval_ns > 0,
        now_ns + interval_ns <= i64::MAX,
        -1_000_000_000_000_000_000_000_000 <= first_ns <= i64::MAX,
    ensures
        r as int == boundary_after(now_ns as int, first_ns as int, interval_ns as int),
        r > now_ns,
{
    if first_ns > now_ns as i128 {
        return first_ns as u64;
    }
    let gap: i128 = now_ns as i128 - first_ns;
    let steps: i128 = gap / (interval_ns as i128) + 1;
    proof {
        let g = gap as int;
        let i = interval_ns as int;
        assert(g >= 0);
        assert(g / i * i <= g) by (nonlinear_arith)
            requires
                g >= 0,
                i > 0,
        ;
        assert(g < (g / i + 1) * i) by (nonlinear_arith)
            requires
                g >= 0,
                i > 0,
        ;
        assert(g / i <= g) by (nonlinear_arith)
            requires
                g >= 0,
                i > 0,
        ;
        assert((g / i + 1) * i <= g + i) by (nonlinear_arith)
            requires
                g >= 0,
                i > 0,
        ;
    }
    let next: i128 = first_ns + steps * (interval_ns as i128);
    next as u64
}

/// The next seal instant strictly after `now_ns` (see `first_local_boundary`
/// and `boundary_after`).
pub fn next_seal_boundary_ns(now_ns: u64, seal: &ResolvedSealSchedule) -> (r: u64)
    requires
        seal_boundary_defined(now_ns, *seal),
    ensures
        r as int == boundary_after(now_ns as int, first_local_boundary(now_ns, seal.timezone, seal.schedule_ns)->0,
            seal.interval_ns as int),
        r > now_ns,
{
    let first = match checked_first_boundary(now_ns, seal) {
        Some(f) => f,
        None => {
            return now_ns;
        },
    };
    next_seal_boundary_from(now_ns, first, seal.interval_ns)
}

fn checked_first_boundary(now_ns: u64, seal: &ResolvedSealSchedule) -> (r: Option<i128>)
    ensures
        r matches Some(f) ==> first_local_boundary(now_ns, seal.timezone, seal.schedule_ns) == Some(f as int)
            && -1_000_000_000_000_000_000_000_000 <= f <= i64::MAX,
        r is None ==> !(first_local_boundary(now_ns, seal.timezone, seal.schedule_ns) matches Some(f) && f <= i64::MAX),
{
    let (s, n) = schedule_time_of(seal.schedule_ns);
    let secs = (now_ns / NANOSECONDS_IN_SECOND) as i64;
    let nanos = (now_ns % NANOSECONDS_IN_SECOND) as u32;
    let day = match local_date_of(secs, nanos, &seal.timezone) {
        Some(d) => d,
        None => {
            return None;
        },
    };
    match map_local_time(&seal.timezone, day, s, n) {
        Some(LocalMapping::Single(Some(t))) => Some(t as i128),
        Some(LocalMapping::Ambiguous(Some(t), _)) => Some(t as i128),
        Some(LocalMapping::Gap) => {
            if day == i32::MAX {
                return None;
            }
            match map_local_time(&seal.timezone, day + 1, s, n) {
                Some(LocalMapping::Single(Some(t))) => Some(t as i128),
                Some(LocalMapping::Single(None)) => None,
                _ => {
                    let ns: i128 = ((day as i128 - UNIX_EPOCH_DAYS_CE as i128) * 86_400 + s as i128) * 1_000_000_000
                        + n as i128;
                    if ns <= i64::MAX as i128 {
                        Some(ns)
                    } else {
                        None
                    }
                },
            }
        },
        _ => None,
    }
}

/// The next seal boundary, when it can be computed (see `seal_boundary_defined`);
/// `None` otherwise.
pub fn checked_next_seal_boundary_ns(now_ns: u64, seal: &ResolvedSealSchedule) -> (r: Option<u64>)
    ensures
        r is Some <==> seal_boundary_defined(now_ns, *seal),
        r matches Some(v) ==> v as int == boundary_after(now_ns as int,
            first_local_boundary(now_ns, seal.timezone, seal.schedule_ns)->0, seal.interval_ns as int),
{
    if seal.interval_ns == 0 || seal.interval_ns > i64::MAX as u64 || now_ns > i64::MAX as u64 - seal.interval_ns {
        return None;
    }
    match checked_first_boundary(now_ns, seal) {
        Some(_) => Some(next_seal_boundary_ns(now_ns, seal)),
        None => None,
    }
}

impl LifecycleConfig {
    /// The seal schedule in force: none unless the lifecycle appends to segments
    /// and sealing is enabled; then the resolved configuration.
    pub fn resolved_seal(&self) -> (r: Result<Option<ResolvedSealSchedule>, CaptureError>)
        ensures
            !(self.spec_is_segment_mode() && self.seal.enabled) ==> r matches Ok(None),
            self.spec_is_segment_mode() && self.seal.enabled ==> {
                &&& r is Ok <==> (spec_parse_seal_schedule(self.seal.schedule@) is Some
                    && tz_named(trim(self.seal.timezone@)) is Some)
                &&& r matches Ok(Some(s)) ==> Some(s.schedule_ns) == spec_parse_seal_schedule(self.seal.schedule@)
                    && Some(s.timezone) == tz_named(trim(self.seal.timezone@))
                    && s.interval_ns == seal_interval_ns(self.seal.interval_secs)
                &&& r is Ok ==> r matches Ok(Some(_))
            },
    {
        if !self.is_segment_mode() || !self.seal.enabled {
            return Ok(None);
        }
        match resolve_seal_schedule(&self.seal) {
            Ok(s) => Ok(Some(s)),
            Err(e) => Err(e),
        }
    }
}

} // verus!
