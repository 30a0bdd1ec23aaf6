use catalog_capture_core::seal::{
    checked_next_seal_boundary_ns, next_seal_boundary_ns, parse_seal_schedule, parse_seal_timezone,
    resolve_seal_schedule, should_seal_at, ResolvedSealSchedule, NANOSECONDS_IN_SECOND,
};
use chrono::{TimeZone, Utc};
use catalog_capture_core::{LifecycleConfig, LifecycleMode, SealConfigFile};

fn daily_seal_config() -> SealConfigFile {
    SealConfigFile { enabled: true, schedule: "06:00".to_string(), timezone: "UTC".to_string(), interval_secs: 86_400 }
}

#[test]
fn parse_seal_schedule_accepts_hour_minute() {
    assert_eq!(parse_seal_schedule("06:00").expect("should parse"), 6 * 3_600 * NANOSECONDS_IN_SECOND);
    assert_eq!(parse_seal_schedule(" 01:02:03 ").expect("should parse"), 3_723 * NANOSECONDS_IN_SECOND);
    assert_eq!(
        parse_seal_schedule("6am").unwrap_err().message(),
        "invalid seal schedule 6am; expected HH:MM or HH:MM:SS"
    );
}

#[test]
fn seal_timezone_parses_utc() {
    let seal = resolve_seal_schedule(&daily_seal_config()).expect("seal schedule should resolve");
    assert_eq!(seal.timezone, chrono_tz::UTC);
    assert_eq!(seal.interval_ns, 86_400 * NANOSECONDS_IN_SECOND);
    assert_eq!(parse_seal_timezone("America/New_York").unwrap(), chrono_tz::America::New_York);
    assert_eq!(parse_seal_timezone("Mars/Base").unwrap_err().message(), "invalid seal timezone Mars/Base");
}

fn utc_ns(year: i32, month: u32, day: u32, hour: u32, minute: u32) -> u64 {
    Utc.with_ymd_and_hms(year, month, day, hour, minute, 0)
        .single()
        .expect("valid timestamp")
        .timestamp_nanos_opt()
        .expect("timestamp fits in ns") as u64
}

fn daily_seal_at_six_utc() -> ResolvedSealSchedule {
    resolve_seal_schedule(&daily_seal_config()).expect("seal schedule should resolve")
}

#[test]
fn should_seal_at_triggers_only_on_boundary_crossing() {
    let seal = daily_seal_at_six_utc();
    let boundary = next_seal_boundary_ns(utc_ns(2026, 6, 22, 5, 30), &seal);
    assert!(!should_seal_at(boundary.saturating_sub(1), boundary));
    assert!(should_seal_at(boundary, boundary));
}

#[test]
fn next_seal_boundary_targets_following_day_boundary() {
    let seal = daily_seal_at_six_utc();
    let next = next_seal_boundary_ns(utc_ns(2026, 6, 22, 5, 30), &seal);
    assert_eq!(next, utc_ns(2026, 6, 22, 6, 0));
}

#[test]
fn next_seal_boundary_rolls_to_next_day_after_schedule() {
    let seal = daily_seal_at_six_utc();
    assert_eq!(next_seal_boundary_ns(utc_ns(2026, 6, 22, 6, 0), &seal), utc_ns(2026, 6, 23, 6, 0));
    assert_eq!(next_seal_boundary_ns(utc_ns(2026, 6, 22, 23, 59), &seal), utc_ns(2026, 6, 23, 6, 0));
}

#[test]
fn next_seal_boundary_handles_us_spring_forward_gap() {
    let seal = resolve_seal_schedule(&SealConfigFile {
        enabled: true,
        schedule: "02:30".to_string(),
        timezone: "America/New_York".to_string(),
        interval_secs: 86_400,
    })
    .expect("seal schedule should resolve");
    assert_eq!(seal.timezone, chrono_tz::America::New_York);

    // 2026-03-08 01:30 EST: 02:30 does not exist on spring-forward day.
    let now = utc_ns(2026, 3, 8, 6, 30);
    let next = next_seal_boundary_ns(now, &seal);
    assert!(next > now, "next seal boundary must be strictly after now (got now={now}, next={next})");
}

#[test]
fn next_seal_boundary_handles_us_fall_back_ambiguity() {
    let seal = resolve_seal_schedule(&SealConfigFile {
        enabled: true,
        schedule: "01:30".to_string(),
        timezone: "America/New_York".to_string(),
        interval_secs: 86_400,
    })
    .expect("seal schedule should resolve");

    // 2026-11-01 05:30 UTC ~= 01:30 EDT during fall-back ambiguity window.
    let now = utc_ns(2026, 11, 1, 5, 30);
    let next = next_seal_boundary_ns(now, &seal);
    assert!(next > now, "ambiguous local schedule should still yield a future boundary");
}

#[test]
fn checked_boundary_refuses_instants_past_the_nanosecond_range() {
    let seal = daily_seal_at_six_utc();
    assert_eq!(checked_next_seal_boundary_ns(utc_ns(2026, 6, 22, 5, 30), &seal), Some(utc_ns(2026, 6, 22, 6, 0)));
    assert_eq!(checked_next_seal_boundary_ns(u64::MAX, &seal), None);
}

#[test]
fn zero_interval_counts_as_one_second() {
    let seal = resolve_seal_schedule(&SealConfigFile { interval_secs: 0, ..daily_seal_config() }).unwrap();
    assert_eq!(seal.interval_ns, NANOSECONDS_IN_SECOND);
}

#[test]
fn resolved_seal_only_for_enabled_segment_lifecycle() {
    let mut lifecycle = LifecycleConfig::default();
    assert!(lifecycle.resolved_seal().unwrap().is_none());
    lifecycle.seal = daily_seal_config();
    let resolved = lifecycle.resolved_seal().unwrap().expect("enabled segment seal");
    assert_eq!(resolved.schedule_ns, 6 * 3_600 * NANOSECONDS_IN_SECOND);
    lifecycle.mode = LifecycleMode::Chunked;
    assert!(lifecycle.resolved_seal().unwrap().is_none());
    lifecycle.mode = LifecycleMode::Segment;
    lifecycle.seal.schedule = "later".to_string();
    assert!(lifecycle.resolved_seal().is_err());
}
