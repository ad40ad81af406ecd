use chrono::{TimeZone, Timelike};
use chrono_tz::America::New_York;
use tm_core::scheduler::{next_daily_after, time};

fn utc_millis(year: i32, month: u32, day: u32, hour: u32, minute: u32) -> i64 {
    chrono::Utc
        .with_ymd_and_hms(year, month, day, hour, minute, 0)
        .single()
        .expect("valid UTC time")
        .timestamp_millis()
}

#[test]
fn seoul_daily_schedule_is_stable_in_utc() {
    let after = utc_millis(2026, 7, 21, 18, 11);
    let next = next_daily_after("Asia/Seoul", time(3, 10).expect("valid time"), after)
        .expect("resolve Seoul schedule");
    assert_eq!(next, utc_millis(2026, 7, 22, 18, 10));
}

#[test]
fn nonexistent_dst_time_advances_to_first_valid_minute() {
    let after = utc_millis(2026, 3, 7, 12, 0);
    let next = next_daily_after("America/New_York", time(2, 30).expect("valid time"), after)
        .expect("resolve DST gap");
    let local = chrono::DateTime::from_timestamp_millis(next)
        .expect("valid instant")
        .with_timezone(&New_York);
    assert_eq!(local.date_naive().to_string(), "2026-03-08");
    assert_eq!(local.hour(), 3);
    assert_eq!(local.minute(), 0);
}

#[test]
fn ambiguous_dst_time_uses_the_first_occurrence() {
    let after = utc_millis(2026, 10, 31, 12, 0);
    let next = next_daily_after("America/New_York", time(1, 30).expect("valid time"), after)
        .expect("resolve DST overlap");
    assert_eq!(next, utc_millis(2026, 11, 1, 5, 30));
}

#[test]
fn local_times_outside_the_day_are_refused() {
    assert!(time(24, 0).is_err());
    assert!(time(23, 60).is_err());
    assert_eq!(time(23, 59).expect("valid time"), 86_340);
}

#[test]
fn unknown_zones_do_not_resolve() {
    assert!(next_daily_after("Not/AZone", 0, 0).is_err());
}

#[test]
fn a_daily_job_runs_at_its_latest_due_time_and_the_next() {
    let as_of = utc_millis(2026, 7, 21, 20, 0);
    let (latest, next) = tm_core::scheduler::daily_schedule("Asia/Seoul", Some("03:10:00"), as_of).expect("daily schedule");
    assert_eq!(latest, utc_millis(2026, 7, 21, 18, 10));
    assert_eq!(next, utc_millis(2026, 7, 22, 18, 10));
}

#[test]
fn a_daily_job_without_a_readable_local_time_is_refused() {
    assert!(matches!(
        tm_core::scheduler::daily_schedule("Asia/Seoul", None, 0),
        Err(tm_core::error::Error::Invariant(_))
    ));
    assert!(tm_core::scheduler::daily_schedule("Asia/Seoul", Some("25:00:00"), 0).is_err());
}
