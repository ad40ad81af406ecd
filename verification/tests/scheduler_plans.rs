use tm_core::scheduler::{
    bounded_error, job_effect, oldest_due_age, plan_reconcile, scheduler_status_of,
    validate_worker_id, JobEffect, JobSchedule, SchedulerCounts,
};

const MINUTE: i64 = 60_000;

fn counts(dead_letter_count: i64) -> SchedulerCounts {
    SchedulerCounts {
        enabled_job_count: 2,
        pending_count: 3,
        running_count: 1,
        retry_wait_count: 4,
        dead_letter_count,
        effect_count: 9,
        succeeded_last_24_hours: 5,
        skipped_last_24_hours: 1,
        last_succeeded_at: Some("s".to_owned()),
        last_failure_at: None,
    }
}

#[test]
fn an_interval_job_coalesces_missed_runs_into_the_latest() {
    // First due at 0, every 10 minutes, reconciled at 35 minutes with a grace of one hour.
    let plan = plan_reconcile(0, 35 * MINUTE, JobSchedule::Interval { seconds: 600 }, 3_600).unwrap();
    assert_eq!(plan.latest_due, 30 * MINUTE);
    assert_eq!(plan.next_run, Some(40 * MINUTE));
    assert_eq!(plan.coalesced_skip, None);
    assert!(!plan.latest_expired);
}

#[test]
fn runs_past_the_grace_are_skipped() {
    let plan = plan_reconcile(0, 200 * MINUTE, JobSchedule::Interval { seconds: 600 }, 60).unwrap();
    assert_eq!(plan.latest_due, 200 * MINUTE);
    assert_eq!(plan.coalesced_skip, Some(0));
    assert!(!plan.latest_expired);
    let late = plan_reconcile(0, 205 * MINUTE, JobSchedule::Interval { seconds: 600 }, 60).unwrap();
    assert_eq!(late.latest_due, 200 * MINUTE);
    assert!(late.latest_expired);
}

#[test]
fn a_one_time_job_is_disabled_after_its_run() {
    let plan = plan_reconcile(MINUTE, 2 * MINUTE, JobSchedule::Once, 3_600).unwrap();
    assert_eq!(plan.latest_due, MINUTE);
    assert_eq!(plan.next_run, None);
    assert!(plan_reconcile(3 * MINUTE, 2 * MINUTE, JobSchedule::Once, 3_600).is_none());
}

#[test]
fn the_scheduler_is_degraded_by_dead_letters_or_stale_runs() {
    let healthy = scheduler_status_of(counts(0), Some(60), "now".to_owned());
    assert_eq!(healthy.status, "healthy");
    assert_eq!(healthy.queue_depth, 7);
    assert_eq!(scheduler_status_of(counts(1), None, "now".to_owned()).status, "degraded");
    assert_eq!(scheduler_status_of(counts(0), Some(301), "now".to_owned()).status, "degraded");
}

#[test]
fn due_age_is_whole_seconds_and_never_negative() {
    assert_eq!(oldest_due_age(10_999, 0), 10);
    assert_eq!(oldest_due_age(0, 5_000), 0);
}

#[test]
fn job_kinds_name_their_effect() {
    assert_eq!(job_effect("scheduler.canary").unwrap(), JobEffect::Canary);
    assert_eq!(job_effect("memory.maintenance").unwrap(), JobEffect::MemoryMaintenance);
    assert!(job_effect("mail.sync").is_err());
}

#[test]
fn worker_ids_and_errors_are_bounded() {
    assert!(validate_worker_id("worker-1").is_ok());
    assert!(validate_worker_id("  ").is_err());
    assert!(validate_worker_id(&"w".repeat(201)).is_err());
    assert_eq!(bounded_error(&"e".repeat(1_500)).len(), 1_000);
    assert_eq!(bounded_error("short"), "short");
}
