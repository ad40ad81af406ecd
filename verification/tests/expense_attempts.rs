use tm_core::calendar::CivilDate;
use tm_core::error::Error;
use tm_core::expense_attempts::{
    attempt_claim_of, check_request_binding, plan_attempt_claim, plan_attempt_failure, validate_attempt_failure,
    ClaimPlan, FailurePlan, StoredAttempt, MONTHLY_ATTEMPT_LIMIT,
};
use tm_core::expense_types::ExpenseReportAttemptStatus;

fn month(m: u32) -> CivilDate {
    CivilDate { year: 2026, month: m, day: 1 }
}

fn attempt(status: ExpenseReportAttemptStatus) -> StoredAttempt {
    StoredAttempt {
        quota_month: month(7),
        report_month: month(6),
        attempt_number: 2,
        status,
        failure_code: None,
    }
}

#[test]
fn a_new_request_takes_the_next_of_eight_attempts() {
    match plan_attempt_claim(None, month(7), month(6), 0).unwrap() {
        ClaimPlan::Record { attempt_number } => assert_eq!(attempt_number, 1),
        ClaimPlan::Replay(_) => panic!("a new request is recorded"),
    }
    match plan_attempt_claim(None, month(7), month(6), 7).unwrap() {
        ClaimPlan::Record { attempt_number } => assert_eq!(attempt_number, 8),
        ClaimPlan::Replay(_) => panic!("a new request is recorded"),
    }
    assert_eq!(MONTHLY_ATTEMPT_LIMIT, 8);
    assert_eq!(
        plan_attempt_claim(None, month(7), month(6), 8).unwrap_err(),
        Error::Conflict("expense AI monthly attempt limit of 8 has been reached".to_owned())
    );
}

#[test]
fn a_repeated_claim_replays_its_attempt_even_at_the_limit() {
    match plan_attempt_claim(Some(attempt(ExpenseReportAttemptStatus::Claimed)), month(7), month(6), 8).unwrap() {
        ClaimPlan::Replay(a) => assert_eq!(a.attempt_number, 2),
        ClaimPlan::Record { .. } => panic!("a repeated request is replayed"),
    }
    assert_eq!(
        plan_attempt_claim(Some(attempt(ExpenseReportAttemptStatus::Claimed)), month(7), month(5), 0).unwrap_err(),
        Error::Conflict("expense report request ID was reused for another quota or report month".to_owned())
    );
}

#[test]
fn a_request_stays_bound_to_its_month_and_aggregate() {
    assert!(check_request_binding(month(6), "abc", month(6), "abc").is_ok());
    assert_eq!(
        check_request_binding(month(6), "abc", month(6), "abd").unwrap_err(),
        Error::Conflict("expense report request ID was reused for another month or aggregate".to_owned())
    );
    assert!(check_request_binding(month(5), "abc", month(6), "abc").is_err());
}

#[test]
fn failures_use_the_supported_codes() {
    assert!(validate_attempt_failure("req-1", "timeout").is_ok());
    assert!(validate_attempt_failure("req-1", "persistence_failed").is_ok());
    assert_eq!(
        validate_attempt_failure("req-1", "gremlins").unwrap_err(),
        Error::Invalid("expense report failure code is not supported".to_owned())
    );
}

#[test]
fn a_succeeded_attempt_never_fails_and_a_failed_one_keeps_its_code() {
    assert_eq!(
        plan_attempt_failure(ExpenseReportAttemptStatus::Claimed, &None, "timeout").unwrap(),
        FailurePlan::Record
    );
    assert_eq!(
        plan_attempt_failure(ExpenseReportAttemptStatus::Succeeded, &None, "timeout").unwrap_err(),
        Error::Conflict("a succeeded expense report attempt cannot be marked failed".to_owned())
    );
    assert_eq!(
        plan_attempt_failure(ExpenseReportAttemptStatus::Failed, &Some("timeout".to_owned()), "timeout").unwrap(),
        FailurePlan::AlreadyFailed
    );
    assert_eq!(
        plan_attempt_failure(ExpenseReportAttemptStatus::Failed, &Some("timeout".to_owned()), "transport").unwrap_err(),
        Error::Conflict("expense report attempt already has a different terminal failure".to_owned())
    );
}

#[test]
fn a_claim_answers_with_the_attempt_it_replays_or_records() {
    let mut stored = attempt(ExpenseReportAttemptStatus::Failed);
    stored.failure_code = Some("openai_failed".to_owned());
    let plan = plan_attempt_claim(Some(stored), month(7), month(6), 5).unwrap();
    let replayed = attempt_claim_of("request-1", month(7), month(6), plan);
    assert_eq!(replayed.request_id, "request-1");
    assert_eq!((replayed.month_start, replayed.report_month_start), (month(7), month(6)));
    assert_eq!(replayed.attempt_number, 2);
    assert_eq!(replayed.status, ExpenseReportAttemptStatus::Failed);
    assert_eq!(replayed.failure_code, Some("openai_failed".to_owned()));
    assert!(replayed.replayed);

    let plan = plan_attempt_claim(None, month(7), month(6), 3).unwrap();
    let recorded = attempt_claim_of("request-2", month(7), month(6), plan);
    assert_eq!(recorded.attempt_number, 4);
    assert_eq!(recorded.status, ExpenseReportAttemptStatus::Claimed);
    assert_eq!(recorded.failure_code, None);
    assert!(!recorded.replayed);
}
