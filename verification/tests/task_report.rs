use tm_core::error::Error;
use tm_core::task_report::{
    check_rateable, check_report_allowance, validate_completion, validate_no_tasks_run,
    validate_report_start, validate_text, TaskReportCompletion,
};

fn completion(status: &str, result: Option<&str>, failure: Option<&str>) -> TaskReportCompletion {
    TaskReportCompletion {
        status: status.to_owned(),
        response_id: None,
        upstream_request_id: None,
        result: result.map(str::to_owned),
        input_tokens: None,
        cached_input_tokens: None,
        output_tokens: None,
        total_tokens: None,
        estimated_cost_microusd: 0,
        latency_ms: 0,
        failure_code: failure.map(str::to_owned),
    }
}

#[test]
fn report_text_must_be_one_nonblank_line_within_its_byte_limit() {
    assert!(validate_text("field", "ok", 2).is_ok());
    assert_eq!(
        validate_text("field", "   ", 10).unwrap_err(),
        Error::Invalid("field has an invalid format".to_owned())
    );
    assert!(validate_text("field", "abc", 2).is_err());
    assert!(validate_text("field", "a\nb", 10).is_err());
    assert!(validate_text("field", "a\rb", 10).is_err());
    // The limit counts bytes: one Hangul syllable is three.
    assert!(validate_text("field", "가", 2).is_err());
    assert!(validate_text("field", "가", 3).is_ok());
}

#[test]
fn a_report_run_needs_one_to_twenty_candidates_and_a_positive_limit() {
    assert!(validate_report_start("r1", "codex", "v1", "gpt", 1, 3).is_ok());
    assert!(validate_report_start("r1", "codex", "v1", "gpt", 20, 3).is_ok());
    assert_eq!(
        validate_report_start("r1", "codex", "v1", "gpt", 21, 3).unwrap_err(),
        Error::Invalid("task report limits are invalid".to_owned())
    );
    assert!(validate_report_start("r1", "codex", "v1", "gpt", 0, 3).is_err());
    assert!(validate_report_start("r1", "codex", "v1", "gpt", 5, 0).is_err());
    assert_eq!(
        validate_report_start("", "codex", "v1", "gpt", 5, 1).unwrap_err(),
        Error::Invalid("task report ID has an invalid format".to_owned())
    );
}

#[test]
fn the_daily_limit_stops_new_report_runs() {
    assert!(check_report_allowance(2, 3).is_ok());
    assert_eq!(
        check_report_allowance(3, 3).unwrap_err(),
        Error::AiDailyLimitExceeded { operation: "task_report".to_owned(), limit: 3 }
    );
}

#[test]
fn a_run_without_tasks_still_names_its_id_and_actor() {
    assert!(validate_no_tasks_run("r1", "codex").is_ok());
    assert_eq!(
        validate_no_tasks_run("r1", " ").unwrap_err(),
        Error::Invalid("task report actor has an invalid format".to_owned())
    );
}

#[test]
fn completions_carry_a_result_or_a_failure_code() {
    assert!(validate_completion(&completion("succeeded", Some("{}"), None)).is_ok());
    assert!(validate_completion(&completion("failed", None, Some("timeout"))).is_ok());
    assert_eq!(
        validate_completion(&completion("succeeded", None, None)).unwrap_err(),
        Error::Invalid("successful task report requires a result".to_owned())
    );
    assert_eq!(
        validate_completion(&completion("failed", None, None)).unwrap_err(),
        Error::Invalid("failed task report requires a failure code".to_owned())
    );
    assert_eq!(
        validate_completion(&completion("running", None, None)).unwrap_err(),
        Error::Invalid("task report completion status is invalid".to_owned())
    );
}

#[test]
fn only_finished_reports_can_be_rated() {
    assert!(check_rateable("succeeded").is_ok());
    assert!(check_rateable("no_tasks").is_ok());
    assert_eq!(
        check_rateable("failed").unwrap_err(),
        Error::Conflict("only a completed task report can be rated".to_owned())
    );
}
