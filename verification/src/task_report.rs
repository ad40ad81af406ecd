//! The daily AI task report's bookkeeping rules: what a run must name, when it may
//! start, how it may finish, and when it may be rated.
use vstd::prelude::*;
use vstd::string::*;
use vstd::utf8::encode_utf8;

use crate::error::{check_attempt_allowance, invalid, invalid_field, Error};
use crate::text::{chars_of, str_eq, trim, trimmed};

verus! {

/// A single-line text that is not blank and has at most `maximum` bytes.
pub open spec fn text_ok(value: Seq<char>, maximum: int) -> bool {
    &&& trimmed(value).len() > 0
    &&& encode_utf8(value).len() <= maximum
    &&& !value.contains('\r')
    &&& !value.contains('\n')
}

/// Checks a single-line text field of a task report.
pub fn validate_text(field: &str, value: &str, maximum: usize) -> (r: Result<(), Error>)
    ensures
        r is Ok <==> text_ok(value@, maximum as int),
        r matches Err(e) ==> e is Invalid && e->Invalid_0@ == field@ + " has an invalid format"@,
{
    let blank = trim(value).unicode_len() == 0;
    let too_long = value.as_bytes().len() > maximum;
    let chars = chars_of(value);
    let mut i: usize = 0;
    let mut line_break = false;
    while i < chars.len()
        invariant
            0 <= i <= chars@.len(),
            chars@ == value@,
            line_break == exists|k: int| 0 <= k < i && (chars@[k] == '\r' || chars@[k] == '\n'),
        decreases chars@.len() - i,
    {
        if chars[i] == '\r' || chars[i] == '\n' {
            line_break = true;
        }
        i = i + 1;
    }
    proof {
        if value@.contains('\r') {
            let k = choose|k: int| 0 <= k < value@.len() && value@[k] == '\r';
            assert(chars@[k] == '\r');
        }
        if value@.contains('\n') {
            let k = choose|k: int| 0 <= k < value@.len() && value@[k] == '\n';
            assert(chars@[k] == '\n');
        }
        if line_break {
            let k = choose|k: int| 0 <= k < chars@.len() && (chars@[k] == '\r' || chars@[k] == '\n');
            assert(value@[k] == chars@[k]);
        }
    }
    if blank || too_long || line_break {
        return Err(invalid_field(field, " has an invalid format"));
    }
    Ok(())
}

/// The most candidate tasks one report may weigh.
pub const MAX_REPORT_CANDIDATES: usize = 20;

/// Checks what a new report run names and the limits it runs under.
pub fn validate_report_start(
    id: &str,
    actor: &str,
    prompt_version: &str,
    model: &str,
    candidate_count: usize,
    daily_limit: u32,
) -> (r: Result<(), Error>)
    ensures
        r is Ok <==> (text_ok(id@, 128) && text_ok(actor@, 256) && text_ok(prompt_version@, 64)
            && text_ok(model@, 128) && 1 <= candidate_count <= MAX_REPORT_CANDIDATES && daily_limit
            > 0),
        r matches Err(e) ==> e is Invalid,
{
    validate_text("task report ID", id, 128)?;
    validate_text("task report actor", actor, 256)?;
    validate_text("task report prompt version", prompt_version, 64)?;
    validate_text("task report model", model, 128)?;
    if candidate_count == 0 || candidate_count > MAX_REPORT_CANDIDATES || daily_limit == 0 {
        return Err(invalid("task report limits are invalid"));
    }
    Ok(())
}

/// A new run may start while the day's attempts that reached the model stay under the
/// limit.
pub fn check_report_allowance(attempts_today: u32, daily_limit: u32) -> (r: Result<(), Error>)
    ensures
        r is Ok <==> attempts_today < daily_limit,
        r matches Err(e) ==> e is AiDailyLimitExceeded && e->operation@ == "task_report"@
            && e->limit == daily_limit,
{
    check_attempt_allowance("task_report", attempts_today as u64, daily_limit)
}

/// Checks what a run without candidate tasks records.
pub fn validate_no_tasks_run(id: &str, actor: &str) -> (r: Result<(), Error>)
    ensures
        r is Ok <==> (text_ok(id@, 128) && text_ok(actor@, 256)),
        r matches Err(e) ==> e is Invalid,
{
    validate_text("task report ID", id, 128)?;
    validate_text("task report actor", actor, 256)
}

/// How a started run finished, as it is recorded. `result` is the report's JSON text.
#[derive(Debug, Clone)]
pub struct TaskReportCompletion {
    pub status: String,
    pub response_id: Option<String>,
    pub upstream_request_id: Option<String>,
    pub result: Option<String>,
    pub input_tokens: Option<u64>,
    pub cached_input_tokens: Option<u64>,
    pub output_tokens: Option<u64>,
    pub total_tokens: Option<u64>,
    pub estimated_cost_microusd: u64,
    pub latency_ms: u64,
    pub failure_code: Option<String>,
}

/// A completion is `succeeded` with a result or `failed` with a failure code.
pub open spec fn completion_ok(c: TaskReportCompletion) -> bool {
    ||| c.status@ == "succeeded"@ && c.result is Some
    ||| c.status@ == "failed"@ && c.failure_code is Some
}

/// Checks a completion before it is recorded.
pub fn validate_completion(completion: &TaskReportCompletion) -> (r: Result<(), Error>)
    ensures
        r is Ok <==> completion_ok(*completion),
        r matches Err(e) ==> e is Invalid,
{
    proof {
        reveal_strlit("succeeded");
        reveal_strlit("failed");
        assert("succeeded"@.len() != "failed"@.len());
    }
    let succeeded = str_eq(completion.status.as_str(), "succeeded");
    let failed = str_eq(completion.status.as_str(), "failed");
    if !succeeded && !failed {
        return Err(invalid("task report completion status is invalid"));
    }
    if succeeded && completion.result.is_none() {
        return Err(invalid("successful task report requires a result"));
    }
    if failed && completion.failure_code.is_none() {
        return Err(invalid("failed task report requires a failure code"));
    }
    Ok(())
}

/// Only a run that finished with a report (or found no tasks) can be rated.
pub fn check_rateable(status: &str) -> (r: Result<(), Error>)
    ensures
        r is Ok <==> (status@ == "succeeded"@ || status@ == "no_tasks"@),
        r matches Err(e) ==> e is Conflict,
{
    if str_eq(status, "succeeded") || str_eq(status, "no_tasks") {
        Ok(())
    } else {
        Err(Error::Conflict("only a completed task report can be rated".to_owned()))
    }
}

} // verus!
