//! The life of a paid AI month-report request: binding a request to a month and an
//! aggregate, claiming one of the month's eight attempts, staging its result, or
//! recording its failure. Each decision is replay-safe: the same request repeated gives
//! the same answer, and nothing billed once can be retried.
use vstd::prelude::*;
use vstd::string::*;

use crate::calendar::CivilDate;
use crate::error::{invalid, Error};
use crate::expense::{label_ok, validate_label};
use crate::expense_types::{
    ExpenseReportAttemptStatus, ExpenseReportFact, ExpenseReportObservation,
    SaveExpenseReportInput,
};
use crate::text::{same_text, str_eq};

verus! {

/// The most AI report attempts one quota month allows.
pub const MONTHLY_ATTEMPT_LIMIT: u32 = 8;

/// A request bound before must name the same month and aggregate.
pub fn check_request_binding(
    saved_month: CivilDate,
    saved_aggregate_sha256: &str,
    report_month: CivilDate,
    aggregate_sha256: &str,
) -> (r: Result<(), Error>)
    ensures
        r is Ok <==> saved_month == report_month && saved_aggregate_sha256@ == aggregate_sha256@,
        r matches Err(e) ==> e is Conflict,
{
    if saved_month != report_month || !str_eq(saved_aggregate_sha256, aggregate_sha256) {
        return Err(
            Error::Conflict(
                "expense report request ID was reused for another month or aggregate".to_owned(),
            ),
        );
    }
    Ok(())
}

/// An attempt as stored.
#[derive(Debug, Clone)]
pub struct StoredAttempt {
    pub quota_month: CivilDate,
    pub report_month: CivilDate,
    pub attempt_number: u8,
    pub status: ExpenseReportAttemptStatus,
    pub failure_code: Option<String>,
}

/// What claiming an attempt comes to.
#[derive(Debug, Clone)]
pub enum ClaimPlan {
    /// The request claimed an attempt before: it is given back as it stands.
    Replay(StoredAttempt),
    /// A new attempt with this number is recorded as claimed.
    Record { attempt_number: u8 },
}

/// Decides a claim: a request seen before is replayed when it names the same months and
/// refused otherwise; a new request takes the next of the month's eight attempts.
pub fn plan_attempt_claim(
    existing: Option<StoredAttempt>,
    quota_month: CivilDate,
    report_month: CivilDate,
    attempts_this_month: u32,
) -> (r: Result<ClaimPlan, Error>)
    ensures
        match existing {
            Some(a) => match r {
                Ok(ClaimPlan::Replay(b)) => b == a && a.quota_month == quota_month && a.report_month
                    == report_month,
                Ok(ClaimPlan::Record { .. }) => false,
                Err(e) => e is Conflict && !(a.quota_month == quota_month && a.report_month == report_month),
            },
            None => match r {
                Ok(ClaimPlan::Replay(_)) => false,
                Ok(ClaimPlan::Record { attempt_number }) => attempts_this_month < MONTHLY_ATTEMPT_LIMIT
                    && attempt_number == attempts_this_month + 1,
                Err(e) => e is Conflict && attempts_this_month >= MONTHLY_ATTEMPT_LIMIT,
            },
        },
{
    match existing {
        Some(a) => {
            if a.quota_month != quota_month || a.report_month != report_month {
                return Err(
                    Error::Conflict(
                        "expense report request ID was reused for another quota or report month".to_owned(),
                    ),
                );
            }
            Ok(ClaimPlan::Replay(a))
        },
        None => {
            if attempts_this_month >= MONTHLY_ATTEMPT_LIMIT {
                return Err(Error::Conflict("expense AI monthly attempt limit of 8 has been reached".to_owned()));
            }
            Ok(ClaimPlan::Record { attempt_number: (attempts_this_month + 1) as u8 })
        },
    }
}

/// The attempt a claim answers with.
#[derive(Debug, Clone)]
pub struct ExpenseReportAttemptClaim {
    pub request_id: String,
    /// The month the eight-attempt quota is counted in.
    pub month_start: CivilDate,
    /// The month whose material the result describes.
    pub report_month_start: CivilDate,
    pub attempt_number: u8,
    pub status: ExpenseReportAttemptStatus,
    pub failure_code: Option<String>,
    pub replayed: bool,
}

/// The claim a claim plan answers with: a replayed attempt as stored, marked replayed; a
/// recorded one as newly claimed.
pub fn attempt_claim_of(
    request_id: &str,
    quota_month: CivilDate,
    report_month: CivilDate,
    plan: ClaimPlan,
) -> (c: ExpenseReportAttemptClaim)
    ensures
        c.request_id@ == request_id@,
        c.month_start == quota_month,
        c.report_month_start == report_month,
        match plan {
            ClaimPlan::Replay(a) => c.attempt_number == a.attempt_number && c.status == a.status
                && c.failure_code == a.failure_code && c.replayed,
            ClaimPlan::Record { attempt_number } => c.attempt_number == attempt_number && c.status
                == ExpenseReportAttemptStatus::Claimed && c.failure_code is None && !c.replayed,
        },
{
    match plan {
        ClaimPlan::Replay(a) => ExpenseReportAttemptClaim {
            request_id: request_id.to_owned(),
            month_start: quota_month,
            report_month_start: report_month,
            attempt_number: a.attempt_number,
            status: a.status,
            failure_code: a.failure_code,
            replayed: true,
        },
        ClaimPlan::Record { attempt_number } => ExpenseReportAttemptClaim {
            request_id: request_id.to_owned(),
            month_start: quota_month,
            report_month_start: report_month,
            attempt_number,
            status: ExpenseReportAttemptStatus::Claimed,
            failure_code: None,
            replayed: false,
        },
    }
}

// ---------------------------------------------------------------------------------------
// Equality of report results
// ---------------------------------------------------------------------------------------

/// A report fact by its values.
pub open spec fn fact_value(f: ExpenseReportFact) -> (Seq<char>, Seq<char>, Seq<char>, i64) {
    (f.fact_id@, f.metric@, f.currency@, f.amount_minor)
}

/// An observation by its values.
pub open spec fn observation_value(o: ExpenseReportObservation) -> (Seq<char>, Seq<Seq<char>>) {
    (o.text@, o.fact_ids@.map_values(|s: String| s@))
}

/// A report result by its values: what makes two results the same.
pub open spec fn report_value(r: SaveExpenseReportInput) -> (
    (CivilDate, Seq<char>, Seq<char>, Seq<char>, Seq<char>, Seq<char>),
    Seq<(Seq<char>, Seq<char>, Seq<char>, i64)>,
    Seq<(Seq<char>, Seq<Seq<char>>)>,
    Seq<(Seq<char>, Seq<Seq<char>>)>,
    Seq<Seq<char>>,
    (u64, u64, u64, u64, u64, u64),
) {
    (
        (r.month_start, r.aggregate_sha256@, r.prompt_version@, r.model@, r.title@, r.summary@),
        r.facts@.map_values(|f: ExpenseReportFact| fact_value(f)),
        r.observations@.map_values(|o: ExpenseReportObservation| observation_value(o)),
        r.alerts@.map_values(|o: ExpenseReportObservation| observation_value(o)),
        r.next_month_checks@.map_values(|s: String| s@),
        (r.input_tokens, r.cached_input_tokens, r.output_tokens, r.total_tokens, r.cost_microusd, r.latency_ms),
    )
}

fn same_texts(a: &Vec<String>, b: &Vec<String>) -> (r: bool)
    ensures
        r == (a@.map_values(|s: String| s@) == b@.map_values(|s: String| s@)),
{
    if a.len() != b.len() {
        proof {
            assert(a@.map_values(|s: String| s@).len() != b@.map_values(|s: String| s@).len());
        }
        return false;
    }
    let mut i: usize = 0;
    while i < a.len()
        invariant
            0 <= i <= a@.len(),
            a@.len() == b@.len(),
            forall|k: int| 0 <= k < i ==> a@[k]@ == b@[k]@,
        decreases a@.len() - i,
    {
        if !same_text(&a[i], &b[i]) {
            proof {
                assert(a@.map_values(|s: String| s@)[i as int] != b@.map_values(|s: String| s@)[i as int]);
            }
            return false;
        }
        i = i + 1;
    }
    assert(a@.map_values(|s: String| s@) =~= b@.map_values(|s: String| s@));
    true
}

fn same_facts(a: &Vec<ExpenseReportFact>, b: &Vec<ExpenseReportFact>) -> (r: bool)
    ensures
        r == (a@.map_values(|f: ExpenseReportFact| fact_value(f)) == b@.map_values(
            |f: ExpenseReportFact| fact_value(f),
        )),
{
    let ghost va = a@.map_values(|f: ExpenseReportFact| fact_value(f));
    let ghost vb = b@.map_values(|f: ExpenseReportFact| fact_value(f));
    if a.len() != b.len() {
        proof {
            assert(va.len() != vb.len());
        }
        return false;
    }
    let mut i: usize = 0;
    while i < a.len()
        invariant
            0 <= i <= a@.len(),
            a@.len() == b@.len(),
            va == a@.map_values(|f: ExpenseReportFact| fact_value(f)),
            vb == b@.map_values(|f: ExpenseReportFact| fact_value(f)),
            forall|k: int| 0 <= k < i ==> va[k] == vb[k],
        decreases a@.len() - i,
    {
        let x = &a[i];
        let y = &b[i];
        if !(same_text(&x.fact_id, &y.fact_id) && same_text(&x.metric, &y.metric) && same_text(
            &x.currency,
            &y.currency,
        ) && x.amount_minor == y.amount_minor) {
            proof {
                assert(va[i as int] == fact_value(a@[i as int]));
                assert(vb[i as int] == fact_value(b@[i as int]));
                assert(va[i as int] != vb[i as int]);
            }
            return false;
        }
        assert(va[i as int] == fact_value(a@[i as int]));
        assert(vb[i as int] == fact_value(b@[i as int]));
        i = i + 1;
    }
    assert(va =~= vb);
    true
}

fn same_observations(a: &Vec<ExpenseReportObservation>, b: &Vec<ExpenseReportObservation>) -> (r: bool)
    ensures
        r == (a@.map_values(|o: ExpenseReportObservation| observation_value(o)) == b@.map_values(
            |o: ExpenseReportObservation| observation_value(o),
        )),
{
    let ghost va = a@.map_values(|o: ExpenseReportObservation| observation_value(o));
    let ghost vb = b@.map_values(|o: ExpenseReportObservation| observation_value(o));
    if a.len() != b.len() {
        proof {
            assert(va.len() != vb.len());
        }
        return false;
    }
    let mut i: usize = 0;
    while i < a.len()
        invariant
            0 <= i <= a@.len(),
            a@.len() == b@.len(),
            va == a@.map_values(|o: ExpenseReportObservation| observation_value(o)),
            vb == b@.map_values(|o: ExpenseReportObservation| observation_value(o)),
            forall|k: int| 0 <= k < i ==> va[k] == vb[k],
        decreases a@.len() - i,
    {
        let x = &a[i];
        let y = &b[i];
        assert(va[i as int] == observation_value(a@[i as int]));
        assert(vb[i as int] == observation_value(b@[i as int]));
        if !(same_text(&x.text, &y.text) && same_texts(&x.fact_ids, &y.fact_ids)) {
            return false;
        }
        i = i + 1;
    }
    assert(va =~= vb);
    true
}

/// Whether two report results are the same.
pub fn same_report(a: &SaveExpenseReportInput, b: &SaveExpenseReportInput) -> (r: bool)
    ensures
        r == (report_value(*a) == report_value(*b)),
{
    let head = a.month_start == b.month_start && same_text(&a.aggregate_sha256, &b.aggregate_sha256)
        && same_text(&a.prompt_version, &b.prompt_version) && same_text(&a.model, &b.model)
        && same_text(&a.title, &b.title) && same_text(&a.summary, &b.summary);
    let usage = a.input_tokens == b.input_tokens && a.cached_input_tokens == b.cached_input_tokens
        && a.output_tokens == b.output_tokens && a.total_tokens == b.total_tokens
        && a.cost_microusd == b.cost_microusd && a.latency_ms == b.latency_ms;
    let r = head && usage && same_facts(&a.facts, &b.facts) && same_observations(
        &a.observations,
        &b.observations,
    ) && same_observations(&a.alerts, &b.alerts) && same_texts(
        &a.next_month_checks,
        &b.next_month_checks,
    );
    proof {
        if report_value(*a) == report_value(*b) {
            assert(report_value(*a).0 == report_value(*b).0);
            assert(report_value(*a).1 == report_value(*b).1);
            assert(report_value(*a).2 == report_value(*b).2);
            assert(report_value(*a).3 == report_value(*b).3);
            assert(report_value(*a).4 == report_value(*b).4);
            assert(report_value(*a).5 == report_value(*b).5);
        }
    }
    r
}

// ---------------------------------------------------------------------------------------
// Staging and failing
// ---------------------------------------------------------------------------------------

/// What staging a result comes to.
#[derive(Debug, Clone, Copy, PartialEq, Eq, Structural)]
pub enum StagePlan {
    /// The same result was staged before: it stands.
    AlreadyStaged,
    /// The claimed attempt takes the result and succeeds.
    Record,
}

/// Decides staging a result on an attempt: the months must agree; a result staged
/// before must be this one; only a claimed attempt takes a new result.
pub fn plan_stage(
    attempt_report_month: CivilDate,
    status: ExpenseReportAttemptStatus,
    staged: Option<&SaveExpenseReportInput>,
    input: &SaveExpenseReportInput,
) -> (r: Result<StagePlan, Error>)
    ensures
        attempt_report_month != input.month_start ==> (r matches Err(e) && e is Conflict),
        attempt_report_month == input.month_start ==> match staged {
            Some(s) => if report_value(*s) == report_value(*input) {
                (r matches Ok(p) && p == StagePlan::AlreadyStaged)
            } else {
                (r matches Err(e) && e is Conflict)
            },
            None => if status is Claimed {
                (r matches Ok(p) && p == StagePlan::Record)
            } else {
                (r matches Err(e) && e is Conflict)
            },
        },
{
    if attempt_report_month != input.month_start {
        return Err(
            Error::Conflict("expense report attempt month does not match the staged result".to_owned()),
        );
    }
    match staged {
        Some(stored) => {
            if same_report(stored, input) {
                Ok(StagePlan::AlreadyStaged)
            } else {
                Err(
                    Error::Conflict(
                        "expense report attempt already has a different staged result".to_owned(),
                    ),
                )
            }
        },
        None => {
            if status != ExpenseReportAttemptStatus::Claimed {
                return Err(
                    Error::Conflict(
                        "a terminal expense report attempt cannot accept a staged result".to_owned(),
                    ),
                );
            }
            Ok(StagePlan::Record)
        },
    }
}

/// The failure codes an attempt may end with.
pub open spec fn failure_codes() -> Seq<Seq<char>> {
    seq![
        "transport"@,
        "authentication"@,
        "rate_limited"@,
        "request_rejected"@,
        "upstream_unavailable"@,
        "invalid_response"@,
        "timeout"@,
        "persistence_failed"@,
    ]
}

/// Checks a request to record a failure: a request ID and a supported failure code.
pub fn validate_attempt_failure(request_id: &str, failure_code: &str) -> (r: Result<(), Error>)
    ensures
        r is Ok <==> label_ok(request_id@, 128) && label_ok(failure_code@, 128)
            && failure_codes().contains(failure_code@),
        r matches Err(e) ==> e is Invalid,
{
    validate_label("expense report request ID", request_id, 128)?;
    validate_label("expense report failure code", failure_code, 128)?;
    let known = str_eq(failure_code, "transport") || str_eq(failure_code, "authentication")
        || str_eq(failure_code, "rate_limited") || str_eq(failure_code, "request_rejected")
        || str_eq(failure_code, "upstream_unavailable") || str_eq(failure_code, "invalid_response")
        || str_eq(failure_code, "timeout") || str_eq(failure_code, "persistence_failed");
    proof {
        let codes = failure_codes();
        if known {
            assert(exists|i: int| 0 <= i < codes.len() && codes[i] == failure_code@) by {
                if failure_code@ == "transport"@ { assert(codes[0] == failure_code@); }
                else if failure_code@ == "authentication"@ { assert(codes[1] == failure_code@); }
                else if failure_code@ == "rate_limited"@ { assert(codes[2] == failure_code@); }
                else if failure_code@ == "request_rejected"@ { assert(codes[3] == failure_code@); }
                else if failure_code@ == "upstream_unavailable"@ { assert(codes[4] == failure_code@); }
                else if failure_code@ == "invalid_response"@ { assert(codes[5] == failure_code@); }
                else if failure_code@ == "timeout"@ { assert(codes[6] == failure_code@); }
                else { assert(codes[7] == failure_code@); }
            }
        } else {
            assert forall|i: int| 0 <= i < codes.len() implies codes[i] != failure_code@ by {}
        }
    }
    if !known {
        return Err(invalid("expense report failure code is not supported"));
    }
    Ok(())
}

/// What recording a failure comes to.
#[derive(Debug, Clone, Copy, PartialEq, Eq, Structural)]
pub enum FailurePlan {
    /// The attempt already failed with this code: it stands.
    AlreadyFailed,
    /// The claimed attempt is marked failed with the code.
    Record,
}

/// Decides recording a failure: a succeeded attempt cannot fail; a failed one only
/// repeats its own code; a claimed one fails now.
pub fn plan_attempt_failure(
    status: ExpenseReportAttemptStatus,
    saved_failure: &Option<String>,
    failure_code: &str,
) -> (r: Result<FailurePlan, Error>)
    ensures
        match status {
            ExpenseReportAttemptStatus::Succeeded => (r matches Err(e) && e is Conflict),
            ExpenseReportAttemptStatus::Failed => if saved_failure matches Some(f) && f@ == failure_code@ {
                (r matches Ok(p) && p == FailurePlan::AlreadyFailed)
            } else {
                (r matches Err(e) && e is Conflict)
            },
            ExpenseReportAttemptStatus::Claimed => (r matches Ok(p) && p == FailurePlan::Record),
        },
{
    match status {
        ExpenseReportAttemptStatus::Succeeded => Err(
            Error::Conflict("a succeeded expense report attempt cannot be marked failed".to_owned()),
        ),
        ExpenseReportAttemptStatus::Failed => {
            let same = match saved_failure {
                Some(f) => str_eq(f.as_str(), failure_code),
                None => false,
            };
            if same {
                Ok(FailurePlan::AlreadyFailed)
            } else {
                Err(
                    Error::Conflict(
                        "expense report attempt already has a different terminal failure".to_owned(),
                    ),
                )
            }
        },
        ExpenseReportAttemptStatus::Claimed => Ok(FailurePlan::Record),
    }
}

} // verus!
