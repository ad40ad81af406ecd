//! The expense ledger's mutation commands: their names, and the rules each command's
//! input must meet before anything is written, the AI month report among them.
use vstd::prelude::*;
use vstd::string::*;
use vstd::utf8::encode_utf8;

use crate::calendar::{date_before, date_lt, CivilDate};
use crate::error::{invalid, version_conflict, Error};
use crate::expense::{
    bounded_text_ok, crypto_probe_ok, currency_ok, label_ok, lower_sha256_ok, override_ok,
    review_resolution_ok, validate_amount_minor, validate_bounded_text, validate_crypto_probe,
    validate_currency, validate_expense_source_status_update,
    validate_expense_transaction_override, validate_label, validate_review_resolution,
    validate_sha256, MAX_SAFE_AMOUNT_MINOR,
};
use crate::expense_types::{
    ExpenseEventKind, ConfirmRecurringPaidInput, CreateRecurringExpenseInput, EncryptedExpenseText,
    ExpenseCategory, ExpenseCryptoProbe, ExpenseImportPreviewInput, ExpenseReportFact,
    ExpenseReportObservation, MatchRecurringExpenseInput, NormalizedExpenseImport,
    OverrideExpenseTransactionInput, RecurringAmountKind, RecurringDueRule,
    RecurringExpenseStatus, ResolveExpenseReviewInput, SaveExpenseReportInput,
    UpdateExpenseSourceStatusInput,
};
use crate::import::{
    normalized_import_ok, preview_input_ok, validate_expense_preview_input,
    validate_normalized_import,
};
use crate::recurring::{
    occurrence_key_parts, parse_occurrence_key, parsed_month_start, recurring_fields_ok,
    validate_month_start, validate_recurring_fields,
};
use crate::text::same_text;

verus! {

// ---------------------------------------------------------------------------------------
// The AI month report
// ---------------------------------------------------------------------------------------

/// The size of an amount, whichever its sign.
pub open spec fn amount_size(a: i64) -> int {
    if a < 0 {
        -(a as int)
    } else {
        a as int
    }
}

/// A fact the report states: named, with a metric, a currency and an amount that stays
/// exact in JSON.
pub open spec fn fact_ok(f: ExpenseReportFact) -> bool {
    &&& label_ok(f.fact_id@, 256)
    &&& label_ok(f.metric@, 256)
    &&& currency_ok(encode_utf8(f.currency@))
    &&& amount_size(f.amount_minor) <= MAX_SAFE_AMOUNT_MINOR
}

/// Whether a fact ID is among the report's facts.
pub open spec fn fact_known(facts: Seq<ExpenseReportFact>, id: Seq<char>) -> bool {
    exists|j: int| 0 <= j < facts.len() && (#[trigger] facts[j]).fact_id@ == id
}

/// An observation or alert: some text citing 1 to 20 of the report's facts.
pub open spec fn observation_ok(o: ExpenseReportObservation, facts: Seq<ExpenseReportFact>) -> bool {
    &&& bounded_text_ok(o.text@, 1, 2_000)
    &&& 1 <= o.fact_ids@.len() <= 20
    &&& forall|k: int|
        0 <= k < o.fact_ids@.len() ==> label_ok((#[trigger] o.fact_ids@[k])@, 256) && fact_known(
            facts,
            o.fact_ids@[k]@,
        )
}

/// Everything a saved month report must hold.
pub open spec fn report_ok(input: SaveExpenseReportInput) -> bool {
    let facts = input.facts@;
    &&& input.month_start.day == 1
    &&& lower_sha256_ok(encode_utf8(input.aggregate_sha256@))
    &&& label_ok(input.prompt_version@, 128)
    &&& label_ok(input.model@, 128)
    &&& bounded_text_ok(input.title@, 1, 500)
    &&& bounded_text_ok(input.summary@, 1, 4_000)
    &&& facts.len() <= 500
    &&& forall|i: int| 0 <= i < facts.len() ==> fact_ok(#[trigger] facts[i])
    &&& forall|i: int, j: int|
        0 <= i < j < facts.len() ==> (#[trigger] facts[i]).fact_id@ != (#[trigger] facts[j]).fact_id@
    &&& input.observations@.len() <= 20
    &&& input.alerts@.len() <= 20
    &&& input.next_month_checks@.len() <= 20
    &&& forall|i: int| 0 <= i < input.observations@.len() ==> observation_ok(#[trigger] input.observations@[i], facts)
    &&& forall|i: int| 0 <= i < input.alerts@.len() ==> observation_ok(#[trigger] input.alerts@[i], facts)
    &&& forall|i: int|
        0 <= i < input.next_month_checks@.len() ==> bounded_text_ok((#[trigger] input.next_month_checks@[i])@, 1, 2_000)
    &&& input.cost_microusd <= 50_000
    &&& input.cached_input_tokens <= input.input_tokens
    &&& input.input_tokens + input.output_tokens <= u64::MAX
    &&& input.total_tokens == input.input_tokens + input.output_tokens
    &&& input.input_tokens <= i64::MAX && input.cached_input_tokens <= i64::MAX
    &&& input.output_tokens <= i64::MAX && input.total_tokens <= i64::MAX
    &&& input.cost_microusd <= i64::MAX && input.latency_ms <= i64::MAX
}

/// Checks the facts of a report: each well formed, no ID twice.
fn validate_facts(facts: &Vec<ExpenseReportFact>) -> (r: Result<(), Error>)
    ensures
        r is Ok <==> (forall|i: int| 0 <= i < facts@.len() ==> fact_ok(#[trigger] facts@[i]))
            && (forall|i: int, j: int|
            0 <= i < j < facts@.len() ==> (#[trigger] facts@[i]).fact_id@ != (#[trigger] facts@[j]).fact_id@),
        r is Err ==> r->Err_0 is Invalid,
{
    let mut i: usize = 0;
    while i < facts.len()
        invariant
            0 <= i <= facts@.len(),
            forall|k: int| 0 <= k < i ==> fact_ok(#[trigger] facts@[k]),
            forall|a: int, b: int|
                0 <= a < b < i ==> (#[trigger] facts@[a]).fact_id@ != (#[trigger] facts@[b]).fact_id@,
        decreases facts@.len() - i,
    {
        let fact = &facts[i];
        validate_label("expense report fact ID", fact.fact_id.as_str(), 256)?;
        validate_label("expense report fact metric", fact.metric.as_str(), 256)?;
        validate_currency(fact.currency.as_str())?;
        if fact.amount_minor < -MAX_SAFE_AMOUNT_MINOR || fact.amount_minor > MAX_SAFE_AMOUNT_MINOR {
            return Err(invalid("expense report fact amount must be within +/-9007199254740991"));
        }
        let mut k: usize = 0;
        while k < i
            invariant
                0 <= k <= i < facts@.len(),
                fact == &facts@[i as int],
                forall|m: int| 0 <= m < k ==> (#[trigger] facts@[m]).fact_id@ != facts@[i as int].fact_id@,
            decreases i - k,
        {
            if same_text(&facts[k].fact_id, &fact.fact_id) {
                proof {
                    assert(facts@[k as int].fact_id@ == facts@[i as int].fact_id@);
                }
                return Err(invalid("expense report repeats a fact ID"));
            }
            k = k + 1;
        }
        i = i + 1;
    }
    Ok(())
}

/// Whether a fact ID is among the facts.
fn knows_fact(facts: &Vec<ExpenseReportFact>, id: &String) -> (r: bool)
    ensures
        r == fact_known(facts@, id@),
{
    let mut j: usize = 0;
    while j < facts.len()
        invariant
            0 <= j <= facts@.len(),
            forall|m: int| 0 <= m < j ==> (#[trigger] facts@[m]).fact_id@ != id@,
        decreases facts@.len() - j,
    {
        if same_text(&facts[j].fact_id, id) {
            return true;
        }
        j = j + 1;
    }
    false
}

/// Checks a list of observations (or alerts) against the facts.
fn validate_observations(list: &Vec<ExpenseReportObservation>, facts: &Vec<ExpenseReportFact>) -> (r: Result<(), Error>)
    ensures
        r is Ok <==> forall|i: int| 0 <= i < list@.len() ==> observation_ok(#[trigger] list@[i], facts@),
        r is Err ==> r->Err_0 is Invalid,
{
    let mut i: usize = 0;
    while i < list.len()
        invariant
            0 <= i <= list@.len(),
            forall|k: int| 0 <= k < i ==> observation_ok(#[trigger] list@[k], facts@),
        decreases list@.len() - i,
    {
        let item = &list[i];
        validate_bounded_text("expense report observation", item.text.as_str(), 1, 2_000)?;
        if item.fact_ids.len() == 0 || item.fact_ids.len() > 20 {
            return Err(invalid("expense report observations must cite between 1 and 20 fact IDs"));
        }
        let mut k: usize = 0;
        while k < item.fact_ids.len()
            invariant
                0 <= k <= item.fact_ids@.len(),
                i < list@.len(),
                item == &list@[i as int],
                forall|m: int|
                    0 <= m < k ==> label_ok((#[trigger] item.fact_ids@[m])@, 256) && fact_known(
                        facts@,
                        item.fact_ids@[m]@,
                    ),
            decreases item.fact_ids@.len() - k,
        {
            let id = &item.fact_ids[k];
            match validate_label("expense report fact ID", id.as_str(), 256) {
                Ok(()) => {},
                Err(e) => {
                    proof {
                        assert(!label_ok(item.fact_ids@[k as int]@, 256));
                        assert(!observation_ok(list@[i as int], facts@));
                    }
                    return Err(e);
                },
            }
            if !knows_fact(facts, id) {
                proof {
                    assert(!fact_known(facts@, item.fact_ids@[k as int]@));
                    assert(!observation_ok(list@[i as int], facts@));
                }
                return Err(invalid("expense report observation cites an unknown fact ID"));
            }
            k = k + 1;
        }
        i = i + 1;
    }
    Ok(())
}

/// Checks a month report before it is saved.
pub fn validate_save_expense_report(input: &SaveExpenseReportInput) -> (r: Result<(), Error>)
    ensures
        r is Ok <==> report_ok(*input),
        r is Err ==> r->Err_0 is Invalid,
{
    validate_month_start(input.month_start)?;
    validate_sha256("expense aggregate SHA-256", input.aggregate_sha256.as_str())?;
    validate_label("expense report prompt version", input.prompt_version.as_str(), 128)?;
    validate_label("expense report model", input.model.as_str(), 128)?;
    validate_bounded_text("expense report title", input.title.as_str(), 1, 500)?;
    validate_bounded_text("expense report summary", input.summary.as_str(), 1, 4_000)?;
    if input.facts.len() > 500 {
        return Err(invalid("expense report cannot contain more than 500 facts"));
    }
    validate_facts(&input.facts)?;
    if input.observations.len() > 20 || input.alerts.len() > 20 || input.next_month_checks.len() > 20 {
        return Err(invalid("expense report sections cannot contain more than 20 entries"));
    }
    validate_observations(&input.observations, &input.facts)?;
    validate_observations(&input.alerts, &input.facts)?;
    let mut i: usize = 0;
    while i < input.next_month_checks.len()
        invariant
            0 <= i <= input.next_month_checks@.len(),
            forall|k: int|
                0 <= k < i ==> bounded_text_ok((#[trigger] input.next_month_checks@[k])@, 1, 2_000),
        decreases input.next_month_checks@.len() - i,
    {
        validate_bounded_text(
            "expense report next-month check",
            input.next_month_checks[i].as_str(),
            1,
            2_000,
        )?;
        i = i + 1;
    }
    if input.cost_microusd > 50_000 {
        return Err(invalid("expense AI report cost cannot exceed the $0.05 per-request reservation"));
    }
    if input.cached_input_tokens > input.input_tokens {
        return Err(invalid("expense report cached input tokens cannot exceed input tokens"));
    }
    let expected_total = match input.input_tokens.checked_add(input.output_tokens) {
        Some(t) => t,
        None => {
            return Err(invalid("expense report token totals overflowed"));
        },
    };
    if input.total_tokens != expected_total {
        return Err(invalid("expense report total tokens must equal input plus output tokens"));
    }
    let limit: u64 = 0x7fff_ffff_ffff_ffff;
    if input.input_tokens > limit || input.cached_input_tokens > limit || input.output_tokens > limit
        || input.total_tokens > limit || input.cost_microusd > limit || input.latency_ms > limit {
        return Err(invalid("expense report usage values must fit a signed 64-bit integer"));
    }
    Ok(())
}

// ---------------------------------------------------------------------------------------
// Recurring expenses
// ---------------------------------------------------------------------------------------

/// A new version of a recurring expense, taking effect from a month.
#[derive(Debug, Clone, PartialEq, Eq)]
pub struct UpdateRecurringExpenseInput {
    pub expected_version: u64,
    pub effective_from_month: CivilDate,
    pub name: EncryptedExpenseText,
    pub category: ExpenseCategory,
    pub vendor: Option<EncryptedExpenseText>,
    pub amount_minor: i64,
    pub currency: String,
    pub payment_method_fingerprint: Option<String>,
    pub start_date: CivilDate,
    pub end_date: Option<CivilDate>,
    pub memo: Option<EncryptedExpenseText>,
    pub reminder_days: u8,
    pub amount_kind: RecurringAmountKind,
    pub interval_months: u8,
    pub due_rule: RecurringDueRule,
    pub due_day: Option<u8>,
    pub status: RecurringExpenseStatus,
    /// Existing consent may be revoked here; enabling still requires a confirmed manual
    /// match.
    pub auto_match_enabled: bool,
}

/// The rules a new recurring expense meets.
pub open spec fn recurring_create_ok(input: CreateRecurringExpenseInput) -> bool {
    &&& label_ok(input.id@, 128)
    &&& recurring_fields_ok(
        input.id@,
        input.name,
        input.category,
        input.vendor,
        input.amount_minor,
        input.currency@,
        input.payment_method_fingerprint,
        input.start_date,
        input.end_date,
        input.memo,
        input.reminder_days,
        input.interval_months,
        input.due_rule,
        input.due_day,
    )
}

/// Checks a new recurring expense.
pub fn validate_recurring_create(input: &CreateRecurringExpenseInput) -> (r: Result<(), Error>)
    ensures
        r is Ok <==> recurring_create_ok(*input),
        r is Err ==> r->Err_0 is Invalid,
{
    validate_label("recurring expense ID", input.id.as_str(), 128)?;
    validate_recurring_fields(
        input.id.as_str(),
        &input.name,
        input.category,
        input.vendor.as_ref(),
        input.amount_minor,
        input.currency.as_str(),
        input.payment_method_fingerprint.as_ref(),
        input.start_date,
        input.end_date,
        input.memo.as_ref(),
        input.reminder_days,
        input.interval_months,
        input.due_rule,
        input.due_day,
    )
}

/// The rules an update of a recurring expense meets, in a month whose first day is
/// `current_month`: it names a version, starts on a first day that is not in the past,
/// and its fields meet the rules of a new one.
pub open spec fn recurring_update_ok(
    id: Seq<char>,
    input: UpdateRecurringExpenseInput,
    current_month: CivilDate,
) -> bool {
    &&& label_ok(id, 128)
    &&& input.expected_version != 0
    &&& input.effective_from_month.day == 1
    &&& !date_before(input.effective_from_month, current_month)
    &&& recurring_fields_ok(
        id,
        input.name,
        input.category,
        input.vendor,
        input.amount_minor,
        input.currency@,
        input.payment_method_fingerprint,
        input.start_date,
        input.end_date,
        input.memo,
        input.reminder_days,
        input.interval_months,
        input.due_rule,
        input.due_day,
    )
}

/// Checks an update of a recurring expense; `current_month` is the first day of the
/// month it is made in.
pub fn validate_recurring_update(
    recurring_expense_id: &str,
    input: &UpdateRecurringExpenseInput,
    current_month: CivilDate,
) -> (r: Result<(), Error>)
    ensures
        r is Ok <==> recurring_update_ok(recurring_expense_id@, *input, current_month),
        r is Err ==> r->Err_0 is Invalid,
{
    validate_label("recurring expense ID", recurring_expense_id, 128)?;
    if input.expected_version == 0 {
        return Err(invalid("recurring expense expected version must be positive"));
    }
    validate_month_start(input.effective_from_month)?;
    if date_lt(input.effective_from_month, current_month) {
        return Err(
            invalid("recurring expense changes can only take effect in the current or a future month"),
        );
    }
    validate_recurring_fields(
        recurring_expense_id,
        &input.name,
        input.category,
        input.vendor.as_ref(),
        input.amount_minor,
        input.currency.as_str(),
        input.payment_method_fingerprint.as_ref(),
        input.start_date,
        input.end_date,
        input.memo.as_ref(),
        input.reminder_days,
        input.interval_months,
        input.due_rule,
        input.due_day,
    )
}

// ---------------------------------------------------------------------------------------
// Commands
// ---------------------------------------------------------------------------------------

/// A change to the expense ledger.
#[derive(Debug, Clone, PartialEq, Eq)]
pub enum ExpenseMutationCommand {
    InitializeCryptoProbe(ExpenseCryptoProbe),
    PreviewImport(ExpenseImportPreviewInput),
    Import { preview_session_id: String, input: NormalizedExpenseImport },
    UpdateSource { source_id: String, input: UpdateExpenseSourceStatusInput },
    ResolveReview { review_id: String, input: ResolveExpenseReviewInput },
    OverrideTransaction { event_id: String, input: OverrideExpenseTransactionInput },
    CreateRecurring(CreateRecurringExpenseInput),
    UpdateRecurring { recurring_expense_id: String, input: UpdateRecurringExpenseInput },
    DeleteRecurring { recurring_expense_id: String, expected_version: u64 },
    ConfirmRecurringPaid { occurrence_key: String, input: ConfirmRecurringPaidInput },
    MatchRecurring { occurrence_key: String, input: MatchRecurringExpenseInput },
    SaveReport(SaveExpenseReportInput),
    RecordReportFeedback { report_id: String, helpful: bool },
}

/// Whether an occurrence key reads back into an ID and a month.
pub open spec fn occurrence_key_ok(key: Seq<char>) -> bool {
    occurrence_key_parts(key) matches Some(p) && parsed_month_start(p.1) is Some
}

impl ExpenseMutationCommand {
    /// The name under which a command is recorded and replayed.
    pub open spec fn operation_name(self) -> Seq<char> {
        match self {
            ExpenseMutationCommand::InitializeCryptoProbe(_) => "expense.crypto_probe.initialize"@,
            ExpenseMutationCommand::PreviewImport(_) => "expense.import.preview"@,
            ExpenseMutationCommand::Import { .. } => "expense.import"@,
            ExpenseMutationCommand::UpdateSource { .. } => "expense.source.update"@,
            ExpenseMutationCommand::ResolveReview { .. } => "expense.review.resolve"@,
            ExpenseMutationCommand::OverrideTransaction { .. } => "expense.transaction.override"@,
            ExpenseMutationCommand::CreateRecurring(_) => "expense.recurring.create"@,
            ExpenseMutationCommand::UpdateRecurring { .. } => "expense.recurring.update"@,
            ExpenseMutationCommand::DeleteRecurring { .. } => "expense.recurring.delete"@,
            ExpenseMutationCommand::ConfirmRecurringPaid { .. } => "expense.recurring.confirm_paid"@,
            ExpenseMutationCommand::MatchRecurring { .. } => "expense.recurring.match"@,
            ExpenseMutationCommand::SaveReport(_) => "expense.report.save"@,
            ExpenseMutationCommand::RecordReportFeedback { .. } => "expense.report.feedback"@,
        }
    }

    /// The name under which a command is recorded and replayed.
    pub fn operation(&self) -> (s: &'static str)
        ensures
            s@ == self.operation_name(),
    {
        match self {
            ExpenseMutationCommand::InitializeCryptoProbe(_) => "expense.crypto_probe.initialize",
            ExpenseMutationCommand::PreviewImport(_) => "expense.import.preview",
            ExpenseMutationCommand::Import { .. } => "expense.import",
            ExpenseMutationCommand::UpdateSource { .. } => "expense.source.update",
            ExpenseMutationCommand::ResolveReview { .. } => "expense.review.resolve",
            ExpenseMutationCommand::OverrideTransaction { .. } => "expense.transaction.override",
            ExpenseMutationCommand::CreateRecurring(_) => "expense.recurring.create",
            ExpenseMutationCommand::UpdateRecurring { .. } => "expense.recurring.update",
            ExpenseMutationCommand::DeleteRecurring { .. } => "expense.recurring.delete",
            ExpenseMutationCommand::ConfirmRecurringPaid { .. } => "expense.recurring.confirm_paid",
            ExpenseMutationCommand::MatchRecurring { .. } => "expense.recurring.match",
            ExpenseMutationCommand::SaveReport(_) => "expense.report.save",
            ExpenseMutationCommand::RecordReportFeedback { .. } => "expense.report.feedback",
        }
    }
}

/// The rules each command's input meets; `current_month` is the first day of the
/// month the command is made in.
pub open spec fn command_ok(command: ExpenseMutationCommand, current_month: CivilDate) -> bool {
    match command {
        ExpenseMutationCommand::InitializeCryptoProbe(probe) => crypto_probe_ok(probe),
        ExpenseMutationCommand::PreviewImport(input) => preview_input_ok(input),
        ExpenseMutationCommand::Import { preview_session_id, input } => label_ok(
            preview_session_id@,
            128,
        ) && normalized_import_ok(input),
        ExpenseMutationCommand::UpdateSource { source_id, input } => label_ok(source_id@, 128)
            && input.expected_version != 0,
        ExpenseMutationCommand::ResolveReview { review_id, input } => label_ok(review_id@, 128)
            && input.expected_version != 0 && review_resolution_ok(
            input.kind,
            input.category,
            input.duplicate_of_event_id,
            input.related_event_id,
        ),
        ExpenseMutationCommand::OverrideTransaction { event_id, input } => override_ok(event_id@, input),
        ExpenseMutationCommand::CreateRecurring(input) => recurring_create_ok(input),
        ExpenseMutationCommand::UpdateRecurring { recurring_expense_id, input } => recurring_update_ok(
            recurring_expense_id@,
            input,
            current_month,
        ),
        ExpenseMutationCommand::DeleteRecurring { recurring_expense_id, expected_version } => label_ok(
            recurring_expense_id@,
            128,
        ) && expected_version != 0,
        ExpenseMutationCommand::ConfirmRecurringPaid { occurrence_key, input } => occurrence_key_ok(
            occurrence_key@,
        ) && input.expected_version != 0 && (input.amount_minor matches Some(a) ==> 0 < a
            <= MAX_SAFE_AMOUNT_MINOR),
        ExpenseMutationCommand::MatchRecurring { occurrence_key, input } => occurrence_key_ok(
            occurrence_key@,
        ) && input.expected_version != 0 && label_ok(input.event_id@, 128),
        ExpenseMutationCommand::SaveReport(input) => report_ok(input),
        ExpenseMutationCommand::RecordReportFeedback { report_id, .. } => label_ok(report_id@, 128),
    }
}

/// Checks a command's input before it runs; `current_month` is the first day of the
/// month it is made in.
pub fn validate_expense_mutation_command(command: &ExpenseMutationCommand, current_month: CivilDate) -> (r: Result<
    (),
    Error,
>)
    ensures
        r is Ok <==> command_ok(*command, current_month),
        r is Err ==> r->Err_0 is Invalid,
{
    match command {
        ExpenseMutationCommand::InitializeCryptoProbe(probe) => validate_crypto_probe(probe),
        ExpenseMutationCommand::PreviewImport(input) => validate_expense_preview_input(input),
        ExpenseMutationCommand::Import { preview_session_id, input } => {
            validate_label("expense import preview session ID", preview_session_id.as_str(), 128)?;
            validate_normalized_import(input)
        },
        ExpenseMutationCommand::UpdateSource { source_id, input } => {
            validate_expense_source_status_update(source_id.as_str(), input)
        },
        ExpenseMutationCommand::ResolveReview { review_id, input } => {
            validate_label("expense review ID", review_id.as_str(), 128)?;
            if input.expected_version == 0 {
                return Err(invalid("expense review expected version must be positive"));
            }
            validate_review_resolution(input)
        },
        ExpenseMutationCommand::OverrideTransaction { event_id, input } => {
            validate_expense_transaction_override(event_id.as_str(), input)
        },
        ExpenseMutationCommand::CreateRecurring(input) => validate_recurring_create(input),
        ExpenseMutationCommand::UpdateRecurring { recurring_expense_id, input } => {
            validate_label("recurring expense ID", recurring_expense_id.as_str(), 128)?;
            validate_recurring_update(recurring_expense_id.as_str(), input, current_month)
        },
        ExpenseMutationCommand::DeleteRecurring { recurring_expense_id, expected_version } => {
            validate_label("recurring expense ID", recurring_expense_id.as_str(), 128)?;
            if *expected_version == 0 {
                return Err(invalid("recurring expense expected version must be positive"));
            }
            Ok(())
        },
        ExpenseMutationCommand::ConfirmRecurringPaid { occurrence_key, input } => {
            parse_occurrence_key(occurrence_key.as_str())?;
            if input.expected_version == 0 {
                return Err(invalid("recurring occurrence expected item version must be positive"));
            }
            if let Some(amount_minor) = input.amount_minor {
                validate_amount_minor("recurring paid amountMinor", amount_minor)?;
            }
            Ok(())
        },
        ExpenseMutationCommand::MatchRecurring { occurrence_key, input } => {
            parse_occurrence_key(occurrence_key.as_str())?;
            if input.expected_version == 0 {
                return Err(invalid("recurring occurrence expected item version must be positive"));
            }
            validate_label("expense event ID", input.event_id.as_str(), 128)
        },
        ExpenseMutationCommand::SaveReport(input) => validate_save_expense_report(input),
        ExpenseMutationCommand::RecordReportFeedback { report_id, .. } => {
            validate_label("expense report ID", report_id.as_str(), 128)
        },
    }
}

/// What an accepted update of a recurring expense does.
#[derive(Debug, Clone, Copy, PartialEq, Eq, Structural)]
pub struct RecurringUpdatePlan {
    /// The item's version after the update.
    pub next_version: u64,
    /// The update takes effect this month, so the item itself is rewritten now; later
    /// months only get a new version on record.
    pub rewrite_now: bool,
    /// Automatic matching is switched off and its rules removed.
    pub revoke_auto_match: bool,
}

/// Decides an update of a recurring expense against the stored item: the versions must
/// agree, automatic matching cannot be switched on here, and the version must not
/// overflow. `current_month` is the first day of the month the update is made in.
pub fn plan_recurring_update(
    recurring_expense_id: &str,
    current_version: u64,
    current_auto_match: bool,
    input: &UpdateRecurringExpenseInput,
    current_month: CivilDate,
) -> (r: Result<RecurringUpdatePlan, Error>)
    ensures
        current_version != input.expected_version ==> (r matches Err(e) && e is Conflict),
        current_version == input.expected_version && input.auto_match_enabled && !current_auto_match
            ==> (r matches Err(e) && e is Invalid),
        current_version == input.expected_version && !(input.auto_match_enabled && !current_auto_match)
            && current_version == u64::MAX ==> (r matches Err(e) && e is Invariant),
        r matches Ok(p) ==> current_version == input.expected_version && !(input.auto_match_enabled
            && !current_auto_match) && p.next_version == current_version + 1 && p.rewrite_now == (
        input.effective_from_month == current_month) && p.revoke_auto_match == !input.auto_match_enabled,
        (current_version == input.expected_version && !(input.auto_match_enabled && !current_auto_match)
            && current_version < u64::MAX) ==> r is Ok,
{
    if current_version != input.expected_version {
        return Err(version_conflict("recurring expense", recurring_expense_id, input.expected_version, current_version));
    }
    if input.auto_match_enabled && !current_auto_match {
        return Err(invalid("recurring auto-match can only be enabled by confirming a matched transaction"));
    }
    if current_version == u64::MAX {
        return Err(Error::Invariant("recurring expense version overflowed".to_owned()));
    }
    Ok(RecurringUpdatePlan {
        next_version: current_version + 1,
        rewrite_now: input.effective_from_month == current_month,
        revoke_auto_match: !input.auto_match_enabled,
    })
}

/// Whether one of the allocation kinds is the given one.
pub open spec fn has_kind(kinds: Seq<String>, kind: Seq<char>) -> bool {
    exists|i: int| 0 <= i < kinds.len() && (#[trigger] kinds[i])@ == kind
}

fn contains_kind(kinds: &Vec<String>, kind: &str) -> (r: bool)
    ensures
        r == has_kind(kinds@, kind@),
{
    let mut i: usize = 0;
    while i < kinds.len()
        invariant
            0 <= i <= kinds@.len(),
            forall|k: int| 0 <= k < i ==> (#[trigger] kinds@[k])@ != kind@,
        decreases kinds@.len() - i,
    {
        if crate::text::str_eq(kinds[i].as_str(), kind) {
            return true;
        }
        i = i + 1;
    }
    false
}

/// An override keeps the event's current allocations when it names no new split, link
/// or duplicate and clears nothing.
pub open spec fn keeps_allocations(input: OverrideExpenseTransactionInput) -> bool {
    input.personal_amount_minor is None && input.related_event_id is None
        && input.duplicate_of_event_id is None && !input.clear_personal_amount
        && !input.clear_related_event
}

/// The rules an override meets against the stored event, its allocations and the
/// settlements that point at it.
pub open spec fn override_allowed(
    has_primary_posting: bool,
    kinds: Seq<String>,
    has_incoming_settlements: bool,
    input: OverrideExpenseTransactionInput,
) -> bool {
    let personal = has_kind(kinds, "personal"@);
    let settlement = has_kind(kinds, "settlement_received"@) || has_kind(kinds, "settlement_sent"@);
    &&& has_primary_posting
    &&& !(input.clear_personal_amount && settlement)
    &&& !(input.clear_related_event && personal)
    &&& (keeps_allocations(input) ==> !(personal && !(input.kind is Purchase)))
    &&& (keeps_allocations(input) ==> !(has_kind(kinds, "settlement_received"@) && !(input.kind is SettlementReceived)))
    &&& (keeps_allocations(input) ==> !(has_kind(kinds, "settlement_sent"@) && !(input.kind is SettlementSent)))
    &&& !(input.clear_personal_amount && has_incoming_settlements)
    &&& !(has_incoming_settlements && !(input.kind is Purchase || input.kind is Refund))
}

/// The review a manual override opens (at version 1) and resolves at once: the event
/// takes the override's kind and category, duplicate, link and split.
pub open spec fn override_review(input: OverrideExpenseTransactionInput) -> ResolveExpenseReviewInput {
    ResolveExpenseReviewInput {
        expected_version: 1,
        kind: input.kind,
        category: input.category,
        duplicate_of_event_id: input.duplicate_of_event_id,
        related_event_id: input.related_event_id,
        personal_amount_minor: input.personal_amount_minor,
        create_rule: input.create_rule,
    }
}

/// Decides a manual override against the stored event: the version must agree, a
/// manual recurring event (no primary posting) cannot be overridden here, and a split or
/// settlement link is never removed implicitly. Gives back whether the current
/// allocations are kept, and the review resolution that applies the override.
pub fn check_override(
    event_id: &str,
    current_version: u64,
    has_primary_posting: bool,
    allocation_kinds: &Vec<String>,
    has_incoming_settlements: bool,
    input: &OverrideExpenseTransactionInput,
) -> (r: Result<(bool, ResolveExpenseReviewInput), Error>)
    ensures
        current_version != input.expected_version ==> (r matches Err(e) && e is Conflict),
        current_version == input.expected_version ==> (r is Ok <==> override_allowed(
            has_primary_posting,
            allocation_kinds@,
            has_incoming_settlements,
            *input,
        )),
        current_version == input.expected_version ==> (r matches Err(e) ==> e is Invalid),
        r matches Ok((keep, review)) ==> keep == keeps_allocations(*input) && review == override_review(*input),
{
    if current_version != input.expected_version {
        return Err(version_conflict("expense event", event_id, input.expected_version, current_version));
    }
    if !has_primary_posting {
        return Err(invalid("manual recurring events can only be changed through their recurring occurrence"));
    }
    let personal = contains_kind(allocation_kinds, "personal");
    let received = contains_kind(allocation_kinds, "settlement_received");
    let sent = contains_kind(allocation_kinds, "settlement_sent");
    if input.clear_personal_amount && (received || sent) {
        return Err(invalid("clearing a personal split cannot implicitly remove a settlement link"));
    }
    if input.clear_related_event && personal {
        return Err(invalid("clearing a settlement link cannot implicitly remove a personal split"));
    }
    let keep = input.personal_amount_minor.is_none() && input.related_event_id.is_none()
        && input.duplicate_of_event_id.is_none() && !input.clear_personal_amount
        && !input.clear_related_event;
    if keep {
        if personal && input.kind != ExpenseEventKind::Purchase {
            return Err(invalid("changing a split purchase requires clearPersonalAmount=true"));
        }
        if (received && input.kind != ExpenseEventKind::SettlementReceived) || (sent && input.kind
            != ExpenseEventKind::SettlementSent) {
            return Err(invalid("changing a linked settlement requires clearRelatedEvent=true"));
        }
    }
    if input.clear_personal_amount && has_incoming_settlements {
        return Err(invalid("linked settlements must be cleared before clearing their purchase split"));
    }
    if has_incoming_settlements && !(input.kind == ExpenseEventKind::Purchase || input.kind
        == ExpenseEventKind::Refund) {
        return Err(
            invalid("linked settlements must be cleared before changing their purchase or refund target"),
        );
    }
    let review = ResolveExpenseReviewInput {
        expected_version: 1,
        kind: input.kind,
        category: input.category,
        duplicate_of_event_id: match &input.duplicate_of_event_id {
            Some(id) => Some(id.clone()),
            None => None,
        },
        related_event_id: match &input.related_event_id {
            Some(id) => Some(id.clone()),
            None => None,
        },
        personal_amount_minor: input.personal_amount_minor,
        create_rule: input.create_rule,
    };
    Ok((keep, review))
}

} // verus!
