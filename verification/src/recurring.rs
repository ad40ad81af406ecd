use vstd::prelude::*;
use vstd::string::*;

use crate::calendar::{
    add_days, date_before, date_le, date_lt, date_not_after, days_after, days_in_month,
    first_of_month, first_of_next_month, from_ymd, day_count_between, days_between, last_of_month, month_label, month_text, pred,
    previous_day, representable, CivilDate, MAX_YEAR, MIN_YEAR,
};
use crate::error::{broken, conflict, invalid, outcome, version_conflict, Error, ErrorKind};
use crate::expense::{
    currency_ok, encrypted_text_ok, expense_text_aad, lower_sha256_ok, text_aad,
    validate_amount_minor, validate_currency, validate_encrypted_text, validate_sha256,
    MAX_SAFE_AMOUNT_MINOR,
};
use crate::expense_types::{
    EncryptedExpenseText, ExpenseCategory, ExpenseDirection, ExpenseEventKind, ExpenseEventStatus, RecurringAmountKind, RecurringDueRule,
    RecurringExpenseItem, RecurringExpenseStatus, RecurringOccurrenceStatus, ConfirmRecurringPaidInput,
};
use crate::text::{opt_view, same_optional_text, same_text, str_eq};
use vstd::utf8::encode_utf8;

verus! {

/// Truncating division by twenty, as `i64 / 20` computes it.
pub open spec fn div20_toward_zero(a: int) -> int {
    if a >= 0 {
        a / 20
    } else {
        -((-a) / 20)
    }
}

/// Whether a paid amount matches a recurring expense: exactly for a fixed amount,
/// within five percent (at least one minor unit) for an estimate, and at most the
/// amount for a limit.
pub open spec fn amount_matches(kind: RecurringAmountKind, amount: int, actual: int) -> bool {
    match kind {
        RecurringAmountKind::Fixed => actual == amount,
        RecurringAmountKind::Estimate => {
            let tolerance = if div20_toward_zero(amount) >= 1 {
                div20_toward_zero(amount)
            } else {
                1
            };
            (if actual >= amount { actual - amount } else { amount - actual }) <= tolerance
        },
        RecurringAmountKind::Limit => actual <= amount,
    }
}

/// Whether an actual payment matches the recurring expense's amount rule.
pub fn recurring_amount_matches(item: &RecurringExpenseItem, actual_amount_minor: i64) -> (r: bool)
    ensures
        r == amount_matches(item.amount_kind, item.amount_minor as int, actual_amount_minor as int),
{
    match item.amount_kind {
        RecurringAmountKind::Fixed => actual_amount_minor == item.amount_minor,
        RecurringAmountKind::Estimate => {
            let quotient: i64 = item.amount_minor / 20;
            let tolerance: i64 = if quotient >= 1 { quotient } else { 1 };
            let diff: u64 = if actual_amount_minor >= item.amount_minor {
                (actual_amount_minor as i128 - item.amount_minor as i128) as u64
            } else {
                (item.amount_minor as i128 - actual_amount_minor as i128) as u64
            };
            diff <= tolerance as u64
        },
        RecurringAmountKind::Limit => actual_amount_minor <= item.amount_minor,
    }
}

/// Checks that a month is given by its first day.
pub fn validate_month_start(value: CivilDate) -> (r: Result<(), Error>)
    ensures
        r is Ok <==> value.day == 1,
        r is Err ==> r->Err_0 is Invalid,
{
    if value.day != 1 {
        return Err(invalid("expense month must be the first day of a month"));
    }
    Ok(())
}

/// The first day of the month holding a date.
pub fn month_start(value: CivilDate) -> (r: Result<CivilDate, Error>)
    ensures
        r is Ok <==> representable(first_of_month(value)),
        r matches Ok(d) ==> d == first_of_month(value),
        r is Err ==> r->Err_0 is Invalid,
{
    match from_ymd(value.year, value.month, 1) {
        Some(d) => Ok(d),
        None => Err(invalid("expense date is outside the supported range")),
    }
}

/// The first day of the month after a month start.
pub fn next_month(value: CivilDate) -> (r: Result<CivilDate, Error>)
    requires
        representable(value),
    ensures
        r is Ok <==> value.day == 1 && representable(first_of_next_month(value)),
        r matches Ok(d) ==> d == first_of_next_month(value),
        r is Err ==> r->Err_0 is Invalid,
{
    validate_month_start(value)?;
    let next = if value.month == 12 {
        from_ymd(value.year + 1, 1, 1)
    } else {
        from_ymd(value.year, value.month + 1, 1)
    };
    match next {
        Some(d) => Ok(d),
        None => Err(invalid("expense month is outside the supported range")),
    }
}

/// The last day of a month, through chrono: the day before the next month begins.
pub fn last_day_of_month(year: i32, month: u32) -> (r: Result<CivilDate, Error>)
    ensures
        r is Ok <==> 1 <= month <= 12 && MIN_YEAR <= year <= MAX_YEAR && !(year == MAX_YEAR
            && month == 12),
        r matches Ok(d) ==> d == last_of_month(year as int, month as int) && representable(d),
        r is Err ==> r->Err_0 is Invalid,
{
    let first = match from_ymd(year, month, 1) {
        Some(d) => d,
        None => return Err(invalid("expense month is invalid")),
    };
    let after = next_month(first)?;
    match pred(after) {
        Some(d) => {
            assert(d == previous_day(first_of_next_month(first)));
            Ok(d)
        },
        None => Err(invalid("expense month is outside the supported range")),
    }
}

/// The month a recurring expense falls due in `requested_month`: the first day, the
/// last day, or a fixed day moved back to the month's last day when the month is shorter.
pub open spec fn due_day_in(rule: RecurringDueRule, due_day: Option<u8>, year: int, month: int) -> int {
    match rule {
        RecurringDueRule::FirstDay => 1,
        RecurringDueRule::LastDay => days_in_month(year, month),
        RecurringDueRule::SpecificDay => {
            let d = due_day->0 as int;
            if d <= days_in_month(year, month) { d } else { days_in_month(year, month) }
        },
    }
}

/// The due date of a recurring expense in a month.
pub fn recurring_due_date(item: &RecurringExpenseItem, requested_month: CivilDate) -> (r: Result<
    CivilDate,
    Error,
>)
    ensures
        r matches Ok(d) ==> d == (CivilDate {
            year: requested_month.year,
            month: requested_month.month,
            day: due_day_in(
                item.due_rule,
                item.due_day,
                requested_month.year as int,
                requested_month.month as int,
            ) as u32,
        }) && representable(d),
        r is Ok <==> (1 <= requested_month.month <= 12 && MIN_YEAR <= requested_month.year <= MAX_YEAR
            && !(requested_month.year == MAX_YEAR && requested_month.month == 12) && !(
        item.due_rule is SpecificDay && (item.due_day is None || item.due_day->0 == 0))),
        r is Err ==> r->Err_0 is Invalid,
{
    let last = last_day_of_month(requested_month.year, requested_month.month)?;
    let day: u32 = match item.due_rule {
        RecurringDueRule::FirstDay => 1,
        RecurringDueRule::LastDay => last.day,
        RecurringDueRule::SpecificDay => match item.due_day {
            Some(d) => if (d as u32) <= last.day { d as u32 } else { last.day },
            None => return Err(invalid("specific recurring due day is missing")),
        },
    };
    match from_ymd(requested_month.year, requested_month.month, day) {
        Some(d) => Ok(d),
        None => Err(invalid("recurring expense due date is outside the supported range")),
    }
}

/// How an unpaid occurrence stands on `today`: overdue, due today, due within the
/// reminder window, or merely scheduled.
pub open spec fn occurrence_status_on(due: CivilDate, today: CivilDate, reminder_days: nat) -> RecurringOccurrenceStatus {
    if date_before(due, today) {
        RecurringOccurrenceStatus::Overdue
    } else if due == today {
        RecurringOccurrenceStatus::DueToday
    } else if date_not_after(due, days_after(today, reminder_days)) {
        RecurringOccurrenceStatus::DueSoon
    } else {
        RecurringOccurrenceStatus::Scheduled
    }
}

/// The status of an unpaid occurrence due on `due_date`, as seen on `today`.
pub fn calculated_occurrence_status_on(due_date: CivilDate, today: CivilDate, reminder_days: u8) -> (s: RecurringOccurrenceStatus)
    requires
        representable(today),
        forall|k: nat| k <= reminder_days ==> representable(#[trigger] days_after(today, k)),
    ensures
        s == occurrence_status_on(due_date, today, reminder_days as nat),
{
    if date_lt(due_date, today) {
        RecurringOccurrenceStatus::Overdue
    } else if due_date == today {
        RecurringOccurrenceStatus::DueToday
    } else {
        let window_end = match add_days(today, reminder_days as u32) {
            Some(d) => d,
            None => {
                assert(false);
                today
            },
        };
        if date_le(due_date, window_end) {
            RecurringOccurrenceStatus::DueSoon
        } else {
            RecurringOccurrenceStatus::Scheduled
        }
    }
}

/// `x` clamped to the `i32` range, as the saturating operations of `i32` give it.
pub open spec fn saturate_i32(x: int) -> int {
    if x > i32::MAX {
        i32::MAX as int
    } else if x < i32::MIN {
        i32::MIN as int
    } else {
        x
    }
}

/// `a` clamped to `i32`.
fn clamp_i32(a: i64) -> (r: i32)
    ensures
        r == saturate_i32(a as int),
{
    if a > i32::MAX as i64 {
        i32::MAX
    } else if a < i32::MIN as i64 {
        i32::MIN
    } else {
        a as i32
    }
}

/// The number of months from `start`'s month to `end`'s, with each step saturating as
/// `i32` arithmetic does.
pub open spec fn months_between(start: CivilDate, end: CivilDate) -> int {
    saturate_i32(
        saturate_i32(saturate_i32(end.year - start.year) * 12) + saturate_i32(
            end.month - start.month,
        ),
    )
}

/// The number of months from `start`'s month to `end`'s.
pub fn month_difference(start: CivilDate, end: CivilDate) -> (r: Result<i32, Error>)
    requires
        representable(start),
        representable(end),
    ensures
        r matches Ok(d) && d == months_between(start, end),
        r is Ok,
{
    let years = clamp_i32(end.year as i64 - start.year as i64);
    let scaled = clamp_i32(years as i64 * 12);
    let months = clamp_i32(end.month as i64 - start.month as i64);
    Ok(clamp_i32(scaled as i64 + months as i64))
}

/// The key of a recurring expense's occurrence in a month: `ID:YYYY-MM`.
pub open spec fn occurrence_key_text(id: Seq<char>, month: CivilDate) -> Seq<char> {
    id + ":"@ + month_text(month.year as int, month.month as int)
}

/// The key of a recurring expense's occurrence in a month.
pub fn recurring_occurrence_key(recurring_expense_id: &str, requested_month: CivilDate) -> (k: String)
    ensures
        k@ == occurrence_key_text(recurring_expense_id@, requested_month),
{
    let label = month_label(requested_month.year, requested_month.month);
    recurring_expense_id.to_owned().concat(":").concat(label.as_str())
}

/// The date `chrono::NaiveDate::parse_from_str` reads from a text under the format
/// `%Y-%m-%d`, if it reads one.
pub uninterp spec fn parsed_iso_date(text: Seq<char>) -> Option<CivilDate>;

/// `NaiveDate::parse_from_str(text, "%Y-%m-%d")`, read back as a civil date.
#[verifier::external_body]
fn parse_iso_date(text: &str) -> (r: Option<CivilDate>)
    ensures
        r == parsed_iso_date(text@),
{
    match chrono::NaiveDate::parse_from_str(text, "%Y-%m-%d") {
        Ok(d) => Some(CivilDate { year: chrono::Datelike::year(&d), month: chrono::Datelike::month(&d), day: chrono::Datelike::day(&d) }),
        Err(_) => None,
    }
}

/// The first day of a month written `YYYY-MM`, as chrono reads `YYYY-MM-01`.
pub open spec fn parsed_month_start(month: Seq<char>) -> Option<CivilDate> {
    parsed_iso_date(month + "-01"@)
}

/// Reads a month written `YYYY-MM` as its first day.
fn parse_month_start(month: &str) -> (r: Option<CivilDate>)
    ensures
        r == parsed_month_start(month@),
{
    let text = month.to_owned().concat("-01");
    parse_iso_date(text.as_str())
}

/// The position of the last `:` in a text, if any.
pub open spec fn last_colon(s: Seq<char>) -> Option<int> {
    if exists|i: int| 0 <= i < s.len() && s[i] == ':' {
        Some(choose|i: int| 0 <= i < s.len() && s[i] == ':' && forall|j: int| i < j < s.len() ==> s[j] != ':')
    } else {
        None
    }
}

/// Splits an occurrence key at its last `:` into a recurring expense ID and a month
/// written in seven bytes.
pub open spec fn occurrence_key_parts(s: Seq<char>) -> Option<(Seq<char>, Seq<char>)> {
    match last_colon(s) {
        None => None,
        Some(i) => {
            let id = s.subrange(0, i);
            let month = s.subrange(i + 1, s.len() as int);
            if id.len() == 0 || encode_utf8(month).len() != 7 {
                None
            } else {
                Some((id, month))
            }
        },
    }
}

/// Reads an occurrence key back into its recurring expense ID and month.
pub fn parse_occurrence_key(value: &str) -> (r: Result<(String, CivilDate), Error>)
    ensures
        r is Ok <==> (occurrence_key_parts(value@) matches Some(p) && parsed_month_start(p.1) is Some),
        r matches Ok((id, month)) ==> occurrence_key_parts(value@) matches Some(p) && id@ == p.0
            && parsed_month_start(p.1) == Some(month),
        r matches Err(e) ==> e is Invalid,
{
    let chars = crate::text::chars_of(value);
    let mut i: usize = chars.len();
    while i > 0 && chars[i - 1] != ':'
        invariant
            0 <= i <= chars@.len(),
            chars@ == value@,
            forall|j: int| i <= j < chars@.len() ==> chars@[j] != ':',
        decreases i,
    {
        i = i - 1;
    }
    if i == 0 {
        proof {
            assert(!exists|k: int| 0 <= k < value@.len() && value@[k] == ':');
        }
        return Err(invalid("recurring occurrence key is invalid"));
    }
    let colon = i - 1;
    assert(last_colon(value@) == Some(colon as int)) by {
        assert(value@[colon as int] == ':');
        let k = choose|k: int|
            0 <= k < value@.len() && value@[k] == ':' && forall|j: int| k < j < value@.len() ==> value@[j] != ':';
        if k < colon {
        } else if k > colon {
        }
    }
    let id = crate::text::string_of(&chars.as_slice()[0..colon]);
    let month = crate::text::string_of(&chars.as_slice()[colon + 1..chars.len()]);
    assert(id@ == value@.subrange(0, colon as int));
    assert(month@ == value@.subrange(colon + 1, value@.len() as int));
    if id.as_str().unicode_len() == 0 || month.as_str().as_bytes().len() != 7 {
        return Err(invalid("recurring occurrence key is invalid"));
    }
    match parse_month_start(month.as_str()) {
        Some(d) => Ok((id, d)),
        None => Err(invalid("recurring occurrence month is invalid")),
    }
}

/// The recurring-expense fields, as the rules read them.
pub open spec fn recurring_fields_ok(
    id: Seq<char>,
    name: EncryptedExpenseText,
    category: ExpenseCategory,
    vendor: Option<EncryptedExpenseText>,
    amount_minor: i64,
    currency: Seq<char>,
    payment_method_fingerprint: Option<String>,
    start_date: CivilDate,
    end_date: Option<CivilDate>,
    memo: Option<EncryptedExpenseText>,
    reminder_days: u8,
    interval_months: u8,
    due_rule: RecurringDueRule,
    due_day: Option<u8>,
) -> bool {
    let context = "recurring:"@ + id;
    &&& encrypted_text_ok(name) && name.aad@ == text_aad(context, "name"@)
    &&& (vendor matches Some(v) ==> encrypted_text_ok(v) && v.aad@ == text_aad(context, "vendor"@))
    &&& (memo matches Some(v) ==> encrypted_text_ok(v) && v.aad@ == text_aad(context, "memo"@))
    &&& category != ExpenseCategory::Unconfirmed
    &&& 0 < amount_minor <= MAX_SAFE_AMOUNT_MINOR
    &&& currency_ok(encode_utf8(currency))
    &&& (payment_method_fingerprint matches Some(f) ==> lower_sha256_ok(encode_utf8(f@)))
    &&& !(end_date matches Some(e) && date_before(e, start_date))
    &&& reminder_days <= 90
    &&& (interval_months == 1 || interval_months == 2 || interval_months == 3 || interval_months
        == 6 || interval_months == 12)
    &&& (due_rule is SpecificDay ==> (due_day matches Some(d) && 1 <= d <= 31))
    &&& (!(due_rule is SpecificDay) ==> due_day is None)
}

/// Checks an encrypted recurring-expense field and its binding to the expense.
fn check_bound_text(name: &str, value: &EncryptedExpenseText, context: &str, field: &str) -> (r: Result<(), Error>)
    ensures
        r is Ok <==> encrypted_text_ok(*value) && value.aad@ == text_aad(context@, field@),
        r is Err ==> r->Err_0 is Invalid,
{
    validate_encrypted_text(name, value)?;
    let expected = expense_text_aad(context, field);
    if !same_text(&value.aad, &expected) {
        return Err(invalid("a recurring expense AAD must bind the recurring expense ID"));
    }
    Ok(())
}

/// Checks the fields of a recurring expense: encrypted texts bound to its ID, a real
/// category, a safe amount, a currency code, an end not before the start, at most 90
/// reminder days, an interval of 1, 2, 3, 6 or 12 months, and a due day exactly when
/// the rule is a specific day.
pub fn validate_recurring_fields(
    recurring_expense_id: &str,
    name: &EncryptedExpenseText,
    category: ExpenseCategory,
    vendor: Option<&EncryptedExpenseText>,
    amount_minor: i64,
    currency: &str,
    payment_method_fingerprint: Option<&String>,
    start_date: CivilDate,
    end_date: Option<CivilDate>,
    memo: Option<&EncryptedExpenseText>,
    reminder_days: u8,
    interval_months: u8,
    due_rule: RecurringDueRule,
    due_day: Option<u8>,
) -> (r: Result<(), Error>)
    ensures
        r is Ok <==> recurring_fields_ok(
            recurring_expense_id@,
            *name,
            category,
            match vendor {
                Some(v) => Some(*v),
                None => None,
            },
            amount_minor,
            currency@,
            match payment_method_fingerprint {
                Some(v) => Some(*v),
                None => None,
            },
            start_date,
            end_date,
            match memo {
                Some(v) => Some(*v),
                None => None,
            },
            reminder_days,
            interval_months,
            due_rule,
            due_day,
        ),
        r is Err ==> r->Err_0 is Invalid,
{
    let context = "recurring:".to_owned().concat(recurring_expense_id);
    check_bound_text("recurring expense name", name, context.as_str(), "name")?;
    if let Some(value) = vendor {
        check_bound_text("recurring expense vendor", value, context.as_str(), "vendor")?;
    }
    if let Some(value) = memo {
        check_bound_text("recurring expense memo", value, context.as_str(), "memo")?;
    }
    if category == ExpenseCategory::Unconfirmed {
        return Err(invalid("recurring expenses cannot use the unconfirmed category"));
    }
    validate_amount_minor("recurring expense amountMinor", amount_minor)?;
    validate_currency(currency)?;
    if let Some(value) = payment_method_fingerprint {
        validate_sha256("recurring payment method fingerprint", value.as_str())?;
    }
    if let Some(end) = end_date {
        if date_lt(end, start_date) {
            return Err(invalid("recurring expense end date cannot be before its start date"));
        }
    }
    if reminder_days > 90 {
        return Err(invalid("recurring expense reminder days cannot exceed 90"));
    }
    if !(interval_months == 1 || interval_months == 2 || interval_months == 3 || interval_months
        == 6 || interval_months == 12) {
        return Err(invalid("recurring interval months must be one of 1, 2, 3, 6, or 12"));
    }
    match due_rule {
        RecurringDueRule::SpecificDay => {
            match due_day {
                Some(d) => {
                    if d < 1 || d > 31 {
                        return Err(
                            invalid("a specific recurring due rule requires a day from 1 through 31"),
                        );
                    }
                },
                None => {
                    return Err(
                        invalid("a specific recurring due rule requires a day from 1 through 31"),
                    );
                },
            }
        },
        _ => {
            if due_day.is_some() {
                return Err(invalid("first-day and last-day recurring rules cannot include dueDay"));
            }
        },
    }
    Ok(())
}

/// Whether a due date can be computed for the month: the month after it exists and a
/// specific-day rule names its day.
pub open spec fn due_date_available(item: RecurringExpenseItem, m: CivilDate) -> bool {
    &&& 1 <= m.month <= 12
    &&& MIN_YEAR <= m.year <= MAX_YEAR
    &&& !(m.year == MAX_YEAR && m.month == 12)
    &&& !(item.due_rule is SpecificDay && (item.due_day is None || item.due_day->0 == 0))
}

/// The due date of a recurring expense in a month.
pub open spec fn due_date_of(item: RecurringExpenseItem, m: CivilDate) -> CivilDate {
    CivilDate {
        year: m.year,
        month: m.month,
        day: due_day_in(item.due_rule, item.due_day, m.year as int, m.month as int) as u32,
    }
}

/// The occurrence an active recurring expense has in a month, with its status on
/// `today`: none before the first month, none in months off the interval, none when the
/// due date falls before the start date or after the end date.
pub open spec fn scheduled_outcome(item: RecurringExpenseItem, m: CivilDate, today: CivilDate) -> Result<
    Option<(CivilDate, RecurringOccurrenceStatus)>,
    ErrorKind,
> {
    let start = first_of_month(item.start_date);
    if item.status != RecurringExpenseStatus::Active {
        Ok(None)
    } else if date_before(m, start) {
        Ok(None)
    } else if months_between(start, m) % (item.interval_months as int) != 0 {
        Ok(None)
    } else if !due_date_available(item, m) {
        Err(ErrorKind::Invalid)
    } else {
        let due = due_date_of(item, m);
        if date_before(due, item.start_date) || (item.end_date matches Some(e) && date_before(
            e,
            due,
        )) {
            Ok(None)
        } else {
            Ok(Some((due, occurrence_status_on(due, today, item.reminder_days as nat))))
        }
    }
}

/// A recurring expense falls due only in the months its interval reaches: an occurrence
/// in month `m` means `m` is not before the start month and the months from the start
/// month to `m` are a whole number of intervals; its due date lies in `m` (the first day,
/// the last day, or the given day cut to the month's length), not before the start date
/// nor after the end date; it is overdue exactly when that date has passed and due today
/// exactly on it; and only an active expense has one.
pub proof fn lemma_occurrences_follow_interval(item: RecurringExpenseItem, m: CivilDate, today: CivilDate)
    requires
        representable(item.start_date),
        representable(m),
        item.interval_months > 0,
    ensures
        scheduled_outcome(item, m, today) matches Ok(Some((due, st))) ==> {
            let months = (m.year - item.start_date.year) * 12 + (m.month - item.start_date.month);
            let last = days_in_month(m.year as int, m.month as int);
            &&& item.status == RecurringExpenseStatus::Active
            &&& months >= 0
            &&& months % (item.interval_months as int) == 0
            &&& due.year == m.year && due.month == m.month
            &&& (item.due_rule is FirstDay ==> due.day == 1)
            &&& (item.due_rule is LastDay ==> due.day == last)
            &&& (item.due_rule is SpecificDay ==> due.day == if item.due_day->0 <= last {
                item.due_day->0 as int
            } else {
                last
            })
            &&& !date_before(due, item.start_date)
            &&& (item.end_date matches Some(e) ==> !date_before(e, due))
            &&& (st == RecurringOccurrenceStatus::Overdue <==> date_before(due, today))
            &&& (st == RecurringOccurrenceStatus::DueToday <==> due == today)
        },
{
    let start = first_of_month(item.start_date);
    let months = (m.year - item.start_date.year) * 12 + (m.month - item.start_date.month);
    assert(-600_000 <= m.year - item.start_date.year <= 600_000);
    assert(saturate_i32(m.year - start.year) == m.year - start.year);
    assert(saturate_i32((m.year - start.year) * 12) == (m.year - start.year) * 12);
    assert(saturate_i32(m.month - start.month) == m.month - start.month);
    assert(months_between(start, m) == months);
    if !date_before(m, start) {
        assert(months >= 0);
    }
}

/// The occurrence a recurring expense has in a month when none is stored, with its due
/// date and its status on `today`.
pub fn scheduled_occurrence(item: &RecurringExpenseItem, requested_month: CivilDate, today: CivilDate) -> (r:
    Result<Option<(CivilDate, RecurringOccurrenceStatus)>, Error>)
    requires
        representable(item.start_date),
        representable(requested_month),
        item.interval_months > 0,
        representable(today),
        forall|k: nat| k <= item.reminder_days ==> representable(#[trigger] days_after(today, k)),
    ensures
        outcome(r) == scheduled_outcome(*item, requested_month, today),
{
    if item.status != RecurringExpenseStatus::Active {
        return Ok(None);
    }
    let start_month = month_start(item.start_date)?;
    if date_lt(requested_month, start_month) {
        return Ok(None);
    }
    let difference = month_difference(start_month, requested_month)?;
    assert(difference >= 0);
    if (difference as u32) % (item.interval_months as u32) != 0 {
        return Ok(None);
    }
    let due = recurring_due_date(item, requested_month)?;
    if date_lt(due, item.start_date) {
        return Ok(None);
    }
    if let Some(end) = item.end_date {
        if date_lt(end, due) {
            return Ok(None);
        }
    }
    let status = calculated_occurrence_status_on(due, today, item.reminder_days);
    Ok(Some((due, status)))
}

/// Reads the status of a stored occurrence: only paid and matched occurrences are stored.
pub fn stored_occurrence_status(value: &str) -> (r: Result<RecurringOccurrenceStatus, Error>)
    ensures
        r is Ok <==> value@ == "paid"@ || value@ == "matched"@,
        r matches Ok(s) ==> (s == RecurringOccurrenceStatus::Paid <==> value@ == "paid"@) && (s
            == RecurringOccurrenceStatus::Matched <==> value@ == "matched"@),
        r matches Err(e) ==> e is Invariant,
{
    if str_eq(value, "paid") {
        proof {
            reveal_strlit("paid");
            reveal_strlit("matched");
            assert("paid"@.len() != "matched"@.len());
        }
        Ok(RecurringOccurrenceStatus::Paid)
    } else if str_eq(value, "matched") {
        proof {
            reveal_strlit("paid");
            reveal_strlit("matched");
            assert("paid"@.len() != "matched"@.len());
        }
        Ok(RecurringOccurrenceStatus::Matched)
    } else {
        Err(broken("unknown stored recurring occurrence status"))
    }
}

/// The amount a payment confirmation records: the amount given, else the item's.
pub open spec fn paid_amount(input: ConfirmRecurringPaidInput, item_amount: i64) -> i64 {
    match input.amount_minor {
        Some(a) => a,
        None => item_amount,
    }
}

/// Decides confirming an occurrence as paid: the version read must be current, an
/// occurrence already paid or matched is refused, and the amount paid (the item's
/// amount unless one is given) must be a valid amount. Gives back that amount.
pub fn plan_confirm_paid(
    occurrence_key: &str,
    occurrence_version: u64,
    status: RecurringOccurrenceStatus,
    input: &ConfirmRecurringPaidInput,
    item_amount: i64,
) -> (r: Result<i64, Error>)
    ensures
        occurrence_version != input.expected_version ==> (r matches Err(e) && e is Conflict
            && e->Conflict_0@ == "recurring occurrence"@ + " "@ + occurrence_key@ + " changed from version "@
            + crate::text::decimal(input.expected_version as nat) + " to "@ + crate::text::decimal(
            occurrence_version as nat,
        )),
        occurrence_version == input.expected_version && (status is Paid || status is Matched) ==> (r matches Err(
            e,
        ) && e is Conflict && e->Conflict_0@ == "recurring occurrence "@ + occurrence_key@ + " is already paid"@),
        occurrence_version == input.expected_version && !(status is Paid || status is Matched) ==> match r {
            Ok(amount) => amount == paid_amount(*input, item_amount) && 0 < amount <= MAX_SAFE_AMOUNT_MINOR,
            Err(e) => e is Invalid && !(0 < paid_amount(*input, item_amount) <= MAX_SAFE_AMOUNT_MINOR),
        },
{
    if occurrence_version != input.expected_version {
        return Err(version_conflict("recurring occurrence", occurrence_key, input.expected_version, occurrence_version));
    }
    if status == RecurringOccurrenceStatus::Paid || status == RecurringOccurrenceStatus::Matched {
        return Err(
            Error::Conflict("recurring occurrence ".to_owned().concat(occurrence_key).concat(" is already paid")),
        );
    }
    let amount = match input.amount_minor {
        Some(a) => a,
        None => item_amount,
    };
    validate_amount_minor("recurring paid amountMinor", amount)?;
    Ok(amount)
}

/// The occurrence as a match request finds it.
#[derive(Debug, Clone, PartialEq, Eq)]
pub struct OccurrenceState {
    pub version: u64,
    pub status: RecurringOccurrenceStatus,
    pub actual_event_id: Option<String>,
}

/// The ledger event a match request names.
#[derive(Debug, Clone, PartialEq, Eq)]
pub struct MatchCandidate {
    pub is_provisional: bool,
    pub direction: Option<String>,
    pub kind: ExpenseEventKind,
    pub currency: String,
    pub status: ExpenseEventStatus,
    pub amount_minor: i64,
}

/// What a match request does.
#[derive(Debug, Clone, Copy, PartialEq, Eq, Structural)]
pub enum MatchDecision {
    /// The occurrence is already matched to this event: nothing changes.
    AlreadyMatched,
    /// Record the match; `amount_changed` says the amount differs from the expected one.
    Record { amount_changed: bool },
}

/// The decision on matching an event to an occurrence: the version must be current, a
/// matched occurrence only accepts its own event again, the event may not be matched
/// elsewhere, and it must be a non-provisional, non-excluded debit purchase or transfer
/// in the occurrence's currency.
pub open spec fn match_outcome(
    occ: OccurrenceState,
    expected_version: u64,
    event_id: Seq<char>,
    matched_elsewhere: bool,
    cand: MatchCandidate,
    item_currency: Seq<char>,
    item_amount: i64,
) -> Result<MatchDecision, ErrorKind> {
    if occ.version != expected_version {
        Err(ErrorKind::Conflict)
    } else if occ.status == RecurringOccurrenceStatus::Matched {
        if opt_view(occ.actual_event_id) == Some(event_id) {
            Ok(MatchDecision::AlreadyMatched)
        } else {
            Err(ErrorKind::Conflict)
        }
    } else if matched_elsewhere {
        Err(ErrorKind::Conflict)
    } else if cand.is_provisional || opt_view(cand.direction) != Some(ExpenseDirection::Debit.name())
        || !(cand.kind is Purchase || cand.kind is ExternalTransfer || cand.kind is UnknownP2p) {
        Err(ErrorKind::Invalid)
    } else if cand.currency@ != item_currency {
        Err(ErrorKind::Invalid)
    } else if cand.status == ExpenseEventStatus::Excluded {
        Err(ErrorKind::Invalid)
    } else {
        Ok(MatchDecision::Record { amount_changed: cand.amount_minor != item_amount })
    }
}

/// Decides a request to match a ledger event to a recurring occurrence.
pub fn decide_recurring_match(
    occurrence_key: &str,
    occ: &OccurrenceState,
    expected_version: u64,
    event_id: &str,
    matched_elsewhere: &Option<String>,
    cand: &MatchCandidate,
    item_currency: &str,
    item_amount: i64,
) -> (r: Result<MatchDecision, Error>)
    ensures
        outcome(r) == match_outcome(
            *occ,
            expected_version,
            event_id@,
            matched_elsewhere is Some,
            *cand,
            item_currency@,
            item_amount,
        ),
{
    if occ.version != expected_version {
        return Err(version_conflict("recurring occurrence", occurrence_key, expected_version, occ.version));
    }
    if occ.status == RecurringOccurrenceStatus::Matched {
        let same = match &occ.actual_event_id {
            Some(id) => str_eq(id.as_str(), event_id),
            None => false,
        };
        if same {
            return Ok(MatchDecision::AlreadyMatched);
        }
        return Err(
            Error::Conflict("recurring occurrence ".to_owned().concat(occurrence_key).concat(" is already matched")),
        );
    }
    if let Some(other) = matched_elsewhere {
        return Err(
            Error::Conflict(
                "expense event ".to_owned().concat(event_id).concat(
                    " is already matched to recurring occurrence ",
                ).concat(other.as_str()),
            ),
        );
    }
    let debit = match &cand.direction {
        Some(d) => str_eq(d.as_str(), ExpenseDirection::Debit.as_str()),
        None => false,
    };
    if cand.is_provisional || !debit || !matches!(
        cand.kind,
        ExpenseEventKind::Purchase | ExpenseEventKind::ExternalTransfer
            | ExpenseEventKind::UnknownP2p
    ) {
        return Err(
            invalid("a recurring occurrence requires a non-provisional debit purchase candidate"),
        );
    }
    if !str_eq(cand.currency.as_str(), item_currency) {
        return Err(invalid("recurring occurrence and matched transaction currencies must agree"));
    }
    if cand.status == ExpenseEventStatus::Excluded {
        return Err(invalid("an excluded expense transaction cannot be matched"));
    }
    Ok(MatchDecision::Record { amount_changed: cand.amount_minor != item_amount })
}

/// The payment method that future automatic matches of a recurring expense key on: the
/// current version must be the latest, the event needs an encrypted merchant agreeing
/// with the expense's vendor and a payment method agreeing with the expense's, if set.
pub open spec fn auto_match_outcome(
    head_version: u64,
    current_version: u64,
    event_merchant: Option<String>,
    vendor: Option<String>,
    event_payment_method: Option<String>,
    payment_method: Option<String>,
) -> Result<Seq<char>, ErrorKind> {
    if head_version != current_version {
        Err(ErrorKind::Conflict)
    } else if event_merchant is None {
        Err(ErrorKind::Invalid)
    } else if vendor matches Some(v) && v@ != event_merchant->0@ {
        Err(ErrorKind::Invalid)
    } else if event_payment_method is None {
        Err(ErrorKind::Invalid)
    } else {
        match payment_method {
            Some(p) => if p@ != event_payment_method->0@ {
                Err(ErrorKind::Invalid)
            } else {
                Ok(p@)
            },
            None => Ok(event_payment_method->0@),
        }
    }
}

/// Decides the payment method future automatic matches key on. The merchant and vendor
/// are given by their blind indexes.
pub fn auto_match_payment_method(
    head_version: u64,
    current_version: u64,
    event_merchant: &Option<String>,
    vendor: &Option<String>,
    event_payment_method: &Option<String>,
    payment_method: &Option<String>,
) -> (r: Result<String, Error>)
    ensures
        match r {
            Ok(p) => auto_match_outcome(
                head_version,
                current_version,
                *event_merchant,
                *vendor,
                *event_payment_method,
                *payment_method,
            ) == Ok::<Seq<char>, ErrorKind>(p@),
            Err(e) => auto_match_outcome(
                head_version,
                current_version,
                *event_merchant,
                *vendor,
                *event_payment_method,
                *payment_method,
            ) == Err::<Seq<char>, ErrorKind>(e.kind()),
        },
{
    if head_version != current_version {
        return Err(
            conflict("future auto-match can only be enabled from the current recurring version"),
        );
    }
    let merchant = match event_merchant {
        None => return Err(invalid("future auto-match requires an encrypted transaction merchant")),
        Some(m) => m,
    };
    if let Some(v) = vendor {
        if !same_text(v, merchant) {
            return Err(invalid("matched transaction merchant does not match the recurring vendor"));
        }
    }
    let event_method = match event_payment_method {
        None => return Err(
            invalid("future auto-match requires a transaction payment method fingerprint"),
        ),
        Some(m) => m,
    };
    match payment_method {
        Some(p) => {
            if !same_text(p, event_method) {
                return Err(
                    invalid("matched transaction payment method does not match the recurring item"),
                );
            }
            Ok(p.clone())
        },
        None => Ok(event_method.clone()),
    }
}

/// Whether a ledger purchase may be an occurrence of a recurring expense: the expense
/// is active, its vendor is the purchase's merchant and its payment method the
/// purchase's (either may be left to an auto-match rule when the expense has none), the
/// occurrence is not yet matched, falls due within five days of the purchase, and the
/// amount fits the expense's amount rule.
pub open spec fn candidate_fits(
    item: RecurringExpenseItem,
    merchant_blind_index: Seq<char>,
    payment_method: Option<String>,
    has_auto_rule: bool,
    occurrence: Option<(CivilDate, RecurringOccurrenceStatus)>,
    posted_date: CivilDate,
    amount_minor: i64,
) -> bool {
    let vendor_matches = (item.vendor matches Some(v) && v.blind_index@ == merchant_blind_index)
        || (item.vendor is None && has_auto_rule);
    let method_matches = opt_view(item.payment_method_fingerprint) == opt_view(payment_method) || (
    item.payment_method_fingerprint is None && has_auto_rule);
    &&& item.status == RecurringExpenseStatus::Active
    &&& vendor_matches
    &&& method_matches
    &&& occurrence matches Some(o)
    &&& o.1 != RecurringOccurrenceStatus::Matched
    &&& -5 <= day_count_between(posted_date, o.0) <= 5
    &&& amount_matches(item.amount_kind, item.amount_minor as int, amount_minor as int)
}

/// Whether a ledger purchase may be an occurrence of a recurring expense.
pub fn recurring_candidate_fits(
    item: &RecurringExpenseItem,
    merchant_blind_index: &String,
    payment_method: &Option<String>,
    has_auto_rule: bool,
    occurrence: Option<(CivilDate, RecurringOccurrenceStatus)>,
    posted_date: CivilDate,
    amount_minor: i64,
) -> (r: bool)
    requires
        representable(posted_date),
        occurrence matches Some(o) ==> representable(o.0),
    ensures
        r == candidate_fits(
            *item,
            merchant_blind_index@,
            *payment_method,
            has_auto_rule,
            occurrence,
            posted_date,
            amount_minor,
        ),
{
    if item.status != RecurringExpenseStatus::Active {
        return false;
    }
    let vendor_matches = match &item.vendor {
        Some(v) => same_text(&v.blind_index, merchant_blind_index),
        None => has_auto_rule,
    };
    let method_matches = same_optional_text(&item.payment_method_fingerprint, payment_method) || (
    item.payment_method_fingerprint.is_none() && has_auto_rule);
    if !vendor_matches || !method_matches {
        return false;
    }
    let (due, status) = match occurrence {
        None => return false,
        Some(o) => o,
    };
    if status == RecurringOccurrenceStatus::Matched {
        return false;
    }
    let gap = days_between(posted_date, due);
    if gap < -5 || gap > 5 {
        return false;
    }
    recurring_amount_matches(item, amount_minor)
}

/// What an import does with the recurring occurrences a purchase may belong to.
#[derive(Debug, Clone, Copy, PartialEq, Eq, Structural)]
pub enum CandidateAction {
    /// Match the single candidate at once: its expense matches automatically.
    AutoMatch,
    /// Open one review per candidate.
    Review { reviews: u32 },
}

/// A single candidate whose expense auto-matches by rule is matched at once; otherwise
/// every candidate gets a review.
pub fn candidate_action(candidates: usize, auto_match_enabled: bool, has_auto_rule: bool) -> (r:
    CandidateAction)
    ensures
        candidates == 1 && auto_match_enabled && has_auto_rule ==> r == CandidateAction::AutoMatch,
        !(candidates == 1 && auto_match_enabled && has_auto_rule) ==> r == (CandidateAction::Review {
            reviews: if candidates > u32::MAX {
                u32::MAX
            } else {
                candidates as u32
            },
        }),
{
    if candidates == 1 && auto_match_enabled && has_auto_rule {
        return CandidateAction::AutoMatch;
    }
    let reviews: u32 = if candidates > 0xffff_ffff {
        0xffff_ffff
    } else {
        candidates as u32
    };
    CandidateAction::Review { reviews }
}

/// The smallest amount.
pub open spec fn seq_min(s: Seq<i64>) -> int
    decreases s.len(),
{
    if s.len() == 0 {
        0
    } else if s.len() == 1 {
        s[0] as int
    } else {
        let m = seq_min(s.drop_last());
        if (s.last() as int) < m {
            s.last() as int
        } else {
            m
        }
    }
}

/// The largest amount.
pub open spec fn seq_max(s: Seq<i64>) -> int
    decreases s.len(),
{
    if s.len() == 0 {
        0
    } else if s.len() == 1 {
        s[0] as int
    } else {
        let m = seq_max(s.drop_last());
        if (s.last() as int) > m {
            s.last() as int
        } else {
            m
        }
    }
}

/// The sum of the amounts.
pub open spec fn seq_sum(s: Seq<i64>) -> int
    decreases s.len(),
{
    if s.len() == 0 {
        0
    } else {
        seq_sum(s.drop_last()) + s.last()
    }
}

/// Integer division truncating toward zero, as `i128 / i128` computes it.
pub open spec fn div_toward_zero(a: int, b: int) -> int {
    if a >= 0 {
        a / b
    } else {
        -((-a) / b)
    }
}

/// `x` clamped to the `i64` range.
pub open spec fn saturate_i64(x: int) -> int {
    if x > i64::MAX {
        i64::MAX as int
    } else if x < i64::MIN {
        i64::MIN as int
    } else {
        x
    }
}

/// Whether the months between consecutive purchase months all equal one interval of 1,
/// 2, 3, 6 or 12 months.
pub open spec fn steady_interval(months: Seq<CivilDate>) -> bool {
    let first = months_between(months[0], months[1]);
    &&& (first == 1 || first == 2 || first == 3 || first == 6 || first == 12)
    &&& forall|i: int| 0 <= i < months.len() - 1 ==> #[trigger] months_between(months[i], months[i + 1]) == first
}

/// Whether the amounts stay steady: the spread between the largest and smallest amount
/// is at most a tenth of the average (truncated), and at least one minor unit is allowed.
pub open spec fn steady_amounts(amounts: Seq<i64>) -> bool {
    let average = if amounts.len() == 0 {
        0
    } else {
        div_toward_zero(seq_sum(amounts), amounts.len() as int)
    };
    let magnitude = if average < 0 {
        -average
    } else {
        average
    };
    let allowed = if magnitude / 10 >= 1 {
        magnitude / 10
    } else {
        1
    };
    saturate_i64(seq_max(amounts) - seq_min(amounts)) <= allowed
}

/// Whether the purchases of one merchant and payment method, spread over at least three
/// distinct months, look like a recurring expense worth proposing: a steady interval
/// between the months and steady amounts.
pub fn registration_pattern(months: &Vec<CivilDate>, amounts: &Vec<i64>) -> (r: bool)
    requires
        forall|i: int| 0 <= i < months@.len() ==> representable(#[trigger] months@[i]),
        amounts@.len() <= 0xffff_ffff_ffff_ffff,
    ensures
        r == (months@.len() >= 3 && steady_interval(months@) && steady_amounts(amounts@)),
{
    if months.len() < 3 {
        return false;
    }
    let first = month_difference(months[0], months[1]);
    let expected: i32 = match first {
        Ok(d) => d,
        Err(_) => 0,
    };
    if !(expected == 1 || expected == 2 || expected == 3 || expected == 6 || expected == 12) {
        return false;
    }
    let mut i: usize = 0;
    while i < months.len() - 1
        invariant
            months@.len() >= 3,
            0 <= i < months@.len(),
            expected == months_between(months@[0], months@[1]),
            forall|j: int| 0 <= j < months@.len() ==> representable(#[trigger] months@[j]),
            forall|j: int| 0 <= j < i ==> #[trigger] months_between(months@[j], months@[j + 1]) == expected,
        decreases months@.len() - i,
    {
        let d = match month_difference(months[i], months[i + 1]) {
            Ok(d) => d,
            Err(_) => expected,
        };
        if d != expected {
            return false;
        }
        i = i + 1;
    }
    steady_amount_check(amounts)
}

/// Whether the amounts stay steady.
fn steady_amount_check(amounts: &Vec<i64>) -> (r: bool)
    requires
        amounts@.len() <= 0xffff_ffff_ffff_ffff,
    ensures
        r == steady_amounts(amounts@),
{
    let mut minimum: i64 = 0;
    let mut maximum: i64 = 0;
    let mut sum: i128 = 0;
    let mut i: usize = 0;
    while i < amounts.len()
        invariant
            0 <= i <= amounts@.len() <= 0xffff_ffff_ffff_ffff,
            minimum == seq_min(amounts@.take(i as int)),
            maximum == seq_max(amounts@.take(i as int)),
            sum == seq_sum(amounts@.take(i as int)),
            -(i as int) * 0x8000_0000_0000_0000 <= sum <= (i as int) * 0x7fff_ffff_ffff_ffff,
        decreases amounts@.len() - i,
    {
        let a = amounts[i];
        let ghost prefix = amounts@.take(i + 1);
        assert(prefix.drop_last() == amounts@.take(i as int));
        assert(prefix.last() == a);
        if i == 0 {
            minimum = a;
            maximum = a;
            assert(prefix =~= seq![a]);
        } else {
            if a < minimum {
                minimum = a;
            }
            if a > maximum {
                maximum = a;
            }
        }
        sum = sum + a as i128;
        i = i + 1;
    }
    assert(amounts@.take(amounts@.len() as int) == amounts@);
    let count = amounts.len() as i128;
    let average: i128 = if count == 0 {
        0
    } else if sum >= 0 {
        sum / count
    } else {
        -((-sum) / count)
    };
    let magnitude: i128 = if average < 0 {
        -average
    } else {
        average
    };
    let tenth = magnitude / 10;
    let allowed: i128 = if tenth >= 1 {
        tenth
    } else {
        1
    };
    let difference: i128 = maximum as i128 - minimum as i128;
    let spread: i128 = if difference > i64::MAX as i128 {
        i64::MAX as i128
    } else if difference < i64::MIN as i128 {
        i64::MIN as i128
    } else {
        difference
    };
    spread <= allowed
}

} // verus!
