use tm_core::error::Error;
use tm_core::expense_types::{
    ConfirmRecurringPaidInput, ExpenseEventKind, ExpenseEventStatus, RecurringOccurrenceStatus,
};
use tm_core::recurring::{
    decide_recurring_match, plan_confirm_paid, MatchCandidate, MatchDecision, OccurrenceState,
};

fn confirm(expected_version: u64, amount_minor: Option<i64>) -> ConfirmRecurringPaidInput {
    ConfirmRecurringPaidInput { expected_version, amount_minor, paid_date: None }
}

fn candidate() -> MatchCandidate {
    MatchCandidate {
        is_provisional: false,
        direction: Some("debit".to_owned()),
        kind: ExpenseEventKind::Purchase,
        currency: "KRW".to_owned(),
        status: ExpenseEventStatus::Confirmed,
        amount_minor: 17_000,
    }
}

fn scheduled(version: u64) -> OccurrenceState {
    OccurrenceState { version, status: RecurringOccurrenceStatus::Scheduled, actual_event_id: None }
}

#[test]
fn confirming_a_payment_defaults_to_the_items_amount() {
    assert_eq!(
        plan_confirm_paid("r1:2026-07", 1, RecurringOccurrenceStatus::Overdue, &confirm(1, None), 15_000).unwrap(),
        15_000
    );
    assert_eq!(
        plan_confirm_paid("r1:2026-07", 1, RecurringOccurrenceStatus::DueSoon, &confirm(1, Some(16_500)), 15_000).unwrap(),
        16_500
    );
}

#[test]
fn a_stale_or_repeated_confirmation_is_a_conflict() {
    assert_eq!(
        plan_confirm_paid("r1:2026-07", 2, RecurringOccurrenceStatus::Scheduled, &confirm(1, None), 15_000).unwrap_err(),
        Error::Conflict("recurring occurrence r1:2026-07 changed from version 1 to 2".to_owned())
    );
    assert_eq!(
        plan_confirm_paid("r1:2026-07", 1, RecurringOccurrenceStatus::Paid, &confirm(1, None), 15_000).unwrap_err(),
        Error::Conflict("recurring occurrence r1:2026-07 is already paid".to_owned())
    );
    assert!(matches!(
        plan_confirm_paid("r1:2026-07", 1, RecurringOccurrenceStatus::Matched, &confirm(1, None), 15_000),
        Err(Error::Conflict(_))
    ));
}

#[test]
fn a_confirmed_amount_must_be_positive() {
    assert_eq!(
        plan_confirm_paid("r1:2026-07", 1, RecurringOccurrenceStatus::Scheduled, &confirm(1, Some(0)), 15_000).unwrap_err(),
        Error::Invalid("recurring paid amountMinor must be between 1 and the safe maximum".to_owned())
    );
}

#[test]
fn matching_records_whether_the_amount_changed() {
    let decision = decide_recurring_match("r1:2026-07", &scheduled(1), 1, "e1", &None, &candidate(), "KRW", 15_000).unwrap();
    assert_eq!(decision, MatchDecision::Record { amount_changed: true });
    let decision = decide_recurring_match("r1:2026-07", &scheduled(1), 1, "e1", &None, &candidate(), "KRW", 17_000).unwrap();
    assert_eq!(decision, MatchDecision::Record { amount_changed: false });
}

#[test]
fn matching_names_the_conflicting_version_or_occurrence() {
    assert_eq!(
        decide_recurring_match("r1:2026-07", &scheduled(3), 2, "e1", &None, &candidate(), "KRW", 1).unwrap_err(),
        Error::Conflict("recurring occurrence r1:2026-07 changed from version 2 to 3".to_owned())
    );
    assert_eq!(
        decide_recurring_match("r1:2026-07", &scheduled(1), 1, "e1", &Some("r2:2026-07".to_owned()), &candidate(), "KRW", 1)
            .unwrap_err(),
        Error::Conflict("expense event e1 is already matched to recurring occurrence r2:2026-07".to_owned())
    );
    let matched = OccurrenceState {
        version: 1,
        status: RecurringOccurrenceStatus::Matched,
        actual_event_id: Some("e1".to_owned()),
    };
    assert_eq!(
        decide_recurring_match("r1:2026-07", &matched, 1, "e1", &None, &candidate(), "KRW", 1).unwrap(),
        MatchDecision::AlreadyMatched
    );
    assert_eq!(
        decide_recurring_match("r1:2026-07", &matched, 1, "e9", &None, &candidate(), "KRW", 1).unwrap_err(),
        Error::Conflict("recurring occurrence r1:2026-07 is already matched".to_owned())
    );
}

#[test]
fn only_confirmed_debit_purchases_in_the_items_currency_match() {
    let mut credit = candidate();
    credit.direction = Some("credit".to_owned());
    assert_eq!(
        decide_recurring_match("k", &scheduled(1), 1, "e1", &None, &credit, "KRW", 1).unwrap_err(),
        Error::Invalid("a recurring occurrence requires a non-provisional debit purchase candidate".to_owned())
    );
    assert_eq!(
        decide_recurring_match("k", &scheduled(1), 1, "e1", &None, &candidate(), "USD", 1).unwrap_err(),
        Error::Invalid("recurring occurrence and matched transaction currencies must agree".to_owned())
    );
    let mut excluded = candidate();
    excluded.status = ExpenseEventStatus::Excluded;
    assert_eq!(
        decide_recurring_match("k", &scheduled(1), 1, "e1", &None, &excluded, "KRW", 1).unwrap_err(),
        Error::Invalid("an excluded expense transaction cannot be matched".to_owned())
    );
}
