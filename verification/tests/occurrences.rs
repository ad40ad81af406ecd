use tm_core::calendar::CivilDate;
use tm_core::expense_types::{
    EncryptedExpenseText, ExpenseCategory, RecurringAmountKind, RecurringDueRule,
    RecurringExpenseItem, RecurringExpenseStatus, RecurringOccurrenceStatus,
};
use tm_core::occurrences::{
    occurrence_from_stored, order_occurrences, scheduled_occurrence_for_month, StoredOccurrence,
};

fn date(year: i32, month: u32, day: u32) -> CivilDate {
    CivilDate { year, month, day }
}

fn text(value: &str) -> EncryptedExpenseText {
    EncryptedExpenseText {
        key_version: 1,
        nonce: "n".to_owned(),
        ciphertext: value.to_owned(),
        aad: "a".to_owned(),
        blind_index: "b".to_owned(),
    }
}

fn item(id: &str, due_day: u8) -> RecurringExpenseItem {
    RecurringExpenseItem {
        id: id.to_owned(),
        name: text("rent"),
        category: ExpenseCategory::HousingUtilities,
        vendor: None,
        amount_minor: 500_000,
        currency: "KRW".to_owned(),
        payment_method_fingerprint: None,
        start_date: date(2026, 1, 10),
        end_date: None,
        memo: None,
        reminder_days: 3,
        amount_kind: RecurringAmountKind::Fixed,
        interval_months: 1,
        due_rule: RecurringDueRule::SpecificDay,
        due_day: Some(due_day),
        status: RecurringExpenseStatus::Active,
        auto_match_enabled: false,
        created_at: "c".to_owned(),
        updated_at: "u".to_owned(),
        version: 4,
    }
}

fn stored(status: &str) -> StoredOccurrence {
    StoredOccurrence {
        item_version: 2,
        due_date: date(2026, 7, 25),
        expected_amount_minor: 480_000,
        currency: "KRW".to_owned(),
        status: status.to_owned(),
        actual_amount_minor: 490_000,
        actual_event_id: None,
        manual_event_id: Some("manual-1".to_owned()),
        amount_changed: true,
        version: 2,
    }
}

#[test]
fn the_schedule_implies_an_unpaid_first_version_occurrence() {
    let occurrence = scheduled_occurrence_for_month(&item("r1", 25), date(2026, 7, 1), date(2026, 7, 23))
        .unwrap()
        .unwrap();
    assert_eq!(occurrence.occurrence_key, "r1:2026-07");
    assert_eq!(occurrence.due_date, date(2026, 7, 25));
    assert_eq!(occurrence.status, RecurringOccurrenceStatus::DueSoon);
    assert_eq!(occurrence.expected_amount_minor, 500_000);
    assert_eq!(occurrence.actual_amount_minor, None);
    assert_eq!(occurrence.item_version, 4);
    assert_eq!(occurrence.version, 1);
}

#[test]
fn no_occurrence_before_the_start_month() {
    assert!(scheduled_occurrence_for_month(&item("r1", 25), date(2025, 12, 1), date(2026, 7, 23))
        .unwrap()
        .is_none());
}

#[test]
fn a_stored_payment_lists_its_recorded_amounts_and_manual_event() {
    let occurrence = occurrence_from_stored("r1:2026-07".to_owned(), "r1", &stored("paid"), &item("r1", 25)).unwrap();
    assert_eq!(occurrence.status, RecurringOccurrenceStatus::Paid);
    assert_eq!(occurrence.expected_amount_minor, 480_000);
    assert_eq!(occurrence.actual_amount_minor, Some(490_000));
    assert_eq!(occurrence.actual_event_id.as_deref(), Some("manual-1"));
    assert_eq!(occurrence.item_version, 2);
    assert!(occurrence.amount_changed);
}

#[test]
fn an_unknown_stored_status_is_refused() {
    assert!(occurrence_from_stored("r1:2026-07".to_owned(), "r1", &stored("scheduled"), &item("r1", 25)).is_err());
}

#[test]
fn occurrences_are_listed_by_due_date_then_key() {
    let today = date(2026, 7, 1);
    let month = date(2026, 7, 1);
    let late = scheduled_occurrence_for_month(&item("b", 20), month, today).unwrap().unwrap();
    let early = scheduled_occurrence_for_month(&item("z", 5), month, today).unwrap().unwrap();
    let tie = scheduled_occurrence_for_month(&item("a", 20), month, today).unwrap().unwrap();
    let keys: Vec<String> = order_occurrences(vec![late, early, tie])
        .into_iter()
        .map(|o| o.occurrence_key)
        .collect();
    assert_eq!(keys, vec!["z:2026-07", "a:2026-07", "b:2026-07"]);
}
