use tm_core::calendar::CivilDate;
use tm_core::expense_commands::ExpenseMutationCommand;
use tm_core::expense_refresh::months_to_refresh;
use tm_core::expense_types::{ConfirmRecurringPaidInput, MatchRecurringExpenseInput};

fn month(year: i32, m: u32) -> CivilDate {
    CivilDate { year, month: m, day: 1 }
}

fn known() -> Vec<CivilDate> {
    vec![month(2026, 5), month(2026, 3), month(2026, 7), month(2026, 4)]
}

#[test]
fn deleting_a_recurring_item_refreshes_known_months_from_now_on() {
    let command = ExpenseMutationCommand::DeleteRecurring {
        recurring_expense_id: "r1".to_owned(),
        expected_version: 1,
    };
    assert_eq!(
        months_to_refresh(&command, &known(), month(2026, 5)).unwrap(),
        vec![month(2026, 5), month(2026, 7)]
    );
}

#[test]
fn confirming_a_payment_refreshes_its_month_and_the_paid_month() {
    let command = ExpenseMutationCommand::ConfirmRecurringPaid {
        occurrence_key: "r1:2026-06".to_owned(),
        input: ConfirmRecurringPaidInput {
            expected_version: 1,
            amount_minor: None,
            paid_date: Some(CivilDate { year: 2026, month: 5, day: 28 }),
        },
    };
    assert_eq!(
        months_to_refresh(&command, &known(), month(2026, 7)).unwrap(),
        vec![month(2026, 5), month(2026, 6)]
    );
}

#[test]
fn matching_refreshes_every_known_month_and_the_occurrence_month_once() {
    let command = ExpenseMutationCommand::MatchRecurring {
        occurrence_key: "r1:2026-04".to_owned(),
        input: MatchRecurringExpenseInput {
            expected_version: 1,
            event_id: "e1".to_owned(),
            enable_future_auto_match: false,
        },
    };
    assert_eq!(
        months_to_refresh(&command, &known(), month(2026, 7)).unwrap(),
        vec![month(2026, 3), month(2026, 4), month(2026, 5), month(2026, 7)]
    );
}

#[test]
fn an_unreadable_occurrence_key_is_refused() {
    let command = ExpenseMutationCommand::MatchRecurring {
        occurrence_key: "no-month".to_owned(),
        input: MatchRecurringExpenseInput {
            expected_version: 1,
            event_id: "e1".to_owned(),
            enable_future_auto_match: false,
        },
    };
    assert!(months_to_refresh(&command, &known(), month(2026, 7)).is_err());
}

#[test]
fn feedback_refreshes_nothing() {
    let command = ExpenseMutationCommand::RecordReportFeedback { report_id: "x".to_owned(), helpful: true };
    assert!(months_to_refresh(&command, &known(), month(2026, 7)).unwrap().is_empty());
}
