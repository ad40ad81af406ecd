use tm_core::calendar::CivilDate;
use tm_core::expense_types::RecurringOccurrenceStatus;
use tm_core::recurring::calculated_occurrence_status_on;

fn date(year: i32, month: u32, day: u32) -> CivilDate {
    CivilDate { year, month, day }
}

#[test]
fn recurring_due_soon_uses_the_items_reminder_window() {
    let today = date(2026, 8, 1);
    let due = date(2026, 8, 5);
    assert_eq!(
        calculated_occurrence_status_on(due, today, 2),
        RecurringOccurrenceStatus::Scheduled
    );
    assert_eq!(
        calculated_occurrence_status_on(due, today, 7),
        RecurringOccurrenceStatus::DueSoon
    );
    assert_eq!(
        calculated_occurrence_status_on(today, today, 0),
        RecurringOccurrenceStatus::DueToday
    );
}

#[test]
fn a_past_due_date_is_overdue() {
    assert_eq!(
        calculated_occurrence_status_on(date(2026, 7, 31), date(2026, 8, 1), 7),
        RecurringOccurrenceStatus::Overdue
    );
}
