use tm_core::calendar::CivilDate;
use tm_core::expense_types::{ExpenseCategory, RecurringOccurrenceStatus};
use tm_core::month_summary::{
    summarize_month, MonthCompletenessCounts, MonthEventRow, MonthOccurrence,
};

fn day(d: u32) -> CivilDate {
    CivilDate { year: 2026, month: 7, day: d }
}

fn event(kind: &str, category: &str, amount: i64, currency: &str, d: u32) -> MonthEventRow {
    MonthEventRow {
        event_kind: kind.to_owned(),
        category: category.to_owned(),
        event_status: "confirmed".to_owned(),
        amount_minor: amount,
        currency: currency.to_owned(),
        posted_date: day(d),
        direction: Some(if kind == "refund" { "credit" } else { "debit" }.to_owned()),
        personal_amount_minor: None,
        has_linked_settlements: false,
        linked_to_confirmed_purchase: false,
    }
}

fn counts() -> MonthCompletenessCounts {
    MonthCompletenessCounts {
        active_source_count: 1,
        present_source_count: 1,
        covered_source_count: 1,
        rejected_row_count: 0,
        pending_review_count: 0,
        recurring_candidates: 0,
        unconfirmed_event_count: 0,
    }
}

#[test]
fn category_currency_and_daily_totals_agree() {
    let rows = vec![
        event("purchase", "food", 12_000, "KRW", 3),
        event("purchase", "cafe", 5_000, "KRW", 3),
        event("refund", "food", 2_000, "KRW", 4),
        event("purchase", "food", 1_500, "USD", 5),
    ];
    let occurrences = vec![MonthOccurrence {
        currency: "KRW".to_owned(),
        expected_amount_minor: 30_000,
        actual_amount_minor: None,
        status: RecurringOccurrenceStatus::Scheduled,
    }];
    let s = summarize_month(day(1), &rows, &occurrences, counts()).unwrap();
    for currency in ["KRW", "USD"] {
        let by_category: i64 =
            s.categories.iter().filter(|c| c.currency == currency).map(|c| c.amount_minor).sum();
        let by_day: i64 =
            s.daily.iter().filter(|d| d.currency == currency).map(|d| d.amount_minor).sum();
        let net = s
            .currencies
            .iter()
            .find(|c| c.currency == currency)
            .map(|c| c.net_personal_spend_minor)
            .unwrap();
        assert_eq!(by_category, net);
        assert_eq!(by_day, net);
    }
    assert_eq!(s.categories[0].category, ExpenseCategory::Food);
    assert_eq!(s.categories[0].amount_minor, 10_000);
    assert_eq!(s.daily[0].amount_minor, 17_000);
    assert_eq!(s.daily[1].amount_minor, -2_000);
}
