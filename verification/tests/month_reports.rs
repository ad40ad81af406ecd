use tm_core::calendar::CivilDate;
use tm_core::expense_types::{
    ExpenseCategory, ExpenseCategoryTotal, ExpenseCurrencySummary, ExpenseDailyTotal,
    ExpenseDataCompleteness, ExpenseReportStatus,
};
use tm_core::expense_aggregate::build_report_aggregate;
use tm_core::month_reports::{currency_snapshots, stale_report_currencies};
use tm_core::month_summary::ExpenseMonthSummary;

fn date(day: u32) -> CivilDate {
    CivilDate { year: 2026, month: 7, day }
}

fn currency(code: &str, net: i64) -> ExpenseCurrencySummary {
    ExpenseCurrencySummary {
        currency: code.to_owned(),
        net_personal_spend_minor: net,
        gross_purchase_minor: net,
        refunds_minor: 0,
        settlement_received_minor: 0,
        settlement_sent_minor: 0,
        fees_minor: 0,
        unconfirmed_outflow_minor: 0,
        recurring_expected_minor: 0,
        recurring_paid_minor: 0,
        recurring_remaining_minor: 0,
    }
}

fn summary() -> ExpenseMonthSummary {
    ExpenseMonthSummary {
        month: "2026-07".to_owned(),
        month_start: date(1),
        month_end: date(31),
        status: ExpenseReportStatus::Provisional,
        currencies: vec![currency("KRW", 50_000), currency("USD", 1_200)],
        categories: vec![
            ExpenseCategoryTotal { category: ExpenseCategory::Food, currency: "KRW".to_owned(), amount_minor: 30_000 },
            ExpenseCategoryTotal { category: ExpenseCategory::Cafe, currency: "USD".to_owned(), amount_minor: 1_200 },
            ExpenseCategoryTotal { category: ExpenseCategory::Cafe, currency: "KRW".to_owned(), amount_minor: 20_000 },
        ],
        daily: vec![
            ExpenseDailyTotal { date: date(3), currency: "USD".to_owned(), amount_minor: 1_200 },
            ExpenseDailyTotal { date: date(4), currency: "KRW".to_owned(), amount_minor: 50_000 },
        ],
        completeness: ExpenseDataCompleteness {
            active_source_count: 2,
            covered_source_count: 1,
            pending_review_count: 0,
            rejected_row_count: 0,
        },
        recurring_candidates: 1,
    }
}

#[test]
fn each_currency_gets_its_own_report() {
    let snapshots = currency_snapshots(&summary());
    assert_eq!(snapshots.len(), 2);
    assert_eq!(snapshots[0].currency.currency, "KRW");
    assert_eq!(snapshots[0].categories.len(), 2);
    assert_eq!(snapshots[0].categories[1].category, ExpenseCategory::Cafe);
    assert_eq!(snapshots[0].daily.len(), 1);
    assert_eq!(snapshots[1].currency.currency, "USD");
    assert_eq!(snapshots[1].categories.len(), 1);
    assert_eq!(snapshots[1].daily[0].date, date(3));
    assert_eq!(snapshots[1].status, ExpenseReportStatus::Provisional);
    assert_eq!(snapshots[1].recurring_candidates, 1);
}

#[test]
fn reports_of_vanished_currencies_are_stale() {
    let stored = vec!["EUR".to_owned(), "KRW".to_owned(), "JPY".to_owned(), "USD".to_owned()];
    assert_eq!(stale_report_currencies(&stored, &summary()), vec!["EUR".to_owned(), "JPY".to_owned()]);
    assert!(stale_report_currencies(&vec!["KRW".to_owned()], &summary()).is_empty());
}

#[test]
fn the_report_material_holds_the_month_its_status_and_facts_by_id() {
    let month = summary();
    let previous = summary();
    let aggregate = build_report_aggregate(date(1), &month, &previous, "f".repeat(64)).unwrap();
    assert_eq!(aggregate.month_start, date(1));
    assert_eq!(aggregate.report_status, ExpenseReportStatus::Provisional);
    assert_eq!(aggregate.aggregate_sha256, "f".repeat(64));
    assert_eq!(aggregate.facts.len(), 2 * 10 + 3);
    assert!(aggregate.facts.windows(2).all(|w| w[0].fact_id < w[1].fact_id));
    assert!(aggregate.facts.iter().all(|f| !f.fact_id.starts_with("delta:")));
}

#[test]
fn confirmed_months_add_change_facts_each_under_its_own_id() {
    let mut month = summary();
    month.status = ExpenseReportStatus::Confirmed;
    let mut previous = summary();
    previous.status = ExpenseReportStatus::Confirmed;
    previous.currencies[0].net_personal_spend_minor = 40_000;
    let aggregate = build_report_aggregate(date(1), &month, &previous, "e".repeat(64)).unwrap();
    assert_eq!(aggregate.report_status, ExpenseReportStatus::Confirmed);
    assert_eq!(aggregate.facts.len(), 2 * 10 + 3 + 2 * 7 + 3);
    assert!(aggregate.facts.windows(2).all(|w| w[0].fact_id < w[1].fact_id));
    let change = aggregate
        .facts
        .iter()
        .find(|f| f.fact_id == "delta:currency:KRW:net_personal_spend")
        .unwrap();
    assert_eq!(change.amount_minor, 10_000);
}
