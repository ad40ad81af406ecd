//! A month summary split into the per-currency reports that are stored, and the stored
//! reports of currencies the month no longer has.
use vstd::prelude::*;

use crate::calendar::CivilDate;
use crate::expense_types::{
    ExpenseCategoryTotal, ExpenseCurrencySummary, ExpenseDailyTotal, ExpenseDataCompleteness,
    ExpenseReportStatus,
};
use crate::month_summary::ExpenseMonthSummary;
use crate::text::same_text;

verus! {

/// One currency's report of a month: its totals, the category and daily totals in it,
/// and what the whole month shares.
#[derive(Debug, Clone, PartialEq, Eq)]
pub struct ExpenseMonthCurrencySnapshot {
    pub month_start: CivilDate,
    pub month_end: CivilDate,
    pub status: ExpenseReportStatus,
    pub currency: ExpenseCurrencySummary,
    pub categories: Vec<ExpenseCategoryTotal>,
    pub daily: Vec<ExpenseDailyTotal>,
    pub completeness: ExpenseDataCompleteness,
    pub recurring_candidates: u32,
}

/// The category totals in a currency, in their order.
pub open spec fn categories_in(totals: Seq<ExpenseCategoryTotal>, currency: Seq<char>) -> Seq<ExpenseCategoryTotal> {
    totals.filter(|t: ExpenseCategoryTotal| t.currency@ == currency)
}

/// The daily totals in a currency, in their order.
pub open spec fn daily_in(totals: Seq<ExpenseDailyTotal>, currency: Seq<char>) -> Seq<ExpenseDailyTotal> {
    totals.filter(|t: ExpenseDailyTotal| t.currency@ == currency)
}

/// Whether `s` is the report of the month's currency `c`.
pub open spec fn is_currency_snapshot(
    s: ExpenseMonthCurrencySnapshot,
    summary: ExpenseMonthSummary,
    c: ExpenseCurrencySummary,
) -> bool {
    &&& s.month_start == summary.month_start
    &&& s.month_end == summary.month_end
    &&& s.status == summary.status
    &&& s.currency == c
    &&& s.categories@ == categories_in(summary.categories@, c.currency@)
    &&& s.daily@ == daily_in(summary.daily@, c.currency@)
    &&& s.completeness == summary.completeness
    &&& s.recurring_candidates == summary.recurring_candidates
}

fn copy_currency(c: &ExpenseCurrencySummary) -> (r: ExpenseCurrencySummary)
    ensures
        r == *c,
{
    ExpenseCurrencySummary {
        currency: c.currency.clone(),
        net_personal_spend_minor: c.net_personal_spend_minor,
        gross_purchase_minor: c.gross_purchase_minor,
        refunds_minor: c.refunds_minor,
        settlement_received_minor: c.settlement_received_minor,
        settlement_sent_minor: c.settlement_sent_minor,
        fees_minor: c.fees_minor,
        unconfirmed_outflow_minor: c.unconfirmed_outflow_minor,
        recurring_expected_minor: c.recurring_expected_minor,
        recurring_paid_minor: c.recurring_paid_minor,
        recurring_remaining_minor: c.recurring_remaining_minor,
    }
}

/// The category totals of a month in one currency.
pub fn category_totals_in(totals: &Vec<ExpenseCategoryTotal>, currency: &String) -> (r: Vec<ExpenseCategoryTotal>)
    ensures
        r@ == categories_in(totals@, currency@),
{
    let mut out: Vec<ExpenseCategoryTotal> = Vec::new();
    let mut i: usize = 0;
    while i < totals.len()
        invariant
            0 <= i <= totals@.len(),
            out@ == categories_in(totals@.subrange(0, i as int), currency@),
        decreases totals@.len() - i,
    {
        let t = &totals[i];
        if same_text(&t.currency, currency) {
            out.push(ExpenseCategoryTotal { category: t.category, currency: t.currency.clone(), amount_minor: t.amount_minor });
        }
        i = i + 1;
        assert(totals@.subrange(0, i as int).drop_last() =~= totals@.subrange(0, i - 1));
        proof {
            reveal(Seq::filter);
        }
    }
    assert(totals@.subrange(0, totals@.len() as int) =~= totals@);
    out
}

/// The daily totals of a month in one currency.
pub fn daily_totals_in(totals: &Vec<ExpenseDailyTotal>, currency: &String) -> (r: Vec<ExpenseDailyTotal>)
    ensures
        r@ == daily_in(totals@, currency@),
{
    let mut out: Vec<ExpenseDailyTotal> = Vec::new();
    let mut i: usize = 0;
    while i < totals.len()
        invariant
            0 <= i <= totals@.len(),
            out@ == daily_in(totals@.subrange(0, i as int), currency@),
        decreases totals@.len() - i,
    {
        let t = &totals[i];
        if same_text(&t.currency, currency) {
            out.push(ExpenseDailyTotal { date: t.date, currency: t.currency.clone(), amount_minor: t.amount_minor });
        }
        i = i + 1;
        assert(totals@.subrange(0, i as int).drop_last() =~= totals@.subrange(0, i - 1));
        proof {
            reveal(Seq::filter);
        }
    }
    assert(totals@.subrange(0, totals@.len() as int) =~= totals@);
    out
}

/// The reports of a month, one per currency in the order of its currencies.
pub fn currency_snapshots(summary: &ExpenseMonthSummary) -> (r: Vec<ExpenseMonthCurrencySnapshot>)
    ensures
        r@.len() == summary.currencies@.len(),
        forall|i: int| 0 <= i < r@.len() ==> is_currency_snapshot(#[trigger] r@[i], *summary, summary.currencies@[i]),
{
    let mut out: Vec<ExpenseMonthCurrencySnapshot> = Vec::new();
    let mut i: usize = 0;
    while i < summary.currencies.len()
        invariant
            0 <= i <= summary.currencies@.len(),
            out@.len() == i,
            forall|k: int| 0 <= k < i ==> is_currency_snapshot(#[trigger] out@[k], *summary, summary.currencies@[k]),
        decreases summary.currencies@.len() - i,
    {
        let c = &summary.currencies[i];
        let snapshot = ExpenseMonthCurrencySnapshot {
            month_start: summary.month_start,
            month_end: summary.month_end,
            status: summary.status,
            currency: copy_currency(c),
            categories: category_totals_in(&summary.categories, &c.currency),
            daily: daily_totals_in(&summary.daily, &c.currency),
            completeness: summary.completeness,
            recurring_candidates: summary.recurring_candidates,
        };
        out.push(snapshot);
        i = i + 1;
    }
    out
}

/// Whether a currency has totals in the month.
pub open spec fn has_currency(summary: ExpenseMonthSummary, currency: Seq<char>) -> bool {
    exists|i: int| 0 <= i < summary.currencies@.len() && #[trigger] summary.currencies@[i].currency@ == currency
}

/// The stored report currencies, in their order, that the month no longer has.
pub open spec fn stale_in(stored: Seq<String>, summary: ExpenseMonthSummary) -> Seq<String> {
    stored.filter(|c: String| !has_currency(summary, c@))
}

fn month_has_currency(summary: &ExpenseMonthSummary, currency: &String) -> (r: bool)
    ensures
        r == has_currency(*summary, currency@),
{
    let mut i: usize = 0;
    while i < summary.currencies.len()
        invariant
            0 <= i <= summary.currencies@.len(),
            forall|k: int| 0 <= k < i ==> #[trigger] summary.currencies@[k].currency@ != currency@,
        decreases summary.currencies@.len() - i,
    {
        if same_text(&summary.currencies[i].currency, currency) {
            return true;
        }
        i = i + 1;
    }
    false
}

/// The stored reports of a month whose currency it no longer has: they are removed.
pub fn stale_report_currencies(stored: &Vec<String>, summary: &ExpenseMonthSummary) -> (r: Vec<String>)
    ensures
        r@ == stale_in(stored@, *summary),
{
    let mut out: Vec<String> = Vec::new();
    let mut i: usize = 0;
    while i < stored.len()
        invariant
            0 <= i <= stored@.len(),
            out@ == stale_in(stored@.subrange(0, i as int), *summary),
        decreases stored@.len() - i,
    {
        if !month_has_currency(summary, &stored[i]) {
            out.push(stored[i].clone());
        }
        i = i + 1;
        assert(stored@.subrange(0, i as int).drop_last() =~= stored@.subrange(0, i - 1));
        proof {
            reveal(Seq::filter);
        }
    }
    assert(stored@.subrange(0, stored@.len() as int) =~= stored@);
    out
}

} // verus!
