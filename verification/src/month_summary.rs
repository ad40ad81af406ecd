//! The month summary of the expense ledger: per-currency totals, per-category and
//! per-day net spending, and how complete the month's data is.
use vstd::prelude::*;

use crate::calendar::{
    date_before, date_lt, date_not_after, earlier_of, first_of_next_month, later_of,
    lemma_date_total, lemma_date_transitive, lemma_next_day_order, month_label, month_text,
    next_day, pred, previous_day, representable, succ, valid_date, CivilDate,
};
use crate::error::{broken, invalid, Error};
use crate::expense::{safe_summary_amount, MAX_SAFE_AMOUNT_MINOR};
use crate::expense_types::{
    ExpenseCategory, ExpenseCategoryTotal, ExpenseCurrencySummary, ExpenseDailyTotal,
    ExpenseDataCompleteness, ExpenseDirection, ExpenseEventKind, ExpenseEventStatus,
    ExpenseReportStatus, RecurringOccurrenceStatus,
};
use crate::recurring::next_month;
use crate::tally::{column_view, keys_sorted, lemma_well_formed_weaken, lex_lt, tally_add, tally_add_exec, Tally, TallyEntry};
use crate::text::{chars_of, opt_view, str_eq};

verus! {

/// One ledger event posted in the month, with what its allocations say of it.
#[derive(Debug, Clone, PartialEq, Eq)]
pub struct MonthEventRow {
    pub event_kind: String,
    pub category: String,
    pub event_status: String,
    pub amount_minor: i64,
    pub currency: String,
    pub posted_date: CivilDate,
    pub direction: Option<String>,
    /// The personal share allocated to the event, if any.
    pub personal_amount_minor: Option<i64>,
    /// Whether settlements are linked to the event.
    pub has_linked_settlements: bool,
    /// Whether the event is a settlement linked to a confirmed purchase.
    pub linked_to_confirmed_purchase: bool,
}

/// One recurring occurrence due in the month.
#[derive(Debug, Clone, PartialEq, Eq)]
pub struct MonthOccurrence {
    pub currency: String,
    pub expected_amount_minor: i64,
    pub actual_amount_minor: Option<i64>,
    pub status: RecurringOccurrenceStatus,
}

/// The counts that decide how complete a month's data is.
#[derive(Debug, Clone, Copy, PartialEq, Eq, Structural)]
pub struct MonthCompletenessCounts {
    /// Active sources required for a complete report whose coverage began by month end.
    pub active_source_count: u32,
    /// Of those, the sources with an import overlapping the month.
    pub present_source_count: u32,
    /// Of those, the sources whose imports cover every day of the month.
    pub covered_source_count: u32,
    pub rejected_row_count: u32,
    pub pending_review_count: u32,
    pub recurring_candidates: u32,
    pub unconfirmed_event_count: u32,
}

/// Incomplete without every required source present or with rejected rows; provisional
/// with a gap in coverage, a pending review or an unconfirmed event; else confirmed.
pub open spec fn month_status(c: MonthCompletenessCounts) -> ExpenseReportStatus {
    if c.active_source_count == 0 || c.present_source_count < c.active_source_count
        || c.rejected_row_count > 0 {
        ExpenseReportStatus::Incomplete
    } else if c.covered_source_count < c.active_source_count || c.pending_review_count > 0
        || c.unconfirmed_event_count > 0 {
        ExpenseReportStatus::Provisional
    } else {
        ExpenseReportStatus::Confirmed
    }
}

/// How complete a month's data is.
pub fn month_report_status(c: MonthCompletenessCounts) -> (s: ExpenseReportStatus)
    ensures
        s == month_status(c),
{
    if c.active_source_count == 0 || c.present_source_count < c.active_source_count
        || c.rejected_row_count > 0 {
        ExpenseReportStatus::Incomplete
    } else if c.covered_source_count < c.active_source_count || c.pending_review_count > 0
        || c.unconfirmed_event_count > 0 {
        ExpenseReportStatus::Provisional
    } else {
        ExpenseReportStatus::Confirmed
    }
}

/// The kind a stored text names.
pub open spec fn kind_named(s: Seq<char>) -> ExpenseEventKind {
    choose|k: ExpenseEventKind| k.name() == s
}

/// The category a stored text names.
pub open spec fn category_named(s: Seq<char>) -> ExpenseCategory {
    choose|c: ExpenseCategory| c.name() == s
}

/// The status a stored text names.
pub open spec fn status_named(s: Seq<char>) -> ExpenseEventStatus {
    choose|t: ExpenseEventStatus| t.name() == s
}

/// Whether the stored kind, category and status of an event all name known values.
pub open spec fn row_readable(r: MonthEventRow) -> bool {
    &&& exists|k: ExpenseEventKind| k.name() == r.event_kind@
    &&& exists|c: ExpenseCategory| c.name() == r.category@
    &&& exists|t: ExpenseEventStatus| t.name() == r.event_status@
}

/// Whether every event is readable.
pub open spec fn rows_readable(rows: Seq<MonthEventRow>) -> bool {
    forall|i: int| 0 <= i < rows.len() ==> row_readable(#[trigger] rows[i])
}

/// What a confirmed event adds to personal spending: a purchase its personal share (or
/// nothing when settlements fully reimburse it, or all of it without allocations), a
/// manual recurring payment or fee all of it, a refund minus it, a settlement the
/// opposite of its flow unless it belongs to a confirmed purchase, and transfers nothing.
pub open spec fn net_effect(
    kind: ExpenseEventKind,
    amount: int,
    personal: Option<i64>,
    has_links: bool,
    linked: bool,
) -> int {
    match kind {
        ExpenseEventKind::Purchase => match personal {
            Some(p) => p as int,
            None => if has_links {
                0
            } else {
                amount
            },
        },
        ExpenseEventKind::ManualRecurring => amount,
        ExpenseEventKind::Refund => -amount,
        ExpenseEventKind::SettlementReceived => if linked {
            0
        } else {
            -amount
        },
        ExpenseEventKind::SettlementSent => if linked {
            0
        } else {
            amount
        },
        ExpenseEventKind::Fee => amount,
        _ => 0,
    }
}

/// The net effect of a readable event; zero unless it is confirmed.
pub open spec fn row_net(r: MonthEventRow) -> int {
    if status_named(r.event_status@) == ExpenseEventStatus::Confirmed {
        net_effect(
            kind_named(r.event_kind@),
            r.amount_minor as int,
            r.personal_amount_minor,
            r.has_linked_settlements,
            r.linked_to_confirmed_purchase,
        )
    } else {
        0
    }
}

/// Whether an event is an unconfirmed outflow.
pub open spec fn unconfirmed_outflow(r: MonthEventRow) -> bool {
    status_named(r.event_status@) == ExpenseEventStatus::Unconfirmed && opt_view(r.direction)
        == Some(ExpenseDirection::Debit.name())
}

/// Whether a confirmed event has one of the given kinds; its amount then counts there.
pub open spec fn counted_as(r: MonthEventRow, a: ExpenseEventKind, b: ExpenseEventKind) -> int {
    let k = kind_named(r.event_kind@);
    if status_named(r.event_status@) == ExpenseEventStatus::Confirmed && (k == a || k == b) {
        r.amount_minor as int
    } else {
        0
    }
}

/// The columns an event adds to its currency: net spending, gross purchases, refunds,
/// settlements received and sent, fees, unconfirmed outflow, and (zero here) the three
/// recurring columns.
pub open spec fn event_columns(r: MonthEventRow) -> Seq<int> {
    seq![
        row_net(r),
        counted_as(r, ExpenseEventKind::Purchase, ExpenseEventKind::ManualRecurring),
        counted_as(r, ExpenseEventKind::Refund, ExpenseEventKind::Refund),
        counted_as(r, ExpenseEventKind::SettlementReceived, ExpenseEventKind::SettlementReceived),
        counted_as(r, ExpenseEventKind::SettlementSent, ExpenseEventKind::SettlementSent),
        counted_as(r, ExpenseEventKind::Fee, ExpenseEventKind::Fee),
        if unconfirmed_outflow(r) {
            r.amount_minor as int
        } else {
            0
        },
        0,
        0,
        0,
    ]
}

/// Whether an occurrence was paid or matched.
pub open spec fn occurrence_settled(o: MonthOccurrence) -> bool {
    o.status == RecurringOccurrenceStatus::Paid || o.status == RecurringOccurrenceStatus::Matched
}

/// The columns an occurrence adds: expected, then paid (the actual amount) or remaining
/// (the expected amount).
pub open spec fn occurrence_columns(o: MonthOccurrence) -> Seq<int> {
    seq![
        0,
        0,
        0,
        0,
        0,
        0,
        0,
        o.expected_amount_minor as int,
        if occurrence_settled(o) {
            match o.actual_amount_minor {
                Some(a) => a as int,
                None => 0,
            }
        } else {
            0
        },
        if occurrence_settled(o) {
            0
        } else {
            o.expected_amount_minor as int
        },
    ]
}

/// A text as an ordering key.
pub open spec fn text_key(s: Seq<char>) -> Seq<i64> {
    Seq::new(s.len(), |i: int| s[i] as u32 as i64)
}

/// The ordering key of a category and currency.
pub open spec fn category_key(c: ExpenseCategory, currency: Seq<char>) -> Seq<i64> {
    seq![c.rank() as i64] + text_key(currency)
}

/// The ordering key of a day and currency.
pub open spec fn day_key(d: CivilDate, currency: Seq<char>) -> Seq<i64> {
    seq![d.year as i64, d.month as i64, d.day as i64] + text_key(currency)
}

/// The per-currency totals of the events, in currency order; every event's currency
/// has an entry, whatever its status.
pub open spec fn currency_totals(rows: Seq<MonthEventRow>) -> Seq<TallyEntry<String>>
    decreases rows.len(),
{
    if rows.len() == 0 {
        Seq::empty()
    } else {
        let r = rows.last();
        tally_add(
            currency_totals(rows.drop_last()),
            text_key(r.currency@),
            r.currency,
            event_columns(r),
        )
    }
}

/// The per-currency totals once the recurring occurrences are added.
pub open spec fn with_occurrences(base: Seq<TallyEntry<String>>, occs: Seq<MonthOccurrence>) -> Seq<
    TallyEntry<String>,
>
    decreases occs.len(),
{
    if occs.len() == 0 {
        base
    } else {
        let o = occs.last();
        tally_add(
            with_occurrences(base, occs.drop_last()),
            text_key(o.currency@),
            o.currency,
            occurrence_columns(o),
        )
    }
}

/// Net spending per category and currency, counting only events whose net effect is
/// not zero.
pub open spec fn category_totals(rows: Seq<MonthEventRow>) -> Seq<
    TallyEntry<(ExpenseCategory, String)>,
>
    decreases rows.len(),
{
    if rows.len() == 0 {
        Seq::empty()
    } else {
        let r = rows.last();
        let prev = category_totals(rows.drop_last());
        if row_net(r) != 0 {
            let c = category_named(r.category@);
            tally_add(prev, category_key(c, r.currency@), (c, r.currency), seq![row_net(r)])
        } else {
            prev
        }
    }
}

/// Net spending per day and currency, counting only events whose net effect is not zero.
pub open spec fn daily_totals(rows: Seq<MonthEventRow>) -> Seq<TallyEntry<(CivilDate, String)>>
    decreases rows.len(),
{
    if rows.len() == 0 {
        Seq::empty()
    } else {
        let r = rows.last();
        let prev = daily_totals(rows.drop_last());
        if row_net(r) != 0 {
            tally_add(
                prev,
                day_key(r.posted_date, r.currency@),
                (r.posted_date, r.currency),
                seq![row_net(r)],
            )
        } else {
            prev
        }
    }
}

/// Whether every total lies in the range amounts are reported in.
pub open spec fn totals_reportable<L>(s: Seq<TallyEntry<L>>) -> bool {
    forall|i: int, j: int|
        0 <= i < s.len() && 0 <= j < s[i].2.len() ==> -MAX_SAFE_AMOUNT_MINOR <= #[trigger] s[i].2[j]
            <= MAX_SAFE_AMOUNT_MINOR
}

/// A currency summary holds the columns of a totals entry.
pub open spec fn currency_summary_of(s: ExpenseCurrencySummary, e: TallyEntry<String>) -> bool {
    &&& s.currency == e.1
    &&& s.net_personal_spend_minor == e.2[0]
    &&& s.gross_purchase_minor == e.2[1]
    &&& s.refunds_minor == e.2[2]
    &&& s.settlement_received_minor == e.2[3]
    &&& s.settlement_sent_minor == e.2[4]
    &&& s.fees_minor == e.2[5]
    &&& s.unconfirmed_outflow_minor == e.2[6]
    &&& s.recurring_expected_minor == e.2[7]
    &&& s.recurring_paid_minor == e.2[8]
    &&& s.recurring_remaining_minor == e.2[9]
}

/// The ordering key of a text.
pub fn text_key_of(s: &str) -> (k: Vec<i64>)
    ensures
        k@ == text_key(s@),
{
    let chars = chars_of(s);
    let mut k: Vec<i64> = Vec::new();
    let mut i: usize = 0;
    while i < chars.len()
        invariant
            0 <= i <= chars@.len(),
            chars@ == s@,
            k@ == text_key(s@.subrange(0, i as int)),
        decreases chars@.len() - i,
    {
        k.push(chars[i] as u32 as i64);
        i = i + 1;
        assert(k@ =~= text_key(s@.subrange(0, i as int)));
    }
    assert(s@.subrange(0, s@.len() as int) == s@);
    k
}

/// Builds a key from leading numbers followed by a text.
fn prefixed_key(prefix: Vec<i64>, s: &str) -> (k: Vec<i64>)
    ensures
        k@ == prefix@ + text_key(s@),
{
    let tail = text_key_of(s);
    let mut k = prefix;
    let ghost p = k@;
    let mut i: usize = 0;
    while i < tail.len()
        invariant
            0 <= i <= tail@.len(),
            k@ == p + tail@.subrange(0, i as int),
        decreases tail@.len() - i,
    {
        k.push(tail[i]);
        i = i + 1;
        assert(k@ =~= p + tail@.subrange(0, i as int));
    }
    assert(tail@.subrange(0, tail@.len() as int) == tail@);
    k
}

/// A column of ten sums.
fn ten_columns(
    a: i128,
    b: i128,
    c: i128,
    d: i128,
    e: i128,
    f: i128,
    g: i128,
    h: i128,
    i: i128,
    j: i128,
) -> (v: Vec<i128>)
    ensures
        column_view(v@) == seq![
            a as int,
            b as int,
            c as int,
            d as int,
            e as int,
            f as int,
            g as int,
            h as int,
            i as int,
            j as int,
        ],
{
    let mut v: Vec<i128> = Vec::new();
    v.push(a);
    v.push(b);
    v.push(c);
    v.push(d);
    v.push(e);
    v.push(f);
    v.push(g);
    v.push(h);
    v.push(i);
    v.push(j);
    assert(column_view(v@) =~= seq![
        a as int,
        b as int,
        c as int,
        d as int,
        e as int,
        f as int,
        g as int,
        h as int,
        i as int,
        j as int,
    ]);
    v
}

/// The largest magnitude one event or occurrence adds to a column.
pub open spec fn step_bound() -> int {
    0x8000_0000_0000_0000
}

/// The month summary of the expense ledger.
#[derive(Debug, Clone, PartialEq, Eq)]
pub struct ExpenseMonthSummary {
    pub month: String,
    pub month_start: CivilDate,
    pub month_end: CivilDate,
    pub status: ExpenseReportStatus,
    pub currencies: Vec<ExpenseCurrencySummary>,
    pub categories: Vec<ExpenseCategoryTotal>,
    pub daily: Vec<ExpenseDailyTotal>,
    pub completeness: ExpenseDataCompleteness,
    pub recurring_candidates: u32,
}

/// Reads the stored kind, category and status of an event.
fn read_row(row: &MonthEventRow) -> (r: Result<
    (ExpenseEventKind, ExpenseCategory, ExpenseEventStatus),
    Error,
>)
    ensures
        r is Ok <==> row_readable(*row),
        r matches Ok((k, c, t)) ==> k == kind_named(row.event_kind@) && c == category_named(
            row.category@,
        ) && t == status_named(row.event_status@),
        r matches Err(e) ==> e is Invariant,
{
    let kind = ExpenseEventKind::parse(row.event_kind.as_str())?;
    let category = ExpenseCategory::parse(row.category.as_str())?;
    let status = ExpenseEventStatus::parse(row.event_status.as_str())?;
    proof {
        ExpenseEventKind::lemma_names_distinct();
        ExpenseCategory::lemma_names_distinct();
        ExpenseEventStatus::lemma_names_distinct();
        assert(kind.name() == row.event_kind@);
        assert(category.name() == row.category@);
        assert(status.name() == row.event_status@);
    }
    Ok((kind, category, status))
}

/// The columns an event adds to its currency, and its net effect.
fn event_columns_of(
    row: &MonthEventRow,
    kind: ExpenseEventKind,
    status: ExpenseEventStatus,
) -> (r: (Vec<i128>, i128))
    requires
        kind == kind_named(row.event_kind@),
        status == status_named(row.event_status@),
    ensures
        column_view(r.0@) == event_columns(*row),
        r.1 == row_net(*row),
        forall|j: int| 0 <= j < r.0@.len() ==> -step_bound() <= #[trigger] r.0@[j] <= step_bound(),
        r.0@.len() == 10,
{
    let amount = row.amount_minor as i128;
    let confirmed = status == ExpenseEventStatus::Confirmed;
    let outflow = status == ExpenseEventStatus::Unconfirmed && match &row.direction {
        Some(d) => str_eq(d.as_str(), ExpenseDirection::Debit.as_str()),
        None => false,
    };
    let net: i128 = if !confirmed {
        0
    } else {
        match kind {
            ExpenseEventKind::Purchase => match row.personal_amount_minor {
                Some(p) => p as i128,
                None => if row.has_linked_settlements {
                    0
                } else {
                    amount
                },
            },
            ExpenseEventKind::ManualRecurring => amount,
            ExpenseEventKind::Refund => -amount,
            ExpenseEventKind::SettlementReceived => if row.linked_to_confirmed_purchase {
                0
            } else {
                -amount
            },
            ExpenseEventKind::SettlementSent => if row.linked_to_confirmed_purchase {
                0
            } else {
                amount
            },
            ExpenseEventKind::Fee => amount,
            _ => 0,
        }
    };
    let purchases: i128 = if confirmed && (kind == ExpenseEventKind::Purchase || kind
        == ExpenseEventKind::ManualRecurring) {
        amount
    } else {
        0
    };
    let refunds: i128 = if confirmed && kind == ExpenseEventKind::Refund {
        amount
    } else {
        0
    };
    let received: i128 = if confirmed && kind == ExpenseEventKind::SettlementReceived {
        amount
    } else {
        0
    };
    let sent: i128 = if confirmed && kind == ExpenseEventKind::SettlementSent {
        amount
    } else {
        0
    };
    let fees: i128 = if confirmed && kind == ExpenseEventKind::Fee {
        amount
    } else {
        0
    };
    let unconfirmed: i128 = if outflow {
        amount
    } else {
        0
    };
    let v = ten_columns(net, purchases, refunds, received, sent, fees, unconfirmed, 0, 0, 0);
    proof {
        assert(v@.len() == 10) by {
            assert(column_view(v@).len() == 10);
        }
        assert forall|j: int| 0 <= j < v@.len() implies -step_bound() <= #[trigger] v@[j]
            <= step_bound() by {
            assert(column_view(v@)[j] == v@[j] as int);
        }
    }
    (v, net)
}

/// The columns an occurrence adds to its currency.
fn occurrence_columns_of(o: &MonthOccurrence) -> (v: Vec<i128>)
    ensures
        column_view(v@) == occurrence_columns(*o),
        forall|j: int| 0 <= j < v@.len() ==> -step_bound() <= #[trigger] v@[j] <= step_bound(),
        v@.len() == 10,
{
    let settled = o.status == RecurringOccurrenceStatus::Paid || o.status
        == RecurringOccurrenceStatus::Matched;
    let expected = o.expected_amount_minor as i128;
    let paid: i128 = if settled {
        match o.actual_amount_minor {
            Some(a) => a as i128,
            None => 0,
        }
    } else {
        0
    };
    let remaining: i128 = if settled {
        0
    } else {
        expected
    };
    let v = ten_columns(0, 0, 0, 0, 0, 0, 0, expected, paid, remaining);
    proof {
        assert(v@.len() == 10) by {
            assert(column_view(v@).len() == 10);
        }
        assert forall|j: int| 0 <= j < v@.len() implies -step_bound() <= #[trigger] v@[j]
            <= step_bound() by {
            assert(column_view(v@)[j] == v@[j] as int);
        }
    }
    v
}

/// A one-column sum.
fn one_column(a: i128) -> (v: Vec<i128>)
    ensures
        column_view(v@) == seq![a as int],
        v@.len() == 1,
        v@[0] == a,
{
    let mut v: Vec<i128> = Vec::new();
    v.push(a);
    assert(column_view(v@) =~= seq![a as int]);
    v
}

/// The three tallies of a month.
pub struct MonthTallies {
    pub currencies: Tally<String>,
    pub categories: Tally<(ExpenseCategory, String)>,
    pub daily: Tally<(CivilDate, String)>,
}

/// Folds the events into the per-currency, per-category and per-day tallies.
fn tally_events(rows: &Vec<MonthEventRow>) -> (r: Result<MonthTallies, Error>)
    ensures
        r is Ok <==> rows_readable(rows@),
        r matches Ok(t) ==> {
            &&& t.currencies.view() == currency_totals(rows@)
            &&& t.categories.view() == category_totals(rows@)
            &&& t.daily.view() == daily_totals(rows@)
            &&& t.currencies.width == 10 && t.categories.width == 1 && t.daily.width == 1
            &&& t.currencies.well_formed(rows@.len() * step_bound())
            &&& t.categories.well_formed(rows@.len() * step_bound())
            &&& t.daily.well_formed(rows@.len() * step_bound())
        },
        r matches Err(e) ==> e is Invariant,
{
    let mut currencies: Tally<String> = Tally::new(10);
    let mut categories: Tally<(ExpenseCategory, String)> = Tally::new(1);
    let mut daily: Tally<(CivilDate, String)> = Tally::new(1);
    let mut i: usize = 0;
    assert(rows@.take(0) =~= Seq::<MonthEventRow>::empty());
    while i < rows.len()
        invariant
            0 <= i <= rows@.len(),
            rows_readable(rows@.take(i as int)),
            currencies.view() == currency_totals(rows@.take(i as int)),
            categories.view() == category_totals(rows@.take(i as int)),
            daily.view() == daily_totals(rows@.take(i as int)),
            currencies.width == 10 && categories.width == 1 && daily.width == 1,
            currencies.well_formed(i * step_bound()),
            categories.well_formed(i * step_bound()),
            daily.well_formed(i * step_bound()),
        decreases rows@.len() - i,
    {
        let row = &rows[i];
        let ghost prefix = rows@.take(i + 1);
        assert(prefix.drop_last() == rows@.take(i as int));
        assert(prefix.last() == rows@[i as int]);
        let (kind, category, status) = match read_row(row) {
            Ok(v) => v,
            Err(e) => {
                return Err(e);
            },
        };
        let (columns, net) = event_columns_of(row, kind, status);
        let ghost bound = i * step_bound();
        tally_add_exec(
            &mut currencies,
            text_key_of(row.currency.as_str()),
            row.currency.clone(),
            columns,
            Ghost(bound),
            Ghost(step_bound()),
        );
        if net != 0 {
            let mut prefix_key: Vec<i64> = Vec::new();
            let rank = category.position();
            prefix_key.push(rank);
            let ckey = prefixed_key(prefix_key, row.currency.as_str());
            assert(ckey@ == category_key(category, row.currency@)) by {
                assert(prefix_key@ =~= seq![category.rank() as i64]);
            }
            tally_add_exec(
                &mut categories,
                ckey,
                (category, row.currency.clone()),
                one_column(net),
                Ghost(bound),
                Ghost(step_bound()),
            );
            let mut day_prefix: Vec<i64> = Vec::new();
            day_prefix.push(row.posted_date.year as i64);
            day_prefix.push(row.posted_date.month as i64);
            day_prefix.push(row.posted_date.day as i64);
            let dkey = prefixed_key(day_prefix, row.currency.as_str());
            assert(dkey@ == day_key(row.posted_date, row.currency@)) by {
                assert(day_prefix@ =~= seq![
                    row.posted_date.year as i64,
                    row.posted_date.month as i64,
                    row.posted_date.day as i64,
                ]);
            }
            tally_add_exec(
                &mut daily,
                dkey,
                (row.posted_date, row.currency.clone()),
                one_column(net),
                Ghost(bound),
                Ghost(step_bound()),
            );
        } else {
            proof {
                lemma_well_formed_weaken(&categories, bound, bound + step_bound());
                lemma_well_formed_weaken(&daily, bound, bound + step_bound());
            }
        }
        i = i + 1;
        proof {
            assert forall|k: int| 0 <= k < rows@.take(i as int).len() implies row_readable(
                #[trigger] rows@.take(i as int)[k],
            ) by {
                if k < i - 1 {
                    assert(rows@.take(i as int)[k] == rows@.take(i - 1)[k]);
                }
            }
        }
    }
    assert(rows@.take(rows@.len() as int) == rows@);
    Ok(MonthTallies { currencies, categories, daily })
}

/// Adds the recurring occurrences to the per-currency tally.
fn tally_occurrences(
    currencies: &mut Tally<String>,
    occurrences: &Vec<MonthOccurrence>,
    Ghost(start): Ghost<int>,
)
    requires
        old(currencies).width == 10,
        0 <= start,
        old(currencies).well_formed(start * step_bound()),
        start + occurrences@.len() <= 0xffff_ffff_ffff_ffff,
    ensures
        final(currencies).view() == with_occurrences(old(currencies).view(), occurrences@),
        final(currencies).width == 10,
        final(currencies).well_formed((start + occurrences@.len()) * step_bound()),
{
    let ghost base = currencies.view();
    let mut j: usize = 0;
    assert(occurrences@.take(0) =~= Seq::<MonthOccurrence>::empty());
    while j < occurrences.len()
        invariant
            0 <= j <= occurrences@.len(),
            0 <= start,
            start + occurrences@.len() <= 0xffff_ffff_ffff_ffff,
            currencies.view() == with_occurrences(base, occurrences@.take(j as int)),
            currencies.width == 10,
            currencies.well_formed((start + j) * step_bound()),
        decreases occurrences@.len() - j,
    {
        let o = &occurrences[j];
        let ghost prefix = occurrences@.take(j + 1);
        assert(prefix.drop_last() == occurrences@.take(j as int));
        assert(prefix.last() == occurrences@[j as int]);
        let columns = occurrence_columns_of(o);
        tally_add_exec(
            currencies,
            text_key_of(o.currency.as_str()),
            o.currency.clone(),
            columns,
            Ghost((start + j) * step_bound()),
            Ghost(step_bound()),
        );
        j = j + 1;
    }
    assert(occurrences@.take(occurrences@.len() as int) == occurrences@);
}

/// The ten reported columns of one currency.
fn report_currency(label: &String, sums: &Vec<i128>) -> (r: Result<ExpenseCurrencySummary, Error>)
    requires
        sums@.len() == 10,
    ensures
        r is Ok <==> forall|j: int| 0 <= j < 10 ==> -MAX_SAFE_AMOUNT_MINOR <= #[trigger] sums@[j]
            <= MAX_SAFE_AMOUNT_MINOR,
        r matches Ok(s) ==> currency_summary_of(s, (Seq::empty(), *label, column_view(sums@))),
        r matches Err(e) ==> e is Invariant,
{
    let net = safe_summary_amount("net personal spend", sums[0])?;
    let purchases = safe_summary_amount("gross purchases", sums[1])?;
    let refunds = safe_summary_amount("refunds", sums[2])?;
    let received = safe_summary_amount("settlement received", sums[3])?;
    let sent = safe_summary_amount("settlement sent", sums[4])?;
    let fees = safe_summary_amount("fees", sums[5])?;
    let unconfirmed = safe_summary_amount("unconfirmed outflow", sums[6])?;
    let expected = safe_summary_amount("recurring expected", sums[7])?;
    let paid = safe_summary_amount("recurring paid", sums[8])?;
    let remaining = safe_summary_amount("recurring remaining", sums[9])?;
    Ok(
        ExpenseCurrencySummary {
            currency: label.clone(),
            net_personal_spend_minor: net,
            gross_purchase_minor: purchases,
            refunds_minor: refunds,
            settlement_received_minor: received,
            settlement_sent_minor: sent,
            fees_minor: fees,
            unconfirmed_outflow_minor: unconfirmed,
            recurring_expected_minor: expected,
            recurring_paid_minor: paid,
            recurring_remaining_minor: remaining,
        },
    )
}

/// The reported per-currency totals.
fn report_currencies(t: &Tally<String>) -> (r: Result<Vec<ExpenseCurrencySummary>, Error>)
    requires
        t.width == 10,
        t.well_formed(i128::MAX as int),
    ensures
        r is Ok <==> totals_reportable(t.view()),
        r matches Ok(v) ==> v@.len() == t.view().len() && forall|i: int|
            0 <= i < v@.len() ==> currency_summary_of(#[trigger] v@[i], t.view()[i]),
        r matches Err(e) ==> e is Invariant,
{
    let mut out: Vec<ExpenseCurrencySummary> = Vec::new();
    let mut i: usize = 0;
    while i < t.len()
        invariant
            0 <= i <= t.keys@.len(),
            t.width == 10,
            t.well_formed(i128::MAX as int),
            out@.len() == i,
            forall|k: int| 0 <= k < i ==> currency_summary_of(#[trigger] out@[k], t.view()[k]),
            forall|k: int, j: int|
                0 <= k < i && 0 <= j < t.view()[k].2.len() ==> -MAX_SAFE_AMOUNT_MINOR
                    <= #[trigger] t.view()[k].2[j] <= MAX_SAFE_AMOUNT_MINOR,
        decreases t.keys@.len() - i,
    {
        let summary = match report_currency(&t.labels[i], &t.sums[i]) {
            Ok(s) => s,
            Err(e) => {
                proof {
                    let j = choose|j: int|
                        0 <= j < 10 && !(-MAX_SAFE_AMOUNT_MINOR <= #[trigger] t.sums@[i as int]@[j]
                            <= MAX_SAFE_AMOUNT_MINOR);
                    assert(t.view()[i as int].2[j] == t.sums@[i as int]@[j]);
                }
                return Err(e);
            },
        };
        out.push(summary);
        i = i + 1;
    }
    Ok(out)
}

/// The reported per-category totals.
fn report_categories(t: &Tally<(ExpenseCategory, String)>) -> (r: Result<
    Vec<ExpenseCategoryTotal>,
    Error,
>)
    requires
        t.width == 1,
        t.well_formed(i128::MAX as int),
    ensures
        r is Ok <==> totals_reportable(t.view()),
        r matches Ok(v) ==> v@.len() == t.view().len() && forall|i: int|
            0 <= i < v@.len() ==> (#[trigger] v@[i]).category == t.view()[i].1.0 && v@[i].currency
                == t.view()[i].1.1 && v@[i].amount_minor == t.view()[i].2[0],
        r matches Err(e) ==> e is Invariant,
{
    let mut out: Vec<ExpenseCategoryTotal> = Vec::new();
    let mut i: usize = 0;
    while i < t.len()
        invariant
            0 <= i <= t.keys@.len(),
            t.width == 1,
            t.well_formed(i128::MAX as int),
            out@.len() == i,
            forall|k: int|
                0 <= k < i ==> (#[trigger] out@[k]).category == t.view()[k].1.0 && out@[k].currency
                    == t.view()[k].1.1 && out@[k].amount_minor == t.view()[k].2[0],
            forall|k: int, j: int|
                0 <= k < i && 0 <= j < t.view()[k].2.len() ==> -MAX_SAFE_AMOUNT_MINOR
                    <= #[trigger] t.view()[k].2[j] <= MAX_SAFE_AMOUNT_MINOR,
        decreases t.keys@.len() - i,
    {
        assert(t.view()[i as int].2[0] == t.sums@[i as int]@[0]);
        let amount = match safe_summary_amount("category total", t.sums[i][0]) {
            Ok(a) => a,
            Err(e) => {
                return Err(e);
            },
        };
        out.push(
            ExpenseCategoryTotal {
                category: t.labels[i].0,
                currency: t.labels[i].1.clone(),
                amount_minor: amount,
            },
        );
        i = i + 1;
    }
    Ok(out)
}

/// The reported per-day totals.
fn report_daily(t: &Tally<(CivilDate, String)>) -> (r: Result<Vec<ExpenseDailyTotal>, Error>)
    requires
        t.width == 1,
        t.well_formed(i128::MAX as int),
    ensures
        r is Ok <==> totals_reportable(t.view()),
        r matches Ok(v) ==> v@.len() == t.view().len() && forall|i: int|
            0 <= i < v@.len() ==> (#[trigger] v@[i]).date == t.view()[i].1.0 && v@[i].currency
                == t.view()[i].1.1 && v@[i].amount_minor == t.view()[i].2[0],
        r matches Err(e) ==> e is Invariant,
{
    let mut out: Vec<ExpenseDailyTotal> = Vec::new();
    let mut i: usize = 0;
    while i < t.len()
        invariant
            0 <= i <= t.keys@.len(),
            t.width == 1,
            t.well_formed(i128::MAX as int),
            out@.len() == i,
            forall|k: int|
                0 <= k < i ==> (#[trigger] out@[k]).date == t.view()[k].1.0 && out@[k].currency
                    == t.view()[k].1.1 && out@[k].amount_minor == t.view()[k].2[0],
            forall|k: int, j: int|
                0 <= k < i && 0 <= j < t.view()[k].2.len() ==> -MAX_SAFE_AMOUNT_MINOR
                    <= #[trigger] t.view()[k].2[j] <= MAX_SAFE_AMOUNT_MINOR,
        decreases t.keys@.len() - i,
    {
        assert(t.view()[i as int].2[0] == t.sums@[i as int]@[0]);
        let amount = match safe_summary_amount("daily total", t.sums[i][0]) {
            Ok(a) => a,
            Err(e) => {
                return Err(e);
            },
        };
        out.push(
            ExpenseDailyTotal {
                date: t.labels[i].0,
                currency: t.labels[i].1.clone(),
                amount_minor: amount,
            },
        );
        i = i + 1;
    }
    Ok(out)
}

/// Whether a month start and the month after it lie in the calendar's range.
pub open spec fn month_in_range(m: CivilDate) -> bool {
    m.day == 1 && representable(first_of_next_month(m))
}

/// The per-currency totals of a month: events, then recurring occurrences.
pub open spec fn month_currency_totals(
    rows: Seq<MonthEventRow>,
    occurrences: Seq<MonthOccurrence>,
) -> Seq<TallyEntry<String>> {
    with_occurrences(currency_totals(rows), occurrences)
}

/// Summarizes a month of the ledger from its events, its recurring occurrences and its
/// completeness counts. The month is given by its first day. Currencies come out in
/// currency order, categories in category-then-currency order, days in date-then-currency
/// order; only events whose net effect is not zero reach the category and day totals.
pub fn summarize_month(
    requested_month: CivilDate,
    rows: &Vec<MonthEventRow>,
    occurrences: &Vec<MonthOccurrence>,
    counts: MonthCompletenessCounts,
) -> (r: Result<ExpenseMonthSummary, Error>)
    requires
        representable(requested_month),
        rows@.len() + occurrences@.len() <= 0xffff_ffff_ffff_ffff,
    ensures
        r is Ok <==> {
            &&& month_in_range(requested_month)
            &&& rows_readable(rows@)
            &&& totals_reportable(month_currency_totals(rows@, occurrences@))
            &&& totals_reportable(category_totals(rows@))
            &&& totals_reportable(daily_totals(rows@))
        },
        r matches Err(e) ==> (e is Invalid <==> !month_in_range(requested_month)),
        r matches Err(e) ==> (e is Invalid || e is Invariant),
        r matches Ok(s) ==> {
            let cur = month_currency_totals(rows@, occurrences@);
            let cat = category_totals(rows@);
            let day = daily_totals(rows@);
            &&& s.month@ == month_text(requested_month.year as int, requested_month.month as int)
            &&& s.month_start == requested_month
            &&& s.month_end == previous_day(first_of_next_month(requested_month))
            &&& s.status == month_status(counts)
            &&& s.currencies@.len() == cur.len()
            &&& forall|i: int|
                0 <= i < cur.len() ==> currency_summary_of(#[trigger] s.currencies@[i], cur[i])
            &&& s.categories@.len() == cat.len()
            &&& forall|i: int|
                0 <= i < cat.len() ==> (#[trigger] s.categories@[i]).category == cat[i].1.0
                    && s.categories@[i].currency == cat[i].1.1 && s.categories@[i].amount_minor
                    == cat[i].2[0]
            &&& s.daily@.len() == day.len()
            &&& forall|i: int|
                0 <= i < day.len() ==> (#[trigger] s.daily@[i]).date == day[i].1.0
                    && s.daily@[i].currency == day[i].1.1 && s.daily@[i].amount_minor
                    == day[i].2[0]
            &&& summary_lists_of(rows@, occurrences@, s)
            &&& summary_lists_sorted(s)
            &&& s.completeness == (ExpenseDataCompleteness {
                active_source_count: counts.active_source_count,
                covered_source_count: counts.covered_source_count,
                pending_review_count: counts.pending_review_count,
                rejected_row_count: counts.rejected_row_count,
            })
            &&& s.recurring_candidates == counts.recurring_candidates
        },
{
    let month_after = next_month(requested_month)?;
    let month_end = match pred(month_after) {
        Some(d) => d,
        None => return Err(invalid("expense month is outside the supported range")),
    };
    let tallies = tally_events(rows)?;
    let mut currencies = tallies.currencies;
    tally_occurrences(&mut currencies, occurrences, Ghost(rows@.len() as int));
    proof {
        lemma_well_formed_weaken(
            &currencies,
            (rows@.len() + occurrences@.len()) * step_bound(),
            i128::MAX as int,
        );
        lemma_well_formed_weaken(
            &tallies.categories,
            rows@.len() * step_bound(),
            i128::MAX as int,
        );
        lemma_well_formed_weaken(&tallies.daily, rows@.len() * step_bound(), i128::MAX as int);
    }
    let currency_list = report_currencies(&currencies)?;
    let category_list = report_categories(&tallies.categories)?;
    let daily_list = report_daily(&tallies.daily)?;
    let summary = ExpenseMonthSummary {
        month: month_label(requested_month.year, requested_month.month),
        month_start: requested_month,
        month_end,
        status: month_report_status(counts),
        currencies: currency_list,
        categories: category_list,
        daily: daily_list,
        completeness: ExpenseDataCompleteness {
            active_source_count: counts.active_source_count,
            covered_source_count: counts.covered_source_count,
            pending_review_count: counts.pending_review_count,
            rejected_row_count: counts.rejected_row_count,
        },
        recurring_candidates: counts.recurring_candidates,
    };
    proof {
        lemma_summary_lists_sorted(rows@, occurrences@, summary);
    }
    Ok(summary)
}

/// The days one import covers, first and last included.
#[derive(Debug, Clone, Copy, PartialEq, Eq, Structural)]
pub struct CoverageRange {
    pub start: CivilDate,
    pub end: CivilDate,
}

/// Whether some import covers day `d`.
pub open spec fn day_covered(d: CivilDate, ranges: Seq<CoverageRange>) -> bool {
    exists|i: int|
        0 <= i < ranges.len() && date_not_after(ranges[i].start, d) && date_not_after(
            d,
            #[trigger] ranges[i].end,
        )
}

/// Whether the imports cover every day from `first` to `last`.
pub open spec fn span_covered(first: CivilDate, last: CivilDate, ranges: Seq<CoverageRange>) -> bool {
    forall|d: CivilDate|
        valid_date(d) && date_not_after(first, d) && date_not_after(d, last) ==> #[trigger] day_covered(
            d,
            ranges,
        )
}

/// Whether the ranges come in order of their first day, each made of real days.
pub open spec fn ranges_ordered(ranges: Seq<CoverageRange>) -> bool {
    &&& forall|i: int|
        0 <= i < ranges.len() ==> representable(#[trigger] ranges[i].start) && representable(
            ranges[i].end,
        )
    &&& forall|i: int, j: int|
        0 <= i < j < ranges.len() ==> date_not_after(#[trigger] ranges[i].start, #[trigger] ranges[j].start)
}

/// Whether the imports of one source, in order of their first day, cover every day from
/// `first` to `last`: a sweep that stops at the first day left uncovered.
pub fn source_covers_month(first: CivilDate, last: CivilDate, ranges: &Vec<CoverageRange>) -> (r: bool)
    requires
        representable(first),
        representable(last),
        date_not_after(first, last),
        ranges_ordered(ranges@),
    ensures
        r == span_covered(first, last, ranges@),
{
    let mut next = first;
    let mut i: usize = 0;
    while i < ranges.len()
        invariant
            0 <= i <= ranges@.len(),
            representable(first),
            representable(last),
            ranges_ordered(ranges@),
            representable(next),
            date_not_after(first, next),
            date_not_after(next, last),
            forall|d: CivilDate|
                valid_date(d) && date_not_after(first, d) && date_before(d, next)
                    ==> #[trigger] day_covered(d, ranges@),
            forall|k: int| 0 <= k < i ==> date_before(#[trigger] ranges@[k].end, next),
        decreases ranges@.len() - i,
    {
        let range = ranges[i];
        let start = later_of(range.start, first);
        let end = earlier_of(range.end, last);
        proof {
            lemma_date_total(range.end, last);
            lemma_date_total(range.start, first);
            lemma_date_total(end, next);
            lemma_date_total(start, next);
            lemma_date_transitive(range.end, last, next);
        }
        if date_lt(end, next) {
            proof {
                if !date_before(range.end, next) {
                    lemma_date_transitive(next, last, range.end);
                }
            }
            i = i + 1;
            continue;
        }
        if date_lt(next, start) {
            proof {
                assert(date_before(next, range.start)) by {
                    lemma_date_transitive(first, next, range.start);
                }
                assert(!day_covered(next, ranges@)) by {
                    if day_covered(next, ranges@) {
                        let k = choose|k: int|
                            0 <= k < ranges@.len() && date_not_after(ranges@[k].start, next)
                                && date_not_after(next, #[trigger] ranges@[k].end);
                        if k < i {
                            lemma_date_total(ranges@[k].end, next);
                        } else {
                            if k > i {
                                lemma_date_transitive(next, range.start, ranges@[k].start);
                            }
                            lemma_date_total(ranges@[k].start, next);
                        }
                    }
                }
            }
            return false;
        }
        if !date_lt(end, last) {
            proof {
                assert forall|d: CivilDate|
                    valid_date(d) && date_not_after(first, d) && date_not_after(
                        d,
                        last,
                    ) implies #[trigger] day_covered(d, ranges@) by {
                    lemma_date_total(d, next);
                    if !date_before(d, next) {
                        lemma_date_transitive(range.start, next, d);
                        lemma_date_transitive(d, last, range.end);
                        assert(date_not_after(range.start, d) && date_not_after(d, ranges@[i as int].end));
                    }
                }
            }
            return true;
        }
        proof {
            lemma_next_day_order(end, end);
            lemma_date_transitive(end, last, last);
        }
        let following = match succ(end) {
            Some(d) => d,
            None => {
                proof {
                    lemma_next_day_order(end, last);
                }
                next
            },
        };
        proof {
            lemma_next_day_order(end, last);
            assert(date_not_after(following, last)) by {
                lemma_date_total(following, last);
                if date_before(last, following) {
                    assert(date_not_after(last, end));
                }
            }
            assert forall|d: CivilDate|
                valid_date(d) && date_not_after(first, d) && date_before(
                    d,
                    following,
                ) implies #[trigger] day_covered(d, ranges@) by {
                lemma_next_day_order(end, d);
                lemma_date_total(d, next);
                if !date_before(d, next) {
                    lemma_date_transitive(range.start, next, d);
                    assert(date_not_after(range.start, d) && date_not_after(d, ranges@[i as int].end));
                }
            }
            assert forall|k: int| 0 <= k < i + 1 implies date_before(
                #[trigger] ranges@[k].end,
                following,
            ) by {
                if k < i {
                    lemma_date_transitive(ranges@[k].end, next, following);
                    lemma_next_day_order(end, next);
                }
            }
            lemma_date_transitive(first, next, following);
        }
        next = following;
        i = i + 1;
    }
    proof {
        assert(!day_covered(next, ranges@)) by {
            if day_covered(next, ranges@) {
                let k = choose|k: int|
                    0 <= k < ranges@.len() && date_not_after(ranges@[k].start, next)
                        && date_not_after(next, #[trigger] ranges@[k].end);
                lemma_date_total(ranges@[k].end, next);
            }
        }
    }
    false
}

/// The number of sources with at least one import touching the month.
pub open spec fn present_count(sources: Seq<Vec<CoverageRange>>) -> int
    decreases sources.len(),
{
    if sources.len() == 0 {
        0
    } else {
        present_count(sources.drop_last()) + if sources.last()@.len() > 0 {
            1int
        } else {
            0
        }
    }
}

/// The number of sources whose imports cover every day from `first` to `last`.
pub open spec fn covered_count(first: CivilDate, last: CivilDate, sources: Seq<Vec<CoverageRange>>) -> int
    decreases sources.len(),
{
    if sources.len() == 0 {
        0
    } else {
        covered_count(first, last, sources.drop_last()) + if span_covered(
            first,
            last,
            sources.last()@,
        ) {
            1int
        } else {
            0
        }
    }
}

/// How many required sources there are, how many imported anything for the month, and
/// how many cover all of it; each source's imports come in order of their first day.
pub fn expense_source_coverage_counts(
    first: CivilDate,
    last: CivilDate,
    sources: &Vec<Vec<CoverageRange>>,
) -> (r: Result<(u32, u32, u32), Error>)
    requires
        representable(first),
        representable(last),
        date_not_after(first, last),
        forall|i: int| 0 <= i < sources@.len() ==> ranges_ordered(#[trigger] sources@[i]@),
    ensures
        r is Ok <==> sources@.len() <= u32::MAX,
        r matches Ok((active, present, covered)) ==> active == sources@.len() && present
            == present_count(sources@) && covered == covered_count(first, last, sources@),
        r matches Err(e) ==> e is Invariant,
{
    if sources.len() > 0xffff_ffff {
        return Err(broken("too many active expense sources"));
    }
    let active = sources.len() as u32;
    let mut present: u32 = 0;
    let mut covered: u32 = 0;
    let mut i: usize = 0;
    while i < sources.len()
        invariant
            0 <= i <= sources@.len() <= u32::MAX,
            representable(first),
            representable(last),
            date_not_after(first, last),
            forall|k: int| 0 <= k < sources@.len() ==> ranges_ordered(#[trigger] sources@[k]@),
            present == present_count(sources@.take(i as int)),
            covered == covered_count(first, last, sources@.take(i as int)),
            present <= i && covered <= i,
        decreases sources@.len() - i,
    {
        let ghost prefix = sources@.take(i + 1);
        assert(prefix.drop_last() == sources@.take(i as int));
        assert(prefix.last() == sources@[i as int]);
        let ranges = &sources[i];
        if ranges.len() == 0 {
            assert(!span_covered(first, last, ranges@)) by {
                assert(!day_covered(first, ranges@));
            }
        } else {
            present = present + 1;
            if source_covers_month(first, last, ranges) {
                covered = covered + 1;
            }
        }
        i = i + 1;
    }
    assert(sources@.take(sources@.len() as int) == sources@);
    Ok((active, present, covered))
}


// ---------------------------------------------------------------------------------------
// How the month's totals agree
// ---------------------------------------------------------------------------------------

/// What a tally entry adds to a currency's net spending: its first sum, where the part of
/// its key after `prefix` places is the currency's key.
pub open spec fn net_part<L>(e: TallyEntry<L>, currency_key: Seq<i64>, prefix: int) -> int {
    if e.0.skip(prefix) == currency_key {
        e.2[0]
    } else {
        0
    }
}

/// A currency's net spending summed over the entries of a tally whose keys start with
/// `prefix` places before the currency: no places for the per-currency totals, one (the
/// category) for the category totals, three (the date) for the daily totals.
pub open spec fn net_share<L>(s: Seq<TallyEntry<L>>, currency_key: Seq<i64>, prefix: int) -> int
    decreases s.len(),
{
    if s.len() == 0 {
        0
    } else {
        net_share(s.drop_last(), currency_key, prefix) + net_part(s.last(), currency_key, prefix)
    }
}

/// The net spending of the events in one currency.
pub open spec fn rows_net_in(rows: Seq<MonthEventRow>, currency: Seq<char>) -> int
    decreases rows.len(),
{
    if rows.len() == 0 {
        0
    } else {
        rows_net_in(rows.drop_last(), currency) + if rows.last().currency@ == currency {
            row_net(rows.last())
        } else {
            0
        }
    }
}

/// Every entry of a tally holds at least one sum.
pub open spec fn sums_present<L>(s: Seq<TallyEntry<L>>) -> bool {
    forall|i: int| 0 <= i < s.len() ==> (#[trigger] s[i]).2.len() > 0
}

proof fn lemma_text_key_injective(a: Seq<char>, b: Seq<char>)
    ensures
        text_key(a) == text_key(b) <==> a == b,
{
    if text_key(a) == text_key(b) {
        assert(a.len() == text_key(a).len());
        assert forall|i: int| 0 <= i < a.len() implies a[i] == b[i] by {
            assert(text_key(a)[i] == text_key(b)[i]);
            vstd::utf8::char_u32_cast(a[i], a[i] as u32);
            vstd::utf8::char_u32_cast(b[i], b[i] as u32);
        }
        assert(a =~= b);
    }
}

proof fn lemma_net_share_update<L>(s: Seq<TallyEntry<L>>, p: int, e: TallyEntry<L>, ck: Seq<i64>, prefix: int)
    requires
        0 <= p < s.len(),
    ensures
        net_share(s.update(p, e), ck, prefix) == net_share(s, ck, prefix) - net_part(s[p], ck, prefix)
            + net_part(e, ck, prefix),
    decreases s.len(),
{
    let t = s.update(p, e);
    if p == s.len() - 1 {
        assert(t.drop_last() =~= s.drop_last());
    } else {
        assert(t.drop_last() =~= s.drop_last().update(p, e));
        lemma_net_share_update(s.drop_last(), p, e, ck, prefix);
    }
}

proof fn lemma_net_share_insert<L>(s: Seq<TallyEntry<L>>, p: int, e: TallyEntry<L>, ck: Seq<i64>, prefix: int)
    requires
        0 <= p <= s.len(),
    ensures
        net_share(s.insert(p, e), ck, prefix) == net_share(s, ck, prefix) + net_part(e, ck, prefix),
    decreases s.len(),
{
    let t = s.insert(p, e);
    if p == s.len() {
        assert(t.drop_last() =~= s);
    } else {
        assert(t.drop_last() =~= s.drop_last().insert(p, e));
        lemma_net_share_insert(s.drop_last(), p, e, ck, prefix);
    }
}

proof fn lemma_count_before_bounds<L>(s: Seq<TallyEntry<L>>, k: Seq<i64>)
    ensures
        0 <= crate::tally::count_before(s, k) <= s.len(),
    decreases s.len(),
{
    if s.len() > 0 {
        lemma_count_before_bounds(s.drop_last(), k);
    }
}

/// Adding to a tally adds the first sum of `delta` to the currency of its key.
proof fn lemma_net_share_add<L>(s: Seq<TallyEntry<L>>, k: Seq<i64>, label: L, delta: Seq<int>, ck: Seq<i64>, prefix: int)
    requires
        sums_present(s),
        delta.len() > 0,
    ensures
        sums_present(tally_add(s, k, label, delta)),
        net_share(tally_add(s, k, label, delta), ck, prefix) == net_share(s, ck, prefix) + if k.skip(prefix)
            == ck {
            delta[0]
        } else {
            0
        },
{
    let p = crate::tally::count_before(s, k);
    lemma_count_before_bounds(s, k);
    if p < s.len() && s[p].0 == k {
        let e = (k, s[p].1, crate::tally::add_columns(s[p].2, delta));
        lemma_net_share_update(s, p, e, ck, prefix);
        assert(s[p].2.len() > 0);
        assert(e.2[0] == s[p].2[0] + delta[0]);
        let t = s.update(p, e);
        assert forall|i: int| 0 <= i < t.len() implies (#[trigger] t[i]).2.len() > 0 by {
            if i != p {
                assert(t[i] == s[i]);
            }
        }
    } else {
        let e = (k, label, delta);
        lemma_net_share_insert(s, p, e, ck, prefix);
        let t = s.insert(p, e);
        assert forall|i: int| 0 <= i < t.len() implies (#[trigger] t[i]).2.len() > 0 by {
            if i < p {
                assert(t[i] == s[i]);
            } else if i > p {
                assert(t[i] == s[i - 1]);
            }
        }
    }
}

proof fn lemma_category_share(rows: Seq<MonthEventRow>, currency: Seq<char>)
    ensures
        sums_present(category_totals(rows)),
        net_share(category_totals(rows), text_key(currency), 1) == rows_net_in(rows, currency),
    decreases rows.len(),
{
    if rows.len() > 0 {
        let r = rows.last();
        lemma_category_share(rows.drop_last(), currency);
        if row_net(r) != 0 {
            let c = category_named(r.category@);
            let k = category_key(c, r.currency@);
            lemma_net_share_add(
                category_totals(rows.drop_last()),
                k,
                (c, r.currency),
                seq![row_net(r)],
                text_key(currency),
                1,
            );
            assert(k.skip(1) =~= text_key(r.currency@));
            lemma_text_key_injective(r.currency@, currency);
        }
    }
}

proof fn lemma_daily_share(rows: Seq<MonthEventRow>, currency: Seq<char>)
    ensures
        sums_present(daily_totals(rows)),
        net_share(daily_totals(rows), text_key(currency), 3) == rows_net_in(rows, currency),
    decreases rows.len(),
{
    if rows.len() > 0 {
        let r = rows.last();
        lemma_daily_share(rows.drop_last(), currency);
        if row_net(r) != 0 {
            let k = day_key(r.posted_date, r.currency@);
            lemma_net_share_add(
                daily_totals(rows.drop_last()),
                k,
                (r.posted_date, r.currency),
                seq![row_net(r)],
                text_key(currency),
                3,
            );
            assert(k.skip(3) =~= text_key(r.currency@));
            lemma_text_key_injective(r.currency@, currency);
        }
    }
}

proof fn lemma_currency_share(rows: Seq<MonthEventRow>, currency: Seq<char>)
    ensures
        sums_present(currency_totals(rows)),
        net_share(currency_totals(rows), text_key(currency), 0) == rows_net_in(rows, currency),
    decreases rows.len(),
{
    if rows.len() > 0 {
        let r = rows.last();
        lemma_currency_share(rows.drop_last(), currency);
        let k = text_key(r.currency@);
        lemma_net_share_add(currency_totals(rows.drop_last()), k, r.currency, event_columns(r), text_key(currency), 0);
        assert(k.skip(0) =~= k);
        lemma_text_key_injective(r.currency@, currency);
    }
}

proof fn lemma_occurrences_keep_net(base: Seq<TallyEntry<String>>, occs: Seq<MonthOccurrence>, ck: Seq<i64>)
    requires
        sums_present(base),
    ensures
        sums_present(with_occurrences(base, occs)),
        net_share(with_occurrences(base, occs), ck, 0) == net_share(base, ck, 0),
    decreases occs.len(),
{
    if occs.len() > 0 {
        let o = occs.last();
        lemma_occurrences_keep_net(base, occs.drop_last(), ck);
        lemma_net_share_add(with_occurrences(base, occs.drop_last()), text_key(o.currency@), o.currency, occurrence_columns(o), ck, 0);
    }
}

/// The month's totals agree: for every currency, the category totals and the daily totals
/// in that currency add up to its net spending in the per-currency totals, which the
/// recurring occurrences leave unchanged; all three are the net spending of the
/// currency's events.
pub proof fn lemma_month_totals_agree(rows: Seq<MonthEventRow>, occurrences: Seq<MonthOccurrence>, currency: Seq<char>)
    ensures
        net_share(category_totals(rows), text_key(currency), 1) == rows_net_in(rows, currency),
        net_share(daily_totals(rows), text_key(currency), 3) == rows_net_in(rows, currency),
        net_share(month_currency_totals(rows, occurrences), text_key(currency), 0) == rows_net_in(rows, currency),
{
    lemma_category_share(rows, currency);
    lemma_daily_share(rows, currency);
    lemma_currency_share(rows, currency);
    lemma_occurrences_keep_net(currency_totals(rows), occurrences, text_key(currency));
}


/// Every category entry is keyed by its category and currency.
pub open spec fn category_entries_keyed(s: Seq<TallyEntry<(ExpenseCategory, String)>>) -> bool {
    forall|i: int| 0 <= i < s.len() ==> (#[trigger] s[i]).0 == category_key(s[i].1.0, s[i].1.1@)
}

/// Every daily entry is keyed by its date and currency.
pub open spec fn daily_entries_keyed(s: Seq<TallyEntry<(CivilDate, String)>>) -> bool {
    forall|i: int| 0 <= i < s.len() ==> (#[trigger] s[i]).0 == day_key(s[i].1.0, s[i].1.1@)
}

/// Every currency entry is keyed by its currency.
pub open spec fn currency_entries_keyed(s: Seq<TallyEntry<String>>) -> bool {
    forall|i: int| 0 <= i < s.len() ==> (#[trigger] s[i]).0 == text_key(s[i].1@)
}

proof fn lemma_add_keeps_key<L>(s: Seq<TallyEntry<L>>, k: Seq<i64>, label: L, delta: Seq<int>, i: int)
    requires
        0 <= i < tally_add(s, k, label, delta).len(),
    ensures
        ({
            let t = tally_add(s, k, label, delta);
            (t[i].0 == k && t[i].1 == label) || (exists|j: int| 0 <= j < s.len() && t[i].0 == s[j].0 && t[i].1 == s[j].1)
        }),
{
    let p = crate::tally::count_before(s, k);
    lemma_count_before_bounds(s, k);
    let t = tally_add(s, k, label, delta);
    if p < s.len() && s[p].0 == k {
        assert(t[i].0 == s[i].0 && t[i].1 == s[i].1);
    } else {
        if i < p {
            assert(t[i] == s[i]);
        } else if i > p {
            assert(t[i] == s[i - 1]);
        }
    }
}

proof fn lemma_category_keyed(rows: Seq<MonthEventRow>)
    ensures
        category_entries_keyed(category_totals(rows)),
    decreases rows.len(),
{
    if rows.len() > 0 {
        lemma_category_keyed(rows.drop_last());
        let r = rows.last();
        if row_net(r) != 0 {
            let prev = category_totals(rows.drop_last());
            let c = category_named(r.category@);
            let t = category_totals(rows);
            assert forall|i: int| 0 <= i < t.len() implies (#[trigger] t[i]).0 == category_key(t[i].1.0, t[i].1.1@) by {
                lemma_add_keeps_key(prev, category_key(c, r.currency@), (c, r.currency), seq![row_net(r)], i);
            }
        }
    }
}

proof fn lemma_daily_keyed(rows: Seq<MonthEventRow>)
    ensures
        daily_entries_keyed(daily_totals(rows)),
    decreases rows.len(),
{
    if rows.len() > 0 {
        lemma_daily_keyed(rows.drop_last());
        let r = rows.last();
        if row_net(r) != 0 {
            let prev = daily_totals(rows.drop_last());
            let t = daily_totals(rows);
            assert forall|i: int| 0 <= i < t.len() implies (#[trigger] t[i]).0 == day_key(t[i].1.0, t[i].1.1@) by {
                lemma_add_keeps_key(prev, day_key(r.posted_date, r.currency@), (r.posted_date, r.currency), seq![row_net(r)], i);
            }
        }
    }
}

proof fn lemma_currency_keyed(rows: Seq<MonthEventRow>)
    ensures
        currency_entries_keyed(currency_totals(rows)),
    decreases rows.len(),
{
    if rows.len() > 0 {
        lemma_currency_keyed(rows.drop_last());
        let r = rows.last();
        let prev = currency_totals(rows.drop_last());
        let t = currency_totals(rows);
        assert forall|i: int| 0 <= i < t.len() implies (#[trigger] t[i]).0 == text_key(t[i].1@) by {
            lemma_add_keeps_key(prev, text_key(r.currency@), r.currency, event_columns(r), i);
        }
    }
}

proof fn lemma_occurrences_keyed(base: Seq<TallyEntry<String>>, occs: Seq<MonthOccurrence>)
    requires
        currency_entries_keyed(base),
    ensures
        currency_entries_keyed(with_occurrences(base, occs)),
    decreases occs.len(),
{
    if occs.len() > 0 {
        lemma_occurrences_keyed(base, occs.drop_last());
        let o = occs.last();
        let prev = with_occurrences(base, occs.drop_last());
        let t = with_occurrences(base, occs);
        assert forall|i: int| 0 <= i < t.len() implies (#[trigger] t[i]).0 == text_key(t[i].1@) by {
            lemma_add_keeps_key(prev, text_key(o.currency@), o.currency, occurrence_columns(o), i);
        }
    }
}

/// The amounts of the category totals in one currency, summed.
pub open spec fn category_list_net_in(cats: Seq<ExpenseCategoryTotal>, currency: Seq<char>) -> int
    decreases cats.len(),
{
    if cats.len() == 0 {
        0
    } else {
        category_list_net_in(cats.drop_last(), currency) + if cats.last().currency@ == currency {
            cats.last().amount_minor as int
        } else {
            0
        }
    }
}

/// The amounts of the daily totals in one currency, summed.
pub open spec fn daily_list_net_in(days: Seq<ExpenseDailyTotal>, currency: Seq<char>) -> int
    decreases days.len(),
{
    if days.len() == 0 {
        0
    } else {
        daily_list_net_in(days.drop_last(), currency) + if days.last().currency@ == currency {
            days.last().amount_minor as int
        } else {
            0
        }
    }
}

/// The net spending the per-currency summaries give one currency.
pub open spec fn currency_list_net_in(curs: Seq<ExpenseCurrencySummary>, currency: Seq<char>) -> int
    decreases curs.len(),
{
    if curs.len() == 0 {
        0
    } else {
        currency_list_net_in(curs.drop_last(), currency) + if curs.last().currency@ == currency {
            curs.last().net_personal_spend_minor as int
        } else {
            0
        }
    }
}

/// The lists of a month summary are those of the month's totals, entry by entry.
pub open spec fn summary_lists_of(
    rows: Seq<MonthEventRow>,
    occurrences: Seq<MonthOccurrence>,
    s: ExpenseMonthSummary,
) -> bool {
    let cur = month_currency_totals(rows, occurrences);
    let cat = category_totals(rows);
    let day = daily_totals(rows);
    &&& s.currencies@.len() == cur.len()
    &&& forall|i: int| 0 <= i < cur.len() ==> currency_summary_of(#[trigger] s.currencies@[i], cur[i])
    &&& s.categories@.len() == cat.len()
    &&& forall|i: int|
        0 <= i < cat.len() ==> (#[trigger] s.categories@[i]).category == cat[i].1.0
            && s.categories@[i].currency == cat[i].1.1 && s.categories@[i].amount_minor == cat[i].2[0]
    &&& s.daily@.len() == day.len()
    &&& forall|i: int|
        0 <= i < day.len() ==> (#[trigger] s.daily@[i]).date == day[i].1.0 && s.daily@[i].currency
            == day[i].1.1 && s.daily@[i].amount_minor == day[i].2[0]
}

proof fn lemma_category_list(cats: Seq<ExpenseCategoryTotal>, cat: Seq<TallyEntry<(ExpenseCategory, String)>>, currency: Seq<char>)
    requires
        category_entries_keyed(cat),
        cats.len() == cat.len(),
        forall|i: int|
            0 <= i < cat.len() ==> (#[trigger] cats[i]).currency == cat[i].1.1 && cats[i].amount_minor == cat[i].2[0],
    ensures
        category_list_net_in(cats, currency) == net_share(cat, text_key(currency), 1),
    decreases cats.len(),
{
    if cats.len() > 0 {
        let n = cats.len() - 1;
        assert(cat[n].0.skip(1) =~= text_key(cat[n].1.1@));
        lemma_text_key_injective(cat[n].1.1@, currency);
        let a = cats.drop_last();
        let b = cat.drop_last();
        assert forall|i: int| 0 <= i < b.len() implies (#[trigger] b[i]).0 == category_key(b[i].1.0, b[i].1.1@) by {
            assert(b[i] == cat[i]);
        }
        assert forall|i: int| 0 <= i < b.len() implies (#[trigger] a[i]).currency == b[i].1.1 && a[i].amount_minor == b[i].2[0] by {
            assert(a[i] == cats[i] && b[i] == cat[i]);
        }
        lemma_category_list(a, b, currency);
    }
}

proof fn lemma_daily_list(days: Seq<ExpenseDailyTotal>, day: Seq<TallyEntry<(CivilDate, String)>>, currency: Seq<char>)
    requires
        daily_entries_keyed(day),
        days.len() == day.len(),
        forall|i: int|
            0 <= i < day.len() ==> (#[trigger] days[i]).currency == day[i].1.1 && days[i].amount_minor == day[i].2[0],
    ensures
        daily_list_net_in(days, currency) == net_share(day, text_key(currency), 3),
    decreases days.len(),
{
    if days.len() > 0 {
        let n = days.len() - 1;
        assert(day[n].0.skip(3) =~= text_key(day[n].1.1@));
        lemma_text_key_injective(day[n].1.1@, currency);
        let a = days.drop_last();
        let b = day.drop_last();
        assert forall|i: int| 0 <= i < b.len() implies (#[trigger] b[i]).0 == day_key(b[i].1.0, b[i].1.1@) by {
            assert(b[i] == day[i]);
        }
        assert forall|i: int| 0 <= i < b.len() implies (#[trigger] a[i]).currency == b[i].1.1 && a[i].amount_minor == b[i].2[0] by {
            assert(a[i] == days[i] && b[i] == day[i]);
        }
        lemma_daily_list(a, b, currency);
    }
}

proof fn lemma_currency_list(curs: Seq<ExpenseCurrencySummary>, cur: Seq<TallyEntry<String>>, currency: Seq<char>)
    requires
        currency_entries_keyed(cur),
        curs.len() == cur.len(),
        forall|i: int| 0 <= i < cur.len() ==> currency_summary_of(#[trigger] curs[i], cur[i]),
    ensures
        currency_list_net_in(curs, currency) == net_share(cur, text_key(currency), 0),
    decreases curs.len(),
{
    if curs.len() > 0 {
        let n = curs.len() - 1;
        assert(currency_summary_of(curs[n], cur[n]));
        assert(cur[n].0.skip(0) =~= text_key(cur[n].1@));
        lemma_text_key_injective(cur[n].1@, currency);
        let a = curs.drop_last();
        let b = cur.drop_last();
        assert forall|i: int| 0 <= i < b.len() implies (#[trigger] b[i]).0 == text_key(b[i].1@) by {
            assert(b[i] == cur[i]);
        }
        assert forall|i: int| 0 <= i < b.len() implies currency_summary_of(#[trigger] a[i], b[i]) by {
            assert(a[i] == curs[i] && b[i] == cur[i]);
        }
        lemma_currency_list(a, b, currency);
    }
}

/// In a month summary, for every currency, the category totals and the daily totals in
/// that currency add up to the net spending its per-currency summary reports, and all
/// three are the net spending of the currency's events.
pub proof fn lemma_summary_totals_agree(
    rows: Seq<MonthEventRow>,
    occurrences: Seq<MonthOccurrence>,
    s: ExpenseMonthSummary,
    currency: Seq<char>,
)
    requires
        summary_lists_of(rows, occurrences, s),
    ensures
        category_list_net_in(s.categories@, currency) == rows_net_in(rows, currency),
        daily_list_net_in(s.daily@, currency) == rows_net_in(rows, currency),
        currency_list_net_in(s.currencies@, currency) == rows_net_in(rows, currency),
{
    lemma_month_totals_agree(rows, occurrences, currency);
    lemma_category_keyed(rows);
    lemma_daily_keyed(rows);
    lemma_currency_keyed(rows);
    lemma_occurrences_keyed(currency_totals(rows), occurrences);
    lemma_category_list(s.categories@, category_totals(rows), currency);
    lemma_daily_list(s.daily@, daily_totals(rows), currency);
    lemma_currency_list(s.currencies@, month_currency_totals(rows, occurrences), currency);
}


/// A purchase split with others counts only the share the user keeps: adding a confirmed
/// purchase that carries a personal share to the month's events raises its currency's
/// net personal spending by exactly that share, in the per-currency summary, in the
/// category totals and in the daily totals alike, and leaves every other currency's
/// totals as they were.
pub proof fn lemma_split_purchase_counts_its_share(
    rows: Seq<MonthEventRow>,
    occurrences: Seq<MonthOccurrence>,
    r: MonthEventRow,
    before: ExpenseMonthSummary,
    after: ExpenseMonthSummary,
    other: Seq<char>,
)
    requires
        summary_lists_of(rows, occurrences, before),
        summary_lists_of(rows.push(r), occurrences, after),
        r.event_kind@ == ExpenseEventKind::Purchase.name(),
        r.event_status@ == ExpenseEventStatus::Confirmed.name(),
        r.personal_amount_minor is Some,
        other != r.currency@,
    ensures
        ({
            let c = r.currency@;
            let p = r.personal_amount_minor->0 as int;
            &&& currency_list_net_in(after.currencies@, c) == currency_list_net_in(before.currencies@, c) + p
            &&& category_list_net_in(after.categories@, c) == category_list_net_in(before.categories@, c) + p
            &&& daily_list_net_in(after.daily@, c) == daily_list_net_in(before.daily@, c) + p
        }),
        currency_list_net_in(after.currencies@, other) == currency_list_net_in(before.currencies@, other),
        category_list_net_in(after.categories@, other) == category_list_net_in(before.categories@, other),
        daily_list_net_in(after.daily@, other) == daily_list_net_in(before.daily@, other),
{
    ExpenseEventKind::lemma_names_distinct();
    ExpenseEventStatus::lemma_names_distinct();
    assert(kind_named(r.event_kind@) == ExpenseEventKind::Purchase);
    assert(status_named(r.event_status@) == ExpenseEventStatus::Confirmed);
    let more = rows.push(r);
    assert(more.drop_last() =~= rows);
    assert(more.last() == r);
    lemma_summary_totals_agree(rows, occurrences, before, r.currency@);
    lemma_summary_totals_agree(more, occurrences, after, r.currency@);
    lemma_summary_totals_agree(rows, occurrences, before, other);
    lemma_summary_totals_agree(more, occurrences, after, other);
}

/// What one more event does to its currency's net personal spending, reported alike in
/// the per-currency summary, the category totals and the daily totals: an event that is
/// not confirmed changes nothing; a confirmed purchase adds the user's share when it is
/// split, nothing when settlements repay it, and its amount otherwise; a recurring
/// payment or fee adds its amount; a refund takes its amount off; a settlement received
/// takes its amount off and one sent adds it, unless it settles a confirmed purchase;
/// card payments, top-ups and transfers change nothing.
pub proof fn lemma_event_changes_net_spending(
    rows: Seq<MonthEventRow>,
    occurrences: Seq<MonthOccurrence>,
    r: MonthEventRow,
    before: ExpenseMonthSummary,
    after: ExpenseMonthSummary,
    change: int,
)
    requires
        summary_lists_of(rows, occurrences, before),
        summary_lists_of(rows.push(r), occurrences, after),
        row_readable(r),
        ({
            let a = r.amount_minor as int;
            let confirmed = r.event_status@ == ExpenseEventStatus::Confirmed.name();
            let k = r.event_kind@;
            if !confirmed {
                change == 0
            } else if k == ExpenseEventKind::Purchase.name() {
                change == match r.personal_amount_minor {
                    Some(p) => p as int,
                    None => if r.has_linked_settlements { 0 } else { a },
                }
            } else if k == ExpenseEventKind::ManualRecurring.name() || k == ExpenseEventKind::Fee.name() {
                change == a
            } else if k == ExpenseEventKind::Refund.name() {
                change == -a
            } else if k == ExpenseEventKind::SettlementReceived.name() {
                change == if r.linked_to_confirmed_purchase { 0 } else { -a }
            } else if k == ExpenseEventKind::SettlementSent.name() {
                change == if r.linked_to_confirmed_purchase { 0 } else { a }
            } else {
                change == 0
            }
        }),
    ensures
        currency_list_net_in(after.currencies@, r.currency@) == currency_list_net_in(before.currencies@, r.currency@)
            + change,
        category_list_net_in(after.categories@, r.currency@) == category_list_net_in(before.categories@, r.currency@)
            + change,
        daily_list_net_in(after.daily@, r.currency@) == daily_list_net_in(before.daily@, r.currency@) + change,
{
    ExpenseEventKind::lemma_names_distinct();
    ExpenseEventStatus::lemma_names_distinct();
    let k = choose|k: ExpenseEventKind| k.name() == r.event_kind@;
    let t = choose|t: ExpenseEventStatus| t.name() == r.event_status@;
    assert(kind_named(r.event_kind@) == k);
    assert(status_named(r.event_status@) == t);
    let more = rows.push(r);
    assert(more.drop_last() =~= rows);
    assert(more.last() == r);
    lemma_summary_totals_agree(rows, occurrences, before, r.currency@);
    lemma_summary_totals_agree(more, occurrences, after, r.currency@);
}

/// The lists of a month summary are strictly ordered: currencies by currency, categories
/// by category and then currency, days by date and then currency.
pub open spec fn summary_lists_sorted(s: ExpenseMonthSummary) -> bool {
    &&& forall|i: int, j: int|
        0 <= i < j < s.currencies@.len() ==> lex_lt(
            text_key((#[trigger] s.currencies@[i]).currency@),
            text_key((#[trigger] s.currencies@[j]).currency@),
        )
    &&& forall|i: int, j: int|
        0 <= i < j < s.categories@.len() ==> lex_lt(
            category_key((#[trigger] s.categories@[i]).category, s.categories@[i].currency@),
            category_key((#[trigger] s.categories@[j]).category, s.categories@[j].currency@),
        )
    &&& forall|i: int, j: int|
        0 <= i < j < s.daily@.len() ==> lex_lt(
            day_key((#[trigger] s.daily@[i]).date, s.daily@[i].currency@),
            day_key((#[trigger] s.daily@[j]).date, s.daily@[j].currency@),
        )
}

/// A summary whose lists are those of ordered totals is ordered.
pub proof fn lemma_summary_lists_sorted(
    rows: Seq<MonthEventRow>,
    occurrences: Seq<MonthOccurrence>,
    s: ExpenseMonthSummary,
)
    requires
        summary_lists_of(rows, occurrences, s),
        keys_sorted(month_currency_totals(rows, occurrences)),
        keys_sorted(category_totals(rows)),
        keys_sorted(daily_totals(rows)),
    ensures
        summary_lists_sorted(s),
{
    lemma_category_keyed(rows);
    lemma_daily_keyed(rows);
    lemma_currency_keyed(rows);
    lemma_occurrences_keyed(currency_totals(rows), occurrences);
    let cur = month_currency_totals(rows, occurrences);
    let cat = category_totals(rows);
    let day = daily_totals(rows);
    assert forall|i: int, j: int| 0 <= i < j < s.currencies@.len() implies lex_lt(
        text_key((#[trigger] s.currencies@[i]).currency@),
        text_key((#[trigger] s.currencies@[j]).currency@),
    ) by {
        assert(currency_summary_of(s.currencies@[i], cur[i]));
        assert(currency_summary_of(s.currencies@[j], cur[j]));
        assert(lex_lt(cur[i].0, cur[j].0));
    }
    assert forall|i: int, j: int| 0 <= i < j < s.categories@.len() implies lex_lt(
        category_key((#[trigger] s.categories@[i]).category, s.categories@[i].currency@),
        category_key((#[trigger] s.categories@[j]).category, s.categories@[j].currency@),
    ) by {
        assert(lex_lt(cat[i].0, cat[j].0));
    }
    assert forall|i: int, j: int| 0 <= i < j < s.daily@.len() implies lex_lt(
        day_key((#[trigger] s.daily@[i]).date, s.daily@[i].currency@),
        day_key((#[trigger] s.daily@[j]).date, s.daily@[j].currency@),
    ) by {
        assert(lex_lt(day[i].0, day[j].0));
    }
}

} // verus!
