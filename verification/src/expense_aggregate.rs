//! The facts an AI month report may cite: every per-currency total and category total
//! of the month and, when this month and the last are both confirmed, how each changed,
//! ordered by fact ID.
use vstd::prelude::*;
use vstd::string::*;
use vstd::utf8::encode_utf8;

use crate::calendar::CivilDate;
use crate::error::{broken, Error};
use crate::expense::MAX_SAFE_AMOUNT_MINOR;
use crate::expense_types::{
    ExpenseCategory, ExpenseCategoryTotal, ExpenseCurrencySummary, ExpenseReportFact,
    ExpenseReportStatus,
};
use crate::migration::{bytes_less, bytes_lt, lemma_bytes_irreflexive, lemma_bytes_total, lemma_bytes_transitive};
use crate::month_summary::ExpenseMonthSummary;
use crate::text::same_text;

verus! {

/// A fact as contracts see it: ID, metric, currency, amount.
pub type FactView = (Seq<char>, Seq<char>, Seq<char>, int);

/// The view of one fact.
pub open spec fn fact_view(f: ExpenseReportFact) -> FactView {
    (f.fact_id@, f.metric@, f.currency@, f.amount_minor as int)
}

/// The views of facts, in order.
pub open spec fn fact_views(s: Seq<ExpenseReportFact>) -> Seq<FactView> {
    s.map_values(|f: ExpenseReportFact| fact_view(f))
}

// ---------------------------------------------------------------------------------------
// Ordering by fact ID
// ---------------------------------------------------------------------------------------

/// Fact `a`'s ID comes strictly before fact `b`'s, in byte order.
pub open spec fn id_before(a: FactView, b: FactView) -> bool {
    bytes_lt(encode_utf8(a.0), encode_utf8(b.0))
}

/// The number of facts of `s` whose ID does not come after `x`'s.
pub open spec fn id_place(s: Seq<FactView>, x: FactView) -> int
    decreases s.len(),
{
    if s.len() == 0 {
        0
    } else {
        id_place(s.drop_last(), x) + if !id_before(x, s.last()) {
            1int
        } else {
            0
        }
    }
}

/// Facts sorted by ID, facts with equal IDs in the order they came: a stable sort.
pub open spec fn sorted_by_id(facts: Seq<FactView>) -> Seq<FactView>
    decreases facts.len(),
{
    if facts.len() == 0 {
        Seq::empty()
    } else {
        let r = sorted_by_id(facts.drop_last());
        r.insert(id_place(r, facts.last()), facts.last())
    }
}

/// The place of a fact lies within the facts.
proof fn lemma_id_place_bounds(s: Seq<FactView>, x: FactView)
    ensures
        0 <= id_place(s, x) <= s.len(),
    decreases s.len(),
{
    if s.len() > 0 {
        lemma_id_place_bounds(s.drop_last(), x);
    }
}

/// Sorting by ID keeps every fact, each as often as it came.
pub proof fn lemma_sorted_by_id_permutes(facts: Seq<FactView>)
    ensures
        sorted_by_id(facts).len() == facts.len(),
        sorted_by_id(facts).to_multiset() == facts.to_multiset(),
    decreases facts.len(),
{
    broadcast use vstd::seq_lib::group_to_multiset_ensures;

    if facts.len() > 0 {
        let rest = facts.drop_last();
        lemma_sorted_by_id_permutes(rest);
        let r = sorted_by_id(rest);
        let x = facts.last();
        let p = id_place(r, x);
        lemma_id_place_bounds(r, x);
        let left = r.subrange(0, p);
        let right = r.subrange(p, r.len() as int);
        assert(r =~= left + right);
        assert(r.insert(p, x) =~= left.push(x) + right);
        vstd::seq_lib::lemma_multiset_commutative(left, right);
        vstd::seq_lib::lemma_multiset_commutative(left.push(x), right);
        assert(facts =~= rest.push(x));
    }
}

/// IDs never decrease along the facts.
pub open spec fn ids_ordered(s: Seq<FactView>) -> bool {
    forall|i: int, j: int| 0 <= i < j < s.len() ==> !id_before(#[trigger] s[j], #[trigger] s[i])
}

proof fn lemma_id_place(s: Seq<FactView>, x: FactView, p: int)
    requires
        0 <= p <= s.len(),
        forall|j: int| 0 <= j < p ==> !id_before(x, #[trigger] s[j]),
        forall|j: int| p <= j < s.len() ==> id_before(x, #[trigger] s[j]),
    ensures
        id_place(s, x) == p,
    decreases s.len(),
{
    if s.len() > 0 {
        let u = s.drop_last();
        if p == s.len() {
            assert forall|j: int| 0 <= j < p - 1 implies !id_before(x, #[trigger] u[j]) by {
                assert(u[j] == s[j]);
            }
            lemma_id_place(u, x, p - 1);
        } else {
            assert forall|j: int| 0 <= j < p implies !id_before(x, #[trigger] u[j]) by {
                assert(u[j] == s[j]);
            }
            assert forall|j: int| p <= j < u.len() implies id_before(x, #[trigger] u[j]) by {
                assert(u[j] == s[j]);
            }
            lemma_id_place(u, x, p);
        }
    }
}

/// Places a fact after every fact whose ID does not come after its own.
fn insert_by_id(sorted: &mut Vec<ExpenseReportFact>, x: ExpenseReportFact)
    requires
        ids_ordered(fact_views(old(sorted)@)),
    ensures
        ids_ordered(fact_views(final(sorted)@)),
        fact_views(final(sorted)@) == fact_views(old(sorted)@).insert(
            id_place(fact_views(old(sorted)@), fact_view(x)),
            fact_view(x),
        ),
{
    let ghost s = fact_views(sorted@);
    let ghost xv = fact_view(x);
    let mut p: usize = 0;
    while p < sorted.len() && !bytes_less(x.fact_id.as_str().as_bytes(), sorted[p].fact_id.as_str().as_bytes())
        invariant
            0 <= p <= sorted@.len(),
            s == fact_views(sorted@),
            xv == fact_view(x),
            ids_ordered(s),
            forall|j: int| 0 <= j < p ==> !id_before(xv, #[trigger] s[j]),
        decreases sorted@.len() - p,
    {
        assert(s[p as int] == fact_view(sorted@[p as int]));
        p = p + 1;
    }
    proof {
        if p < s.len() {
            assert(s[p as int] == fact_view(sorted@[p as int]));
            assert(id_before(xv, s[p as int]));
            assert forall|j: int| p <= j < s.len() implies id_before(xv, #[trigger] s[j]) by {
                if j > p {
                    assert(!id_before(s[j], s[p as int]));
                    lemma_bytes_total(encode_utf8(s[j].0), encode_utf8(s[p as int].0));
                    if encode_utf8(s[j].0) != encode_utf8(s[p as int].0) {
                        lemma_bytes_transitive(encode_utf8(xv.0), encode_utf8(s[p as int].0), encode_utf8(s[j].0));
                    }
                }
            }
        }
        lemma_id_place(s, xv, p as int);
    }
    sorted.insert(p, x);
    proof {
        let n = s.insert(p as int, xv);
        assert(fact_views(sorted@) =~= n);
        assert forall|a: int, b: int| 0 <= a < b < n.len() implies !id_before(
            #[trigger] n[b],
            #[trigger] n[a],
        ) by {
            if a < p && b < p {
                assert(n[a] == s[a] && n[b] == s[b]);
            } else if a < p && b == p {
                assert(n[a] == s[a]);
            } else if a < p && b > p {
                assert(n[a] == s[a] && n[b] == s[b - 1]);
            } else if a == p {
                assert(n[b] == s[b - 1]);
                if p < s.len() {
                    assert(id_before(xv, s[b - 1]));
                    lemma_bytes_total(encode_utf8(xv.0), encode_utf8(s[b - 1].0));
                }
            } else {
                assert(n[a] == s[a - 1] && n[b] == s[b - 1]);
            }
        }
    }
}

/// Sorts facts by ID; facts with equal IDs keep their order.
pub fn sort_facts(facts: Vec<ExpenseReportFact>) -> (r: Vec<ExpenseReportFact>)
    ensures
        fact_views(r@) == sorted_by_id(fact_views(facts@)),
        ids_ordered(fact_views(r@)),
{
    let ghost all = fact_views(facts@);
    let mut rest = facts;
    let mut reversed: Vec<ExpenseReportFact> = Vec::new();
    let ghost original = rest@;
    while rest.len() > 0
        invariant
            rest@ + reversed@.reverse() == original,
        decreases rest@.len(),
    {
        let ghost before = rest@;
        let ghost rev_before = reversed@;
        let x = rest.pop().unwrap();
        reversed.push(x);
        assert(reversed@.reverse() =~= seq![x] + rev_before.reverse());
        assert(rest@ + reversed@.reverse() =~= before + rev_before.reverse());
    }
    assert(reversed@.reverse() =~= original);
    let n = reversed.len();
    let mut sorted: Vec<ExpenseReportFact> = Vec::new();
    assert(all.subrange(0, 0) =~= Seq::<FactView>::empty());
    assert(fact_views(sorted@) =~= Seq::<FactView>::empty());
    while reversed.len() > 0
        invariant
            n == original.len(),
            all == fact_views(original),
            reversed@.len() <= n,
            reversed@.reverse() == original.subrange(n - reversed@.len(), n as int),
            fact_views(sorted@) == sorted_by_id(all.subrange(0, n - reversed@.len())),
            ids_ordered(fact_views(sorted@)),
        decreases reversed@.len(),
    {
        let ghost k = n - reversed@.len();
        let ghost rev_before = reversed@;
        assert(rev_before.reverse()[0] == original[k]);
        let x = reversed.pop().unwrap();
        assert forall|i: int| 0 <= i < reversed@.len() implies #[trigger] reversed@.reverse()[i]
            == original.subrange(k + 1, n as int)[i] by {
            assert(rev_before.reverse()[i + 1] == original.subrange(k, n as int)[i + 1]);
        }
        assert(reversed@.reverse() =~= original.subrange(k + 1, n as int));
        assert(all.subrange(0, k + 1).drop_last() =~= all.subrange(0, k));
        assert(all.subrange(0, k + 1).last() == fact_view(x));
        insert_by_id(&mut sorted, x);
    }
    assert(all.subrange(0, n as int) =~= all);
    sorted
}

// ---------------------------------------------------------------------------------------
// The facts of a month
// ---------------------------------------------------------------------------------------

/// The per-currency metrics, in the order they are stated; the first seven are also
/// compared with the month before.
pub open spec fn currency_metrics() -> Seq<Seq<char>> {
    seq![
        "net_personal_spend"@,
        "gross_purchase"@,
        "refunds"@,
        "settlement_received"@,
        "settlement_sent"@,
        "fees"@,
        "unconfirmed_outflow"@,
        "recurring_expected"@,
        "recurring_paid"@,
        "recurring_remaining"@,
    ]
}

/// A currency's amounts, metric by metric.
pub open spec fn currency_amounts(c: ExpenseCurrencySummary) -> Seq<i64> {
    seq![
        c.net_personal_spend_minor,
        c.gross_purchase_minor,
        c.refunds_minor,
        c.settlement_received_minor,
        c.settlement_sent_minor,
        c.fees_minor,
        c.unconfirmed_outflow_minor,
        c.recurring_expected_minor,
        c.recurring_paid_minor,
        c.recurring_remaining_minor,
    ]
}

fn metric_name(k: usize) -> (r: &'static str)
    requires
        k < 10,
    ensures
        r@ == currency_metrics()[k as int],
{
    match k {
        0 => "net_personal_spend",
        1 => "gross_purchase",
        2 => "refunds",
        3 => "settlement_received",
        4 => "settlement_sent",
        5 => "fees",
        6 => "unconfirmed_outflow",
        7 => "recurring_expected",
        8 => "recurring_paid",
        9 => "recurring_remaining",
        _ => "recurring_remaining",
    }
}

fn metric_amount(c: &ExpenseCurrencySummary, k: usize) -> (r: i64)
    requires
        k < 10,
    ensures
        r == currency_amounts(*c)[k as int],
{
    match k {
        0 => c.net_personal_spend_minor,
        1 => c.gross_purchase_minor,
        2 => c.refunds_minor,
        3 => c.settlement_received_minor,
        4 => c.settlement_sent_minor,
        5 => c.fees_minor,
        6 => c.unconfirmed_outflow_minor,
        7 => c.recurring_expected_minor,
        8 => c.recurring_paid_minor,
        9 => c.recurring_remaining_minor,
        _ => c.recurring_remaining_minor,
    }
}

/// The `k`-th fact of a currency.
pub open spec fn currency_fact(c: ExpenseCurrencySummary, k: int) -> FactView {
    (
        "currency:"@ + c.currency@ + ":"@ + currency_metrics()[k],
        currency_metrics()[k],
        c.currency@,
        currency_amounts(c)[k] as int,
    )
}

/// Ten facts per currency, currencies in order.
pub open spec fn currency_facts(cs: Seq<ExpenseCurrencySummary>) -> Seq<FactView>
    decreases cs.len(),
{
    if cs.len() == 0 {
        Seq::empty()
    } else {
        currency_facts(cs.drop_last()) + Seq::new(10, |k: int| currency_fact(cs.last(), k))
    }
}

/// The fact of a category total.
pub open spec fn category_fact(t: ExpenseCategoryTotal) -> FactView {
    (
        "category:"@ + t.currency@ + ":"@ + t.category.name(),
        "category."@ + t.category.name(),
        t.currency@,
        t.amount_minor as int,
    )
}

/// One fact per category total, in order.
pub open spec fn category_facts(ts: Seq<ExpenseCategoryTotal>) -> Seq<FactView> {
    ts.map_values(|t: ExpenseCategoryTotal| category_fact(t))
}

/// The last summary of the month before in the given currency.
pub open spec fn previous_of(prev: Seq<ExpenseCurrencySummary>, currency: Seq<char>) -> Option<
    ExpenseCurrencySummary,
>
    decreases prev.len(),
{
    if prev.len() == 0 {
        None
    } else if prev.last().currency@ == currency {
        Some(prev.last())
    } else {
        previous_of(prev.drop_last(), currency)
    }
}

/// How the `k`-th metric of a currency changed since the month before.
pub open spec fn currency_delta_fact(c: ExpenseCurrencySummary, p: ExpenseCurrencySummary, k: int) -> FactView {
    (
        "delta:currency:"@ + c.currency@ + ":"@ + currency_metrics()[k],
        "delta."@ + currency_metrics()[k],
        c.currency@,
        currency_amounts(c)[k] - currency_amounts(p)[k],
    )
}

/// Seven change facts per currency also present the month before.
pub open spec fn currency_deltas(cs: Seq<ExpenseCurrencySummary>, prev: Seq<ExpenseCurrencySummary>) -> Seq<FactView>
    decreases cs.len(),
{
    if cs.len() == 0 {
        Seq::empty()
    } else {
        currency_deltas(cs.drop_last(), prev) + match previous_of(prev, cs.last().currency@) {
            Some(p) => Seq::new(7, |k: int| currency_delta_fact(cs.last(), p, k)),
            None => Seq::empty(),
        }
    }
}

/// The key of a category total: its currency and category.
pub open spec fn category_key(t: ExpenseCategoryTotal) -> (Seq<char>, ExpenseCategory) {
    (t.currency@, t.category)
}

/// The distinct keys of the totals, each where it first appears.
pub open spec fn distinct_keys(ts: Seq<ExpenseCategoryTotal>) -> Seq<(Seq<char>, ExpenseCategory)>
    decreases ts.len(),
{
    if ts.len() == 0 {
        Seq::empty()
    } else {
        let d = distinct_keys(ts.drop_last());
        if d.contains(category_key(ts.last())) {
            d
        } else {
            d.push(category_key(ts.last()))
        }
    }
}

/// The amount of the last total under a key; zero when there is none.
pub open spec fn latest_amount(ts: Seq<ExpenseCategoryTotal>, key: (Seq<char>, ExpenseCategory)) -> int
    decreases ts.len(),
{
    if ts.len() == 0 {
        0
    } else if category_key(ts.last()) == key {
        ts.last().amount_minor as int
    } else {
        latest_amount(ts.drop_last(), key)
    }
}

/// How a category total changed since the month before.
pub open spec fn category_delta_fact(
    cur: Seq<ExpenseCategoryTotal>,
    prev: Seq<ExpenseCategoryTotal>,
    key: (Seq<char>, ExpenseCategory),
) -> FactView {
    (
        "delta:category:"@ + key.0 + ":"@ + key.1.name(),
        "delta.category."@ + key.1.name(),
        key.0,
        latest_amount(cur, key) - latest_amount(prev, key),
    )
}

/// One change fact per key in either month.
pub open spec fn category_deltas(cur: Seq<ExpenseCategoryTotal>, prev: Seq<ExpenseCategoryTotal>) -> Seq<FactView> {
    distinct_keys(cur + prev).map_values(|k: (Seq<char>, ExpenseCategory)| category_delta_fact(cur, prev, k))
}

/// Changes are stated only when both months are confirmed.
pub open spec fn compares_months(s: ExpenseMonthSummary, p: ExpenseMonthSummary) -> bool {
    s.status is Confirmed && p.status is Confirmed
}

/// The change facts of a month against the month before.
pub open spec fn delta_facts(s: ExpenseMonthSummary, p: ExpenseMonthSummary) -> Seq<FactView> {
    if compares_months(s, p) {
        currency_deltas(s.currencies@, p.currencies@) + category_deltas(s.categories@, p.categories@)
    } else {
        Seq::empty()
    }
}

/// All facts of a month, before they are ordered.
pub open spec fn month_facts(s: ExpenseMonthSummary, p: ExpenseMonthSummary) -> Seq<FactView> {
    currency_facts(s.currencies@) + category_facts(s.categories@) + delta_facts(s, p)
}

/// Every change stays within the range an amount may be reported in.
pub open spec fn deltas_reportable(s: ExpenseMonthSummary, p: ExpenseMonthSummary) -> bool {
    forall|i: int|
        0 <= i < delta_facts(s, p).len() ==> -MAX_SAFE_AMOUNT_MINOR <= #[trigger] delta_facts(s, p)[i].3
            <= MAX_SAFE_AMOUNT_MINOR
}

// ---------------------------------------------------------------------------------------
// Building the facts
// ---------------------------------------------------------------------------------------

/// A fact under construction, its amount still wide.
pub type RawFact = (String, String, String, i128);

/// The view of a fact under construction.
pub open spec fn raw_view(f: RawFact) -> FactView {
    (f.0@, f.1@, f.2@, f.3 as int)
}

/// The views of facts under construction.
pub open spec fn raw_views(s: Seq<RawFact>) -> Seq<FactView> {
    s.map_values(|f: RawFact| raw_view(f))
}

fn push_raw(out: &mut Vec<RawFact>, f: RawFact)
    ensures
        raw_views(final(out)@) == raw_views(old(out)@).push(raw_view(f)),
{
    let ghost before = out@;
    out.push(f);
    assert(raw_views(out@) =~= raw_views(before).push(raw_view(f)));
}

/// Appends the ten facts of a currency.
fn push_currency_facts(out: &mut Vec<RawFact>, c: &ExpenseCurrencySummary)
    ensures
        raw_views(final(out)@) == raw_views(old(out)@) + Seq::new(10, |k: int| currency_fact(*c, k)),
{
    let ghost start = raw_views(out@);
    let mut k: usize = 0;
    while k < 10
        invariant
            0 <= k <= 10,
            raw_views(out@) == start + Seq::new(k as nat, |m: int| currency_fact(*c, m)),
        decreases 10 - k,
    {
        let metric = metric_name(k);
        let id = "currency:".to_owned().concat(c.currency.as_str()).concat(":").concat(metric);
        push_raw(out, (id, metric.to_owned(), c.currency.clone(), metric_amount(c, k) as i128));
        k = k + 1;
        assert(raw_views(out@) =~= start + Seq::new(k as nat, |m: int| currency_fact(*c, m)));
    }
}

/// The index of the last summary of the month before in a currency.
fn find_previous(prev: &Vec<ExpenseCurrencySummary>, currency: &String) -> (r: Option<usize>)
    ensures
        match previous_of(prev@, currency@) {
            Some(p) => r matches Some(i) && i < prev@.len() && prev@[i as int] == p,
            None => r is None,
        },
{
    let mut i: usize = prev.len();
    assert(prev@.subrange(0, prev@.len() as int) =~= prev@);
    while i > 0
        invariant
            0 <= i <= prev@.len(),
            previous_of(prev@, currency@) == previous_of(prev@.subrange(0, i as int), currency@),
        decreases i,
    {
        let ghost sub = prev@.subrange(0, i as int);
        assert(sub.drop_last() =~= prev@.subrange(0, i - 1));
        assert(sub.last() == prev@[i - 1]);
        if same_text(&prev[i - 1].currency, currency) {
            return Some(i - 1);
        }
        i = i - 1;
    }
    None
}

/// Appends the seven change facts of a currency against its summary the month before.
fn push_currency_deltas(out: &mut Vec<RawFact>, c: &ExpenseCurrencySummary, p: &ExpenseCurrencySummary)
    ensures
        raw_views(final(out)@) == raw_views(old(out)@) + Seq::new(7, |k: int| currency_delta_fact(*c, *p, k)),
{
    let ghost start = raw_views(out@);
    let mut k: usize = 0;
    while k < 7
        invariant
            0 <= k <= 7,
            raw_views(out@) == start + Seq::new(k as nat, |m: int| currency_delta_fact(*c, *p, m)),
        decreases 7 - k,
    {
        let metric = metric_name(k);
        let id = "delta:currency:".to_owned().concat(c.currency.as_str()).concat(":").concat(metric);
        let name = "delta.".to_owned().concat(metric);
        let amount = metric_amount(c, k) as i128 - metric_amount(p, k) as i128;
        push_raw(out, (id, name, c.currency.clone(), amount));
        k = k + 1;
        assert(raw_views(out@) =~= start + Seq::new(k as nat, |m: int| currency_delta_fact(*c, *p, m)));
    }
}

/// The key of a total as stored while the keys are collected.
pub open spec fn key_views(keys: Seq<(String, ExpenseCategory)>) -> Seq<(Seq<char>, ExpenseCategory)> {
    keys.map_values(|k: (String, ExpenseCategory)| (k.0@, k.1))
}

fn has_key(keys: &Vec<(String, ExpenseCategory)>, t: &ExpenseCategoryTotal) -> (r: bool)
    ensures
        r == key_views(keys@).contains(category_key(*t)),
{
    let mut i: usize = 0;
    while i < keys.len()
        invariant
            0 <= i <= keys@.len(),
            forall|m: int| 0 <= m < i ==> key_views(keys@)[m] != category_key(*t),
        decreases keys@.len() - i,
    {
        assert(key_views(keys@)[i as int] == (keys@[i as int].0@, keys@[i as int].1));
        if keys[i].1 == t.category && same_text(&keys[i].0, &t.currency) {
            assert(key_views(keys@)[i as int] == category_key(*t));
            return true;
        }
        i = i + 1;
    }
    false
}

/// Adds the keys of totals not yet collected, in order.
fn collect_keys(keys: &mut Vec<(String, ExpenseCategory)>, ts: &Vec<ExpenseCategoryTotal>, Ghost(before): Ghost<Seq<ExpenseCategoryTotal>>)
    requires
        key_views(old(keys)@) == distinct_keys(before),
    ensures
        key_views(final(keys)@) == distinct_keys(before + ts@),
{
    let mut i: usize = 0;
    assert(before + ts@.subrange(0, 0) =~= before);
    while i < ts.len()
        invariant
            0 <= i <= ts@.len(),
            key_views(keys@) == distinct_keys(before + ts@.subrange(0, i as int)),
        decreases ts@.len() - i,
    {
        let ghost seen = before + ts@.subrange(0, i as int);
        let ghost next = before + ts@.subrange(0, i + 1);
        assert(next.drop_last() =~= seen);
        assert(next.last() == ts@[i as int]);
        if !has_key(keys, &ts[i]) {
            let ghost old_keys = keys@;
            keys.push((ts[i].currency.clone(), ts[i].category));
            assert(key_views(keys@) =~= key_views(old_keys).push(category_key(ts@[i as int])));
        }
        i = i + 1;
    }
    assert(ts@.subrange(0, ts@.len() as int) =~= ts@);
}

/// The amount of the last total under a key, zero when there is none.
fn latest_total(ts: &Vec<ExpenseCategoryTotal>, currency: &String, category: ExpenseCategory) -> (r: i64)
    ensures
        r == latest_amount(ts@, (currency@, category)),
{
    let mut i: usize = ts.len();
    assert(ts@.subrange(0, ts@.len() as int) =~= ts@);
    while i > 0
        invariant
            0 <= i <= ts@.len(),
            latest_amount(ts@, (currency@, category)) == latest_amount(ts@.subrange(0, i as int), (currency@, category)),
        decreases i,
    {
        let ghost sub = ts@.subrange(0, i as int);
        assert(sub.drop_last() =~= ts@.subrange(0, i - 1));
        assert(sub.last() == ts@[i - 1]);
        if ts[i - 1].category == category && same_text(&ts[i - 1].currency, currency) {
            return ts[i - 1].amount_minor;
        }
        i = i - 1;
    }
    0
}

/// Builds the facts of a month against the month before, in the order they are stated
/// before sorting.
fn build_facts(summary: &ExpenseMonthSummary, previous: &ExpenseMonthSummary) -> (r: Vec<RawFact>)
    ensures
        raw_views(r@) == month_facts(*summary, *previous),
{
    let mut out: Vec<RawFact> = Vec::new();
    let cs = &summary.currencies;
    let mut i: usize = 0;
    assert(raw_views(out@) =~= Seq::<FactView>::empty());
    while i < cs.len()
        invariant
            0 <= i <= cs@.len(),
            raw_views(out@) == currency_facts(cs@.subrange(0, i as int)),
        decreases cs@.len() - i,
    {
        let ghost sub = cs@.subrange(0, i + 1);
        assert(sub.drop_last() =~= cs@.subrange(0, i as int));
        push_currency_facts(&mut out, &cs[i]);
        i = i + 1;
    }
    assert(cs@.subrange(0, cs@.len() as int) =~= cs@);
    let ghost after_currencies = raw_views(out@);
    let ts = &summary.categories;
    let mut j: usize = 0;
    while j < ts.len()
        invariant
            0 <= j <= ts@.len(),
            raw_views(out@) == after_currencies + category_facts(ts@.subrange(0, j as int)),
        decreases ts@.len() - j,
    {
        let t = &ts[j];
        let name = t.category.as_str();
        let id = "category:".to_owned().concat(t.currency.as_str()).concat(":").concat(name);
        let metric = "category.".to_owned().concat(name);
        push_raw(&mut out, (id, metric, t.currency.clone(), t.amount_minor as i128));
        j = j + 1;
        assert(raw_views(out@) =~= after_currencies + category_facts(ts@.subrange(0, j as int)));
    }
    assert(ts@.subrange(0, ts@.len() as int) =~= ts@);
    if summary.status == ExpenseReportStatus::Confirmed && previous.status == ExpenseReportStatus::Confirmed {
        let ghost base = raw_views(out@);
        let pcs = &previous.currencies;
        let mut i: usize = 0;
        assert(base + currency_deltas(cs@.subrange(0, 0), pcs@) =~= base);
        while i < cs.len()
            invariant
                0 <= i <= cs@.len(),
                raw_views(out@) == base + currency_deltas(cs@.subrange(0, i as int), pcs@),
            decreases cs@.len() - i,
        {
            let ghost sub = cs@.subrange(0, i + 1);
            assert(sub.drop_last() =~= cs@.subrange(0, i as int));
            assert(sub.last() == cs@[i as int]);
            match find_previous(pcs, &cs[i].currency) {
                Some(k) => {
                    push_currency_deltas(&mut out, &cs[i], &pcs[k]);
                },
                None => {},
            }
            i = i + 1;
        }
        assert(cs@.subrange(0, cs@.len() as int) =~= cs@);
        let ghost base2 = raw_views(out@);
        let mut keys: Vec<(String, ExpenseCategory)> = Vec::new();
        assert(key_views(keys@) =~= distinct_keys(Seq::<ExpenseCategoryTotal>::empty()));
        collect_keys(&mut keys, &summary.categories, Ghost(Seq::<ExpenseCategoryTotal>::empty()));
        assert(Seq::<ExpenseCategoryTotal>::empty() + summary.categories@ =~= summary.categories@);
        collect_keys(&mut keys, &previous.categories, Ghost(summary.categories@));
        let ghost all_keys = key_views(keys@);
        let mut m: usize = 0;
        while m < keys.len()
            invariant
                0 <= m <= keys@.len(),
                all_keys == key_views(keys@),
                raw_views(out@) == base2 + all_keys.subrange(0, m as int).map_values(
                    |k: (Seq<char>, ExpenseCategory)| category_delta_fact(summary.categories@, previous.categories@, k),
                ),
            decreases keys@.len() - m,
        {
            let key = &keys[m];
            assert(all_keys[m as int] == (key.0@, key.1));
            let name = key.1.as_str();
            let id = "delta:category:".to_owned().concat(key.0.as_str()).concat(":").concat(name);
            let metric = "delta.category.".to_owned().concat(name);
            let amount = latest_total(&summary.categories, &key.0, key.1) as i128 - latest_total(
                &previous.categories,
                &key.0,
                key.1,
            ) as i128;
            push_raw(&mut out, (id, metric, key.0.clone(), amount));
            m = m + 1;
            assert(raw_views(out@) =~= base2 + all_keys.subrange(0, m as int).map_values(
                |k: (Seq<char>, ExpenseCategory)| category_delta_fact(summary.categories@, previous.categories@, k),
            ));
        }
        assert(all_keys.subrange(0, all_keys.len() as int) =~= all_keys);
    }
    out
}

/// Ten facts per currency, each amount one of the currency's.
proof fn lemma_currency_facts(cs: Seq<ExpenseCurrencySummary>)
    ensures
        currency_facts(cs).len() == 10 * cs.len(),
        forall|k: int|
            0 <= k < currency_facts(cs).len() ==> i64::MIN <= #[trigger] currency_facts(cs)[k].3 <= i64::MAX,
    decreases cs.len(),
{
    if cs.len() > 0 {
        lemma_currency_facts(cs.drop_last());
        let prefix = currency_facts(cs.drop_last());
        let tail = Seq::new(10, |k: int| currency_fact(cs.last(), k));
        assert forall|k: int| 0 <= k < currency_facts(cs).len() implies i64::MIN <= #[trigger] currency_facts(cs)[k].3
            <= i64::MAX by {
            if k >= prefix.len() {
                assert(currency_facts(cs)[k] == tail[k - prefix.len()]);
            } else {
                assert(currency_facts(cs)[k] == prefix[k]);
            }
        }
    }
}

/// A report cites ten facts per currency of the month and one per category total, and
/// change facts only when this month and the last are both confirmed.
pub proof fn lemma_report_fact_counts(s: ExpenseMonthSummary, p: ExpenseMonthSummary)
    ensures
        sorted_by_id(month_facts(s, p)).len() == 10 * s.currencies@.len() + s.categories@.len() + delta_facts(
            s,
            p,
        ).len(),
        !compares_months(s, p) ==> sorted_by_id(month_facts(s, p)).len() == 10 * s.currencies@.len()
            + s.categories@.len(),
{
    lemma_currency_facts(s.currencies@);
    lemma_sorted_by_id_permutes(month_facts(s, p));
}

/// The facts an AI report on a month may cite, ordered by ID: the month's per-currency
/// and category totals and, when this month and the last are both confirmed, how each
/// changed. A change too large to report exactly is refused.
pub fn report_facts(summary: &ExpenseMonthSummary, previous: &ExpenseMonthSummary) -> (r: Result<
    Vec<ExpenseReportFact>,
    Error,
>)
    ensures
        r is Ok <==> deltas_reportable(*summary, *previous),
        r matches Ok(v) ==> fact_views(v@) == sorted_by_id(month_facts(*summary, *previous)),
        r matches Ok(v) ==> ids_ordered(fact_views(v@)),
        r matches Err(e) ==> e is Invariant,
{
    let raw = build_facts(summary, previous);
    let ghost all = month_facts(*summary, *previous);
    let ghost head = currency_facts(summary.currencies@) + category_facts(summary.categories@);
    proof {
        lemma_currency_facts(summary.currencies@);
        assert(all =~= head + delta_facts(*summary, *previous));
        assert(raw@.len() == raw_views(raw@).len());
        assert(head.len() == 10 * summary.currencies@.len() + summary.categories@.len());
        assert(all.len() == head.len() + delta_facts(*summary, *previous).len());
        assert(summary.currencies@.len() * 10 + summary.categories@.len() <= raw@.len());
    }
    let n = raw.len();
    assert(summary.currencies@.len() * 10 + summary.categories@.len() <= n);
    let head_len: usize = summary.currencies.len() * 10 + summary.categories.len();
    let mut facts: Vec<ExpenseReportFact> = Vec::new();
    let mut i: usize = 0;
    while i < raw.len()
        invariant
            0 <= i <= raw@.len(),
            raw_views(raw@) == all,
            all == head + delta_facts(*summary, *previous),
            head_len == head.len(),
            head == currency_facts(summary.currencies@) + category_facts(summary.categories@),
            forall|k: int|
                0 <= k < currency_facts(summary.currencies@).len() ==> i64::MIN <= #[trigger] currency_facts(
                    summary.currencies@,
                )[k].3 <= i64::MAX,
            facts@.len() == i,
            forall|k: int| 0 <= k < i ==> fact_view(#[trigger] facts@[k]) == all[k],
            forall|k: int| head_len <= k < i ==> -MAX_SAFE_AMOUNT_MINOR <= #[trigger] all[k].3 <= MAX_SAFE_AMOUNT_MINOR,
        decreases raw@.len() - i,
    {
        let f = &raw[i];
        assert(all[i as int] == raw_view(raw@[i as int]));
        if i >= head_len {
            if f.3 < -(MAX_SAFE_AMOUNT_MINOR as i128) || f.3 > MAX_SAFE_AMOUNT_MINOR as i128 {
                proof {
                    let d = delta_facts(*summary, *previous);
                    assert(all.len() == head.len() + d.len());
                    assert(0 <= i - head_len < d.len());
                    assert((head + d)[i as int] == d[i - head_len]);
                    assert(d[i - head_len] == all[i as int]);
                    assert(d[i - head_len].3 == f.3 as int);
                    assert(!deltas_reportable(*summary, *previous));
                }
                return Err(broken("expense aggregate exceeds the safe amountMinor range"));
            }
        } else {
            proof {
                let cf = currency_facts(summary.currencies@);
                if (i as int) < cf.len() {
                    assert(head[i as int] == cf[i as int]);
                } else {
                    let t = summary.categories@[i - cf.len()];
                    assert(head[i as int] == category_facts(summary.categories@)[i - cf.len()]);
                    assert(category_facts(summary.categories@)[i - cf.len()] == category_fact(t));
                }
            }
        }
        proof {
            if i >= head_len {
                assert(all[i as int].3 == f.3 as int);
            } else {
                let cf = currency_facts(summary.currencies@);
                if (i as int) < cf.len() {
                    assert(cf[i as int].3 == f.3 as int);
                }
            }
            assert(i64::MIN <= f.3 <= i64::MAX);
        }
        let amount: i64 = f.3 as i64;
        facts.push(ExpenseReportFact { fact_id: f.0.clone(), metric: f.1.clone(), currency: f.2.clone(), amount_minor: amount });
        i = i + 1;
    }
    proof {
        let d = delta_facts(*summary, *previous);
        assert forall|k: int| 0 <= k < d.len() implies -MAX_SAFE_AMOUNT_MINOR <= #[trigger] d[k].3 <= MAX_SAFE_AMOUNT_MINOR by {
            assert(all[k + head_len] == d[k]);
        }
        assert(fact_views(facts@) =~= all);
    }
    Ok(sort_facts(facts))
}


// ---------------------------------------------------------------------------------------
// Fact IDs are distinct
// ---------------------------------------------------------------------------------------

/// No character of `s` is a colon.
pub open spec fn colon_free(s: Seq<char>) -> bool {
    forall|i: int| 0 <= i < s.len() ==> s[i] != ':'
}

/// The head of a fact ID by group: currency facts, category facts, and the change facts
/// of each.
pub open spec fn group_head(g: int) -> Seq<char> {
    if g == 0 {
        "currency:"@
    } else if g == 1 {
        "category:"@
    } else if g == 2 {
        "delta:currency:"@
    } else {
        "delta:category:"@
    }
}

/// Fact `f`'s ID is the head of group `g`, then `key`, a colon, and `tail`, which holds
/// no colon.
pub open spec fn id_parts(f: FactView, g: int, key: Seq<char>, tail: Seq<char>) -> bool {
    &&& 0 <= g < 4
    &&& colon_free(tail)
    &&& f.0 == group_head(g) + key + ":"@ + tail
}

/// No two facts share an ID.
pub open spec fn ids_distinct(s: Seq<FactView>) -> bool {
    forall|i: int, j: int| 0 <= i < j < s.len() ==> (#[trigger] s[i]).0 != (#[trigger] s[j]).0
}

/// Each currency is listed once.
pub open spec fn currencies_distinct(cs: Seq<ExpenseCurrencySummary>) -> bool {
    forall|i: int, j: int| 0 <= i < j < cs.len() ==> (#[trigger] cs[i]).currency@ != (#[trigger] cs[j]).currency@
}

/// Each category total is listed once per currency and category.
pub open spec fn totals_distinct(ts: Seq<ExpenseCategoryTotal>) -> bool {
    forall|i: int, j: int| 0 <= i < j < ts.len() ==> category_key(#[trigger] ts[i]) != category_key(#[trigger] ts[j])
}

/// A month summary lists each currency once, and each category total once per currency
/// and category.
pub open spec fn summary_keys_distinct(s: ExpenseMonthSummary) -> bool {
    currencies_distinct(s.currencies@) && totals_distinct(s.categories@)
}

/// A text split at its last colon splits one way only.
proof fn lemma_split_at_last_colon(a: Seq<char>, m: Seq<char>, b: Seq<char>, n: Seq<char>)
    requires
        colon_free(m),
        colon_free(n),
        a + ":"@ + m == b + ":"@ + n,
    ensures
        a == b,
        m == n,
{
    reveal_strlit(":");
    let ac = a + ":"@;
    let bc = b + ":"@;
    let x = ac + m;
    let y = bc + n;
    assert(ac.len() == a.len() + 1 && bc.len() == b.len() + 1);
    assert(x.len() == y.len());
    if m.len() < n.len() {
        let p = a.len() as int;
        assert(x[p] == ac[p]);
        assert(ac[p] == ':');
        assert(y[p] == n[p - bc.len()]);
    } else if n.len() < m.len() {
        let p = b.len() as int;
        assert(y[p] == bc[p]);
        assert(bc[p] == ':');
        assert(x[p] == m[p - ac.len()]);
    } else {
        assert(a =~= x.subrange(0, a.len() as int));
        assert(b =~= y.subrange(0, b.len() as int));
        assert(m =~= x.subrange(ac.len() as int, x.len() as int));
        assert(n =~= y.subrange(bc.len() as int, y.len() as int));
    }
}

/// A fact ID names its group, key and tail.
proof fn lemma_id_parts_injective(
    f1: FactView,
    g1: int,
    k1: Seq<char>,
    t1: Seq<char>,
    f2: FactView,
    g2: int,
    k2: Seq<char>,
    t2: Seq<char>,
)
    requires
        id_parts(f1, g1, k1, t1),
        id_parts(f2, g2, k2, t2),
        f1.0 == f2.0,
    ensures
        g1 == g2,
        k1 == k2,
        t1 == t2,
{
    lemma_split_at_last_colon(group_head(g1) + k1, t1, group_head(g2) + k2, t2);
    reveal_strlit("currency:");
    reveal_strlit("category:");
    reveal_strlit("delta:currency:");
    reveal_strlit("delta:category:");
    let x = group_head(g1) + k1;
    let y = group_head(g2) + k2;
    assert(x[1] == group_head(g1)[1] && y[1] == group_head(g2)[1]);
    assert(x[7] == group_head(g1)[7] && y[7] == group_head(g2)[7]);
    assert(g1 == g2);
    assert(k1 =~= x.subrange(group_head(g1).len() as int, x.len() as int));
    assert(k2 =~= y.subrange(group_head(g2).len() as int, y.len() as int));
}

/// The metric names hold no colon and name one metric each.
proof fn lemma_metric_names()
    ensures
        forall|k: int| 0 <= k < 10 ==> colon_free(#[trigger] currency_metrics()[k]),
        forall|a: int, b: int|
            0 <= a < 10 && 0 <= b < 10 && #[trigger] currency_metrics()[a] == #[trigger] currency_metrics()[b]
                ==> a == b,
{
    reveal_strlit("net_personal_spend");
    reveal_strlit("gross_purchase");
    reveal_strlit("refunds");
    reveal_strlit("settlement_received");
    reveal_strlit("settlement_sent");
    reveal_strlit("fees");
    reveal_strlit("unconfirmed_outflow");
    reveal_strlit("recurring_expected");
    reveal_strlit("recurring_paid");
    reveal_strlit("recurring_remaining");
    let m = currency_metrics();
    assert forall|k: int| 0 <= k < 10 implies colon_free(#[trigger] currency_metrics()[k]) by {
        if k == 0 {
        } else if k == 1 {
        } else if k == 2 {
        } else if k == 3 {
        } else if k == 4 {
        } else if k == 5 {
        } else if k == 6 {
        } else if k == 7 {
        } else if k == 8 {
        } else {
        }
    }
    assert forall|a: int, b: int|
        0 <= a < 10 && 0 <= b < 10 && #[trigger] currency_metrics()[a] == #[trigger] currency_metrics()[b] implies a
        == b by {
        if a != b {
            assert(m[a].len() != m[b].len() || m[a][0] != m[b][0]);
        }
    }
}

/// Category names hold no colon.
proof fn lemma_category_names_colon_free()
    ensures
        forall|c: ExpenseCategory| colon_free(#[trigger] c.name()),
{
    reveal_strlit("food");
    reveal_strlit("delivery");
    reveal_strlit("cafe");
    reveal_strlit("groceries");
    reveal_strlit("housing_utilities");
    reveal_strlit("transportation");
    reveal_strlit("ott_subscriptions");
    reveal_strlit("shopping");
    reveal_strlit("health");
    reveal_strlit("leisure");
    reveal_strlit("education");
    reveal_strlit("travel");
    reveal_strlit("insurance_finance_tax");
    reveal_strlit("gifts_dues");
    reveal_strlit("refund_income");
    reveal_strlit("transfer_settlement");
    reveal_strlit("other");
    reveal_strlit("unconfirmed");
    assert forall|c: ExpenseCategory| colon_free(#[trigger] c.name()) by {
        match c {
            ExpenseCategory::Food => {},
            ExpenseCategory::Delivery => {},
            ExpenseCategory::Cafe => {},
            ExpenseCategory::Groceries => {},
            ExpenseCategory::HousingUtilities => {},
            ExpenseCategory::Transportation => {},
            ExpenseCategory::OttSubscriptions => {},
            ExpenseCategory::Shopping => {},
            ExpenseCategory::Health => {},
            ExpenseCategory::Leisure => {},
            ExpenseCategory::Education => {},
            ExpenseCategory::Travel => {},
            ExpenseCategory::InsuranceFinanceTax => {},
            ExpenseCategory::GiftsDues => {},
            ExpenseCategory::RefundIncome => {},
            ExpenseCategory::TransferSettlement => {},
            ExpenseCategory::Other => {},
            ExpenseCategory::Unconfirmed => {},
        }
    }
}

/// Fact `f`'s ID is the head of group `g`, one of the currencies, and one of the first
/// `n` metrics.
pub open spec fn named_by(f: FactView, g: int, cs: Seq<ExpenseCurrencySummary>, n: int) -> bool {
    exists|q: int, k: int|
        0 <= q < cs.len() && 0 <= k < n && #[trigger] id_parts(f, g, cs[q].currency@, currency_metrics()[k])
}

/// Facts with distinct IDs, followed by more such facts none of whose IDs came before,
/// have distinct IDs.
proof fn lemma_distinct_concat(a: Seq<FactView>, b: Seq<FactView>)
    requires
        ids_distinct(a),
        ids_distinct(b),
        forall|i: int, j: int| 0 <= i < a.len() && 0 <= j < b.len() ==> (#[trigger] a[i]).0 != (#[trigger] b[j]).0,
    ensures
        ids_distinct(a + b),
{
    let c = a + b;
    assert forall|i: int, j: int| 0 <= i < j < c.len() implies (#[trigger] c[i]).0 != (#[trigger] c[j]).0 by {
        if j < a.len() {
            assert(c[i] == a[i] && c[j] == a[j]);
        } else if i < a.len() {
            assert(c[i] == a[i] && c[j] == b[j - a.len()]);
        } else {
            assert(c[i] == b[i - a.len()] && c[j] == b[j - a.len()]);
        }
    }
}

/// Each currency fact's ID is the currency and one of the ten metrics; with each currency
/// listed once, no two share an ID.
proof fn lemma_currency_fact_ids(cs: Seq<ExpenseCurrencySummary>)
    ensures
        currency_facts(cs).len() == 10 * cs.len(),
        forall|i: int| 0 <= i < currency_facts(cs).len() ==> named_by(#[trigger] currency_facts(cs)[i], 0, cs, 10),
        currencies_distinct(cs) ==> ids_distinct(currency_facts(cs)),
    decreases cs.len(),
{
    lemma_metric_names();
    if cs.len() > 0 {
        let rest = cs.drop_last();
        let c = cs.last();
        lemma_currency_fact_ids(rest);
        let a = currency_facts(rest);
        let b = Seq::new(10, |k: int| currency_fact(c, k));
        assert(currency_facts(cs) == a + b);
        assert forall|k: int| 0 <= k < 10 implies #[trigger] id_parts(b[k], 0, c.currency@, currency_metrics()[k]) by {
        }
        assert forall|i: int| 0 <= i < currency_facts(cs).len() implies named_by(#[trigger] currency_facts(cs)[i], 0, cs, 10) by {
            if i < a.len() {
                assert(named_by(a[i], 0, rest, 10));
                let (q, k) = choose|q: int, k: int|
                    0 <= q < rest.len() && 0 <= k < 10 && #[trigger] id_parts(a[i], 0, rest[q].currency@, currency_metrics()[k]);
                assert(rest[q] == cs[q]);
                assert(id_parts(currency_facts(cs)[i], 0, cs[q].currency@, currency_metrics()[k]));
            } else {
                let k = i - a.len();
                assert(currency_facts(cs)[i] == b[k]);
                assert(id_parts(b[k], 0, c.currency@, currency_metrics()[k]));
                assert(id_parts(currency_facts(cs)[i], 0, cs[cs.len() - 1].currency@, currency_metrics()[k]));
            }
        }
        if currencies_distinct(cs) {
            assert(currencies_distinct(rest)) by {
                assert forall|i: int, j: int| 0 <= i < j < rest.len() implies (#[trigger] rest[i]).currency@
                    != (#[trigger] rest[j]).currency@ by {
                    assert(rest[i] == cs[i] && rest[j] == cs[j]);
                }
            }
            assert forall|x: int, y: int| 0 <= x < y < b.len() implies (#[trigger] b[x]).0 != (#[trigger] b[y]).0 by {
                if b[x].0 == b[y].0 {
                    lemma_id_parts_injective(
                        b[x], 0, c.currency@, currency_metrics()[x],
                        b[y], 0, c.currency@, currency_metrics()[y],
                    );
                }
            }
            assert forall|x: int, y: int| 0 <= x < a.len() && 0 <= y < b.len() implies (#[trigger] a[x]).0
                != (#[trigger] b[y]).0 by {
                assert(named_by(a[x], 0, rest, 10));
                let (q, k) = choose|q: int, k: int|
                    0 <= q < rest.len() && 0 <= k < 10 && #[trigger] id_parts(a[x], 0, rest[q].currency@, currency_metrics()[k]);
                if a[x].0 == b[y].0 {
                    lemma_id_parts_injective(
                        a[x], 0, rest[q].currency@, currency_metrics()[k],
                        b[y], 0, c.currency@, currency_metrics()[y],
                    );
                    assert(rest[q] == cs[q]);
                    assert(cs[q].currency@ != cs[cs.len() - 1].currency@);
                }
            }
            lemma_distinct_concat(a, b);
        }
    } else {
        assert(currency_facts(cs) =~= Seq::<FactView>::empty());
    }
}

/// Each change fact of a currency names the currency and one of the first seven metrics;
/// with each currency listed once, no two share an ID.
proof fn lemma_currency_delta_ids(cs: Seq<ExpenseCurrencySummary>, prev: Seq<ExpenseCurrencySummary>)
    ensures
        forall|i: int|
            0 <= i < currency_deltas(cs, prev).len() ==> named_by(#[trigger] currency_deltas(cs, prev)[i], 2, cs, 7),
        currencies_distinct(cs) ==> ids_distinct(currency_deltas(cs, prev)),
    decreases cs.len(),
{
    lemma_metric_names();
    if cs.len() > 0 {
        let rest = cs.drop_last();
        let c = cs.last();
        lemma_currency_delta_ids(rest, prev);
        let a = currency_deltas(rest, prev);
        if currencies_distinct(cs) {
            assert(currencies_distinct(rest)) by {
                assert forall|i: int, j: int| 0 <= i < j < rest.len() implies (#[trigger] rest[i]).currency@
                    != (#[trigger] rest[j]).currency@ by {
                    assert(rest[i] == cs[i] && rest[j] == cs[j]);
                }
            }
        }
        match previous_of(prev, c.currency@) {
            Some(pc) => {
                let b = Seq::new(7, |k: int| currency_delta_fact(c, pc, k));
                assert(currency_deltas(cs, prev) == a + b);
                assert forall|k: int| 0 <= k < 7 implies #[trigger] id_parts(b[k], 2, c.currency@, currency_metrics()[k]) by {
                }
                assert forall|i: int| 0 <= i < currency_deltas(cs, prev).len() implies named_by(
                    #[trigger] currency_deltas(cs, prev)[i],
                    2,
                    cs,
                    7,
                ) by {
                    if i < a.len() {
                        assert(named_by(a[i], 2, rest, 7));
                        let (q, k) = choose|q: int, k: int|
                            0 <= q < rest.len() && 0 <= k < 7 && #[trigger] id_parts(
                                a[i],
                                2,
                                rest[q].currency@,
                                currency_metrics()[k],
                            );
                        assert(rest[q] == cs[q]);
                        assert(id_parts(currency_deltas(cs, prev)[i], 2, cs[q].currency@, currency_metrics()[k]));
                    } else {
                        let k = i - a.len();
                        assert(currency_deltas(cs, prev)[i] == b[k]);
                        assert(id_parts(b[k], 2, c.currency@, currency_metrics()[k]));
                        assert(id_parts(
                            currency_deltas(cs, prev)[i],
                            2,
                            cs[cs.len() - 1].currency@,
                            currency_metrics()[k],
                        ));
                    }
                }
                if currencies_distinct(cs) {
                    assert forall|x: int, y: int| 0 <= x < y < b.len() implies (#[trigger] b[x]).0 != (#[trigger] b[y]).0 by {
                        if b[x].0 == b[y].0 {
                            lemma_id_parts_injective(
                                b[x], 2, c.currency@, currency_metrics()[x],
                                b[y], 2, c.currency@, currency_metrics()[y],
                            );
                        }
                    }
                    assert forall|x: int, y: int| 0 <= x < a.len() && 0 <= y < b.len() implies (#[trigger] a[x]).0
                        != (#[trigger] b[y]).0 by {
                        assert(named_by(a[x], 2, rest, 7));
                        let (q, k) = choose|q: int, k: int|
                            0 <= q < rest.len() && 0 <= k < 7 && #[trigger] id_parts(
                                a[x],
                                2,
                                rest[q].currency@,
                                currency_metrics()[k],
                            );
                        if a[x].0 == b[y].0 {
                            lemma_id_parts_injective(
                                a[x], 2, rest[q].currency@, currency_metrics()[k],
                                b[y], 2, c.currency@, currency_metrics()[y],
                            );
                            assert(rest[q] == cs[q]);
                            assert(cs[q].currency@ != cs[cs.len() - 1].currency@);
                        }
                    }
                    lemma_distinct_concat(a, b);
                }
            },
            None => {
                assert(currency_deltas(cs, prev) =~= a);
                assert forall|i: int| 0 <= i < currency_deltas(cs, prev).len() implies named_by(
                    #[trigger] currency_deltas(cs, prev)[i],
                    2,
                    cs,
                    7,
                ) by {
                    assert(named_by(a[i], 2, rest, 7));
                    let (q, k) = choose|q: int, k: int|
                        0 <= q < rest.len() && 0 <= k < 7 && #[trigger] id_parts(
                            a[i],
                            2,
                            rest[q].currency@,
                            currency_metrics()[k],
                        );
                    assert(rest[q] == cs[q]);
                    assert(id_parts(currency_deltas(cs, prev)[i], 2, cs[q].currency@, currency_metrics()[k]));
                }
            },
        }
    } else {
        assert(currency_deltas(cs, prev) =~= Seq::<FactView>::empty());
    }
}

/// Each category fact names the total's currency and category; with each total listed
/// once, no two share an ID.
proof fn lemma_category_fact_ids(ts: Seq<ExpenseCategoryTotal>)
    ensures
        category_facts(ts).len() == ts.len(),
        forall|i: int|
            0 <= i < ts.len() ==> id_parts(#[trigger] category_facts(ts)[i], 1, ts[i].currency@, ts[i].category.name()),
        totals_distinct(ts) ==> ids_distinct(category_facts(ts)),
{
    lemma_category_names_colon_free();
    ExpenseCategory::lemma_names_distinct();
    let f = category_facts(ts);
    assert forall|i: int| 0 <= i < ts.len() implies id_parts(
        #[trigger] category_facts(ts)[i],
        1,
        ts[i].currency@,
        ts[i].category.name(),
    ) by {
        assert(f[i] == category_fact(ts[i]));
        assert(colon_free(ts[i].category.name()));
    }
    if totals_distinct(ts) {
        assert forall|i: int, j: int| 0 <= i < j < f.len() implies (#[trigger] f[i]).0 != (#[trigger] f[j]).0 by {
            if f[i].0 == f[j].0 {
                lemma_id_parts_injective(
                    f[i], 1, ts[i].currency@, ts[i].category.name(),
                    f[j], 1, ts[j].currency@, ts[j].category.name(),
                );
                assert(category_key(ts[i]) == category_key(ts[j]));
            }
        }
    }
}

/// The distinct keys hold no key twice.
proof fn lemma_distinct_keys(ts: Seq<ExpenseCategoryTotal>)
    ensures
        forall|i: int, j: int|
            0 <= i < j < distinct_keys(ts).len() ==> #[trigger] distinct_keys(ts)[i] != #[trigger] distinct_keys(ts)[j],
    decreases ts.len(),
{
    if ts.len() > 0 {
        lemma_distinct_keys(ts.drop_last());
        let d = distinct_keys(ts.drop_last());
        if !d.contains(category_key(ts.last())) {
            let e = d.push(category_key(ts.last()));
            assert forall|i: int, j: int| 0 <= i < j < e.len() implies #[trigger] e[i] != #[trigger] e[j] by {
                if j == d.len() {
                    assert(e[i] == d[i]);
                } else {
                    assert(e[i] == d[i] && e[j] == d[j]);
                }
            }
        }
    }
}

/// Each category change fact names its key; no two share an ID.
proof fn lemma_category_delta_ids(cur: Seq<ExpenseCategoryTotal>, prev: Seq<ExpenseCategoryTotal>)
    ensures
        forall|i: int|
            0 <= i < category_deltas(cur, prev).len() ==> id_parts(
                #[trigger] category_deltas(cur, prev)[i],
                3,
                distinct_keys(cur + prev)[i].0,
                distinct_keys(cur + prev)[i].1.name(),
            ),
        ids_distinct(category_deltas(cur, prev)),
{
    lemma_category_names_colon_free();
    ExpenseCategory::lemma_names_distinct();
    lemma_distinct_keys(cur + prev);
    let keys = distinct_keys(cur + prev);
    let f = category_deltas(cur, prev);
    assert forall|i: int| 0 <= i < f.len() implies id_parts(
        #[trigger] category_deltas(cur, prev)[i],
        3,
        keys[i].0,
        keys[i].1.name(),
    ) by {
        assert(f[i] == category_delta_fact(cur, prev, keys[i]));
        assert(colon_free(keys[i].1.name()));
    }
    assert forall|i: int, j: int| 0 <= i < j < f.len() implies (#[trigger] f[i]).0 != (#[trigger] f[j]).0 by {
        if f[i].0 == f[j].0 {
            lemma_id_parts_injective(
                f[i], 3, keys[i].0, keys[i].1.name(),
                f[j], 3, keys[j].0, keys[j].1.name(),
            );
            assert(keys[i] == keys[j]);
        }
    }
}

/// Fact `f`'s ID is in group `g`.
pub open spec fn in_group(f: FactView, g: int) -> bool {
    exists|k: Seq<char>, t: Seq<char>| #[trigger] id_parts(f, g, k, t)
}

/// Facts of two different groups never share an ID.
proof fn lemma_groups_apart(a: Seq<FactView>, ga: int, b: Seq<FactView>, gb: int)
    requires
        ga != gb,
        forall|i: int| 0 <= i < a.len() ==> in_group(#[trigger] a[i], ga),
        forall|j: int| 0 <= j < b.len() ==> in_group(#[trigger] b[j], gb),
    ensures
        forall|i: int, j: int| 0 <= i < a.len() && 0 <= j < b.len() ==> (#[trigger] a[i]).0 != (#[trigger] b[j]).0,
{
    assert forall|i: int, j: int| 0 <= i < a.len() && 0 <= j < b.len() implies (#[trigger] a[i]).0 != (#[trigger] b[j]).0 by {
        assert(in_group(a[i], ga) && in_group(b[j], gb));
        let (k1, t1) = choose|k: Seq<char>, t: Seq<char>| #[trigger] id_parts(a[i], ga, k, t);
        let (k2, t2) = choose|k: Seq<char>, t: Seq<char>| #[trigger] id_parts(b[j], gb, k, t);
        if a[i].0 == b[j].0 {
            lemma_id_parts_injective(a[i], ga, k1, t1, b[j], gb, k2, t2);
        }
    }
}

/// Every fact a report may cite has its own ID, when the summary lists each currency
/// once and each category total once per currency and category.
pub proof fn lemma_fact_ids_distinct(s: ExpenseMonthSummary, p: ExpenseMonthSummary)
    requires
        summary_keys_distinct(s),
    ensures
        ids_distinct(month_facts(s, p)),
{
    let cf = currency_facts(s.currencies@);
    let tf = category_facts(s.categories@);
    lemma_currency_fact_ids(s.currencies@);
    lemma_category_fact_ids(s.categories@);
    assert forall|i: int| 0 <= i < cf.len() implies in_group(#[trigger] cf[i], 0) by {
        assert(named_by(cf[i], 0, s.currencies@, 10));
        let (q, k) = choose|q: int, k: int|
            0 <= q < s.currencies@.len() && 0 <= k < 10 && #[trigger] id_parts(
                cf[i],
                0,
                s.currencies@[q].currency@,
                currency_metrics()[k],
            );
        assert(id_parts(cf[i], 0, s.currencies@[q].currency@, currency_metrics()[k]));
    }
    assert forall|i: int| 0 <= i < tf.len() implies in_group(#[trigger] tf[i], 1) by {
        assert(id_parts(tf[i], 1, s.categories@[i].currency@, s.categories@[i].category.name()));
    }
    lemma_groups_apart(cf, 0, tf, 1);
    lemma_distinct_concat(cf, tf);
    let head = cf + tf;
    let d = delta_facts(s, p);
    if compares_months(s, p) {
        let cd = currency_deltas(s.currencies@, p.currencies@);
        let kd = category_deltas(s.categories@, p.categories@);
        lemma_currency_delta_ids(s.currencies@, p.currencies@);
        lemma_category_delta_ids(s.categories@, p.categories@);
        assert forall|i: int| 0 <= i < cd.len() implies in_group(#[trigger] cd[i], 2) by {
            assert(named_by(cd[i], 2, s.currencies@, 7));
            let (q, k) = choose|q: int, k: int|
                0 <= q < s.currencies@.len() && 0 <= k < 7 && #[trigger] id_parts(
                    cd[i],
                    2,
                    s.currencies@[q].currency@,
                    currency_metrics()[k],
                );
            assert(id_parts(cd[i], 2, s.currencies@[q].currency@, currency_metrics()[k]));
        }
        let keys = distinct_keys(s.categories@ + p.categories@);
        assert forall|i: int| 0 <= i < kd.len() implies in_group(#[trigger] kd[i], 3) by {
            assert(id_parts(kd[i], 3, keys[i].0, keys[i].1.name()));
        }
        lemma_groups_apart(cd, 2, kd, 3);
        lemma_distinct_concat(cd, kd);
        assert(d == cd + kd);
        assert forall|i: int, j: int| 0 <= i < head.len() && 0 <= j < d.len() implies (#[trigger] head[i]).0 != (#[trigger] d[j]).0 by {
            let (kh, th, gh) = if i < cf.len() {
                assert(head[i] == cf[i]);
                assert(in_group(cf[i], 0));
                let (k, t) = choose|k: Seq<char>, t: Seq<char>| #[trigger] id_parts(cf[i], 0, k, t);
                (k, t, 0int)
            } else {
                assert(head[i] == tf[i - cf.len()]);
                assert(in_group(tf[i - cf.len()], 1));
                let (k, t) = choose|k: Seq<char>, t: Seq<char>| #[trigger] id_parts(tf[i - cf.len()], 1, k, t);
                (k, t, 1int)
            };
            let (kd2, td, gd) = if j < cd.len() {
                assert(d[j] == cd[j]);
                assert(in_group(cd[j], 2));
                let (k, t) = choose|k: Seq<char>, t: Seq<char>| #[trigger] id_parts(cd[j], 2, k, t);
                (k, t, 2int)
            } else {
                assert(d[j] == kd[j - cd.len()]);
                assert(in_group(kd[j - cd.len()], 3));
                let (k, t) = choose|k: Seq<char>, t: Seq<char>| #[trigger] id_parts(kd[j - cd.len()], 3, k, t);
                (k, t, 3int)
            };
            if head[i].0 == d[j].0 {
                lemma_id_parts_injective(head[i], gh, kh, th, d[j], gd, kd2, td);
            }
        }
        lemma_distinct_concat(head, d);
    } else {
        assert(head + d =~= head);
    }
}

/// A summary whose lists are strictly ordered, as every summary of a month is, lists
/// each currency once and each category total once per currency and category.
pub proof fn lemma_sorted_summary_keys_distinct(s: ExpenseMonthSummary)
    requires
        crate::month_summary::summary_lists_sorted(s),
    ensures
        summary_keys_distinct(s),
{
    let cs = s.currencies@;
    let ts = s.categories@;
    assert forall|i: int, j: int| 0 <= i < j < cs.len() implies (#[trigger] cs[i]).currency@ != (#[trigger] cs[j]).currency@ by {
        crate::tally::lemma_lex_irreflexive(crate::month_summary::text_key(cs[i].currency@));
    }
    assert forall|i: int, j: int| 0 <= i < j < ts.len() implies category_key(#[trigger] ts[i]) != category_key(#[trigger] ts[j]) by {
        crate::tally::lemma_lex_irreflexive(crate::month_summary::category_key(ts[i].category, ts[i].currency@));
    }
}

/// Ordering facts by ID keeps their IDs distinct.
proof fn lemma_sorted_ids_distinct(facts: Seq<FactView>)
    requires
        ids_distinct(facts),
    ensures
        ids_distinct(sorted_by_id(facts)),
    decreases facts.len(),
{
    broadcast use vstd::seq_lib::group_to_multiset_ensures;

    if facts.len() > 0 {
        let rest = facts.drop_last();
        let x = facts.last();
        assert(ids_distinct(rest)) by {
            assert forall|i: int, j: int| 0 <= i < j < rest.len() implies (#[trigger] rest[i]).0 != (#[trigger] rest[j]).0 by {
                assert(rest[i] == facts[i] && rest[j] == facts[j]);
            }
        }
        lemma_sorted_ids_distinct(rest);
        lemma_sorted_by_id_permutes(rest);
        let r = sorted_by_id(rest);
        lemma_id_place_bounds(r, x);
        let p = id_place(r, x);
        let out = r.insert(p, x);
        assert(sorted_by_id(facts) == out);
        assert forall|k: int| 0 <= k < r.len() implies (#[trigger] r[k]).0 != x.0 by {
            assert(r.contains(r[k]));
            assert(rest.to_multiset().count(r[k]) > 0);
            assert(rest.contains(r[k]));
            let m = choose|m: int| 0 <= m < rest.len() && rest[m] == r[k];
            assert(facts[m] == r[k]);
            assert(facts[facts.len() - 1] == x);
        }
        assert forall|i: int, j: int| 0 <= i < j < out.len() implies (#[trigger] out[i]).0 != (#[trigger] out[j]).0 by {
            if j < p {
                assert(out[i] == r[i] && out[j] == r[j]);
            } else if j == p {
                assert(out[i] == r[i] && out[j] == x);
            } else if i < p {
                assert(out[i] == r[i] && out[j] == r[j - 1]);
            } else if i == p {
                assert(out[i] == x && out[j] == r[j - 1]);
            } else {
                assert(out[i] == r[i - 1] && out[j] == r[j - 1]);
            }
        }
    }
}

/// Each fact's ID comes strictly before the next one's.
pub open spec fn ids_increasing(s: Seq<FactView>) -> bool {
    forall|i: int, j: int| 0 <= i < j < s.len() ==> id_before(#[trigger] s[i], #[trigger] s[j])
}

/// Facts ordered by ID with no ID twice are strictly increasing by ID.
proof fn lemma_ordered_distinct_increasing(s: Seq<FactView>)
    requires
        ids_ordered(s),
        ids_distinct(s),
    ensures
        ids_increasing(s),
{
    assert forall|i: int, j: int| 0 <= i < j < s.len() implies id_before(#[trigger] s[i], #[trigger] s[j]) by {
        let a = encode_utf8(s[i].0);
        let b = encode_utf8(s[j].0);
        lemma_bytes_total(a, b);
        if a == b {
            vstd::utf8::encode_utf8_decode_utf8(s[i].0);
            vstd::utf8::encode_utf8_decode_utf8(s[j].0);
        }
    }
}

/// A fact states a change since the month before: its ID begins with `delta:`.
pub open spec fn is_change_fact(f: FactView) -> bool {
    f.0.len() >= 6 && f.0.subrange(0, 6) == "delta:"@
}

/// Unless both months are confirmed, a report cites no change fact.
pub proof fn lemma_no_change_facts(s: ExpenseMonthSummary, p: ExpenseMonthSummary)
    requires
        !compares_months(s, p),
    ensures
        forall|i: int|
            0 <= i < sorted_by_id(month_facts(s, p)).len() ==> !is_change_fact(
                #[trigger] sorted_by_id(month_facts(s, p))[i],
            ),
{
    broadcast use vstd::seq_lib::group_to_multiset_ensures;

    let m = month_facts(s, p);
    let sorted = sorted_by_id(m);
    let cf = currency_facts(s.currencies@);
    let tf = category_facts(s.categories@);
    lemma_sorted_by_id_permutes(m);
    lemma_currency_fact_ids(s.currencies@);
    lemma_category_fact_ids(s.categories@);
    assert(m =~= cf + tf);
    reveal_strlit("delta:");
    reveal_strlit("currency:");
    reveal_strlit("category:");
    assert forall|i: int| 0 <= i < sorted.len() implies !is_change_fact(#[trigger] sorted[i]) by {
        let x = sorted[i];
        assert(sorted.contains(x));
        assert(m.to_multiset().count(x) > 0);
        assert(m.contains(x));
        let k = choose|k: int| 0 <= k < m.len() && m[k] == x;
        let (g, key, tail) = if k < cf.len() {
            assert(m[k] == cf[k]);
            assert(named_by(cf[k], 0, s.currencies@, 10));
            let (q, j) = choose|q: int, j: int|
                0 <= q < s.currencies@.len() && 0 <= j < 10 && #[trigger] id_parts(
                    cf[k],
                    0,
                    s.currencies@[q].currency@,
                    currency_metrics()[j],
                );
            (0int, s.currencies@[q].currency@, currency_metrics()[j])
        } else {
            assert(m[k] == tf[k - cf.len()]);
            let t = s.categories@[k - cf.len()];
            assert(id_parts(tf[k - cf.len()], 1, t.currency@, t.category.name()));
            (1int, t.currency@, t.category.name())
        };
        assert(id_parts(x, g, key, tail));
        let h = group_head(g);
        assert(x.0 == h + key + ":"@ + tail);
        assert(x.0[0] == h[0]);
        if is_change_fact(x) {
            assert(x.0.subrange(0, 6)[0] == x.0[0]);
        }
    }
}

/// A month's total for a currency and category: the amount of the listed total under
/// them, zero when none is listed.
pub open spec fn category_total(ts: Seq<ExpenseCategoryTotal>, currency: Seq<char>, category: ExpenseCategory) -> int {
    if exists|i: int| 0 <= i < ts.len() && (#[trigger] ts[i]).currency@ == currency && ts[i].category == category {
        let i = choose|i: int| 0 <= i < ts.len() && (#[trigger] ts[i]).currency@ == currency && ts[i].category == category;
        ts[i].amount_minor as int
    } else {
        0
    }
}

/// With each total listed once, the last total under a key is the month's total.
proof fn lemma_latest_is_total(ts: Seq<ExpenseCategoryTotal>, key: (Seq<char>, ExpenseCategory))
    requires
        totals_distinct(ts),
    ensures
        latest_amount(ts, key) == category_total(ts, key.0, key.1),
    decreases ts.len(),
{
    if ts.len() > 0 {
        let rest = ts.drop_last();
        let n = ts.len() - 1;
        assert(totals_distinct(rest)) by {
            assert forall|i: int, j: int| 0 <= i < j < rest.len() implies category_key(#[trigger] rest[i])
                != category_key(#[trigger] rest[j]) by {
                assert(rest[i] == ts[i] && rest[j] == ts[j]);
            }
        }
        lemma_latest_is_total(rest, key);
        if category_key(ts.last()) == key {
            assert(ts[n].currency@ == key.0 && ts[n].category == key.1);
            let i = choose|i: int| 0 <= i < ts.len() && (#[trigger] ts[i]).currency@ == key.0 && ts[i].category == key.1;
            if i != n {
                assert(category_key(ts[i]) == category_key(ts[n]));
            }
        } else {
            if exists|i: int| 0 <= i < ts.len() && (#[trigger] ts[i]).currency@ == key.0 && ts[i].category == key.1 {
                let i = choose|i: int| 0 <= i < ts.len() && (#[trigger] ts[i]).currency@ == key.0 && ts[i].category == key.1;
                assert(i != n);
                assert(rest[i] == ts[i]);
                assert(exists|j: int| 0 <= j < rest.len() && (#[trigger] rest[j]).currency@ == key.0 && rest[j].category == key.1);
                let j = choose|j: int| 0 <= j < rest.len() && (#[trigger] rest[j]).currency@ == key.0 && rest[j].category == key.1;
                assert(rest[j] == ts[j]);
                if i != j {
                    if i < j {
                        assert(category_key(ts[i]) != category_key(ts[j]));
                    } else {
                        assert(category_key(ts[j]) != category_key(ts[i]));
                    }
                }
            } else {
                assert forall|j: int| 0 <= j < rest.len() implies !((#[trigger] rest[j]).currency@ == key.0 && rest[j].category == key.1) by {
                    assert(rest[j] == ts[j]);
                }
            }
        }
    }
}

/// A report's change fact for a category states how that category's spending in a
/// currency moved since the month before: this month's total for them minus last
/// month's, a total missing from a month counting as zero. Such facts appear only when
/// both months are confirmed.
pub proof fn lemma_category_change_facts(
    s: ExpenseMonthSummary,
    p: ExpenseMonthSummary,
    f: FactView,
    currency: Seq<char>,
    category: ExpenseCategory,
)
    requires
        totals_distinct(s.categories@),
        totals_distinct(p.categories@),
        sorted_by_id(month_facts(s, p)).contains(f),
        f.0 == "delta:category:"@ + currency + ":"@ + category.name(),
    ensures
        compares_months(s, p),
        f.3 == category_total(s.categories@, currency, category) - category_total(p.categories@, currency, category),
{
    broadcast use vstd::seq_lib::group_to_multiset_ensures;

    let m = month_facts(s, p);
    lemma_sorted_by_id_permutes(m);
    assert(m.to_multiset().count(f) > 0);
    assert(m.contains(f));
    let k = choose|k: int| 0 <= k < m.len() && m[k] == f;
    lemma_category_names_colon_free();
    ExpenseCategory::lemma_names_distinct();
    assert(id_parts(f, 3, currency, category.name()));
    let cf = currency_facts(s.currencies@);
    let tf = category_facts(s.categories@);
    let d = delta_facts(s, p);
    lemma_currency_fact_ids(s.currencies@);
    lemma_category_fact_ids(s.categories@);
    assert(m == cf + tf + d);
    if k < cf.len() {
        assert(m[k] == cf[k]);
        assert(named_by(cf[k], 0, s.currencies@, 10));
        let (q, j) = choose|q: int, j: int|
            0 <= q < s.currencies@.len() && 0 <= j < 10 && #[trigger] id_parts(
                cf[k],
                0,
                s.currencies@[q].currency@,
                currency_metrics()[j],
            );
        lemma_id_parts_injective(f, 3, currency, category.name(), cf[k], 0, s.currencies@[q].currency@, currency_metrics()[j]);
    } else if k < cf.len() + tf.len() {
        let i = k - cf.len();
        assert(m[k] == tf[i]);
        let t = s.categories@[i];
        assert(id_parts(tf[i], 1, t.currency@, t.category.name()));
        lemma_id_parts_injective(f, 3, currency, category.name(), tf[i], 1, t.currency@, t.category.name());
    } else {
        let i = k - cf.len() - tf.len();
        assert(m[k] == d[i]);
        assert(compares_months(s, p));
        let cd = currency_deltas(s.currencies@, p.currencies@);
        let kd = category_deltas(s.categories@, p.categories@);
        assert(d == cd + kd);
        lemma_currency_delta_ids(s.currencies@, p.currencies@);
        lemma_category_delta_ids(s.categories@, p.categories@);
        if i < cd.len() {
            assert(d[i] == cd[i]);
            assert(named_by(cd[i], 2, s.currencies@, 7));
            let (q, j) = choose|q: int, j: int|
                0 <= q < s.currencies@.len() && 0 <= j < 7 && #[trigger] id_parts(
                    cd[i],
                    2,
                    s.currencies@[q].currency@,
                    currency_metrics()[j],
                );
            lemma_id_parts_injective(f, 3, currency, category.name(), cd[i], 2, s.currencies@[q].currency@, currency_metrics()[j]);
        } else {
            let j = i - cd.len();
            assert(d[i] == kd[j]);
            let keys = distinct_keys(s.categories@ + p.categories@);
            assert(id_parts(kd[j], 3, keys[j].0, keys[j].1.name()));
            lemma_id_parts_injective(f, 3, currency, category.name(), kd[j], 3, keys[j].0, keys[j].1.name());
            assert(keys[j] == (currency, category));
            assert(kd[j] == category_delta_fact(s.categories@, p.categories@, keys[j]));
            lemma_latest_is_total(s.categories@, keys[j]);
            lemma_latest_is_total(p.categories@, keys[j]);
        }
    }
}

/// The value a currency summary reports under a metric's name.
pub open spec fn metric_value(c: ExpenseCurrencySummary, metric: Seq<char>) -> int {
    if metric == "net_personal_spend"@ {
        c.net_personal_spend_minor as int
    } else if metric == "gross_purchase"@ {
        c.gross_purchase_minor as int
    } else if metric == "refunds"@ {
        c.refunds_minor as int
    } else if metric == "settlement_received"@ {
        c.settlement_received_minor as int
    } else if metric == "settlement_sent"@ {
        c.settlement_sent_minor as int
    } else if metric == "fees"@ {
        c.fees_minor as int
    } else if metric == "unconfirmed_outflow"@ {
        c.unconfirmed_outflow_minor as int
    } else if metric == "recurring_expected"@ {
        c.recurring_expected_minor as int
    } else if metric == "recurring_paid"@ {
        c.recurring_paid_minor as int
    } else if metric == "recurring_remaining"@ {
        c.recurring_remaining_minor as int
    } else {
        0
    }
}

/// The summary a month lists for a currency, if it lists one.
pub open spec fn currency_summary_in(cs: Seq<ExpenseCurrencySummary>, currency: Seq<char>) -> Option<
    ExpenseCurrencySummary,
> {
    if exists|i: int| 0 <= i < cs.len() && (#[trigger] cs[i]).currency@ == currency {
        Some(cs[choose|i: int| 0 <= i < cs.len() && (#[trigger] cs[i]).currency@ == currency])
    } else {
        None
    }
}

/// The `k`-th amount of a currency is its value under the `k`-th metric's name.
proof fn lemma_metric_value(c: ExpenseCurrencySummary, k: int)
    requires
        0 <= k < 10,
    ensures
        currency_amounts(c)[k] == metric_value(c, currency_metrics()[k]),
{
    lemma_metric_names();
    let m = currency_metrics();
    assert(m[0] == "net_personal_spend"@);
    assert(m[1] == "gross_purchase"@);
    assert(m[2] == "refunds"@);
    assert(m[3] == "settlement_received"@);
    assert(m[4] == "settlement_sent"@);
    assert(m[5] == "fees"@);
    assert(m[6] == "unconfirmed_outflow"@);
    assert(m[7] == "recurring_expected"@);
    assert(m[8] == "recurring_paid"@);
    assert(m[9] == "recurring_remaining"@);
    if k == 0 {
    } else if k == 1 {
    } else if k == 2 {
    } else if k == 3 {
    } else if k == 4 {
    } else if k == 5 {
    } else if k == 6 {
    } else if k == 7 {
    } else if k == 8 {
    } else {
    }
}

/// With each currency listed once, the summary listed at a position is the currency's.
proof fn lemma_summary_in_at(cs: Seq<ExpenseCurrencySummary>, q: int)
    requires
        currencies_distinct(cs),
        0 <= q < cs.len(),
    ensures
        currency_summary_in(cs, cs[q].currency@) == Some(cs[q]),
{
    let c = cs[q].currency@;
    assert(exists|i: int| 0 <= i < cs.len() && (#[trigger] cs[i]).currency@ == c);
    let i = choose|i: int| 0 <= i < cs.len() && (#[trigger] cs[i]).currency@ == c;
    if i != q {
        if i < q {
            assert(cs[i].currency@ != cs[q].currency@);
        } else {
            assert(cs[q].currency@ != cs[i].currency@);
        }
    }
}

/// With each currency listed once, the last summary in a currency is the currency's.
proof fn lemma_previous_is_summary(cs: Seq<ExpenseCurrencySummary>, c: Seq<char>)
    requires
        currencies_distinct(cs),
    ensures
        previous_of(cs, c) == currency_summary_in(cs, c),
    decreases cs.len(),
{
    if cs.len() > 0 {
        let rest = cs.drop_last();
        let n = cs.len() - 1;
        assert(currencies_distinct(rest)) by {
            assert forall|i: int, j: int| 0 <= i < j < rest.len() implies (#[trigger] rest[i]).currency@
                != (#[trigger] rest[j]).currency@ by {
                assert(rest[i] == cs[i] && rest[j] == cs[j]);
            }
        }
        lemma_previous_is_summary(rest, c);
        if cs.last().currency@ == c {
            lemma_summary_in_at(cs, n);
        } else if exists|i: int| 0 <= i < cs.len() && (#[trigger] cs[i]).currency@ == c {
            let i = choose|i: int| 0 <= i < cs.len() && (#[trigger] cs[i]).currency@ == c;
            assert(i != n);
            assert(rest[i] == cs[i]);
            lemma_summary_in_at(cs, i);
            lemma_summary_in_at(rest, i);
        } else {
            assert forall|j: int| 0 <= j < rest.len() implies (#[trigger] rest[j]).currency@ != c by {
                assert(rest[j] == cs[j]);
            }
        }
    } else {
        assert(!exists|i: int| 0 <= i < cs.len() && (#[trigger] cs[i]).currency@ == c);
    }
}

/// Fact `f` is one of a currency's ten facts.
pub open spec fn fact_of_currency(f: FactView, cs: Seq<ExpenseCurrencySummary>) -> bool {
    exists|q: int, j: int| 0 <= q < cs.len() && 0 <= j < 10 && f == #[trigger] currency_fact(cs[q], j)
}

/// Fact `f` is one of the seven change facts of a currency listed the month before too.
pub open spec fn delta_of_currency(f: FactView, cs: Seq<ExpenseCurrencySummary>, prev: Seq<ExpenseCurrencySummary>) -> bool {
    exists|q: int, j: int|
        0 <= q < cs.len() && 0 <= j < 7 && previous_of(prev, cs[q].currency@) is Some && f
            == #[trigger] currency_delta_fact(cs[q], previous_of(prev, cs[q].currency@)->0, j)
}

proof fn lemma_currency_fact_values(cs: Seq<ExpenseCurrencySummary>)
    ensures
        forall|i: int|
            0 <= i < currency_facts(cs).len() ==> fact_of_currency(#[trigger] currency_facts(cs)[i], cs),
    decreases cs.len(),
{
    if cs.len() > 0 {
        let rest = cs.drop_last();
        let c = cs.last();
        lemma_currency_fact_values(rest);
        let a = currency_facts(rest);
        let b = Seq::new(10, |k: int| currency_fact(c, k));
        assert(currency_facts(cs) == a + b);
        assert forall|i: int| 0 <= i < currency_facts(cs).len() implies fact_of_currency(
            #[trigger] currency_facts(cs)[i],
            cs,
        ) by {
            if i < a.len() {
                assert(fact_of_currency(a[i], rest));
                let (q, j) = choose|q: int, j: int|
                    0 <= q < rest.len() && 0 <= j < 10 && a[i] == #[trigger] currency_fact(rest[q], j);
                assert(rest[q] == cs[q]);
                assert(currency_facts(cs)[i] == currency_fact(cs[q], j));
            } else {
                let j = i - a.len();
                assert(currency_facts(cs)[i] == b[j]);
                assert(currency_facts(cs)[i] == currency_fact(cs[cs.len() - 1], j));
            }
        }
    }
}

proof fn lemma_currency_delta_values(cs: Seq<ExpenseCurrencySummary>, prev: Seq<ExpenseCurrencySummary>)
    ensures
        forall|i: int|
            0 <= i < currency_deltas(cs, prev).len() ==> delta_of_currency(
                #[trigger] currency_deltas(cs, prev)[i],
                cs,
                prev,
            ),
    decreases cs.len(),
{
    if cs.len() > 0 {
        let rest = cs.drop_last();
        let c = cs.last();
        let n = cs.len() - 1;
        lemma_currency_delta_values(rest, prev);
        let a = currency_deltas(rest, prev);
        assert forall|i: int| 0 <= i < a.len() implies delta_of_currency(#[trigger] a[i], cs, prev) by {
            assert(delta_of_currency(a[i], rest, prev));
            let (q, j) = choose|q: int, j: int|
                0 <= q < rest.len() && 0 <= j < 7 && previous_of(prev, rest[q].currency@) is Some && a[i]
                    == #[trigger] currency_delta_fact(rest[q], previous_of(prev, rest[q].currency@)->0, j);
            assert(rest[q] == cs[q]);
            assert(a[i] == currency_delta_fact(cs[q], previous_of(prev, cs[q].currency@)->0, j));
        }
        match previous_of(prev, c.currency@) {
            Some(pc) => {
                let b = Seq::new(7, |k: int| currency_delta_fact(c, pc, k));
                assert(currency_deltas(cs, prev) == a + b);
                assert forall|i: int| 0 <= i < currency_deltas(cs, prev).len() implies delta_of_currency(
                    #[trigger] currency_deltas(cs, prev)[i],
                    cs,
                    prev,
                ) by {
                    if i < a.len() {
                        assert(currency_deltas(cs, prev)[i] == a[i]);
                    } else {
                        let j = i - a.len();
                        assert(currency_deltas(cs, prev)[i] == b[j]);
                        assert(cs[n] == c);
                        assert(currency_deltas(cs, prev)[i] == currency_delta_fact(
                            cs[n],
                            previous_of(prev, cs[n].currency@)->0,
                            j,
                        ));
                    }
                }
            },
            None => {
                assert(currency_deltas(cs, prev) =~= a);
            },
        }
    }
}

/// A report's facts on a currency state its month summary: the fact on a metric is the
/// value the currency's summary reports under that metric's name, and the change fact on a
/// metric (present only when both months are confirmed and the currency is listed in
/// both) is this month's value minus last month's.
pub proof fn lemma_currency_facts_state_the_summary(
    s: ExpenseMonthSummary,
    p: ExpenseMonthSummary,
    f: FactView,
    currency: Seq<char>,
    metric: Seq<char>,
)
    requires
        currencies_distinct(s.currencies@),
        currencies_distinct(p.currencies@),
        sorted_by_id(month_facts(s, p)).contains(f),
        colon_free(metric),
    ensures
        f.0 == "currency:"@ + currency + ":"@ + metric ==> {
            &&& currency_summary_in(s.currencies@, currency) matches Some(c)
            &&& f.3 == metric_value(c, metric)
            &&& f.1 == metric
            &&& f.2 == currency
        },
        f.0 == "delta:currency:"@ + currency + ":"@ + metric ==> {
            &&& compares_months(s, p)
            &&& currency_summary_in(s.currencies@, currency) matches Some(c)
            &&& currency_summary_in(p.currencies@, currency) matches Some(pc)
            &&& f.3 == metric_value(c, metric) - metric_value(pc, metric)
            &&& f.2 == currency
        },
{
    broadcast use vstd::seq_lib::group_to_multiset_ensures;

    let m = month_facts(s, p);
    let cs = s.currencies@;
    lemma_sorted_by_id_permutes(m);
    assert(m.to_multiset().count(f) > 0);
    assert(m.contains(f));
    let k = choose|k: int| 0 <= k < m.len() && m[k] == f;
    lemma_category_names_colon_free();
    lemma_metric_names();
    let cf = currency_facts(cs);
    let tf = category_facts(s.categories@);
    let d = delta_facts(s, p);
    lemma_currency_fact_ids(cs);
    lemma_currency_fact_values(cs);
    lemma_category_fact_ids(s.categories@);
    assert(m == cf + tf + d);
    let is_fact = f.0 == "currency:"@ + currency + ":"@ + metric;
    let is_delta = f.0 == "delta:currency:"@ + currency + ":"@ + metric;
    if is_fact && is_delta {
        assert(id_parts(f, 0, currency, metric));
        assert(id_parts(f, 2, currency, metric));
        lemma_id_parts_injective(f, 0, currency, metric, f, 2, currency, metric);
    }
    if is_fact || is_delta {
        let g: int = if is_fact { 0 } else { 2 };
        assert(id_parts(f, g, currency, metric));
        if k < cf.len() {
            assert(m[k] == cf[k]);
            assert(fact_of_currency(cf[k], cs));
            let (q, j) = choose|q: int, j: int| 0 <= q < cs.len() && 0 <= j < 10 && cf[k] == #[trigger] currency_fact(cs[q], j);
            assert(id_parts(cf[k], 0, cs[q].currency@, currency_metrics()[j]));
            lemma_id_parts_injective(f, g, currency, metric, cf[k], 0, cs[q].currency@, currency_metrics()[j]);
            lemma_summary_in_at(cs, q);
            lemma_metric_value(cs[q], j);
        } else if k < cf.len() + tf.len() {
            let i = k - cf.len();
            assert(m[k] == tf[i]);
            let t = s.categories@[i];
            assert(id_parts(tf[i], 1, t.currency@, t.category.name()));
            lemma_id_parts_injective(f, g, currency, metric, tf[i], 1, t.currency@, t.category.name());
        } else {
            let i = k - cf.len() - tf.len();
            assert(m[k] == d[i]);
            assert(compares_months(s, p));
            let cd = currency_deltas(cs, p.currencies@);
            let kd = category_deltas(s.categories@, p.categories@);
            assert(d == cd + kd);
            lemma_currency_delta_values(cs, p.currencies@);
            lemma_category_delta_ids(s.categories@, p.categories@);
            if i < cd.len() {
                assert(d[i] == cd[i]);
                assert(delta_of_currency(cd[i], cs, p.currencies@));
                let (q, j) = choose|q: int, j: int|
                    0 <= q < cs.len() && 0 <= j < 7 && previous_of(p.currencies@, cs[q].currency@) is Some && cd[i]
                        == #[trigger] currency_delta_fact(cs[q], previous_of(p.currencies@, cs[q].currency@)->0, j);
                let pc = previous_of(p.currencies@, cs[q].currency@)->0;
                assert(id_parts(cd[i], 2, cs[q].currency@, currency_metrics()[j]));
                lemma_id_parts_injective(f, g, currency, metric, cd[i], 2, cs[q].currency@, currency_metrics()[j]);
                lemma_summary_in_at(cs, q);
                lemma_previous_is_summary(p.currencies@, currency);
                lemma_metric_value(cs[q], j);
                lemma_metric_value(pc, j);

            } else {
                let j = i - cd.len();
                assert(d[i] == kd[j]);
                let keys = distinct_keys(s.categories@ + p.categories@);
                assert(id_parts(kd[j], 3, keys[j].0, keys[j].1.name()));
                lemma_id_parts_injective(f, g, currency, metric, kd[j], 3, keys[j].0, keys[j].1.name());
            }
        }
    }
}

/// With each total listed once, the total listed at a position is its key's total.
proof fn lemma_total_at(ts: Seq<ExpenseCategoryTotal>, i: int)
    requires
        totals_distinct(ts),
        0 <= i < ts.len(),
    ensures
        category_total(ts, ts[i].currency@, ts[i].category) == ts[i].amount_minor as int,
{
    let (c, g) = (ts[i].currency@, ts[i].category);
    assert(exists|j: int| 0 <= j < ts.len() && (#[trigger] ts[j]).currency@ == c && ts[j].category == g);
    let j = choose|j: int| 0 <= j < ts.len() && (#[trigger] ts[j]).currency@ == c && ts[j].category == g;
    if i != j {
        if i < j {
            assert(category_key(ts[i]) != category_key(ts[j]));
        } else {
            assert(category_key(ts[j]) != category_key(ts[i]));
        }
    }
}

/// A report's fact on a category states the month's total for that category and
/// currency, which the month lists.
pub proof fn lemma_category_facts_state_totals(
    s: ExpenseMonthSummary,
    p: ExpenseMonthSummary,
    f: FactView,
    currency: Seq<char>,
    category: ExpenseCategory,
)
    requires
        totals_distinct(s.categories@),
        sorted_by_id(month_facts(s, p)).contains(f),
        f.0 == "category:"@ + currency + ":"@ + category.name(),
    ensures
        exists|i: int|
            0 <= i < s.categories@.len() && (#[trigger] s.categories@[i]).currency@ == currency
                && s.categories@[i].category == category,
        f.3 == category_total(s.categories@, currency, category),
        f.2 == currency,
{
    broadcast use vstd::seq_lib::group_to_multiset_ensures;

    let m = month_facts(s, p);
    lemma_sorted_by_id_permutes(m);
    assert(m.to_multiset().count(f) > 0);
    assert(m.contains(f));
    let k = choose|k: int| 0 <= k < m.len() && m[k] == f;
    lemma_category_names_colon_free();
    ExpenseCategory::lemma_names_distinct();
    assert(id_parts(f, 1, currency, category.name()));
    let cf = currency_facts(s.currencies@);
    let tf = category_facts(s.categories@);
    let d = delta_facts(s, p);
    lemma_currency_fact_ids(s.currencies@);
    lemma_category_fact_ids(s.categories@);
    assert(m == cf + tf + d);
    if k < cf.len() {
        assert(m[k] == cf[k]);
        assert(named_by(cf[k], 0, s.currencies@, 10));
        let (q, j) = choose|q: int, j: int|
            0 <= q < s.currencies@.len() && 0 <= j < 10 && #[trigger] id_parts(
                cf[k],
                0,
                s.currencies@[q].currency@,
                currency_metrics()[j],
            );
        lemma_id_parts_injective(f, 1, currency, category.name(), cf[k], 0, s.currencies@[q].currency@, currency_metrics()[j]);
    } else if k < cf.len() + tf.len() {
        let i = k - cf.len();
        assert(m[k] == tf[i]);
        let t = s.categories@[i];
        assert(tf[i] == category_fact(t));
        lemma_id_parts_injective(f, 1, currency, category.name(), tf[i], 1, t.currency@, t.category.name());
        lemma_total_at(s.categories@, i);
    } else {
        let i = k - cf.len() - tf.len();
        assert(m[k] == d[i]);
        let cd = currency_deltas(s.currencies@, p.currencies@);
        let kd = category_deltas(s.categories@, p.categories@);
        assert(d == cd + kd);
        lemma_currency_delta_ids(s.currencies@, p.currencies@);
        lemma_category_delta_ids(s.categories@, p.categories@);
        if i < cd.len() {
            assert(d[i] == cd[i]);
            assert(named_by(cd[i], 2, s.currencies@, 7));
            let (q, j) = choose|q: int, j: int|
                0 <= q < s.currencies@.len() && 0 <= j < 7 && #[trigger] id_parts(
                    cd[i],
                    2,
                    s.currencies@[q].currency@,
                    currency_metrics()[j],
                );
            lemma_id_parts_injective(f, 1, currency, category.name(), cd[i], 2, s.currencies@[q].currency@, currency_metrics()[j]);
        } else {
            let j = i - cd.len();
            assert(d[i] == kd[j]);
            let keys = distinct_keys(s.categories@ + p.categories@);
            assert(id_parts(kd[j], 3, keys[j].0, keys[j].1.name()));
            lemma_id_parts_injective(f, 1, currency, category.name(), kd[j], 3, keys[j].0, keys[j].1.name());
        }
    }
}

/// What an AI report on a month is asked about: the month, its report status, the facts
/// it may cite, and the digest of that material.
#[derive(Debug, Clone, PartialEq, Eq)]
pub struct ExpenseReportAggregate {
    pub month_start: CivilDate,
    pub aggregate_sha256: String,
    pub report_status: ExpenseReportStatus,
    pub facts: Vec<ExpenseReportFact>,
}

/// Assembles the report material of a month from its summary and the last month's: the
/// month asked for, this month's status, the facts ordered by ID, and the digest of the
/// material (taken by the caller over the serialized month, statuses, facts and
/// completeness).
pub fn build_report_aggregate(
    requested_month: CivilDate,
    summary: &ExpenseMonthSummary,
    previous: &ExpenseMonthSummary,
    aggregate_sha256: String,
) -> (r: Result<ExpenseReportAggregate, Error>)
    ensures
        r is Ok <==> deltas_reportable(*summary, *previous),
        r matches Ok(a) ==> {
            &&& a.month_start == requested_month
            &&& a.report_status == summary.status
            &&& a.aggregate_sha256 == aggregate_sha256
            &&& fact_views(a.facts@) == sorted_by_id(month_facts(*summary, *previous))
            &&& ids_ordered(fact_views(a.facts@))
            &&& summary_keys_distinct(*summary) ==> ids_increasing(fact_views(a.facts@))
            &&& crate::month_summary::summary_lists_sorted(*summary) ==> ids_increasing(fact_views(a.facts@))
            &&& a.facts@.len() == 10 * summary.currencies@.len() + summary.categories@.len() + delta_facts(
                *summary,
                *previous,
            ).len()
            &&& !compares_months(*summary, *previous) ==> forall|i: int|
                0 <= i < a.facts@.len() ==> !is_change_fact(#[trigger] fact_views(a.facts@)[i])
        },
        r matches Err(e) ==> e is Invariant,
{
    let facts = report_facts(summary, previous)?;
    proof {
        lemma_report_fact_counts(*summary, *previous);
        if !compares_months(*summary, *previous) {
            lemma_no_change_facts(*summary, *previous);
        }
        if crate::month_summary::summary_lists_sorted(*summary) {
            lemma_sorted_summary_keys_distinct(*summary);
        }
        if summary_keys_distinct(*summary) {
            lemma_fact_ids_distinct(*summary, *previous);
            lemma_sorted_ids_distinct(month_facts(*summary, *previous));
            lemma_ordered_distinct_increasing(fact_views(facts@));
        }
    }
    Ok(
        ExpenseReportAggregate {
            month_start: requested_month,
            aggregate_sha256,
            report_status: summary.status,
            facts,
        },
    )
}

} // verus!
