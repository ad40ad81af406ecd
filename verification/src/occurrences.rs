//! A recurring expense's occurrence in a month, as it is listed: the stored record when
//! the occurrence was paid or matched, else the one the schedule implies.
use vstd::prelude::*;

use crate::calendar::{date_before, date_lt, days_after, lemma_date_total, lemma_date_transitive, representable, CivilDate};
use crate::error::Error;
use crate::expense_types::{
    EncryptedExpenseText, ExpenseCategory, RecurringExpenseItem, RecurringOccurrenceStatus,
};
use crate::recurring::{
    occurrence_key_text, recurring_occurrence_key, scheduled_occurrence, scheduled_outcome,
    stored_occurrence_status,
};
use crate::migration::{bytes_less, bytes_lt, lemma_bytes_total, lemma_bytes_transitive};
use vstd::utf8::encode_utf8;

verus! {

/// One occurrence of a recurring expense.
#[derive(Debug, Clone, PartialEq, Eq)]
pub struct RecurringExpenseOccurrence {
    pub occurrence_key: String,
    pub recurring_expense_id: String,
    pub item_version: u64,
    pub name: EncryptedExpenseText,
    pub category: ExpenseCategory,
    pub vendor: Option<EncryptedExpenseText>,
    pub due_date: CivilDate,
    pub expected_amount_minor: i64,
    pub actual_amount_minor: Option<i64>,
    pub currency: String,
    pub status: RecurringOccurrenceStatus,
    pub reminder_days: u8,
    pub amount_changed: bool,
    pub actual_event_id: Option<String>,
    pub version: u64,
}

/// An occurrence as stored once it was paid or matched.
#[derive(Debug, Clone, PartialEq, Eq)]
pub struct StoredOccurrence {
    pub item_version: u64,
    pub due_date: CivilDate,
    pub expected_amount_minor: i64,
    pub currency: String,
    pub status: String,
    pub actual_amount_minor: i64,
    pub actual_event_id: Option<String>,
    pub manual_event_id: Option<String>,
    pub amount_changed: bool,
    pub version: u64,
}

/// An exact copy of an encrypted text.
pub fn copy_encrypted(t: &EncryptedExpenseText) -> (r: EncryptedExpenseText)
    ensures
        r == *t,
{
    EncryptedExpenseText {
        key_version: t.key_version,
        nonce: t.nonce.clone(),
        ciphertext: t.ciphertext.clone(),
        aad: t.aad.clone(),
        blind_index: t.blind_index.clone(),
    }
}

fn copy_optional_encrypted(t: &Option<EncryptedExpenseText>) -> (r: Option<EncryptedExpenseText>)
    ensures
        r == *t,
{
    match t {
        Some(x) => Some(copy_encrypted(x)),
        None => None,
    }
}

fn copy_optional(s: &Option<String>) -> (r: Option<String>)
    ensures
        r == *s,
{
    match s {
        Some(t) => Some(t.clone()),
        None => None,
    }
}

/// The event an occurrence is tied to: the matched event, else the manual payment.
pub open spec fn tied_event(stored: StoredOccurrence) -> Option<String> {
    match stored.actual_event_id {
        Some(e) => Some(e),
        None => stored.manual_event_id,
    }
}

/// Whether `o` is the stored occurrence under `key`: the stored amounts, dates and
/// version, with the name, category, vendor and reminder of the item version it was
/// recorded against.
pub open spec fn is_stored_occurrence(
    o: RecurringExpenseOccurrence,
    key: Seq<char>,
    item_id: Seq<char>,
    stored: StoredOccurrence,
    versioned: RecurringExpenseItem,
    status: RecurringOccurrenceStatus,
) -> bool {
    &&& o.occurrence_key@ == key
    &&& o.recurring_expense_id@ == item_id
    &&& o.item_version == stored.item_version
    &&& o.name == versioned.name
    &&& o.category == versioned.category
    &&& o.vendor == versioned.vendor
    &&& o.due_date == stored.due_date
    &&& o.expected_amount_minor == stored.expected_amount_minor
    &&& o.actual_amount_minor == Some(stored.actual_amount_minor)
    &&& o.currency == stored.currency
    &&& o.status == status
    &&& o.reminder_days == versioned.reminder_days
    &&& o.amount_changed == stored.amount_changed
    &&& o.actual_event_id == tied_event(stored)
    &&& o.version == stored.version
}

/// The listed form of a stored occurrence; its status text must be `paid` or `matched`.
pub fn occurrence_from_stored(
    occurrence_key: String,
    recurring_expense_id: &str,
    stored: &StoredOccurrence,
    versioned: &RecurringExpenseItem,
) -> (r: Result<RecurringExpenseOccurrence, Error>)
    ensures
        r is Ok <==> (stored.status@ == "paid"@ || stored.status@ == "matched"@),
        r matches Ok(o) ==> is_stored_occurrence(
            o,
            occurrence_key@,
            recurring_expense_id@,
            *stored,
            *versioned,
            if stored.status@ == "paid"@ {
                RecurringOccurrenceStatus::Paid
            } else {
                RecurringOccurrenceStatus::Matched
            },
        ),
        r matches Err(e) ==> e is Invariant,
{
    let status = stored_occurrence_status(stored.status.as_str())?;
    let actual_event_id = match &stored.actual_event_id {
        Some(e) => Some(e.clone()),
        None => copy_optional(&stored.manual_event_id),
    };
    Ok(RecurringExpenseOccurrence {
        occurrence_key,
        recurring_expense_id: recurring_expense_id.to_owned(),
        item_version: stored.item_version,
        name: copy_encrypted(&versioned.name),
        category: versioned.category,
        vendor: copy_optional_encrypted(&versioned.vendor),
        due_date: stored.due_date,
        expected_amount_minor: stored.expected_amount_minor,
        actual_amount_minor: Some(stored.actual_amount_minor),
        currency: stored.currency.clone(),
        status,
        reminder_days: versioned.reminder_days,
        amount_changed: stored.amount_changed,
        actual_event_id,
        version: stored.version,
    })
}

/// Whether `o` is the occurrence the schedule implies for `item` in `month`: due on
/// `due` with `status`, at the expected amount, not yet paid, at version 1.
pub open spec fn is_scheduled_occurrence(
    o: RecurringExpenseOccurrence,
    item: RecurringExpenseItem,
    month: CivilDate,
    due: CivilDate,
    status: RecurringOccurrenceStatus,
) -> bool {
    &&& o.occurrence_key@ == occurrence_key_text(item.id@, month)
    &&& o.recurring_expense_id == item.id
    &&& o.item_version == item.version
    &&& o.name == item.name
    &&& o.category == item.category
    &&& o.vendor == item.vendor
    &&& o.due_date == due
    &&& o.expected_amount_minor == item.amount_minor
    &&& o.actual_amount_minor is None
    &&& o.currency == item.currency
    &&& o.status == status
    &&& o.reminder_days == item.reminder_days
    &&& !o.amount_changed
    &&& o.actual_event_id is None
    &&& o.version == 1
}

/// The occurrence the schedule implies for an item in a month, if it has one, with its
/// status on `today`.
pub fn scheduled_occurrence_for_month(item: &RecurringExpenseItem, requested_month: CivilDate, today: CivilDate) -> (r:
    Result<Option<RecurringExpenseOccurrence>, Error>)
    requires
        representable(item.start_date),
        representable(requested_month),
        item.interval_months > 0,
        representable(today),
        forall|k: nat| k <= item.reminder_days ==> representable(#[trigger] days_after(today, k)),
    ensures
        match scheduled_outcome(*item, requested_month, today) {
            Ok(None) => r matches Ok(None),
            Ok(Some((due, status))) => r matches Ok(Some(o)) && is_scheduled_occurrence(
                o,
                *item,
                requested_month,
                due,
                status,
            ),
            Err(k) => r matches Err(e) && e.kind() == k,
        },
{
    let occurrence_key = recurring_occurrence_key(item.id.as_str(), requested_month);
    match scheduled_occurrence(item, requested_month, today)? {
        None => Ok(None),
        Some((due_date, status)) => Ok(
            Some(
                RecurringExpenseOccurrence {
                    occurrence_key,
                    recurring_expense_id: item.id.clone(),
                    item_version: item.version,
                    name: copy_encrypted(&item.name),
                    category: item.category,
                    vendor: copy_optional_encrypted(&item.vendor),
                    due_date,
                    expected_amount_minor: item.amount_minor,
                    actual_amount_minor: None,
                    currency: item.currency.clone(),
                    status,
                    reminder_days: item.reminder_days,
                    amount_changed: false,
                    actual_event_id: None,
                    version: 1,
                },
            ),
        ),
    }
}

// ---------------------------------------------------------------------------------------
// Listing order
// ---------------------------------------------------------------------------------------

/// Occurrence `a` is listed strictly before `b`: an earlier due date, or the same due
/// date and an occurrence key first in byte order.
pub open spec fn listed_before(a: RecurringExpenseOccurrence, b: RecurringExpenseOccurrence) -> bool {
    date_before(a.due_date, b.due_date) || (a.due_date == b.due_date && bytes_lt(
        encode_utf8(a.occurrence_key@),
        encode_utf8(b.occurrence_key@),
    ))
}

/// The listing order is a strict order in which occurrences with the same due date and
/// key are tied.
pub proof fn lemma_listed_order(a: RecurringExpenseOccurrence, b: RecurringExpenseOccurrence, c: RecurringExpenseOccurrence)
    ensures
        !(listed_before(a, b) && listed_before(b, a)),
        listed_before(a, b) || listed_before(b, a) || (a.due_date == b.due_date && encode_utf8(
            a.occurrence_key@,
        ) == encode_utf8(b.occurrence_key@)),
        listed_before(a, b) && listed_before(b, c) ==> listed_before(a, c),
{
    let (ka, kb, kc) = (encode_utf8(a.occurrence_key@), encode_utf8(b.occurrence_key@), encode_utf8(c.occurrence_key@));
    lemma_date_total(a.due_date, b.due_date);
    lemma_date_total(b.due_date, c.due_date);
    lemma_date_total(a.due_date, c.due_date);
    lemma_date_transitive(a.due_date, b.due_date, c.due_date);
    lemma_bytes_total(ka, kb);
    if bytes_lt(ka, kb) && bytes_lt(kb, kc) {
        lemma_bytes_transitive(ka, kb, kc);
    }
}

/// The number of occurrences of `s` not listed after `x`.
pub open spec fn listed_place(s: Seq<RecurringExpenseOccurrence>, x: RecurringExpenseOccurrence) -> int
    decreases s.len(),
{
    if s.len() == 0 {
        0
    } else {
        listed_place(s.drop_last(), x) + if !listed_before(x, s.last()) {
            1int
        } else {
            0
        }
    }
}

/// Occurrences in listing order, tied ones in the order they came: a stable sort.
pub open spec fn listed(s: Seq<RecurringExpenseOccurrence>) -> Seq<RecurringExpenseOccurrence>
    decreases s.len(),
{
    if s.len() == 0 {
        Seq::empty()
    } else {
        let r = listed(s.drop_last());
        r.insert(listed_place(r, s.last()), s.last())
    }
}

/// No occurrence is listed before one that precedes it.
pub open spec fn listing_ordered(s: Seq<RecurringExpenseOccurrence>) -> bool {
    forall|i: int, j: int| 0 <= i < j < s.len() ==> !listed_before(#[trigger] s[j], #[trigger] s[i])
}

proof fn lemma_listed_place_splits(s: Seq<RecurringExpenseOccurrence>, x: RecurringExpenseOccurrence)
    requires
        listing_ordered(s),
    ensures
        0 <= listed_place(s, x) <= s.len(),
        forall|j: int| 0 <= j < listed_place(s, x) ==> !listed_before(x, #[trigger] s[j]),
        forall|j: int| listed_place(s, x) <= j < s.len() ==> listed_before(x, #[trigger] s[j]),
    decreases s.len(),
{
    if s.len() > 0 {
        let u = s.drop_last();
        assert forall|i: int, j: int| 0 <= i < j < u.len() implies !listed_before(#[trigger] u[j], #[trigger] u[i]) by {
            assert(u[i] == s[i] && u[j] == s[j]);
        }
        lemma_listed_place_splits(u, x);
        let last = s.last();
        if !listed_before(x, last) {
            assert forall|j: int| 0 <= j < s.len() implies !listed_before(x, #[trigger] s[j]) by {
                if j < s.len() - 1 {
                    assert(!listed_before(s[s.len() - 1], s[j]));
                    lemma_listed_order(x, last, s[j]);
                    lemma_listed_order(last, x, s[j]);
                    lemma_listed_order(last, s[j], x);
                    if listed_before(x, s[j]) {
                        if !listed_before(last, x) {
                            assert(last.due_date == x.due_date);
                            assert(listed_before(last, s[j]));
                        }
                    }
                }
            }
        } else {
            assert forall|j: int| listed_place(s, x) <= j < s.len() implies listed_before(x, #[trigger] s[j]) by {
                if j < s.len() - 1 {
                    assert(u[j] == s[j]);
                }
            }
            assert forall|j: int| 0 <= j < listed_place(s, x) implies !listed_before(x, #[trigger] s[j]) by {
                assert(u[j] == s[j]);
            }
        }
    }
}

proof fn lemma_listed_insert_ordered(s: Seq<RecurringExpenseOccurrence>, x: RecurringExpenseOccurrence)
    requires
        listing_ordered(s),
    ensures
        listing_ordered(s.insert(listed_place(s, x), x)),
{
    lemma_listed_place_splits(s, x);
    let p = listed_place(s, x);
    let n = s.insert(p, x);
    assert forall|a: int, b: int| 0 <= a < b < n.len() implies !listed_before(#[trigger] n[b], #[trigger] n[a]) by {
        if a < p && b < p {
            assert(n[a] == s[a] && n[b] == s[b]);
        } else if a < p && b == p {
            assert(n[a] == s[a]);
        } else if a < p && b > p {
            assert(n[a] == s[a] && n[b] == s[b - 1]);
        } else if a == p {
            assert(n[b] == s[b - 1]);
            lemma_listed_order(x, s[b - 1], x);
        } else {
            assert(n[a] == s[a - 1] && n[b] == s[b - 1]);
        }
    }
}

/// The listing order holds of the sorted occurrences.
pub proof fn lemma_listed_ordered(s: Seq<RecurringExpenseOccurrence>)
    ensures
        listing_ordered(listed(s)),
    decreases s.len(),
{
    if s.len() > 0 {
        lemma_listed_ordered(s.drop_last());
        lemma_listed_insert_ordered(listed(s.drop_last()), s.last());
    }
}

/// Sorting keeps every occurrence, each as often as it came.
pub proof fn lemma_listed_permutes(s: Seq<RecurringExpenseOccurrence>)
    ensures
        listed(s).len() == s.len(),
        listed(s).to_multiset() == s.to_multiset(),
    decreases s.len(),
{
    broadcast use vstd::seq_lib::group_to_multiset_ensures;

    if s.len() > 0 {
        let rest = s.drop_last();
        lemma_listed_permutes(rest);
        lemma_listed_ordered(rest);
        let r = listed(rest);
        let x = s.last();
        lemma_listed_place_splits(r, x);
        let p = listed_place(r, x);
        let left = r.subrange(0, p);
        let right = r.subrange(p, r.len() as int);
        assert(r =~= left + right);
        assert(r.insert(p, x) =~= left.push(x) + right);
        vstd::seq_lib::lemma_multiset_commutative(left, right);
        vstd::seq_lib::lemma_multiset_commutative(left.push(x), right);
        assert(s =~= rest.push(x));
    }
}

/// Whether `a` is listed strictly before `b`.
pub fn listed_precedes(a: &RecurringExpenseOccurrence, b: &RecurringExpenseOccurrence) -> (r: bool)
    ensures
        r == listed_before(*a, *b),
{
    date_lt(a.due_date, b.due_date) || (a.due_date == b.due_date && bytes_less(
        a.occurrence_key.as_str().as_bytes(),
        b.occurrence_key.as_str().as_bytes(),
    ))
}

fn insert_listed(sorted: &mut Vec<RecurringExpenseOccurrence>, x: RecurringExpenseOccurrence)
    requires
        listing_ordered(old(sorted)@),
    ensures
        listing_ordered(final(sorted)@),
        final(sorted)@ == old(sorted)@.insert(listed_place(old(sorted)@, x), x),
{
    let ghost s = sorted@;
    let mut p: usize = 0;
    while p < sorted.len() && !listed_precedes(&x, &sorted[p])
        invariant
            0 <= p <= sorted@.len(),
            s == sorted@,
            listing_ordered(s),
            forall|j: int| 0 <= j < p ==> !listed_before(x, #[trigger] s[j]),
        decreases sorted@.len() - p,
    {
        p = p + 1;
    }
    proof {
        lemma_listed_place_splits(s, x);
        let k = listed_place(s, x);
        if k < p {
            assert(!listed_before(x, s[k]));
        }
        if p < k {
            assert(!listed_before(x, s[p as int]));
        }
        lemma_listed_insert_ordered(s, x);
    }
    sorted.insert(p, x);
    assert(sorted@ =~= s.insert(p as int, x));
}

/// Lists occurrences by due date, then occurrence key; tied ones keep their order.
pub fn order_occurrences(occurrences: Vec<RecurringExpenseOccurrence>) -> (r: Vec<RecurringExpenseOccurrence>)
    ensures
        r@ == listed(occurrences@),
        listing_ordered(r@),
{
    let ghost all = occurrences@;
    let mut rest = occurrences;
    let mut reversed: Vec<RecurringExpenseOccurrence> = Vec::new();
    while rest.len() > 0
        invariant
            rest@ + reversed@.reverse() == all,
        decreases rest@.len(),
    {
        let ghost before = rest@;
        let ghost rev_before = reversed@;
        let x = rest.pop().unwrap();
        reversed.push(x);
        assert(reversed@.reverse() =~= seq![x] + rev_before.reverse());
        assert(rest@ + reversed@.reverse() =~= before + rev_before.reverse());
    }
    assert(reversed@.reverse() =~= all);
    let n = reversed.len();
    let mut sorted: Vec<RecurringExpenseOccurrence> = Vec::new();
    assert(all.subrange(0, 0) =~= Seq::<RecurringExpenseOccurrence>::empty());
    while reversed.len() > 0
        invariant
            n == all.len(),
            reversed@.len() <= n,
            reversed@.reverse() == all.subrange(n - reversed@.len(), n as int),
            sorted@ == listed(all.subrange(0, n - reversed@.len())),
            listing_ordered(sorted@),
        decreases reversed@.len(),
    {
        let ghost k = n - reversed@.len();
        let ghost rev_before = reversed@;
        assert(rev_before.reverse()[0] == all[k]);
        let x = reversed.pop().unwrap();
        assert forall|i: int| 0 <= i < reversed@.len() implies #[trigger] reversed@.reverse()[i]
            == all.subrange(k + 1, n as int)[i] by {
            assert(rev_before.reverse()[i + 1] == all.subrange(k, n as int)[i + 1]);
        }
        assert(reversed@.reverse() =~= all.subrange(k + 1, n as int));
        assert(all.subrange(0, k + 1).drop_last() =~= all.subrange(0, k));
        insert_listed(&mut sorted, x);
    }
    assert(all.subrange(0, n as int) =~= all);
    sorted
}

} // verus!
