//! What an import's content digest is taken over: the import seen as its preview, with
//! the rows in stable-key order. The digest of the preview is the same whether it was
//! sent as a preview or derived from the import itself.
use vstd::prelude::*;
use vstd::utf8::encode_utf8;

use crate::expense_types::{
    EncryptedExpenseText, ExpenseImportPreviewInput, ExpenseImportPreviewRow, NormalizedExpenseImport,
    NormalizedExpenseRow,
};
use crate::migration::{bytes_less, bytes_lt, lemma_bytes_total, lemma_bytes_transitive};

verus! {

// ---------------------------------------------------------------------------------------
// The import as a preview
// ---------------------------------------------------------------------------------------

/// The blind index of an encrypted merchant, if there is one.
pub open spec fn blind_index_of(merchant: Option<EncryptedExpenseText>) -> Option<String> {
    match merchant {
        Some(m) => Some(m.blind_index),
        None => None,
    }
}

/// A normalized row as the preview shows it: its fields, with the merchant reduced to
/// its blind index.
pub open spec fn preview_row(row: NormalizedExpenseRow) -> ExpenseImportPreviewRow {
    ExpenseImportPreviewRow {
        stable_key: row.stable_key,
        row_sha256: row.row_sha256,
        source_row_number: row.source_row_number,
        occurred_at: row.occurred_at,
        posted_date: row.posted_date,
        direction: row.direction,
        amount_minor: row.amount_minor,
        currency: row.currency,
        kind: row.kind,
        category_hint: row.category_hint,
        merchant_blind_index: blind_index_of(row.merchant),
        payment_method_fingerprint: row.payment_method_fingerprint,
        external_reference_fingerprint: row.external_reference_fingerprint,
    }
}

/// The preview rows of normalized rows, in the same order.
pub open spec fn preview_rows(rows: Seq<NormalizedExpenseRow>) -> Seq<ExpenseImportPreviewRow> {
    rows.map_values(|r: NormalizedExpenseRow| preview_row(r))
}

fn clone_optional(s: &Option<String>) -> (r: Option<String>)
    ensures
        r == *s,
{
    match s {
        Some(t) => Some(t.clone()),
        None => None,
    }
}

/// The preview row of one normalized row.
pub fn preview_row_of(row: &NormalizedExpenseRow) -> (r: ExpenseImportPreviewRow)
    ensures
        r == preview_row(*row),
{
    let merchant_blind_index = match &row.merchant {
        Some(m) => Some(m.blind_index.clone()),
        None => None,
    };
    ExpenseImportPreviewRow {
        stable_key: row.stable_key.clone(),
        row_sha256: row.row_sha256.clone(),
        source_row_number: row.source_row_number,
        occurred_at: row.occurred_at.clone(),
        posted_date: row.posted_date,
        direction: row.direction,
        amount_minor: row.amount_minor,
        currency: row.currency.clone(),
        kind: row.kind,
        category_hint: row.category_hint,
        merchant_blind_index,
        payment_method_fingerprint: clone_optional(&row.payment_method_fingerprint),
        external_reference_fingerprint: clone_optional(&row.external_reference_fingerprint),
    }
}

/// The preview an import would have been sent as.
pub fn preview_of_import(input: &NormalizedExpenseImport) -> (r: ExpenseImportPreviewInput)
    ensures
        r.adapter == input.adapter,
        r.source_kind == input.source_kind,
        r.source_fingerprint == input.source_fingerprint,
        r.file_sha256 == input.file_sha256,
        r.normalized_sha256 == input.normalized_sha256,
        r.coverage_start == input.coverage_start,
        r.coverage_end == input.coverage_end,
        r.rejected_count == input.rejected_count,
        r.rows@ == preview_rows(input.rows@),
{
    let mut rows: Vec<ExpenseImportPreviewRow> = Vec::new();
    let mut i: usize = 0;
    while i < input.rows.len()
        invariant
            0 <= i <= input.rows@.len(),
            rows@ == preview_rows(input.rows@.subrange(0, i as int)),
        decreases input.rows@.len() - i,
    {
        rows.push(preview_row_of(&input.rows[i]));
        i = i + 1;
        assert(rows@ =~= preview_rows(input.rows@.subrange(0, i as int)));
    }
    assert(input.rows@.subrange(0, input.rows@.len() as int) =~= input.rows@);
    ExpenseImportPreviewInput {
        adapter: input.adapter,
        source_kind: input.source_kind,
        source_fingerprint: input.source_fingerprint.clone(),
        file_sha256: input.file_sha256.clone(),
        normalized_sha256: input.normalized_sha256.clone(),
        coverage_start: input.coverage_start,
        coverage_end: input.coverage_end,
        rejected_count: input.rejected_count,
        rows,
    }
}

// ---------------------------------------------------------------------------------------
// Rows in stable-key order
// ---------------------------------------------------------------------------------------

/// The bytes a row is ordered by: its stable key.
pub open spec fn row_key(r: ExpenseImportPreviewRow) -> Seq<u8> {
    encode_utf8(r.stable_key@)
}

/// Row `a`'s stable key comes strictly before row `b`'s.
pub open spec fn key_before(a: ExpenseImportPreviewRow, b: ExpenseImportPreviewRow) -> bool {
    bytes_lt(row_key(a), row_key(b))
}

/// The number of rows of `s` whose key does not come after `x`'s.
pub open spec fn key_place(s: Seq<ExpenseImportPreviewRow>, x: ExpenseImportPreviewRow) -> int
    decreases s.len(),
{
    if s.len() == 0 {
        0
    } else {
        key_place(s.drop_last(), x) + if !key_before(x, s.last()) {
            1int
        } else {
            0
        }
    }
}

/// Rows sorted by stable key, rows with equal keys in the order they came: a stable
/// sort.
pub open spec fn sorted_by_key(rows: Seq<ExpenseImportPreviewRow>) -> Seq<ExpenseImportPreviewRow>
    decreases rows.len(),
{
    if rows.len() == 0 {
        Seq::empty()
    } else {
        let r = sorted_by_key(rows.drop_last());
        r.insert(key_place(r, rows.last()), rows.last())
    }
}

/// Stable keys never decrease along the rows.
pub open spec fn keys_ordered(s: Seq<ExpenseImportPreviewRow>) -> bool {
    forall|i: int, j: int| 0 <= i < j < s.len() ==> !key_before(#[trigger] s[j], #[trigger] s[i])
}

proof fn lemma_key_place_bounds(s: Seq<ExpenseImportPreviewRow>, x: ExpenseImportPreviewRow)
    ensures
        0 <= key_place(s, x) <= s.len(),
    decreases s.len(),
{
    if s.len() > 0 {
        lemma_key_place_bounds(s.drop_last(), x);
    }
}

/// Ordering the rows keeps every row, each as often as it came.
pub proof fn lemma_sorted_by_key_permutes(rows: Seq<ExpenseImportPreviewRow>)
    ensures
        sorted_by_key(rows).len() == rows.len(),
        sorted_by_key(rows).to_multiset() == rows.to_multiset(),
    decreases rows.len(),
{
    broadcast use vstd::seq_lib::group_to_multiset_ensures;

    if rows.len() > 0 {
        let rest = rows.drop_last();
        lemma_sorted_by_key_permutes(rest);
        let r = sorted_by_key(rest);
        let x = rows.last();
        let p = key_place(r, x);
        lemma_key_place_bounds(r, x);
        let left = r.subrange(0, p);
        let right = r.subrange(p, r.len() as int);
        assert(r =~= left + right);
        assert(r.insert(p, x) =~= left.push(x) + right);
        vstd::seq_lib::lemma_multiset_commutative(left, right);
        vstd::seq_lib::lemma_multiset_commutative(left.push(x), right);
        assert(rows =~= rest.push(x));
    }
}

/// Places a row after every row whose key does not come after its own.
fn insert_by_key(sorted: &mut Vec<ExpenseImportPreviewRow>, x: ExpenseImportPreviewRow)
    requires
        keys_ordered(old(sorted)@),
    ensures
        keys_ordered(final(sorted)@),
        final(sorted)@ == old(sorted)@.insert(key_place(old(sorted)@, x), x),
{
    let ghost s = sorted@;
    let mut p: usize = 0;
    while p < sorted.len() && !bytes_less(x.stable_key.as_str().as_bytes(), sorted[p].stable_key.as_str().as_bytes())
        invariant
            0 <= p <= sorted@.len(),
            s == sorted@,
            keys_ordered(s),
            forall|j: int| 0 <= j < p ==> !key_before(x, #[trigger] s[j]),
        decreases sorted@.len() - p,
    {
        p = p + 1;
    }
    proof {
        lemma_key_place_splits(s, x);
        let k = key_place(s, x);
        if k < p {
            assert(!key_before(x, s[k]));
        }
        if p < k {
            assert(!key_before(x, s[p as int]));
        }
        lemma_insert_keeps_order(s, x);
    }
    sorted.insert(p, x);
    assert(sorted@ =~= s.insert(p as int, x));
}

/// The rows in the order the digest takes them: by stable key, rows with equal keys in
/// the order they came.
pub fn canonical_preview_rows(rows: Vec<ExpenseImportPreviewRow>) -> (r: Vec<ExpenseImportPreviewRow>)
    ensures
        r@ == sorted_by_key(rows@),
        keys_ordered(r@),
{
    let ghost all = rows@;
    let mut rest = rows;
    let mut reversed: Vec<ExpenseImportPreviewRow> = Vec::new();
    while rest.len() > 0
        invariant
            rest@ + reversed@.reverse() == all,
        decreases rest@.len(),
    {
        let ghost before = rest@;
        let ghost rev_before = reversed@;
        let x = rest.pop().unwrap();
        reversed.push(x);
        assert(reversed@.reverse() =~= seq![x] + rev_before.reverse());
        assert(rest@ + reversed@.reverse() =~= before + rev_before.reverse());
    }
    assert(reversed@.reverse() =~= all);
    let n = reversed.len();
    let mut sorted: Vec<ExpenseImportPreviewRow> = Vec::new();
    assert(all.subrange(0, 0) =~= Seq::<ExpenseImportPreviewRow>::empty());
    while reversed.len() > 0
        invariant
            n == all.len(),
            reversed@.len() <= n,
            reversed@.reverse() == all.subrange(n - reversed@.len(), n as int),
            sorted@ == sorted_by_key(all.subrange(0, n - reversed@.len())),
            keys_ordered(sorted@),
        decreases reversed@.len(),
    {
        let ghost k = n - reversed@.len();
        let ghost rev_before = reversed@;
        assert(rev_before.reverse()[0] == all[k]);
        let x = reversed.pop().unwrap();
        assert forall|i: int| 0 <= i < reversed@.len() implies #[trigger] reversed@.reverse()[i]
            == all.subrange(k + 1, n as int)[i] by {
            assert(rev_before.reverse()[i + 1] == all.subrange(k, n as int)[i + 1]);
        }
        assert(reversed@.reverse() =~= all.subrange(k + 1, n as int));
        assert(all.subrange(0, k + 1).drop_last() =~= all.subrange(0, k));
        insert_by_key(&mut sorted, x);
    }
    assert(all.subrange(0, n as int) =~= all);
    sorted
}

/// The preview a digest is taken of: the import's preview, its rows in stable-key
/// order.
pub fn canonical_preview(input: ExpenseImportPreviewInput) -> (r: ExpenseImportPreviewInput)
    ensures
        r.adapter == input.adapter,
        r.source_kind == input.source_kind,
        r.source_fingerprint == input.source_fingerprint,
        r.file_sha256 == input.file_sha256,
        r.normalized_sha256 == input.normalized_sha256,
        r.coverage_start == input.coverage_start,
        r.coverage_end == input.coverage_end,
        r.rejected_count == input.rejected_count,
        r.rows@ == sorted_by_key(input.rows@),
        keys_ordered(r.rows@),
{
    let ExpenseImportPreviewInput {
        adapter,
        source_kind,
        source_fingerprint,
        file_sha256,
        normalized_sha256,
        coverage_start,
        coverage_end,
        rejected_count,
        rows,
    } = input;
    ExpenseImportPreviewInput {
        adapter,
        source_kind,
        source_fingerprint,
        file_sha256,
        normalized_sha256,
        coverage_start,
        coverage_end,
        rejected_count,
        rows: canonical_preview_rows(rows),
    }
}

/// No two rows share a stable key.
pub open spec fn keys_distinct(s: Seq<ExpenseImportPreviewRow>) -> bool {
    forall|i: int, j: int| 0 <= i < j < s.len() ==> row_key(#[trigger] s[i]) != row_key(#[trigger] s[j])
}

/// Where a row goes in ordered rows: after every row whose key does not come after its
/// own, before every row whose key does.
proof fn lemma_key_place_splits(s: Seq<ExpenseImportPreviewRow>, x: ExpenseImportPreviewRow)
    requires
        keys_ordered(s),
    ensures
        0 <= key_place(s, x) <= s.len(),
        forall|j: int| 0 <= j < key_place(s, x) ==> !key_before(x, #[trigger] s[j]),
        forall|j: int| key_place(s, x) <= j < s.len() ==> key_before(x, #[trigger] s[j]),
    decreases s.len(),
{
    if s.len() > 0 {
        let u = s.drop_last();
        assert forall|i: int, j: int| 0 <= i < j < u.len() implies !key_before(#[trigger] u[j], #[trigger] u[i]) by {
            assert(u[i] == s[i] && u[j] == s[j]);
        }
        lemma_key_place_splits(u, x);
        let last = s.last();
        if !key_before(x, last) {
            assert forall|j: int| 0 <= j < s.len() implies !key_before(x, #[trigger] s[j]) by {
                if j < s.len() - 1 {
                    assert(!key_before(s[s.len() - 1], s[j]));
                    lemma_bytes_total(row_key(x), row_key(last));
                    lemma_bytes_total(row_key(last), row_key(s[j]));
                    if key_before(x, s[j]) {
                        if row_key(last) == row_key(x) {
                            assert(key_before(last, s[j]));
                        } else {
                            lemma_bytes_transitive(row_key(last), row_key(x), row_key(s[j]));
                        }
                    }
                }
            }
        } else {
            assert forall|j: int| key_place(s, x) <= j < s.len() implies key_before(x, #[trigger] s[j]) by {
                if j < s.len() - 1 {
                    assert(u[j] == s[j]);
                }
            }
            assert forall|j: int| 0 <= j < key_place(s, x) implies !key_before(x, #[trigger] s[j]) by {
                assert(u[j] == s[j]);
            }
        }
    }
}

/// Inserting a row at its place keeps rows ordered.
proof fn lemma_insert_keeps_order(s: Seq<ExpenseImportPreviewRow>, x: ExpenseImportPreviewRow)
    requires
        keys_ordered(s),
    ensures
        keys_ordered(s.insert(key_place(s, x), x)),
{
    lemma_key_place_splits(s, x);
    let p = key_place(s, x);
    let n = s.insert(p, x);
    assert forall|a: int, b: int| 0 <= a < b < n.len() implies !key_before(#[trigger] n[b], #[trigger] n[a]) by {
        if a < p && b < p {
            assert(n[a] == s[a] && n[b] == s[b]);
        } else if a < p && b == p {
            assert(n[a] == s[a]);
        } else if a < p && b > p {
            assert(n[a] == s[a] && n[b] == s[b - 1]);
        } else if a == p {
            assert(n[b] == s[b - 1]);
            lemma_bytes_total(row_key(x), row_key(s[b - 1]));
        } else {
            assert(n[a] == s[a - 1] && n[b] == s[b - 1]);
        }
    }
}

/// Rows in stable-key order are ordered.
pub proof fn lemma_sorted_by_key_ordered(rows: Seq<ExpenseImportPreviewRow>)
    ensures
        keys_ordered(sorted_by_key(rows)),
    decreases rows.len(),
{
    if rows.len() > 0 {
        lemma_sorted_by_key_ordered(rows.drop_last());
        lemma_insert_keeps_order(sorted_by_key(rows.drop_last()), rows.last());
    }
}

/// Rows holding the same rows as rows with distinct keys have distinct keys too.
proof fn lemma_keys_distinct_carry(a: Seq<ExpenseImportPreviewRow>, x: Seq<ExpenseImportPreviewRow>)
    requires
        a.to_multiset() == x.to_multiset(),
        keys_distinct(a),
    ensures
        keys_distinct(x),
{
    broadcast use vstd::seq_lib::group_to_multiset_ensures;

    assert(a.no_duplicates()) by {
        assert forall|i: int, j: int| 0 <= i < a.len() && 0 <= j < a.len() && i != j implies a[i] != a[j] by {
            if i < j {
                assert(row_key(a[i]) != row_key(a[j]));
            } else {
                assert(row_key(a[j]) != row_key(a[i]));
            }
        }
    }
    a.lemma_multiset_has_no_duplicates();
    x.lemma_multiset_has_no_duplicates_conv();
    assert forall|i: int, j: int| 0 <= i < j < x.len() implies row_key(#[trigger] x[i]) != row_key(#[trigger] x[j]) by {
        assert(x.contains(x[i]));
        assert(x.contains(x[j]));
        assert(a.to_multiset().count(x[i]) > 0);
        assert(a.to_multiset().count(x[j]) > 0);
        let p = choose|p: int| 0 <= p < a.len() && a[p] == x[i];
        let q = choose|q: int| 0 <= q < a.len() && a[q] == x[j];
        assert(x[i] != x[j]);
        if p < q {
            assert(row_key(a[p]) != row_key(a[q]));
        } else {
            assert(row_key(a[q]) != row_key(a[p]));
        }
    }
}

/// Ordered rows with distinct keys are fixed by which rows they hold.
proof fn lemma_ordered_unique(x: Seq<ExpenseImportPreviewRow>, y: Seq<ExpenseImportPreviewRow>)
    requires
        x.to_multiset() == y.to_multiset(),
        keys_ordered(x),
        keys_ordered(y),
        keys_distinct(x),
        keys_distinct(y),
    ensures
        x == y,
    decreases x.len(),
{
    broadcast use vstd::seq_lib::group_to_multiset_ensures;

    assert(x.len() == x.to_multiset().len());
    assert(y.len() == y.to_multiset().len());
    if x.len() == 0 {
        assert(x =~= y);
    } else {
        assert(x.contains(x[0]));
        assert(y.to_multiset().count(x[0]) > 0);
        assert(y.contains(y[0]));
        assert(x.to_multiset().count(y[0]) > 0);
        let j = choose|j: int| 0 <= j < y.len() && y[j] == x[0];
        let i = choose|i: int| 0 <= i < x.len() && x[i] == y[0];
        if i > 0 && j > 0 {
            assert(!key_before(x[i], x[0]));
            assert(row_key(x[0]) != row_key(x[i]));
            lemma_bytes_total(row_key(x[0]), row_key(x[i]));
            assert(!key_before(y[j], y[0]));
            assert(row_key(y[0]) != row_key(y[j]));
            lemma_bytes_total(row_key(y[0]), row_key(y[j]));
            assert(false);
        }
        assert(x[0] == y[0]);
        let xs = x.remove(0);
        let ys = y.remove(0);
        assert(xs.to_multiset() == ys.to_multiset());
        assert forall|a: int, b: int| 0 <= a < b < xs.len() implies !key_before(#[trigger] xs[b], #[trigger] xs[a]) by {
            assert(xs[a] == x[a + 1] && xs[b] == x[b + 1]);
        }
        assert forall|a: int, b: int| 0 <= a < b < ys.len() implies !key_before(#[trigger] ys[b], #[trigger] ys[a]) by {
            assert(ys[a] == y[a + 1] && ys[b] == y[b + 1]);
        }
        assert forall|a: int, b: int| 0 <= a < b < xs.len() implies row_key(#[trigger] xs[a]) != row_key(#[trigger] xs[b]) by {
            assert(xs[a] == x[a + 1] && xs[b] == x[b + 1]);
        }
        assert forall|a: int, b: int| 0 <= a < b < ys.len() implies row_key(#[trigger] ys[a]) != row_key(#[trigger] ys[b]) by {
            assert(ys[a] == y[a + 1] && ys[b] == y[b + 1]);
        }
        lemma_ordered_unique(xs, ys);
        assert(x =~= seq![x[0]] + xs);
        assert(y =~= seq![y[0]] + ys);
    }
}

/// The order rows were sent in does not change what an import's digest is taken over:
/// two row lists holding the same rows, with distinct stable keys, come out alike.
pub proof fn lemma_canonical_rows_ignore_order(a: Seq<ExpenseImportPreviewRow>, b: Seq<ExpenseImportPreviewRow>)
    requires
        a.to_multiset() == b.to_multiset(),
        keys_distinct(a),
    ensures
        sorted_by_key(a) == sorted_by_key(b),
{
    lemma_sorted_by_key_permutes(a);
    lemma_sorted_by_key_permutes(b);
    lemma_sorted_by_key_ordered(a);
    lemma_sorted_by_key_ordered(b);
    lemma_keys_distinct_carry(a, sorted_by_key(a));
    lemma_keys_distinct_carry(a, sorted_by_key(b));
    lemma_ordered_unique(sorted_by_key(a), sorted_by_key(b));
}

} // verus!
