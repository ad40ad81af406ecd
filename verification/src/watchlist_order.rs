//! The order the watchlist is listed in: by creation time, then by symbol, both compared
//! as UTF-8 bytes.
use vstd::prelude::*;
use vstd::utf8::encode_utf8;

use crate::migration::{bytes_less, bytes_lt, lemma_bytes_irreflexive, lemma_bytes_total, lemma_bytes_transitive};
use crate::stock_watchlist::{watchlist_ok, StockWatchlistItem};
use crate::text::same_text;

verus! {

/// Key `a` comes strictly before key `b`: by its first text, then by its second, each in
/// byte order.
pub open spec fn key_before(a: (Seq<char>, Seq<char>), b: (Seq<char>, Seq<char>)) -> bool {
    ||| bytes_lt(encode_utf8(a.0), encode_utf8(b.0))
    ||| (a.0 == b.0 && bytes_lt(encode_utf8(a.1), encode_utf8(b.1)))
}

/// The key an item is listed by: its creation time and its symbol.
pub open spec fn listing_key(i: StockWatchlistItem) -> (Seq<char>, Seq<char>) {
    (i.created_at@, i.symbol@)
}

/// Item `a` is listed strictly before item `b`.
pub open spec fn listed_before(a: StockWatchlistItem, b: StockWatchlistItem) -> bool {
    key_before(listing_key(a), listing_key(b))
}

/// No key comes before itself.
proof fn lemma_key_irreflexive(a: (Seq<char>, Seq<char>))
    ensures
        !key_before(a, a),
{
    lemma_bytes_irreflexive(encode_utf8(a.0));
    lemma_bytes_irreflexive(encode_utf8(a.1));
}

/// The key order is transitive.
proof fn lemma_key_transitive(a: (Seq<char>, Seq<char>), b: (Seq<char>, Seq<char>), c: (Seq<char>, Seq<char>))
    requires
        key_before(a, b),
        key_before(b, c),
    ensures
        key_before(a, c),
{
    let (a0, b0, c0) = (encode_utf8(a.0), encode_utf8(b.0), encode_utf8(c.0));
    if bytes_lt(a0, b0) && bytes_lt(b0, c0) {
        lemma_bytes_transitive(a0, b0, c0);
    } else if bytes_lt(a0, b0) {
    } else if bytes_lt(b0, c0) {
    } else {
        lemma_bytes_transitive(encode_utf8(a.1), encode_utf8(b.1), encode_utf8(c.1));
    }
}

/// Two distinct keys are ordered one way or the other, never both ways.
proof fn lemma_key_total(a: (Seq<char>, Seq<char>), b: (Seq<char>, Seq<char>))
    ensures
        a != b ==> (key_before(a, b) || key_before(b, a)),
        !(key_before(a, b) && key_before(b, a)),
{
    lemma_bytes_total(encode_utf8(a.0), encode_utf8(b.0));
    lemma_bytes_total(encode_utf8(a.1), encode_utf8(b.1));
    if encode_utf8(a.0) == encode_utf8(b.0) {
        vstd::utf8::encode_utf8_decode_utf8(a.0);
        vstd::utf8::encode_utf8_decode_utf8(b.0);
    }
    if encode_utf8(a.1) == encode_utf8(b.1) {
        vstd::utf8::encode_utf8_decode_utf8(a.1);
        vstd::utf8::encode_utf8_decode_utf8(b.1);
    }
    if a.0 == b.0 && a.1 == b.1 {
        assert(a == b);
    }
    lemma_key_irreflexive(a);
}

/// The number of items of `s` not listed after `x`.
pub open spec fn listing_place(s: Seq<StockWatchlistItem>, x: StockWatchlistItem) -> int
    decreases s.len(),
{
    if s.len() == 0 {
        0
    } else {
        listing_place(s.drop_last(), x) + if !listed_before(x, s.last()) {
            1int
        } else {
            0
        }
    }
}

/// The items in listing order, items with equal keys in the order they came.
pub open spec fn in_listing_order(items: Seq<StockWatchlistItem>) -> Seq<StockWatchlistItem>
    decreases items.len(),
{
    if items.len() == 0 {
        Seq::empty()
    } else {
        let r = in_listing_order(items.drop_last());
        r.insert(listing_place(r, items.last()), items.last())
    }
}

/// No item is listed before one that precedes it.
pub open spec fn listing_ordered(s: Seq<StockWatchlistItem>) -> bool {
    forall|i: int, j: int| 0 <= i < j < s.len() ==> !listed_before(#[trigger] s[j], #[trigger] s[i])
}

proof fn lemma_listing_place_splits(s: Seq<StockWatchlistItem>, x: StockWatchlistItem)
    requires
        listing_ordered(s),
    ensures
        0 <= listing_place(s, x) <= s.len(),
        forall|j: int| 0 <= j < listing_place(s, x) ==> !listed_before(x, #[trigger] s[j]),
        forall|j: int| listing_place(s, x) <= j < s.len() ==> listed_before(x, #[trigger] s[j]),
    decreases s.len(),
{
    if s.len() > 0 {
        let u = s.drop_last();
        assert forall|i: int, j: int| 0 <= i < j < u.len() implies !listed_before(#[trigger] u[j], #[trigger] u[i]) by {
            assert(u[i] == s[i] && u[j] == s[j]);
        }
        lemma_listing_place_splits(u, x);
        let last = s.last();
        if !listed_before(x, last) {
            assert forall|j: int| 0 <= j < s.len() implies !listed_before(x, #[trigger] s[j]) by {
                if j < s.len() - 1 {
                    assert(!listed_before(s[s.len() - 1], s[j]));
                    lemma_key_total(listing_key(x), listing_key(last));
                    lemma_key_total(listing_key(last), listing_key(s[j]));
                    if listed_before(x, s[j]) {
                        if listing_key(last) == listing_key(x) {
                            assert(listed_before(last, s[j]));
                        } else {
                            lemma_key_transitive(listing_key(last), listing_key(x), listing_key(s[j]));
                        }
                    }
                }
            }
        } else {
            assert forall|j: int| listing_place(s, x) <= j < s.len() implies listed_before(x, #[trigger] s[j]) by {
                if j < s.len() - 1 {
                    assert(u[j] == s[j]);
                }
            }
            assert forall|j: int| 0 <= j < listing_place(s, x) implies !listed_before(x, #[trigger] s[j]) by {
                assert(u[j] == s[j]);
            }
        }
    }
}

proof fn lemma_insert_keeps_listing_order(s: Seq<StockWatchlistItem>, x: StockWatchlistItem)
    requires
        listing_ordered(s),
    ensures
        listing_ordered(s.insert(listing_place(s, x), x)),
{
    lemma_listing_place_splits(s, x);
    let p = listing_place(s, x);
    let n = s.insert(p, x);
    assert forall|a: int, b: int| 0 <= a < b < n.len() implies !listed_before(#[trigger] n[b], #[trigger] n[a]) by {
        if a < p && b < p {
            assert(n[a] == s[a] && n[b] == s[b]);
        } else if a < p && b == p {
            assert(n[a] == s[a]);
        } else if a < p && b > p {
            assert(n[a] == s[a] && n[b] == s[b - 1]);
        } else if a == p {
            assert(n[b] == s[b - 1]);
            lemma_key_total(listing_key(x), listing_key(s[b - 1]));
        } else {
            assert(n[a] == s[a - 1] && n[b] == s[b - 1]);
        }
    }
}

proof fn lemma_listing_permutes(items: Seq<StockWatchlistItem>)
    ensures
        in_listing_order(items).len() == items.len(),
        in_listing_order(items).to_multiset() == items.to_multiset(),
        listing_ordered(in_listing_order(items)),
    decreases items.len(),
{
    broadcast use vstd::seq_lib::group_to_multiset_ensures;

    if items.len() > 0 {
        let rest = items.drop_last();
        lemma_listing_permutes(rest);
        let r = in_listing_order(rest);
        let x = items.last();
        lemma_listing_place_splits(r, x);
        lemma_insert_keeps_listing_order(r, x);
        let p = listing_place(r, x);
        let left = r.subrange(0, p);
        let right = r.subrange(p, r.len() as int);
        assert(r =~= left + right);
        assert(r.insert(p, x) =~= left.push(x) + right);
        vstd::seq_lib::lemma_multiset_commutative(left, right);
        vstd::seq_lib::lemma_multiset_commutative(left.push(x), right);
        assert(items =~= rest.push(x));
    }
}

/// The watchlist as it is listed keeps its invariant: a list that keeps it is listed with
/// every item once, by creation time and then symbol, each item strictly after the one
/// before, symbols distinct, at most fifty, each symbol its market and ticker.
pub proof fn lemma_watchlist_listing(items: Seq<StockWatchlistItem>)
    requires
        watchlist_ok(items),
    ensures
        in_listing_order(items).to_multiset() == items.to_multiset(),
        watchlist_ok(in_listing_order(items)),
        forall|i: int, j: int|
            0 <= i < j < items.len() ==> listed_before(
                #[trigger] in_listing_order(items)[i],
                #[trigger] in_listing_order(items)[j],
            ),
{
    broadcast use vstd::seq_lib::group_to_multiset_ensures;

    lemma_listing_permutes(items);
    let s = in_listing_order(items);
    assert(items.no_duplicates()) by {
        assert forall|i: int, j: int| 0 <= i < items.len() && 0 <= j < items.len() && i != j implies items[i]
            != items[j] by {
            if i < j {
                assert(items[i].symbol@ != items[j].symbol@);
            } else {
                assert(items[j].symbol@ != items[i].symbol@);
            }
        }
    }
    items.lemma_multiset_has_no_duplicates();
    s.lemma_multiset_has_no_duplicates_conv();
    assert forall|i: int| 0 <= i < s.len() implies exists|p: int| 0 <= p < items.len() && items[p] == #[trigger] s[i] by {
        assert(s.contains(s[i]));
        assert(items.to_multiset().count(s[i]) > 0);
    }
    assert forall|i: int, j: int| 0 <= i < j < s.len() implies (#[trigger] s[i]).symbol@ != (#[trigger] s[j]).symbol@ by {
        let p = choose|p: int| 0 <= p < items.len() && items[p] == s[i];
        let q = choose|q: int| 0 <= q < items.len() && items[q] == s[j];
        assert(s[i] != s[j]);
        if p < q {
            assert(items[p].symbol@ != items[q].symbol@);
        } else {
            assert(items[q].symbol@ != items[p].symbol@);
        }
    }
    assert forall|i: int| 0 <= i < s.len() implies #[trigger] crate::stock_watchlist::item_ok(s[i]) by {
        let p = choose|p: int| 0 <= p < items.len() && items[p] == s[i];
        assert(crate::stock_watchlist::item_ok(items[p]));
    }
    assert forall|i: int, j: int| 0 <= i < j < items.len() implies listed_before(#[trigger] s[i], #[trigger] s[j]) by {
        assert(!listed_before(s[j], s[i]));
        assert(s[i].symbol@ != s[j].symbol@);
        lemma_key_total(listing_key(s[i]), listing_key(s[j]));
    }
}

/// Whether item `a` is listed strictly before item `b`.
fn listed_first(a: &StockWatchlistItem, b: &StockWatchlistItem) -> (r: bool)
    ensures
        r == listed_before(*a, *b),
{
    bytes_less(a.created_at.as_str().as_bytes(), b.created_at.as_str().as_bytes()) || (same_text(
        &a.created_at,
        &b.created_at,
    ) && bytes_less(a.symbol.as_str().as_bytes(), b.symbol.as_str().as_bytes()))
}

/// Places an item after every item not listed after it.
fn insert_listed(sorted: &mut Vec<StockWatchlistItem>, x: StockWatchlistItem)
    requires
        listing_ordered(old(sorted)@),
    ensures
        listing_ordered(final(sorted)@),
        final(sorted)@ == old(sorted)@.insert(listing_place(old(sorted)@, x), x),
{
    let ghost s = sorted@;
    let mut p: usize = 0;
    while p < sorted.len() && !listed_first(&x, &sorted[p])
        invariant
            0 <= p <= sorted@.len(),
            s == sorted@,
            listing_ordered(s),
            forall|j: int| 0 <= j < p ==> !listed_before(x, #[trigger] s[j]),
        decreases sorted@.len() - p,
    {
        p = p + 1;
    }
    proof {
        lemma_listing_place_splits(s, x);
        let k = listing_place(s, x);
        if k < p {
            assert(!listed_before(x, s[k]));
        }
        if p < k {
            assert(!listed_before(x, s[p as int]));
        }
        lemma_insert_keeps_listing_order(s, x);
    }
    sorted.insert(p, x);
    assert(sorted@ =~= s.insert(p as int, x));
}

/// The watchlist as it is listed: by creation time, then by symbol; items with equal
/// keys in the order they came.
pub fn watchlist_listing(items: Vec<StockWatchlistItem>) -> (r: Vec<StockWatchlistItem>)
    ensures
        r@ == in_listing_order(items@),
        listing_ordered(r@),
        r@.to_multiset() == items@.to_multiset(),
{
    proof {
        lemma_listing_permutes(items@);
    }
    let ghost all = items@;
    let mut rest = items;
    let mut sorted: Vec<StockWatchlistItem> = Vec::new();
    let ghost n = all.len();
    assert(all.take(0) =~= Seq::<StockWatchlistItem>::empty());
    let mut reversed: Vec<StockWatchlistItem> = Vec::new();
    while rest.len() > 0
        invariant
            rest@ + reversed@.reverse() == all,
        decreases rest@.len(),
    {
        let ghost before = rest@;
        let ghost rev_before = reversed@;
        let x = rest.pop().unwrap();
        reversed.push(x);
        assert(reversed@.reverse() =~= seq![x] + rev_before.reverse());
        assert(rest@ + reversed@.reverse() =~= before + rev_before.reverse());
    }
    assert(reversed@.reverse() =~= all);
    while reversed.len() > 0
        invariant
            n == all.len(),
            reversed@.len() <= n,
            reversed@.reverse() == all.subrange(n - reversed@.len(), n as int),
            sorted@ == in_listing_order(all.subrange(0, n - reversed@.len())),
            listing_ordered(sorted@),
        decreases reversed@.len(),
    {
        let ghost k = n - reversed@.len();
        let ghost rev_before = reversed@;
        assert(rev_before.reverse()[0] == all[k]);
        let x = reversed.pop().unwrap();
        assert forall|i: int| 0 <= i < reversed@.len() implies #[trigger] reversed@.reverse()[i]
            == all.subrange(k + 1, n as int)[i] by {
            assert(rev_before.reverse()[i + 1] == all.subrange(k, n as int)[i + 1]);
        }
        assert(reversed@.reverse() =~= all.subrange(k + 1, n as int));
        assert(all.subrange(0, k + 1).drop_last() =~= all.subrange(0, k));
        insert_listed(&mut sorted, x);
    }
    assert(all.subrange(0, n as int) =~= all);
    sorted
}

} // verus!
