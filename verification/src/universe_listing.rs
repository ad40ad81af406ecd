//! The members of a stored stock universe as they are listed: by ticker, in byte order.
use vstd::prelude::*;
use vstd::utf8::encode_utf8;

use crate::migration::{bytes_less, bytes_lt, lemma_bytes_total, lemma_bytes_transitive};
use crate::error::Error;
use crate::stock_screen::{
    member_ticker, optional_trimmed, prepare_universe, universe_ok, StockUniverseMemberInput, StoreStockUniverseInput,
};
use crate::text::trimmed;

verus! {

/// The bytes a member is listed by: its ticker.
pub open spec fn ticker_key(m: StockUniverseMemberInput) -> Seq<u8> {
    encode_utf8(m.ticker@)
}

/// Member `a`'s ticker comes strictly before member `b`'s.
pub open spec fn ticker_before(a: StockUniverseMemberInput, b: StockUniverseMemberInput) -> bool {
    bytes_lt(ticker_key(a), ticker_key(b))
}

/// The number of members of `s` whose ticker does not come after `x`'s.
pub open spec fn ticker_place(s: Seq<StockUniverseMemberInput>, x: StockUniverseMemberInput) -> int
    decreases s.len(),
{
    if s.len() == 0 {
        0
    } else {
        ticker_place(s.drop_last(), x) + if !ticker_before(x, s.last()) {
            1int
        } else {
            0
        }
    }
}

/// Members by ticker, members with equal tickers in the order they came.
pub open spec fn by_ticker(members: Seq<StockUniverseMemberInput>) -> Seq<StockUniverseMemberInput>
    decreases members.len(),
{
    if members.len() == 0 {
        Seq::empty()
    } else {
        let r = by_ticker(members.drop_last());
        r.insert(ticker_place(r, members.last()), members.last())
    }
}

/// Tickers never decrease along the members.
pub open spec fn tickers_ordered(s: Seq<StockUniverseMemberInput>) -> bool {
    forall|i: int, j: int| 0 <= i < j < s.len() ==> !ticker_before(#[trigger] s[j], #[trigger] s[i])
}

/// No two members share a ticker.
pub open spec fn tickers_distinct(s: Seq<StockUniverseMemberInput>) -> bool {
    forall|i: int, j: int| 0 <= i < j < s.len() ==> (#[trigger] s[i]).ticker@ != (#[trigger] s[j]).ticker@
}

proof fn lemma_ticker_place_splits(s: Seq<StockUniverseMemberInput>, x: StockUniverseMemberInput)
    requires
        tickers_ordered(s),
    ensures
        0 <= ticker_place(s, x) <= s.len(),
        forall|j: int| 0 <= j < ticker_place(s, x) ==> !ticker_before(x, #[trigger] s[j]),
        forall|j: int| ticker_place(s, x) <= j < s.len() ==> ticker_before(x, #[trigger] s[j]),
    decreases s.len(),
{
    if s.len() > 0 {
        let u = s.drop_last();
        assert forall|i: int, j: int| 0 <= i < j < u.len() implies !ticker_before(#[trigger] u[j], #[trigger] u[i]) by {
            assert(u[i] == s[i] && u[j] == s[j]);
        }
        lemma_ticker_place_splits(u, x);
        let last = s.last();
        if !ticker_before(x, last) {
            assert forall|j: int| 0 <= j < s.len() implies !ticker_before(x, #[trigger] s[j]) by {
                if j < s.len() - 1 {
                    assert(!ticker_before(s[s.len() - 1], s[j]));
                    lemma_bytes_total(ticker_key(x), ticker_key(last));
                    lemma_bytes_total(ticker_key(last), ticker_key(s[j]));
                    if ticker_before(x, s[j]) {
                        if ticker_key(last) == ticker_key(x) {
                            assert(ticker_before(last, s[j]));
                        } else {
                            lemma_bytes_transitive(ticker_key(last), ticker_key(x), ticker_key(s[j]));
                        }
                    }
                }
            }
        } else {
            assert forall|j: int| ticker_place(s, x) <= j < s.len() implies ticker_before(x, #[trigger] s[j]) by {
                if j < s.len() - 1 {
                    assert(u[j] == s[j]);
                }
            }
            assert forall|j: int| 0 <= j < ticker_place(s, x) implies !ticker_before(x, #[trigger] s[j]) by {
                assert(u[j] == s[j]);
            }
        }
    }
}

proof fn lemma_insert_keeps_ticker_order(s: Seq<StockUniverseMemberInput>, x: StockUniverseMemberInput)
    requires
        tickers_ordered(s),
    ensures
        tickers_ordered(s.insert(ticker_place(s, x), x)),
{
    lemma_ticker_place_splits(s, x);
    let p = ticker_place(s, x);
    let n = s.insert(p, x);
    assert forall|a: int, b: int| 0 <= a < b < n.len() implies !ticker_before(#[trigger] n[b], #[trigger] n[a]) by {
        if a < p && b < p {
            assert(n[a] == s[a] && n[b] == s[b]);
        } else if a < p && b == p {
            assert(n[a] == s[a]);
        } else if a < p && b > p {
            assert(n[a] == s[a] && n[b] == s[b - 1]);
        } else if a == p {
            assert(n[b] == s[b - 1]);
            lemma_bytes_total(ticker_key(x), ticker_key(s[b - 1]));
        } else {
            assert(n[a] == s[a - 1] && n[b] == s[b - 1]);
        }
    }
}

proof fn lemma_by_ticker_permutes(members: Seq<StockUniverseMemberInput>)
    ensures
        by_ticker(members).len() == members.len(),
        by_ticker(members).to_multiset() == members.to_multiset(),
        tickers_ordered(by_ticker(members)),
    decreases members.len(),
{
    broadcast use vstd::seq_lib::group_to_multiset_ensures;

    if members.len() > 0 {
        let rest = members.drop_last();
        lemma_by_ticker_permutes(rest);
        let r = by_ticker(rest);
        let x = members.last();
        lemma_ticker_place_splits(r, x);
        lemma_insert_keeps_ticker_order(r, x);
        let p = ticker_place(r, x);
        let left = r.subrange(0, p);
        let right = r.subrange(p, r.len() as int);
        assert(r =~= left + right);
        assert(r.insert(p, x) =~= left.push(x) + right);
        vstd::seq_lib::lemma_multiset_commutative(left, right);
        vstd::seq_lib::lemma_multiset_commutative(left.push(x), right);
        assert(members =~= rest.push(x));
    }
}

proof fn lemma_tickers_distinct_carry(a: Seq<StockUniverseMemberInput>, x: Seq<StockUniverseMemberInput>)
    requires
        a.to_multiset() == x.to_multiset(),
        tickers_distinct(a),
    ensures
        tickers_distinct(x),
{
    broadcast use vstd::seq_lib::group_to_multiset_ensures;

    assert(a.no_duplicates()) by {
        assert forall|i: int, j: int| 0 <= i < a.len() && 0 <= j < a.len() && i != j implies a[i] != a[j] by {
            if i < j {
                assert(a[i].ticker@ != a[j].ticker@);
            } else {
                assert(a[j].ticker@ != a[i].ticker@);
            }
        }
    }
    a.lemma_multiset_has_no_duplicates();
    x.lemma_multiset_has_no_duplicates_conv();
    assert forall|i: int, j: int| 0 <= i < j < x.len() implies (#[trigger] x[i]).ticker@ != (#[trigger] x[j]).ticker@ by {
        assert(x.contains(x[i]));
        assert(x.contains(x[j]));
        assert(a.to_multiset().count(x[i]) > 0);
        assert(a.to_multiset().count(x[j]) > 0);
        let p = choose|p: int| 0 <= p < a.len() && a[p] == x[i];
        let q = choose|q: int| 0 <= q < a.len() && a[q] == x[j];
        assert(x[i] != x[j]);
        if p < q {
            assert(a[p].ticker@ != a[q].ticker@);
        } else {
            assert(a[q].ticker@ != a[p].ticker@);
        }
    }
}

/// Members with distinct tickers are listed with every member once, each ticker strictly
/// after the one before: what a stored universe reads back as is its members in ticker
/// order.
pub proof fn lemma_members_listed_by_ticker(members: Seq<StockUniverseMemberInput>)
    requires
        tickers_distinct(members),
    ensures
        by_ticker(members).len() == members.len(),
        by_ticker(members).to_multiset() == members.to_multiset(),
        forall|i: int, j: int|
            0 <= i < j < members.len() ==> ticker_before(
                #[trigger] by_ticker(members)[i],
                #[trigger] by_ticker(members)[j],
            ),
{
    lemma_by_ticker_permutes(members);
    let s = by_ticker(members);
    lemma_tickers_distinct_carry(members, s);
    assert forall|i: int, j: int| 0 <= i < j < members.len() implies ticker_before(#[trigger] s[i], #[trigger] s[j]) by {
        assert(!ticker_before(s[j], s[i]));
        assert(s[i].ticker@ != s[j].ticker@);
        vstd::utf8::encode_utf8_decode_utf8(s[i].ticker@);
        vstd::utf8::encode_utf8_decode_utf8(s[j].ticker@);
        lemma_bytes_total(ticker_key(s[i]), ticker_key(s[j]));
    }
}

/// Places a member after every member whose ticker does not come after its own.
fn insert_by_ticker(sorted: &mut Vec<StockUniverseMemberInput>, x: StockUniverseMemberInput)
    requires
        tickers_ordered(old(sorted)@),
    ensures
        tickers_ordered(final(sorted)@),
        final(sorted)@ == old(sorted)@.insert(ticker_place(old(sorted)@, x), x),
{
    let ghost s = sorted@;
    let mut p: usize = 0;
    while p < sorted.len() && !bytes_less(x.ticker.as_str().as_bytes(), sorted[p].ticker.as_str().as_bytes())
        invariant
            0 <= p <= sorted@.len(),
            s == sorted@,
            tickers_ordered(s),
            forall|j: int| 0 <= j < p ==> !ticker_before(x, #[trigger] s[j]),
        decreases sorted@.len() - p,
    {
        p = p + 1;
    }
    proof {
        lemma_ticker_place_splits(s, x);
        let k = ticker_place(s, x);
        if k < p {
            assert(!ticker_before(x, s[k]));
        }
        if p < k {
            assert(!ticker_before(x, s[p as int]));
        }
        lemma_insert_keeps_ticker_order(s, x);
    }
    sorted.insert(p, x);
    assert(sorted@ =~= s.insert(p as int, x));
}

/// The members of a universe as they are listed: by ticker, members with equal tickers in
/// the order they came.
pub fn members_by_ticker(members: Vec<StockUniverseMemberInput>) -> (r: Vec<StockUniverseMemberInput>)
    ensures
        r@ == by_ticker(members@),
{
    let ghost all = members@;
    let mut rest = members;
    let mut reversed: Vec<StockUniverseMemberInput> = Vec::new();
    while rest.len() > 0
        invariant
            rest@ + reversed@.reverse() == all,
        decreases rest@.len(),
    {
        let ghost before = rest@;
        let ghost rev_before = reversed@;
        let x = rest.pop().unwrap();
        reversed.push(x);
        assert(reversed@.reverse() =~= seq![x] + rev_before.reverse());
        assert(rest@ + reversed@.reverse() =~= before + rev_before.reverse());
    }
    assert(reversed@.reverse() =~= all);
    let n = reversed.len();
    let mut sorted: Vec<StockUniverseMemberInput> = Vec::new();
    assert(all.subrange(0, 0) =~= Seq::<StockUniverseMemberInput>::empty());
    while reversed.len() > 0
        invariant
            n == all.len(),
            reversed@.len() <= n,
            reversed@.reverse() == all.subrange(n - reversed@.len(), n as int),
            sorted@ == by_ticker(all.subrange(0, n - reversed@.len())),
            tickers_ordered(sorted@),
        decreases reversed@.len(),
    {
        let ghost k = n - reversed@.len();
        let ghost rev_before = reversed@;
        assert(rev_before.reverse()[0] == all[k]);
        let x = reversed.pop().unwrap();
        assert forall|i: int| 0 <= i < reversed@.len() implies #[trigger] reversed@.reverse()[i]
            == all.subrange(k + 1, n as int)[i] by {
            assert(rev_before.reverse()[i + 1] == all.subrange(k, n as int)[i + 1]);
        }
        assert(reversed@.reverse() =~= all.subrange(k + 1, n as int));
        assert(all.subrange(0, k + 1).drop_last() =~= all.subrange(0, k));
        insert_by_ticker(&mut sorted, x);
    }
    assert(all.subrange(0, n as int) =~= all);
    sorted
}

/// Member `m` is member `k` of a universe as it is stored: ticker trimmed and
/// uppercased, texts trimmed.
pub open spec fn stored_member_of(m: StockUniverseMemberInput, input: StoreStockUniverseInput, k: int) -> bool {
    &&& 0 <= k < input.members@.len()
    &&& m.ticker@ == member_ticker(input.members@[k])
    &&& m.display_name@ == trimmed(input.members@[k].display_name@)
    &&& crate::text::opt_view(m.sector) == optional_trimmed(input.members@[k].sector)
    &&& crate::text::opt_view(m.sub_industry) == optional_trimmed(input.members@[k].sub_industry)
}

/// Member `m` is one of a universe's members as it is stored.
pub open spec fn stored_member(m: StockUniverseMemberInput, input: StoreStockUniverseInput) -> bool {
    exists|k: int| #[trigger] stored_member_of(m, input, k)
}

/// The members a universe reads back as once stored: every member of the input once,
/// normalized as it is stored, in strictly increasing ticker order. Refused as storing
/// it would be.
pub fn universe_members_listed(input: &StoreStockUniverseInput) -> (r: Result<Vec<StockUniverseMemberInput>, Error>)
    ensures
        r is Ok <==> universe_ok(*input),
        r matches Ok(v) ==> {
            &&& v@.len() == input.members@.len()
            &&& forall|i: int| 0 <= i < v@.len() ==> stored_member(#[trigger] v@[i], *input)
            &&& forall|i: int, j: int| 0 <= i < j < v@.len() ==> ticker_before(#[trigger] v@[i], #[trigger] v@[j])
        },
        r matches Err(e) ==> e is Invalid,
{
    let prepared = prepare_universe(input)?;
    let ghost stored = prepared.members@;
    let listed = members_by_ticker(prepared.members);
    proof {
        broadcast use vstd::seq_lib::group_to_multiset_ensures;

        lemma_members_listed_by_ticker(stored);
        assert forall|i: int| 0 <= i < listed@.len() implies stored_member(#[trigger] listed@[i], *input) by {
            assert(listed@.to_multiset().count(listed@[i]) > 0);
            assert(stored.to_multiset().count(listed@[i]) > 0);
            assert(stored.contains(listed@[i]));
            let k = choose|k: int| 0 <= k < stored.len() && stored[k] == listed@[i];
            assert(stored_member_of(listed@[i], *input, k));
        }
    }
    Ok(listed)
}

} // verus!
