//! Reading a finished stock screen back: its results per horizon, ranked by the size of
//! the move, paged for listing, and summarized as bucket counts and the three largest
//! movers.
use vstd::prelude::*;
use vstd::string::*;
use vstd::utf8::encode_utf8;

use crate::calendar::CivilDate;
use crate::error::{invalid, Error};
use crate::migration::{bytes_less, bytes_lt, lemma_bytes_irreflexive, lemma_bytes_total, lemma_bytes_transitive};
use crate::stock_screen::{
    band_is_up, increment_count, StockScreenBand, StockScreenBandFilter, StockScreenBucketCounts,
    StockScreenDirection, StockScreenHorizon,
};
use crate::text::{decimal, u64_to_decimal};

verus! {

/// One member's stored screen result: its closes and, per horizon, the baseline, the
/// return and the band when it moved enough.
#[derive(Debug, Clone)]
pub struct StoredScreenResult {
    pub run_id: String,
    pub ticker: String,
    pub display_name: String,
    pub sector: Option<String>,
    pub current_date: CivilDate,
    pub current_close_microusd: u64,
    pub baseline_5_date: Option<CivilDate>,
    pub baseline_5_close_microusd: Option<u64>,
    pub return_5_micros: Option<i64>,
    pub band_5: Option<StockScreenBand>,
    pub baseline_21_date: Option<CivilDate>,
    pub baseline_21_close_microusd: Option<u64>,
    pub return_21_micros: Option<i64>,
    pub band_21: Option<StockScreenBand>,
    pub universe_sha256: String,
    pub market_data_sha256: String,
}

/// One listed move: a member's result on one horizon. The percentage shown beside it
/// is `return_micros / 10_000`, computed where it is displayed.
#[derive(Debug, Clone)]
pub struct StockScreenListItem {
    pub run_id: String,
    pub ticker: String,
    pub display_name: String,
    pub sector: Option<String>,
    pub horizon: StockScreenHorizon,
    pub direction: StockScreenDirection,
    pub band: StockScreenBand,
    pub current_date: CivilDate,
    pub current_close_microusd: u64,
    pub baseline_date: CivilDate,
    pub baseline_close_microusd: u64,
    pub return_micros: i64,
    pub universe_sha256: String,
    pub market_data_sha256: String,
}

/// The direction of a band.
pub open spec fn band_direction(band: StockScreenBand) -> StockScreenDirection {
    if band_is_up(band) {
        StockScreenDirection::Up
    } else {
        StockScreenDirection::Down
    }
}

/// The baseline date, baseline close, return and band of a horizon, when all are known.
pub open spec fn horizon_fields(r: StoredScreenResult, h: StockScreenHorizon) -> Option<
    (CivilDate, u64, i64, StockScreenBand),
> {
    let (d, c, m, b) = match h {
        StockScreenHorizon::Five => (
            r.baseline_5_date,
            r.baseline_5_close_microusd,
            r.return_5_micros,
            r.band_5,
        ),
        StockScreenHorizon::TwentyOne => (
            r.baseline_21_date,
            r.baseline_21_close_microusd,
            r.return_21_micros,
            r.band_21,
        ),
    };
    match (d, c, m, b) {
        (Some(d), Some(c), Some(m), Some(b)) => Some((d, c, m, b)),
        _ => None,
    }
}

/// The listed move of a result on a horizon, if it moved enough on it.
pub open spec fn horizon_item(r: StoredScreenResult, h: StockScreenHorizon) -> Option<
    StockScreenListItem,
> {
    match horizon_fields(r, h) {
        Some((d, c, m, b)) => Some(
            StockScreenListItem {
                run_id: r.run_id,
                ticker: r.ticker,
                display_name: r.display_name,
                sector: r.sector,
                horizon: h,
                direction: band_direction(b),
                band: b,
                current_date: r.current_date,
                current_close_microusd: r.current_close_microusd,
                baseline_date: d,
                baseline_close_microusd: c,
                return_micros: m,
                universe_sha256: r.universe_sha256,
                market_data_sha256: r.market_data_sha256,
            },
        ),
        None => None,
    }
}

fn clone_text(s: &Option<String>) -> (r: Option<String>)
    ensures
        r == *s,
{
    match s {
        Some(t) => Some(t.clone()),
        None => None,
    }
}

impl StoredScreenResult {
    /// The listed move of this result on a horizon, if it moved enough on it.
    pub fn for_horizon(&self, horizon: StockScreenHorizon) -> (r: Option<StockScreenListItem>)
        ensures
            r == horizon_item(*self, horizon),
    {
        let (d, c, m, b) = match horizon {
            StockScreenHorizon::Five => (
                self.baseline_5_date,
                self.baseline_5_close_microusd,
                self.return_5_micros,
                self.band_5,
            ),
            StockScreenHorizon::TwentyOne => (
                self.baseline_21_date,
                self.baseline_21_close_microusd,
                self.return_21_micros,
                self.band_21,
            ),
        };
        match (d, c, m, b) {
            (Some(d), Some(c), Some(m), Some(b)) => Some(
                StockScreenListItem {
                    run_id: self.run_id.clone(),
                    ticker: self.ticker.clone(),
                    display_name: self.display_name.clone(),
                    sector: clone_text(&self.sector),
                    horizon,
                    direction: b.direction(),
                    band: b,
                    current_date: self.current_date,
                    current_close_microusd: self.current_close_microusd,
                    baseline_date: d,
                    baseline_close_microusd: c,
                    return_micros: m,
                    universe_sha256: self.universe_sha256.clone(),
                    market_data_sha256: self.market_data_sha256.clone(),
                },
            ),
            _ => None,
        }
    }
}

// ---------------------------------------------------------------------------------------
// Ranking
// ---------------------------------------------------------------------------------------

/// The size of a move, whichever its direction.
pub open spec fn magnitude(m: i64) -> nat {
    if m < 0 {
        (-(m as int)) as nat
    } else {
        m as nat
    }
}

/// The number of sessions of a horizon.
pub open spec fn horizon_sessions(h: StockScreenHorizon) -> nat {
    if h is Five {
        5
    } else {
        21
    }
}

/// `a` ranks strictly before `b`: a larger move first, then the ticker in byte order,
/// then the shorter horizon.
pub open spec fn ranks_before(a: StockScreenListItem, b: StockScreenListItem) -> bool {
    ||| magnitude(a.return_micros) > magnitude(b.return_micros)
    ||| magnitude(a.return_micros) == magnitude(b.return_micros) && bytes_lt(
        encode_utf8(a.ticker@),
        encode_utf8(b.ticker@),
    )
    ||| magnitude(a.return_micros) == magnitude(b.return_micros) && encode_utf8(a.ticker@)
        == encode_utf8(b.ticker@) && horizon_sessions(a.horizon) < horizon_sessions(b.horizon)
}

/// Items in ranking order: no item ranks before one placed ahead of it.
pub open spec fn ranked_order(s: Seq<StockScreenListItem>) -> bool {
    forall|i: int, j: int| 0 <= i < j < s.len() ==> !ranks_before(#[trigger] s[j], #[trigger] s[i])
}

/// The number of items of `s` that `x` does not rank before: where a stable sort puts
/// `x` when it comes after all of them.
pub open spec fn place_of(s: Seq<StockScreenListItem>, x: StockScreenListItem) -> int
    decreases s.len(),
{
    if s.len() == 0 {
        0
    } else {
        place_of(s.drop_last(), x) + if !ranks_before(x, s.last()) {
            1int
        } else {
            0
        }
    }
}

/// Items in ranking order, equal ones kept in the order they came: the stable sort by
/// move size (largest first), then ticker, then horizon.
pub open spec fn ranked(items: Seq<StockScreenListItem>) -> Seq<StockScreenListItem>
    decreases items.len(),
{
    if items.len() == 0 {
        Seq::empty()
    } else {
        let r = ranked(items.drop_last());
        r.insert(place_of(r, items.last()), items.last())
    }
}

/// The place of an item lies within the items.
proof fn lemma_place_bounds(s: Seq<StockScreenListItem>, x: StockScreenListItem)
    ensures
        0 <= place_of(s, x) <= s.len(),
    decreases s.len(),
{
    if s.len() > 0 {
        lemma_place_bounds(s.drop_last(), x);
    }
}

/// Ranking keeps every item, each as often as it came: the ranked items are a
/// rearrangement of the items.
pub proof fn lemma_ranked_permutes(items: Seq<StockScreenListItem>)
    ensures
        ranked(items).len() == items.len(),
        ranked(items).to_multiset() == items.to_multiset(),
    decreases items.len(),
{
    broadcast use vstd::seq_lib::group_to_multiset_ensures;

    if items.len() > 0 {
        let rest = items.drop_last();
        lemma_ranked_permutes(rest);
        let r = ranked(rest);
        let x = items.last();
        let p = place_of(r, x);
        lemma_place_bounds(r, x);
        let left = r.subrange(0, p);
        let right = r.subrange(p, r.len() as int);
        assert(r =~= left + right);
        assert(r.insert(p, x) =~= left.push(x) + right);
        vstd::seq_lib::lemma_multiset_commutative(left, right);
        vstd::seq_lib::lemma_multiset_commutative(left.push(x), right);
        assert(items =~= rest.push(x));
    }
}

/// Ranking before is a strict weak order: irreflexive and transitive, and an item that
/// ranks before one of two items ranks before the other, or the other ranks before it.
pub proof fn lemma_rank_order(a: StockScreenListItem, b: StockScreenListItem, c: StockScreenListItem)
    ensures
        !ranks_before(a, a),
        ranks_before(a, b) && ranks_before(b, c) ==> ranks_before(a, c),
        ranks_before(a, b) ==> !ranks_before(b, a),
        ranks_before(a, c) ==> ranks_before(a, b) || ranks_before(b, c),
{
    let ka = encode_utf8(a.ticker@);
    let kb = encode_utf8(b.ticker@);
    let kc = encode_utf8(c.ticker@);
    lemma_bytes_irreflexive(ka);
    lemma_bytes_total(ka, kb);
    lemma_bytes_total(kb, kc);
    lemma_bytes_total(ka, kc);
    if bytes_lt(ka, kb) && bytes_lt(kb, kc) {
        lemma_bytes_transitive(ka, kb, kc);
    }
    if bytes_lt(ka, kc) && !bytes_lt(ka, kb) && ka != kb && bytes_lt(kb, ka) {
        lemma_bytes_transitive(kb, ka, kc);
    }
}

/// In ranking order, the first `p` items are not ranked after by `x` and the rest are:
/// then `p` is the place of `x`.
proof fn lemma_place_of(s: Seq<StockScreenListItem>, x: StockScreenListItem, p: int)
    requires
        0 <= p <= s.len(),
        forall|j: int| 0 <= j < p ==> !ranks_before(x, #[trigger] s[j]),
        forall|j: int| p <= j < s.len() ==> ranks_before(x, #[trigger] s[j]),
    ensures
        place_of(s, x) == p,
    decreases s.len(),
{
    if s.len() > 0 {
        let u = s.drop_last();
        if p == s.len() {
            assert forall|j: int| 0 <= j < p - 1 implies !ranks_before(x, #[trigger] u[j]) by {
                assert(u[j] == s[j]);
            }
            lemma_place_of(u, x, p - 1);
        } else {
            assert forall|j: int| 0 <= j < p implies !ranks_before(x, #[trigger] u[j]) by {
                assert(u[j] == s[j]);
            }
            assert forall|j: int| p <= j < u.len() implies ranks_before(x, #[trigger] u[j]) by {
                assert(u[j] == s[j]);
            }
            lemma_place_of(u, x, p);
        }
    }
}

/// Places `x` into ranked items after every item it does not rank before.
fn insert_ranked(sorted: &mut Vec<StockScreenListItem>, x: StockScreenListItem)
    requires
        ranked_order(old(sorted)@),
    ensures
        ranked_order(final(sorted)@),
        final(sorted)@ == old(sorted)@.insert(place_of(old(sorted)@, x), x),
{
    let ghost s = sorted@;
    let mut p: usize = 0;
    while p < sorted.len() && !precedes(&x, &sorted[p])
        invariant
            0 <= p <= sorted@.len(),
            s == sorted@,
            ranked_order(s),
            forall|j: int| 0 <= j < p ==> !ranks_before(x, #[trigger] s[j]),
        decreases sorted@.len() - p,
    {
        p = p + 1;
    }
    proof {
        if p < s.len() {
            assert(ranks_before(x, s[p as int]));
            assert forall|j: int| p <= j < s.len() implies ranks_before(x, #[trigger] s[j]) by {
                if j > p {
                    assert(!ranks_before(s[j], s[p as int]));
                    lemma_rank_order(x, s[j], s[p as int]);
                }
            }
        }
        lemma_place_of(s, x, p as int);
    }
    let ghost xv = x;
    sorted.insert(p, x);
    proof {
        let n = s.insert(p as int, xv);
        assert(sorted@ =~= n);
        assert forall|a: int, b: int| 0 <= a < b < n.len() implies !ranks_before(
            #[trigger] n[b],
            #[trigger] n[a],
        ) by {
            if a < p && b < p {
                assert(n[a] == s[a] && n[b] == s[b]);
            } else if a < p && b == p {
                assert(n[a] == s[a]);
            } else if a < p && b > p {
                assert(n[a] == s[a] && n[b] == s[b - 1]);
            } else if a == p {
                assert(n[b] == s[b - 1]);
                lemma_rank_order(s[b - 1], xv, xv);
                lemma_rank_order(xv, s[b - 1], xv);
            } else {
                assert(n[a] == s[a - 1] && n[b] == s[b - 1]);
            }
        }
    }
}

/// The size of a move, as `i64::unsigned_abs` gives it.
pub fn magnitude_of(m: i64) -> (r: u64)
    ensures
        r == magnitude(m),
{
    if m >= 0 {
        m as u64
    } else if m == i64::MIN {
        0x8000_0000_0000_0000u64
    } else {
        (-m) as u64
    }
}

/// Whether `a` ranks strictly before `b`.
pub fn precedes(a: &StockScreenListItem, b: &StockScreenListItem) -> (r: bool)
    ensures
        r == ranks_before(*a, *b),
{
    let ma = magnitude_of(a.return_micros);
    let mb = magnitude_of(b.return_micros);
    if ma != mb {
        return ma > mb;
    }
    let ta = a.ticker.as_str().as_bytes();
    let tb = b.ticker.as_str().as_bytes();
    if bytes_less(ta, tb) {
        return true;
    }
    if bytes_less(tb, ta) {
        return false;
    }
    proof {
        lemma_bytes_total(ta@, tb@);
    }
    a.horizon.sessions() < b.horizon.sessions()
}

/// Ranks items: largest move first, then ticker, then horizon; equal ones keep their
/// order.
pub fn rank_items(items: Vec<StockScreenListItem>) -> (r: Vec<StockScreenListItem>)
    ensures
        r@ == ranked(items@),
        ranked_order(r@),
{
    let ghost all = items@;
    let mut rest = items;
    let mut reversed: Vec<StockScreenListItem> = Vec::new();
    while rest.len() > 0
        invariant
            rest@ + reversed@.reverse() == all,
        decreases rest@.len(),
    {
        let ghost before = rest@;
        let ghost rev_before = reversed@;
        let x = rest.pop().unwrap();
        reversed.push(x);
        assert(reversed@.reverse() =~= seq![x] + rev_before.reverse());
        assert(rest@ + reversed@.reverse() =~= before + rev_before.reverse());
    }
    assert(reversed@.reverse() =~= all);
    let n = reversed.len();
    let mut sorted: Vec<StockScreenListItem> = Vec::new();
    assert(all.subrange(0, 0) =~= Seq::<StockScreenListItem>::empty());
    while reversed.len() > 0
        invariant
            n == all.len(),
            reversed@.len() <= n,
            reversed@.reverse() == all.subrange(n - reversed@.len(), n as int),
            sorted@ == ranked(all.subrange(0, n - reversed@.len())),
            ranked_order(sorted@),
        decreases reversed@.len(),
    {
        let ghost k = n - reversed@.len();
        let ghost rev_before = reversed@;
        assert(rev_before.reverse()[0] == all[k]);
        let x = reversed.pop().unwrap();
        assert forall|i: int| 0 <= i < reversed@.len() implies #[trigger] reversed@.reverse()[i]
            == all.subrange(k + 1, n as int)[i] by {
            assert(rev_before.reverse()[i + 1] == all.subrange(k, n as int)[i + 1]);
        }
        assert(reversed@.reverse() =~= all.subrange(k + 1, n as int));
        assert(all.subrange(0, k + 1).drop_last() =~= all.subrange(0, k));
        insert_ranked(&mut sorted, x);
    }
    assert(all.subrange(0, n as int) =~= all);
    sorted
}

// ---------------------------------------------------------------------------------------
// Listing
// ---------------------------------------------------------------------------------------

/// A request for one page of a screen's results.
#[derive(Debug, Clone)]
pub struct ListStockScreenResultsInput {
    pub run_id: String,
    pub horizon: StockScreenHorizon,
    pub direction: StockScreenDirection,
    pub band: Option<StockScreenBandFilter>,
    pub cursor: Option<String>,
    pub limit: Option<u32>,
}

/// One page of listed results, the cursor of the next page, and the number listed in all.
#[derive(Debug, Clone)]
pub struct StockScreenResultPage {
    pub items: Vec<StockScreenListItem>,
    pub next_cursor: Option<String>,
    pub total: u32,
}

/// The width of a band.
pub open spec fn band_width(band: StockScreenBand) -> StockScreenBandFilter {
    if band is Down20Plus || band is Up20Plus {
        StockScreenBandFilter::TwentyPlus
    } else {
        StockScreenBandFilter::TenToTwenty
    }
}

/// Whether a listed move matches the direction and, if named, the band width asked for.
pub open spec fn item_selected(
    item: StockScreenListItem,
    direction: StockScreenDirection,
    band: Option<StockScreenBandFilter>,
) -> bool {
    item.direction == direction && match band {
        Some(f) => band_width(item.band) == f,
        None => true,
    }
}

/// The moves of the results on a horizon that match the direction and band width, in
/// result order.
pub open spec fn selected(
    results: Seq<StoredScreenResult>,
    horizon: StockScreenHorizon,
    direction: StockScreenDirection,
    band: Option<StockScreenBandFilter>,
) -> Seq<StockScreenListItem>
    decreases results.len(),
{
    if results.len() == 0 {
        Seq::empty()
    } else {
        let rest = selected(results.drop_last(), horizon, direction, band);
        match horizon_item(results.last(), horizon) {
            Some(item) => if item_selected(item, direction, band) {
                rest.push(item)
            } else {
                rest
            },
            None => rest,
        }
    }
}

/// What a listing request must hold: a run ID, a page size of 1 to 50 (50 when none is
/// named) and a cursor that reads as an offset (0 when none is named).
pub open spec fn listing_ok(input: ListStockScreenResultsInput) -> bool {
    &&& crate::text::trimmed(input.run_id@).len() > 0
    &&& encode_utf8(input.run_id@).len() <= 128
    &&& match input.limit {
        Some(l) => 1 <= l <= 50,
        None => true,
    }
    &&& match input.cursor {
        Some(c) => crate::text::parsed_usize(c@) is Some,
        None => true,
    }
}

/// Checks a listing request and reads its offset and page size.
pub fn validate_listing(input: &ListStockScreenResultsInput) -> (r: Result<(usize, u32), Error>)
    ensures
        r is Ok <==> listing_ok(*input),
        r matches Ok((offset, limit)) ==> {
            &&& limit == match input.limit {
                Some(l) => l,
                None => 50u32,
            }
            &&& offset == match input.cursor {
                Some(c) => crate::text::parsed_usize(c@)->0,
                None => 0nat,
            }
        },
        r matches Err(e) ==> e is Invalid,
{
    if crate::text::trim(input.run_id.as_str()).unicode_len() == 0 || input.run_id.as_str().as_bytes().len()
        > 128 {
        return Err(invalid("stock screen run ID has an invalid format"));
    }
    let limit = match input.limit {
        Some(l) => l,
        None => 50,
    };
    if limit == 0 || limit > 50 {
        return Err(invalid("stock screen result limit must be 1-50"));
    }
    let offset = match &input.cursor {
        None => 0,
        Some(c) => match crate::text::parse_usize(c.as_str()) {
            Some(v) => v,
            None => {
                return Err(invalid("stock screen result cursor is invalid"));
            },
        },
    };
    Ok((offset, limit))
}

/// The page of ranked moves that starts at `offset` and holds at most `limit`.
pub open spec fn page_of(ranked: Seq<StockScreenListItem>, offset: int, limit: int) -> Seq<
    StockScreenListItem,
> {
    let start = if offset < ranked.len() {
        offset
    } else {
        ranked.len() as int
    };
    let end = if start + limit < ranked.len() {
        start + limit
    } else {
        ranked.len() as int
    };
    ranked.subrange(start, end)
}

/// Lists one page of a screen's results: the moves on the horizon asked for that match
/// the direction and band width, ranked largest first, from `offset`, at most `limit`
/// of them; the next page's cursor when more follow.
pub fn page_results(
    results: &Vec<StoredScreenResult>,
    horizon: StockScreenHorizon,
    direction: StockScreenDirection,
    band: Option<StockScreenBandFilter>,
    offset: usize,
    limit: u32,
) -> (r: Result<StockScreenResultPage, Error>)
    ensures
        r is Ok <==> selected(results@, horizon, direction, band).len() <= u32::MAX,
        r matches Ok(page) ==> {
            let all = ranked(selected(results@, horizon, direction, band));
            let items = page_of(all, offset as int, limit as int);
            &&& page.total == all.len()
            &&& page.items@ == items
            &&& (page.next_cursor is Some <==> offset + items.len() < all.len())
            &&& (page.next_cursor matches Some(c) ==> c@ == decimal((offset + items.len()) as nat))
        },
        r matches Err(e) ==> e is Invalid,
{
    let mut chosen: Vec<StockScreenListItem> = Vec::new();
    let mut i: usize = 0;
    while i < results.len()
        invariant
            0 <= i <= results@.len(),
            chosen@ == selected(results@.subrange(0, i as int), horizon, direction, band),
        decreases results@.len() - i,
    {
        assert(results@.subrange(0, i + 1).drop_last() =~= results@.subrange(0, i as int));
        match results[i].for_horizon(horizon) {
            Some(item) => {
                let wanted = item.direction == direction && match band {
                    Some(f) => item.band.filter() == f,
                    None => true,
                };
                if wanted {
                    chosen.push(item);
                }
            },
            None => {},
        }
        i = i + 1;
    }
    assert(results@.subrange(0, results@.len() as int) =~= results@);
    let all = rank_items(chosen);
    proof {
        lemma_ranked_permutes(selected(results@, horizon, direction, band));
    }
    if all.len() > 0xffff_ffff {
        return Err(invalid("stock screen result count is too large"));
    }
    let total = all.len() as u32;
    let start: usize = if offset < all.len() { offset } else { all.len() };
    let end: usize = if (limit as usize) < all.len() - start { start + limit as usize } else { all.len() };
    let mut items: Vec<StockScreenListItem> = Vec::new();
    let mut k: usize = start;
    while k < end
        invariant
            start <= k <= end <= all@.len(),
            items@ == all@.subrange(start as int, k as int),
        decreases end - k,
    {
        items.push(all[k].clone_item());
        k = k + 1;
        assert(items@ =~= all@.subrange(start as int, k as int));
    }
    let next = start + items.len();
    let next_cursor = if offset < all.len() && next < all.len() {
        Some(u64_to_decimal(next as u64))
    } else {
        None
    };
    Ok(StockScreenResultPage { items, next_cursor, total })
}

impl StockScreenListItem {
    /// An exact copy.
    pub fn clone_item(&self) -> (r: StockScreenListItem)
        ensures
            r == *self,
    {
        StockScreenListItem {
            run_id: self.run_id.clone(),
            ticker: self.ticker.clone(),
            display_name: self.display_name.clone(),
            sector: clone_text(&self.sector),
            horizon: self.horizon,
            direction: self.direction,
            band: self.band,
            current_date: self.current_date,
            current_close_microusd: self.current_close_microusd,
            baseline_date: self.baseline_date,
            baseline_close_microusd: self.baseline_close_microusd,
            return_micros: self.return_micros,
            universe_sha256: self.universe_sha256.clone(),
            market_data_sha256: self.market_data_sha256.clone(),
        }
    }
}

// ---------------------------------------------------------------------------------------
// The summary of a successful screen
// ---------------------------------------------------------------------------------------

/// A result's larger move: the five-session one unless the twenty-one-session move is
/// strictly larger.
pub open spec fn best_item(r: StoredScreenResult) -> Option<StockScreenListItem> {
    match (horizon_item(r, StockScreenHorizon::Five), horizon_item(r, StockScreenHorizon::TwentyOne)) {
        (None, b) => b,
        (Some(a), None) => Some(a),
        (Some(a), Some(b)) => if magnitude(b.return_micros) > magnitude(a.return_micros) {
            Some(b)
        } else {
            Some(a)
        },
    }
}

/// Each result's larger move, in result order.
pub open spec fn best_items(results: Seq<StoredScreenResult>) -> Seq<StockScreenListItem>
    decreases results.len(),
{
    if results.len() == 0 {
        Seq::empty()
    } else {
        let rest = best_items(results.drop_last());
        match best_item(results.last()) {
            Some(item) => rest.push(item),
            None => rest,
        }
    }
}

/// The three largest moves, one per result at most.
pub open spec fn top_three(results: Seq<StoredScreenResult>) -> Seq<StockScreenListItem> {
    let r = ranked(best_items(results));
    r.take(if r.len() < 3 {
        r.len() as int
    } else {
        3
    })
}

/// How many results moved on a horizon within a band.
pub open spec fn band_count(
    results: Seq<StoredScreenResult>,
    horizon: StockScreenHorizon,
    band: StockScreenBand,
) -> int
    decreases results.len(),
{
    if results.len() == 0 {
        0
    } else {
        band_count(results.drop_last(), horizon, band) + match horizon_fields(results.last(), horizon) {
            Some((_, _, _, b)) => if b == band {
                1int
            } else {
                0
            },
            None => 0,
        }
    }
}

proof fn lemma_band_count_bound(results: Seq<StoredScreenResult>, horizon: StockScreenHorizon, band: StockScreenBand)
    ensures
        0 <= band_count(results, horizon, band) <= results.len(),
    decreases results.len(),
{
    if results.len() > 0 {
        lemma_band_count_bound(results.drop_last(), horizon, band);
    }
}

/// The bucket counts of a successful screen and its three largest moves.
pub fn summarize_results(results: &Vec<StoredScreenResult>) -> (r: (StockScreenBucketCounts, Vec<StockScreenListItem>))
    requires
        results@.len() < u32::MAX,
    ensures
        forall|h: StockScreenHorizon, b: StockScreenBand| #[trigger] r.0.bucket(h, b) == band_count(results@, h, b),
        r.1@ == top_three(results@),
{
    let mut counts = StockScreenBucketCounts::zero();
    let mut best: Vec<StockScreenListItem> = Vec::new();
    let mut i: usize = 0;
    while i < results.len()
        invariant
            0 <= i <= results@.len() < u32::MAX,
            forall|h: StockScreenHorizon, b: StockScreenBand|
                #[trigger] counts.bucket(h, b) == band_count(results@.subrange(0, i as int), h, b),
            best@ == best_items(results@.subrange(0, i as int)),
        decreases results@.len() - i,
    {
        let ghost prefix = results@.subrange(0, i + 1);
        assert(prefix.drop_last() =~= results@.subrange(0, i as int));
        assert(prefix.last() == results@[i as int]);
        let ghost before = counts;
        proof {
            assert forall|h: StockScreenHorizon, b: StockScreenBand| #[trigger] before.bucket(h, b) < u32::MAX by {
                lemma_band_count_bound(results@.subrange(0, i as int), h, b);
            }
        }
        let five = results[i].for_horizon(StockScreenHorizon::Five);
        let twenty_one = results[i].for_horizon(StockScreenHorizon::TwentyOne);
        match &five {
            Some(item) => {
                increment_count(&mut counts, StockScreenHorizon::Five, item.band);
            },
            None => {},
        }
        let ghost middle = counts;
        proof {
            assert forall|h: StockScreenHorizon, b: StockScreenBand| #[trigger] middle.bucket(h, b) < u32::MAX by {
                lemma_band_count_bound(results@.subrange(0, i as int), h, b);
                assert(before.bucket(h, b) <= i);
            }
        }
        match &twenty_one {
            Some(item) => {
                increment_count(&mut counts, StockScreenHorizon::TwentyOne, item.band);
            },
            None => {},
        }
        let chosen = match (five, twenty_one) {
            (None, b) => b,
            (Some(a), None) => Some(a),
            (Some(a), Some(b)) => if magnitude_of(b.return_micros) > magnitude_of(a.return_micros) {
                Some(b)
            } else {
                Some(a)
            },
        };
        match chosen {
            Some(item) => {
                best.push(item);
            },
            None => {},
        }
        i = i + 1;
        proof {
            assert forall|h: StockScreenHorizon, b: StockScreenBand|
                #[trigger] counts.bucket(h, b) == band_count(results@.subrange(0, i as int), h, b) by {
                assert(band_count(prefix, h, b) == band_count(prefix.drop_last(), h, b) + match horizon_fields(
                    prefix.last(),
                    h,
                ) {
                    Some((_, _, _, x)) => if x == b {
                        1int
                    } else {
                        0
                    },
                    None => 0,
                });
            }
        }
    }
    assert(results@.subrange(0, results@.len() as int) =~= results@);
    let ranked_items = rank_items(best);
    let keep: usize = if ranked_items.len() < 3 { ranked_items.len() } else { 3 };
    let mut top: Vec<StockScreenListItem> = Vec::new();
    let mut k: usize = 0;
    while k < keep
        invariant
            0 <= k <= keep <= ranked_items@.len(),
            top@ == ranked_items@.take(k as int),
        decreases keep - k,
    {
        top.push(ranked_items[k].clone_item());
        k = k + 1;
        assert(top@ =~= ranked_items@.take(k as int));
    }
    (counts, top)
}

/// How old the universe is on `as_of`, in whole days, never negative; as `u32`, as the
/// summary stores it.
pub fn universe_age_days(as_of: CivilDate, effective_date: CivilDate) -> (r: u32)
    requires
        crate::calendar::representable(as_of),
        crate::calendar::representable(effective_date),
    ensures
        r == (if crate::calendar::day_count_between(effective_date, as_of) > 0 {
            crate::calendar::day_count_between(effective_date, as_of) as u32
        } else {
            0u32
        }),
{
    let n = crate::calendar::days_between(effective_date, as_of);
    if n > 0 {
        n as u32
    } else {
        0
    }
}

// ---------------------------------------------------------------------------------------
// Runs and AI reports
// ---------------------------------------------------------------------------------------

/// A screen run ID reused for a start must name the same market date and, when the
/// start names a universe snapshot, the same snapshot.
pub fn check_screen_run_replay(
    existing_market_date: CivilDate,
    existing_snapshot_id: &Option<String>,
    market_date: CivilDate,
    snapshot_id: &Option<String>,
) -> (r: Result<(), Error>)
    ensures
        r is Ok <==> existing_market_date == market_date && match snapshot_id {
            Some(s) => existing_snapshot_id matches Some(e) && e@ == s@,
            None => true,
        },
        r matches Err(e) ==> e is Conflict,
{
    let same_snapshot = match snapshot_id {
        None => true,
        Some(s) => match existing_snapshot_id {
            Some(e) => crate::text::same_text(e, s),
            None => false,
        },
    };
    if existing_market_date == market_date && same_snapshot {
        Ok(())
    } else {
        Err(Error::Conflict("stock screen run ID was already used with different input".to_owned()))
    }
}

/// A run fails as `upstream_unavailable` or `failed`, with a failure code; the code is
/// stored trimmed.
pub fn validate_screen_failure(status: &str, failure_code: &str) -> (r: Result<String, Error>)
    ensures
        r is Ok <==> (status@ == "upstream_unavailable"@ || status@ == "failed"@)
            && crate::normalize::clean_text_ok(crate::text::trimmed(failure_code@), 120),
        r matches Ok(c) ==> c@ == crate::text::trimmed(failure_code@),
        r matches Err(e) ==> e is Invalid,
{
    if !crate::text::str_eq(status, "upstream_unavailable") && !crate::text::str_eq(status, "failed") {
        return Err(invalid("stock screen failure status is invalid"));
    }
    crate::normalize::clean_text("stock screen failure code", failure_code, 120)
}

/// What starts an AI report on a screen run.
#[derive(Debug, Clone)]
pub struct StockAiReportStart<'a> {
    pub id: &'a str,
    pub screen_run_id: &'a str,
    pub prompt_version: &'a str,
    pub model: &'a str,
}

/// The start of an AI report, each field trimmed and checked.
#[derive(Debug, Clone)]
pub struct CheckedAiReportStart {
    pub id: String,
    pub screen_run_id: String,
    pub prompt_version: String,
    pub model: String,
}

/// What an AI report start must hold.
pub open spec fn ai_report_start_ok(input: StockAiReportStart) -> bool {
    &&& crate::normalize::clean_text_ok(crate::text::trimmed(input.id@), 128)
    &&& crate::normalize::clean_text_ok(crate::text::trimmed(input.prompt_version@), 64)
    &&& crate::normalize::clean_text_ok(crate::text::trimmed(input.model@), 128)
    &&& crate::normalize::clean_text_ok(crate::text::trimmed(input.screen_run_id@), 128)
}

/// Checks the start of an AI report and trims its fields.
pub fn validate_ai_report_start(input: &StockAiReportStart) -> (r: Result<CheckedAiReportStart, Error>)
    ensures
        r is Ok <==> ai_report_start_ok(*input),
        r matches Ok(c) ==> c.id@ == crate::text::trimmed(input.id@) && c.screen_run_id@
            == crate::text::trimmed(input.screen_run_id@) && c.prompt_version@ == crate::text::trimmed(
            input.prompt_version@,
        ) && c.model@ == crate::text::trimmed(input.model@),
        r matches Err(e) ==> e is Invalid,
{
    let id = crate::normalize::clean_text("stock AI report ID", input.id, 128)?;
    let prompt_version = crate::normalize::clean_text("stock AI prompt version", input.prompt_version, 64)?;
    let model = crate::normalize::clean_text("stock AI model", input.model, 128)?;
    let screen_run_id = crate::normalize::clean_text("stock AI screen run ID", input.screen_run_id, 128)?;
    Ok(CheckedAiReportStart { id, screen_run_id, prompt_version, model })
}

/// An AI report needs a successful screen that found something.
pub fn check_report_screen(status: &str, result_count: u32) -> (r: Result<(), Error>)
    ensures
        r is Ok <==> status@ == "succeeded"@ && result_count > 0,
        r matches Err(e) ==> e is Conflict,
{
    if !crate::text::str_eq(status, "succeeded") || result_count == 0 {
        return Err(Error::Conflict("stock AI report requires a successful non-empty screen".to_owned()));
    }
    Ok(())
}

/// A report ID reused for a start must name the same screen run, prompt and model.
pub fn check_ai_report_replay(
    existing_screen_run_id: &str,
    existing_prompt_version: &str,
    existing_model: &str,
    start: &CheckedAiReportStart,
) -> (r: Result<(), Error>)
    ensures
        r is Ok <==> existing_screen_run_id@ == start.screen_run_id@ && existing_prompt_version@
            == start.prompt_version@ && existing_model@ == start.model@,
        r matches Err(e) ==> e is Conflict,
{
    if crate::text::str_eq(existing_screen_run_id, start.screen_run_id.as_str()) && crate::text::str_eq(
        existing_prompt_version,
        start.prompt_version.as_str(),
    ) && crate::text::str_eq(existing_model, start.model.as_str()) {
        Ok(())
    } else {
        Err(Error::Conflict("stock AI report ID was already used with different input".to_owned()))
    }
}

/// How an AI report finished. `result` is the report's JSON text.
#[derive(Debug, Clone)]
pub struct StockAiReportCompletion {
    pub status: String,
    pub response_id: Option<String>,
    pub upstream_request_id: Option<String>,
    pub result: Option<String>,
    pub input_tokens: Option<u64>,
    pub cached_input_tokens: Option<u64>,
    pub output_tokens: Option<u64>,
    pub total_tokens: Option<u64>,
    pub estimated_cost_microusd: u64,
    pub failure_code: Option<String>,
}

/// A completion is `succeeded` with a result, or `failed` or `ai_uncertain` with a
/// failure code of 1 to 120 characters once trimmed.
pub open spec fn ai_completion_ok(c: StockAiReportCompletion) -> bool {
    &&& (c.status@ == "succeeded"@ || c.status@ == "failed"@ || c.status@ == "ai_uncertain"@)
    &&& (c.status@ == "succeeded"@ ==> c.result is Some)
    &&& (c.status@ != "succeeded"@ ==> c.failure_code is Some)
    &&& (c.failure_code matches Some(f) ==> crate::normalize::clean_text_ok(crate::text::trimmed(f@), 120))
}

/// Checks an AI report's ID and completion; gives back the trimmed ID and failure code.
pub fn validate_ai_completion(id: &str, completion: &StockAiReportCompletion) -> (r: Result<
    (String, Option<String>),
    Error,
>)
    ensures
        r is Ok <==> crate::normalize::clean_text_ok(crate::text::trimmed(id@), 128) && ai_completion_ok(
            *completion,
        ),
        r matches Ok((i, f)) ==> i@ == crate::text::trimmed(id@) && match completion.failure_code {
            Some(code) => f matches Some(x) && x@ == crate::text::trimmed(code@),
            None => f is None,
        },
        r matches Err(e) ==> e is Invalid,
{
    let id = crate::normalize::clean_text("stock AI report ID", id, 128)?;
    let status = completion.status.as_str();
    let succeeded = crate::text::str_eq(status, "succeeded");
    if !succeeded && !crate::text::str_eq(status, "failed") && !crate::text::str_eq(status, "ai_uncertain") {
        return Err(invalid("stock AI report completion status is invalid"));
    }
    if succeeded && completion.result.is_none() {
        return Err(invalid("successful stock AI report requires a result"));
    }
    if !succeeded && completion.failure_code.is_none() {
        return Err(invalid("unsuccessful stock AI report requires a failure code"));
    }
    let failure_code = crate::normalize::clean_optional_text(
        "stock AI failure code",
        &completion.failure_code,
        120,
    )?;
    Ok((id, failure_code))
}

/// A screen run as the staleness rule reads it.
#[derive(Debug, Clone)]
pub struct RunMarker {
    pub id: String,
    pub market_date: CivilDate,
    pub status: String,
}

/// Whether the latest screen is stale, and why: none has succeeded yet; a later attempt
/// on the same or a later market date did not succeed; or the latest success predates
/// the market date now expected.
pub open spec fn staleness_of(
    latest_success: Option<RunMarker>,
    latest_attempt: Option<RunMarker>,
    expected: CivilDate,
) -> Option<Seq<char>> {
    match latest_success {
        None => Some("first_run_pending"@),
        Some(success) => if latest_attempt matches Some(attempt) && attempt.id@ != success.id@
            && !crate::calendar::date_before(attempt.market_date, success.market_date)
            && attempt.status@ != "succeeded"@ && attempt.status@ != "no_candidates"@ {
            Some("latest_attempt_"@ + latest_attempt->0.status@)
        } else if crate::calendar::date_before(success.market_date, expected) {
            Some("latest_success_before_expected_market_date"@)
        } else {
            None
        },
    }
}

/// Decides whether the latest screen is stale and gives the reason.
pub fn screen_staleness(
    latest_success: &Option<RunMarker>,
    latest_attempt: &Option<RunMarker>,
    expected: CivilDate,
) -> (r: (bool, Option<String>))
    ensures
        r.0 == staleness_of(*latest_success, *latest_attempt, expected) is Some,
        match (r.1, staleness_of(*latest_success, *latest_attempt, expected)) {
            (Some(a), Some(b)) => a@ == b,
            (None, None) => true,
            _ => false,
        },
{
    match latest_success {
        None => (true, Some("first_run_pending".to_owned())),
        Some(success) => {
            let attempt_failed = match latest_attempt {
                Some(attempt) => !crate::text::same_text(&attempt.id, &success.id)
                    && !crate::calendar::date_lt(attempt.market_date, success.market_date)
                    && !crate::text::str_eq(attempt.status.as_str(), "succeeded")
                    && !crate::text::str_eq(attempt.status.as_str(), "no_candidates"),
                None => false,
            };
            if attempt_failed {
                let attempt = latest_attempt.as_ref().unwrap();
                (true, Some("latest_attempt_".to_owned().concat(attempt.status.as_str())))
            } else if crate::calendar::date_lt(success.market_date, expected) {
                (true, Some("latest_success_before_expected_market_date".to_owned()))
            } else {
                (false, None)
            }
        },
    }
}

} // verus!
