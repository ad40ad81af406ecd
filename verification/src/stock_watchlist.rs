//! The stock watchlist: markets, tickers and symbols as the list keeps them.
use vstd::prelude::*;
use vstd::string::*;

use crate::error::{invalid, Error};
use crate::normalize::{krx_ticker_ok, upper_ascii, upper_text, us_ticker_ok};
use crate::text::{chars_of, str_eq, string_of, trim, trimmed};

verus! {

/// Most items the watchlist holds.
pub const STOCK_WATCHLIST_LIMIT: usize = 50;

/// The exchanges a watched stock trades on.
#[derive(Debug, Clone, Copy, PartialEq, Eq, Structural)]
pub enum StockMarket {
    Krx,
    Nasdaq,
    Nyse,
    Amex,
}

impl StockMarket {
    /// The name of the market.
    pub open spec fn name(self) -> Seq<char> {
        match self {
            StockMarket::Krx => "KRX"@,
            StockMarket::Nasdaq => "NASDAQ"@,
            StockMarket::Nyse => "NYSE"@,
            StockMarket::Amex => "AMEX"@,
        }
    }

    /// The name of the market.
    pub fn as_str(self) -> (s: &'static str)
        ensures
            s@ == self.name(),
    {
        match self {
            StockMarket::Krx => "KRX",
            StockMarket::Nasdaq => "NASDAQ",
            StockMarket::Nyse => "NYSE",
            StockMarket::Amex => "AMEX",
        }
    }

    /// Reads a market name; other texts are refused.
    pub fn parse(value: &str) -> (r: Result<StockMarket, Error>)
        ensures
            match r {
                Ok(m) => m.name() == value@,
                Err(e) => e is Invalid && forall|m: StockMarket| m.name() != value@,
            },
    {
        if str_eq(value, "KRX") {
            Ok(StockMarket::Krx)
        } else if str_eq(value, "NASDAQ") {
            Ok(StockMarket::Nasdaq)
        } else if str_eq(value, "NYSE") {
            Ok(StockMarket::Nyse)
        } else if str_eq(value, "AMEX") {
            Ok(StockMarket::Amex)
        } else {
            Err(invalid("unsupported stock market"))
        }
    }

    /// Distinct markets have distinct names.
    pub proof fn lemma_names_distinct()
        ensures
            forall|a: StockMarket, b: StockMarket| a.name() == b.name() ==> a == b,
    {
        reveal_strlit("KRX");
        reveal_strlit("NASDAQ");
        reveal_strlit("NYSE");
        reveal_strlit("AMEX");
        assert("KRX"@[0] != "NASDAQ"@[0]);
        assert("NYSE"@[1] != "AMEX"@[1]);
    }
}

/// A watched stock.
#[derive(Debug, Clone, PartialEq, Eq)]
pub struct StockWatchlistItem {
    pub symbol: String,
    pub market: StockMarket,
    pub ticker: String,
    pub display_name: String,
    pub created_at: String,
    pub updated_at: String,
}

/// A stock to add to the watchlist, or to rename there.
#[derive(Debug, Clone, PartialEq, Eq)]
pub struct UpsertStockWatchlistItemInput {
    pub market: StockMarket,
    pub ticker: String,
    pub display_name: String,
}

/// The ticker rule of a market: six digits on KRX, one to ten letters, digits, dots or
/// hyphens on the US exchanges.
pub open spec fn ticker_ok(market: StockMarket, t: Seq<char>) -> bool {
    match market {
        StockMarket::Krx => krx_ticker_ok(t),
        _ => us_ticker_ok(t),
    }
}

/// A ticker as the watchlist stores it: trimmed, in upper case, and fit for its market.
pub fn normalize_ticker(market: StockMarket, value: &str) -> (r: Result<String, Error>)
    ensures
        r is Ok <==> ticker_ok(market, upper_text(trimmed(value@))),
        r matches Ok(t) ==> t@ == upper_text(trimmed(value@)),
        r matches Err(e) ==> e is Invalid,
{
    let t = trim(value);
    let ticker = upper_ascii(t.as_str());
    let v = chars_of(ticker.as_str());
    let valid = match market {
        StockMarket::Krx => {
            if v.len() != 6 {
                false
            } else {
                let mut ok = true;
                let mut i: usize = 0;
                while i < v.len()
                    invariant
                        0 <= i <= v@.len(),
                        ok == forall|k: int| 0 <= k < i ==> '0' <= #[trigger] v@[k] && v@[k] <= '9',
                    decreases v@.len() - i,
                {
                    if !('0' <= v[i] && v[i] <= '9') {
                        ok = false;
                    }
                    i = i + 1;
                }
                ok
            }
        },
        _ => {
            if v.len() == 0 || v.len() > 10 {
                false
            } else {
                let mut ok = true;
                let mut i: usize = 0;
                while i < v.len()
                    invariant
                        0 <= i <= v@.len(),
                        ok == forall|k: int|
                            0 <= k < i ==> crate::normalize::ticker_char(#[trigger] v@[k]),
                    decreases v@.len() - i,
                {
                    let c = v[i];
                    if !(('A' <= c && c <= 'Z') || ('a' <= c && c <= 'z') || ('0' <= c && c <= '9')
                        || c == '.' || c == '-') {
                        ok = false;
                    }
                    i = i + 1;
                }
                ok
            }
        },
    };
    if !valid {
        return Err(
            invalid(
                match market {
                    StockMarket::Krx => "KRX ticker must contain exactly six digits",
                    _ => "US ticker must contain 1-10 letters, digits, dots, or hyphens",
                },
            ),
        );
    }
    Ok(ticker)
}

/// A display name as stored: trimmed, not empty, at most 80 characters.
pub fn normalize_display_name(value: &str) -> (r: Result<String, Error>)
    ensures
        r is Ok <==> 0 < trimmed(value@).len() <= 80,
        r matches Ok(t) ==> t@ == trimmed(value@),
        r matches Err(e) ==> e is Invalid,
{
    let t = trim(value);
    let n = chars_of(t.as_str()).len();
    if n == 0 {
        return Err(invalid("stock display name cannot be empty"));
    }
    if n > 80 {
        return Err(invalid("stock display name cannot exceed 80 characters"));
    }
    Ok(t)
}

/// The symbol of a watched stock: `MARKET:TICKER`.
pub open spec fn symbol_text(market: StockMarket, ticker: Seq<char>) -> Seq<char> {
    market.name() + ":"@ + ticker
}

/// The symbol of a watched stock.
pub fn watchlist_symbol(market: StockMarket, ticker: &str) -> (s: String)
    ensures
        s@ == symbol_text(market, ticker@),
{
    market.as_str().to_owned().concat(":").concat(ticker)
}

/// The position of the first `:` in a text, if any.
pub open spec fn first_colon(s: Seq<char>) -> Option<int> {
    if exists|i: int| 0 <= i < s.len() && s[i] == ':' {
        Some(choose|i: int| 0 <= i < s.len() && s[i] == ':' && forall|j: int| 0 <= j < i ==> s[j] != ':')
    } else {
        None
    }
}

/// The market and ticker a symbol names, once trimmed and in upper case: exactly one
/// `:`, a known market before it and a ticker fit for that market after it.
pub open spec fn symbol_parts(value: Seq<char>) -> Option<(StockMarket, Seq<char>)> {
    let u = upper_text(trimmed(value));
    match first_colon(u) {
        None => None,
        Some(i) => {
            let m = u.subrange(0, i);
            let t = u.subrange(i + 1, u.len() as int);
            if exists|k: int| 0 <= k < t.len() && t[k] == ':' {
                None
            } else if !exists|mk: StockMarket| mk.name() == m {
                None
            } else {
                let market = choose|mk: StockMarket| mk.name() == m;
                if ticker_ok(market, upper_text(trimmed(t))) {
                    Some((market, upper_text(trimmed(t))))
                } else {
                    None
                }
            }
        },
    }
}

/// A symbol as the watchlist stores it.
pub fn normalize_symbol(value: &str) -> (r: Result<String, Error>)
    ensures
        r is Ok <==> symbol_parts(value@) is Some,
        r matches Ok(s) ==> symbol_parts(value@) matches Some(p) && s@ == symbol_text(p.0, p.1),
        r matches Err(e) ==> e is Invalid,
{
    let t = trim(value);
    let upper = upper_ascii(t.as_str());
    let v = chars_of(upper.as_str());
    let ghost u = upper_text(trimmed(value@));
    let mut i: usize = 0;
    while i < v.len() && v[i] != ':'
        invariant
            0 <= i <= v@.len(),
            v@ == u,
            forall|j: int| 0 <= j < i ==> v@[j] != ':',
        decreases v@.len() - i,
    {
        i = i + 1;
    }
    if i == v.len() {
        return Err(invalid("stock symbol must use MARKET:TICKER"));
    }
    assert(first_colon(u) == Some(i as int)) by {
        let k = choose|k: int| 0 <= k < u.len() && u[k] == ':' && forall|j: int| 0 <= j < k ==> u[j] != ':';
        if k < i {
        } else if k > i {
        }
    }
    let mut j: usize = i + 1;
    let mut second: bool = false;
    while j < v.len()
        invariant
            i < j <= v@.len(),
            second == exists|k: int| i < k < j && v@[k] == ':',
        decreases v@.len() - j,
    {
        if v[j] == ':' {
            second = true;
        }
        j = j + 1;
    }
    if second {
        proof {
            let k = choose|k: int| i < k < v@.len() && v@[k] == ':';
            assert(u.subrange(i + 1, u.len() as int)[k - i - 1] == ':');
        }
        return Err(invalid("stock symbol must contain exactly one separator"));
    }
    let market_text = string_of(&v.as_slice()[0..i]);
    let ticker_text = string_of(&v.as_slice()[i + 1..v.len()]);
    assert(market_text@ == u.subrange(0, i as int));
    assert(ticker_text@ == u.subrange(i + 1, u.len() as int));
    let market = StockMarket::parse(market_text.as_str())?;
    proof {
        StockMarket::lemma_names_distinct();
    }
    let ticker = normalize_ticker(market, ticker_text.as_str())?;
    Ok(watchlist_symbol(market, ticker.as_str()))
}

/// Whether a stock may be added: one already listed is renamed; a new one needs room
/// under the limit.
pub fn watchlist_accepts(already_listed: bool, item_count: i64) -> (r: Result<(), Error>)
    ensures
        r is Ok <==> already_listed || item_count < STOCK_WATCHLIST_LIMIT,
        r matches Err(e) ==> e is Invalid,
{
    if !already_listed && item_count >= 50 {
        return Err(invalid("stock watchlist cannot exceed 50 items"));
    }
    Ok(())
}


/// An item's symbol is its market and ticker, and its ticker fits the market.
pub open spec fn item_ok(i: StockWatchlistItem) -> bool {
    i.symbol@ == symbol_text(i.market, i.ticker@) && ticker_ok(i.market, i.ticker@)
}

/// What every item of the watchlist keeps: its symbol is its market and ticker, its
/// ticker fits the market, no symbol is listed twice, and there are at most fifty.
pub open spec fn watchlist_ok(items: Seq<StockWatchlistItem>) -> bool {
    &&& items.len() <= STOCK_WATCHLIST_LIMIT
    &&& forall|i: int|
        0 <= i < items.len() ==> (#[trigger] items[i]).symbol@ == symbol_text(items[i].market, items[i].ticker@)
            && ticker_ok(items[i].market, items[i].ticker@)
    &&& forall|i: int, j: int|
        0 <= i < j < items.len() ==> (#[trigger] items[i]).symbol@ != (#[trigger] items[j]).symbol@
}

fn copy_item(item: &StockWatchlistItem) -> (c: StockWatchlistItem)
    ensures
        c == *item,
{
    StockWatchlistItem {
        symbol: item.symbol.clone(),
        market: item.market,
        ticker: item.ticker.clone(),
        display_name: item.display_name.clone(),
        created_at: item.created_at.clone(),
        updated_at: item.updated_at.clone(),
    }
}

/// Adds a stock to the watchlist, or renames it where it is listed: the ticker is
/// normalized for its market and the name trimmed; a new stock needs room under the
/// limit. Gives back the item as written; a list that kept its invariant keeps it, and a
/// refused write leaves the list as it was.
pub fn upsert_watchlist(
    items: &mut Vec<StockWatchlistItem>,
    input: &UpsertStockWatchlistItemInput,
    now: &str,
) -> (r: Result<StockWatchlistItem, Error>)
    ensures
        watchlist_ok(old(items)@) ==> watchlist_ok(final(items)@),
        r is Err ==> final(items)@ == old(items)@,
        r is Ok <==> ticker_ok(input.market, upper_text(trimmed(input.ticker@)))
            && 0 < trimmed(input.display_name@).len() <= 80 && (old(items)@.len() < STOCK_WATCHLIST_LIMIT
            || exists|i: int|
            0 <= i < old(items)@.len() && (#[trigger] old(items)@[i]).symbol@ == symbol_text(
                input.market,
                upper_text(trimmed(input.ticker@)),
            )),
        r matches Ok(item) ==> {
            let symbol = symbol_text(input.market, upper_text(trimmed(input.ticker@)));
            &&& item.symbol@ == symbol
            &&& item.display_name@ == trimmed(input.display_name@)
            &&& item.updated_at@ == now@
            &&& exists|i: int| 0 <= i < final(items)@.len() && #[trigger] final(items)@[i] == item
            &&& forall|i: int|
                0 <= i < old(items)@.len() && (#[trigger] old(items)@[i]).symbol@ != symbol
                    ==> final(items)@.contains(old(items)@[i])
        },
        r matches Err(e) ==> e is Invalid,
{
    let ticker = normalize_ticker(input.market, input.ticker.as_str())?;
    let display_name = normalize_display_name(input.display_name.as_str())?;
    let symbol = watchlist_symbol(input.market, ticker.as_str());
    let ghost before = items@;
    let mut i: usize = 0;
    while i < items.len()
        invariant
            0 <= i <= items@.len(),
            items@ == before,
            before == old(items)@,
            ticker@ == upper_text(trimmed(input.ticker@)),
            ticker_ok(input.market, ticker@),
            symbol@ == symbol_text(input.market, ticker@),
            display_name@ == trimmed(input.display_name@),
            0 < trimmed(input.display_name@).len() <= 80,
            forall|k: int| 0 <= k < i ==> (#[trigger] before[k]).symbol@ != symbol@,
        decreases items@.len() - i,
    {
        if str_eq(items[i].symbol.as_str(), symbol.as_str()) {
            let listed = copy_item(&items[i]);
            let item = StockWatchlistItem {
                symbol: listed.symbol,
                market: listed.market,
                ticker: listed.ticker,
                display_name,
                created_at: listed.created_at,
                updated_at: now.to_owned(),
            };
            items.set(i, copy_item(&item));
            proof {
                assert forall|k: int| 0 <= k < items@.len() implies (#[trigger] items@[k]).symbol@ == before[k].symbol@
                    && items@[k].market == before[k].market && items@[k].ticker@ == before[k].ticker@ by {
                    if k != i {
                        assert(items@[k] == before[k]);
                    }
                }
                if watchlist_ok(before) {
                    assert forall|a: int, b: int| 0 <= a < b < items@.len() implies (#[trigger] items@[a]).symbol@
                        != (#[trigger] items@[b]).symbol@ by {
                        assert(before[a].symbol@ != before[b].symbol@);
                        assert(items@[a].symbol@ == before[a].symbol@);
                        assert(items@[b].symbol@ == before[b].symbol@);
                    }
                }
                assert forall|k: int|
                    0 <= k < before.len() && (#[trigger] before[k]).symbol@ != symbol@ implies items@.contains(
                    before[k]) by {
                    assert(items@[k] == before[k]);
                }
                assert(items@[i as int] == item);
                assert(before[i as int].symbol@ == symbol@);
            }
            return Ok(item);
        }
        i = i + 1;
    }
    if items.len() >= STOCK_WATCHLIST_LIMIT {
        return Err(invalid("stock watchlist cannot exceed 50 items"));
    }
    let item = StockWatchlistItem {
        symbol,
        market: input.market,
        ticker,
        display_name,
        created_at: now.to_owned(),
        updated_at: now.to_owned(),
    };
    items.push(copy_item(&item));
    proof {
        if watchlist_ok(before) {
            assert forall|a: int, b: int| 0 <= a < b < items@.len() implies (#[trigger] items@[a]).symbol@
                != (#[trigger] items@[b]).symbol@ by {
                if b < before.len() {
                    assert(before[a].symbol@ != before[b].symbol@);
                }
            }
        }
        assert forall|k: int|
            0 <= k < before.len() && (#[trigger] before[k]).symbol@ != symbol@ implies items@.contains(before[k]) by {
            assert(items@[k] == before[k]);
        }
        assert(items@[before.len() as int] == item);
    }
    Ok(item)
}

} // verus!
