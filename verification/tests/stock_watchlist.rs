use tm_core::error::Error;
use tm_core::stock_watchlist::{upsert_watchlist, StockMarket, StockWatchlistItem, UpsertStockWatchlistItemInput};
use tm_core::watchlist_order::watchlist_listing;

fn input(market: StockMarket, ticker: &str, name: &str) -> UpsertStockWatchlistItemInput {
    UpsertStockWatchlistItemInput { market, ticker: ticker.to_owned(), display_name: name.to_owned() }
}

#[test]
fn a_new_stock_is_added_under_its_normalized_symbol() {
    let mut items: Vec<StockWatchlistItem> = Vec::new();
    let item = upsert_watchlist(&mut items, &input(StockMarket::Nasdaq, " aapl ", " Apple "), "t1").unwrap();
    assert_eq!(item.symbol, "NASDAQ:AAPL");
    assert_eq!(item.ticker, "AAPL");
    assert_eq!(item.display_name, "Apple");
    assert_eq!((item.created_at.as_str(), item.updated_at.as_str()), ("t1", "t1"));
    assert_eq!(items, vec![item]);
}

#[test]
fn a_listed_stock_is_renamed_in_place() {
    let mut items: Vec<StockWatchlistItem> = Vec::new();
    upsert_watchlist(&mut items, &input(StockMarket::Krx, "005930", "Samsung"), "t1").unwrap();
    upsert_watchlist(&mut items, &input(StockMarket::Nyse, "brk.b", "Berkshire"), "t2").unwrap();
    let renamed =
        upsert_watchlist(&mut items, &input(StockMarket::Krx, "005930", "Samsung Electronics"), "t3").unwrap();
    assert_eq!(items.len(), 2);
    assert_eq!(renamed.symbol, "KRX:005930");
    assert_eq!(renamed.display_name, "Samsung Electronics");
    assert_eq!((renamed.created_at.as_str(), renamed.updated_at.as_str()), ("t1", "t3"));
    assert_eq!(items[0], renamed);
    assert_eq!(items[1].symbol, "NYSE:BRK.B");
}

#[test]
fn the_watchlist_holds_at_most_fifty_stocks() {
    let mut items: Vec<StockWatchlistItem> = Vec::new();
    for n in 0..50 {
        upsert_watchlist(&mut items, &input(StockMarket::Krx, &format!("{n:06}"), "stock"), "t").unwrap();
    }
    let before = items.clone();
    assert_eq!(
        upsert_watchlist(&mut items, &input(StockMarket::Krx, "999999", "one more"), "t").unwrap_err(),
        Error::Invalid("stock watchlist cannot exceed 50 items".to_owned())
    );
    assert_eq!(items, before);
    assert!(upsert_watchlist(&mut items, &input(StockMarket::Krx, "000007", "renamed"), "t").is_ok());
    assert_eq!(items.len(), 50);
}

#[test]
fn a_ticker_unfit_for_its_market_is_refused() {
    let mut items: Vec<StockWatchlistItem> = Vec::new();
    assert!(upsert_watchlist(&mut items, &input(StockMarket::Krx, "AAPL", "Apple"), "t").is_err());
    assert!(upsert_watchlist(&mut items, &input(StockMarket::Nasdaq, "", "Nothing"), "t").is_err());
    assert_eq!(
        upsert_watchlist(&mut items, &input(StockMarket::Nasdaq, "AAPL", "  "), "t").unwrap_err(),
        Error::Invalid("stock display name cannot be empty".to_owned())
    );
    assert!(items.is_empty());
}

#[test]
fn the_watchlist_is_listed_by_creation_time_then_symbol() {
    let mut items: Vec<StockWatchlistItem> = Vec::new();
    upsert_watchlist(&mut items, &input(StockMarket::Nyse, "IBM", "IBM"), "2026-07-02T00:00:00.000Z").unwrap();
    upsert_watchlist(&mut items, &input(StockMarket::Nasdaq, "MSFT", "Microsoft"), "2026-07-01T00:00:00.000Z").unwrap();
    upsert_watchlist(&mut items, &input(StockMarket::Nasdaq, "AAPL", "Apple"), "2026-07-01T00:00:00.000Z").unwrap();
    let listed = watchlist_listing(items);
    let symbols: Vec<&str> = listed.iter().map(|i| i.symbol.as_str()).collect();
    assert_eq!(symbols, vec!["NASDAQ:AAPL", "NASDAQ:MSFT", "NYSE:IBM"]);
}
