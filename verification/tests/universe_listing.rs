use tm_core::calendar::CivilDate;
use tm_core::error::Error;
use tm_core::stock_screen::{StockUniverseMemberInput, StoreStockUniverseInput};
use tm_core::universe_listing::{members_by_ticker, universe_members_listed};

fn member(ticker: &str) -> StockUniverseMemberInput {
    StockUniverseMemberInput {
        ticker: ticker.to_owned(),
        display_name: format!("{ticker} Inc."),
        sector: None,
        sub_industry: None,
    }
}

#[test]
fn members_are_listed_by_ticker() {
    let listed = members_by_ticker(vec![member("MSFT"), member("AAPL"), member("BRK.B"), member("A")]);
    let tickers: Vec<&str> = listed.iter().map(|m| m.ticker.as_str()).collect();
    assert_eq!(tickers, vec!["A", "AAPL", "BRK.B", "MSFT"]);
    assert!(members_by_ticker(Vec::new()).is_empty());
}

fn universe(members: Vec<StockUniverseMemberInput>) -> StoreStockUniverseInput {
    StoreStockUniverseInput {
        name: "S&P 500".to_owned(),
        effective_date: CivilDate { year: 2026, month: 4, day: 1 },
        source_url: "https://example.com/universe.csv".to_owned(),
        source_revision: "2026-04".to_owned(),
        source_sha256: "a".repeat(64),
        license_name: "Example license".to_owned(),
        license_url: "https://example.com/license".to_owned(),
        attribution_text: "Data from example.com".to_owned(),
        members,
    }
}

#[test]
fn a_stored_universe_lists_its_members_normalized_and_by_ticker() {
    let input = universe(vec![
        StockUniverseMemberInput {
            ticker: " msft ".to_owned(),
            display_name: " Microsoft ".to_owned(),
            sector: Some(" Technology ".to_owned()),
            sub_industry: None,
        },
        member("aapl"),
    ]);
    let listed = universe_members_listed(&input).unwrap();
    assert_eq!(listed.len(), 2);
    assert_eq!(listed[0].ticker, "AAPL");
    assert_eq!(listed[0].display_name, "aapl Inc.");
    assert_eq!(listed[1].ticker, "MSFT");
    assert_eq!(listed[1].display_name, "Microsoft");
    assert_eq!(listed[1].sector, Some("Technology".to_owned()));
}

#[test]
fn a_universe_listing_a_ticker_twice_is_refused() {
    let input = universe(vec![member("AAPL"), member(" aapl")]);
    assert_eq!(
        universe_members_listed(&input).unwrap_err(),
        Error::Invalid("stock universe contains duplicate ticker: AAPL".to_owned())
    );
}
