use tm_core::calendar::CivilDate;
use tm_core::error::Error;
use tm_core::stock_screen::{check_screen_run, screen_status, ScreenCoverageCounts, ScreenFailure, ScreenOutcome,
    ScreenResultRow, StockScreenBand,
};

fn date(year: i32, month: u32, day: u32) -> CivilDate {
    CivilDate { year, month, day }
}

fn check(status: &str, batch: bool, started: Option<&str>, effective: CivilDate) -> Result<(), Error> {
    check_screen_run(
        "run-1",
        status,
        batch,
        "abc123",
        &started.map(|s| s.to_owned()),
        "snapshot-1",
        effective,
        date(2026, 4, 10),
    )
}

#[test]
fn a_started_run_with_its_data_may_complete() {
    assert_eq!(check("started", true, Some("snapshot-1"), date(2026, 4, 10)), Ok(()));
    assert_eq!(check("started", true, None, date(2026, 1, 1)), Ok(()));
}

#[test]
fn a_run_that_is_no_longer_started_is_a_conflict() {
    assert_eq!(
        check("succeeded", true, Some("snapshot-1"), date(2026, 4, 1)),
        Err(Error::Conflict("stock screen run run-1 was not in started state".to_owned()))
    );
}

#[test]
fn a_missing_market_data_batch_is_not_found() {
    assert_eq!(
        check("started", false, None, date(2026, 4, 1)),
        Err(Error::NotFound {
            entity: "stock market data batch".to_owned(),
            id: "abc123".to_owned()
        })
    );
}

#[test]
fn a_changed_universe_is_a_conflict() {
    assert_eq!(
        check("started", true, Some("snapshot-0"), date(2026, 4, 1)),
        Err(Error::Conflict("stock screen universe changed after the run started".to_owned()))
    );
}

#[test]
fn a_universe_effective_after_the_market_date_is_invalid() {
    assert_eq!(
        check("started", true, Some("snapshot-1"), date(2026, 4, 11)),
        Err(Error::Invalid(
            "stock universe effective date is later than the market date".to_owned()
        ))
    );
}

#[test]
fn screen_status_names_the_outcome() {
    let counts = ScreenCoverageCounts {
        total: 1,
        current_covered: 1,
        baseline_5_covered: 1,
        baseline_21_covered: 1,
    };
    let failed = ScreenOutcome::Failed { failure: ScreenFailure::InsufficientMarketSessions, counts };
    assert_eq!(screen_status(&failed), "coverage_failed");
    let empty = ScreenOutcome::Completed { counts, results: Vec::new() };
    assert_eq!(screen_status(&empty), "no_candidates");
    let row = ScreenResultRow {
        member: 0,
        current_close: 120,
        baseline_5_close: Some(100),
        return_5_micros: Some(200_000),
        band_5: Some(StockScreenBand::Up20Plus),
        baseline_21_close: None,
        return_21_micros: None,
        band_21: None,
    };
    let found = ScreenOutcome::Completed { counts, results: vec![row] };
    assert_eq!(screen_status(&found), "succeeded");
}
