use tm_core::calendar::CivilDate;
use tm_core::error::Error;
use tm_core::stock_results::{
    check_ai_report_replay, check_report_screen, check_screen_run_replay, magnitude_of,
    page_results, rank_items, screen_staleness, summarize_results, universe_age_days,
    validate_ai_completion, validate_ai_report_start, validate_listing, validate_screen_failure,
    ListStockScreenResultsInput, RunMarker, StockAiReportCompletion, StockAiReportStart,
    StoredScreenResult,
};
use tm_core::stock_screen::{
    StockScreenBand, StockScreenBandFilter, StockScreenDirection, StockScreenHorizon,
};

fn date(year: i32, month: u32, day: u32) -> CivilDate {
    CivilDate { year, month, day }
}

fn result(ticker: &str, five: Option<(i64, StockScreenBand)>, twenty_one: Option<(i64, StockScreenBand)>) -> StoredScreenResult {
    StoredScreenResult {
        run_id: "run".to_owned(),
        ticker: ticker.to_owned(),
        display_name: ticker.to_owned(),
        sector: None,
        current_date: date(2026, 7, 20),
        current_close_microusd: 100_000_000,
        baseline_5_date: five.map(|_| date(2026, 7, 13)),
        baseline_5_close_microusd: five.map(|_| 80_000_000),
        return_5_micros: five.map(|(m, _)| m),
        band_5: five.map(|(_, b)| b),
        baseline_21_date: twenty_one.map(|_| date(2026, 6, 19)),
        baseline_21_close_microusd: twenty_one.map(|_| 70_000_000),
        return_21_micros: twenty_one.map(|(m, _)| m),
        band_21: twenty_one.map(|(_, b)| b),
        universe_sha256: "u".to_owned(),
        market_data_sha256: "m".to_owned(),
    }
}

fn sample() -> Vec<StoredScreenResult> {
    vec![
        result("AAA", Some((150_000, StockScreenBand::Up10To20)), None),
        result("BBB", Some((-250_000, StockScreenBand::Down20Plus)), Some((300_000, StockScreenBand::Up20Plus))),
        result("CCC", Some((150_000, StockScreenBand::Up10To20)), None),
        result("DDD", None, Some((-120_000, StockScreenBand::Down10To20))),
    ]
}

fn listing(cursor: Option<&str>, limit: Option<u32>) -> ListStockScreenResultsInput {
    ListStockScreenResultsInput {
        run_id: "run".to_owned(),
        horizon: StockScreenHorizon::Five,
        direction: StockScreenDirection::Up,
        band: None,
        cursor: cursor.map(str::to_owned),
        limit,
    }
}

#[test]
fn magnitude_handles_the_most_negative_return() {
    assert_eq!(magnitude_of(-5), 5);
    assert_eq!(magnitude_of(7), 7);
    assert_eq!(magnitude_of(i64::MIN), 1u64 << 63);
}

#[test]
fn ranking_puts_larger_moves_first_then_ticker_then_horizon() {
    let mut items = Vec::new();
    for r in sample() {
        for horizon in [StockScreenHorizon::TwentyOne, StockScreenHorizon::Five] {
            if let Some(item) = r.for_horizon(horizon) {
                items.push(item);
            }
        }
    }
    let ranked = rank_items(items);
    let order: Vec<(String, u8)> = ranked.iter().map(|i| (i.ticker.clone(), i.horizon.sessions())).collect();
    assert_eq!(
        order,
        vec![
            ("BBB".to_owned(), 21),
            ("BBB".to_owned(), 5),
            ("AAA".to_owned(), 5),
            ("CCC".to_owned(), 5),
            ("DDD".to_owned(), 21),
        ]
    );
}

#[test]
fn listing_defaults_to_fifty_from_the_start() {
    assert_eq!(validate_listing(&listing(None, None)).unwrap(), (0, 50));
    assert_eq!(validate_listing(&listing(Some("7"), Some(10))).unwrap(), (7, 10));
    assert_eq!(
        validate_listing(&listing(None, Some(51))).unwrap_err(),
        Error::Invalid("stock screen result limit must be 1-50".to_owned())
    );
    assert_eq!(
        validate_listing(&listing(Some("x"), None)).unwrap_err(),
        Error::Invalid("stock screen result cursor is invalid".to_owned())
    );
    let mut blank = listing(None, None);
    blank.run_id = " ".to_owned();
    assert_eq!(
        validate_listing(&blank).unwrap_err(),
        Error::Invalid("stock screen run ID has an invalid format".to_owned())
    );
}

#[test]
fn pages_follow_the_ranking_and_carry_the_next_cursor() {
    let results = sample();
    let first = page_results(&results, StockScreenHorizon::Five, StockScreenDirection::Up, None, 0, 1).unwrap();
    assert_eq!(first.total, 2);
    assert_eq!(first.items.len(), 1);
    assert_eq!(first.items[0].ticker, "AAA");
    assert_eq!(first.next_cursor.as_deref(), Some("1"));
    let second = page_results(&results, StockScreenHorizon::Five, StockScreenDirection::Up, None, 1, 1).unwrap();
    assert_eq!(second.items[0].ticker, "CCC");
    assert_eq!(second.next_cursor, None);
    let past = page_results(&results, StockScreenHorizon::Five, StockScreenDirection::Up, None, 9, 5).unwrap();
    assert!(past.items.is_empty());
    assert_eq!(past.next_cursor, None);
}

#[test]
fn band_filters_select_the_band_width() {
    let results = sample();
    let wide = page_results(
        &results,
        StockScreenHorizon::TwentyOne,
        StockScreenDirection::Up,
        Some(StockScreenBandFilter::TwentyPlus),
        0,
        50,
    )
    .unwrap();
    assert_eq!(wide.total, 1);
    assert_eq!(wide.items[0].ticker, "BBB");
    let narrow = page_results(
        &results,
        StockScreenHorizon::TwentyOne,
        StockScreenDirection::Up,
        Some(StockScreenBandFilter::TenToTwenty),
        0,
        50,
    )
    .unwrap();
    assert_eq!(narrow.total, 0);
    let down = page_results(&results, StockScreenHorizon::TwentyOne, StockScreenDirection::Down, None, 0, 50).unwrap();
    assert_eq!(down.items[0].ticker, "DDD");
    assert_eq!(down.items[0].band, StockScreenBand::Down10To20);
}

#[test]
fn summaries_count_buckets_and_keep_the_three_largest_moves() {
    let (counts, top) = summarize_results(&sample());
    assert_eq!(counts.up_5_ten_to_twenty, 2);
    assert_eq!(counts.down_5_twenty_plus, 1);
    assert_eq!(counts.up_21_twenty_plus, 1);
    assert_eq!(counts.down_21_ten_to_twenty, 1);
    assert_eq!(counts.up_5_twenty_plus, 0);
    let tickers: Vec<&str> = top.iter().map(|i| i.ticker.as_str()).collect();
    assert_eq!(tickers, vec!["BBB", "AAA", "CCC"]);
    assert_eq!(top[0].horizon, StockScreenHorizon::TwentyOne);
}

#[test]
fn universe_age_is_whole_days_and_never_negative() {
    assert_eq!(universe_age_days(date(2026, 7, 21), date(2026, 7, 1)), 20);
    assert_eq!(universe_age_days(date(2026, 7, 1), date(2026, 7, 21)), 0);
}

#[test]
fn a_reused_run_id_must_repeat_its_input() {
    let snapshot = Some("s1".to_owned());
    assert!(check_screen_run_replay(date(2026, 7, 20), &snapshot, date(2026, 7, 20), &snapshot).is_ok());
    assert!(check_screen_run_replay(date(2026, 7, 20), &snapshot, date(2026, 7, 20), &None).is_ok());
    assert_eq!(
        check_screen_run_replay(date(2026, 7, 20), &None, date(2026, 7, 20), &snapshot).unwrap_err(),
        Error::Conflict("stock screen run ID was already used with different input".to_owned())
    );
    assert!(check_screen_run_replay(date(2026, 7, 17), &snapshot, date(2026, 7, 20), &snapshot).is_err());
}

#[test]
fn failures_name_a_known_status_and_a_trimmed_code() {
    assert_eq!(validate_screen_failure("failed", "  timeout ").unwrap(), "timeout");
    assert!(validate_screen_failure("upstream_unavailable", "http_503").is_ok());
    assert_eq!(
        validate_screen_failure("succeeded", "x").unwrap_err(),
        Error::Invalid("stock screen failure status is invalid".to_owned())
    );
    assert!(validate_screen_failure("failed", "   ").is_err());
}

#[test]
fn ai_reports_start_on_successful_nonempty_screens() {
    let start = validate_ai_report_start(&StockAiReportStart {
        id: " r1 ",
        screen_run_id: "run",
        prompt_version: "v1",
        model: "m",
    })
    .unwrap();
    assert_eq!(start.id, "r1");
    assert!(check_report_screen("succeeded", 3).is_ok());
    assert_eq!(
        check_report_screen("succeeded", 0).unwrap_err(),
        Error::Conflict("stock AI report requires a successful non-empty screen".to_owned())
    );
    assert!(check_report_screen("failed", 3).is_err());
    assert!(check_ai_report_replay("run", "v1", "m", &start).is_ok());
    assert_eq!(
        check_ai_report_replay("run", "v2", "m", &start).unwrap_err(),
        Error::Conflict("stock AI report ID was already used with different input".to_owned())
    );
}

#[test]
fn ai_completions_need_a_result_or_a_failure_code() {
    let mut completion = StockAiReportCompletion {
        status: "succeeded".to_owned(),
        response_id: None,
        upstream_request_id: None,
        result: Some("{}".to_owned()),
        input_tokens: None,
        cached_input_tokens: None,
        output_tokens: None,
        total_tokens: None,
        estimated_cost_microusd: 0,
        failure_code: None,
    };
    assert_eq!(validate_ai_completion(" r1", &completion).unwrap(), ("r1".to_owned(), None));
    completion.status = "ai_uncertain".to_owned();
    assert_eq!(
        validate_ai_completion("r1", &completion).unwrap_err(),
        Error::Invalid("unsuccessful stock AI report requires a failure code".to_owned())
    );
    completion.failure_code = Some(" low_confidence ".to_owned());
    assert_eq!(
        validate_ai_completion("r1", &completion).unwrap(),
        ("r1".to_owned(), Some("low_confidence".to_owned()))
    );
    completion.status = "done".to_owned();
    assert_eq!(
        validate_ai_completion("r1", &completion).unwrap_err(),
        Error::Invalid("stock AI report completion status is invalid".to_owned())
    );
}

#[test]
fn staleness_names_its_reason() {
    let success = Some(RunMarker { id: "a".to_owned(), market_date: date(2026, 7, 17), status: "succeeded".to_owned() });
    assert_eq!(screen_staleness(&None, &None, date(2026, 7, 17)), (true, Some("first_run_pending".to_owned())));
    assert_eq!(screen_staleness(&success, &success, date(2026, 7, 17)), (false, None));
    assert_eq!(
        screen_staleness(&success, &success, date(2026, 7, 20)),
        (true, Some("latest_success_before_expected_market_date".to_owned()))
    );
    let failed = Some(RunMarker { id: "b".to_owned(), market_date: date(2026, 7, 20), status: "failed".to_owned() });
    assert_eq!(
        screen_staleness(&success, &failed, date(2026, 7, 17)),
        (true, Some("latest_attempt_failed".to_owned()))
    );
}
