use chrono::TimeZone;
use tm_core::calendar::CivilDate;
use tm_core::error::Error;
use tm_core::nyse::latest_expected_nyse_date;
use tm_core::stock_screen::{calculate_band, coverage_passes, StockScreenBand};

fn utc_millis(year: i32, month: u32, day: u32, hour: u32, minute: u32) -> i64 {
    chrono::Utc
        .with_ymd_and_hms(year, month, day, hour, minute, 0)
        .single()
        .expect("valid test time")
        .timestamp_millis()
}

fn date(year: i32, month: u32, day: u32) -> CivilDate {
    CivilDate { year, month, day }
}

#[test]
fn exact_integer_boundaries_are_classified_without_float_error() -> Result<(), Error> {
    assert_eq!(
        calculate_band(Some(110), Some(100))?,
        Some((100_000, StockScreenBand::Up10To20))
    );
    assert_eq!(
        calculate_band(Some(120), Some(100))?,
        Some((200_000, StockScreenBand::Up20Plus))
    );
    assert_eq!(
        calculate_band(Some(90), Some(100))?,
        Some((-100_000, StockScreenBand::Down10To20))
    );
    assert_eq!(
        calculate_band(Some(80), Some(100))?,
        Some((-200_000, StockScreenBand::Down20Plus))
    );
    assert_eq!(calculate_band(Some(109), Some(100))?, None);
    assert_eq!(calculate_band(Some(91), Some(100))?, None);
    Ok(())
}

#[test]
fn coverage_threshold_is_exact() {
    assert!(coverage_passes(980, 1000));
    assert!(!coverage_passes(979, 1000));
    assert!(coverage_passes(493, 503));
    assert!(!coverage_passes(492, 503));
}

#[test]
fn expected_nyse_date_respects_dst_close_weekends_and_observed_holidays() -> Result<(), Error> {
    assert_eq!(latest_expected_nyse_date(utc_millis(2026, 7, 6, 20, 14))?, date(2026, 7, 2));
    assert_eq!(latest_expected_nyse_date(utc_millis(2026, 7, 6, 20, 16))?, date(2026, 7, 6));
    assert_eq!(latest_expected_nyse_date(utc_millis(2026, 1, 5, 21, 14))?, date(2026, 1, 2));
    assert_eq!(latest_expected_nyse_date(utc_millis(2026, 1, 5, 21, 16))?, date(2026, 1, 5));
    Ok(())
}

#[test]
fn expected_nyse_date_skips_good_friday_and_thanksgiving() -> Result<(), Error> {
    assert_eq!(latest_expected_nyse_date(utc_millis(2026, 4, 3, 22, 0))?, date(2026, 4, 2));
    assert_eq!(latest_expected_nyse_date(utc_millis(2026, 11, 26, 23, 0))?, date(2026, 11, 25));
    Ok(())
}

#[test]
fn saturday_new_year_does_not_close_the_preceding_friday() -> Result<(), Error> {
    assert_eq!(latest_expected_nyse_date(utc_millis(2027, 12, 31, 21, 16))?, date(2027, 12, 31));
    Ok(())
}

#[test]
fn bands_need_both_closes_and_positive_prices() -> Result<(), Error> {
    assert_eq!(calculate_band(None, Some(100))?, None);
    assert_eq!(calculate_band(Some(100), None)?, None);
    assert!(calculate_band(Some(0), Some(100)).is_err());
    assert!(calculate_band(Some(100), Some(0)).is_err());
    Ok(())
}

#[test]
fn coverage_of_an_empty_universe_never_passes() {
    assert!(!coverage_passes(0, 0));
    assert!(coverage_passes(1, 1));
}

#[test]
fn the_session_search_crosses_the_year_end_holidays() -> Result<(), Error> {
    // 2025-01-01 (Wednesday) is New Year's Day; 2024-12-25 (Wednesday) was Christmas.
    assert_eq!(latest_expected_nyse_date(utc_millis(2025, 1, 1, 22, 0))?, date(2024, 12, 31));
    assert_eq!(latest_expected_nyse_date(utc_millis(2024, 12, 26, 14, 0))?, date(2024, 12, 24));
    assert!(tm_core::nyse::is_nyse_trading_day(date(2026, 4, 3)).map(|open| !open)?);
    assert!(tm_core::nyse::is_nyse_trading_day(date(2026, 4, 6))?);
    Ok(())
}
