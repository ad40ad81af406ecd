use tm_core::calendar::CivilDate;
use tm_core::memory::{
    memory_content_hash, rollup_action, rollup_periods, rollup_title, summary_expires_at,
    summary_key, MemoryKind, MemoryPeriodKind, MemoryRetention, MemorySensitivity, RollupAction,
};

fn date(year: i32, month: u32, day: u32) -> CivilDate {
    CivilDate { year, month, day }
}

#[test]
fn summaries_are_keyed_by_kind_and_first_day() {
    assert_eq!(summary_key(MemoryPeriodKind::Daily, date(2026, 7, 21)), "daily:2026-07-21");
    assert_eq!(summary_key(MemoryPeriodKind::Monthly, date(2026, 7, 1)), "monthly:2026-07-01");
}

#[test]
fn summary_titles_name_the_period() {
    assert_eq!(
        rollup_title(MemoryPeriodKind::Weekly, date(2026, 7, 20), date(2026, 7, 26)),
        "weekly memory summary: 2026-07-20 to 2026-07-26"
    );
}

#[test]
fn a_day_rolls_up_into_its_monday_week_and_its_month() {
    // 2026-07-23 is a Thursday.
    let periods = rollup_periods(date(2026, 7, 23)).unwrap();
    assert_eq!(periods.day, date(2026, 7, 23));
    assert_eq!(periods.week_start, date(2026, 7, 20));
    assert_eq!(periods.week_end, date(2026, 7, 26));
    assert_eq!(periods.month_start, date(2026, 7, 1));
    assert_eq!(periods.month_end, date(2026, 7, 31));
    let february = rollup_periods(date(2024, 2, 10)).unwrap();
    assert_eq!(february.month_end, date(2024, 2, 29));
}

#[test]
fn summary_expiry_is_midnight_utc() {
    assert_eq!(
        summary_expires_at(MemoryPeriodKind::Daily, date(2026, 7, 21)).unwrap(),
        "2026-10-19T00:00:00.000Z"
    );
    assert_eq!(
        summary_expires_at(MemoryPeriodKind::Weekly, date(2026, 7, 26)).unwrap(),
        "2027-07-26T00:00:00.000Z"
    );
}

#[test]
fn regeneration_only_rewrites_what_changed() {
    assert_eq!(rollup_action(false, &Some(("a".to_owned(), false)), "a"), RollupAction::Remove);
    assert_eq!(rollup_action(true, &None, "a"), RollupAction::Create);
    assert_eq!(rollup_action(true, &Some(("a".to_owned(), false)), "a"), RollupAction::Keep);
    assert_eq!(rollup_action(true, &Some(("a".to_owned(), false)), "b"), RollupAction::Rewrite);
    assert_eq!(rollup_action(true, &Some(("a".to_owned(), true)), "a"), RollupAction::Rewrite);
}

#[test]
fn content_hashes_follow_the_content() {
    let one = memory_content_hash(
        MemoryKind::Preference,
        "title",
        "body",
        MemorySensitivity::Normal,
        true,
        MemoryRetention::UntilDeleted,
    );
    let same = memory_content_hash(
        MemoryKind::Preference,
        "title",
        "body",
        MemorySensitivity::Normal,
        true,
        MemoryRetention::UntilDeleted,
    );
    let other = memory_content_hash(
        MemoryKind::Preference,
        "title",
        "body!",
        MemorySensitivity::Normal,
        true,
        MemoryRetention::UntilDeleted,
    );
    assert_eq!(one, same);
    assert_ne!(one, other);
    assert_eq!(one.len(), 64);
}

#[test]
fn content_hashes_name_retentions_as_serde_does() {
    let mut document = serde_json::Map::new();
    document.insert("kind".to_owned(), serde_json::Value::from("summary"));
    document.insert("title".to_owned(), serde_json::Value::from("Daily summary"));
    document.insert("body".to_owned(), serde_json::Value::from("line \"one\""));
    document.insert("sensitivity".to_owned(), serde_json::Value::from("private"));
    document.insert("openaiAllowed".to_owned(), serde_json::Value::from(false));
    document.insert("retention".to_owned(), serde_json::Value::from("daily90d"));
    let expected = format!(
        "{:x}",
        <sha2::Sha256 as sha2::Digest>::digest(serde_json::Value::Object(document).to_string().as_bytes())
    );
    let hash = memory_content_hash(
        MemoryKind::Summary,
        "Daily summary",
        "line \"one\"",
        MemorySensitivity::Private,
        false,
        MemoryRetention::Daily90d,
    );
    assert_eq!(hash, expected);
}
