use serde_json::Value;
use sha2::{Digest, Sha256};
use tm_core::calendar::CivilDate;
use tm_core::expense_types::{
    EncryptedExpenseText, ExpenseCategory, ExpenseDirection, ExpenseEventKind,
    ExpenseImportAdapter, ExpenseSourceKind, NormalizedExpenseImport, NormalizedExpenseRow,
};
use tm_core::import_digest::preview_of_import;
use tm_core::preview_json::{import_content_sha256, preview_content_sha256, preview_row_json};

fn date(day: u32) -> CivilDate {
    CivilDate { year: 2026, month: 7, day }
}

fn row(stable_key: &str, number: u32, category: Option<ExpenseCategory>) -> NormalizedExpenseRow {
    NormalizedExpenseRow {
        stable_key: stable_key.to_owned(),
        row_sha256: format!("{number:064}"),
        source_row_number: number,
        occurred_at: "2026-07-01T09:00:00+09:00".to_owned(),
        posted_date: date(number),
        direction: ExpenseDirection::Debit,
        amount_minor: -1_000 * i64::from(number),
        currency: "KRW".to_owned(),
        kind: ExpenseEventKind::Purchase,
        category_hint: category,
        merchant: Some(EncryptedExpenseText {
            key_version: 1,
            nonce: "n".to_owned(),
            ciphertext: "c".to_owned(),
            aad: "a".to_owned(),
            blind_index: format!("merchant \"{number}\""),
        }),
        counterparty: None,
        memo: None,
        payment_method_fingerprint: Some("card".to_owned()),
        external_reference_fingerprint: None,
    }
}

fn import(rows: Vec<NormalizedExpenseRow>) -> NormalizedExpenseImport {
    NormalizedExpenseImport {
        adapter: ExpenseImportAdapter::KbCardUsageV1,
        source_kind: ExpenseSourceKind::Card,
        source_fingerprint: "source".to_owned(),
        file_sha256: "file".to_owned(),
        normalized_sha256: "normalized".to_owned(),
        coverage_start: date(1),
        coverage_end: date(31),
        rejected_count: 2,
        rows,
    }
}

fn text(s: &str) -> Value {
    Value::String(s.to_owned())
}

fn expected_row(r: &NormalizedExpenseRow) -> Value {
    let mut m = serde_json::Map::new();
    m.insert("stableKey".to_owned(), text(&r.stable_key));
    m.insert("rowSha256".to_owned(), text(&r.row_sha256));
    m.insert("sourceRowNumber".to_owned(), Value::from(r.source_row_number));
    m.insert("occurredAt".to_owned(), text(&r.occurred_at));
    m.insert("postedDate".to_owned(), text(&format!("2026-07-{:02}", r.posted_date.day)));
    m.insert("direction".to_owned(), text("debit"));
    m.insert("amountMinor".to_owned(), Value::from(r.amount_minor));
    m.insert("currency".to_owned(), text(&r.currency));
    m.insert("kind".to_owned(), text("purchase"));
    m.insert(
        "categoryHint".to_owned(),
        r.category_hint.map_or(Value::Null, |c| text(c.as_str())),
    );
    m.insert(
        "merchantBlindIndex".to_owned(),
        r.merchant.as_ref().map_or(Value::Null, |t| text(&t.blind_index)),
    );
    m.insert(
        "paymentMethodFingerprint".to_owned(),
        r.payment_method_fingerprint.as_deref().map_or(Value::Null, text),
    );
    m.insert("externalReferenceFingerprint".to_owned(), Value::Null);
    Value::Object(m)
}

fn expected_digest(input: &NormalizedExpenseImport, sorted: &[&NormalizedExpenseRow]) -> String {
    let mut m = serde_json::Map::new();
    m.insert("adapter".to_owned(), text("kb_card_usage_v1"));
    m.insert("sourceKind".to_owned(), text("card"));
    m.insert("sourceFingerprint".to_owned(), text(&input.source_fingerprint));
    m.insert("fileSha256".to_owned(), text(&input.file_sha256));
    m.insert("coverageStart".to_owned(), text("2026-07-01"));
    m.insert("coverageEnd".to_owned(), text("2026-07-31"));
    m.insert("rejectedCount".to_owned(), Value::from(input.rejected_count));
    m.insert(
        "rows".to_owned(),
        Value::Array(sorted.iter().map(|r| expected_row(r)).collect()),
    );
    let bytes = serde_json::to_vec(&Value::Object(m)).unwrap();
    format!("{:x}", Sha256::digest(bytes))
}

#[test]
fn the_preview_digest_is_that_of_the_canonical_json_document() {
    let a = row("b-key", 2, Some(ExpenseCategory::Food));
    let b = row("a-key", 1, None);
    let input = import(vec![a.clone(), b.clone()]);
    let expected = expected_digest(&input, &[&b, &a]);
    assert_eq!(preview_content_sha256(&preview_of_import(&input)).unwrap(), expected);
    assert_eq!(import_content_sha256(&input).unwrap(), expected);
}

#[test]
fn the_preview_digest_ignores_row_order() {
    let a = row("b-key", 2, Some(ExpenseCategory::Cafe));
    let b = row("a-key", 1, None);
    let forward = import(vec![a.clone(), b.clone()]);
    let backward = import(vec![b, a]);
    assert_eq!(import_content_sha256(&forward), import_content_sha256(&backward));
}

#[test]
fn the_preview_digest_changes_with_the_content() {
    let mut changed = row("a-key", 1, None);
    let original = import(vec![changed.clone()]);
    changed.amount_minor += 1;
    let other = import(vec![changed]);
    assert_ne!(import_content_sha256(&original), import_content_sha256(&other));
}

#[test]
fn a_preview_row_is_written_as_a_json_object() {
    let r = row("a-key", 1, None);
    let preview = preview_of_import(&import(vec![r.clone()]));
    let written = preview_row_json(&preview.rows[0]);
    assert_eq!(serde_json::from_str::<Value>(&written).unwrap(), expected_row(&r));
}
