use tm_core::calendar::CivilDate;
use tm_core::expense_types::{
    EncryptedExpenseText, ExpenseDirection, ExpenseEventKind, ExpenseImportAdapter,
    ExpenseSourceKind, NormalizedExpenseImport, NormalizedExpenseRow,
};
use tm_core::error::Error;
use tm_core::expense_types::ExpenseImportResult;
use tm_core::import::{new_import_result, replayed_import_result, RowPartition, StoredBatch};
use tm_core::import_digest::{canonical_preview, canonical_preview_rows, preview_of_import, preview_row_of};

fn date(day: u32) -> CivilDate {
    CivilDate { year: 2026, month: 7, day }
}

fn text(blind_index: &str) -> EncryptedExpenseText {
    EncryptedExpenseText {
        key_version: 1,
        nonce: "n".to_owned(),
        ciphertext: "c".to_owned(),
        aad: "a".to_owned(),
        blind_index: blind_index.to_owned(),
    }
}

fn row(stable_key: &str, number: u32) -> NormalizedExpenseRow {
    NormalizedExpenseRow {
        stable_key: stable_key.to_owned(),
        row_sha256: format!("{number:064}"),
        source_row_number: number,
        occurred_at: "2026-07-01T09:00:00+09:00".to_owned(),
        posted_date: date(1),
        direction: ExpenseDirection::Debit,
        amount_minor: 1_000 * i64::from(number),
        currency: "KRW".to_owned(),
        kind: ExpenseEventKind::Purchase,
        category_hint: None,
        merchant: Some(text(&format!("merchant-{number}"))),
        counterparty: Some(text("counterparty")),
        memo: None,
        payment_method_fingerprint: Some("card".to_owned()),
        external_reference_fingerprint: None,
    }
}

fn import(rows: Vec<NormalizedExpenseRow>) -> NormalizedExpenseImport {
    NormalizedExpenseImport {
        adapter: ExpenseImportAdapter::KbCardUsageV1,
        source_kind: ExpenseSourceKind::Card,
        source_fingerprint: "source".to_owned(),
        file_sha256: "file".to_owned(),
        normalized_sha256: "normalized".to_owned(),
        coverage_start: date(1),
        coverage_end: date(31),
        rejected_count: 2,
        rows,
    }
}

#[test]
fn a_preview_row_keeps_the_merchant_blind_index_only() {
    let preview = preview_row_of(&row("k1", 1));
    assert_eq!(preview.stable_key, "k1");
    assert_eq!(preview.merchant_blind_index.as_deref(), Some("merchant-1"));
    assert_eq!(preview.amount_minor, 1_000);
    let mut bare = row("k2", 2);
    bare.merchant = None;
    assert_eq!(preview_row_of(&bare).merchant_blind_index, None);
}

#[test]
fn an_import_previews_as_its_fields_and_rows_in_order() {
    let preview = preview_of_import(&import(vec![row("b", 1), row("a", 2)]));
    assert_eq!(preview.source_fingerprint, "source");
    assert_eq!(preview.rejected_count, 2);
    let keys: Vec<&str> = preview.rows.iter().map(|r| r.stable_key.as_str()).collect();
    assert_eq!(keys, vec!["b", "a"]);
}

#[test]
fn canonical_rows_follow_the_stable_key_and_keep_ties_in_order() {
    let preview = preview_of_import(&import(vec![row("b", 1), row("a", 2), row("b", 3), row("ab", 4)]));
    let rows = canonical_preview_rows(preview.rows);
    let order: Vec<(String, u32)> = rows.iter().map(|r| (r.stable_key.clone(), r.source_row_number)).collect();
    assert_eq!(
        order,
        vec![
            ("a".to_owned(), 2),
            ("ab".to_owned(), 4),
            ("b".to_owned(), 1),
            ("b".to_owned(), 3),
        ]
    );
}

#[test]
fn the_canonical_preview_ignores_the_order_rows_came_in() {
    let forward = canonical_preview(preview_of_import(&import(vec![row("x", 1), row("y", 2), row("z", 3)])));
    let shuffled = canonical_preview(preview_of_import(&import(vec![row("z", 3), row("x", 1), row("y", 2)])));
    assert_eq!(forward, shuffled);
}

#[test]
fn a_replayed_file_reports_the_stored_batch() {
    let input = import(vec![row("a", 1)]);
    let stored = StoredBatch { normalized_sha256: "normalized".to_owned() };
    let result = replayed_import_result(
        &input,
        &stored,
        "batch-1".to_owned(),
        "source-1".to_owned(),
        (5, 3, 1, 1),
        2,
        1,
    )
    .unwrap();
    assert_eq!(
        result,
        ExpenseImportResult {
            batch_id: "batch-1".to_owned(),
            source_id: "source-1".to_owned(),
            row_count: 5,
            new_count: 3,
            duplicate_count: 1,
            rejected_count: 1,
            excluded_count: 2,
            review_count: 1,
            idempotent_replay: true,
        }
    );
}

#[test]
fn a_replayed_file_with_other_content_is_a_conflict() {
    let input = import(vec![row("a", 1)]);
    let stored = StoredBatch { normalized_sha256: "other".to_owned() };
    assert_eq!(
        replayed_import_result(&input, &stored, "b".to_owned(), "s".to_owned(), (1, 1, 0, 0), 0, 0)
            .unwrap_err(),
        Error::Conflict(
            "expense file fingerprint was replayed with different normalized content".to_owned()
        )
    );
}

#[test]
fn a_new_import_reports_its_new_and_repeated_rows() {
    let input = import(vec![row("a", 1), row("b", 2), row("c", 3)]);
    let partition = RowPartition { new_rows: vec![0, 2], duplicate_count: 1 };
    let result = new_import_result(&input, "batch-2".to_owned(), "source-1".to_owned(), 5, &partition, 1, 0);
    assert_eq!(
        result,
        ExpenseImportResult {
            batch_id: "batch-2".to_owned(),
            source_id: "source-1".to_owned(),
            row_count: 5,
            new_count: 2,
            duplicate_count: 1,
            rejected_count: 2,
            excluded_count: 1,
            review_count: 0,
            idempotent_replay: false,
        }
    );
}
