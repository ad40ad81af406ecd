use tm_core::calendar::CivilDate;
use tm_core::error::Error;
use tm_core::expense_types::{ExpenseDirection, ExpenseEventKind, NormalizedExpenseRow};
use tm_core::import::{partition_import_rows, preview_counts, PreviewCounts};
use tm_core::ledger_rules::{preview_with_items, redacted_preview};

fn row(stable_key: &str, digest: &str, kind: ExpenseEventKind) -> NormalizedExpenseRow {
    NormalizedExpenseRow {
        stable_key: stable_key.to_owned(),
        row_sha256: digest.to_owned(),
        source_row_number: 1,
        occurred_at: "2026-07-01T09:00:00+09:00".to_owned(),
        posted_date: CivilDate { year: 2026, month: 7, day: 1 },
        direction: ExpenseDirection::Debit,
        amount_minor: 1_000,
        currency: "KRW".to_owned(),
        kind,
        category_hint: None,
        merchant: None,
        counterparty: None,
        memo: None,
        payment_method_fingerprint: None,
        external_reference_fingerprint: None,
    }
}

#[test]
fn preview_counts_new_repeated_and_settlement_rows() {
    let rows = vec![
        row("a", "1", ExpenseEventKind::Purchase),
        row("b", "2", ExpenseEventKind::UnknownP2p),
        row("c", "3", ExpenseEventKind::SettlementReceived),
        row("d", "4", ExpenseEventKind::Purchase),
        row("e", "5", ExpenseEventKind::Purchase),
    ];
    let stored = vec![None, None, None, Some("4".to_owned()), None];
    let posted = vec![false, false, false, false, true];
    let counts = preview_counts(&rows, &stored, &posted).unwrap();
    assert_eq!(counts.new_count, 3);
    assert_eq!(counts.duplicate_count, 2);
    assert_eq!(counts.settlement_candidate_count, 2);
    assert_eq!(counts.unconfirmed_count, 1);
}

#[test]
fn a_stable_key_stored_with_other_content_is_named() {
    let rows = vec![row("a", "1", ExpenseEventKind::Purchase), row("b", "2", ExpenseEventKind::Purchase)];
    let stored = vec![None, Some("9".to_owned())];
    assert_eq!(
        preview_counts(&rows, &stored, &vec![false, false]).unwrap_err(),
        Error::Conflict("expense stable row key was replayed with different content: b".to_owned())
    );
    assert_eq!(
        partition_import_rows(&rows, &stored).unwrap_err(),
        Error::Conflict("expense stable row key was replayed with different content: b".to_owned())
    );
}

#[test]
fn partitioning_keeps_new_rows_in_order() {
    let rows = vec![
        row("a", "1", ExpenseEventKind::Purchase),
        row("b", "2", ExpenseEventKind::Purchase),
        row("c", "3", ExpenseEventKind::Purchase),
    ];
    let partition = partition_import_rows(&rows, &vec![None, Some("2".to_owned()), None]).unwrap();
    assert_eq!(partition.new_rows, vec![0, 2]);
    assert_eq!(partition.duplicate_count, 1);
}

#[test]
fn importing_the_same_rows_again_adds_none() {
    let rows = vec![
        row("a", "1", ExpenseEventKind::Purchase),
        row("b", "2", ExpenseEventKind::Refund),
        row("c", "3", ExpenseEventKind::Fee),
    ];
    let first = partition_import_rows(&rows, &vec![None, Some("2".to_owned()), None]).unwrap();
    assert_eq!(first.new_rows, vec![0, 2]);
    let mut stored: Vec<Option<String>> = vec![None, Some("2".to_owned()), None];
    for &i in &first.new_rows {
        stored[i] = Some(rows[i].row_sha256.clone());
    }
    let second = partition_import_rows(&rows, &stored).unwrap();
    assert!(second.new_rows.is_empty());
    assert_eq!(second.duplicate_count, 3);
}

#[test]
fn a_redacted_preview_shows_counts_and_no_rows() {
    let counts = PreviewCounts {
        new_count: 3,
        duplicate_count: 2,
        settlement_candidate_count: 1,
        unconfirmed_count: 1,
    };
    let preview = redacted_preview("session-1".to_owned(), "2026-07-01T10:00:00Z".to_owned(), counts, 4);
    assert_eq!(preview.session_id, "session-1");
    assert_eq!(preview.expires_at, "2026-07-01T10:00:00Z");
    assert!(preview.items.is_empty());
    assert_eq!(
        (preview.new_count, preview.duplicate_count, preview.settlement_candidate_count),
        (3, 2, 1)
    );
    assert_eq!((preview.unconfirmed_count, preview.rejected_count), (1, 4));
}

#[test]
fn a_full_preview_shows_at_most_a_hundred_rows() {
    let counts = PreviewCounts {
        new_count: 150,
        duplicate_count: 0,
        settlement_candidate_count: 0,
        unconfirmed_count: 0,
    };
    let rows: Vec<NormalizedExpenseRow> = (0..150)
        .map(|i| row(&format!("k{i}"), &format!("{i}"), ExpenseEventKind::Purchase))
        .collect();
    let redacted = redacted_preview("s".to_owned(), "e".to_owned(), counts, 0);
    let full = preview_with_items(redacted, &rows);
    assert_eq!(full.items.len(), 100);
    assert_eq!(full.items[0].stable_key, "k0");
    assert_eq!(full.items[99].stable_key, "k99");
    assert_eq!(full.new_count, 150);
    let few = preview_with_items(redacted_preview("s".to_owned(), "e".to_owned(), counts, 0), &rows[..2].to_vec());
    assert_eq!(few.items.len(), 2);
}
