use tm_core::calendar::CivilDate;
use tm_core::error::Error;
use tm_core::expense_types::{
    ExpenseCryptoProbe, ExpenseDirection, ExpenseEventKind, NormalizedExpenseRow,
};
use tm_core::ledger_rules::{
    check_expense_receipt, initialize_probe, plan_probe_initialization, preview_items, preview_session_times,
    ProbePlan, PREVIEW_ITEM_LIMIT, PREVIEW_RETENTION_MILLIS, PREVIEW_SESSION_MILLIS,
};

fn probe(nonce: &str) -> ExpenseCryptoProbe {
    ExpenseCryptoProbe {
        key_version: 1,
        nonce: format!("{nonce}-nonce-0123456789"),
        ciphertext: "ciphertext-0123456789".to_owned(),
        aad: "tm-expense:v1:crypto-probe:value".to_owned(),
    }
}

#[test]
fn the_same_probe_initializes_once_and_then_stands() {
    assert_eq!(plan_probe_initialization(&None, false, &probe("n1")), Ok(ProbePlan::Insert));
    assert_eq!(
        plan_probe_initialization(&Some(probe("n1")), true, &probe("n1")),
        Ok(ProbePlan::AlreadyInitialized)
    );
}

#[test]
fn a_probe_must_meet_the_probe_rules() {
    let mut bad = probe("n1");
    bad.aad = "other".to_owned();
    assert_eq!(
        plan_probe_initialization(&None, false, &bad),
        Err(Error::Invalid(
            "expense crypto probe AAD must be tm-expense:v1:crypto-probe:value".to_owned()
        ))
    );
    let mut short = probe("n1");
    short.key_version = 0;
    assert!(matches!(plan_probe_initialization(&None, false, &short), Err(Error::Invalid(_))));
}

#[test]
fn a_different_probe_is_refused() {
    assert_eq!(
        plan_probe_initialization(&Some(probe("n1")), false, &probe("n2")),
        Err(Error::Conflict("expense encryption probe is already initialized".to_owned()))
    );
}

#[test]
fn a_probe_cannot_be_added_to_a_ledger_with_state() {
    assert_eq!(
        plan_probe_initialization(&None, true, &probe("n1")),
        Err(Error::Conflict(
            "expense encryption probe cannot be initialized after expense ledger state exists"
                .to_owned()
        ))
    );
}

#[test]
fn an_expense_receipt_replays_only_its_own_request() {
    assert_eq!(check_expense_receipt(&None, "override", "sha-1"), Ok(false));
    let stored = Some(("override".to_owned(), "sha-1".to_owned()));
    assert_eq!(check_expense_receipt(&stored, "override", "sha-1"), Ok(true));
    let refused =
        Error::Conflict("expense idempotency key was already used for another mutation".to_owned());
    assert_eq!(check_expense_receipt(&stored, "override", "sha-2"), Err(refused.clone()));
    assert_eq!(check_expense_receipt(&stored, "resolve_review", "sha-1"), Err(refused));
}

fn row(number: u32) -> NormalizedExpenseRow {
    NormalizedExpenseRow {
        stable_key: format!("row-{number}"),
        row_sha256: format!("{number:064}"),
        source_row_number: number,
        occurred_at: "2026-07-01T09:00:00+09:00".to_owned(),
        posted_date: CivilDate { year: 2026, month: 7, day: 1 },
        direction: ExpenseDirection::Debit,
        amount_minor: 1_000,
        currency: "KRW".to_owned(),
        kind: ExpenseEventKind::Purchase,
        category_hint: None,
        merchant: None,
        counterparty: None,
        memo: None,
        payment_method_fingerprint: None,
        external_reference_fingerprint: None,
    }
}

#[test]
fn a_preview_shows_at_most_the_first_hundred_rows() {
    let rows: Vec<NormalizedExpenseRow> = (1..=150).map(row).collect();
    let shown = preview_items(&rows);
    assert_eq!(PREVIEW_ITEM_LIMIT, 100);
    assert_eq!(shown.len(), 100);
    assert_eq!(shown[0], rows[0]);
    assert_eq!(shown[99], rows[99]);
    let few: Vec<NormalizedExpenseRow> = (1..=3).map(row).collect();
    assert_eq!(preview_items(&few), few);
    assert!(preview_items(&Vec::new()).is_empty());
}

#[test]
fn a_preview_session_expires_after_ten_minutes() {
    assert_eq!(PREVIEW_SESSION_MILLIS, 10 * 60 * 1000);
    assert_eq!(PREVIEW_RETENTION_MILLIS, 24 * 60 * 60 * 1000);
    let now = 1_780_000_000_000;
    assert_eq!(preview_session_times(now), Some((now + 600_000, now - 86_400_000)));
    assert_eq!(preview_session_times(i64::MAX), None);
    assert_eq!(preview_session_times(i64::MIN), None);
}

#[test]
fn a_stored_probe_stands_against_every_later_initialization() {
    let mut stored: Option<ExpenseCryptoProbe> = None;
    assert_eq!(initialize_probe(&mut stored, false, probe("n1")), Ok(probe("n1")));
    assert_eq!(stored, Some(probe("n1")));
    assert_eq!(initialize_probe(&mut stored, true, probe("n1")), Ok(probe("n1")));
    assert_eq!(
        initialize_probe(&mut stored, false, probe("n2")),
        Err(Error::Conflict("expense encryption probe is already initialized".to_owned()))
    );
    assert_eq!(stored, Some(probe("n1")));
}
