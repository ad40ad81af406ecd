use tm_core::error::Error;
use tm_core::mail::{count_mail_accounts, MailClassification, MailTriageDecision};
use tm_core::mail_states::{
    check_mail_receipt, complete_triage_batch, consume_oauth_state, fail_triage_batch,
    MailReceipt, OAuthStateRecord, TriageBatchStatus,
};
use tm_core::mail_states::{
    apply_triage_decision, apply_triage_decisions, complete_triage_batch_with_items, TriageItemState,
};
use tm_core::mail::{mail_ops_counts, mail_ops_report, validate_mail_receipt_input};
use tm_core::mail_states::{acknowledge_with_receipt, ai_candidates, CandidateRow, MailAckState};

fn decision(reason: &str) -> MailTriageDecision {
    MailTriageDecision {
        item_id: "item-1".to_owned(),
        expected_version: 1,
        importance_score: 82,
        confidence: 91,
        classification: MailClassification::Important,
        reason_code: reason.to_owned(),
        action_ciphertext: None,
    }
}

#[test]
fn an_oauth_state_is_consumed_once() {
    let fresh = OAuthStateRecord { expires_at_millis: 10_000, consumed_at_millis: None };
    let used = consume_oauth_state(Some(fresh), 5_000).unwrap();
    assert_eq!(used.consumed_at_millis, Some(5_000));
    assert_eq!(
        consume_oauth_state(Some(used), 6_000).unwrap_err(),
        Error::Conflict("mail OAuth state is invalid, expired, or already used".to_owned())
    );
}

#[test]
fn an_expired_or_unknown_oauth_state_is_refused() {
    let expired = OAuthStateRecord { expires_at_millis: 10_000, consumed_at_millis: None };
    assert!(consume_oauth_state(Some(expired), 10_000).is_err());
    assert!(consume_oauth_state(None, 0).is_err());
}

#[test]
fn a_claimed_triage_batch_completes_exactly_once() {
    let decisions = vec![decision("action_required")];
    let status = complete_triage_batch("batch-1", Some(TriageBatchStatus::Claimed), 1, &decisions).unwrap();
    assert_eq!(status, TriageBatchStatus::Succeeded);
    assert!(matches!(
        complete_triage_batch("batch-1", Some(status), 1, &decisions),
        Err(Error::NotFound { .. })
    ));
}

#[test]
fn triage_responses_must_match_their_batch() {
    assert_eq!(
        complete_triage_batch("batch-1", Some(TriageBatchStatus::Claimed), 2, &vec![decision("x")]).unwrap_err(),
        Error::Invariant("mail triage response count does not match its batch".to_owned())
    );
    assert_eq!(
        complete_triage_batch("batch-1", Some(TriageBatchStatus::Claimed), 1, &vec![decision("")]).unwrap_err(),
        Error::Invalid("mail triage decision is invalid".to_owned())
    );
}

#[test]
fn a_failed_batch_cannot_fail_or_complete_again() {
    let status = fail_triage_batch(Some(TriageBatchStatus::Claimed), "openai_failed").unwrap();
    assert_eq!(status, TriageBatchStatus::Failed);
    assert_eq!(
        fail_triage_batch(Some(status), "openai_failed").unwrap_err(),
        Error::Conflict("mail triage batch was already completed".to_owned())
    );
    assert!(complete_triage_batch("batch-1", Some(status), 1, &vec![decision("x")]).is_err());
    assert_eq!(
        fail_triage_batch(Some(TriageBatchStatus::Claimed), "").unwrap_err(),
        Error::Invalid("mail triage failure code is invalid".to_owned())
    );
}

#[test]
fn a_receipt_replays_only_its_own_request() {
    let saved = Some(MailReceipt { operation: "mail_acknowledge".to_owned(), request_sha256: "e".repeat(64) });
    assert!(!check_mail_receipt(&None, "mail_acknowledge", &"e".repeat(64)).unwrap());
    assert!(check_mail_receipt(&saved, "mail_acknowledge", &"e".repeat(64)).unwrap());
    assert_eq!(
        check_mail_receipt(&saved, "mail_feedback", &"e".repeat(64)).unwrap_err(),
        Error::Conflict("mail idempotency key was reused with different data".to_owned())
    );
}

fn pending_item(id: &str, version: u64, sensitive: bool) -> TriageItemState {
    TriageItemState {
        id: id.to_owned(),
        version,
        classification: MailClassification::Review,
        importance_score: 0,
        confidence: 0,
        decision_source: "rule".to_owned(),
        decision_reason: "ai_candidate".to_owned(),
        action_ciphertext: None,
        sensitive,
    }
}

#[test]
fn completing_a_batch_classifies_each_item_and_bumps_its_version() {
    let mut items = vec![pending_item("item-1", 1, false)];
    let mut with_action = decision("action_required");
    with_action.action_ciphertext = Some("sealed".to_owned());
    let applied = apply_triage_decisions(&mut items, &vec![with_action]);
    assert_eq!(applied, 1);
    assert_eq!(items[0].classification, MailClassification::Important);
    assert_eq!(items[0].version, 2);
    assert_eq!(items[0].importance_score, 82);
    assert_eq!(items[0].confidence, 91);
    assert_eq!(items[0].decision_source, "ai");
    assert_eq!(items[0].decision_reason, "action_required");
    assert_eq!(items[0].action_ciphertext, Some("sealed".to_owned()));
}

#[test]
fn a_stale_or_sensitive_item_is_left_unchanged() {
    let mut items = vec![pending_item("item-1", 2, false), pending_item("item-1", 1, true)];
    let before = items.clone();
    let applied =
        apply_triage_decisions(&mut items, &vec![decision("action_required"), decision("x")]);
    assert_eq!(applied, 0);
    assert_eq!(items, before);
    let mut item = pending_item("item-1", 1, false);
    assert!(apply_triage_decision(&mut item, &decision("first")));
    assert!(!apply_triage_decision(&mut item, &decision("second")));
    assert_eq!(item.decision_reason, "first");
    assert_eq!(item.version, 2);
}

#[test]
fn mail_account_counts_leave_out_disabled_accounts() {
    let statuses: Vec<String> = ["connected", "disabled", "reconnect_required", "syncing", "connected"]
        .iter()
        .map(|s| (*s).to_owned())
        .collect();
    assert_eq!(count_mail_accounts(&statuses), (4, 2, 1));
    assert_eq!(count_mail_accounts(&Vec::new()), (0, 0, 0));
}

#[test]
fn claimed_triage_item_completes_exactly_once() {
    let mut items = vec![pending_item("item-1", 1, false)];
    let decisions = vec![decision("action_required")];
    let (status, applied) = complete_triage_batch_with_items(
        "batch-1",
        Some(TriageBatchStatus::Claimed),
        1,
        &decisions,
        &mut items,
    )
    .unwrap();
    assert_eq!((status, applied), (TriageBatchStatus::Succeeded, 1));
    assert_eq!(items[0].classification, MailClassification::Important);
    assert_eq!(items[0].version, 2);
    let after_first = items.clone();
    let again = complete_triage_batch_with_items("batch-1", Some(status), 1, &decisions, &mut items);
    assert!(matches!(again, Err(Error::NotFound { .. })));
    assert_eq!(items, after_first);
}

#[test]
fn a_refused_completion_leaves_every_item_unchanged() {
    let mut items = vec![pending_item("item-1", 1, false)];
    let before = items.clone();
    let refused = complete_triage_batch_with_items(
        "batch-1",
        Some(TriageBatchStatus::Claimed),
        2,
        &vec![decision("action_required")],
        &mut items,
    );
    assert_eq!(
        refused.unwrap_err(),
        Error::Invariant("mail triage response count does not match its batch".to_owned())
    );
    assert_eq!(items, before);
}

#[test]
fn mail_ops_counts_take_account_counts_from_statuses() {
    let statuses: Vec<String> = ["connected", "disabled", "reconnect_required", "connected", "syncing"]
        .iter()
        .map(|s| s.to_string())
        .collect();
    let counts = mail_ops_counts(&statuses, 3, 4, 5, 6, 7, 8);
    assert_eq!(counts.account_count, 4);
    assert_eq!(counts.connected, 2);
    assert_eq!(counts.reconnect_required, 1);
    assert_eq!(
        (counts.unacknowledged_important, counts.review, counts.queue_depth),
        (3, 4, 5)
    );
    assert_eq!((counts.retry, counts.dead_letter, counts.triage_claimed), (6, 7, 8));
}

#[test]
fn failed_triage_binding_prevents_automatic_rebilling() {
    let mut rows = vec![CandidateRow { item: pending_item("item-1", 1, false), ready: true, ever_bound: false }];
    assert_eq!(ai_candidates(&rows, 10).unwrap().len(), 1);
    let status = TriageBatchStatus::Claimed;
    rows[0].ever_bound = true;
    assert!(ai_candidates(&rows, 10).unwrap().is_empty());
    let failed = fail_triage_batch(Some(status), "openai_failed").unwrap();
    assert_eq!(failed, TriageBatchStatus::Failed);
    assert!(ai_candidates(&rows, 10).unwrap().is_empty());
}

#[test]
fn ai_candidates_are_limited_to_ten_and_keep_their_order() {
    let mut rows: Vec<CandidateRow> = (0..12)
        .map(|n| CandidateRow { item: pending_item(&format!("item-{n}"), 1, false), ready: true, ever_bound: false })
        .collect();
    rows[1].item.sensitive = true;
    rows[2].ready = false;
    rows[3].item.decision_reason = "newsletter".to_owned();
    assert_eq!(ai_candidates(&rows, 3).unwrap(), vec![0, 4, 5]);
    assert_eq!(ai_candidates(&rows, 10).unwrap().len(), 9);
    assert_eq!(
        ai_candidates(&rows, 11).unwrap_err(),
        Error::Invalid("mail AI candidate limit must be between 1 and 10".to_owned())
    );
    assert!(ai_candidates(&rows, 0).is_err());
}

#[test]
fn mail_item_mutation_and_receipt_replay_are_atomic() {
    let request_sha = "e".repeat(64);
    validate_mail_receipt_input("desktop-mail:test-ack", &request_sha).unwrap();
    let mut item = MailAckState { version: 1, acknowledged_at: None };
    let first = acknowledge_with_receipt(&mut item, &None, 1, &request_sha, "2026-07-01T09:00:00.000Z").unwrap();
    assert!(!first);
    let after_first = item.clone();
    let receipt = Some(MailReceipt { operation: "mail_acknowledge".to_owned(), request_sha256: request_sha.clone() });
    let replay = acknowledge_with_receipt(&mut item, &receipt, 1, &request_sha, "2026-07-01T09:05:00.000Z").unwrap();
    assert!(replay);
    assert_eq!(after_first.version, 2);
    assert_eq!(item.version, 2);
    assert_eq!(after_first.acknowledged_at, item.acknowledged_at);
    assert_eq!(item.acknowledged_at, Some("2026-07-01T09:00:00.000Z".to_owned()));
}

#[test]
fn an_acknowledgement_at_a_stale_version_changes_nothing() {
    let mut item = MailAckState { version: 3, acknowledged_at: None };
    assert_eq!(
        acknowledge_with_receipt(&mut item, &None, 2, &"e".repeat(64), "t").unwrap_err(),
        Error::Conflict("mail item version changed".to_owned())
    );
    assert_eq!(item, MailAckState { version: 3, acknowledged_at: None });
}

#[test]
fn oauth_state_is_single_use_and_expiry_is_enforced() {
    let now: i64 = 1_780_000_000_000;
    let minute: i64 = 60_000;
    let fresh = OAuthStateRecord { expires_at_millis: now + 10 * minute, consumed_at_millis: None };
    let used = consume_oauth_state(Some(fresh), now).unwrap();
    assert!(consume_oauth_state(Some(used), now).is_err());
    let expired = OAuthStateRecord { expires_at_millis: now - minute, consumed_at_millis: None };
    assert!(consume_oauth_state(Some(expired), now).is_err());
}

#[test]
fn the_mail_report_counts_accounts_from_their_statuses() {
    let statuses: Vec<String> = ["connected", "disabled", "reconnect_required", "connected"]
        .iter()
        .map(|s| s.to_string())
        .collect();
    let report = mail_ops_report(&statuses, -4, 2, 3, 0, 1, 1, None, Some("timeout".to_owned()), Vec::new(), None);
    assert_eq!(report.account_count, 3);
    assert_eq!(report.connected_count, 2);
    assert_eq!(report.reconnect_required_count, 1);
    assert_eq!(report.unacknowledged_important_count, 0);
    assert_eq!((report.review_count, report.queue_depth, report.dead_letter_count), (2, 3, 1));
    assert_eq!(report.triage_claimed_count, 1);
    assert_eq!(report.last_error_code, Some("timeout".to_owned()));
    assert_eq!(report.latest_triage_status, None);
}
