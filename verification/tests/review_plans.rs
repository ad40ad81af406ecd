use tm_core::allocation::{
    plan_review_resolution, ClassificationRulePlan, ExclusionReason, ReviewResolutionContext, ReviewedEventRow,
    SettlementTotals,
};
use tm_core::error::Error;
use tm_core::expense_commands::check_override;
use tm_core::expense_types::{
    ExpenseCategory, ExpenseEventKind, ExpenseEventStatus, OverrideExpenseTransactionInput,
    ResolveExpenseReviewInput,
};

fn context(direction: &str, review_version: u64, event_version: u64) -> ReviewResolutionContext {
    ReviewResolutionContext {
        current: Some(ReviewedEventRow {
            event_id: "event-1".to_owned(),
            review_status: "pending".to_owned(),
            version: review_version,
            event_version,
            amount_minor: 12_000,
            currency: "KRW".to_owned(),
            direction: Some(direction.to_owned()),
            source_id: Some("source-1".to_owned()),
            review_reason: "unknown_counterparty".to_owned(),
            merchant_blind_index: Some("merchant-1".to_owned()),
            payment_method_fingerprint: Some("card-1".to_owned()),
        }),
        duplicate_target: None,
        own_settlements: SettlementTotals { received: 0, sent: 0 },
        own_personal: None,
        related_target: None,
        related_settlements: SettlementTotals { received: 0, sent: 0 },
        related_personal: None,
    }
}

fn decision(kind: ExpenseEventKind, category: ExpenseCategory) -> ResolveExpenseReviewInput {
    ResolveExpenseReviewInput {
        expected_version: 1,
        kind,
        category,
        duplicate_of_event_id: None,
        related_event_id: None,
        personal_amount_minor: None,
        create_rule: false,
    }
}

#[test]
fn resolving_a_review_applies_the_decision_to_the_event() {
    let plan = plan_review_resolution(
        "review-1",
        &context("debit", 1, 4),
        &decision(ExpenseEventKind::Purchase, ExpenseCategory::Food),
        false,
    )
    .unwrap();
    assert_eq!(plan.event_id, "event-1");
    assert_eq!(plan.event_kind, ExpenseEventKind::Purchase);
    assert_eq!(plan.event_category, ExpenseCategory::Food);
    assert_eq!(plan.event_version, 5);
    assert_eq!(plan.review_version, 2);
    assert_eq!(plan.event_status, ExpenseEventStatus::Confirmed);
    assert_eq!(plan.exclusion_reason, None);
}

#[test]
fn a_card_payment_decision_excludes_the_event() {
    let plan = plan_review_resolution(
        "review-1",
        &context("debit", 1, 1),
        &decision(ExpenseEventKind::CardPayment, ExpenseCategory::Food),
        true,
    )
    .unwrap();
    assert_eq!(plan.event_status, ExpenseEventStatus::Excluded);
    assert_eq!(plan.exclusion_reason, Some(ExclusionReason::CardPayment));
    assert_eq!(plan.event_version, 2);
}

#[test]
fn a_stale_review_version_is_a_conflict() {
    let r = plan_review_resolution(
        "review-1",
        &context("debit", 2, 1),
        &decision(ExpenseEventKind::Purchase, ExpenseCategory::Food),
        false,
    );
    assert!(matches!(r, Err(Error::Conflict(_))));
}

#[test]
fn an_exhausted_version_is_refused() {
    let r = plan_review_resolution(
        "review-1",
        &context("debit", 1, u64::MAX),
        &decision(ExpenseEventKind::Purchase, ExpenseCategory::Food),
        true,
    );
    assert_eq!(r, Err(Error::Invariant("expense review version overflowed".to_owned())));
}

fn override_input(expected_version: u64) -> OverrideExpenseTransactionInput {
    OverrideExpenseTransactionInput {
        expected_version,
        kind: ExpenseEventKind::Purchase,
        category: ExpenseCategory::Cafe,
        duplicate_of_event_id: None,
        related_event_id: None,
        personal_amount_minor: None,
        clear_personal_amount: false,
        clear_related_event: false,
        create_rule: true,
    }
}

#[test]
fn an_override_keeps_the_split_and_resolves_with_the_new_kind() {
    let kinds = vec!["personal".to_owned()];
    let (keep, review) = check_override("event-1", 3, true, &kinds, false, &override_input(3)).unwrap();
    assert!(keep);
    assert_eq!(review.expected_version, 1);
    assert_eq!(review.kind, ExpenseEventKind::Purchase);
    assert_eq!(review.category, ExpenseCategory::Cafe);
    assert!(review.create_rule);
}

#[test]
fn an_override_at_a_stale_version_is_a_conflict() {
    let r = check_override("event-1", 4, true, &Vec::new(), false, &override_input(3));
    assert!(matches!(r, Err(Error::Conflict(_))));
}

#[test]
fn a_decision_can_ask_for_a_classification_rule() {
    let mut input = decision(ExpenseEventKind::Purchase, ExpenseCategory::Cafe);
    input.create_rule = true;
    let plan = plan_review_resolution("review-1", &context("debit", 1, 1), &input, false).unwrap();
    assert_eq!(
        plan.rule,
        Some(ClassificationRulePlan {
            merchant_blind_index: "merchant-1".to_owned(),
            payment_method_fingerprint: Some("card-1".to_owned()),
            event_kind: ExpenseEventKind::Purchase,
            category: ExpenseCategory::Cafe,
        })
    );
    let without = plan_review_resolution(
        "review-1",
        &context("debit", 1, 1),
        &decision(ExpenseEventKind::Purchase, ExpenseCategory::Cafe),
        false,
    )
    .unwrap();
    assert_eq!(without.rule, None);
}

#[test]
fn a_rule_needs_a_merchant_blind_index() {
    let mut ctx = context("debit", 1, 1);
    if let Some(c) = ctx.current.as_mut() {
        c.merchant_blind_index = None;
    }
    let mut input = decision(ExpenseEventKind::Purchase, ExpenseCategory::Cafe);
    input.create_rule = true;
    assert_eq!(
        plan_review_resolution("review-1", &ctx, &input, false),
        Err(Error::Invalid("a classification rule requires an encrypted merchant blind index".to_owned()))
    );
}
