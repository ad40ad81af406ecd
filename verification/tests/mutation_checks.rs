use tm_core::error::Error;
use tm_core::mutation::{
    check_checklist_toggle, check_mutation_replay, check_project_target, require_change,
    require_version, validate_id, MutationOperation,
};
use tm_core::mutation::{
    hash_material, MutationApprovalPolicy, MutationCommand, MutationExpectedVersion, MutationRequest,
};

#[test]
fn ids_must_be_uuids() {
    assert!(validate_id("taskId", "0190c3c5-7b8a-7cc1-9d3e-3f2a1b0c4d5e").is_ok());
    assert_eq!(
        validate_id("taskId", "not-a-uuid").unwrap_err(),
        Error::Invalid("taskId must be a UUID".to_owned())
    );
    assert!(validate_id("taskId", "").is_err());
}

#[test]
fn versions_must_match_exactly() {
    assert!(require_version("task", 3, 3).is_ok());
    assert_eq!(
        require_version("task", 4, 3).unwrap_err(),
        Error::Conflict("task version conflict: expected 3, found 4".to_owned())
    );
}

#[test]
fn tasks_move_only_into_active_projects() {
    assert!(check_project_target(false, false).is_ok());
    assert_eq!(
        check_project_target(false, true).unwrap_err(),
        Error::Conflict("task project must be active before it can receive remote changes".to_owned())
    );
    assert!(check_project_target(true, false).is_err());
}

#[test]
fn updates_must_change_something() {
    assert!(require_change(true, "note").is_ok());
    assert_eq!(
        require_change(false, "note").unwrap_err(),
        Error::Invalid("note update must change at least one field".to_owned())
    );
}

#[test]
fn checklist_toggles_check_version_owner_and_change() {
    assert!(check_checklist_toggle(2, 2, false, false, true).is_ok());
    assert!(matches!(check_checklist_toggle(2, 1, false, false, true), Err(Error::Conflict(_))));
    assert_eq!(
        check_checklist_toggle(2, 2, true, false, true).unwrap_err(),
        Error::Conflict("checklist owner is in the trash; restore it before editing".to_owned())
    );
    assert!(matches!(check_checklist_toggle(2, 2, false, true, true), Err(Error::Invalid(_))));
}

#[test]
fn an_idempotency_key_replays_only_the_same_request() {
    assert!(check_mutation_replay("task.create", "abc", MutationOperation::TaskCreate, "abc").is_ok());
    assert_eq!(
        check_mutation_replay("task.create", "abc", MutationOperation::TaskCreate, "abd").unwrap_err(),
        Error::Conflict("idempotency key was already used for a different mutation".to_owned())
    );
    assert!(check_mutation_replay("note.create", "abc", MutationOperation::TaskCreate, "abc").is_err());
}

#[test]
fn uuid_texts_come_in_four_shapes() {
    assert!(validate_id("taskId", "0190c3c57b8a7cc19d3e3f2a1b0c4d5e").is_ok());
    assert!(validate_id("taskId", "{0190C3C5-7B8A-7CC1-9D3E-3F2A1B0C4D5E}").is_ok());
    assert!(validate_id("taskId", "URN:uuid:0190c3c5-7b8a-7cc1-9d3e-3f2a1b0c4d5e").is_ok());
    assert!(validate_id("taskId", "0190c3c5-7b8a-7cc1-9d3e-3f2a1b0c4d5g").is_err());
    assert!(validate_id("taskId", "0190c3c5-7b8a-7cc1-9d3e3-f2a1b0c4d5e").is_err());
    assert!(validate_id("taskId", "{0190c3c57b8a7cc19d3e3f2a1b0c4d5e}").is_err());
    assert!(validate_id("taskId", "").is_err());
}

fn toggle_request(request_id: &str, is_done: bool) -> MutationRequest {
    MutationRequest {
        idempotency_key: "key-1".to_owned(),
        expected_version: MutationExpectedVersion::Exact(3),
        actor: "assistant".to_owned(),
        request_id: request_id.to_owned(),
        approval_policy: MutationApprovalPolicy::ExplicitUserConfirmation,
        command: MutationCommand::ChecklistSetDone { item_id: "item-1".to_owned(), is_done },
    }
}

#[test]
fn the_request_digest_covers_all_but_the_request_id() {
    let first = hash_material(toggle_request("request-1", true));
    let retried = hash_material(toggle_request("request-2", true));
    let changed = hash_material(toggle_request("request-1", false));
    assert_eq!(first, retried);
    assert_ne!(first, changed);
    assert_eq!(first.actor, "assistant");
    assert_eq!(first.expected_version, MutationExpectedVersion::Exact(3));
    assert_eq!(first.approval_policy, MutationApprovalPolicy::ExplicitUserConfirmation);
}
