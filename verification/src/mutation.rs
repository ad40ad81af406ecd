use vstd::prelude::*;
use vstd::string::*;
use vstd::utf8::encode_utf8;

use crate::error::{broken_value, conflict_on, invalid, invalid_field, Error};
use crate::memory::{CreateMemoryInput, MemoryPatch};
use crate::model::{CreateNoteInput, CreateTaskInput, Note, NotePatch, Task, TaskPatch, TaskStatus};
use crate::text::{chars_of, is_alnum_byte, str_eq, trim, trim_chars, trimmed, u64_to_decimal, decimal, opt_view, same_text};

verus! {

/// Longest task or note title, in characters.
pub const MAX_TITLE_CHARS: usize = 500;

/// Longest task description, in characters.
pub const MAX_TASK_DESCRIPTION_CHARS: usize = 20_000;

/// Longest note body, in characters.
pub const MAX_NOTE_BODY_CHARS: usize = 50_000;

/// The version a mutation expects its target to have: none yet, or an exact one.
#[derive(Debug, Clone, Copy, PartialEq, Eq, Structural)]
pub enum MutationExpectedVersion {
    Absent,
    Exact(u64),
}

impl MutationExpectedVersion {
    /// The text written to the audit log for this expectation.
    pub open spec fn audit_text(self) -> Seq<char> {
        match self {
            MutationExpectedVersion::Absent => "absent"@,
            MutationExpectedVersion::Exact(v) => decimal(v as nat),
        }
    }

    /// `absent`, or the expected version in decimal.
    pub fn audit_value(self) -> (s: String)
        ensures
            s@ == self.audit_text(),
    {
        match self {
            MutationExpectedVersion::Absent => "absent".to_owned(),
            MutationExpectedVersion::Exact(version) => u64_to_decimal(version),
        }
    }
}

/// How a remote mutation was approved.
#[derive(Debug, Clone, Copy, PartialEq, Eq, Structural)]
pub enum MutationApprovalPolicy {
    ExplicitUserConfirmation,
    AiActionApproval,
}

impl MutationApprovalPolicy {
    /// The stored name of the value.
    pub open spec fn name(self) -> Seq<char> {
        match self {
            MutationApprovalPolicy::ExplicitUserConfirmation => "explicit_user_confirmation"@,
            MutationApprovalPolicy::AiActionApproval => "ai_action_approval"@,
        }
    }

    /// The stored name of the value.
    pub fn as_str(self) -> (s: &'static str)
        ensures
            s@ == self.name(),
    {
        match self {
            MutationApprovalPolicy::ExplicitUserConfirmation => "explicit_user_confirmation",
            MutationApprovalPolicy::AiActionApproval => "ai_action_approval",
        }
    }

}

/// The operations a remote mutation can perform.
#[derive(Debug, Clone, Copy, PartialEq, Eq, Structural)]
pub enum MutationOperation {
    TaskCreate,
    TaskUpdate,
    NoteCreate,
    NoteUpdate,
    ChecklistSetDone,
    MemoryCreate,
    MemoryUpdate,
    MemoryDelete,
}

impl MutationOperation {
    /// The stored name of the value.
    pub open spec fn name(self) -> Seq<char> {
        match self {
            MutationOperation::TaskCreate => "task.create"@,
            MutationOperation::TaskUpdate => "task.update"@,
            MutationOperation::NoteCreate => "note.create"@,
            MutationOperation::NoteUpdate => "note.update"@,
            MutationOperation::ChecklistSetDone => "checklist.set_done"@,
            MutationOperation::MemoryCreate => "memory.create"@,
            MutationOperation::MemoryUpdate => "memory.update"@,
            MutationOperation::MemoryDelete => "memory.delete"@,
        }
    }

    /// The stored name of the value.
    pub fn as_str(self) -> (s: &'static str)
        ensures
            s@ == self.name(),
    {
        match self {
            MutationOperation::TaskCreate => "task.create",
            MutationOperation::TaskUpdate => "task.update",
            MutationOperation::NoteCreate => "note.create",
            MutationOperation::NoteUpdate => "note.update",
            MutationOperation::ChecklistSetDone => "checklist.set_done",
            MutationOperation::MemoryCreate => "memory.create",
            MutationOperation::MemoryUpdate => "memory.update",
            MutationOperation::MemoryDelete => "memory.delete",
        }
    }

    /// Parses a stored name; every other text is refused.
    pub fn parse(value: &str) -> (r: Result<MutationOperation, Error>)
        ensures
            match r {
                Ok(v) => v.name() == value@,
                Err(e) => e is Invariant && forall|v: MutationOperation| v.name() != value@,
            },
    {
        if str_eq(value, "task.create") {
            Ok(MutationOperation::TaskCreate)
        } else if str_eq(value, "task.update") {
            Ok(MutationOperation::TaskUpdate)
        } else if str_eq(value, "note.create") {
            Ok(MutationOperation::NoteCreate)
        } else if str_eq(value, "note.update") {
            Ok(MutationOperation::NoteUpdate)
        } else if str_eq(value, "checklist.set_done") {
            Ok(MutationOperation::ChecklistSetDone)
        } else if str_eq(value, "memory.create") {
            Ok(MutationOperation::MemoryCreate)
        } else if str_eq(value, "memory.update") {
            Ok(MutationOperation::MemoryUpdate)
        } else if str_eq(value, "memory.delete") {
            Ok(MutationOperation::MemoryDelete)
        } else {
            Err(broken_value("unknown mutation operation: ", value))
        }
    }

    /// Distinct values have distinct names.
    pub proof fn lemma_names_distinct()
        ensures
            forall|a: Self, b: Self| a.name() == b.name() ==> a == b,
    {
        reveal_strlit("task.create");
        reveal_strlit("task.update");
        reveal_strlit("note.create");
        reveal_strlit("note.update");
        reveal_strlit("checklist.set_done");
        reveal_strlit("memory.create");
        reveal_strlit("memory.update");
        reveal_strlit("memory.delete");
        assert forall|a: Self, b: Self| a.name() == b.name() implies a == b by {
            if a != b {
                let (x, y) = (a.name(), b.name());
                if x.len() == y.len() {
                    assert(exists|i: int| 0 <= i < x.len() && x[i] != y[i]) by {
                        match (a, b) {
                            (MutationOperation::TaskCreate, MutationOperation::TaskUpdate) => assert(x[5] != y[5]),
                            (MutationOperation::TaskCreate, MutationOperation::NoteCreate) => assert(x[0] != y[0]),
                            (MutationOperation::TaskCreate, MutationOperation::NoteUpdate) => assert(x[0] != y[0]),
                            (MutationOperation::TaskUpdate, MutationOperation::TaskCreate) => assert(x[5] != y[5]),
                            (MutationOperation::TaskUpdate, MutationOperation::NoteCreate) => assert(x[0] != y[0]),
                            (MutationOperation::TaskUpdate, MutationOperation::NoteUpdate) => assert(x[0] != y[0]),
                            (MutationOperation::NoteCreate, MutationOperation::TaskCreate) => assert(x[0] != y[0]),
                            (MutationOperation::NoteCreate, MutationOperation::TaskUpdate) => assert(x[0] != y[0]),
                            (MutationOperation::NoteCreate, MutationOperation::NoteUpdate) => assert(x[5] != y[5]),
                            (MutationOperation::NoteUpdate, MutationOperation::TaskCreate) => assert(x[0] != y[0]),
                            (MutationOperation::NoteUpdate, MutationOperation::TaskUpdate) => assert(x[0] != y[0]),
                            (MutationOperation::NoteUpdate, MutationOperation::NoteCreate) => assert(x[5] != y[5]),
                            (MutationOperation::MemoryCreate, MutationOperation::MemoryUpdate) => assert(x[7] != y[7]),
                            (MutationOperation::MemoryCreate, MutationOperation::MemoryDelete) => assert(x[7] != y[7]),
                            (MutationOperation::MemoryUpdate, MutationOperation::MemoryCreate) => assert(x[7] != y[7]),
                            (MutationOperation::MemoryUpdate, MutationOperation::MemoryDelete) => assert(x[7] != y[7]),
                            (MutationOperation::MemoryDelete, MutationOperation::MemoryCreate) => assert(x[7] != y[7]),
                            (MutationOperation::MemoryDelete, MutationOperation::MemoryUpdate) => assert(x[7] != y[7]),
                            _ => {},
                        }
                    }
                }
            }
        }
    }

}

impl MutationOperation {
    /// The kind of resource an operation acts on.
    pub open spec fn resource_name(self) -> Seq<char> {
        match self {
            MutationOperation::TaskCreate | MutationOperation::TaskUpdate => "task"@,
            MutationOperation::NoteCreate | MutationOperation::NoteUpdate => "note"@,
            MutationOperation::ChecklistSetDone => "checklist"@,
            MutationOperation::MemoryCreate | MutationOperation::MemoryUpdate
            | MutationOperation::MemoryDelete => "memory"@,
        }
    }

    /// The kind of resource an operation acts on.
    pub fn resource_type(self) -> (s: &'static str)
        ensures
            s@ == self.resource_name(),
    {
        match self {
            MutationOperation::TaskCreate | MutationOperation::TaskUpdate => "task",
            MutationOperation::NoteCreate | MutationOperation::NoteUpdate => "note",
            MutationOperation::ChecklistSetDone => "checklist",
            MutationOperation::MemoryCreate | MutationOperation::MemoryUpdate
            | MutationOperation::MemoryDelete => "memory",
        }
    }
}

/// A remote mutation and its target.
#[derive(Debug, Clone, PartialEq, Eq)]
pub enum MutationCommand {
    TaskCreate { input: CreateTaskInput },
    TaskUpdate { task_id: String, patch: TaskPatch },
    NoteCreate { input: CreateNoteInput },
    NoteUpdate { note_id: String, patch: NotePatch },
    ChecklistSetDone { item_id: String, is_done: bool },
    MemoryCreate { input: CreateMemoryInput },
    MemoryUpdate { memory_id: String, patch: MemoryPatch },
    MemoryDelete { memory_id: String },
}

impl MutationCommand {
    pub open spec fn spec_operation(&self) -> MutationOperation {
        match self {
            MutationCommand::TaskCreate { .. } => MutationOperation::TaskCreate,
            MutationCommand::TaskUpdate { .. } => MutationOperation::TaskUpdate,
            MutationCommand::NoteCreate { .. } => MutationOperation::NoteCreate,
            MutationCommand::NoteUpdate { .. } => MutationOperation::NoteUpdate,
            MutationCommand::ChecklistSetDone { .. } => MutationOperation::ChecklistSetDone,
            MutationCommand::MemoryCreate { .. } => MutationOperation::MemoryCreate,
            MutationCommand::MemoryUpdate { .. } => MutationOperation::MemoryUpdate,
            MutationCommand::MemoryDelete { .. } => MutationOperation::MemoryDelete,
        }
    }

    /// The operation a command performs.
    pub fn operation(&self) -> (op: MutationOperation)
        ensures
            op == self.spec_operation(),
    {
        match self {
            MutationCommand::TaskCreate { .. } => MutationOperation::TaskCreate,
            MutationCommand::TaskUpdate { .. } => MutationOperation::TaskUpdate,
            MutationCommand::NoteCreate { .. } => MutationOperation::NoteCreate,
            MutationCommand::NoteUpdate { .. } => MutationOperation::NoteUpdate,
            MutationCommand::ChecklistSetDone { .. } => MutationOperation::ChecklistSetDone,
            MutationCommand::MemoryCreate { .. } => MutationOperation::MemoryCreate,
            MutationCommand::MemoryUpdate { .. } => MutationOperation::MemoryUpdate,
            MutationCommand::MemoryDelete { .. } => MutationOperation::MemoryDelete,
        }
    }
}

/// A remote mutation with its idempotency key, expected version and audit metadata.
#[derive(Debug, Clone, PartialEq, Eq)]
pub struct MutationRequest {
    pub idempotency_key: String,
    pub expected_version: MutationExpectedVersion,
    pub actor: String,
    pub request_id: String,
    pub approval_policy: MutationApprovalPolicy,
    pub command: MutationCommand,
}

/// What a remote mutation's request digest is taken over: the actor, the expected
/// version, the approval policy and the command. The request ID, which changes from one
/// attempt to the next, and the idempotency key are left out.
#[derive(Debug, Clone, PartialEq, Eq)]
pub struct MutationHashMaterial {
    pub actor: String,
    pub expected_version: MutationExpectedVersion,
    pub approval_policy: MutationApprovalPolicy,
    pub command: MutationCommand,
}

/// The digest material of a request.
pub open spec fn hash_material_of(request: MutationRequest) -> MutationHashMaterial {
    MutationHashMaterial {
        actor: request.actor,
        expected_version: request.expected_version,
        approval_policy: request.approval_policy,
        command: request.command,
    }
}

/// Takes the part of a request its digest covers.
pub fn hash_material(request: MutationRequest) -> (m: MutationHashMaterial)
    ensures
        m == hash_material_of(request),
{
    MutationHashMaterial {
        actor: request.actor,
        expected_version: request.expected_version,
        approval_policy: request.approval_policy,
        command: request.command,
    }
}

/// Two requests that differ only in their request ID and idempotency key have the same
/// digest material, so a retried request replays; any other difference changes it.
pub proof fn lemma_request_id_not_hashed(a: MutationRequest, b: MutationRequest)
    ensures
        (a.actor == b.actor && a.expected_version == b.expected_version && a.approval_policy
            == b.approval_policy && a.command == b.command) <==> hash_material_of(a) == hash_material_of(b),
{
}

/// Bytes allowed in actor and request identifiers: ASCII letters, digits, `-`, `_`, `.`.
pub open spec fn metadata_byte(b: u8) -> bool {
    is_alnum_byte(b) || b == 0x2D || b == 0x5F || b == 0x2E
}

/// Bytes allowed in idempotency keys: metadata bytes and `:`.
pub open spec fn idempotency_key_byte(b: u8) -> bool {
    metadata_byte(b) || b == 0x3A
}

/// A non-empty metadata value of at most `max` bytes, all of them allowed.
pub open spec fn metadata_value_ok(bytes: Seq<u8>, max: int) -> bool {
    0 < bytes.len() <= max && forall|i: int| 0 <= i < bytes.len() ==> metadata_byte(#[trigger] bytes[i])
}

/// An idempotency key of 16 to 128 allowed bytes.
pub open spec fn idempotency_key_ok(bytes: Seq<u8>) -> bool {
    16 <= bytes.len() <= 128 && forall|i: int| 0 <= i < bytes.len() ==> idempotency_key_byte(#[trigger] bytes[i])
}

/// Checks that an actor or request identifier is 1 to `max` allowed bytes.
pub fn validate_metadata_value(field: &str, value: &str, max: usize) -> (r: Result<(), Error>)
    ensures
        r is Ok <==> metadata_value_ok(value.spec_bytes(), max as int),
        r is Err ==> r->Err_0 is Invalid,
{
    let bytes = value.as_bytes();
    if bytes.len() == 0 || bytes.len() > max {
        return Err(invalid_field(field, " has an invalid format"));
    }
    let mut i: usize = 0;
    while i < bytes.len()
        invariant
            0 <= i <= bytes@.len(),
            bytes@ == value.spec_bytes(),
            forall|k: int| 0 <= k < i ==> metadata_byte(#[trigger] bytes@[k]),
        decreases bytes@.len() - i,
    {
        let b = bytes[i];
        if !((0x30 <= b && b <= 0x39) || (0x41 <= b && b <= 0x5A) || (0x61 <= b && b <= 0x7A)
            || b == 0x2D || b == 0x5F || b == 0x2E) {
            return Err(invalid_field(field, " has an invalid format"));
        }
        i = i + 1;
    }
    Ok(())
}

/// Checks the idempotency key, actor and request identifier of a mutation.
pub fn validate_request_metadata(request: &MutationRequest) -> (r: Result<(), Error>)
    ensures
        r is Ok <==> (idempotency_key_ok(encode_utf8(request.idempotency_key@))
            && metadata_value_ok(encode_utf8(request.actor@), 64) && metadata_value_ok(
            encode_utf8(request.request_id@),
            128,
        )),
        r is Err ==> r->Err_0 is Invalid,
{
    let bytes = request.idempotency_key.as_str().as_bytes();
    if bytes.len() < 16 || bytes.len() > 128 {
        return Err(
            invalid(
                "idempotency key must be 16-128 ASCII letters, digits, '.', '_', ':' or '-'",
            ),
        );
    }
    let mut i: usize = 0;
    while i < bytes.len()
        invariant
            0 <= i <= bytes@.len(),
            bytes@ == encode_utf8(request.idempotency_key@),
            forall|k: int| 0 <= k < i ==> idempotency_key_byte(#[trigger] bytes@[k]),
        decreases bytes@.len() - i,
    {
        let b = bytes[i];
        if !((0x30 <= b && b <= 0x39) || (0x41 <= b && b <= 0x5A) || (0x61 <= b && b <= 0x7A)
            || b == 0x2D || b == 0x5F || b == 0x2E || b == 0x3A) {
            return Err(
                invalid(
                    "idempotency key must be 16-128 ASCII letters, digits, '.', '_', ':' or '-'",
                ),
            );
        }
        i = i + 1;
    }
    validate_metadata_value("actor", request.actor.as_str(), 64)?;
    validate_metadata_value("request ID", request.request_id.as_str(), 128)?;
    Ok(())
}

/// Create mutations must not expect an existing version.
pub fn require_absent(expected: MutationExpectedVersion) -> (r: Result<(), Error>)
    ensures
        r is Ok <==> expected is Absent,
        r is Err ==> r->Err_0 is Invalid,
{
    match expected {
        MutationExpectedVersion::Absent => Ok(()),
        _ => Err(invalid("create mutations require an absent expected version")),
    }
}

/// Update mutations must expect an exact, positive version, which is returned.
pub fn require_exact(expected: MutationExpectedVersion) -> (r: Result<u64, Error>)
    ensures
        match r {
            Ok(v) => expected == MutationExpectedVersion::Exact(v) && v > 0,
            Err(e) => e is Invalid && !(expected matches MutationExpectedVersion::Exact(v) && v
                > 0),
        },
{
    match expected {
        MutationExpectedVersion::Exact(version) => {
            if version > 0 {
                Ok(version)
            } else {
                Err(invalid("update mutations require a positive exact expected version"))
            }
        },
        _ => Err(invalid("update mutations require a positive exact expected version")),
    }
}

/// Compare-and-set check: the stored version must equal the expected one.
pub fn require_version(resource: &str, actual: u64, expected: u64) -> (r: Result<(), Error>)
    ensures
        r is Ok <==> actual == expected,
        r is Err ==> r->Err_0 is Conflict,
{
    if actual != expected {
        let detail = " version conflict: expected ".to_owned().concat(u64_to_decimal(expected).as_str()).concat(
            ", found ",
        ).concat(u64_to_decimal(actual).as_str());
        return Err(conflict_on(resource, detail.as_str()));
    }
    Ok(())
}

/// The task status changes a remote mutation may make; staying put is always allowed.
pub open spec fn transition_allowed(current: TaskStatus, next: TaskStatus) -> bool {
    current == next || match current {
        TaskStatus::Inbox => next is Todo || next is InProgress || next is Cancelled,
        TaskStatus::Todo => next is Inbox || next is InProgress || next is Blocked || next is Done
            || next is Cancelled,
        TaskStatus::InProgress => next is Todo || next is Blocked || next is Done || next is Cancelled,
        TaskStatus::Blocked => next is Todo || next is InProgress || next is Cancelled,
        TaskStatus::Done => next is Todo || next is InProgress,
        TaskStatus::Cancelled => next is Inbox || next is Todo,
    }
}

/// Checks a requested task status change; no request is always fine.
pub fn validate_task_transition(current: TaskStatus, requested: Option<TaskStatus>) -> (r: Result<
    (),
    Error,
>)
    ensures
        r is Ok <==> match requested {
            None => true,
            Some(next) => transition_allowed(current, next),
        },
        r is Err ==> r->Err_0 is Invalid,
{
    let next = match requested {
        None => return Ok(()),
        Some(next) => next,
    };
    if current == next {
        return Ok(());
    }
    let allowed = match current {
        TaskStatus::Inbox => matches!(next, TaskStatus::Todo | TaskStatus::InProgress | TaskStatus::Cancelled),
        TaskStatus::Todo => matches!(
            next,
            TaskStatus::Inbox | TaskStatus::InProgress | TaskStatus::Blocked | TaskStatus::Done
                | TaskStatus::Cancelled
        ),
        TaskStatus::InProgress => matches!(
            next,
            TaskStatus::Todo | TaskStatus::Blocked | TaskStatus::Done | TaskStatus::Cancelled
        ),
        TaskStatus::Blocked => matches!(next, TaskStatus::Todo | TaskStatus::InProgress | TaskStatus::Cancelled),
        TaskStatus::Done => matches!(next, TaskStatus::Todo | TaskStatus::InProgress),
        TaskStatus::Cancelled => matches!(next, TaskStatus::Inbox | TaskStatus::Todo),
    };
    if !allowed {
        let message = "task status cannot transition from ".to_owned().concat(current.as_str()).concat(" to ").concat(
            next.as_str(),
        );
        return Err(Error::Invalid(message));
    }
    Ok(())
}

/// Every task can be brought to `Done` in at most two allowed steps, through `Todo`,
/// and every task that is not finished can be cancelled in one.
pub proof fn lemma_done_reachable(current: TaskStatus)
    ensures
        transition_allowed(current, TaskStatus::Todo),
        transition_allowed(TaskStatus::Todo, TaskStatus::Done),
        !(current is Done) ==> transition_allowed(current, TaskStatus::Cancelled),
{
}

/// A required text holds 1 to `max` characters once trimmed.
pub open spec fn required_text_ok(value: Seq<char>, max: int) -> bool {
    1 <= trimmed(value).len() <= max
}

/// Checks that a required text has 1 to `max` characters after trimming.
pub fn validate_required_text(field: &str, value: &str, max: usize) -> (r: Result<(), Error>)
    ensures
        r is Ok <==> required_text_ok(value@, max as int),
        r is Err ==> r->Err_0 is Invalid,
{
    let chars = chars_of(value);
    let t = trim_chars(&chars);
    let length = t.len();
    if length == 0 || length > max {
        return Err(invalid_field(field, " must contain between 1 and the maximum characters"));
    }
    Ok(())
}

/// Checks that an optional text has at most `max` characters.
pub fn validate_optional_text(field: &str, value: &str, max: usize) -> (r: Result<(), Error>)
    ensures
        r is Ok <==> value@.len() <= max,
        r is Err ==> r->Err_0 is Invalid,
{
    if value.unicode_len() > max {
        return Err(invalid_field(field, " cannot exceed the maximum characters"));
    }
    Ok(())
}


/// The rules a new task must meet.
pub open spec fn task_create_ok(input: CreateTaskInput) -> bool {
    &&& required_text_ok(input.title@, MAX_TITLE_CHARS as int)
    &&& input.description@.len() <= MAX_TASK_DESCRIPTION_CHARS
    &&& input.priority <= 4
    &&& !(input.status is Done || input.status is Cancelled)
}

/// Checks a new task: title, description, priority 0-4, and a starting status that is
/// neither done nor cancelled.
pub fn validate_task_create(input: &CreateTaskInput) -> (r: Result<(), Error>)
    ensures
        r is Ok <==> task_create_ok(*input),
        r is Err ==> r->Err_0 is Invalid,
{
    validate_required_text("task title", input.title.as_str(), MAX_TITLE_CHARS)?;
    validate_optional_text(
        "task description",
        input.description.as_str(),
        MAX_TASK_DESCRIPTION_CHARS,
    )?;
    if input.priority > 4 {
        return Err(invalid("task priority must be between 0 and 4"));
    }
    if matches!(input.status, TaskStatus::Done | TaskStatus::Cancelled) {
        return Err(invalid("new tasks cannot start as done or cancelled"));
    }
    Ok(())
}

/// The rules a task patch must meet.
pub open spec fn task_patch_ok(patch: TaskPatch) -> bool {
    &&& (patch.title matches Some(t) ==> required_text_ok(t@, MAX_TITLE_CHARS as int))
    &&& (patch.description matches Some(d) ==> d@.len() <= MAX_TASK_DESCRIPTION_CHARS)
    &&& (patch.priority matches Some(p) ==> p <= 4)
    &&& !(patch.clear_project && patch.project_id is Some)
    &&& !(patch.clear_due_date && patch.due_date is Some)
}

/// Checks a task patch: texts, priority, and that nothing is both set and cleared.
pub fn validate_task_patch(patch: &TaskPatch) -> (r: Result<(), Error>)
    ensures
        r is Ok <==> task_patch_ok(*patch),
        r is Err ==> r->Err_0 is Invalid,
{
    if let Some(title) = &patch.title {
        validate_required_text("task title", title.as_str(), MAX_TITLE_CHARS)?;
    }
    if let Some(description) = &patch.description {
        validate_optional_text(
            "task description",
            description.as_str(),
            MAX_TASK_DESCRIPTION_CHARS,
        )?;
    }
    if let Some(priority) = patch.priority {
        if priority > 4 {
            return Err(invalid("task priority must be between 0 and 4"));
        }
    }
    if patch.clear_project && patch.project_id.is_some() {
        return Err(invalid("project cannot be both set and cleared"));
    }
    if patch.clear_due_date && patch.due_date.is_some() {
        return Err(invalid("due date cannot be both set and cleared"));
    }
    Ok(())
}

/// Whether applying a patch would change a task.
pub open spec fn task_patch_changes_spec(current: Task, patch: TaskPatch) -> bool {
    ||| (patch.title matches Some(t) && trimmed(t@) != current.title@)
    ||| (patch.description matches Some(d) && trimmed(d@) != current.description@)
    ||| (patch.status matches Some(s) && s != current.status)
    ||| (patch.priority matches Some(p) && p != current.priority)
    ||| (patch.project_id matches Some(p) && Some(p@) != opt_view(current.project_id))
    ||| (patch.clear_project && current.project_id is Some)
    ||| (patch.due_date matches Some(d) && Some(d) != current.due_date)
    ||| (patch.clear_due_date && current.due_date is Some)
}

/// Whether a task patch changes at least one field of the current task.
pub fn task_patch_changes(current: &Task, patch: &TaskPatch) -> (changes: bool)
    ensures
        changes == task_patch_changes_spec(*current, *patch),
{
    if let Some(title) = &patch.title {
        if !same_text(&trim(title.as_str()), &current.title) {
            return true;
        }
    }
    if let Some(description) = &patch.description {
        if !same_text(&trim(description.as_str()), &current.description) {
            return true;
        }
    }
    if let Some(status) = patch.status {
        if status != current.status {
            return true;
        }
    }
    if let Some(priority) = patch.priority {
        if priority != current.priority {
            return true;
        }
    }
    if let Some(project_id) = &patch.project_id {
        match &current.project_id {
            Some(existing) => {
                if !same_text(project_id, existing) {
                    return true;
                }
            },
            None => return true,
        }
    }
    if patch.clear_project && current.project_id.is_some() {
        return true;
    }
    if let Some(due_date) = patch.due_date {
        match current.due_date {
            Some(existing) => {
                if due_date != existing {
                    return true;
                }
            },
            None => return true,
        }
    }
    patch.clear_due_date && current.due_date.is_some()
}

/// The rules a new note must meet.
pub open spec fn note_create_ok(input: CreateNoteInput) -> bool {
    required_text_ok(input.title@, MAX_TITLE_CHARS as int) && input.body@.len()
        <= MAX_NOTE_BODY_CHARS
}

/// Checks a new note's title and body.
pub fn validate_note_create(input: &CreateNoteInput) -> (r: Result<(), Error>)
    ensures
        r is Ok <==> note_create_ok(*input),
        r is Err ==> r->Err_0 is Invalid,
{
    validate_required_text("note title", input.title.as_str(), MAX_TITLE_CHARS)?;
    validate_optional_text("note body", input.body.as_str(), MAX_NOTE_BODY_CHARS)
}

/// The rules a note patch must meet.
pub open spec fn note_patch_ok(patch: NotePatch) -> bool {
    &&& (patch.title matches Some(t) ==> required_text_ok(t@, MAX_TITLE_CHARS as int))
    &&& (patch.body matches Some(b) ==> b@.len() <= MAX_NOTE_BODY_CHARS)
    &&& !(patch.clear_note_date && patch.note_date is Some)
}

/// Checks a note patch.
pub fn validate_note_patch(patch: &NotePatch) -> (r: Result<(), Error>)
    ensures
        r is Ok <==> note_patch_ok(*patch),
        r is Err ==> r->Err_0 is Invalid,
{
    if let Some(title) = &patch.title {
        validate_required_text("note title", title.as_str(), MAX_TITLE_CHARS)?;
    }
    if let Some(body) = &patch.body {
        validate_optional_text("note body", body.as_str(), MAX_NOTE_BODY_CHARS)?;
    }
    if patch.clear_note_date && patch.note_date.is_some() {
        return Err(invalid("note date cannot be both set and cleared"));
    }
    Ok(())
}

/// Whether applying a patch would change a note.
pub open spec fn note_patch_changes_spec(current: Note, patch: NotePatch) -> bool {
    ||| (patch.note_type matches Some(t) && t != current.note_type)
    ||| (patch.title matches Some(t) && trimmed(t@) != current.title@)
    ||| (patch.body matches Some(b) && trimmed(b@) != current.body@)
    ||| (patch.note_date matches Some(d) && Some(d) != current.note_date)
    ||| (patch.clear_note_date && current.note_date is Some)
}

/// Whether a note patch changes at least one field of the current note.
pub fn note_patch_changes(current: &Note, patch: &NotePatch) -> (changes: bool)
    ensures
        changes == note_patch_changes_spec(*current, *patch),
{
    if let Some(note_type) = patch.note_type {
        if note_type != current.note_type {
            return true;
        }
    }
    if let Some(title) = &patch.title {
        if !same_text(&trim(title.as_str()), &current.title) {
            return true;
        }
    }
    if let Some(body) = &patch.body {
        if !same_text(&trim(body.as_str()), &current.body) {
            return true;
        }
    }
    if let Some(note_date) = patch.note_date {
        match current.note_date {
            Some(existing) => {
                if note_date != existing {
                    return true;
                }
            },
            None => return true,
        }
    }
    patch.clear_note_date && current.note_date.is_some()
}

/// A hexadecimal digit, in either case.
pub open spec fn is_hex_char(c: char) -> bool {
    ('0' <= c && c <= '9') || ('a' <= c && c <= 'f') || ('A' <= c && c <= 'F')
}

/// Thirty-two hexadecimal digits.
pub open spec fn simple_uuid(s: Seq<char>) -> bool {
    s.len() == 32 && forall|i: int| 0 <= i < 32 ==> is_hex_char(#[trigger] s[i])
}

/// Thirty-six characters: hyphens at 8, 13, 18 and 23, hexadecimal digits elsewhere.
pub open spec fn hyphenated_uuid(s: Seq<char>) -> bool {
    s.len() == 36 && forall|i: int|
        0 <= i < 36 ==> if i == 8 || i == 13 || i == 18 || i == 23 {
            #[trigger] s[i] == '-'
        } else {
            is_hex_char(s[i])
        }
}

/// A character with ASCII capitals made small.
pub open spec fn ascii_lower(c: char) -> char {
    if 'A' <= c && c <= 'Z' {
        ((c as u32) + 32) as char
    } else {
        c
    }
}

/// Whether a text starts with `urn:uuid:`, ignoring ASCII case.
pub open spec fn urn_prefixed(s: Seq<char>) -> bool {
    s.len() >= 9 && forall|i: int| 0 <= i < 9 ==> ascii_lower(#[trigger] s[i]) == "urn:uuid:"@[i]
}

/// The texts the `uuid` crate reads as a UUID: simple, hyphenated, braced hyphenated, or
/// a `urn:uuid:` URN of a hyphenated one.
pub open spec fn uuid_text_parses(s: Seq<char>) -> bool {
    ||| simple_uuid(s)
    ||| hyphenated_uuid(s)
    ||| (s.len() == 38 && s[0] == '{' && s[37] == '}' && hyphenated_uuid(s.subrange(1, 37)))
    ||| (s.len() == 45 && urn_prefixed(s) && hyphenated_uuid(s.subrange(9, 45)))
}

/// `uuid::Uuid::parse_str(value).is_ok()`. The crate's parser (by byte length: 32 hex
/// digits, 36 hyphenated, 38 braced, 45 with a `urn:uuid:` prefix of any ASCII case)
/// accepts exactly these texts; a text with a non-ASCII character never matches.
#[verifier::external_body]
fn parses_as_uuid(value: &str) -> (r: bool)
    ensures
        r == uuid_text_parses(value@),
{
    uuid::Uuid::parse_str(value).is_ok()
}

/// An identifier a remote mutation names must be a UUID.
pub fn validate_id(field: &str, value: &str) -> (r: Result<(), Error>)
    ensures
        r is Ok <==> uuid_text_parses(value@),
        r matches Err(e) ==> e is Invalid && e->Invalid_0@ == field@ + " must be a UUID"@,
{
    if !parses_as_uuid(value) {
        return Err(invalid_field(field, " must be a UUID"));
    }
    Ok(())
}

/// What a command must hold before anything is read: creates expect no version and
/// valid input; updates name their target by UUID, carry a valid patch and expect an
/// exact, positive version, which is given back.
pub open spec fn precheck(command: MutationCommand, expected: MutationExpectedVersion) -> Result<Option<u64>, ()> {
    let exact = match expected {
        MutationExpectedVersion::Exact(v) => if v > 0 {
            Some(v)
        } else {
            None
        },
        _ => None,
    };
    match command {
        MutationCommand::TaskCreate { input } => if expected is Absent && task_create_ok(input) && (
        input.project_id matches Some(p) ==> uuid_text_parses(p@)) {
            Ok(None)
        } else {
            Err(())
        },
        MutationCommand::TaskUpdate { task_id, patch } => if uuid_text_parses(task_id@) && task_patch_ok(patch)
            && exact is Some {
            Ok(exact)
        } else {
            Err(())
        },
        MutationCommand::NoteCreate { input } => if expected is Absent && note_create_ok(input) {
            Ok(None)
        } else {
            Err(())
        },
        MutationCommand::NoteUpdate { note_id, patch } => if uuid_text_parses(note_id@) && note_patch_ok(patch)
            && exact is Some {
            Ok(exact)
        } else {
            Err(())
        },
        MutationCommand::ChecklistSetDone { item_id, .. } => if uuid_text_parses(item_id@) && exact is Some {
            Ok(exact)
        } else {
            Err(())
        },
        MutationCommand::MemoryCreate { .. } => if expected is Absent {
            Ok(None)
        } else {
            Err(())
        },
        MutationCommand::MemoryUpdate { memory_id, .. } => if uuid_text_parses(memory_id@) && exact is Some {
            Ok(exact)
        } else {
            Err(())
        },
        MutationCommand::MemoryDelete { memory_id } => if uuid_text_parses(memory_id@) && exact is Some {
            Ok(exact)
        } else {
            Err(())
        },
    }
}

/// Checks a command before its target is read; gives back the version an update
/// expects.
pub fn precheck_command(command: &MutationCommand, expected: MutationExpectedVersion) -> (r: Result<
    Option<u64>,
    Error,
>)
    ensures
        match (r, precheck(*command, expected)) {
            (Ok(a), Ok(b)) => a == b,
            (Err(e), Err(_)) => e is Invalid,
            _ => false,
        },
{
    match command {
        MutationCommand::TaskCreate { input } => {
            require_absent(expected)?;
            validate_task_create(input)?;
            if let Some(project_id) = &input.project_id {
                validate_id("projectId", project_id.as_str())?;
            }
            Ok(None)
        },
        MutationCommand::TaskUpdate { task_id, patch } => {
            validate_id("taskId", task_id.as_str())?;
            validate_task_patch(patch)?;
            let v = require_exact(expected)?;
            Ok(Some(v))
        },
        MutationCommand::NoteCreate { input } => {
            require_absent(expected)?;
            validate_note_create(input)?;
            Ok(None)
        },
        MutationCommand::NoteUpdate { note_id, patch } => {
            validate_id("noteId", note_id.as_str())?;
            validate_note_patch(patch)?;
            let v = require_exact(expected)?;
            Ok(Some(v))
        },
        MutationCommand::ChecklistSetDone { item_id, .. } => {
            validate_id("checklistId", item_id.as_str())?;
            let v = require_exact(expected)?;
            Ok(Some(v))
        },
        MutationCommand::MemoryCreate { .. } => {
            require_absent(expected)?;
            Ok(None)
        },
        MutationCommand::MemoryUpdate { memory_id, .. } => {
            validate_id("memoryId", memory_id.as_str())?;
            let v = require_exact(expected)?;
            Ok(Some(v))
        },
        MutationCommand::MemoryDelete { memory_id } => {
            validate_id("memoryId", memory_id.as_str())?;
            let v = require_exact(expected)?;
            Ok(Some(v))
        },
    }
}

/// Checks a task update against the task as stored, before the target project is read:
/// the version, the status change, and the UUID of a new project.
pub fn check_task_update(current: &Task, expected: u64, patch: &TaskPatch) -> (r: Result<(), Error>)
    ensures
        r is Ok <==> current.version == expected && match patch.status {
            None => true,
            Some(next) => transition_allowed(current.status, next),
        } && (patch.project_id matches Some(p) ==> uuid_text_parses(p@)),
        r matches Err(e) ==> (e is Conflict <==> current.version != expected),
        r matches Err(e) ==> (e is Conflict || e is Invalid),
{
    require_version("task", current.version, expected)?;
    validate_task_transition(current.status, patch.status)?;
    if let Some(project_id) = &patch.project_id {
        validate_id("projectId", project_id.as_str())?;
    }
    Ok(())
}

/// A project can receive a remote task only while it is neither deleted nor archived.
pub fn check_project_target(deleted: bool, archived: bool) -> (r: Result<(), Error>)
    ensures
        r is Ok <==> !deleted && !archived,
        r matches Err(e) ==> e is Conflict,
{
    if deleted || archived {
        return Err(
            Error::Conflict("task project must be active before it can receive remote changes".to_owned()),
        );
    }
    Ok(())
}

/// An update must change something.
pub fn require_change(changes: bool, resource: &str) -> (r: Result<(), Error>)
    ensures
        r is Ok <==> changes,
        r matches Err(e) ==> e is Invalid,
{
    if !changes {
        return Err(invalid_field(resource, " update must change at least one field"));
    }
    Ok(())
}

/// Checks a checklist toggle against the stored item: its version, an owner that is not
/// in the trash, and a state that actually changes.
pub fn check_checklist_toggle(
    current_version: u64,
    expected: u64,
    owner_deleted: bool,
    current_done: bool,
    is_done: bool,
) -> (r: Result<(), Error>)
    ensures
        r is Ok <==> current_version == expected && !owner_deleted && current_done != is_done,
        r matches Err(e) ==> (e is Conflict <==> (current_version != expected || owner_deleted)),
        r matches Err(e) ==> (e is Conflict || e is Invalid),
{
    require_version("checklist item", current_version, expected)?;
    if owner_deleted {
        return Err(
            Error::Conflict("checklist owner is in the trash; restore it before editing".to_owned()),
        );
    }
    if current_done == is_done {
        return Err(invalid("checklist state must change"));
    }
    Ok(())
}

/// A reused idempotency key must carry the same operation and request digest; then the
/// stored response is replayed.
pub fn check_mutation_replay(
    stored_operation: &str,
    stored_sha256: &str,
    operation: MutationOperation,
    request_sha256: &str,
) -> (r: Result<(), Error>)
    ensures
        r is Ok <==> stored_operation@ == operation.name() && stored_sha256@ == request_sha256@,
        r matches Err(e) ==> e is Conflict,
{
    if !str_eq(stored_operation, operation.as_str()) || !str_eq(stored_sha256, request_sha256) {
        return Err(Error::Conflict("idempotency key was already used for a different mutation".to_owned()));
    }
    Ok(())
}

} // verus!
