use vstd::prelude::*;

use crate::calendar::CivilDate;
use crate::error::{broken_value, Error};
use crate::text::str_eq;

verus! {

/// Workflow state of a task.
#[derive(Debug, Clone, Copy, PartialEq, Eq, Structural)]
pub enum TaskStatus {
    Inbox,
    Todo,
    InProgress,
    Blocked,
    Done,
    Cancelled,
}

impl TaskStatus {
    /// The stored name of the value.
    pub open spec fn name(self) -> Seq<char> {
        match self {
            TaskStatus::Inbox => "inbox"@,
            TaskStatus::Todo => "todo"@,
            TaskStatus::InProgress => "in_progress"@,
            TaskStatus::Blocked => "blocked"@,
            TaskStatus::Done => "done"@,
            TaskStatus::Cancelled => "cancelled"@,
        }
    }

    /// The stored name of the value.
    pub fn as_str(self) -> (s: &'static str)
        ensures
            s@ == self.name(),
    {
        match self {
            TaskStatus::Inbox => "inbox",
            TaskStatus::Todo => "todo",
            TaskStatus::InProgress => "in_progress",
            TaskStatus::Blocked => "blocked",
            TaskStatus::Done => "done",
            TaskStatus::Cancelled => "cancelled",
        }
    }

    /// Parses a stored name; every other text is refused.
    pub fn parse(value: &str) -> (r: Result<TaskStatus, Error>)
        ensures
            match r {
                Ok(v) => v.name() == value@,
                Err(e) => e is Invariant && forall|v: TaskStatus| v.name() != value@,
            },
    {
        if str_eq(value, "inbox") {
            Ok(TaskStatus::Inbox)
        } else if str_eq(value, "todo") {
            Ok(TaskStatus::Todo)
        } else if str_eq(value, "in_progress") {
            Ok(TaskStatus::InProgress)
        } else if str_eq(value, "blocked") {
            Ok(TaskStatus::Blocked)
        } else if str_eq(value, "done") {
            Ok(TaskStatus::Done)
        } else if str_eq(value, "cancelled") {
            Ok(TaskStatus::Cancelled)
        } else {
            Err(broken_value("unknown TaskStatus value: ", value))
        }
    }

    /// Distinct values have distinct names.
    pub proof fn lemma_names_distinct()
        ensures
            forall|a: Self, b: Self| a.name() == b.name() ==> a == b,
    {
        reveal_strlit("inbox");
        reveal_strlit("todo");
        reveal_strlit("in_progress");
        reveal_strlit("blocked");
        reveal_strlit("done");
        reveal_strlit("cancelled");
        assert forall|a: Self, b: Self| a.name() == b.name() implies a == b by {
            if a != b {
                let (x, y) = (a.name(), b.name());
                if x.len() == y.len() {
                    assert(exists|i: int| 0 <= i < x.len() && x[i] != y[i]) by {
                        match (a, b) {
                            (TaskStatus::Todo, TaskStatus::Done) => assert(x[0] != y[0]),
                            (TaskStatus::Done, TaskStatus::Todo) => assert(x[0] != y[0]),
                            _ => {},
                        }
                    }
                }
            }
        }
    }

}

/// State of a task on one planned day.
#[derive(Debug, Clone, Copy, PartialEq, Eq, Structural)]
pub enum TaskDayStatus {
    Planned,
    Done,
    Deferred,
    Skipped,
}

impl TaskDayStatus {
    /// The stored name of the value.
    pub open spec fn name(self) -> Seq<char> {
        match self {
            TaskDayStatus::Planned => "planned"@,
            TaskDayStatus::Done => "done"@,
            TaskDayStatus::Deferred => "deferred"@,
            TaskDayStatus::Skipped => "skipped"@,
        }
    }

    /// The stored name of the value.
    pub fn as_str(self) -> (s: &'static str)
        ensures
            s@ == self.name(),
    {
        match self {
            TaskDayStatus::Planned => "planned",
            TaskDayStatus::Done => "done",
            TaskDayStatus::Deferred => "deferred",
            TaskDayStatus::Skipped => "skipped",
        }
    }

    /// Parses a stored name; every other text is refused.
    pub fn parse(value: &str) -> (r: Result<TaskDayStatus, Error>)
        ensures
            match r {
                Ok(v) => v.name() == value@,
                Err(e) => e is Invariant && forall|v: TaskDayStatus| v.name() != value@,
            },
    {
        if str_eq(value, "planned") {
            Ok(TaskDayStatus::Planned)
        } else if str_eq(value, "done") {
            Ok(TaskDayStatus::Done)
        } else if str_eq(value, "deferred") {
            Ok(TaskDayStatus::Deferred)
        } else if str_eq(value, "skipped") {
            Ok(TaskDayStatus::Skipped)
        } else {
            Err(broken_value("unknown TaskDayStatus value: ", value))
        }
    }

    /// Distinct values have distinct names.
    pub proof fn lemma_names_distinct()
        ensures
            forall|a: Self, b: Self| a.name() == b.name() ==> a == b,
    {
        reveal_strlit("planned");
        reveal_strlit("done");
        reveal_strlit("deferred");
        reveal_strlit("skipped");
        assert forall|a: Self, b: Self| a.name() == b.name() implies a == b by {
            if a != b {
                let (x, y) = (a.name(), b.name());
                if x.len() == y.len() {
                    assert(exists|i: int| 0 <= i < x.len() && x[i] != y[i]) by {
                        match (a, b) {
                            (TaskDayStatus::Planned, TaskDayStatus::Skipped) => assert(x[0] != y[0]),
                            (TaskDayStatus::Skipped, TaskDayStatus::Planned) => assert(x[0] != y[0]),
                            _ => {},
                        }
                    }
                }
            }
        }
    }

}

/// State of a work session.
#[derive(Debug, Clone, Copy, PartialEq, Eq, Structural)]
pub enum SessionStatus {
    Running,
    Completed,
    Cancelled,
}

impl SessionStatus {
    /// The stored name of the value.
    pub open spec fn name(self) -> Seq<char> {
        match self {
            SessionStatus::Running => "running"@,
            SessionStatus::Completed => "completed"@,
            SessionStatus::Cancelled => "cancelled"@,
        }
    }

    /// The stored name of the value.
    pub fn as_str(self) -> (s: &'static str)
        ensures
            s@ == self.name(),
    {
        match self {
            SessionStatus::Running => "running",
            SessionStatus::Completed => "completed",
            SessionStatus::Cancelled => "cancelled",
        }
    }

    /// Parses a stored name; every other text is refused.
    pub fn parse(value: &str) -> (r: Result<SessionStatus, Error>)
        ensures
            match r {
                Ok(v) => v.name() == value@,
                Err(e) => e is Invariant && forall|v: SessionStatus| v.name() != value@,
            },
    {
        if str_eq(value, "running") {
            Ok(SessionStatus::Running)
        } else if str_eq(value, "completed") {
            Ok(SessionStatus::Completed)
        } else if str_eq(value, "cancelled") {
            Ok(SessionStatus::Cancelled)
        } else {
            Err(broken_value("unknown SessionStatus value: ", value))
        }
    }

    /// Distinct values have distinct names.
    pub proof fn lemma_names_distinct()
        ensures
            forall|a: Self, b: Self| a.name() == b.name() ==> a == b,
    {
        reveal_strlit("running");
        reveal_strlit("completed");
        reveal_strlit("cancelled");
        assert forall|a: Self, b: Self| a.name() == b.name() implies a == b by {
            if a != b {
                let (x, y) = (a.name(), b.name());
                if x.len() == y.len() {
                    assert(exists|i: int| 0 <= i < x.len() && x[i] != y[i]) by {
                        match (a, b) {
                            (SessionStatus::Completed, SessionStatus::Cancelled) => assert(x[1] != y[1]),
                            (SessionStatus::Cancelled, SessionStatus::Completed) => assert(x[1] != y[1]),
                            _ => {},
                        }
                    }
                }
            }
        }
    }

}

/// Kind of a note.
#[derive(Debug, Clone, Copy, PartialEq, Eq, Structural)]
pub enum NoteType {
    Concept,
    Howto,
    Decision,
    Reference,
    Daily,
}

impl NoteType {
    /// The stored name of the value.
    pub open spec fn name(self) -> Seq<char> {
        match self {
            NoteType::Concept => "concept"@,
            NoteType::Howto => "howto"@,
            NoteType::Decision => "decision"@,
            NoteType::Reference => "reference"@,
            NoteType::Daily => "daily"@,
        }
    }

    /// The stored name of the value.
    pub fn as_str(self) -> (s: &'static str)
        ensures
            s@ == self.name(),
    {
        match self {
            NoteType::Concept => "concept",
            NoteType::Howto => "howto",
            NoteType::Decision => "decision",
            NoteType::Reference => "reference",
            NoteType::Daily => "daily",
        }
    }

    /// Parses a stored name; every other text is refused.
    pub fn parse(value: &str) -> (r: Result<NoteType, Error>)
        ensures
            match r {
                Ok(v) => v.name() == value@,
                Err(e) => e is Invariant && forall|v: NoteType| v.name() != value@,
            },
    {
        if str_eq(value, "concept") {
            Ok(NoteType::Concept)
        } else if str_eq(value, "howto") {
            Ok(NoteType::Howto)
        } else if str_eq(value, "decision") {
            Ok(NoteType::Decision)
        } else if str_eq(value, "reference") {
            Ok(NoteType::Reference)
        } else if str_eq(value, "daily") {
            Ok(NoteType::Daily)
        } else {
            Err(broken_value("unknown NoteType value: ", value))
        }
    }

    /// Distinct values have distinct names.
    pub proof fn lemma_names_distinct()
        ensures
            forall|a: Self, b: Self| a.name() == b.name() ==> a == b,
    {
        reveal_strlit("concept");
        reveal_strlit("howto");
        reveal_strlit("decision");
        reveal_strlit("reference");
        reveal_strlit("daily");
        assert forall|a: Self, b: Self| a.name() == b.name() implies a == b by {
            if a != b {
                let (x, y) = (a.name(), b.name());
                if x.len() == y.len() {
                    assert(exists|i: int| 0 <= i < x.len() && x[i] != y[i]) by {
                        match (a, b) {
                            (NoteType::Howto, NoteType::Daily) => assert(x[0] != y[0]),
                            (NoteType::Daily, NoteType::Howto) => assert(x[0] != y[0]),
                            _ => {},
                        }
                    }
                }
            }
        }
    }

}

/// Entities that can own links and attachments.
#[derive(Debug, Clone, Copy, PartialEq, Eq, Structural)]
pub enum EntityType {
    Task,
    Session,
    Worklog,
    Note,
}

impl EntityType {
    /// The stored name of the value.
    pub open spec fn name(self) -> Seq<char> {
        match self {
            EntityType::Task => "task"@,
            EntityType::Session => "session"@,
            EntityType::Worklog => "worklog"@,
            EntityType::Note => "note"@,
        }
    }

    /// The stored name of the value.
    pub fn as_str(self) -> (s: &'static str)
        ensures
            s@ == self.name(),
    {
        match self {
            EntityType::Task => "task",
            EntityType::Session => "session",
            EntityType::Worklog => "worklog",
            EntityType::Note => "note",
        }
    }

    /// Parses a stored name; every other text is refused.
    pub fn parse(value: &str) -> (r: Result<EntityType, Error>)
        ensures
            match r {
                Ok(v) => v.name() == value@,
                Err(e) => e is Invariant && forall|v: EntityType| v.name() != value@,
            },
    {
        if str_eq(value, "task") {
            Ok(EntityType::Task)
        } else if str_eq(value, "session") {
            Ok(EntityType::Session)
        } else if str_eq(value, "worklog") {
            Ok(EntityType::Worklog)
        } else if str_eq(value, "note") {
            Ok(EntityType::Note)
        } else {
            Err(broken_value("unknown EntityType value: ", value))
        }
    }

    /// Distinct values have distinct names.
    pub proof fn lemma_names_distinct()
        ensures
            forall|a: Self, b: Self| a.name() == b.name() ==> a == b,
    {
        reveal_strlit("task");
        reveal_strlit("session");
        reveal_strlit("worklog");
        reveal_strlit("note");
        assert forall|a: Self, b: Self| a.name() == b.name() implies a == b by {
            if a != b {
                let (x, y) = (a.name(), b.name());
                if x.len() == y.len() {
                    assert(exists|i: int| 0 <= i < x.len() && x[i] != y[i]) by {
                        match (a, b) {
                            (EntityType::Task, EntityType::Note) => assert(x[0] != y[0]),
                            (EntityType::Session, EntityType::Worklog) => assert(x[0] != y[0]),
                            (EntityType::Worklog, EntityType::Session) => assert(x[0] != y[0]),
                            (EntityType::Note, EntityType::Task) => assert(x[0] != y[0]),
                            _ => {},
                        }
                    }
                }
            }
        }
    }

}

/// What a link can point at.
#[derive(Debug, Clone, Copy, PartialEq, Eq, Structural)]
pub enum LinkTargetType {
    Task,
    Session,
    Worklog,
    Note,
    File,
    Url,
}

impl LinkTargetType {
    /// The stored name of the value.
    pub open spec fn name(self) -> Seq<char> {
        match self {
            LinkTargetType::Task => "task"@,
            LinkTargetType::Session => "session"@,
            LinkTargetType::Worklog => "worklog"@,
            LinkTargetType::Note => "note"@,
            LinkTargetType::File => "file"@,
            LinkTargetType::Url => "url"@,
        }
    }

    /// The stored name of the value.
    pub fn as_str(self) -> (s: &'static str)
        ensures
            s@ == self.name(),
    {
        match self {
            LinkTargetType::Task => "task",
            LinkTargetType::Session => "session",
            LinkTargetType::Worklog => "worklog",
            LinkTargetType::Note => "note",
            LinkTargetType::File => "file",
            LinkTargetType::Url => "url",
        }
    }

    /// Parses a stored name; every other text is refused.
    pub fn parse(value: &str) -> (r: Result<LinkTargetType, Error>)
        ensures
            match r {
                Ok(v) => v.name() == value@,
                Err(e) => e is Invariant && forall|v: LinkTargetType| v.name() != value@,
            },
    {
        if str_eq(value, "task") {
            Ok(LinkTargetType::Task)
        } else if str_eq(value, "session") {
            Ok(LinkTargetType::Session)
        } else if str_eq(value, "worklog") {
            Ok(LinkTargetType::Worklog)
        } else if str_eq(value, "note") {
            Ok(LinkTargetType::Note)
        } else if str_eq(value, "file") {
            Ok(LinkTargetType::File)
        } else if str_eq(value, "url") {
            Ok(LinkTargetType::Url)
        } else {
            Err(broken_value("unknown LinkTargetType value: ", value))
        }
    }

    /// Distinct values have distinct names.
    pub proof fn lemma_names_distinct()
        ensures
            forall|a: Self, b: Self| a.name() == b.name() ==> a == b,
    {
        reveal_strlit("task");
        reveal_strlit("session");
        reveal_strlit("worklog");
        reveal_strlit("note");
        reveal_strlit("file");
        reveal_strlit("url");
        assert forall|a: Self, b: Self| a.name() == b.name() implies a == b by {
            if a != b {
                let (x, y) = (a.name(), b.name());
                if x.len() == y.len() {
                    assert(exists|i: int| 0 <= i < x.len() && x[i] != y[i]) by {
                        match (a, b) {
                            (LinkTargetType::Task, LinkTargetType::Note) => assert(x[0] != y[0]),
                            (LinkTargetType::Task, LinkTargetType::File) => assert(x[0] != y[0]),
                            (LinkTargetType::Session, LinkTargetType::Worklog) => assert(x[0] != y[0]),
                            (LinkTargetType::Worklog, LinkTargetType::Session) => assert(x[0] != y[0]),
                            (LinkTargetType::Note, LinkTargetType::Task) => assert(x[0] != y[0]),
                            (LinkTargetType::Note, LinkTargetType::File) => assert(x[0] != y[0]),
                            (LinkTargetType::File, LinkTargetType::Task) => assert(x[0] != y[0]),
                            (LinkTargetType::File, LinkTargetType::Note) => assert(x[0] != y[0]),
                            _ => {},
                        }
                    }
                }
            }
        }
    }

}

/// Kind of a change request.
#[derive(Debug, Clone, Copy, PartialEq, Eq, Structural)]
pub enum ChangeRequestKind {
    Bug,
    Ui,
    Feature,
    Other,
}

impl ChangeRequestKind {
    /// The stored name of the value.
    pub open spec fn name(self) -> Seq<char> {
        match self {
            ChangeRequestKind::Bug => "bug"@,
            ChangeRequestKind::Ui => "ui"@,
            ChangeRequestKind::Feature => "feature"@,
            ChangeRequestKind::Other => "other"@,
        }
    }

    /// The stored name of the value.
    pub fn as_str(self) -> (s: &'static str)
        ensures
            s@ == self.name(),
    {
        match self {
            ChangeRequestKind::Bug => "bug",
            ChangeRequestKind::Ui => "ui",
            ChangeRequestKind::Feature => "feature",
            ChangeRequestKind::Other => "other",
        }
    }

    /// Parses a stored name; every other text is refused.
    pub fn parse(value: &str) -> (r: Result<ChangeRequestKind, Error>)
        ensures
            match r {
                Ok(v) => v.name() == value@,
                Err(e) => e is Invariant && forall|v: ChangeRequestKind| v.name() != value@,
            },
    {
        if str_eq(value, "bug") {
            Ok(ChangeRequestKind::Bug)
        } else if str_eq(value, "ui") {
            Ok(ChangeRequestKind::Ui)
        } else if str_eq(value, "feature") {
            Ok(ChangeRequestKind::Feature)
        } else if str_eq(value, "other") {
            Ok(ChangeRequestKind::Other)
        } else {
            Err(broken_value("unknown ChangeRequestKind value: ", value))
        }
    }

    /// Distinct values have distinct names.
    pub proof fn lemma_names_distinct()
        ensures
            forall|a: Self, b: Self| a.name() == b.name() ==> a == b,
    {
        reveal_strlit("bug");
        reveal_strlit("ui");
        reveal_strlit("feature");
        reveal_strlit("other");
        assert forall|a: Self, b: Self| a.name() == b.name() implies a == b by {
            if a != b {
                let (x, y) = (a.name(), b.name());
                if x.len() == y.len() {
                    assert(exists|i: int| 0 <= i < x.len() && x[i] != y[i]) by {
                        match (a, b) {
                            _ => {},
                        }
                    }
                }
            }
        }
    }

}

/// Lifecycle state of a change request.
#[derive(Debug, Clone, Copy, PartialEq, Eq, Structural)]
pub enum ChangeRequestStatus {
    Draft,
    Approved,
    Claimed,
    Completed,
    Failed,
    Cancelled,
}

impl ChangeRequestStatus {
    /// The stored name of the value.
    pub open spec fn name(self) -> Seq<char> {
        match self {
            ChangeRequestStatus::Draft => "draft"@,
            ChangeRequestStatus::Approved => "approved"@,
            ChangeRequestStatus::Claimed => "claimed"@,
            ChangeRequestStatus::Completed => "completed"@,
            ChangeRequestStatus::Failed => "failed"@,
            ChangeRequestStatus::Cancelled => "cancelled"@,
        }
    }

    /// The stored name of the value.
    pub fn as_str(self) -> (s: &'static str)
        ensures
            s@ == self.name(),
    {
        match self {
            ChangeRequestStatus::Draft => "draft",
            ChangeRequestStatus::Approved => "approved",
            ChangeRequestStatus::Claimed => "claimed",
            ChangeRequestStatus::Completed => "completed",
            ChangeRequestStatus::Failed => "failed",
            ChangeRequestStatus::Cancelled => "cancelled",
        }
    }

    /// Parses a stored name; every other text is refused.
    pub fn parse(value: &str) -> (r: Result<ChangeRequestStatus, Error>)
        ensures
            match r {
                Ok(v) => v.name() == value@,
                Err(e) => e is Invariant && forall|v: ChangeRequestStatus| v.name() != value@,
            },
    {
        if str_eq(value, "draft") {
            Ok(ChangeRequestStatus::Draft)
        } else if str_eq(value, "approved") {
            Ok(ChangeRequestStatus::Approved)
        } else if str_eq(value, "claimed") {
            Ok(ChangeRequestStatus::Claimed)
        } else if str_eq(value, "completed") {
            Ok(ChangeRequestStatus::Completed)
        } else if str_eq(value, "failed") {
            Ok(ChangeRequestStatus::Failed)
        } else if str_eq(value, "cancelled") {
            Ok(ChangeRequestStatus::Cancelled)
        } else {
            Err(broken_value("unknown ChangeRequestStatus value: ", value))
        }
    }

    /// Distinct values have distinct names.
    pub proof fn lemma_names_distinct()
        ensures
            forall|a: Self, b: Self| a.name() == b.name() ==> a == b,
    {
        reveal_strlit("draft");
        reveal_strlit("approved");
        reveal_strlit("claimed");
        reveal_strlit("completed");
        reveal_strlit("failed");
        reveal_strlit("cancelled");
        assert forall|a: Self, b: Self| a.name() == b.name() implies a == b by {
            if a != b {
                let (x, y) = (a.name(), b.name());
                if x.len() == y.len() {
                    assert(exists|i: int| 0 <= i < x.len() && x[i] != y[i]) by {
                        match (a, b) {
                            (ChangeRequestStatus::Completed, ChangeRequestStatus::Cancelled) => assert(x[1] != y[1]),
                            (ChangeRequestStatus::Cancelled, ChangeRequestStatus::Completed) => assert(x[1] != y[1]),
                            _ => {},
                        }
                    }
                }
            }
        }
    }

}

/// Entities that can sit in the trash.
#[derive(Debug, Clone, Copy, PartialEq, Eq, Structural)]
pub enum TrashEntityType {
    Task,
    Note,
    Project,
    Worklog,
    Session,
}

impl TrashEntityType {
    /// The stored name of the value.
    pub open spec fn name(self) -> Seq<char> {
        match self {
            TrashEntityType::Task => "task"@,
            TrashEntityType::Note => "note"@,
            TrashEntityType::Project => "project"@,
            TrashEntityType::Worklog => "worklog"@,
            TrashEntityType::Session => "session"@,
        }
    }

    /// The stored name of the value.
    pub fn as_str(self) -> (s: &'static str)
        ensures
            s@ == self.name(),
    {
        match self {
            TrashEntityType::Task => "task",
            TrashEntityType::Note => "note",
            TrashEntityType::Project => "project",
            TrashEntityType::Worklog => "worklog",
            TrashEntityType::Session => "session",
        }
    }

}


/// A requested code change tracked through approval, claim and completion.
#[derive(Debug, Clone, PartialEq, Eq)]
pub struct ChangeRequest {
    pub id: String,
    pub kind: ChangeRequestKind,
    pub project_id: Option<String>,
    pub task_id: Option<String>,
    pub title: String,
    pub description: String,
    pub desired_outcome: String,
    pub reproduction_steps: String,
    pub priority: u8,
    pub status: ChangeRequestStatus,
    pub revision: u32,
    pub approved_revision: Option<u32>,
    pub attempt_count: u32,
    pub requested_by: String,
    pub updated_by: String,
    pub created_at: String,
    pub updated_at: String,
    pub approved_at: Option<String>,
    pub approved_by: Option<String>,
    pub claimed_at: Option<String>,
    pub claimed_by: Option<String>,
    pub completed_at: Option<String>,
    pub completed_by: Option<String>,
    pub failed_at: Option<String>,
    pub failed_by: Option<String>,
    pub cancelled_at: Option<String>,
    pub cancelled_by: Option<String>,
    pub result_summary: Option<String>,
    pub patch_ref: Option<String>,
    pub failure_reason: Option<String>,
    pub cancellation_reason: Option<String>,
}

#[derive(Debug, Clone, PartialEq, Eq)]
pub struct CreateChangeRequestInput {
    pub kind: ChangeRequestKind,
    pub project_id: Option<String>,
    pub task_id: Option<String>,
    pub title: String,
    pub description: String,
    pub desired_outcome: String,
    pub reproduction_steps: String,
    pub priority: u8,
    pub requested_by: String,
}

#[derive(Debug, Clone, PartialEq, Eq)]
pub struct UpdateChangeRequestInput {
    pub expected_revision: u32,
    pub expected_attempt_count: u32,
    pub kind: ChangeRequestKind,
    pub project_id: Option<String>,
    pub task_id: Option<String>,
    pub title: String,
    pub description: String,
    pub desired_outcome: String,
    pub reproduction_steps: String,
    pub priority: u8,
    pub updated_by: String,
}

#[derive(Debug, Clone, PartialEq, Eq)]
pub struct ChangeRequestClaim {
    pub should_process: bool,
    pub request: Option<ChangeRequest>,
    pub claim_key: Option<String>,
}

#[derive(Debug, Clone, PartialEq, Eq)]
pub struct Project {
    pub id: String,
    pub system_key: Option<String>,
    pub name: String,
    pub description: String,
    pub color: Option<String>,
    pub sort_order: i64,
    pub created_at: String,
    pub updated_at: String,
    pub archived_at: Option<String>,
    pub deleted_at: Option<String>,
}

/// A task; `version` is its optimistic-concurrency counter.
#[derive(Debug, Clone, PartialEq, Eq)]
pub struct Task {
    pub id: String,
    pub project_id: Option<String>,
    pub title: String,
    pub description: String,
    pub status: TaskStatus,
    pub priority: u8,
    pub due_date: Option<CivilDate>,
    pub completed_at: Option<String>,
    pub created_at: String,
    pub updated_at: String,
    pub deleted_at: Option<String>,
    pub version: u64,
}

#[derive(Debug, Clone, PartialEq, Eq)]
pub struct ChecklistItem {
    pub id: String,
    pub task_id: String,
    pub body: String,
    pub is_done: bool,
    pub sort_order: i64,
    pub created_at: String,
    pub updated_at: String,
    pub completed_at: Option<String>,
    pub version: u64,
}

#[derive(Debug, Clone, PartialEq, Eq)]
pub struct Tag {
    pub id: String,
    pub name: String,
    pub color: Option<String>,
    pub created_at: String,
}

#[derive(Debug, Clone, PartialEq, Eq)]
pub struct WorkSession {
    pub id: String,
    pub project_id: Option<String>,
    pub goal: String,
    pub status: SessionStatus,
    pub started_at: String,
    pub ended_at: Option<String>,
    pub result: String,
    pub blockers: String,
    pub next_action: String,
    pub created_at: String,
    pub updated_at: String,
    pub deleted_at: Option<String>,
}

/// A note; `version` is its optimistic-concurrency counter.
#[derive(Debug, Clone, PartialEq, Eq)]
pub struct Note {
    pub id: String,
    pub note_type: NoteType,
    pub title: String,
    pub body: String,
    pub source_worklog_id: Option<String>,
    pub note_date: Option<CivilDate>,
    pub created_at: String,
    pub updated_at: String,
    pub deleted_at: Option<String>,
    pub version: u64,
}

#[derive(Debug, Clone, PartialEq, Eq)]
pub struct EntityLink {
    pub id: String,
    pub source_type: EntityType,
    pub source_id: String,
    pub target_type: LinkTargetType,
    pub target_id: Option<String>,
    pub target_value: Option<String>,
    pub relation: String,
    pub created_at: String,
}

#[derive(Debug, Clone, PartialEq, Eq)]
pub struct Attachment {
    pub id: String,
    pub owner_type: EntityType,
    pub owner_id: String,
    pub relative_path: String,
    pub original_name: String,
    pub media_type: Option<String>,
    pub byte_size: u64,
    pub sha256: String,
    pub created_at: String,
    pub deleted_at: Option<String>,
}

#[derive(Debug, Clone, PartialEq, Eq)]
pub struct CreateAttachmentInput {
    pub owner_type: EntityType,
    pub owner_id: String,
    pub relative_path: String,
    pub original_name: String,
    pub media_type: Option<String>,
    pub byte_size: u64,
    pub sha256: String,
}

#[derive(Debug, Clone, PartialEq, Eq)]
pub struct TrashItem {
    pub id: String,
    pub entity_type: TrashEntityType,
    pub title: String,
    pub deleted_at: String,
}

#[derive(Debug, Clone, PartialEq, Eq)]
pub struct BackupInfo {
    pub path: String,
    pub file_name: String,
    pub created_at: String,
    pub byte_size: u64,
    pub trigger: String,
}

#[derive(Debug, Clone, PartialEq, Eq)]
pub struct BackupVerification {
    pub sha256: String,
    pub byte_size: u64,
    pub schema_version: i64,
    pub integrity_check: String,
    pub schema_semantics_validated: bool,
}

#[derive(Debug, Clone, Copy, PartialEq, Eq)]
pub struct AiBudgetPolicy {
    pub warning_limit_microusd: u64,
    pub hard_limit_microusd: u64,
}

#[derive(Debug, Clone, PartialEq, Eq)]
pub struct AiBudgetStatus {
    pub budget_month: String,
    pub warning_limit_microusd: u64,
    pub hard_limit_microusd: u64,
    pub committed_microusd: u64,
    pub remaining_microusd: u64,
    pub warning_reached: bool,
    pub hard_stop_reached: bool,
}

#[derive(Debug, Clone, PartialEq, Eq)]
pub struct AiBudgetReservation {
    pub request_id: String,
    pub budget_month: String,
    pub reserved_microusd: u64,
}

#[derive(Debug, Clone, Copy, PartialEq, Eq)]
pub struct AiTokenUsage {
    pub input_tokens: u64,
    pub cached_input_tokens: u64,
    pub output_tokens: u64,
    pub total_tokens: u64,
}

#[derive(Debug, Clone, PartialEq, Eq)]
pub struct SearchHit {
    pub entity_type: EntityType,
    pub entity_id: String,
    pub title: String,
    pub excerpt: String,
    pub rank_millis: i64,
}

#[derive(Debug, Clone, PartialEq, Eq)]
pub struct CreateProjectInput {
    pub name: String,
    pub description: String,
    pub color: Option<String>,
}

#[derive(Debug, Clone, PartialEq, Eq)]
pub struct CreateTaskInput {
    pub project_id: Option<String>,
    pub title: String,
    pub description: String,
    pub status: TaskStatus,
    pub priority: u8,
    pub due_date: Option<CivilDate>,
}

/// The status a new task takes when none is given.
pub fn default_task_status() -> (s: TaskStatus)
    ensures
        s == TaskStatus::Inbox,
{
    TaskStatus::Inbox
}

/// A partial change to a task; `clear_*` flags remove a value.
#[derive(Debug, Clone, PartialEq, Eq)]
pub struct TaskPatch {
    pub title: Option<String>,
    pub description: Option<String>,
    pub status: Option<TaskStatus>,
    pub priority: Option<u8>,
    pub project_id: Option<String>,
    pub clear_project: bool,
    pub due_date: Option<CivilDate>,
    pub clear_due_date: bool,
}

#[derive(Debug, Clone, PartialEq, Eq)]
pub struct ChecklistMutationInput {
    pub id: Option<String>,
    pub body: String,
    pub is_done: bool,
}

#[derive(Debug, Clone, PartialEq, Eq)]
pub struct StartSessionInput {
    pub project_id: Option<String>,
    pub goal: String,
    pub task_ids: Vec<String>,
}

#[derive(Debug, Clone, PartialEq, Eq)]
pub struct EndSessionInput {
    pub result: String,
    pub blockers: String,
    pub next_action: String,
    pub create_followup_task: bool,
    pub followup_title: Option<String>,
    pub followup_project_id: Option<String>,
}

#[derive(Debug, Clone, PartialEq, Eq)]
pub struct CreateNoteInput {
    pub note_type: NoteType,
    pub title: String,
    pub body: String,
    pub note_date: Option<CivilDate>,
}

/// A partial change to a note; `clear_note_date` removes the date.
#[derive(Debug, Clone, PartialEq, Eq)]
pub struct NotePatch {
    pub note_type: Option<NoteType>,
    pub title: Option<String>,
    pub body: Option<String>,
    pub note_date: Option<CivilDate>,
    pub clear_note_date: bool,
}

#[derive(Debug, Clone, PartialEq, Eq)]
pub struct NoteLinksInput {
    pub task_ids: Vec<String>,
    pub session_ids: Vec<String>,
    pub worklog_ids: Vec<String>,
    pub file_paths: Vec<String>,
    pub urls: Vec<String>,
}

#[derive(Debug, Clone, PartialEq, Eq)]
pub struct CreateLinkInput {
    pub source_type: EntityType,
    pub source_id: String,
    pub target_type: LinkTargetType,
    pub target_id: Option<String>,
    pub target_value: Option<String>,
    pub relation: String,
}

/// The relation a link takes when none is given.
pub fn default_relation() -> (r: String)
    ensures
        r@ == "related"@,
{
    "related".to_owned()
}

#[derive(Debug, Clone, PartialEq, Eq)]
pub struct HealthReport {
    pub ok: bool,
    pub database_path: String,
    pub schema_version: i64,
    pub sqlite_version: String,
    pub journal_mode: String,
    pub foreign_keys: bool,
    pub integrity_check: String,
    pub checked_at: String,
}

#[derive(Debug, Clone, PartialEq, Eq)]
pub struct ExportArtifact {
    pub json_path: String,
    pub markdown_path: String,
    pub created_at: String,
    pub sha256: String,
}

} // verus!
