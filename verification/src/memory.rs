use vstd::prelude::*;
use vstd::string::*;

use vstd::utf8::encode_utf8;

use crate::hashing::{sha256_hex, sha256_lower_hex};

use crate::calendar::{add_days, days_after, representable, CivilDate};
use crate::error::{broken, broken_value, conflict, invalid, Error};
use crate::preview_json::{
    all_written, array_text, bool_text, integer_text, json_array_text, json_integer_text,
    json_object_text, json_read_depth, json_string_text, lemma_array_written, lemma_integer_written,
    lemma_string_written, object_text, string_text, written_json,
};
use crate::text::{chars_of, decimal, is_space, is_space_char, str_eq, string_of, trim, trimmed, u64_to_decimal};

verus! {

/// Longest memory title, in characters.
pub const MAX_MEMORY_TITLE_CHARS: usize = 200;

/// Longest memory body, in characters.
pub const MAX_MEMORY_BODY_CHARS: usize = 4_000;

/// Longest memory search query, in characters.
pub const MAX_MEMORY_SEARCH_QUERY_CHARS: usize = 256;

/// Most memories a context may hold.
pub const MEMORY_CONTEXT_MAX_ITEMS: usize = 12;

/// Largest context budget, in bytes.
pub const MEMORY_CONTEXT_MAX_BYTES: usize = 6144;

/// What an assistant memory records.
#[derive(Debug, Clone, Copy, PartialEq, Eq, Structural)]
pub enum MemoryKind {
    Preference,
    Goal,
    Routine,
    Constraint,
    Reference,
    Summary,
}

impl MemoryKind {
    /// The stored name of the value.
    pub open spec fn name(self) -> Seq<char> {
        match self {
            MemoryKind::Preference => "preference"@,
            MemoryKind::Goal => "goal"@,
            MemoryKind::Routine => "routine"@,
            MemoryKind::Constraint => "constraint"@,
            MemoryKind::Reference => "reference"@,
            MemoryKind::Summary => "summary"@,
        }
    }

    /// The stored name of the value.
    pub fn as_str(self) -> (s: &'static str)
        ensures
            s@ == self.name(),
    {
        match self {
            MemoryKind::Preference => "preference",
            MemoryKind::Goal => "goal",
            MemoryKind::Routine => "routine",
            MemoryKind::Constraint => "constraint",
            MemoryKind::Reference => "reference",
            MemoryKind::Summary => "summary",
        }
    }

    /// Parses a stored name; every other text is refused.
    pub fn parse(value: &str) -> (r: Result<MemoryKind, Error>)
        ensures
            match r {
                Ok(v) => v.name() == value@,
                Err(e) => e is Invariant && forall|v: MemoryKind| v.name() != value@,
            },
    {
        if str_eq(value, "preference") {
            Ok(MemoryKind::Preference)
        } else if str_eq(value, "goal") {
            Ok(MemoryKind::Goal)
        } else if str_eq(value, "routine") {
            Ok(MemoryKind::Routine)
        } else if str_eq(value, "constraint") {
            Ok(MemoryKind::Constraint)
        } else if str_eq(value, "reference") {
            Ok(MemoryKind::Reference)
        } else if str_eq(value, "summary") {
            Ok(MemoryKind::Summary)
        } else {
            Err(broken_value("unknown MemoryKind value: ", value))
        }
    }

    /// Distinct values have distinct names.
    pub proof fn lemma_names_distinct()
        ensures
            forall|a: Self, b: Self| a.name() == b.name() ==> a == b,
    {
        reveal_strlit("preference");
        reveal_strlit("goal");
        reveal_strlit("routine");
        reveal_strlit("constraint");
        reveal_strlit("reference");
        reveal_strlit("summary");
        assert forall|a: Self, b: Self| a.name() == b.name() implies a == b by {
            if a != b {
                let (x, y) = (a.name(), b.name());
                if x.len() == y.len() {
                    assert(exists|i: int| 0 <= i < x.len() && x[i] != y[i]) by {
                        match (a, b) {
                            (MemoryKind::Preference, MemoryKind::Constraint) => assert(x[0] != y[0]),
                            (MemoryKind::Routine, MemoryKind::Summary) => assert(x[0] != y[0]),
                            (MemoryKind::Constraint, MemoryKind::Preference) => assert(x[0] != y[0]),
                            (MemoryKind::Summary, MemoryKind::Routine) => assert(x[0] != y[0]),
                            _ => {},
                        }
                    }
                }
            }
        }
    }

}

/// How sensitive a memory is.
#[derive(Debug, Clone, Copy, PartialEq, Eq, Structural)]
pub enum MemorySensitivity {
    Normal,
    Private,
    Restricted,
}

impl MemorySensitivity {
    /// The stored name of the value.
    pub open spec fn name(self) -> Seq<char> {
        match self {
            MemorySensitivity::Normal => "normal"@,
            MemorySensitivity::Private => "private"@,
            MemorySensitivity::Restricted => "restricted"@,
        }
    }

    /// The stored name of the value.
    pub fn as_str(self) -> (s: &'static str)
        ensures
            s@ == self.name(),
    {
        match self {
            MemorySensitivity::Normal => "normal",
            MemorySensitivity::Private => "private",
            MemorySensitivity::Restricted => "restricted",
        }
    }

    /// Parses a stored name; every other text is refused.
    pub fn parse(value: &str) -> (r: Result<MemorySensitivity, Error>)
        ensures
            match r {
                Ok(v) => v.name() == value@,
                Err(e) => e is Invariant && forall|v: MemorySensitivity| v.name() != value@,
            },
    {
        if str_eq(value, "normal") {
            Ok(MemorySensitivity::Normal)
        } else if str_eq(value, "private") {
            Ok(MemorySensitivity::Private)
        } else if str_eq(value, "restricted") {
            Ok(MemorySensitivity::Restricted)
        } else {
            Err(broken_value("unknown MemorySensitivity value: ", value))
        }
    }

    /// Distinct values have distinct names.
    pub proof fn lemma_names_distinct()
        ensures
            forall|a: Self, b: Self| a.name() == b.name() ==> a == b,
    {
        reveal_strlit("normal");
        reveal_strlit("private");
        reveal_strlit("restricted");
        assert forall|a: Self, b: Self| a.name() == b.name() implies a == b by {
            if a != b {
                let (x, y) = (a.name(), b.name());
                if x.len() == y.len() {
                    assert(exists|i: int| 0 <= i < x.len() && x[i] != y[i]) by {
                        match (a, b) {
                            _ => {},
                        }
                    }
                }
            }
        }
    }

}

/// How long a memory is kept.
#[derive(Debug, Clone, Copy, PartialEq, Eq, Structural)]
pub enum MemoryRetention {
    UntilDeleted,
    Daily90d,
    Weekly365d,
    Monthly1095d,
}

impl MemoryRetention {
    /// The stored name of the value.
    pub open spec fn name(self) -> Seq<char> {
        match self {
            MemoryRetention::UntilDeleted => "until_deleted"@,
            MemoryRetention::Daily90d => "daily_90d"@,
            MemoryRetention::Weekly365d => "weekly_365d"@,
            MemoryRetention::Monthly1095d => "monthly_1095d"@,
        }
    }

    /// The stored name of the value.
    pub fn as_str(self) -> (s: &'static str)
        ensures
            s@ == self.name(),
    {
        match self {
            MemoryRetention::UntilDeleted => "until_deleted",
            MemoryRetention::Daily90d => "daily_90d",
            MemoryRetention::Weekly365d => "weekly_365d",
            MemoryRetention::Monthly1095d => "monthly_1095d",
        }
    }

    /// The name serde gives the value in JSON: the variant in snake case, where a digit
    /// starts no new word (`Daily90d` is `daily90d`).
    pub open spec fn serde_name(self) -> Seq<char> {
        match self {
            MemoryRetention::UntilDeleted => "until_deleted"@,
            MemoryRetention::Daily90d => "daily90d"@,
            MemoryRetention::Weekly365d => "weekly365d"@,
            MemoryRetention::Monthly1095d => "monthly1095d"@,
        }
    }

    /// The name serde gives the value in JSON.
    pub fn serde_str(self) -> (s: &'static str)
        ensures
            s@ == self.serde_name(),
    {
        match self {
            MemoryRetention::UntilDeleted => "until_deleted",
            MemoryRetention::Daily90d => "daily90d",
            MemoryRetention::Weekly365d => "weekly365d",
            MemoryRetention::Monthly1095d => "monthly1095d",
        }
    }

    /// Parses a stored name; every other text is refused.
    pub fn parse(value: &str) -> (r: Result<MemoryRetention, Error>)
        ensures
            match r {
                Ok(v) => v.name() == value@,
                Err(e) => e is Invariant && forall|v: MemoryRetention| v.name() != value@,
            },
    {
        if str_eq(value, "until_deleted") {
            Ok(MemoryRetention::UntilDeleted)
        } else if str_eq(value, "daily_90d") {
            Ok(MemoryRetention::Daily90d)
        } else if str_eq(value, "weekly_365d") {
            Ok(MemoryRetention::Weekly365d)
        } else if str_eq(value, "monthly_1095d") {
            Ok(MemoryRetention::Monthly1095d)
        } else {
            Err(broken_value("unknown MemoryRetention value: ", value))
        }
    }

    /// Distinct values have distinct names.
    pub proof fn lemma_names_distinct()
        ensures
            forall|a: Self, b: Self| a.name() == b.name() ==> a == b,
    {
        reveal_strlit("until_deleted");
        reveal_strlit("daily_90d");
        reveal_strlit("weekly_365d");
        reveal_strlit("monthly_1095d");
        assert forall|a: Self, b: Self| a.name() == b.name() implies a == b by {
            if a != b {
                let (x, y) = (a.name(), b.name());
                if x.len() == y.len() {
                    assert(exists|i: int| 0 <= i < x.len() && x[i] != y[i]) by {
                        match (a, b) {
                            (MemoryRetention::UntilDeleted, MemoryRetention::Monthly1095d) => assert(x[0] != y[0]),
                            (MemoryRetention::Monthly1095d, MemoryRetention::UntilDeleted) => assert(x[0] != y[0]),
                            _ => {},
                        }
                    }
                }
            }
        }
    }

}

/// Where a memory came from.
#[derive(Debug, Clone, Copy, PartialEq, Eq, Structural)]
pub enum MemorySourceType {
    Explicit,
    Task,
    Note,
    Worklog,
    Session,
    MemoryRollup,
}

impl MemorySourceType {
    /// The stored name of the value.
    pub open spec fn name(self) -> Seq<char> {
        match self {
            MemorySourceType::Explicit => "explicit"@,
            MemorySourceType::Task => "task"@,
            MemorySourceType::Note => "note"@,
            MemorySourceType::Worklog => "worklog"@,
            MemorySourceType::Session => "session"@,
            MemorySourceType::MemoryRollup => "memory_rollup"@,
        }
    }

    /// The stored name of the value.
    pub fn as_str(self) -> (s: &'static str)
        ensures
            s@ == self.name(),
    {
        match self {
            MemorySourceType::Explicit => "explicit",
            MemorySourceType::Task => "task",
            MemorySourceType::Note => "note",
            MemorySourceType::Worklog => "worklog",
            MemorySourceType::Session => "session",
            MemorySourceType::MemoryRollup => "memory_rollup",
        }
    }

    /// Parses a stored name; every other text is refused.
    pub fn parse(value: &str) -> (r: Result<MemorySourceType, Error>)
        ensures
            match r {
                Ok(v) => v.name() == value@,
                Err(e) => e is Invariant && forall|v: MemorySourceType| v.name() != value@,
            },
    {
        if str_eq(value, "explicit") {
            Ok(MemorySourceType::Explicit)
        } else if str_eq(value, "task") {
            Ok(MemorySourceType::Task)
        } else if str_eq(value, "note") {
            Ok(MemorySourceType::Note)
        } else if str_eq(value, "worklog") {
            Ok(MemorySourceType::Worklog)
        } else if str_eq(value, "session") {
            Ok(MemorySourceType::Session)
        } else if str_eq(value, "memory_rollup") {
            Ok(MemorySourceType::MemoryRollup)
        } else {
            Err(broken_value("unknown MemorySourceType value: ", value))
        }
    }

    /// Distinct values have distinct names.
    pub proof fn lemma_names_distinct()
        ensures
            forall|a: Self, b: Self| a.name() == b.name() ==> a == b,
    {
        reveal_strlit("explicit");
        reveal_strlit("task");
        reveal_strlit("note");
        reveal_strlit("worklog");
        reveal_strlit("session");
        reveal_strlit("memory_rollup");
        assert forall|a: Self, b: Self| a.name() == b.name() implies a == b by {
            if a != b {
                let (x, y) = (a.name(), b.name());
                if x.len() == y.len() {
                    assert(exists|i: int| 0 <= i < x.len() && x[i] != y[i]) by {
                        match (a, b) {
                            (MemorySourceType::Task, MemorySourceType::Note) => assert(x[0] != y[0]),
                            (MemorySourceType::Note, MemorySourceType::Task) => assert(x[0] != y[0]),
                            (MemorySourceType::Worklog, MemorySourceType::Session) => assert(x[0] != y[0]),
                            (MemorySourceType::Session, MemorySourceType::Worklog) => assert(x[0] != y[0]),
                            _ => {},
                        }
                    }
                }
            }
        }
    }

}

/// The period a summary memory covers.
#[derive(Debug, Clone, Copy, PartialEq, Eq, Structural)]
pub enum MemoryPeriodKind {
    Daily,
    Weekly,
    Monthly,
}

impl MemoryPeriodKind {
    /// The stored name of the value.
    pub open spec fn name(self) -> Seq<char> {
        match self {
            MemoryPeriodKind::Daily => "daily"@,
            MemoryPeriodKind::Weekly => "weekly"@,
            MemoryPeriodKind::Monthly => "monthly"@,
        }
    }

    /// The stored name of the value.
    pub fn as_str(self) -> (s: &'static str)
        ensures
            s@ == self.name(),
    {
        match self {
            MemoryPeriodKind::Daily => "daily",
            MemoryPeriodKind::Weekly => "weekly",
            MemoryPeriodKind::Monthly => "monthly",
        }
    }

    /// Parses a stored name; every other text is refused.
    pub fn parse(value: &str) -> (r: Result<MemoryPeriodKind, Error>)
        ensures
            match r {
                Ok(v) => v.name() == value@,
                Err(e) => e is Invariant && forall|v: MemoryPeriodKind| v.name() != value@,
            },
    {
        if str_eq(value, "daily") {
            Ok(MemoryPeriodKind::Daily)
        } else if str_eq(value, "weekly") {
            Ok(MemoryPeriodKind::Weekly)
        } else if str_eq(value, "monthly") {
            Ok(MemoryPeriodKind::Monthly)
        } else {
            Err(broken_value("unknown MemoryPeriodKind value: ", value))
        }
    }

    /// Distinct values have distinct names.
    pub proof fn lemma_names_distinct()
        ensures
            forall|a: Self, b: Self| a.name() == b.name() ==> a == b,
    {
        reveal_strlit("daily");
        reveal_strlit("weekly");
        reveal_strlit("monthly");
        assert forall|a: Self, b: Self| a.name() == b.name() implies a == b by {
            if a != b {
                let (x, y) = (a.name(), b.name());
                if x.len() == y.len() {
                    assert(exists|i: int| 0 <= i < x.len() && x[i] != y[i]) by {
                        match (a, b) {
                            _ => {},
                        }
                    }
                }
            }
        }
    }

}

#[derive(Debug, Clone, PartialEq, Eq)]
pub struct CreateMemoryInput {
    pub kind: MemoryKind,
    pub title: String,
    pub body: String,
    pub sensitivity: MemorySensitivity,
    pub openai_allowed: bool,
    pub retention: MemoryRetention,
}

#[derive(Debug, Clone, PartialEq, Eq)]
pub struct MemoryPatch {
    pub kind: MemoryKind,
    pub title: String,
    pub body: String,
    pub sensitivity: MemorySensitivity,
    pub openai_allowed: bool,
    pub retention: MemoryRetention,
}

/// A stored memory; `provenance_json` is its provenance document as JSON text.
#[derive(Debug, Clone, PartialEq, Eq)]
pub struct AssistantMemory {
    pub id: String,
    pub kind: MemoryKind,
    pub title: String,
    pub body: String,
    pub source_type: MemorySourceType,
    pub source_id: Option<String>,
    pub provenance_json: String,
    pub sensitivity: MemorySensitivity,
    pub openai_allowed: bool,
    pub retention: MemoryRetention,
    pub expires_at: Option<String>,
    pub period_kind: Option<MemoryPeriodKind>,
    pub period_start: Option<CivilDate>,
    pub period_end: Option<CivilDate>,
    pub summary_key: Option<String>,
    pub revision: u64,
    pub content_sha256: String,
    pub created_at: String,
    pub updated_at: String,
    pub deleted_at: Option<String>,
}

#[derive(Debug, Clone, PartialEq, Eq)]
pub struct MemorySearchFilter {
    pub query: String,
    pub kind: Option<MemoryKind>,
    pub openai_only: bool,
    pub max_items: usize,
    pub max_bytes: usize,
}

/// Memories chosen for a context, with the bytes they use and how many were left out.
#[derive(Debug, Clone, PartialEq, Eq)]
pub struct MemorySearchResult {
    pub items: Vec<AssistantMemory>,
    pub bytes_used: usize,
    pub omitted: usize,
    pub retrieval: String,
    pub vector_service_used: bool,
}

#[derive(Debug, Clone, PartialEq, Eq)]
pub struct MemoryMaintenanceReport {
    pub expired: usize,
    pub source_deleted: usize,
    pub checked_at: String,
}

#[derive(Debug, Clone, PartialEq, Eq)]
pub struct MemorySummaryRegenerationReport {
    pub daily: Option<String>,
    pub weekly: Option<String>,
    pub monthly: Option<String>,
    pub regenerated_at: String,
    pub openai_calls: usize,
}

/// Whether `needle` occurs in `hay`.
pub open spec fn occurs_in(hay: Seq<char>, needle: Seq<char>) -> bool {
    exists|i: int| 0 <= i <= hay.len() - needle.len() && #[trigger] hay.subrange(i, i + needle.len()) == needle
}

/// Whether `needle` occurs in `hay`.
fn find_text(hay: &Vec<char>, needle: &Vec<char>) -> (r: bool)
    ensures
        r == occurs_in(hay@, needle@),
{
    if needle.len() > hay.len() {
        return false;
    }
    let mut i: usize = 0;
    while i <= hay.len() - needle.len()
        invariant
            needle@.len() <= hay@.len(),
            0 <= i <= hay@.len() - needle@.len() + 1,
            forall|k: int| 0 <= k < i ==> #[trigger] hay@.subrange(k, k + needle@.len()) != needle@,
        decreases hay@.len() - needle@.len() + 1 - i,
    {
        let mut j: usize = 0;
        let mut same = true;
        while same && j < needle.len()
            invariant
                needle@.len() <= hay@.len(),
                hay@.len() <= usize::MAX,
                0 <= i <= hay@.len() - needle@.len(),
                0 <= j <= needle@.len(),
                forall|m: int| 0 <= m < j ==> hay@[i + m] == needle@[m],
                !same ==> j < needle@.len() && hay@[i + j] != needle@[j as int],
            decreases needle@.len() - j + (if same { 1int } else { 0 }),
        {
            assert(i + j < hay@.len());
            if hay[i + j] == needle[j] {
                j = j + 1;
            } else {
                same = false;
            }
        }
        if j == needle.len() {
            assert(hay@.subrange(i as int, i + needle@.len()) =~= needle@);
            return true;
        }
        assert(hay@.subrange(i as int, i + needle@.len())[j as int] != needle@[j as int]);
        i = i + 1;
    }
    proof {
        assert forall|k: int| 0 <= k <= hay@.len() - needle@.len() implies #[trigger] hay@.subrange(k, k + needle@.len())
            != needle@ by {
        }
    }
    false
}

/// The lowercase form `str::to_lowercase` gives a text.
pub uninterp spec fn lowercase(s: Seq<char>) -> Seq<char>;

/// `str::to_lowercase`.
#[verifier::external_body]
fn to_lowercase(s: &str) -> (r: String)
    ensures
        r@ == lowercase(s@),
{
    s.to_lowercase()
}

/// The phrases that mark credentials and full identifiers.
pub open spec fn forbidden_phrases() -> Seq<Seq<char>> {
    seq![
        "password"@,
        "비밀번호"@,
        "api key"@,
        "api_key"@,
        "recovery code"@,
        "복구 코드"@,
        "bearer "@,
        "begin private key"@,
        "주민등록번호"@,
        "카드번호"@,
        "계좌번호"@,
    ]
}

/// The forbidden phrases, in order.
fn forbidden_list() -> (v: Vec<&'static str>)
    ensures
        v@.len() == forbidden_phrases().len(),
        forall|i: int| 0 <= i < v@.len() ==> (#[trigger] v@[i])@ == forbidden_phrases()[i],
{
    let mut v: Vec<&'static str> = Vec::new();
    v.push("password");
    v.push("비밀번호");
    v.push("api key");
    v.push("api_key");
    v.push("recovery code");
    v.push("복구 코드");
    v.push("bearer ");
    v.push("begin private key");
    v.push("주민등록번호");
    v.push("카드번호");
    v.push("계좌번호");
    v
}

/// The length of the run of digits ending at each position: dashes and spaces do not
/// break a run, any other non-digit ends it.
pub open spec fn digit_run(s: Seq<char>, end: int) -> int
    decreases end,
{
    if end <= 0 {
        0
    } else {
        let c = s[end - 1];
        if '0' <= c && c <= '9' {
            digit_run(s, end - 1) + 1
        } else if c == '-' || c == ' ' {
            digit_run(s, end - 1)
        } else {
            0
        }
    }
}

/// Whether a text holds at least `minimum` digits in a run that only dashes and spaces
/// interrupt.
pub open spec fn has_long_digit_run(s: Seq<char>, minimum: int) -> bool {
    exists|end: int| 1 <= end <= s.len() && #[trigger] digit_run(s, end) >= minimum
}

/// Whether a text holds a long run of digits.
pub fn contains_long_digit_sequence(value: &str, minimum: usize) -> (r: bool)
    requires
        minimum >= 1,
    ensures
        r == has_long_digit_run(value@, minimum as int),
{
    let v = chars_of(value);
    let mut run: usize = 0;
    let mut i: usize = 0;
    while i < v.len()
        invariant
            0 <= i <= v@.len(),
            v@ == value@,
            minimum >= 1,
            run == digit_run(value@, i as int),
            run < minimum,
            forall|e: int| 1 <= e <= i ==> #[trigger] digit_run(value@, e) < minimum,
        decreases v@.len() - i,
    {
        let c = v[i];
        if '0' <= c && c <= '9' {
            run = run + 1;
            if run >= minimum {
                assert(digit_run(value@, i + 1) >= minimum);
                return true;
            }
        } else if !(c == '-' || c == ' ') {
            run = 0;
        }
        i = i + 1;
    }
    false
}

/// Whether a text carries credentials or full identifiers: a forbidden phrase in its
/// lowercase form, or twelve digits in a run.
pub open spec fn carries_secret(s: Seq<char>) -> bool {
    (exists|i: int| 0 <= i < forbidden_phrases().len() && occurs_in(lowercase(s), #[trigger] forbidden_phrases()[i]))
        || has_long_digit_run(s, 12)
}

/// Refuses a text that carries credentials or full identifiers.
pub fn reject_prohibited_secret_material(value: &str) -> (r: Result<(), Error>)
    ensures
        r is Ok <==> !carries_secret(value@),
        r matches Err(e) ==> e is Invalid,
{
    let lower = to_lowercase(value);
    let hay = chars_of(lower.as_str());
    let phrases = forbidden_list();
    let mut k: usize = 0;
    while k < phrases.len()
        invariant
            0 <= k <= phrases@.len(),
            phrases@.len() == forbidden_phrases().len(),
            forall|i: int| 0 <= i < phrases@.len() ==> (#[trigger] phrases@[i])@ == forbidden_phrases()[i],
            hay@ == lowercase(value@),
            forall|i: int| 0 <= i < k ==> !occurs_in(lowercase(value@), #[trigger] forbidden_phrases()[i]),
        decreases phrases@.len() - k,
    {
        let needle = chars_of(phrases[k]);
        if find_text(&hay, &needle) {
            return Err(
                invalid("memory contains prohibited credentials or full financial/government identifiers"),
            );
        }
        k = k + 1;
    }
    if contains_long_digit_sequence(value, 12) {
        return Err(
            invalid("memory contains prohibited credentials or full financial/government identifiers"),
        );
    }
    Ok(())
}

/// The rules the fields of a memory meet: a trimmed title of 1 to 200 characters, a
/// trimmed body of 1 to 4000, only normal-sensitivity memories sent to OpenAI, explicit
/// memories kept until deleted, and no credentials or full identifiers.
pub open spec fn memory_fields_ok(
    kind: MemoryKind,
    title: Seq<char>,
    body: Seq<char>,
    sensitivity: MemorySensitivity,
    openai_allowed: bool,
    retention: MemoryRetention,
) -> bool {
    &&& 1 <= trimmed(title).len() <= MAX_MEMORY_TITLE_CHARS
    &&& 1 <= trimmed(body).len() <= MAX_MEMORY_BODY_CHARS
    &&& !(openai_allowed && sensitivity != MemorySensitivity::Normal)
    &&& !(kind != MemoryKind::Summary && retention != MemoryRetention::UntilDeleted)
    &&& !carries_secret(trimmed(title))
    &&& !carries_secret(trimmed(body))
}

/// Checks the fields of a memory.
pub fn validate_memory_fields(
    kind: MemoryKind,
    title: &str,
    body: &str,
    sensitivity: MemorySensitivity,
    openai_allowed: bool,
    retention: MemoryRetention,
) -> (r: Result<(), Error>)
    ensures
        r is Ok <==> memory_fields_ok(kind, title@, body@, sensitivity, openai_allowed, retention),
        r matches Err(e) ==> e is Invalid,
{
    let t = trim(title);
    let b = trim(body);
    let tn = chars_of(t.as_str()).len();
    if tn == 0 || tn > 200 {
        return Err(invalid("memory title must contain 1-200 characters"));
    }
    let bn = chars_of(b.as_str()).len();
    if bn == 0 || bn > 4000 {
        return Err(invalid("memory body must contain 1-4000 characters"));
    }
    if openai_allowed && sensitivity != MemorySensitivity::Normal {
        return Err(invalid("only normal-sensitivity memories may be sent to OpenAI"));
    }
    if kind != MemoryKind::Summary && retention != MemoryRetention::UntilDeleted {
        return Err(invalid("explicit memories must use the until_deleted retention policy"));
    }
    reject_prohibited_secret_material(t.as_str())?;
    reject_prohibited_secret_material(b.as_str())?;
    Ok(())
}

/// Checks a memory the user creates: the field rules, and no summaries.
pub fn validate_create_memory(input: &CreateMemoryInput) -> (r: Result<(), Error>)
    ensures
        r is Ok <==> memory_fields_ok(
            input.kind,
            input.title@,
            input.body@,
            input.sensitivity,
            input.openai_allowed,
            input.retention,
        ) && input.kind != MemoryKind::Summary,
        r matches Err(e) ==> e is Invalid,
{
    validate_memory_fields(
        input.kind,
        input.title.as_str(),
        input.body.as_str(),
        input.sensitivity,
        input.openai_allowed,
        input.retention,
    )?;
    if input.kind == MemoryKind::Summary {
        return Err(invalid("summary memories can only be generated by TM"));
    }
    Ok(())
}

/// Checks a change to a memory: the field rules, and no summaries.
pub fn validate_memory_patch(patch: &MemoryPatch) -> (r: Result<(), Error>)
    ensures
        r is Ok <==> memory_fields_ok(
            patch.kind,
            patch.title@,
            patch.body@,
            patch.sensitivity,
            patch.openai_allowed,
            patch.retention,
        ) && patch.kind != MemoryKind::Summary,
        r matches Err(e) ==> e is Invalid,
{
    validate_memory_fields(
        patch.kind,
        patch.title.as_str(),
        patch.body.as_str(),
        patch.sensitivity,
        patch.openai_allowed,
        patch.retention,
    )?;
    if patch.kind == MemoryKind::Summary {
        return Err(invalid("summary memories can only be regenerated by TM"));
    }
    Ok(())
}

/// Checks a search: a trimmed query of 1 to 256 characters, 1 to 12 items and 256 to
/// 6144 bytes.
pub fn validate_search_filter(filter: &MemorySearchFilter) -> (r: Result<(), Error>)
    ensures
        r is Ok <==> 1 <= trimmed(filter.query@).len() <= MAX_MEMORY_SEARCH_QUERY_CHARS && 1
            <= filter.max_items <= MEMORY_CONTEXT_MAX_ITEMS && 256 <= filter.max_bytes
            <= MEMORY_CONTEXT_MAX_BYTES,
        r matches Err(e) ==> e is Invalid,
{
    let q = trim(filter.query.as_str());
    let n = chars_of(q.as_str()).len();
    if n == 0 || n > 256 {
        return Err(invalid("memory search query must contain 1-256 characters"));
    }
    if filter.max_items < 1 || filter.max_items > 12 {
        return Err(invalid("memory search maxItems must be 1-12"));
    }
    if filter.max_bytes < 256 || filter.max_bytes > 6144 {
        return Err(invalid("memory search maxBytes must be 256-6144"));
    }
    Ok(())
}

/// A memory must not be deleted and must be at the expected (positive) revision.
pub fn require_active_revision(memory: &AssistantMemory, expected_revision: u64) -> (r: Result<
    (),
    Error,
>)
    ensures
        r is Ok <==> memory.deleted_at is None && expected_revision != 0 && memory.revision
            == expected_revision,
        r matches Err(e) ==> e is Conflict,
{
    if memory.deleted_at.is_some() {
        return Err(conflict("memory is deleted"));
    }
    if expected_revision == 0 || memory.revision != expected_revision {
        return Err(conflict("memory revision conflict"));
    }
    Ok(())
}

/// The bytes a memory takes in a context: its title and body in UTF-8 and 96 bytes of
/// framing, saturating.
pub open spec fn context_bytes(m: AssistantMemory) -> int {
    let t = encode_utf8(m.title@).len() as int;
    let b = encode_utf8(m.body@).len() as int;
    let tb = if t + b > usize::MAX { usize::MAX as int } else { t + b };
    if tb + 96 > usize::MAX {
        usize::MAX as int
    } else {
        tb + 96
    }
}

/// The memories a context budget keeps, in candidate order, and the bytes they use: each
/// candidate is kept while there is room for one more item and it fits in the bytes
/// left; a candidate that does not fit is passed over.
pub open spec fn budget_fold(cands: Seq<AssistantMemory>, max_items: int, max_bytes: int) -> (
    Seq<AssistantMemory>,
    int,
)
    decreases cands.len(),
{
    if cands.len() == 0 {
        (Seq::empty(), 0)
    } else {
        let (items, used) = budget_fold(cands.drop_last(), max_items, max_bytes);
        let m = cands.last();
        if items.len() >= max_items {
            (items, used)
        } else if used + context_bytes(m) > max_bytes {
            (items, used)
        } else {
            (items.push(m), used + context_bytes(m))
        }
    }
}

/// Keeps the candidates that fit a context budget, in order. The kept items never exceed
/// `max_items` and their bytes never exceed `max_bytes`.
pub fn apply_context_budget(candidates: Vec<AssistantMemory>, max_items: usize, max_bytes: usize) -> (r:
    MemorySearchResult)
    requires
        max_bytes < usize::MAX,
    ensures
        r.items@ == budget_fold(candidates@, max_items as int, max_bytes as int).0,
        r.bytes_used == budget_fold(candidates@, max_items as int, max_bytes as int).1,
        r.items@.len() <= max_items,
        r.bytes_used <= max_bytes,
        r.omitted == candidates@.len() - r.items@.len(),
        r.vector_service_used == false,
{
    let ghost original = candidates@;
    let total = candidates.len();
    let mut rest = candidates;
    let mut items: Vec<AssistantMemory> = Vec::new();
    let mut used: usize = 0;
    let mut i: usize = 0;
    while rest.len() > 0
        invariant
            0 <= i <= original.len(),
            total == original.len(),
            rest@ == original.skip(i as int),
            (items@, used as int) == budget_fold(original.take(i as int), max_items as int, max_bytes as int),
            items@.len() <= max_items,
            used <= max_bytes,
            max_bytes < usize::MAX,
            items@.len() <= i,
        decreases rest@.len(),
    {
        let ghost prefix = original.take(i + 1);
        assert(prefix.drop_last() == original.take(i as int));
        assert(prefix.last() == rest@[0]);
        let m = rest.remove(0);
        assert(rest@ =~= original.skip(i + 1));
        if items.len() < max_items {
            let t = m.title.as_str().as_bytes().len();
            let b = m.body.as_str().as_bytes().len();
            let bytes = t.saturating_add(b).saturating_add(96);
            if used.saturating_add(bytes) <= max_bytes {
                used = used + bytes;
                items.push(m);
            }
        }
        i = i + 1;
    }
    assert(original.take(original.len() as int) == original);
    let kept = items.len();
    MemorySearchResult {
        items,
        bytes_used: used,
        omitted: total - kept,
        retrieval: "sqlite_fts5_structured_filters".to_owned(),
        vector_service_used: false,
    }
}

/// What `char::is_alphanumeric` says of a character.
pub uninterp spec fn unicode_alphanumeric(c: char) -> bool;

/// `char::is_alphanumeric`.
#[verifier::external_body]
fn is_alphanumeric(c: char) -> (r: bool)
    ensures
        r == unicode_alphanumeric(c),
{
    c.is_alphanumeric()
}

/// Splits a query at whitespace, keeping in each word only its letters, digits and
/// underscores: the words finished so far and the word being read.
pub open spec fn scan_terms(s: Seq<char>) -> (Seq<Seq<char>>, Seq<char>)
    decreases s.len(),
{
    if s.len() == 0 {
        (Seq::empty(), Seq::empty())
    } else {
        let (terms, current) = scan_terms(s.drop_last());
        let c = s.last();
        if is_space_char(c) {
            if current.len() > 0 {
                (terms.push(current), Seq::empty())
            } else {
                (terms, Seq::empty())
            }
        } else if unicode_alphanumeric(c) || c == '_' {
            (terms, current.push(c))
        } else {
            (terms, current)
        }
    }
}

/// The searchable terms of a query, in order; words left empty are dropped.
pub open spec fn search_terms(s: Seq<char>) -> Seq<Seq<char>> {
    let (terms, current) = scan_terms(s);
    if current.len() > 0 {
        terms.push(current)
    } else {
        terms
    }
}

/// A term with each double quote doubled.
pub open spec fn escape_quotes(t: Seq<char>) -> Seq<char>
    decreases t.len(),
{
    if t.len() == 0 {
        Seq::empty()
    } else {
        escape_quotes(t.drop_last()) + if t.last() == '"' {
            seq!['"', '"']
        } else {
            seq![t.last()]
        }
    }
}

/// A term as a prefix query: quoted, followed by `*`.
pub open spec fn prefix_query(t: Seq<char>) -> Seq<char> {
    seq!['"'] + escape_quotes(t) + seq!['"', '*']
}

/// The prefix queries of the first `n` terms joined by ` OR `.
pub open spec fn joined_queries(terms: Seq<Seq<char>>, n: int) -> Seq<char>
    decreases n,
{
    if n <= 0 {
        Seq::empty()
    } else if n == 1 {
        prefix_query(terms[0])
    } else {
        joined_queries(terms, n - 1) + " OR "@ + prefix_query(terms[n - 1])
    }
}

/// The full-text query of a search: the prefix queries of its first sixteen terms, any
/// of which may match.
pub open spec fn fts_query_text(s: Seq<char>) -> Seq<char> {
    let terms = search_terms(s);
    joined_queries(terms, if terms.len() > 16 { 16 } else { terms.len() as int })
}

/// Appends the prefix query of a term.
fn push_prefix_query(out: &mut Vec<char>, term: &Vec<char>)
    ensures
        final(out)@ == old(out)@ + prefix_query(term@),
{
    let ghost start = out@;
    out.push('"');
    let mut i: usize = 0;
    while i < term.len()
        invariant
            0 <= i <= term@.len(),
            out@ == start + seq!['"'] + escape_quotes(term@.subrange(0, i as int)),
        decreases term@.len() - i,
    {
        let ghost sub = term@.subrange(0, i + 1);
        assert(sub.drop_last() == term@.subrange(0, i as int));
        if term[i] == '"' {
            out.push('"');
            out.push('"');
        } else {
            out.push(term[i]);
        }
        i = i + 1;
        assert(out@ =~= start + seq!['"'] + escape_quotes(term@.subrange(0, i as int)));
    }
    assert(term@.subrange(0, term@.len() as int) == term@);
    out.push('"');
    out.push('*');
    assert(out@ =~= start + prefix_query(term@));
}

/// The full-text query of a memory search; a query without searchable terms is refused.
pub fn memory_fts_query(query: &str) -> (r: Result<String, Error>)
    ensures
        r is Ok <==> search_terms(query@).len() > 0,
        r matches Ok(q) ==> q@ == fts_query_text(query@),
        r matches Err(e) ==> e is Invalid,
{
    let chars = chars_of(query);
    let mut terms: Vec<Vec<char>> = Vec::new();
    let mut current: Vec<char> = Vec::new();
    let mut i: usize = 0;
    while i < chars.len()
        invariant
            0 <= i <= chars@.len(),
            chars@ == query@,
            terms@.map_values(|t: Vec<char>| t@) == scan_terms(query@.subrange(0, i as int)).0,
            current@ == scan_terms(query@.subrange(0, i as int)).1,
        decreases chars@.len() - i,
    {
        let ghost sub = query@.subrange(0, i + 1);
        assert(sub.drop_last() == query@.subrange(0, i as int));
        let c = chars[i];
        if is_space(c) {
            if current.len() > 0 {
                let ghost before = terms@.map_values(|t: Vec<char>| t@);
                let done = current;
                current = Vec::new();
                terms.push(done);
                assert(terms@.map_values(|t: Vec<char>| t@) =~= before.push(done@));
            } else {
                current = Vec::new();
            }
        } else if is_alphanumeric(c) || c == '_' {
            current.push(c);
        }
        i = i + 1;
    }
    assert(query@.subrange(0, query@.len() as int) == query@);
    if current.len() > 0 {
        let ghost before = terms@.map_values(|t: Vec<char>| t@);
        terms.push(current);
        assert(terms@.map_values(|t: Vec<char>| t@) =~= before.push(search_terms(query@).last()));
    }
    let ghost all = search_terms(query@);
    assert(terms@.map_values(|t: Vec<char>| t@) == all);
    if terms.len() == 0 {
        return Err(invalid("memory search query has no searchable terms"));
    }
    let n: usize = if terms.len() > 16 { 16 } else { terms.len() };
    let mut out: Vec<char> = Vec::new();
    let mut k: usize = 0;
    while k < n
        invariant
            0 <= k <= n <= terms@.len(),
            n >= 1,
            terms@.map_values(|t: Vec<char>| t@) == all,
            out@ == joined_queries(all, k as int),
        decreases n - k,
    {
        assert(terms@[k as int]@ == all[k as int]);
        if k > 0 {
            out.push(' ');
            out.push('O');
            out.push('R');
            out.push(' ');
            proof {
                reveal_strlit(" OR ");
            }
            assert(out@ =~= joined_queries(all, k as int) + " OR "@);
        }
        push_prefix_query(&mut out, &terms[k]);
        proof {
            if k == 0 {
                assert(joined_queries(all, 1) == prefix_query(all[0]));
                assert(out@ =~= joined_queries(all, 1));
            }
        }
        k = k + 1;
    }
    Ok(string_of(out.as_slice()))
}

/// The sensitivity of a summary: the most restricted of its sources.
pub open spec fn rollup_level(sources: Seq<AssistantMemory>) -> MemorySensitivity {
    if exists|i: int| 0 <= i < sources.len() && #[trigger] sources[i].sensitivity == MemorySensitivity::Restricted {
        MemorySensitivity::Restricted
    } else if exists|i: int| 0 <= i < sources.len() && #[trigger] sources[i].sensitivity == MemorySensitivity::Private {
        MemorySensitivity::Private
    } else {
        MemorySensitivity::Normal
    }
}

/// The sensitivity of a summary of the sources.
pub fn rollup_sensitivity(sources: &Vec<AssistantMemory>) -> (r: MemorySensitivity)
    ensures
        r == rollup_level(sources@),
{
    let mut restricted = false;
    let mut private = false;
    let mut i: usize = 0;
    while i < sources.len()
        invariant
            0 <= i <= sources@.len(),
            restricted == exists|k: int| 0 <= k < i && #[trigger] sources@[k].sensitivity == MemorySensitivity::Restricted,
            private == exists|k: int| 0 <= k < i && #[trigger] sources@[k].sensitivity == MemorySensitivity::Private,
        decreases sources@.len() - i,
    {
        if sources[i].sensitivity == MemorySensitivity::Restricted {
            restricted = true;
        }
        if sources[i].sensitivity == MemorySensitivity::Private {
            private = true;
        }
        i = i + 1;
    }
    if restricted {
        MemorySensitivity::Restricted
    } else if private {
        MemorySensitivity::Private
    } else {
        MemorySensitivity::Normal
    }
}

/// A summary may go to OpenAI only when every source may and is of normal sensitivity.
pub fn rollup_openai_allowed(sources: &Vec<AssistantMemory>) -> (r: bool)
    ensures
        r == forall|i: int| 0 <= i < sources@.len() ==> (#[trigger] sources@[i]).openai_allowed
            && sources@[i].sensitivity == MemorySensitivity::Normal,
{
    let mut i: usize = 0;
    while i < sources.len()
        invariant
            0 <= i <= sources@.len(),
            forall|k: int| 0 <= k < i ==> (#[trigger] sources@[k]).openai_allowed && sources@[k].sensitivity
                == MemorySensitivity::Normal,
        decreases sources@.len() - i,
    {
        if !sources[i].openai_allowed || sources[i].sensitivity != MemorySensitivity::Normal {
            return false;
        }
        i = i + 1;
    }
    true
}

/// The kind of summary a summary is made from: daily summaries from memories, weekly
/// from daily summaries, monthly from weekly ones.
pub fn source_period_kind(kind: MemoryPeriodKind) -> (r: Option<MemoryPeriodKind>)
    ensures
        r == (match kind {
            MemoryPeriodKind::Daily => None,
            MemoryPeriodKind::Weekly => Some(MemoryPeriodKind::Daily),
            MemoryPeriodKind::Monthly => Some(MemoryPeriodKind::Weekly),
        }),
{
    match kind {
        MemoryPeriodKind::Daily => None,
        MemoryPeriodKind::Weekly => Some(MemoryPeriodKind::Daily),
        MemoryPeriodKind::Monthly => Some(MemoryPeriodKind::Weekly),
    }
}

/// How long a summary is kept: daily for 90 days, weekly for 365, monthly for 1095.
pub fn summary_retention(kind: MemoryPeriodKind) -> (r: (MemoryRetention, u32))
    ensures
        r == (match kind {
            MemoryPeriodKind::Daily => (MemoryRetention::Daily90d, 90u32),
            MemoryPeriodKind::Weekly => (MemoryRetention::Weekly365d, 365u32),
            MemoryPeriodKind::Monthly => (MemoryRetention::Monthly1095d, 1_095u32),
        }),
{
    match kind {
        MemoryPeriodKind::Daily => (MemoryRetention::Daily90d, 90),
        MemoryPeriodKind::Weekly => (MemoryRetention::Weekly365d, 365),
        MemoryPeriodKind::Monthly => (MemoryRetention::Monthly1095d, 1_095),
    }
}

/// The day a summary of a period expires: its retention after the period ends.
pub fn summary_expiry(kind: MemoryPeriodKind, period_end: CivilDate) -> (r: Result<CivilDate, Error>)
    requires
        representable(period_end),
    ensures
        r is Ok <==> representable(days_after(period_end, summary_retention_days(kind) as nat)),
        r matches Ok(d) ==> d == days_after(period_end, summary_retention_days(kind) as nat),
        r matches Err(e) ==> e is Invalid,
{
    let (_, days) = summary_retention(kind);
    match add_days(period_end, days) {
        Some(d) => Ok(d),
        None => Err(invalid("summary retention date is out of range")),
    }
}

/// The days a summary of a kind of period is kept.
pub open spec fn summary_retention_days(kind: MemoryPeriodKind) -> int {
    match kind {
        MemoryPeriodKind::Daily => 90,
        MemoryPeriodKind::Weekly => 365,
        MemoryPeriodKind::Monthly => 1_095,
    }
}

/// One line of a summary body: the memory's kind and trimmed title.
pub open spec fn rollup_line(m: AssistantMemory) -> Seq<char> {
    "- ["@ + m.kind.name() + "] "@ + trimmed(m.title@) + "\n"@
}

/// The first line of a summary body, counting its sources.
pub open spec fn rollup_header(n: nat) -> Seq<char> {
    "Deterministic local summary of "@ + decimal(n) + " memories.\n"@
}

/// Appends the lines of the sources from `i` on, at most fifty in all, stopping at the
/// first line that would take the body past 4000 bytes.
pub open spec fn rollup_append(sources: Seq<AssistantMemory>, i: int, body: Seq<char>) -> Seq<char>
    decreases sources.len() - i,
{
    if i < 0 || i >= sources.len() || i >= 50 {
        body
    } else {
        let line = rollup_line(sources[i]);
        if encode_utf8(body).len() + encode_utf8(line).len() > MAX_MEMORY_BODY_CHARS {
            body
        } else {
            rollup_append(sources, i + 1, body + line)
        }
    }
}

/// The body of a summary of the sources.
pub open spec fn rollup_body_text(sources: Seq<AssistantMemory>) -> Seq<char> {
    trimmed(rollup_append(sources, 0, rollup_header(sources.len())))
}

/// Renders the body of a summary: a header line, then one line per source.
pub fn render_rollup_body(sources: &Vec<AssistantMemory>) -> (r: String)
    ensures
        r@ == rollup_body_text(sources@),
{
    let count = u64_to_decimal(sources.len() as u64);
    let mut body = "Deterministic local summary of ".to_owned().concat(count.as_str()).concat(" memories.\n");
    let ghost header = body@;
    assert(header == rollup_header(sources@.len()));
    let mut i: usize = 0;
    let mut stopped = false;
    while !stopped && i < sources.len() && i < 50
        invariant
            0 <= i <= sources@.len(),
            rollup_append(sources@, 0, header) == (if stopped {
                body@
            } else {
                rollup_append(sources@, i as int, body@)
            }),
        decreases sources@.len() - i + (if stopped { 0int } else { 1 }),
    {
        let m = &sources[i];
        let title = trim(m.title.as_str());
        let line = "- [".to_owned().concat(m.kind.as_str()).concat("] ").concat(title.as_str()).concat(
            "\n",
        );
        assert(line@ == rollup_line(sources@[i as int]));
        if body.as_str().as_bytes().len().saturating_add(line.as_str().as_bytes().len()) > 4000 {
            stopped = true;
        } else {
            body.append(line.as_str());
            i = i + 1;
        }
    }
    trim(body.as_str())
}

/// The members of a memory's content document, in the order they are given.
pub open spec fn memory_document_keys() -> Seq<Seq<char>> {
    seq!["kind"@, "title"@, "body"@, "sensitivity"@, "openaiAllowed"@, "retention"@]
}

/// The document a memory's content digest is taken of: a JSON object of its kind,
/// title, body, sensitivity, OpenAI permission and retention, the enumerations by the
/// names serde gives them.
pub open spec fn memory_document(
    kind: MemoryKind,
    title: Seq<char>,
    body: Seq<char>,
    sensitivity: MemorySensitivity,
    openai_allowed: bool,
    retention: MemoryRetention,
) -> Seq<char> {
    json_object_text(
        memory_document_keys(),
        seq![
            json_string_text(kind.name()),
            json_string_text(title),
            json_string_text(body),
            json_string_text(sensitivity.name()),
            if openai_allowed { "true"@ } else { "false"@ },
            json_string_text(retention.serde_name()),
        ],
    )
}

/// The content digest of a memory: the SHA-256 of its content document.
pub fn memory_content_hash(
    kind: MemoryKind,
    title: &str,
    body: &str,
    sensitivity: MemorySensitivity,
    openai_allowed: bool,
    retention: MemoryRetention,
) -> (r: String)
    ensures
        r@ == sha256_lower_hex(
            encode_utf8(memory_document(kind, title@, body@, sensitivity, openai_allowed, retention)),
        ),
{
    let keys: Vec<&str> = vec!["kind", "title", "body", "sensitivity", "openaiAllowed", "retention"];
    let values: Vec<String> = vec![
        string_text(kind.as_str()),
        string_text(title),
        string_text(body),
        string_text(sensitivity.as_str()),
        bool_text(openai_allowed),
        string_text(retention.serde_str()),
    ];
    assert(keys@.map_values(|k: &str| k@) =~= memory_document_keys());
    let ghost vs = seq![
        json_string_text(kind.name()),
        json_string_text(title@),
        json_string_text(body@),
        json_string_text(sensitivity.name()),
        if openai_allowed { "true"@ } else { "false"@ },
        json_string_text(retention.serde_name()),
    ];
    assert(values@.map_values(|v: String| v@) =~= vs);
    proof {
        let d = json_read_depth();
        lemma_string_written(kind.name(), d);
        lemma_string_written(title@, d);
        lemma_string_written(body@, d);
        lemma_string_written(sensitivity.name(), d);
        lemma_string_written(retention.serde_name(), d);
        assert forall|k: int| 0 <= k < vs.len() implies written_json(#[trigger] vs[k], d) by {
            if k == 0 {
            } else if k == 1 {
            } else if k == 2 {
            } else if k == 3 {
            } else if k == 4 {
            } else {
            }
        }
    }
    let document = object_text(&keys, &values).unwrap();
    sha256_hex(document.as_str())
}

/// The generator a rollup's provenance names.
pub open spec fn rollup_generator() -> Seq<char> {
    "tm-local-deterministic-rollup-v1"@
}

/// The content digests of the memories, as JSON strings, in order.
pub open spec fn source_hash_texts(sources: Seq<AssistantMemory>) -> Seq<Seq<char>> {
    sources.map_values(|m: AssistantMemory| json_string_text(m.content_sha256@))
}

/// The provenance document of a rollup: its generator, how many memories it summarizes,
/// and their content digests in order.
pub open spec fn rollup_provenance(sources: Seq<AssistantMemory>) -> Seq<char> {
    json_object_text(
        seq!["generator"@, "sourceCount"@, "sourceHashes"@],
        seq![
            json_string_text(rollup_generator()),
            json_integer_text(sources.len() as int),
            json_array_text(source_hash_texts(sources)),
        ],
    )
}

/// The provenance document of a rollup of the given memories.
pub fn rollup_provenance_json(sources: &Vec<AssistantMemory>) -> (r: String)
    requires
        sources@.len() <= i64::MAX,
    ensures
        r@ == rollup_provenance(sources@),
{
    let ghost d = json_read_depth();
    let ghost texts = source_hash_texts(sources@);
    let mut hashes: Vec<String> = Vec::new();
    let mut i: usize = 0;
    while i < sources.len()
        invariant
            0 <= i <= sources@.len(),
            hashes@.len() == i,
            forall|j: int| 0 <= j < i ==> (#[trigger] hashes@[j])@ == json_string_text(sources@[j].content_sha256@),
        decreases sources@.len() - i,
    {
        hashes.push(string_text(sources[i].content_sha256.as_str()));
        i = i + 1;
    }
    assert(hashes@.map_values(|v: String| v@) =~= texts);
    proof {
        assert forall|k: int| 0 <= k < texts.len() implies written_json(#[trigger] texts[k], d) by {
            lemma_string_written(sources@[k].content_sha256@, d);
        }
        assert forall|k: int| 0 <= k < texts.len() implies written_json(#[trigger] texts[k], (d - 1) as nat) by {
            lemma_string_written(sources@[k].content_sha256@, (d - 1) as nat);
        }
        assert(all_written(texts, (d - 1) as nat));
        lemma_array_written(texts, (d - 1) as nat);
    }
    let array = array_text(&hashes).unwrap();
    let keys: Vec<&str> = vec!["generator", "sourceCount", "sourceHashes"];
    let values: Vec<String> = vec![
        string_text("tm-local-deterministic-rollup-v1"),
        integer_text(sources.len() as i64),
        array,
    ];
    let ghost vs = seq![
        json_string_text(rollup_generator()),
        json_integer_text(sources@.len() as int),
        json_array_text(texts),
    ];
    assert(keys@.map_values(|k: &str| k@) =~= seq!["generator"@, "sourceCount"@, "sourceHashes"@]);
    assert(values@.map_values(|v: String| v@) =~= vs);
    proof {
        lemma_string_written(rollup_generator(), d);
        lemma_integer_written(sources@.len() as int, d);
        assert forall|k: int| 0 <= k < vs.len() implies written_json(#[trigger] vs[k], d) by {
            if k == 0 {
            } else if k == 1 {
            } else {
            }
        }
    }
    object_text(&keys, &values).unwrap()
}

/// The key under which a period's summary is kept: its kind and first day.
pub open spec fn summary_key_text(kind: MemoryPeriodKind, period_start: CivilDate) -> Seq<char> {
    kind.name() + ":"@ + crate::calendar::iso_date_text(period_start)
}

/// The key under which a period's summary is kept.
pub fn summary_key(kind: MemoryPeriodKind, period_start: CivilDate) -> (r: String)
    ensures
        r@ == summary_key_text(kind, period_start),
{
    kind.as_str().to_owned().concat(":").concat(crate::calendar::iso_date(period_start).as_str())
}

/// The title of a period's summary.
pub open spec fn rollup_title_text(kind: MemoryPeriodKind, start: CivilDate, end: CivilDate) -> Seq<char> {
    kind.name() + " memory summary: "@ + crate::calendar::iso_date_text(start) + " to "@
        + crate::calendar::iso_date_text(end)
}

/// The title of a period's summary.
pub fn rollup_title(kind: MemoryPeriodKind, start: CivilDate, end: CivilDate) -> (r: String)
    ensures
        r@ == rollup_title_text(kind, start, end),
{
    kind.as_str().to_owned().concat(" memory summary: ").concat(crate::calendar::iso_date(start).as_str()).concat(
        " to ",
    ).concat(crate::calendar::iso_date(end).as_str())
}

/// When a period's summary expires: midnight UTC at the start of the day its retention
/// ends.
pub fn summary_expires_at(kind: MemoryPeriodKind, period_end: CivilDate) -> (r: Result<String, Error>)
    requires
        representable(period_end),
    ensures
        r is Ok <==> representable(days_after(period_end, summary_retention_days(kind) as nat)),
        r matches Ok(t) ==> t@ == crate::calendar::iso_date_text(
            days_after(period_end, summary_retention_days(kind) as nat),
        ) + "T00:00:00.000Z"@,
        r matches Err(e) ==> e is Invalid,
{
    let expires_on = summary_expiry(kind, period_end)?;
    Ok(crate::calendar::iso_date(expires_on).concat("T00:00:00.000Z"))
}

/// The three periods whose summaries are regenerated for a day: the day itself, its
/// week from Monday to Sunday, and its month.
#[derive(Debug, Clone, Copy, PartialEq, Eq, Structural)]
pub struct RollupPeriods {
    pub day: CivilDate,
    pub week_start: CivilDate,
    pub week_end: CivilDate,
    pub month_start: CivilDate,
    pub month_end: CivilDate,
}

/// The periods whose summaries are regenerated for a day.
pub fn rollup_periods(as_of: CivilDate) -> (r: Result<RollupPeriods, Error>)
    requires
        representable(as_of),
    ensures
        r is Ok <==> {
            &&& representable(crate::calendar::days_before(as_of, crate::calendar::weekday_of(as_of) as nat))
            &&& representable(days_after(crate::calendar::days_before(as_of, crate::calendar::weekday_of(as_of) as nat), 6))
            &&& !(as_of.year == crate::calendar::MAX_YEAR && as_of.month == 12)
        },
        r matches Ok(p) ==> {
            &&& p.day == as_of
            &&& p.week_start == crate::calendar::days_before(as_of, crate::calendar::weekday_of(as_of) as nat)
            &&& p.week_end == days_after(p.week_start, 6)
            &&& p.month_start == crate::calendar::first_of_month(as_of)
            &&& p.month_end == crate::calendar::last_of_month(as_of.year as int, as_of.month as int)
        },
        r matches Err(e) ==> e is Invalid,
{
    let from_monday = crate::calendar::weekday(as_of);
    let week_start = match crate::calendar::sub_days(as_of, from_monday) {
        Some(d) => d,
        None => {
            return Err(invalid("weekly summary date is out of range"));
        },
    };
    let week_end = match add_days(week_start, 6) {
        Some(d) => d,
        None => {
            return Err(invalid("weekly summary date is out of range"));
        },
    };
    let month_start = match crate::calendar::from_ymd(as_of.year, as_of.month, 1) {
        Some(d) => d,
        None => {
            return Err(invalid("monthly summary date is invalid"));
        },
    };
    let month_end = match crate::recurring::last_day_of_month(as_of.year, as_of.month) {
        Ok(d) => d,
        Err(_) => {
            return Err(invalid("monthly summary date is out of range"));
        },
    };
    Ok(RollupPeriods { day: as_of, week_start, week_end, month_start, month_end })
}

/// What regenerating a period's summary does to the stored summary.
#[derive(Debug, Clone, Copy, PartialEq, Eq, Structural)]
pub enum RollupAction {
    /// No sources: a stored summary is deleted, if there is a live one.
    Remove,
    /// The stored summary already says this: nothing changes.
    Keep,
    /// The stored summary is rewritten (and restored, if deleted).
    Rewrite,
    /// A new summary is stored.
    Create,
}

/// Decides what regenerating a summary does, from whether the period has sources and
/// the digest and deletion of a stored summary.
pub fn rollup_action(has_sources: bool, stored: &Option<(String, bool)>, content_sha256: &str) -> (r:
    RollupAction)
    ensures
        r == (if !has_sources {
            RollupAction::Remove
        } else {
            match stored {
                None => RollupAction::Create,
                Some((sha, deleted)) => if sha@ != content_sha256@ || *deleted {
                    RollupAction::Rewrite
                } else {
                    RollupAction::Keep
                },
            }
        }),
{
    if !has_sources {
        return RollupAction::Remove;
    }
    match stored {
        None => RollupAction::Create,
        Some((sha, deleted)) => {
            if !str_eq(sha.as_str(), content_sha256) || *deleted {
                RollupAction::Rewrite
            } else {
                RollupAction::Keep
            }
        },
    }
}

} // verus!
