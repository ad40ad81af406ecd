//! The full export: which tables it carries, how binary cells are written, and the
//! Markdown rendering of a snapshot.
use vstd::prelude::*;
use vstd::string::*;

use crate::text::{decimal, signed_padded_decimal, signed_zero_padded, u64_to_decimal};

verus! {

/// The tables a full export and a migration manifest cover, in export order.
pub open spec fn exported_table_names() -> Seq<Seq<char>> {
    seq![
        "schema_migrations"@,
        "projects"@,
        "tasks"@,
        "checklist_items"@,
        "tags"@,
        "task_tags"@,
        "task_day_entries"@,
        "task_events"@,
        "work_sessions"@,
        "session_tasks"@,
        "worklogs"@,
        "notes"@,
        "entity_links"@,
        "attachments"@,
        "digest_deliveries"@,
        "change_requests"@,
        "change_request_events"@,
        "mutation_idempotency_records"@,
        "mutation_audit_events"@,
        "ai_budget_ledger"@,
        "assistant_action_requests"@,
        "assistant_action_events"@,
        "assistant_memories"@,
        "assistant_memory_sources"@,
        "assistant_memory_events"@,
        "scheduler_jobs"@,
        "scheduler_runs"@,
        "scheduler_attempts"@,
        "scheduler_effects"@,
        "app_state"@,
    ]
}

/// The names of the exported tables, in export order.
pub fn exported_tables() -> (v: Vec<&'static str>)
    ensures
        v@.len() == exported_table_names().len(),
        forall|i: int| 0 <= i < v@.len() ==> #[trigger] v@[i]@ == exported_table_names()[i],
{
    let mut v: Vec<&'static str> = Vec::new();
    v.push("schema_migrations");
    v.push("projects");
    v.push("tasks");
    v.push("checklist_items");
    v.push("tags");
    v.push("task_tags");
    v.push("task_day_entries");
    v.push("task_events");
    v.push("work_sessions");
    v.push("session_tasks");
    v.push("worklogs");
    v.push("notes");
    v.push("entity_links");
    v.push("attachments");
    v.push("digest_deliveries");
    v.push("change_requests");
    v.push("change_request_events");
    v.push("mutation_idempotency_records");
    v.push("mutation_audit_events");
    v.push("ai_budget_ledger");
    v.push("assistant_action_requests");
    v.push("assistant_action_events");
    v.push("assistant_memories");
    v.push("assistant_memory_sources");
    v.push("assistant_memory_events");
    v.push("scheduler_jobs");
    v.push("scheduler_runs");
    v.push("scheduler_attempts");
    v.push("scheduler_effects");
    v.push("app_state");
    v
}

/// The lowercase hexadecimal digit of a value below sixteen.
pub open spec fn hex_digit(d: nat) -> char {
    if d < 10 {
        (d + 48) as char
    } else {
        (d + 87) as char
    }
}

/// Each byte as two lowercase hexadecimal digits, high digit first.
pub open spec fn hex_text(bytes: Seq<u8>) -> Seq<char>
    decreases bytes.len(),
{
    if bytes.len() == 0 {
        Seq::empty()
    } else {
        hex_text(bytes.drop_last()) + seq![
            hex_digit((bytes.last() / 16) as nat),
            hex_digit((bytes.last() % 16) as nat),
        ]
    }
}

fn hex_digit_char(d: u8) -> (c: char)
    requires
        d < 16,
    ensures
        c == hex_digit(d as nat),
{
    if d < 10 {
        ((d + 48) as u8) as char
    } else {
        ((d + 87) as u8) as char
    }
}

/// Writes bytes as lowercase hexadecimal.
pub fn encode_hex(bytes: &[u8]) -> (s: String)
    ensures
        s@ == hex_text(bytes@),
{
    let mut s = String::new();
    let mut i: usize = 0;
    while i < bytes.len()
        invariant
            0 <= i <= bytes@.len(),
            s@ == hex_text(bytes@.subrange(0, i as int)),
        decreases bytes@.len() - i,
    {
        let b = bytes[i];
        crate::text::push_char(&mut s, hex_digit_char(b / 16));
        crate::text::push_char(&mut s, hex_digit_char(b % 16));
        i = i + 1;
        assert(bytes@.subrange(0, i as int).drop_last() =~= bytes@.subrange(0, i - 1));
        assert(s@ =~= hex_text(bytes@.subrange(0, i as int)));
    }
    assert(bytes@.subrange(0, bytes@.len() as int) =~= bytes@);
    s
}

/// How a binary cell is written in the export: `hex:` and its bytes in hexadecimal.
pub fn blob_text(bytes: &[u8]) -> (s: String)
    ensures
        s@ == "hex:"@ + hex_text(bytes@),
{
    "hex:".to_owned().concat(encode_hex(bytes).as_str())
}

/// The head of the Markdown export.
pub open spec fn markdown_header(exported_at: Seq<char>, schema_version: i64) -> Seq<char> {
    "# TM 전체 내보내기\n\n- 내보낸 시각(UTC): `"@ + exported_at + "`\n- 사용자 시간대: `Asia/Seoul`\n- 스키마 버전: `"@
        + signed_zero_padded(schema_version as int, 0) + "`\n\n"@
}

/// One table's section: its name, its row count, and its rows as pretty JSON.
pub open spec fn markdown_section(table: Seq<char>, count: nat, rows_json: Seq<char>) -> Seq<
    char,
> {
    "## `"@ + table + "` ("@ + decimal(count) + ")\n\n````json\n"@ + rows_json + "\n````\n\n"@
}

/// The sections of the first `n` exported tables.
pub open spec fn markdown_sections(sections: Seq<(usize, String)>, n: nat) -> Seq<char>
    decreases n,
{
    if n == 0 {
        Seq::empty()
    } else {
        markdown_sections(sections, (n - 1) as nat) + markdown_section(
            exported_table_names()[n - 1],
            sections[n - 1].0 as nat,
            sections[n - 1].1@,
        )
    }
}

/// The whole Markdown export.
pub open spec fn markdown_export(
    exported_at: Option<Seq<char>>,
    schema_version: i64,
    sections: Option<Seq<(usize, String)>>,
) -> Seq<char> {
    let at = match exported_at {
        Some(t) => t,
        None => "unknown"@,
    };
    markdown_header(at, schema_version) + match sections {
        Some(s) => markdown_sections(s, exported_table_names().len()),
        None => Seq::empty(),
    }
}

/// Renders the Markdown export of a snapshot. `sections`, when the snapshot holds its
/// tables, gives for each exported table, in export order, its row count and its rows
/// written as pretty JSON; a missing export time reads `unknown`.
pub fn render_markdown(
    exported_at: Option<&str>,
    schema_version: i64,
    sections: Option<&Vec<(usize, String)>>,
) -> (s: String)
    requires
        sections matches Some(v) ==> v@.len() == exported_table_names().len(),
    ensures
        s@ == markdown_export(
            match exported_at {
                Some(t) => Some(t@),
                None => None,
            },
            schema_version,
            match sections {
                Some(v) => Some(v@),
                None => None,
            },
        ),
{
    let at = match exported_at {
        Some(t) => t,
        None => "unknown",
    };
    let mut out = "# TM 전체 내보내기\n\n- 내보낸 시각(UTC): `".to_owned().concat(at).concat(
        "`\n- 사용자 시간대: `Asia/Seoul`\n- 스키마 버전: `",
    ).concat(signed_padded_decimal(schema_version, 0).as_str()).concat("`\n\n");
    let ghost head = out@;
    match sections {
        None => {},
        Some(v) => {
            let tables = exported_tables();
            let mut i: usize = 0;
            while i < tables.len()
                invariant
                    0 <= i <= tables@.len(),
                    tables@.len() == exported_table_names().len(),
                    v@.len() == exported_table_names().len(),
                    forall|k: int| 0 <= k < tables@.len() ==> #[trigger] tables@[k]@ == exported_table_names()[k],
                    out@ == head + markdown_sections(v@, i as nat),
                decreases tables@.len() - i,
            {
                let count = u64_to_decimal(v[i].0 as u64);
                out = out.concat("## `").concat(tables[i]).concat("` (").concat(count.as_str()).concat(
                    ")\n\n````json\n",
                ).concat(v[i].1.as_str()).concat("\n````\n\n");
                i = i + 1;
                assert(out@ =~= head + markdown_sections(v@, i as nat));
            }
        },
    }
    out
}

} // verus!
