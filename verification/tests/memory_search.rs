use tm_core::memory::{
    apply_context_budget, memory_fts_query, render_rollup_body, rollup_openai_allowed, rollup_provenance_json,
    rollup_sensitivity, AssistantMemory, MemoryKind, MemoryRetention, MemorySensitivity,
    MemorySourceType,
};

fn memory(title: &str, body: &str, sensitivity: MemorySensitivity, openai_allowed: bool) -> AssistantMemory {
    AssistantMemory {
        id: title.to_owned(),
        kind: MemoryKind::Preference,
        title: title.to_owned(),
        body: body.to_owned(),
        source_type: MemorySourceType::Explicit,
        source_id: None,
        provenance_json: "{}".to_owned(),
        sensitivity,
        openai_allowed,
        retention: MemoryRetention::UntilDeleted,
        expires_at: None,
        period_kind: None,
        period_start: None,
        period_end: None,
        summary_key: None,
        revision: 1,
        content_sha256: "0".repeat(64),
        created_at: "c".to_owned(),
        updated_at: "u".to_owned(),
        deleted_at: None,
    }
}

#[test]
fn search_terms_become_prefix_phrases_joined_by_or() {
    assert_eq!(memory_fts_query("coffee  beans!").unwrap(), "\"coffee\"* OR \"beans\"*");
    assert_eq!(memory_fts_query("snake_case \"quoted\"").unwrap(), "\"snake_case\"* OR \"quoted\"*");
    assert!(memory_fts_query("  !!! ??? ").is_err());
}

#[test]
fn search_keeps_at_most_sixteen_terms() {
    let query = (1..=20).map(|n| format!("t{n}")).collect::<Vec<_>>().join(" ");
    let fts = memory_fts_query(&query).unwrap();
    assert_eq!(fts.matches(" OR ").count(), 15);
    assert!(fts.ends_with("\"t16\"*"));
}

#[test]
fn the_context_budget_skips_what_does_not_fit_and_stops_at_the_item_limit() {
    let candidates = vec![
        memory("a", "x", MemorySensitivity::Normal, true),
        memory("big", &"y".repeat(200), MemorySensitivity::Normal, true),
        memory("c", "z", MemorySensitivity::Normal, true),
        memory("d", "w", MemorySensitivity::Normal, true),
    ];
    // Each small item costs its title, its body and 96 bytes of framing: 98 bytes.
    let result = apply_context_budget(candidates, 2, 256);
    let kept: Vec<&str> = result.items.iter().map(|m| m.id.as_str()).collect();
    assert_eq!(kept, vec!["a", "c"]);
    assert_eq!(result.bytes_used, 196);
    assert_eq!(result.omitted, 2);
    assert!(!result.vector_service_used);
}

#[test]
fn a_rollup_lists_each_source_under_a_header() {
    let sources = vec![
        memory("  tea  ", "b", MemorySensitivity::Normal, true),
        memory("walks", "b", MemorySensitivity::Private, true),
    ];
    assert_eq!(
        render_rollup_body(&sources),
        "Deterministic local summary of 2 memories.\n- [preference] tea\n- [preference] walks"
    );
}

#[test]
fn a_rollup_is_as_sensitive_as_its_most_sensitive_source() {
    let normal = memory("a", "b", MemorySensitivity::Normal, true);
    let private = memory("c", "d", MemorySensitivity::Private, true);
    let restricted = memory("e", "f", MemorySensitivity::Restricted, false);
    assert_eq!(rollup_sensitivity(&vec![normal.clone()]), MemorySensitivity::Normal);
    assert_eq!(rollup_sensitivity(&vec![normal.clone(), private.clone()]), MemorySensitivity::Private);
    assert_eq!(rollup_sensitivity(&vec![private, restricted.clone()]), MemorySensitivity::Restricted);
    assert!(rollup_openai_allowed(&vec![normal.clone()]));
    assert!(!rollup_openai_allowed(&vec![normal, restricted]));
}

#[test]
fn a_rollup_records_its_generator_and_source_digests() {
    let mut first = memory("a", "one", MemorySensitivity::Normal, true);
    first.content_sha256 = "1".repeat(64);
    let mut second = memory("b", "two", MemorySensitivity::Normal, true);
    second.content_sha256 = "2".repeat(64);
    let written = rollup_provenance_json(&vec![first, second]);
    let mut expected = serde_json::Map::new();
    expected.insert("generator".to_owned(), serde_json::Value::from("tm-local-deterministic-rollup-v1"));
    expected.insert("sourceCount".to_owned(), serde_json::Value::from(2));
    expected.insert(
        "sourceHashes".to_owned(),
        serde_json::Value::Array(vec![
            serde_json::Value::from("1".repeat(64)),
            serde_json::Value::from("2".repeat(64)),
        ]),
    );
    assert_eq!(written, serde_json::Value::Object(expected).to_string());
    assert_eq!(
        rollup_provenance_json(&Vec::new()),
        "{\"generator\":\"tm-local-deterministic-rollup-v1\",\"sourceCount\":0,\"sourceHashes\":[]}"
    );
}
