use tm_core::export::{blob_text, encode_hex, exported_tables, render_markdown};

#[test]
fn hex_is_lowercase_two_digits_per_byte() {
    assert_eq!(encode_hex(&[0x0a, 0x14, 0x1e]), "0a141e");
    assert_eq!(encode_hex(&[0x00, 0xff, 0xab]), "00ffab");
    assert_eq!(encode_hex(&[]), "");
}

#[test]
fn blobs_are_written_with_a_hex_prefix() {
    assert_eq!(blob_text(&[0xde, 0xad]), "hex:dead");
    assert_eq!(blob_text(&[]), "hex:");
}

#[test]
fn the_export_covers_thirty_tables_from_migrations_to_app_state() {
    let tables = exported_tables();
    assert_eq!(tables.len(), 30);
    assert_eq!(tables[0], "schema_migrations");
    assert_eq!(tables[29], "app_state");
}

#[test]
fn markdown_without_tables_is_only_the_header() {
    let text = render_markdown(Some("2026-07-21T00:00:00Z"), 12, None);
    assert_eq!(
        text,
        "# TM 전체 내보내기\n\n- 내보낸 시각(UTC): `2026-07-21T00:00:00Z`\n- 사용자 시간대: `Asia/Seoul`\n- 스키마 버전: `12`\n\n"
    );
}

#[test]
fn a_missing_export_time_reads_unknown() {
    let text = render_markdown(None, 3, None);
    assert!(text.contains("- 내보낸 시각(UTC): `unknown`\n"));
}

#[test]
fn markdown_lists_every_table_with_its_count_and_rows() {
    let tables = exported_tables();
    let mut sections: Vec<(usize, String)> = tables.iter().map(|_| (0, "[]".to_owned())).collect();
    sections[2] = (1, "[\n  {\n    \"id\": \"t1\"\n  }\n]".to_owned());
    let text = render_markdown(Some("now"), 1, Some(&sections));
    assert!(text.contains("## `schema_migrations` (0)\n\n````json\n[]\n````\n\n"));
    assert!(text.contains("## `tasks` (1)\n\n````json\n[\n  {\n    \"id\": \"t1\"\n  }\n]\n````\n\n"));
    assert!(text.ends_with("## `app_state` (0)\n\n````json\n[]\n````\n\n"));
}
