use tm_core::error::Error;
use tm_core::hashing::sha256_hex;
use tm_core::migration::{
    build_manifest, bytes_less, canonical_row, check_database_health, check_migration_ledger,
    check_schema_version, conclude_dry_run, debug_list_text, insert_table, logical_manifest_hash,
    migration_ledger, sort_rows, table_manifest, BackupArtifact, MigrationTableManifest, SqlValue,
};

fn columns() -> Vec<String> {
    vec!["id".to_owned(), "name".to_owned()]
}

fn row(id: i64, name: &str) -> Vec<SqlValue> {
    vec![SqlValue::Integer(id), SqlValue::Text(name.as_bytes().to_vec())]
}

const TWO_ROW_DIGEST: &str = "1affed9e3f34f3d08ef6e32997b57c190b90771ccde04e5a967fa48e2a69c48f";

#[test]
fn sha256_of_abc_is_the_published_vector() {
    assert_eq!(
        sha256_hex("abc"),
        "ba7816bf8f01cfea414140de5dae2223b00361a396177a9cb410ff61f20015ad"
    );
}

#[test]
fn table_manifest_digests_canonical_rows() {
    let manifest = table_manifest("t", &columns(), &vec![row(2, "b"), row(1, "a")]).unwrap();
    assert_eq!(manifest.row_count, 2);
    assert_eq!(manifest.sha256, TWO_ROW_DIGEST);
}

#[test]
fn table_digest_ignores_the_order_rows_were_read_in() {
    let forward = table_manifest("t", &columns(), &vec![row(1, "a"), row(2, "b")]).unwrap();
    let backward = table_manifest("t", &columns(), &vec![row(2, "b"), row(1, "a")]).unwrap();
    assert_eq!(forward.sha256, backward.sha256);
    assert_eq!(forward.row_count, backward.row_count);
}

#[test]
fn table_digest_changes_with_a_value() {
    let one = table_manifest("t", &columns(), &vec![row(1, "a")]).unwrap();
    let other = table_manifest("t", &columns(), &vec![row(1, "b")]).unwrap();
    assert_ne!(one.sha256, other.sha256);
}

#[test]
fn a_table_without_columns_is_refused() {
    let result = table_manifest("missing", &Vec::new(), &Vec::new());
    assert_eq!(
        result.unwrap_err(),
        Error::Invariant("migration table is missing or has no columns: missing".to_owned())
    );
}

#[test]
fn canonical_row_frames_names_and_tags_values() {
    let bytes = canonical_row(&vec!["a".to_owned()], &vec![SqlValue::Null]);
    assert_eq!(bytes, vec![0, 0, 0, 0, 0, 0, 0, 1, b'a', 0]);
    let bytes = canonical_row(&vec!["n".to_owned()], &vec![SqlValue::Integer(-1)]);
    assert_eq!(
        bytes,
        vec![0, 0, 0, 0, 0, 0, 0, 1, b'n', 1, 255, 255, 255, 255, 255, 255, 255, 255]
    );
    let bytes = canonical_row(&vec!["r".to_owned()], &vec![SqlValue::Real(1.5f64.to_bits())]);
    let mut expected = vec![0, 0, 0, 0, 0, 0, 0, 1, b'r', 2];
    expected.extend_from_slice(&1.5f64.to_bits().to_be_bytes());
    assert_eq!(bytes, expected);
    let bytes = canonical_row(&vec!["b".to_owned()], &vec![SqlValue::Blob(vec![7, 8])]);
    assert_eq!(
        bytes,
        vec![0, 0, 0, 0, 0, 0, 0, 1, b'b', 4, 0, 0, 0, 0, 0, 0, 0, 2, 7, 8]
    );
}

#[test]
fn rows_sort_in_byte_order_with_prefixes_first() {
    let sorted = sort_rows(vec![vec![2], vec![1, 5], vec![1], vec![0, 9]]);
    assert_eq!(sorted, vec![vec![0, 9], vec![1], vec![1, 5], vec![2]]);
    assert!(bytes_less(&[1], &[1, 0]));
    assert!(!bytes_less(&[1, 0], &[1]));
    assert!(!bytes_less(&[3], &[3]));
}

#[test]
fn tables_are_kept_in_name_order_and_replaced_by_name() {
    let mut tables = Vec::new();
    let entry = |n: u64| MigrationTableManifest { row_count: n, sha256: format!("{n}") };
    insert_table(&mut tables, "tasks".to_owned(), entry(1));
    insert_table(&mut tables, "notes".to_owned(), entry(2));
    insert_table(&mut tables, "projects".to_owned(), entry(3));
    insert_table(&mut tables, "notes".to_owned(), entry(4));
    let names: Vec<&str> = tables.iter().map(|(name, _)| name.as_str()).collect();
    assert_eq!(names, vec!["notes", "projects", "tasks"]);
    assert_eq!(tables[0].1.row_count, 4);
}

#[test]
fn logical_hash_covers_schema_versions_and_tables() {
    let tables = vec![(
        "t".to_owned(),
        MigrationTableManifest { row_count: 2, sha256: TWO_ROW_DIGEST.to_owned() },
    )];
    assert_eq!(
        logical_manifest_hash(3, &vec![1, 2, 3], &tables),
        "20fabdd623dd8108850aad02768c79c82e6ad29f85ada4a656954381bdff0c11"
    );
    assert_ne!(
        logical_manifest_hash(4, &vec![1, 2, 3], &tables),
        logical_manifest_hash(3, &vec![1, 2, 3], &tables)
    );
}

#[test]
fn manifests_match_whatever_time_they_were_generated() {
    let tables = vec![(
        "t".to_owned(),
        MigrationTableManifest { row_count: 2, sha256: TWO_ROW_DIGEST.to_owned() },
    )];
    let source = build_manifest(3, vec![1, 2, 3], "2026-01-01T00:00:00Z".to_owned(), tables.clone());
    let snapshot = build_manifest(3, vec![1, 2, 3], "2026-01-02T00:00:00Z".to_owned(), tables);
    assert_eq!(source.format, "tm-migration-manifest");
    assert_eq!(source.format_version, 1);
    assert!(source.logically_matches(&snapshot));
    let dry_run = conclude_dry_run(
        source,
        snapshot,
        BackupArtifact { path: "/tmp/snapshot.sqlite3".to_owned() },
    )
    .unwrap();
    assert!(dry_run.verified);
}

#[test]
fn a_snapshot_with_other_rows_fails_the_dry_run() {
    let source = build_manifest(
        3,
        vec![1, 2, 3],
        "a".to_owned(),
        vec![("t".to_owned(), MigrationTableManifest { row_count: 1, sha256: "x".to_owned() })],
    );
    let snapshot = build_manifest(
        3,
        vec![1, 2, 3],
        "a".to_owned(),
        vec![("t".to_owned(), MigrationTableManifest { row_count: 2, sha256: "x".to_owned() })],
    );
    assert!(!source.logically_matches(&snapshot));
    let result = conclude_dry_run(source, snapshot, BackupArtifact { path: "p".to_owned() });
    assert_eq!(
        result.unwrap_err(),
        Error::Invariant("migration dry-run snapshot does not match the source database".to_owned())
    );
}

#[test]
fn the_migration_ledger_must_be_one_through_the_schema() {
    assert_eq!(migration_ledger(3), vec![1, 2, 3]);
    assert_eq!(migration_ledger(0), Vec::<i64>::new());
    assert_eq!(debug_list_text(&vec![1, -2, 30]), "[1, -2, 30]");
    assert!(check_migration_ledger(&vec![1, 2, 3], &migration_ledger(3)).is_ok());
    assert_eq!(
        check_migration_ledger(&vec![1, 3], &migration_ledger(3)).unwrap_err(),
        Error::Invariant(
            "schema migration ledger mismatch: expected [1, 2, 3], found [1, 3]".to_owned()
        )
    );
}

#[test]
fn schema_and_health_checks_name_what_failed() {
    assert!(check_schema_version(7, 7).is_ok());
    assert_eq!(
        check_schema_version(6, 7).unwrap_err(),
        Error::Invariant("migration requires schema 7, found 6".to_owned())
    );
    assert!(check_database_health("ok", false).is_ok());
    assert_eq!(
        check_database_health("row 3 missing", false).unwrap_err(),
        Error::Invariant("database integrity check failed: row 3 missing".to_owned())
    );
    assert_eq!(
        check_database_health("ok", true).unwrap_err(),
        Error::Invariant("database contains foreign key violations".to_owned())
    );
}

#[test]
fn manifests_match_whatever_order_their_tables_were_recorded_in() {
    let entry = |n: u64| MigrationTableManifest { row_count: n, sha256: format!("{n}") };
    let mut first = Vec::new();
    insert_table(&mut first, "tasks".to_owned(), entry(1));
    insert_table(&mut first, "notes".to_owned(), entry(2));
    let mut second = Vec::new();
    insert_table(&mut second, "notes".to_owned(), entry(2));
    insert_table(&mut second, "tasks".to_owned(), entry(1));
    let a = build_manifest(3, vec![1, 2, 3], "a".to_owned(), first);
    let b = build_manifest(3, vec![1, 2, 3], "b".to_owned(), second);
    assert!(a.logically_matches(&b));
    assert_eq!(a.logical_sha256, b.logical_sha256);
}
