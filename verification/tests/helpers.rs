use plex_pg_core::inserts::{find_insert_column_index_impl, is_junk_metadata_insert_impl};
use plex_pg_core::literals::normalize_sql_literals_impl;
use plex_pg_core::machine_id::{get_machine_identifier, parse_machine_identifier};
use plex_pg_core::pg_statement::{
    oid_to_sqlite_type, SQLITE_BLOB, SQLITE_FLOAT, SQLITE_INTEGER, SQLITE_TEXT,
};
use plex_pg_core::predicates::{
    bytes_to_pg_hex_impl, contains_binary_bytes_impl, is_library_db_path_impl,
    is_library_or_blobs_db_path_impl, is_related_items_query_impl, rust_validate_utf8,
    should_mask_collection_metadata_type_impl, trim_first_line,
};
use plex_pg_core::uri::rust_rewrite_server_library_uri;

#[test]
fn validate_utf8_accepts_valid_input() {
    let s = "Plex \u{1F4FA}";
    assert_eq!(rust_validate_utf8(Some(s.as_bytes())), 1);
}

#[test]
fn validate_utf8_rejects_invalid_input() {
    let invalid = [0xffu8, 0xfeu8];
    assert_eq!(rust_validate_utf8(Some(&invalid[..])), 0);
}

#[test]
fn normalize_sql_literals_extracts_two_params() {
    let sql = "SELECT * FROM t WHERE id = 123 AND score >= -4.5";
    let (normalized, params) = normalize_sql_literals_impl(sql).expect("expected normalized result");
    assert_eq!(normalized, "SELECT * FROM t WHERE id = $1 AND score >= $2");
    assert_eq!(params, vec!["123".to_string(), "-4.5".to_string()]);
}

#[test]
fn normalize_sql_literals_skips_insert() {
    assert!(normalize_sql_literals_impl("INSERT INTO t VALUES (1)").is_none());
}

#[test]
fn is_library_db_path_matches_suffix() {
    assert!(is_library_db_path_impl(
        "/x/y/com.plexapp.plugins.library.db"
    ));
    assert!(!is_library_db_path_impl("/x/y/other.db"));
}

#[test]
fn is_library_or_blobs_path_matches_both() {
    assert!(is_library_or_blobs_db_path_impl(
        "/x/y/com.plexapp.plugins.library.db"
    ));
    assert!(is_library_or_blobs_db_path_impl(
        "/x/y/com.plexapp.plugins.library.blobs.db"
    ));
    assert!(!is_library_or_blobs_db_path_impl("/x/y/other.db"));
}

#[test]
fn junk_metadata_insert_detects_null_pair() {
    let sql = "INSERT INTO metadata_items (library_section_id, metadata_type, title) VALUES (NULL, NULL, 'x')";
    assert!(is_junk_metadata_insert_impl(sql));
}

#[test]
fn junk_metadata_insert_ignores_non_null() {
    let sql = "INSERT INTO metadata_items (library_section_id, metadata_type) VALUES (1, NULL)";
    assert!(!is_junk_metadata_insert_impl(sql));
}

#[test]
fn binary_detection_and_hex_encoding_work() {
    assert!(contains_binary_bytes_impl(&[0x1f, 0x8b, 0x08]));
    assert!(!contains_binary_bytes_impl(b"hello"));
    assert_eq!(bytes_to_pg_hex_impl(&[0x41, 0x42, 0xff]), "\\x4142ff");
}

#[test]
fn related_items_and_mask_predicates_work() {
    let sql = "select * from taggings as related join x";
    assert!(is_related_items_query_impl(sql));
    assert!(should_mask_collection_metadata_type_impl(
        sql,
        "metadata_type",
        18
    ));
    assert!(!should_mask_collection_metadata_type_impl(
        sql,
        "other_col",
        18
    ));
    assert!(!should_mask_collection_metadata_type_impl(
        "select * from x",
        "metadata_type",
        18
    ));
}

#[test]
fn find_insert_column_index_handles_quoted_columns() {
    let sql = "INSERT INTO metadata_items (\"id\", `library_section_id`, metadata_type, title) VALUES ($1,$2,$3,$4)";
    assert_eq!(find_insert_column_index_impl(sql, "library_section_id"), 1);
    assert_eq!(find_insert_column_index_impl(sql, "metadata_type"), 2);
    assert_eq!(find_insert_column_index_impl(sql, "missing_col"), -1);
}

#[test]
fn pg_oid_to_sqlite_type_mapping_matches_expectations() {
    assert_eq!(oid_to_sqlite_type(20), SQLITE_INTEGER);
    assert_eq!(oid_to_sqlite_type(701), SQLITE_FLOAT);
    assert_eq!(oid_to_sqlite_type(17), SQLITE_BLOB);
    assert_eq!(oid_to_sqlite_type(25), SQLITE_TEXT);
}

#[test]
fn trim_first_line_trims_ws_and_newline() {
    assert_eq!(
        trim_first_line("  abc \r\n").as_deref(),
        Some("abc")
    );
    assert_eq!(trim_first_line("   \n"), None);
}

#[test]
fn rewrite_server_uri_rewrites_expected_prefix() {
    let input = "server://machine/com.plexapp.plugins.library/library/metadata/123";
    let (out, changed) =
        rust_rewrite_server_library_uri(input.as_bytes(), 256).expect("room for the output");
    assert!(changed);
    assert_eq!(out, b"library://metadata/123");
}

#[test]
fn rewrite_server_uri_handles_multiple_matches() {
    let input = "a=server://m1/com.plexapp.plugins.library/library/one;b=server://m2/com.plexapp.plugins.library/library/two";
    let (out, changed) =
        rust_rewrite_server_library_uri(input.as_bytes(), 256).expect("room for the output");
    assert!(changed);
    assert_eq!(out, b"a=library://one;b=library://two");
}

#[test]
fn test_parse_machine_identifier_valid() {
    let xml = r#"<?xml version="1.0" encoding="utf-8"?><Preferences MachineIdentifier="53cfd87bf8b24db2af2d6aaa373b2b34" ProcessedMachineIdentifier="53cfd87bf8b24db2af2d6aaa373b2b34" AcceptedEULA="1"/>"#;
    let uuid = parse_machine_identifier(xml);
    assert_eq!(uuid, Some("53cfd87b-f8b2-4db2-af2d-6aaa373b2b34".to_string()));
}

#[test]
fn test_parse_machine_identifier_invalid_len() {
    let xml = r#"<Preferences MachineIdentifier="abc123" AcceptedEULA="1"/>"#;
    let uuid = parse_machine_identifier(xml);
    assert_eq!(uuid, None);
}

#[test]
fn test_parse_machine_identifier_missing() {
    let xml = r#"<Preferences AcceptedEULA="1"/>"#;
    let uuid = parse_machine_identifier(xml);
    assert_eq!(uuid, None);
}

#[test]
fn test_get_machine_identifier_fallback() {
    let uuid = get_machine_identifier(None);
    assert_eq!(uuid, "53cfd87b-f8b2-4db2-af2d-6aaa373b2b34");
}
