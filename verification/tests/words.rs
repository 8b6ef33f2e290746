use plex_pg_core::c_strings::{
    rust_bytes_to_pg_hex, rust_contains_binary_bytes, rust_find_insert_column_index,
    rust_is_blobs_db_path, rust_is_junk_metadata_insert, rust_is_library_db_path,
    rust_is_library_or_blobs_db_path, rust_is_related_items_query, rust_normalize_sql_literals,
    rust_normalize_sqlite_decltype, rust_pg_udt_to_sqlite_decltype,
    rust_should_mask_collection_metadata_type,
};
use plex_pg_core::hash::{rust_decltype_hash, stamp};
use plex_pg_core::inserts::{normalize_ident_token, split_csv_simple};
use plex_pg_core::literals::{is_next_numeric_boundary, is_prev_numeric_boundary};
use plex_pg_core::predicates::{
    badcast_enabled, is_blobs_db_path_impl, rust_trace_prepare_sql_ok, write_buf,
};
use plex_pg_core::strings::{pg_query_cache_store, safe_strcasestr, str_replace_nocase, Fetched};
use plex_pg_core::text::{chars_of, string_of};
use plex_pg_core::uri::rust_rewrite_server_library_uri;

#[test]
fn declared_types_are_put_in_sqlites_words() {
    for (given, expected) in [
        ("", "TEXT"),
        ("dt_integer(8)", "dt_integer(8)"),
        ("DT_INTEGER", "INTEGER"),
        ("integer(8)", "dt_integer(8)"),
        ("INTEGER", "INTEGER"),
        ("integers", "TEXT"),
        ("bigint", "dt_integer(8)"),
        ("int64", "dt_integer(8)"),
        ("Boolean", "INTEGER"),
        ("timestamp", "INTEGER"),
        ("double", "REAL"),
        ("varchar(255)", "TEXT"),
        ("blob", "BLOB"),
        ("numeric", "NUMERIC"),
        ("anything", "TEXT"),
    ] {
        assert_eq!(rust_normalize_sqlite_decltype(Some(given.as_bytes())), expected, "{given}");
    }
    assert_eq!(rust_normalize_sqlite_decltype(None), "TEXT");
    assert_eq!(rust_normalize_sqlite_decltype(Some(&[0xff])), "TEXT");
}

#[test]
fn the_servers_types_are_put_in_sqlites_words() {
    for (given, expected) in [
        ("int4", "INTEGER"),
        ("int8", "dt_integer(8)"),
        ("numeric", "REAL"),
        ("tsvector", "TEXT"),
        ("timestamptz", "INTEGER"),
        ("bytea", "BLOB"),
        ("INT8", "TEXT"),
    ] {
        assert_eq!(rust_pg_udt_to_sqlite_decltype(Some(given.as_bytes())), expected, "{given}");
    }
}

#[test]
fn paths_may_be_missing_or_no_text() {
    let main = b"/a/com.plexapp.plugins.library.db";
    let blobs = b"/a/COM.plexapp.plugins.library.blobs.db";
    assert_eq!(rust_is_library_db_path(Some(main)), 1);
    assert_eq!(rust_is_library_db_path(Some(b"/a/com.plexapp.plugins.library.db-wal")), 0);
    assert_eq!(rust_is_library_db_path(None), 0);
    assert_eq!(rust_is_library_db_path(Some(b"\xff/com.plexapp.plugins.library.db")), 0);
    assert_eq!(rust_is_library_or_blobs_db_path(Some(blobs)), 1);
    assert_eq!(rust_is_blobs_db_path(Some(blobs)), 1);
    assert_eq!(rust_is_blobs_db_path(Some(main)), 0);
    assert!(!is_blobs_db_path_impl("x"));
}

#[test]
fn questions_are_answered_for_bytes() {
    assert_eq!(rust_contains_binary_bytes(Some(&[0x41, 0xC0])), 1);
    assert_eq!(rust_contains_binary_bytes(Some(b"\t\r\n")), 0);
    assert_eq!(rust_contains_binary_bytes(None), 0);
    assert_eq!(rust_bytes_to_pg_hex(Some(&[0, 255])), b"\\x00ff");
    assert_eq!(rust_bytes_to_pg_hex(None), b"");
    assert_eq!(rust_is_related_items_query(Some(b"from taggings as related")), 1);
    assert_eq!(rust_is_related_items_query(None), 0);
    let sql = b"select 1 from taggings as related";
    assert_eq!(rust_should_mask_collection_metadata_type(Some(sql), Some(b"metadata_type"), 18), 1);
    assert_eq!(rust_should_mask_collection_metadata_type(Some(sql), Some(b"metadata_type"), 17), 0);
    assert_eq!(rust_should_mask_collection_metadata_type(Some(sql), None, 18), 0);
    assert_eq!(rust_find_insert_column_index(Some(b"INSERT INTO t (a, b) VALUES (1, 2)"), Some(b"b")), 1);
    assert_eq!(rust_find_insert_column_index(None, Some(b"b")), -1);
    assert_eq!(rust_is_junk_metadata_insert(Some(b"select 1")), 0);
    let (text, numbers) = rust_normalize_sql_literals(Some(b"select a from t where b = 7")).unwrap();
    assert_eq!((text.as_str(), &numbers[..]), ("select a from t where b = $1", &["7".to_string()][..]));
    assert!(rust_normalize_sql_literals(None).is_none());
}

#[test]
fn lists_are_split_at_commas() {
    let parts: Vec<String> =
        split_csv_simple(&chars_of("a, 'b,c', d")).iter().map(|p| string_of(p)).collect();
    assert_eq!(parts.len(), 3);
    assert_eq!(parts[1].trim(), "'b,c'");
    assert_eq!(string_of(&normalize_ident_token(&chars_of(" \"id\" "))), "id");
}

#[test]
fn numbers_stand_between_boundaries() {
    assert!(is_prev_numeric_boundary(b'='));
    assert!(!is_prev_numeric_boundary(b'a'));
    assert!(is_next_numeric_boundary(b"1)", 1));
    assert!(!is_next_numeric_boundary(b"1a", 1));
}

#[test]
fn quoted_numbers_stay() {
    let sql = "select 1 from t where a = '12' and \"b3\" = 4 and c = -5";
    let (text, numbers) = rust_normalize_sql_literals(Some(sql.as_bytes())).unwrap();
    assert!(text.contains("'12'"));
    assert!(text.contains("\"b3\""));
    for n in &numbers {
        assert!(n.parse::<f64>().is_ok(), "{n}");
    }
}

#[test]
fn buffers_get_what_fits() {
    assert_eq!(write_buf(0, Some("abc")), b"");
    assert_eq!(write_buf(1, Some("abc")), b"\0");
    assert_eq!(write_buf(3, Some("abc")), b"ab\0");
    assert_eq!(write_buf(10, Some("abc")), b"abc\0");
    assert_eq!(write_buf(10, None), b"\0");
}

#[test]
fn tracing_is_switched_on_by_the_settings() {
    assert_eq!(badcast_enabled(Some("1"), None), 1);
    assert_eq!(badcast_enabled(Some("0"), Some("ERROR")), 0);
    assert_eq!(badcast_enabled(None, Some("error")), 1);
    assert_eq!(badcast_enabled(None, Some("info")), 0);
    assert_eq!(badcast_enabled(None, None), 0);
    assert_eq!(rust_trace_prepare_sql_ok(), 1);
}

#[test]
fn strings_are_searched_and_replaced_without_regard_to_case() {
    assert_eq!(safe_strcasestr(Some(b"Hello World"), Some(b"WORLD")), Some(6));
    assert_eq!(safe_strcasestr(Some(b"Hello"), Some(b"")), Some(0));
    assert_eq!(safe_strcasestr(Some(b""), Some(b"")), Some(0));
    assert_eq!(safe_strcasestr(Some(b""), Some(b"a")), None);
    assert_eq!(safe_strcasestr(None, Some(b"a")), None);
    assert_eq!(safe_strcasestr(Some(b"a"), None), None);
    let replace = |s: &str, old: &str, new: &str| {
        str_replace_nocase(Some(s.as_bytes()), Some(old.as_bytes()), Some(new.as_bytes())).unwrap()
    };
    assert_eq!(replace("aXbxc", "x", "--"), b"a--b--c");
    assert_eq!(replace("aaa", "aa", "a"), b"aa");
    assert_eq!(replace("abc", "", "x"), b"abc");
    assert_eq!(replace("abc", "z", "x"), b"abc");
    assert_eq!(replace("abc", "b", ""), b"ac");
    assert!(str_replace_nocase(None, Some(b"a"), Some(b"b")).is_none());
}

#[test]
fn only_rows_are_kept_for_the_next_query() {
    let rows = Fetched { status: 2, rows: 1, cols: 1 };
    assert!(pg_query_cache_store(5, Some(&rows)));
    assert!(!pg_query_cache_store(0, Some(&rows)));
    assert!(!pg_query_cache_store(5, None));
    assert!(!pg_query_cache_store(5, Some(&Fetched { status: 1, ..rows })));
    let empty = Fetched { status: 2, rows: 0, cols: 1 };
    assert!(!pg_query_cache_store(5, Some(&empty)));
}

#[test]
fn uris_without_both_parts_are_left_alone() {
    assert!(rust_rewrite_server_library_uri(b"http://x", 256).is_none());
    let uri = b"server://m/com.plexapp.plugins.library/library/metadata/123456";
    assert!(rust_rewrite_server_library_uri(uri, 15).is_none());
    let (out, _) = rust_rewrite_server_library_uri(uri, 16).unwrap();
    assert_eq!(out, b"library://metad");
}

#[test]
fn hashes_and_stamps_have_known_values() {
    assert_eq!(rust_decltype_hash(None), 5381);
    assert_eq!(rust_decltype_hash(Some("a")), 5381 * 33 + 97);
    assert_eq!(stamp(None), 0);
    assert_eq!(stamp(Some((1u128 << 64) + 5)), 5);
}
