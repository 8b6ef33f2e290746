use plex_pg_core::hash::{fnv1a_str, rust_hash_sql};
use plex_pg_core::predicates::{
    is_duplicate_sqlstate, is_stale_sqlstate, rust_is_duplicate_sqlstate, rust_is_stale_sqlstate,
};

#[test]
fn pg_client_hash_null_returns_zero() {
    assert_eq!(rust_hash_sql(None), 0);
}

#[test]
fn pg_client_hash_same_string_is_deterministic() {
    let sql = "SELECT id FROM metadata WHERE guid = $1";
    let h1 = fnv1a_str(sql);
    let h2 = fnv1a_str(sql);
    assert_eq!(h1, h2);
}

#[test]
fn pg_client_hash_different_strings_differ() {
    let h1 = fnv1a_str("SELECT 1");
    let h2 = fnv1a_str("SELECT 2");
    assert_ne!(h1, h2);
}

#[test]
fn pg_client_hash_empty_string_is_nonzero() {
    let h = fnv1a_str("");
    assert_ne!(h, 0);
}

#[test]
fn pg_client_hash_empty_string_consistent() {
    assert_eq!(fnv1a_str(""), fnv1a_str(""));
}

#[test]
fn pg_client_hash_known_value_matches_c_implementation() {
    let expected: u64 = {
        let mut h: u64 = 14695981039346656037;
        for b in b"SELECT 1" {
            h ^= *b as u64;
            h = h.wrapping_mul(1099511628211);
        }
        h
    };
    assert_eq!(fnv1a_str("SELECT 1"), expected);
}

#[test]
fn pg_client_hash_similar_strings_differ() {
    let h1 = fnv1a_str("INSERT INTO t VALUES ($1)");
    let h2 = fnv1a_str("INSERT INTO t VALUES ($2)");
    assert_ne!(h1, h2);
}

#[test]
fn pg_client_hash_ffi_nonempty_nonzero() {
    let cs = Some("SELECT * FROM metadata");
    assert_ne!(rust_hash_sql(cs), 0);
}

#[test]
fn pg_client_hash_ffi_matches_pure_helper() {
    let sql = "UPDATE metadata SET title=$1 WHERE id=$2";
    let cs = Some(sql);
    assert_eq!(rust_hash_sql(cs), fnv1a_str(sql));
}

#[test]
fn pg_client_hash_case_sensitive() {
    assert_ne!(fnv1a_str("select 1"), fnv1a_str("SELECT 1"));
}

#[test]
fn pg_client_stale_exact_match_returns_one() {
    assert_eq!(rust_is_stale_sqlstate(Some("26000")), 1);
}

#[test]
fn pg_client_stale_null_returns_zero() {
    assert_eq!(rust_is_stale_sqlstate(None), 0);
}

#[test]
fn pg_client_stale_empty_string_returns_zero() {
    assert_eq!(rust_is_stale_sqlstate(Some("")), 0);
}

#[test]
fn pg_client_stale_wrong_code_42p05_returns_zero() {
    assert_eq!(rust_is_stale_sqlstate(Some("42P05")), 0);
}

#[test]
fn pg_client_stale_close_but_wrong_26001_returns_zero() {
    assert_eq!(rust_is_stale_sqlstate(Some("26001")), 0);
}

#[test]
fn pg_client_stale_pure_helper_true() {
    assert!(is_stale_sqlstate("26000"));
}

#[test]
fn pg_client_stale_pure_helper_false_for_prefix() {
    assert!(!is_stale_sqlstate("2600"));
}

#[test]
fn pg_client_duplicate_exact_match_returns_one() {
    assert_eq!(rust_is_duplicate_sqlstate(Some("42P05")), 1);
}

#[test]
fn pg_client_duplicate_null_returns_zero() {
    assert_eq!(rust_is_duplicate_sqlstate(None), 0);
}

#[test]
fn pg_client_duplicate_empty_string_returns_zero() {
    assert_eq!(rust_is_duplicate_sqlstate(Some("")), 0);
}

#[test]
fn pg_client_duplicate_wrong_code_26000_returns_zero() {
    assert_eq!(rust_is_duplicate_sqlstate(Some("26000")), 0);
}

#[test]
fn pg_client_duplicate_close_but_wrong_42p06_returns_zero() {
    assert_eq!(rust_is_duplicate_sqlstate(Some("42P06")), 0);
}

#[test]
fn pg_client_duplicate_pure_helper_true() {
    assert!(is_duplicate_sqlstate("42P05"));
}

#[test]
fn pg_client_duplicate_pure_helper_false_for_lowercase() {
    assert!(!is_duplicate_sqlstate("42p05"));
}
