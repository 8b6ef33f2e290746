use plex_pg_core::c_strings::{rust_convert_metadata_settings_upsert, rust_extract_metadata_id};
use plex_pg_core::pg_statement::{
    convert_metadata_settings_upsert, extract_metadata_id, oid_to_sqlite_decltype,
    oid_to_sqlite_type, rust_decltype_special_case, rust_is_our_value, PgValuePool, StmtRegistry,
    ThreadCachedStmts, DECLTYPE_CASE_DT_INTEGER_8, DECLTYPE_CASE_NONE, DECLTYPE_CASE_NULL,
    MAX_CACHED_STMTS_PER_THREAD, MAX_PG_VALUES, PG_VALUE_MAGIC, SQLITE_BLOB, SQLITE_FLOAT,
    SQLITE_INTEGER, SQLITE_TEXT,
};
use std::cell::Cell;

#[test]
fn pg_statement_registry_register_and_find() {
    let mut reg = StmtRegistry::new();
    reg.register(0x1000, 0x2000);
    assert_eq!(reg.find(0x1000), Some(0x2000));
}

#[test]
fn pg_statement_registry_find_missing_returns_none() {
    let reg = StmtRegistry::new();
    assert_eq!(reg.find(0xDEAD), None);
}

#[test]
fn registry_unregister_removes_both_maps() {
    let mut reg = StmtRegistry::new();
    reg.register(0x3000, 0x4000);
    assert!(reg.is_ours(0x4000));
    reg.unregister(0x3000);
    assert_eq!(reg.find(0x3000), None);
    assert!(!reg.is_ours(0x4000));
}

#[test]
fn registry_is_ours_true_for_registered() {
    let mut reg = StmtRegistry::new();
    reg.register(0x5000, 0x6000);
    assert!(reg.is_ours(0x6000));
}

#[test]
fn registry_is_ours_false_for_unregistered() {
    let reg = StmtRegistry::new();
    assert!(!reg.is_ours(0xBEEF));
}

#[test]
fn registry_replace_existing_mapping() {
    let mut reg = StmtRegistry::new();
    reg.register(0x7000, 0x8000);
    assert_eq!(reg.find(0x7000), Some(0x8000));
    reg.register(0x7000, 0x9000);
    assert_eq!(reg.find(0x7000), Some(0x9000));
    // Old reverse mapping should be cleaned up
    assert!(!reg.is_ours(0x8000));
    assert!(reg.is_ours(0x9000));
}

#[test]
fn pg_statement_registry_clear_empties_all() {
    let mut reg = StmtRegistry::new();
    reg.register(0xA000, 0xB000);
    reg.register(0xC000, 0xD000);
    assert_eq!(reg.len(), 2);
    reg.clear();
    assert_eq!(reg.len(), 0);
    assert_eq!(reg.find(0xA000), None);
}

#[test]
fn tls_cache_register_and_find() {
    // Track ref/unref calls
    let count = Cell::new(0);

    let mut cache = ThreadCachedStmts::new();
    cache.register(
        0x100,
        0x200,
        |_| {
            count.set(count.get() + 1);
        },
        |_| {
            count.set(count.get() - 1);
        },
    );
    assert_eq!(cache.find(0x100), Some(0x200));
    assert_eq!(count.get(), 1);
}

#[test]
fn tls_cache_find_missing_returns_none() {
    let cache = ThreadCachedStmts::new();
    assert_eq!(cache.find(0x999), None);
}

#[test]
fn tls_cache_replace_unrefs_old() {
    let count_a = Cell::new(0);
    let count_b = Cell::new(0);

    let mut cache = ThreadCachedStmts::new();

    // Register first stmt
    cache.register(
        0x100,
        0x200,
        |p| {
            if p == 0x200 {
                count_a.set(count_a.get() + 1);
            }
            if p == 0x300 {
                count_b.set(count_b.get() + 1);
            }
        },
        |p| {
            if p == 0x200 {
                count_a.set(count_a.get() - 1);
            }
            if p == 0x300 {
                count_b.set(count_b.get() - 1);
            }
        },
    );
    assert_eq!(count_a.get(), 1);

    // Replace with different pg_stmt
    cache.register(
        0x100,
        0x300,
        |p| {
            if p == 0x200 {
                count_a.set(count_a.get() + 1);
            }
            if p == 0x300 {
                count_b.set(count_b.get() + 1);
            }
        },
        |p| {
            if p == 0x200 {
                count_a.set(count_a.get() - 1);
            }
            if p == 0x300 {
                count_b.set(count_b.get() - 1);
            }
        },
    );

    // Old should be unreffed, new should be reffed
    assert_eq!(count_a.get(), 0);
    assert_eq!(count_b.get(), 1);
    assert_eq!(cache.find(0x100), Some(0x300));
}

#[test]
fn tls_cache_clear_unrefs() {
    let refs = Cell::new(0);

    let mut cache = ThreadCachedStmts::new();
    cache.register(
        0x100,
        0x200,
        |_| {
            refs.set(refs.get() + 1);
        },
        |_| {
            refs.set(refs.get() - 1);
        },
    );
    assert_eq!(refs.get(), 1);

    cache.clear(0x100, |_| {
        refs.set(refs.get() - 1);
    });
    assert_eq!(refs.get(), 0);
    assert_eq!(cache.find(0x100), None);
}

#[test]
fn tls_cache_clear_weak_does_not_unref() {
    let refs = Cell::new(0);

    let mut cache = ThreadCachedStmts::new();
    cache.register(
        0x100,
        0x200,
        |_| {
            refs.set(refs.get() + 1);
        },
        |_| {
            refs.set(refs.get() - 1);
        },
    );
    assert_eq!(refs.get(), 1);

    cache.clear_weak(0x100);
    // ref_count should NOT change — weak clear
    assert_eq!(refs.get(), 1);
    assert_eq!(cache.find(0x100), None);
}

#[test]
fn tls_cache_fifo_eviction() {
    let evicted = Cell::new(0);

    let mut cache = ThreadCachedStmts::new();

    // Fill cache to max
    for i in 0..MAX_CACHED_STMTS_PER_THREAD {
        cache.register(
            0x1000 + i,
            0x2000 + i,
            |_| {},
            |_| {
                evicted.set(evicted.get() + 1);
            },
        );
    }
    assert_eq!(cache.entries.len(), MAX_CACHED_STMTS_PER_THREAD);
    assert_eq!(evicted.get(), 0);

    // One more — should evict oldest (0x1000 → 0x2000)
    cache.register(
        0x9999,
        0x8888,
        |_| {},
        |_| {
            evicted.set(evicted.get() + 1);
        },
    );
    assert_eq!(evicted.get(), 1);
    assert_eq!(cache.find(0x1000), None); // evicted
    assert_eq!(cache.find(0x9999), Some(0x8888)); // new entry
}

#[test]
fn tls_cache_drain_all_returns_all_pg_stmts() {
    let mut cache = ThreadCachedStmts::new();
    cache.register(0x100, 0x200, |_| {}, |_| {});
    cache.register(0x300, 0x400, |_| {}, |_| {});

    let drained = cache.drain_all();
    assert_eq!(drained.len(), 2);
    assert!(drained.contains(&0x200));
    assert!(drained.contains(&0x400));
    assert!(cache.entries.is_empty());
}

#[test]
fn pg_value_create_sets_magic() {
    let mut pool = PgValuePool::new();
    let slot = pool.rust_create_column_value(0x1234, 0, SQLITE_INTEGER);
    assert!(slot < MAX_PG_VALUES);
    let val = pool.value(slot);
    assert_eq!(val.magic, PG_VALUE_MAGIC);
    assert_eq!(val.stmt, 0x1234);
    assert_eq!(val.col_idx, 0);
    assert_eq!(val.sqlite_type, SQLITE_INTEGER);
}

#[test]
fn pg_value_is_our_value_true() {
    let mut pool = PgValuePool::new();
    let slot = pool.rust_create_column_value(0x5678, 3, SQLITE_TEXT);
    assert_eq!(rust_is_our_value(Some(&pool.value(slot))), 1);
}

#[test]
fn pg_value_is_our_value_null_false() {
    assert_eq!(rust_is_our_value(None), 0);
}

#[test]
fn pg_value_pool_wraps_around() {
    let mut pool = PgValuePool::new();
    // One round more than there is room for, and ten values of the next.
    for i in 0..MAX_PG_VALUES + 10 {
        let slot = pool.rust_create_column_value(i, 0, SQLITE_INTEGER);
        assert!(slot < MAX_PG_VALUES);
        assert_eq!(slot, i % MAX_PG_VALUES);
        assert_eq!(pool.value(slot).stmt, i);
    }
}

#[test]
fn ffi_register_find_unregister() {
    let mut reg = StmtRegistry::new();
    let s = 0x10000_usize;
    let p = 0x20000_usize;

    reg.rust_stmt_register(s, p);
    assert_eq!(reg.rust_stmt_find(s), p);
    assert_eq!(reg.rust_stmt_is_ours(p), 1);

    reg.rust_stmt_unregister(s);
    assert_eq!(reg.rust_stmt_find(s), 0);
    assert_eq!(reg.rust_stmt_is_ours(p), 0);
}

#[test]
fn ffi_find_null_returns_zero() {
    let reg = StmtRegistry::new();
    assert_eq!(reg.rust_stmt_find(0), 0);
}

#[test]
fn ffi_find_any_checks_registry_first() {
    let mut reg = StmtRegistry::new();
    let mut cache = ThreadCachedStmts::new();
    let s = 0x30000_usize;
    let p = 0x40000_usize;

    reg.rust_stmt_register(s, p);
    assert_eq!(reg.rust_stmt_find_any(&cache, s), p);
    cache.register(s, 0x70000, |_| {}, |_| {});
    assert_eq!(reg.rust_stmt_find_any(&cache, s), p);
}

#[test]
fn ffi_find_any_falls_back_to_tls() {
    let reg = StmtRegistry::new();
    let mut cache = ThreadCachedStmts::new();
    let s = 0x50000_usize;
    let p = 0x60000_usize;

    // Not in registry
    assert_eq!(reg.rust_stmt_find(s), 0);

    // Add to the thread's own
    cache.register(s, p, |_| {}, |_| {});

    assert_eq!(reg.rust_stmt_find_any(&cache, s), p);

    cache.clear_weak(s);
    assert_eq!(reg.rust_stmt_find_any(&cache, s), 0);
}

#[test]
fn pg_statement_type_bool_is_integer() {
    assert_eq!(oid_to_sqlite_type(16), SQLITE_INTEGER);
}

#[test]
fn pg_statement_type_int8_is_integer() {
    assert_eq!(oid_to_sqlite_type(20), SQLITE_INTEGER);
}

#[test]
fn pg_statement_type_int2_is_integer() {
    assert_eq!(oid_to_sqlite_type(21), SQLITE_INTEGER);
}

#[test]
fn pg_statement_type_int4_is_integer() {
    assert_eq!(oid_to_sqlite_type(23), SQLITE_INTEGER);
}

#[test]
fn pg_statement_type_oid_is_integer() {
    assert_eq!(oid_to_sqlite_type(26), SQLITE_INTEGER);
}

#[test]
fn pg_statement_type_float4_is_float() {
    assert_eq!(oid_to_sqlite_type(700), SQLITE_FLOAT);
}

#[test]
fn pg_statement_type_float8_is_float() {
    assert_eq!(oid_to_sqlite_type(701), SQLITE_FLOAT);
}

#[test]
fn pg_statement_type_numeric_is_float() {
    assert_eq!(oid_to_sqlite_type(1700), SQLITE_FLOAT);
}

#[test]
fn pg_statement_type_bytea_is_blob() {
    assert_eq!(oid_to_sqlite_type(17), SQLITE_BLOB);
}

#[test]
fn pg_statement_type_text_is_text() {
    assert_eq!(oid_to_sqlite_type(25), SQLITE_TEXT);
}

#[test]
fn pg_statement_type_bpchar_is_text() {
    assert_eq!(oid_to_sqlite_type(1042), SQLITE_TEXT);
}

#[test]
fn pg_statement_type_varchar_is_text() {
    assert_eq!(oid_to_sqlite_type(1043), SQLITE_TEXT);
}

#[test]
fn pg_statement_type_unknown_oid_is_text() {
    assert_eq!(oid_to_sqlite_type(9999), SQLITE_TEXT);
}

#[test]
fn pg_statement_decltype_int8_is_bigint() {
    assert_eq!(oid_to_sqlite_decltype(20), "BIGINT");
}

#[test]
fn pg_statement_decltype_bool_is_integer() {
    assert_eq!(oid_to_sqlite_decltype(16), "INTEGER");
}

#[test]
fn pg_statement_decltype_int2_is_integer() {
    assert_eq!(oid_to_sqlite_decltype(21), "INTEGER");
}

#[test]
fn pg_statement_decltype_int4_is_integer() {
    assert_eq!(oid_to_sqlite_decltype(23), "INTEGER");
}

#[test]
fn pg_statement_decltype_oid_is_integer() {
    assert_eq!(oid_to_sqlite_decltype(26), "INTEGER");
}

#[test]
fn pg_statement_decltype_float4_is_real() {
    assert_eq!(oid_to_sqlite_decltype(700), "REAL");
}

#[test]
fn pg_statement_decltype_float8_is_real() {
    assert_eq!(oid_to_sqlite_decltype(701), "REAL");
}

#[test]
fn pg_statement_decltype_numeric_is_real() {
    assert_eq!(oid_to_sqlite_decltype(1700), "REAL");
}

#[test]
fn pg_statement_decltype_bytea_is_blob() {
    assert_eq!(oid_to_sqlite_decltype(17), "BLOB");
}

#[test]
fn pg_statement_decltype_text_is_text() {
    assert_eq!(oid_to_sqlite_decltype(25), "TEXT");
}

#[test]
fn pg_statement_decltype_timestamp_is_text() {
    assert_eq!(oid_to_sqlite_decltype(1114), "TEXT");
}

#[test]
fn pg_statement_decltype_timestamptz_is_text() {
    assert_eq!(oid_to_sqlite_decltype(1184), "TEXT");
}

#[test]
fn pg_statement_decltype_date_is_text() {
    assert_eq!(oid_to_sqlite_decltype(1082), "TEXT");
}

#[test]
fn pg_statement_decltype_time_is_text() {
    assert_eq!(oid_to_sqlite_decltype(1083), "TEXT");
}

#[test]
fn pg_statement_decltype_unknown_oid_is_text() {
    assert_eq!(oid_to_sqlite_decltype(9999), "TEXT");
}

#[test]
fn pg_statement_upsert_non_matching_sql_returns_none() {
    assert_eq!(
        convert_metadata_settings_upsert("SELECT * FROM some_table"),
        None
    );
}

#[test]
fn pg_statement_upsert_insert_without_table_returns_none() {
    assert_eq!(
        convert_metadata_settings_upsert("INSERT INTO other_table VALUES (1)"),
        None
    );
}

#[test]
fn pg_statement_upsert_qualifying_insert_returns_upsert_sql() {
    let sql = "INSERT INTO plex.metadata_item_settings (account_id, guid) VALUES (1, 'x')";
    let result = convert_metadata_settings_upsert(sql);
    assert!(result.is_some());
    let upsert = result.unwrap();
    assert!(upsert.starts_with(sql));
    assert!(upsert.contains("ON CONFLICT (account_id, guid)"));
    assert!(upsert.contains("DO UPDATE SET"));
    assert!(upsert.contains("RETURNING id"));
}

#[test]
fn pg_statement_upsert_already_has_on_conflict_returns_none() {
    let sql = "INSERT INTO plex.metadata_item_settings (account_id, guid) VALUES (1, 'x') \
               ON CONFLICT (account_id, guid) DO NOTHING";
    assert_eq!(convert_metadata_settings_upsert(sql), None);
}

#[test]
fn pg_statement_upsert_already_has_returning_returns_none() {
    let sql = "INSERT INTO plex.metadata_item_settings (account_id, guid) VALUES (1, 'x') \
               RETURNING id";
    assert_eq!(convert_metadata_settings_upsert(sql), None);
}

#[test]
fn pg_statement_upsert_empty_string_returns_none() {
    assert_eq!(convert_metadata_settings_upsert(""), None);
}

#[test]
fn pg_statement_upsert_case_insensitive_match() {
    let sql = "insert into METADATA_ITEM_SETTINGS (account_id, guid) values (1, 'x')";
    let result = convert_metadata_settings_upsert(sql);
    assert!(result.is_some());
    assert!(result.unwrap().contains("ON CONFLICT"));
}

#[test]
fn pg_statement_upsert_ffi_null_returns_null() {
    let result = rust_convert_metadata_settings_upsert(None);
    assert!(result.is_none());
}

#[test]
fn pg_statement_upsert_ffi_non_matching_returns_null() {
    let input = Some("SELECT 1".as_bytes());
    let result = rust_convert_metadata_settings_upsert(input);
    assert!(result.is_none());
}

#[test]
fn pg_statement_upsert_ffi_qualifying_returns_non_null_and_must_free() {
    let input =
        Some("INSERT INTO plex.metadata_item_settings (account_id, guid) VALUES (1, 'x')".as_bytes());
    let result = rust_convert_metadata_settings_upsert(input);
    assert!(result.is_some());
    let s = result.unwrap();
    assert!(s.contains("ON CONFLICT"));
}

#[test]
fn pg_statement_extract_url_encoded_pattern_returns_id() {
    let sql =
        "INSERT INTO play_queue_generators (uri) VALUES ('server://x%2Fmetadata%2F12345%2F')";
    assert_eq!(extract_metadata_id(sql), 12345);
}

#[test]
fn pg_statement_extract_plain_slash_pattern_returns_id() {
    let sql =
        "INSERT INTO play_queue_generators (uri) VALUES ('server://x/metadata/67890/other')";
    assert_eq!(extract_metadata_id(sql), 67890);
}

#[test]
fn pg_statement_extract_not_a_play_queue_insert_returns_zero() {
    let sql = "INSERT INTO some_other_table (uri) VALUES ('/metadata/999')";
    assert_eq!(extract_metadata_id(sql), 0);
}

#[test]
fn pg_statement_extract_no_metadata_pattern_returns_zero() {
    let sql = "INSERT INTO play_queue_generators (uri) VALUES ('something-else')";
    assert_eq!(extract_metadata_id(sql), 0);
}

#[test]
fn pg_statement_extract_empty_string_returns_zero() {
    assert_eq!(extract_metadata_id(""), 0);
}

#[test]
fn pg_statement_extract_not_an_insert_returns_zero() {
    let sql = "SELECT * FROM play_queue_generators WHERE uri LIKE '%/metadata/1%'";
    assert_eq!(extract_metadata_id(sql), 0);
}

#[test]
fn pg_statement_extract_single_digit_id() {
    let sql = "INSERT INTO play_queue_generators (uri) VALUES ('/metadata/7')";
    assert_eq!(extract_metadata_id(sql), 7);
}

#[test]
fn pg_statement_extract_large_id() {
    let sql = "INSERT INTO play_queue_generators (uri) VALUES ('/metadata/9876543210')";
    assert_eq!(extract_metadata_id(sql), 9_876_543_210);
}

#[test]
fn pg_statement_extract_ffi_null_returns_zero() {
    assert_eq!(rust_extract_metadata_id(None), 0);
}

#[test]
fn pg_statement_extract_ffi_url_encoded_returns_id() {
    let input = Some("INSERT INTO play_queue_generators (uri) VALUES ('x%2Fmetadata%2F42')".as_bytes());
    assert_eq!(rust_extract_metadata_id(input), 42);
}

#[test]
fn pg_statement_extract_ffi_non_matching_returns_zero() {
    let input = Some("INSERT INTO other_table VALUES (1)".as_bytes());
    assert_eq!(rust_extract_metadata_id(input), 0);
}

#[test]
fn decltype_special_case_dt_integer_for_timestamp_column() {
    let col = "created_at";
    let sql = "select created_at from t";
    let rc = rust_decltype_special_case(20, col, sql, 42);
    assert_eq!(rc, DECLTYPE_CASE_DT_INTEGER_8);
}

#[test]
fn decltype_special_case_dt_integer_for_greatest_metadata_refresh() {
    let col = "greatest";
    let sql = "select GREATEST(max(metadata_items.changed_at), max(metadata_items.resources_changed_at))";
    let rc = rust_decltype_special_case(20, col, sql, 42);
    assert_eq!(rc, DECLTYPE_CASE_DT_INTEGER_8);
}

#[test]
fn decltype_special_case_expression_returns_null_case() {
    let col = "count";
    let sql = "select count(*) from t";
    let rc = rust_decltype_special_case(23, col, sql, 0);
    assert_eq!(rc, DECLTYPE_CASE_NULL);
}

#[test]
fn decltype_special_case_none_for_regular_column() {
    let col = "id";
    let sql = "select id from t";
    let rc = rust_decltype_special_case(23, col, sql, 123);
    assert_eq!(rc, DECLTYPE_CASE_NONE);
}
