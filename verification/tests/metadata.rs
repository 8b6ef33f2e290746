use plex_pg_core::expand::{expand_sql, rust_my_sqlite3_expanded_sql, Expanded};
use plex_pg_core::metadata::{
    rust_my_sqlite3_get_table, rust_my_sqlite3_create_collation, rowid_from_server, rust_my_sqlite3_bind_parameter_count,
    rust_my_sqlite3_bind_parameter_index, rust_my_sqlite3_bind_parameter_name,
    rust_my_sqlite3_changes, rust_my_sqlite3_changes64, rust_my_sqlite3_db_handle,
    rust_my_sqlite3_errcode, rust_my_sqlite3_errmsg, rust_my_sqlite3_extended_errcode,
    rust_my_sqlite3_last_insert_rowid, rust_my_sqlite3_sql, rust_my_sqlite3_stmt_busy,
    rust_my_sqlite3_stmt_readonly, rust_my_sqlite3_stmt_status, try_enter, Answer, ConnInfo,
    DbSource, ErrorSource, Functions, Handle, LastVal, RowId, StmtInfo, TextAnswer,
};
use plex_pg_core::params::{Param, Params};

fn conn() -> ConnInfo {
    ConnInfo {
        is_pg_active: true,
        connected: true,
        last_changes: 3,
        last_insert_rowid: 0,
        last_error_code: 0,
        last_error: Vec::new(),
    }
}

fn params(values: Vec<Param>, count: i32) -> Params {
    let n = values.len();
    Params { names: None, count, values, lengths: vec![0; n], formats: vec![0; n] }
}

fn stmt(sql: &str, p: Params) -> StmtInfo {
    StmtInfo {
        is_pg: 2,
        sql: Some(sql.as_bytes().to_vec()),
        pg_sql: None,
        params: p,
        has_result: true,
        current_row: 1,
        num_rows: 2,
        has_shadow_stmt: false,
        has_shadow_db: true,
    }
}

#[test]
fn a_second_call_is_not_entered() {
    let mut in_call = false;
    assert!(try_enter(&mut in_call));
    assert!(!try_enter(&mut in_call));
    assert!(in_call);
}

#[test]
fn changes_are_those_of_an_active_connection() {
    let mut c = conn();
    assert_eq!(rust_my_sqlite3_changes(true, Some(&c)), 3);
    assert_eq!(rust_my_sqlite3_changes64(true, Some(&c)), 3);
    assert_eq!(rust_my_sqlite3_changes(false, Some(&c)), 0);
    c.is_pg_active = false;
    assert_eq!(rust_my_sqlite3_changes(true, Some(&c)), 0);
    assert_eq!(rust_my_sqlite3_changes(true, None), 0);
}

#[test]
fn the_last_row_is_looked_for_in_order() {
    let mut c = conn();
    assert!(matches!(rust_my_sqlite3_last_insert_rowid(false, Some(&c), 9), RowId::Known(0)));
    assert!(matches!(rust_my_sqlite3_last_insert_rowid(true, None, 9), RowId::Known(9)));
    assert!(matches!(rust_my_sqlite3_last_insert_rowid(true, None, -9), RowId::Known(0)));
    assert!(matches!(rust_my_sqlite3_last_insert_rowid(true, Some(&c), 9), RowId::Known(9)));
    assert!(matches!(rust_my_sqlite3_last_insert_rowid(true, Some(&c), 0), RowId::AskServer));
    c.last_insert_rowid = 5;
    assert!(matches!(rust_my_sqlite3_last_insert_rowid(true, Some(&c), 9), RowId::Known(5)));
    c.last_insert_rowid = 0;
    c.connected = false;
    assert!(matches!(rust_my_sqlite3_last_insert_rowid(true, Some(&c), 0), RowId::Known(0)));
}

#[test]
fn the_servers_last_value_counts_if_it_is_positive() {
    assert_eq!(rowid_from_server(None), 0);
    assert_eq!(rowid_from_server(Some(LastVal { status: 2, rows: 1, value: 8 })), 8);
    assert_eq!(rowid_from_server(Some(LastVal { status: 2, rows: 1, value: -8 })), 0);
    assert_eq!(rowid_from_server(Some(LastVal { status: 7, rows: 1, value: 8 })), 0);
    assert_eq!(rowid_from_server(Some(LastVal { status: 2, rows: 0, value: 8 })), 0);
}

#[test]
fn errors_come_from_where_they_are_kept() {
    let both = Functions { shim: true, local: true };
    let none = Functions { shim: false, local: false };
    let local = Functions { shim: false, local: true };
    let mut c = conn();
    assert!(matches!(rust_my_sqlite3_errmsg(true, &both, Some(&c)), ErrorSource::Shim));
    assert!(matches!(rust_my_sqlite3_errmsg(false, &both, Some(&c)), ErrorSource::Clean));
    c.last_error_code = 1;
    assert!(matches!(rust_my_sqlite3_errmsg(false, &both, Some(&c)), ErrorSource::Clean));
    c.last_error = b"broken".to_vec();
    assert!(matches!(rust_my_sqlite3_errmsg(false, &both, Some(&c)), ErrorSource::Kept));
    assert!(matches!(rust_my_sqlite3_errmsg(false, &local, None), ErrorSource::Local));
    assert!(matches!(rust_my_sqlite3_errmsg(false, &none, None), ErrorSource::Unknown));
    assert!(matches!(rust_my_sqlite3_errcode(false, &both, Some(&c)), ErrorSource::Kept));
    assert!(matches!(rust_my_sqlite3_errcode(true, &both, Some(&c)), ErrorSource::Shim));
    assert!(matches!(rust_my_sqlite3_errcode(true, &none, None), ErrorSource::Unknown));
    assert_eq!(rust_my_sqlite3_extended_errcode(Some(&c), Some(7)), 1);
    assert_eq!(rust_my_sqlite3_extended_errcode(None, Some(7)), 7);
    assert_eq!(rust_my_sqlite3_extended_errcode(None, None), 1);
}

#[test]
fn tables_are_read_on_the_server() {
    let mut c = conn();
    assert!(rust_my_sqlite3_get_table(true, Some(&c), true));
    assert!(!rust_my_sqlite3_get_table(false, Some(&c), true));
    assert!(!rust_my_sqlite3_get_table(true, Some(&c), false));
    assert!(!rust_my_sqlite3_get_table(true, None, true));
    c.connected = false;
    assert!(!rust_my_sqlite3_get_table(true, Some(&c), true));
}

#[test]
fn icu_collations_are_faked() {
    assert!(rust_my_sqlite3_create_collation(Some(b"icu_root")));
    assert!(rust_my_sqlite3_create_collation(Some(b"x-ICU")));
    assert!(!rust_my_sqlite3_create_collation(Some(b"nocase")));
    assert!(!rust_my_sqlite3_create_collation(None));
}

#[test]
fn statements_of_the_server_answer_for_themselves() {
    let s = stmt("select 1", params(Vec::new(), 4));
    let h = Handle::Registered(&s);
    assert_eq!(rust_my_sqlite3_bind_parameter_count(&h), Answer::Value(4));
    assert_eq!(rust_my_sqlite3_stmt_readonly(&h, 0), Answer::Value(0));
    assert_eq!(rust_my_sqlite3_stmt_busy(&h), Answer::Value(1));
    assert_eq!(rust_my_sqlite3_stmt_status(&h), Answer::Value(0));
    assert_eq!(rust_my_sqlite3_db_handle(&h, true), DbSource::ShadowDb);
    assert!(matches!(rust_my_sqlite3_sql(&h), TextAnswer::Own(v) if v == b"select 1"));
    let local = Handle::Local;
    assert_eq!(rust_my_sqlite3_bind_parameter_count(&local), Answer::AskLocal(0));
    assert_eq!(rust_my_sqlite3_stmt_readonly(&local, 0), Answer::AskLocal(1));
    assert_eq!(rust_my_sqlite3_stmt_busy(&local), Answer::AskLocal(0));
    assert_eq!(rust_my_sqlite3_db_handle(&local, true), DbSource::Local);
    assert_eq!(rust_my_sqlite3_db_handle(&local, false), DbSource::Nowhere);
    assert!(matches!(rust_my_sqlite3_sql(&local), TextAnswer::AskLocal));
    let null = Handle::Null;
    assert_eq!(rust_my_sqlite3_bind_parameter_count(&null), Answer::Value(0));
    assert_eq!(rust_my_sqlite3_stmt_readonly(&null, 0), Answer::Value(1));
    assert_eq!(rust_my_sqlite3_db_handle(&null, true), DbSource::Nowhere);
    assert!(matches!(rust_my_sqlite3_sql(&null), TextAnswer::Nothing));
}

#[test]
fn parameters_have_names_and_places() {
    let mut p = params(vec![Param::Null, Param::Null, Param::Null], 3);
    p.names = Some(vec![Some(b"id".to_vec()), None, Some(b"id".to_vec())]);
    let s = stmt("q", p);
    let h = Handle::Registered(&s);
    assert!(matches!(rust_my_sqlite3_bind_parameter_name(&h, 1), TextAnswer::Own(v) if v == b"id"));
    assert!(matches!(rust_my_sqlite3_bind_parameter_name(&h, 2), TextAnswer::Nothing));
    assert!(matches!(rust_my_sqlite3_bind_parameter_name(&h, 4), TextAnswer::Nothing));
    for name in [&b":id"[..], b"@id", b"$id", b"id"] {
        assert_eq!(rust_my_sqlite3_bind_parameter_index(&h, Some(name)), Answer::Value(1));
    }
    assert_eq!(rust_my_sqlite3_bind_parameter_index(&h, Some(b"::id")), Answer::Value(0));
    assert_eq!(rust_my_sqlite3_bind_parameter_index(&h, None), Answer::Value(0));
    let plain = stmt("q", params(Vec::new(), 0));
    let h = Handle::Registered(&plain);
    assert_eq!(rust_my_sqlite3_bind_parameter_index(&h, Some(b"id")), Answer::AskLocal(0));
}

#[test]
fn values_are_written_into_the_statement() {
    let p = params(
        vec![
            Param::Owned(b"it's".to_vec()),
            Param::Null,
            Param::Buffer(b"7".to_vec()),
        ],
        3,
    );
    assert_eq!(
        expand_sql(b"select $1, $2, $3, $4, $, $x", &p),
        b"select 'it''s', NULL, '7', $4, $, $x"
    );
    assert_eq!(expand_sql(b"$0", &p), b"'it''s'");
    assert_eq!(expand_sql(b"$03", &p), b"'7'");
}

#[test]
fn a_statement_without_parameters_stays_as_it_is() {
    let p = params(vec![Param::Owned(b"x".to_vec())], 0);
    assert_eq!(expand_sql(b"select $1", &p), b"select $1");
}

#[test]
fn an_expanded_statement_is_cut_off_at_its_room() {
    let p = params(vec![Param::Owned(b"12345678".to_vec())], 1);
    let sql = b"$1$1$1$1$1$1$1$1";
    // Twice the text, the value and what goes with them, without the byte at the end.
    let room = 2 * (sql.len() + 1 + 8 + 3) - 1;
    let out = expand_sql(sql, &p);
    assert_eq!(out.len(), room);
    assert!(out.starts_with(b"'12345678''12345678'"));
}

#[test]
fn the_translated_text_is_expanded_first() {
    let mut s = stmt("select ?", params(vec![Param::Buffer(b"1".to_vec())], 1));
    s.pg_sql = Some(b"select $1".to_vec());
    assert!(matches!(
        rust_my_sqlite3_expanded_sql(&Handle::Registered(&s)),
        Expanded::Sql(v) if v == b"select '1'"
    ));
    s.is_pg = 1;
    assert!(matches!(rust_my_sqlite3_expanded_sql(&Handle::Registered(&s)), Expanded::AskLocal));
    s.is_pg = 2;
    s.pg_sql = None;
    s.sql = None;
    assert!(matches!(rust_my_sqlite3_expanded_sql(&Handle::Registered(&s)), Expanded::Nothing));
    assert!(matches!(rust_my_sqlite3_expanded_sql(&Handle::Null), Expanded::Nothing));
}
