use plex_pg_core::bind::{
    clear_metadata_result_if_needed, should_reset_stmt, BindAction, Binding, BoundStmt, Routing,
    TextAction, TextBind, TextFacts, TextReply, TextStage,
};
use plex_pg_core::machine_id::{
    intercepts_empty_identifier, is_readable, parse_machine_identifier,
};
use plex_pg_core::params::{
    bytes_to_pg_hex, decimal_text, mapped_param_index, pg_map_param_index,
    rust_my_sqlite3_bind_blob, rust_my_sqlite3_bind_blob64, rust_my_sqlite3_bind_double,
    rust_my_sqlite3_bind_int, rust_my_sqlite3_bind_int64, rust_my_sqlite3_bind_null,
    rust_my_sqlite3_bind_text, rust_my_sqlite3_bind_text64, rust_my_sqlite3_bind_value, text_len,
    text_len64, LocalValue, Param, Params,
};

fn params(names: Option<Vec<Option<Vec<u8>>>>, count: i32, limit: usize) -> Params {
    let mut values = Vec::new();
    for _ in 0..limit {
        values.push(Param::Null);
    }
    Params { names, count, values, lengths: vec![0; limit], formats: vec![0; limit] }
}

fn owned(p: &Param) -> &[u8] {
    match p {
        Param::Owned(v) => v,
        _ => panic!("not in memory of its own"),
    }
}

fn buffered(p: &Param) -> &[u8] {
    match p {
        Param::Buffer(v) => v,
        _ => panic!("not in the buffer"),
    }
}

#[test]
fn numbers_are_written_as_the_standard_library_does() {
    for n in [0, 7, 10, -1, 42, i64::MAX, i64::MIN, -9_000_000_000] {
        assert_eq!(decimal_text(n), n.to_string().into_bytes());
    }
}

#[test]
fn parameters_are_mapped_by_name_and_else_by_place() {
    let p = params(Some(vec![Some(b"b".to_vec()), None, Some(b"a".to_vec())]), 3, 8);
    assert_eq!(pg_map_param_index(&p, Some(b":a"), 1), 2);
    assert_eq!(pg_map_param_index(&p, Some(b"a"), 1), 2);
    assert_eq!(pg_map_param_index(&p, Some(b"@a"), 1), 0);
    assert_eq!(pg_map_param_index(&p, Some(b":zz"), 2), 1);
    assert_eq!(pg_map_param_index(&p, None, 3), 2);
    assert_eq!(mapped_param_index(&p, Some(b":b"), 3), Some(0));
    assert_eq!(mapped_param_index(&p, None, 0), None);
    assert_eq!(mapped_param_index(&p, None, 9), None);
}

#[test]
fn numbers_go_to_the_buffer() {
    let mut p = params(None, 0, 4);
    rust_my_sqlite3_bind_int(&mut p, None, 1, -5);
    rust_my_sqlite3_bind_int64(&mut p, None, 2, i64::MIN);
    rust_my_sqlite3_bind_double(&mut p, None, 3, b"1.5".to_vec());
    rust_my_sqlite3_bind_int(&mut p, None, 5, 9);
    assert_eq!(buffered(&p.values[0]), b"-5");
    assert_eq!(buffered(&p.values[1]), b"-9223372036854775808");
    assert_eq!(buffered(&p.values[2]), b"1.5");
    assert!(matches!(p.values[3], Param::Null));
}

#[test]
fn text_is_kept_and_binary_text_written_in_digits() {
    let mut p = params(None, 0, 4);
    rust_my_sqlite3_bind_text(&mut p, None, 1, Some("caf\u{e9}\n".as_bytes()));
    rust_my_sqlite3_bind_text(&mut p, None, 2, Some(&[0x41, 0x00]));
    rust_my_sqlite3_bind_text(&mut p, None, 3, None);
    assert_eq!(owned(&p.values[0]), "caf\u{e9}\n".as_bytes());
    assert_eq!(owned(&p.values[1]), b"\\x4100");
    assert!(matches!(p.values[2], Param::Null));
    assert_eq!(bytes_to_pg_hex(b""), b"");
}

#[test]
fn lengths_of_64_bits_change_nothing() {
    let mut p = params(None, 0, 3);
    rust_my_sqlite3_bind_text64(&mut p, None, 1, Some(b"abc"));
    rust_my_sqlite3_bind_blob64(&mut p, None, 2, Some(&[0x0a]));
    rust_my_sqlite3_bind_blob64(&mut p, None, 3, Some(&[]));
    assert_eq!(owned(&p.values[0]), b"abc");
    assert_eq!(owned(&p.values[1]), b"\\x0a");
    assert!(matches!(p.values[2], Param::Null));
    assert_eq!(text_len(-1, 7), 7);
    assert_eq!(text_len(0, 7), 0);
    assert_eq!(text_len(3, 7), 3);
    assert_eq!(text_len64(u64::MAX, 7), 7);
    assert_eq!(text_len64(3, 7), 3);
}

#[test]
fn blobs_are_written_in_digits() {
    let mut p = params(None, 0, 2);
    p.lengths[0] = 9;
    p.formats[0] = 1;
    rust_my_sqlite3_bind_blob(&mut p, None, 1, Some(&[0xff, 0x10]));
    assert_eq!(owned(&p.values[0]), b"\\xff10");
    assert_eq!(p.lengths[0], 0);
    assert_eq!(p.formats[0], 0);
    rust_my_sqlite3_bind_blob(&mut p, None, 2, Some(&[]));
    assert!(matches!(p.values[1], Param::Null));
}

#[test]
fn values_of_sqlite_are_bound_by_their_type() {
    let mut p = params(None, 0, 6);
    rust_my_sqlite3_bind_value(&mut p, None, 1, LocalValue::Integer(-3));
    rust_my_sqlite3_bind_value(&mut p, None, 2, LocalValue::Float(b"0.5".to_vec()));
    rust_my_sqlite3_bind_value(&mut p, None, 3, LocalValue::Text(Some(b"t".to_vec())));
    rust_my_sqlite3_bind_value(&mut p, None, 4, LocalValue::Blob(Some(vec![0, 1, 2])));
    rust_my_sqlite3_bind_value(&mut p, None, 5, LocalValue::Nothing);
    assert_eq!(owned(&p.values[0]), b"-3");
    assert_eq!(owned(&p.values[1]), b"0.5");
    assert_eq!(owned(&p.values[2]), b"t");
    assert_eq!(owned(&p.values[3]), &[0, 1, 2]);
    assert_eq!(p.lengths[3], 3);
    assert_eq!(p.formats[3], 1);
    assert!(matches!(p.values[4], Param::Null));
    rust_my_sqlite3_bind_value(&mut p, None, 3, LocalValue::Text(None));
    assert!(matches!(p.values[2], Param::Null));
}

#[test]
fn binding_nothing_frees_memory_but_not_the_buffer() {
    let mut p = params(None, 0, 2);
    rust_my_sqlite3_bind_text(&mut p, None, 1, Some(b"x"));
    rust_my_sqlite3_bind_null(&mut p, None, 1);
    assert!(matches!(p.values[0], Param::Null));
    rust_my_sqlite3_bind_int(&mut p, None, 2, 7);
    rust_my_sqlite3_bind_null(&mut p, None, 2);
    assert_eq!(buffered(&p.values[1]), b"7");
}

#[test]
fn misuse_is_tried_three_times_more() {
    let (mut b, first) = Binding::begin_bind(false, true);
    assert!(matches!(first, BindAction::Bind));
    for _ in 0..3 {
        assert!(matches!(b.retry_on_misuse(21), BindAction::WaitAndBind { reset: true }));
    }
    assert!(matches!(b.retry_on_misuse(21), BindAction::Finish { code: 21 }));
    let (mut c, _) = Binding::begin_bind(false, false);
    assert!(matches!(c.retry_on_misuse(0), BindAction::Finish { code: 0 }));
    let (_, only) = Binding::begin_bind(true, false);
    assert!(matches!(only, BindAction::Finish { code: 0 }));
}

#[test]
fn statements_of_the_server_are_started_over() {
    let mut r = Routing { is_pg: 2, metadata_only_result: 1, has_result: true };
    assert!(should_reset_stmt(false, Some(&r)));
    assert!(!should_reset_stmt(true, Some(&r)));
    assert!(!should_reset_stmt(false, None));
    clear_metadata_result_if_needed(&mut r);
    assert_eq!(r.metadata_only_result, 2);
    let mut none = Routing { is_pg: 0, metadata_only_result: 1, has_result: false };
    assert!(!should_reset_stmt(false, Some(&none)));
    clear_metadata_result_if_needed(&mut none);
    assert_eq!(none.metadata_only_result, 1);
}

#[test]
fn identifiers_are_cut_between_characters() {
    let odd = format!("MachineIdentifier=\"a{}b\"", "\u{e9}".repeat(15));
    assert!(!is_readable(&odd));
    let even = format!("MachineIdentifier=\"{}\"", "\u{e9}".repeat(16));
    assert!(is_readable(&even));
    let id = parse_machine_identifier(&even).unwrap();
    assert_eq!(id.chars().filter(|c| *c == '-').count(), 4);
    assert_eq!(id.len(), 36);
}

#[test]
fn empty_identifiers_of_devices_are_intercepted() {
    let sql = "SELECT * FROM devices WHERE Identifier = ?";
    assert!(intercepts_empty_identifier(false, sql, None, 3, 0));
    assert!(intercepts_empty_identifier(false, sql, Some(":IDENTIFIER"), 3, 0));
    assert!(!intercepts_empty_identifier(false, sql, Some(":name"), 3, 0));
    assert!(!intercepts_empty_identifier(true, sql, None, 3, 0));
    assert!(!intercepts_empty_identifier(false, sql, None, 3, 1));
    assert!(!intercepts_empty_identifier(false, "select 1", None, 1, 0));
    assert!(intercepts_empty_identifier(false, "SELECT name FROM devices WHERE id = ?", None, 1, 0));
    assert!(!intercepts_empty_identifier(false, "SELECT name FROM devices WHERE id = ?", None, 2, 0));
}

fn device_stmt() -> Option<BoundStmt> {
    Some(BoundStmt {
        routing: Routing { is_pg: 2, metadata_only_result: 1, has_result: true },
        sql: Some("select * from devices where identifier = ?".to_string()),
        params: params(None, 0, 4),
    })
}

fn facts(server_only: bool) -> TextFacts {
    TextFacts {
        reset_disabled: false,
        server_only,
        bypass: false,
        name: None,
        name_text: None,
        idx: 1,
    }
}

#[test]
fn an_empty_identifier_is_replaced_before_it_is_bound() {
    let mut stmt = device_stmt();
    let (mut work, action) = TextBind::bind_text_impl(&mut stmt, facts(false), Some(Vec::new()));
    assert_eq!(action, TextAction::ReadPreferences);
    let next = work.resume(&mut stmt, TextReply { code: 0, content: None });
    assert_eq!(next, TextAction::Bind);
    assert_eq!(work.value.as_deref(), Some(&b"53cfd87b-f8b2-4db2-af2d-6aaa373b2b34"[..]));
    let retry = work.resume(&mut stmt, TextReply { code: 21, content: None });
    assert_eq!(retry, TextAction::WaitAndBind { reset: true });
    let end = work.resume(&mut stmt, TextReply { code: 0, content: None });
    assert_eq!(end, TextAction::Finish { code: 0 });
    assert_eq!(work.stage, TextStage::Over);
    let stmt = stmt.unwrap();
    assert_eq!(stmt.routing.metadata_only_result, 2);
    assert_eq!(owned(&stmt.params.values[0]), b"53cfd87b-f8b2-4db2-af2d-6aaa373b2b34");
}

#[test]
fn a_text_of_the_server_is_kept_at_once() {
    let mut stmt = device_stmt();
    let (_, action) = TextBind::bind_text_impl(&mut stmt, facts(true), Some(b"abc".to_vec()));
    assert_eq!(action, TextAction::Finish { code: 0 });
    assert_eq!(owned(&stmt.unwrap().params.values[0]), b"abc");
}

#[test]
fn a_text_without_a_statement_is_only_bound_locally() {
    let mut stmt = None;
    let (mut work, action) = TextBind::bind_text_impl(&mut stmt, facts(false), Some(Vec::new()));
    assert_eq!(action, TextAction::Bind);
    let end = work.resume(&mut stmt, TextReply { code: 19, content: None });
    assert_eq!(end, TextAction::Finish { code: 19 });
    assert!(stmt.is_none());
}
