use plex_pg_core::bind::{BindAction, BindValue, BoundStmt, Routing, ValueBind, ValueFacts};
use plex_pg_core::c_strings::rust_normalize_sqlite_decltype;
use plex_pg_core::literals::normalize_sql_literals_impl;
use plex_pg_core::metadata::{table_answer, table_of, TableAnswer, TableRun};
use plex_pg_core::params::{LocalValue, Param, Params};
use plex_pg_core::pg_statement::{
    convert_metadata_settings_upsert, StmtRegistry, ThreadCachedStmts, MAX_CACHED_STMTS_PER_THREAD,
};
use plex_pg_core::pool::{PoolManager, TlsPoolCache, SLOT_FREE};
use plex_pg_core::prepare;
use plex_pg_core::prepare::{Clear, Nesting, Prepare};
use plex_pg_core::prepare_text::readable_names;
use plex_pg_core::registry::{ConnectionRegistry, DbToPool};
use plex_pg_core::retry::RetryState;
use plex_pg_core::runtime::{uuid_patch, PatchAction, Patching, UUID_PARSER_OFFSET};
use plex_pg_core::step;
use plex_pg_core::step::{decide_step, marks_in_step};
use plex_pg_core::upsert::{table_name, transform};
use sqlparser::ast::Statement;
use sqlparser::dialect::SQLiteDialect;
use sqlparser::parser::Parser;
use std::cell::RefCell;

#[test]
fn a_statement_is_ours_while_a_handle_leads_to_it() {
    let mut reg = StmtRegistry::new();
    reg.rust_stmt_register(0x11, 0x99);
    reg.rust_stmt_register(0x12, 0x99);
    reg.rust_stmt_unregister(0x11);
    assert_eq!(reg.rust_stmt_find(0x12), 0x99);
    assert_eq!(reg.rust_stmt_is_ours(0x99), 1);
    reg.rust_stmt_register(0x13, 0x99);
    reg.rust_stmt_register(0x12, 0x55);
    assert_eq!(reg.rust_stmt_is_ours(0x99), 1);
    assert_eq!(reg.rust_stmt_is_ours(0x55), 1);
    reg.rust_stmt_register(0x13, 0x99);
    reg.rust_stmt_unregister(0x13);
    assert_eq!(reg.rust_stmt_is_ours(0x99), 0);
    assert_eq!(reg.rust_stmt_is_ours(0), 0);
    reg.rust_stmt_register(0x14, 0x55);
    let mut all = reg.rust_stmt_registry_cleanup();
    all.sort();
    assert_eq!(all, [0x55, 0x55]);
    assert_eq!(reg.rust_stmt_is_ours(0x55), 0);
}

#[test]
fn zero_is_found_only_for_what_is_not_there() {
    let mut reg = StmtRegistry::new();
    let mut kept = ThreadCachedStmts::new();
    reg.rust_stmt_register(0x11, 0);
    reg.rust_stmt_register(0x12, 0x22);
    kept.register(0x13, 0x33, |_| {}, |_| {});
    assert_eq!(reg.rust_stmt_find_any(&kept, 0x11), 0);
    assert_eq!(reg.rust_stmt_find_any(&kept, 0x12), 0x22);
    assert_eq!(reg.rust_stmt_find_any(&kept, 0x13), 0x33);
    assert_eq!(reg.rust_stmt_find_any(&kept, 0), 0);
}

#[test]
fn one_hold_and_one_release_at_most() {
    let held = RefCell::new(Vec::new());
    let released = RefCell::new(Vec::new());
    let mut kept = ThreadCachedStmts::new();
    let put = |kept: &mut ThreadCachedStmts, s: usize, p: usize| {
        held.borrow_mut().clear();
        released.borrow_mut().clear();
        kept.register(s, p, |x| held.borrow_mut().push(x), |x| released.borrow_mut().push(x));
        (held.borrow().clone(), released.borrow().clone())
    };
    for i in 0..MAX_CACHED_STMTS_PER_THREAD {
        assert_eq!(put(&mut kept, 0x1000 + i, 0x2000 + i), (vec![0x2000 + i], vec![]));
    }
    assert_eq!(put(&mut kept, 0x1000, 0x2000), (vec![0x2000], vec![]));
    assert_eq!(put(&mut kept, 0x1000, 0x5555), (vec![0x5555], vec![0x2000]));
    assert_eq!(put(&mut kept, 0x9999, 0x8888), (vec![0x8888], vec![0x5555]));
    assert_eq!(kept.find(0x1000), None);
    assert_eq!(kept.find(0x1001), Some(0x2001));
    released.borrow_mut().clear();
    kept.clear(0x1001, |x| released.borrow_mut().push(x));
    kept.clear(0x1001, |x| released.borrow_mut().push(x));
    assert_eq!(*released.borrow(), [0x2001]);
}

#[test]
fn registries_count_their_handles() {
    let mut reg = ConnectionRegistry::new();
    reg.register(1, 10);
    reg.register(1, 11);
    reg.register(2, 10);
    assert_eq!(reg.len(), 2);
    assert_eq!(reg.unregister(3), None);
    assert_eq!(reg.len(), 2);
    assert_eq!(reg.unregister(1), Some(11));
    assert_eq!(reg.len(), 1);
    let mut slots = DbToPool::new();
    slots.assign(1, 4);
    slots.assign(1, 5);
    assert_eq!(slots.len(), 1);
    assert_eq!(slots.release(1), Some(5));
    assert_eq!(slots.len(), 0);
}

#[test]
fn reaping_again_finds_nothing_and_early_times_count() {
    let mut pm = PoolManager::new(3, 1);
    pm.idle_timeout_secs = 60;
    pm.slots[1].conn = 0xA;
    pm.slots[1].state = SLOT_FREE;
    pm.slots[1].last_used = -500;
    assert_eq!(pm.reap_idle(-441), []);
    assert_eq!(pm.reap_idle(-440), [(1, 0xA)]);
    assert_eq!(pm.reap_idle(-440), []);
    pm.slots[2].conn = 0xB;
    pm.touch_connection(0xB, i64::MIN);
    assert_eq!(pm.reap_idle(i64::MAX), [(2, 0xB)]);
}

#[test]
fn links_that_keep_failing_use_up_the_waits_in_order() {
    let delays = vec![10, -5, 300];
    let mut r = RetryState::new();
    let mut waits = Vec::new();
    for _ in 0..4 {
        r.conn_error = true;
        waits.push(r.decide(1, &delays));
    }
    assert_eq!(waits, [Some(10), Some(0), Some(300), None]);
    assert_eq!(r.retry_count, 0);
}

#[test]
fn calls_are_counted_while_they_last() {
    let mut n = Nesting { depth: 0 };
    let outer = n.enter();
    let mut inner = n.enter();
    assert_eq!(n.depth, 2);
    n.decrement_now(&mut inner);
    n.decrement_now(&mut inner);
    assert_eq!(n.depth, 1);
    n.leave(inner);
    assert_eq!(n.depth, 1);
    n.leave(outer);
    assert_eq!(n.depth, 0);
}

fn reply(available: bool, names: Vec<Option<Vec<u8>>>) -> prepare::Reply {
    let conn = prepare::ConnInfo { present: true, active: true, connected: true, library: true };
    prepare::Reply {
        yes: false,
        facts: prepare::Facts { conn, read: true, write: false, skip: false },
        translation: prepare::Translation {
            success: true,
            sql: Some(b"SELECT $1".to_vec()),
            param_count: names.len() as i32,
            names,
        },
        text: None,
        available,
        rc: 0,
        statement: true,
    }
}

#[test]
fn without_sqlite_there_is_no_statement() {
    let sql = Some(b"select :a".to_vec());
    let (mut p, _) = Prepare::rust_my_sqlite3_prepare_v2_internal(sql, false, true, 1, 8_000_000);
    p.resume(reply(true, vec![]));
    p.resume(reply(true, vec![]));
    let a = p.resume(reply(false, vec![]));
    assert!(matches!(a, prepare::Action::Return { rc: 1, clear: Clear::Statement, part: None }));
    let (mut p, _) = Prepare::rust_my_sqlite3_prepare_v2_internal(None, false, true, 1, 8_000_000);
    let a = p.resume(reply(false, vec![]));
    assert!(matches!(a, prepare::Action::Return { rc: 1, clear: Clear::Statement, part: None }));
}

#[test]
fn names_that_are_not_utf8_are_marked() {
    let names = vec![Some(b"a\xffb".to_vec()), None, Some("caf\u{e9}".as_bytes().to_vec())];
    let (mut p, _) =
        Prepare::rust_my_sqlite3_prepare_v2_internal(Some(b"select 1".to_vec()), false, true, 1, 8_000_000);
    p.resume(reply(true, vec![]));
    let prepare::Action::Prepare { text } = p.resume(reply(true, names.clone())) else {
        panic!("no stand-in")
    };
    assert_eq!(
        String::from_utf8(text).unwrap(),
        "SELECT 1 WHERE :a\u{fffd}b IS NOT NULL AND ? IS NOT NULL AND :caf\u{e9} IS NOT NULL"
    );
    assert_eq!(readable_names(&names)[2], names[2]);
}

#[test]
fn sqlite_answers_where_the_server_does_not() {
    let run = |translated, status, built| TableRun { translated, status, built };
    assert_eq!(table_of(Some(&run(true, 2, Some((3, 4))))), Some((3, 4)));
    assert_eq!(table_of(Some(&run(false, 2, Some((3, 4))))), None);
    assert_eq!(table_of(Some(&run(true, 7, Some((3, 4))))), None);
    assert_eq!(table_of(Some(&run(true, 2, None))), None);
    assert_eq!(table_of(None), None);
    assert_eq!(table_answer(Some((3, 4)), None), TableAnswer::Server { rows: 3, columns: 4 });
    assert_eq!(table_answer(None, Some(5)), TableAnswer::Local { code: 5 });
    assert_eq!(table_answer(None, None), TableAnswer::Fail { code: 1 });
}

#[test]
fn parameters_put_back_give_the_statement() {
    let sql = "SELECT * FROM t WHERE a = 5 AND b IN (-3, 4.25) AND c = 'no $1' AND d>10-2";
    let (mut text, params) = normalize_sql_literals_impl(sql).unwrap();
    assert_eq!(params, ["5", "-3", "4.25", "10", "2"]);
    text = text.replace("'no $1'", "'no mark'");
    for (k, p) in params.iter().enumerate() {
        text = text.replacen(&format!("${}", k + 1), p, 1);
    }
    assert_eq!(text.replace("no mark", "no $1"), sql);
}

#[test]
fn a_converted_settings_insertion_stays_as_it_is() {
    let sql = "INSERT INTO metadata_item_settings (account_id, guid) VALUES (1, 'g')";
    let once = convert_metadata_settings_upsert(sql).unwrap();
    assert!(once.starts_with(sql) && once.ends_with(" RETURNING id"));
    assert_eq!(convert_metadata_settings_upsert(&once), None);
    let sql = "INSERT INTO metadata_item_settings (guid) VALUES ('\u{3a3}\u{130}\u{df}\u{3a3}')";
    let once = convert_metadata_settings_upsert(sql).unwrap();
    assert_eq!(convert_metadata_settings_upsert(&once), None);
}

fn parsed(sql: &str) -> Statement {
    Parser::parse_sql(&SQLiteDialect {}, sql).expect("one statement").remove(0)
}

#[test]
fn a_rewritten_statement_is_left_alone() {
    for sql in [
        "INSERT OR REPLACE INTO settings(id) VALUES(1)",
        "INSERT OR REPLACE INTO main.tags(id, tag, tag) VALUES(1, 2, 3)",
        "INSERT OR IGNORE INTO plex.preferences(name) SELECT a FROM b WHERE c = 1",
        "REPLACE INTO t(a) VALUES(1)",
    ] {
        let mut stmt = parsed(sql);
        transform(&mut stmt);
        let once = stmt.clone();
        assert_ne!(once, parsed(sql));
        transform(&mut stmt);
        assert_eq!(stmt, once);
    }
    for sql in ["INSERT INTO t(a) VALUES(1)", "SELECT 1", "INSERT OR ABORT INTO t(a) VALUES(1)"] {
        let mut stmt = parsed(sql);
        transform(&mut stmt);
        assert_eq!(stmt, parsed(sql));
    }
    let mut stmt = parsed("INSERT OR IGNORE INTO plex.preferences(name) SELECT a FROM b WHERE c = 1");
    transform(&mut stmt);
    assert_eq!(
        stmt.to_string(),
        "INSERT INTO plex.preferences (name) SELECT a FROM b WHERE c = 1 ON CONFLICT(name) DO NOTHING"
    );
}

#[test]
fn the_reader_of_identifiers_is_replaced_in_order() {
    assert_eq!(uuid_patch(), [0x00, 0x00, 0x80, 0xd2, 0x01, 0x00, 0x80, 0xd2, 0xc0, 0x03, 0x5f, 0xd6]);
    let (_, a) = Patching::patch_uuid_parser(0);
    assert_eq!(a, PatchAction::Stop { replaced: false });
    let address = 0x10_0000 + UUID_PARSER_OFFSET;
    let (mut p, a) = Patching::patch_uuid_parser(0x10_0000);
    assert_eq!(a, PatchAction::WriteThroughFile { address });
    let mut q = p;
    assert_eq!(q.resume(true, 0), PatchAction::Flush { address });
    assert_eq!(q.resume(true, 0), PatchAction::Stop { replaced: true });
    assert_eq!(p.resume(false, 0), PatchAction::PageSize);
    let mut q = p;
    assert_eq!(q.resume(true, 0), PatchAction::Stop { replaced: false });
    let start = address & !4095;
    assert_eq!(p.resume(false, 4096), PatchAction::Open { start, size: 4096, executable: false });
    assert_eq!(p.resume(false, 0), PatchAction::Open { start, size: 4096, executable: true });
    let mut q = p;
    assert_eq!(q.resume(false, 0), PatchAction::Stop { replaced: false });
    assert_eq!(p.resume(true, 0), PatchAction::CopyAndClose { address, start, size: 4096 });
    assert_eq!(p.resume(false, 0), PatchAction::Flush { address });
    assert_eq!(p.resume(false, 0), PatchAction::Stop { replaced: true });
}

#[test]
fn the_last_part_of_a_name_is_the_table() {
    let part = |s: &str| Some(s.to_string());
    assert_eq!(table_name(&vec![part("main"), part("Tags")]), "Tags");
    assert_eq!(table_name(&vec![part("tags"), None]), "");
    assert_eq!(table_name(&vec![]), "");
    let mut stmt = parsed("INSERT OR IGNORE INTO tags.preferences(name) VALUES(1)");
    transform(&mut stmt);
    assert!(stmt.to_string().contains("ON CONFLICT(name) DO NOTHING"));
    for word in ["ROLLBACK", "ABORT", "FAIL"] {
        let sql = format!("INSERT OR {word} INTO tags (id) VALUES (1)");
        let mut stmt = parsed(&sql);
        transform(&mut stmt);
        assert_eq!(stmt.to_string(), sql);
    }
}

#[test]
fn null_is_neither_kept_nor_found() {
    let mut kept = ThreadCachedStmts::new();
    kept.rust_cached_stmt_register(0, 5, |_| panic!("held"), |_| panic!("released"));
    kept.rust_cached_stmt_register(5, 0, |_| panic!("held"), |_| panic!("released"));
    assert_eq!(kept.entries.len(), 0);
    let held = RefCell::new(Vec::new());
    kept.rust_cached_stmt_register(1, 10, |x| held.borrow_mut().push(x), |_| panic!("released"));
    kept.rust_cached_stmt_register(2, 20, |x| held.borrow_mut().push(x), |_| panic!("released"));
    assert_eq!(*held.borrow(), [10, 20]);
    assert_eq!(kept.rust_cached_stmt_find(1), 10);
    assert_eq!(kept.rust_cached_stmt_find(0), 0);
    assert_eq!(kept.rust_cached_stmt_find(3), 0);
    kept.rust_cached_stmt_clear(0, |_| panic!("released"));
    kept.rust_cached_stmt_clear_weak(0);
    kept.rust_cached_stmt_clear(1, |x| assert_eq!(x, 10));
    kept.rust_cached_stmt_clear_weak(2);
    assert_eq!(kept.entries.len(), 0);
}

fn stmt_info(known: bool, kind: i32) -> step::StmtInfo {
    step::StmtInfo {
        known,
        kind,
        has_sql: true,
        has_shadow: true,
        read_done: false,
        kept_result: false,
        streaming: false,
        has_result: false,
        write_executed: false,
    }
}

#[test]
fn a_step_is_marked_and_tried_again_for_the_server_alone() {
    assert!(marks_in_step(stmt_info(true, 0), false));
    assert!(!marks_in_step(stmt_info(true, 2), true));
    assert!(!marks_in_step(stmt_info(false, 2), false));
    let delays = vec![7];
    let broken = RetryState { retry_count: 0, conn_error: true };
    let mut r = broken;
    assert_eq!(decide_step(stmt_info(true, 0), &mut r, 1, &delays), None);
    assert_eq!(r, broken);
    assert_eq!(decide_step(stmt_info(true, 2), &mut r, 101, &delays), None);
    assert_eq!(r, broken);
    assert_eq!(decide_step(stmt_info(true, 2), &mut r, 1, &delays), Some(7));
    assert_eq!(r, RetryState { retry_count: 1, conn_error: false });
    assert_eq!(decide_step(stmt_info(true, 2), &mut r, 1, &delays), None);
    assert_eq!(r, RetryState::new());
}

fn bound(is_pg: i32) -> Option<BoundStmt> {
    Some(BoundStmt {
        routing: Routing { is_pg, metadata_only_result: 1, has_result: true },
        sql: None,
        params: Params {
            names: None,
            count: 0,
            values: vec![Param::Null, Param::Null],
            lengths: vec![0; 2],
            formats: vec![0; 2],
        },
    })
}

fn first_value(stmt: &Option<BoundStmt>) -> Vec<u8> {
    match &stmt.as_ref().unwrap().params.values[0] {
        Param::Null => Vec::new(),
        Param::Buffer(v) | Param::Owned(v) => v.clone(),
    }
}

fn facts(server_only: bool) -> ValueFacts {
    ValueFacts { reset_disabled: false, server_only, name: None, idx: 1 }
}

#[test]
fn a_value_is_kept_once_sqlite_has_answered() {
    let mut stmt = bound(2);
    let (mut work, action) = ValueBind::begin(&mut stmt, facts(false), BindValue::Int(-7));
    assert!(matches!(action, BindAction::Bind) && work.binding.reset);
    assert_eq!(stmt.as_ref().unwrap().routing.metadata_only_result, 2);
    for _ in 0..3 {
        assert!(matches!(work.resume(&mut stmt, 21), BindAction::WaitAndBind { reset: true }));
        assert_eq!(first_value(&stmt), b"");
    }
    assert!(matches!(work.resume(&mut stmt, 21), BindAction::Finish { code: 21 }));
    assert_eq!(first_value(&stmt), b"-7");
    for (value, expected) in [
        (BindValue::Int64(i64::MIN), &b"-9223372036854775808"[..]),
        (BindValue::Double(b"0.5".to_vec()), b"0.5"),
        (BindValue::Blob(Some(vec![0xab])), b"\\xab"),
        (BindValue::Blob(None), b""),
        (BindValue::Value(Some(LocalValue::Blob(Some(vec![1, 2])))), b"\x01\x02"),
        (BindValue::Value(None), b""),
        (BindValue::Null, b""),
    ] {
        let mut stmt = bound(0);
        let (work, action) = ValueBind::begin(&mut stmt, facts(true), value);
        assert!(matches!(action, BindAction::Finish { code: 0 }) && !work.binding.reset);
        assert_eq!(first_value(&stmt), expected);
    }
}

#[test]
fn declared_types_settle_at_once() {
    for t in ["bigint", "Float", "DT_INTEGER(8)", "integer (8)", "blob", "Numeric", "varchar", "boolean"] {
        let once = rust_normalize_sqlite_decltype(Some(t.as_bytes()));
        assert_eq!(rust_normalize_sqlite_decltype(Some(once.as_bytes())), once);
        assert_eq!(rust_normalize_sqlite_decltype(Some(t.to_ascii_uppercase().as_bytes())), once);
    }
}

#[test]
fn a_child_keeps_the_settings_of_its_parent() {
    let mut pm = PoolManager::new(2, 1);
    pm.idle_timeout_secs = 77;
    pm.library_db_path = Some("x".to_string());
    pm.last_reap_time = 5;
    pm.global_metadata_id = 6;
    pm.global_last_insert_rowid = 7;
    assert_eq!(pm.rust_pool_check_fork(2, &mut TlsPoolCache::empty()), 1);
    assert_eq!((pm.idle_timeout_secs, pm.last_reap_time), (77, 5));
    assert_eq!((pm.global_metadata_id, pm.global_last_insert_rowid), (6, 7));
    assert_eq!(pm.library_db_path.as_deref(), Some("x"));
}
