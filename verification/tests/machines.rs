use plex_pg_core::exec;
use plex_pg_core::exec::Exec;
use plex_pg_core::prepare;
use plex_pg_core::prepare::{
    prepared_name, rust_my_sqlite3_prepare_v2, stack_state, Entry, Prepare, TxnRoute,
};
use plex_pg_core::prepare_text::{
    maybe_skip_alter_table_add, column_exists_in_sqlite, complete_sql, dummy_sql, is_ondeck_query,
    is_txn_control_sql, table_info_sql, rust_my_sqlite3_prepare16_v2, utf16_to_bytes,
};
use plex_pg_core::retry::RetryState;
use plex_pg_core::step;
use plex_pg_core::step::{may_retry, Step};

fn facts(present: bool, read: bool, write: bool, skip: bool) -> prepare::Facts {
    prepare::Facts {
        conn: prepare::ConnInfo {
            present,
            active: present,
            connected: present,
            library: present,
        },
        read,
        write,
        skip,
    }
}

fn prepare_reply() -> prepare::Reply {
    prepare::Reply {
        yes: false,
        facts: facts(false, false, false, false),
        translation: prepare::Translation {
            success: true,
            sql: Some(b"SELECT $1".to_vec()),
            param_count: 1,
            names: vec![Some(b"a".to_vec())],
        },
        text: None,
        available: true,
        rc: 0,
        statement: true,
    }
}

const PLENTY: isize = 8_000_000;

fn begin(sql: &str, remaining: isize) -> (Prepare, prepare::Action) {
    Prepare::rust_my_sqlite3_prepare_v2_internal(Some(sql.as_bytes().to_vec()), false, true, 1, remaining)
}

#[test]
fn a_read_is_prepared_on_the_server_with_a_stand_in() {
    let (mut p, a) = begin("select :a", PLENTY);
    assert!(matches!(a, prepare::Action::Inspect));
    let a = p.resume(prepare::Reply { facts: facts(true, true, false, false), ..prepare_reply() });
    assert!(matches!(a, prepare::Action::Translate));
    let a = p.resume(prepare_reply());
    let prepare::Action::Prepare { text } = a else { panic!("no stand-in") };
    assert_eq!(text, dummy_sql(&vec![Some(b"a".to_vec())], 1));
    let a = p.resume(prepare_reply());
    assert!(matches!(a, prepare::Action::ClearErrorAndCreate | prepare::Action::Create));
    let mut a = p.resume(prepare::Reply { yes: true, ..prepare_reply() });
    if matches!(a, prepare::Action::Translate) {
        a = p.resume(prepare_reply());
    }
    let prepare::Action::Polish { sql, .. } = a else { panic!("nothing to polish") };
    assert_eq!(sql, b"SELECT $1");
    let a = p.resume(prepare_reply());
    let prepare::Action::Return { rc, clear, part } = a else { panic!("not done") };
    let part = part.unwrap();
    assert_eq!((rc, clear, part.kind, part.register, part.prepared), (0, prepare::Clear::Nothing, 2, true, true));
    assert_eq!(part.sql.as_deref(), Some(&b"SELECT $1"[..]));
    assert_eq!(part.param_count, Some(1));
}

#[test]
fn a_statement_without_a_connection_is_prepared_locally() {
    let (mut p, _) = begin("select 1", PLENTY);
    let a = p.resume(prepare_reply());
    assert!(matches!(a, prepare::Action::AddIfNotExists { .. }));
    let a = p.resume(prepare_reply());
    assert!(matches!(a, prepare::Action::PrepareOriginal));
    let a = p.resume(prepare::Reply { rc: 1, statement: false, ..prepare_reply() });
    assert!(matches!(a, prepare::Action::Return { rc: 1, part: None, .. }));
}

#[test]
fn a_column_that_is_there_is_not_added() {
    let (mut p, a) = begin("ALTER TABLE 'metadata_items' ADD 'extra' text", PLENTY);
    let prepare::Action::ColumnExists { table, column } = a else { panic!("no question") };
    assert_eq!((&table[..], &column[..]), (&b"metadata_items"[..], &b"extra"[..]));
    let a = p.resume(prepare::Reply { yes: true, ..prepare_reply() });
    assert!(matches!(a, prepare::Action::Prepare { .. }));
    let a = p.resume(prepare_reply());
    assert!(matches!(a, prepare::Action::Return { rc: 0, .. }));
}

#[test]
fn a_small_stack_delegates_and_a_deep_call_fails() {
    let (_, a) = begin("select 1", 300_000);
    assert!(matches!(a, prepare::Action::Delegate));
    let (_, a) = Prepare::rust_my_sqlite3_prepare_v2_internal(Some(b"select 1".to_vec()), true, true, 1, 10_000);
    assert!(matches!(a, prepare::Action::Inspect));
    let (_, a) = Prepare::rust_my_sqlite3_prepare_v2_internal(Some(b"select 1".to_vec()), false, true, 51, PLENTY);
    assert!(matches!(a, prepare::Action::Return { rc: 1, clear: prepare::Clear::StatementAndTail, part: None }));
    let (mut p, _) = Prepare::rust_my_sqlite3_prepare_v2_internal(Some(b"update t set a=1".to_vec()), true, true, 1, 10_000);
    let a = p.resume(prepare::Reply { facts: facts(true, false, true, false), ..prepare_reply() });
    assert!(matches!(a, prepare::Action::NoteLowStack));
    let a = p.resume(prepare_reply());
    assert!(matches!(a, prepare::Action::Return { rc: 7, clear: prepare::Clear::StatementAndTail, part: None }));
}

#[test]
fn preparing_ends_whatever_is_answered() {
    for seed in 0..400u32 {
        let sql = ["select * from fts4_x collate icu_root", "insert into t values(1)", "alter table a add b"]
            [(seed % 3) as usize];
        let (mut p, mut a) = begin(sql, PLENTY);
        let mut steps = 0;
        while !matches!(a, prepare::Action::Return { .. }) {
            let bit = |n: u32| (seed >> ((n + steps) % 9)) & 1 == 1;
            a = p.resume(prepare::Reply {
                yes: bit(0),
                facts: facts(bit(1), bit(2), bit(3), bit(4)),
                text: if bit(5) { Some(b"select 2".to_vec()) } else { None },
                available: bit(6),
                rc: i32::from(bit(7)),
                statement: bit(8),
                ..prepare_reply()
            });
            steps += 1;
            assert!(steps < 20);
        }
    }
}

#[test]
fn another_call_goes_to_the_local_database() {
    assert_eq!(rust_my_sqlite3_prepare_v2(false, false), Entry::Proceed);
    assert_eq!(rust_my_sqlite3_prepare_v2(true, true), Entry::Local);
    assert_eq!(rust_my_sqlite3_prepare_v2(true, false), Entry::Fail);
}

#[test]
fn stacks_are_measured_from_their_top() {
    let s = stack_state(1000, 5000, 2000);
    assert_eq!((s.size, s.used, s.remaining), (5000, 4000, 1000));
    let lost = stack_state(1000, 5000, 10);
    assert_eq!((lost.size, lost.used, lost.remaining), (8_388_608, 0, 8_388_608));
}

#[test]
fn transactions_are_counted() {
    let mut t = TxnRoute { total: 0, skipped: 0, routed: 0 };
    assert!(!t.note(b"select 1", facts(true, true, false, false)));
    assert!(t.note(b" BEGIN", facts(true, false, true, false)));
    assert!(!t.note(b"commit", facts(true, false, true, true)));
    assert_eq!((t.total, t.skipped, t.routed), (2, 1, 1));
}

#[test]
fn prepared_statements_are_named_by_their_hash() {
    let (hash, name) = prepared_name(b"SELECT 1", false);
    assert_eq!(name.unwrap(), format!("ps_{hash:x}").into_bytes());
    assert!(prepared_name(b"SELECT 1", true).1.is_none());
}

#[test]
fn statements_are_told_apart_by_their_text() {
    assert!(is_txn_control_sql(b"  begin transaction"));
    assert!(!is_txn_control_sql(b"select begin"));
    assert!(!is_ondeck_query(b"select 1"));
    assert_eq!(maybe_skip_alter_table_add(b"alter table t add c int"), Some((b"t".to_vec(), b"c".to_vec())));
    assert_eq!(
        maybe_skip_alter_table_add(b"ALTER TABLE \"a b\" ADD COLUMN c int"),
        Some((b"a b".to_vec(), b"COLUMN".to_vec()))
    );
    assert!(maybe_skip_alter_table_add(b"select 1").is_none());
}

#[test]
fn columns_are_looked_for_by_name() {
    assert_eq!(table_info_sql(b"tags"), b"PRAGMA table_info(tags)");
    assert_eq!(table_info_sql(&[b'x'; 600]).len(), 511);
    let columns = vec![None, Some(b"Title".to_vec())];
    assert!(column_exists_in_sqlite(&columns, b"title"));
    assert!(!column_exists_in_sqlite(&columns, b"titles"));
}

#[test]
fn insertions_return_their_row() {
    let done = complete_sql(true, b"INSERT INTO t VALUES(1)", b"INSERT INTO t VALUES(1)");
    assert_eq!(done, b"INSERT INTO t VALUES(1) RETURNING id");
    assert_eq!(complete_sql(true, b"INSERT INTO t VALUES(1)", &done), done);
    assert_eq!(complete_sql(false, b"SELECT 1", b"SELECT 1"), b"SELECT 1");
}

#[test]
fn wide_text_is_turned_into_bytes() {
    let wide: Vec<u16> = "a\u{e9}\u{20ac}".encode_utf16().collect();
    assert_eq!(utf16_to_bytes(&wide), "a\u{e9}\u{20ac}".as_bytes());
    let plain: Vec<u16> = "select 1".encode_utf16().collect();
    assert!(rust_my_sqlite3_prepare16_v2(&plain).is_none());
    let icu: Vec<u16> = "order by x COLLATE icu_root".encode_utf16().collect();
    assert_eq!(rust_my_sqlite3_prepare16_v2(&icu).unwrap(), b"order by x COLLATE icu_root");
}

fn exec_reply() -> exec::Reply {
    exec::Reply {
        yes: true,
        link: exec::Link { present: true, active: true, connected: true, healthy: true },
        skip: false,
        text: None,
        rc: 0,
        status: 1,
        has_id: false,
        link_failed: false,
        stale: false,
    }
}

#[test]
fn numbers_of_a_condition_become_parameters() {
    let sql = b"UPDATE t SET a = b WHERE id = 5".to_vec();
    let (mut e, a) = Exec::rust_my_sqlite3_exec_impl(Some(sql.clone()));
    assert!(matches!(a, exec::Action::Inspect));
    assert!(matches!(e.resume(exec_reply()), exec::Action::Rewrite));
    assert!(matches!(e.resume(exec_reply()), exec::Action::Translate { .. }));
    let a = e.resume(exec::Reply { text: Some(sql), ..exec_reply() });
    let exec::Action::LookUp { hash } = a else { panic!("not looked up") };
    let a = e.resume(exec::Reply { yes: false, ..exec_reply() });
    let exec::Action::PrepareAs { name, text } = a else { panic!("not prepared") };
    assert_eq!(text, b"UPDATE t SET a = b WHERE id = $1");
    assert!(String::from_utf8(name).unwrap().ends_with(&format!("{hash:x}")));
    let a = e.resume(exec_reply());
    let exec::Action::NoteAndRun { params, .. } = a else { panic!("not run") };
    assert_eq!(params, ["5"]);
    let a = e.resume(exec_reply());
    assert!(matches!(
        a,
        exec::Action::Return { rc: 0, changes: true, item: None, broken: false, deactivate: false }
    ));
}

#[test]
fn the_queued_item_is_kept() {
    let sql =
        b"INSERT INTO play_queue_generators (uri) VALUES ('x%2Fmetadata%2F42')".to_vec();
    let (mut e, _) = Exec::rust_my_sqlite3_exec_impl(Some(sql.clone()));
    e.resume(exec_reply());
    e.resume(exec_reply());
    let a = e.resume(exec::Reply { text: Some(sql), ..exec_reply() });
    assert!(matches!(a, exec::Action::LookUp { .. }));
    let a = e.resume(exec::Reply { yes: false, ..exec_reply() });
    let exec::Action::Run { text } = a else { panic!("not run as text") };
    assert!(text.ends_with(b"RETURNING id"));
    let a = e.resume(exec::Reply { status: 2, has_id: true, ..exec_reply() });
    assert!(matches!(a, exec::Action::Return { rc: 0, item: Some(42), .. }));
}

#[test]
fn junk_is_dropped_without_the_server() {
    let sql = b"INSERT INTO metadata_items (library_section_id, metadata_type) VALUES (NULL, NULL)";
    let (mut e, _) = Exec::rust_my_sqlite3_exec_impl(Some(sql.to_vec()));
    e.resume(exec_reply());
    let a = e.resume(exec_reply());
    assert!(matches!(a, exec::Action::Return { rc: 0, changes: false, .. }));
}

#[test]
fn a_broken_link_is_replaced_or_given_up() {
    let (mut e, _) = Exec::rust_my_sqlite3_exec_impl(Some(b"select 1".to_vec()));
    let sick = exec::Link { present: true, active: true, connected: true, healthy: false };
    let a = e.resume(exec::Reply { link: sick, ..exec_reply() });
    assert!(matches!(a, exec::Action::ResetLink));
    let a = e.resume(exec::Reply { yes: false, ..exec_reply() });
    assert!(matches!(a, exec::Action::ReplaceLink));
    let a = e.resume(exec::Reply { yes: false, ..exec_reply() });
    assert!(matches!(a, exec::Action::Return { rc: 1, broken: true, deactivate: true, .. }));
}

#[test]
fn a_failed_statement_is_no_error_unless_the_link_broke() {
    for (link_failed, stale, code) in [(false, false, 0), (true, false, 1), (false, true, 1)] {
        let (mut e, _) = Exec::rust_my_sqlite3_exec_impl(Some(b"delete from t".to_vec()));
        e.resume(exec_reply());
        e.resume(exec_reply());
        e.resume(exec::Reply { text: Some(b"delete from t".to_vec()), ..exec_reply() });
        e.resume(exec::Reply { yes: false, ..exec_reply() });
        let a = e.resume(exec::Reply { status: 7, link_failed, stale, ..exec_reply() });
        assert!(matches!(a, exec::Action::CheckHealth { forget } if forget == stale));
        let a = e.resume(exec_reply());
        assert!(matches!(a, exec::Action::Return { rc, .. } if rc == code));
    }
}

#[test]
fn a_text_without_a_connection_runs_locally() {
    let none = exec::Link { present: false, active: false, connected: false, healthy: false };
    let (mut e, _) = Exec::rust_my_sqlite3_exec_impl(Some(b"select a collate ICU_ROOT".to_vec()));
    let a = e.resume(exec::Reply { link: none, ..exec_reply() });
    assert!(matches!(a, exec::Action::StripCollation));
    let a = e.resume(exec::Reply { text: Some(b"select a".to_vec()), ..exec_reply() });
    assert!(matches!(a, exec::Action::RunLocally { cleaned: Some(t) } if t == b"select a"));
    let a = e.resume(exec::Reply { rc: 5, ..exec_reply() });
    assert!(matches!(a, exec::Action::Return { rc: 5, .. }));
    let (_, a) = Exec::rust_my_sqlite3_exec_impl(None);
    assert!(matches!(a, exec::Action::RunLocally { cleaned: None }));
}

fn stmt(kind: i32) -> step::StmtInfo {
    step::StmtInfo {
        known: true,
        kind,
        has_sql: true,
        has_shadow: true,
        read_done: false,
        kept_result: false,
        streaming: false,
        has_result: false,
        write_executed: false,
    }
}

fn step_reply() -> step::Reply {
    step::Reply {
        yes: false,
        rc: 100,
        broken: false,
        conn: step::ConnInfo { present: true, active: true, connected: true, library: true },
        stmt: stmt(2),
        text: None,
        read: false,
        write: false,
        skip: false,
        skip_original: false,
    }
}

#[test]
fn a_query_runs_and_gives_its_first_row() {
    let (mut s, a) = Step::my_sqlite3_step_impl(stmt(2), false);
    assert_eq!(a, step::Action::FindConnection);
    assert_eq!(s.resume(&step_reply()), step::Action::GetReady);
    assert_eq!(s.resume(&step_reply()), step::Action::RunQuery);
    let a = s.resume(&step_reply());
    assert_eq!(a, step::Action::Return { rc: 100, executed: false, broken: false });
}

#[test]
fn a_query_that_is_over_is_not_run_again() {
    let over = step::StmtInfo { read_done: true, ..stmt(2) };
    let (mut s, _) = Step::my_sqlite3_step_impl(over, false);
    let a = s.resume(&step_reply());
    assert_eq!(a, step::Action::Return { rc: 101, executed: false, broken: false });
    let written = step::StmtInfo { write_executed: true, ..stmt(1) };
    let (mut s, _) = Step::my_sqlite3_step_impl(written, false);
    let a = s.resume(&step_reply());
    assert_eq!(a, step::Action::Return { rc: 101, executed: false, broken: false });
}

#[test]
fn a_write_runs_on_the_server() {
    let (mut s, _) = Step::my_sqlite3_step_impl(stmt(1), false);
    assert_eq!(s.resume(&step_reply()), step::Action::AskWriteNoop);
    assert_eq!(s.resume(&step_reply()), step::Action::AskSpecial);
    assert_eq!(s.resume(&step_reply()), step::Action::GetReadyToWrite);
    assert_eq!(s.resume(&step_reply()), step::Action::RunWrite);
    let a = s.resume(&step::Reply { rc: 1, broken: true, ..step_reply() });
    assert_eq!(a, step::Action::Return { rc: 1, executed: false, broken: true });
}

#[test]
fn a_skipped_statement_is_done() {
    let (_, a) = Step::my_sqlite3_step_impl(stmt(3), false);
    assert_eq!(a, step::Action::Return { rc: 101, executed: false, broken: false });
}

#[test]
fn an_unknown_statement_is_read_by_its_text() {
    let unknown = step::StmtInfo { known: false, ..stmt(0) };
    let (mut s, a) = Step::my_sqlite3_step_impl(unknown, false);
    assert_eq!(a, step::Action::FindAnyConnection);
    assert_eq!(s.resume(&step_reply()), step::Action::ReadText);
    let a = s.resume(&step::Reply { text: Some(b"select 1".to_vec()), read: true, ..step_reply() });
    assert_eq!(a, step::Action::StepLocally);
    assert_eq!(s.resume(&step_reply()), step::Action::AdvanceKept);
    assert_eq!(s.resume(&step_reply()), step::Action::Translate);
    assert_eq!(s.resume(&step::Reply { yes: true, ..step_reply() }), step::Action::RunKeptRead);
    let a = s.resume(&step::Reply { rc: -1, ..step_reply() });
    assert_eq!(a, step::Action::Return { rc: 100, executed: false, broken: false });
}

#[test]
fn only_the_servers_statements_are_tried_again() {
    assert!(may_retry(stmt(2), true));
    assert!(!may_retry(stmt(2), false));
    assert!(!may_retry(stmt(0), true));
    assert!(!may_retry(step::StmtInfo { known: false, ..stmt(2) }, true));
}

#[test]
fn tries_are_bounded_by_the_waits() {
    let delays = vec![10, -1, 30];
    let mut r = RetryState::new();
    let mut waits = Vec::new();
    loop {
        r.conn_error = true;
        match r.decide(1, &delays) {
            Some(ms) => waits.push(ms),
            None => break,
        }
    }
    assert_eq!(waits, [10, 0, 30]);
    assert_eq!(r.retry_count, 0);
    r.conn_error = false;
    assert_eq!(r.decide(1, &delays), None);
    r.conn_error = true;
    assert_eq!(r.decide(0, &delays), None);
}
