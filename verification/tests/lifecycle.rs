use plex_pg_core::drain::{rust_step_conn_cancel_and_drain, Drain};
use plex_pg_core::lifecycle::{
    cached_flag, finalize_plan, free_all, reset_pg_stmt_locked, write_sql_buf, Clearing, Finalizing,
    Flag, Lifecycle, Owner, ResetStmt, SqlSource,
};
use plex_pg_core::params::{Param, Params};

const SECOND: u64 = 1_000_000_000;

fn params() -> Params {
    Params {
        names: None,
        count: 0,
        values: vec![Param::Owned(b"x".to_vec()), Param::Buffer(b"1".to_vec()), Param::Null],
        lengths: vec![1, 2, 3],
        formats: vec![1, 0, 0],
    }
}

#[test]
fn texts_are_remembered_up_to_255_bytes() {
    assert_eq!(write_sql_buf(None), b"");
    assert_eq!(write_sql_buf(Some(b"select")), b"select");
    assert_eq!(write_sql_buf(Some(&[b'a'; 300])), vec![b'a'; 255]);
}

#[test]
fn a_statement_lives_and_is_finalized_once() {
    let mut life = Lifecycle::new();
    assert_eq!(life.rust_my_sqlite3_finalize(0x10, true, SECOND), Finalizing::Stranger);
    life.rust_pg_note_stmt_prepare(0x10, Some(b"select"), SECOND, 7);
    assert!(life.is_prepared_stmt(0x10));
    assert_eq!(life.rust_my_sqlite3_finalize(0x10, true, SECOND), Finalizing::Proceed);
    life.end_finalize(0x10, Some(b"select"), 2, 2 * SECOND, 7);
    assert!(!life.is_prepared_stmt(0x10));
    assert!(life.is_recently_finalized_stmt(0x10, 4 * SECOND));
    assert!(!life.is_recently_finalized_stmt(0x10, 5 * SECOND));
    assert_eq!(life.rust_my_sqlite3_finalize(0x10, true, 3 * SECOND), Finalizing::Again);
    assert_eq!(life.rust_my_sqlite3_finalize(0x10, false, 3 * SECOND), Finalizing::Stranger);
    life.rust_pg_note_stmt_prepare(0x10, None, 3 * SECOND, 7);
    assert!(!life.is_recently_finalized_stmt(0x10, 3 * SECOND));
    assert_eq!(life.rust_my_sqlite3_finalize(0x10, true, 3 * SECOND), Finalizing::Proceed);
}

#[test]
fn the_oldest_statement_is_forgotten() {
    let mut life = Lifecycle::new();
    for i in 1..=4097usize {
        life.rust_pg_note_stmt_prepare(i, None, SECOND, 1);
    }
    assert!(!life.is_prepared_stmt(1));
    assert!(life.is_prepared_stmt(2));
    assert!(life.is_prepared_stmt(4097));
    assert!(!life.is_prepared_stmt(0));
}

#[test]
fn anomalies_are_reported_now_and_then() {
    let mut life = Lifecycle::new();
    let reported: Vec<u32> = (0..2001).filter(|_| life.note_anomaly()).collect();
    assert_eq!(reported, [0, 1, 2, 3, 4, 1000, 2000]);
}

#[test]
fn finalizing_follows_the_owner() {
    let server = Owner { is_pg: 2, has_sql: true };
    let write = Owner { is_pg: 1, has_sql: false };
    let both = finalize_plan(Some(&server), Some(&write));
    assert!(both.clear_kept && both.unregister && !both.unref_kept && !both.finalize_local);
    assert_eq!(both.is_pg, 2);
    assert_eq!(both.sql, SqlSource::Registered);
    let kept = finalize_plan(None, Some(&write));
    assert!(kept.clear_kept && !kept.unregister && kept.unref_kept && kept.finalize_local);
    assert_eq!(kept.sql, SqlSource::Local);
    let none = finalize_plan(None, None);
    assert!(!none.clear_kept && !none.unregister && !none.unref_kept && none.finalize_local);
    assert_eq!(none.is_pg, 0);
}

#[test]
fn bindings_are_cleared_where_they_are() {
    let mut life = Lifecycle::new();
    let now = SECOND;
    assert_eq!(life.rust_my_sqlite3_clear_bindings(5, true, None, now), Clearing::AskLocal);
    assert_eq!(life.rust_my_sqlite3_clear_bindings(5, true, Some(0), now), Clearing::FreeAndAskLocal);
    assert_eq!(life.rust_my_sqlite3_clear_bindings(5, true, Some(2), now), Clearing::Free);
    life.end_finalize(5, None, 2, now, 1);
    assert_eq!(life.rust_my_sqlite3_clear_bindings(5, true, Some(2), now), Clearing::Skip);
    assert_eq!(life.rust_my_sqlite3_clear_bindings(5, false, Some(2), now), Clearing::Free);
}

#[test]
fn resetting_frees_all_memory_but_the_buffers() {
    let mut p = params();
    free_all(&mut p);
    assert!(matches!(p.values[0], Param::Null));
    assert!(matches!(&p.values[1], Param::Buffer(v) if v == b"1"));
    assert_eq!(p.lengths, [1, 2, 3]);
    let mut s = ResetStmt { is_pg: 2, in_step: true, params: params() };
    assert!(!reset_pg_stmt_locked(&mut s));
    assert!(!s.in_step);
    assert!(matches!(s.params.values[0], Param::Null));
    s.is_pg = 1;
    assert!(reset_pg_stmt_locked(&mut s));
}

#[test]
fn settings_are_looked_up_once() {
    let mut f = Flag::Unknown;
    assert!(cached_flag(&mut f, None, true));
    assert_eq!(f, Flag::On);
    assert!(cached_flag(&mut f, Some(false), false));
    let mut g = Flag::Unknown;
    assert!(!cached_flag(&mut g, Some(false), true));
    assert_eq!(g, Flag::Off);
}

#[test]
fn draining_reports_a_few_and_gives_up() {
    assert!(rust_step_conn_cancel_and_drain(true, true, false));
    assert!(!rust_step_conn_cancel_and_drain(true, true, true));
    assert!(!rust_step_conn_cancel_and_drain(false, true, false));
    let mut d = Drain::new();
    let mut reports = 0;
    loop {
        let step = d.take();
        if step.report {
            reports += 1;
        }
        if step.stop {
            break;
        }
    }
    assert_eq!(reports, 3);
    assert_eq!(d.count, 1001);
    assert_eq!(d.total(), Some(1001));
    let mut few = Drain::new();
    few.take();
    assert_eq!(few.total(), None);
}
