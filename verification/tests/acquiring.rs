use plex_pg_core::acquire::{
    pool_get_connection_inner, Acquire, Action, Cleanup, PoolThread, Reply,
};
use plex_pg_core::pool::{is_library_db, PoolManager, SLOT_ERROR, SLOT_FREE, SLOT_READY};
use plex_pg_core::upkeep::{
    health_resume, pool_check_health_inner, pool_find_connection_for_db, pool_release_for_db_inner,
    release_resume, rust_find_any_library_connection, track_connection, Health, Release,
};

const LIBRARY: &str = "/x/com.plexapp.plugins.library.db";

fn reply() -> Reply {
    Reply { yes: true, status: 0, conn: 0, now: 1000, delays: Vec::new() }
}

fn get(pm: &mut PoolManager, th: &mut PoolThread, answer: impl Fn(Action) -> Reply) -> (usize, usize) {
    let (mut a, mut action, _): (Acquire, Action, Vec<(usize, usize)>) =
        pool_get_connection_inner(pm, th, LIBRARY, 7, 1000);
    let mut steps = 0;
    loop {
        if let Action::Return { conn } = action {
            return (conn, steps);
        }
        let r = answer(action);
        action = a.resume(pm, th, &r).0;
        steps += 1;
        assert!(steps < 5000);
    }
}

#[test]
fn the_first_request_makes_a_connection() {
    let mut pm = PoolManager::new(3, 1);
    let mut th = PoolThread::new();
    let (conn, _) = get(&mut pm, &mut th, |a| match a {
        Action::Create { old: 0 } => Reply { conn: 0xC0, ..reply() },
        _ => reply(),
    });
    assert_eq!(conn, 0xC0);
    assert_eq!(pm.slots[0].state, SLOT_READY);
    assert_eq!(pm.slots[0].owner_thread, 7);
    assert_eq!(th.cache.slot_index, 0);
    // The thread finds it again without making another.
    let (again, _) = get(&mut pm, &mut th, |a| match a {
        Action::Create { .. } => panic!("made another"),
        Action::Streaming { .. } => Reply { yes: false, ..reply() },
        _ => reply(),
    });
    assert_eq!(again, 0xC0);
    assert_eq!(pm.slots.iter().filter(|s| s.conn != 0).count(), 1);
}

#[test]
fn other_databases_get_no_connection() {
    let mut pm = PoolManager::new(3, 1);
    let mut th = PoolThread::new();
    let (_, action, _) = pool_get_connection_inner(&mut pm, &mut th, "/x/other.db", 7, 1000);
    assert_eq!(action, Action::Return { conn: 0 });
    assert!(is_library_db(LIBRARY));
    assert!(!is_library_db("/x/other.db"));
}

#[test]
fn a_full_pool_grows() {
    let mut pm = PoolManager::new(1, 1);
    pm.slots[0].state = SLOT_READY;
    pm.slots[0].conn = 0xA;
    pm.slots[0].owner_thread = 99;
    pm.slots[0].last_used = 1000;
    let mut th = PoolThread::new();
    let (conn, _) = get(&mut pm, &mut th, |a| match a {
        Action::SameThread { .. } => Reply { yes: false, ..reply() },
        Action::Create { .. } => Reply { conn: 0xB, ..reply() },
        _ => reply(),
    });
    assert_eq!(conn, 0xB);
    assert_eq!(pm.pool_size(), 2);
    assert_eq!(pm.slots[0].conn, 0xA);
}

#[test]
fn a_request_gives_up_after_the_waits() {
    let mut pm = PoolManager::new(1, 1);
    let mut th = PoolThread::new();
    let (conn, _) = get(&mut pm, &mut th, |a| match a {
        Action::Create { .. } => Reply { yes: false, conn: 0, ..reply() },
        Action::RetryDelays => Reply { delays: vec![1, 1], ..reply() },
        _ => reply(),
    });
    assert_eq!(conn, 0);
    assert!(pm.slots.iter().all(|s| s.state != SLOT_READY));
}

#[test]
fn a_free_connection_is_cleaned_before_it_is_used_again() {
    let mut pm = PoolManager::new(2, 1);
    pm.slots[1].conn = 0xD;
    pm.slots[1].last_used = 1000;
    let mut th = PoolThread::new();
    let seen = std::cell::RefCell::new(Vec::new());
    let (conn, _) = get(&mut pm, &mut th, |a| {
        seen.borrow_mut().push(a);
        match a {
            Action::Streaming { .. } => Reply { yes: false, ..reply() },
            Action::TransactionStatus { .. } => Reply { status: 3, ..reply() },
            Action::Create { .. } => panic!("made another"),
            _ => reply(),
        }
    });
    assert_eq!(conn, 0xD);
    assert!(seen
        .borrow()
        .iter()
        .any(|a| matches!(a, Action::ClearAndReset { conn: 0xD, cleanup: Cleanup::Rollback })));
}

#[test]
fn a_connection_is_given_back() {
    let mut pm = PoolManager::new(2, 1);
    let mut th = PoolThread::new();
    pm.slots[1].conn = 0xD;
    pm.slots[1].state = SLOT_READY;
    pm.slots[1].owner_thread = 7;
    track_connection(&mut pm, &mut th, 0x100, 0xD);
    assert_eq!(pm.db_to_pool.find(0x100), Some(1));
    let (at, a) = pool_release_for_db_inner(&mut pm, &mut th, 0x100);
    assert_eq!(a, Some(Action::SameThread { owner: 7 }));
    let (at, a) = release_resume(at, &mut pm, &mut th, true, 0);
    assert_eq!(a, Some(Action::TransactionStatus { conn: 0xD }));
    let (at, a) = release_resume(at, &mut pm, &mut th, false, 2);
    assert_eq!(a, Some(Action::EndTransaction { conn: 0xD, cleanup: Cleanup::Commit }));
    let (at, a) = release_resume(at, &mut pm, &mut th, false, 0);
    assert!(matches!(at, Release::Over) && a.is_none());
    assert_eq!((pm.slots[1].state, pm.slots[1].conn), (SLOT_FREE, 0xD));
    assert_eq!(pm.db_to_pool.find(0x100), None);
}

#[test]
fn a_healthy_connection_is_left_alone() {
    let mut pm = PoolManager::new(2, 1);
    pm.slots[0].conn = 0xD;
    pm.slots[0].state = SLOT_READY;
    let before = pm.slots[0];
    let (at, a) = pool_check_health_inner(0xD);
    assert_eq!(a, Some(Action::ConnectionOk { conn: 0xD }));
    let (at, a) = health_resume(at, &mut pm, true, 1000);
    assert!(matches!(at, Health::Over { reset: false }) && a.is_none());
    assert_eq!(pm.slots[0], before);
    assert!(matches!(pool_check_health_inner(0), (Health::Over { reset: false }, None)));
}

#[test]
fn a_connection_that_cannot_be_repaired_is_in_error() {
    let mut pm = PoolManager::new(2, 1);
    pm.slots[0].conn = 0xD;
    pm.slots[0].state = SLOT_READY;
    pm.slots[0].owner_thread = 7;
    let (mut at, mut a) = pool_check_health_inner(0xD);
    let mut first = true;
    while let Some(action) = a {
        let yes = matches!(action, Action::SameThread { .. });
        assert!(first || !matches!(action, Action::ConnectionOk { .. }));
        first = false;
        (at, a) = health_resume(at, &mut pm, yes, 1000);
    }
    assert!(matches!(at, Health::Over { reset: true }));
    assert_eq!(pm.slots[0].state, SLOT_ERROR);
}

#[test]
fn connections_are_found_for_library_databases() {
    let mut pm = PoolManager::new(2, 1);
    let mut th = PoolThread::new();
    pm.slots[0].conn = 0xD;
    assert_eq!(pool_find_connection_for_db(&mut pm, &mut th, 1, LIBRARY, 0xD, true), 0xD);
    assert_eq!(pool_find_connection_for_db(&mut pm, &mut th, 2, LIBRARY, 0xD, false), 0);
    assert_eq!(pool_find_connection_for_db(&mut pm, &mut th, 3, "/x/o.db", 0xD, true), 0);
    assert_eq!(pm.db_to_pool.find(1), Some(0));
    assert_eq!(pm.db_to_pool.find(2), None);
    pm.registry.register(0x100, 0xE);
    assert_eq!(rust_find_any_library_connection(&pm, 0xD, true, |_| true), 0xD);
    assert_eq!(rust_find_any_library_connection(&pm, 0, false, |c| c == 0xE), 0xE);
    assert_eq!(rust_find_any_library_connection(&pm, 0, false, |_| false), 0);
}

#[test]
fn the_pool_is_set_up_and_emptied() {
    let mut pm = PoolManager::new(2, 1);
    pm.rust_pool_init(500, 5, 9);
    assert_eq!((pm.pool_size(), pm.idle_timeout_secs, pm.init_pid), (2, 300, 9));
    pm.rust_pool_init(20, 10, 9);
    assert_eq!((pm.pool_size(), pm.idle_timeout_secs), (20, 10));
    pm.rust_pool_init(150, 300, 9);
    assert_eq!((pm.pool_size(), pm.idle_timeout_secs), (20, 300));
    pm.rust_pool_init(101, 300, 9);
    assert_eq!(pm.pool_size(), 20);
    pm.rust_pool_init(100, 300, 9);
    assert_eq!(pm.pool_size(), 100);
    pm.slots[3].conn = 0xA;
    pm.slots[3].state = SLOT_READY;
    assert_eq!(pm.rust_pool_cleanup(), [0xA]);
    assert_eq!(pm.slots[3].conn, 0);
    let mut th = PoolThread::new();
    assert_eq!(pm.rust_pool_check_fork(9, &mut th.cache), 0);
    assert_eq!(pm.rust_pool_check_fork(10, &mut th.cache), 1);
    pm.rust_set_global_metadata_id(5);
    pm.rust_set_global_last_insert_rowid(6);
    assert_eq!((pm.rust_get_global_metadata_id(), pm.rust_get_global_last_insert_rowid()), (5, 6));
}
