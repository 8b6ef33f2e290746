//! What happens to a pooled connection after it was handed out: giving it back, checking and
//! repairing it, and finding it again.

use crate::acquire;
use crate::acquire::Action;
use crate::acquire::Cleanup;
use crate::acquire::PoolThread;
use crate::pool;
use crate::pool::PoolManager;
use crate::pool::PoolSlot;
use crate::pool::TlsPoolCache;
use crate::pool::POOL_SIZE_MAX;
use crate::pool::SLOT_ERROR;
use crate::pool::SLOT_FREE;
use crate::pool::SLOT_READY;
use crate::pool::SLOT_RECONNECTING;
use crate::search;
use vstd::prelude::*;

verus! {

/// Giving a slot back, as far as it has come.
#[derive(Clone, Copy, Debug, PartialEq, Eq, Structural)]
pub enum Release {
    /// Asked whether the slot belongs to the calling thread.
    Owner { slot: usize },
    /// Asked for the state of the transaction.
    Transaction { slot: usize, conn: usize },
    /// Asked to end the transaction.
    Ending { slot: usize },
    /// Nothing is left to do.
    Over,
}

/// The slot as it is given back.
pub open spec fn given_back(slot: PoolSlot) -> PoolSlot {
    PoolSlot { owner_thread: 0, state: SLOT_FREE, ..slot }
}

pub open spec fn release_ok(at: Release) -> bool {
    match at {
        Release::Owner { slot } => slot < POOL_SIZE_MAX,
        Release::Transaction { slot, .. } => slot < POOL_SIZE_MAX,
        Release::Ending { slot } => slot < POOL_SIZE_MAX,
        Release::Over => true,
    }
}

/// Everything but the slots of the handles is the same.
pub open spec fn same_but_handles(a: &PoolManager, b: &PoolManager) -> bool {
    &&& a.slots@ == b.slots@
    &&& a.configured_size == b.configured_size
    &&& a.idle_timeout_secs == b.idle_timeout_secs
    &&& a.library_db_path == b.library_db_path
    &&& a.last_reap_time == b.last_reap_time
    &&& a.init_pid == b.init_pid
    &&& a.registry == b.registry
    &&& a.global_metadata_id == b.global_metadata_id
    &&& a.global_last_insert_rowid == b.global_last_insert_rowid
}

/// Begins to give back the slot of a database handle that is closed. The handle loses its slot,
/// and the thread forgets the slot that it remembers once nothing more is asked.
pub fn pool_release_for_db_inner(pm: &mut PoolManager, th: &mut PoolThread, db_handle: usize) -> (r: (
    Release,
    Option<Action>,
))
    requires
        old(pm).wf(),
    ensures
        final(pm).wf(),
        final(pm).db_to_pool@ == old(pm).db_to_pool@.remove(db_handle),
        same_but_handles(final(pm), old(pm)),
        release_ok(r.0),
        ({
            let m = old(pm).db_to_pool@;
            if m.contains_key(db_handle) && m[db_handle] < old(pm).configured_size {
                &&& r.0 == (Release::Owner { slot: m[db_handle] })
                &&& r.1 == Some(
                    Action::SameThread { owner: old(pm).slots@[m[db_handle] as int].owner_thread },
                )
                &&& *final(th) == *old(th)
            } else {
                &&& r.0 == Release::Over
                &&& r.1 is None
                &&& *final(th) == (PoolThread { cache: pool::empty_cache(), ..*old(th) })
            }
        }),
{
    if let Some(slot) = pm.db_to_pool.release(db_handle) {
        if slot < pm.configured_size {
            let owner: u64 = pm.slots[slot].owner_thread;
            return (Release::Owner { slot }, Some(Action::SameThread { owner }));
        }
    }
    pool::tls_pool_cache_clear(&mut th.cache);
    (Release::Over, None)
}

/// The pool and the request after the answer to what was asked: `None` as action is the end.
pub open spec fn release_turn(at: Release, slots: Seq<PoolSlot>, yes: bool, status: i32) -> (
    Seq<PoolSlot>,
    Release,
    Option<Action>,
) {
    match at {
        Release::Owner { slot } => {
            let s = slots[slot as int];
            if yes && s.state == SLOT_READY {
                if s.conn != 0 {
                    (
                        slots,
                        Release::Transaction { slot, conn: s.conn },
                        Some(Action::TransactionStatus { conn: s.conn }),
                    )
                } else {
                    (slots.update(slot as int, given_back(s)), Release::Over, None)
                }
            } else {
                (slots, Release::Over, None)
            }
        },
        Release::Transaction { slot, conn } => if acquire::cleanup_for(status)
            != Cleanup::Nothing {
            (
                slots,
                Release::Ending { slot },
                Some(Action::EndTransaction { conn, cleanup: acquire::cleanup_for(status) }),
            )
        } else {
            (slots.update(slot as int, given_back(slots[slot as int])), Release::Over, None)
        },
        Release::Ending { slot } => (
            slots.update(slot as int, given_back(slots[slot as int])),
            Release::Over,
            None,
        ),
        Release::Over => (slots, Release::Over, None),
    }
}

/// Goes on giving a slot back: only the owner gives it back, only while it is ready, and only
/// after a pending transaction was committed or rolled back.
pub fn release_resume(
    at: Release,
    pm: &mut PoolManager,
    th: &mut PoolThread,
    yes: bool,
    status: i32,
) -> (r: (Release, Option<Action>))
    requires
        old(pm).wf(),
        release_ok(at),
    ensures
        final(pm).wf(),
        final(pm).same_settings(old(pm)),
        (final(pm).slots@, r.0, r.1) == release_turn(at, old(pm).slots@, yes, status),
        release_ok(r.0),
        *final(th) == (if r.1 is None {
            PoolThread { cache: pool::empty_cache(), ..*old(th) }
        } else {
            *old(th)
        }),
{
    match at {
        Release::Owner { slot } => {
            let mut s = pm.slots[slot];
            if yes && s.state == SLOT_READY {
                if s.conn != 0 {
                    return (
                        Release::Transaction { slot, conn: s.conn },
                        Some(Action::TransactionStatus { conn: s.conn }),
                    );
                }
                s.release();
                pm.slots.set(slot, s);
            }
        },
        Release::Transaction { slot, conn } => {
            let cleanup = acquire::transaction_cleanup(status);
            if cleanup != Cleanup::Nothing {
                return (
                    Release::Ending { slot },
                    Some(Action::EndTransaction { conn, cleanup }),
                );
            }
            let mut s = pm.slots[slot];
            s.release();
            pm.slots.set(slot, s);
        },
        Release::Ending { slot } => {
            let mut s = pm.slots[slot];
            s.release();
            pm.slots.set(slot, s);
        },
        Release::Over => {},
    }
    pool::tls_pool_cache_clear(&mut th.cache);
    (Release::Over, None)
}

/// A health check, as far as it has come.
#[derive(Clone, Copy, Debug, PartialEq, Eq, Structural)]
pub enum Health {
    /// Asked whether the connection is in order.
    Asked { conn: usize },
    /// Asked whether the slot belongs to the calling thread.
    Owner { conn: usize, slot: usize, size: usize },
    /// Asked to reset the connection.
    Reset { conn: usize, slot: usize },
    /// Asked to connect anew.
    Reconnect { conn: usize, slot: usize },
    /// Over; was the connection taken in hand?
    Over { reset: bool },
}

pub open spec fn health_ok(at: Health) -> bool {
    match at {
        Health::Asked { .. } => true,
        Health::Owner { slot, size, .. } => slot < POOL_SIZE_MAX && size <= POOL_SIZE_MAX,
        Health::Reset { slot, .. } => slot < POOL_SIZE_MAX,
        Health::Reconnect { slot, .. } => slot < POOL_SIZE_MAX,
        Health::Over { .. } => true,
    }
}

/// The first slot from `from` on that holds the connection.
pub open spec fn next_holder(s: Seq<PoolSlot>, from: int, n: int, conn: usize) -> Option<int> {
    search::first_index(|i: int| s[i].conn == conn, from, n)
}

/// Look for the connection's slot from `from` on.
pub open spec fn look(slots: Seq<PoolSlot>, conn: usize, from: int, size: usize) -> (
    Health,
    Option<Action>,
) {
    match next_holder(slots, from, size as int, conn) {
        Some(i) => (
            Health::Owner { conn, slot: i as usize, size },
            Some(Action::SameThread { owner: slots[i].owner_thread }),
        ),
        None => (Health::Over { reset: false }, None),
    }
}

/// The slots and the check after the answer to what was asked.
pub open spec fn health_turn(
    at: Health,
    slots: Seq<PoolSlot>,
    configured: usize,
    yes: bool,
    now: i64,
) -> (Seq<PoolSlot>, Health, Option<Action>) {
    match at {
        Health::Asked { conn } => if yes {
            (slots, Health::Over { reset: false }, None)
        } else {
            let l = look(slots, conn, 0, configured);
            (slots, l.0, l.1)
        },
        Health::Owner { conn, slot, size } => {
            let s = slots[slot as int];
            if !yes {
                let l = look(slots, conn, slot + 1, size);
                (slots, l.0, l.1)
            } else if s.state == SLOT_READY {
                (
                    slots.update(slot as int, PoolSlot { state: SLOT_RECONNECTING, ..s }),
                    Health::Reset { conn, slot },
                    Some(Action::ClearAndReset { conn, cleanup: Cleanup::Nothing }),
                )
            } else {
                (slots, Health::Over { reset: false }, None)
            }
        },
        Health::Reset { conn, slot } => {
            let s = slots[slot as int];
            if yes {
                (
                    slots.update(
                        slot as int,
                        PoolSlot { last_used: now, state: SLOT_READY, ..s },
                    ),
                    Health::Over { reset: true },
                    None,
                )
            } else {
                (slots, Health::Reconnect { conn, slot }, Some(Action::Reconnect { conn }))
            }
        },
        Health::Reconnect { conn, slot } => {
            let s = slots[slot as int];
            if yes {
                (
                    slots.update(
                        slot as int,
                        PoolSlot { last_used: now, state: SLOT_READY, ..s },
                    ),
                    Health::Over { reset: true },
                    None,
                )
            } else {
                (
                    slots.update(slot as int, PoolSlot { state: SLOT_ERROR, ..s }),
                    Health::Over { reset: true },
                    None,
                )
            }
        },
        Health::Over { reset } => (slots, at, None),
    }
}

fn find_holder(slots: &Vec<PoolSlot>, from: usize, n: usize, conn: usize) -> (r: Option<usize>)
    requires
        n <= slots@.len(),
    ensures
        search::index(r) == next_holder(slots@, from as int, n as int, conn),
        r is Some ==> r->0 < n,
{
    let ghost p = |i: int| slots@[i].conn == conn;
    proof {
        search::lemma_first_index(p, from as int, n as int);
    }
    let mut i: usize = from;
    while i < n
        invariant
            from <= i,
            n <= slots@.len(),
            p == (|i: int| slots@[i].conn == conn),
            forall|j: int| from <= j < i ==> !#[trigger] p(j),
        decreases n - i,
    {
        if slots[i].conn == conn {
            proof {
                assert(p(i as int));
                search::lemma_first_index(p, from as int, n as int);
            }
            return Some(i);
        }
        assert(!p(i as int));
        i += 1;
    }
    None
}

fn look_for(slots: &Vec<PoolSlot>, conn: usize, from: usize, size: usize) -> (r: (
    Health,
    Option<Action>,
))
    requires
        slots@.len() == POOL_SIZE_MAX,
        size <= POOL_SIZE_MAX,
    ensures
        r == look(slots@, conn, from as int, size),
        health_ok(r.0),
{
    match find_holder(slots, from, size, conn) {
        Some(slot) => {
            let owner: u64 = slots[slot].owner_thread;
            (Health::Owner { conn, slot, size }, Some(Action::SameThread { owner }))
        },
        None => (Health::Over { reset: false }, None),
    }
}

/// Begins to check a connection after a query failed.
pub fn pool_check_health_inner(conn: usize) -> (r: (Health, Option<Action>))
    ensures
        r == (if conn == 0 {
            (Health::Over { reset: false }, None)
        } else {
            (Health::Asked { conn }, Some(Action::ConnectionOk { conn }))
        }),
        health_ok(r.0),
{
    if conn == 0 {
        (Health::Over { reset: false }, None)
    } else {
        (Health::Asked { conn }, Some(Action::ConnectionOk { conn }))
    }
}

/// Goes on with a health check: a connection that is not in order is reset, or else connected
/// anew, by the owner of its slot; where both fail, the slot is in error.
pub fn health_resume(at: Health, pm: &mut PoolManager, yes: bool, now: i64) -> (r: (
    Health,
    Option<Action>,
))
    requires
        old(pm).wf(),
        health_ok(at),
    ensures
        final(pm).wf(),
        final(pm).same_settings(old(pm)),
        (final(pm).slots@, r.0, r.1) == health_turn(
            at,
            old(pm).slots@,
            old(pm).configured_size,
            yes,
            now,
        ),
        health_ok(r.0),
{
    match at {
        Health::Asked { conn } => if yes {
            (Health::Over { reset: false }, None)
        } else {
            look_for(&pm.slots, conn, 0, pm.configured_size)
        },
        Health::Owner { conn, slot, size } => {
            let mut s = pm.slots[slot];
            if !yes {
                look_for(&pm.slots, conn, slot + 1, size)
            } else if s.try_begin_reconnect() {
                pm.slots.set(slot, s);
                (
                    Health::Reset { conn, slot },
                    Some(Action::ClearAndReset { conn, cleanup: Cleanup::Nothing }),
                )
            } else {
                (Health::Over { reset: false }, None)
            }
        },
        Health::Reset { conn, slot } => if yes {
            let mut s = pm.slots[slot];
            s.last_used = now;
            s.mark_ready();
            pm.slots.set(slot, s);
            (Health::Over { reset: true }, None)
        } else {
            (Health::Reconnect { conn, slot }, Some(Action::Reconnect { conn }))
        },
        Health::Reconnect { conn, slot } => {
            let mut s = pm.slots[slot];
            if yes {
                s.last_used = now;
                s.mark_ready();
            } else {
                s.mark_error();
            }
            pm.slots.set(slot, s);
            (Health::Over { reset: true }, None)
        },
        Health::Over { reset } => (Health::Over { reset }, None),
    }
}

/// Notes that a handle uses the connection that was found for it: the handle gets the first slot
/// that holds the connection, and the slot that the thread remembers is remembered for the
/// handle.
pub fn track_connection(pm: &mut PoolManager, th: &mut PoolThread, db_handle: usize, conn: usize)
    requires
        old(pm).wf(),
    ensures
        final(pm).wf(),
        same_but_handles(final(pm), old(pm)),
        final(pm).db_to_pool@ == (match pool::holder(
            old(pm).slots@,
            old(pm).configured_size as int,
            conn,
        ) {
            Some(i) => old(pm).db_to_pool@.insert(db_handle, i as usize),
            None => old(pm).db_to_pool@,
        }),
        *final(th) == (match pool::cached(old(th).cache, 0) {
            Some((i, g)) => PoolThread {
                cache: TlsPoolCache { db_handle, slot_index: i, generation: g },
                ..*old(th)
            },
            None => *old(th),
        }),
{
    if let Some(i) = pm.slot_of(conn) {
        pm.db_to_pool.assign(db_handle, i);
    }
    if let Some((i, g)) = pool::tls_pool_cache_get(&th.cache, 0) {
        pool::tls_pool_cache_set(&mut th.cache, db_handle, i, g);
    }
}

/// The connection for a handle: the one from the pool, if there is one and it is active, and then
/// it is noted; zero otherwise.
pub fn pool_find_connection_for_db(
    pm: &mut PoolManager,
    th: &mut PoolThread,
    db_handle: usize,
    path: &str,
    pool_conn: usize,
    active: bool,
) -> (r: usize)
    requires
        old(pm).wf(),
    ensures
        final(pm).wf(),
        same_but_handles(final(pm), old(pm)),
        ({
            let usable = pool::is_library(path@) && pool_conn != 0 && active;
            &&& r == (if usable {
                pool_conn
            } else {
                0usize
            })
            &&& !usable ==> *final(pm) == *old(pm) && *final(th) == *old(th)
            &&& usable ==> final(pm).db_to_pool@ == (match pool::holder(
                old(pm).slots@,
                old(pm).configured_size as int,
                pool_conn,
            ) {
                Some(i) => old(pm).db_to_pool@.insert(db_handle, i as usize),
                None => old(pm).db_to_pool@,
            })
            &&& usable ==> *final(th) == (match pool::cached(old(th).cache, 0) {
                Some((i, g)) => PoolThread {
                    cache: TlsPoolCache { db_handle, slot_index: i, generation: g },
                    ..*old(th)
                },
                None => *old(th),
            })
        }),
{
    if !pool::is_library_db(path) || pool_conn == 0 || !active {
        return 0;
    }
    track_connection(pm, th, db_handle, pool_conn);
    pool_conn
}

/// Some connection to the library: the one that the pool gave, if it is active, else some
/// registered one that `is_library` accepts, else zero.
pub fn rust_find_any_library_connection(
    pm: &PoolManager,
    pool_conn: usize,
    active: bool,
    is_library: impl Fn(usize) -> bool,
) -> (r: usize)
    requires
        forall|conn: usize|
            pm.registry@.contains_value(conn) ==> call_requires(is_library, (conn,)),
    ensures
        pool_conn != 0 && active ==> r == pool_conn,
        !(pool_conn != 0 && active) ==> {
            ||| pm.registry@.contains_value(r) && call_ensures(is_library, (r,), true)
            ||| r == 0 && forall|conn: usize| #[trigger]
                pm.registry@.contains_value(conn) ==> call_ensures(is_library, (conn,), false)
        },
{
    if pool_conn != 0 && active {
        return pool_conn;
    }
    match pm.registry.find_any_library(is_library) {
        Some(conn) => conn,
        None => 0,
    }
}

/// A health check changes no slot but the one that it asked about, and never its owner, its
/// connection or its generation.
pub proof fn law_health_check_keeps_slots(
    at: Health,
    slots: Seq<PoolSlot>,
    configured: usize,
    yes: bool,
    now: i64,
    j: int,
)
    requires
        slots.len() == POOL_SIZE_MAX,
        health_ok(at),
        0 <= j < POOL_SIZE_MAX,
    ensures
        ({
            let after = health_turn(at, slots, configured, yes, now).0;
            &&& after.len() == slots.len()
            &&& after[j].owner_thread == slots[j].owner_thread
            &&& after[j].conn == slots[j].conn
            &&& after[j].generation == slots[j].generation
        }),
{
}

/// Giving a slot back keeps the connection in it for the next thread, and touches no other slot.
pub proof fn law_release_keeps_connection(
    at: Release,
    slots: Seq<PoolSlot>,
    yes: bool,
    status: i32,
    j: int,
)
    requires
        slots.len() == POOL_SIZE_MAX,
        release_ok(at),
        0 <= j < POOL_SIZE_MAX,
    ensures
        ({
            let after = release_turn(at, slots, yes, status).0;
            &&& after[j].conn == slots[j].conn
            &&& after[j].generation == slots[j].generation
            &&& after[j] != slots[j] ==> after[j].state == SLOT_FREE && after[j].owner_thread == 0
        }),
{
}

/// A slot is given back by its owner alone, while it is ready, and only once the transaction on its
/// connection is at its end: an open one is committed, a failed one rolled back. Then the slot is
/// free and nobody's.
pub proof fn law_slots_are_given_back(slots: Seq<PoolSlot>, slot: usize, yes: bool, status: i32)
    requires
        slots.len() == POOL_SIZE_MAX,
        slot < POOL_SIZE_MAX,
    ensures
        ({
            let s = slots[slot as int];
            let a = release_turn(Release::Owner { slot }, slots, yes, status);
            let b = release_turn(a.1, slots, yes, status);
            let c = release_turn(b.1, b.0, yes, status);
            let free = PoolSlot { owner_thread: 0, state: 0, ..s };
            &&& !yes || s.state != 2 ==> a == (slots, Release::Over, None::<Action>)
            &&& yes && s.state == 2 && s.conn == 0 ==> a.2 is None && a.0[slot as int] == free
            &&& yes && s.state == 2 && s.conn != 0 ==> a.0 == slots && a.2 == Some(
                Action::TransactionStatus { conn: s.conn },
            ) && (status == 2 ==> b.0 == slots && b.2 == Some(
                Action::EndTransaction { conn: s.conn, cleanup: Cleanup::Commit },
            )) && (status == 3 ==> b.0 == slots && b.2 == Some(
                Action::EndTransaction { conn: s.conn, cleanup: Cleanup::Rollback },
            )) && (status != 2 && status != 3 ==> b.2 is None && b.0[slot as int] == free) && (
            status == 2 || status == 3 ==> c.2 is None && c.0[slot as int] == free)
        }),
{
}

/// A connection that is in order is left alone, and so is one that no slot of the thread's holds.
pub proof fn law_healthy_connections_are_left_alone(
    slots: Seq<PoolSlot>,
    conn: usize,
    configured: usize,
    yes: bool,
    now: i64,
)
    requires
        slots.len() == POOL_SIZE_MAX,
        configured <= POOL_SIZE_MAX,
    ensures
        ({
            let a = health_turn(Health::Asked { conn }, slots, configured, yes, now);
            &&& a.0 == slots
            &&& yes ==> a.1 == (Health::Over { reset: false }) && a.2 is None
            &&& !yes ==> match a.1 {
                Health::Owner { conn: c, slot, size } => c == conn && size == configured && slot
                    < configured && slots[slot as int].conn == conn && (forall|k: int|
                    0 <= k < slot ==> (#[trigger] slots[k]).conn != conn) && a.2 == Some(
                    Action::SameThread { owner: slots[slot as int].owner_thread },
                ),
                Health::Over { reset } => !reset && a.2 is None && (forall|k: int|
                    0 <= k < configured ==> (#[trigger] slots[k]).conn != conn),
                _ => false,
            }
        }),
{
    pool::lemma_holder(slots, configured as int, conn);
}

/// A connection that is not in order is reset by the owner of its slot, while the slot says so; one
/// that cannot be reset is connected anew; one that cannot be connected anew leaves its slot in
/// error. A slot whose connection works again is ready, and was used just now.
pub proof fn law_broken_connections_are_repaired(
    slots: Seq<PoolSlot>,
    conn: usize,
    slot: usize,
    size: usize,
    reset: bool,
    reconnected: bool,
    now: i64,
)
    requires
        slots.len() == POOL_SIZE_MAX,
        slot < POOL_SIZE_MAX,
    ensures
        ({
            let s = slots[slot as int];
            let a = health_turn(Health::Owner { conn, slot, size }, slots, size, true, now);
            let b = health_turn(a.1, a.0, size, reset, now);
            let c = health_turn(b.1, b.0, size, reconnected, now);
            &&& s.state != 2 ==> a == (slots, Health::Over { reset: false }, None::<Action>)
            &&& s.state == 2 ==> a.2 == Some(
                Action::ClearAndReset { conn, cleanup: Cleanup::Nothing },
            ) && a.0[slot as int] == (PoolSlot { state: 3, ..s })
            &&& s.state == 2 && reset ==> b.2 is None && b.1 == (Health::Over { reset: true })
                && b.0[slot as int] == (PoolSlot { state: 2, last_used: now, ..s })
            &&& s.state == 2 && !reset ==> b.2 == Some(Action::Reconnect { conn }) && c.2 is None
                && c.1 == (Health::Over { reset: true }) && c.0[slot as int] == if reconnected {
                PoolSlot { state: 2, last_used: now, ..s }
            } else {
                PoolSlot { state: 4, ..s }
            }
        }),
{
}

/// A slot that is not the thread's is passed over, and the next one that holds the connection is
/// asked about.
pub proof fn law_other_owners_are_passed_over(
    slots: Seq<PoolSlot>,
    conn: usize,
    slot: usize,
    size: usize,
    now: i64,
)
    requires
        slots.len() == POOL_SIZE_MAX,
        slot < size <= POOL_SIZE_MAX,
    ensures
        ({
            let a = health_turn(Health::Owner { conn, slot, size }, slots, size, false, now);
            &&& a.0 == slots
            &&& a.1 matches Health::Owner { conn: c, slot: next, size: n } ==> c == conn && n == size
                && slot < next && next < size && slots[next as int].conn == conn && (forall|k: int|
                slot < k < next ==> (#[trigger] slots[k]).conn != conn)
            &&& !(a.1 is Owner) ==> a.1 == (Health::Over { reset: false }) && a.2 is None && (forall|
                k: int,
            |
                slot < k < size ==> (#[trigger] slots[k]).conn != conn)
        }),
{
    let p = |i: int| slots[i].conn == conn;
    search::lemma_first_index(p, slot + 1, size as int);
    assert forall|k: int| !p(k) implies (#[trigger] slots[k]).conn != conn by {}
}

/// What concerns handles alone leaves every slot, the settings and the time of the last reaping as
/// they are.
pub proof fn law_slots_do_not_depend_on_handles(a: PoolManager, b: PoolManager, i: int)
    requires
        same_but_handles(&a, &b),
        0 <= i < a.slots@.len(),
    ensures
        b.slots@.len() == a.slots@.len(),
        b.slots@[i] == a.slots@[i],
        b.configured_size == a.configured_size,
        b.idle_timeout_secs == a.idle_timeout_secs,
        b.library_db_path == a.library_db_path,
        b.last_reap_time == a.last_reap_time,
        b.init_pid == a.init_pid,
        b.registry == a.registry,
        b.global_metadata_id == a.global_metadata_id,
        b.global_last_insert_rowid == a.global_last_insert_rowid,
{
}

} // verus!
