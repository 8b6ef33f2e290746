//! Getting a connection out of the pool for the calling thread.
//!
//! Everything that talks to the server, asks about threads or waits is done by the caller: each
//! step looks at the pool, notes there what it decided, and says what the caller has to do or find
//! out next. The caller may let other threads at the pool between two steps.

use crate::pool;
use crate::pool::PoolManager;
use crate::pool::PoolSlot;
use crate::pool::TlsPoolCache;
use crate::pool::POOL_SIZE_MAX;
use crate::pool::SLOT_ERROR;
use crate::pool::SLOT_FREE;
use crate::pool::SLOT_READY;
use crate::pool::SLOT_RECONNECTING;
use crate::pool::SLOT_RESERVED;
use crate::search;
use vstd::prelude::*;

verus! {

/// Seconds between two searches for idle connections.
pub const REAP_INTERVAL: i64 = 60;

/// The server's answer that a transaction is open.
pub const PQTRANS_INTRANS: i32 = 2;

/// The server's answer that an open transaction has failed.
pub const PQTRANS_INERROR: i32 = 3;

/// How a pending transaction is brought to its end.
#[derive(Clone, Copy, Debug, PartialEq, Eq, Structural)]
pub enum Cleanup {
    Nothing,
    Commit,
    Rollback,
}

/// Where a slot that is to get a new connection was found.
#[derive(Clone, Copy, Debug, PartialEq, Eq, Structural)]
pub enum Origin {
    Empty,
    Failed,
    Grown,
}

/// What the caller was asked last.
#[derive(Clone, Copy, Debug, PartialEq, Eq, Structural)]
pub enum Point {
    FastOwner { slot: usize },
    FastOk { slot: usize, conn: usize },
    FastStreaming { slot: usize, conn: usize },
    ZombieOwner { slot: usize },
    ZombieStreaming { slot: usize },
    Reaped,
    OwnOwner { slot: usize },
    OwnOk { slot: usize, conn: usize },
    OwnStreaming { slot: usize, conn: usize },
    OwnReconnect { slot: usize, conn: usize },
    ReuseStreaming { slot: usize, conn: usize },
    ReuseTransaction { slot: usize, conn: usize },
    ReuseReset { slot: usize, conn: usize },
    ReuseReconnect { slot: usize, conn: usize },
    Created { slot: usize, origin: Origin },
    Discarded { slot: usize, origin: Origin },
    Delays,
    Asleep,
    Over,
}

/// What the caller has to do, or find out, next.
#[derive(Clone, Copy, Debug, PartialEq, Eq, Structural)]
pub enum Action {
    /// Is `owner` the calling thread?
    SameThread { owner: u64 },
    /// Is the connection in order?
    ConnectionOk { conn: usize },
    /// Is a result being streamed over the connection?
    Streaming { conn: usize },
    /// Does the thread `owner` still run?
    ThreadAlive { owner: u64 },
    /// Close the connections that were handed over.
    DestroyReaped,
    /// Forget the prepared statements of the connection and connect it anew; did that work?
    ClearAndReconnect { conn: usize },
    /// What is the state of the connection's transaction?
    TransactionStatus { conn: usize },
    /// End the transaction, forget the prepared statements and reset; did the reset work?
    ClearAndReset { conn: usize, cleanup: Cleanup },
    /// Connect the connection anew; did that work?
    Reconnect { conn: usize },
    /// End the connection's transaction.
    EndTransaction { conn: usize, cleanup: Cleanup },
    /// Close the connection `old`, if it is not zero, and make a new one; is it active?
    Create { old: usize },
    /// Close the connection.
    Destroy { conn: usize },
    /// How long to wait before each new try?
    RetryDelays,
    /// Wait so many milliseconds and tell the time then.
    Sleep { ms: i32 },
    /// Done: this is the connection, zero for none.
    Return { conn: usize },
}

/// What came of it. Each step reads only the parts that it asked for.
pub struct Reply {
    pub yes: bool,
    pub status: i32,
    pub conn: usize,
    pub now: i64,
    pub delays: Vec<i32>,
}

/// What a thread keeps from one request to the next.
#[derive(Clone, Copy, Debug, PartialEq, Eq, Structural)]
pub struct PoolThread {
    pub cache: TlsPoolCache,
    pub retry_count: usize,
}

/// A request under way.
#[derive(Clone, Copy, Debug, PartialEq, Eq, Structural)]
pub struct Acquire {
    pub thread: u64,
    pub now: i64,
    pub size: usize,
    pub retried: bool,
    pub point: Point,
}

/// The part of the pool that a request reads and changes.
pub ghost struct PoolState {
    pub slots: Seq<PoolSlot>,
    pub size: int,
    pub timeout: u32,
    pub last_reap: i64,
}

/// A request after a step: where it stands, the pool, the thread's notes, what to do next and
/// which connections to close.
pub ghost struct Turn {
    pub acquire: Acquire,
    pub pool: PoolState,
    pub thread: PoolThread,
    pub action: Action,
    pub reaped: Seq<(usize, usize)>,
}

pub open spec fn state(pm: &PoolManager) -> PoolState {
    PoolState {
        slots: pm.slots@,
        size: pm.configured_size as int,
        timeout: pm.idle_timeout_secs,
        last_reap: pm.last_reap_time,
    }
}

/// The parts of the pool that a request leaves alone.
pub open spec fn same_rest(a: &PoolManager, b: &PoolManager) -> bool {
    &&& a.idle_timeout_secs == b.idle_timeout_secs
    &&& a.library_db_path == b.library_db_path
    &&& a.init_pid == b.init_pid
    &&& a.registry == b.registry
    &&& a.db_to_pool == b.db_to_pool
    &&& a.global_metadata_id == b.global_metadata_id
    &&& a.global_last_insert_rowid == b.global_last_insert_rowid
}

/// The slot that the request waits for is one of the slots.
pub open spec fn point_ok(p: Point) -> bool {
    match p {
        Point::FastOwner { slot } => slot < POOL_SIZE_MAX,
        Point::FastOk { slot, .. } => slot < POOL_SIZE_MAX,
        Point::FastStreaming { slot, .. } => slot < POOL_SIZE_MAX,
        Point::ZombieOwner { slot } => slot < POOL_SIZE_MAX,
        Point::ZombieStreaming { slot } => slot < POOL_SIZE_MAX,
        Point::OwnOwner { slot } => slot < POOL_SIZE_MAX,
        Point::OwnOk { slot, .. } => slot < POOL_SIZE_MAX,
        Point::OwnStreaming { slot, .. } => slot < POOL_SIZE_MAX,
        Point::OwnReconnect { slot, .. } => slot < POOL_SIZE_MAX,
        Point::ReuseStreaming { slot, .. } => slot < POOL_SIZE_MAX,
        Point::ReuseTransaction { slot, .. } => slot < POOL_SIZE_MAX,
        Point::ReuseReset { slot, .. } => slot < POOL_SIZE_MAX,
        Point::ReuseReconnect { slot, .. } => slot < POOL_SIZE_MAX,
        Point::Created { slot, .. } => slot < POOL_SIZE_MAX,
        Point::Discarded { slot, .. } => slot < POOL_SIZE_MAX,
        _ => true,
    }
}

impl Acquire {
    pub open spec fn wf(&self) -> bool {
        &&& self.size <= POOL_SIZE_MAX
        &&& point_ok(self.point)
    }
}

/// The slot is ready, but was not used for longer than the idle time.
pub open spec fn overdue(slot: PoolSlot, now: i64, timeout: u32) -> bool {
    slot.state == SLOT_READY && now - slot.last_used > timeout
}

/// The first slot from `from` on that is overdue.
pub open spec fn next_overdue(s: Seq<PoolSlot>, from: int, n: int, now: i64, timeout: u32) -> Option<
    int,
> {
    search::first_index(|i: int| overdue(s[i], now, timeout), from, n)
}

/// The first slot from `from` on that is ready.
pub open spec fn next_ready(s: Seq<PoolSlot>, from: int, n: int) -> Option<int> {
    search::first_index(|i: int| s[i].state == SLOT_READY, from, n)
}

/// The first slot from `from` on that holds a connection.
pub open spec fn next_holding(s: Seq<PoolSlot>, from: int, n: int) -> Option<int> {
    search::first_index(|i: int| s[i].conn != 0, from, n)
}

/// The first slot from `from` on that is free and holds no connection.
pub open spec fn next_empty(s: Seq<PoolSlot>, from: int, n: int) -> Option<int> {
    search::first_index(|i: int| s[i].conn == 0 && s[i].state == SLOT_FREE, from, n)
}

/// The first slot from `from` on that is in error.
pub open spec fn next_failed(s: Seq<PoolSlot>, from: int, n: int) -> Option<int> {
    search::first_index(|i: int| s[i].state == SLOT_ERROR, from, n)
}

/// The slot as the requesting thread claims it: reserved, its own, in its next generation.
pub open spec fn claimed(slot: PoolSlot, a: Acquire) -> PoolSlot {
    PoolSlot {
        state: SLOT_RESERVED,
        owner_thread: a.thread,
        last_used: a.now,
        generation: pool::next_generation(slot.generation),
        ..slot
    }
}

/// How a transaction in this state is ended.
pub open spec fn cleanup_for(status: i32) -> Cleanup {
    if status == PQTRANS_INTRANS {
        Cleanup::Commit
    } else if status == PQTRANS_INERROR {
        Cleanup::Rollback
    } else {
        Cleanup::Nothing
    }
}

/// The pool with slot `i` replaced.
pub open spec fn with_slot(p: PoolState, i: int, slot: PoolSlot) -> PoolState {
    PoolState { slots: p.slots.update(i, slot), ..p }
}

/// The caller is asked something; nothing else changes.
pub open spec fn ask(a: Acquire, p: PoolState, th: PoolThread, point: Point, action: Action) -> Turn {
    Turn { acquire: Acquire { point, ..a }, pool: p, thread: th, action, reaped: Seq::empty() }
}

/// The request ends with `conn`. Success after a new try sets the count of tries back.
pub open spec fn finish(a: Acquire, p: PoolState, th: PoolThread, conn: usize) -> Turn {
    let th2 = if conn != 0 && a.retried {
        PoolThread { retry_count: 0, ..th }
    } else {
        th
    };
    ask(a, p, th2, Point::Over, Action::Return { conn })
}

/// The request ends with the connection in slot `i`, which the thread remembers.
pub open spec fn finish_in(a: Acquire, p: PoolState, th: PoolThread, i: int, conn: usize) -> Turn {
    let cache = TlsPoolCache {
        db_handle: 0,
        slot_index: i as u32,
        generation: p.slots[i].generation,
    };
    finish(a, p, PoolThread { cache, ..th }, conn)
}

/// Ask how long to wait before a new try.
pub open spec fn ask_delays(a: Acquire, p: PoolState, th: PoolThread) -> Turn {
    ask(a, p, th, Point::Delays, Action::RetryDelays)
}

/// Use one more slot, if there is one and it is free.
#[verifier::opaque]
pub open spec fn grow(a: Acquire, p: PoolState, th: PoolThread) -> Turn {
    if p.size < POOL_SIZE_MAX {
        let grown = PoolState { size: p.size + 1, ..p };
        let slot = p.slots[p.size];
        if slot.state == SLOT_FREE {
            ask(
                a,
                with_slot(grown, p.size, claimed(slot, a)),
                th,
                Point::Created { slot: p.size as usize, origin: Origin::Grown },
                Action::Create { old: 0 },
            )
        } else {
            ask_delays(a, grown, th)
        }
    } else {
        ask_delays(a, p, th)
    }
}

/// Look for slots in error from `from` on.
#[verifier::opaque]
pub open spec fn from_failed(a: Acquire, p: PoolState, th: PoolThread, from: int) -> Turn {
    match next_failed(p.slots, from, a.size as int) {
        Some(i) => ask(
            a,
            with_slot(p, i, PoolSlot { conn: 0, ..claimed(p.slots[i], a) }),
            th,
            Point::Created { slot: i as usize, origin: Origin::Failed },
            Action::Create { old: p.slots[i].conn },
        ),
        None => grow(a, p, th),
    }
}

/// Look for free slots without a connection from `from` on.
#[verifier::opaque]
pub open spec fn from_empty(a: Acquire, p: PoolState, th: PoolThread, from: int) -> Turn {
    match next_empty(p.slots, from, a.size as int) {
        Some(i) => ask(
            a,
            with_slot(p, i, claimed(p.slots[i], a)),
            th,
            Point::Created { slot: i as usize, origin: Origin::Empty },
            Action::Create { old: 0 },
        ),
        None => from_failed(a, p, th, 0),
    }
}

/// Look for slots with a connection that can be used again, from `from` on.
#[verifier::opaque]
pub open spec fn from_reuse(a: Acquire, p: PoolState, th: PoolThread, from: int) -> Turn {
    match next_holding(p.slots, from, a.size as int) {
        Some(i) => ask(
            a,
            p,
            th,
            Point::ReuseStreaming { slot: i as usize, conn: p.slots[i].conn },
            Action::Streaming { conn: p.slots[i].conn },
        ),
        None => from_empty(a, p, th, 0),
    }
}

/// Look for the thread's own slots from `from` on.
#[verifier::opaque]
pub open spec fn from_own(a: Acquire, p: PoolState, th: PoolThread, from: int) -> Turn {
    match next_ready(p.slots, from, a.size as int) {
        Some(i) => ask(
            a,
            p,
            th,
            Point::OwnOwner { slot: i as usize },
            Action::SameThread { owner: p.slots[i].owner_thread },
        ),
        None => from_reuse(a, p, th, 0),
    }
}

/// Empty the idle slots, if that was not done lately.
#[verifier::opaque]
pub open spec fn reap(a: Acquire, p: PoolState, th: PoolThread) -> Turn {
    if a.now - p.last_reap >= REAP_INTERVAL {
        Turn {
            acquire: Acquire { point: Point::Reaped, ..a },
            pool: PoolState {
                slots: pool::after_reaping(p.slots, p.size, a.now, p.timeout),
                last_reap: a.now,
                ..p
            },
            thread: th,
            action: Action::DestroyReaped,
            reaped: pool::idle_connections(p.slots, p.size, a.now, p.timeout),
        }
    } else {
        from_own(a, p, th, 0)
    }
}

/// Look for slots whose owner may be gone from `from` on.
#[verifier::opaque]
pub open spec fn from_overdue(a: Acquire, p: PoolState, th: PoolThread, from: int) -> Turn {
    match next_overdue(p.slots, from, a.size as int, a.now, p.timeout) {
        Some(i) => ask(
            a,
            p,
            th,
            Point::ZombieOwner { slot: i as usize },
            Action::ThreadAlive { owner: p.slots[i].owner_thread },
        ),
        None => reap(a, p, th),
    }
}

/// The slot that the thread remembers is of no use: forget it and search.
pub open spec fn forget(a: Acquire, p: PoolState, th: PoolThread) -> Turn {
    from_overdue(a, p, PoolThread { cache: pool::empty_cache(), ..th }, 0)
}

/// Begin with the slot that the thread remembers.
#[verifier::opaque]
pub open spec fn from_cache(a: Acquire, p: PoolState, th: PoolThread) -> Turn {
    match pool::cached(th.cache, 0) {
        Some((i, g)) => if i < a.size && p.slots[i as int].state == SLOT_READY
            && p.slots[i as int].generation == g {
            ask(
                a,
                p,
                th,
                Point::FastOwner { slot: i as usize },
                Action::SameThread { owner: p.slots[i as int].owner_thread },
            )
        } else {
            forget(a, p, th)
        },
        None => from_overdue(a, p, th, 0),
    }
}

/// The thread's own connection is broken: repair it, if the slot is still ready.
pub open spec fn repair(a: Acquire, p: PoolState, th: PoolThread, i: int, conn: usize) -> Turn {
    if p.slots[i].state == SLOT_READY {
        ask(
            a,
            with_slot(p, i, PoolSlot { state: SLOT_RECONNECTING, ..p.slots[i] }),
            th,
            Point::OwnReconnect { slot: i as usize, conn },
            Action::ClearAndReconnect { conn },
        )
    } else {
        from_own(a, p, th, i + 1)
    }
}

/// No connection could be made for the slot: give it back and search on.
pub open spec fn abandon(a: Acquire, p: PoolState, th: PoolThread, i: int, origin: Origin) -> Turn {
    let q = with_slot(
        p,
        i,
        PoolSlot { conn: 0, owner_thread: 0, state: SLOT_FREE, ..p.slots[i] },
    );
    match origin {
        Origin::Empty => from_empty(a, q, th, i + 1),
        Origin::Failed => from_failed(a, q, th, i + 1),
        Origin::Grown => ask_delays(a, q, th),
    }
}

/// What a step does, given the answer to what was asked.
pub open spec fn turn(
    a: Acquire,
    p: PoolState,
    th: PoolThread,
    yes: bool,
    status: i32,
    conn: usize,
    now: i64,
    delays: Seq<i32>,
) -> Turn {
    match a.point {
        Point::FastOwner { slot } => {
            let c = p.slots[slot as int].conn;
            if yes && c != 0 {
                ask(a, p, th, Point::FastOk { slot, conn: c }, Action::ConnectionOk { conn: c })
            } else {
                forget(a, p, th)
            }
        },
        Point::FastOk { slot, conn: c } => if yes {
            ask(a, p, th, Point::FastStreaming { slot, conn: c }, Action::Streaming { conn: c })
        } else {
            forget(a, p, th)
        },
        Point::FastStreaming { slot, conn: c } => if yes {
            forget(a, p, th)
        } else {
            let s = p.slots[slot as int];
            finish(a, with_slot(p, slot as int, PoolSlot { last_used: a.now, ..s }), th, c)
        },
        Point::ZombieOwner { slot } => {
            let s = p.slots[slot as int];
            if yes {
                from_overdue(a, p, th, slot + 1)
            } else if s.conn != 0 {
                ask(a, p, th, Point::ZombieStreaming { slot }, Action::Streaming { conn: s.conn })
            } else {
                from_overdue(
                    a,
                    with_slot(p, slot as int, pool::moved(s, SLOT_READY, SLOT_FREE)),
                    th,
                    slot + 1,
                )
            }
        },
        Point::ZombieStreaming { slot } => {
            let s = p.slots[slot as int];
            if yes {
                from_overdue(a, p, th, slot + 1)
            } else {
                from_overdue(
                    a,
                    with_slot(p, slot as int, pool::moved(s, SLOT_READY, SLOT_FREE)),
                    th,
                    slot + 1,
                )
            }
        },
        Point::Reaped => from_own(a, p, th, 0),
        Point::OwnOwner { slot } => {
            let c = p.slots[slot as int].conn;
            if !yes {
                from_own(a, p, th, slot + 1)
            } else if c != 0 {
                ask(a, p, th, Point::OwnOk { slot, conn: c }, Action::ConnectionOk { conn: c })
            } else {
                repair(a, p, th, slot as int, c)
            }
        },
        Point::OwnOk { slot, conn: c } => if yes {
            ask(a, p, th, Point::OwnStreaming { slot, conn: c }, Action::Streaming { conn: c })
        } else {
            repair(a, p, th, slot as int, c)
        },
        Point::OwnStreaming { slot, conn: c } => if yes {
            from_own(a, p, th, slot + 1)
        } else {
            let s = p.slots[slot as int];
            finish_in(
                a,
                with_slot(p, slot as int, PoolSlot { last_used: a.now, ..s }),
                th,
                slot as int,
                c,
            )
        },
        Point::OwnReconnect { slot, conn: c } => {
            let s = p.slots[slot as int];
            if yes {
                finish_in(
                    a,
                    with_slot(
                        p,
                        slot as int,
                        PoolSlot { last_used: a.now, state: SLOT_READY, ..s },
                    ),
                    th,
                    slot as int,
                    c,
                )
            } else {
                finish(a, with_slot(p, slot as int, PoolSlot { state: SLOT_ERROR, ..s }), th, 0)
            }
        },
        Point::ReuseStreaming { slot, conn: c } => {
            let s = p.slots[slot as int];
            if !yes && s.state == SLOT_FREE {
                ask(
                    a,
                    with_slot(p, slot as int, claimed(s, a)),
                    th,
                    Point::ReuseTransaction { slot, conn: c },
                    Action::TransactionStatus { conn: c },
                )
            } else {
                from_reuse(a, p, th, slot + 1)
            }
        },
        Point::ReuseTransaction { slot, conn: c } => ask(
            a,
            p,
            th,
            Point::ReuseReset { slot, conn: c },
            Action::ClearAndReset { conn: c, cleanup: cleanup_for(status) },
        ),
        Point::ReuseReset { slot, conn: c } => {
            let s = p.slots[slot as int];
            if yes {
                finish_in(
                    a,
                    with_slot(p, slot as int, PoolSlot { state: SLOT_READY, ..s }),
                    th,
                    slot as int,
                    c,
                )
            } else {
                ask(
                    a,
                    p,
                    th,
                    Point::ReuseReconnect { slot, conn: c },
                    Action::ClearAndReconnect { conn: c },
                )
            }
        },
        Point::ReuseReconnect { slot, conn: c } => {
            let s = p.slots[slot as int];
            if yes {
                finish_in(
                    a,
                    with_slot(
                        p,
                        slot as int,
                        PoolSlot { last_used: a.now, state: SLOT_READY, ..s },
                    ),
                    th,
                    slot as int,
                    c,
                )
            } else {
                from_reuse(
                    a,
                    with_slot(p, slot as int, PoolSlot { state: SLOT_ERROR, ..s }),
                    th,
                    slot + 1,
                )
            }
        },
        Point::Created { slot, origin } => {
            let s = p.slots[slot as int];
            if conn != 0 && yes {
                finish_in(
                    a,
                    with_slot(p, slot as int, PoolSlot { conn, state: SLOT_READY, ..s }),
                    th,
                    slot as int,
                    conn,
                )
            } else if conn != 0 {
                ask(a, p, th, Point::Discarded { slot, origin }, Action::Destroy { conn })
            } else {
                abandon(a, p, th, slot as int, origin)
            }
        },
        Point::Discarded { slot, origin } => abandon(a, p, th, slot as int, origin),
        Point::Delays => if th.retry_count < delays.len() {
            ask(
                a,
                p,
                PoolThread { retry_count: (th.retry_count + 1) as usize, ..th },
                Point::Asleep,
                Action::Sleep { ms: delays[th.retry_count as int] },
            )
        } else {
            ask(
                a,
                p,
                PoolThread { retry_count: 0, ..th },
                Point::Over,
                Action::Return { conn: 0 },
            )
        },
        Point::Asleep => from_cache(
            Acquire { now, size: p.size as usize, retried: true, ..a },
            p,
            th,
        ),
        Point::Over => ask(a, p, th, Point::Over, Action::Return { conn: 0 }),
    }
}

/// The step is the one that `t` describes.
pub open spec fn is_turn(
    t: Turn,
    a: Acquire,
    pm: PoolManager,
    th: PoolThread,
    r: (Action, Vec<(usize, usize)>),
) -> bool {
    &&& a == t.acquire
    &&& state(&pm) == t.pool
    &&& th == t.thread
    &&& r.0 == t.action
    &&& r.1@ == t.reaped
}

/// The first overdue slot from `from` on.
fn find_overdue(slots: &Vec<PoolSlot>, from: usize, n: usize, now: i64, timeout: u32) -> (r: Option<usize>)
    requires
        n <= slots@.len(),
    ensures
        search::index(r) == next_overdue(slots@, from as int, n as int, now, timeout),
        r is Some ==> r->0 < n,
{
    let ghost p = |i: int| overdue(slots@[i], now, timeout);
    proof {
        search::lemma_first_index(p, from as int, n as int);
    }
    let mut i: usize = from;
    while i < n
        invariant
            from <= i,
            n <= slots@.len(),
            p == (|i: int| overdue(slots@[i], now, timeout)),
            forall|j: int| from <= j < i ==> !#[trigger] p(j),
        decreases n - i,
    {
        let slot = slots[i];
        if slot.state == SLOT_READY && now as i128 - slot.last_used as i128 > timeout as i128 {
            proof {
                assert(p(i as int));
                search::lemma_first_index(p, from as int, n as int);
            }
            return Some(i);
        }
        assert(!p(i as int));
        i += 1;
    }
    None
}

/// The first ready slot from `from` on.
fn find_ready(slots: &Vec<PoolSlot>, from: usize, n: usize) -> (r: Option<usize>)
    requires
        n <= slots@.len(),
    ensures
        search::index(r) == next_ready(slots@, from as int, n as int),
        r is Some ==> r->0 < n,
{
    let ghost p = |i: int| slots@[i].state == SLOT_READY;
    proof {
        search::lemma_first_index(p, from as int, n as int);
    }
    let mut i: usize = from;
    while i < n
        invariant
            from <= i,
            n <= slots@.len(),
            p == (|i: int| slots@[i].state == SLOT_READY),
            forall|j: int| from <= j < i ==> !#[trigger] p(j),
        decreases n - i,
    {
        let slot = slots[i];
        if slot.state == SLOT_READY {
            proof {
                assert(p(i as int));
                search::lemma_first_index(p, from as int, n as int);
            }
            return Some(i);
        }
        assert(!p(i as int));
        i += 1;
    }
    None
}

/// The first slot with a connection from `from` on.
fn find_holding(slots: &Vec<PoolSlot>, from: usize, n: usize) -> (r: Option<usize>)
    requires
        n <= slots@.len(),
    ensures
        search::index(r) == next_holding(slots@, from as int, n as int),
        r is Some ==> r->0 < n,
{
    let ghost p = |i: int| slots@[i].conn != 0;
    proof {
        search::lemma_first_index(p, from as int, n as int);
    }
    let mut i: usize = from;
    while i < n
        invariant
            from <= i,
            n <= slots@.len(),
            p == (|i: int| slots@[i].conn != 0),
            forall|j: int| from <= j < i ==> !#[trigger] p(j),
        decreases n - i,
    {
        let slot = slots[i];
        if slot.conn != 0 {
            proof {
                assert(p(i as int));
                search::lemma_first_index(p, from as int, n as int);
            }
            return Some(i);
        }
        assert(!p(i as int));
        i += 1;
    }
    None
}

/// The first free slot without a connection from `from` on.
fn find_empty(slots: &Vec<PoolSlot>, from: usize, n: usize) -> (r: Option<usize>)
    requires
        n <= slots@.len(),
    ensures
        search::index(r) == next_empty(slots@, from as int, n as int),
        r is Some ==> r->0 < n,
{
    let ghost p = |i: int| slots@[i].conn == 0 && slots@[i].state == SLOT_FREE;
    proof {
        search::lemma_first_index(p, from as int, n as int);
    }
    let mut i: usize = from;
    while i < n
        invariant
            from <= i,
            n <= slots@.len(),
            p == (|i: int| slots@[i].conn == 0 && slots@[i].state == SLOT_FREE),
            forall|j: int| from <= j < i ==> !#[trigger] p(j),
        decreases n - i,
    {
        let slot = slots[i];
        if slot.conn == 0 && slot.state == SLOT_FREE {
            proof {
                assert(p(i as int));
                search::lemma_first_index(p, from as int, n as int);
            }
            return Some(i);
        }
        assert(!p(i as int));
        i += 1;
    }
    None
}

/// The first slot in error from `from` on.
fn find_failed(slots: &Vec<PoolSlot>, from: usize, n: usize) -> (r: Option<usize>)
    requires
        n <= slots@.len(),
    ensures
        search::index(r) == next_failed(slots@, from as int, n as int),
        r is Some ==> r->0 < n,
{
    let ghost p = |i: int| slots@[i].state == SLOT_ERROR;
    proof {
        search::lemma_first_index(p, from as int, n as int);
    }
    let mut i: usize = from;
    while i < n
        invariant
            from <= i,
            n <= slots@.len(),
            p == (|i: int| slots@[i].state == SLOT_ERROR),
            forall|j: int| from <= j < i ==> !#[trigger] p(j),
        decreases n - i,
    {
        let slot = slots[i];
        if slot.state == SLOT_ERROR {
            proof {
                assert(p(i as int));
                search::lemma_first_index(p, from as int, n as int);
            }
            return Some(i);
        }
        assert(!p(i as int));
        i += 1;
    }
    None
}

/// A thread that has not used the pool yet.
impl PoolThread {
    pub fn new() -> (r: Self)
        ensures
            r == (PoolThread { cache: pool::empty_cache(), retry_count: 0 }),
    {
        PoolThread { cache: TlsPoolCache::empty(), retry_count: 0 }
    }
}

/// How a transaction in this state has to be ended before the connection is given away.
pub fn transaction_cleanup(status: i32) -> (r: Cleanup)
    ensures
        r == cleanup_for(status),
{
    if status == PQTRANS_INTRANS {
        Cleanup::Commit
    } else if status == PQTRANS_INERROR {
        Cleanup::Rollback
    } else {
        Cleanup::Nothing
    }
}

impl Acquire {
    fn ask(&mut self, pm: &mut PoolManager, th: &mut PoolThread, point: Point, action: Action) -> (r: (
        Action,
        Vec<(usize, usize)>,
    ))
        requires
            old(self).wf(),
            old(pm).wf(),
            point_ok(point),
        ensures
            is_turn(ask(*old(self), state(old(pm)), *old(th), point, action), *final(self), *final(pm), *final(th), r),
            *final(pm) == *old(pm),
            final(self).wf(),
    {
        self.point = point;
        (action, Vec::new())
    }

    fn finish(&mut self, pm: &mut PoolManager, th: &mut PoolThread, conn: usize) -> (r: (
        Action,
        Vec<(usize, usize)>,
    ))
        requires
            old(self).wf(),
            old(pm).wf(),
        ensures
            is_turn(finish(*old(self), state(old(pm)), *old(th), conn), *final(self), *final(pm), *final(th), r),
            *final(pm) == *old(pm),
            final(self).wf(),
    {
        if conn != 0 && self.retried {
            th.retry_count = 0;
        }
        self.ask(pm, th, Point::Over, Action::Return { conn })
    }

    fn finish_in(&mut self, pm: &mut PoolManager, th: &mut PoolThread, slot: usize, conn: usize) -> (r:
        (Action, Vec<(usize, usize)>))
        requires
            old(self).wf(),
            old(pm).wf(),
            slot < POOL_SIZE_MAX,
        ensures
            is_turn(finish_in(*old(self), state(old(pm)), *old(th), slot as int, conn), *final(self), *final(pm), *final(th), r),
            *final(pm) == *old(pm),
            final(self).wf(),
    {
        let generation: u32 = pm.slots[slot].generation;
        pool::tls_pool_cache_set(&mut th.cache, 0, slot as u32, generation);
        self.finish(pm, th, conn)
    }

    /// The slot as this request claims it.
    fn claim(&self, slot: PoolSlot) -> (r: PoolSlot)
        ensures
            r == claimed(slot, *self),
    {
        let mut s = slot;
        s.state = SLOT_RESERVED;
        s.owner_thread = self.thread;
        s.last_used = self.now;
        s.bump_generation();
        s
    }

    fn grow(&mut self, pm: &mut PoolManager, th: &mut PoolThread) -> (r: (
        Action,
        Vec<(usize, usize)>,
    ))
        requires
            old(self).wf(),
            old(pm).wf(),
        ensures
            is_turn(grow(*old(self), state(old(pm)), *old(th)), *final(self), *final(pm), *final(th), r),
            same_rest(final(pm), old(pm)),
            final(pm).wf(),
            final(self).wf(),
    {
        reveal(grow);
        let current: usize = pm.configured_size;
        if current < POOL_SIZE_MAX {
            pm.configured_size = current + 1;
            let slot = pm.slots[current];
            if slot.state == SLOT_FREE {
                let taken = self.claim(slot);
                pm.slots.set(current, taken);
                return self.ask(
                    pm,
                    th,
                    Point::Created { slot: current, origin: Origin::Grown },
                    Action::Create { old: 0 },
                );
            }
        }
        self.ask(pm, th, Point::Delays, Action::RetryDelays)
    }

    fn scan_failed(&mut self, pm: &mut PoolManager, th: &mut PoolThread, from: usize) -> (r: (
        Action,
        Vec<(usize, usize)>,
    ))
        requires
            old(self).wf(),
            old(pm).wf(),
        ensures
            is_turn(from_failed(*old(self), state(old(pm)), *old(th), from as int), *final(self), *final(pm), *final(th), r),
            same_rest(final(pm), old(pm)),
            final(pm).wf(),
            final(self).wf(),
    {
        reveal(from_failed);
        match find_failed(&pm.slots, from, self.size) {
            Some(i) => {
                let slot = pm.slots[i];
                let mut taken = self.claim(slot);
                taken.conn = 0;
                pm.slots.set(i, taken);
                self.ask(
                    pm,
                    th,
                    Point::Created { slot: i, origin: Origin::Failed },
                    Action::Create { old: slot.conn },
                )
            },
            None => self.grow(pm, th),
        }
    }

    fn scan_empty(&mut self, pm: &mut PoolManager, th: &mut PoolThread, from: usize) -> (r: (
        Action,
        Vec<(usize, usize)>,
    ))
        requires
            old(self).wf(),
            old(pm).wf(),
        ensures
            is_turn(from_empty(*old(self), state(old(pm)), *old(th), from as int), *final(self), *final(pm), *final(th), r),
            same_rest(final(pm), old(pm)),
            final(pm).wf(),
            final(self).wf(),
    {
        reveal(from_empty);
        match find_empty(&pm.slots, from, self.size) {
            Some(i) => {
                let slot = pm.slots[i];
                let taken = self.claim(slot);
                pm.slots.set(i, taken);
                self.ask(
                    pm,
                    th,
                    Point::Created { slot: i, origin: Origin::Empty },
                    Action::Create { old: 0 },
                )
            },
            None => self.scan_failed(pm, th, 0),
        }
    }

    fn scan_reuse(&mut self, pm: &mut PoolManager, th: &mut PoolThread, from: usize) -> (r: (
        Action,
        Vec<(usize, usize)>,
    ))
        requires
            old(self).wf(),
            old(pm).wf(),
        ensures
            is_turn(from_reuse(*old(self), state(old(pm)), *old(th), from as int), *final(self), *final(pm), *final(th), r),
            same_rest(final(pm), old(pm)),
            final(pm).wf(),
            final(self).wf(),
    {
        reveal(from_reuse);
        match find_holding(&pm.slots, from, self.size) {
            Some(i) => {
                let conn: usize = pm.slots[i].conn;
                self.ask(
                    pm,
                    th,
                    Point::ReuseStreaming { slot: i, conn },
                    Action::Streaming { conn },
                )
            },
            None => self.scan_empty(pm, th, 0),
        }
    }

    fn scan_own(&mut self, pm: &mut PoolManager, th: &mut PoolThread, from: usize) -> (r: (
        Action,
        Vec<(usize, usize)>,
    ))
        requires
            old(self).wf(),
            old(pm).wf(),
        ensures
            is_turn(from_own(*old(self), state(old(pm)), *old(th), from as int), *final(self), *final(pm), *final(th), r),
            same_rest(final(pm), old(pm)),
            final(pm).wf(),
            final(self).wf(),
    {
        reveal(from_own);
        match find_ready(&pm.slots, from, self.size) {
            Some(i) => {
                let owner: u64 = pm.slots[i].owner_thread;
                self.ask(pm, th, Point::OwnOwner { slot: i }, Action::SameThread { owner })
            },
            None => self.scan_reuse(pm, th, 0),
        }
    }

    fn reap(&mut self, pm: &mut PoolManager, th: &mut PoolThread) -> (r: (
        Action,
        Vec<(usize, usize)>,
    ))
        requires
            old(self).wf(),
            old(pm).wf(),
        ensures
            is_turn(reap(*old(self), state(old(pm)), *old(th)), *final(self), *final(pm), *final(th), r),
            same_rest(final(pm), old(pm)),
            final(pm).wf(),
            final(self).wf(),
    {
        reveal(reap);
        if self.now as i128 - pm.last_reap_time as i128 >= REAP_INTERVAL as i128 {
            pm.last_reap_time = self.now;
            let reaped = pm.reap_idle(self.now);
            self.point = Point::Reaped;
            (Action::DestroyReaped, reaped)
        } else {
            self.scan_own(pm, th, 0)
        }
    }

    fn scan_overdue(&mut self, pm: &mut PoolManager, th: &mut PoolThread, from: usize) -> (r: (
        Action,
        Vec<(usize, usize)>,
    ))
        requires
            old(self).wf(),
            old(pm).wf(),
        ensures
            is_turn(from_overdue(*old(self), state(old(pm)), *old(th), from as int), *final(self), *final(pm), *final(th), r),
            same_rest(final(pm), old(pm)),
            final(pm).wf(),
            final(self).wf(),
    {
        reveal(from_overdue);
        match find_overdue(&pm.slots, from, self.size, self.now, pm.idle_timeout_secs) {
            Some(i) => {
                let owner: u64 = pm.slots[i].owner_thread;
                self.ask(pm, th, Point::ZombieOwner { slot: i }, Action::ThreadAlive { owner })
            },
            None => self.reap(pm, th),
        }
    }

    fn forget(&mut self, pm: &mut PoolManager, th: &mut PoolThread) -> (r: (
        Action,
        Vec<(usize, usize)>,
    ))
        requires
            old(self).wf(),
            old(pm).wf(),
        ensures
            is_turn(forget(*old(self), state(old(pm)), *old(th)), *final(self), *final(pm), *final(th), r),
            same_rest(final(pm), old(pm)),
            final(pm).wf(),
            final(self).wf(),
    {
        pool::tls_pool_cache_clear(&mut th.cache);
        self.scan_overdue(pm, th, 0)
    }

    fn try_cache(&mut self, pm: &mut PoolManager, th: &mut PoolThread) -> (r: (
        Action,
        Vec<(usize, usize)>,
    ))
        requires
            old(self).wf(),
            old(pm).wf(),
        ensures
            is_turn(from_cache(*old(self), state(old(pm)), *old(th)), *final(self), *final(pm), *final(th), r),
            same_rest(final(pm), old(pm)),
            final(pm).wf(),
            final(self).wf(),
    {
        reveal(from_cache);
        match pool::tls_pool_cache_get(&th.cache, 0) {
            Some((i, generation)) => {
                let slot: usize = i as usize;
                if slot < self.size && pm.slots[slot].state == SLOT_READY
                    && pm.slots[slot].generation == generation {
                    let owner: u64 = pm.slots[slot].owner_thread;
                    self.ask(pm, th, Point::FastOwner { slot }, Action::SameThread { owner })
                } else {
                    self.forget(pm, th)
                }
            },
            None => self.scan_overdue(pm, th, 0),
        }
    }

    fn repair(&mut self, pm: &mut PoolManager, th: &mut PoolThread, slot: usize, conn: usize) -> (r: (
        Action,
        Vec<(usize, usize)>,
    ))
        requires
            old(self).wf(),
            old(pm).wf(),
            slot < POOL_SIZE_MAX,
        ensures
            is_turn(repair(*old(self), state(old(pm)), *old(th), slot as int, conn), *final(self), *final(pm), *final(th), r),
            same_rest(final(pm), old(pm)),
            final(pm).wf(),
            final(self).wf(),
    {
        let mut s = pm.slots[slot];
        if s.try_begin_reconnect() {
            pm.slots.set(slot, s);
            self.ask(
                pm,
                th,
                Point::OwnReconnect { slot, conn },
                Action::ClearAndReconnect { conn },
            )
        } else {
            self.scan_own(pm, th, slot + 1)
        }
    }

    fn abandon(&mut self, pm: &mut PoolManager, th: &mut PoolThread, slot: usize, origin: Origin) -> (r:
        (Action, Vec<(usize, usize)>))
        requires
            old(self).wf(),
            old(pm).wf(),
            slot < POOL_SIZE_MAX,
        ensures
            is_turn(abandon(*old(self), state(old(pm)), *old(th), slot as int, origin), *final(self), *final(pm), *final(th), r),
            same_rest(final(pm), old(pm)),
            final(pm).wf(),
            final(self).wf(),
    {
        let mut s = pm.slots[slot];
        s.conn = 0;
        s.release();
        pm.slots.set(slot, s);
        match origin {
            Origin::Empty => self.scan_empty(pm, th, slot + 1),
            Origin::Failed => self.scan_failed(pm, th, slot + 1),
            Origin::Grown => self.ask(pm, th, Point::Delays, Action::RetryDelays),
        }
    }

    /// Goes on with the answer to what was asked last. Returns what to do next and, with
    /// `DestroyReaped`, the slots and connections that were idle too long.
    pub fn resume(&mut self, pm: &mut PoolManager, th: &mut PoolThread, reply: &Reply) -> (r: (
        Action,
        Vec<(usize, usize)>,
    ))
        requires
            old(self).wf(),
            old(pm).wf(),
        ensures
            is_turn(
                turn(
                    *old(self),
                    state(old(pm)),
                    *old(th),
                    reply.yes,
                    reply.status,
                    reply.conn,
                    reply.now,
                    reply.delays@,
                ),
                *final(self),
                *final(pm),
                *final(th),
                r,
            ),
            same_rest(final(pm), old(pm)),
            final(pm).wf(),
            final(self).wf(),
    {
        match self.point {
            Point::FastOwner { slot } => {
                let conn: usize = pm.slots[slot].conn;
                if reply.yes && conn != 0 {
                    self.ask(pm, th, Point::FastOk { slot, conn }, Action::ConnectionOk { conn })
                } else {
                    self.forget(pm, th)
                }
            },
            Point::FastOk { slot, conn } => if reply.yes {
                self.ask(pm, th, Point::FastStreaming { slot, conn }, Action::Streaming { conn })
            } else {
                self.forget(pm, th)
            },
            Point::FastStreaming { slot, conn } => if reply.yes {
                self.forget(pm, th)
            } else {
                let mut s = pm.slots[slot];
                s.last_used = self.now;
                pm.slots.set(slot, s);
                self.finish(pm, th, conn)
            },
            Point::ZombieOwner { slot } => {
                let mut s = pm.slots[slot];
                if reply.yes {
                    self.scan_overdue(pm, th, slot + 1)
                } else if s.conn != 0 {
                    self.ask(
                        pm,
                        th,
                        Point::ZombieStreaming { slot },
                        Action::Streaming { conn: s.conn },
                    )
                } else {
                    let _ = s.try_reclaim_zombie();
                    pm.slots.set(slot, s);
                    self.scan_overdue(pm, th, slot + 1)
                }
            },
            Point::ZombieStreaming { slot } => {
                if !reply.yes {
                    let mut s = pm.slots[slot];
                    let _ = s.try_reclaim_zombie();
                    pm.slots.set(slot, s);
                }
                self.scan_overdue(pm, th, slot + 1)
            },
            Point::Reaped => self.scan_own(pm, th, 0),
            Point::OwnOwner { slot } => {
                let conn: usize = pm.slots[slot].conn;
                if !reply.yes {
                    self.scan_own(pm, th, slot + 1)
                } else if conn != 0 {
                    self.ask(pm, th, Point::OwnOk { slot, conn }, Action::ConnectionOk { conn })
                } else {
                    self.repair(pm, th, slot, conn)
                }
            },
            Point::OwnOk { slot, conn } => if reply.yes {
                self.ask(pm, th, Point::OwnStreaming { slot, conn }, Action::Streaming { conn })
            } else {
                self.repair(pm, th, slot, conn)
            },
            Point::OwnStreaming { slot, conn } => if reply.yes {
                self.scan_own(pm, th, slot + 1)
            } else {
                let mut s = pm.slots[slot];
                s.last_used = self.now;
                pm.slots.set(slot, s);
                self.finish_in(pm, th, slot, conn)
            },
            Point::OwnReconnect { slot, conn } => {
                let mut s = pm.slots[slot];
                if reply.yes {
                    s.last_used = self.now;
                    s.mark_ready();
                    pm.slots.set(slot, s);
                    self.finish_in(pm, th, slot, conn)
                } else {
                    s.mark_error();
                    pm.slots.set(slot, s);
                    self.finish(pm, th, 0)
                }
            },
            Point::ReuseStreaming { slot, conn } => {
                let s = pm.slots[slot];
                if !reply.yes && s.state == SLOT_FREE {
                    let taken = self.claim(s);
                    pm.slots.set(slot, taken);
                    self.ask(
                        pm,
                        th,
                        Point::ReuseTransaction { slot, conn },
                        Action::TransactionStatus { conn },
                    )
                } else {
                    self.scan_reuse(pm, th, slot + 1)
                }
            },
            Point::ReuseTransaction { slot, conn } => {
                let cleanup = transaction_cleanup(reply.status);
                self.ask(
                    pm,
                    th,
                    Point::ReuseReset { slot, conn },
                    Action::ClearAndReset { conn, cleanup },
                )
            },
            Point::ReuseReset { slot, conn } => if reply.yes {
                let mut s = pm.slots[slot];
                s.mark_ready();
                pm.slots.set(slot, s);
                self.finish_in(pm, th, slot, conn)
            } else {
                self.ask(
                    pm,
                    th,
                    Point::ReuseReconnect { slot, conn },
                    Action::ClearAndReconnect { conn },
                )
            },
            Point::ReuseReconnect { slot, conn } => {
                let mut s = pm.slots[slot];
                if reply.yes {
                    s.last_used = self.now;
                    s.mark_ready();
                    pm.slots.set(slot, s);
                    self.finish_in(pm, th, slot, conn)
                } else {
                    s.mark_error();
                    pm.slots.set(slot, s);
                    self.scan_reuse(pm, th, slot + 1)
                }
            },
            Point::Created { slot, origin } => {
                let conn: usize = reply.conn;
                if conn != 0 && reply.yes {
                    let mut s = pm.slots[slot];
                    s.conn = conn;
                    s.mark_ready();
                    pm.slots.set(slot, s);
                    self.finish_in(pm, th, slot, conn)
                } else if conn != 0 {
                    self.ask(pm, th, Point::Discarded { slot, origin }, Action::Destroy { conn })
                } else {
                    self.abandon(pm, th, slot, origin)
                }
            },
            Point::Discarded { slot, origin } => self.abandon(pm, th, slot, origin),
            Point::Delays => {
                let tries: usize = th.retry_count;
                if tries < reply.delays.len() {
                    let ms: i32 = reply.delays[tries];
                    th.retry_count = tries + 1;
                    self.ask(pm, th, Point::Asleep, Action::Sleep { ms })
                } else {
                    th.retry_count = 0;
                    self.ask(pm, th, Point::Over, Action::Return { conn: 0 })
                }
            },
            Point::Asleep => {
                self.now = reply.now;
                self.size = pm.configured_size;
                self.retried = true;
                self.try_cache(pm, th)
            },
            Point::Over => self.ask(pm, th, Point::Over, Action::Return { conn: 0 }),
        }
    }
}

/// A request as it begins.
pub open spec fn request(thread: u64, now: i64, size: usize) -> Acquire {
    Acquire { thread, now, size, retried: false, point: Point::Over }
}

/// Begins a request of the thread `thread` for a connection to the database at `path`, which
/// must be the library's for there to be one. The first such path is kept.
pub fn pool_get_connection_inner(
    pm: &mut PoolManager,
    th: &mut PoolThread,
    path: &str,
    thread: u64,
    now: i64,
) -> (r: (Acquire, Action, Vec<(usize, usize)>))
    requires
        old(pm).wf(),
    ensures
        !pool::is_library(path@) ==> {
            &&& *final(pm) == *old(pm)
            &&& *final(th) == *old(th)
            &&& r.0.point == Point::Over
            &&& r.1 == Action::Return { conn: 0 }
            &&& r.2@.len() == 0
        },
        pool::is_library(path@) ==> {
            &&& is_turn(
                from_cache(
                    request(thread, now, old(pm).configured_size),
                    state(old(pm)),
                    *old(th),
                ),
                r.0,
                *final(pm),
                *final(th),
                (r.1, r.2),
            )
            &&& final(pm).library_db_path is Some
            &&& final(pm).library_db_path->0@ == (if old(pm).library_db_path is Some {
                old(pm).library_db_path->0@
            } else {
                path@
            })
            &&& final(pm).idle_timeout_secs == old(pm).idle_timeout_secs
            &&& final(pm).init_pid == old(pm).init_pid
            &&& final(pm).registry == old(pm).registry
            &&& final(pm).db_to_pool == old(pm).db_to_pool
            &&& final(pm).global_metadata_id == old(pm).global_metadata_id
            &&& final(pm).global_last_insert_rowid == old(pm).global_last_insert_rowid
        },
        final(pm).wf(),
        r.0.wf(),
{
    let mut a = Acquire {
        thread,
        now,
        size: pm.configured_size,
        retried: false,
        point: Point::Over,
    };
    if !pool::is_library_db(path) {
        return (a, Action::Return { conn: 0 }, Vec::new());
    }
    if pm.library_db_path.is_none() {
        pm.library_db_path = Some(path.to_owned());
    }
    let (action, reaped) = a.try_cache(pm, th);
    (a, action, reaped)
}

/// The slot that the request asked about, if any.
pub open spec fn slot_at(p: Point) -> Option<int> {
    match p {
        Point::FastOwner { slot } => Some(slot as int),
        Point::FastOk { slot, .. } => Some(slot as int),
        Point::FastStreaming { slot, .. } => Some(slot as int),
        Point::ZombieOwner { slot } => Some(slot as int),
        Point::ZombieStreaming { slot } => Some(slot as int),
        Point::OwnOwner { slot } => Some(slot as int),
        Point::OwnOk { slot, .. } => Some(slot as int),
        Point::OwnStreaming { slot, .. } => Some(slot as int),
        Point::OwnReconnect { slot, .. } => Some(slot as int),
        Point::ReuseStreaming { slot, .. } => Some(slot as int),
        Point::ReuseTransaction { slot, .. } => Some(slot as int),
        Point::ReuseReset { slot, .. } => Some(slot as int),
        Point::ReuseReconnect { slot, .. } => Some(slot as int),
        Point::Created { slot, .. } => Some(slot as int),
        Point::Discarded { slot, .. } => Some(slot as int),
        _ => None,
    }
}

/// The pool has all its slots.
pub open spec fn pool_ok(p: PoolState) -> bool {
    p.slots.len() == POOL_SIZE_MAX && 0 <= p.size <= POOL_SIZE_MAX
}

/// What the searches find has what they look for.
proof fn lemma_found(a: Acquire, p: PoolState, from: int)
    requires
        0 <= from,
    ensures
        match next_overdue(p.slots, from, a.size as int, a.now, p.timeout) {
            Some(i) => from <= i < a.size && overdue(p.slots[i], a.now, p.timeout),
            None => true,
        },
        match next_ready(p.slots, from, a.size as int) {
            Some(i) => from <= i < a.size && p.slots[i].state == SLOT_READY,
            None => true,
        },
        match next_holding(p.slots, from, a.size as int) {
            Some(i) => from <= i < a.size && p.slots[i].conn != 0,
            None => true,
        },
        match next_empty(p.slots, from, a.size as int) {
            Some(i) => from <= i < a.size && p.slots[i].conn == 0 && p.slots[i].state == SLOT_FREE,
            None => true,
        },
        match next_failed(p.slots, from, a.size as int) {
            Some(i) => from <= i < a.size && p.slots[i].state == SLOT_ERROR,
            None => true,
        },
{
    let n = a.size as int;
    search::lemma_first_index(|i: int| overdue(p.slots[i], a.now, p.timeout), from, n);
    search::lemma_first_index(|i: int| p.slots[i].state == SLOT_READY, from, n);
    search::lemma_first_index(|i: int| p.slots[i].conn != 0, from, n);
    search::lemma_first_index(
        |i: int| p.slots[i].conn == 0 && p.slots[i].state == SLOT_FREE,
        from,
        n,
    );
    search::lemma_first_index(|i: int| p.slots[i].state == SLOT_ERROR, from, n);
}

/// Between the pools `p` and `q`, a slot in use is untouched, and one that lost its connection
/// is in its next generation.
pub open spec fn gentle(p: PoolState, q: PoolState) -> bool {
    &&& q.slots.len() == p.slots.len()
    &&& p.size <= q.size <= POOL_SIZE_MAX
    &&& forall|j: int|
        0 <= j < p.slots.len() && p.slots[j].state != SLOT_FREE && p.slots[j].state != SLOT_ERROR
            ==> #[trigger] q.slots[j] == p.slots[j]
    &&& forall|j: int|
        0 <= j < p.slots.len() && (#[trigger] q.slots[j]).conn != p.slots[j].conn
            ==> p.slots[j].conn != 0 && q.slots[j].conn == 0 && q.slots[j].generation
            == pool::next_generation(p.slots[j].generation)
}

proof fn lemma_searches_gentle(a: Acquire, p: PoolState, th: PoolThread, from: int)
    requires
        pool_ok(p),
        a.size <= POOL_SIZE_MAX,
        0 <= from,
    ensures
        gentle(p, from_failed(a, p, th, from).pool),
        gentle(p, from_empty(a, p, th, from).pool),
        gentle(p, from_reuse(a, p, th, from).pool),
        gentle(p, from_own(a, p, th, from).pool),
        gentle(p, from_overdue(a, p, th, from).pool),
        gentle(p, from_cache(a, p, th).pool),
{
    reveal(grow);
    reveal(from_failed);
    reveal(from_empty);
    reveal(from_reuse);
    reveal(from_own);
    reveal(reap);
    reveal(from_overdue);
    reveal(from_cache);
    lemma_found(a, p, from);
    lemma_found(a, p, 0);
}

/// A step leaves every slot alone that is in use, being set up or being repaired, other than the
/// one that the request asked about; and the pool never shrinks nor outgrows its slots.
pub proof fn law_others_untouched(
    a: Acquire,
    p: PoolState,
    th: PoolThread,
    yes: bool,
    status: i32,
    conn: usize,
    now: i64,
    delays: Seq<i32>,
    j: int,
)
    requires
        a.wf(),
        pool_ok(p),
        0 <= j < POOL_SIZE_MAX,
        p.slots[j].state != SLOT_FREE,
        p.slots[j].state != SLOT_ERROR,
        slot_at(a.point) != Some(j),
    ensures
        turn(a, p, th, yes, status, conn, now, delays).pool.slots[j] == p.slots[j],
        p.size <= turn(a, p, th, yes, status, conn, now, delays).pool.size <= POOL_SIZE_MAX,
{
    lemma_turn_is_gentle(a, p, th, yes, status, conn, now, delays);
}

/// The slot that the request asked about as it is once the answer is in, before the search
/// goes on.
pub open spec fn settled(
    a: Acquire,
    s: PoolSlot,
    yes: bool,
    conn: usize,
) -> PoolSlot {
    match a.point {
        Point::FastStreaming { .. } if !yes => PoolSlot { last_used: a.now, ..s },
        Point::ZombieOwner { .. } if !yes && s.conn == 0 => pool::moved(s, SLOT_READY, SLOT_FREE),
        Point::ZombieStreaming { .. } if !yes => pool::moved(s, SLOT_READY, SLOT_FREE),
        Point::OwnOwner { .. } if yes && s.conn == 0 => pool::moved(
            s,
            SLOT_READY,
            SLOT_RECONNECTING,
        ),
        Point::OwnOk { .. } if !yes => pool::moved(s, SLOT_READY, SLOT_RECONNECTING),
        Point::OwnStreaming { .. } if !yes => PoolSlot { last_used: a.now, ..s },
        Point::OwnReconnect { .. } => if yes {
            PoolSlot { last_used: a.now, state: SLOT_READY, ..s }
        } else {
            PoolSlot { state: SLOT_ERROR, ..s }
        },
        Point::ReuseStreaming { .. } if !yes && s.state == SLOT_FREE => claimed(s, a),
        Point::ReuseReset { .. } if yes => PoolSlot { state: SLOT_READY, ..s },
        Point::ReuseReconnect { .. } => if yes {
            PoolSlot { last_used: a.now, state: SLOT_READY, ..s }
        } else {
            PoolSlot { state: SLOT_ERROR, ..s }
        },
        Point::Created { .. } => if conn != 0 && yes {
            PoolSlot { conn, state: SLOT_READY, ..s }
        } else if conn != 0 {
            s
        } else {
            PoolSlot { conn: 0, owner_thread: 0, state: SLOT_FREE, ..s }
        },
        Point::Discarded { .. } => PoolSlot {
            conn: 0,
            owner_thread: 0,
            state: SLOT_FREE,
            ..s
        },
        _ => s,
    }
}

/// The pool once the answer is in, before the search goes on.
pub open spec fn settled_pool(a: Acquire, p: PoolState, yes: bool, conn: usize) -> PoolState {
    match slot_at(a.point) {
        Some(i) => with_slot(p, i, settled(a, p.slots[i], yes, conn)),
        None => p,
    }
}

proof fn lemma_turn_is_gentle(
    a: Acquire,
    p: PoolState,
    th: PoolThread,
    yes: bool,
    status: i32,
    conn: usize,
    now: i64,
    delays: Seq<i32>,
)
    requires
        a.wf(),
        pool_ok(p),
    ensures
        gentle(
            settled_pool(a, p, yes, conn),
            turn(a, p, th, yes, status, conn, now, delays).pool,
        ),
{
    let q = settled_pool(a, p, yes, conn);
    let th2 = PoolThread { cache: pool::empty_cache(), ..th };
    let t = turn(a, p, th, yes, status, conn, now, delays);
    match slot_at(a.point) {
        Some(i) => {
            assert(p.slots.update(i, p.slots[i]) =~= p.slots);
        },
        None => {},
    }
    match a.point {
        Point::FastOwner { slot } => {
            lemma_searches_gentle(a, p, th2, 0);
        },
        Point::FastOk { slot, .. } => {
            lemma_searches_gentle(a, p, th2, 0);
        },
        Point::FastStreaming { slot, .. } => {
            lemma_searches_gentle(a, p, th2, 0);
        },
        Point::ZombieOwner { slot } => {
            lemma_searches_gentle(a, q, th, slot + 1);
        },
        Point::ZombieStreaming { slot } => {
            lemma_searches_gentle(a, q, th, slot + 1);
        },
        Point::Reaped => {
            lemma_searches_gentle(a, p, th, 0);
        },
        Point::OwnOwner { slot } => {
            lemma_searches_gentle(a, q, th, slot + 1);
        },
        Point::OwnOk { slot, .. } => {
            lemma_searches_gentle(a, q, th, slot + 1);
        },
        Point::OwnStreaming { slot, .. } => {
            lemma_searches_gentle(a, q, th, slot + 1);
        },
        Point::ReuseStreaming { slot, .. } => {
            lemma_searches_gentle(a, q, th, slot + 1);
        },
        Point::ReuseReconnect { slot, .. } => {
            lemma_searches_gentle(a, q, th, slot + 1);
        },
        Point::Created { slot, .. } => {
            lemma_searches_gentle(a, q, th, slot + 1);
        },
        Point::Discarded { slot, .. } => {
            lemma_searches_gentle(a, q, th, slot + 1);
        },
        Point::Asleep => {
            let b = Acquire { now, size: p.size as usize, retried: true, ..a };
            lemma_searches_gentle(b, p, th, 0);
        },
        _ => {},
    }
    assert(gentle(q, t.pool));
}

/// A connection that leaves its slot is noticed: whenever a step takes a connection out of a slot
/// or puts another in its place, the generation of the slot changes with it, so that a thread
/// that remembers the slot sees that it is stale. (A slot that is waiting for a new connection
/// has none.)
pub proof fn law_stale_slots_are_noticed(
    a: Acquire,
    p: PoolState,
    th: PoolThread,
    yes: bool,
    status: i32,
    conn: usize,
    now: i64,
    delays: Seq<i32>,
    j: int,
)
    requires
        a.wf(),
        pool_ok(p),
        0 <= j < POOL_SIZE_MAX,
        match a.point {
            Point::Created { slot, .. } => p.slots[slot as int].conn == 0,
            Point::Discarded { slot, .. } => p.slots[slot as int].conn == 0,
            _ => true,
        },
        p.slots[j].conn != 0,
        turn(a, p, th, yes, status, conn, now, delays).pool.slots[j].conn != p.slots[j].conn,
    ensures
        turn(a, p, th, yes, status, conn, now, delays).pool.slots[j].generation
            != p.slots[j].generation,
{
    lemma_turn_is_gentle(a, p, th, yes, status, conn, now, delays);
}

/// A search ends in a question, never in a connection nor in a wait.
proof fn lemma_searches_ask(a: Acquire, p: PoolState, th: PoolThread, from: int)
    requires
        pool_ok(p),
        a.size <= POOL_SIZE_MAX,
        0 <= from,
    ensures
        !(from_failed(a, p, th, from).action is Return || from_failed(a, p, th, from).action is Sleep),
        !(from_empty(a, p, th, from).action is Return || from_empty(a, p, th, from).action is Sleep),
        !(from_reuse(a, p, th, from).action is Return || from_reuse(a, p, th, from).action is Sleep),
        !(from_own(a, p, th, from).action is Return || from_own(a, p, th, from).action is Sleep),
        !(from_overdue(a, p, th, from).action is Return || from_overdue(a, p, th, from).action is Sleep),
        !(from_cache(a, p, th).action is Return || from_cache(a, p, th).action is Sleep),
{
    reveal(grow);
    reveal(from_failed);
    reveal(from_empty);
    reveal(from_reuse);
    reveal(from_own);
    reveal(reap);
    reveal(from_overdue);
    reveal(from_cache);
}

/// The slot that the request waits for is in use, and is as the request left it. `same` tells which
/// owner is the requesting thread.
pub open spec fn on_course(
    a: Acquire,
    p: PoolState,
    th: PoolThread,
    same: spec_fn(u64) -> bool,
) -> bool {
    &&& a.size <= p.size
    &&& slot_at(a.point) matches Some(i) ==> i < p.size && slot_on_course(
        a,
        p.slots[i],
        p,
        th,
        same,
    )
}

/// The slot `s` that the request waits for is as the request left it.
pub open spec fn slot_on_course(
    a: Acquire,
    s: PoolSlot,
    p: PoolState,
    th: PoolThread,
    same: spec_fn(u64) -> bool,
) -> bool {
    match a.point {
        Point::FastOwner { slot } => remembered(p, th, slot as int),
        Point::FastOk { slot, conn } => remembered(p, th, slot as int) && conn != 0 && s.conn
            == conn && same(s.owner_thread),
        Point::FastStreaming { slot, conn } => remembered(p, th, slot as int) && conn != 0
            && s.conn == conn && same(s.owner_thread),
        Point::OwnOwner { .. } => s.state == SLOT_READY,
        Point::OwnOk { conn, .. } => s.state == SLOT_READY && s.conn == conn && same(
            s.owner_thread,
        ),
        Point::OwnStreaming { conn, .. } => s.state == SLOT_READY && s.conn == conn && same(
            s.owner_thread,
        ),
        Point::OwnReconnect { conn, .. } => s.state == SLOT_RECONNECTING && s.conn == conn && same(
            s.owner_thread,
        ),
        Point::ReuseStreaming { conn, .. } => conn != 0 && s.conn == conn,
        Point::ReuseTransaction { conn, .. } => is_claimed(a, s) && s.conn == conn,
        Point::ReuseReset { conn, .. } => is_claimed(a, s) && s.conn == conn,
        Point::ReuseReconnect { conn, .. } => is_claimed(a, s) && s.conn == conn,
        Point::Created { .. } => is_claimed(a, s),
        Point::Discarded { .. } => is_claimed(a, s),
        _ => true,
    }
}

/// The answer is true where the request asks whether an owner is the requesting thread.
pub open spec fn told_truly(
    a: Acquire,
    p: PoolState,
    yes: bool,
    same: spec_fn(u64) -> bool,
) -> bool {
    match a.point {
        Point::FastOwner { slot } => yes == same(p.slots[slot as int].owner_thread),
        Point::OwnOwner { slot } => yes == same(p.slots[slot as int].owner_thread),
        _ => true,
    }
}

/// The slot is ready, and the thread remembers it in its present generation.
pub open spec fn remembered(p: PoolState, th: PoolThread, i: int) -> bool {
    &&& p.slots[i].state == SLOT_READY
    &&& pool::cached(th.cache, 0) == Some((i as u32, p.slots[i].generation))
}

/// The slot is reserved for the requesting thread since the request began.
pub open spec fn is_claimed(a: Acquire, s: PoolSlot) -> bool {
    &&& s.state == SLOT_RESERVED
    &&& s.owner_thread == a.thread
    &&& s.last_used == a.now
}

/// The request came to this slot by claiming it.
pub open spec fn by_claim(p: Point) -> bool {
    p is ReuseReset || p is ReuseReconnect || p is Created
}

/// A search ends on course.
proof fn lemma_searches_on_course(
    a: Acquire,
    p: PoolState,
    th: PoolThread,
    from: int,
    same: spec_fn(u64) -> bool,
)
    requires
        pool_ok(p),
        a.size <= p.size,
        0 <= from,
    ensures
        turn_on_course(from_failed(a, p, th, from), same),
        turn_on_course(from_empty(a, p, th, from), same),
        turn_on_course(from_reuse(a, p, th, from), same),
        turn_on_course(from_own(a, p, th, from), same),
        turn_on_course(from_overdue(a, p, th, from), same),
        turn_on_course(from_cache(a, p, th), same),
{
    reveal(grow);
    reveal(from_failed);
    reveal(from_empty);
    reveal(from_reuse);
    reveal(from_own);
    reveal(reap);
    reveal(from_overdue);
    reveal(from_cache);
    lemma_found(a, p, from);
    lemma_found(a, p, 0);
}

/// The request is on course after a step.
pub open spec fn turn_on_course(t: Turn, same: spec_fn(u64) -> bool) -> bool {
    on_course(t.acquire, t.pool, t.thread, same)
}

/// A request that is on course stays so with every step, whatever is answered, if it is told the
/// truth about owners; and it begins so.
pub proof fn law_stays_on_course(
    a: Acquire,
    p: PoolState,
    th: PoolThread,
    yes: bool,
    status: i32,
    conn: usize,
    now: i64,
    delays: Seq<i32>,
    same: spec_fn(u64) -> bool,
)
    requires
        a.wf(),
        pool_ok(p),
        on_course(a, p, th, same),
        told_truly(a, p, yes, same),
    ensures
        turn_on_course(turn(a, p, th, yes, status, conn, now, delays), same),
        turn_on_course(from_cache(a, p, th), same),
{
    let q = settled_pool(a, p, yes, conn);
    let th2 = PoolThread { cache: pool::empty_cache(), ..th };
    lemma_searches_on_course(a, p, th, 0, same);
    match slot_at(a.point) {
        Some(i) => {
            assert(p.slots.update(i, p.slots[i]) =~= p.slots);
            lemma_searches_on_course(a, q, th, i + 1, same);
            lemma_searches_on_course(a, q, th2, 0, same);
            lemma_searches_on_course(a, q, th, 0, same);
        },
        None => {
            let b = Acquire { now, size: p.size as usize, retried: true, ..a };
            lemma_searches_on_course(b, p, th, 0, same);
        },
    }
}

/// A connection is handed out in a slot that is in use, holds it, is ready, was used just now, is
/// remembered by the thread in its present generation, and is the thread's: claimed for it, or said
/// to be its own.
pub proof fn law_handed_out(
    a: Acquire,
    p: PoolState,
    th: PoolThread,
    yes: bool,
    status: i32,
    conn: usize,
    now: i64,
    delays: Seq<i32>,
    same: spec_fn(u64) -> bool,
)
    requires
        a.wf(),
        pool_ok(p),
        on_course(a, p, th, same),
        match turn(a, p, th, yes, status, conn, now, delays).action {
            Action::Return { conn } => conn != 0,
            _ => false,
        },
    ensures
        ({
            let t = turn(a, p, th, yes, status, conn, now, delays);
            let i = slot_at(a.point)->0;
            &&& slot_at(a.point) is Some
            &&& i < t.pool.size
            &&& remembered(t.pool, t.thread, i)
            &&& t.action == Action::Return { conn: t.pool.slots[i].conn }
            &&& t.pool.slots[i].last_used == a.now
            &&& by_claim(a.point) ==> t.pool.slots[i].owner_thread == a.thread
            &&& !by_claim(a.point) ==> same(t.pool.slots[i].owner_thread)
        }),
{
    let q = settled_pool(a, p, yes, conn);
    let th2 = PoolThread { cache: pool::empty_cache(), ..th };
    match slot_at(a.point) {
        Some(i) => {
            assert(p.slots.update(i, p.slots[i]) =~= p.slots);
            lemma_searches_ask(a, q, th, i + 1);
            lemma_searches_ask(a, q, th2, 0);
        },
        None => {
            let b = Acquire { now, size: p.size as usize, retried: true, ..a };
            lemma_searches_ask(a, p, th, 0);
            lemma_searches_ask(b, p, th, 0);
        },
    }
}

/// The wait before each new try is the next one in the list, and there are no more new tries in a
/// row than the list has waits.
pub proof fn law_bounded_retries(
    a: Acquire,
    p: PoolState,
    th: PoolThread,
    yes: bool,
    status: i32,
    conn: usize,
    now: i64,
    delays: Seq<i32>,
    ms: i32,
)
    requires
        a.wf(),
        pool_ok(p),
        turn(a, p, th, yes, status, conn, now, delays).action == (Action::Sleep { ms }),
        delays.len() <= usize::MAX,
    ensures
        th.retry_count < delays.len(),
        ms == delays[th.retry_count as int],
        turn(a, p, th, yes, status, conn, now, delays).thread.retry_count == th.retry_count + 1,
{
    let q = settled_pool(a, p, yes, conn);
    let th2 = PoolThread { cache: pool::empty_cache(), ..th };
    match slot_at(a.point) {
        Some(i) => {
            assert(p.slots.update(i, p.slots[i]) =~= p.slots);
            lemma_searches_ask(a, q, th, i + 1);
            lemma_searches_ask(a, q, th2, 0);
        },
        None => {
            let b = Acquire { now, size: p.size as usize, retried: true, ..a };
            lemma_searches_ask(a, p, th, 0);
            lemma_searches_ask(b, p, th, 0);
        },
    }
}

/// How far a request still is from its end, or from its next wait.
pub open spec fn rank(p: Point) -> int {
    match p {
        Point::FastOwner { .. } => 80003,
        Point::FastOk { .. } => 80002,
        Point::FastStreaming { .. } => 80001,
        Point::ZombieOwner { slot } => 70000 + (200 - slot) * 10 + 1,
        Point::ZombieStreaming { slot } => 70000 + (200 - slot) * 10,
        Point::Reaped => 60000,
        Point::OwnOwner { slot } => 50000 + (200 - slot) * 10 + 4,
        Point::OwnOk { slot, .. } => 50000 + (200 - slot) * 10 + 3,
        Point::OwnStreaming { slot, .. } => 50000 + (200 - slot) * 10 + 2,
        Point::OwnReconnect { slot, .. } => 50000 + (200 - slot) * 10 + 1,
        Point::ReuseStreaming { slot, .. } => 40000 + (200 - slot) * 10 + 4,
        Point::ReuseTransaction { slot, .. } => 40000 + (200 - slot) * 10 + 3,
        Point::ReuseReset { slot, .. } => 40000 + (200 - slot) * 10 + 2,
        Point::ReuseReconnect { slot, .. } => 40000 + (200 - slot) * 10 + 1,
        Point::Created { slot, origin: Origin::Empty } => 30000 + (200 - slot) * 10 + 2,
        Point::Discarded { slot, origin: Origin::Empty } => 30000 + (200 - slot) * 10 + 1,
        Point::Created { slot, origin: Origin::Failed } => 20000 + (200 - slot) * 10 + 2,
        Point::Discarded { slot, origin: Origin::Failed } => 20000 + (200 - slot) * 10 + 1,
        Point::Created { slot, origin: Origin::Grown } => 10002,
        Point::Discarded { slot, origin: Origin::Grown } => 10001,
        Point::Delays => 3,
        Point::Asleep => 2,
        Point::Over => 1,
    }
}

proof fn lemma_search_rank(a: Acquire, p: PoolState, th: PoolThread, from: int)
    requires
        pool_ok(p),
        a.size <= POOL_SIZE_MAX,
        0 <= from,
    ensures
        0 < rank(from_failed(a, p, th, from).acquire.point),
        rank(from_failed(a, p, th, from).acquire.point) <= 20000 + (200 - from) * 10 + 2
            || rank(from_failed(a, p, th, from).acquire.point) <= 10002,
        0 < rank(from_empty(a, p, th, from).acquire.point),
        rank(from_empty(a, p, th, from).acquire.point) <= 30000 + (200 - from) * 10 + 2
            || rank(from_empty(a, p, th, from).acquire.point) <= 22002,
        0 < rank(from_reuse(a, p, th, from).acquire.point),
        rank(from_reuse(a, p, th, from).acquire.point) <= 40000 + (200 - from) * 10 + 4
            || rank(from_reuse(a, p, th, from).acquire.point) <= 32002,
        0 < rank(from_own(a, p, th, from).acquire.point),
        rank(from_own(a, p, th, from).acquire.point) <= 50000 + (200 - from) * 10 + 4
            || rank(from_own(a, p, th, from).acquire.point) <= 42004,
        0 < rank(from_overdue(a, p, th, from).acquire.point),
        rank(from_overdue(a, p, th, from).acquire.point) <= 70000 + (200 - from) * 10 + 1
            || rank(from_overdue(a, p, th, from).acquire.point) <= 60000,
{
    reveal(grow);
    reveal(from_failed);
    reveal(from_empty);
    reveal(from_reuse);
    reveal(from_own);
    reveal(reap);
    reveal(from_overdue);
    reveal(from_cache);
    lemma_found(a, p, from);
    lemma_found(a, p, 0);
}

/// Every request comes to its end or to a wait: each step but the one after a wait brings it
/// nearer, and it cannot come nearer than nothing.
pub proof fn law_progress(
    a: Acquire,
    p: PoolState,
    th: PoolThread,
    yes: bool,
    status: i32,
    conn: usize,
    now: i64,
    delays: Seq<i32>,
)
    requires
        a.wf(),
        pool_ok(p),
        a.point != Point::Asleep,
        a.point != Point::Over,
    ensures
        0 < rank(turn(a, p, th, yes, status, conn, now, delays).acquire.point) < rank(a.point),
{
    let q = settled_pool(a, p, yes, conn);
    let th2 = PoolThread { cache: pool::empty_cache(), ..th };
    let t = turn(a, p, th, yes, status, conn, now, delays);
    match slot_at(a.point) {
        Some(i) => {
            assert(p.slots.update(i, p.slots[i]) =~= p.slots);
        },
        None => {},
    }
    match a.point {
        Point::FastOwner { slot } => {
            lemma_search_rank(a, p, th2, 0);
            assert(0 < rank(t.acquire.point) < rank(a.point));
        },
        Point::FastOk { slot, .. } => {
            lemma_search_rank(a, p, th2, 0);
            assert(0 < rank(t.acquire.point) < rank(a.point));
        },
        Point::FastStreaming { slot, .. } => {
            lemma_search_rank(a, p, th2, 0);
            assert(0 < rank(t.acquire.point) < rank(a.point));
        },
        Point::ZombieOwner { slot } => {
            lemma_search_rank(a, q, th, slot + 1);
            assert(0 < rank(t.acquire.point) < rank(a.point));
        },
        Point::ZombieStreaming { slot } => {
            lemma_search_rank(a, q, th, slot + 1);
            assert(0 < rank(t.acquire.point) < rank(a.point));
        },
        Point::Reaped => {
            lemma_search_rank(a, p, th, 0);
            assert(0 < rank(t.acquire.point) < rank(a.point));
        },
        Point::OwnOwner { slot } => {
            lemma_search_rank(a, q, th, slot + 1);
            assert(0 < rank(t.acquire.point) < rank(a.point));
        },
        Point::OwnOk { slot, .. } => {
            lemma_search_rank(a, q, th, slot + 1);
            assert(0 < rank(t.acquire.point) < rank(a.point));
        },
        Point::OwnStreaming { slot, .. } => {
            lemma_search_rank(a, q, th, slot + 1);
            assert(0 < rank(t.acquire.point) < rank(a.point));
        },
        Point::ReuseStreaming { slot, .. } => {
            lemma_search_rank(a, q, th, slot + 1);
            assert(0 < rank(t.acquire.point) < rank(a.point));
        },
        Point::ReuseReconnect { slot, .. } => {
            lemma_search_rank(a, q, th, slot + 1);
            assert(0 < rank(t.acquire.point) < rank(a.point));
        },
        Point::Created { slot, .. } => {
            lemma_search_rank(a, q, th, slot + 1);
            assert(0 < rank(t.acquire.point) < rank(a.point));
        },
        Point::Discarded { slot, .. } => {
            lemma_search_rank(a, q, th, slot + 1);
            assert(0 < rank(t.acquire.point) < rank(a.point));
        },
        _ => {},
    }
}

/// What the caller answers, as plain values.
pub ghost struct Answer {
    pub yes: bool,
    pub status: i32,
    pub conn: usize,
    pub now: i64,
    pub delays: Seq<i32>,
}

/// Where a request stands once the answer is in, and what is to be done then.
pub open spec fn after(a: Acquire, p: PoolState, th: PoolThread, r: Answer) -> Turn {
    turn(a, p, th, r.yes, r.status, r.conn, r.now, r.delays)
}

/// The caller was told to do this, where a request waits at this point.
pub open spec fn waits_for(p: Point, q: Action) -> bool {
    match p {
        Point::FastOwner { .. } | Point::OwnOwner { .. } => q is SameThread,
        Point::FastOk { conn, .. } | Point::OwnOk { conn, .. } => q == (Action::ConnectionOk {
            conn,
        }),
        Point::FastStreaming { conn, .. }
        | Point::OwnStreaming { conn, .. }
        | Point::ReuseStreaming { conn, .. } => q == (Action::Streaming { conn }),
        Point::ZombieOwner { .. } => q is ThreadAlive,
        Point::ZombieStreaming { .. } => q is Streaming,
        Point::Reaped => q == Action::DestroyReaped,
        Point::OwnReconnect { conn, .. } | Point::ReuseReconnect { conn, .. } => q == (
        Action::ClearAndReconnect { conn }),
        Point::ReuseTransaction { conn, .. } => q == (Action::TransactionStatus { conn }),
        Point::ReuseReset { conn: c, .. } => q matches Action::ClearAndReset { conn, .. } && conn
            == c,
        Point::Created { .. } => q is Create,
        Point::Discarded { .. } => q is Destroy,
        Point::Delays => q == Action::RetryDelays,
        Point::Asleep => q is Sleep,
        Point::Over => q is Return,
    }
}

/// The caller was told what the request waits for, and asked about the slot as it is.
pub open spec fn asked_truly(t: Turn) -> bool {
    &&& waits_for(t.acquire.point, t.action)
    &&& t.action matches Action::SameThread { owner } ==> owner == t.pool.slots[slot_at(
        t.acquire.point,
    )->0].owner_thread
    &&& t.action matches Action::ThreadAlive { owner } ==> owner == t.pool.slots[slot_at(
        t.acquire.point,
    )->0].owner_thread
}

/// How a search ends: with a question about a slot that may do, or about none.
proof fn lemma_searches_ask_truly(a: Acquire, p: PoolState, th: PoolThread, from: int)
    requires
        pool_ok(p),
        a.size <= POOL_SIZE_MAX,
        0 <= from,
    ensures
        asked_truly(from_failed(a, p, th, from)),
        asked_truly(from_empty(a, p, th, from)),
        asked_truly(from_reuse(a, p, th, from)),
        asked_truly(from_own(a, p, th, from)),
        asked_truly(from_overdue(a, p, th, from)),
        asked_truly(from_cache(a, p, th)),
{
    reveal(grow);
    reveal(from_failed);
    reveal(from_empty);
    reveal(from_reuse);
    reveal(from_own);
    reveal(reap);
    reveal(from_overdue);
    reveal(from_cache);
    lemma_found(a, p, from);
    lemma_found(a, p, 0);
}

/// A request waits for the answer to what the caller was told to do, and asks about the owner that
/// the slot has.
#[verifier::rlimit(60)]
#[verifier::spinoff_prover]
pub proof fn law_question_is_remembered(a: Acquire, p: PoolState, th: PoolThread, r: Answer)
    requires
        a.wf(),
        pool_ok(p),
    ensures
        asked_truly(after(a, p, th, r)),
        asked_truly(from_cache(a, p, th)),
{
    let th2 = PoolThread { cache: pool::empty_cache(), ..th };
    let q = settled_pool(a, p, r.yes, r.conn);
    lemma_searches_ask_truly(a, p, th, 0);
    lemma_searches_ask_truly(a, p, th2, 0);
    match slot_at(a.point) {
        Some(i) => {
            assert(p.slots.update(i, p.slots[i]) =~= p.slots);
            lemma_searches_ask_truly(a, p, th, i + 1);
            lemma_searches_ask_truly(a, q, th, i + 1);
            lemma_searches_ask_truly(a, q, th, 0);
        },
        None => {
            let b = Acquire { now: r.now, size: p.size as usize, retried: true, ..a };
            lemma_searches_ask_truly(b, p, th, 0);
        },
    }
}

/// A connection that a result is being streamed over is not handed out: right after the caller said
/// so, the request goes on with something else, and a slot in use that holds the connection is left
/// as it is.
pub proof fn law_streaming_connections_are_left_alone(
    a: Acquire,
    p: PoolState,
    th: PoolThread,
    r: Answer,
    busy: usize,
)
    requires
        a.wf(),
        pool_ok(p),
        waits_for(a.point, Action::Streaming { conn: busy }),
        r.yes,
    ensures
        !(after(a, p, th, r).action is Return),
        slot_at(a.point) is Some,
        ({
            let i = slot_at(a.point)->0;
            p.slots[i].state != SLOT_FREE && p.slots[i].state != SLOT_ERROR ==> after(
                a,
                p,
                th,
                r,
            ).pool.slots[i] == p.slots[i]
        }),
        a.point is FastStreaming ==> after(a, p, th, r).thread.cache.slot_index == u32::MAX,
{
    let th2 = PoolThread { cache: pool::empty_cache(), ..th };
    let i = slot_at(a.point)->0;
    lemma_searches_ask(a, p, th2, 0);
    lemma_searches_ask(a, p, th, i + 1);
    lemma_searches_gentle(a, p, th2, 0);
    lemma_searches_gentle(a, p, th, i + 1);
    lemma_searches_keep_thread(a, p, th2, 0);
}

/// A search leaves what the thread remembers as it is.
proof fn lemma_searches_keep_thread(a: Acquire, p: PoolState, th: PoolThread, from: int)
    ensures
        from_failed(a, p, th, from).thread == th,
        from_empty(a, p, th, from).thread == th,
        from_reuse(a, p, th, from).thread == th,
        from_own(a, p, th, from).thread == th,
        from_overdue(a, p, th, from).thread == th,
{
    reveal(grow);
    reveal(from_failed);
    reveal(from_empty);
    reveal(from_reuse);
    reveal(from_own);
    reveal(reap);
    reveal(from_overdue);
}

/// A connection is handed out only right after the caller said that it is fit: that nothing is
/// streamed over a connection of the thread's own, that connecting it anew worked, that resetting it
/// worked, or that it was made and is active.
#[verifier::rlimit(60)]
#[verifier::spinoff_prover]
pub proof fn law_only_fit_connections(a: Acquire, p: PoolState, th: PoolThread, r: Answer, c: usize)
    requires
        a.wf(),
        pool_ok(p),
        after(a, p, th, r).action == (Action::Return { conn: c }),
        c != 0,
    ensures
        ({
            ||| !r.yes && (a.point matches Point::FastStreaming { conn, .. } && conn == c)
            ||| !r.yes && (a.point matches Point::OwnStreaming { conn, .. } && conn == c)
            ||| r.yes && waits_for(a.point, Action::ClearAndReconnect { conn: c })
            ||| r.yes && (a.point matches Point::ReuseReset { conn, .. } && conn == c)
            ||| r.yes && a.point is Created && r.conn == c
        }),
{
    let q = settled_pool(a, p, r.yes, r.conn);
    let th2 = PoolThread { cache: pool::empty_cache(), ..th };
    match slot_at(a.point) {
        Some(i) => {
            assert(p.slots.update(i, p.slots[i]) =~= p.slots);
            lemma_searches_ask(a, p, th, i + 1);
            lemma_searches_ask(a, p, th2, 0);
            lemma_searches_ask(a, q, th, i + 1);
        },
        None => {
            let b = Acquire { now: r.now, size: p.size as usize, retried: true, ..a };
            lemma_searches_ask(a, p, th, 0);
            lemma_searches_ask(b, p, th, 0);
        },
    }
}

/// A connection that is fit ends the request, in its slot, which is ready from then on.
pub proof fn law_fit_connections_are_taken(a: Acquire, p: PoolState, th: PoolThread, r: Answer)
    requires
        a.wf(),
        pool_ok(p),
    ensures
        a.point matches Point::FastStreaming { slot, conn } ==> !r.yes ==> after(a, p, th, r).action
            == (Action::Return { conn }) && after(a, p, th, r).pool.slots[slot as int] == (
        PoolSlot { last_used: a.now, ..p.slots[slot as int] }),
        a.point matches Point::OwnStreaming { slot, conn } ==> !r.yes ==> after(a, p, th, r).action
            == (Action::Return { conn }) && after(a, p, th, r).pool.slots[slot as int] == (
        PoolSlot { last_used: a.now, ..p.slots[slot as int] }),
        a.point matches Point::OwnReconnect { slot, conn } ==> r.yes ==> after(a, p, th, r).action
            == (Action::Return { conn }) && after(a, p, th, r).pool.slots[slot as int] == (
        PoolSlot { last_used: a.now, state: 2, ..p.slots[slot as int] }),
        a.point matches Point::ReuseReset { slot, conn } ==> r.yes ==> after(a, p, th, r).action
            == (Action::Return { conn }) && after(a, p, th, r).pool.slots[slot as int] == (
        PoolSlot { state: 2, ..p.slots[slot as int] }),
        a.point matches Point::ReuseReconnect { slot, conn } ==> r.yes ==> after(a, p, th, r).action
            == (Action::Return { conn }) && after(a, p, th, r).pool.slots[slot as int] == (
        PoolSlot { last_used: a.now, state: 2, ..p.slots[slot as int] }),
        a.point matches Point::Created { slot, .. } ==> r.yes && r.conn != 0 ==> after(
            a,
            p,
            th,
            r,
        ).action == (Action::Return { conn: r.conn }) && after(a, p, th, r).pool.slots[slot as int]
            == (PoolSlot { conn: r.conn, state: 2, ..p.slots[slot as int] }),
{
}

/// The other slots are left alone where a request ends.
#[verifier::rlimit(60)]
#[verifier::spinoff_prover]
pub proof fn law_an_end_touches_one_slot(a: Acquire, p: PoolState, th: PoolThread, r: Answer, j: int)
    requires
        a.wf(),
        pool_ok(p),
        after(a, p, th, r).action is Return,
        0 <= j < POOL_SIZE_MAX,
        slot_at(a.point) != Some(j),
    ensures
        after(a, p, th, r).pool.slots[j] == p.slots[j],
        after(a, p, th, r).pool.size == p.size,
        after(a, p, th, r).reaped.len() == 0,
{
    let q = settled_pool(a, p, r.yes, r.conn);
    let th2 = PoolThread { cache: pool::empty_cache(), ..th };
    match slot_at(a.point) {
        Some(i) => {
            assert(p.slots.update(i, p.slots[i]) =~= p.slots);
            lemma_searches_ask(a, p, th, i + 1);
            lemma_searches_ask(a, p, th2, 0);
            lemma_searches_ask(a, q, th, i + 1);
        },
        None => {
            let b = Acquire { now: r.now, size: p.size as usize, retried: true, ..a };
            lemma_searches_ask(a, p, th, 0);
            lemma_searches_ask(b, p, th, 0);
        },
    }
}

/// A connection of the thread's own is looked at in this order: whose the slot is, whether the
/// connection is in order, whether a result is streamed over it. One that is not the thread's, or
/// not in order, is never asked about further.
#[verifier::rlimit(60)]
#[verifier::spinoff_prover]
pub proof fn law_own_connections_are_checked(a: Acquire, p: PoolState, th: PoolThread, r: Answer)
    requires
        a.wf(),
        pool_ok(p),
    ensures
        after(a, p, th, r).acquire.point matches Point::FastOk { slot, conn } ==> a.point == (
        Point::FastOwner { slot }) && r.yes && conn == p.slots[slot as int].conn && conn != 0,
        after(a, p, th, r).acquire.point matches Point::OwnOk { slot, conn } ==> a.point == (
        Point::OwnOwner { slot }) && r.yes && conn == p.slots[slot as int].conn && conn != 0,
        after(a, p, th, r).acquire.point matches Point::FastStreaming { slot, conn } ==> a.point
            == (Point::FastOk { slot, conn }) && r.yes,
        after(a, p, th, r).acquire.point matches Point::OwnStreaming { slot, conn } ==> a.point
            == (Point::OwnOk { slot, conn }) && r.yes,
        a.point matches Point::FastOwner { slot } ==> r.yes && p.slots[slot as int].conn != 0
            ==> after(a, p, th, r).action == (Action::ConnectionOk {
            conn: p.slots[slot as int].conn,
        }),
        a.point matches Point::OwnOwner { slot } ==> r.yes && p.slots[slot as int].conn != 0
            ==> after(a, p, th, r).action == (Action::ConnectionOk {
            conn: p.slots[slot as int].conn,
        }),
        (a.point is FastOk || a.point is OwnOk) && r.yes ==> after(a, p, th, r).action is Streaming,
{
    let q = settled_pool(a, p, r.yes, r.conn);
    let th2 = PoolThread { cache: pool::empty_cache(), ..th };
    match slot_at(a.point) {
        Some(i) => {
            assert(p.slots.update(i, p.slots[i]) =~= p.slots);
            lemma_searches_start_over(a, p, th, i + 1);
            lemma_searches_start_over(a, p, th2, 0);
            lemma_searches_start_over(a, q, th, i + 1);
        },
        None => {
            let b = Acquire { now: r.now, size: p.size as usize, retried: true, ..a };
            lemma_searches_start_over(a, p, th, 0);
            lemma_searches_start_over(b, p, th, 0);
        },
    }
}

/// A search ends with the first question about a slot, with a new connection, or with a wait.
proof fn lemma_searches_start_over(a: Acquire, p: PoolState, th: PoolThread, from: int)
    requires
        pool_ok(p),
        a.size <= POOL_SIZE_MAX,
        0 <= from,
    ensures
        starts_over(from_failed(a, p, th, from)),
        starts_over(from_empty(a, p, th, from)),
        starts_over(from_reuse(a, p, th, from)),
        starts_over(from_own(a, p, th, from)),
        starts_over(from_overdue(a, p, th, from)),
        starts_over(from_cache(a, p, th)),
{
    reveal(grow);
    reveal(from_failed);
    reveal(from_empty);
    reveal(from_reuse);
    reveal(from_own);
    reveal(reap);
    reveal(from_overdue);
    reveal(from_cache);
}

/// The request is at the first question about a slot, at a new connection, or at a wait.
pub open spec fn starts_over(t: Turn) -> bool {
    match t.acquire.point {
        Point::FastOwner { .. } | Point::ZombieOwner { .. } | Point::Reaped | Point::OwnOwner { .. }
        | Point::ReuseStreaming { .. } | Point::Created { .. } | Point::Delays => true,
        _ => false,
    }
}

/// A connection of the thread's own that is not in order is connected anew, while its slot says so;
/// if that fails, the slot is in error and there is no connection.
pub proof fn law_broken_connections_are_repaired(
    a: Acquire,
    p: PoolState,
    th: PoolThread,
    r: Answer,
)
    requires
        a.wf(),
        pool_ok(p),
    ensures
        a.point matches Point::OwnOk { slot, conn } ==> !r.yes && p.slots[slot as int].state == 2
            ==> after(a, p, th, r).action == (Action::ClearAndReconnect { conn }) && after(
            a,
            p,
            th,
            r,
        ).pool.slots[slot as int] == (PoolSlot { state: 3, ..p.slots[slot as int] }),
        a.point matches Point::OwnReconnect { slot, conn } ==> !r.yes ==> after(a, p, th, r).action
            == (Action::Return { conn: 0 }) && after(a, p, th, r).pool.slots[slot as int] == (
        PoolSlot { state: 4, ..p.slots[slot as int] }),
        a.point matches Point::ReuseReset { slot, conn } ==> !r.yes ==> after(a, p, th, r).action
            == (Action::ClearAndReconnect { conn }),
{
}

/// A free connection is claimed before it is used, with its slot in the next generation; a
/// transaction that is open on it is committed, one that has failed is rolled back, and then the
/// connection is reset.
#[verifier::rlimit(60)]
#[verifier::spinoff_prover]
pub proof fn law_free_connections_are_cleaned(
    a: Acquire,
    p: PoolState,
    th: PoolThread,
    r: Answer,
    slot: usize,
    conn: usize,
)
    requires
        a.wf(),
        pool_ok(p),
    ensures
        a.point == (Point::ReuseStreaming { slot, conn }) && !r.yes && p.slots[slot as int].state
            == 0 ==> ({
            let t = after(a, p, th, r);
            let s = t.pool.slots[slot as int];
            &&& t.action == (Action::TransactionStatus { conn })
            &&& s.state == 1
            &&& s.owner_thread == a.thread
            &&& s.last_used == a.now
            &&& s.conn == p.slots[slot as int].conn
            &&& s.generation != p.slots[slot as int].generation
        }),
        a.point == (Point::ReuseTransaction { slot, conn }) ==> after(a, p, th, r).action == (
        Action::ClearAndReset {
            conn,
            cleanup: if r.status == 2 {
                Cleanup::Commit
            } else if r.status == 3 {
                Cleanup::Rollback
            } else {
                Cleanup::Nothing
            },
        }),
        after(a, p, th, r).acquire.point is ReuseTransaction ==> a.point is ReuseStreaming && !r.yes
            && p.slots[slot_at(a.point)->0].state == 0,
{
    let q = settled_pool(a, p, r.yes, r.conn);
    let th2 = PoolThread { cache: pool::empty_cache(), ..th };
    match slot_at(a.point) {
        Some(i) => {
            assert(p.slots.update(i, p.slots[i]) =~= p.slots);
            lemma_searches_start_over(a, p, th, i + 1);
            lemma_searches_start_over(a, p, th2, 0);
            lemma_searches_start_over(a, q, th, i + 1);
        },
        None => {
            let b = Acquire { now: r.now, size: p.size as usize, retried: true, ..a };
            lemma_searches_start_over(a, p, th, 0);
            lemma_searches_start_over(b, p, th, 0);
        },
    }
}

/// A connection is taken from a thread only where it has not been used for longer than the idle
/// time, the thread is said to be gone, and nothing is streamed over it.
pub proof fn law_only_the_gone_lose_their_slots(
    a: Acquire,
    p: PoolState,
    th: PoolThread,
    r: Answer,
    j: int,
)
    requires
        a.wf(),
        pool_ok(p),
        0 <= j < POOL_SIZE_MAX,
        p.slots[j].state == 2,
        after(a, p, th, r).pool.slots[j].state != 2,
        after(a, p, th, r).pool.slots[j].state != 3,
        !(a.point is OwnReconnect),
        !(a.point is ReuseReconnect),
        !(a.point is Created),
        !(a.point is Discarded),
    ensures
        !r.yes,
        (a.point == (Point::ZombieOwner { slot: j as usize }) && p.slots[j].conn == 0) || a.point
            == (Point::ZombieStreaming { slot: j as usize }),
{
    lemma_turn_is_gentle(a, p, th, r.yes, r.status, r.conn, r.now, r.delays);
}

/// Only a slot that was not used for longer than the idle time is asked about, whether its thread is
/// gone; and what is streamed over it is asked only where the thread is.
#[verifier::rlimit(60)]
#[verifier::spinoff_prover]
pub proof fn law_only_the_overdue_are_asked_about(
    a: Acquire,
    p: PoolState,
    th: PoolThread,
    r: Answer,
)
    requires
        a.wf(),
        pool_ok(p),
    ensures
        ({
            let t = after(a, p, th, r);
            &&& t.acquire.point matches Point::ZombieOwner { slot } ==> t.pool.slots[slot as int].state
                == 2 && t.acquire.now - t.pool.slots[slot as int].last_used > p.timeout
            &&& t.acquire.point matches Point::ZombieStreaming { slot } ==> a.point == (
            Point::ZombieOwner { slot }) && !r.yes && t.action == (Action::Streaming {
                conn: p.slots[slot as int].conn,
            }) && p.slots[slot as int].conn != 0
        }),
{
    let q = settled_pool(a, p, r.yes, r.conn);
    let th2 = PoolThread { cache: pool::empty_cache(), ..th };
    match slot_at(a.point) {
        Some(i) => {
            assert(p.slots.update(i, p.slots[i]) =~= p.slots);
            lemma_searches_overdue(a, p, th, i + 1);
            lemma_searches_overdue(a, p, th2, 0);
            lemma_searches_overdue(a, q, th, i + 1);
        },
        None => {
            let b = Acquire { now: r.now, size: p.size as usize, retried: true, ..a };
            lemma_searches_overdue(a, p, th, 0);
            lemma_searches_overdue(b, p, th, 0);
        },
    }
}

/// A search asks about the thread of an overdue slot only.
proof fn lemma_searches_overdue(a: Acquire, p: PoolState, th: PoolThread, from: int)
    requires
        pool_ok(p),
        a.size <= POOL_SIZE_MAX,
        0 <= from,
    ensures
        asks_overdue(from_failed(a, p, th, from)),
        asks_overdue(from_empty(a, p, th, from)),
        asks_overdue(from_reuse(a, p, th, from)),
        asks_overdue(from_own(a, p, th, from)),
        asks_overdue(from_overdue(a, p, th, from)),
        asks_overdue(from_cache(a, p, th)),
        from_failed(a, p, th, from).pool.timeout == p.timeout,
        from_empty(a, p, th, from).pool.timeout == p.timeout,
        from_reuse(a, p, th, from).pool.timeout == p.timeout,
        from_own(a, p, th, from).pool.timeout == p.timeout,
        from_overdue(a, p, th, from).pool.timeout == p.timeout,
        from_cache(a, p, th).pool.timeout == p.timeout,
{
    reveal(grow);
    reveal(from_failed);
    reveal(from_empty);
    reveal(from_reuse);
    reveal(from_own);
    reveal(reap);
    reveal(from_overdue);
    reveal(from_cache);
    lemma_found(a, p, from);
    lemma_found(a, p, 0);
}

/// What is asked about a thread that may be gone is asked about an overdue slot.
pub open spec fn asks_overdue(t: Turn) -> bool {
    &&& !(t.acquire.point is ZombieStreaming)
    &&& t.acquire.point matches Point::ZombieOwner { slot } ==> t.pool.slots[slot as int].state == 2
        && t.acquire.now - t.pool.slots[slot as int].last_used > t.pool.timeout
}

/// A search for idle connections is made where the last one was at least a minute ago, and then
/// there is none for a minute; connections are handed over to be closed only by it.
#[verifier::rlimit(60)]
#[verifier::spinoff_prover]
pub proof fn law_reaping_once_a_minute(a: Acquire, p: PoolState, th: PoolThread, r: Answer)
    requires
        a.wf(),
        pool_ok(p),
    ensures
        ({
            let t = after(a, p, th, r);
            &&& t.action == Action::DestroyReaped ==> t.acquire.now - p.last_reap >= 60
                && t.pool.last_reap == t.acquire.now
            &&& t.action != Action::DestroyReaped ==> t.reaped.len() == 0 && t.pool.last_reap
                == p.last_reap
        }),
{
    let q = settled_pool(a, p, r.yes, r.conn);
    let th2 = PoolThread { cache: pool::empty_cache(), ..th };
    match slot_at(a.point) {
        Some(i) => {
            assert(p.slots.update(i, p.slots[i]) =~= p.slots);
            lemma_searches_reap(a, p, th, i + 1);
            lemma_searches_reap(a, p, th2, 0);
            lemma_searches_reap(a, q, th, i + 1);
        },
        None => {
            let b = Acquire { now: r.now, size: p.size as usize, retried: true, ..a };
            lemma_searches_reap(a, p, th, 0);
            lemma_searches_reap(b, p, th, 0);
        },
    }
}

proof fn lemma_searches_reap(a: Acquire, p: PoolState, th: PoolThread, from: int)
    ensures
        reaps_rightly(p, from_failed(a, p, th, from)),
        reaps_rightly(p, from_empty(a, p, th, from)),
        reaps_rightly(p, from_reuse(a, p, th, from)),
        reaps_rightly(p, from_own(a, p, th, from)),
        reaps_rightly(p, from_overdue(a, p, th, from)),
        reaps_rightly(p, from_cache(a, p, th)),
{
    reveal(grow);
    reveal(from_failed);
    reveal(from_empty);
    reveal(from_reuse);
    reveal(from_own);
    reveal(reap);
    reveal(from_overdue);
    reveal(from_cache);
}

/// Connections are handed over to be closed at least a minute after the last time only.
pub open spec fn reaps_rightly(p: PoolState, t: Turn) -> bool {
    &&& t.action == Action::DestroyReaped ==> t.acquire.now - p.last_reap >= 60 && t.pool.last_reap
        == t.acquire.now
    &&& t.action != Action::DestroyReaped ==> t.reaped.len() == 0 && t.pool.last_reap == p.last_reap
}

/// A new connection is made in a slot that the thread has claimed; what it replaces is the
/// connection of a slot in error, and nothing else.
#[verifier::rlimit(60)]
#[verifier::spinoff_prover]
pub proof fn law_new_connections_are_claimed(a: Acquire, p: PoolState, th: PoolThread, r: Answer, old_conn: usize)
    requires
        a.wf(),
        pool_ok(p),
        after(a, p, th, r).action == (Action::Create { old: old_conn }),
    ensures
        ({
            let t = after(a, p, th, r);
            let i = slot_at(t.acquire.point)->0;
            &&& t.acquire.point is Created
            &&& t.pool.slots[i].state == 1
            &&& t.pool.slots[i].owner_thread == a.thread
            &&& t.pool.slots[i].last_used == t.acquire.now
            &&& old_conn != 0 ==> t.pool.slots[i].conn == 0
            &&& slot_at(a.point) != Some(i) ==> (p.slots[i].state == 4 && old_conn
                == p.slots[i].conn) || (p.slots[i].state == 0 && old_conn == 0)
        }),
{
    let q = settled_pool(a, p, r.yes, r.conn);
    let th2 = PoolThread { cache: pool::empty_cache(), ..th };
    match slot_at(a.point) {
        Some(i) => {
            assert(p.slots.update(i, p.slots[i]) =~= p.slots);
            lemma_searches_claim(a, p, th, i + 1);
            lemma_searches_claim(a, p, th2, 0);
            lemma_searches_claim(a, q, th, i + 1);
            let t = after(a, p, th, r);
            match a.point {
                Point::FastOwner { .. } | Point::FastOk { .. } | Point::FastStreaming { .. } => {
                    assert(claims_rightly(a, p, t));
                },
                Point::ZombieOwner { .. } | Point::ZombieStreaming { .. } => {
                    assert(claims_rightly(a, q, t));
                },
                Point::OwnOwner { .. } | Point::OwnOk { .. } | Point::OwnStreaming { .. } => {
                    assert(claims_rightly(a, p, t));
                },
                Point::ReuseStreaming { .. } | Point::ReuseReconnect { .. } => {
                    assert(claims_rightly(a, q, t));
                },
                Point::Created { .. } => {
                    assert(claims_rightly(a, q, t));
                },
                Point::Discarded { .. } => {
                    assert(claims_rightly(a, q, t));
                },
                _ => {},
            }
        },
        None => {
            let b = Acquire { now: r.now, size: p.size as usize, retried: true, ..a };
            lemma_searches_claim(a, p, th, 0);
            lemma_searches_claim(b, p, th, 0);
        },
    }
}

proof fn lemma_searches_claim(a: Acquire, p: PoolState, th: PoolThread, from: int)
    requires
        pool_ok(p),
        a.size <= POOL_SIZE_MAX,
        0 <= from,
    ensures
        claims_rightly(a, p, from_failed(a, p, th, from)),
        claims_rightly(a, p, from_empty(a, p, th, from)),
        claims_rightly(a, p, from_reuse(a, p, th, from)),
        claims_rightly(a, p, from_own(a, p, th, from)),
        claims_rightly(a, p, from_overdue(a, p, th, from)),
        claims_rightly(a, p, from_cache(a, p, th)),
{
    reveal(grow);
    reveal(from_failed);
    reveal(from_empty);
    reveal(from_reuse);
    reveal(from_own);
    reveal(reap);
    reveal(from_overdue);
    reveal(from_cache);
    lemma_found(a, p, from);
    lemma_found(a, p, 0);
}

/// Where a connection is to be made, it is to be made in a free slot or one in error that was
/// claimed.
pub open spec fn claims_rightly(a: Acquire, p: PoolState, t: Turn) -> bool {
    t.action matches Action::Create { old } ==> {
        let i = slot_at(t.acquire.point)->0;
        let s = t.pool.slots[i];
        &&& t.acquire.point is Created
        &&& i < POOL_SIZE_MAX
        &&& s.state == 1
        &&& s.owner_thread == a.thread
        &&& s.last_used == t.acquire.now
        &&& old != 0 ==> s.conn == 0
        &&& (p.slots[i].state == 4 && old == p.slots[i].conn) || (p.slots[i].state == 0 && old
            == 0)
    }
}

/// A connection that is not active is closed, and its slot given back free and empty.
pub proof fn law_failed_connections_are_closed(
    a: Acquire,
    p: PoolState,
    th: PoolThread,
    r: Answer,
    slot: usize,
    origin: Origin,
)
    requires
        a.wf(),
        pool_ok(p),
        a.size <= p.size,
        slot < p.size,
    ensures
        a.point == (Point::Created { slot, origin }) && r.conn != 0 && !r.yes ==> after(
            a,
            p,
            th,
            r,
        ).action == (Action::Destroy { conn: r.conn }),
        a.point == (Point::Created { slot, origin }) && r.conn == 0 ==> ({
            let s = after(a, p, th, r).pool.slots[slot as int];
            s.conn == 0 && s.owner_thread == 0 && s.state == 0
        }),
        a.point == (Point::Discarded { slot, origin }) ==> ({
            let s = after(a, p, th, r).pool.slots[slot as int];
            s.conn == 0 && s.owner_thread == 0 && s.state == 0
        }),
{
    let s = PoolSlot { conn: 0, owner_thread: 0, state: SLOT_FREE, ..p.slots[slot as int] };
    let q = with_slot(p, slot as int, s);
    reveal(grow);
    reveal(from_failed);
    reveal(from_empty);
    lemma_found(a, q, slot + 1);
    lemma_found(a, q, 0);
}

/// After a wait the pool is looked at anew, as it is then; and a connection that a new try gave sets
/// the count of tries back. Where no wait is left, there is no connection, and counting starts anew.
#[verifier::rlimit(60)]
#[verifier::spinoff_prover]
pub proof fn law_waits_begin_anew(a: Acquire, p: PoolState, th: PoolThread, r: Answer)
    requires
        a.wf(),
        pool_ok(p),
        r.delays.len() <= usize::MAX,
    ensures
        a.point == Point::Asleep ==> after(a, p, th, r) == from_cache(
            Acquire { now: r.now, size: p.size as usize, retried: true, ..a },
            p,
            th,
        ),
        a.point == Point::Delays && th.retry_count >= r.delays.len() ==> after(a, p, th, r).action
            == (Action::Return { conn: 0 }) && after(a, p, th, r).thread.retry_count == 0,
        a.point == Point::Delays && th.retry_count < r.delays.len() ==> after(a, p, th, r).action
            == (Action::Sleep { ms: r.delays[th.retry_count as int] }),
        a.point != Point::Delays ==> (after(a, p, th, r).action matches Action::Return { conn }
            ==> conn != 0 && a.retried ==> after(a, p, th, r).thread.retry_count == 0),
        a.point != Point::Delays && !a.retried && after(a, p, th, r).action is Return ==> after(
            a,
            p,
            th,
            r,
        ).thread.retry_count == th.retry_count,
{
    let q = settled_pool(a, p, r.yes, r.conn);
    let th2 = PoolThread { cache: pool::empty_cache(), ..th };
    match slot_at(a.point) {
        Some(i) => {
            assert(p.slots.update(i, p.slots[i]) =~= p.slots);
            lemma_searches_ask(a, p, th, i + 1);
            lemma_searches_ask(a, p, th2, 0);
            lemma_searches_ask(a, q, th, i + 1);
        },
        None => {
            let b = Acquire { now: r.now, size: p.size as usize, retried: true, ..a };
            lemma_searches_ask(a, p, th, 0);
            lemma_searches_ask(b, p, th, 0);
        },
    }
}

/// No slot is passed over: what the search for the thread's own slots, for connections to be used
/// again, for empty slots and for slots in error comes to is the first such slot from where the
/// search goes on, and the next search begins only where there is none.
pub proof fn law_no_slot_is_passed_over(a: Acquire, p: PoolState, th: PoolThread, from: int)
    requires
        pool_ok(p),
        a.size <= POOL_SIZE_MAX,
        0 <= from <= a.size,
    ensures
        ({
            let t = from_own(a, p, th, from);
            &&& t.acquire.point matches Point::OwnOwner { slot } ==> from <= slot && (forall|j: int|
                from <= j < slot ==> (#[trigger] p.slots[j]).state != 2) && p.slots[slot as int].state
                == 2
            &&& !(t.acquire.point is OwnOwner) ==> t == from_reuse(a, p, th, 0) && (forall|j: int|
                from <= j < a.size ==> (#[trigger] p.slots[j]).state != 2)
        }),
        ({
            let t = from_reuse(a, p, th, from);
            &&& t.acquire.point matches Point::ReuseStreaming { slot, conn } ==> from <= slot && (
            forall|j: int| from <= j < slot ==> (#[trigger] p.slots[j]).conn == 0) && conn
                == p.slots[slot as int].conn && conn != 0
            &&& !(t.acquire.point is ReuseStreaming) ==> t == from_empty(a, p, th, 0) && (forall|
                j: int,
            |
                from <= j < a.size ==> (#[trigger] p.slots[j]).conn == 0)
        }),
        ({
            let t = from_empty(a, p, th, from);
            &&& t.acquire.point matches Point::Created { slot, origin: Origin::Empty } ==> from
                <= slot && (forall|j: int|
                from <= j < slot ==> !((#[trigger] p.slots[j]).conn == 0 && p.slots[j].state == 0))
            &&& !(t.acquire.point matches Point::Created { origin: Origin::Empty, .. }) ==> t
                == from_failed(a, p, th, 0) && (forall|j: int|
                from <= j < a.size ==> !((#[trigger] p.slots[j]).conn == 0 && p.slots[j].state
                    == 0))
        }),
        ({
            let t = from_failed(a, p, th, from);
            &&& t.acquire.point matches Point::Created { slot, origin: Origin::Failed } ==> from
                <= slot && (forall|j: int|
                from <= j < slot ==> (#[trigger] p.slots[j]).state != 4)
            &&& !(t.acquire.point matches Point::Created { origin: Origin::Failed, .. }) ==> (forall|
                j: int,
            |
                from <= j < a.size ==> (#[trigger] p.slots[j]).state != 4) && (t.action
                == Action::RetryDelays ==> p.size == POOL_SIZE_MAX || p.slots[p.size].state != 0)
                && (p.size < POOL_SIZE_MAX ==> t.pool.size == p.size + 1)
        }),
{
    reveal(grow);
    reveal(from_failed);
    reveal(from_empty);
    reveal(from_reuse);
    reveal(from_own);
    let n = a.size as int;
    let ready = |i: int| p.slots[i].state == SLOT_READY;
    let holding = |i: int| p.slots[i].conn != 0;
    let empty = |i: int| p.slots[i].conn == 0 && p.slots[i].state == SLOT_FREE;
    let failed = |i: int| p.slots[i].state == SLOT_ERROR;
    lemma_found(a, p, from);
    lemma_found(a, p, 0);
    search::lemma_first_index(ready, from, n);
    search::lemma_first_index(holding, from, n);
    search::lemma_first_index(empty, from, n);
    search::lemma_first_index(failed, from, n);
    assert forall|j: int| from <= j < n implies #[trigger] p.slots[j] == p.slots[j] && ready(j) == (
    p.slots[j].state == 2) && holding(j) == (p.slots[j].conn != 0) && empty(j) == (p.slots[j].conn
        == 0 && p.slots[j].state == 0) && failed(j) == (p.slots[j].state == 4) by {}
}

/// Where a search goes on: behind the slot that did not do, and from the start once a remembered
/// slot did not do.
pub proof fn law_searches_go_on(a: Acquire, p: PoolState, th: PoolThread, r: Answer)
    requires
        a.wf(),
        pool_ok(p),
    ensures
        a.point == Point::Reaped ==> after(a, p, th, r) == from_own(a, p, th, 0),
        a.point matches Point::OwnOwner { slot } ==> !r.yes ==> after(a, p, th, r) == from_own(
            a,
            p,
            th,
            slot + 1,
        ),
        a.point matches Point::OwnStreaming { slot, .. } ==> r.yes ==> after(a, p, th, r)
            == from_own(a, p, th, slot + 1),
        a.point matches Point::ReuseStreaming { slot, .. } ==> (r.yes || p.slots[slot as int].state
            != 0) ==> after(a, p, th, r) == from_reuse(a, p, th, slot + 1),
        a.point matches Point::ZombieOwner { slot } ==> r.yes ==> after(a, p, th, r)
            == from_overdue(a, p, th, slot + 1),
        a.point matches Point::ZombieStreaming { slot } ==> r.yes ==> after(a, p, th, r)
            == from_overdue(a, p, th, slot + 1),
        (a.point is FastOwner && !r.yes) || (a.point is FastOk && !r.yes) || (a.point
            is FastStreaming && r.yes) ==> after(a, p, th, r) == from_overdue(
            a,
            p,
            PoolThread { cache: pool::empty_cache(), ..th },
            0,
        ),
{
}

/// A remembered slot is asked about exactly where it is one of the slots, is ready, and is still in
/// the generation in which it is remembered.
pub proof fn law_remembered_slots_come_first(a: Acquire, p: PoolState, th: PoolThread)
    requires
        pool_ok(p),
        a.size <= POOL_SIZE_MAX,
    ensures
        ({
            let i = th.cache.slot_index;
            let fit = th.cache.db_handle == 0 && i < a.size && p.slots[i as int].state == 2
                && p.slots[i as int].generation == th.cache.generation;
            &&& fit ==> from_cache(a, p, th).acquire.point == (Point::FastOwner {
                slot: i as usize,
            })
            &&& !fit ==> !(from_cache(a, p, th).acquire.point is FastOwner)
            &&& !fit && th.cache.db_handle == 0 ==> from_cache(a, p, th).thread.cache.slot_index
                == u32::MAX
        }),
{
    reveal(from_cache);
    let th2 = PoolThread { cache: pool::empty_cache(), ..th };
    lemma_searches_keep_thread(a, p, th2, 0);
    lemma_searches_keep_thread(a, p, th, 0);
    reveal(grow);
    reveal(from_failed);
    reveal(from_empty);
    reveal(from_reuse);
    reveal(from_own);
    reveal(reap);
    reveal(from_overdue);
}

/// A request is made for the thread that makes it, at the time it does, among the slots in use then;
/// nothing is handed out before the caller was asked.
pub proof fn law_beginnings(p: PoolState, th: PoolThread, thread: u64, now: i64, size: usize)
    requires
        pool_ok(p),
        size <= POOL_SIZE_MAX,
    ensures
        request(thread, now, size).thread == thread,
        request(thread, now, size).now == now,
        request(thread, now, size).size == size,
        !request(thread, now, size).retried,
        !(from_cache(request(thread, now, size), p, th).action is Return),
        from_cache(request(thread, now, size), p, th).acquire.thread == thread,
        from_cache(request(thread, now, size), p, th).acquire.now == now,
{
    let a = request(thread, now, size);
    lemma_searches_ask(a, p, th, 0);
    lemma_searches_keep_request(a, p, th);
}

proof fn lemma_searches_keep_request(a: Acquire, p: PoolState, th: PoolThread)
    ensures
        from_cache(a, p, th).acquire.thread == a.thread,
        from_cache(a, p, th).acquire.now == a.now,
        from_cache(a, p, th).acquire.size == a.size,
        from_cache(a, p, th).acquire.retried == a.retried,
{
    reveal(grow);
    reveal(from_failed);
    reveal(from_empty);
    reveal(from_reuse);
    reveal(from_own);
    reveal(reap);
    reveal(from_overdue);
    reveal(from_cache);
}

/// A free connection that can be neither reset nor connected anew is not handed out: its slot is in
/// error, or was claimed again for another connection in its place.
pub proof fn law_hopeless_connections_are_given_up(
    a: Acquire,
    p: PoolState,
    th: PoolThread,
    r: Answer,
    slot: usize,
    conn: usize,
)
    requires
        a.wf(),
        pool_ok(p),
        a.size <= p.size,
        a.point == (Point::ReuseReconnect { slot, conn }),
        p.slots[slot as int].conn == conn,
        conn != 0,
        slot < a.size,
        !r.yes,
    ensures
        ({
            let t = after(a, p, th, r);
            let s = t.pool.slots[slot as int];
            &&& !(t.action is Return)
            &&& (s.state == 4 && s.conn == conn) || (s.state == 1 && s.conn == 0 && t.action == (
            Action::Create { old: conn }))
        }),
{
    let s = PoolSlot { state: SLOT_ERROR, ..p.slots[slot as int] };
    let q = with_slot(p, slot as int, s);
    lemma_searches_ask(a, q, th, slot + 1);
    reveal(grow);
    reveal(from_failed);
    reveal(from_empty);
    reveal(from_reuse);
    lemma_found(a, q, slot + 1);
    lemma_found(a, q, 0);
}

/// Before the thread's own slots are searched, every slot that was not used for longer than the idle
/// time is asked about, and idle connections are taken out of their slots where that was last done a
/// minute ago or more.
pub proof fn law_upkeep_comes_first(a: Acquire, p: PoolState, th: PoolThread, from: int)
    requires
        pool_ok(p),
        a.size <= POOL_SIZE_MAX,
        0 <= from <= a.size,
    ensures
        ({
            let t = from_overdue(a, p, th, from);
            &&& t.acquire.point matches Point::ZombieOwner { slot } ==> from <= slot && slot < a.size
                && (forall|j: int|
                from <= j < slot ==> !((#[trigger] p.slots[j]).state == 2 && a.now
                    - p.slots[j].last_used > p.timeout)) && t.pool == p
            &&& !(t.acquire.point is ZombieOwner) ==> (forall|j: int|
                from <= j < a.size ==> !((#[trigger] p.slots[j]).state == 2 && a.now
                    - p.slots[j].last_used > p.timeout)) && (a.now - p.last_reap >= 60
                ==> t.action == Action::DestroyReaped && t.pool.slots == pool::after_reaping(
                p.slots,
                p.size,
                a.now,
                p.timeout,
            ) && t.reaped == pool::idle_connections(p.slots, p.size, a.now, p.timeout)) && (a.now
                - p.last_reap < 60 ==> t == from_own(a, p, th, 0))
        }),
{
    reveal(from_overdue);
    reveal(reap);
    let n = a.size as int;
    let late = |i: int| overdue(p.slots[i], a.now, p.timeout);
    search::lemma_first_index(late, from, n);
    lemma_searches_start_over(a, p, th, 0);
    reveal(grow);
    reveal(from_failed);
    reveal(from_empty);
    reveal(from_reuse);
    reveal(from_own);
    assert forall|j: int| from <= j < n implies late(j) == ((#[trigger] p.slots[j]).state == 2
        && a.now - p.slots[j].last_used > p.timeout) by {}
}

} // verus!
