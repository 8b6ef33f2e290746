//! The pool of connections: slots, what each thread remembers of its slot, and the operations
//! on the whole pool.

use crate::registry::ConnectionRegistry;
use crate::registry::DbToPool;
use crate::search;
use crate::text;
use vstd::prelude::*;

verus! {

/// A slot that nobody uses; it may still hold a connection.
pub const SLOT_FREE: u8 = 0;

/// A slot that some thread has claimed and is setting up.
pub const SLOT_RESERVED: u8 = 1;

/// A slot whose connection is in use.
pub const SLOT_READY: u8 = 2;

/// A slot whose owner is repairing the connection.
pub const SLOT_RECONNECTING: u8 = 3;

/// A slot whose connection could not be repaired.
pub const SLOT_ERROR: u8 = 4;

/// How many slots there are.
pub const POOL_SIZE_MAX: usize = 200;

/// The largest number of slots that can be asked for. A pool may still grow beyond it.
pub const POOL_SIZE_SETTING_MAX: usize = 100;

/// How many slots are used unless configured otherwise.
pub const POOL_SIZE_DEFAULT: usize = 50;

/// One slot. The connection is an address, zero for none; owner zero is nobody.
#[derive(Clone, Copy, Debug, PartialEq, Eq, Structural)]
pub struct PoolSlot {
    pub conn: usize,
    pub owner_thread: u64,
    pub last_used: i64,
    pub state: u8,
    pub generation: u32,
}

/// The slot moved from state `from` to state `to`, if it was in `from`.
pub open spec fn moved(slot: PoolSlot, from: u8, to: u8) -> PoolSlot {
    if slot.state == from {
        PoolSlot { state: to, ..slot }
    } else {
        slot
    }
}

/// The generation that comes next, going round.
pub open spec fn next_generation(g: u32) -> u32 {
    if g == u32::MAX {
        0
    } else {
        (g + 1) as u32
    }
}

impl PoolSlot {
    /// An empty free slot.
    pub fn new() -> (r: Self)
        ensures
            r == (PoolSlot {
                conn: 0,
                owner_thread: 0,
                last_used: 0,
                state: SLOT_FREE,
                generation: 0,
            }),
    {
        PoolSlot { conn: 0, owner_thread: 0, last_used: 0, state: SLOT_FREE, generation: 0 }
    }

    /// Free to reserved; true if the slot was free.
    pub fn try_claim_free(&mut self) -> (r: bool)
        ensures
            r == (old(self).state == SLOT_FREE),
            *final(self) == moved(*old(self), SLOT_FREE, SLOT_RESERVED),
    {
        if self.state == SLOT_FREE {
            self.state = SLOT_RESERVED;
            true
        } else {
            false
        }
    }

    /// Ready to reconnecting; true if the slot was ready.
    pub fn try_begin_reconnect(&mut self) -> (r: bool)
        ensures
            r == (old(self).state == SLOT_READY),
            *final(self) == moved(*old(self), SLOT_READY, SLOT_RECONNECTING),
    {
        if self.state == SLOT_READY {
            self.state = SLOT_RECONNECTING;
            true
        } else {
            false
        }
    }

    /// Error to reserved; true if the slot was in error.
    pub fn try_reclaim_error(&mut self) -> (r: bool)
        ensures
            r == (old(self).state == SLOT_ERROR),
            *final(self) == moved(*old(self), SLOT_ERROR, SLOT_RESERVED),
    {
        if self.state == SLOT_ERROR {
            self.state = SLOT_RESERVED;
            true
        } else {
            false
        }
    }

    /// Ready to free, for a slot whose owner is gone; true if the slot was ready.
    pub fn try_reclaim_zombie(&mut self) -> (r: bool)
        ensures
            r == (old(self).state == SLOT_READY),
            *final(self) == moved(*old(self), SLOT_READY, SLOT_FREE),
    {
        if self.state == SLOT_READY {
            self.state = SLOT_FREE;
            true
        } else {
            false
        }
    }

    /// The connection is in order.
    pub fn mark_ready(&mut self)
        ensures
            *final(self) == (PoolSlot { state: SLOT_READY, ..*old(self) }),
    {
        self.state = SLOT_READY;
    }

    /// The connection could not be brought in order.
    pub fn mark_error(&mut self)
        ensures
            *final(self) == (PoolSlot { state: SLOT_ERROR, ..*old(self) }),
    {
        self.state = SLOT_ERROR;
    }

    /// Gives the slot back.
    pub fn release(&mut self)
        ensures
            *final(self) == (PoolSlot { owner_thread: 0, state: SLOT_FREE, ..*old(self) }),
    {
        self.owner_thread = 0;
        self.state = SLOT_FREE;
    }

    /// Counts the generation on, so that references to the slot from before are seen to be stale.
    pub fn bump_generation(&mut self)
        ensures
            *final(self) == (PoolSlot {
                generation: next_generation(old(self).generation),
                ..*old(self)
            }),
    {
        self.generation = self.generation.wrapping_add(1);
    }
}

/// What a thread remembers of the slot that it used last. It holds the slot's number and
/// generation, not the connection itself.
#[derive(Clone, Copy, Debug, PartialEq, Eq, Structural)]
pub struct TlsPoolCache {
    pub db_handle: usize,
    pub slot_index: u32,
    pub generation: u32,
}

/// Nothing is remembered.
pub open spec fn empty_cache() -> TlsPoolCache {
    TlsPoolCache { db_handle: 0, slot_index: u32::MAX, generation: 0 }
}

/// What the cache says for a handle.
pub open spec fn cached(cache: TlsPoolCache, db_handle: usize) -> Option<(u32, u32)> {
    if cache.db_handle == db_handle && cache.slot_index != u32::MAX {
        Some((cache.slot_index, cache.generation))
    } else {
        None
    }
}

impl TlsPoolCache {
    /// A cache without a slot.
    pub fn empty() -> (r: Self)
        ensures
            r == empty_cache(),
    {
        TlsPoolCache { db_handle: 0, slot_index: u32::MAX, generation: 0 }
    }

    /// Is there no slot?
    pub fn is_empty(&self) -> (r: bool)
        ensures
            r == (self.slot_index == u32::MAX),
    {
        self.slot_index == u32::MAX
    }
}

/// Remembers a slot for a handle.
pub fn tls_pool_cache_set(
    cache: &mut TlsPoolCache,
    db_handle: usize,
    slot_index: u32,
    generation: u32,
)
    ensures
        *final(cache) == (TlsPoolCache { db_handle, slot_index, generation }),
{
    *cache = TlsPoolCache { db_handle, slot_index, generation };
}

/// The slot and generation remembered for a handle.
pub fn tls_pool_cache_get(cache: &TlsPoolCache, db_handle: usize) -> (r: Option<(u32, u32)>)
    ensures
        r == cached(*cache, db_handle),
{
    if cache.db_handle == db_handle && !cache.is_empty() {
        Some((cache.slot_index, cache.generation))
    } else {
        None
    }
}

/// Forgets the slot.
pub fn tls_pool_cache_clear(cache: &mut TlsPoolCache)
    ensures
        *final(cache) == empty_cache(),
{
    *cache = TlsPoolCache::empty();
}

/// The file name that the library's database has.
pub open spec fn is_library(path: Seq<char>) -> bool {
    text::has_suffix(path, "com.plexapp.plugins.library.db"@)
}

/// Is this the path of the library's database?
pub fn is_library_db(path: &str) -> (r: bool)
    ensures
        r == is_library(path@),
{
    text::ends_with(path, "com.plexapp.plugins.library.db")
}

/// The whole pool. Only the first `configured_size` of the slots are in use.
pub struct PoolManager {
    pub slots: Vec<PoolSlot>,
    pub configured_size: usize,
    pub idle_timeout_secs: u32,
    pub library_db_path: Option<String>,
    pub last_reap_time: i64,
    pub init_pid: u32,
    pub registry: ConnectionRegistry,
    pub db_to_pool: DbToPool,
    pub global_metadata_id: i64,
    pub global_last_insert_rowid: i64,
}

/// The slot belongs to nobody, holds a connection, and was not used for `timeout` seconds.
pub open spec fn idle(slot: PoolSlot, now: i64, timeout: u32) -> bool {
    slot.state == SLOT_FREE && slot.conn != 0 && now - slot.last_used >= timeout
}

/// An idle slot without its connection, in its next generation.
pub open spec fn reaped(slot: PoolSlot) -> PoolSlot {
    PoolSlot {
        conn: 0,
        owner_thread: 0,
        generation: next_generation(slot.generation),
        ..slot
    }
}

/// The first `n` slots with the idle ones emptied.
pub open spec fn after_reaping(slots: Seq<PoolSlot>, n: int, now: i64, timeout: u32) -> Seq<
    PoolSlot,
> {
    Seq::new(
        slots.len(),
        |i: int|
            if i < n && idle(slots[i], now, timeout) {
                reaped(slots[i])
            } else {
                slots[i]
            },
    )
}

/// Number and connection of the idle ones among the first `n` slots, in order.
pub open spec fn idle_connections(slots: Seq<PoolSlot>, n: int, now: i64, timeout: u32) -> Seq<
    (usize, usize),
>
    decreases n,
{
    if n <= 0 {
        Seq::empty()
    } else if idle(slots[n - 1], now, timeout) {
        idle_connections(slots, n - 1, now, timeout).push(((n - 1) as usize, slots[n - 1].conn))
    } else {
        idle_connections(slots, n - 1, now, timeout)
    }
}

/// A slot as a child process starts with it: empty, in its next generation.
pub open spec fn reset(slot: PoolSlot) -> PoolSlot {
    PoolSlot {
        conn: 0,
        owner_thread: 0,
        last_used: 0,
        state: SLOT_FREE,
        generation: next_generation(slot.generation),
    }
}

/// A slot after the pool was taken down.
pub open spec fn torn_down(slot: PoolSlot) -> PoolSlot {
    PoolSlot { conn: 0, owner_thread: 0, state: SLOT_FREE, generation: 0, ..slot }
}

/// The connections in the first `n` slots, in order.
pub open spec fn connections(slots: Seq<PoolSlot>, n: int) -> Seq<usize>
    decreases n,
{
    if n <= 0 {
        Seq::empty()
    } else if slots[n - 1].conn != 0 {
        connections(slots, n - 1).push(slots[n - 1].conn)
    } else {
        connections(slots, n - 1)
    }
}

/// The first of the first `n` slots that holds the connection.
pub open spec fn holder(slots: Seq<PoolSlot>, n: int, conn: usize) -> Option<int> {
    search::first_index(|i: int| slots[i].conn == conn, 0, n)
}

/// No slot before the one that `holder` finds holds the connection.
pub proof fn lemma_holder(slots: Seq<PoolSlot>, n: int, conn: usize)
    ensures
        match holder(slots, n, conn) {
            Some(i) => 0 <= i < n && slots[i].conn == conn && forall|k: int|
                0 <= k < i ==> (#[trigger] slots[k]).conn != conn,
            None => forall|k: int| 0 <= k < n ==> (#[trigger] slots[k]).conn != conn,
        },
{
    let p = |i: int| slots[i].conn == conn;
    search::lemma_first_index(p, 0, n);
    assert forall|k: int| !p(k) implies (#[trigger] slots[k]).conn != conn by {}
}

impl PoolManager {
    /// All slots are there, and no more of them are in use than there are.
    pub open spec fn wf(&self) -> bool {
        &&& self.slots@.len() == POOL_SIZE_MAX
        &&& self.configured_size <= POOL_SIZE_MAX
    }

    /// Everything but the slots.
    pub open spec fn same_settings(&self, other: &Self) -> bool {
        &&& self.configured_size == other.configured_size
        &&& self.idle_timeout_secs == other.idle_timeout_secs
        &&& self.library_db_path == other.library_db_path
        &&& self.last_reap_time == other.last_reap_time
        &&& self.init_pid == other.init_pid
        &&& self.registry == other.registry
        &&& self.db_to_pool == other.db_to_pool
        &&& self.global_metadata_id == other.global_metadata_id
        &&& self.global_last_insert_rowid == other.global_last_insert_rowid
    }

    /// A pool of empty slots that belongs to the process `pid`.
    pub fn new(pool_size: usize, pid: u32) -> (r: Self)
        requires
            pool_size <= POOL_SIZE_MAX,
        ensures
            r.wf(),
            forall|i: int|
                0 <= i < POOL_SIZE_MAX ==> #[trigger] r.slots@[i] == (PoolSlot {
                    conn: 0,
                    owner_thread: 0,
                    last_used: 0,
                    state: SLOT_FREE,
                    generation: 0,
                }),
            r.configured_size == pool_size,
            r.idle_timeout_secs == 300,
            r.library_db_path is None,
            r.last_reap_time == 0,
            r.init_pid == pid,
            r.registry@ == Map::<usize, usize>::empty(),
            r.db_to_pool@ == Map::<usize, usize>::empty(),
            r.global_metadata_id == 0,
            r.global_last_insert_rowid == 0,
    {
        let mut slots: Vec<PoolSlot> = Vec::new();
        for i in 0..POOL_SIZE_MAX
            invariant
                slots@.len() == i,
                forall|k: int|
                    0 <= k < i ==> #[trigger] slots@[k] == (PoolSlot {
                        conn: 0,
                        owner_thread: 0,
                        last_used: 0,
                        state: SLOT_FREE,
                        generation: 0,
                    }),
        {
            slots.push(PoolSlot::new());
        }
        PoolManager {
            slots,
            configured_size: pool_size,
            idle_timeout_secs: 300,
            library_db_path: None,
            last_reap_time: 0,
            init_pid: pid,
            registry: ConnectionRegistry::new(),
            db_to_pool: DbToPool::new(),
            global_metadata_id: 0,
            global_last_insert_rowid: 0,
        }
    }

    /// How many slots are in use.
    pub fn pool_size(&self) -> (r: usize)
        ensures
            r == self.configured_size,
    {
        self.configured_size
    }

    /// Is this the connection of a slot that is ready?
    pub fn validate_connection(&self, conn_ptr: usize) -> (r: bool)
        requires
            self.wf(),
        ensures
            r == exists|i: int|
                0 <= i < self.configured_size && (#[trigger] self.slots@[i]).state == SLOT_READY
                    && self.slots@[i].conn == conn_ptr,
    {
        let mut i: usize = 0;
        while i < self.configured_size
            invariant
                self.wf(),
                forall|k: int|
                    0 <= k < i ==> !((#[trigger] self.slots@[k]).state == SLOT_READY
                        && self.slots@[k].conn == conn_ptr),
            decreases self.configured_size - i,
        {
            if self.slots[i].state == SLOT_READY && self.slots[i].conn == conn_ptr {
                return true;
            }
            i += 1;
        }
        false
    }

    /// The first slot in use that holds this connection.
    pub fn slot_of(&self, conn_ptr: usize) -> (r: Option<usize>)
        requires
            self.wf(),
        ensures
            match r {
                Some(i) => holder(self.slots@, self.configured_size as int, conn_ptr) == Some(
                    i as int,
                ),
                None => holder(self.slots@, self.configured_size as int, conn_ptr) is None,
            },
            r is Some ==> r->0 < self.configured_size,
    {
        let mut i: usize = 0;
        while i < self.configured_size
            invariant
                self.wf(),
                forall|k: int| 0 <= k < i ==> (#[trigger] self.slots@[k]).conn != conn_ptr,
            decreases self.configured_size - i,
        {
            if self.slots[i].conn == conn_ptr {
                proof {
                    lemma_holder(self.slots@, self.configured_size as int, conn_ptr);
                }
                return Some(i);
            }
            i += 1;
        }
        proof {
            lemma_holder(self.slots@, self.configured_size as int, conn_ptr);
        }
        None
    }

    /// Notes that a connection was used: the first slot that holds it gets the time.
    pub fn touch_connection(&mut self, conn_ptr: usize, now: i64)
        requires
            old(self).wf(),
        ensures
            final(self).wf(),
            final(self).same_settings(old(self)),
            touched(old(self).slots@, final(self).slots@, old(self).configured_size as int, conn_ptr, now),
    {
        let found = self.slot_of(conn_ptr);
        if let Some(i) = found {
            let mut slot = self.slots[i];
            slot.last_used = now;
            self.slots.set(i, slot);
        }
    }

    /// Starts over in a child process: no slot in use keeps its connection, which belongs to the
    /// parent, no handle is known, and the calling thread has no slot.
    pub fn reset_for_child(&mut self, pid: u32, cache: &mut TlsPoolCache)
        requires
            old(self).wf(),
        ensures
            final(self).wf(),
            final(self).slots@ == Seq::new(
                POOL_SIZE_MAX as nat,
                |i: int|
                    if i < old(self).configured_size {
                        reset(old(self).slots@[i])
                    } else {
                        old(self).slots@[i]
                    },
            ),
            final(self).registry@ == Map::<usize, usize>::empty(),
            final(self).db_to_pool@ == Map::<usize, usize>::empty(),
            final(self).init_pid == pid,
            final(self).configured_size == old(self).configured_size,
            final(self).idle_timeout_secs == old(self).idle_timeout_secs,
            final(self).library_db_path == old(self).library_db_path,
            final(self).last_reap_time == old(self).last_reap_time,
            final(self).global_metadata_id == old(self).global_metadata_id,
            final(self).global_last_insert_rowid == old(self).global_last_insert_rowid,
            *final(cache) == empty_cache(),
    {
        let ghost before = *self;
        let size: usize = self.configured_size;
        let mut i: usize = 0;
        while i < size
            invariant
                before.wf(),
                self.wf(),
                self.same_settings(&before),
                i <= size == before.configured_size,
                forall|k: int| 0 <= k < i ==> #[trigger] self.slots@[k] == reset(before.slots@[k]),
                forall|k: int|
                    i <= k < POOL_SIZE_MAX ==> #[trigger] self.slots@[k] == before.slots@[k],
            decreases size - i,
        {
            let mut slot = self.slots[i];
            slot.conn = 0;
            slot.owner_thread = 0;
            slot.last_used = 0;
            slot.state = SLOT_FREE;
            slot.bump_generation();
            self.slots.set(i, slot);
            i += 1;
        }
        self.registry.clear();
        self.db_to_pool.clear();
        self.init_pid = pid;
        tls_pool_cache_clear(cache);
    }

    /// Empties the slots that were idle too long, and returns their numbers and connections, which
    /// the caller has to close.
    pub fn reap_idle(&mut self, now: i64) -> (r: Vec<(usize, usize)>)
        requires
            old(self).wf(),
        ensures
            final(self).wf(),
            final(self).same_settings(old(self)),
            final(self).slots@ == after_reaping(
                old(self).slots@,
                old(self).configured_size as int,
                now,
                old(self).idle_timeout_secs,
            ),
            r@ == idle_connections(
                old(self).slots@,
                old(self).configured_size as int,
                now,
                old(self).idle_timeout_secs,
            ),
    {
        let ghost before = *self;
        let timeout: i128 = self.idle_timeout_secs as i128;
        let size: usize = self.configured_size;
        let mut to_destroy: Vec<(usize, usize)> = Vec::new();
        let mut i: usize = 0;
        while i < size
            invariant
                before.wf(),
                self.wf(),
                self.same_settings(&before),
                timeout == before.idle_timeout_secs,
                i <= size == before.configured_size,
                forall|k: int|
                    0 <= k < i ==> #[trigger] self.slots@[k] == (if idle(
                        before.slots@[k],
                        now,
                        before.idle_timeout_secs,
                    ) {
                        reaped(before.slots@[k])
                    } else {
                        before.slots@[k]
                    }),
                forall|k: int|
                    i <= k < POOL_SIZE_MAX ==> #[trigger] self.slots@[k] == before.slots@[k],
                to_destroy@ == idle_connections(
                    before.slots@,
                    i as int,
                    now,
                    before.idle_timeout_secs,
                ),
            decreases size - i,
        {
            let mut slot = self.slots[i];
            if slot.state == SLOT_FREE && slot.conn != 0 && now as i128 - slot.last_used as i128
                >= timeout {
                let conn: usize = slot.conn;
                slot.bump_generation();
                slot.conn = 0;
                slot.owner_thread = 0;
                self.slots.set(i, slot);
                to_destroy.push((i, conn));
            }
            i += 1;
        }
        proof {
            assert(self.slots@ =~= after_reaping(
                before.slots@,
                before.configured_size as int,
                now,
                before.idle_timeout_secs,
            ));
        }
        to_destroy
    }

    /// Takes the size and the idle time over, where they are in range, and the process.
    pub fn rust_pool_init(&mut self, pool_size: i32, idle_timeout: i32, pid: u32)
        requires
            old(self).wf(),
        ensures
            final(self).wf(),
            final(self).slots@ == old(self).slots@,
            final(self).configured_size == (if 0 < pool_size <= POOL_SIZE_SETTING_MAX {
                pool_size as usize
            } else {
                old(self).configured_size
            }),
            old(self).configured_size <= POOL_SIZE_SETTING_MAX ==> final(self).configured_size
                <= POOL_SIZE_SETTING_MAX,
            final(self).idle_timeout_secs == (if idle_timeout >= 10 {
                idle_timeout as u32
            } else {
                old(self).idle_timeout_secs
            }),
            final(self).init_pid == pid,
            final(self).library_db_path == old(self).library_db_path,
            final(self).last_reap_time == old(self).last_reap_time,
            final(self).registry == old(self).registry,
            final(self).db_to_pool == old(self).db_to_pool,
            final(self).global_metadata_id == old(self).global_metadata_id,
            final(self).global_last_insert_rowid == old(self).global_last_insert_rowid,
    {
        if pool_size > 0 && pool_size as usize <= POOL_SIZE_SETTING_MAX {
            self.configured_size = pool_size as usize;
        }
        if idle_timeout >= 10 {
            self.idle_timeout_secs = idle_timeout as u32;
        }
        self.init_pid = pid;
    }

    /// Takes the pool down: every slot in use is emptied and starts counting anew, no handle is
    /// known. Returns the connections, which the caller has to close.
    pub fn rust_pool_cleanup(&mut self) -> (r: Vec<usize>)
        requires
            old(self).wf(),
        ensures
            final(self).wf(),
            final(self).slots@ == Seq::new(
                POOL_SIZE_MAX as nat,
                |i: int|
                    if i < old(self).configured_size {
                        torn_down(old(self).slots@[i])
                    } else {
                        old(self).slots@[i]
                    },
            ),
            r@ == connections(old(self).slots@, old(self).configured_size as int),
            final(self).registry@ == Map::<usize, usize>::empty(),
            final(self).db_to_pool@ == Map::<usize, usize>::empty(),
            final(self).configured_size == old(self).configured_size,
            final(self).idle_timeout_secs == old(self).idle_timeout_secs,
            final(self).library_db_path == old(self).library_db_path,
            final(self).last_reap_time == old(self).last_reap_time,
            final(self).init_pid == old(self).init_pid,
            final(self).global_metadata_id == old(self).global_metadata_id,
            final(self).global_last_insert_rowid == old(self).global_last_insert_rowid,
    {
        let ghost before = *self;
        let size: usize = self.configured_size;
        let mut conns: Vec<usize> = Vec::new();
        let mut i: usize = 0;
        while i < size
            invariant
                before.wf(),
                self.wf(),
                self.same_settings(&before),
                i <= size == before.configured_size,
                forall|k: int|
                    0 <= k < i ==> #[trigger] self.slots@[k] == torn_down(before.slots@[k]),
                forall|k: int|
                    i <= k < POOL_SIZE_MAX ==> #[trigger] self.slots@[k] == before.slots@[k],
                conns@ == connections(before.slots@, i as int),
            decreases size - i,
        {
            let mut slot = self.slots[i];
            let conn: usize = slot.conn;
            slot.state = SLOT_FREE;
            slot.conn = 0;
            slot.owner_thread = 0;
            slot.generation = 0;
            self.slots.set(i, slot);
            if conn != 0 {
                conns.push(conn);
            }
            i += 1;
        }
        self.db_to_pool.clear();
        self.registry.clear();
        conns
    }

    /// Starts over if the process is not the one that set the pool up; 1 if so.
    pub fn rust_pool_check_fork(&mut self, pid: u32, cache: &mut TlsPoolCache) -> (r: i32)
        requires
            old(self).wf(),
        ensures
            final(self).wf(),
            r == (if old(self).init_pid != 0 && old(self).init_pid != pid {
                1i32
            } else {
                0i32
            }),
            r == 0 ==> *final(self) == *old(self) && *final(cache) == *old(cache),
            r == 1 ==> {
                &&& final(self).slots@ == Seq::new(
                    POOL_SIZE_MAX as nat,
                    |i: int|
                        if i < old(self).configured_size {
                            reset(old(self).slots@[i])
                        } else {
                            old(self).slots@[i]
                        },
                )
                &&& final(self).registry@ == Map::<usize, usize>::empty()
                &&& final(self).db_to_pool@ == Map::<usize, usize>::empty()
                &&& final(self).init_pid == pid
                &&& final(self).configured_size == old(self).configured_size
                &&& final(self).idle_timeout_secs == old(self).idle_timeout_secs
                &&& final(self).library_db_path == old(self).library_db_path
                &&& final(self).last_reap_time == old(self).last_reap_time
                &&& final(self).global_metadata_id == old(self).global_metadata_id
                &&& final(self).global_last_insert_rowid == old(self).global_last_insert_rowid
                &&& *final(cache) == empty_cache()
            },
    {
        if self.init_pid != 0 && self.init_pid != pid {
            self.reset_for_child(pid, cache);
            1
        } else {
            0
        }
    }
}

/// The first of the first `n` slots that holds the connection got the time; nothing else changed.
pub open spec fn touched(
    before: Seq<PoolSlot>,
    after: Seq<PoolSlot>,
    n: int,
    conn: usize,
    now: i64,
) -> bool {
    match holder(before, n, conn) {
        Some(i) => after == before.update(i, PoolSlot { last_used: now, ..before[i] }),
        None => after == before,
    }
}

impl PoolManager {
    /// The number of the item that was played last.
    pub fn rust_get_global_metadata_id(&self) -> (r: i64)
        ensures
            r == self.global_metadata_id,
    {
        self.global_metadata_id
    }

    /// Notes the number of the item that was played last.
    pub fn rust_set_global_metadata_id(&mut self, id: i64)
        ensures
            final(self).slots@ == old(self).slots@,
            final(self).same_settings(&(PoolManager { global_metadata_id: id, ..*old(self) })),
    {
        self.global_metadata_id = id;
    }

    /// The number of the row that was inserted last.
    pub fn rust_get_global_last_insert_rowid(&self) -> (r: i64)
        ensures
            r == self.global_last_insert_rowid,
    {
        self.global_last_insert_rowid
    }

    /// Notes the number of the row that was inserted last.
    pub fn rust_set_global_last_insert_rowid(&mut self, id: i64)
        ensures
            final(self).slots@ == old(self).slots@,
            final(self).same_settings(
                &(PoolManager { global_last_insert_rowid: id, ..*old(self) }),
            ),
    {
        self.global_last_insert_rowid = id;
    }
}

/// A thread that remembers a slot from before it was reaped sees that the slot is stale: the
/// generation that it remembers is not the slot's any more.
pub proof fn law_reaped_slot_is_stale(
    slots: Seq<PoolSlot>,
    n: int,
    now: i64,
    timeout: u32,
    i: int,
    cache: TlsPoolCache,
)
    requires
        0 <= i < n <= slots.len(),
        idle(slots[i], now, timeout),
        cached(cache, 0) == Some((i as u32, slots[i].generation)),
    ensures
        after_reaping(slots, n, now, timeout)[i].generation != cache.generation,
        after_reaping(slots, n, now, timeout)[i].conn == 0,
{
}

/// Reaping closes the connection of every idle slot in use, and no other.
pub proof fn law_reaped_are_the_idle(
    slots: Seq<PoolSlot>,
    n: int,
    now: i64,
    timeout: u32,
    i: usize,
    conn: usize,
)
    requires
        0 <= n <= slots.len(),
        slots.len() <= POOL_SIZE_MAX,
    ensures
        idle_connections(slots, n, now, timeout).contains((i, conn)) <==> (i < n && idle(
            slots[i as int],
            now,
            timeout,
        ) && slots[i as int].conn == conn),
    decreases n,
{
    let all = idle_connections(slots, n, now, timeout);
    if n > 0 {
        law_reaped_are_the_idle(slots, n - 1, now, timeout, i, conn);
        let rest = idle_connections(slots, n - 1, now, timeout);
        if idle(slots[n - 1], now, timeout) {
            let x = ((n - 1) as usize, slots[n - 1].conn);
            assert(all == rest.push(x));
            assert(all[all.len() - 1] == x);
            if rest.contains((i, conn)) {
                let k = choose|k: int| 0 <= k < rest.len() && rest[k] == (i, conn);
                assert(all[k] == (i, conn));
            }
            if all.contains((i, conn)) {
                let k = choose|k: int| 0 <= k < all.len() && all[k] == (i, conn);
                if k < rest.len() {
                    assert(rest[k] == (i, conn));
                }
            }
        }
    }
}

/// Reaping a second time at the same time closes nothing and changes nothing.
pub proof fn law_reaped_once(slots: Seq<PoolSlot>, n: int, now: i64, timeout: u32)
    requires
        0 <= n <= slots.len(),
    ensures
        ({
            let after = after_reaping(slots, n, now, timeout);
            &&& idle_connections(after, n, now, timeout).len() == 0
            &&& after_reaping(after, n, now, timeout) == after
        }),
{
    let after = after_reaping(slots, n, now, timeout);
    lemma_none_idle(after, n, now, timeout);
    assert(after_reaping(after, n, now, timeout) =~= after);
}

proof fn lemma_none_idle(slots: Seq<PoolSlot>, n: int, now: i64, timeout: u32)
    requires
        0 <= n <= slots.len(),
        forall|i: int| 0 <= i < n ==> !idle(#[trigger] slots[i], now, timeout),
    ensures
        idle_connections(slots, n, now, timeout).len() == 0,
    decreases n,
{
    if n > 0 {
        lemma_none_idle(slots, n - 1, now, timeout);
    }
}

/// Reaping takes the connection out of a slot exactly where nobody has the slot and it was not used
/// for the idle time; such a slot stays free, has no owner, and is in another generation. Every other
/// slot stays as it is.
pub proof fn law_only_the_idle_are_reaped(slots: Seq<PoolSlot>, n: int, now: i64, timeout: u32, i: int)
    requires
        0 <= n <= slots.len(),
        0 <= i < slots.len(),
    ensures
        ({
            let s = slots[i];
            let t = after_reaping(slots, n, now, timeout)[i];
            let over = i < n && s.state == 0 && s.conn != 0 && now - s.last_used >= timeout;
            &&& over ==> t.conn == 0 && t.owner_thread == 0 && t.state == 0 && t.generation
                != s.generation && t.last_used == s.last_used
            &&& !over ==> t == s
        }),
        after_reaping(slots, n, now, timeout).len() == slots.len(),
{
}

/// The next generation is another one, and no generation comes again before all others have.
pub proof fn law_generations_go_round(g: u32)
    ensures
        next_generation(g) != g,
        next_generation(g) == (g + 1) % 0x1_0000_0000,
{
}

/// A child process has none of its parent's connections: every slot is free, empty and nobody's, and
/// in another generation, so that what a thread remembers of it is stale.
pub proof fn law_children_start_empty(slot: PoolSlot)
    ensures
        reset(slot).conn == 0,
        reset(slot).owner_thread == 0,
        reset(slot).state == 0,
        reset(slot).last_used == 0,
        reset(slot).generation != slot.generation,
        torn_down(slot).conn == 0,
        torn_down(slot).owner_thread == 0,
        torn_down(slot).state == 0,
        torn_down(slot).generation == 0,
{
}

/// Every connection in a slot is handed over to be closed when the pool is taken down, and nothing
/// else is.
pub proof fn law_all_connections_are_closed(slots: Seq<PoolSlot>, n: int, conn: usize)
    requires
        0 <= n <= slots.len(),
    ensures
        connections(slots, n).contains(conn) <==> conn != 0 && exists|i: int|
            0 <= i < n && (#[trigger] slots[i]).conn == conn,
        connections(slots, n).len() <= n,
    decreases n,
{
    let all = connections(slots, n);
    if n > 0 {
        law_all_connections_are_closed(slots, n - 1, conn);
        let rest = connections(slots, n - 1);
        if slots[n - 1].conn != 0 {
            let x = slots[n - 1].conn;
            assert(all == rest.push(x));
            assert(all[all.len() - 1] == x);
            if rest.contains(conn) {
                let k = choose|k: int| 0 <= k < rest.len() && rest[k] == conn;
                assert(all[k] == conn);
            }
            if all.contains(conn) {
                let k = choose|k: int| 0 <= k < all.len() && all[k] == conn;
                if k < rest.len() {
                    assert(rest[k] == conn);
                } else {
                    assert(slots[n - 1].conn == conn);
                }
            }
        }
        if conn != 0 && exists|i: int| 0 <= i < n && (#[trigger] slots[i]).conn == conn {
            let i = choose|i: int| 0 <= i < n && (#[trigger] slots[i]).conn == conn;
            if i < n - 1 {
                assert(slots[i].conn == conn);
            }
        }
    }
}

/// A use of a connection is noted in the first slot that holds it, with the time, and nowhere else.
pub proof fn law_uses_are_noted(
    before: Seq<PoolSlot>,
    after: Seq<PoolSlot>,
    n: int,
    conn: usize,
    now: i64,
    i: int,
)
    requires
        touched(before, after, n, conn, now),
        0 <= i < before.len(),
        0 <= n <= before.len(),
    ensures
        i < n && before[i].conn == conn && (forall|k: int|
            0 <= k < i ==> (#[trigger] before[k]).conn != conn) ==> after[i] == (PoolSlot {
            last_used: now,
            ..before[i]
        }),
        before[i].conn != conn || i >= n ==> after[i] == before[i],
        after.len() == before.len(),
{
    lemma_holder(before, n, conn);
}

/// The library's database is known by its file name, in whatever directory it is.
pub proof fn law_the_library_is_known_by_its_name(directory: Seq<char>)
    ensures
        is_library(directory + "com.plexapp.plugins.library.db"@),
        !is_library(directory + "com.plexapp.plugins.library.blobs.db"@),
{
    let a = directory + "com.plexapp.plugins.library.db"@;
    let name = "com.plexapp.plugins.library.db"@;
    assert(a.subrange(a.len() - name.len(), a.len() as int) =~= name);
    reveal_strlit("com.plexapp.plugins.library.db");
    reveal_strlit("com.plexapp.plugins.library.blobs.db");
    let b = directory + "com.plexapp.plugins.library.blobs.db"@;
    if is_library(b) {
        let end = b.subrange(b.len() - name.len(), b.len() as int);
        assert(end == name);
        assert(name.len() == 30);
        assert("com.plexapp.plugins.library.blobs.db"@.len() == 36);
        assert(end[26] == "com.plexapp.plugins.library.blobs.db"@[32]);
        assert("com.plexapp.plugins.library.blobs.db"@[32] == 's');
        assert(name[26] == 'y');
    }
}

} // verus!
