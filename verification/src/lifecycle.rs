//! The life of a statement: which handles were prepared and which were finalized of late, and what
//! resetting, finalizing and clearing do.

use crate::params;
use crate::params::Params;
use crate::prepare_text;
use crate::search;
use vstd::prelude::*;

verus! {

/// How many finalized statements are remembered.
pub const FINALIZED_RING_SIZE: usize = 2048;

/// How many prepared statements are remembered.
pub const PREPARED_RING_SIZE: usize = 4096;

/// How long a statement counts as finalized of late, in milliseconds.
pub const FINALIZED_RECENT_MS: u64 = 2000;

/// How much of a statement's text is remembered, in bytes.
pub const SQL_KEPT: usize = 255;

/// A statement that is remembered. A handle of zero stands for none.
pub struct Entry {
    pub stmt: usize,
    pub ts_ns: u64,
    pub tid: u64,
    pub is_pg: i32,
    pub sql: Vec<u8>,
}

/// The beginning of a text, as far as it is remembered.
pub open spec fn clipped(sql: Option<Seq<u8>>) -> Seq<u8> {
    match sql {
        None => Seq::empty(),
        Some(s) => if s.len() > SQL_KEPT {
            s.take(SQL_KEPT as int)
        } else {
            s
        },
    }
}

/// The bytes of a text that may be missing.
pub open spec fn text_of(sql: Option<&[u8]>) -> Option<Seq<u8>> {
    match sql {
        Some(s) => Some(s@),
        None => None,
    }
}

/// The beginning of a text, as far as it is remembered.
pub fn write_sql_buf(sql: Option<&[u8]>) -> (r: Vec<u8>)
    ensures
        r@ == clipped(text_of(sql)),
{
    match sql {
        None => Vec::new(),
        Some(s) => {
            let n: usize = s.len();
            if n > SQL_KEPT {
                let r = prepare_text::copy_range(s, 0, SQL_KEPT);
                assert(r@ == s@.take(SQL_KEPT as int));
                r
            } else {
                let r = prepare_text::copy_range(s, 0, n);
                assert(r@ == s@);
                r
            }
        },
    }
}

/// No statement.
pub open spec fn is_blank(e: Entry) -> bool {
    e.stmt == 0 && e.ts_ns == 0 && e.tid == 0 && e.is_pg == 0 && e.sql@.len() == 0
}

fn blank() -> (r: Entry)
    ensures
        is_blank(r),
{
    Entry { stmt: 0, ts_ns: 0, tid: 0, is_pg: 0, sql: Vec::new() }
}

/// Statements that are remembered, the newest in place of the oldest.
pub struct StmtRing {
    pub entries: Vec<Entry>,
    pub idx: u32,
}

/// The first place that holds this statement.
pub open spec fn held_at(entries: Seq<Entry>, stmt: usize) -> Option<int> {
    if stmt == 0 {
        None
    } else {
        search::first_index(|i: int| entries[i].stmt == stmt, 0, entries.len() as int)
    }
}

/// Is the statement remembered so?
pub open spec fn notes(
    e: Entry,
    stmt: usize,
    ts_ns: u64,
    tid: u64,
    is_pg: i32,
    sql: Option<Seq<u8>>,
) -> bool {
    e.stmt == stmt && e.ts_ns == ts_ns && e.tid == tid && e.is_pg == is_pg && e.sql@ == clipped(sql)
}

impl StmtRing {
    /// There are places, and a power of two of them, so that the count of what was remembered may
    /// start over.
    pub open spec fn wf(self) -> bool {
        self.entries@.len() == FINALIZED_RING_SIZE || self.entries@.len() == PREPARED_RING_SIZE
    }

    /// The same places but for one.
    pub open spec fn differs_at(self, new: Self, at: int) -> bool {
        &&& new.entries@.len() == self.entries@.len()
        &&& forall|i: int|
            0 <= i < self.entries@.len() && i != at ==> #[trigger] new.entries@[i]
                == self.entries@[i]
    }

    /// The place for the next statement.
    pub open spec fn next_place(self) -> int {
        self.idx as int % self.entries@.len() as int
    }

    /// The count of what was remembered, after one more.
    pub open spec fn next_idx(self) -> int {
        if self.idx == u32::MAX {
            0
        } else {
            self.idx + 1
        }
    }

    fn of_size(size: usize) -> (r: Self)
        ensures
            r.entries@.len() == size,
            r.idx == 0,
            forall|i: int| 0 <= i < size ==> is_blank(#[trigger] r.entries@[i]),
    {
        let mut entries: Vec<Entry> = Vec::new();
        let mut i: usize = 0;
        while i < size
            invariant
                i <= size,
                entries@.len() == i,
                forall|k: int| 0 <= k < i ==> is_blank(#[trigger] entries@[k]),
            decreases size - i,
        {
            entries.push(blank());
            i += 1;
        }
        StmtRing { entries, idx: 0 }
    }

    /// Finds the first place that holds this statement.
    pub fn find(&self, stmt: usize) -> (r: Option<usize>)
        ensures
            search::index(r) == held_at(self.entries@, stmt),
            r matches Some(i) ==> i < self.entries@.len() && self.entries@[i as int].stmt == stmt,
    {
        if stmt == 0 {
            return None;
        }
        let ghost entries = self.entries@;
        let ghost p = |i: int| entries[i].stmt == stmt;
        let n: usize = self.entries.len();
        let mut i: usize = 0;
        while i < n
            invariant
                i <= n == self.entries@.len(),
                entries == self.entries@,
                p == (|i: int| entries[i].stmt == stmt),
                held_at(entries, stmt) == search::first_index(p, i as int, n as int),
            decreases n - i,
        {
            if self.entries[i].stmt == stmt {
                assert(p(i as int));
                return Some(i);
            }
            assert(!p(i as int));
            i += 1;
        }
        None
    }

    /// Remembers a statement, in place of the one that was remembered longest ago.
    pub fn remember(
        &mut self,
        stmt: usize,
        sql: Option<&[u8]>,
        is_pg: i32,
        now_ns: u64,
        tid: u64,
    )
        requires
            old(self).wf(),
        ensures
            final(self).wf(),
            stmt == 0 ==> *final(self) == *old(self),
            stmt != 0 ==> old(self).differs_at(*final(self), old(self).next_place()) && notes(
                final(self).entries@[old(self).next_place()],
                stmt,
                now_ns,
                tid,
                is_pg,
                text_of(sql),
            ) && final(self).idx == old(self).next_idx(),
    {
        if stmt == 0 {
            return;
        }
        let at: usize = self.idx as usize % self.entries.len();
        let entry = Entry { stmt, ts_ns: now_ns, tid, is_pg, sql: write_sql_buf(sql) };
        self.entries.set(at, entry);
        self.idx = self.idx.wrapping_add(1);
    }

    /// Forgets the first place that holds this statement.
    pub fn forget(&mut self, stmt: usize)
        requires
            old(self).wf(),
        ensures
            final(self).wf(),
            forgotten(*old(self), *final(self), stmt),
    {
        if let Some(i) = self.find(stmt) {
            self.entries.set(i, blank());
        }
    }
}

/// The first place that held the statement is blank, and nothing else has changed.
pub open spec fn forgotten(old: StmtRing, new: StmtRing, stmt: usize) -> bool {
    &&& new.idx == old.idx
    &&& match held_at(old.entries@, stmt) {
        Some(i) => old.differs_at(new, i) && is_blank(new.entries@[i]),
        None => new == old,
    }
}

/// The statements of a process.
pub struct Lifecycle {
    pub finalized: StmtRing,
    pub prepared: StmtRing,
    /// How often something odd was noticed.
    pub anomalies: u64,
}

/// How long ago something was, in milliseconds.
pub open spec fn age_ms(ts_ns: u64, now_ns: u64) -> int {
    if now_ns > ts_ns {
        (now_ns - ts_ns) / 1_000_000
    } else {
        0
    }
}

/// Was the statement finalized of late? The first place that holds it decides.
pub open spec fn recently_finalized(ring: StmtRing, stmt: usize, now_ns: u64) -> bool {
    match held_at(ring.entries@, stmt) {
        Some(i) => {
            let ts = ring.entries@[i].ts_ns;
            ts != 0 && age_ms(ts, now_ns) <= FINALIZED_RECENT_MS
        },
        None => false,
    }
}

/// Is the `n`th anomaly reported? The first five are, and then each thousandth.
pub open spec fn is_reported(n: u64) -> bool {
    n < 5 || n % 1000 == 0
}

/// What finalizing a statement comes to at first.
#[derive(PartialEq, Eq, Structural, Clone, Copy, Debug)]
pub enum Finalizing {
    /// It was finalized a moment ago: nothing is left to be done, and SQLite is not told.
    Again,
    /// It was never prepared: nothing is to be done, and SQLite is not told.
    Stranger,
    /// It is to be finalized.
    Proceed,
}

/// A statement that is registered or kept by a thread, as finalizing sees it.
pub struct Owner {
    pub is_pg: i32,
    /// Is there a text of it?
    pub has_sql: bool,
}

/// Where the text comes from that is remembered of a finalized statement.
#[derive(PartialEq, Eq, Structural, Clone, Copy, Debug)]
pub enum SqlSource {
    Registered,
    Kept,
    Local,
}

/// What finalizing a statement does.
#[derive(PartialEq, Eq, Structural, Clone, Copy, Debug)]
pub struct FinalizePlan {
    /// The thread lets go of its statement.
    pub clear_kept: bool,
    /// The registered statement is taken out of the registry and given back.
    pub unregister: bool,
    /// The thread's statement is given back.
    pub unref_kept: bool,
    /// SQLite finalizes its own.
    pub finalize_local: bool,
    pub is_pg: i32,
    pub sql: SqlSource,
}

/// What finalizing a statement does. The one in the registry counts, and else the thread's.
pub open spec fn plan(registered: Option<Owner>, kept: Option<Owner>) -> FinalizePlan {
    match registered {
        Some(r) => FinalizePlan {
            clear_kept: kept is Some,
            unregister: true,
            unref_kept: false,
            finalize_local: r.is_pg != 2,
            is_pg: r.is_pg,
            sql: if r.has_sql {
                SqlSource::Registered
            } else {
                SqlSource::Local
            },
        },
        None => match kept {
            Some(k) => FinalizePlan {
                clear_kept: true,
                unregister: false,
                unref_kept: true,
                finalize_local: k.is_pg != 2,
                is_pg: k.is_pg,
                sql: if k.has_sql {
                    SqlSource::Kept
                } else {
                    SqlSource::Local
                },
            },
            None => FinalizePlan {
                clear_kept: false,
                unregister: false,
                unref_kept: false,
                finalize_local: true,
                is_pg: 0,
                sql: SqlSource::Local,
            },
        },
    }
}

/// What may stand for a statement in a specification.
pub open spec fn owner_of(o: Option<&Owner>) -> Option<Owner> {
    match o {
        Some(x) => Some(*x),
        None => None,
    }
}

/// What finalizing a statement does, given the one in the registry and the one that the thread
/// keeps.
pub fn finalize_plan(registered: Option<&Owner>, kept: Option<&Owner>) -> (r: FinalizePlan)
    ensures
        r == plan(owner_of(registered), owner_of(kept)),
{
    match registered {
        Some(o) => FinalizePlan {
            clear_kept: kept.is_some(),
            unregister: true,
            unref_kept: false,
            finalize_local: o.is_pg != 2,
            is_pg: o.is_pg,
            sql: if o.has_sql {
                SqlSource::Registered
            } else {
                SqlSource::Local
            },
        },
        None => match kept {
            Some(k) => FinalizePlan {
                clear_kept: true,
                unregister: false,
                unref_kept: true,
                finalize_local: k.is_pg != 2,
                is_pg: k.is_pg,
                sql: if k.has_sql {
                    SqlSource::Kept
                } else {
                    SqlSource::Local
                },
            },
            None => FinalizePlan {
                clear_kept: false,
                unregister: false,
                unref_kept: false,
                finalize_local: true,
                is_pg: 0,
                sql: SqlSource::Local,
            },
        },
    }
}

/// What clearing the bindings of a statement comes to.
#[derive(PartialEq, Eq, Structural, Clone, Copy, Debug)]
pub enum Clearing {
    /// Nothing is to be done.
    Skip,
    /// SQLite clears its own.
    AskLocal,
    /// The values of the registered statement are given back, and SQLite clears its own.
    FreeAndAskLocal,
    /// The values of the registered statement are given back.
    Free,
}

/// What finalizing a statement comes to at first.
pub open spec fn finalizing(l: Lifecycle, stmt: usize, skip: bool, now_ns: u64) -> Finalizing {
    if skip && recently_finalized(l.finalized, stmt, now_ns) {
        Finalizing::Again
    } else if held_at(l.prepared.entries@, stmt) is None {
        Finalizing::Stranger
    } else {
        Finalizing::Proceed
    }
}

/// What clearing the bindings of a statement comes to.
pub open spec fn clearing(
    l: Lifecycle,
    stmt: usize,
    skip: bool,
    registered: Option<i32>,
    now_ns: u64,
) -> Clearing {
    if skip && recently_finalized(l.finalized, stmt, now_ns) {
        Clearing::Skip
    } else {
        match registered {
            None => Clearing::AskLocal,
            Some(is_pg) => if is_pg == 0 {
                Clearing::FreeAndAskLocal
            } else {
                Clearing::Free
            },
        }
    }
}

impl Lifecycle {
    /// Both rings have their places.
    pub open spec fn wf(self) -> bool {
        &&& self.finalized.wf()
        &&& self.prepared.wf()
    }

    /// No statement has been seen yet.
    pub fn new() -> (r: Self)
        ensures
            r.wf(),
            r.finalized.entries@.len() == FINALIZED_RING_SIZE,
            r.prepared.entries@.len() == PREPARED_RING_SIZE,
            forall|s: usize| held_at(r.finalized.entries@, s) is None,
            forall|s: usize| held_at(r.prepared.entries@, s) is None,
            r.anomalies == 0,
    {
        let r = Lifecycle {
            finalized: StmtRing::of_size(FINALIZED_RING_SIZE),
            prepared: StmtRing::of_size(PREPARED_RING_SIZE),
            anomalies: 0,
        };
        proof {
            assert forall|s: usize| held_at(r.finalized.entries@, s) is None by {
                lemma_held(r.finalized.entries@, s);
            }
            assert forall|s: usize| held_at(r.prepared.entries@, s) is None by {
                lemma_held(r.prepared.entries@, s);
            }
        }
        r
    }

    /// Is the statement known to have been prepared?
    pub fn is_prepared_stmt(&self, stmt: usize) -> (r: bool)
        ensures
            r == (held_at(self.prepared.entries@, stmt) is Some),
    {
        self.prepared.find(stmt).is_some()
    }

    /// Was the statement finalized of late?
    pub fn is_recently_finalized_stmt(&self, stmt: usize, now_ns: u64) -> (r: bool)
        ensures
            r == recently_finalized(self.finalized, stmt, now_ns),
    {
        match self.finalized.find(stmt) {
            None => false,
            Some(i) => {
                let ts: u64 = self.finalized.entries[i].ts_ns;
                if ts == 0 {
                    return false;
                }
                let age: u64 = if now_ns > ts {
                    (now_ns - ts) / 1_000_000
                } else {
                    0
                };
                age <= FINALIZED_RECENT_MS
            },
        }
    }

    /// A statement was prepared: it is remembered, and no longer counts as finalized.
    pub fn rust_pg_note_stmt_prepare(
        &mut self,
        stmt: usize,
        sql: Option<&[u8]>,
        now_ns: u64,
        tid: u64,
    )
        requires
            old(self).wf(),
        ensures
            final(self).wf(),
            final(self).anomalies == old(self).anomalies,
            stmt == 0 ==> *final(self) == *old(self),
            stmt != 0 ==> {
                &&& old(self).prepared.differs_at(
                    final(self).prepared,
                    old(self).prepared.next_place(),
                )
                &&& notes(
                    final(self).prepared.entries@[old(self).prepared.next_place()],
                    stmt,
                    now_ns,
                    tid,
                    0,
                    text_of(sql),
                )
                &&& final(self).prepared.idx == old(self).prepared.next_idx()
            },
            forgotten(old(self).finalized, final(self).finalized, stmt),
    {
        self.prepared.remember(stmt, sql, 0, now_ns, tid);
        self.finalized.forget(stmt);
    }

    /// Notices something odd, and says whether it is reported.
    pub fn note_anomaly(&mut self) -> (r: bool)
        ensures
            r == is_reported(old(self).anomalies),
            final(self).finalized == old(self).finalized,
            final(self).prepared == old(self).prepared,
            final(self).anomalies == (if old(self).anomalies == u64::MAX {
                0
            } else {
                old(self).anomalies + 1
            }),
    {
        let n: u64 = self.anomalies;
        self.anomalies = n.wrapping_add(1);
        n < 5 || n % 1000 == 0
    }

    /// Begins to finalize a statement. `skip` has one left alone that was finalized of late.
    pub fn rust_my_sqlite3_finalize(&mut self, stmt: usize, skip: bool, now_ns: u64) -> (r: Finalizing)
        requires
            old(self).wf(),
        ensures
            final(self).wf(),
            final(self).finalized == old(self).finalized,
            final(self).anomalies == old(self).anomalies,
            r == finalizing(*old(self), stmt, skip, now_ns),
            r != Finalizing::Again ==> final(self).prepared == old(self).prepared,
            r == Finalizing::Again ==> forgotten(old(self).prepared, final(self).prepared, stmt),
    {
        if skip && self.is_recently_finalized_stmt(stmt, now_ns) {
            self.prepared.forget(stmt);
            return Finalizing::Again;
        }
        if !self.is_prepared_stmt(stmt) {
            return Finalizing::Stranger;
        }
        Finalizing::Proceed
    }

    /// Ends the finalizing of a statement: it no longer counts as prepared, and is remembered as
    /// finalized.
    pub fn end_finalize(
        &mut self,
        stmt: usize,
        sql: Option<&[u8]>,
        is_pg: i32,
        now_ns: u64,
        tid: u64,
    )
        requires
            old(self).wf(),
        ensures
            final(self).wf(),
            ended(*old(self), *final(self), stmt, text_of(sql), is_pg, now_ns, tid),
    {
        self.prepared.forget(stmt);
        self.finalized.remember(stmt, sql, is_pg, now_ns, tid);
    }

    /// What clearing the bindings of a statement comes to. `registered` is how the registered
    /// statement is routed.
    pub fn rust_my_sqlite3_clear_bindings(
        &self,
        stmt: usize,
        skip: bool,
        registered: Option<i32>,
        now_ns: u64,
    ) -> (r: Clearing)
        ensures
            r == clearing(*self, stmt, skip, registered, now_ns),
    {
        if skip && self.is_recently_finalized_stmt(stmt, now_ns) {
            return Clearing::Skip;
        }
        match registered {
            None => Clearing::AskLocal,
            Some(is_pg) => if is_pg == 0 {
                Clearing::FreeAndAskLocal
            } else {
                Clearing::Free
            },
        }
    }
}

/// What the end of finalizing a statement does to what is remembered.
pub open spec fn ended(
    old: Lifecycle,
    new: Lifecycle,
    stmt: usize,
    sql: Option<Seq<u8>>,
    is_pg: i32,
    now_ns: u64,
    tid: u64,
) -> bool {
    &&& new.anomalies == old.anomalies
    &&& forgotten(old.prepared, new.prepared, stmt)
    &&& stmt == 0 ==> new.finalized == old.finalized
    &&& stmt != 0 ==> old.finalized.differs_at(new.finalized, old.finalized.next_place()) && notes(
        new.finalized.entries@[old.finalized.next_place()],
        stmt,
        now_ns,
        tid,
        is_pg,
        sql,
    ) && new.finalized.idx == old.finalized.next_idx()
}

proof fn lemma_held(entries: Seq<Entry>, stmt: usize)
    ensures
        match held_at(entries, stmt) {
            Some(i) => stmt != 0 && 0 <= i < entries.len() && entries[i].stmt == stmt && forall|
                k: int,
            |
                0 <= k < i ==> #[trigger] entries[k].stmt != stmt,
            None => stmt == 0 || forall|k: int|
                0 <= k < entries.len() ==> #[trigger] entries[k].stmt != stmt,
        },
{
    let p = |i: int| entries[i].stmt == stmt;
    search::lemma_first_index(p, 0, entries.len() as int);
    match search::first_index(p, 0, entries.len() as int) {
        Some(i) => {
            assert(p(i));
            assert forall|k: int| 0 <= k < i implies #[trigger] entries[k].stmt != stmt by {
                assert(!p(k));
            }
        },
        None => {
            assert forall|k: int| 0 <= k < entries.len() implies #[trigger] entries[k].stmt
                != stmt by {
                assert(!p(k));
            }
        },
    }
}

/// A statement that has been finalized, and was not remembered so before, counts as finalized of
/// late for two seconds: to finalize it again does nothing.
pub proof fn law_finalized_is_noticed(
    old: Lifecycle,
    new: Lifecycle,
    stmt: usize,
    sql: Option<Seq<u8>>,
    is_pg: i32,
    now_ns: u64,
    tid: u64,
    later_ns: u64,
)
    requires
        old.wf(),
        stmt != 0,
        now_ns != 0,
        held_at(old.finalized.entries@, stmt) is None,
        ended(old, new, stmt, sql, is_pg, now_ns, tid),
        later_ns <= now_ns + 2_000_000_000,
    ensures
        recently_finalized(new.finalized, stmt, later_ns),
{
    lemma_held(old.finalized.entries@, stmt);
    lemma_held(new.finalized.entries@, stmt);
    let at = old.finalized.next_place();
    assert(new.finalized.entries@[at].stmt == stmt);
    let i = held_at(new.finalized.entries@, stmt)->0;
    if i != at {
        assert(new.finalized.entries@[i] == old.finalized.entries@[i]);
    }
}

/// A statement that is prepared again does not count as finalized, if it was remembered so once at
/// most.
pub proof fn law_prepared_is_not_finalized(
    old: StmtRing,
    new: StmtRing,
    stmt: usize,
    now_ns: u64,
)
    requires
        old.wf(),
        forall|i: int, k: int|
            0 <= i < k < old.entries@.len() ==> #[trigger] old.entries@[i].stmt != stmt
                || #[trigger] old.entries@[k].stmt != stmt,
        forgotten(old, new, stmt),
    ensures
        !recently_finalized(new, stmt, now_ns),
{
    lemma_held(old.entries@, stmt);
    lemma_held(new.entries@, stmt);
    if held_at(new.entries@, stmt) is Some && held_at(old.entries@, stmt) is Some {
        let j = held_at(new.entries@, stmt)->0;
        let i = held_at(old.entries@, stmt)->0;
        assert(j != i);
        assert(new.entries@[j] == old.entries@[j]);
        assert(old.entries@[j].stmt == stmt && old.entries@[i].stmt == stmt);
        if i < j {
            assert(old.entries@[i].stmt != stmt || old.entries@[j].stmt != stmt);
        } else {
            assert(old.entries@[j].stmt != stmt || old.entries@[i].stmt != stmt);
        }
    }
}

/// Gives back the memory of all parameters. Numbers in the parameters' own buffers stay.
pub fn free_all(params: &mut Params)
    requires
        old(params).wf(),
    ensures
        final(params).wf(),
        final(params).names == old(params).names,
        final(params).count == old(params).count,
        final(params).lengths@ == old(params).lengths@,
        final(params).formats@ == old(params).formats@,
        final(params).values@.len() == old(params).values@.len(),
        forall|i: int|
            0 <= i < old(params).values@.len() ==> #[trigger] final(params).values@[i]
                == params::freed(old(params).values@[i]),
{
    let n: usize = params.values.len();
    let mut i: usize = 0;
    while i < n
        invariant
            params.wf(),
            i <= n == params.values@.len() == old(params).values@.len(),
            params.names == old(params).names,
            params.count == old(params).count,
            params.lengths@ == old(params).lengths@,
            params.formats@ == old(params).formats@,
            forall|k: int|
                0 <= k < i ==> #[trigger] params.values@[k] == params::freed(old(params).values@[k]),
            forall|k: int| i <= k < n ==> #[trigger] params.values@[k] == old(params).values@[k],
        decreases n - i,
    {
        params::free_dynamic_param_value(params, i);
        i += 1;
    }
}

/// What resetting a statement does to it. The rows that it has are cleared by the caller.
pub struct ResetStmt {
    pub is_pg: i32,
    pub in_step: bool,
    pub params: Params,
}

/// Resets a statement: it is no longer at work, and its parameters give their memory back. Says
/// whether SQLite resets its own.
pub fn reset_pg_stmt_locked(stmt: &mut ResetStmt) -> (r: bool)
    requires
        old(stmt).params.wf(),
    ensures
        final(stmt).params.wf(),
        final(stmt).is_pg == old(stmt).is_pg,
        !final(stmt).in_step,
        final(stmt).params.names == old(stmt).params.names,
        final(stmt).params.count == old(stmt).params.count,
        final(stmt).params.lengths@ == old(stmt).params.lengths@,
        final(stmt).params.formats@ == old(stmt).params.formats@,
        final(stmt).params.values@.len() == old(stmt).params.values@.len(),
        forall|i: int|
            0 <= i < old(stmt).params.values@.len() ==> #[trigger] final(stmt).params.values@[i]
                == params::freed(old(stmt).params.values@[i]),
        r == (old(stmt).is_pg != 2),
{
    stmt.in_step = false;
    free_all(&mut stmt.params);
    stmt.is_pg != 2
}

/// A setting that is looked up once: unknown, off or on.
#[derive(PartialEq, Eq, Structural, Clone, Copy, Debug)]
pub enum Flag {
    Unknown,
    Off,
    On,
}

/// A setting, looked up where it is not known yet. `found` is what the environment says, and
/// `default` stands where it says nothing.
pub fn cached_flag(flag: &mut Flag, found: Option<bool>, default: bool) -> (r: bool)
    ensures
        r == (match *old(flag) {
            Flag::Off => false,
            Flag::On => true,
            Flag::Unknown => match found {
                Some(b) => b,
                None => default,
            },
        }),
        *final(flag) == (if r {
            Flag::On
        } else {
            Flag::Off
        }),
{
    let r = match *flag {
        Flag::Off => false,
        Flag::On => true,
        Flag::Unknown => match found {
            Some(b) => b,
            None => default,
        },
    };
    *flag = if r {
        Flag::On
    } else {
        Flag::Off
    };
    r
}

/// A finalized statement is given back once, by the one who has it: the registry, or else the thread;
/// the thread lets go of its own in any case. SQLite finalizes its own, unless the server alone has
/// run it.
pub proof fn law_given_back_once(registered: Option<Owner>, kept: Option<Owner>)
    ensures
        plan(registered, kept).unregister == (registered is Some),
        plan(registered, kept).unref_kept == (registered is None && kept is Some),
        plan(registered, kept).clear_kept == (kept is Some),
        !(plan(registered, kept).unregister && plan(registered, kept).unref_kept),
        registered is Some ==> plan(registered, kept).is_pg == registered->0.is_pg,
        registered is None && kept is Some ==> plan(registered, kept).is_pg == kept->0.is_pg,
        registered is None && kept is None ==> plan(registered, kept).is_pg == 0,
        plan(registered, kept).finalize_local <==> plan(registered, kept).is_pg != 2,
        plan(registered, kept).sql == SqlSource::Registered ==> registered is Some
            && registered->0.has_sql,
        plan(registered, kept).sql == SqlSource::Kept ==> registered is None && kept is Some
            && kept->0.has_sql,
        registered is Some && registered->0.has_sql ==> plan(registered, kept).sql
            == SqlSource::Registered,
        registered is None && kept is Some && kept->0.has_sql ==> plan(registered, kept).sql
            == SqlSource::Kept,
{
}

/// A statement that was prepared, and was not finalized since, is finalized; one that was not
/// prepared is not, and SQLite is not told of it.
pub proof fn law_prepared_statements_are_finalized(l: Lifecycle, stmt: usize, skip: bool, now_ns: u64, at: int)
    requires
        stmt != 0,
        0 <= at < l.prepared.entries@.len(),
        l.prepared.entries@[at].stmt == stmt,
        forall|k: int|
            0 <= k < l.finalized.entries@.len() ==> (#[trigger] l.finalized.entries@[k]).stmt
                != stmt,
    ensures
        finalizing(l, stmt, skip, now_ns) == Finalizing::Proceed,
{
    lemma_held(l.prepared.entries@, stmt);
    lemma_held(l.finalized.entries@, stmt);
}

/// A statement that was never prepared is a stranger, and so is no statement at all.
pub proof fn law_strangers_are_left_alone(l: Lifecycle, stmt: usize, skip: bool, now_ns: u64)
    requires
        forall|k: int|
            0 <= k < l.prepared.entries@.len() ==> (#[trigger] l.prepared.entries@[k]).stmt != stmt,
    ensures
        finalizing(l, stmt, skip, now_ns) != Finalizing::Proceed,
        !skip ==> finalizing(l, stmt, skip, now_ns) == Finalizing::Stranger,
        finalizing(l, 0, skip, now_ns) == Finalizing::Stranger,
{
    lemma_held(l.prepared.entries@, stmt);
    lemma_held(l.prepared.entries@, 0);
}

/// Finalizing a statement a second time does nothing: once it was finalized, it is not finalized
/// again until it is prepared again, if it was remembered once.
pub proof fn law_finalized_once(
    old: Lifecycle,
    new: Lifecycle,
    stmt: usize,
    sql: Option<Seq<u8>>,
    is_pg: i32,
    now_ns: u64,
    tid: u64,
    skip: bool,
    later_ns: u64,
)
    requires
        old.wf(),
        stmt != 0,
        ended(old, new, stmt, sql, is_pg, now_ns, tid),
        forall|i: int, k: int|
            0 <= i < k < old.prepared.entries@.len() ==> (#[trigger] old.prepared.entries@[i]).stmt
                != stmt || (#[trigger] old.prepared.entries@[k]).stmt != stmt,
    ensures
        finalizing(new, stmt, skip, later_ns) != Finalizing::Proceed,
        new.finalized.entries@[old.finalized.next_place()].stmt == stmt,
        new.finalized.entries@[old.finalized.next_place()].is_pg == is_pg,
        new.finalized.entries@[old.finalized.next_place()].ts_ns == now_ns,
{
    lemma_held(old.prepared.entries@, stmt);
    lemma_held(new.prepared.entries@, stmt);
    if held_at(new.prepared.entries@, stmt) is Some && held_at(old.prepared.entries@, stmt) is Some {
        let j = held_at(new.prepared.entries@, stmt)->0;
        let i = held_at(old.prepared.entries@, stmt)->0;
        assert(j != i);
        assert(new.prepared.entries@[j] == old.prepared.entries@[j]);
        assert(old.prepared.entries@[j].stmt == stmt && old.prepared.entries@[i].stmt == stmt);
        if i < j {
            assert(old.prepared.entries@[i].stmt != stmt || old.prepared.entries@[j].stmt != stmt);
        } else {
            assert(old.prepared.entries@[j].stmt != stmt || old.prepared.entries@[i].stmt != stmt);
        }
    }
}

/// More than two seconds after it was finalized, a statement no longer counts as finalized of late;
/// and neither does one that was finalized at no known time, or was never.
pub proof fn law_finalized_of_late(ring: StmtRing, stmt: usize, now_ns: u64)
    ensures
        recently_finalized(ring, stmt, now_ns) ==> exists|i: int|
            0 <= i < ring.entries@.len() && (#[trigger] ring.entries@[i]).stmt == stmt
                && ring.entries@[i].ts_ns != 0 && now_ns < ring.entries@[i].ts_ns + 2_001_000_000,
        !recently_finalized(ring, 0, now_ns),
{
    lemma_held(ring.entries@, stmt);
    lemma_held(ring.entries@, 0);
    if recently_finalized(ring, stmt, now_ns) {
        let i = held_at(ring.entries@, stmt)->0;
        assert(ring.entries@[i].stmt == stmt);
    }
}

/// What is remembered last takes the place of what was remembered longest ago: as many statements as
/// there are places are remembered, each in a place of its own.
pub proof fn law_ring_keeps(r: StmtRing, k: int)
    requires
        r.wf(),
        0 < k < r.entries@.len(),
    ensures
        ((r.idx + k) % 0x1_0000_0000) % (r.entries@.len() as int) != r.next_place(),
        r.next_idx() == (r.idx + 1) % 0x1_0000_0000,
        ((r.idx + r.entries@.len()) % 0x1_0000_0000) % (r.entries@.len() as int) == r.next_place(),
{
    let n = r.entries@.len() as int;
    let i = r.idx as int;
    if n == 2048 {
        assert(((i + k) % 0x1_0000_0000) % 2048 != i % 2048) by (nonlinear_arith)
            requires
                0 < k < 2048,
                0 <= i < 0x1_0000_0000,
        {
            assert((i + k) % 0x1_0000_0000 == i + k || (i + k) % 0x1_0000_0000 == i + k
                - 0x1_0000_0000);
        }
    } else {
        assert(n == 4096);
        assert(((i + k) % 0x1_0000_0000) % 4096 != i % 4096) by (nonlinear_arith)
            requires
                0 < k < 4096,
                0 <= i < 0x1_0000_0000,
        {
            assert((i + k) % 0x1_0000_0000 == i + k || (i + k) % 0x1_0000_0000 == i + k
                - 0x1_0000_0000);
        }
    }
}

/// The beginning of a text is remembered, up to 255 bytes.
pub proof fn law_texts_are_clipped(sql: Seq<u8>)
    ensures
        clipped(Some(sql)).len() <= 255,
        clipped(Some(sql)).len() <= sql.len(),
        clipped(Some(sql)) == sql.take(clipped(Some(sql)).len() as int),
        sql.len() <= 255 ==> clipped(Some(sql)) == sql,
        sql.len() > 255 ==> clipped(Some(sql)).len() == 255,
        clipped(None).len() == 0,
{
    assert(sql.take(sql.len() as int) =~= sql);
}

/// The bindings of a statement are cleared by whoever has it: SQLite clears its own unless the
/// server runs the statement, and the values that are kept for the server are given back where the
/// statement is registered; nothing is done for one that was finalized of late and is to be left
/// alone.
pub proof fn law_bindings_are_cleared(l: Lifecycle, stmt: usize, skip: bool, registered: Option<i32>, now_ns: u64)
    ensures
        !skip || !recently_finalized(l.finalized, stmt, now_ns) ==> ({
            let c = clearing(l, stmt, skip, registered, now_ns);
            &&& c != Clearing::Skip
            &&& (c == Clearing::FreeAndAskLocal || c == Clearing::Free) <==> registered is Some
            &&& (c == Clearing::FreeAndAskLocal || c == Clearing::AskLocal) <==> (registered is None
                || registered->0 == 0)
        }),
        skip && recently_finalized(l.finalized, stmt, now_ns) ==> clearing(
            l,
            stmt,
            skip,
            registered,
            now_ns,
        ) == Clearing::Skip,
{
}

/// What has no handle is not remembered as finalized, and a statement that is finalized leaves the
/// others in their places.
pub proof fn law_others_stay_remembered(
    before: Lifecycle,
    after: Lifecycle,
    stmt: usize,
    sql: Option<Seq<u8>>,
    is_pg: i32,
    now_ns: u64,
    tid: u64,
    other: int,
)
    requires
        ended(before, after, stmt, sql, is_pg, now_ns, tid),
        0 <= other < before.finalized.entries@.len(),
    ensures
        stmt == 0 ==> after.finalized == before.finalized,
        other != before.finalized.next_place() ==> after.finalized.entries@[other]
            == before.finalized.entries@[other],
        after.anomalies == before.anomalies,
{
}

} // verus!
