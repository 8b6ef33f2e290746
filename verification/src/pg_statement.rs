//! Statements: which server-side statement stands behind a handle, what each thread keeps at
//! hand, how column types are named, and two rewritings of statement text.

use crate::registry;
use crate::search;
use crate::text;
use std::collections::HashMap;
use vstd::prelude::*;

verus! {

broadcast use vstd::std_specs::hash::group_hash_axioms;

/// Statement handle to server-side statement, and how many handles each statement has.
pub struct StmtRegistry {
    forward: HashMap<usize, usize>,
    counts: HashMap<usize, usize>,
}

/// The handles that lead to a statement.
pub open spec fn handles_of(forward: Map<usize, usize>, p: usize) -> Set<usize> {
    forward.dom().filter(|s: usize| forward[s] == p)
}

/// Some handle leads to the statement.
pub open spec fn is_registered(forward: Map<usize, usize>, p: usize) -> bool {
    exists|s: usize| #[trigger] forward.contains_key(s) && forward[s] == p
}

/// No handle leads to the null statement.
pub open spec fn no_nulls(forward: Map<usize, usize>) -> bool {
    forall|s: usize| #[trigger] forward.contains_key(s) ==> forward[s] != 0
}

/// The statements that some handle leads to are counted, each with the number of its handles.
pub open spec fn counted(forward: Map<usize, usize>, counts: Map<usize, usize>) -> bool {
    forall|p: usize|
        #![trigger counts.contains_key(p)]
        #![trigger counts[p]]
        #![trigger handles_of(forward, p)]
        counts.contains_key(p) == (handles_of(forward, p).len() > 0) && (counts.contains_key(p)
            ==> counts[p] == handles_of(forward, p).len())
}

proof fn lemma_handles(forward: Map<usize, usize>, p: usize)
    requires
        forward.dom().finite(),
    ensures
        handles_of(forward, p).finite(),
        handles_of(forward, p).len() <= forward.len(),
        is_registered(forward, p) == (handles_of(forward, p).len() > 0),
{
    let h = handles_of(forward, p);
    assert(h.subset_of(forward.dom()));
    vstd::set_lib::lemma_len_subset(h, forward.dom());
    if h.len() > 0 {
        let s = h.choose();
        assert(h.contains(s));
        assert(forward.contains_key(s));
    }
    if is_registered(forward, p) {
        let s = choose|s: usize| #[trigger] forward.contains_key(s) && forward[s] == p;
        assert(h.contains(s));
    }
}

proof fn lemma_handles_inserted(forward: Map<usize, usize>, s: usize, p: usize, x: usize)
    requires
        forward.dom().finite(),
    ensures
        handles_of(forward.insert(s, p), x) == if x == p {
            handles_of(forward, x).insert(s)
        } else {
            handles_of(forward, x).remove(s)
        },
        handles_of(forward, x).finite(),
        handles_of(forward, x).contains(s) == (forward.contains_key(s) && forward[s] == x),
{
    lemma_handles(forward, x);
    let after = forward.insert(s, p);
    assert(handles_of(after, x) =~= if x == p {
        handles_of(forward, x).insert(s)
    } else {
        handles_of(forward, x).remove(s)
    });
}

proof fn lemma_handles_removed(forward: Map<usize, usize>, s: usize, x: usize)
    requires
        forward.dom().finite(),
    ensures
        handles_of(forward.remove(s), x) == handles_of(forward, x).remove(s),
        handles_of(forward, x).finite(),
        handles_of(forward, x).contains(s) == (forward.contains_key(s) && forward[s] == x),
{
    lemma_handles(forward, x);
    assert(handles_of(forward.remove(s), x) =~= handles_of(forward, x).remove(s));
}

/// Counts one more.
fn count_up(counts: &mut HashMap<usize, usize>, p: usize)
    requires
        old(counts)@.contains_key(p) ==> old(counts)@[p] < usize::MAX,
    ensures
        final(counts)@ == old(counts)@.insert(
            p,
            if old(counts)@.contains_key(p) {
                (old(counts)@[p] + 1) as usize
            } else {
                1
            },
        ),
{
    let n: usize = match counts.get(&p) {
        Some(n) => *n + 1,
        None => 1,
    };
    let _ = counts.insert(p, n);
}

/// Counts one less; what is counted no more is forgotten.
fn count_down(counts: &mut HashMap<usize, usize>, p: usize)
    requires
        old(counts)@.contains_key(p),
        old(counts)@[p] > 0,
    ensures
        final(counts)@ == if old(counts)@[p] == 1 {
            old(counts)@.remove(p)
        } else {
            old(counts)@.insert(p, (old(counts)@[p] - 1) as usize)
        },
{
    let n: usize = match counts.get(&p) {
        Some(n) => *n,
        None => 1,
    };
    if n == 1 {
        let _ = counts.remove(&p);
    } else {
        let _ = counts.insert(p, n - 1);
    }
}

impl StmtRegistry {
    /// From handle to statement.
    pub closed spec fn forward(&self) -> Map<usize, usize> {
        self.forward@
    }

    /// The handles of each statement are counted.
    pub closed spec fn wf(&self) -> bool {
        counted(self.forward@, self.counts@)
    }

    /// A registry without statements.
    pub fn new() -> (r: Self)
        ensures
            r.wf(),
            r.forward() == Map::<usize, usize>::empty(),
    {
        let r = StmtRegistry { forward: HashMap::new(), counts: HashMap::new() };
        proof {
            assert forall|p: usize| handles_of(r.forward@, p).len() == 0 by {
                assert(handles_of(r.forward@, p) =~= Set::empty());
            }
        }
        r
    }

    /// Records the statement of a handle. The statement that the handle had before is ours as long
    /// as another handle leads to it.
    pub fn register(&mut self, sqlite_stmt: usize, pg_stmt: usize)
        requires
            old(self).wf(),
        ensures
            final(self).wf(),
            final(self).forward() == old(self).forward().insert(sqlite_stmt, pg_stmt),
    {
        let ghost before = self.forward@;
        let replaced = self.forward.insert(sqlite_stmt, pg_stmt);
        let size: usize = self.forward.len();
        proof {
            lemma_handles(before, pg_stmt);
            lemma_handles(self.forward@, pg_stmt);
            lemma_handles_inserted(before, sqlite_stmt, pg_stmt, pg_stmt);
            assert(handles_of(self.forward@, pg_stmt).len() <= size);
            assert forall|x: usize| #[trigger] handles_of(self.forward@, x) == if x == pg_stmt {
                handles_of(before, x).insert(sqlite_stmt)
            } else {
                handles_of(before, x).remove(sqlite_stmt)
            } && handles_of(before, x).finite() && handles_of(before, x).contains(sqlite_stmt) == (
            before.contains_key(sqlite_stmt) && before[sqlite_stmt] == x) by {
                lemma_handles_inserted(before, sqlite_stmt, pg_stmt, x);
            }
        }
        match replaced {
            Some(old_pg) => {
                if old_pg != pg_stmt {
                    assert(handles_of(before, old_pg).contains(sqlite_stmt)) by {
                        lemma_handles_inserted(before, sqlite_stmt, pg_stmt, old_pg);
                    }
                    count_down(&mut self.counts, old_pg);
                    count_up(&mut self.counts, pg_stmt);
                }
            },
            None => count_up(&mut self.counts, pg_stmt),
        }
    }

    /// Forgets a handle. Its statement is ours as long as another handle leads to it.
    pub fn unregister(&mut self, sqlite_stmt: usize)
        requires
            old(self).wf(),
        ensures
            final(self).wf(),
            final(self).forward() == old(self).forward().remove(sqlite_stmt),
    {
        let ghost before = self.forward@;
        let removed = self.forward.remove(&sqlite_stmt);
        proof {
            assert forall|x: usize| #[trigger] handles_of(self.forward@, x) == handles_of(
                before,
                x,
            ).remove(sqlite_stmt) && handles_of(before, x).finite() && handles_of(
                before,
                x,
            ).contains(sqlite_stmt) == (before.contains_key(sqlite_stmt) && before[sqlite_stmt]
                == x) by {
                lemma_handles_removed(before, sqlite_stmt, x);
            }
        }
        if let Some(pg_stmt) = removed {
            assert(handles_of(before, pg_stmt).contains(sqlite_stmt)) by {
                lemma_handles_removed(before, sqlite_stmt, pg_stmt);
            }
            count_down(&mut self.counts, pg_stmt);
        }
    }

    /// The statement of a handle.
    pub fn find(&self, sqlite_stmt: usize) -> (r: Option<usize>)
        ensures
            r == registry::held(self.forward(), sqlite_stmt),
    {
        match self.forward.get(&sqlite_stmt) {
            Some(p) => Some(*p),
            None => None,
        }
    }

    /// Is this one of our statements: does a handle lead to it?
    pub fn is_ours(&self, pg_stmt: usize) -> (r: bool)
        requires
            self.wf(),
        ensures
            r == is_registered(self.forward(), pg_stmt),
    {
        proof {
            lemma_handles(self.forward@, pg_stmt);
        }
        self.counts.contains_key(&pg_stmt)
    }

    /// Forgets everything.
    pub fn clear(&mut self)
        ensures
            final(self).wf(),
            final(self).forward() == Map::<usize, usize>::empty(),
    {
        self.forward.clear();
        self.counts.clear();
        proof {
            assert forall|p: usize| handles_of(self.forward@, p).len() == 0 by {
                assert(handles_of(self.forward@, p) =~= Set::empty());
            }
        }
    }

    /// How many handles are registered.
    pub fn len(&self) -> (r: usize)
        ensures
            r == self.forward().len(),
            self.forward().dom().finite(),
    {
        self.forward.len()
    }

    /// Records the statement of a handle, unless one of the two is null.
    pub fn rust_stmt_register(&mut self, sqlite_stmt: usize, pg_stmt: usize)
        requires
            old(self).wf(),
        ensures
            final(self).wf(),
            sqlite_stmt == 0 || pg_stmt == 0 ==> *final(self) == *old(self),
            sqlite_stmt != 0 && pg_stmt != 0 ==> final(self).forward() == old(
                self,
            ).forward().insert(sqlite_stmt, pg_stmt),
            no_nulls(old(self).forward()) ==> no_nulls(final(self).forward()),
    {
        if sqlite_stmt == 0 || pg_stmt == 0 {
            return ;
        }
        self.register(sqlite_stmt, pg_stmt);
    }

    /// Forgets a handle, unless it is null.
    pub fn rust_stmt_unregister(&mut self, sqlite_stmt: usize)
        requires
            old(self).wf(),
        ensures
            final(self).wf(),
            sqlite_stmt == 0 ==> *final(self) == *old(self),
            sqlite_stmt != 0 ==> final(self).forward() == old(self).forward().remove(sqlite_stmt),
            no_nulls(old(self).forward()) ==> no_nulls(final(self).forward()),
    {
        if sqlite_stmt == 0 {
            return ;
        }
        self.unregister(sqlite_stmt);
    }

    /// The statement of a handle, zero if there is none.
    pub fn rust_stmt_find(&self, sqlite_stmt: usize) -> (r: usize)
        ensures
            r == (if sqlite_stmt != 0 && self.forward().contains_key(sqlite_stmt) {
                self.forward()[sqlite_stmt]
            } else {
                0usize
            }),
            no_nulls(self.forward()) ==> (r == 0 <==> sqlite_stmt == 0
                || !self.forward().contains_key(sqlite_stmt)),
    {
        if sqlite_stmt == 0 {
            return 0;
        }
        match self.find(sqlite_stmt) {
            Some(p) => p,
            None => 0,
        }
    }

    /// The statement of a handle, looked up here first and then in what the thread keeps; zero if
    /// there is none.
    pub fn rust_stmt_find_any(&self, kept: &ThreadCachedStmts, sqlite_stmt: usize) -> (r: usize)
        requires
            kept.wf(),
        ensures
            r == (if sqlite_stmt == 0 {
                0usize
            } else if self.forward().contains_key(sqlite_stmt) {
                self.forward()[sqlite_stmt]
            } else {
                match kept_for(kept@, sqlite_stmt) {
                    Some(p) => p,
                    None => 0usize,
                }
            }),
            no_nulls(self.forward()) && no_null_kept(kept@) ==> (r == 0 <==> sqlite_stmt == 0 || (
            !self.forward().contains_key(sqlite_stmt) && kept_for(kept@, sqlite_stmt) is None)),
    {
        proof {
            lemma_position(kept@, sqlite_stmt);
        }
        if sqlite_stmt == 0 {
            return 0;
        }
        if let Some(p) = self.find(sqlite_stmt) {
            return p;
        }
        match kept.find(sqlite_stmt) {
            Some(p) => p,
            None => 0,
        }
    }

    /// 1 if this is one of our statements; null never is.
    pub fn rust_stmt_is_ours(&self, pg_stmt: usize) -> (r: i32)
        requires
            self.wf(),
        ensures
            r == (if pg_stmt != 0 && is_registered(self.forward(), pg_stmt) {
                1i32
            } else {
                0i32
            }),
    {
        if pg_stmt != 0 && self.is_ours(pg_stmt) {
            1
        } else {
            0
        }
    }

    /// Forgets everything and returns the statements of all handles, which the caller has to let
    /// go, in no particular order.
    pub fn rust_stmt_registry_cleanup(&mut self) -> (r: Vec<usize>)
        ensures
            final(self).wf(),
            final(self).forward() == Map::<usize, usize>::empty(),
            is_listing(old(self).forward(), r@),
    {
        let ghost forward = self.forward@;
        let mut out: Vec<usize> = Vec::new();
        for k in it: self.forward.keys()
            invariant
                forward == self.forward@,
                it.seq().unref().to_set() == forward.dom(),
                it.seq().no_duplicates(),
                out@.len() == it.index(),
                forall|i: int|
                    0 <= i < it.index() ==> #[trigger] out@[i] == forward[it.seq().unref()[i]],
        {
            proof {
                let all = it.seq().unref();
                assert(all[it.index() as int] == *k);
                assert(all.to_set().contains(*k));
            }
            if let Some(p) = self.forward.get(k) {
                out.push(*p);
            }
        }
        proof {
            let refs = vstd::std_specs::iter::IteratorSpec::remaining(&self.forward.keys());
            let all = refs.unref();
            assert(all.no_duplicates()) by {
                assert forall|a: int, b: int|
                    0 <= a < all.len() && 0 <= b < all.len() && a != b implies all[a] != all[b] by {
                    assert(refs[a] != refs[b]);
                }
            }
            assert(out@ =~= all.map_values(|k: usize| forward[k]));
            assert(lists_as(forward, all, out@));
        }
        self.clear();
        out
    }
}

/// The handles, each once in some order, lead to these statements.
pub open spec fn lists_as(forward: Map<usize, usize>, handles: Seq<usize>, stmts: Seq<usize>) -> bool {
    &&& handles.no_duplicates()
    &&& handles.to_set() == forward.dom()
    &&& stmts == handles.map_values(|k: usize| forward[k])
}

/// The statements of all handles, in some order, each as often as handles lead to it.
pub open spec fn is_listing(forward: Map<usize, usize>, stmts: Seq<usize>) -> bool {
    exists|handles: Seq<usize>| lists_as(forward, handles, stmts)
}

/// After a handle is registered, the handle leads to the statement and the statement is ours.
/// After it is unregistered, it leads nowhere, and its statement is ours exactly if another handle
/// leads to it. Other handles lead where they led.
pub proof fn law_register_then_find(forward: Map<usize, usize>, s: usize, p: usize, other: usize)
    ensures
        registry::held(forward.insert(s, p), s) == Some(p),
        is_registered(forward.insert(s, p), p),
        registry::held(forward.remove(s), s) is None,
        other != s ==> registry::held(forward.insert(s, p), other) == registry::held(forward, other),
        other != s ==> registry::held(forward.remove(s), other) == registry::held(forward, other),
        is_registered(forward.remove(s), p) <==> exists|t: usize|
            t != s && #[trigger] forward.contains_key(t) && forward[t] == p,
{
    assert(forward.insert(s, p).contains_key(s));
    let after = forward.remove(s);
    if is_registered(after, p) {
        let t = choose|t: usize| #[trigger] after.contains_key(t) && after[t] == p;
        assert(forward.contains_key(t));
    }
    if exists|t: usize| t != s && #[trigger] forward.contains_key(t) && forward[t] == p {
        let t = choose|t: usize| t != s && #[trigger] forward.contains_key(t) && forward[t] == p;
        assert(after.contains_key(t));
    }
}

/// How many statements a thread keeps at hand.
pub const MAX_CACHED_STMTS_PER_THREAD: usize = 64;

/// A handle and its statement, as a thread keeps them.
#[derive(Clone, Copy, Debug, PartialEq, Eq, Structural)]
pub struct CachedStmtEntry {
    pub sqlite_stmt: usize,
    pub pg_stmt: usize,
}

/// What a thread keeps at hand, oldest first.
pub struct ThreadCachedStmts {
    pub entries: Vec<CachedStmtEntry>,
}

impl View for ThreadCachedStmts {
    type V = Seq<CachedStmtEntry>;

    open spec fn view(&self) -> Seq<CachedStmtEntry> {
        self.entries@
    }
}

/// Where a handle stands.
pub open spec fn position(e: Seq<CachedStmtEntry>, sqlite_stmt: usize) -> Option<int> {
    search::first_index(|i: int| e[i].sqlite_stmt == sqlite_stmt, 0, e.len() as int)
}

/// The statement kept for a handle.
pub open spec fn kept_for(e: Seq<CachedStmtEntry>, sqlite_stmt: usize) -> Option<usize> {
    match position(e, sqlite_stmt) {
        Some(i) => Some(e[i].pg_stmt),
        None => None,
    }
}

/// No handle stands twice, and there are no more than the limit.
pub open spec fn kept_ok(e: Seq<CachedStmtEntry>) -> bool {
    &&& e.len() <= MAX_CACHED_STMTS_PER_THREAD
    &&& forall|i: int, j: int|
        0 <= i < e.len() && 0 <= j < e.len() && (#[trigger] e[i]).sqlite_stmt == (
        #[trigger] e[j]).sqlite_stmt ==> i == j
}

/// The null statement is not kept.
pub open spec fn no_null_kept(e: Seq<CachedStmtEntry>) -> bool {
    forall|i: int| 0 <= i < e.len() ==> (#[trigger] e[i]).pg_stmt != 0
}

/// What is kept after a handle was given a statement: in place of its earlier one, else at the
/// end, the oldest making room where there is none.
pub open spec fn placed(e: Seq<CachedStmtEntry>, sqlite_stmt: usize, pg_stmt: usize) -> Seq<
    CachedStmtEntry,
> {
    let entry = CachedStmtEntry { sqlite_stmt, pg_stmt };
    match position(e, sqlite_stmt) {
        Some(i) => e.update(i, entry),
        None => if e.len() < MAX_CACHED_STMTS_PER_THREAD {
            e.push(entry)
        } else {
            e.drop_first().push(entry)
        },
    }
}

/// What is kept after a handle was taken out.
pub open spec fn without(e: Seq<CachedStmtEntry>, sqlite_stmt: usize) -> Seq<CachedStmtEntry> {
    match position(e, sqlite_stmt) {
        Some(i) => e.remove(i),
        None => e,
    }
}

/// What has to be let go when a handle is given a statement, and whether before the new one is
/// taken hold of.
#[derive(Clone, Copy, Debug, PartialEq, Eq, Structural)]
pub enum LetGo {
    Nothing,
    Before { pg_stmt: usize },
    After { pg_stmt: usize },
}

/// The statement that has to be let go: the handle's earlier one, if it is another, else the
/// oldest, if it has to make room.
pub open spec fn let_go(e: Seq<CachedStmtEntry>, sqlite_stmt: usize, pg_stmt: usize) -> LetGo {
    match position(e, sqlite_stmt) {
        Some(i) => if e[i].pg_stmt != pg_stmt {
            LetGo::Before { pg_stmt: e[i].pg_stmt }
        } else {
            LetGo::Nothing
        },
        None => if e.len() < MAX_CACHED_STMTS_PER_THREAD {
            LetGo::Nothing
        } else {
            LetGo::After { pg_stmt: e[0].pg_stmt }
        },
    }
}

proof fn lemma_position(e: Seq<CachedStmtEntry>, s: usize)
    ensures
        match position(e, s) {
            Some(i) => 0 <= i < e.len() && e[i].sqlite_stmt == s && forall|j: int|
                0 <= j < i ==> (#[trigger] e[j]).sqlite_stmt != s,
            None => forall|j: int| 0 <= j < e.len() ==> (#[trigger] e[j]).sqlite_stmt != s,
        },
{
    let p = |i: int| e[i].sqlite_stmt == s;
    search::lemma_first_index(p, 0, e.len() as int);
    assert forall|k: int| !p(k) implies (#[trigger] e[k]).sqlite_stmt != s by {}
}

impl ThreadCachedStmts {
    pub open spec fn wf(&self) -> bool {
        kept_ok(self@)
    }

    /// Nothing is kept.
    pub fn new() -> (r: Self)
        ensures
            r.wf(),
            r@ == Seq::<CachedStmtEntry>::empty(),
    {
        ThreadCachedStmts { entries: Vec::new() }
    }

    fn locate(&self, sqlite_stmt: usize) -> (r: Option<usize>)
        ensures
            search::index(r) == position(self@, sqlite_stmt),
            r is Some ==> r->0 < self@.len() && self@[r->0 as int].sqlite_stmt == sqlite_stmt,
    {
        let mut i: usize = 0;
        while i < self.entries.len()
            invariant
                forall|j: int| 0 <= j < i ==> (#[trigger] self.entries@[j]).sqlite_stmt != sqlite_stmt,
            decreases self.entries@.len() - i,
        {
            if self.entries[i].sqlite_stmt == sqlite_stmt {
                proof {
                    lemma_position(self@, sqlite_stmt);
                }
                return Some(i);
            }
            i += 1;
        }
        proof {
            lemma_position(self@, sqlite_stmt);
        }
        None
    }

    /// Keeps a statement for a handle and says which one has to be let go.
    pub fn place(&mut self, sqlite_stmt: usize, pg_stmt: usize) -> (r: LetGo)
        requires
            old(self).wf(),
        ensures
            final(self).wf(),
            final(self)@ == placed(old(self)@, sqlite_stmt, pg_stmt),
            r == let_go(old(self)@, sqlite_stmt, pg_stmt),
    {
        proof {
            lemma_position(self@, sqlite_stmt);
        }
        let entry = CachedStmtEntry { sqlite_stmt, pg_stmt };
        match self.locate(sqlite_stmt) {
            Some(i) => {
                let old_pg: usize = self.entries[i].pg_stmt;
                self.entries.set(i, entry);
                if old_pg != pg_stmt {
                    LetGo::Before { pg_stmt: old_pg }
                } else {
                    LetGo::Nothing
                }
            },
            None => {
                if self.entries.len() < MAX_CACHED_STMTS_PER_THREAD {
                    self.entries.push(entry);
                    LetGo::Nothing
                } else {
                    let oldest = self.entries.remove(0);
                    proof {
                        assert(self.entries@ == old(self)@.drop_first());
                    }
                    self.entries.push(entry);
                    LetGo::After { pg_stmt: oldest.pg_stmt }
                }
            },
        }
    }

    /// Keeps a statement for a handle: takes hold of it once with `ref_fn` and lets the one that it
    /// replaces, and no other, go once with `unref_fn`.
    pub fn register(
        &mut self,
        sqlite_stmt: usize,
        pg_stmt: usize,
        ref_fn: impl FnOnce(usize),
        unref_fn: impl FnOnce(usize),
    )
        requires
            old(self).wf(),
            call_requires(ref_fn, (pg_stmt,)),
            match let_go(old(self)@, sqlite_stmt, pg_stmt) {
                LetGo::Before { pg_stmt: p } => call_requires(unref_fn, (p,)),
                LetGo::After { pg_stmt: p } => call_requires(unref_fn, (p,)),
                LetGo::Nothing => true,
            },
        ensures
            final(self).wf(),
            final(self)@ == placed(old(self)@, sqlite_stmt, pg_stmt),
            call_ensures(ref_fn, (pg_stmt,), ()),
            match let_go(old(self)@, sqlite_stmt, pg_stmt) {
                LetGo::Before { pg_stmt: p } => call_ensures(unref_fn, (p,), ()),
                LetGo::After { pg_stmt: p } => call_ensures(unref_fn, (p,), ()),
                LetGo::Nothing => true,
            },
    {
        match self.place(sqlite_stmt, pg_stmt) {
            LetGo::Before { pg_stmt: p } => {
                unref_fn(p);
                ref_fn(pg_stmt);
            },
            LetGo::After { pg_stmt: p } => {
                ref_fn(pg_stmt);
                unref_fn(p);
            },
            LetGo::Nothing => {
                ref_fn(pg_stmt);
            },
        }
    }

    /// The statement kept for a handle.
    pub fn find(&self, sqlite_stmt: usize) -> (r: Option<usize>)
        ensures
            r == kept_for(self@, sqlite_stmt),
    {
        match self.locate(sqlite_stmt) {
            Some(i) => Some(self.entries[i].pg_stmt),
            None => None,
        }
    }

    /// Stops keeping a handle's statement and returns it.
    pub fn take(&mut self, sqlite_stmt: usize) -> (r: Option<usize>)
        requires
            old(self).wf(),
        ensures
            final(self).wf(),
            r == kept_for(old(self)@, sqlite_stmt),
            final(self)@ == without(old(self)@, sqlite_stmt),
    {
        match self.locate(sqlite_stmt) {
            Some(i) => {
                let e = self.entries.remove(i);
                Some(e.pg_stmt)
            },
            None => None,
        }
    }

    /// Stops keeping a handle's statement and lets it go once with `unref_fn`.
    pub fn clear(&mut self, sqlite_stmt: usize, unref_fn: impl FnOnce(usize))
        requires
            old(self).wf(),
            match kept_for(old(self)@, sqlite_stmt) {
                Some(p) => call_requires(unref_fn, (p,)),
                None => true,
            },
        ensures
            final(self).wf(),
            final(self)@ == without(old(self)@, sqlite_stmt),
            match kept_for(old(self)@, sqlite_stmt) {
                Some(p) => call_ensures(unref_fn, (p,), ()),
                None => true,
            },
    {
        if let Some(p) = self.take(sqlite_stmt) {
            unref_fn(p);
        }
    }

    /// Stops keeping a handle's statement without letting it go: somebody else owns it.
    pub fn clear_weak(&mut self, sqlite_stmt: usize)
        requires
            old(self).wf(),
        ensures
            final(self).wf(),
            final(self)@ == without(old(self)@, sqlite_stmt),
    {
        let _ = self.take(sqlite_stmt);
    }

    /// Keeps a statement for a handle as `register` does, unless one of the two is null.
    pub fn rust_cached_stmt_register(
        &mut self,
        sqlite_stmt: usize,
        pg_stmt: usize,
        ref_fn: impl FnOnce(usize),
        unref_fn: impl FnOnce(usize),
    )
        requires
            old(self).wf(),
            sqlite_stmt != 0 && pg_stmt != 0 ==> call_requires(ref_fn, (pg_stmt,)) && match let_go(
                old(self)@,
                sqlite_stmt,
                pg_stmt,
            ) {
                LetGo::Before { pg_stmt: p } => call_requires(unref_fn, (p,)),
                LetGo::After { pg_stmt: p } => call_requires(unref_fn, (p,)),
                LetGo::Nothing => true,
            },
        ensures
            final(self).wf(),
            no_null_kept(old(self)@) ==> no_null_kept(final(self)@),
            sqlite_stmt == 0 || pg_stmt == 0 ==> final(self)@ == old(self)@,
            sqlite_stmt != 0 && pg_stmt != 0 ==> {
                &&& final(self)@ == placed(old(self)@, sqlite_stmt, pg_stmt)
                &&& call_ensures(ref_fn, (pg_stmt,), ())
                &&& match let_go(old(self)@, sqlite_stmt, pg_stmt) {
                    LetGo::Before { pg_stmt: p } => call_ensures(unref_fn, (p,), ()),
                    LetGo::After { pg_stmt: p } => call_ensures(unref_fn, (p,), ()),
                    LetGo::Nothing => true,
                }
            },
    {
        if sqlite_stmt == 0 || pg_stmt == 0 {
            return ;
        }
        proof {
            if no_null_kept(self@) {
                law_no_null_is_kept(self@, sqlite_stmt, pg_stmt);
            }
        }
        self.register(sqlite_stmt, pg_stmt, ref_fn, unref_fn);
    }

    /// The statement kept for a handle, zero if there is none.
    pub fn rust_cached_stmt_find(&self, sqlite_stmt: usize) -> (r: usize)
        ensures
            r == (match kept_for(self@, sqlite_stmt) {
                Some(p) => if sqlite_stmt != 0 {
                    p
                } else {
                    0usize
                },
                None => 0usize,
            }),
            no_null_kept(self@) ==> (r == 0 <==> sqlite_stmt == 0 || kept_for(
                self@,
                sqlite_stmt,
            ) is None),
    {
        proof {
            lemma_position(self@, sqlite_stmt);
        }
        if sqlite_stmt == 0 {
            return 0;
        }
        match self.find(sqlite_stmt) {
            Some(p) => p,
            None => 0,
        }
    }

    /// Stops keeping a handle's statement as `clear` does, unless the handle is null.
    pub fn rust_cached_stmt_clear(&mut self, sqlite_stmt: usize, unref_fn: impl FnOnce(usize))
        requires
            old(self).wf(),
            match kept_for(old(self)@, sqlite_stmt) {
                Some(p) => sqlite_stmt != 0 ==> call_requires(unref_fn, (p,)),
                None => true,
            },
        ensures
            final(self).wf(),
            no_null_kept(old(self)@) ==> no_null_kept(final(self)@),
            sqlite_stmt == 0 ==> final(self)@ == old(self)@,
            sqlite_stmt != 0 ==> {
                &&& final(self)@ == without(old(self)@, sqlite_stmt)
                &&& match kept_for(old(self)@, sqlite_stmt) {
                    Some(p) => call_ensures(unref_fn, (p,), ()),
                    None => true,
                }
            },
    {
        if sqlite_stmt == 0 {
            return ;
        }
        proof {
            if no_null_kept(self@) {
                law_no_null_is_kept(self@, sqlite_stmt, 1);
            }
        }
        self.clear(sqlite_stmt, unref_fn);
    }

    /// Stops keeping a handle's statement without letting it go, unless the handle is null.
    pub fn rust_cached_stmt_clear_weak(&mut self, sqlite_stmt: usize)
        requires
            old(self).wf(),
        ensures
            final(self).wf(),
            no_null_kept(old(self)@) ==> no_null_kept(final(self)@),
            final(self)@ == if sqlite_stmt == 0 {
                old(self)@
            } else {
                without(old(self)@, sqlite_stmt)
            },
    {
        if sqlite_stmt == 0 {
            return ;
        }
        proof {
            if no_null_kept(self@) {
                law_no_null_is_kept(self@, sqlite_stmt, 1);
            }
        }
        self.clear_weak(sqlite_stmt);
    }

    /// Stops keeping anything and returns all statements, oldest first.
    pub fn drain_all(&mut self) -> (r: Vec<usize>)
        ensures
            final(self).wf(),
            final(self)@ == Seq::<CachedStmtEntry>::empty(),
            r@ == old(self)@.map_values(|e: CachedStmtEntry| e.pg_stmt),
    {
        let mut out: Vec<usize> = Vec::new();
        let mut i: usize = 0;
        while i < self.entries.len()
            invariant
                i <= self.entries@.len(),
                out@.len() == i,
                forall|k: int| 0 <= k < i ==> #[trigger] out@[k] == self.entries@[k].pg_stmt,
                self.entries@ == old(self)@,
            decreases self.entries@.len() - i,
        {
            out.push(self.entries[i].pg_stmt);
            i += 1;
        }
        self.entries.clear();
        out
    }
}

/// What was kept is found; other handles keep what they had, save for the oldest where it had to
/// make room.
pub proof fn law_kept_is_found(e: Seq<CachedStmtEntry>, s: usize, p: usize, other: usize)
    requires
        kept_ok(e),
    ensures
        kept_ok(placed(e, s, p)),
        kept_for(placed(e, s, p), s) == Some(p),
        other != s && (position(e, s) is Some || e.len() < MAX_CACHED_STMTS_PER_THREAD
            || e[0].sqlite_stmt != other) ==> kept_for(placed(e, s, p), other) == kept_for(e, other),
{
    let f = placed(e, s, p);
    lemma_position(e, s);
    lemma_position(e, other);
    lemma_position(f, s);
    lemma_position(f, other);
    match position(e, s) {
        Some(i) => {
            assert(f[i].sqlite_stmt == s);
            match position(e, other) {
                Some(j) => {
                    assert(f[j] == if j == i {
                        f[i]
                    } else {
                        e[j]
                    });
                },
                None => {},
            }
        },
        None => {
            assert(f[f.len() - 1].sqlite_stmt == s);
            let d = if e.len() < MAX_CACHED_STMTS_PER_THREAD {
                0int
            } else {
                1int
            };
            assert forall|k: int| 0 <= k < f.len() - 1 implies #[trigger] f[k] == e[k + d] by {}
            match position(e, other) {
                Some(j) => {
                    if j >= d {
                        assert(f[j - d] == e[j]);
                    }
                },
                None => {},
            }
        },
    }
}

/// Where the null statement is not kept, it is not kept after another statement was placed or a
/// handle was taken out.
pub proof fn law_no_null_is_kept(e: Seq<CachedStmtEntry>, s: usize, p: usize)
    requires
        no_null_kept(e),
        p != 0,
    ensures
        no_null_kept(placed(e, s, p)),
        no_null_kept(without(e, s)),
{
    lemma_position(e, s);
}

/// A handle that was taken out is kept no more, and other handles keep what they had.
pub proof fn law_taken_out_is_gone(e: Seq<CachedStmtEntry>, s: usize, other: usize)
    requires
        kept_ok(e),
    ensures
        kept_ok(without(e, s)),
        kept_for(without(e, s), s) is None,
        other != s ==> kept_for(without(e, s), other) == kept_for(e, other),
{
    let f = without(e, s);
    lemma_position(e, s);
    lemma_position(f, s);
    lemma_position(e, other);
    lemma_position(f, other);
    match position(e, s) {
        Some(i) => {
            assert forall|k: int| 0 <= k < f.len() implies #[trigger] f[k] == e[if k < i {
                k
            } else {
                k + 1
            }] by {}
            match position(e, other) {
                Some(j) => {
                    if j != i {
                        assert(f[if j < i {
                            j
                        } else {
                            j - 1
                        }] == e[j]);
                    }
                },
                None => {},
            }
        },
        None => {},
    }
}

/// How many column values can be handed out before the first one is used again.
pub const MAX_PG_VALUES: usize = 4096;

/// The mark by which a value of ours is known.
pub const PG_VALUE_MAGIC: u32 = 0x50475641;

/// A column value as it is handed out.
#[derive(Clone, Copy, Debug, PartialEq, Eq, Structural)]
pub struct PgValue {
    pub magic: u32,
    pub stmt: usize,
    pub col_idx: i32,
    pub sqlite_type: i32,
}

/// The column values, used in turn.
pub struct PgValuePool {
    values: Vec<PgValue>,
    next: u32,
}

impl PgValuePool {
    pub closed spec fn values(&self) -> Seq<PgValue> {
        self.values@
    }

    /// The counter of values handed out, modulo 2^32.
    pub closed spec fn next(&self) -> u32 {
        self.next
    }

    pub open spec fn wf(&self) -> bool {
        self.values().len() == MAX_PG_VALUES
    }

    /// No value was handed out.
    pub fn new() -> (r: Self)
        ensures
            r.wf(),
            r.next() == 0,
            forall|i: int|
                0 <= i < MAX_PG_VALUES ==> #[trigger] r.values()[i] == (PgValue {
                    magic: 0,
                    stmt: 0,
                    col_idx: 0,
                    sqlite_type: 0,
                }),
    {
        let mut values: Vec<PgValue> = Vec::new();
        for i in 0..MAX_PG_VALUES
            invariant
                values@.len() == i,
                forall|k: int|
                    0 <= k < i ==> #[trigger] values@[k] == (PgValue {
                        magic: 0,
                        stmt: 0,
                        col_idx: 0,
                        sqlite_type: 0,
                    }),
        {
            values.push(PgValue { magic: 0, stmt: 0, col_idx: 0, sqlite_type: 0 });
        }
        PgValuePool { values, next: 0 }
    }

    /// Fills the next value, going round, and returns its number.
    pub fn rust_create_column_value(&mut self, stmt: usize, col_idx: i32, sqlite_type: i32) -> (r:
        usize)
        requires
            old(self).wf(),
        ensures
            final(self).wf(),
            r == old(self).next() % 4096,
            final(self).next() == (if old(self).next() == u32::MAX {
                0u32
            } else {
                (old(self).next() + 1) as u32
            }),
            final(self).values() == old(self).values().update(
                r as int,
                PgValue { magic: PG_VALUE_MAGIC, stmt, col_idx, sqlite_type },
            ),
    {
        let slot: usize = (self.next % 4096) as usize;
        self.next = self.next.wrapping_add(1);
        self.values.set(slot, PgValue { magic: PG_VALUE_MAGIC, stmt, col_idx, sqlite_type });
        slot
    }

    /// The value with this number.
    pub fn value(&self, slot: usize) -> (r: PgValue)
        requires
            self.wf(),
            slot < MAX_PG_VALUES,
        ensures
            r == self.values()[slot as int],
    {
        self.values[slot]
    }
}

/// 1 if the value carries our mark.
pub fn rust_is_our_value(val: Option<&PgValue>) -> (r: i32)
    ensures
        r == (match val {
            Some(v) => if v.magic == PG_VALUE_MAGIC {
                1i32
            } else {
                0i32
            },
            None => 0i32,
        }),
{
    match val {
        Some(v) => if v.magic == PG_VALUE_MAGIC {
            1
        } else {
            0
        },
        None => 0,
    }
}

/// Column of integers.
pub const SQLITE_INTEGER: i32 = 1;

/// Column of floating-point numbers.
pub const SQLITE_FLOAT: i32 = 2;

/// Column of text.
pub const SQLITE_TEXT: i32 = 3;

/// Column of bytes.
pub const SQLITE_BLOB: i32 = 4;

/// No value.
pub const SQLITE_NULL: i32 = 5;

/// Type numbers of bool, int8, int2, int4 and oid.
pub open spec fn is_integer_oid(oid: u32) -> bool {
    oid == 16 || oid == 20 || oid == 21 || oid == 23 || oid == 26
}

/// Type numbers of float4, float8 and numeric.
pub open spec fn is_real_oid(oid: u32) -> bool {
    oid == 700 || oid == 701 || oid == 1700
}

/// The column type for a server type.
pub open spec fn type_of_oid(oid: u32) -> i32 {
    if is_integer_oid(oid) {
        SQLITE_INTEGER
    } else if is_real_oid(oid) {
        SQLITE_FLOAT
    } else if oid == 17 {
        SQLITE_BLOB
    } else {
        SQLITE_TEXT
    }
}

/// The declared type for a server type.
pub open spec fn decltype_of_oid(oid: u32) -> Seq<char> {
    if oid == 20 {
        "BIGINT"@
    } else if is_integer_oid(oid) {
        "INTEGER"@
    } else if is_real_oid(oid) {
        "REAL"@
    } else if oid == 17 {
        "BLOB"@
    } else {
        "TEXT"@
    }
}

/// The column type for a server type.
pub fn oid_to_sqlite_type(oid: u32) -> (r: i32)
    ensures
        r == type_of_oid(oid),
{
    match oid {
        16 | 20 | 21 | 23 | 26 => SQLITE_INTEGER,
        700 | 701 | 1700 => SQLITE_FLOAT,
        17 => SQLITE_BLOB,
        _ => SQLITE_TEXT,
    }
}

/// The column type for a server type.
pub fn rust_oid_to_sqlite_type(oid: u32) -> (r: i32)
    ensures
        r == type_of_oid(oid),
{
    oid_to_sqlite_type(oid)
}

/// The declared type for a server type. Only int8 is a `BIGINT`: callers read an `INTEGER` as 32
/// bits.
pub fn oid_to_sqlite_decltype(oid: u32) -> (r: &'static str)
    ensures
        r@ == decltype_of_oid(oid),
{
    match oid {
        16 | 21 | 23 | 26 => "INTEGER",
        20 => "BIGINT",
        700 | 701 | 1700 => "REAL",
        17 => "BLOB",
        _ => "TEXT",
    }
}

/// The declared type follows from the server type alone.
pub const DECLTYPE_CASE_NONE: i32 = 0;

/// The column has no declared type.
pub const DECLTYPE_CASE_NULL: i32 = 1;

/// The column is a time kept as a number.
pub const DECLTYPE_CASE_DT_INTEGER_8: i32 = 2;

/// An int8 column that holds a time, by its name.
pub open spec fn is_time_column(oid: u32, col: Seq<char>, sql: Seq<char>) -> bool {
    &&& oid == 20
    &&& {
        ||| text::occurs(col, "_at"@)
        ||| text::occurs(col, "timestamp"@)
        ||| text::occurs(col, "time"@)
        ||| col == "greatest"@ && text::occurs(sql, "metadata_items.changed_at"@)
    }
}

/// How the declared type of a column departs from that of its server type.
pub fn rust_decltype_special_case(oid: u32, col: &str, sql: &str, table_oid: u32) -> (r: i32)
    ensures
        r == (if is_time_column(oid, col@, sql@) {
            DECLTYPE_CASE_DT_INTEGER_8
        } else if table_oid == 0 {
            DECLTYPE_CASE_NULL
        } else {
            DECLTYPE_CASE_NONE
        }),
{
    proof {
        reveal_strlit("_at");
        reveal_strlit("time");
        reveal_strlit("timestamp");
        reveal_strlit("greatest");
    }
    if oid == 20 && !col.is_empty() {
        if text::contains(col, "_at") || text::contains(col, "timestamp") || text::contains(
            col,
            "time",
        ) {
            return DECLTYPE_CASE_DT_INTEGER_8;
        }
        if text::str_eq(col, "greatest") && text::contains(sql, "metadata_items.changed_at") {
            return DECLTYPE_CASE_DT_INTEGER_8;
        }
    }
    if table_oid == 0 {
        return DECLTYPE_CASE_NULL;
    }
    DECLTYPE_CASE_NONE
}

/// What turns an insertion of settings into an update of those that are there.
pub const ON_CONFLICT_CLAUSE: &'static str = " ON CONFLICT (account_id, guid) DO UPDATE SET rating = COALESCE(EXCLUDED.rating, plex.metadata_item_settings.rating), view_offset = EXCLUDED.view_offset, view_count = CASE WHEN plex.metadata_item_settings.view_count > 0 AND EXCLUDED.view_count = 0 THEN 0 ELSE GREATEST(EXCLUDED.view_count, plex.metadata_item_settings.view_count, 1) END, last_viewed_at = CASE WHEN plex.metadata_item_settings.view_count > 0 AND EXCLUDED.view_count = 0 THEN NULL ELSE COALESCE(EXCLUDED.last_viewed_at, EXTRACT(EPOCH FROM NOW())::bigint) END, updated_at = COALESCE(EXCLUDED.updated_at, EXTRACT(EPOCH FROM NOW())::bigint), skip_count = EXCLUDED.skip_count, last_skipped_at = EXCLUDED.last_skipped_at, changed_at = COALESCE(EXCLUDED.changed_at, EXTRACT(EPOCH FROM NOW())::bigint), extra_data = COALESCE(EXCLUDED.extra_data, plex.metadata_item_settings.extra_data), last_rated_at = COALESCE(EXCLUDED.last_rated_at, plex.metadata_item_settings.last_rated_at) RETURNING id";

/// An insertion into the settings of items that does not say yet what to do with those that are
/// there; `lower` is the text in lower case.
pub open spec fn is_plain_settings_insert(lower: Seq<char>) -> bool {
    &&& text::occurs(lower, "insert into"@)
    &&& text::occurs(lower, "metadata_item_settings"@)
    &&& !text::occurs(lower, "on conflict"@)
    &&& !text::occurs(lower, "returning"@)
}

/// The text with the clause behind it, if it is a plain insertion of settings.
pub fn settings_upsert(sql: &str, lower: &str) -> (r: Option<String>)
    ensures
        r is Some == is_plain_settings_insert(lower@),
        r is Some ==> r->0@ == sql@ + ON_CONFLICT_CLAUSE@,
{
    if !text::contains(lower, "insert into") {
        return None;
    }
    if !text::contains(lower, "metadata_item_settings") {
        return None;
    }
    if text::contains(lower, "on conflict") {
        return None;
    }
    if text::contains(lower, "returning") {
        return None;
    }
    Some(text::joined(sql, ON_CONFLICT_CLAUSE))
}

/// What turning a text into an update comes to: nothing, unless it is a plain insertion of settings,
/// and else the text with the clause behind it. Of a text that has the clause nothing comes.
pub open spec fn is_conversion(sql: Seq<char>, r: Option<Seq<char>>) -> bool {
    &&& r is Some == is_plain_settings_insert(text::lowercase(sql))
    &&& r is Some ==> r->0 == sql + ON_CONFLICT_CLAUSE@
    &&& text::all_ascii(sql) ==> r is Some == is_plain_settings_insert(text::lowered(sql))
    &&& text::ends_in(sql, ON_CONFLICT_CLAUSE@) ==> r is None
}

/// The text of a string that may be missing.
pub open spec fn opt_text(o: Option<String>) -> Option<Seq<char>> {
    match o {
        Some(s) => Some(s@),
        None => None,
    }
}

/// Turns an insertion of settings into an update of those that are there.
pub fn convert_metadata_settings_upsert(sql: &str) -> (r: Option<String>)
    ensures
        is_conversion(sql@, opt_text(r)),
{
    let lower = text::to_lowercase(sql);
    proof {
        if text::ends_in(sql@, ON_CONFLICT_CLAUSE@) {
            lemma_clause();
            let k = sql@.len() - ON_CONFLICT_CLAUSE@.len();
            assert(text::all_ascii(sql@.skip(k)));
            let tail = text::lowered(ON_CONFLICT_CLAUSE@);
            let at = (lower@.len() - 12) as int;
            assert(lower@.skip(lower@.len() - tail.len()) == tail);
            assert(lower@.subrange(at, at + 9) =~= tail.subrange(tail.len() - 12, tail.len() - 3));
            assert(text::occurs_at(lower@, at, "returning"@));
        }
    }
    settings_upsert(sql, lower.as_str())
}

/// A decimal digit?
pub open spec fn is_digit(c: char) -> bool {
    '0' <= c <= '9'
}

/// How many digits stand at the start.
pub open spec fn leading_digits(s: Seq<char>) -> nat
    decreases s.len(),
{
    if s.len() > 0 && is_digit(s[0]) {
        1 + leading_digits(s.drop_first())
    } else {
        0
    }
}

/// The number that digits stand for.
pub open spec fn decimal(s: Seq<char>) -> nat
    decreases s.len(),
{
    if s.len() == 0 {
        0
    } else {
        decimal(s.drop_last()) * 10 + (s.last() as u32 - '0' as u32) as nat
    }
}

/// The number at the start of the text; zero if there is none or it does not fit 64 bits.
pub open spec fn leading_number(s: Seq<char>) -> int {
    let n = decimal(s.take(leading_digits(s) as int)) as int;
    if n <= i64::MAX {
        n
    } else {
        0
    }
}

/// What stands behind the item's path, which is escaped or, failing that, plain.
pub open spec fn behind_metadata_path(sql: Seq<char>) -> Option<Seq<char>> {
    match text::first_occurrence(sql, 0, "%2Fmetadata%2F"@) {
        Some(i) => Some(sql.skip(i + 14)),
        None => match text::first_occurrence(sql, 0, "/metadata/"@) {
            Some(i) => Some(sql.skip(i + 10)),
            None => None,
        },
    }
}

/// The number of the item that an insertion into the play queue is about, zero if there is none;
/// `lower` is the text in lower case.
pub open spec fn queued_item(sql: Seq<char>, lower: Seq<char>) -> int {
    if text::occurs(lower, "play_queue_generators"@) && text::occurs(lower, "insert"@) {
        match behind_metadata_path(sql) {
            Some(rest) => leading_number(rest),
            None => 0,
        }
    } else {
        0
    }
}

/// As many digits stand at the start as stand there before the first other character.
pub proof fn lemma_leading_digits(s: Seq<char>, n: int)
    requires
        0 <= n <= s.len(),
        forall|i: int| 0 <= i < n ==> is_digit(#[trigger] s[i]),
        n < s.len() ==> !is_digit(s[n]),
    ensures
        leading_digits(s) == n,
    decreases n,
{
    if n > 0 {
        assert(is_digit(s[0]));
        let t = s.drop_first();
        assert forall|i: int| 0 <= i < n - 1 implies is_digit(#[trigger] t[i]) by {
            assert(t[i] == s[i + 1]);
        }
        if n < s.len() {
            assert(t[n - 1] == s[n]);
        }
        lemma_leading_digits(t, n - 1);
    }
}

/// The number at the start of the text from `from` on.
fn number_at(v: &[char], from: usize) -> (r: i64)
    requires
        from <= v@.len(),
    ensures
        r == leading_number(v@.skip(from as int)),
{
    let ghost s = v@.skip(from as int);
    let mut acc: i64 = 0;
    let mut fits = true;
    let mut i: usize = from;
    assert(s.take(0) == Seq::<char>::empty());
    while i < v.len() && v[i] >= '0' && v[i] <= '9'
        invariant
            from <= i <= v@.len(),
            s == v@.skip(from as int),
            forall|k: int| 0 <= k < i - from ==> is_digit(#[trigger] s[k]),
            acc >= 0,
            fits ==> acc == decimal(s.take(i - from)),
            !fits ==> decimal(s.take(i - from)) > i64::MAX,
        decreases v@.len() - i,
    {
        let d: i64 = v[i] as i64 - 48;
        proof {
            let k = i - from;
            assert(s[k] == v@[i as int]);
            assert(s.take(k + 1).drop_last() == s.take(k));
            assert(s.take(k + 1).last() == v@[i as int]);
        }
        if fits {
            if acc > (i64::MAX - d) / 10 {
                fits = false;
            } else {
                acc = acc * 10 + d;
            }
        }
        i += 1;
    }
    proof {
        let n = i - from;
        if n < s.len() {
            assert(s[n] == v@[i as int]);
        }
        lemma_leading_digits(s, n);
    }
    if fits {
        acc
    } else {
        0
    }
}

/// The number of the item that an insertion into the play queue is about; `lower` is the text in
/// lower case.
pub fn queued_item_id(sql: &str, lower: &str) -> (r: i64)
    ensures
        r == queued_item(sql@, lower@),
{
    if !text::contains(lower, "play_queue_generators") {
        return 0;
    }
    if !text::contains(lower, "insert") {
        return 0;
    }
    proof {
        reveal_strlit("%2Fmetadata%2F");
        reveal_strlit("/metadata/");
        text::lemma_occurs(sql@, "%2Fmetadata%2F"@);
        text::lemma_occurs(sql@, "/metadata/"@);
    }
    let v = text::chars_of(sql);
    let escaped = text::chars_of("%2Fmetadata%2F");
    if let Some(i) = text::find_from(v.as_slice(), 0, escaped.as_slice()) {
        return number_at(v.as_slice(), i + 14);
    }
    let plain = text::chars_of("/metadata/");
    if let Some(i) = text::find_from(v.as_slice(), 0, plain.as_slice()) {
        return number_at(v.as_slice(), i + 10);
    }
    0
}

/// The number of the item that an insertion into the play queue is about; zero if there is none.
pub fn extract_metadata_id(sql: &str) -> (r: i64)
    ensures
        r == queued_item(sql@, text::lowercase(sql@)),
        text::all_ascii(sql@) ==> r == queued_item(sql@, text::lowered(sql@)),
{
    let lower = text::to_lowercase(sql);
    queued_item_id(sql, lower.as_str())
}

/// The clause is all ASCII, and says in lower case what is returned.
proof fn lemma_clause()
    ensures
        text::all_ascii(ON_CONFLICT_CLAUSE@),
        ON_CONFLICT_CLAUSE@.len() >= 12,
        ({
            let tail = text::lowered(ON_CONFLICT_CLAUSE@);
            tail.subrange(tail.len() - 12, tail.len() - 3) == "returning"@
        }),
{
    reveal_strlit("returning");
    reveal_strlit(" ON CONFLICT (account_id, guid) DO UPDATE SET rating = COALESCE(EXCLUDED.rating, plex.metadata_item_settings.rating), view_offset = EXCLUDED.view_offset, view_count = CASE WHEN plex.metadata_item_settings.view_count > 0 AND EXCLUDED.view_count = 0 THEN 0 ELSE GREATEST(EXCLUDED.view_count, plex.metadata_item_settings.view_count, 1) END, last_viewed_at = CASE WHEN plex.metadata_item_settings.view_count > 0 AND EXCLUDED.view_count = 0 THEN NULL ELSE COALESCE(EXCLUDED.last_viewed_at, EXTRACT(EPOCH FROM NOW())::bigint) END, updated_at = COALESCE(EXCLUDED.updated_at, EXTRACT(EPOCH FROM NOW())::bigint), skip_count = EXCLUDED.skip_count, last_skipped_at = EXCLUDED.last_skipped_at, changed_at = COALESCE(EXCLUDED.changed_at, EXTRACT(EPOCH FROM NOW())::bigint), extra_data = COALESCE(EXCLUDED.extra_data, plex.metadata_item_settings.extra_data), last_rated_at = COALESCE(EXCLUDED.last_rated_at, plex.metadata_item_settings.last_rated_at) RETURNING id");
    let tail = text::lowered(ON_CONFLICT_CLAUSE@);
    assert(tail.subrange(tail.len() - 12, tail.len() - 3) =~= "returning"@);
}

/// A converted insertion is not converted again.
pub proof fn law_upsert_once(sql: Seq<char>, first: Seq<char>, second: Option<Seq<char>>)
    requires
        is_conversion(sql, Some(first)),
        is_conversion(first, second),
    ensures
        second is None,
{
    assert(first.skip(first.len() - ON_CONFLICT_CLAUSE@.len()) =~= ON_CONFLICT_CLAUSE@);
}

/// Keeping a statement lets go of one at most: the one that the handle had, where it is another, or
/// else the oldest, where 64 are kept already. What is let go is not kept any more for its handle,
/// and nothing else is lost.
pub proof fn law_what_is_let_go(e: Seq<CachedStmtEntry>, s: usize, p: usize)
    requires
        kept_ok(e),
    ensures
        let_go(e, s, p) matches LetGo::Before { pg_stmt } ==> kept_for(e, s) == Some(pg_stmt)
            && pg_stmt != p,
        let_go(e, s, p) matches LetGo::After { pg_stmt } ==> kept_for(e, s) is None && e.len() == 64
            && pg_stmt == e[0].pg_stmt,
        let_go(e, s, p) == LetGo::Nothing ==> kept_for(e, s) == Some(p) || (kept_for(e, s) is None
            && e.len() < 64),
        placed(e, s, p).len() == if kept_for(e, s) is None && e.len() < 64 {
            e.len() + 1
        } else {
            e.len()
        },
        forall|i: int|
            0 <= i < e.len() && (#[trigger] e[i]).sqlite_stmt != s && !(i == 0 && kept_for(e, s)
                is None && e.len() == 64) ==> placed(e, s, p).contains(e[i]),
{
    lemma_position(e, s);
    let f = placed(e, s, p);
    assert forall|i: int|
        0 <= i < e.len() && (#[trigger] e[i]).sqlite_stmt != s && !(i == 0 && kept_for(e, s) is None
            && e.len() == 64) implies f.contains(e[i]) by {
        if position(e, s) is Some {
            assert(f[i] == e[i]);
        } else if e.len() < 64 {
            assert(f[i] == e[i]);
        } else {
            assert(f[i - 1] == e[i]);
        }
    }
}

/// The type of a column and its declared type agree: whole numbers are integers, `BIGINT` only where
/// they have 64 bits, numbers with a fraction are real, bytes are blobs, and all else is text.
pub proof fn law_types_agree(oid: u32)
    ensures
        type_of_oid(oid) == 1 <==> decltype_of_oid(oid) == "INTEGER"@ || decltype_of_oid(oid)
            == "BIGINT"@,
        type_of_oid(oid) == 2 <==> decltype_of_oid(oid) == "REAL"@,
        type_of_oid(oid) == 4 <==> decltype_of_oid(oid) == "BLOB"@,
        type_of_oid(oid) == 3 <==> decltype_of_oid(oid) == "TEXT"@,
        decltype_of_oid(oid) == "BIGINT"@ <==> oid == 20,
        oid == 16 || oid == 20 || oid == 21 || oid == 23 || oid == 26 <==> type_of_oid(oid) == 1,
        oid == 700 || oid == 701 || oid == 1700 <==> type_of_oid(oid) == 2,
        oid == 17 <==> type_of_oid(oid) == 4,
        1 <= type_of_oid(oid) <= 4,
{
    reveal_strlit("INTEGER");
    reveal_strlit("BIGINT");
    reveal_strlit("REAL");
    reveal_strlit("BLOB");
    reveal_strlit("TEXT");
    assert("INTEGER"@.len() == 7);
    assert("BIGINT"@.len() == 6);
    assert("REAL"@.len() == 4);
    assert("BLOB"@.len() == 4);
    assert("TEXT"@.len() == 4);
    assert("REAL"@[0] == 'R');
    assert("BLOB"@[0] == 'B');
    assert("TEXT"@[0] == 'T');
}

/// A column of 64-bit numbers whose name ends in `_at` or `time` is a time; a column of another type
/// is none.
pub proof fn law_times_by_name(oid: u32, prefix: Seq<char>, sql: Seq<char>)
    ensures
        is_time_column(20, prefix + "_at"@, sql),
        is_time_column(20, prefix + "time"@, sql),
        is_time_column(20, "timestamp"@ + prefix, sql),
        oid != 20 ==> !is_time_column(oid, prefix, sql),
{
    let a = prefix + "_at"@;
    let n = prefix.len() as int;
    assert(a.subrange(n, n + "_at"@.len()) =~= "_at"@);
    assert(text::occurs_at(a, n, "_at"@));
    let b = prefix + "time"@;
    assert(b.subrange(n, n + "time"@.len()) =~= "time"@);
    assert(text::occurs_at(b, n, "time"@));
    let c = "timestamp"@ + prefix;
    assert(c.subrange(0, "timestamp"@.len() as int) =~= "timestamp"@);
    assert(text::occurs_at(c, 0, "timestamp"@));
}

/// A converted insertion of settings is the insertion with one clause behind it, by which rows are
/// told apart by account and item, and which returns the row's number; nothing is converted that is
/// no insertion into the settings, or that says already what to do or what to return.
pub proof fn law_settings_are_updated(sql: Seq<char>, r: Option<Seq<char>>)
    requires
        is_conversion(sql, r),
    ensures
        r is Some ==> r->0.take(sql.len() as int) == sql,
        r is Some ==> text::occurs_at(
            r->0,
            sql.len() as int,
            " ON CONFLICT (account_id, guid) DO UPDATE SET "@,
        ),
        r is Some ==> text::ends_in(r->0, " RETURNING id"@),
        r is Some ==> ({
            let l = text::lowercase(sql);
            &&& text::occurs(l, "insert into"@)
            &&& text::occurs(l, "metadata_item_settings"@)
            &&& !text::occurs(l, "on conflict"@)
            &&& !text::occurs(l, "returning"@)
        }),
        text::all_ascii(sql) && text::occurs(text::lowered(sql), "insert into"@) && text::occurs(
            text::lowered(sql),
            "metadata_item_settings"@,
        ) && !text::occurs(text::lowered(sql), "on conflict"@) && !text::occurs(
            text::lowered(sql),
            "returning"@,
        ) ==> r is Some,
{
    if r is Some {
        let c = ON_CONFLICT_CLAUSE@;
        let t = r->0;
        let head = " ON CONFLICT (account_id, guid) DO UPDATE SET "@;
        let tail = " RETURNING id"@;
        assert(t.take(sql.len() as int) =~= sql);
        lemma_clause_ends();
        let n = sql.len() as int;
        assert(t.subrange(n, n + head.len()) =~= c.subrange(0, head.len() as int));
        assert(t.skip(t.len() - tail.len()) =~= c.skip(c.len() - tail.len()));
    }
}

/// The number of a queued item is one that stands behind a path of items in the text of an insertion
/// into the play queue.
pub proof fn law_queued_items_are_named(sql: Seq<char>, lower: Seq<char>)
    requires
        queued_item(sql, lower) != 0,
    ensures
        text::occurs(lower, "play_queue_generators"@),
        text::occurs(lower, "insert"@),
        exists|i: int|
            {
                let path = if #[trigger] text::occurs_at(sql, i, "%2Fmetadata%2F"@) {
                    14int
                } else {
                    10int
                };
                let rest = sql.skip(i + path);
                &&& text::occurs_at(sql, i, "%2Fmetadata%2F"@) || text::occurs_at(
                    sql,
                    i,
                    "/metadata/"@,
                )
                &&& queued_item(sql, lower) == decimal(rest.take(leading_digits(rest) as int))
            },
        0 < queued_item(sql, lower) <= i64::MAX,
{
    reveal_strlit("%2Fmetadata%2F");
    reveal_strlit("/metadata/");
    let n = sql.len() as int + 1;
    let a = |i: int| text::occurs_at(sql, i, "%2Fmetadata%2F"@);
    let b = |i: int| text::occurs_at(sql, i, "/metadata/"@);
    search::lemma_first_index(a, 0, n);
    search::lemma_first_index(b, 0, n);
    match text::first_occurrence(sql, 0, "%2Fmetadata%2F"@) {
        Some(i) => {
            assert(a(i));
            assert(text::occurs_at(sql, i, "%2Fmetadata%2F"@));
        },
        None => {
            let i = text::first_occurrence(sql, 0, "/metadata/"@)->0;
            assert(b(i));
            assert(i < n);
            assert(!a(i));
            assert(!text::occurs_at(sql, i, "%2Fmetadata%2F"@));
            assert(text::occurs_at(sql, i, "/metadata/"@));
        },
    }
}

/// How the clause begins and ends.
proof fn lemma_clause_ends()
    ensures
        ({
            let c = ON_CONFLICT_CLAUSE@;
            let head = " ON CONFLICT (account_id, guid) DO UPDATE SET "@;
            let tail = " RETURNING id"@;
            &&& head.len() <= c.len()
            &&& c.subrange(0, head.len() as int) == head
            &&& tail.len() <= c.len()
            &&& c.skip(c.len() - tail.len()) == tail
        }),
{
    reveal_strlit(" ON CONFLICT (account_id, guid) DO UPDATE SET ");
    reveal_strlit(" RETURNING id");
    reveal_strlit(" ON CONFLICT (account_id, guid) DO UPDATE SET rating = COALESCE(EXCLUDED.rating, plex.metadata_item_settings.rating), view_offset = EXCLUDED.view_offset, view_count = CASE WHEN plex.metadata_item_settings.view_count > 0 AND EXCLUDED.view_count = 0 THEN 0 ELSE GREATEST(EXCLUDED.view_count, plex.metadata_item_settings.view_count, 1) END, last_viewed_at = CASE WHEN plex.metadata_item_settings.view_count > 0 AND EXCLUDED.view_count = 0 THEN NULL ELSE COALESCE(EXCLUDED.last_viewed_at, EXTRACT(EPOCH FROM NOW())::bigint) END, updated_at = COALESCE(EXCLUDED.updated_at, EXTRACT(EPOCH FROM NOW())::bigint), skip_count = EXCLUDED.skip_count, last_skipped_at = EXCLUDED.last_skipped_at, changed_at = COALESCE(EXCLUDED.changed_at, EXTRACT(EPOCH FROM NOW())::bigint), extra_data = COALESCE(EXCLUDED.extra_data, plex.metadata_item_settings.extra_data), last_rated_at = COALESCE(EXCLUDED.last_rated_at, plex.metadata_item_settings.last_rated_at) RETURNING id");
    let c = ON_CONFLICT_CLAUSE@;
    let head = " ON CONFLICT (account_id, guid) DO UPDATE SET "@;
    let tail = " RETURNING id"@;
    assert(c.subrange(0, head.len() as int) =~= head);
    assert(c.skip(c.len() - tail.len()) =~= tail);
}

/// A number that stands at the start of a text is read as it is written, whatever stands behind it.
pub proof fn law_leading_numbers_read_back(n: nat, rest: Seq<char>)
    requires
        n <= i64::MAX,
        rest.len() > 0 ==> !('0' <= rest[0] <= '9'),
    ensures
        leading_number(text::number(n) + rest) == n,
{
    let d = text::number(n);
    let s = d + rest;
    lemma_decimal_of_number(n);
    lemma_leading_is(s, d.len());
    assert(s.take(d.len() as int) =~= d);
}

proof fn lemma_leading_is(s: Seq<char>, k: nat)
    requires
        k <= s.len(),
        forall|i: int| 0 <= i < k ==> '0' <= #[trigger] s[i] <= '9',
        k < s.len() ==> !('0' <= s[k as int] <= '9'),
    ensures
        leading_digits(s) == k,
    decreases k,
{
    if k > 0 {
        assert('0' <= s[0] <= '9');
        let t = s.drop_first();
        assert forall|i: int| 0 <= i < k - 1 implies '0' <= #[trigger] t[i] <= '9' by {
            assert(t[i] == s[i + 1]);
        }
        lemma_leading_is(t, (k - 1) as nat);
    }
}

proof fn lemma_decimal_of_number(n: nat)
    ensures
        decimal(text::number(n)) == n,
        forall|i: int|
            0 <= i < text::number(n).len() ==> '0' <= #[trigger] text::number(n)[i] <= '9',
    decreases n,
{
    let s = text::number(n);
    if n < 10 {
        assert(s.drop_last() =~= Seq::empty());
        assert(decimal(s.drop_last()) == 0);
    } else {
        lemma_decimal_of_number(n / 10);
        assert(s.drop_last() =~= text::number(n / 10));
        assert forall|i: int| 0 <= i < s.len() implies '0' <= #[trigger] s[i] <= '9' by {
            if i < s.len() - 1 {
                assert(s[i] == text::number(n / 10)[i]);
            }
        }
    }
}

/// The greatest of some numbers is a time where the query asks when items changed.
pub proof fn law_newest_change_is_a_time(before: Seq<char>, behind: Seq<char>)
    ensures
        is_time_column(20, "greatest"@, before + "metadata_items.changed_at"@ + behind),
{
    let s = before + "metadata_items.changed_at"@ + behind;
    let n = before.len() as int;
    assert(s.subrange(n, n + "metadata_items.changed_at"@.len()) =~= "metadata_items.changed_at"@);
    assert(text::occurs_at(s, n, "metadata_items.changed_at"@));
}

} // verus!
