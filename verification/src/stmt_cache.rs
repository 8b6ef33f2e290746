//! The prepared statements of one connection, in a hash table with linear probing.

use vstd::prelude::*;

verus! {

/// How many statements one connection keeps prepared.
pub const STMT_CACHE_SIZE: usize = 512;

/// A prepared statement: the hash of its text, the name that it has on the server, how many
/// parameters it takes and when it was last stored.
pub struct StmtCacheEntry {
    pub sql_hash: u64,
    pub stmt_name: String,
    pub param_count: i32,
    pub last_used: i64,
}

/// The statements, each at the first place that was free from its home slot on, going round.
pub struct StmtCache {
    entries: Vec<Option<StmtCacheEntry>>,
    count: usize,
}

/// The table: 512 places.
pub type Table = Seq<Option<StmtCacheEntry>>;

/// Where the search for a hash begins.
pub open spec fn home(h: u64) -> int {
    (h % 512) as int
}

/// The place `i` steps behind the home slot of `h`, going round.
pub open spec fn probe(h: u64, i: int) -> int {
    (home(h) + i) % 512
}

/// Place `p` holds the hash `h`.
pub open spec fn holds(t: Table, p: int, h: u64) -> bool {
    t[p] is Some && t[p]->0.sql_hash == h
}

/// Some place holds the hash `h`.
pub open spec fn present(t: Table, h: u64) -> bool {
    exists|p: int| 0 <= p < 512 && holds(t, p, h)
}

/// How many of the first `n` places are taken.
pub open spec fn taken(t: Table, n: int) -> int
    decreases n,
{
    if n <= 0 {
        0
    } else {
        taken(t, n - 1) + if t[n - 1] is Some {
            1int
        } else {
            0int
        }
    }
}

/// No hash is zero or occurs twice, and no place between the home slot of an entry and the
/// entry itself is free.
pub open spec fn well_placed(t: Table) -> bool {
    &&& t.len() == 512
    &&& forall|p: int| 0 <= p < 512 && #[trigger] t[p] is Some ==> t[p]->0.sql_hash != 0
    &&& forall|p: int, q: int|
        0 <= p < 512 && 0 <= q < 512 && #[trigger] t[p] is Some && #[trigger] t[q] is Some
            && t[p]->0.sql_hash == t[q]->0.sql_hash ==> p == q
    &&& forall|h: u64, n: int, j: int|
        0 <= j < n < 512 && #[trigger] holds(t, probe(h, n), h) ==> #[trigger] t[probe(h, j)] is Some
}

/// Every place is taken.
pub open spec fn full(t: Table) -> bool {
    forall|p: int| 0 <= p < 512 ==> #[trigger] t[p] is Some
}

/// Going round from the home slot of `h`, the place at `n` steps is the first free one.
pub open spec fn first_free(t: Table, h: u64, n: int) -> bool {
    &&& 0 <= n < 512
    &&& t[probe(h, n)] is None
    &&& forall|j: int| 0 <= j < n ==> #[trigger] t[probe(h, j)] is Some
}

/// `p` is the first of the places whose entry was stored longest ago.
pub open spec fn least_recent(t: Table, p: int) -> bool {
    &&& 0 <= p < 512
    &&& forall|q: int| 0 <= q < 512 ==> t[p]->0.last_used <= (#[trigger] t[q])->0.last_used
    &&& forall|q: int| 0 <= q < p ==> t[p]->0.last_used < (#[trigger] t[q])->0.last_used
}

/// The place holds an entry with these parts.
pub open spec fn is_entry(
    place: Option<StmtCacheEntry>,
    sql_hash: u64,
    stmt_name: Seq<char>,
    param_count: i32,
    last_used: i64,
) -> bool {
    &&& place is Some
    &&& place->0.sql_hash == sql_hash
    &&& place->0.stmt_name@ == stmt_name
    &&& place->0.param_count == param_count
    &&& place->0.last_used == last_used
}

/// Only place `p` differs.
pub open spec fn same_but(t: Table, u: Table, p: int) -> bool {
    t.len() == u.len() && forall|q: int| 0 <= q < t.len() && q != p ==> #[trigger] u[q] == t[q]
}

/// The names of the statements in the first `n` places, in order.
pub open spec fn names(t: Table, n: int) -> Seq<Seq<char>>
    decreases n,
{
    if n <= 0 {
        Seq::empty()
    } else if t[n - 1] is Some {
        names(t, n - 1).push(t[n - 1]->0.stmt_name@)
    } else {
        names(t, n - 1)
    }
}

/// A statement was stored at place `p`: where the same hash stood, else where the search from
/// its home slot met the first free place, else where the statement stored longest ago stood.
pub open spec fn stored_at(
    before: Table,
    after: Table,
    p: int,
    h: u64,
    name: Seq<char>,
    param_count: i32,
    now: i64,
) -> bool {
    &&& 0 <= p < 512
    &&& same_but(before, after, p)
    &&& is_entry(after[p], h, name, param_count, now)
    &&& if present(before, h) {
        holds(before, p, h)
    } else if !full(before) {
        exists|n: int| first_free(before, h, n) && #[trigger] probe(h, n) == p
    } else {
        least_recent(before, p)
    }
}

/// The name of the statement at place `p`, if it had to make room for the hash `h`.
pub open spec fn evicted(before: Table, p: int, h: u64, name: Option<String>) -> bool {
    if !present(before, h) && full(before) {
        name is Some && name->0@ == before[p]->0.stmt_name@
    } else {
        name is None
    }
}

/// A statement was stored, and `name` tells which one made room for it.
pub open spec fn stored(
    before: Table,
    after: Table,
    h: u64,
    stmt_name: Seq<char>,
    param_count: i32,
    now: i64,
    name: Option<String>,
) -> bool {
    exists|p: int| #[trigger]
        stored_at(before, after, p, h, stmt_name, param_count, now) && evicted(before, p, h, name)
}

proof fn lemma_probe(h: u64, p: int)
    requires
        0 <= p < 512,
    ensures
        exists|n: int| 0 <= n < 512 && #[trigger] probe(h, n) == p,
{
    let n = (p - home(h) + 512) % 512;
    assert(probe(h, n) == p);
}

proof fn lemma_probe_injective(h: u64, m: int, n: int)
    requires
        0 <= m < 512,
        0 <= n < 512,
        probe(h, m) == probe(h, n),
    ensures
        m == n,
{
}

proof fn lemma_taken_range(t: Table, n: int)
    requires
        0 <= n <= 512,
    ensures
        0 <= taken(t, n) <= n,
    decreases n,
{
    if n > 0 {
        lemma_taken_range(t, n - 1);
    }
}

/// Taking a place changes the number of taken places by what the place itself contributes.
proof fn lemma_taken_update(t: Table, u: Table, p: int, n: int)
    requires
        t.len() == 512,
        0 <= n <= 512,
        0 <= p < 512,
        same_but(t, u, p),
        u[p] is Some,
    ensures
        taken(u, n) == taken(t, n) + if p < n && t[p] is None {
            1int
        } else {
            0int
        },
    decreases n,
{
    if n > 0 {
        lemma_taken_update(t, u, p, n - 1);
    }
}

proof fn lemma_taken_full(t: Table, n: int)
    requires
        0 <= n <= 512,
        forall|p: int| 0 <= p < n ==> #[trigger] t[p] is None,
    ensures
        taken(t, n) == 0,
        names(t, n) == Seq::<Seq<char>>::empty(),
    decreases n,
{
    if n > 0 {
        lemma_taken_full(t, n - 1);
    }
}

/// Storing an entry at a place keeps the table well placed, if the place held the same hash
/// before, or the hash is new and the place is the first free one, or the table is full.
proof fn lemma_well_placed_update(t: Table, u: Table, p: int, h: u64)
    requires
        well_placed(t),
        0 <= p < 512,
        h != 0,
        same_but(t, u, p),
        u[p] is Some,
        u[p]->0.sql_hash == h,
        ({
            ||| holds(t, p, h)
            ||| !present(t, h) && exists|n: int| first_free(t, h, n) && #[trigger] probe(h, n) == p
            ||| !present(t, h) && full(t)
        }),
    ensures
        well_placed(u),
{
    assert forall|a: int, b: int|
        0 <= a < 512 && 0 <= b < 512 && #[trigger] u[a] is Some && #[trigger] u[b] is Some
            && u[a]->0.sql_hash == u[b]->0.sql_hash implies a == b by {
        if a != b {
            if a == p {
                assert(u[b] == t[b]);
                assert(holds(t, b, h));
            } else if b == p {
                assert(u[a] == t[a]);
                assert(holds(t, a, h));
            } else {
                assert(u[a] == t[a] && u[b] == t[b]);
            }
        }
    }
    assert forall|g: u64, n: int, j: int|
        0 <= j < n < 512 && #[trigger] holds(u, probe(g, n), g) implies #[trigger] u[probe(
        g,
        j,
    )] is Some by {
        let a = probe(g, n);
        let b = probe(g, j);
        if b != p {
            assert(u[b] == t[b]);
            if a != p {
                assert(u[a] == t[a]);
                assert(holds(t, probe(g, n), g));
            } else {
                assert(g == h);
                if holds(t, p, h) {
                    assert(holds(t, probe(g, n), g));
                } else if full(t) {
                } else {
                    let m = choose|m: int| first_free(t, h, m) && #[trigger] probe(h, m) == p;
                    lemma_probe_injective(h, m, n);
                }
            }
        }
    }
    assert forall|q: int| 0 <= q < 512 && #[trigger] u[q] is Some implies u[q]->0.sql_hash
        != 0 by {
        if q != p {
            assert(u[q] == t[q]);
        }
    }
}

impl StmtCache {
    /// The places of the table.
    pub closed spec fn table(&self) -> Table {
        self.entries@
    }

    /// The table is well placed and the counter agrees with it.
    pub closed spec fn wf(&self) -> bool {
        &&& well_placed(self.entries@)
        &&& self.count == taken(self.entries@, 512)
    }

    /// A cache without statements.
    pub fn new() -> (r: Self)
        ensures
            r.wf(),
            r.table().len() == 512,
            forall|p: int| 0 <= p < 512 ==> #[trigger] r.table()[p] is None,
    {
        let mut entries: Vec<Option<StmtCacheEntry>> = Vec::new();
        for i in 0..STMT_CACHE_SIZE
            invariant
                entries@.len() == i,
                forall|p: int| 0 <= p < i ==> #[trigger] entries@[p] is None,
        {
            entries.push(None);
        }
        proof {
            lemma_taken_full(entries@, 512);
        }
        StmtCache { entries, count: 0 }
    }

    /// Steps from the home slot to the place that holds the hash, or to the first free one.
    fn seek(&self, sql_hash: u64) -> (r: Option<usize>)
        requires
            self.wf(),
        ensures
            match r {
                Some(n) => n < 512 && {
                    ||| holds(self.table(), probe(sql_hash, n as int), sql_hash)
                    ||| first_free(self.table(), sql_hash, n as int) && !present(
                        self.table(),
                        sql_hash,
                    )
                },
                None => full(self.table()) && !present(self.table(), sql_hash),
            },
    {
        let start: usize = (sql_hash % 512) as usize;
        let ghost t = self.entries@;
        for i in 0..STMT_CACHE_SIZE
            invariant
                well_placed(t),
                t == self.entries@,
                start == home(sql_hash),
                forall|j: int| 0 <= j < i ==> #[trigger] t[probe(sql_hash, j)] is Some,
                forall|j: int| 0 <= j < i ==> !#[trigger] holds(t, probe(sql_hash, j), sql_hash),
        {
            let idx: usize = (start + i) % STMT_CACHE_SIZE;
            assert(idx == probe(sql_hash, i as int));
            match &self.entries[idx] {
                Some(entry) => {
                    if entry.sql_hash == sql_hash {
                        return Some(i);
                    }
                },
                None => {
                    proof {
                        if present(t, sql_hash) {
                            let p = choose|p: int| 0 <= p < 512 && holds(t, p, sql_hash);
                            lemma_probe(sql_hash, p);
                            let n = choose|n: int|
                                0 <= n < 512 && #[trigger] probe(sql_hash, n) == p;
                            assert(holds(t, probe(sql_hash, n), sql_hash));
                            assert(n > i ==> t[probe(sql_hash, i as int)] is Some);
                        }
                    }
                    return Some(i);
                },
            }
        }
        proof {
            assert forall|p: int| 0 <= p < 512 implies #[trigger] t[p] is Some by {
                lemma_probe(sql_hash, p);
            }
            if present(t, sql_hash) {
                let p = choose|p: int| 0 <= p < 512 && holds(t, p, sql_hash);
                lemma_probe(sql_hash, p);
                let n = choose|n: int| 0 <= n < 512 && #[trigger] probe(sql_hash, n) == p;
                assert(holds(t, probe(sql_hash, n), sql_hash));
            }
        }
        None
    }

    /// The statement with this hash. Zero stands for no statement and is never found.
    pub fn lookup(&self, sql_hash: u64) -> (r: Option<&StmtCacheEntry>)
        requires
            self.wf(),
        ensures
            match r {
                Some(entry) => sql_hash != 0 && entry.sql_hash == sql_hash && exists|p: int|
                    0 <= p < 512 && #[trigger] self.table()[p] == Some(*entry),
                None => sql_hash == 0 || !present(self.table(), sql_hash),
            },
    {
        if sql_hash == 0 {
            return None;
        }
        match self.seek(sql_hash) {
            Some(n) => {
                let start: usize = (sql_hash % 512) as usize;
                let idx: usize = (start + n) % STMT_CACHE_SIZE;
                assert(idx == probe(sql_hash, n as int));
                match &self.entries[idx] {
                    Some(entry) => {
                        assert(self.table()[idx as int] == Some(*entry));
                        Some(entry)
                    },
                    None => None,
                }
            },
            None => None,
        }
    }

    /// The first of the places whose entry was stored longest ago.
    fn oldest(&self) -> (r: usize)
        requires
            self.wf(),
            full(self.table()),
        ensures
            least_recent(self.table(), r as int),
    {
        let ghost t = self.entries@;
        let mut lru_idx: usize = 0;
        let mut lru_time: i64 = i64::MAX;
        for idx in 0..STMT_CACHE_SIZE
            invariant
                t == self.entries@,
                t.len() == 512,
                full(t),
                lru_idx < 512,
                idx > 0 ==> lru_idx < idx,
                lru_time == i64::MAX ==> lru_idx == 0,
                lru_time < i64::MAX ==> idx > 0 && lru_time == t[lru_idx as int]->0.last_used,
                forall|q: int| 0 <= q < idx ==> lru_time <= (#[trigger] t[q])->0.last_used,
                forall|q: int| 0 <= q < lru_idx ==> lru_time < (#[trigger] t[q])->0.last_used,
        {
            match &self.entries[idx] {
                Some(e) => {
                    if e.last_used < lru_time {
                        lru_time = e.last_used;
                        lru_idx = idx;
                    }
                },
                None => {},
            }
        }
        assert(t[0] is Some && lru_time <= t[0]->0.last_used);
        lru_idx
    }

    /// Stores a statement: over the one with the same hash, else at the first free place, else
    /// in place of the one stored longest ago, whose name is returned. Zero is no hash and stores
    /// nothing.
    pub fn add(&mut self, sql_hash: u64, stmt_name: &str, param_count: i32, now: i64) -> (r: Option<
        String,
    >)
        requires
            old(self).wf(),
        ensures
            final(self).wf(),
            sql_hash == 0 ==> final(self).table() == old(self).table() && r is None,
            sql_hash != 0 ==> stored(
                old(self).table(),
                final(self).table(),
                sql_hash,
                stmt_name@,
                param_count,
                now,
                r,
            ),
    {
        if sql_hash == 0 {
            return None;
        }
        let ghost t = self.entries@;
        let place = self.seek(sql_hash);
        let start: usize = (sql_hash % 512) as usize;
        let entry = StmtCacheEntry {
            sql_hash,
            stmt_name: stmt_name.to_owned(),
            param_count,
            last_used: now,
        };
        match place {
            Some(n) => {
                let idx: usize = (start + n) % STMT_CACHE_SIZE;
                proof {
                    assert(idx == probe(sql_hash, n as int));
                    lemma_taken_range(t, 512);
                    lemma_taken_update(t, t.update(idx as int, Some(entry)), idx as int, 512);
                    lemma_taken_range(t.update(idx as int, Some(entry)), 512);
                    lemma_well_placed_update(
                        t,
                        t.update(idx as int, Some(entry)),
                        idx as int,
                        sql_hash,
                    );
                }
                let extra: usize = if self.entries[idx].is_none() {
                    1
                } else {
                    0
                };
                self.entries.set(idx, Some(entry));
                self.count = self.count + extra;
                proof {
                    assert(probe(sql_hash, n as int) == idx);
                    if holds(t, idx as int, sql_hash) {
                        assert(present(t, sql_hash));
                    } else {
                        assert(t[idx as int] is None);
                        assert(!full(t) && first_free(t, sql_hash, n as int));
                    }
                    assert(stored_at(
                        t,
                        self.entries@,
                        idx as int,
                        sql_hash,
                        stmt_name@,
                        param_count,
                        now,
                    ));
                }
                None
            },
            None => {
                let idx: usize = self.oldest();
                proof {
                    lemma_taken_update(t, t.update(idx as int, Some(entry)), idx as int, 512);
                    lemma_well_placed_update(
                        t,
                        t.update(idx as int, Some(entry)),
                        idx as int,
                        sql_hash,
                    );
                }
                let evicted = match &self.entries[idx] {
                    Some(e) => Some(e.stmt_name.clone()),
                    None => None,
                };
                self.entries.set(idx, Some(entry));
                assert(stored_at(
                    t,
                    self.entries@,
                    idx as int,
                    sql_hash,
                    stmt_name@,
                    param_count,
                    now,
                ));
                evicted
            },
        }
    }

    /// Forgets every statement and returns their names, in the order of their places.
    pub fn clear(&mut self) -> (r: Vec<String>)
        requires
            old(self).wf(),
        ensures
            final(self).wf(),
            forall|p: int| 0 <= p < 512 ==> #[trigger] final(self).table()[p] is None,
            final(self).table().len() == 512,
            r@.map_values(|s: String| s@) == names(old(self).table(), 512),
    {
        let ghost t = self.entries@;
        let mut evicted: Vec<String> = Vec::new();
        let mut i: usize = 0;
        while i < STMT_CACHE_SIZE
            invariant
                i <= 512,
                self.entries@.len() == 512,
                t.len() == 512,
                forall|p: int| 0 <= p < i ==> #[trigger] self.entries@[p] is None,
                forall|p: int| i <= p < 512 ==> #[trigger] self.entries@[p] == t[p],
                evicted@.map_values(|s: String| s@) == names(t, i as int),
            decreases 512 - i,
        {
            let ghost before = evicted@;
            let name = match &self.entries[i] {
                Some(e) => Some(e.stmt_name.clone()),
                None => None,
            };
            self.entries.set(i, None);
            if let Some(n) = name {
                evicted.push(n);
                proof {
                    assert(evicted@.map_values(|s: String| s@) == before.map_values(
                        |s: String| s@,
                    ).push(n@));
                }
            }
            i += 1;
        }
        self.count = 0;
        proof {
            lemma_taken_full(self.entries@, 512);
        }
        evicted
    }

    /// How many statements are stored.
    pub fn count(&self) -> (r: usize)
        requires
            self.wf(),
        ensures
            r == taken(self.table(), 512),
    {
        self.count
    }
}

/// The table of a cache in order is well placed, and never holds more statements than it has places.
pub proof fn law_cache_in_order(c: StmtCache)
    requires
        c.wf(),
    ensures
        well_placed(c.table()),
        taken(c.table(), 512) <= 512,
{
    lemma_taken_range(c.table(), 512);
}

/// What was stored is what is found: after a statement is stored under a hash, that place and
/// no other holds the hash, and every other statement stays where it was, save for the one that
/// had to make room in a full table.
pub proof fn law_add_then_lookup(
    before: Table,
    after: Table,
    p: int,
    h: u64,
    name: Seq<char>,
    param_count: i32,
    now: i64,
    q: int,
)
    requires
        well_placed(before),
        well_placed(after),
        stored_at(before, after, p, h, name, param_count, now),
        0 <= q < 512,
    ensures
        holds(after, p, h),
        forall|r: int| 0 <= r < 512 && #[trigger] holds(after, r, h) ==> r == p,
        before[q] is Some && before[q]->0.sql_hash != h && (q != p || present(before, h) || !full(
            before,
        )) ==> after[q] == before[q],
{
    assert(holds(after, p, h));
}

/// A table never holds more statements than it has places, and one that is full stays full.
pub proof fn law_bounded(before: Table, after: Table, p: int, h: u64, name: Seq<char>, param_count: i32, now: i64)
    requires
        well_placed(before),
        stored_at(before, after, p, h, name, param_count, now),
    ensures
        taken(before, 512) <= 512,
        taken(after, 512) == taken(before, 512) + if !present(before, h) && !full(before) {
            1int
        } else {
            0int
        },
        full(before) ==> full(after),
{
    lemma_taken_range(before, 512);
    lemma_taken_update(before, after, p, 512);
    if present(before, h) {
        assert(holds(before, p, h));
    }
    if full(before) {
        assert forall|q: int| 0 <= q < 512 implies #[trigger] after[q] is Some by {
            if q != p {
                assert(after[q] == before[q]);
            }
        }
    }
}

/// A stored statement has its hash, its name, its number of parameters and the time; it takes the
/// place of the statement that was stored longest ago only where all places are taken by others, and
/// then that one's name is told, so that the server can be told to forget it.
pub proof fn law_the_oldest_makes_room(
    before: Table,
    after: Table,
    h: u64,
    name: Seq<char>,
    param_count: i32,
    now: i64,
    lost: Option<String>,
)
    requires
        well_placed(before),
        stored(before, after, h, name, param_count, now, lost),
    ensures
        exists|p: int|
            0 <= p < 512 && (#[trigger] after[p]) is Some && after[p]->0.sql_hash == h
                && after[p]->0.stmt_name@ == name && after[p]->0.param_count == param_count
                && after[p]->0.last_used == now && (lost is Some ==> before[p] is Some
                && before[p]->0.stmt_name@ == lost->0@ && before[p]->0.sql_hash != h && (forall|
                q: int,
            |
                0 <= q < 512 ==> (#[trigger] before[q]) is Some && before[p]->0.last_used
                    <= before[q]->0.last_used)) && (forall|q: int|
                0 <= q < 512 && q != p ==> #[trigger] after[q] == before[q]) && (lost is None
                ==> before[p] is None || before[p]->0.sql_hash == h),
{
    let p = choose|p: int| #[trigger]
        stored_at(before, after, p, h, name, param_count, now) && evicted(before, p, h, lost);
    assert(after[p] is Some);
    if present(before, h) {
        assert(holds(before, p, h));
    } else if !full(before) {
        let n = choose|n: int| first_free(before, h, n) && #[trigger] probe(h, n) == p;
        assert(before[probe(h, n)] is None);
    } else {
        assert(before[p] is Some);
        assert(before[p]->0.sql_hash != h) by {
            if before[p]->0.sql_hash == h {
                assert(holds(before, p, h));
            }
        }
        assert forall|q: int| 0 <= q < 512 implies (#[trigger] before[q]) is Some
            && before[p]->0.last_used <= before[q]->0.last_used by {}
    }
}

/// Emptying the table tells the names of all its statements, and no others.
pub proof fn law_all_names_are_told(t: Table, n: int, name: Seq<char>)
    requires
        0 <= n <= t.len(),
    ensures
        names(t, n).contains(name) <==> exists|p: int|
            0 <= p < n && (#[trigger] t[p]) is Some && t[p]->0.stmt_name@ == name,
        names(t, n).len() == taken(t, n),
    decreases n,
{
    let all = names(t, n);
    if n > 0 {
        law_all_names_are_told(t, n - 1, name);
        let rest = names(t, n - 1);
        if t[n - 1] is Some {
            let x = t[n - 1]->0.stmt_name@;
            assert(all == rest.push(x));
            assert(all[all.len() - 1] == x);
            if rest.contains(name) {
                let k = choose|k: int| 0 <= k < rest.len() && rest[k] == name;
                assert(all[k] == name);
            }
            if all.contains(name) {
                let k = choose|k: int| 0 <= k < all.len() && all[k] == name;
                if k < rest.len() {
                    assert(rest[k] == name);
                } else {
                    assert(t[n - 1]->0.stmt_name@ == name);
                }
            }
        }
        if exists|p: int| 0 <= p < n && (#[trigger] t[p]) is Some && t[p]->0.stmt_name@ == name {
            let p = choose|p: int|
                0 <= p < n && (#[trigger] t[p]) is Some && t[p]->0.stmt_name@ == name;
            if p < n - 1 {
                assert(t[p] is Some);
            }
        }
    }
}

} // verus!
