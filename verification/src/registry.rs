//! Maps from the handles that the host program holds to the objects that stand behind them.

use std::collections::HashMap;
use vstd::prelude::*;

verus! {

broadcast use vstd::std_specs::hash::group_hash_axioms;

/// What a map holds under a key.
pub open spec fn held(m: Map<usize, usize>, k: usize) -> Option<usize> {
    if m.contains_key(k) {
        Some(m[k])
    } else {
        None
    }
}

fn get(m: &HashMap<usize, usize>, k: usize) -> (r: Option<usize>)
    ensures
        r == held(m@, k),
{
    match m.get(&k) {
        Some(v) => Some(*v),
        None => None,
    }
}

/// Database handle to connection, for connections that are not pooled.
pub struct ConnectionRegistry {
    map: HashMap<usize, usize>,
}

impl View for ConnectionRegistry {
    type V = Map<usize, usize>;

    closed spec fn view(&self) -> Map<usize, usize> {
        self.map@
    }
}

impl ConnectionRegistry {
    /// An empty registry.
    pub fn new() -> (r: Self)
        ensures
            r@ == Map::<usize, usize>::empty(),
    {
        ConnectionRegistry { map: HashMap::new() }
    }

    /// Records the connection of a handle, in place of an earlier one.
    pub fn register(&mut self, db_handle: usize, conn_ptr: usize)
        ensures
            final(self)@ == old(self)@.insert(db_handle, conn_ptr),
            final(self)@.dom().finite(),
            final(self)@.len() == old(self)@.len() + if old(self)@.contains_key(db_handle) {
                0int
            } else {
                1int
            },
    {
        let _ = self.map.insert(db_handle, conn_ptr);
    }

    /// Forgets a handle and returns the connection that it had.
    pub fn unregister(&mut self, db_handle: usize) -> (r: Option<usize>)
        ensures
            final(self)@ == old(self)@.remove(db_handle),
            r == held(old(self)@, db_handle),
            final(self)@.dom().finite(),
            final(self)@.len() == old(self)@.len() - if old(self)@.contains_key(db_handle) {
                1int
            } else {
                0int
            },
    {
        self.map.remove(&db_handle)
    }

    /// The connection of a handle.
    pub fn find(&self, db_handle: usize) -> (r: Option<usize>)
        ensures
            r == held(self@, db_handle),
    {
        get(&self.map, db_handle)
    }

    /// Some registered connection that `is_library` accepts. Which one, where there are several,
    /// is left open.
    pub fn find_any_library(&self, is_library: impl Fn(usize) -> bool) -> (r: Option<usize>)
        requires
            forall|conn: usize| self@.contains_value(conn) ==> call_requires(is_library, (conn,)),
        ensures
            match r {
                Some(conn) => self@.contains_value(conn) && call_ensures(is_library, (conn,), true),
                None => forall|conn: usize| #[trigger]
                    self@.contains_value(conn) ==> call_ensures(is_library, (conn,), false),
            },
    {
        for v in it: self.map.values()
            invariant
                it.seq().unref().to_set() == self.map@.values(),
                forall|conn: usize| self@.contains_value(conn) ==> call_requires(
                    is_library,
                    (conn,),
                ),
                forall|i: int|
                    0 <= i < it.index() ==> call_ensures(
                        is_library,
                        (#[trigger] it.seq().unref()[i],),
                        false,
                    ),
        {
            let conn: usize = *v;
            proof {
                let all = it.seq().unref();
                assert(all[it.index() as int] == conn);
                assert(all.to_set().contains(conn));
                assert(self@.contains_value(conn));
            }
            if is_library(conn) {
                return Some(conn);
            }
        }
        proof {
            assert forall|conn: usize| #[trigger] self@.contains_value(conn) implies call_ensures(
                is_library,
                (conn,),
                false,
            ) by {
                let all = vstd::std_specs::iter::IteratorSpec::remaining(&self.map.values()).unref();
                assert(self.map@.values().contains(conn));
                assert(all.to_set().contains(conn));
                let i = choose|i: int| 0 <= i < all.len() && all[i] == conn;
                assert(all[i] == conn);
            }
        }
        None
    }

    /// Forgets everything.
    pub fn clear(&mut self)
        ensures
            final(self)@ == Map::<usize, usize>::empty(),
    {
        self.map.clear();
    }

    /// How many handles are registered.
    pub fn len(&self) -> (r: usize)
        ensures
            r == self@.len(),
            self@.dom().finite(),
    {
        self.map.len()
    }
}

/// Database handle to pool slot.
pub struct DbToPool {
    map: HashMap<usize, usize>,
}

impl View for DbToPool {
    type V = Map<usize, usize>;

    closed spec fn view(&self) -> Map<usize, usize> {
        self.map@
    }
}

impl DbToPool {
    /// No handle has a slot.
    pub fn new() -> (r: Self)
        ensures
            r@ == Map::<usize, usize>::empty(),
    {
        DbToPool { map: HashMap::new() }
    }

    /// Gives a handle a slot, in place of an earlier one.
    pub fn assign(&mut self, db_handle: usize, slot_index: usize)
        ensures
            final(self)@ == old(self)@.insert(db_handle, slot_index),
            final(self)@.dom().finite(),
            final(self)@.len() == old(self)@.len() + if old(self)@.contains_key(db_handle) {
                0int
            } else {
                1int
            },
    {
        let _ = self.map.insert(db_handle, slot_index);
    }

    /// Takes the slot of a handle away and returns it.
    pub fn release(&mut self, db_handle: usize) -> (r: Option<usize>)
        ensures
            final(self)@ == old(self)@.remove(db_handle),
            r == held(old(self)@, db_handle),
            final(self)@.dom().finite(),
            final(self)@.len() == old(self)@.len() - if old(self)@.contains_key(db_handle) {
                1int
            } else {
                0int
            },
    {
        self.map.remove(&db_handle)
    }

    /// The slot of a handle.
    pub fn find(&self, db_handle: usize) -> (r: Option<usize>)
        ensures
            r == held(self@, db_handle),
    {
        get(&self.map, db_handle)
    }

    /// Forgets everything.
    pub fn clear(&mut self)
        ensures
            final(self)@ == Map::<usize, usize>::empty(),
    {
        self.map.clear();
    }

    /// How many handles have a slot.
    pub fn len(&self) -> (r: usize)
        ensures
            r == self@.len(),
            self@.dom().finite(),
    {
        self.map.len()
    }
}

/// What is recorded for a key is found, what is taken away is not, other keys keep what they had,
/// and the number of keys changes by one exactly where a key is new or goes.
pub proof fn law_keys_are_independent(m: Map<usize, usize>, k: usize, v: usize, other: usize)
    requires
        m.dom().finite(),
    ensures
        held(m.insert(k, v), k) == Some(v),
        held(m.remove(k), k) is None,
        other != k ==> held(m.insert(k, v), other) == held(m, other),
        other != k ==> held(m.remove(k), other) == held(m, other),
        m.insert(k, v).len() == m.len() + if held(m, k) is None {
            1int
        } else {
            0int
        },
        m.remove(k).len() == m.len() - if held(m, k) is None {
            0int
        } else {
            1int
        },
{
}

} // verus!
