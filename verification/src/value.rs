//! Values that are handed to SQLite's callers but stand in the server's rows.

use crate::metadata::Answer;
use vstd::prelude::*;

verus! {

pub const SQLITE_INTEGER: i32 = 1;

pub const SQLITE_FLOAT: i32 = 2;

pub const SQLITE_TEXT: i32 = 3;

pub const SQLITE_BLOB: i32 = 4;

pub const SQLITE_NULL: i32 = 5;

/// How many texts are kept at once.
pub const VALUE_TEXT_BUF_COUNT: usize = 256;

/// How many blobs are kept at once.
pub const VALUE_BLOB_BUF_COUNT: usize = 64;

/// The name of a type of SQLite.
pub fn sqlite_type_name(t: i32) -> (r: &'static str)
    ensures
        r@ == (if t == SQLITE_INTEGER {
            "INTEGER"@
        } else if t == SQLITE_FLOAT {
            "FLOAT"@
        } else if t == SQLITE_TEXT {
            "TEXT"@
        } else if t == SQLITE_BLOB {
            "BLOB"@
        } else if t == SQLITE_NULL {
            "NULL"@
        } else {
            "UNKNOWN"@
        }),
{
    if t == SQLITE_INTEGER {
        "INTEGER"
    } else if t == SQLITE_FLOAT {
        "FLOAT"
    } else if t == SQLITE_TEXT {
        "TEXT"
    } else if t == SQLITE_BLOB {
        "BLOB"
    } else if t == SQLITE_NULL {
        "NULL"
    } else {
        "UNKNOWN"
    }
}

/// The rows that a statement has from the server.
#[derive(Clone, Copy, Debug)]
pub struct Rows {
    pub has_result: bool,
    pub num_rows: i32,
    pub num_cols: i32,
}

/// A value that stands in the server's rows.
#[derive(Clone, Copy, Debug)]
pub struct FakeValue {
    /// The rows of its statement, if it has one.
    pub stmt: Option<Rows>,
    /// Was it made by the thread that asks?
    pub same_thread: bool,
    pub row_idx: i32,
    pub col_idx: i32,
}

/// A value's handle.
#[derive(Clone, Copy, Debug)]
pub enum ValueHandle {
    Null,
    /// A value of SQLite.
    Local,
    Fake(FakeValue),
}

/// Where a value is.
#[derive(PartialEq, Eq, Structural, Clone, Copy, Debug)]
pub enum Place {
    /// Nowhere: it counts as null.
    Nowhere,
    /// In SQLite.
    Local,
    /// In the server's rows.
    Cell { row: i32, col: i32 },
}

/// Is there such a cell?
pub open spec fn in_rows(rows: Rows, row: int, col: int) -> bool {
    rows.has_result && 0 <= row < rows.num_rows && 0 <= col < rows.num_cols
}

/// Where a value is. One that another thread made, or whose cell is not there, is nowhere.
pub open spec fn place(h: ValueHandle) -> Place {
    match h {
        ValueHandle::Null => Place::Nowhere,
        ValueHandle::Local => Place::Local,
        ValueHandle::Fake(f) => match f.stmt {
            None => Place::Local,
            Some(rows) => if f.same_thread && in_rows(rows, f.row_idx as int, f.col_idx as int) {
                Place::Cell { row: f.row_idx, col: f.col_idx }
            } else {
                Place::Nowhere
            },
        },
    }
}

/// Finds where a value is.
pub fn place_of(h: &ValueHandle) -> (r: Place)
    ensures
        r == place(*h),
{
    match h {
        ValueHandle::Null => Place::Nowhere,
        ValueHandle::Local => Place::Local,
        ValueHandle::Fake(f) => match f.stmt {
            None => Place::Local,
            Some(rows) => if f.same_thread && rows.has_result && f.row_idx >= 0 && f.row_idx
                < rows.num_rows && f.col_idx >= 0 && f.col_idx < rows.num_cols {
                Place::Cell { row: f.row_idx, col: f.col_idx }
            } else {
                Place::Nowhere
            },
        },
    }
}

/// The type of a value. `info` is the type of its cell, where that could be told.
pub fn rust_my_sqlite3_value_type(h: &ValueHandle, info: Option<i32>) -> (r: Answer)
    ensures
        r == (match place(*h) {
            Place::Nowhere => Answer::Value(SQLITE_NULL),
            Place::Local => Answer::AskLocal(SQLITE_NULL),
            Place::Cell { .. } => Answer::Value(
                match info {
                    Some(t) => t,
                    None => SQLITE_NULL,
                },
            ),
        }),
{
    match place_of(h) {
        Place::Nowhere => Answer::Value(SQLITE_NULL),
        Place::Local => Answer::AskLocal(SQLITE_NULL),
        Place::Cell { .. } => match info {
            Some(t) => Answer::Value(t),
            None => Answer::Value(SQLITE_NULL),
        },
    }
}

/// The value as a number. `cell` is the number in its cell.
pub fn rust_my_sqlite3_value_int(h: &ValueHandle, cell: i32) -> (r: Answer)
    ensures
        r == (match place(*h) {
            Place::Nowhere => Answer::Value(0),
            Place::Local => Answer::AskLocal(0),
            Place::Cell { .. } => Answer::Value(cell),
        }),
{
    match place_of(h) {
        Place::Nowhere => Answer::Value(0),
        Place::Local => Answer::AskLocal(0),
        Place::Cell { .. } => Answer::Value(cell),
    }
}

/// The value as a wide number, or nothing where SQLite is to be asked. `cell` is the number in its
/// cell.
pub fn rust_my_sqlite3_value_int64(h: &ValueHandle, cell: i64) -> (r: Option<i64>)
    ensures
        r == (match place(*h) {
            Place::Nowhere => Some(0i64),
            Place::Local => None,
            Place::Cell { .. } => Some(cell),
        }),
{
    match place_of(h) {
        Place::Nowhere => Some(0),
        Place::Local => None,
        Place::Cell { .. } => Some(cell),
    }
}

/// How many bytes a value has. `cell` is the length of its cell, which is not positive where there
/// is nothing in it.
pub fn rust_my_sqlite3_value_bytes(h: &ValueHandle, cell: i32) -> (r: Answer)
    ensures
        r == (match place(*h) {
            Place::Nowhere => Answer::Value(0),
            Place::Local => Answer::AskLocal(0),
            Place::Cell { .. } => Answer::Value(
                if cell > 0 {
                    cell
                } else {
                    0
                },
            ),
        }),
{
    match place_of(h) {
        Place::Nowhere => Answer::Value(0),
        Place::Local => Answer::AskLocal(0),
        Place::Cell { .. } => if cell > 0 {
            Answer::Value(cell)
        } else {
            Answer::Value(0)
        },
    }
}

/// A ring of places in which what was handed out is kept for a while.
#[derive(Clone, Copy, Debug)]
pub struct Ring {
    pub next: usize,
}

/// The place in a ring of this size.
pub open spec fn ring_place(next: int, size: int) -> int {
    next % size
}

/// The counter after one more was handed out.
pub open spec fn counted_on(next: int) -> int {
    if next == usize::MAX {
        0
    } else {
        next + 1
    }
}

impl Ring {
    /// Nothing has been handed out.
    pub fn new() -> (r: Self)
        ensures
            r.next == 0,
    {
        Ring { next: 0 }
    }

    fn take(&mut self, size: usize) -> (r: usize)
        requires
            size > 0,
        ensures
            r == ring_place(old(self).next as int, size as int),
            r < size,
            final(self).next == counted_on(old(self).next as int),
    {
        let at: usize = self.next % size;
        self.next = self.next.wrapping_add(1);
        at
    }

    /// Takes the next place for a text.
    pub fn take_text(&mut self) -> (r: usize)
        ensures
            r == ring_place(old(self).next as int, VALUE_TEXT_BUF_COUNT as int),
            r < VALUE_TEXT_BUF_COUNT,
            final(self).next == counted_on(old(self).next as int),
    {
        self.take(VALUE_TEXT_BUF_COUNT)
    }

    /// Takes the next place for a blob.
    pub fn take_blob(&mut self) -> (r: usize)
        ensures
            r == ring_place(old(self).next as int, VALUE_BLOB_BUF_COUNT as int),
            r < VALUE_BLOB_BUF_COUNT,
            final(self).next == counted_on(old(self).next as int),
    {
        self.take(VALUE_BLOB_BUF_COUNT)
    }
}

/// What is handed out of a value: nothing, what SQLite says, or the ring's place where it was put.
#[derive(PartialEq, Eq, Structural, Clone, Copy, Debug)]
pub enum Handed {
    Nothing,
    AskLocal,
    Slot(usize),
}

/// The value as a text. `copied` is the length of what was copied from its cell into the ring's
/// place; it is negative for a null.
pub fn rust_my_sqlite3_value_text(h: &ValueHandle, slot: usize, copied: i32) -> (r: Handed)
    ensures
        r == (match place(*h) {
            Place::Nowhere => Handed::Nothing,
            Place::Local => Handed::AskLocal,
            Place::Cell { .. } => if copied < 0 {
                Handed::Nothing
            } else {
                Handed::Slot(slot)
            },
        }),
{
    match place_of(h) {
        Place::Nowhere => Handed::Nothing,
        Place::Local => Handed::AskLocal,
        Place::Cell { .. } => if copied < 0 {
            Handed::Nothing
        } else {
            Handed::Slot(slot)
        },
    }
}

/// The value as a blob. `copied` is the length of what was copied from its cell into the ring's
/// place; nothing is handed out of an empty one.
pub fn rust_my_sqlite3_value_blob(h: &ValueHandle, slot: usize, copied: i32) -> (r: Handed)
    ensures
        r == (match place(*h) {
            Place::Nowhere => Handed::Nothing,
            Place::Local => Handed::AskLocal,
            Place::Cell { .. } => if copied <= 0 {
                Handed::Nothing
            } else {
                Handed::Slot(slot)
            },
        }),
{
    match place_of(h) {
        Place::Nowhere => Handed::Nothing,
        Place::Local => Handed::AskLocal,
        Place::Cell { .. } => if copied <= 0 {
            Handed::Nothing
        } else {
            Handed::Slot(slot)
        },
    }
}

/// The counter after `k` more were handed out.
pub open spec fn counted_on_by(next: int, k: nat) -> int
    decreases k,
{
    if k == 0 {
        next
    } else {
        counted_on(counted_on_by(next, (k - 1) as nat))
    }
}

proof fn lemma_next_mod(n: int, a: int, m: int)
    requires
        m > 0,
        n % m == a % m,
    ensures
        (n + 1) % m == (a + 1) % m,
{
    vstd::arithmetic::div_mod::lemma_add_mod_noop(n, 1, m);
    vstd::arithmetic::div_mod::lemma_add_mod_noop(a, 1, m);
}

proof fn lemma_counted(next: int, k: nat, m: int)
    requires
        0 <= next <= usize::MAX,
        m == 256 || m == 64,
    ensures
        0 <= counted_on_by(next, k) <= usize::MAX,
        counted_on_by(next, k) % m == (next + k) % m,
    decreases k,
{
    if k > 0 {
        lemma_counted(next, (k - 1) as nat, m);
        let n = counted_on_by(next, (k - 1) as nat);
        lemma_next_mod(n, next + k - 1, m);
        if n == usize::MAX {
            assert(usize::MAX == 0xffff_ffff || usize::MAX == 0xffff_ffff_ffff_ffff);
            assert((n + 1) % m == 0);
        }
    }
}

proof fn lemma_apart(next: int, k: int, m: int)
    requires
        0 < k < m,
    ensures
        (next + k) % m != next % m,
{
    vstd::arithmetic::div_mod::lemma_mod_equivalence(next + k, next, m);
    vstd::arithmetic::div_mod::lemma_small_mod(k as nat, m as nat);
}

/// What was handed out stays in its place until as many more have been handed out as the ring has
/// places: 256 for texts and 64 for blobs.
pub proof fn law_ring_keeps(next: usize, k: nat)
    ensures
        0 < k < VALUE_TEXT_BUF_COUNT ==> ring_place(counted_on_by(next as int, k), 256)
            != ring_place(next as int, 256),
        0 < k < VALUE_BLOB_BUF_COUNT ==> ring_place(counted_on_by(next as int, k), 64)
            != ring_place(next as int, 64),
        ring_place(counted_on_by(next as int, 256), 256) == ring_place(next as int, 256),
        ring_place(counted_on_by(next as int, 64), 64) == ring_place(next as int, 64),
{
    lemma_counted(next as int, k, 256);
    lemma_counted(next as int, k, 64);
    lemma_counted(next as int, 256, 256);
    lemma_counted(next as int, 64, 64);
    if 0 < k < 256 {
        lemma_apart(next as int, k as int, 256);
    }
    if 0 < k < 64 {
        lemma_apart(next as int, k as int, 64);
    }
    vstd::arithmetic::div_mod::lemma_mod_add_multiples_vanish(next as int, 256);
    vstd::arithmetic::div_mod::lemma_mod_add_multiples_vanish(next as int, 64);
}

/// A value that another thread made is null to this one, whatever its cell holds.
pub proof fn law_other_threads_see_nothing(f: FakeValue)
    requires
        !f.same_thread,
        f.stmt is Some,
    ensures
        place(ValueHandle::Fake(f)) == Place::Nowhere,
{
}

/// A value stands in a cell exactly where it was made by the thread that asks, of a statement whose
/// rows have that cell; and then it is the cell that it was made of. SQLite is asked for its own
/// values, and for those that have no statement.
pub proof fn law_values_stand_in_their_cells(f: FakeValue, rows: Rows, row: i32, col: i32)
    ensures
        f.stmt == Some(rows) ==> (place(ValueHandle::Fake(f)) == (Place::Cell { row, col })
            <==> f.same_thread && rows.has_result && row == f.row_idx && col == f.col_idx && 0 <= row
            && row < rows.num_rows && 0 <= col && col < rows.num_cols),
        f.stmt == Some(rows) ==> place(ValueHandle::Fake(f)) != Place::Local,
        f.stmt is None ==> place(ValueHandle::Fake(f)) == Place::Local,
        place(ValueHandle::Local) == Place::Local,
        place(ValueHandle::Null) == Place::Nowhere,
{
}

} // verus!
