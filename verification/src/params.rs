//! The values that are bound to the parameters of a statement, and what binding one does.

use crate::predicates;
use crate::prepare_text;
use crate::search;
use crate::text;
use vstd::prelude::*;

verus! {

/// What a parameter is bound to.
pub enum Param {
    /// Nothing.
    Null,
    /// A number, written into the parameter's own buffer.
    Buffer(Vec<u8>),
    /// Bytes in memory of their own.
    Owned(Vec<u8>),
}

/// The bytes that a parameter is bound to.
pub open spec fn bound_bytes(p: Param) -> Option<Seq<u8>> {
    match p {
        Param::Null => None,
        Param::Buffer(v) => Some(v@),
        Param::Owned(v) => Some(v@),
    }
}

/// Is the parameter bound to memory of its own that holds these bytes?
pub open spec fn owns(p: Param, b: Seq<u8>) -> bool {
    p matches Param::Owned(v) && v@ == b
}

/// Is the parameter bound to its own buffer, and does that hold these bytes?
pub open spec fn buffers(p: Param, b: Seq<u8>) -> bool {
    p matches Param::Buffer(v) && v@ == b
}

/// The parameters of a statement. There is one value, length and format for each parameter that a
/// statement can have.
pub struct Params {
    /// The names that the translated statement gives its parameters, where it names them.
    pub names: Option<Vec<Option<Vec<u8>>>>,
    /// How many parameters the translated statement has.
    pub count: i32,
    pub values: Vec<Param>,
    pub lengths: Vec<i32>,
    pub formats: Vec<i32>,
}

impl Params {
    /// There are as many lengths and formats as values, and a name, or the lack of one, for each
    /// parameter.
    pub open spec fn wf(self) -> bool {
        &&& self.values@.len() == self.lengths@.len()
        &&& self.values@.len() == self.formats@.len()
        &&& self.values@.len() <= i32::MAX
        &&& self.count >= 0
        &&& self.names is Some && self.count > 0 ==> self.names->0@.len() == self.count
    }

    /// The same statement, with this parameter bound to something else.
    pub open spec fn rebound(self, new: Self, slot: int) -> bool {
        &&& new.names == self.names
        &&& new.count == self.count
        &&& new.lengths@ == self.lengths@
        &&& new.formats@ == self.formats@
        &&& new.values@.len() == self.values@.len()
        &&& forall|i: int|
            0 <= i < self.values@.len() && i != slot ==> #[trigger] new.values@[i] == self.values@[i]
    }
}

/// A name without the colon before it.
pub open spec fn without_colon(name: Seq<u8>) -> Seq<u8> {
    if name.len() > 0 && name[0] == 0x3A {
        name.skip(1)
    } else {
        name
    }
}

/// The first parameter of this name.
pub open spec fn named(names: Seq<Option<Vec<u8>>>, count: int, name: Seq<u8>) -> Option<int> {
    search::first_index(|i: int| prepare_text::opt_bytes(names[i]) == Some(name), 0, count)
}

/// Finds the first parameter of this name.
pub fn find_name(names: &Vec<Option<Vec<u8>>>, name: &[u8]) -> (r: Option<usize>)
    ensures
        search::index(r) == named(names@, names@.len() as int, name@),
{
    let ghost p = |i: int| prepare_text::opt_bytes(names@[i]) == Some(name@);
    let n: usize = names.len();
    let mut i: usize = 0;
    while i < n
        invariant
            i <= n == names@.len(),
            p == (|i: int| prepare_text::opt_bytes(names@[i]) == Some(name@)),
            search::first_index(p, 0, n as int) == search::first_index(p, i as int, n as int),
        decreases n - i,
    {
        if let Some(v) = &names[i] {
            if same_bytes(v, name) {
                assert(p(i as int));
                return Some(i);
            }
        }
        assert(!p(i as int));
        i += 1;
    }
    None
}

/// Are two strings of bytes equal?
pub fn same_bytes(a: &[u8], b: &[u8]) -> (r: bool)
    ensures
        r == (a@ == b@),
{
    let n: usize = a.len();
    if n != b.len() {
        return false;
    }
    let mut i: usize = 0;
    while i < n
        invariant
            i <= n == a@.len() == b@.len(),
            forall|k: int| 0 <= k < i ==> a@[k] == b@[k],
        decreases n - i,
    {
        if a[i] != b[i] {
            return false;
        }
        i += 1;
    }
    assert(a@ == b@);
    true
}

/// The parameter of the translated statement that SQLite's parameter stands for: the one of the same
/// name, or else the one in the same place.
pub open spec fn mapped(params: Params, name: Option<Seq<u8>>, idx: int) -> int {
    if params.names is Some && params.count > 0 && name is Some {
        match named(params.names->0@, params.count as int, without_colon(name->0)) {
            Some(i) => i,
            None => idx - 1,
        }
    } else {
        idx - 1
    }
}

/// The parameter of the translated statement that SQLite's parameter `idx` stands for. `name` is what
/// SQLite calls that parameter.
pub fn pg_map_param_index(params: &Params, name: Option<&[u8]>, sqlite_idx: i32) -> (r: i32)
    requires
        params.wf(),
        sqlite_idx > i32::MIN,
    ensures
        r == mapped(*params, match name {
            Some(n) => Some(n@),
            None => None,
        }, sqlite_idx as int),
{
    if let Some(names) = &params.names {
        if params.count > 0 {
            if let Some(n) = name {
                let len: usize = n.len();
                let clean: Vec<u8> = if len > 0 && n[0] == 0x3A {
                    prepare_text::copy_range(n, 1, len)
                } else {
                    prepare_text::copy_range(n, 0, len)
                };
                assert(clean@ == without_colon(n@));
                if let Some(i) = find_name(names, &clean) {
                    proof {
                        search::lemma_first_index(
                            |i: int| prepare_text::opt_bytes(names@[i]) == Some(clean@),
                            0,
                            names@.len() as int,
                        );
                    }
                    return i as i32;
                }
            }
        }
    }
    sqlite_idx - 1
}

/// The place for SQLite's parameter, if the statement has one.
pub open spec fn slot_of(params: Params, name: Option<Seq<u8>>, idx: int) -> Option<int> {
    let limit = params.values@.len() as int;
    let at = mapped(params, name, idx);
    if 0 < idx <= limit && 0 <= at < limit {
        Some(at)
    } else {
        None
    }
}

/// The bytes of a name that may be missing.
pub open spec fn name_of(name: Option<&[u8]>) -> Option<Seq<u8>> {
    match name {
        Some(n) => Some(n@),
        None => None,
    }
}

/// The place for SQLite's parameter, if the statement has one.
pub fn mapped_param_index(params: &Params, name: Option<&[u8]>, idx: i32) -> (r: Option<usize>)
    requires
        params.wf(),
    ensures
        search::index(r) == slot_of(*params, name_of(name), idx as int),
{
    let limit: usize = params.values.len();
    if idx > 0 && idx as usize <= limit {
        let at: i32 = pg_map_param_index(params, name, idx);
        if at >= 0 && (at as usize) < limit {
            return Some(at as usize);
        }
    }
    None
}

/// A number in decimal digits.
pub open spec fn decimal(n: int) -> Seq<u8> {
    if n < 0 {
        seq![0x2Du8] + digits((-n) as nat)
    } else {
        digits(n as nat)
    }
}

/// The digits of a number.
pub open spec fn digits(n: nat) -> Seq<u8>
    decreases n,
{
    if n < 10 {
        seq![(48 + n) as u8]
    } else {
        digits(n / 10).push((48 + n % 10) as u8)
    }
}

/// The digits of a number, after what is there already.
fn push_digits(out: &mut Vec<u8>, n: u64)
    ensures
        final(out)@ == old(out)@ + digits(n as nat),
    decreases n,
{
    if n >= 10 {
        push_digits(out, n / 10);
    }
    out.push(48 + (n % 10) as u8);
    assert(out@ == old(out)@ + digits(n as nat));
}

/// Writes a number in decimal digits.
pub fn decimal_text(n: i64) -> (r: Vec<u8>)
    ensures
        r@ == decimal(n as int),
{
    let mut out: Vec<u8> = Vec::new();
    if n < 0 {
        out.push(0x2D);
        let size: u64 = (-(n + 1)) as u64 + 1;
        push_digits(&mut out, size);
        assert(out@ == decimal(n as int));
    } else {
        push_digits(&mut out, n as u64);
        assert(out@ == decimal(n as int));
    }
    out
}

/// The bytes of a text of ASCII characters.
pub open spec fn ascii_bytes(s: Seq<char>) -> Seq<u8> {
    s.map_values(|c: char| c as u8)
}

/// Bytes as the server reads them in a text: `\x` and two hexadecimal digits for each; nothing for
/// no bytes.
pub open spec fn hex_form(data: Seq<u8>) -> Seq<u8> {
    if data.len() == 0 {
        Seq::empty()
    } else {
        ascii_bytes(seq!['\\', 'x'] + predicates::hex(data))
    }
}

/// Writes bytes as the server reads them in a text.
pub fn bytes_to_pg_hex(data: &[u8]) -> (r: Vec<u8>)
    ensures
        r@ == hex_form(data@),
{
    let chars = text::chars_of(predicates::bytes_to_pg_hex_impl(data).as_str());
    let mut out: Vec<u8> = Vec::new();
    let n: usize = chars.len();
    let mut i: usize = 0;
    while i < n
        invariant
            i <= n == chars@.len(),
            out@ == ascii_bytes(chars@.take(i as int)),
            chars@ == (if data@.len() == 0 {
                Seq::<char>::empty()
            } else {
                seq!['\\', 'x'] + predicates::hex(data@)
            }),
        decreases n - i,
    {
        out.push(chars[i] as u8);
        assert(ascii_bytes(chars@.take(i + 1)) == ascii_bytes(chars@.take(i as int)).push(
            chars@[i as int] as u8,
        ));
        i += 1;
    }
    assert(chars@.take(n as int) == chars@);
    assert(out@ == hex_form(data@));
    out
}

/// Do the bytes hold one that text does not?
pub open spec fn holds_binary(b: Seq<u8>) -> bool {
    exists|i: int| 0 <= i < b.len() && predicates::is_binary(#[trigger] b[i])
}

/// The form in which a text is kept for the server: in hexadecimal digits where it holds a byte that
/// text does not, and else as it is.
pub open spec fn text_form(b: Seq<u8>) -> Seq<u8> {
    if holds_binary(b) {
        hex_form(b)
    } else {
        b
    }
}

/// The parameter, without memory of its own. A number in its buffer stays.
pub open spec fn freed(p: Param) -> Param {
    match p {
        Param::Owned(_) => Param::Null,
        _ => p,
    }
}

/// Gives back a parameter's own memory.
pub fn free_dynamic_param_value(params: &mut Params, slot: usize)
    requires
        old(params).wf(),
        slot < old(params).values@.len(),
    ensures
        final(params).wf(),
        old(params).rebound(*final(params), slot as int),
        final(params).values@[slot as int] == freed(old(params).values@[slot as int]),
{
    let is_owned = match &params.values[slot] {
        Param::Owned(_) => true,
        _ => false,
    };
    if is_owned {
        params.values.set(slot, Param::Null);
    }
}

/// Keeps a text for the server.
pub fn store_text_param(params: &mut Params, slot: usize, val: &[u8])
    requires
        old(params).wf(),
        slot < old(params).values@.len(),
    ensures
        final(params).wf(),
        old(params).rebound(*final(params), slot as int),
        owns(final(params).values@[slot as int], text_form(val@)),
{
    let kept: Vec<u8> = if predicates::contains_binary_bytes_impl(val) {
        bytes_to_pg_hex(val)
    } else {
        prepare_text::copy_range(val, 0, val.len())
    };
    assert(kept@ == text_form(val@));
    params.values.set(slot, Param::Owned(kept));
}

/// Keeps bytes for the server, in hexadecimal digits.
pub fn store_blob_hex_param(params: &mut Params, slot: usize, val: &[u8])
    requires
        old(params).wf(),
        slot < old(params).values@.len(),
    ensures
        final(params).wf(),
        stored_in_digits(*old(params), *final(params), slot as int, val@),
{
    let kept = bytes_to_pg_hex(val);
    params.values.set(slot, Param::Owned(kept));
    params.lengths.set(slot, 0);
    params.formats.set(slot, 0);
}

/// The parameter is bound to these bytes in hexadecimal digits, as text.
pub open spec fn stored_in_digits(old: Params, new: Params, slot: int, val: Seq<u8>) -> bool {
    &&& new.names == old.names
    &&& new.count == old.count
    &&& new.values@.len() == old.values@.len()
    &&& forall|i: int|
        0 <= i < old.values@.len() && i != slot ==> #[trigger] new.values@[i] == old.values@[i]
    &&& owns(new.values@[slot], hex_form(val))
    &&& new.lengths@ == old.lengths@.update(slot, 0)
    &&& new.formats@ == old.formats@.update(slot, 0)
}

/// Binds a number, where the statement has a place for it.
pub fn rust_my_sqlite3_bind_int64(params: &mut Params, name: Option<&[u8]>, idx: i32, val: i64)
    requires
        old(params).wf(),
    ensures
        final(params).wf(),
        match slot_of(*old(params), name_of(name), idx as int) {
            Some(slot) => old(params).rebound(*final(params), slot) && buffers(
                final(params).values@[slot],
                decimal(val as int),
            ),
            None => *final(params) == *old(params),
        },
{
    if let Some(slot) = mapped_param_index(params, name, idx) {
        params.values.set(slot, Param::Buffer(decimal_text(val)));
    }
}

/// Binds a number, where the statement has a place for it.
pub fn rust_my_sqlite3_bind_int(params: &mut Params, name: Option<&[u8]>, idx: i32, val: i32)
    requires
        old(params).wf(),
    ensures
        final(params).wf(),
        match slot_of(*old(params), name_of(name), idx as int) {
            Some(slot) => old(params).rebound(*final(params), slot) && buffers(
                final(params).values@[slot],
                decimal(val as int),
            ),
            None => *final(params) == *old(params),
        },
{
    rust_my_sqlite3_bind_int64(params, name, idx, val as i64)
}

/// Binds a floating-point number, which comes written out, where the statement has a place for it.
pub fn rust_my_sqlite3_bind_double(
    params: &mut Params,
    name: Option<&[u8]>,
    idx: i32,
    written: Vec<u8>,
)
    requires
        old(params).wf(),
    ensures
        final(params).wf(),
        match slot_of(*old(params), name_of(name), idx as int) {
            Some(slot) => old(params).rebound(*final(params), slot) && buffers(
                final(params).values@[slot],
                written@,
            ),
            None => *final(params) == *old(params),
        },
{
    if let Some(slot) = mapped_param_index(params, name, idx) {
        params.values.set(slot, Param::Buffer(written));
    }
}

/// Binds a text, where there is one and the statement has a place for it.
pub fn rust_my_sqlite3_bind_text(
    params: &mut Params,
    name: Option<&[u8]>,
    idx: i32,
    val: Option<&[u8]>,
)
    requires
        old(params).wf(),
    ensures
        final(params).wf(),
        match (slot_of(*old(params), name_of(name), idx as int), val) {
            (Some(slot), Some(v)) => old(params).rebound(*final(params), slot) && owns(
                final(params).values@[slot],
                text_form(v@),
            ),
            _ => *final(params) == *old(params),
        },
{
    if let Some(v) = val {
        if let Some(slot) = mapped_param_index(params, name, idx) {
            store_text_param(params, slot, v);
        }
    }
}

/// Binds a text whose length came as 64 bits: as any other.
pub fn rust_my_sqlite3_bind_text64(
    params: &mut Params,
    name: Option<&[u8]>,
    idx: i32,
    val: Option<&[u8]>,
)
    requires
        old(params).wf(),
    ensures
        final(params).wf(),
        match (slot_of(*old(params), name_of(name), idx as int), val) {
            (Some(slot), Some(v)) => old(params).rebound(*final(params), slot) && owns(
                final(params).values@[slot],
                text_form(v@),
            ),
            _ => *final(params) == *old(params),
        },
{
    rust_my_sqlite3_bind_text(params, name, idx, val)
}

/// How many bytes a text has: as many as are said, or up to its zero where a negative number is
/// said.
pub fn text_len(n_bytes: i32, measured: usize) -> (r: usize)
    ensures
        r == (if n_bytes < 0 {
            measured as int
        } else {
            n_bytes as int
        }),
{
    if n_bytes < 0 {
        measured
    } else {
        n_bytes as usize
    }
}

/// The same where the number has 64 bits: the largest has the text end at its zero.
pub fn text_len64(n_bytes: u64, measured: usize) -> (r: usize)
    requires
        n_bytes == u64::MAX || n_bytes <= usize::MAX,
    ensures
        r == (if n_bytes == u64::MAX {
            measured as int
        } else {
            n_bytes as int
        }),
{
    if n_bytes == u64::MAX {
        measured
    } else {
        n_bytes as usize
    }
}

/// Binds bytes, where there are some and the statement has a place for them.
pub fn rust_my_sqlite3_bind_blob(
    params: &mut Params,
    name: Option<&[u8]>,
    idx: i32,
    val: Option<&[u8]>,
)
    requires
        old(params).wf(),
    ensures
        final(params).wf(),
        match (slot_of(*old(params), name_of(name), idx as int), val) {
            (Some(slot), Some(v)) => if v@.len() > 0 {
                stored_in_digits(*old(params), *final(params), slot, v@)
            } else {
                *final(params) == *old(params)
            },
            _ => *final(params) == *old(params),
        },
{
    if let Some(v) = val {
        if v.len() > 0 {
            if let Some(slot) = mapped_param_index(params, name, idx) {
                store_blob_hex_param(params, slot, v);
            }
        }
    }
}

/// Binds bytes whose number came as 64 bits: as any others.
pub fn rust_my_sqlite3_bind_blob64(
    params: &mut Params,
    name: Option<&[u8]>,
    idx: i32,
    val: Option<&[u8]>,
)
    requires
        old(params).wf(),
    ensures
        final(params).wf(),
        match (slot_of(*old(params), name_of(name), idx as int), val) {
            (Some(slot), Some(v)) => if v@.len() > 0 {
                stored_in_digits(*old(params), *final(params), slot, v@)
            } else {
                *final(params) == *old(params)
            },
            _ => *final(params) == *old(params),
        },
{
    rust_my_sqlite3_bind_blob(params, name, idx, val)
}

/// Binds nothing, where the statement has a place for it. A number in the parameter's own buffer
/// stays bound.
pub fn rust_my_sqlite3_bind_null(params: &mut Params, name: Option<&[u8]>, idx: i32)
    requires
        old(params).wf(),
    ensures
        final(params).wf(),
        match slot_of(*old(params), name_of(name), idx as int) {
            Some(slot) => old(params).rebound(*final(params), slot) && final(params).values@[slot]
                == freed(old(params).values@[slot]),
            None => *final(params) == *old(params),
        },
{
    if let Some(slot) = mapped_param_index(params, name, idx) {
        free_dynamic_param_value(params, slot);
    }
}

/// A value of SQLite.
pub enum LocalValue {
    Integer(i64),
    /// A floating-point number, written out.
    Float(Vec<u8>),
    Text(Option<Vec<u8>>),
    Blob(Option<Vec<u8>>),
    Nothing,
}

/// What binding the value does to the parameter.
pub open spec fn value_stored(old: Params, new: Params, slot: int, val: LocalValue) -> bool {
    match val {
        LocalValue::Integer(n) => old.rebound(new, slot) && owns(new.values@[slot], decimal(n as int)),
        LocalValue::Float(t) => old.rebound(new, slot) && owns(new.values@[slot], t@),
        LocalValue::Text(Some(t)) => old.rebound(new, slot) && owns(new.values@[slot], t@),
        LocalValue::Blob(Some(b)) => if b@.len() > 0 {
            stored_as_bytes(old, new, slot, b@)
        } else {
            old.rebound(new, slot) && new.values@[slot] == freed(old.values@[slot])
        },
        _ => old.rebound(new, slot) && new.values@[slot] == freed(old.values@[slot]),
    }
}

/// The parameter is bound to these bytes, which go to the server as they are.
pub open spec fn stored_as_bytes(old: Params, new: Params, slot: int, val: Seq<u8>) -> bool {
    &&& new.names == old.names
    &&& new.count == old.count
    &&& new.values@.len() == old.values@.len()
    &&& forall|i: int|
        0 <= i < old.values@.len() && i != slot ==> #[trigger] new.values@[i] == old.values@[i]
    &&& owns(new.values@[slot], val)
    &&& new.lengths@ == old.lengths@.update(slot, val.len() as i32)
    &&& new.formats@ == old.formats@.update(slot, 1)
}

/// Binds a value of SQLite, where the statement has a place for it. A blob goes to the server as it
/// is; its length must fit in SQLite's lengths.
pub fn rust_my_sqlite3_bind_value(
    params: &mut Params,
    name: Option<&[u8]>,
    idx: i32,
    val: LocalValue,
)
    requires
        old(params).wf(),
        val matches LocalValue::Blob(Some(b)) ==> b@.len() <= i32::MAX,
    ensures
        final(params).wf(),
        match slot_of(*old(params), name_of(name), idx as int) {
            Some(slot) => value_stored(*old(params), *final(params), slot, val),
            None => *final(params) == *old(params),
        },
{
    if let Some(slot) = mapped_param_index(params, name, idx) {
        match val {
            LocalValue::Integer(n) => {
                params.values.set(slot, Param::Owned(decimal_text(n)));
            },
            LocalValue::Float(t) => {
                params.values.set(slot, Param::Owned(t));
            },
            LocalValue::Text(Some(t)) => {
                params.values.set(slot, Param::Owned(t));
            },
            LocalValue::Blob(Some(b)) => {
                let n: usize = b.len();
                if n > 0 {
                    params.values.set(slot, Param::Owned(b));
                    params.lengths.set(slot, n as i32);
                    params.formats.set(slot, 1);
                } else {
                    free_dynamic_param_value(params, slot);
                }
            },
            _ => {
                free_dynamic_param_value(params, slot);
            },
        }
    }
}

/// Binding a text or some bytes and then nothing leaves the parameter bound to nothing.
pub proof fn law_null_unbinds(a: Params, b: Params, c: Params, slot: int, val: Seq<u8>)
    requires
        0 <= slot < a.values@.len(),
        a.rebound(b, slot) && owns(b.values@[slot], text_form(val)) || stored_in_digits(
            a,
            b,
            slot,
            val,
        ),
        b.rebound(c, slot),
        c.values@[slot] == freed(b.values@[slot]),
    ensures
        bound_bytes(c.values@[slot]) == None::<Seq<u8>>,
{
}

/// Numbers that are written the same are the same.
pub proof fn law_decimal_is_unambiguous(a: int, b: int)
    requires
        decimal(a) == decimal(b),
    ensures
        a == b,
{
    if a < 0 {
        lemma_digits((-a) as nat);
    } else {
        lemma_digits(a as nat);
    }
    if b < 0 {
        lemma_digits((-b) as nat);
    } else {
        lemma_digits(b as nat);
    }
    let x: nat = if a < 0 { (-a) as nat } else { a as nat };
    let y: nat = if b < 0 { (-b) as nat } else { b as nat };
    assert(a < 0 ==> decimal(a)[0] == 0x2D);
    assert(b < 0 ==> decimal(b)[0] == 0x2D);
    assert(a >= 0 ==> decimal(a)[0] == digits(x)[0] && digits(x)[0] >= 48);
    assert(b >= 0 ==> decimal(b)[0] == digits(y)[0] && digits(y)[0] >= 48);
    assert((a < 0) == (b < 0));
    if a < 0 {
        assert(decimal(a).skip(1) == digits(x));
        assert(decimal(b).skip(1) == digits(y));
    }
    lemma_digits_unambiguous(x, y);
}

proof fn lemma_digits(n: nat)
    ensures
        digits(n).len() > 0,
        forall|i: int| 0 <= i < digits(n).len() ==> 48 <= #[trigger] digits(n)[i] <= 57,
    decreases n,
{
    if n >= 10 {
        lemma_digits(n / 10);
    }
}

proof fn lemma_digits_unambiguous(x: nat, y: nat)
    requires
        digits(x) == digits(y),
    ensures
        x == y,
    decreases x,
{
    lemma_digits(x / 10);
    lemma_digits(y / 10);
    assert(digits(x).len() == (if x < 10 { 1 } else { digits(x / 10).len() + 1 }));
    assert(digits(y).len() == (if y < 10 { 1 } else { digits(y / 10).len() + 1 }));
    assert(digits(x).last() == (48 + x % 10) as u8);
    assert(digits(y).last() == (48 + y % 10) as u8);
    if x >= 10 {
        assert(y >= 10);
        assert(digits(x).drop_last() == digits(x / 10));
        assert(digits(y).drop_last() == digits(y / 10));
        lemma_digits_unambiguous(x / 10, y / 10);
    } else {
        assert(y < 10);
    }
}

/// The number that decimal digits stand for.
pub open spec fn value_of_digits(s: Seq<u8>) -> int
    decreases s.len(),
{
    if s.len() == 0 {
        0
    } else {
        value_of_digits(s.drop_last()) * 10 + (s.last() - 0x30)
    }
}

/// The number that a text stands for: digits, with a minus sign before them for a negative one.
pub open spec fn value_of(s: Seq<u8>) -> int {
    if s.len() > 0 && s[0] == 0x2D {
        -value_of_digits(s.skip(1))
    } else {
        value_of_digits(s)
    }
}

proof fn lemma_value_of_digits(n: nat)
    ensures
        value_of_digits(digits(n)) == n,
    decreases n,
{
    if n < 10 {
        assert(digits(n).drop_last() =~= Seq::empty());
        assert(value_of_digits(digits(n).drop_last()) == 0);
    } else {
        lemma_value_of_digits(n / 10);
        assert(digits(n).drop_last() =~= digits(n / 10));
    }
}

/// A number that is written out reads as itself.
pub proof fn law_numbers_read_back(n: int)
    ensures
        value_of(decimal(n)) == n,
        decimal(n).len() > 0,
{
    if n < 0 {
        assert(decimal(n).skip(1) =~= digits((-n) as nat));
        lemma_value_of_digits((-n) as nat);
    } else {
        lemma_digits(n as nat);
        lemma_value_of_digits(n as nat);
    }
}

/// The number that a hexadecimal digit with a small letter stands for.
pub open spec fn digit_value(c: u8) -> int {
    if 0x30 <= c <= 0x39 {
        c - 0x30
    } else {
        c - 0x61 + 10
    }
}

/// Bytes in hexadecimal digits read as themselves: a backslash and an `x`, then two digits for each
/// byte, the higher first.
pub proof fn law_bytes_read_back(data: Seq<u8>, i: int)
    requires
        0 <= i < data.len(),
    ensures
        hex_form(data).len() == 2 * data.len() + 2,
        hex_form(data)[0] == 0x5C,
        hex_form(data)[1] == 0x78,
        digit_value(hex_form(data)[2 + 2 * i]) * 16 + digit_value(hex_form(data)[3 + 2 * i])
            == data[i],
        0 <= digit_value(hex_form(data)[2 + 2 * i]) < 16,
        0 <= digit_value(hex_form(data)[3 + 2 * i]) < 16,
{
    predicates::law_digits_of_bytes(data, i);
    let t = seq!['\\', 'x'] + predicates::hex(data);
    assert(t[2 + 2 * i] == predicates::hex(data)[2 * i]);
    assert(t[3 + 2 * i] == predicates::hex(data)[2 * i + 1]);
}

/// A text is kept for the server as it is, if no byte of it is a control character other than tab,
/// line feed and carriage return, or one that UTF-8 never uses; otherwise in hexadecimal digits, so
/// that no such byte is sent.
pub proof fn law_texts_are_sendable(b: Seq<u8>)
    ensures
        (forall|i: int|
            0 <= i < b.len() ==> ((#[trigger] b[i]) == 0x09 || b[i] == 0x0A || b[i] == 0x0D || 0x20
                <= b[i] <= 0x7E || 0x80 <= b[i] <= 0xBF || 0xC2 <= b[i] <= 0xF4)) ==> text_form(b)
            == b,
        (exists|i: int|
            0 <= i < b.len() && !((#[trigger] b[i]) == 0x09 || b[i] == 0x0A || b[i] == 0x0D || 0x20
                <= b[i] <= 0x7E || 0x80 <= b[i] <= 0xBF || 0xC2 <= b[i] <= 0xF4)) ==> text_form(b)
            == hex_form(b),
{
    if exists|i: int|
        0 <= i < b.len() && !((#[trigger] b[i]) == 0x09 || b[i] == 0x0A || b[i] == 0x0D || 0x20
            <= b[i] <= 0x7E || 0x80 <= b[i] <= 0xBF || 0xC2 <= b[i] <= 0xF4) {
        let i = choose|i: int|
            0 <= i < b.len() && !((#[trigger] b[i]) == 0x09 || b[i] == 0x0A || b[i] == 0x0D || 0x20
                <= b[i] <= 0x7E || 0x80 <= b[i] <= 0xBF || 0xC2 <= b[i] <= 0xF4);
        assert(predicates::is_binary(b[i]));
    }
}

/// A parameter is found by its name, with or without the colon, at the first place that has the
/// name, and otherwise by its place, counted from one; a place that the statement does not have is
/// none.
pub proof fn law_parameters_are_found(p: Params, name: Seq<u8>, i: int, idx: int)
    requires
        p.wf(),
    ensures
        p.names is Some && 0 <= i < p.count && prepare_text::opt_bytes(p.names->0@[i]) == Some(name)
            && (forall|j: int|
            0 <= j < i ==> prepare_text::opt_bytes(#[trigger] p.names->0@[j]) != Some(name)) && !(
        name.len() > 0 && name[0] == 0x3A) ==> mapped(p, Some(name), idx) == i && mapped(
            p,
            Some(seq![0x3Au8] + name),
            idx,
        ) == i,
        mapped(p, None, idx) == idx - 1,
        p.names is None ==> mapped(p, Some(name), idx) == idx - 1,
        p.names is Some && !(name.len() > 0 && name[0] == 0x3A) && (forall|j: int|
            0 <= j < p.count ==> prepare_text::opt_bytes(#[trigger] p.names->0@[j]) != Some(name))
            ==> mapped(p, Some(name), idx) == idx - 1,
        slot_of(p, None, idx) == if 0 < idx <= p.values@.len() {
            Some(idx - 1)
        } else {
            None
        },
{
    if p.names is Some {
        let q = |j: int| prepare_text::opt_bytes(p.names->0@[j]) == Some(name);
        search::lemma_first_index(q, 0, p.count as int);
        assert((seq![0x3Au8] + name).skip(1) =~= name);
        assert forall|j: int| 0 <= j < p.count implies q(j) == (prepare_text::opt_bytes(
            #[trigger] p.names->0@[j],
        ) == Some(name)) by {}
        if 0 <= i < p.count {
            assert(p.names->0@[i] == p.names->0@[i]);
        }
        match search::first_index(q, 0, p.count as int) {
            Some(k) => {
                assert(p.names->0@[k] == p.names->0@[k]);
            },
            None => {},
        }
    }
}

/// What binding a value of SQLite leaves for the server: a number, written out; a number that came
/// written out, or a text, as it is; bytes as they are, marked as such and with their length; and
/// nothing of a parameter's own memory for anything else. Other parameters stay.
pub proof fn law_values_are_kept(old: Params, new: Params, slot: int, val: LocalValue)
    requires
        old.wf(),
        0 <= slot < old.values@.len(),
        value_stored(old, new, slot, val),
        val matches LocalValue::Blob(Some(b)) ==> b@.len() <= i32::MAX,
    ensures
        forall|j: int|
            0 <= j < old.values@.len() && j != slot ==> #[trigger] new.values@[j] == old.values@[j],
        val matches LocalValue::Integer(n) ==> (bound_bytes(new.values@[slot]) matches Some(b)
            && value_of(b) == n),
        val matches LocalValue::Float(t) ==> bound_bytes(new.values@[slot]) == Some(t@),
        val matches LocalValue::Text(Some(t)) ==> bound_bytes(new.values@[slot]) == Some(t@),
        val matches LocalValue::Blob(Some(b)) ==> (b@.len() > 0 ==> bound_bytes(new.values@[slot])
            == Some(b@) && new.formats@[slot] == 1 && new.lengths@[slot] == b@.len()),
        val is Nothing ==> !(new.values@[slot] is Owned),
{
    match val {
        LocalValue::Integer(n) => {
            law_numbers_read_back(n as int);
        },
        _ => {},
    }
}

/// Bytes that are bound go to the server as text in hexadecimal digits.
pub proof fn law_blobs_are_text(old: Params, new: Params, slot: int, val: Seq<u8>)
    requires
        old.wf(),
        0 <= slot < old.values@.len(),
        stored_in_digits(old, new, slot, val),
    ensures
        bound_bytes(new.values@[slot]) == Some(hex_form(val)),
        new.formats@[slot] == 0,
        new.lengths@[slot] == 0,
        forall|j: int|
            0 <= j < old.values@.len() && j != slot ==> #[trigger] new.values@[j] == old.values@[j]
                && new.formats@[j] == old.formats@[j] && new.lengths@[j] == old.lengths@[j],
{
}

/// Binding one parameter leaves the others, and the names, as they are.
pub proof fn law_other_parameters_stay(old: Params, new: Params, slot: int, other: int, val: Seq<u8>)
    requires
        old.wf(),
        0 <= slot < old.values@.len(),
        0 <= other < old.values@.len(),
        other != slot,
        old.rebound(new, slot) || stored_in_digits(old, new, slot, val),
    ensures
        new.values@.len() == old.values@.len(),
        new.values@[other] == old.values@[other],
        new.formats@[other] == old.formats@[other],
        new.lengths@[other] == old.lengths@[other],
        new.names == old.names,
        new.count == old.count,
{
}

} // verus!
