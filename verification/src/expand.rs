//! The text of a statement with the values of its parameters written into it.

use crate::bytes;
use crate::metadata;
use crate::metadata::{Handle, StmtInfo};
use crate::params;
use crate::params::{Param, Params};
use crate::prepare_text;
use vstd::prelude::*;
use vstd::string::*;

verus! {

/// Each quotation mark twice.
pub open spec fn escaped(v: Seq<u8>) -> Seq<u8>
    decreases v.len(),
{
    if v.len() == 0 {
        Seq::empty()
    } else {
        escaped(v.drop_last()) + (if v.last() == 0x27 {
            seq![0x27u8, 0x27u8]
        } else {
            seq![v.last()]
        })
    }
}

/// A value between quotation marks.
pub open spec fn literal(v: Seq<u8>) -> Seq<u8> {
    seq![0x27u8] + escaped(v) + seq![0x27u8]
}

/// The number that digits write, as far as a machine word holds it.
pub open spec fn word(s: Seq<u8>, from: int, to: int) -> usize
    decreases to - from,
{
    if to <= from {
        0
    } else {
        ((word(s, from, to - 1) * 10 + (s[to - 1] - 48)) % (usize::MAX + 1)) as usize
    }
}

/// The place of a parameter by its number. Zero stands for the first one too.
pub open spec fn place(n: usize) -> int {
    if n == 0 {
        0
    } else {
        n - 1
    }
}

/// Does a parameter's number begin here?
pub open spec fn is_param(s: Seq<u8>, i: int) -> bool {
    s[i] == 0x24 && i + 1 < s.len() && bytes::is_digit(s[i + 1])
}

/// What a parameter becomes.
pub open spec fn with_param(s: Seq<u8>, i: int, p: Params, out: Seq<u8>, room: int) -> Seq<u8> {
    let end = bytes::digits_end(s, i + 1);
    let at = place(word(s, i + 1, end));
    if at < p.count && at < p.values@.len() {
        match params::bound_bytes(p.values@[at]) {
            Some(v) => bytes::capped(out, room, literal(v)),
            None => if out.len() + 4 < room {
                out + "NULL".spec_bytes()
            } else {
                out
            },
        }
    } else {
        bytes::capped(out, room, s.subrange(i, end))
    }
}

/// The rest of the statement from `i` on, with values in place of parameters, as far as there is
/// room.
pub open spec fn expanded_from(s: Seq<u8>, i: int, p: Params, out: Seq<u8>, room: int) -> Seq<u8>
    decreases s.len() - i,
{
    if i >= s.len() || out.len() >= room || i < 0 {
        out
    } else if is_param(s, i) {
        let end = bytes::digits_end(s, i + 1);
        if i < end <= s.len() {
            expanded_from(s, end, p, with_param(s, i, p, out, room), room)
        } else {
            out
        }
    } else {
        expanded_from(s, i + 1, p, out.push(s[i]), room)
    }
}

/// The room that a parameter's value is given.
pub open spec fn share(v: Param) -> int {
    match params::bound_bytes(v) {
        Some(b) => b.len() as int + 3,
        None => 4,
    }
}

/// The room that the first `n` parameters are given.
pub open spec fn shares(values: Seq<Param>, n: int) -> int
    decreases n,
{
    if n <= 0 {
        0
    } else {
        shares(values, n - 1) + share(values[n - 1])
    }
}

/// How many parameters are given room.
pub open spec fn counted(p: Params) -> int {
    if p.count < p.values@.len() {
        p.count as int
    } else {
        p.values@.len() as int
    }
}

/// Half of the room for the statement with its values.
pub open spec fn estimate(s: Seq<u8>, p: Params) -> int {
    s.len() + 1 + shares(p.values@, counted(p))
}

/// The room for the statement with its values: twice what it would take with each value once,
/// without the byte that ends it.
pub open spec fn room(s: Seq<u8>, p: Params) -> int {
    let twice = estimate(s, p) * 2;
    (if twice > usize::MAX {
        usize::MAX as int
    } else {
        twice
    }) - 1
}

/// The statement with the values of its parameters.
pub open spec fn expanded(s: Seq<u8>, p: Params) -> Seq<u8> {
    if p.count == 0 {
        s
    } else {
        expanded_from(s, 0, p, Seq::empty(), room(s, p))
    }
}

/// The text that is filled in: the translated one, or else the one that was given.
pub open spec fn base_sql(s: StmtInfo) -> Option<Seq<u8>> {
    if s.pg_sql is Some {
        Some(s.pg_sql->0@)
    } else {
        prepare_text::opt_bytes(s.sql)
    }
}

/// Reads the number that begins here.
fn read_number(s: &[u8], from: usize) -> (r: (usize, usize))
    requires
        from <= s@.len(),
    ensures
        r.0 == bytes::digits_end(s@, from as int),
        r.1 == word(s@, from as int, r.0 as int),
        from <= r.0 <= s@.len(),
{
    let len: usize = s.len();
    let mut p: usize = from;
    let mut n: usize = 0;
    while p < len && bytes::is_ascii_digit(s[p])
        invariant
            from <= p <= len == s@.len(),
            n == word(s@, from as int, p as int),
            bytes::digits_end(s@, from as int) == bytes::digits_end(s@, p as int),
        decreases len - p,
    {
        let d: usize = (s[p] - 48) as usize;
        proof {
            let m: int = usize::MAX + 1;
            vstd::arithmetic::div_mod::lemma_add_mod_noop(n * 10, d as int, m);
            vstd::arithmetic::div_mod::lemma_small_mod(d as nat, m as nat);
        }
        n = n.wrapping_mul(10).wrapping_add(d);
        p += 1;
    }
    (p, n)
}

proof fn lemma_capped_twice(out: Seq<u8>, room: int, a: Seq<u8>, b: Seq<u8>)
    requires
        out.len() <= room,
    ensures
        bytes::capped(bytes::capped(out, room, a), room, b) == bytes::capped(out, room, a + b),
{
    let once = bytes::capped(bytes::capped(out, room, a), room, b);
    assert(once =~= bytes::capped(out, room, a + b));
}

/// Writes a value between quotation marks, as far as there is room.
fn push_literal(out: &mut Vec<u8>, room: usize, v: &[u8])
    requires
        old(out)@.len() <= room,
    ensures
        final(out)@ == bytes::capped(old(out)@, room as int, literal(v@)),
        final(out)@.len() <= room,
{
    let ghost start = out@;
    let ghost cap = room as int;
    let quote: Vec<u8> = vec![0x27];
    let pair: Vec<u8> = vec![0x27, 0x27];
    bytes::push_capped(out, room, &quote);
    let n: usize = v.len();
    let mut i: usize = 0;
    proof {
        assert(v@.take(0) == Seq::<u8>::empty());
        assert(seq![0x27u8] + escaped(v@.take(0)) == seq![0x27u8]);
        assert(quote@ == seq![0x27u8]);
    }
    while i < n
        invariant
            i <= n == v@.len(),
            start.len() <= cap,
            cap == room,
            quote@ == seq![0x27u8],
            pair@ == seq![0x27u8, 0x27u8],
            out@ == bytes::capped(start, cap, seq![0x27u8] + escaped(v@.take(i as int))),
        decreases n - i,
    {
        let ghost before = seq![0x27u8] + escaped(v@.take(i as int));
        proof {
            assert(v@.take(i + 1).drop_last() == v@.take(i as int));
            assert(v@.take(i + 1).last() == v@[i as int]);
        }
        if v[i] == 0x27 {
            bytes::push_capped(out, room, &pair);
            proof {
                lemma_capped_twice(start, cap, before, pair@);
                assert(before + pair@ == seq![0x27u8] + escaped(v@.take(i + 1)));
            }
        } else {
            let one: Vec<u8> = vec![v[i]];
            bytes::push_capped(out, room, &one);
            proof {
                assert(one@ == seq![v@[i as int]]);
                lemma_capped_twice(start, cap, before, one@);
                assert(before + one@ == seq![0x27u8] + escaped(v@.take(i + 1)));
            }
        }
        i += 1;
    }
    bytes::push_capped(out, room, &quote);
    proof {
        assert(v@.take(n as int) == v@);
        lemma_capped_twice(start, cap, seq![0x27u8] + escaped(v@), quote@);
    }
}

/// Writes what a parameter becomes.
fn push_param(out: &mut Vec<u8>, room: usize, s: &[u8], i: usize, p: &Params) -> (r: usize)
    requires
        p.wf(),
        i < s@.len(),
        is_param(s@, i as int),
        old(out)@.len() <= room,
    ensures
        r == bytes::digits_end(s@, i + 1),
        i < r <= s@.len(),
        final(out)@ == with_param(s@, i as int, *p, old(out)@, room as int),
        final(out)@.len() <= room,
{
    let len: usize = s.len();
    assert(i < len);
    let (end, n) = read_number(s, i + 1);
    let at: usize = if n == 0 {
        0
    } else {
        n - 1
    };
    if at < p.values.len() && at < p.count as usize {
        match &p.values[at] {
            Param::Null => {
                if out.len() < room && room - out.len() > 4 {
                    prepare_text::push_bytes(out, "NULL".as_bytes());
                    proof {
                        reveal_strlit("NULL");
                        is_ascii_spec_bytes("NULL");
                    }
                }
            },
            Param::Buffer(v) => {
                push_literal(out, room, v);
            },
            Param::Owned(v) => {
                push_literal(out, room, v);
            },
        }
    } else {
        let part = prepare_text::copy_range(s, i, end);
        bytes::push_capped(out, room, &part);
    }
    end
}

fn bound_len(v: &Param) -> (r: Option<usize>)
    ensures
        match r {
            Some(n) => params::bound_bytes(*v) is Some && params::bound_bytes(*v)->0.len() == n,
            None => params::bound_bytes(*v) is None,
        },
{
    match v {
        Param::Null => None,
        Param::Buffer(b) => Some(b.len()),
        Param::Owned(b) => Some(b.len()),
    }
}

proof fn lemma_shares_grow(values: Seq<Param>, a: int, b: int)
    requires
        0 <= a <= b,
    ensures
        shares(values, a) <= shares(values, b),
    decreases b,
{
    if a < b {
        lemma_shares_grow(values, a, b - 1);
    }
}

/// The room for the statement with its values.
fn find_room(s: &[u8], p: &Params) -> (r: usize)
    requires
        p.wf(),
        estimate(s@, *p) <= usize::MAX,
    ensures
        r == room(s@, *p),
{
    let limit: usize = p.values.len();
    let n: usize = if (p.count as usize) < limit {
        p.count as usize
    } else {
        limit
    };
    let mut total: usize = s.len();
    proof {
        lemma_shares_grow(p.values@, 0, n as int);
        assert(shares(p.values@, counted(*p)) == shares(p.values@, n as int));
    }
    total = total + 1;
    let mut i: usize = 0;
    while i < n
        invariant
            i <= n <= p.values@.len(),
            total == s@.len() + 1 + shares(p.values@, i as int),
            s@.len() + 1 + shares(p.values@, n as int) <= usize::MAX,
        decreases n - i,
    {
        proof {
            lemma_shares_grow(p.values@, i + 1, n as int);
        }
        match bound_len(&p.values[i]) {
            Some(len) => {
                total = total + (len + 3);
            },
            None => {
                total = total + 4;
            },
        }
        i += 1;
    }
    let twice: usize = if total > usize::MAX / 2 {
        usize::MAX
    } else {
        total * 2
    };
    twice - 1
}

/// The statement with the values of its parameters written into it. A parameter without a value
/// becomes `NULL`. There is room for each value once, twice over; text beyond that is cut off.
pub fn expand_sql(s: &[u8], p: &Params) -> (r: Vec<u8>)
    requires
        p.wf(),
        estimate(s@, *p) <= usize::MAX,
    ensures
        r@ == expanded(s@, *p),
{
    let len: usize = s.len();
    if p.count == 0 {
        return prepare_text::copy_range(s, 0, len);
    }
    let cap: usize = find_room(s, p);
    let mut out: Vec<u8> = Vec::new();
    let mut i: usize = 0;
    while i < len && out.len() < cap
        invariant
            i <= len == s@.len(),
            p.wf(),
            cap == room(s@, *p),
            out@.len() <= cap,
            expanded_from(s@, 0, *p, Seq::empty(), cap as int) == expanded_from(
                s@,
                i as int,
                *p,
                out@,
                cap as int,
            ),
        decreases len - i,
    {
        if s[i] == 0x24 && i + 1 < len && bytes::is_ascii_digit(s[i + 1]) {
            i = push_param(&mut out, cap, s, i, p);
        } else {
            out.push(s[i]);
            i += 1;
        }
    }
    out
}

/// The statement behind a handle with the values of its parameters, or that SQLite is to be asked.
pub enum Expanded {
    Nothing,
    Sql(Vec<u8>),
    AskLocal,
}

/// The statement with the values of its parameters written into it, for one that only the server
/// runs.
pub fn rust_my_sqlite3_expanded_sql(h: &Handle) -> (r: Expanded)
    requires
        h matches Handle::Registered(s) ==> s.params.wf() && (base_sql(**s) matches Some(b)
            ==> estimate(b, s.params) <= usize::MAX),
    ensures
        h is Null ==> r is Nothing,
        !(h is Null) && metadata::server_stmt(*h) is None ==> r is AskLocal,
        metadata::server_stmt(*h) matches Some(s) ==> match base_sql(s) {
            Some(b) => r matches Expanded::Sql(v) && v@ == expanded(b, s.params),
            None => r is Nothing,
        },
{
    match h {
        Handle::Null => Expanded::Nothing,
        Handle::Local => Expanded::AskLocal,
        Handle::Registered(s) => {
            if s.is_pg != metadata::SERVER_STATEMENT {
                return Expanded::AskLocal;
            }
            match &s.pg_sql {
                Some(b) => Expanded::Sql(expand_sql(b, &s.params)),
                None => match &s.sql {
                    Some(b) => Expanded::Sql(expand_sql(b, &s.params)),
                    None => Expanded::Nothing,
                },
            }
        },
    }
}

/// What a text between quotation marks means: each pair of marks is one. A single mark has no place
/// in it.
pub open spec fn unescaped(s: Seq<u8>) -> Option<Seq<u8>>
    decreases s.len(),
{
    if s.len() == 0 {
        Some(Seq::empty())
    } else if s.last() != 0x27 {
        match unescaped(s.drop_last()) {
            Some(v) => Some(v.push(s.last())),
            None => None,
        }
    } else if s.len() >= 2 && s[s.len() - 2] == 0x27 {
        match unescaped(s.drop_last().drop_last()) {
            Some(v) => Some(v.push(0x27)),
            None => None,
        }
    } else {
        None
    }
}

/// A value that is written into a statement is read back as it was: no mark in it ends the text.
pub proof fn law_values_stay_quoted(v: Seq<u8>)
    ensures
        unescaped(escaped(v)) == Some(v),
    decreases v.len(),
{
    if v.len() > 0 {
        let e = escaped(v.drop_last());
        law_values_stay_quoted(v.drop_last());
        assert(v == v.drop_last().push(v.last()));
        if v.last() == 0x27 {
            assert(escaped(v) == e + seq![0x27u8, 0x27u8]);
            assert(escaped(v).drop_last().drop_last() == e);
            assert(escaped(v).last() == 0x27);
            assert(escaped(v)[escaped(v).len() - 2] == 0x27);
        } else {
            assert(escaped(v) == e + seq![v.last()]);
            assert(escaped(v).drop_last() == e);
        }
    } else {
        assert(v == Seq::<u8>::empty());
    }
}

proof fn lemma_fits(s: Seq<u8>, i: int, p: Params, out: Seq<u8>, room: int)
    requires
        out.len() <= room,
    ensures
        expanded_from(s, i, p, out, room).len() <= room,
    decreases s.len() - i,
{
    if !(i >= s.len() || out.len() >= room || i < 0) {
        if is_param(s, i) {
            bytes::lemma_digits_end(s, i + 1);
            let next = with_param(s, i, p, out, room);
            assert(next.len() <= room) by {
                reveal_strlit("NULL");
                is_ascii_spec_bytes("NULL");
            }
            lemma_fits(s, bytes::digits_end(s, i + 1), p, next, room);
        } else {
            lemma_fits(s, i + 1, p, out.push(s[i]), room);
        }
    }
}

/// The statement with its values never takes more than the room for it.
pub proof fn law_expansion_fits(s: Seq<u8>, p: Params)
    requires
        p.wf(),
        p.count != 0,
    ensures
        expanded(s, p).len() <= room(s, p),
{
    lemma_shares_positive(p.values@, counted(p));
    lemma_fits(s, 0, p, Seq::empty(), room(s, p));
}

proof fn lemma_shares_positive(values: Seq<Param>, n: int)
    ensures
        shares(values, n) >= 0,
    decreases n,
{
    if n > 0 {
        lemma_shares_positive(values, n - 1);
    }
}

proof fn lemma_plain(s: Seq<u8>, i: int, p: Params, out: Seq<u8>, room: int)
    requires
        0 <= i <= s.len(),
        forall|k: int| 0 <= k < s.len() ==> #[trigger] s[k] != 0x24,
        out.len() + (s.len() - i) <= room,
    ensures
        expanded_from(s, i, p, out, room) == out + s.skip(i),
    decreases s.len() - i,
{
    if i < s.len() {
        lemma_plain(s, i + 1, p, out.push(s[i]), room);
        assert(out.push(s[i]) + s.skip(i + 1) == out + s.skip(i));
    } else {
        assert(out + s.skip(i) == out);
    }
}

/// A statement without parameters in its text stays as it is, whatever is bound.
pub proof fn law_plain_text_is_kept(s: Seq<u8>, p: Params)
    requires
        p.wf(),
        forall|k: int| 0 <= k < s.len() ==> #[trigger] s[k] != 0x24,
        s.len() < usize::MAX,
    ensures
        expanded(s, p) == s,
{
    if p.count != 0 {
        lemma_shares_positive(p.values@, counted(p));
        lemma_plain(s, 0, p, Seq::empty(), room(s, p));
        assert(Seq::<u8>::empty() + s.skip(0) == s);
    }
}

/// Text without a parameter is taken over as far as there is room.
proof fn lemma_plain_part(s: Seq<u8>, i: int, j: int, p: Params, out: Seq<u8>, room: int)
    requires
        0 <= i <= j <= s.len(),
        forall|k: int| i <= k < j ==> #[trigger] s[k] != 0x24,
        out.len() + (j - i) <= room,
    ensures
        expanded_from(s, i, p, out, room) == expanded_from(s, j, p, out + s.subrange(i, j), room),
    decreases j - i,
{
    if i < j {
        lemma_plain_part(s, i + 1, j, p, out.push(s[i]), room);
        assert(out.push(s[i]) + s.subrange(i + 1, j) =~= out + s.subrange(i, j));
    } else {
        assert(out + s.subrange(i, j) =~= out);
    }
}

proof fn lemma_escaped_len(v: Seq<u8>)
    ensures
        escaped(v).len() <= 2 * v.len(),
    decreases v.len(),
{
    if v.len() > 0 {
        lemma_escaped_len(v.drop_last());
    }
}

proof fn lemma_share_counts(values: Seq<Param>, n: int, k: int)
    requires
        0 <= k < n,
    ensures
        shares(values, n) >= share(values[k]),
    decreases n,
{
    lemma_shares_positive(values, n - 1);
    if k < n - 1 {
        lemma_share_counts(values, n - 1, k);
    }
}

/// A parameter is replaced by what is bound to it: between quotation marks, each mark in it twice,
/// or by `NULL` where nothing is bound; the first parameter is that with the number one. What stands
/// before and behind stays as it is. A number that the statement has no parameter for stays too.
pub proof fn law_parameters_are_filled_in(before: Seq<u8>, n: int, behind: Seq<u8>, p: Params)
    requires
        p.wf(),
        1 <= n <= 9,
        p.count != 0,
        forall|k: int| 0 <= k < before.len() ==> #[trigger] before[k] != 0x24,
        forall|k: int| 0 <= k < behind.len() ==> #[trigger] behind[k] != 0x24,
        behind.len() > 0 ==> !bytes::is_digit(behind[0]),
        2 * estimate(before + seq![0x24u8, (0x30 + n) as u8] + behind, p) <= usize::MAX,
    ensures
        ({
            let mark = seq![0x24u8, (0x30 + n) as u8];
            let s = before + mark + behind;
            expanded(s, p) == if n <= p.count && n <= p.values@.len() {
                match params::bound_bytes(p.values@[n - 1]) {
                    Some(v) => before + seq![0x27u8] + escaped(v) + seq![0x27u8] + behind,
                    None => before + "NULL".spec_bytes() + behind,
                }
            } else {
                s
            }
        }),
{
    let mark = seq![0x24u8, (0x30 + n) as u8];
    let s = before + mark + behind;
    let i = before.len() as int;
    let room = room(s, p);
    lemma_shares_positive(p.values@, counted(p));
    assert forall|k: int| 0 <= k < i implies #[trigger] s[k] != 0x24 by {
        assert(s[k] == before[k]);
    }
    lemma_plain_part(s, 0, i, p, Seq::empty(), room);
    assert(Seq::<u8>::empty() + s.subrange(0, i) =~= before);
    assert(s[i] == 0x24 && s[i + 1] == 0x30 + n);
    assert(is_param(s, i));
    let end = bytes::digits_end(s, i + 1);
    if behind.len() > 0 {
        assert(s[i + 2] == behind[0]);
    }
    assert(bytes::digits_end(s, i + 2) == i + 2);
    assert(end == i + 2);
    assert(word(s, i + 1, i + 1) == 0);
    assert(word(s, i + 1, i + 2) == n) by {
        vstd::arithmetic::div_mod::lemma_small_mod(n as nat, (usize::MAX + 1) as nat);
        assert(word(s, i + 1, (i + 2) - 1) == 0);
        assert(s[(i + 2) - 1] - 48 == n);
    }
    assert(s.subrange(i, i + 2) =~= mark);
    let out = with_param(s, i, p, before, room);
    reveal_strlit("NULL");
    is_ascii_spec_bytes("NULL");
    let filled = if n <= p.count && n <= p.values@.len() {
        match params::bound_bytes(p.values@[n - 1]) {
            Some(v) => literal(v),
            None => "NULL".spec_bytes(),
        }
    } else {
        mark
    };
    if n <= p.count && n <= p.values@.len() {
        lemma_share_counts(p.values@, counted(p), n - 1);
        match params::bound_bytes(p.values@[n - 1]) {
            Some(v) => {
                lemma_escaped_len(v);
            },
            None => {},
        }
    }
    assert(before.len() + filled.len() + behind.len() <= room);
    assert(out =~= before + filled);
    assert forall|k: int| i + 2 <= k < s.len() implies #[trigger] s[k] != 0x24 by {
        assert(s[k] == behind[k - i - 2]);
    }
    lemma_plain_part(s, i + 2, s.len() as int, p, out, room);
    assert(s.subrange(i + 2, s.len() as int) =~= behind);
    assert(expanded(s, p) == out + behind);
    match params::bound_bytes(p.values@[n - 1]) {
        Some(v) => {
            assert(before + literal(v) + behind =~= before + seq![0x27u8] + escaped(v) + seq![
                0x27u8,
            ] + behind);
        },
        None => {},
    }
}

/// The number of a parameter is read as it is written, in decimal digits, and the parameters are
/// counted from one.
pub proof fn law_places_are_read(before: Seq<u8>, n: usize, behind: Seq<u8>)
    ensures
        ({
            let s = before + params::decimal(n as int) + behind;
            let from = before.len() as int;
            let to = from + params::decimal(n as int).len();
            &&& word(s, from, to) == n
            &&& n > 0 ==> place(word(s, from, to)) == n - 1
        }),
{
    let s = before + params::decimal(n as int) + behind;
    let from = before.len() as int;
    lemma_word_of_digits(s, from, n as nat);
}

proof fn lemma_word_of_digits(s: Seq<u8>, from: int, n: nat)
    requires
        0 <= from,
        from + params::digits(n).len() <= s.len(),
        n <= usize::MAX,
        forall|i: int|
            0 <= i < params::digits(n).len() ==> #[trigger] s[from + i] == params::digits(n)[i],
    ensures
        word(s, from, from + params::digits(n).len()) == n,
    decreases n,
{
    let d = params::digits(n);
    let to = from + d.len();
    assert(s[from + (d.len() - 1)] == d[d.len() - 1]);
    if n < 10 {
        assert(d.len() == 1);
        assert(s[to - 1] == 48 + n);
        assert(word(s, from, to - 1) == 0);
    } else {
        let e = params::digits(n / 10);
        assert forall|i: int| 0 <= i < e.len() implies #[trigger] s[from + i] == e[i] by {
            assert(s[from + i] == d[i]);
        }
        lemma_word_of_digits(s, from, n / 10);
        assert(word(s, from, to - 1) == n / 10);
        assert(s[to - 1] == 48 + n % 10);
    }
    vstd::arithmetic::div_mod::lemma_small_mod(n, (usize::MAX + 1) as nat);
}

} // verus!
