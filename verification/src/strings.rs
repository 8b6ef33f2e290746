//! Searching and replacing in strings of bytes without regard to the case of ASCII letters, and when
//! a result may be kept for the next query.

use crate::bytes;
use crate::metadata;
use crate::prepare_text;
use crate::search;
use vstd::prelude::*;

verus! {

/// Where the needle occurs first. An empty needle occurs at once.
pub open spec fn found(hay: Seq<u8>, from: int, needle: Seq<u8>) -> Option<int> {
    if needle.len() == 0 {
        Some(0)
    } else {
        bytes::first_occurrence_icase(hay, from, needle)
    }
}

/// Where the needle occurs first in the haystack, without regard to case. Nothing is found in
/// nothing, nor is nothing found.
pub fn safe_strcasestr(haystack: Option<&[u8]>, needle: Option<&[u8]>) -> (r: Option<usize>)
    ensures
        search::index(r) == (match (haystack, needle) {
            (Some(h), Some(n)) => found(h@, 0, n@),
            _ => None,
        }),
{
    match (haystack, needle) {
        (Some(h), Some(n)) => {
            if n.len() == 0 {
                return Some(0);
            }
            bytes::find_ascii_icase_from(h, 0, n)
        },
        _ => None,
    }
}

/// The string from `i` on with each `old` replaced, from left to right.
pub open spec fn replaced_from(s: Seq<u8>, i: int, old: Seq<u8>, new: Seq<u8>) -> Seq<u8>
    decreases s.len() - i,
{
    match bytes::first_occurrence_icase(s, i, old) {
        None => s.skip(i),
        Some(at) => if i <= at && at + old.len() <= s.len() && old.len() > 0 {
            s.subrange(i, at) + new + replaced_from(s, at + old.len() as int, old, new)
        } else {
            s.skip(i)
        },
    }
}

/// The string with each `old` replaced. Nothing replaces an empty string.
pub open spec fn replaced(s: Seq<u8>, old: Seq<u8>, new: Seq<u8>) -> Seq<u8> {
    if old.len() == 0 {
        s
    } else {
        replaced_from(s, 0, old, new)
    }
}

/// Replaces each occurrence of `old`, without regard to case.
pub fn str_replace_nocase(
    s: Option<&[u8]>,
    old: Option<&[u8]>,
    new: Option<&[u8]>,
) -> (r: Option<Vec<u8>>)
    ensures
        match (s, old, new) {
            (Some(s), Some(old), Some(new)) => r matches Some(v) && v@ == replaced(
                s@,
                old@,
                new@,
            ),
            _ => r is None,
        },
{
    match (s, old, new) {
        (Some(s), Some(old), Some(new)) => Some(replace(s, old, new)),
        _ => None,
    }
}

fn replace(s: &[u8], old: &[u8], new: &[u8]) -> (r: Vec<u8>)
    ensures
        r@ == replaced(s@, old@, new@),
{
    let len: usize = s.len();
    let old_len: usize = old.len();
    if old_len == 0 {
        return prepare_text::copy_range(s, 0, len);
    }
    let mut out: Vec<u8> = Vec::new();
    let mut i: usize = 0;
    loop
        invariant
            i <= len == s@.len(),
            0 < old_len == old@.len(),
            replaced_from(s@, 0, old@, new@) == out@ + replaced_from(s@, i as int, old@, new@),
        decreases len - i,
    {
        match bytes::find_ascii_icase_from(s, i, old) {
            None => {
                let tail = prepare_text::copy_range(s, i, len);
                prepare_text::push_bytes(&mut out, &tail);
                proof {
                    assert(s@.skip(i as int) == s@.subrange(i as int, len as int));
                }
                return out;
            },
            Some(at) => {
                proof {
                    search::lemma_first_index(
                        |k: int| bytes::occurs_at_icase(s@, k, old@),
                        i as int,
                        len as int + 1,
                    );
                    assert(bytes::occurs_at_icase(s@, at as int, old@));
                }
                let part = prepare_text::copy_range(s, i, at);
                let ghost rest = replaced_from(s@, at + old_len, old@, new@);
                let ghost before = out@;
                prepare_text::push_bytes(&mut out, &part);
                prepare_text::push_bytes(&mut out, new);
                proof {
                    assert(before + (part@ + new@ + rest) == out@ + rest);
                }
                i = at + old_len;
            },
        }
    }
}

/// A string in which `old` does not occur stays as it is.
pub proof fn law_nothing_to_replace(s: Seq<u8>, old: Seq<u8>, new: Seq<u8>)
    requires
        old.len() > 0 ==> bytes::first_occurrence_icase(s, 0, old) is None,
    ensures
        replaced(s, old, new) == s,
{
    assert(s.skip(0) == s);
}

/// The result that a query has brought, as far as it matters to keeping it.
pub struct Fetched {
    pub status: i32,
    pub rows: i32,
    pub cols: i32,
}

/// Is the result kept for the next such query? Only rows are, and only for a query that has a key.
pub fn pg_query_cache_store(key: u64, result: Option<&Fetched>) -> (r: bool)
    ensures
        r == (key != 0 && (result matches Some(f) && f.status == metadata::PGRES_TUPLES_OK
            && f.rows > 0 && f.cols > 0)),
{
    match result {
        Some(f) => key != 0 && f.status == metadata::PGRES_TUPLES_OK && f.rows > 0 && f.cols > 0,
        None => false,
    }
}

/// The first place where the old string stands, whatever its case, gets the new one; what stands
/// before stays, and the rest is gone through in the same way.
pub proof fn law_each_is_replaced(before: Seq<u8>, word: Seq<u8>, behind: Seq<u8>, old: Seq<u8>, new: Seq<u8>)
    requires
        old.len() > 0,
        bytes::eq_icase(word, old),
        forall|i: int|
            0 <= i < before.len() ==> !#[trigger] bytes::occurs_at_icase(
                before + word + behind,
                i,
                old,
            ),
    ensures
        replaced(before + word + behind, old, new) == before + new + replaced(behind, old, new),
{
    let s = before + word + behind;
    let n = before.len() as int;
    let p = |i: int| bytes::occurs_at_icase(s, i, old);
    assert(s.subrange(n, n + old.len()) =~= word);
    assert(p(n));
    search::lemma_first_index(p, 0, s.len() as int + 1);
    assert(bytes::first_occurrence_icase(s, 0, old) == Some(n)) by {
        let f = search::first_index(p, 0, s.len() as int + 1);
        assert(f is Some);
        if f->0 < n {
            assert(p(f->0));
            assert(bytes::occurs_at_icase(s, f->0, old));
        }
    }
    assert(s.subrange(0, n) =~= before);
    assert(s.skip(n + old.len()) =~= behind);
    lemma_replaced_shift(s, behind, n + old.len() as int, 0, old, new);
}

proof fn lemma_replaced_shift(s: Seq<u8>, t: Seq<u8>, d: int, i: int, old: Seq<u8>, new: Seq<u8>)
    requires
        0 <= d <= s.len(),
        t == s.skip(d),
        0 <= i <= t.len(),
        old.len() > 0,
    ensures
        replaced_from(s, d + i, old, new) == replaced_from(t, i, old, new),
    decreases t.len() - i,
{
    let p = |k: int| bytes::occurs_at_icase(s, k, old);
    let q = |k: int| bytes::occurs_at_icase(t, k, old);
    search::lemma_first_index(p, d + i, s.len() as int + 1);
    search::lemma_first_index(q, i, t.len() as int + 1);
    assert forall|k: int| 0 <= k implies #[trigger] q(k) == p(d + k) by {
        if k + old.len() <= t.len() {
            assert(t.subrange(k, k + old.len()) =~= s.subrange(d + k, d + k + old.len()));
        }
    }
    let f = search::first_index(p, d + i, s.len() as int + 1);
    let g = search::first_index(q, i, t.len() as int + 1);
    match (f, g) {
        (Some(a), Some(b)) => {
            assert(q(a - d) == p(d + (a - d)));
            assert(q(b) == p(d + b));
            assert(a == d + b);
            assert(bytes::occurs_at_icase(s, a, old));
            assert(s.subrange(d + i, a) =~= t.subrange(i, b));
            lemma_replaced_shift(s, t, d, b + old.len() as int, old, new);
        },
        (Some(a), None) => {
            assert(q(a - d) == p(d + (a - d)));
            assert(bytes::occurs_at_icase(s, a, old));
        },
        (None, Some(b)) => {
            assert(q(b) == p(d + b));
        },
        (None, None) => {
            assert(s.skip(d + i) =~= t.skip(i));
        },
    }
}

} // verus!
