//! Byte strings: comparison without regard to the case of ASCII letters, and search.

use crate::search;
use vstd::prelude::*;

verus! {

/// The byte with an upper-case ASCII letter made lower-case.
pub open spec fn lower(b: u8) -> u8 {
    if 0x41 <= b <= 0x5A {
        (b + 0x20) as u8
    } else {
        b
    }
}

/// Equality up to the case of ASCII letters.
pub open spec fn eq_icase(a: Seq<u8>, b: Seq<u8>) -> bool {
    a.len() == b.len() && forall|i: int| 0 <= i < a.len() ==> lower(#[trigger] a[i]) == lower(b[i])
}

/// `pat` stands in `hay` at position `at`.
pub open spec fn occurs_at(hay: Seq<u8>, at: int, pat: Seq<u8>) -> bool {
    0 <= at && at + pat.len() <= hay.len() && hay.subrange(at, at + pat.len()) == pat
}

/// `pat` stands in `hay` at position `at`, up to the case of ASCII letters.
pub open spec fn occurs_at_icase(hay: Seq<u8>, at: int, pat: Seq<u8>) -> bool {
    0 <= at && at + pat.len() <= hay.len() && eq_icase(hay.subrange(at, at + pat.len()), pat)
}

/// The first place at or after `from` where `pat` stands in `hay`.
pub open spec fn first_occurrence(hay: Seq<u8>, from: int, pat: Seq<u8>) -> Option<int> {
    search::first_index(|i: int| occurs_at(hay, i, pat), from, hay.len() as int + 1)
}

/// The first place at or after `from` where `pat` stands in `hay`, up to case.
pub open spec fn first_occurrence_icase(hay: Seq<u8>, from: int, pat: Seq<u8>) -> Option<int> {
    search::first_index(|i: int| occurs_at_icase(hay, i, pat), from, hay.len() as int + 1)
}

/// Some part of `hay` is `pat`, up to case.
pub open spec fn occurs_icase(hay: Seq<u8>, pat: Seq<u8>) -> bool {
    exists|i: int| occurs_at_icase(hay, i, pat)
}

/// Decimal digits.
pub open spec fn is_digit(b: u8) -> bool {
    0x30 <= b <= 0x39
}

/// What ASCII calls white space: space, tab, line feed, form feed and carriage return.
pub open spec fn is_ascii_space(b: u8) -> bool {
    b == 0x20 || b == 0x09 || b == 0x0A || b == 0x0C || b == 0x0D
}

/// Where the digits end that begin at `i`.
pub open spec fn digits_end(s: Seq<u8>, i: int) -> int
    decreases s.len() - i,
{
    if 0 <= i < s.len() && is_digit(s[i]) {
        digits_end(s, i + 1)
    } else {
        i
    }
}

/// All up to the end of the digits are digits, and what stands there is none.
pub proof fn lemma_digits_end(s: Seq<u8>, i: int)
    requires
        0 <= i <= s.len(),
    ensures
        i <= digits_end(s, i) <= s.len(),
        i < s.len() && is_digit(s[i]) ==> digits_end(s, i) > i,
        forall|k: int| i <= k < digits_end(s, i) ==> is_digit(#[trigger] s[k]),
        digits_end(s, i) < s.len() ==> !is_digit(s[digits_end(s, i)]),
    decreases s.len() - i,
{
    if i < s.len() && is_digit(s[i]) {
        lemma_digits_end(s, i + 1);
    }
}

fn lower_byte(b: u8) -> (r: u8)
    ensures
        r == lower(b),
{
    if 0x41 <= b && b <= 0x5A {
        b + 0x20
    } else {
        b
    }
}

/// A decimal digit?
pub fn is_ascii_digit(b: u8) -> (r: bool)
    ensures
        r == is_digit(b),
{
    0x30 <= b && b <= 0x39
}

/// Is position `idx` past the end, an opening bracket or white space?
pub fn has_boundary(bytes: &[u8], idx: usize) -> (r: bool)
    ensures
        r == (idx >= bytes@.len() || bytes@[idx as int] == 0x28 || is_ascii_space(
            bytes@[idx as int],
        )),
{
    if idx >= bytes.len() {
        return true;
    }
    let b: u8 = bytes[idx];
    b == 0x28 || b == 0x20 || b == 0x09 || b == 0x0A || b == 0x0C || b == 0x0D
}

/// Does `pat` stand in `haystack` at `at`, up to the case of ASCII letters?
pub fn starts_with_ascii_icase_at(haystack: &[u8], at: usize, pat: &[u8]) -> (r: bool)
    ensures
        r == occurs_at_icase(haystack@, at as int, pat@),
{
    if haystack.len() < pat.len() || haystack.len() - pat.len() < at {
        return false;
    }
    let ghost part = haystack@.subrange(at as int, at + pat@.len());
    for i in 0..pat.len()
        invariant
            at + pat@.len() <= haystack@.len() <= usize::MAX,
            part == haystack@.subrange(at as int, at + pat@.len()),
            forall|k: int| 0 <= k < i ==> lower(#[trigger] part[k]) == lower(pat@[k]),
    {
        if lower_byte(haystack[at + i]) != lower_byte(pat[i]) {
            assert(part[i as int] == haystack@[at + i]);
            return false;
        }
        assert(part[i as int] == haystack@[at + i]);
    }
    true
}

/// Does `bytes` begin with `pat`, up to case?
pub fn starts_with_icase(bytes: &[u8], pat: &[u8]) -> (r: bool)
    ensures
        r == occurs_at_icase(bytes@, 0, pat@),
{
    starts_with_ascii_icase_at(bytes, 0, pat)
}

/// Is the part of `bytes` at `start`, as long as `pat`, equal to `pat` up to case?
pub fn slice_eq_icase(bytes: &[u8], start: usize, pat: &[u8]) -> (r: bool)
    ensures
        r == occurs_at_icase(bytes@, start as int, pat@),
{
    starts_with_ascii_icase_at(bytes, start, pat)
}

/// Are the two the same up to case?
pub fn eq_ignore_ascii_case(a: &[u8], b: &[u8]) -> (r: bool)
    ensures
        r == eq_icase(a@, b@),
{
    proof {
        assert(a@.subrange(0, a@.len() as int) == a@);
    }
    a.len() == b.len() && starts_with_ascii_icase_at(a, 0, b)
}

/// Does `pat` stand in `haystack` at `at`?
pub fn starts_with_at(haystack: &[u8], at: usize, pat: &[u8]) -> (r: bool)
    ensures
        r == occurs_at(haystack@, at as int, pat@),
{
    if haystack.len() < pat.len() || haystack.len() - pat.len() < at {
        return false;
    }
    let ghost part = haystack@.subrange(at as int, at + pat@.len());
    for i in 0..pat.len()
        invariant
            at + pat@.len() <= haystack@.len() <= usize::MAX,
            part == haystack@.subrange(at as int, at + pat@.len()),
            forall|k: int| 0 <= k < i ==> #[trigger] part[k] == pat@[k],
    {
        if haystack[at + i] != pat[i] {
            assert(part[i as int] != pat@[i as int]);
            return false;
        }
    }
    assert(part == pat@);
    true
}

/// The first place at or after `from` where the non-empty `needle` stands in `haystack`.
pub fn find_from(haystack: &[u8], from: usize, needle: &[u8]) -> (r: Option<usize>)
    requires
        needle@.len() > 0,
    ensures
        search::index(r) == first_occurrence(haystack@, from as int, needle@),
{
    let ghost p = |i: int| occurs_at(haystack@, i, needle@);
    proof {
        search::lemma_first_index(p, from as int, haystack@.len() as int + 1);
    }
    let mut i: usize = from;
    while i < haystack.len()
        invariant
            needle@.len() > 0,
            from <= i,
            from <= haystack@.len() ==> i <= haystack@.len(),
            p == (|i: int| occurs_at(haystack@, i, needle@)),
            forall|j: int| from <= j < i ==> !#[trigger] p(j),
        decreases haystack@.len() - i,
    {
        if starts_with_at(haystack, i, needle) {
            assert(p(i as int));
            proof {
                search::lemma_first_index(p, from as int, haystack@.len() as int + 1);
            }
            return Some(i);
        }
        assert(!p(i as int));
        i += 1;
    }
    assert(!p(haystack@.len() as int));
    None
}

/// The first place where `needle` stands in `haystack`; an empty needle is never found.
pub fn find_subslice(haystack: &[u8], needle: &[u8]) -> (r: Option<usize>)
    ensures
        search::index(r) == (if needle@.len() == 0 {
            None
        } else {
            first_occurrence(haystack@, 0, needle@)
        }),
{
    if needle.len() == 0 {
        return None;
    }
    find_from(haystack, 0, needle)
}

/// The first place at or after `start` where `pat` stands in `haystack`, up to case.
/// An empty pattern, and a start past the last byte, give nothing.
pub fn find_ascii_icase_from(haystack: &[u8], start: usize, pat: &[u8]) -> (r: Option<usize>)
    ensures
        pat@.len() == 0 ==> r is None,
        pat@.len() > 0 ==> (match r {
            Some(i) => first_occurrence_icase(haystack@, start as int, pat@) == Some(i as int),
            None => first_occurrence_icase(haystack@, start as int, pat@) is None,
        }),
{
    if pat.len() == 0 {
        return None;
    }
    let ghost p = |i: int| occurs_at_icase(haystack@, i, pat@);
    proof {
        search::lemma_first_index(p, start as int, haystack@.len() as int + 1);
    }
    let mut i: usize = start;
    while i < haystack.len()
        invariant
            pat@.len() > 0,
            start <= i,
            start <= haystack@.len() ==> i <= haystack@.len(),
            p == (|i: int| occurs_at_icase(haystack@, i, pat@)),
            forall|j: int| start <= j < i ==> !#[trigger] p(j),
        decreases haystack@.len() - i,
    {
        if starts_with_ascii_icase_at(haystack, i, pat) {
            assert(p(i as int));
            proof {
                search::lemma_first_index(p, start as int, haystack@.len() as int + 1);
            }
            return Some(i);
        }
        assert(!p(i as int));
        i += 1;
    }
    assert(!p(haystack@.len() as int));
    None
}

/// The first place where `pat` stands in `haystack`, up to case.
pub fn find_ascii_icase(haystack: &[u8], pat: &[u8]) -> (r: Option<usize>)
    ensures
        pat@.len() == 0 ==> r is None,
        pat@.len() > 0 ==> (match r {
            Some(i) => first_occurrence_icase(haystack@, 0, pat@) == Some(i as int),
            None => first_occurrence_icase(haystack@, 0, pat@) is None,
        }),
{
    find_ascii_icase_from(haystack, 0, pat)
}

/// Is `pat` non-empty and a part of `haystack`, up to case?
pub fn contains_ascii_icase(haystack: &[u8], pat: &[u8]) -> (r: bool)
    ensures
        r == (pat@.len() > 0 && occurs_icase(haystack@, pat@)),
{
    let ghost p = |i: int| occurs_at_icase(haystack@, i, pat@);
    proof {
        search::lemma_first_index(p, 0, haystack@.len() as int + 1);
    }
    let found = find_ascii_icase(haystack, pat);
    proof {
        if pat@.len() > 0 {
            match found {
                Some(i) => {
                    assert(p(i as int));
                    assert(occurs_at_icase(haystack@, i as int, pat@));
                },
                None => {
                    assert forall|i: int| !occurs_at_icase(haystack@, i, pat@) by {
                        assert(p(i) == occurs_at_icase(haystack@, i, pat@));
                    }
                },
            }
        }
    }
    found.is_some()
}

/// The first closing bracket at or after `start`.
pub fn find_closing_paren(bytes: &[u8], start: usize) -> (r: Option<usize>)
    ensures
        match r {
            Some(i) => start <= i < bytes@.len() && bytes@[i as int] == 0x29 && forall|j: int|
                start <= j < i ==> bytes@[j] != 0x29,
            None => forall|j: int| start <= j < bytes@.len() ==> bytes@[j] != 0x29,
        },
{
    let mut i: usize = start;
    while i < bytes.len()
        invariant
            start <= i,
            forall|j: int| start <= j < i && j < bytes@.len() ==> bytes@[j] != 0x29,
        decreases bytes@.len() - i,
    {
        if bytes[i] == 0x29 {
            return Some(i);
        }
        i += 1;
    }
    None
}

/// What `push_capped` leaves in the buffer: `bytes` appended as far as `out_cap` allows.
pub open spec fn capped(buf: Seq<u8>, out_cap: int, bytes: Seq<u8>) -> Seq<u8> {
    if buf.len() >= out_cap {
        buf
    } else if buf.len() + bytes.len() <= out_cap {
        buf + bytes
    } else {
        buf + bytes.take(out_cap - buf.len())
    }
}

/// Appends `bytes`, but lets the buffer grow to no more than `out_cap` bytes.
pub fn push_capped(buf: &mut Vec<u8>, out_cap: usize, bytes: &[u8])
    ensures
        final(buf)@ == capped(old(buf)@, out_cap as int, bytes@),
{
    let mut i: usize = 0;
    proof {
        assert(bytes@.take(0) == Seq::<u8>::empty());
    }
    while i < bytes.len() && buf.len() < out_cap
        invariant
            i <= bytes@.len(),
            buf@ == old(buf)@ + bytes@.take(i as int),
            i > 0 ==> buf@.len() <= out_cap,
        decreases bytes@.len() - i,
    {
        buf.push(bytes[i]);
        proof {
            assert(bytes@.take(i + 1) == bytes@.take(i as int).push(bytes@[i as int]));
        }
        i += 1;
    }
    proof {
        assert(bytes@.take(bytes@.len() as int) == bytes@);
        assert(buf@ == capped(old(buf)@, out_cap as int, bytes@));
    }
}

} // verus!
