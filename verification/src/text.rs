//! Text as a sequence of characters: comparison without regard to the case of ASCII letters,
//! search, white space and cutting apart.

use crate::search;
use vstd::prelude::*;

verus! {

/// `String::push`: the string grows by one character at its end.
pub assume_specification[ String::push ](s: &mut String, c: char)
    ensures
        final(s)@ == old(s)@.push(c),
;

/// The character with an upper-case ASCII letter made lower-case.
pub open spec fn lower(c: char) -> char {
    if 'A' <= c <= 'Z' {
        (c as u32 + 32) as char
    } else {
        c
    }
}

/// Equality up to the case of ASCII letters.
pub open spec fn eq_icase(a: Seq<char>, b: Seq<char>) -> bool {
    a.len() == b.len() && forall|i: int| 0 <= i < a.len() ==> lower(#[trigger] a[i]) == lower(b[i])
}

/// `pat` stands in `hay` at position `at`.
pub open spec fn occurs_at(hay: Seq<char>, at: int, pat: Seq<char>) -> bool {
    0 <= at && at + pat.len() <= hay.len() && hay.subrange(at, at + pat.len()) == pat
}

/// `pat` stands in `hay` at position `at`, up to the case of ASCII letters.
pub open spec fn occurs_at_icase(hay: Seq<char>, at: int, pat: Seq<char>) -> bool {
    0 <= at && at + pat.len() <= hay.len() && eq_icase(hay.subrange(at, at + pat.len()), pat)
}

/// Some part of `hay` is `pat`.
pub open spec fn occurs(hay: Seq<char>, pat: Seq<char>) -> bool {
    exists|i: int| occurs_at(hay, i, pat)
}

/// Some part of `hay` is `pat`, up to case.
pub open spec fn occurs_icase(hay: Seq<char>, pat: Seq<char>) -> bool {
    exists|i: int| occurs_at_icase(hay, i, pat)
}

/// The first place at or after `from` where `pat` stands in `hay`.
pub open spec fn first_occurrence(hay: Seq<char>, from: int, pat: Seq<char>) -> Option<int> {
    search::first_index(|i: int| occurs_at(hay, i, pat), from, hay.len() as int + 1)
}

/// The first place at or after `from` where `pat` stands in `hay`, up to case.
pub open spec fn first_occurrence_icase(hay: Seq<char>, from: int, pat: Seq<char>) -> Option<int> {
    search::first_index(|i: int| occurs_at_icase(hay, i, pat), from, hay.len() as int + 1)
}

/// `hay` ends with `pat`.
pub open spec fn has_suffix(hay: Seq<char>, pat: Seq<char>) -> bool {
    occurs_at(hay, hay.len() - pat.len(), pat)
}

/// The characters that Unicode gives the property `White_Space`.
pub open spec fn is_space(c: char) -> bool {
    let n = c as u32;
    ||| 0x09 <= n <= 0x0D
    ||| n == 0x20
    ||| n == 0x85
    ||| n == 0xA0
    ||| n == 0x1680
    ||| 0x2000 <= n <= 0x200A
    ||| n == 0x2028
    ||| n == 0x2029
    ||| n == 0x202F
    ||| n == 0x205F
    ||| n == 0x3000
}

/// The text without the white space at its start.
pub open spec fn trimmed_start(s: Seq<char>) -> Seq<char>
    decreases s.len(),
{
    if s.len() > 0 && is_space(s[0]) {
        trimmed_start(s.drop_first())
    } else {
        s
    }
}

/// The text without the white space at its end.
pub open spec fn trimmed_end(s: Seq<char>) -> Seq<char>
    decreases s.len(),
{
    if s.len() > 0 && is_space(s.last()) {
        trimmed_end(s.drop_last())
    } else {
        s
    }
}

/// The text without the white space at both ends.
pub open spec fn trimmed(s: Seq<char>) -> Seq<char> {
    trimmed_end(trimmed_start(s))
}

/// The characters of a string, in order.
pub fn chars_of(s: &str) -> (v: Vec<char>)
    ensures
        v@ == s@,
{
    let mut v: Vec<char> = Vec::new();
    for c in it: s.chars()
        invariant
            it.seq() == s@,
            v@ == s@.take(it.index()),
    {
        v.push(c);
    }
    assert(s@.take(s@.len() as int) == s@);
    v
}

/// The string made of these characters.
pub fn string_of(v: &[char]) -> (s: String)
    ensures
        s@ == v@,
{
    let mut s = String::new();
    for i in 0..v.len()
        invariant
            s@ == v@.take(i as int),
    {
        s.push(v[i]);
        assert(v@.take(i + 1) == v@.take(i as int).push(v@[i as int]));
    }
    assert(v@.take(v@.len() as int) == v@);
    s
}

/// A copy of the characters from `from` up to `to`.
pub fn part_of(v: &[char], from: usize, to: usize) -> (r: Vec<char>)
    requires
        from <= to <= v@.len(),
    ensures
        r@ == v@.subrange(from as int, to as int),
{
    let mut r: Vec<char> = Vec::new();
    let mut i: usize = from;
    while i < to
        invariant
            from <= i <= to <= v@.len(),
            r@ == v@.subrange(from as int, i as int),
        decreases to - i,
    {
        r.push(v[i]);
        assert(v@.subrange(from as int, i + 1) == v@.subrange(from as int, i as int).push(
            v@[i as int],
        ));
        i += 1;
    }
    r
}

fn lower_char(c: char) -> (r: u32)
    ensures
        r == lower(c) as u32,
{
    let n: u32 = c as u32;
    if 0x41 <= n && n <= 0x5A {
        n + 32
    } else {
        n
    }
}

/// White space in the sense of Unicode?
pub fn is_whitespace(c: char) -> (r: bool)
    ensures
        r == is_space(c),
{
    let n: u32 = c as u32;
    (0x09 <= n && n <= 0x0D) || n == 0x20 || n == 0x85 || n == 0xA0 || n == 0x1680 || (0x2000 <= n
        && n <= 0x200A) || n == 0x2028 || n == 0x2029 || n == 0x202F || n == 0x205F || n == 0x3000
}

/// The text without the white space at its start.
pub fn trim_start(v: &[char]) -> (r: Vec<char>)
    ensures
        r@ == trimmed_start(v@),
{
    let mut i: usize = 0;
    let n: usize = v.len();
    assert(v@.subrange(0, n as int) == v@);
    while i < n && is_whitespace(v[i])
        invariant
            i <= n == v@.len(),
            trimmed_start(v@) == trimmed_start(v@.subrange(i as int, n as int)),
        decreases n - i,
    {
        assert(v@.subrange(i as int, n as int).drop_first() == v@.subrange(i + 1, n as int));
        i += 1;
    }
    part_of(v, i, n)
}

/// The text without the white space at its end.
pub fn trim_end(v: &[char]) -> (r: Vec<char>)
    ensures
        r@ == trimmed_end(v@),
{
    let mut n: usize = v.len();
    assert(v@.take(n as int) == v@);
    while n > 0 && is_whitespace(v[n - 1])
        invariant
            n <= v@.len(),
            trimmed_end(v@) == trimmed_end(v@.take(n as int)),
        decreases n,
    {
        assert(v@.take(n as int).drop_last() == v@.take(n - 1));
        n -= 1;
    }
    assert(v@.subrange(0, n as int) == v@.take(n as int));
    part_of(v, 0, n)
}

/// The text without the white space at both ends.
pub fn trim(v: &[char]) -> (r: Vec<char>)
    ensures
        r@ == trimmed(v@),
{
    let s = trim_start(v);
    trim_end(s.as_slice())
}

/// Does `pat` stand in `hay` at `at`?
pub fn matches_at(hay: &[char], at: usize, pat: &[char]) -> (r: bool)
    ensures
        r == occurs_at(hay@, at as int, pat@),
{
    if hay.len() < pat.len() || hay.len() - pat.len() < at {
        return false;
    }
    let ghost part = hay@.subrange(at as int, at + pat@.len());
    for i in 0..pat.len()
        invariant
            at + pat@.len() <= hay@.len() <= usize::MAX,
            part == hay@.subrange(at as int, at + pat@.len()),
            forall|k: int| 0 <= k < i ==> #[trigger] part[k] == pat@[k],
    {
        if hay[at + i] != pat[i] {
            assert(part[i as int] != pat@[i as int]);
            return false;
        }
    }
    assert(part == pat@);
    true
}

/// Does `pat` stand in `hay` at `at`, up to case?
pub fn matches_at_icase(hay: &[char], at: usize, pat: &[char]) -> (r: bool)
    ensures
        r == occurs_at_icase(hay@, at as int, pat@),
{
    if hay.len() < pat.len() || hay.len() - pat.len() < at {
        return false;
    }
    let ghost part = hay@.subrange(at as int, at + pat@.len());
    for i in 0..pat.len()
        invariant
            at + pat@.len() <= hay@.len() <= usize::MAX,
            part == hay@.subrange(at as int, at + pat@.len()),
            forall|k: int| 0 <= k < i ==> lower(#[trigger] part[k]) == lower(pat@[k]),
    {
        if lower_char(hay[at + i]) != lower_char(pat[i]) {
            assert(part[i as int] == hay@[at + i]);
            return false;
        }
        assert(part[i as int] == hay@[at + i]);
    }
    true
}

/// The first place at or after `from` where `pat` stands in `hay`.
pub fn find_from(hay: &[char], from: usize, pat: &[char]) -> (r: Option<usize>)
    ensures
        match r {
            Some(i) => first_occurrence(hay@, from as int, pat@) == Some(i as int),
            None => first_occurrence(hay@, from as int, pat@) is None,
        },
{
    let ghost p = |i: int| occurs_at(hay@, i, pat@);
    proof {
        search::lemma_first_index(p, from as int, hay@.len() as int + 1);
    }
    let mut i: usize = from;
    while i < hay.len()
        invariant
            from <= i,
            from <= hay@.len() ==> i <= hay@.len(),
            p == (|i: int| occurs_at(hay@, i, pat@)),
            forall|j: int| from <= j < i ==> !#[trigger] p(j),
        decreases hay@.len() - i,
    {
        if matches_at(hay, i, pat) {
            assert(p(i as int));
            proof {
                search::lemma_first_index(p, from as int, hay@.len() as int + 1);
            }
            return Some(i);
        }
        assert(!p(i as int));
        i += 1;
    }
    if i == hay.len() && pat.len() == 0 {
        assert(hay@.subrange(i as int, i as int) == pat@);
        assert(p(i as int));
        return Some(i);
    }
    assert(!p(hay@.len() as int) || from > hay@.len());
    None
}

/// The first place at or after `from` where `pat` stands in `hay`, up to case.
pub fn find_from_icase(hay: &[char], from: usize, pat: &[char]) -> (r: Option<usize>)
    ensures
        match r {
            Some(i) => first_occurrence_icase(hay@, from as int, pat@) == Some(i as int),
            None => first_occurrence_icase(hay@, from as int, pat@) is None,
        },
{
    let ghost p = |i: int| occurs_at_icase(hay@, i, pat@);
    proof {
        search::lemma_first_index(p, from as int, hay@.len() as int + 1);
    }
    let mut i: usize = from;
    while i < hay.len()
        invariant
            from <= i,
            from <= hay@.len() ==> i <= hay@.len(),
            p == (|i: int| occurs_at_icase(hay@, i, pat@)),
            forall|j: int| from <= j < i ==> !#[trigger] p(j),
        decreases hay@.len() - i,
    {
        if matches_at_icase(hay, i, pat) {
            assert(p(i as int));
            proof {
                search::lemma_first_index(p, from as int, hay@.len() as int + 1);
            }
            return Some(i);
        }
        assert(!p(i as int));
        i += 1;
    }
    if i == hay.len() && pat.len() == 0 {
        assert(p(i as int));
        return Some(i);
    }
    assert(!p(hay@.len() as int) || from > hay@.len());
    None
}

/// `pat` occurs in `hay` exactly if there is a first place where it does.
pub proof fn lemma_occurs(hay: Seq<char>, pat: Seq<char>)
    ensures
        occurs(hay, pat) == (first_occurrence(hay, 0, pat) is Some),
        occurs_icase(hay, pat) == (first_occurrence_icase(hay, 0, pat) is Some),
        match first_occurrence(hay, 0, pat) {
            Some(i) => occurs_at(hay, i, pat),
            None => true,
        },
        match first_occurrence_icase(hay, 0, pat) {
            Some(i) => occurs_at_icase(hay, i, pat),
            None => true,
        },
{
    let p = |i: int| occurs_at(hay, i, pat);
    let q = |i: int| occurs_at_icase(hay, i, pat);
    search::lemma_first_index(p, 0, hay.len() as int + 1);
    search::lemma_first_index(q, 0, hay.len() as int + 1);
    if occurs(hay, pat) {
        let i = choose|i: int| occurs_at(hay, i, pat);
        assert(p(i));
    }
    if occurs_icase(hay, pat) {
        let i = choose|i: int| occurs_at_icase(hay, i, pat);
        assert(q(i));
    }
}

/// Is `pat` a part of `hay`?
pub fn has(hay: &[char], pat: &str) -> (r: bool)
    ensures
        r == occurs(hay@, pat@),
{
    proof {
        lemma_occurs(hay@, pat@);
    }
    let p = chars_of(pat);
    find_from(hay, 0, p.as_slice()).is_some()
}

/// Is `pat` a part of `hay`, up to case?
pub fn has_icase(hay: &[char], pat: &str) -> (r: bool)
    ensures
        r == occurs_icase(hay@, pat@),
{
    proof {
        lemma_occurs(hay@, pat@);
    }
    let p = chars_of(pat);
    find_from_icase(hay, 0, p.as_slice()).is_some()
}

/// Is `pat` a part of `s`?
pub fn contains(s: &str, pat: &str) -> (r: bool)
    ensures
        r == occurs(s@, pat@),
{
    let h = chars_of(s);
    has(h.as_slice(), pat)
}

/// Is `pat` a part of `s`, up to case?
pub fn contains_icase(s: &str, pat: &str) -> (r: bool)
    ensures
        r == occurs_icase(s@, pat@),
{
    let h = chars_of(s);
    has_icase(h.as_slice(), pat)
}

/// Are the two texts the same?
pub fn same(a: &[char], b: &str) -> (r: bool)
    ensures
        r == (a@ == b@),
{
    let q = chars_of(b);
    assert(a@.subrange(0, a@.len() as int) == a@);
    a.len() == q.len() && matches_at(a, 0, q.as_slice())
}

/// Are the two texts the same, up to case?
pub fn same_icase(a: &[char], b: &str) -> (r: bool)
    ensures
        r == eq_icase(a@, b@),
{
    let q = chars_of(b);
    assert(a@.subrange(0, a@.len() as int) == a@);
    a.len() == q.len() && matches_at_icase(a, 0, q.as_slice())
}

/// Are the two strings the same?
pub fn str_eq(a: &str, b: &str) -> (r: bool)
    ensures
        r == (a@ == b@),
{
    let p = chars_of(a);
    same(p.as_slice(), b)
}

/// Are the two strings the same, up to case?
pub fn str_eq_icase(a: &str, b: &str) -> (r: bool)
    ensures
        r == eq_icase(a@, b@),
{
    let p = chars_of(a);
    same_icase(p.as_slice(), b)
}

/// Does `s` end with `pat`?
pub fn ends_with(s: &str, pat: &str) -> (r: bool)
    ensures
        r == has_suffix(s@, pat@),
{
    let h = chars_of(s);
    let p = chars_of(pat);
    if h.len() < p.len() {
        return false;
    }
    matches_at(h.as_slice(), h.len() - p.len(), p.as_slice())
}

/// The two strings, one after the other.
pub fn joined(a: &str, b: &str) -> (r: String)
    ensures
        r@ == a@ + b@,
{
    let mut r = a.to_owned();
    r.append(b);
    r
}

/// A decimal digit.
pub open spec fn digit_char(d: int) -> char {
    (48 + d) as char
}

/// A number in decimal digits.
pub open spec fn number(n: nat) -> Seq<char>
    decreases n,
{
    if n < 10 {
        seq![digit_char(n as int)]
    } else {
        number(n / 10).push(digit_char((n % 10) as int))
    }
}

/// A number in decimal digits.
pub fn number_text(n: u64) -> (r: Vec<char>)
    ensures
        r@ == number(n as nat),
    decreases n,
{
    let d: u8 = (n % 10) as u8;
    let c: char = (48 + d) as char;
    if n < 10 {
        let mut v: Vec<char> = Vec::new();
        v.push(c);
        v
    } else {
        let mut v = number_text(n / 10);
        v.push(c);
        v
    }
}

/// Appends characters to a string.
pub fn push_all(s: &mut String, v: &[char])
    ensures
        final(s)@ == old(s)@ + v@,
{
    assert(v@.take(0) == Seq::<char>::empty());
    for i in 0..v.len()
        invariant
            s@ == old(s)@ + v@.take(i as int),
    {
        s.push(v[i]);
        assert(v@.take(i + 1) == v@.take(i as int).push(v@[i as int]));
    }
    assert(v@.take(v@.len() as int) == v@);
}

/// How many bytes UTF-8 takes for a character.
pub open spec fn width(c: char) -> int {
    if (c as u32) < 0x80 {
        1
    } else if (c as u32) < 0x800 {
        2
    } else if (c as u32) < 0x10000 {
        3
    } else {
        4
    }
}

/// How many bytes UTF-8 takes for the first `n` characters.
pub open spec fn offset(s: Seq<char>, n: int) -> int
    decreases n,
{
    if n <= 0 {
        0
    } else {
        offset(s, n - 1) + width(s[n - 1])
    }
}

pub fn char_width(c: char) -> (r: usize)
    ensures
        r == width(c),
{
    let n: u32 = c as u32;
    if n < 0x80 {
        1
    } else if n < 0x800 {
        2
    } else if n < 0x10000 {
        3
    } else {
        4
    }
}

pub proof fn lemma_offset_grows(s: Seq<char>, a: int, b: int)
    requires
        0 <= a <= b,
    ensures
        offset(s, a) + (b - a) <= offset(s, b),
    decreases b,
{
    if a < b {
        lemma_offset_grows(s, a, b - 1);
    }
}

proof fn lemma_offset_from_front(s: Seq<char>, n: int)
    requires
        0 < n <= s.len(),
    ensures
        offset(s, n) == width(s[0]) + offset(s.drop_first(), n - 1),
    decreases n,
{
    if n > 1 {
        lemma_offset_from_front(s, n - 1);
        assert(s.drop_first()[n - 2] == s[n - 1]);
    } else {
        assert(offset(s, 1) == offset(s, 0) + width(s[0]));
    }
}

/// The bytes that are counted for a text are those of its UTF-8.
pub proof fn law_offset_is_utf8_length(s: Seq<char>)
    ensures
        offset(s, s.len() as int) == vstd::utf8::encode_utf8(s).len(),
    decreases s.len(),
{
    if s.len() > 0 {
        lemma_offset_from_front(s, s.len() as int);
        law_offset_is_utf8_length(s.drop_first());
        let c: char = s[0];
        vstd::utf8::char_is_scalar(c);
        assert(vstd::utf8::encode_scalar(c as u32).len() == width(c)) by {
            assert((c as u32) < 0x80 || 0x80 <= (c as u32) < 0x800 || 0x800 <= (c as u32) < 0x10000
                || 0x10000 <= (c as u32));
        }
    }
}

/// Do `bytes` bytes end behind the `n`th character?
pub open spec fn ends_behind(s: Seq<char>, n: int, bytes: int) -> bool {
    0 <= n <= s.len() && offset(s, n) == bytes
}

/// Do `bytes` bytes end behind some character?
pub open spec fn cuts(s: Seq<char>, bytes: int) -> bool {
    exists|n: int| ends_behind(s, n, bytes)
}

/// The number of characters that take `bytes` bytes.
pub open spec fn chars_before(s: Seq<char>, bytes: int) -> int {
    choose|n: int| ends_behind(s, n, bytes)
}

/// The number of characters that take `bytes` bytes, if the bytes end behind a character.
pub fn find_cut(s: &[char], bytes: usize) -> (r: Option<usize>)
    ensures
        r is Some == cuts(s@, bytes as int),
        r matches Some(n) ==> ends_behind(s@, n as int, bytes as int) && n == chars_before(
            s@,
            bytes as int,
        ),
{
    let len: usize = s.len();
    let mut n: usize = 0;
    let mut at: usize = 0;
    while n < len && at < bytes
        invariant
            n <= len == s@.len(),
            at == offset(s@, n as int),
            at <= bytes,
        decreases len - n,
    {
        let w: usize = char_width(s[n]);
        if w > bytes - at {
            proof {
                assert forall|k: int| !ends_behind(s@, k, bytes as int) by {
                    if 0 <= k <= n {
                        lemma_offset_grows(s@, k, n as int);
                    } else if n < k <= len {
                        lemma_offset_grows(s@, n + 1, k);
                    }
                }
            }
            return None;
        }
        at += w;
        n += 1;
    }
    if at == bytes {
        assert(ends_behind(s@, n as int, bytes as int));
        proof {
            let m = chars_before(s@, bytes as int);
            assert(ends_behind(s@, m, bytes as int));
            if m < n {
                lemma_offset_grows(s@, m, n as int);
            } else {
                lemma_offset_grows(s@, n as int, m);
            }
        }
        Some(n)
    } else {
        proof {
            assert forall|k: int| !ends_behind(s@, k, bytes as int) by {
                if 0 <= k <= n {
                    lemma_offset_grows(s@, k, n as int);
                }
            }
        }
        None
    }
}

/// All characters of the text are ASCII.
pub open spec fn all_ascii(s: Seq<char>) -> bool {
    forall|i: int| 0 <= i < s.len() ==> (#[trigger] s[i] as u32) < 128
}

/// The text with its upper-case ASCII letters in lower case.
pub open spec fn lowered(s: Seq<char>) -> Seq<char> {
    s.map_values(|c: char| lower(c))
}

/// The text `t` stands at the end of the text `s`.
pub open spec fn ends_in(s: Seq<char>, t: Seq<char>) -> bool {
    t.len() <= s.len() && s.skip(s.len() - t.len()) == t
}

/// What `str::to_lowercase` makes of a text.
pub uninterp spec fn lowercase(s: Seq<char>) -> Seq<char>;

/// `str::to_lowercase`: the text in lower case by the rules of Unicode. Of text that is all ASCII,
/// it changes the upper-case letters and nothing else, and so it does at an end that is all ASCII,
/// whatever stands before it.
#[verifier::external_body]
pub(crate) fn to_lowercase(s: &str) -> (r: String)
    ensures
        r@ == lowercase(s@),
        all_ascii(s@) ==> r@ == lowered(s@),
        forall|k: int|
            0 <= k <= s@.len() && #[trigger] all_ascii(s@.skip(k)) ==> ends_in(
                r@,
                lowered(s@.skip(k)),
            ),
{
    s.to_lowercase()
}

/// What `String::from_utf8_lossy` makes of bytes.
pub uninterp spec fn lossy(b: Seq<u8>) -> Seq<char>;

/// `String::from_utf8_lossy`: the text of the bytes, with a mark in place of what is not UTF-8. Bytes
/// that are UTF-8 give the text that they encode.
#[verifier::external_body]
pub(crate) fn from_utf8_lossy(b: &[u8]) -> (r: String)
    ensures
        r@ == lossy(b@),
        vstd::utf8::valid_utf8(b@) ==> vstd::utf8::encode_utf8(r@) == b@,
{
    String::from_utf8_lossy(b).into_owned()
}

} // verus!
