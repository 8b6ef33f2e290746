//! Stack traces: how frames are walked, which library an address belongs to, and what is shown.

use crate::prepare_text;
use crate::search;
use crate::text;
use vstd::prelude::*;
use vstd::string::*;

verus! {

/// How many frames are collected.
pub const MAX_FRAMES: usize = 64;

/// How many frames are shown.
pub const MAX_DISPLAY: usize = 25;

/// How long the name of a function may be, in bytes.
pub const MAX_FUNC_LEN: usize = 70;

/// How many memory mappings are kept.
pub const MAX_MAPS_ENTRIES: usize = 256;

/// How much of a mapping's path is kept, in bytes.
pub const PATH_KEPT: usize = 255;

/// No frame or code is below this address.
pub const LOWEST_ADDRESS: u64 = 0x1000;

/// No frame is above this address.
pub const HIGHEST_ADDRESS: u64 = 0x0000_ffff_ffff_ffff;

/// No frame is larger than this.
pub const LARGEST_FRAME: u64 = 0x10_0000;

/// A walk along the frames of a stack.
pub struct Walk {
    /// The frame that is read next.
    pub fp: u64,
    /// The addresses that were collected.
    pub frames: Vec<u64>,
    pub done: bool,
}

impl Walk {
    /// May the frame be read?
    pub open spec fn readable(self) -> bool {
        !self.done && self.frames@.len() < MAX_FRAMES && LOWEST_ADDRESS <= self.fp
            <= HIGHEST_ADDRESS
    }

    /// Begins at a frame.
    pub fn start(fp: u64) -> (r: Self)
        ensures
            r.fp == fp,
            r.frames@.len() == 0,
            !r.done,
    {
        Walk { fp, frames: Vec::new(), done: false }
    }

    /// May the frame be read?
    pub fn may_read(&self) -> (r: bool)
        ensures
            r == self.readable(),
    {
        !self.done && self.frames.len() < MAX_FRAMES && LOWEST_ADDRESS <= self.fp && self.fp
            <= HIGHEST_ADDRESS
    }

    /// Takes what the frame holds: the address to return to and the frame before it. Frames lie
    /// further up in memory, and not too far.
    pub fn read(&mut self, ret: u64, next: u64)
        requires
            old(self).readable(),
        ensures
            walked(*old(self), *final(self), ret, next),
    {
        if ret < LOWEST_ADDRESS {
            self.done = true;
            return;
        }
        self.frames.push(ret);
        if next <= self.fp || next - self.fp > LARGEST_FRAME {
            self.done = true;
        } else {
            self.fp = next;
        }
    }
}

/// A step of a walk: the address to return to is kept, and the walk goes on at the frame before, if
/// each is what it should be.
pub open spec fn walked(before: Walk, after: Walk, ret: u64, next: u64) -> bool {
    &&& after.frames@ == if ret < LOWEST_ADDRESS {
        before.frames@
    } else {
        before.frames@.push(ret)
    }
    &&& after.done == (ret < LOWEST_ADDRESS || next <= before.fp || next - before.fp
        > LARGEST_FRAME)
    &&& after.fp == if after.done {
        before.fp
    } else {
        next
    }
}

/// A walk takes a step at most for each frame that may be collected: what is left to collect
/// shrinks with each step, or the walk is over.
pub proof fn law_walk_ends(before: Walk, after: Walk, ret: u64, next: u64)
    requires
        before.readable(),
        walked(before, after, ret, next),
    ensures
        after.readable() ==> after.frames@.len() == before.frames@.len() + 1 && after.fp
            > before.fp,
        after.frames@.len() <= MAX_FRAMES,
{
}

/// Where the word ends that begins here.
pub open spec fn word_end(s: Seq<char>, i: int) -> int
    decreases s.len() - i,
{
    if 0 <= i < s.len() && !text::is_space(s[i]) {
        word_end(s, i + 1)
    } else {
        i
    }
}

/// Where the blanks end that begin here.
pub open spec fn blanks_end(s: Seq<char>, i: int) -> int
    decreases s.len() - i,
{
    if 0 <= i < s.len() && text::is_space(s[i]) {
        blanks_end(s, i + 1)
    } else {
        i
    }
}

/// The words from `i` on.
pub open spec fn words_from(s: Seq<char>, i: int) -> Seq<Seq<char>>
    decreases s.len() - i,
{
    let a = blanks_end(s, i);
    let b = word_end(s, a);
    if i <= a < b <= s.len() {
        seq![s.subrange(a, b)] + words_from(s, b)
    } else {
        Seq::empty()
    }
}

proof fn lemma_ends(s: Seq<char>, i: int)
    requires
        0 <= i <= s.len(),
    ensures
        i <= blanks_end(s, i) <= s.len(),
        i <= word_end(s, i) <= s.len(),
        blanks_end(s, i) < s.len() ==> !text::is_space(s[blanks_end(s, i)]),
    decreases s.len() - i,
{
    if i < s.len() {
        lemma_ends(s, i + 1);
    }
}

/// Splits a line into its words.
pub fn split_words(s: &[char]) -> (r: Vec<Vec<char>>)
    ensures
        r@.len() == words_from(s@, 0).len(),
        forall|k: int| 0 <= k < r@.len() ==> (#[trigger] r@[k])@ == words_from(s@, 0)[k],
{
    let n: usize = s.len();
    let ghost all = words_from(s@, 0);
    let mut out: Vec<Vec<char>> = Vec::new();
    let mut i: usize = 0;
    while i < n
        invariant
            i <= n == s@.len(),
            all == words_from(s@, 0),
            all.len() == out@.len() + words_from(s@, i as int).len(),
            forall|k: int| 0 <= k < out@.len() ==> (#[trigger] out@[k])@ == all[k],
            forall|k: int|
                0 <= k < words_from(s@, i as int).len() ==> all[out@.len() + k]
                    == #[trigger] words_from(s@, i as int)[k],
        decreases n - i,
    {
        let ghost start = i as int;
        proof {
            lemma_ends(s@, i as int);
        }
        if text::is_whitespace(s[i]) {
            proof {
                assert(blanks_end(s@, start) == blanks_end(s@, start + 1));
                lemma_ends(s@, start + 1);
                assert(words_from(s@, start) =~= words_from(s@, start + 1));
            }
            i += 1;
        } else {
            let mut j: usize = i;
            while j < n && !text::is_whitespace(s[j])
                invariant
                    i <= j <= n == s@.len(),
                    word_end(s@, i as int) == word_end(s@, j as int),
                decreases n - j,
            {
                j += 1;
            }
            let word = text::part_of(s, i, j);
            proof {
                assert(blanks_end(s@, start) == start);
                assert(word_end(s@, start) == j);
                assert(j > start) by {
                    assert(word_end(s@, start) == word_end(s@, start + 1));
                    lemma_ends(s@, start + 1);
                }
                let w = words_from(s@, start);
                let rest = words_from(s@, j as int);
                assert(w == seq![s@.subrange(start, j as int)] + rest);
                assert(w[0] == s@.subrange(start, j as int));
                assert(all[out@.len() as int] == w[0]);
                assert forall|k: int| 0 <= k < rest.len() implies all[out@.len() + 1 + k]
                    == #[trigger] rest[k] by {
                    assert(w[k + 1] == rest[k]);
                    assert(all[out@.len() + (k + 1)] == w[k + 1]);
                }
            }
            out.push(word);
            i = j;
        }
    }
    proof {
        assert(words_from(s@, n as int).len() == 0) by {
            lemma_ends(s@, n as int);
        }
    }
    out
}

/// The value of a hexadecimal digit.
pub open spec fn hex_digit(c: char) -> Option<int> {
    if '0' <= c <= '9' {
        Some(c as int - '0' as int)
    } else if 'a' <= c <= 'f' {
        Some(c as int - 'a' as int + 10)
    } else if 'A' <= c <= 'F' {
        Some(c as int - 'A' as int + 10)
    } else {
        None
    }
}

/// The number that hexadecimal digits write.
pub open spec fn hex_digits(s: Seq<char>) -> Option<int>
    decreases s.len(),
{
    if s.len() == 0 {
        Some(0)
    } else {
        match (hex_digits(s.drop_last()), hex_digit(s.last())) {
            (Some(n), Some(d)) => Some(n * 16 + d),
            _ => None,
        }
    }
}

/// A hexadecimal number that an address can be. It may have a plus sign.
pub open spec fn hex_address(s: Seq<char>) -> Option<int> {
    let digits = if s.len() > 0 && s[0] == '+' {
        s.skip(1)
    } else {
        s
    };
    match hex_digits(digits) {
        Some(n) => if digits.len() > 0 && n <= u64::MAX {
            Some(n)
        } else {
            None
        },
        None => None,
    }
}

fn digit_value(c: char) -> (r: Option<u8>)
    ensures
        match r {
            Some(d) => hex_digit(c) == Some(d as int) && d < 16,
            None => hex_digit(c) is None,
        },
{
    let n: u32 = c as u32;
    if 48 <= n && n <= 57 {
        Some((n - 48) as u8)
    } else if 97 <= n && n <= 102 {
        Some((n - 87) as u8)
    } else if 65 <= n && n <= 70 {
        Some((n - 55) as u8)
    } else {
        None
    }
}

proof fn lemma_hex_prefix(s: Seq<char>, k: int)
    requires
        0 <= k <= s.len(),
    ensures
        hex_digits(s.take(k)) is None ==> hex_digits(s) is None,
        hex_digits(s) is Some ==> hex_digits(s.take(k)) is Some && hex_digits(s.take(k))->0
            <= hex_digits(s)->0 && hex_digits(s.take(k))->0 >= 0,
    decreases s.len() - k,
{
    if k < s.len() {
        lemma_hex_prefix(s, k + 1);
        assert(s.take(k + 1).drop_last() == s.take(k));
        if hex_digits(s.take(k)) is Some {
            lemma_hex_positive(s.take(k));
        }
    } else {
        assert(s.take(k) == s);
        if hex_digits(s) is Some {
            lemma_hex_positive(s);
        }
    }
}

proof fn lemma_hex_positive(s: Seq<char>)
    requires
        hex_digits(s) is Some,
    ensures
        hex_digits(s)->0 >= 0,
    decreases s.len(),
{
    if s.len() > 0 {
        lemma_hex_positive(s.drop_last());
    }
}

/// Reads a hexadecimal number that an address can be.
pub fn read_address(s: &[char]) -> (r: Option<u64>)
    ensures
        match r {
            Some(n) => hex_address(s@) == Some(n as int),
            None => hex_address(s@) is None,
        },
{
    let n: usize = s.len();
    let from: usize = if n > 0 && s[0] == '+' {
        1
    } else {
        0
    };
    let digits = text::part_of(s, from, n);
    let len: usize = digits.len();
    proof {
        assert(s@.subrange(0, n as int) == s@);
        assert(from == 1 ==> s@.subrange(1, n as int) == s@.skip(1));
    }
    if len == 0 {
        return None;
    }
    let mut value: u128 = 0;
    let mut i: usize = 0;
    proof {
        assert(digits@.take(0) == Seq::<char>::empty());
    }
    while i < len
        invariant
            i <= len == digits@.len(),
            hex_digits(digits@.take(i as int)) == Some(value as int),
            value <= u64::MAX,
            0 < len,
            digits@ == (if s@.len() > 0 && s@[0] == '+' {
                s@.skip(1)
            } else {
                s@
            }),
        decreases len - i,
    {
        proof {
            assert(digits@.take(i + 1).drop_last() == digits@.take(i as int));
            assert(digits@.take(i + 1).last() == digits@[i as int]);
        }
        match digit_value(digits[i]) {
            None => {
                proof {
                    lemma_hex_prefix(digits@, i + 1);
                }
                return None;
            },
            Some(d) => {
                value = value * 16 + d as u128;
            },
        }
        i += 1;
        if value > u64::MAX as u128 {
            proof {
                lemma_hex_prefix(digits@, i as int);
            }
            return None;
        }
    }
    proof {
        assert(digits@.take(len as int) == digits@);
    }
    Some(value as u64)
}

/// A memory mapping.
pub struct MapEntry {
    pub start: u64,
    pub end: u64,
    /// The beginning of what is mapped, as far as it is kept.
    pub path: Vec<u8>,
}

/// A memory mapping, as a value.
pub struct Mapping {
    pub start: int,
    pub end: int,
    pub path: Seq<u8>,
}

/// The value of a mapping.
pub open spec fn mapping(e: MapEntry) -> Mapping {
    Mapping { start: e.start as int, end: e.end as int, path: e.path@ }
}

/// The beginning of a path, as far as it is kept.
pub open spec fn kept(path: Seq<u8>) -> Seq<u8> {
    if path.len() > PATH_KEPT {
        path.take(PATH_KEPT as int)
    } else {
        path
    }
}

/// The first hyphen.
pub open spec fn hyphen(s: Seq<char>) -> Option<int> {
    search::first_index(|i: int| s[i] == '-', 0, s.len() as int)
}

/// The mapping that a line describes, if it does: two addresses with a hyphen between them, and what
/// is mapped at the end of the line.
pub open spec fn line_mapping(line: Seq<char>) -> Option<Mapping> {
    let words = words_from(line, 0);
    if words.len() == 0 {
        None
    } else {
        let range = words[0];
        match hyphen(range) {
            None => None,
            Some(at) => match (
                hex_address(range.take(at)),
                hex_address(range.skip(at + 1)),
            ) {
                (Some(start), Some(end)) => Some(
                    Mapping {
                        start,
                        end,
                        path: kept(
                            vstd::utf8::encode_utf8(
                                if words.len() > 1 {
                                    words.last()
                                } else {
                                    "[anonymous]"@
                                },
                            ),
                        ),
                    },
                ),
                _ => None,
            },
        }
    }
}

fn find_hyphen(s: &[char]) -> (r: Option<usize>)
    ensures
        search::index(r) == hyphen(s@),
        r matches Some(i) ==> i < s@.len(),
{
    let ghost v = s@;
    let ghost p = |i: int| v[i] == '-';
    let n: usize = s.len();
    let mut i: usize = 0;
    while i < n
        invariant
            i <= n == s@.len(),
            v == s@,
            p == (|i: int| v[i] == '-'),
            hyphen(v) == search::first_index(p, i as int, n as int),
        decreases n - i,
    {
        if s[i] == '-' {
            assert(p(i as int));
            return Some(i);
        }
        assert(!p(i as int));
        i += 1;
    }
    None
}

fn keep_path(path: &str) -> (r: Vec<u8>)
    ensures
        r@ == kept(vstd::utf8::encode_utf8(path@)),
{
    let b = path.as_bytes();
    let n: usize = b.len();
    if n > PATH_KEPT {
        let r = prepare_text::copy_range(b, 0, PATH_KEPT);
        assert(r@ == b@.take(PATH_KEPT as int));
        r
    } else {
        let r = prepare_text::copy_range(b, 0, n);
        assert(r@ == b@);
        r
    }
}

/// Reads the mapping that a line describes.
pub fn read_mapping(line: &[char]) -> (r: Option<MapEntry>)
    ensures
        match r {
            Some(e) => line_mapping(line@) == Some(mapping(e)),
            None => line_mapping(line@) is None,
        },
{
    let words = split_words(line);
    let count: usize = words.len();
    if count == 0 {
        return None;
    }
    let len: usize = words[0].len();
    let at: usize = match find_hyphen(&words[0]) {
        None => {
            return None;
        },
        Some(at) => at,
    };
    let low = text::part_of(&words[0], 0, at);
    let high = text::part_of(&words[0], at + 1, len);
    assert(low@ == words@[0]@.take(at as int));
    assert(high@ == words@[0]@.skip(at + 1));
    match (read_address(&low), read_address(&high)) {
        (Some(start), Some(end)) => {
            let path = if count > 1 {
                let last = text::string_of(&words[count - 1]);
                keep_path(last.as_str())
            } else {
                keep_path("[anonymous]")
            };
            Some(MapEntry { start, end, path })
        },
        _ => None,
    }
}

/// Where the line ends that begins here.
pub open spec fn line_end(s: Seq<char>, i: int) -> int
    decreases s.len() - i,
{
    if 0 <= i < s.len() && s[i] != '\n' {
        line_end(s, i + 1)
    } else {
        i
    }
}

/// The mappings that the lines from `i` on describe, where there is room for `room`.
pub open spec fn mappings_from(s: Seq<char>, i: int, room: nat) -> Seq<Mapping>
    decreases s.len() + 1 - i,
{
    let end = line_end(s, i);
    if room == 0 || !(i <= end <= s.len()) || i >= s.len() {
        Seq::empty()
    } else {
        match line_mapping(s.subrange(i, end)) {
            Some(m) => seq![m] + mappings_from(s, end + 1, (room - 1) as nat),
            None => mappings_from(s, end + 1, room),
        }
    }
}

/// The values of mappings.
pub open spec fn mapping_list(v: Seq<MapEntry>) -> Seq<Mapping> {
    v.map_values(|e: MapEntry| mapping(e))
}

/// Reads the list of a process's memory mappings. The first ones that there is room for are kept.
pub fn read_memory_map(content: &str) -> (r: Vec<MapEntry>)
    ensures
        mapping_list(r@) == mappings_from(content@, 0, MAX_MAPS_ENTRIES as nat),
{
    let s = text::chars_of(content);
    let n: usize = s.len();
    let ghost all = mappings_from(s@, 0, MAX_MAPS_ENTRIES as nat);
    let mut out: Vec<MapEntry> = Vec::new();
    let mut i: usize = 0;
    assert(mapping_list(out@) == Seq::<Mapping>::empty());
    assert(all == mapping_list(out@) + all);
    while i < n && out.len() < MAX_MAPS_ENTRIES
        invariant
            i <= n == s@.len(),
            s@ == content@,
            all == mappings_from(s@, 0, MAX_MAPS_ENTRIES as nat),
            out@.len() <= MAX_MAPS_ENTRIES,
            all == mapping_list(out@) + mappings_from(
                s@,
                i as int,
                (MAX_MAPS_ENTRIES - out@.len()) as nat,
            ),
        decreases n - i,
    {
        let mut j: usize = i;
        while j < n && s[j] != '\n'
            invariant
                i <= j <= n == s@.len(),
                line_end(s@, i as int) == line_end(s@, j as int),
            decreases n - j,
        {
            j += 1;
        }
        let line = text::part_of(&s, i, j);
        let ghost before = out@;
        let ghost room = (MAX_MAPS_ENTRIES - before.len()) as nat;
        match read_mapping(&line) {
            Some(e) => {
                out.push(e);
                proof {
                    let rest = mappings_from(s@, j + 1, (room - 1) as nat);
                    assert(mapping_list(out@) == mapping_list(before).push(mapping(e)));
                    assert(mapping_list(before) + (seq![mapping(e)] + rest) == mapping_list(out@)
                        + rest);
                }
            },
            None => {},
        }
        if j == n {
            proof {
                let left = (MAX_MAPS_ENTRIES - out@.len()) as nat;
                assert(mappings_from(s@, n + 1, left) == Seq::<Mapping>::empty());
                assert(mapping_list(out@) + Seq::<Mapping>::empty() == mapping_list(out@));
            }
            return out;
        }
        i = j + 1;
    }
    proof {
        let left = (MAX_MAPS_ENTRIES - out@.len()) as nat;
        assert(mappings_from(s@, i as int, left) == Seq::<Mapping>::empty());
        assert(mapping_list(out@) + Seq::<Mapping>::empty() == mapping_list(out@));
    }
    out
}

/// What follows the last slash.
pub open spec fn base_name(path: Seq<u8>) -> Seq<u8> {
    match search::last_index(|i: int| path[i] == 0x2F, 0, path.len() as int) {
        Some(i) => path.skip(i + 1),
        None => path,
    }
}

/// What follows the last slash.
pub fn base_name_of(path: &[u8]) -> (r: Vec<u8>)
    ensures
        r@ == base_name(path@),
{
    let ghost v = path@;
    let ghost p = |i: int| v[i] == 0x2F;
    let n: usize = path.len();
    let mut i: usize = n;
    while i > 0
        invariant
            i <= n == path@.len(),
            v == path@,
            p == (|i: int| v[i] == 0x2F),
            search::last_index(p, 0, n as int) == search::last_index(p, 0, i as int),
        decreases i,
    {
        if path[i - 1] == 0x2F {
            assert(p(i - 1));
            let r = prepare_text::copy_range(path, i, n);
            assert(r@ == v.skip(i as int));
            return r;
        }
        assert(!p(i - 1));
        i -= 1;
    }
    let r = prepare_text::copy_range(path, 0, n);
    assert(r@ == v);
    r
}

/// The first mapping that holds the address.
pub open spec fn holder(maps: Seq<Mapping>, addr: int) -> Option<int> {
    search::first_index(|i: int| maps[i].start <= addr < maps[i].end, 0, maps.len() as int)
}

/// The library that an address belongs to.
pub open spec fn library(maps: Seq<Mapping>, addr: int) -> Seq<u8> {
    match holder(maps, addr) {
        Some(i) => base_name(maps[i].path),
        None => "[unknown]".spec_bytes(),
    }
}

/// The library that an address belongs to.
pub fn find_lib_for_addr(maps: &Vec<MapEntry>, addr: u64) -> (r: Vec<u8>)
    ensures
        r@ == library(mapping_list(maps@), addr as int),
{
    let ghost list = mapping_list(maps@);
    let ghost p = |i: int| list[i].start <= addr < list[i].end;
    let n: usize = maps.len();
    let mut i: usize = 0;
    while i < n
        invariant
            i <= n == maps@.len() == list.len(),
            list == mapping_list(maps@),
            p == (|i: int| list[i].start <= addr < list[i].end),
            holder(list, addr as int) == search::first_index(p, i as int, n as int),
        decreases n - i,
    {
        assert(list[i as int] == mapping(maps@[i as int]));
        if addr >= maps[i].start && addr < maps[i].end {
            assert(p(i as int));
            return base_name_of(&maps[i].path);
        }
        assert(!p(i as int));
        i += 1;
    }
    let unknown = "[unknown]".as_bytes();
    let r = prepare_text::copy_range(unknown, 0, unknown.len());
    assert(r@ == unknown@);
    r
}

/// A function's name as it is shown: a long one is cut off and marked.
pub open spec fn shown(func: Seq<char>) -> Seq<char> {
    if text::offset(func, func.len() as int) > MAX_FUNC_LEN {
        func.take(text::chars_before(func, MAX_FUNC_LEN - 3)) + "..."@
    } else {
        func
    }
}

/// Can the name be cut off between two characters, if it is too long?
pub open spec fn can_cut(func: Seq<char>) -> bool {
    text::offset(func, func.len() as int) > MAX_FUNC_LEN ==> text::cuts(func, MAX_FUNC_LEN - 3)
}

fn is_long(func: &[char]) -> (r: bool)
    ensures
        r == (text::offset(func@, func@.len() as int) > MAX_FUNC_LEN),
{
    let n: usize = func.len();
    let mut at: usize = 0;
    let mut i: usize = 0;
    while i < n
        invariant
            i <= n == func@.len(),
            at == text::offset(func@, i as int),
            at <= MAX_FUNC_LEN,
        decreases n - i,
    {
        at += text::char_width(func[i]);
        i += 1;
        if at > MAX_FUNC_LEN {
            proof {
                text::lemma_offset_grows(func@, i as int, n as int);
            }
            return true;
        }
    }
    false
}

/// Can the name be cut off between two characters, if it is too long?
pub fn can_be_cut(func: &str) -> (r: bool)
    ensures
        r == can_cut(func@),
{
    let f = text::chars_of(func);
    !is_long(&f) || text::find_cut(&f, MAX_FUNC_LEN - 3).is_some()
}

/// A function's name as it is shown.
pub fn shown_func(func: &str) -> (r: String)
    requires
        can_cut(func@),
    ensures
        r@ == shown(func@),
{
    let f = text::chars_of(func);
    if is_long(&f) {
        if let Some(n) = text::find_cut(&f, MAX_FUNC_LEN - 3) {
            let mut out = text::string_of(&text::part_of(&f, 0, n));
            text::push_all(&mut out, &text::chars_of("..."));
            assert(f@.subrange(0, n as int) == f@.take(n as int));
            return out;
        }
    }
    text::string_of(&f)
}

/// What is shown of a frame: its number, in two places at least, and its function.
pub open spec fn frame_text(printed: nat, func: Seq<char>) -> Seq<char> {
    let number = text::number(printed);
    seq!['['] + (if number.len() < 2 {
        seq![' '] + number
    } else {
        number
    }) + seq![']', ' '] + shown(func)
}

/// What is shown of a frame.
pub fn frame_line(printed: u64, func: &str) -> (r: String)
    requires
        can_cut(func@),
    ensures
        r@ == frame_text(printed as nat, func@),
{
    let number = text::number_text(printed);
    let mut out = String::new();
    out.push('[');
    if number.len() < 2 {
        out.push(' ');
    }
    text::push_all(&mut out, &number);
    out.push(']');
    out.push(' ');
    let name = shown_func(func);
    text::push_all(&mut out, &text::chars_of(name.as_str()));
    assert(out@ == frame_text(printed as nat, func@));
    out
}

/// Which frames are shown.
#[derive(PartialEq, Eq, Structural, Clone, Copy, Debug)]
pub struct Shown {
    /// The first one.
    pub start: usize,
    /// The one behind the last.
    pub end: usize,
    /// How many more there are; zero where that is not said.
    pub more: usize,
}

/// Which frames are shown: up to 25, without those that are skipped.
pub fn shown_frames(depth: usize, skip_frames: i32) -> (r: Shown)
    requires
        depth <= MAX_FRAMES,
    ensures
        r.start == (if skip_frames > 0 {
            skip_frames as int
        } else {
            0
        }),
        r.end == (if r.start >= depth {
            r.start as int
        } else if depth - r.start > MAX_DISPLAY {
            r.start + MAX_DISPLAY
        } else {
            depth as int
        }),
        r.more == (if depth > r.start + MAX_DISPLAY {
            depth - r.start - MAX_DISPLAY
        } else {
            0
        }),
{
    let start: usize = if skip_frames > 0 {
        skip_frames as usize
    } else {
        0
    };
    if start >= depth {
        return Shown { start, end: start, more: 0 };
    }
    let left: usize = depth - start;
    if left > MAX_DISPLAY {
        Shown { start, end: start + MAX_DISPLAY, more: left - MAX_DISPLAY }
    } else {
        Shown { start, end: depth, more: 0 }
    }
}

/// The walk keeps every address that code can have, in the order of the frames, and goes on exactly
/// where the frame before lies further up in memory, and not too far.
pub proof fn law_frames_are_kept(before: Walk, after: Walk, ret: u64, next: u64)
    requires
        before.readable(),
        walked(before, after, ret, next),
    ensures
        ret >= 0x1000 ==> after.frames@.len() == before.frames@.len() + 1 && after.frames@.last()
            == ret,
        before.frames@.is_prefix_of(after.frames@),
        forall|i: int|
            before.frames@.len() <= i < after.frames@.len() ==> (#[trigger] after.frames@[i])
                >= 0x1000,
        !after.done <==> ret >= 0x1000 && before.fp < next <= before.fp + 0x10_0000,
        !after.done ==> after.fp == next,
{
}

proof fn lemma_last_is(p: spec_fn(int) -> bool, from: int, at: int, to: int)
    requires
        from <= at < to,
        p(at),
        forall|j: int| at < j < to ==> !#[trigger] p(j),
    ensures
        search::last_index(p, from, to) == Some(at),
    decreases to - at,
{
    if at < to - 1 {
        assert(!p(to - 1));
        lemma_last_is(p, from, at, to - 1);
    }
}

proof fn lemma_last_is_none(p: spec_fn(int) -> bool, from: int, to: int)
    requires
        forall|j: int| from <= j < to ==> !#[trigger] p(j),
    ensures
        search::last_index(p, from, to) is None,
    decreases to - from,
{
    if from < to {
        assert(!p(to - 1));
        lemma_last_is_none(p, from, to - 1);
    }
}

/// A file is called by what follows its directory, and a path without a directory by itself.
pub proof fn law_files_are_called_by_their_names(directory: Seq<u8>, name: Seq<u8>)
    requires
        !name.contains('/' as u8),
    ensures
        base_name(directory + seq!['/' as u8] + name) == name,
        base_name(name) == name,
{
    let path = directory + seq!['/' as u8] + name;
    let n = directory.len() as int;
    let p = |i: int| path[i] == 0x2F;
    assert('/' as u8 == 0x2F);
    assert forall|j: int| n < j < path.len() implies !#[trigger] p(j) by {
        assert(path[j] == name[j - n - 1]);
        assert(name.contains(name[j - n - 1]));
    }
    assert(path[n] == 0x2F);
    lemma_last_is(p, 0, n, path.len() as int);
    assert(path.skip(n + 1) =~= name);
    let q = |i: int| name[i] == 0x2F;
    assert forall|j: int| 0 <= j < name.len() implies !#[trigger] q(j) by {
        assert(name.contains(name[j]));
    }
    lemma_last_is_none(q, 0, name.len() as int);
}

/// An address belongs to the file of the first mapping that holds it: its start is in it, its end
/// is not. An address that no mapping holds is of no known file.
pub proof fn law_addresses_belong_to_their_files(
    maps: Seq<Mapping>,
    at: int,
    addr: int,
    directory: Seq<u8>,
    name: Seq<u8>,
)
    requires
        0 <= at <= maps.len(),
        forall|i: int|
            0 <= i < at ==> addr < (#[trigger] maps[i]).start || maps[i].end <= addr,
        at < maps.len() ==> maps[at].start <= addr < maps[at].end && maps[at].path == directory
            + seq!['/' as u8] + name && !name.contains('/' as u8),
    ensures
        library(maps, addr) == if at < maps.len() {
            name
        } else {
            "[unknown]".spec_bytes()
        },
{
    let p = |i: int| maps[i].start <= addr < maps[i].end;
    search::lemma_first_index(p, 0, maps.len() as int);
    assert forall|i: int| 0 <= i < at implies !#[trigger] p(i) by {
        assert(addr < maps[i].start || maps[i].end <= addr);
    }
    if at < maps.len() {
        assert(p(at));
        law_files_are_called_by_their_names(directory, name);
    }
}

/// A number in hexadecimal digits.
pub open spec fn hex_of(n: nat) -> Seq<char>
    decreases n,
{
    (if n < 16 {
        Seq::empty()
    } else {
        hex_of(n / 16)
    }).push("0123456789abcdef"@[n as int % 16])
}

/// An address in hexadecimal digits reads as itself, with a plus sign before it too.
pub proof fn law_addresses_read_back(n: u64)
    ensures
        hex_address(hex_of(n as nat)) == Some(n as int),
        hex_address(seq!['+'] + hex_of(n as nat)) == Some(n as int),
{
    let s = hex_of(n as nat);
    lemma_hex_of(n as nat);
    assert(hex_digit(s[0]) is Some);
    let t = seq!['+'] + s;
    assert(t.skip(1) =~= s);
}

proof fn lemma_hex_of(n: nat)
    ensures
        hex_digits(hex_of(n)) == Some(n as int),
        hex_of(n).len() > 0,
        forall|i: int|
            0 <= i < hex_of(n).len() ==> hex_digit(#[trigger] hex_of(n)[i]) is Some,
    decreases n,
{
    let s = hex_of(n);
    reveal_strlit("0123456789abcdef");
    let d = n as int % 16;
    let c = "0123456789abcdef"@[d];
    assert(hex_digit(c) == Some(d));
    assert(s.last() == c);
    if n < 16 {
        assert(s.drop_last() =~= Seq::empty());
        assert(hex_digits(s.drop_last()) == Some(0int));
    } else {
        lemma_hex_of(n / 16);
        assert(s.drop_last() =~= hex_of(n / 16));
        assert forall|i: int| 0 <= i < s.len() implies hex_digit(#[trigger] s[i]) is Some by {
            if i < s.len() - 1 {
                assert(s[i] == hex_of(n / 16)[i]);
            }
        }
    }
}

/// No blank is in the text.
pub open spec fn one_word(s: Seq<char>) -> bool {
    s.len() > 0 && forall|i: int| 0 <= i < s.len() ==> !text::is_space(#[trigger] s[i])
}

proof fn lemma_word_end(s: Seq<char>, i: int, end: int)
    requires
        0 <= i <= end <= s.len(),
        forall|j: int| i <= j < end ==> !text::is_space(#[trigger] s[j]),
        end < s.len() ==> text::is_space(s[end]),
    ensures
        word_end(s, i) == end,
    decreases end - i,
{
    if i < end {
        assert(!text::is_space(s[i]));
        lemma_word_end(s, i + 1, end);
    }
}

proof fn lemma_last_word(s: Seq<char>, i: int, at: int)
    requires
        0 <= i <= at < s.len(),
        i < at ==> text::is_space(s[at - 1]),
        forall|j: int| at <= j < s.len() ==> !text::is_space(#[trigger] s[j]),
    ensures
        words_from(s, i).len() > 0,
        words_from(s, i).last() == s.skip(at),
    decreases s.len() - i,
{
    lemma_ends(s, i);
    let a = blanks_end(s, i);
    lemma_blanks_stop(s, i, at);
    lemma_ends(s, a);
    let b = word_end(s, a);
    assert(a <= at);
    assert(!text::is_space(s[a]));
    lemma_ends(s, a + 1);
    assert(a < b);
    if a == at {
        lemma_word_end(s, at, s.len() as int);
        assert(s.subrange(a, b) =~= s.skip(at));
        lemma_ends(s, b);
        assert(words_from(s, b) =~= Seq::empty());
    } else {
        lemma_word_stops(s, a, at - 1);
        lemma_last_word(s, b, at);
    }
}

proof fn lemma_blanks_stop(s: Seq<char>, i: int, at: int)
    requires
        0 <= i <= at < s.len(),
        !text::is_space(s[at]),
    ensures
        blanks_end(s, i) <= at,
    decreases at - i,
{
    if i < at {
        lemma_blanks_stop(s, i + 1, at);
    }
}

proof fn lemma_word_stops(s: Seq<char>, i: int, at: int)
    requires
        0 <= i <= at < s.len(),
        text::is_space(s[at]),
    ensures
        word_end(s, i) <= at,
    decreases at - i,
{
    if i < at {
        lemma_word_stops(s, i + 1, at);
    }
}

/// A line of the list of mappings is read as what it says: the addresses where the mapping starts
/// and ends and, behind whatever else stands there, what is mapped.
pub proof fn law_lines_are_read(start: u64, end: u64, between: Seq<char>, path: Seq<char>)
    requires
        one_word(path),
    ensures
        line_mapping(
            hex_of(start as nat) + seq!['-'] + hex_of(end as nat) + seq![' '] + between + seq![' ']
                + path,
        ) == Some(
            Mapping {
                start: start as int,
                end: end as int,
                path: kept(vstd::utf8::encode_utf8(path)),
            },
        ),
{
    let from = hex_of(start as nat);
    let to = hex_of(end as nat);
    let range = from + seq!['-'] + to;
    let line = range + seq![' '] + between + seq![' '] + path;
    law_addresses_read_back(start);
    law_addresses_read_back(end);
    lemma_hex_of(start as nat);
    lemma_hex_of(end as nat);
    let n = range.len() as int;
    let at = line.len() - path.len();
    assert forall|j: int| 0 <= j < n implies !text::is_space(#[trigger] line[j]) by {
        assert(line[j] == range[j]);
        if j < from.len() {
            assert(range[j] == from[j]);
        } else if j > from.len() {
            assert(range[j] == to[j - from.len() - 1]);
        }
    }
    assert(line[n] == ' ');
    assert(line[at - 1] == ' ');
    assert(line.skip(at) =~= path);
    assert forall|j: int| at <= j < line.len() implies !text::is_space(#[trigger] line[j]) by {
        assert(line[j] == path[j - at]);
    }
    lemma_word_end(line, 0, n);
    assert(!text::is_space(line[0]));
    assert(blanks_end(line, 0) == 0);
    assert(line.subrange(0, n) =~= range);
    lemma_last_word(line, n, at);
    let words = words_from(line, 0);
    let rest = words_from(line, n);
    assert(words == seq![range] + rest);
    assert(words[0] == range);
    assert(words.last() == rest.last());
    let p = |i: int| range[i] == '-';
    let m = from.len() as int;
    search::lemma_first_index(p, 0, n);
    assert forall|j: int| 0 <= j < m implies !#[trigger] p(j) by {
        assert(range[j] == from[j]);
        assert(hex_digit(from[j]) is Some);
    }
    assert(p(m));
    assert(range.take(m) =~= from);
    assert(range.skip(m + 1) =~= to);
}

/// A line without a mapping in it is passed over, and a line with one adds it, as long as there is
/// room.
pub proof fn law_every_line_is_read(line: Seq<char>, rest: Seq<char>, room: nat)
    requires
        !line.contains('\n'),
        room > 0,
    ensures
        mappings_from(line + seq!['\n'] + rest, 0, room) == match line_mapping(line) {
            Some(m) => seq![m] + mappings_from(rest, 0, (room - 1) as nat),
            None => mappings_from(rest, 0, room),
        },
{
    let s = line + seq!['\n'] + rest;
    let n = line.len() as int;
    lemma_line_end(s, 0, n, line);
    assert(s.subrange(0, n) =~= line);
    assert(s.skip(n + 1) =~= rest);
    lemma_mappings_shift(s, rest, n + 1, 0, room);
    lemma_mappings_shift(s, rest, n + 1, 0, (room - 1) as nat);
}

proof fn lemma_line_end(s: Seq<char>, i: int, n: int, line: Seq<char>)
    requires
        0 <= i <= n == line.len() < s.len(),
        !line.contains('\n'),
        forall|j: int| 0 <= j < n ==> #[trigger] s[j] == line[j],
        s[n] == '\n',
    ensures
        line_end(s, i) == n,
    decreases n - i,
{
    if i < n {
        assert(line.contains(line[i]));
        assert(s[i] == line[i]);
        lemma_line_end(s, i + 1, n, line);
    }
}

proof fn lemma_line_end_shift(s: Seq<char>, t: Seq<char>, d: int, i: int)
    requires
        0 <= d <= s.len(),
        t == s.skip(d),
        0 <= i <= t.len(),
    ensures
        line_end(s, d + i) == d + line_end(t, i),
        i <= line_end(t, i) <= t.len(),
    decreases t.len() - i,
{
    if i < t.len() {
        assert(t[i] == s[d + i]);
        lemma_line_end_shift(s, t, d, i + 1);
    }
}

proof fn lemma_mappings_shift(s: Seq<char>, t: Seq<char>, d: int, i: int, room: nat)
    requires
        0 <= d <= s.len(),
        t == s.skip(d),
        0 <= i <= t.len() + 1,
    ensures
        mappings_from(s, d + i, room) == mappings_from(t, i, room),
    decreases t.len() + 1 - i,
{
    if i < t.len() && room > 0 {
        lemma_line_end_shift(s, t, d, i);
        let e = line_end(t, i);
        assert(s.subrange(d + i, d + e) =~= t.subrange(i, e));
        lemma_mappings_shift(s, t, d, e + 1, room);
        lemma_mappings_shift(s, t, d, e + 1, (room - 1) as nat);
    }
}

/// A name of up to 70 bytes is shown as it is; of a longer one, the first 67 bytes and three dots.
pub proof fn law_long_names_are_cut(head: Seq<char>, tail: Seq<char>)
    ensures
        text::offset(head, head.len() as int) <= 70 ==> shown(head) == head,
        text::offset(head, head.len() as int) == 67 && text::offset(
            head + tail,
            (head + tail).len() as int,
        ) > 70 ==> shown(head + tail) == head + "..."@,
{
    let f = head + tail;
    let n = head.len() as int;
    lemma_offset_of_head(f, head, n);
    if text::offset(head, n) == 67 && text::offset(f, f.len() as int) > 70 {
        assert(text::ends_behind(f, n, 67));
        let m = text::chars_before(f, 67);
        assert(text::ends_behind(f, m, 67));
        if m < n {
            text::lemma_offset_grows(f, m, n);
        }
        if n < m {
            text::lemma_offset_grows(f, n, m);
        }
        assert(f.take(n) =~= head);
    }
}

proof fn lemma_offset_of_head(s: Seq<char>, head: Seq<char>, n: int)
    requires
        0 <= n <= head.len() <= s.len(),
        forall|i: int| 0 <= i < head.len() ==> #[trigger] s[i] == head[i],
    ensures
        text::offset(s, n) == text::offset(head, n),
    decreases n,
{
    if n > 0 {
        lemma_offset_of_head(s, head, n - 1);
        assert(s[n - 1] == head[n - 1]);
    }
}

/// The number of a frame stands in brackets, in two places at least, and its function behind it.
pub proof fn law_frames_are_numbered(printed: nat, func: Seq<char>)
    ensures
        printed < 10 ==> frame_text(printed, func) == "[ "@ + text::number(printed) + "] "@ + shown(
            func,
        ),
        printed >= 10 ==> frame_text(printed, func) == "["@ + text::number(printed) + "] "@
            + shown(func),
{
    reveal_strlit("[ ");
    reveal_strlit("[");
    reveal_strlit("] ");
    reveal_with_fuel(text::number, 2);
    assert(printed < 10 ==> text::number(printed).len() == 1);
    assert(printed >= 10 ==> text::number(printed).len() >= 2);
    let number = text::number(printed);
    if printed < 10 {
        assert(frame_text(printed, func) =~= "[ "@ + number + "] "@ + shown(func));
    } else {
        assert(frame_text(printed, func) =~= "["@ + number + "] "@ + shown(func));
    }
}

} // verus!
