//! The identifier of the machine: how it is read from the server's preferences, and when it takes
//! the place of an empty text.

use crate::search;
use crate::text;
use vstd::prelude::*;

verus! {

/// What stands before the identifier.
pub open spec fn opening() -> Seq<char> {
    "MachineIdentifier=\""@
}

/// The identifier as it stands in the preferences: what is between the first opening and the next
/// quotation mark.
pub open spec fn quoted(s: Seq<char>) -> Option<Seq<char>> {
    match text::first_occurrence(s, 0, opening()) {
        None => None,
        Some(pos) => {
            let start = pos + opening().len();
            match text::first_occurrence(s, start, "\""@) {
                None => None,
                Some(end) => Some(s.subrange(start, end)),
            }
        },
    }
}

/// Has the identifier a length of 32 bytes?
pub open spec fn has_length(id: Seq<char>) -> bool {
    text::offset(id, id.len() as int) == 32
}

/// Can an identifier of the right length be parted between characters?
pub open spec fn parts(id: Seq<char>) -> bool {
    text::cuts(id, 8) && text::cuts(id, 12) && text::cuts(id, 16) && text::cuts(id, 20)
}

/// The identifier in five groups.
pub open spec fn grouped(id: Seq<char>) -> Seq<char> {
    let a = text::chars_before(id, 8);
    let b = text::chars_before(id, 12);
    let c = text::chars_before(id, 16);
    let d = text::chars_before(id, 20);
    id.subrange(0, a) + seq!['-'] + id.subrange(a, b) + seq!['-'] + id.subrange(b, c) + seq!['-']
        + id.subrange(c, d) + seq!['-'] + id.subrange(d, id.len() as int)
}

/// Whatever the preferences hold as the identifier can be parted, if it has the right length.
pub open spec fn readable(content: Seq<char>) -> bool {
    quoted(content) matches Some(id) ==> has_length(id) ==> parts(id)
}

/// What the preferences say of the identifier.
pub open spec fn identifier(content: Seq<char>) -> Option<Seq<char>> {
    match quoted(content) {
        None => None,
        Some(id) => if has_length(id) {
            Some(grouped(id))
        } else {
            None
        },
    }
}

fn find_quoted(content: &str) -> (r: Option<Vec<char>>)
    ensures
        match r {
            Some(v) => quoted(content@) == Some(v@),
            None => quoted(content@) is None,
        },
{
    let s = text::chars_of(content);
    let n: usize = s.len();
    let open = text::chars_of("MachineIdentifier=\"");
    let close = text::chars_of("\"");
    proof {
        reveal_strlit("MachineIdentifier=\"");
        reveal_strlit("\"");
    }
    match text::find_from(&s, 0, &open) {
        None => None,
        Some(pos) => {
            proof {
                search::lemma_first_index(
                    |i: int| text::occurs_at(s@, i, open@),
                    0,
                    n as int + 1,
                );
                assert(text::occurs_at(s@, pos as int, open@));
            }
            let start: usize = pos + open.len();
            match text::find_from(&s, start, &close) {
                None => None,
                Some(end) => {
                    proof {
                        search::lemma_first_index(
                            |i: int| text::occurs_at(s@, i, close@),
                            start as int,
                            s@.len() as int + 1,
                        );
                    }
                    Some(text::part_of(&s, start, end))
                },
            }
        },
    }
}

fn total_width(id: &[char]) -> (r: bool)
    ensures
        r == has_length(id@),
{
    let n: usize = id.len();
    match text::find_cut(id, 32) {
        None => {
            assert(!text::ends_behind(id@, n as int, 32));
            false
        },
        Some(k) => {
            proof {
                if k < n {
                    text::lemma_offset_grows(id@, k as int, n as int);
                }
            }
            k == n
        },
    }
}

/// Can the identifier in the preferences be read?
pub fn is_readable(content: &str) -> (r: bool)
    ensures
        r == readable(content@),
{
    match find_quoted(content) {
        None => true,
        Some(id) => !total_width(&id) || (text::find_cut(&id, 8).is_some() && text::find_cut(&id, 12).is_some()
            && text::find_cut(&id, 16).is_some() && text::find_cut(&id, 20).is_some()),
    }
}

/// Reads the machine's identifier from the server's preferences, and writes it in five groups.
pub fn parse_machine_identifier(content: &str) -> (r: Option<String>)
    requires
        readable(content@),
    ensures
        match r {
            Some(s) => identifier(content@) == Some(s@),
            None => identifier(content@) is None,
        },
{
    let id = match find_quoted(content) {
        None => {
            return None;
        },
        Some(v) => v,
    };
    if !total_width(&id) {
        return None;
    }
    let n: usize = id.len();
    match (text::find_cut(&id, 8), text::find_cut(&id, 12), text::find_cut(&id, 16), text::find_cut(&id, 20)) {
        (Some(a), Some(b), Some(c), Some(d)) => {
            proof {
                if a > b {
                    text::lemma_offset_grows(id@, b as int, a as int);
                }
                if b > c {
                    text::lemma_offset_grows(id@, c as int, b as int);
                }
                if c > d {
                    text::lemma_offset_grows(id@, d as int, c as int);
                }
            }
            let mut out = String::new();
            text::push_all(&mut out, &text::part_of(&id, 0, a));
            out.push('-');
            text::push_all(&mut out, &text::part_of(&id, a, b));
            out.push('-');
            text::push_all(&mut out, &text::part_of(&id, b, c));
            out.push('-');
            text::push_all(&mut out, &text::part_of(&id, c, d));
            out.push('-');
            text::push_all(&mut out, &text::part_of(&id, d, n));
            assert(out@ == grouped(id@));
            Some(out)
        },
        _ => None,
    }
}

/// The identifier where the preferences do not give one.
pub open spec fn default_identifier() -> Seq<char> {
    "53cfd87b-f8b2-4db2-af2d-6aaa373b2b34"@
}

/// The machine's identifier. `content` is what the preferences hold, if they could be read.
pub fn get_machine_identifier(content: Option<&str>) -> (r: String)
    requires
        content matches Some(c) ==> readable(c@),
    ensures
        r@ == (match content {
            Some(c) => match identifier(c@) {
                Some(id) => id,
                None => default_identifier(),
            },
            None => default_identifier(),
        }),
{
    if let Some(c) = content {
        if let Some(id) = parse_machine_identifier(c) {
            return id;
        }
    }
    let id = text::joined("53cfd87b-f8b2-4db2-af2d-6aaa373b2b34", "");
    proof {
        reveal_strlit("");
        assert(id@ == default_identifier());
    }
    id
}

/// Is this parameter the one that an identifier goes to? By its name, where it has one; else by the
/// statement, where the first parameter of a query counts.
pub open spec fn takes_identifier(sql: Seq<char>, name: Option<Seq<char>>, idx: int) -> bool {
    match name {
        Some(n) => text::occurs(text::lowercase(n), "identifier"@),
        None => {
            let low = text::lowercase(sql);
            text::occurs(low, "where identifier"@) || text::occurs(low, "select"@) && idx == 1
        },
    }
}

/// Is the text that is bound to be replaced by the machine's identifier? It is where it is empty and
/// goes to the identifier of a device. `bypass` turns that off.
pub fn intercepts_empty_identifier(
    bypass: bool,
    sql: &str,
    name: Option<&str>,
    idx: i32,
    len: usize,
) -> (r: bool)
    ensures
        r == (!bypass && text::occurs(sql@, "devices"@) && len == 0 && takes_identifier(
            sql@,
            match name {
                Some(n) => Some(n@),
                None => None,
            },
            idx as int,
        )),
{
    if bypass || !text::contains(sql, "devices") || len != 0 {
        return false;
    }
    match name {
        Some(n) => {
            let low = text::to_lowercase(n);
            text::contains(low.as_str(), "identifier")
        },
        None => {
            let low = text::to_lowercase(sql);
            text::contains(low.as_str(), "where identifier") || text::contains(
                low.as_str(),
                "select",
            ) && idx == 1
        },
    }
}

/// An identifier that the preferences give has four characters more than they hold: the marks between
/// the groups.
pub proof fn law_identifier_is_grouped(content: Seq<char>)
    requires
        readable(content),
        identifier(content) is Some,
    ensures
        identifier(content)->0.len() == quoted(content)->0.len() + 4,
        identifier(content)->0.filter(|c: char| c != '-') == quoted(content)->0.filter(
            |c: char| c != '-',
        ),
{
    let id = quoted(content)->0;
    let a = text::chars_before(id, 8);
    let b = text::chars_before(id, 12);
    let c = text::chars_before(id, 16);
    let d = text::chars_before(id, 20);
    let n = id.len() as int;
    assert(text::ends_behind(id, a, 8) && text::ends_behind(id, b, 12) && text::ends_behind(id, c, 16) && text::ends_behind(
        id,
        d,
        20,
    ));
    if a > b {
        text::lemma_offset_grows(id, b, a);
    }
    if b > c {
        text::lemma_offset_grows(id, c, b);
    }
    if c > d {
        text::lemma_offset_grows(id, d, c);
    }
    let p = |c: char| c != '-';
    let mark = seq!['-'];
    assert(mark.filter(p) == Seq::<char>::empty()) by {
        reveal(Seq::filter);
        assert(mark.drop_last() == Seq::<char>::empty());
        assert(Seq::<char>::empty().filter(p) == Seq::<char>::empty());
    }
    let (s0, s1, s2, s3, s4) = (
        id.subrange(0, a),
        id.subrange(a, b),
        id.subrange(b, c),
        id.subrange(c, d),
        id.subrange(d, n),
    );
    assert(id == s0 + s1 + s2 + s3 + s4);
    Seq::filter_distributes_over_add(s0, s1, p);
    Seq::filter_distributes_over_add(s0 + s1, s2, p);
    Seq::filter_distributes_over_add(s0 + s1 + s2, s3, p);
    Seq::filter_distributes_over_add(s0 + s1 + s2 + s3, s4, p);
    let t0 = s0 + mark;
    let t1 = t0 + s1;
    let t2 = t1 + mark;
    let t3 = t2 + s2;
    let t4 = t3 + mark;
    let t5 = t4 + s3;
    let t6 = t5 + mark;
    Seq::filter_distributes_over_add(s0, mark, p);
    Seq::filter_distributes_over_add(t0, s1, p);
    Seq::filter_distributes_over_add(t1, mark, p);
    Seq::filter_distributes_over_add(t2, s2, p);
    Seq::filter_distributes_over_add(t3, mark, p);
    Seq::filter_distributes_over_add(t4, s3, p);
    Seq::filter_distributes_over_add(t5, mark, p);
    Seq::filter_distributes_over_add(t6, s4, p);
    assert(grouped(id).filter(p) == id.filter(p));
}

proof fn lemma_ascii_offset(id: Seq<char>, n: int)
    requires
        text::all_ascii(id),
        0 <= n <= id.len(),
    ensures
        text::offset(id, n) == n,
    decreases n,
{
    if n > 0 {
        lemma_ascii_offset(id, n - 1);
        assert((id[n - 1] as u32) < 128);
    }
}

proof fn lemma_ascii_cut(id: Seq<char>, n: int)
    requires
        text::all_ascii(id),
        0 <= n <= id.len(),
    ensures
        text::cuts(id, n),
        text::chars_before(id, n) == n,
{
    lemma_ascii_offset(id, n);
    assert(text::ends_behind(id, n, n));
    let k = text::chars_before(id, n);
    assert(text::ends_behind(id, k, n));
    lemma_ascii_offset(id, k);
}

/// An identifier of 32 ASCII characters is written in groups of 8, 4, 4, 4 and 12, with a dash
/// between them.
pub proof fn law_groups_of_an_identifier(id: Seq<char>)
    requires
        text::all_ascii(id),
        id.len() == 32,
    ensures
        has_length(id),
        parts(id),
        grouped(id).len() == 36,
        grouped(id).subrange(0, 8) == id.subrange(0, 8),
        grouped(id).subrange(9, 13) == id.subrange(8, 12),
        grouped(id).subrange(14, 18) == id.subrange(12, 16),
        grouped(id).subrange(19, 23) == id.subrange(16, 20),
        grouped(id).subrange(24, 36) == id.subrange(20, 32),
        grouped(id)[8] == '-',
        grouped(id)[13] == '-',
        grouped(id)[18] == '-',
        grouped(id)[23] == '-',
{
    lemma_ascii_offset(id, 32);
    lemma_ascii_cut(id, 8);
    lemma_ascii_cut(id, 12);
    lemma_ascii_cut(id, 16);
    lemma_ascii_cut(id, 20);
    let g = grouped(id);
    assert(g.subrange(0, 8) =~= id.subrange(0, 8));
    assert(g.subrange(9, 13) =~= id.subrange(8, 12));
    assert(g.subrange(14, 18) =~= id.subrange(12, 16));
    assert(g.subrange(19, 23) =~= id.subrange(16, 20));
    assert(g.subrange(24, 36) =~= id.subrange(20, 32));
}

/// What the preferences hold as the identifier is what stands behind the first opening up to the next
/// quotation mark.
pub proof fn law_identifier_is_read(before: Seq<char>, id: Seq<char>, behind: Seq<char>)
    requires
        forall|i: int|
            0 <= i < before.len() ==> !#[trigger] text::occurs_at(
                before + "MachineIdentifier=\""@ + id + "\""@ + behind,
                i,
                "MachineIdentifier=\""@,
            ),
        !id.contains('"'),
    ensures
        quoted(before + "MachineIdentifier=\""@ + id + "\""@ + behind) == Some(id),
{
    let open = "MachineIdentifier=\""@;
    let close = "\""@;
    reveal_strlit("MachineIdentifier=\"");
    reveal_strlit("\"");
    let s = before + open + id + close + behind;
    let n = before.len() as int;
    let start = n + open.len();
    let end = start + id.len();
    let a = |i: int| text::occurs_at(s, i, open);
    let b = |i: int| text::occurs_at(s, i, close);
    assert(s.subrange(n, start) =~= open);
    assert(a(n));
    search::lemma_first_index(a, 0, s.len() as int + 1);
    assert(text::first_occurrence(s, 0, open) == Some(n)) by {
        let f = search::first_index(a, 0, s.len() as int + 1);
        assert(f is Some);
        let k = f->0;
        if k < n {
            assert(a(k));
            assert(text::occurs_at(s, k, open));
        }
    }
    assert(s.subrange(end, end + 1) =~= close);
    assert(b(end));
    search::lemma_first_index(b, start, s.len() as int + 1);
    assert(text::first_occurrence(s, start, close) == Some(end)) by {
        let f = search::first_index(b, start, s.len() as int + 1);
        assert(f is Some);
        let k = f->0;
        if k < end {
            assert(b(k));
            assert(s.subrange(k, k + 1)[0] == s[k]);
            assert(s[k] == id[k - start]);
            assert(id[k - start] == '"');
            assert(id.contains('"'));
        }
    }
    assert(s.subrange(start, end) =~= id);
}

/// A parameter with a name takes an identifier where its name says so, and one without where the
/// statement asks for it by that, or is the first of a query.
pub proof fn law_takes_identifier(sql: Seq<char>, name: Seq<char>, idx: int)
    ensures
        takes_identifier(sql, Some(name), idx) <==> exists|i: int| #[trigger]
            text::occurs_at(text::lowercase(name), i, "identifier"@),
        takes_identifier(sql, None, idx) && idx != 1 ==> exists|i: int| #[trigger]
            text::occurs_at(text::lowercase(sql), i, "where identifier"@),
{
}

} // verus!
