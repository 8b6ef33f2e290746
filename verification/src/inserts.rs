//! Insertions, read just far enough to see their columns and values.

use crate::search;
use crate::text;
use vstd::prelude::*;

verus! {

/// The fields of a list from `i` on, where the present field began at `start` and `quoted` tells
/// whether a single quotation mark is open. Commas in quotation marks do not separate; white space
/// around a field does not count.
pub open spec fn fields(s: Seq<char>, start: int, i: int, quoted: bool) -> Seq<Seq<char>>
    decreases s.len() - i,
{
    if i >= s.len() {
        seq![text::trimmed(s.subrange(start, s.len() as int))]
    } else if s[i] == '\'' {
        fields(s, start, i + 1, !quoted)
    } else if s[i] == ',' && !quoted {
        seq![text::trimmed(s.subrange(start, i))] + fields(s, i + 1, i + 1, quoted)
    } else {
        fields(s, start, i + 1, quoted)
    }
}

/// The fields of a comma-separated list.
pub open spec fn csv(s: Seq<char>) -> Seq<Seq<char>> {
    fields(s, 0, 0, false)
}

/// The texts of a list of texts.
pub open spec fn texts(v: Seq<Vec<char>>) -> Seq<Seq<char>> {
    v.map_values(|t: Vec<char>| t@)
}

/// The fields of a comma-separated list.
pub fn split_csv_simple(section: &[char]) -> (r: Vec<Vec<char>>)
    ensures
        texts(r@) == csv(section@),
{
    let mut out: Vec<Vec<char>> = Vec::new();
    let n: usize = section.len();
    let mut i: usize = 0;
    let mut start: usize = 0;
    let mut in_single = false;
    assert(texts(out@) + csv(section@) == csv(section@));
    while i < n
        invariant
            start <= i <= n == section@.len(),
            texts(out@) + fields(section@, start as int, i as int, in_single) == csv(section@),
        decreases n - i,
    {
        if section[i] == '\'' {
            in_single = !in_single;
        } else if section[i] == ',' && !in_single {
            let part = text::part_of(section, start, i);
            let field = text::trim(part.as_slice());
            proof {
                let rest = fields(section@, i + 1, i + 1, in_single);
                assert(texts(out@.push(field)) == texts(out@).push(field@));
                assert(texts(out@).push(field@) + rest =~= texts(out@) + (seq![field@] + rest));
            }
            out.push(field);
            start = i + 1;
        }
        i += 1;
    }
    let part = text::part_of(section, start, n);
    let field = text::trim(part.as_slice());
    proof {
        assert(texts(out@.push(field)) == texts(out@).push(field@));
        assert(texts(out@).push(field@) =~= texts(out@) + seq![field@]);
    }
    out.push(field);
    out
}

/// The text without the character `c` at its start.
pub open spec fn without_first(s: Seq<char>, c: char) -> Seq<char> {
    if s.len() > 0 && s[0] == c {
        s.drop_first()
    } else {
        s
    }
}

/// The text without the character `c` at its end.
pub open spec fn without_last(s: Seq<char>, c: char) -> Seq<char> {
    if s.len() > 0 && s.last() == c {
        s.drop_last()
    } else {
        s
    }
}

/// A name without the white space around it, and without a double quotation mark and then a
/// backquote on either side.
pub open spec fn bare_name(t: Seq<char>) -> Seq<char> {
    without_last(
        without_last(without_first(without_first(text::trimmed(t), '"'), '`'), '"'),
        '`',
    )
}

fn drop_first_char(s: &[char], c: char) -> (r: Vec<char>)
    ensures
        r@ == without_first(s@, c),
{
    let n: usize = s.len();
    assert(s@.subrange(0, n as int) == s@);
    if n > 0 && s[0] == c {
        assert(s@.subrange(1, n as int) == s@.drop_first());
        text::part_of(s, 1, n)
    } else {
        text::part_of(s, 0, n)
    }
}

fn drop_last_char(s: &[char], c: char) -> (r: Vec<char>)
    ensures
        r@ == without_last(s@, c),
{
    let n: usize = s.len();
    assert(s@.subrange(0, n as int) == s@);
    if n > 0 && s[n - 1] == c {
        assert(s@.subrange(0, n - 1) == s@.drop_last());
        text::part_of(s, 0, n - 1)
    } else {
        text::part_of(s, 0, n)
    }
}

/// A name without white space and quotation marks around it.
pub fn normalize_ident_token(t: &[char]) -> (r: Vec<char>)
    ensures
        r@ == bare_name(t@),
{
    let a = text::trim(t);
    let b = drop_first_char(a.as_slice(), '"');
    let c = drop_first_char(b.as_slice(), '`');
    let d = drop_last_char(c.as_slice(), '"');
    drop_last_char(d.as_slice(), '`')
}

/// What stands between the first opening bracket at or after `from` and the first closing bracket
/// behind it.
pub open spec fn bracketed(s: Seq<char>, from: int) -> Option<Seq<char>> {
    match text::first_occurrence_icase(s, from, "("@) {
        Some(i) => match text::first_occurrence(s, i + 1, ")"@) {
            Some(j) => Some(s.subrange(i + 1, j)),
            None => None,
        },
        None => None,
    }
}

proof fn lemma_found(s: Seq<char>, from: int, pat: Seq<char>)
    requires
        0 <= from,
    ensures
        match text::first_occurrence(s, from, pat) {
            Some(i) => from <= i && i + pat.len() <= s.len(),
            None => true,
        },
        match text::first_occurrence_icase(s, from, pat) {
            Some(i) => from <= i && i + pat.len() <= s.len(),
            None => true,
        },
{
    search::lemma_first_index(|i: int| text::occurs_at(s, i, pat), from, s.len() as int + 1);
    search::lemma_first_index(|i: int| text::occurs_at_icase(s, i, pat), from, s.len() as int + 1);
}

/// What stands in the first brackets at or after `from`.
fn find_bracketed(s: &[char], from: usize) -> (r: Option<Vec<char>>)
    ensures
        r is Some == bracketed(s@, from as int) is Some,
        r is Some ==> bracketed(s@, from as int) == Some(r->0@),
{
    proof {
        reveal_strlit("(");
        reveal_strlit(")");
        lemma_found(s@, from as int, "("@);
    }
    let n: usize = s.len();
    let open = text::chars_of("(");
    let close = text::chars_of(")");
    match text::find_from_icase(s, from, open.as_slice()) {
        Some(i) => {
            proof {
                lemma_found(s@, i + 1, ")"@);
                assert(i + 1 <= n);
            }
            match text::find_from(s, i + 1, close.as_slice()) {
                Some(j) => Some(text::part_of(s, i + 1, j)),
                None => None,
            }
        },
        None => None,
    }
}

/// Field `i` is the column `name`, up to case.
pub open spec fn is_column(cols: Seq<Seq<char>>, i: int, name: Seq<char>) -> bool {
    text::eq_icase(bare_name(cols[i]), name)
}

/// The first field that is the column.
pub open spec fn first_column(cols: Seq<Seq<char>>, name: Seq<char>) -> Option<int> {
    search::first_index(|i: int| is_column(cols, i, name), 0, cols.len() as int)
}

/// The last field that is the column.
pub open spec fn last_column(cols: Seq<Seq<char>>, name: Seq<char>) -> Option<int> {
    search::last_index(|i: int| is_column(cols, i, name), 0, cols.len() as int)
}

/// Where an insertion lists the column; nowhere in a statement that is none.
pub open spec fn column_index(sql: Seq<char>, name: Seq<char>) -> Option<int> {
    if name.len() > 0 && text::occurs_icase(sql, "INSERT"@) && text::occurs_icase(sql, "INTO"@) {
        match bracketed(sql, 0) {
            Some(list) => first_column(csv(list), name),
            None => None,
        }
    } else {
        None
    }
}

/// Where an insertion lists a column, counted from zero; -1 if it does not.
pub fn find_insert_column_index_impl(sql: &str, column_name: &str) -> (r: i32)
    ensures
        r == (match column_index(sql@, column_name@) {
            Some(i) => (i as usize) as i32,
            None => -1i32,
        }),
{
    if column_name.is_empty() {
        return -1;
    }
    let v = text::chars_of(sql);
    if !(text::has_icase(v.as_slice(), "INSERT") && text::has_icase(v.as_slice(), "INTO")) {
        return -1;
    }
    match find_bracketed(v.as_slice(), 0) {
        Some(list) => {
            let cols = split_csv_simple(list.as_slice());
            let ghost p = |i: int| is_column(csv(list@), i, column_name@);
            proof {
                search::lemma_first_index(p, 0, csv(list@).len() as int);
            }
            for i in 0..cols.len()
                invariant
                    texts(cols@) == csv(list@),
                    bracketed(v@, 0) == Some(list@),
                    v@ == sql@,
                    column_name@.len() > 0,
                    text::occurs_icase(sql@, "INSERT"@),
                    text::occurs_icase(sql@, "INTO"@),
                    p == (|i: int| is_column(csv(list@), i, column_name@)),
                    forall|j: int| 0 <= j < i ==> !#[trigger] p(j),
            {
                let name = normalize_ident_token(cols[i].as_slice());
                assert(texts(cols@)[i as int] == cols@[i as int]@);
                if text::same_icase(name.as_slice(), column_name) {
                    proof {
                        assert(p(i as int));
                        search::lemma_first_index(p, 0, csv(list@).len() as int);
                    }
                    return i as i32;
                }
                assert(!p(i as int));
            }
            -1
        },
        None => -1,
    }
}

/// The value is `NULL`, whatever follows.
pub open spec fn is_null_value(v: Seq<char>) -> bool {
    text::occurs_at_icase(text::trimmed_start(v), 0, "NULL"@)
}

/// An insertion into the items themselves, not into one of the tables named after them.
pub open spec fn inserts_item(sql: Seq<char>) -> bool {
    &&& text::occurs_icase(sql, "INSERT"@)
    &&& text::occurs_icase(sql, "metadata_items"@)
    &&& !text::occurs_icase(sql, "metadata_item_settings"@)
    &&& !text::occurs_icase(sql, "metadata_item_views"@)
    &&& !text::occurs_icase(sql, "metadata_item_accounts"@)
    &&& !text::occurs_icase(sql, "metadata_item_clusters"@)
}

/// The values in the first brackets behind the word `VALUES`.
pub open spec fn value_list(sql: Seq<char>) -> Option<Seq<char>> {
    match text::first_occurrence_icase(sql, 0, "VALUES"@) {
        Some(i) => bracketed(sql, i),
        None => None,
    }
}

/// With these columns and values, the item is in no section of the library and of no type.
pub open spec fn belongs_nowhere(cols: Seq<Seq<char>>, vals: Seq<Seq<char>>) -> bool {
    match (last_column(cols, "library_section_id"@), last_column(cols, "metadata_type"@)) {
        (Some(l), Some(t)) => l < vals.len() && t < vals.len() && is_null_value(vals[l])
            && is_null_value(vals[t]),
        _ => false,
    }
}

/// An insertion of an item that belongs nowhere.
pub open spec fn is_junk(sql: Seq<char>) -> bool {
    &&& inserts_item(sql)
    &&& match (bracketed(sql, 0), value_list(sql)) {
        (Some(cols), Some(vals)) => belongs_nowhere(csv(cols), csv(vals)),
        _ => false,
    }
}

fn inserts_item_text(v: &[char]) -> (r: bool)
    ensures
        r == inserts_item(v@),
{
    text::has_icase(v, "INSERT") && text::has_icase(v, "metadata_items") && !text::has_icase(
        v,
        "metadata_item_settings",
    ) && !text::has_icase(v, "metadata_item_views") && !text::has_icase(
        v,
        "metadata_item_accounts",
    ) && !text::has_icase(v, "metadata_item_clusters")
}

fn find_last_column(cols: &Vec<Vec<char>>, name: &str) -> (r: Option<usize>)
    ensures
        search::index(r) == last_column(texts(cols@), name@),
        r is Some ==> r->0 < cols@.len(),
{
    let ghost all = texts(cols@);
    let ghost p = |i: int| is_column(all, i, name@);
    let mut i: usize = cols.len();
    while i > 0
        invariant
            i <= cols@.len(),
            all == texts(cols@),
            p == (|i: int| is_column(all, i, name@)),
            search::last_index(p, 0, all.len() as int) == search::last_index(p, 0, i as int),
        decreases i,
    {
        let t = normalize_ident_token(cols[i - 1].as_slice());
        assert(all[i - 1] == cols@[i - 1]@);
        if text::same_icase(t.as_slice(), name) {
            assert(p(i - 1));
            return Some(i - 1);
        }
        assert(!p(i - 1));
        i -= 1;
    }
    None
}

fn is_null_text(v: &[char]) -> (r: bool)
    ensures
        r == is_null_value(v@),
{
    let t = text::trim_start(v);
    let null = text::chars_of("NULL");
    text::matches_at_icase(t.as_slice(), 0, null.as_slice())
}

fn find_value_list(v: &[char]) -> (r: Option<Vec<char>>)
    ensures
        r is Some == value_list(v@) is Some,
        r is Some ==> value_list(v@) == Some(r->0@),
{
    let word = text::chars_of("VALUES");
    match text::find_from_icase(v, 0, word.as_slice()) {
        Some(i) => find_bracketed(v, i),
        None => None,
    }
}

/// Does the statement insert an item that belongs nowhere?
pub fn is_junk_metadata_insert_impl(sql: &str) -> (r: bool)
    ensures
        r == is_junk(sql@),
{
    let chars = text::chars_of(sql);
    let v = chars.as_slice();
    if !inserts_item_text(v) {
        return false;
    }
    let cols_section = match find_bracketed(v, 0) {
        Some(s) => s,
        None => {
            return false;
        },
    };
    let cols = split_csv_simple(cols_section.as_slice());
    let lib_idx = find_last_column(&cols, "library_section_id");
    let type_idx = find_last_column(&cols, "metadata_type");
    let values_section = match find_value_list(v) {
        Some(s) => s,
        None => {
            return false;
        },
    };
    let vals = split_csv_simple(values_section.as_slice());
    match (lib_idx, type_idx) {
        (Some(l), Some(t)) => {
            if l >= vals.len() || t >= vals.len() {
                return false;
            }
            proof {
                assert(texts(vals@)[l as int] == vals@[l as int]@);
                assert(texts(vals@)[t as int] == vals@[t as int]@);
            }
            is_null_text(vals[l].as_slice()) && is_null_text(vals[t].as_slice())
        },
        _ => false,
    }
}

/// A field ends at the first comma that no quotation mark keeps: up to there it has no mark and no
/// comma, and the rest of the list is split in the same way.
pub proof fn law_commas_part_fields(a: Seq<char>, rest: Seq<char>)
    requires
        forall|i: int| 0 <= i < a.len() ==> #[trigger] a[i] != ',' && a[i] != '\'',
    ensures
        csv(a) == seq![text::trimmed(a)],
        csv(a + seq![','] + rest) == seq![text::trimmed(a)] + csv(rest),
{
    let n = a.len() as int;
    lemma_plain_fields(a, 0, 0, n, false);
    assert(a.subrange(0, n) =~= a);
    let s = a + seq![','] + rest;
    assert forall|i: int| 0 <= i < n implies #[trigger] s[i] != ',' && s[i] != '\'' by {
        assert(s[i] == a[i]);
    }
    lemma_plain_fields(s, 0, 0, n, false);
    assert(s[n] == ',');
    assert(s.subrange(0, n) =~= a);
    assert(s.skip(n + 1) =~= rest);
    lemma_fields_shift(s, rest, n + 1, 0, 0, false);
}

/// A comma between quotation marks parts nothing.
pub proof fn law_quoted_commas_part_nothing(inner: Seq<char>)
    requires
        forall|i: int| 0 <= i < inner.len() ==> #[trigger] inner[i] != '\'',
    ensures
        csv(seq!['\''] + inner + seq!['\'']) == seq![
            text::trimmed(seq!['\''] + inner + seq!['\'']),
        ],
{
    let s = seq!['\''] + inner + seq!['\''];
    let n = s.len() as int;
    assert(s[0] == '\'');
    assert forall|i: int| 1 <= i < n - 1 implies #[trigger] s[i] != '\'' by {
        assert(s[i] == inner[i - 1]);
    }
    lemma_quoted_fields(s, 0, 1, n - 1);
    assert(s[n - 1] == '\'');
    assert(s.subrange(0, n) =~= s);
    assert(fields(s, 0, 0, false) == fields(s, 0, 1, true));
    assert(fields(s, 0, n - 1, true) == fields(s, 0, n, false));
    assert(fields(s, 0, n, false) == seq![text::trimmed(s)]);
}

proof fn lemma_plain_fields(s: Seq<char>, start: int, i: int, j: int, quoted: bool)
    requires
        0 <= start <= i <= j <= s.len(),
        forall|k: int| i <= k < j ==> #[trigger] s[k] != ',' && s[k] != '\'',
    ensures
        fields(s, start, i, quoted) == fields(s, start, j, quoted),
    decreases j - i,
{
    if i < j {
        lemma_plain_fields(s, start, i + 1, j, quoted);
    }
}

proof fn lemma_quoted_fields(s: Seq<char>, start: int, i: int, j: int)
    requires
        0 <= start <= i <= j <= s.len(),
        forall|k: int| i <= k < j ==> #[trigger] s[k] != '\'',
    ensures
        fields(s, start, i, true) == fields(s, start, j, true),
    decreases j - i,
{
    if i < j {
        lemma_quoted_fields(s, start, i + 1, j);
    }
}

proof fn lemma_fields_shift(s: Seq<char>, rest: Seq<char>, d: int, start: int, i: int, quoted: bool)
    requires
        0 <= d <= s.len(),
        rest == s.skip(d),
        0 <= start <= i <= rest.len(),
    ensures
        fields(s, start + d, i + d, quoted) == fields(rest, start, i, quoted),
    decreases rest.len() - i,
{
    if i >= rest.len() {
        assert(s.subrange(start + d, s.len() as int) =~= rest.subrange(start, rest.len() as int));
    } else {
        assert(rest[i] == s[i + d]);
        if rest[i] == '\'' {
            lemma_fields_shift(s, rest, d, start, i + 1, !quoted);
        } else if rest[i] == ',' && !quoted {
            assert(s.subrange(start + d, i + d) =~= rest.subrange(start, i));
            lemma_fields_shift(s, rest, d, i + 1, i + 1, quoted);
        } else {
            lemma_fields_shift(s, rest, d, start, i + 1, quoted);
        }
    }
}

/// Nothing is dropped but an insertion into the items that names both their section and their type,
/// with `NULL` for both.
pub proof fn law_only_items_without_a_place_are_junk(sql: Seq<char>)
    requires
        is_junk(sql),
    ensures
        text::occurs_icase(sql, "INSERT"@),
        text::occurs_icase(sql, "metadata_items"@),
        !text::occurs_icase(sql, "metadata_item_settings"@),
        bracketed(sql, 0) is Some,
        value_list(sql) is Some,
        ({
            let cols = csv(bracketed(sql, 0)->0);
            let vals = csv(value_list(sql)->0);
            exists|l: int, t: int|
                0 <= l < cols.len() && 0 <= t < cols.len() && #[trigger] is_column(
                    cols,
                    l,
                    "library_section_id"@,
                ) && #[trigger] is_column(cols, t, "metadata_type"@) && l < vals.len() && t
                    < vals.len() && text::occurs_at_icase(
                    text::trimmed_start(vals[l]),
                    0,
                    "NULL"@,
                ) && text::occurs_at_icase(text::trimmed_start(vals[t]), 0, "NULL"@)
        }),
{
    let cols = csv(bracketed(sql, 0)->0);
    lemma_last_column(cols, "library_section_id"@, cols.len() as int);
    lemma_last_column(cols, "metadata_type"@, cols.len() as int);
}

proof fn lemma_last_column(cols: Seq<Seq<char>>, name: Seq<char>, n: int)
    requires
        0 <= n <= cols.len(),
    ensures
        match search::last_index(|i: int| is_column(cols, i, name), 0, n) {
            Some(i) => 0 <= i < n && is_column(cols, i, name) && forall|j: int|
                i < j < n ==> !#[trigger] is_column(cols, j, name),
            None => forall|j: int| 0 <= j < n ==> !#[trigger] is_column(cols, j, name),
        },
    decreases n,
{
    if n > 0 && !is_column(cols, n - 1, name) {
        lemma_last_column(cols, name, n - 1);
    }
}

/// An insertion into the items whose section and type are both `NULL` is dropped, where each column
/// is named once.
pub proof fn law_items_without_a_place_are_junk(sql: Seq<char>, l: int, t: int)
    requires
        inserts_item(sql),
        bracketed(sql, 0) is Some,
        value_list(sql) is Some,
        ({
            let cols = csv(bracketed(sql, 0)->0);
            let vals = csv(value_list(sql)->0);
            &&& 0 <= l < cols.len() && l < vals.len()
            &&& 0 <= t < cols.len() && t < vals.len()
            &&& text::eq_icase(bare_name(cols[l]), "library_section_id"@)
            &&& text::eq_icase(bare_name(cols[t]), "metadata_type"@)
            &&& forall|j: int| l < j < cols.len() ==> !#[trigger] is_column(
                cols,
                j,
                "library_section_id"@,
            )
            &&& forall|j: int| t < j < cols.len() ==> !#[trigger] is_column(
                cols,
                j,
                "metadata_type"@,
            )
        }),
    ensures
        is_junk(sql) <==> text::occurs_at_icase(
            text::trimmed_start(csv(value_list(sql)->0)[l]),
            0,
            "NULL"@,
        ) && text::occurs_at_icase(text::trimmed_start(csv(value_list(sql)->0)[t]), 0, "NULL"@),
{
    let cols = csv(bracketed(sql, 0)->0);
    lemma_last_column(cols, "library_section_id"@, cols.len() as int);
    lemma_last_column(cols, "metadata_type"@, cols.len() as int);
    assert(is_column(cols, l, "library_section_id"@));
    assert(is_column(cols, t, "metadata_type"@));
}

/// In an insertion, a column is found at its place in the first list in round brackets, whatever
/// stands behind it, and where it is listed twice at the first one.
pub proof fn law_columns_are_found(
    head: Seq<char>,
    list: Seq<char>,
    tail: Seq<char>,
    name: Seq<char>,
    at: int,
)
    requires
        text::occurs_icase(head, "INSERT"@),
        text::occurs_icase(head, "INTO"@),
        !head.contains('('),
        !list.contains(')'),
        name.len() > 0,
        0 <= at < csv(list).len(),
        text::eq_icase(bare_name(csv(list)[at]), name),
        forall|i: int| 0 <= i < at ==> !text::eq_icase(bare_name(#[trigger] csv(list)[i]), name),
    ensures
        column_index(head + seq!['('] + list + seq![')'] + tail, name) == Some(at),
{
    let s = head + seq!['('] + list + seq![')'] + tail;
    lemma_occurs_in_head(head, s, "INSERT"@);
    lemma_occurs_in_head(head, s, "INTO"@);
    reveal_strlit("(");
    reveal_strlit(")");
    let n = head.len() as int;
    let m = n + 1 + list.len() as int;
    let p = |i: int| text::occurs_at_icase(s, i, "("@);
    search::lemma_first_index(p, 0, s.len() as int + 1);
    assert(s[n] == '(');
    assert(s.subrange(n, n + 1) =~= "("@);
    assert(p(n));
    assert forall|i: int| 0 <= i < n implies !#[trigger] p(i) by {
        assert(s[i] == head[i]);
        assert(head.contains(head[i]));
        if p(i) {
            assert(text::lower(s.subrange(i, i + 1)[0]) == text::lower("("@[0]));
        }
    }
    assert(text::first_occurrence_icase(s, 0, "("@) == Some(n));
    let q = |i: int| text::occurs_at(s, i, ")"@);
    search::lemma_first_index(q, n + 1, s.len() as int + 1);
    assert(s[m] == ')');
    assert(s.subrange(m, m + 1) =~= ")"@);
    assert(q(m));
    assert forall|i: int| n + 1 <= i < m implies !#[trigger] q(i) by {
        assert(s[i] == list[i - n - 1]);
        assert(list.contains(list[i - n - 1]));
        if q(i) {
            assert(s.subrange(i, i + 1)[0] == ")"@[0]);
        }
    }
    assert(text::first_occurrence(s, n + 1, ")"@) == Some(m));
    assert(s.subrange(n + 1, m) =~= list);
    let cols = csv(list);
    let c = |i: int| is_column(cols, i, name);
    search::lemma_first_index(c, 0, cols.len() as int);
    assert(c(at));
    assert forall|i: int| 0 <= i < at implies !#[trigger] c(i) by {
        assert(!text::eq_icase(bare_name(csv(list)[i]), name));
    }
}

proof fn lemma_occurs_in_head(head: Seq<char>, s: Seq<char>, pat: Seq<char>)
    requires
        text::occurs_icase(head, pat),
        head.is_prefix_of(s),
    ensures
        text::occurs_icase(s, pat),
{
    let i = choose|i: int| text::occurs_at_icase(head, i, pat);
    assert(s.subrange(i, i + pat.len()) =~= head.subrange(i, i + pat.len()));
    assert(text::occurs_at_icase(s, i, pat));
}

} // verus!
