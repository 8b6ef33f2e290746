//! Reading and completing the text of a statement that is being prepared.

use crate::bytes;
use crate::hash;
use crate::search;
use crate::text;
use vstd::prelude::*;
use vstd::string::*;
use vstd::utf8::*;

verus! {

/// A query that has no rows.
pub open spec fn empty_query() -> Seq<u8> {
    "SELECT 1 WHERE 0".spec_bytes()
}

/// The white space that may stand before a statement: space, tab, line feed, carriage return.
pub open spec fn is_blank(b: u8) -> bool {
    b == 0x20 || b == 0x09 || b == 0x0A || b == 0x0D
}

/// How many of the bytes from `i` on are blank before the first that is not.
pub open spec fn blanks_end(s: Seq<u8>, i: int) -> int
    decreases s.len() - i,
{
    if 0 <= i < s.len() && is_blank(s[i]) {
        blanks_end(s, i + 1)
    } else {
        i
    }
}

/// A statement that begins, ends or marks a transaction.
pub open spec fn is_txn_control(s: Seq<u8>) -> bool {
    let i = blanks_end(s, 0);
    ||| bytes::occurs_at_icase(s, i, "begin".spec_bytes())
    ||| bytes::occurs_at_icase(s, i, "commit".spec_bytes())
    ||| bytes::occurs_at_icase(s, i, "rollback".spec_bytes())
    ||| bytes::occurs_at_icase(s, i, "savepoint".spec_bytes())
    ||| bytes::occurs_at_icase(s, i, "release savepoint".spec_bytes())
}

/// Does the statement begin, end or mark a transaction?
pub fn is_txn_control_sql(sql: &[u8]) -> (r: bool)
    ensures
        r == is_txn_control(sql@),
{
    let mut i: usize = 0;
    while i < sql.len() && (sql[i] == 0x20 || sql[i] == 0x09 || sql[i] == 0x0A || sql[i] == 0x0D)
        invariant
            i <= sql@.len(),
            blanks_end(sql@, 0) == blanks_end(sql@, i as int),
        decreases sql@.len() - i,
    {
        i += 1;
    }
    bytes::starts_with_ascii_icase_at(sql, i, "begin".as_bytes())
        || bytes::starts_with_ascii_icase_at(sql, i, "commit".as_bytes())
        || bytes::starts_with_ascii_icase_at(sql, i, "rollback".as_bytes())
        || bytes::starts_with_ascii_icase_at(sql, i, "savepoint".as_bytes())
        || bytes::starts_with_ascii_icase_at(sql, i, "release savepoint".as_bytes())
}

/// Is the word a part of the text, up to case?
pub open spec fn has_word(s: Seq<u8>, word: &str) -> bool {
    bytes::occurs_icase(s, word.spec_bytes())
}

/// Is the non-empty word a part of the text, up to case?
pub fn contains_word(s: &[u8], word: &str) -> (r: bool)
    requires
        word@.len() > 0,
        is_ascii(word),
    ensures
        r == has_word(s@, word),
{
    proof {
        is_ascii_spec_bytes(word);
    }
    bytes::contains_ascii_icase(s, word.as_bytes())
}

/// A query for what is on deck, which needs a deep stack.
pub open spec fn is_ondeck(s: Seq<u8>) -> bool {
    ||| has_word(s, "metadata_item_settings") && has_word(s, "metadata_items")
    ||| has_word(s, "metadata_item_views") && has_word(s, "grandparents")
    ||| has_word(s, "grandparentsSettings")
}

/// Does the query ask for what is on deck?
pub fn is_ondeck_query(s: &[u8]) -> (r: bool)
    ensures
        r == is_ondeck(s@),
{
    proof {
        reveal_strlit("metadata_item_settings");
        reveal_strlit("metadata_items");
        reveal_strlit("metadata_item_views");
        reveal_strlit("grandparents");
        reveal_strlit("grandparentsSettings");
    }
    (contains_word(s, "metadata_item_settings") && contains_word(s, "metadata_items")) || (
    contains_word(s, "metadata_item_views") && contains_word(s, "grandparents")) || contains_word(
        s,
        "grandparentsSettings",
    )
}

/// Where the spaces that stand at `i` end.
pub open spec fn spaces_end(s: Seq<u8>, i: int) -> int
    decreases s.len() - i,
{
    if 0 <= i < s.len() && s[i] == 0x20 {
        spaces_end(s, i + 1)
    } else {
        i
    }
}

/// The first place from `i` on where the byte `b` stands, or the end.
pub open spec fn until(s: Seq<u8>, i: int, b: u8) -> int
    decreases s.len() - i,
{
    if 0 <= i < s.len() && s[i] != b {
        until(s, i + 1, b)
    } else {
        i
    }
}

/// The longest name that is read.
pub const MAX_NAME: usize = 255;

/// The name at `i`, behind spaces: in quotation marks up to the closing mark, else up to a space
/// or the end. A quoted name that is not closed, or is too long, is none; one without quotation
/// marks is cut off.
pub open spec fn name_at(s: Seq<u8>, i: int) -> Seq<u8> {
    let start = spaces_end(s, i);
    if start < s.len() && (s[start] == 0x27 || s[start] == 0x22) {
        let end = until(s, start + 1, s[start]);
        if end < s.len() && end - (start + 1) <= MAX_NAME {
            s.subrange(start + 1, end)
        } else {
            Seq::empty()
        }
    } else {
        let end = until(s, start, 0x20);
        if end - start <= MAX_NAME {
            s.subrange(start, end)
        } else {
            s.subrange(start, start + MAX_NAME)
        }
    }
}

/// The table and the column of a statement that adds a column to a table.
pub open spec fn added_column(s: Seq<u8>) -> Option<(Seq<u8>, Seq<u8>)> {
    match (
        bytes::first_occurrence_icase(s, 0, "ALTER TABLE".spec_bytes()),
        bytes::first_occurrence_icase(s, 0, " ADD ".spec_bytes()),
    ) {
        (Some(t), Some(a)) => {
            let table = name_at(s, t + 11);
            let column = name_at(s, a + 5);
            if table.len() > 0 && column.len() > 0 {
                Some((table, column))
            } else {
                None
            }
        },
        _ => None,
    }
}

fn skip_spaces(s: &[u8], from: usize) -> (r: usize)
    requires
        from <= s@.len(),
    ensures
        r == spaces_end(s@, from as int),
        from <= r <= s@.len(),
{
    let mut i: usize = from;
    while i < s.len() && s[i] == 0x20
        invariant
            from <= i <= s@.len(),
            spaces_end(s@, from as int) == spaces_end(s@, i as int),
        decreases s@.len() - i,
    {
        i += 1;
    }
    i
}

fn find_until(s: &[u8], from: usize, b: u8) -> (r: usize)
    requires
        from <= s@.len(),
    ensures
        r == until(s@, from as int, b),
        from <= r <= s@.len(),
{
    let mut i: usize = from;
    while i < s.len() && s[i] != b
        invariant
            from <= i <= s@.len(),
            until(s@, from as int, b) == until(s@, i as int, b),
        decreases s@.len() - i,
    {
        i += 1;
    }
    i
}

/// A copy of the bytes from `from` up to `to`.
pub fn copy_range(s: &[u8], from: usize, to: usize) -> (r: Vec<u8>)
    requires
        from <= to <= s@.len(),
    ensures
        r@ == s@.subrange(from as int, to as int),
{
    let mut r: Vec<u8> = Vec::new();
    let mut i: usize = from;
    while i < to
        invariant
            from <= i <= to <= s@.len(),
            r@ == s@.subrange(from as int, i as int),
        decreases to - i,
    {
        r.push(s[i]);
        assert(s@.subrange(from as int, i + 1) == s@.subrange(from as int, i as int).push(
            s@[i as int],
        ));
        i += 1;
    }
    r
}

fn read_name(s: &[u8], from: usize) -> (r: Vec<u8>)
    requires
        from <= s@.len(),
    ensures
        r@ == name_at(s@, from as int),
{
    let start: usize = skip_spaces(s, from);
    if start < s.len() && (s[start] == 0x27 || s[start] == 0x22) {
        let end: usize = find_until(s, start + 1, s[start]);
        if end < s.len() && end - (start + 1) <= MAX_NAME {
            copy_range(s, start + 1, end)
        } else {
            Vec::new()
        }
    } else {
        let end: usize = find_until(s, start, 0x20);
        if end - start <= MAX_NAME {
            copy_range(s, start, end)
        } else {
            copy_range(s, start, start + MAX_NAME)
        }
    }
}

proof fn lemma_word_found(s: Seq<u8>, pat: Seq<u8>)
    ensures
        match bytes::first_occurrence_icase(s, 0, pat) {
            Some(i) => 0 <= i && i + pat.len() <= s.len(),
            None => true,
        },
{
    search::lemma_first_index(|i: int| bytes::occurs_at_icase(s, i, pat), 0, s.len() as int + 1);
}

/// The table and the column of a statement that adds a column to a table: it is skipped where the
/// column is there already.
pub fn maybe_skip_alter_table_add(sql: &[u8]) -> (r: Option<(Vec<u8>, Vec<u8>)>)
    ensures
        match r {
            Some((table, column)) => added_column(sql@) == Some((table@, column@)),
            None => added_column(sql@) is None,
        },
{
    proof {
        reveal_strlit("ALTER TABLE");
        reveal_strlit(" ADD ");
        is_ascii_spec_bytes("ALTER TABLE");
        is_ascii_spec_bytes(" ADD ");
        lemma_word_found(sql@, "ALTER TABLE".spec_bytes());
        lemma_word_found(sql@, " ADD ".spec_bytes());
    }
    let table_pos = match bytes::find_ascii_icase(sql, "ALTER TABLE".as_bytes()) {
        Some(i) => i,
        None => {
            return None;
        },
    };
    let add_pos = match bytes::find_ascii_icase(sql, " ADD ".as_bytes()) {
        Some(i) => i,
        None => {
            return None;
        },
    };
    let n: usize = sql.len();
    assert(table_pos + 11 <= n && add_pos + 5 <= n);
    let table = read_name(sql, table_pos + 11);
    if table.len() == 0 {
        return None;
    }
    let column = read_name(sql, add_pos + 5);
    if column.len() == 0 {
        return None;
    }
    Some((table, column))
}

/// The question for the columns of a table, as far as 511 bytes hold it.
pub open spec fn table_info(table: Seq<u8>) -> Seq<u8> {
    bytes::capped(
        Seq::empty(),
        511,
        "PRAGMA table_info(".spec_bytes() + table + ")".spec_bytes(),
    )
}

/// Writes the question for the columns of a table.
pub fn table_info_sql(table: &[u8]) -> (r: Vec<u8>)
    ensures
        r@ == table_info(table@),
{
    let mut all: Vec<u8> = Vec::new();
    push_bytes(&mut all, "PRAGMA table_info(".as_bytes());
    push_bytes(&mut all, table);
    push_bytes(&mut all, ")".as_bytes());
    assert(all@ == "PRAGMA table_info(".spec_bytes() + table@ + ")".spec_bytes());
    let mut out: Vec<u8> = Vec::new();
    bytes::push_capped(&mut out, 511, &all);
    out
}

/// Is there a column of this name? Case does not matter.
pub open spec fn has_column(columns: Seq<Option<Vec<u8>>>, want: Seq<u8>) -> bool {
    exists|i: int|
        0 <= i < columns.len() && #[trigger] columns[i] is Some && bytes::eq_icase(
            columns[i]->0@,
            want,
        )
}

/// Is there a column of this name among those that a table has?
pub fn column_exists_in_sqlite(columns: &Vec<Option<Vec<u8>>>, want: &[u8]) -> (r: bool)
    ensures
        r == has_column(columns@, want@),
{
    let n: usize = columns.len();
    let mut i: usize = 0;
    while i < n
        invariant
            i <= n == columns@.len(),
            forall|k: int|
                0 <= k < i ==> !(#[trigger] columns@[k] is Some && bytes::eq_icase(
                    columns@[k]->0@,
                    want@,
                )),
        decreases n - i,
    {
        if let Some(c) = &columns[i] {
            if bytes::eq_ignore_ascii_case(c, want) {
                assert(columns@[i as int] is Some);
                return true;
            }
        }
        i += 1;
    }
    false
}

/// The condition on parameter `i` in a query that only binds parameters.
pub open spec fn dummy_term(names: Seq<Option<Seq<u8>>>, i: int) -> Seq<u8> {
    if 0 <= i < names.len() && names[i] is Some {
        ":".spec_bytes() + names[i]->0 + " IS NOT NULL".spec_bytes()
    } else {
        "? IS NOT NULL".spec_bytes()
    }
}

/// How long the text of such a query may grow before no more conditions are added.
pub const DUMMY_LIMIT: usize = 4056;

/// The query `out` with the conditions on the parameters from `i` on.
pub open spec fn dummy_from(out: Seq<u8>, names: Seq<Option<Seq<u8>>>, i: int, count: int) -> Seq<u8>
    decreases count - i,
{
    if i >= count {
        out
    } else {
        let joined = if i > 0 {
            out + " AND ".spec_bytes()
        } else {
            out
        };
        let next = joined + dummy_term(names, i);
        if next.len() >= DUMMY_LIMIT {
            next
        } else {
            dummy_from(next, names, i + 1, count)
        }
    }
}

/// A query without rows that has the same parameters as the statement it stands in for.
pub open spec fn dummy(names: Seq<Option<Seq<u8>>>, count: int) -> Seq<u8> {
    if count == 0 {
        empty_query()
    } else {
        dummy_from("SELECT 1 WHERE ".spec_bytes(), names, 0, count)
    }
}

/// The bytes of an optional text.
pub open spec fn opt_bytes(o: Option<Vec<u8>>) -> Option<Seq<u8>> {
    match o {
        Some(v) => Some(v@),
        None => None,
    }
}

/// The names of parameters.
pub open spec fn name_list(v: Seq<Option<Vec<u8>>>) -> Seq<Option<Seq<u8>>> {
    v.map_values(|o: Option<Vec<u8>>| opt_bytes(o))
}

/// The names with a mark in place of what is not UTF-8.
pub open spec fn readable(names: Seq<Option<Seq<u8>>>) -> Seq<Option<Seq<u8>>> {
    names.map_values(
        |o: Option<Seq<u8>>|
            match o {
                Some(b) => Some(vstd::utf8::encode_utf8(text::lossy(b))),
                None => None,
            },
    )
}

/// The names with a mark in place of what is not UTF-8.
pub fn readable_names(names: &Vec<Option<Vec<u8>>>) -> (r: Vec<Option<Vec<u8>>>)
    ensures
        name_list(r@) == readable(name_list(names@)),
{
    let mut out: Vec<Option<Vec<u8>>> = Vec::new();
    for i in 0..names.len()
        invariant
            out@.len() == i,
            forall|k: int|
                0 <= k < i ==> opt_bytes(#[trigger] out@[k]) == readable(name_list(names@))[k],
    {
        assert(name_list(names@)[i as int] == opt_bytes(names@[i as int]));
        match &names[i] {
            Some(b) => {
                let t = text::from_utf8_lossy(b.as_slice());
                let mut v: Vec<u8> = Vec::new();
                push_bytes(&mut v, t.as_str().as_bytes());
                assert(v@ =~= vstd::utf8::encode_utf8(text::lossy(b@)));
                out.push(Some(v));
            },
            None => out.push(None),
        }
    }
    assert(name_list(out@) =~= readable(name_list(names@)));
    out
}

/// Appends bytes.
pub fn push_bytes(out: &mut Vec<u8>, b: &[u8])
    ensures
        final(out)@ == old(out)@ + b@,
{
    let mut i: usize = 0;
    assert(b@.take(0) == Seq::<u8>::empty());
    while i < b.len()
        invariant
            i <= b@.len(),
            out@ == old(out)@ + b@.take(i as int),
        decreases b@.len() - i,
    {
        out.push(b[i]);
        assert(b@.take(i + 1) == b@.take(i as int).push(b@[i as int]));
        i += 1;
    }
    assert(b@.take(b@.len() as int) == b@);
}

/// A query without rows that has the same parameters, under these names, as the statement it stands
/// in for.
pub fn dummy_sql(names: &Vec<Option<Vec<u8>>>, param_count: i32) -> (r: Vec<u8>)
    ensures
        r@ == dummy(name_list(names@), param_count as int),
{
    let mut out: Vec<u8> = Vec::new();
    if param_count == 0 {
        push_bytes(&mut out, "SELECT 1 WHERE 0".as_bytes());
        assert(out@ == empty_query());
        return out;
    }
    push_bytes(&mut out, "SELECT 1 WHERE ".as_bytes());
    let ghost all = name_list(names@);
    assert(out@ == "SELECT 1 WHERE ".spec_bytes());
    let mut i: i32 = 0;
    while i < param_count
        invariant
            0 <= i,
            param_count > 0 ==> i <= param_count,
            all == name_list(names@),
            dummy_from(out@, all, i as int, param_count as int) == dummy_from(
                "SELECT 1 WHERE ".spec_bytes(),
                all,
                0,
                param_count as int,
            ),
            param_count != 0,
        decreases param_count - i,
    {
        let ghost before = out@;
        if i > 0 {
            push_bytes(&mut out, " AND ".as_bytes());
        }
        let ghost joined = out@;
        let k: usize = i as usize;
        if k < names.len() {
            assert(all[k as int] == opt_bytes(names@[k as int]));
            match &names[k] {
                Some(name) => {
                    push_bytes(&mut out, ":".as_bytes());
                    push_bytes(&mut out, name.as_slice());
                    push_bytes(&mut out, " IS NOT NULL".as_bytes());
                    assert(out@ =~= joined + dummy_term(all, i as int));
                },
                None => {
                    push_bytes(&mut out, "? IS NOT NULL".as_bytes());
                    assert(out@ =~= joined + dummy_term(all, i as int));
                },
            }
        } else {
            push_bytes(&mut out, "? IS NOT NULL".as_bytes());
            assert(out@ =~= joined + dummy_term(all, i as int));
        }
        if out.len() >= DUMMY_LIMIT {
            return out;
        }
        i += 1;
    }
    out
}

/// The insertion with what it needs on the server: an insertion of a schema version that is there
/// already does nothing; any other gives back the row's number.
pub open spec fn completed(is_write: bool, sql: Seq<u8>, pg: Seq<u8>) -> Seq<u8> {
    let insert = is_write && bytes::occurs_at_icase(sql, 0, "INSERT".spec_bytes());
    if insert && has_word(pg, "schema_migrations") {
        if has_word(pg, "ON CONFLICT") {
            pg
        } else {
            pg + " ON CONFLICT DO NOTHING".spec_bytes()
        }
    } else if insert && !has_word(pg, "RETURNING") {
        pg + " RETURNING id".spec_bytes()
    } else {
        pg
    }
}

/// A word of a text is a word of the text with more behind it.
proof fn lemma_word_kept(s: Seq<u8>, t: Seq<u8>, pat: Seq<u8>)
    requires
        bytes::occurs_icase(s, pat),
    ensures
        bytes::occurs_icase(s + t, pat),
{
    let i = choose|i: int| bytes::occurs_at_icase(s, i, pat);
    assert((s + t).subrange(i, i + pat.len()) =~= s.subrange(i, i + pat.len()));
    assert(bytes::occurs_at_icase(s + t, i, pat));
}

/// Completes the server's text of a statement whose original text is `sql`.
pub fn complete_sql(is_write: bool, sql: &[u8], pg: &[u8]) -> (r: Vec<u8>)
    ensures
        r@ == completed(is_write, sql@, pg@),
{
    proof {
        reveal_strlit("schema_migrations");
        reveal_strlit("ON CONFLICT");
        reveal_strlit("RETURNING");
    }
    let mut out: Vec<u8> = Vec::new();
    push_bytes(&mut out, pg);
    assert(out@ == pg@);
    if is_write && bytes::starts_with_icase(sql, "INSERT".as_bytes()) {
        if contains_word(pg, "schema_migrations") {
            if !contains_word(pg, "ON CONFLICT") {
                push_bytes(&mut out, " ON CONFLICT DO NOTHING".as_bytes());
            }
        } else if !contains_word(pg, "RETURNING") {
            push_bytes(&mut out, " RETURNING id".as_bytes());
        }
    }
    out
}

/// Completing a statement a second time changes nothing.
pub proof fn law_completed_once(is_write: bool, sql: Seq<u8>, pg: Seq<u8>)
    ensures
        completed(is_write, sql, completed(is_write, sql, pg)) == completed(is_write, sql, pg),
{
    reveal_strlit(" ON CONFLICT DO NOTHING");
    reveal_strlit(" RETURNING id");
    reveal_strlit("ON CONFLICT");
    reveal_strlit("RETURNING");
    is_ascii_spec_bytes(" ON CONFLICT DO NOTHING");
    is_ascii_spec_bytes(" RETURNING id");
    is_ascii_spec_bytes("ON CONFLICT");
    is_ascii_spec_bytes("RETURNING");
    let done = completed(is_write, sql, pg);
    let insert = is_write && bytes::occurs_at_icase(sql, 0, "INSERT".spec_bytes());
    if insert && has_word(pg, "schema_migrations") && !has_word(pg, "ON CONFLICT") {
        lemma_word_kept(pg, " ON CONFLICT DO NOTHING".spec_bytes(), "schema_migrations".spec_bytes());
        let at = pg.len() as int + 1;
        assert(done.subrange(at, at + 11) =~= "ON CONFLICT".spec_bytes());
        assert(bytes::occurs_at_icase(done, at, "ON CONFLICT".spec_bytes()));
    } else if insert && !has_word(pg, "schema_migrations") && !has_word(pg, "RETURNING") {
        let at = pg.len() as int + 1;
        assert(done.subrange(at, at + 9) =~= "RETURNING".spec_bytes());
        assert(bytes::occurs_at_icase(done, at, "RETURNING".spec_bytes()));
        assert(has_word(done, "RETURNING"));
        if has_word(done, "schema_migrations") {
            lemma_no_new_schema_word(pg);
        }
    }
}

/// What is put behind a statement for the row's number does not name the schema's versions.
proof fn lemma_no_new_schema_word(pg: Seq<u8>)
    requires
        !has_word(pg, "schema_migrations"),
    ensures
        !has_word(pg + " RETURNING id".spec_bytes(), "schema_migrations"),
{
    reveal_strlit(" RETURNING id");
    reveal_strlit("schema_migrations");
    is_ascii_spec_bytes(" RETURNING id");
    is_ascii_spec_bytes("schema_migrations");
    let tail = " RETURNING id".spec_bytes();
    let pat = "schema_migrations".spec_bytes();
    let all = pg + tail;
    if has_word(all, "schema_migrations") {
        let i = choose|i: int| bytes::occurs_at_icase(all, i, pat);
        let part = all.subrange(i, i + pat.len());
        if i + 17 <= pg.len() {
            assert(part =~= pg.subrange(i, i + 17));
            assert(bytes::occurs_at_icase(pg, i, pat));
        } else {
            let k = pg.len() as int - i;
            if k >= 0 && k < 17 {
                assert(part[k] == tail[0]);
                assert(bytes::lower(part[k]) == bytes::lower(pat[k]));
            } else {
                assert(part[0] == all[i]);
                assert(i + 17 <= all.len());
            }
        }
    }
}

/// A hexadecimal number with small letters and no leading zeros.
pub open spec fn hex_number(n: nat) -> Seq<u8>
    decreases n,
{
    if n < 16 {
        seq![hex_byte(n as int)]
    } else {
        hex_number(n / 16).push(hex_byte((n % 16) as int))
    }
}

/// A hexadecimal digit with a small letter.
pub open spec fn hex_byte(d: int) -> u8 {
    if d < 10 {
        (48 + d) as u8
    } else {
        (87 + d) as u8
    }
}

fn push_hex(out: &mut Vec<u8>, n: u64)
    ensures
        final(out)@ == old(out)@ + hex_number(n as nat),
    decreases n,
{
    let d: u8 = (n % 16) as u8;
    let b: u8 = if d < 10 {
        48 + d
    } else {
        87 + d
    };
    if n >= 16 {
        push_hex(out, n / 16);
    }
    out.push(b);
    assert(out@ =~= old(out)@ + hex_number(n as nat));
}

/// A prefix and a number in hexadecimal digits.
pub fn hex_name(prefix: &str, n: u64) -> (r: Vec<u8>)
    ensures
        r@ == prefix.spec_bytes() + hex_number(n as nat),
{
    let mut out: Vec<u8> = Vec::new();
    push_bytes(&mut out, prefix.as_bytes());
    assert(out@ == prefix.spec_bytes());
    push_hex(&mut out, n);
    out
}

/// The hash under which a statement is prepared; text that is not UTF-8 counts as empty.
pub open spec fn statement_key(sql: Seq<u8>) -> u64 {
    if valid_utf8(sql) {
        hash::fnv(sql)
    } else {
        hash::fnv(Seq::<u8>::empty())
    }
}

/// The hash under which a statement is prepared.
pub fn statement_hash(sql: &[u8]) -> (r: u64)
    ensures
        r == statement_key(sql@),
{
    match std::str::from_utf8(sql) {
        Ok(s) => hash::fnv1a_str(s),
        Err(_) => {
            let none: Vec<u8> = Vec::new();
            assert(none@ == Seq::<u8>::empty());
            hash::fnv1a_hash_slice(none.as_slice())
        },
    }
}

/// One UTF-16 code unit in up to three bytes, as UTF-8 writes a character with that number.
pub open spec fn unit_bytes(u: u16) -> Seq<u8> {
    if u < 0x80 {
        seq![u as u8]
    } else if u < 0x800 {
        seq![(0xC0 + u / 0x40) as u8, (0x80 + u % 0x40) as u8]
    } else {
        seq![(0xE0 + u / 0x1000) as u8, (0x80 + (u / 0x40) % 0x40) as u8, (0x80 + u % 0x40) as u8]
    }
}

/// The code units up to the first zero, each in bytes of its own.
pub open spec fn utf16_bytes(s: Seq<u16>, i: int) -> Seq<u8>
    decreases s.len() - i,
{
    if 0 <= i < s.len() && s[i] != 0 {
        unit_bytes(s[i]) + utf16_bytes(s, i + 1)
    } else {
        Seq::empty()
    }
}

/// UTF-16 text up to its first zero in bytes. The two halves of a pair are written on their own.
pub fn utf16_to_bytes(s: &[u16]) -> (r: Vec<u8>)
    ensures
        r@ == utf16_bytes(s@, 0),
{
    let mut out: Vec<u8> = Vec::new();
    let mut i: usize = 0;
    assert(out@ + utf16_bytes(s@, 0) == utf16_bytes(s@, 0));
    while i < s.len() && s[i] != 0
        invariant
            i <= s@.len(),
            out@ + utf16_bytes(s@, i as int) == utf16_bytes(s@, 0),
        decreases s@.len() - i,
    {
        let ghost before = out@;
        let u: u16 = s[i];
        if u < 0x80 {
            out.push(u as u8);
        } else if u < 0x800 {
            out.push((0xC0 + u / 0x40) as u8);
            out.push((0x80 + u % 0x40) as u8);
        } else {
            out.push((0xE0 + u / 0x1000) as u8);
            out.push((0x80 + (u / 0x40) % 0x40) as u8);
            out.push((0x80 + u % 0x40) as u8);
        }
        proof {
            assert(out@ =~= before + unit_bytes(u));
            assert(before + (unit_bytes(u) + utf16_bytes(s@, i + 1)) =~= before + unit_bytes(u)
                + utf16_bytes(s@, i + 1));
        }
        i += 1;
    }
    proof {
        assert(out@ + Seq::<u8>::empty() =~= out@);
    }
    out
}

/// The bytes to be prepared in place of a UTF-16 text: there are none, and SQLite gets the text as
/// it is, unless it names the collation that only the server knows.
pub fn rust_my_sqlite3_prepare16_v2(s: &[u16]) -> (r: Option<Vec<u8>>)
    ensures
        r is Some == has_word(utf16_bytes(s@, 0), "collate icu_root"),
        r is Some ==> r->0@ == utf16_bytes(s@, 0),
{
    proof {
        reveal_strlit("collate icu_root");
    }
    let b = utf16_to_bytes(s);
    if contains_word(b.as_slice(), "collate icu_root") {
        Some(b)
    } else {
        None
    }
}

/// The number that hexadecimal digits with small letters stand for.
pub open spec fn hex_value(s: Seq<u8>) -> nat
    decreases s.len(),
{
    if s.len() == 0 {
        0
    } else {
        let c = s.last();
        hex_value(s.drop_last()) * 16 + (if 0x30 <= c <= 0x39 {
            (c - 0x30) as nat
        } else {
            (c - 0x61 + 10) as nat
        })
    }
}

/// A number in hexadecimal digits reads as itself; so statements with different hashes have
/// different names.
pub proof fn law_hex_reads_back(n: nat)
    ensures
        hex_value(hex_number(n)) == n,
    decreases n,
{
    if n < 16 {
        assert(hex_number(n).drop_last() =~= Seq::empty());
        assert(hex_value(hex_number(n).drop_last()) == 0);
    } else {
        law_hex_reads_back(n / 16);
        assert(hex_number(n).drop_last() =~= hex_number(n / 16));
    }
}

/// A statement whose hash is known has the hash of its own text, if that is UTF-8.
pub proof fn law_keys_are_hashes(sql: Seq<u8>)
    ensures
        valid_utf8(sql) ==> statement_key(sql) == hash::fnv(sql),
        !valid_utf8(sql) ==> statement_key(sql) == hash::fnv(Seq::<u8>::empty()),
{
}

/// A stand-in has one condition for each parameter, in their order: by its name behind a colon, or
/// by a question mark where it has none; without parameters it has no rows.
pub proof fn law_stand_ins_bind_every_parameter(names: Seq<Option<Seq<u8>>>, count: int)
    requires
        0 <= count,
        dummy(names, count + 1).len() < DUMMY_LIMIT,
    ensures
        dummy(names, 0) == "SELECT 1 WHERE 0".spec_bytes(),
        count > 0 ==> dummy(names, count + 1) == dummy(names, count) + " AND ".spec_bytes()
            + dummy_term(names, count),
        count == 0 ==> dummy(names, 1) == "SELECT 1 WHERE ".spec_bytes() + dummy_term(names, 0),
        dummy_term(names, count) == if count < names.len() && names[count] is Some {
            ":".spec_bytes() + names[count]->0 + " IS NOT NULL".spec_bytes()
        } else {
            "? IS NOT NULL".spec_bytes()
        },
{
    let head = "SELECT 1 WHERE ".spec_bytes();
    lemma_dummy_more(head, names, 0, count);
    if count == 0 {
        let next = head + dummy_term(names, 0);
        assert(dummy_from(head, names, 0, 1) == if next.len() >= DUMMY_LIMIT {
            next
        } else {
            dummy_from(next, names, 1, 1)
        });
    }
}

/// One more parameter adds its condition at the end.
proof fn lemma_dummy_more(out: Seq<u8>, names: Seq<Option<Seq<u8>>>, i: int, count: int)
    requires
        0 <= i <= count,
        dummy_from(out, names, i, count + 1).len() < DUMMY_LIMIT,
    ensures
        count > 0 ==> dummy_from(out, names, i, count + 1) == dummy_from(out, names, i, count)
            + " AND ".spec_bytes() + dummy_term(names, count),
    decreases count - i,
{
    let joined = if i > 0 {
        out + " AND ".spec_bytes()
    } else {
        out
    };
    let next = joined + dummy_term(names, i);
    if next.len() >= DUMMY_LIMIT {
        assert(dummy_from(out, names, i, count + 1) == next);
    } else if i < count {
        lemma_dummy_more(next, names, i + 1, count);
    } else {
        assert(dummy_from(next, names, i + 1, count + 1) == next);
        assert(dummy_from(out, names, i, count) == out);
    }
}

/// What is put behind the server's text: nothing, unless the statement is an insertion; what to do
/// about a version that is there, for an insertion of one of the schema's versions that does not say
/// so yet; and the row's number, for any other that does not return anything yet.
pub proof fn law_insertions_are_completed(is_write: bool, sql: Seq<u8>, pg: Seq<u8>)
    ensures
        completed(is_write, sql, pg) == pg || completed(is_write, sql, pg) == pg
            + " RETURNING id".spec_bytes() || completed(is_write, sql, pg) == pg
            + " ON CONFLICT DO NOTHING".spec_bytes(),
        !is_write || !bytes::occurs_at_icase(sql, 0, "INSERT".spec_bytes()) ==> completed(
            is_write,
            sql,
            pg,
        ) == pg,
        is_write && bytes::occurs_at_icase(sql, 0, "INSERT".spec_bytes()) && !bytes::occurs_icase(
            pg,
            "schema_migrations".spec_bytes(),
        ) && !bytes::occurs_icase(pg, "RETURNING".spec_bytes()) ==> completed(is_write, sql, pg)
            == pg + " RETURNING id".spec_bytes(),
        bytes::occurs_icase(pg, "RETURNING".spec_bytes()) && !bytes::occurs_icase(
            pg,
            "schema_migrations".spec_bytes(),
        ) ==> completed(is_write, sql, pg) == pg,
        is_write && bytes::occurs_at_icase(sql, 0, "INSERT".spec_bytes()) && bytes::occurs_icase(
            pg,
            "schema_migrations".spec_bytes(),
        ) && !bytes::occurs_icase(pg, "ON CONFLICT".spec_bytes()) ==> completed(is_write, sql, pg)
            == pg + " ON CONFLICT DO NOTHING".spec_bytes(),
{
}

/// White space before a statement on transactions does not matter.
pub proof fn law_blanks_do_not_matter(s: Seq<u8>, b: u8)
    requires
        b == 0x20 || b == 0x09 || b == 0x0A || b == 0x0D,
    ensures
        is_txn_control(seq![b] + s) == is_txn_control(s),
{
    let t = seq![b] + s;
    assert(t[0] == b);
    assert(t.skip(1) =~= s);
    lemma_blanks_shift(s, t, 0);
    assert(blanks_end(t, 0) == blanks_end(t, 1));
    let i = blanks_end(s, 0);
    lemma_shifted_word(s, t, i, "begin".spec_bytes());
    lemma_shifted_word(s, t, i, "commit".spec_bytes());
    lemma_shifted_word(s, t, i, "rollback".spec_bytes());
    lemma_shifted_word(s, t, i, "savepoint".spec_bytes());
    lemma_shifted_word(s, t, i, "release savepoint".spec_bytes());
}

proof fn lemma_blanks_shift(s: Seq<u8>, t: Seq<u8>, i: int)
    requires
        t.len() == s.len() + 1,
        t.skip(1) == s,
        0 <= i <= s.len(),
    ensures
        blanks_end(t, i + 1) == blanks_end(s, i) + 1,
        0 <= blanks_end(s, i) <= s.len(),
    decreases s.len() - i,
{
    if i < s.len() {
        assert(t.skip(1)[i] == t[i + 1]);
        if is_blank(s[i]) {
            lemma_blanks_shift(s, t, i + 1);
        }
    }
}

proof fn lemma_shifted_word(s: Seq<u8>, t: Seq<u8>, i: int, pat: Seq<u8>)
    requires
        t.len() == s.len() + 1,
        t.skip(1) == s,
        0 <= i <= s.len(),
    ensures
        bytes::occurs_at_icase(t, i + 1, pat) == bytes::occurs_at_icase(s, i, pat),
{
    if i + pat.len() <= s.len() {
        let a = t.subrange(i + 1, i + 1 + pat.len());
        let b = s.subrange(i, i + pat.len());
        assert forall|k: int| 0 <= k < pat.len() implies #[trigger] a[k] == b[k] by {
            assert(t.skip(1)[i + k] == t[i + k + 1]);
        }
        assert(a =~= b);
    }
}

/// A statement on transactions is known by its first word, whatever follows.
pub proof fn law_transactions_are_known_by_their_words(rest: Seq<u8>)
    ensures
        is_txn_control("begin".spec_bytes() + rest),
        is_txn_control("commit".spec_bytes() + rest),
        is_txn_control("rollback".spec_bytes() + rest),
        is_txn_control("savepoint".spec_bytes() + rest),
        is_txn_control("release savepoint".spec_bytes() + rest),
{
    lemma_first_word("begin", rest);
    lemma_first_word("commit", rest);
    lemma_first_word("rollback", rest);
    lemma_first_word("savepoint", rest);
    lemma_first_word("release savepoint", rest);
    reveal_strlit("begin");
    reveal_strlit("commit");
    reveal_strlit("rollback");
    reveal_strlit("savepoint");
    reveal_strlit("release savepoint");
    is_ascii_spec_bytes("begin");
    is_ascii_spec_bytes("commit");
    is_ascii_spec_bytes("rollback");
    is_ascii_spec_bytes("savepoint");
    is_ascii_spec_bytes("release savepoint");
    assert(("begin".spec_bytes() + rest)[0] == "begin".spec_bytes()[0]);
    assert(("commit".spec_bytes() + rest)[0] == "commit".spec_bytes()[0]);
    assert(("rollback".spec_bytes() + rest)[0] == "rollback".spec_bytes()[0]);
    assert(("savepoint".spec_bytes() + rest)[0] == "savepoint".spec_bytes()[0]);
    assert(("release savepoint".spec_bytes() + rest)[0] == "release savepoint".spec_bytes()[0]);
}

proof fn lemma_first_word(word: &str, rest: Seq<u8>)
    ensures
        bytes::occurs_at_icase(word.spec_bytes() + rest, 0, word.spec_bytes()),
{
    let w = word.spec_bytes();
    assert((w + rest).subrange(0, w.len() as int) =~= w);
}

/// A code unit is written as UTF-8 writes a character with its number: reading the bytes gives the
/// number, and the first byte tells how many there are.
pub proof fn law_units_read_back(u: u16)
    ensures
        u < 0x80 ==> unit_bytes(u) == seq![u as u8],
        0x80 <= u < 0x800 ==> unit_bytes(u).len() == 2 && 0xC0 <= unit_bytes(u)[0] < 0xE0 && 0x80
            <= unit_bytes(u)[1] < 0xC0 && (unit_bytes(u)[0] - 0xC0) * 0x40 + (unit_bytes(u)[1]
            - 0x80) == u,
        0x800 <= u ==> unit_bytes(u).len() == 3 && 0xE0 <= unit_bytes(u)[0] < 0xF0 && 0x80
            <= unit_bytes(u)[1] < 0xC0 && 0x80 <= unit_bytes(u)[2] < 0xC0 && (unit_bytes(u)[0]
            - 0xE0) * 0x1000 + (unit_bytes(u)[1] - 0x80) * 0x40 + (unit_bytes(u)[2] - 0x80) == u,
{
}

/// The columns of a table are asked for by its name; a question that is too long is cut off.
pub proof fn law_tables_are_asked_for(table: Seq<u8>)
    ensures
        ({
            let all = "PRAGMA table_info(".spec_bytes() + table + ")".spec_bytes();
            if all.len() <= 511 {
                table_info(table) == all
            } else {
                table_info(table).len() == 511 && table_info(table).is_prefix_of(all)
            }
        }),
{
    let all = "PRAGMA table_info(".spec_bytes() + table + ")".spec_bytes();
    assert(Seq::<u8>::empty() + all =~= all);
    assert(Seq::<u8>::empty() + all.take(511) =~= all.take(511));
}

/// A query is for what is on deck if it names items together with their settings, or views together
/// with grandparents, or the settings of grandparents; naming one table of a pair alone is not
/// enough.
pub proof fn law_on_deck_by_its_tables(s: Seq<u8>)
    ensures
        bytes::occurs_icase(s, "metadata_item_settings".spec_bytes()) && bytes::occurs_icase(
            s,
            "metadata_items".spec_bytes(),
        ) ==> is_ondeck(s),
        bytes::occurs_icase(s, "metadata_item_views".spec_bytes()) && bytes::occurs_icase(
            s,
            "grandparents".spec_bytes(),
        ) ==> is_ondeck(s),
        bytes::occurs_icase(s, "grandparentsSettings".spec_bytes()) ==> is_ondeck(s),
        is_ondeck(s) && !bytes::occurs_icase(s, "grandparentsSettings".spec_bytes())
            ==> bytes::occurs_icase(s, "metadata_items".spec_bytes()) || bytes::occurs_icase(
            s,
            "grandparents".spec_bytes(),
        ),
        is_ondeck(s) && !bytes::occurs_icase(s, "grandparentsSettings".spec_bytes())
            ==> bytes::occurs_icase(s, "metadata_item_settings".spec_bytes())
            || bytes::occurs_icase(s, "metadata_item_views".spec_bytes()),
        is_ondeck(s) && !bytes::occurs_icase(s, "grandparents".spec_bytes()) && !bytes::occurs_icase(
            s,
            "grandparentsSettings".spec_bytes(),
        ) ==> bytes::occurs_icase(s, "metadata_item_settings".spec_bytes()),
        is_ondeck(s) && !bytes::occurs_icase(s, "metadata_items".spec_bytes())
            && !bytes::occurs_icase(s, "grandparentsSettings".spec_bytes())
            ==> bytes::occurs_icase(s, "metadata_item_views".spec_bytes()),
{
}

} // verus!
