//! Names of column types: what a declared type or a server type is called towards the host.

use crate::text;
use vstd::prelude::*;

verus! {

/// The white space of ASCII: space, tab, line feed, form feed, carriage return.
pub open spec fn is_ascii_space(c: char) -> bool {
    c == ' ' || c == '\t' || c == '\n' || c == '\u{c}' || c == '\r'
}

/// The type begins with the word, and the word ends there: with the text, at a bracket or at
/// white space.
pub open spec fn names(t: Seq<char>, word: Seq<char>) -> bool {
    &&& text::occurs_at_icase(t, 0, word)
    &&& (t.len() == word.len() || t[word.len() as int] == '(' || is_ascii_space(
        t[word.len() as int],
    ))
}

/// A whole number of 64 bits.
pub open spec fn is_long(t: Seq<char>) -> bool {
    ||| names(t, "BIGINT"@)
    ||| text::eq_icase(t, "INT8"@)
    ||| text::eq_icase(t, "INT64"@)
    ||| text::eq_icase(t, "LONG"@)
}

/// What a declared type is called towards the host.
pub open spec fn normal_decltype(t: Seq<char>) -> Seq<char> {
    if text::occurs_at_icase(t, 0, "DT_INTEGER"@) {
        if text::occurs_at_icase(t, 10, "(8)"@) {
            "dt_integer(8)"@
        } else {
            "INTEGER"@
        }
    } else if names(t, "INTEGER"@) {
        if text::occurs_at_icase(t, 7, "(8)"@) {
            "dt_integer(8)"@
        } else {
            "INTEGER"@
        }
    } else if is_long(t) {
        "dt_integer(8)"@
    } else if text::eq_icase(t, "boolean"@) || text::eq_icase(t, "TIMESTAMP"@) {
        "INTEGER"@
    } else if text::eq_icase(t, "FLOAT"@) || text::eq_icase(t, "DOUBLE"@) || text::eq_icase(
        t,
        "REAL"@,
    ) {
        "REAL"@
    } else if text::eq_icase(t, "BLOB"@) {
        "BLOB"@
    } else if text::eq_icase(t, "NUMERIC"@) {
        "NUMERIC"@
    } else {
        "TEXT"@
    }
}

fn begins(t: &[char], word: &str) -> (r: bool)
    ensures
        r == text::occurs_at_icase(t@, 0, word@),
{
    let w = text::chars_of(word);
    text::matches_at_icase(t, 0, w.as_slice())
}

fn has_name(t: &[char], word: &str) -> (r: bool)
    ensures
        r == names(t@, word@),
{
    let w = text::chars_of(word);
    if !text::matches_at_icase(t, 0, w.as_slice()) {
        return false;
    }
    let n: usize = w.len();
    if t.len() == n {
        return true;
    }
    let c: char = t[n];
    c == '(' || c == ' ' || c == '\t' || c == '\n' || c == '\u{c}' || c == '\r'
}

fn eight_at(t: &[char], at: usize) -> (r: bool)
    ensures
        r == text::occurs_at_icase(t@, at as int, "(8)"@),
{
    let w = text::chars_of("(8)");
    text::matches_at_icase(t, at, w.as_slice())
}


/// What a declared type is called towards the host; no type is text.
pub fn normalize_sqlite_decltype_impl(input: Option<&str>) -> (r: &'static str)
    ensures
        r@ == (match input {
            Some(t) => normal_decltype(t@),
            None => "TEXT"@,
        }),
{
    let s = match input {
        Some(t) => t,
        None => {
            return "TEXT";
        },
    };
    let v = text::chars_of(s);
    let t = v.as_slice();
    if begins(t, "DT_INTEGER") {
        if eight_at(t, 10) {
            return "dt_integer(8)";
        }
        return "INTEGER";
    }
    if has_name(t, "INTEGER") {
        if eight_at(t, 7) {
            return "dt_integer(8)";
        }
        return "INTEGER";
    }
    if has_name(t, "BIGINT") {
        return "dt_integer(8)";
    }
    if text::same_icase(t, "INT8") || text::same_icase(t, "INT64") || text::same_icase(t, "LONG") {
        return "dt_integer(8)";
    }
    if text::same_icase(t, "boolean") || text::same_icase(t, "TIMESTAMP") {
        return "INTEGER";
    }
    if text::same_icase(t, "FLOAT") || text::same_icase(t, "DOUBLE") || text::same_icase(
        t,
        "REAL",
    ) {
        return "REAL";
    }
    if text::same_icase(t, "BLOB") {
        return "BLOB";
    }
    if text::same_icase(t, "NUMERIC") {
        return "NUMERIC";
    }
    "TEXT"
}

/// What a server type is called towards the host.
pub open spec fn udt_decltype(t: Seq<char>) -> Seq<char> {
    if t == "int4"@ || t == "int2"@ || t == "bool"@ || t == "oid"@ || t == "timestamp"@ || t
        == "timestamptz"@ {
        "INTEGER"@
    } else if t == "int8"@ {
        "dt_integer(8)"@
    } else if t == "float4"@ || t == "float8"@ || t == "numeric"@ {
        "REAL"@
    } else if t == "bytea"@ {
        "BLOB"@
    } else {
        "TEXT"@
    }
}

/// What a server type is called towards the host; no type is text.
pub fn pg_udt_to_sqlite_decltype_impl(input: Option<&str>) -> (r: &'static str)
    ensures
        r@ == (match input {
            Some(t) => udt_decltype(t@),
            None => "TEXT"@,
        }),
{
    let t = match input {
        Some(t) => t,
        None => {
            return "TEXT";
        },
    };
    if text::str_eq(t, "int4") || text::str_eq(t, "int2") || text::str_eq(t, "bool")
        || text::str_eq(t, "oid") || text::str_eq(t, "timestamp") || text::str_eq(
        t,
        "timestamptz",
    ) {
        return "INTEGER";
    }
    if text::str_eq(t, "int8") {
        return "dt_integer(8)";
    }
    if text::str_eq(t, "float4") || text::str_eq(t, "float8") || text::str_eq(t, "numeric") {
        return "REAL";
    }
    if text::str_eq(t, "bytea") {
        return "BLOB";
    }
    "TEXT"
}

/// The names that declared types get.
pub open spec fn is_normal(t: Seq<char>) -> bool {
    ||| t == "INTEGER"@
    ||| t == "REAL"@
    ||| t == "TEXT"@
    ||| t == "BLOB"@
    ||| t == "NUMERIC"@
    ||| t == "dt_integer(8)"@
}

/// Texts that differ in the case of ASCII letters alone.
pub open spec fn same_but_case(t: Seq<char>, u: Seq<char>) -> bool {
    &&& t.len() == u.len()
    &&& forall|i: int| 0 <= i < t.len() ==> text::lower(#[trigger] t[i]) == text::lower(u[i])
}

proof fn lemma_case_one_way(t: Seq<char>, u: Seq<char>, i: int, word: Seq<char>)
    requires
        same_but_case(t, u),
        0 <= i,
    ensures
        text::occurs_at_icase(t, i, word) ==> text::occurs_at_icase(u, i, word),
        text::eq_icase(t, word) ==> text::eq_icase(u, word),
        names(t, word) ==> names(u, word),
{
    if text::occurs_at_icase(t, i, word) {
        lemma_case_at(t, u, i, word);
    }
    if names(t, word) {
        lemma_case_at(t, u, 0, word);
        if t.len() != word.len() {
            let n = word.len() as int;
            assert(text::lower(t[n]) == text::lower(u[n]));
        }
    }
    if text::eq_icase(t, word) {
        assert forall|k: int| 0 <= k < u.len() implies text::lower(#[trigger] u[k])
            == text::lower(word[k]) by {
            assert(text::lower(t[k]) == text::lower(u[k]));
        }
    }
}

proof fn lemma_case_at(t: Seq<char>, u: Seq<char>, i: int, word: Seq<char>)
    requires
        same_but_case(t, u),
        text::occurs_at_icase(t, i, word),
    ensures
        text::occurs_at_icase(u, i, word),
{
    let a = t.subrange(i, i + word.len());
    let b = u.subrange(i, i + word.len());
    assert forall|k: int| 0 <= k < b.len() implies text::lower(#[trigger] b[k]) == text::lower(
        word[k],
    ) by {
        assert(text::lower(a[k]) == text::lower(word[k]));
        assert(text::lower(t[i + k]) == text::lower(u[i + k]));
    }
}

proof fn lemma_case(t: Seq<char>, u: Seq<char>, i: int, word: Seq<char>)
    requires
        same_but_case(t, u),
        0 <= i,
    ensures
        text::occurs_at_icase(t, i, word) == text::occurs_at_icase(u, i, word),
        text::eq_icase(t, word) == text::eq_icase(u, word),
        names(t, word) == names(u, word),
{
    assert forall|k: int| 0 <= k < u.len() implies text::lower(#[trigger] u[k]) == text::lower(
        t[k],
    ) by {
        assert(text::lower(t[k]) == text::lower(u[k]));
    }
    lemma_case_one_way(t, u, i, word);
    lemma_case_one_way(u, t, i, word);
}

proof fn lemma_other_word(t: Seq<char>, word: Seq<char>)
    requires
        t.len() > 0,
        word.len() > 0,
        text::lower(t[0]) != text::lower(word[0]),
    ensures
        !text::eq_icase(t, word),
        !text::occurs_at_icase(t, 0, word),
        !names(t, word),
{
    if text::occurs_at_icase(t, 0, word) {
        let a = t.subrange(0, word.len() as int);
        assert(text::lower(a[0]) == text::lower(word[0]));
    }
}

/// Every declared type gets one of six names, and the case of its ASCII letters does not matter.
pub proof fn law_case_does_not_matter(t: Seq<char>, u: Seq<char>)
    requires
        same_but_case(t, u),
    ensures
        is_normal(normal_decltype(t)),
        normal_decltype(t) == normal_decltype(u),
{
    lemma_case(t, u, 0, "DT_INTEGER"@);
    lemma_case(t, u, 10, "(8)"@);
    lemma_case(t, u, 0, "INTEGER"@);
    lemma_case(t, u, 7, "(8)"@);
    lemma_case(t, u, 0, "BIGINT"@);
    lemma_case(t, u, 0, "INT8"@);
    lemma_case(t, u, 0, "INT64"@);
    lemma_case(t, u, 0, "LONG"@);
    lemma_case(t, u, 0, "boolean"@);
    lemma_case(t, u, 0, "TIMESTAMP"@);
    lemma_case(t, u, 0, "FLOAT"@);
    lemma_case(t, u, 0, "DOUBLE"@);
    lemma_case(t, u, 0, "REAL"@);
    lemma_case(t, u, 0, "BLOB"@);
    lemma_case(t, u, 0, "NUMERIC"@);
}

/// A name that a declared type got stays as it is.
pub proof fn law_normal_stays(t: Seq<char>)
    ensures
        normal_decltype(normal_decltype(t)) == normal_decltype(t),
{
    reveal_strlit("DT_INTEGER");
    reveal_strlit("dt_integer(8)");
    reveal_strlit("(8)");
    reveal_strlit("INTEGER");
    reveal_strlit("BIGINT");
    reveal_strlit("INT8");
    reveal_strlit("INT64");
    reveal_strlit("LONG");
    reveal_strlit("boolean");
    reveal_strlit("TIMESTAMP");
    reveal_strlit("FLOAT");
    reveal_strlit("DOUBLE");
    reveal_strlit("REAL");
    reveal_strlit("BLOB");
    reveal_strlit("NUMERIC");
    reveal_strlit("TEXT");
    law_case_does_not_matter(t, t);
    lemma_other_word("REAL"@, "LONG"@);
    lemma_other_word("REAL"@, "INT8"@);
    lemma_other_word("BLOB"@, "LONG"@);
    lemma_other_word("BLOB"@, "INT8"@);
    lemma_other_word("BLOB"@, "REAL"@);
    lemma_other_word("TEXT"@, "LONG"@);
    lemma_other_word("TEXT"@, "INT8"@);
    lemma_other_word("TEXT"@, "REAL"@);
    lemma_other_word("TEXT"@, "BLOB"@);
    lemma_other_word("NUMERIC"@, "INTEGER"@);
    lemma_other_word("NUMERIC"@, "BIGINT"@);
    lemma_other_word("NUMERIC"@, "boolean"@);
    assert(normal_decltype("dt_integer(8)"@) == "dt_integer(8)"@);
    assert(normal_decltype("INTEGER"@) == "INTEGER"@);
    assert(normal_decltype("REAL"@) == "REAL"@);
    assert(normal_decltype("BLOB"@) == "BLOB"@);
    assert(normal_decltype("NUMERIC"@) == "NUMERIC"@);
    assert(normal_decltype("TEXT"@) == "TEXT"@);
}

/// Texts that are the same but for case have the same name; the words for whole numbers of 64 bits
/// are `dt_integer(8)`, those for other whole numbers, truths and times `INTEGER`, those for numbers
/// with a fraction `REAL`, and bytes and plain numbers keep their word.
pub proof fn law_declared_words(t: Seq<char>)
    ensures
        same_but_case(t, "BIGINT"@) || same_but_case(t, "INT8"@) || same_but_case(t, "INT64"@)
            || same_but_case(t, "LONG"@) || same_but_case(t, "INTEGER(8)"@) || same_but_case(
            t,
            "DT_INTEGER(8)"@,
        ) ==> normal_decltype(t) == "dt_integer(8)"@,
        same_but_case(t, "INTEGER"@) || same_but_case(t, "BOOLEAN"@) || same_but_case(
            t,
            "TIMESTAMP"@,
        ) || same_but_case(t, "DT_INTEGER"@) ==> normal_decltype(t) == "INTEGER"@,
        same_but_case(t, "FLOAT"@) || same_but_case(t, "DOUBLE"@) || same_but_case(t, "REAL"@)
            ==> normal_decltype(t) == "REAL"@,
        same_but_case(t, "BLOB"@) ==> normal_decltype(t) == "BLOB"@,
        same_but_case(t, "NUMERIC"@) ==> normal_decltype(t) == "NUMERIC"@,
        same_but_case(t, "TEXT"@) || same_but_case(t, "VARCHAR"@) ==> normal_decltype(t)
            == "TEXT"@,
{
    lemma_long_words();
    lemma_whole_words();
    lemma_other_words();
    if same_but_case(t, "BIGINT"@) {
        law_case_does_not_matter(t, "BIGINT"@);
    }
    if same_but_case(t, "INT8"@) {
        law_case_does_not_matter(t, "INT8"@);
    }
    if same_but_case(t, "INT64"@) {
        law_case_does_not_matter(t, "INT64"@);
    }
    if same_but_case(t, "LONG"@) {
        law_case_does_not_matter(t, "LONG"@);
    }
    if same_but_case(t, "INTEGER(8)"@) {
        law_case_does_not_matter(t, "INTEGER(8)"@);
    }
    if same_but_case(t, "DT_INTEGER(8)"@) {
        law_case_does_not_matter(t, "DT_INTEGER(8)"@);
    }
    if same_but_case(t, "INTEGER"@) {
        law_case_does_not_matter(t, "INTEGER"@);
    }
    if same_but_case(t, "BOOLEAN"@) {
        law_case_does_not_matter(t, "BOOLEAN"@);
    }
    if same_but_case(t, "TIMESTAMP"@) {
        law_case_does_not_matter(t, "TIMESTAMP"@);
    }
    if same_but_case(t, "DT_INTEGER"@) {
        law_case_does_not_matter(t, "DT_INTEGER"@);
    }
    if same_but_case(t, "FLOAT"@) {
        law_case_does_not_matter(t, "FLOAT"@);
    }
    if same_but_case(t, "DOUBLE"@) {
        law_case_does_not_matter(t, "DOUBLE"@);
    }
    if same_but_case(t, "REAL"@) {
        law_case_does_not_matter(t, "REAL"@);
    }
    if same_but_case(t, "BLOB"@) {
        law_case_does_not_matter(t, "BLOB"@);
    }
    if same_but_case(t, "NUMERIC"@) {
        law_case_does_not_matter(t, "NUMERIC"@);
    }
    if same_but_case(t, "TEXT"@) {
        law_case_does_not_matter(t, "TEXT"@);
    }
    if same_but_case(t, "VARCHAR"@) {
        law_case_does_not_matter(t, "VARCHAR"@);
    }
}

proof fn reveal_words()
    ensures
        "DT_INTEGER"@.len() == 10,
        "INTEGER"@.len() == 7,
        "(8)"@.len() == 3,
        "BIGINT"@.len() == 6,
        "INT8"@.len() == 4,
        "INT64"@.len() == 5,
        "LONG"@.len() == 4,
        "boolean"@.len() == 7,
        "TIMESTAMP"@.len() == 9,
        "FLOAT"@.len() == 5,
        "DOUBLE"@.len() == 6,
        "REAL"@.len() == 4,
        "BLOB"@.len() == 4,
        "NUMERIC"@.len() == 7,
        "TEXT"@.len() == 4,
        "VARCHAR"@.len() == 7,
        "BOOLEAN"@.len() == 7,
        "INTEGER(8)"@.len() == 10,
        "DT_INTEGER(8)"@.len() == 13,
        "DT_INTEGER"@[0] == 'D',
        "INTEGER"@[0] == 'I',
        "BIGINT"@[0] == 'B',
        "INT8"@[0] == 'I',
        "INT64"@[0] == 'I',
        "LONG"@[0] == 'L',
        "boolean"@[0] == 'b',
        "TIMESTAMP"@[0] == 'T',
        "FLOAT"@[0] == 'F',
        "DOUBLE"@[0] == 'D',
        "REAL"@[0] == 'R',
        "BLOB"@[0] == 'B',
        "NUMERIC"@[0] == 'N',
        "TEXT"@[0] == 'T',
        "VARCHAR"@[0] == 'V',
        "BOOLEAN"@[0] == 'B',
        "INTEGER(8)"@[0] == 'I',
{
    reveal_strlit("DT_INTEGER");
    reveal_strlit("INTEGER");
    reveal_strlit("(8)");
    reveal_strlit("BIGINT");
    reveal_strlit("INT8");
    reveal_strlit("INT64");
    reveal_strlit("LONG");
    reveal_strlit("boolean");
    reveal_strlit("TIMESTAMP");
    reveal_strlit("FLOAT");
    reveal_strlit("DOUBLE");
    reveal_strlit("REAL");
    reveal_strlit("BLOB");
    reveal_strlit("NUMERIC");
    reveal_strlit("TEXT");
    reveal_strlit("VARCHAR");
    reveal_strlit("BOOLEAN");
    reveal_strlit("INTEGER(8)");
    reveal_strlit("DT_INTEGER(8)");
}

proof fn lemma_word_is_itself(w: Seq<char>)
    ensures
        text::eq_icase(w, w),
        text::occurs_at_icase(w, 0, w),
        names(w, w),
{
    assert(w.subrange(0, w.len() as int) =~= w);
}

proof fn lemma_long_words()
    ensures
        normal_decltype("BIGINT"@) == "dt_integer(8)"@,
        normal_decltype("INT8"@) == "dt_integer(8)"@,
        normal_decltype("INT64"@) == "dt_integer(8)"@,
        normal_decltype("LONG"@) == "dt_integer(8)"@,
        normal_decltype("INTEGER(8)"@) == "dt_integer(8)"@,
        normal_decltype("DT_INTEGER(8)"@) == "dt_integer(8)"@,
{
    reveal_words();
    lemma_word_is_itself("BIGINT"@);
    lemma_word_is_itself("INT8"@);
    lemma_word_is_itself("INT64"@);
    lemma_word_is_itself("LONG"@);
    reveal_strlit("INTEGER(8)");
    reveal_strlit("DT_INTEGER(8)");
    reveal_strlit("INTEGER");
    reveal_strlit("DT_INTEGER");
    reveal_strlit("(8)");
    let a = "INTEGER(8)"@;
    assert(a.subrange(0, 7) =~= "INTEGER"@);
    assert(a.subrange(7, 10) =~= "(8)"@);
    assert(a[7] == '(');
    lemma_other_word(a, "DT_INTEGER"@);
    let b = "DT_INTEGER(8)"@;
    assert(b.subrange(0, 10) =~= "DT_INTEGER"@);
    assert(b.subrange(10, 13) =~= "(8)"@);
}

proof fn lemma_whole_words()
    ensures
        normal_decltype("INTEGER"@) == "INTEGER"@,
        normal_decltype("BOOLEAN"@) == "INTEGER"@,
        normal_decltype("TIMESTAMP"@) == "INTEGER"@,
        normal_decltype("DT_INTEGER"@) == "INTEGER"@,
{
    reveal_words();
    lemma_word_is_itself("INTEGER"@);
    lemma_word_is_itself("TIMESTAMP"@);
    lemma_word_is_itself("DT_INTEGER"@);
    lemma_other_word("TIMESTAMP"@, "INTEGER"@);
    lemma_other_word("TIMESTAMP"@, "BIGINT"@);
    lemma_other_word("BOOLEAN"@, "INTEGER"@);
    reveal_strlit("BOOLEAN");
    reveal_strlit("boolean");
    reveal_strlit("BIGINT");
    assert(text::eq_icase("BOOLEAN"@, "boolean"@));
    assert(!names("BOOLEAN"@, "BIGINT"@)) by {
        let a = "BOOLEAN"@.subrange(0, 6);
        if text::occurs_at_icase("BOOLEAN"@, 0, "BIGINT"@) {
            assert(text::lower(a[1]) == text::lower("BIGINT"@[1]));
            assert("BOOLEAN"@[1] == 'O');
            assert("BIGINT"@[1] == 'I');
        }
    }
}

proof fn lemma_other_words()
    ensures
        normal_decltype("FLOAT"@) == "REAL"@,
        normal_decltype("DOUBLE"@) == "REAL"@,
        normal_decltype("REAL"@) == "REAL"@,
        normal_decltype("BLOB"@) == "BLOB"@,
        normal_decltype("NUMERIC"@) == "NUMERIC"@,
        normal_decltype("TEXT"@) == "TEXT"@,
        normal_decltype("VARCHAR"@) == "TEXT"@,
{
    reveal_words();
    lemma_word_is_itself("FLOAT"@);
    lemma_word_is_itself("DOUBLE"@);
    lemma_word_is_itself("REAL"@);
    lemma_word_is_itself("BLOB"@);
    lemma_word_is_itself("NUMERIC"@);
    lemma_other_word("FLOAT"@, "INT64"@);
    lemma_other_word("DOUBLE"@, "BIGINT"@);
    lemma_other_word("REAL"@, "INT8"@);
    lemma_other_word("REAL"@, "LONG"@);
    lemma_other_word("BLOB"@, "INT8"@);
    lemma_other_word("BLOB"@, "LONG"@);
    lemma_other_word("BLOB"@, "REAL"@);
    lemma_other_word("NUMERIC"@, "INTEGER"@);
    lemma_other_word("NUMERIC"@, "BIGINT"@);
    lemma_other_word("NUMERIC"@, "boolean"@);
    lemma_other_word("TEXT"@, "INT8"@);
    lemma_other_word("TEXT"@, "LONG"@);
    lemma_other_word("TEXT"@, "REAL"@);
    lemma_other_word("TEXT"@, "BLOB"@);
    lemma_other_word("VARCHAR"@, "INTEGER"@);
    lemma_other_word("VARCHAR"@, "BIGINT"@);
    lemma_other_word("VARCHAR"@, "boolean"@);
    lemma_other_word("VARCHAR"@, "NUMERIC"@);
}

/// The server's words for types: whole numbers, truths and times are `INTEGER`, `int8` alone is
/// `dt_integer(8)`, numbers with a fraction are `REAL`, bytes are `BLOB`, and nothing else is any of
/// these.
pub proof fn law_server_words(t: Seq<char>)
    ensures
        udt_decltype(t) == "dt_integer(8)"@ <==> t == "int8"@,
        udt_decltype(t) == "BLOB"@ <==> t == "bytea"@,
        udt_decltype(t) == "REAL"@ <==> t == "float4"@ || t == "float8"@ || t == "numeric"@,
        udt_decltype(t) == "INTEGER"@ <==> t == "int4"@ || t == "int2"@ || t == "bool"@ || t
            == "oid"@ || t == "timestamp"@ || t == "timestamptz"@,
        is_normal(udt_decltype(t)),
{
    reveal_words();
    reveal_strlit("dt_integer(8)");
    reveal_strlit("int8");
    reveal_strlit("int4");
    reveal_strlit("int2");
    reveal_strlit("bool");
    reveal_strlit("oid");
    reveal_strlit("timestamp");
    reveal_strlit("timestamptz");
    reveal_strlit("float4");
    reveal_strlit("float8");
    reveal_strlit("numeric");
    reveal_strlit("bytea");
    assert("dt_integer(8)"@.len() == 13);
    assert("int8"@.len() == 4 && "int4"@.len() == 4 && "int2"@.len() == 4 && "bool"@.len() == 4);
    assert("oid"@.len() == 3 && "timestamp"@.len() == 9 && "timestamptz"@.len() == 11);
    assert("float4"@.len() == 6 && "float8"@.len() == 6 && "numeric"@.len() == 7);
    assert("bytea"@.len() == 5);
    assert("int8"@[3] == '8' && "int4"@[3] == '4' && "int2"@[3] == '2' && "bool"@[3] == 'l');
}

} // verus!
