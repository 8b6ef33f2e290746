//! Questions about paths, bytes and statements, and two ways to write bytes down.

use crate::bytes;
use crate::text;
use std::str::Utf8Error;
use vstd::prelude::*;
use vstd::string::*;
use vstd::utf8::*;

verus! {

/// The path of the library's main database?
pub fn is_library_db_path_impl(path: &str) -> (r: bool)
    ensures
        r == text::has_suffix(path@, "com.plexapp.plugins.library.db"@),
{
    text::ends_with(path, "com.plexapp.plugins.library.db")
}

/// The path of one of the library's two databases?
pub fn is_library_or_blobs_db_path_impl(path: &str) -> (r: bool)
    ensures
        r == (text::occurs_icase(path@, "com.plexapp.plugins.library.db"@) || text::occurs_icase(
            path@,
            "com.plexapp.plugins.library.blobs.db"@,
        )),
{
    text::contains_icase(path, "com.plexapp.plugins.library.db") || text::contains_icase(
        path,
        "com.plexapp.plugins.library.blobs.db",
    )
}

/// The path of the library's database of large objects?
pub fn is_blobs_db_path_impl(path: &str) -> (r: bool)
    ensures
        r == text::occurs_icase(path@, "com.plexapp.plugins.library.blobs.db"@),
{
    text::contains_icase(path, "com.plexapp.plugins.library.blobs.db")
}

/// A byte that text does not hold: a control character other than tab, line feed and carriage
/// return, or one that UTF-8 never uses.
pub open spec fn is_binary(b: u8) -> bool {
    ||| b < 0x20 && b != 0x09 && b != 0x0A && b != 0x0D
    ||| b == 0x7F
    ||| b == 0xC0
    ||| b == 0xC1
    ||| b >= 0xF5
}

/// Do the bytes hold one that text does not?
pub fn contains_binary_bytes_impl(data: &[u8]) -> (r: bool)
    ensures
        r == exists|i: int| 0 <= i < data@.len() && is_binary(#[trigger] data@[i]),
{
    for i in 0..data.len()
        invariant
            forall|k: int| 0 <= k < i ==> !is_binary(#[trigger] data@[k]),
    {
        let c: u8 = data[i];
        if (c < 0x20 && c != 0x09 && c != 0x0A && c != 0x0D) || c == 0x7F || c == 0xC0 || c == 0xC1
            || c >= 0xF5 {
            assert(is_binary(data@[i as int]));
            return true;
        }
    }
    false
}

/// A hexadecimal digit, with small letters.
pub open spec fn hex_digit(n: int) -> char {
    if n < 10 {
        (48 + n) as char
    } else {
        (87 + n) as char
    }
}

/// Each byte as two hexadecimal digits.
pub open spec fn hex(data: Seq<u8>) -> Seq<char>
    decreases data.len(),
{
    if data.len() == 0 {
        Seq::empty()
    } else {
        hex(data.drop_last()).push(hex_digit(data.last() as int / 16)).push(
            hex_digit(data.last() as int % 16),
        )
    }
}

fn digit(n: u8) -> (r: char)
    requires
        n < 16,
    ensures
        r == hex_digit(n as int),
{
    if n < 10 {
        (48 + n) as char
    } else {
        (87 + n) as char
    }
}

/// The bytes as the server reads them in a text: `\x` and two hexadecimal digits for each. No bytes
/// are the empty text.
pub fn bytes_to_pg_hex_impl(data: &[u8]) -> (r: String)
    ensures
        r@ == (if data@.len() == 0 {
            Seq::<char>::empty()
        } else {
            seq!['\\', 'x'] + hex(data@)
        }),
{
    let mut out = String::new();
    if data.len() == 0 {
        return out;
    }
    out.push('\\');
    out.push('x');
    assert(out@ == seq!['\\', 'x']);
    assert(data@.take(0) == Seq::<u8>::empty());
    for i in 0..data.len()
        invariant
            out@ == seq!['\\', 'x'] + hex(data@.take(i as int)),
    {
        proof {
            assert(data@.take(i + 1).drop_last() == data@.take(i as int));
        }
        out.push(digit(data[i] / 16));
        out.push(digit(data[i] % 16));
    }
    assert(data@.take(data@.len() as int) == data@);
    out
}

/// Two byte strings that are written the same are the same.
pub proof fn law_hex_is_unambiguous(a: Seq<u8>, b: Seq<u8>)
    requires
        hex(a) == hex(b),
    ensures
        a == b,
    decreases a.len(),
{
    lemma_hex_len(a);
    lemma_hex_len(b);
    if a.len() > 0 {
        let x = hex(a.drop_last()).push(hex_digit(a.last() as int / 16));
        let y = hex(b.drop_last()).push(hex_digit(b.last() as int / 16));
        assert(hex(a).drop_last() == x);
        assert(hex(b).drop_last() == y);
        assert(x.drop_last() == hex(a.drop_last()));
        assert(y.drop_last() == hex(b.drop_last()));
        assert(hex(a).last() == hex_digit(a.last() as int % 16));
        assert(hex(b).last() == hex_digit(b.last() as int % 16));
        assert(x.last() == y.last());
        law_hex_is_unambiguous(a.drop_last(), b.drop_last());
        assert(a.last() == b.last());
        assert(a == a.drop_last().push(a.last()));
        assert(b == b.drop_last().push(b.last()));
    } else {
        assert(a == b);
    }
}

proof fn lemma_hex_len(a: Seq<u8>)
    ensures
        hex(a).len() == 2 * a.len(),
    decreases a.len(),
{
    if a.len() > 0 {
        lemma_hex_len(a.drop_last());
    }
}

/// A query for related items?
pub open spec fn asks_for_related(pg_sql: Seq<char>) -> bool {
    text::occurs(pg_sql, "taggings as related"@)
}

/// A query for related items?
pub fn is_related_items_query_impl(pg_sql: &str) -> (r: bool)
    ensures
        r == asks_for_related(pg_sql@),
{
    text::contains(pg_sql, "taggings as related")
}

/// Has the type of a collection to be hidden in a query for related items?
pub open spec fn is_masked(pg_sql: Seq<char>, col_name: Seq<char>, raw_val: int) -> bool {
    raw_val == 18 && text::occurs(col_name, "metadata_type"@) && asks_for_related(pg_sql)
}

/// Has the type of a collection to be hidden in a query for related items?
pub fn should_mask_collection_metadata_type_impl(pg_sql: &str, col_name: &str, raw_val: i64) -> (r:
    bool)
    ensures
        r == is_masked(pg_sql@, col_name@, raw_val as int),
{
    raw_val == 18 && text::contains(col_name, "metadata_type") && is_related_items_query_impl(
        pg_sql,
    )
}

/// The server's code for a prepared statement that does not exist?
pub fn is_stale_sqlstate(sqlstate: &str) -> (r: bool)
    ensures
        r == (sqlstate@ == "26000"@),
{
    text::str_eq(sqlstate, "26000")
}

/// The server's code for a prepared statement that exists already?
pub fn is_duplicate_sqlstate(sqlstate: &str) -> (r: bool)
    ensures
        r == (sqlstate@ == "42P05"@),
{
    text::str_eq(sqlstate, "42P05")
}

/// 1 if this is the code for a prepared statement that does not exist.
pub fn rust_is_stale_sqlstate(sqlstate: Option<&str>) -> (r: i32)
    ensures
        r == (if sqlstate is Some && sqlstate->0@ == "26000"@ {
            1i32
        } else {
            0i32
        }),
{
    match sqlstate {
        Some(s) => if is_stale_sqlstate(s) {
            1
        } else {
            0
        },
        None => 0,
    }
}

/// 1 if this is the code for a prepared statement that exists already.
pub fn rust_is_duplicate_sqlstate(sqlstate: Option<&str>) -> (r: i32)
    ensures
        r == (if sqlstate is Some && sqlstate->0@ == "42P05"@ {
            1i32
        } else {
            0i32
        }),
{
    match sqlstate {
        Some(s) => if is_duplicate_sqlstate(s) {
            1
        } else {
            0
        },
        None => 0,
    }
}

/// `std::str::Utf8Error`, which tells where bytes stop being UTF-8.
#[verifier::external_type_specification]
#[verifier::external_body]
pub struct ExUtf8Error(Utf8Error);

/// `std::str::from_utf8`: succeeds exactly on valid UTF-8, and then gives the string with these
/// bytes.
pub assume_specification<'a>[ std::str::from_utf8 ](v: &'a [u8]) -> (r: Result<&'a str, Utf8Error>)
    ensures
        r is Ok == valid_utf8(v@),
        r is Ok ==> r->Ok_0.spec_bytes() == v@,
;

/// 1 if the bytes are valid UTF-8; there being none at all is not.
pub fn rust_validate_utf8(bytes: Option<&[u8]>) -> (r: i32)
    ensures
        r == (if bytes is Some && valid_utf8(bytes->0@) {
            1i32
        } else {
            0i32
        }),
{
    match bytes {
        Some(b) => match std::str::from_utf8(b) {
            Ok(_) => 1,
            Err(_) => 0,
        },
        None => 0,
    }
}

/// What a line says, without the blanks around it; nothing if it is blank.
pub fn trim_first_line(line: &str) -> (r: Option<String>)
    ensures
        r is Some == (text::trimmed(line@).len() > 0),
        r matches Some(s) ==> s@ == text::trimmed(line@),
{
    let v = text::trim(&text::chars_of(line));
    if v.len() == 0 {
        None
    } else {
        Some(text::string_of(&v))
    }
}

/// What a buffer of `out_len` bytes gets: the text as far as it fits, and a zero behind it. A buffer
/// without room gets nothing.
pub fn write_buf(out_len: usize, value: Option<&str>) -> (r: Vec<u8>)
    ensures
        r@ == (if out_len == 0 {
            Seq::<u8>::empty()
        } else {
            match value {
                Some(s) => if s.spec_bytes().len() < out_len {
                    s.spec_bytes().push(0)
                } else {
                    s.spec_bytes().take(out_len - 1).push(0)
                },
                None => seq![0u8],
            }
        }),
{
    let mut out: Vec<u8> = Vec::new();
    if out_len == 0 {
        return out;
    }
    if let Some(s) = value {
        bytes::push_capped(&mut out, out_len - 1, s.as_bytes());
        proof {
            let b = s.spec_bytes();
            assert(Seq::<u8>::empty() + b == b);
            assert(out_len - 1 == 0 && b.len() >= out_len ==> b.take(0) == Seq::<u8>::empty());
            assert(b.len() >= out_len ==> Seq::<u8>::empty() + b.take(out_len - 1) == b.take(
                out_len - 1,
            ));
        }
    }
    out.push(0);
    out
}

/// Is tracing of failed casts on? An own setting decides, anything but `0` turning it on; without
/// one it is on where only errors are logged.
pub fn badcast_enabled(own: Option<&str>, log_level: Option<&str>) -> (r: i32)
    ensures
        r == (match own {
            Some(v) => if v@ != "0"@ {
                1i32
            } else {
                0i32
            },
            None => match log_level {
                Some(l) => if text::eq_icase(l@, "ERROR"@) {
                    1i32
                } else {
                    0i32
                },
                None => 0i32,
            },
        }),
{
    match own {
        Some(v) => if !text::str_eq(v, "0") {
            1
        } else {
            0
        },
        None => match log_level {
            Some(l) => if text::str_eq_icase(l, "ERROR") {
                1
            } else {
                0
            },
            None => 0,
        },
    }
}

/// Prepared statements are always traced.
pub fn rust_trace_prepare_sql_ok() -> (r: i32)
    ensures
        r == 1,
{
    1
}

/// Each byte is written in two digits at its place, the higher first, with small letters.
pub proof fn law_digits_of_bytes(data: Seq<u8>, i: int)
    requires
        0 <= i < data.len(),
    ensures
        hex(data).len() == 2 * data.len(),
        ({
            let high = hex(data)[2 * i] as int;
            let low = hex(data)[2 * i + 1] as int;
            let value = |c: int|
                if 0x30 <= c <= 0x39 {
                    c - 0x30
                } else {
                    c - 0x61 + 10
                };
            &&& (0x30 <= high <= 0x39 || 0x61 <= high <= 0x66)
            &&& (0x30 <= low <= 0x39 || 0x61 <= low <= 0x66)
            &&& value(high) * 16 + value(low) == data[i]
        }),
    decreases data.len(),
{
    lemma_hex_len(data);
    lemma_hex_len(data.drop_last());
    if i < data.len() - 1 {
        law_digits_of_bytes(data.drop_last(), i);
        assert(data.drop_last()[i] == data[i]);
        assert(hex(data)[2 * i] == hex(data.drop_last())[2 * i]);
        assert(hex(data)[2 * i + 1] == hex(data.drop_last())[2 * i + 1]);
    } else {
        assert(hex(data)[2 * i] == hex_digit(data[i] as int / 16));
        assert(hex(data)[2 * i + 1] == hex_digit(data[i] as int % 16));
    }
}

/// Only the type of a collection is hidden, only in the column for types, and only in a query for
/// related items.
pub proof fn law_only_collections_are_hidden(pg_sql: Seq<char>, col_name: Seq<char>, raw_val: int)
    ensures
        is_masked(pg_sql, col_name, raw_val) <==> raw_val == 18 && (exists|i: int|
            #[trigger] text::occurs_at(col_name, i, "metadata_type"@)) && (exists|j: int|
            #[trigger] text::occurs_at(pg_sql, j, "taggings as related"@)),
{
}

/// A byte is one that text does not hold exactly if it is a control character other than tab, line
/// feed and carriage return, or one that UTF-8 never uses.
pub proof fn law_bytes_of_text(b: u8)
    ensures
        is_binary(b) <==> !(b == '\t' as u8 || b == '\n' as u8 || b == '\r' as u8 || ' ' as u8 <= b
            <= '~' as u8 || 0x80 <= b <= 0xBF || 0xC2 <= b <= 0xF4),
{
}

} // verus!
