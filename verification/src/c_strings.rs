//! The questions of the other modules, put by callers whose texts are bytes and may be missing.

use crate::decltype;
use crate::inserts;
use crate::literals;
use crate::params;
use crate::pg_statement;
use crate::predicates;
use crate::text;
use vstd::prelude::*;
use vstd::string::*;
use vstd::utf8::*;

verus! {

/// The text that bytes hold, if there are bytes and they are text.
pub open spec fn text_of(b: Option<&[u8]>) -> Option<Seq<char>> {
    match b {
        Some(v) => if valid_utf8(v@) {
            Some(decode_utf8(v@))
        } else {
            None
        },
        None => None,
    }
}

/// The text that bytes hold, if there are bytes and they are text.
pub fn cstr_to_str<'a>(b: Option<&'a [u8]>) -> (r: Option<&'a str>)
    ensures
        match r {
            Some(s) => text_of(b) == Some(s@) && s.spec_bytes() == b->0@,
            None => text_of(b) is None,
        },
{
    match b {
        Some(v) => match std::str::from_utf8(v) {
            Ok(s) => {
                proof {
                    encode_utf8_decode_utf8(s@);
                }
                Some(s)
            },
            Err(_) => None,
        },
        None => None,
    }
}

fn flag(b: bool) -> (r: i32)
    ensures
        r == one_if(b),
{
    if b {
        1
    } else {
        0
    }
}

/// One for yes and zero for no.
pub open spec fn one_if(b: bool) -> i32 {
    if b {
        1
    } else {
        0
    }
}

/// 1 for the path of the library's main database.
pub fn rust_is_library_db_path(path: Option<&[u8]>) -> (r: i32)
    ensures
        r == one_if(
            text_of(path) matches Some(p) && text::has_suffix(
                p,
                "com.plexapp.plugins.library.db"@,
            ),
        ),
{
    match cstr_to_str(path) {
        Some(p) => flag(predicates::is_library_db_path_impl(p)),
        None => 0,
    }
}

/// 1 for the path of one of the library's two databases.
pub fn rust_is_library_or_blobs_db_path(path: Option<&[u8]>) -> (r: i32)
    ensures
        r == one_if(
            text_of(path) matches Some(p) && (text::occurs_icase(
                p,
                "com.plexapp.plugins.library.db"@,
            ) || text::occurs_icase(p, "com.plexapp.plugins.library.blobs.db"@)),
        ),
{
    match cstr_to_str(path) {
        Some(p) => flag(predicates::is_library_or_blobs_db_path_impl(p)),
        None => 0,
    }
}

/// 1 for the path of the library's database of large objects.
pub fn rust_is_blobs_db_path(path: Option<&[u8]>) -> (r: i32)
    ensures
        r == one_if(
            text_of(path) matches Some(p) && text::occurs_icase(
                p,
                "com.plexapp.plugins.library.blobs.db"@,
            ),
        ),
{
    match cstr_to_str(path) {
        Some(p) => flag(predicates::is_blobs_db_path_impl(p)),
        None => 0,
    }
}

/// 1 for bytes among which is one that text does not hold.
pub fn rust_contains_binary_bytes(data: Option<&[u8]>) -> (r: i32)
    ensures
        r == one_if(data matches Some(d) && params::holds_binary(d@)),
{
    match data {
        Some(d) => flag(predicates::contains_binary_bytes_impl(d)),
        None => 0,
    }
}

/// Bytes as the server reads them in a text; nothing for no bytes.
pub fn rust_bytes_to_pg_hex(data: Option<&[u8]>) -> (r: Vec<u8>)
    ensures
        r@ == (match data {
            Some(d) => params::hex_form(d@),
            None => Seq::empty(),
        }),
{
    match data {
        Some(d) => params::bytes_to_pg_hex(d),
        None => Vec::new(),
    }
}

/// 1 for a query for the items that are related to one.
pub fn rust_is_related_items_query(pg_sql: Option<&[u8]>) -> (r: i32)
    ensures
        r == one_if(text_of(pg_sql) matches Some(s) && predicates::asks_for_related(s)),
{
    match cstr_to_str(pg_sql) {
        Some(s) => flag(predicates::is_related_items_query_impl(s)),
        None => 0,
    }
}

/// 1 where the type of a collection is not to be seen in a query's rows.
pub fn rust_should_mask_collection_metadata_type(
    pg_sql: Option<&[u8]>,
    col_name: Option<&[u8]>,
    raw_val: i64,
) -> (r: i32)
    ensures
        r == one_if(
            match (text_of(pg_sql), text_of(col_name)) {
                (Some(s), Some(c)) => predicates::is_masked(s, c, raw_val as int),
                _ => false,
            },
        ),
{
    match (cstr_to_str(pg_sql), cstr_to_str(col_name)) {
        (Some(s), Some(c)) => flag(
            predicates::should_mask_collection_metadata_type_impl(s, c, raw_val),
        ),
        _ => 0,
    }
}

/// The place of a column in an insertion; -1 if it has none.
pub fn rust_find_insert_column_index(sql: Option<&[u8]>, column_name: Option<&[u8]>) -> (r: i32)
    ensures
        r == (match (text_of(sql), text_of(column_name)) {
            (Some(s), Some(c)) => match inserts::column_index(s, c) {
                Some(i) => (i as usize) as i32,
                None => -1i32,
            },
            _ => -1i32,
        }),
{
    match (cstr_to_str(sql), cstr_to_str(column_name)) {
        (Some(s), Some(c)) => inserts::find_insert_column_index_impl(s, c),
        _ => -1,
    }
}

/// 1 for an insertion of an item without content.
pub fn rust_is_junk_metadata_insert(sql: Option<&[u8]>) -> (r: i32)
    ensures
        r == one_if(text_of(sql) matches Some(s) && inserts::is_junk(s)),
{
    match cstr_to_str(sql) {
        Some(s) => flag(inserts::is_junk_metadata_insert_impl(s)),
        None => 0,
    }
}

/// The declared type in SQLite's words.
pub fn rust_normalize_sqlite_decltype(decl: Option<&[u8]>) -> (r: &'static str)
    ensures
        r@ == (match text_of(decl) {
            Some(t) => decltype::normal_decltype(t),
            None => "TEXT"@,
        }),
{
    decltype::normalize_sqlite_decltype_impl(cstr_to_str(decl))
}

/// The server's type in SQLite's words.
pub fn rust_pg_udt_to_sqlite_decltype(udt: Option<&[u8]>) -> (r: &'static str)
    ensures
        r@ == (match text_of(udt) {
            Some(t) => decltype::udt_decltype(t),
            None => "TEXT"@,
        }),
{
    decltype::pg_udt_to_sqlite_decltype_impl(cstr_to_str(udt))
}

/// The insertion of settings with what to do about those that are there; nothing for another
/// statement.
pub fn rust_convert_metadata_settings_upsert(sql: Option<&[u8]>) -> (r: Option<String>)
    ensures
        match text_of(sql) {
            Some(s) => pg_statement::is_conversion(s, pg_statement::opt_text(r)),
            None => r is None,
        },
{
    match cstr_to_str(sql) {
        Some(s) => pg_statement::convert_metadata_settings_upsert(s),
        None => None,
    }
}

/// The number of the item that an insertion into the play queue is about; zero if there is none.
pub fn rust_extract_metadata_id(sql: Option<&[u8]>) -> (r: i64)
    ensures
        r == (match text_of(sql) {
            Some(s) => pg_statement::queued_item(s, text::lowercase(s)),
            None => 0,
        }),
        text_of(sql) matches Some(s) ==> (text::all_ascii(s) ==> r == pg_statement::queued_item(
            s,
            text::lowered(s),
        )),
{
    match cstr_to_str(sql) {
        Some(s) => pg_statement::extract_metadata_id(s),
        None => 0,
    }
}

/// The statement with its numbers replaced by parameters, and the numbers.
pub fn rust_normalize_sql_literals(sql: Option<&[u8]>) -> (r: Option<(String, Vec<String>)>)
    ensures
        match sql {
            Some(s) => {
                let n = literals::normalized(
                    s@,
                    0,
                    literals::Quotes { single: false, double: false },
                    0,
                );
                &&& r is Some == (valid_utf8(s@) && literals::has_condition(s@) && n.1.len() > 0)
                &&& r matches Some((text, numbers)) ==> text@ == n.0 && numbers@.map_values(
                    |p: String| p@,
                ) == n.1
            },
            None => r is None,
        },
{
    match cstr_to_str(sql) {
        Some(s) => literals::normalize_sql_literals_impl(s),
        None => None,
    }
}

} // verus!
