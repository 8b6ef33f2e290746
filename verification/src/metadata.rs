//! Questions about connections and statements that are answered without SQLite, or handed on to it.

use crate::bytes;
use crate::params;
use crate::params::Params;
use crate::prepare_text;
use crate::search;
use vstd::prelude::*;
use vstd::string::*;

verus! {

/// SQLite's code for a failure without one of its own.
pub const SQLITE_ERROR: i32 = 1;

/// The server's answer holds rows.
pub const PGRES_TUPLES_OK: i32 = 2;

/// A statement that only the server runs.
pub const SERVER_STATEMENT: i32 = 2;

/// Enters a call, unless one is under way already.
pub fn try_enter(in_call: &mut bool) -> (r: bool)
    ensures
        *final(in_call),
        r == !*old(in_call),
{
    if *in_call {
        return false;
    }
    *in_call = true;
    true
}

/// What is known of a connection.
pub struct ConnInfo {
    pub is_pg_active: bool,
    /// Is there a connection to the server?
    pub connected: bool,
    pub last_changes: i32,
    pub last_insert_rowid: i64,
    pub last_error_code: i32,
    pub last_error: Vec<u8>,
}

/// How many rows the last statement changed. `entered` says whether no other call was under way.
pub fn rust_my_sqlite3_changes(entered: bool, conn: Option<&ConnInfo>) -> (r: i32)
    ensures
        r == (match conn {
            Some(c) => if entered && c.is_pg_active {
                c.last_changes as int
            } else {
                0
            },
            None => 0,
        }),
{
    match conn {
        Some(c) => if entered && c.is_pg_active {
            c.last_changes
        } else {
            0
        },
        None => 0,
    }
}

/// How many rows the last statement changed.
pub fn rust_my_sqlite3_changes64(entered: bool, conn: Option<&ConnInfo>) -> (r: i64)
    ensures
        r == (match conn {
            Some(c) => if entered && c.is_pg_active {
                c.last_changes as int
            } else {
                0
            },
            None => 0,
        }),
{
    rust_my_sqlite3_changes(entered, conn) as i64
}

/// The number of the last inserted row, or that the server is to be asked for it.
pub enum RowId {
    Known(i64),
    AskServer,
}

/// Where the number of the last inserted row comes from: from the connection, else from what any
/// connection inserted last, else from the server.
pub open spec fn rowid_source(entered: bool, conn: Option<ConnInfo>, global: i64) -> RowId {
    if !entered {
        RowId::Known(0)
    } else {
        match conn {
            None => RowId::Known(
                if global > 0 {
                    global
                } else {
                    0
                },
            ),
            Some(c) => if c.last_insert_rowid > 0 {
                RowId::Known(c.last_insert_rowid)
            } else if global > 0 {
                RowId::Known(global)
            } else if c.is_pg_active && c.connected {
                RowId::AskServer
            } else {
                RowId::Known(0)
            },
        }
    }
}

/// What may stand for a connection in a specification.
pub open spec fn conn_of(conn: Option<&ConnInfo>) -> Option<ConnInfo> {
    match conn {
        Some(c) => Some(*c),
        None => None,
    }
}

/// The number of the last inserted row, as far as it is known here.
pub fn rust_my_sqlite3_last_insert_rowid(
    entered: bool,
    conn: Option<&ConnInfo>,
    global: i64,
) -> (r: RowId)
    ensures
        r == rowid_source(entered, conn_of(conn), global),
{
    if !entered {
        return RowId::Known(0);
    }
    match conn {
        None => {
            if global > 0 {
                RowId::Known(global)
            } else {
                RowId::Known(0)
            }
        },
        Some(c) => {
            if c.last_insert_rowid > 0 {
                RowId::Known(c.last_insert_rowid)
            } else if global > 0 {
                RowId::Known(global)
            } else if c.is_pg_active && c.connected {
                RowId::AskServer
            } else {
                RowId::Known(0)
            }
        },
    }
}

/// The server's answer to the question for its last number.
pub struct LastVal {
    pub status: i32,
    pub rows: i32,
    /// The number in the first row; zero where there is none.
    pub value: i64,
}

/// The number of the last inserted row, from the server's answer. Only a positive number is one.
pub fn rowid_from_server(reply: Option<LastVal>) -> (r: i64)
    ensures
        r == (match reply {
            Some(v) => if v.status == PGRES_TUPLES_OK && v.rows > 0 && v.value > 0 {
                v.value as int
            } else {
                0
            },
            None => 0,
        }),
{
    match reply {
        Some(v) => if v.status == PGRES_TUPLES_OK && v.rows > 0 && v.value > 0 {
            v.value
        } else {
            0
        },
        None => 0,
    }
}

/// Whatever the connection and the server say, the number of a row is not negative.
pub proof fn law_rowid_is_not_negative(entered: bool, conn: Option<ConnInfo>, global: i64)
    ensures
        rowid_source(entered, conn, global) matches RowId::Known(n) ==> n >= 0,
{
}

/// Where an error's text or code comes from.
pub enum ErrorSource {
    /// From SQLite's own function, by way of the shim.
    Shim,
    /// From the error that the connection keeps.
    Kept,
    /// There is no error.
    Clean,
    /// From SQLite's own function.
    Local,
    /// From nowhere.
    Unknown,
}

/// SQLite's functions that there are.
pub struct Functions {
    pub shim: bool,
    pub local: bool,
}

fn fall_back(fns: &Functions) -> (r: ErrorSource)
    ensures
        r == fallback(*fns),
{
    if fns.shim {
        ErrorSource::Shim
    } else if fns.local {
        ErrorSource::Local
    } else {
        ErrorSource::Unknown
    }
}

/// Where an error comes from that no connection keeps.
pub open spec fn fallback(fns: Functions) -> ErrorSource {
    if fns.shim {
        ErrorSource::Shim
    } else if fns.local {
        ErrorSource::Local
    } else {
        ErrorSource::Unknown
    }
}

/// Where the text of the last error comes from.
pub fn rust_my_sqlite3_errmsg(in_call: bool, fns: &Functions, conn: Option<&ConnInfo>) -> (r:
    ErrorSource)
    ensures
        r == (if in_call && fns.shim {
            ErrorSource::Shim
        } else {
            match conn {
                Some(c) => if c.last_error_code != 0 && c.last_error@.len() > 0 {
                    ErrorSource::Kept
                } else {
                    ErrorSource::Clean
                },
                None => fallback(*fns),
            }
        }),
{
    if in_call && fns.shim {
        return ErrorSource::Shim;
    }
    match conn {
        Some(c) => if c.last_error_code != 0 && c.last_error.len() > 0 {
            ErrorSource::Kept
        } else {
            ErrorSource::Clean
        },
        None => fall_back(fns),
    }
}

/// Where the code of the last error comes from. A connection that keeps none answers with zero.
pub fn rust_my_sqlite3_errcode(in_call: bool, fns: &Functions, conn: Option<&ConnInfo>) -> (r:
    ErrorSource)
    ensures
        r == (if in_call && fns.shim {
            ErrorSource::Shim
        } else if conn is Some {
            ErrorSource::Kept
        } else {
            fallback(*fns)
        }),
{
    if in_call && fns.shim {
        return ErrorSource::Shim;
    }
    match conn {
        Some(_) => ErrorSource::Kept,
        None => fall_back(fns),
    }
}

/// The extended code of the last error: the connection's, or else SQLite's, where `local` is what
/// its function says.
pub fn rust_my_sqlite3_extended_errcode(conn: Option<&ConnInfo>, local: Option<i32>) -> (r: i32)
    ensures
        r == (match (conn, local) {
            (Some(c), _) => c.last_error_code,
            (None, Some(code)) => code,
            (None, None) => SQLITE_ERROR,
        }),
{
    match conn {
        Some(c) => c.last_error_code,
        None => match local {
            Some(code) => code,
            None => SQLITE_ERROR,
        },
    }
}

/// Does the server answer a query for a whole table? SQLite does where there is no query, where the
/// connection is not the server's, and for statements that do more than read.
pub fn rust_my_sqlite3_get_table(has_sql: bool, conn: Option<&ConnInfo>, reads: bool) -> (r: bool)
    ensures
        r == (has_sql && reads && (conn matches Some(c) && c.is_pg_active && c.connected)),
{
    match conn {
        Some(c) => has_sql && c.is_pg_active && c.connected && reads,
        None => false,
    }
}

/// Who answers a query for a whole table, and how.
#[derive(PartialEq, Eq, Structural, Clone, Copy, Debug)]
pub enum TableAnswer {
    /// The server: so many rows and columns, no message and the code for success.
    Server { rows: i32, columns: i32 },
    /// SQLite, with its own code.
    Local { code: i32 },
    /// Nobody: SQLite cannot be reached.
    Fail { code: i32 },
}

/// What the server made of a query for a whole table.
pub struct TableRun {
    /// The query could be translated.
    pub translated: bool,
    /// The state of the server's result.
    pub status: i32,
    /// The rows and columns of the table that was built of it, if it could be.
    pub built: Option<(i32, i32)>,
}

/// The table that the server's run came to, if it came to one.
pub open spec fn server_table(run: Option<TableRun>) -> Option<(i32, i32)> {
    match run {
        Some(t) => if t.translated && t.status == PGRES_TUPLES_OK {
            t.built
        } else {
            None
        },
        None => None,
    }
}

/// Has the server answered? Where it was not asked, or translating, running or building the table
/// failed, SQLite has to be.
pub fn table_of(run: Option<&TableRun>) -> (r: Option<(i32, i32)>)
    ensures
        r == server_table(
            match run {
                Some(t) => Some(*t),
                None => None,
            },
        ),
{
    match run {
        Some(t) => if t.translated && t.status == PGRES_TUPLES_OK {
            t.built
        } else {
            None
        },
        None => None,
    }
}

/// The answer to a query for a whole table, given the server's table, if there is one, and
/// otherwise SQLite's code, if it can be reached.
pub fn table_answer(table: Option<(i32, i32)>, local: Option<i32>) -> (r: TableAnswer)
    ensures
        r == (match (table, local) {
            (Some((rows, columns)), _) => TableAnswer::Server { rows, columns },
            (None, Some(code)) => TableAnswer::Local { code },
            (None, None) => TableAnswer::Fail { code: SQLITE_ERROR },
        }),
{
    match table {
        Some((rows, columns)) => TableAnswer::Server { rows, columns },
        None => match local {
            Some(code) => TableAnswer::Local { code },
            None => TableAnswer::Fail { code: SQLITE_ERROR },
        },
    }
}

/// Is a new collation one that SQLite is never told of? Those of ICU are not: the server orders text.
pub fn rust_my_sqlite3_create_collation(name: Option<&[u8]>) -> (r: bool)
    ensures
        r == (name matches Some(n) && bytes::occurs_icase(n@, "icu".spec_bytes())),
{
    match name {
        Some(n) => {
            proof {
                reveal_strlit("icu");
                is_ascii_spec_bytes("icu");
            }
            bytes::contains_ascii_icase(n, "icu".as_bytes())
        },
        None => false,
    }
}

/// What is known of a statement.
pub struct StmtInfo {
    pub is_pg: i32,
    pub sql: Option<Vec<u8>>,
    pub pg_sql: Option<Vec<u8>>,
    pub params: Params,
    pub has_result: bool,
    pub current_row: i32,
    pub num_rows: i32,
    pub has_shadow_stmt: bool,
    pub has_shadow_db: bool,
}

/// A statement's handle.
pub enum Handle<'a> {
    Null,
    /// A statement of SQLite.
    Local,
    Registered(&'a StmtInfo),
}

/// The statement behind a handle, if only the server runs it.
pub open spec fn server_stmt(h: Handle) -> Option<StmtInfo> {
    match h {
        Handle::Registered(s) => if s.is_pg == SERVER_STATEMENT {
            Some(*s)
        } else {
            None
        },
        _ => None,
    }
}

/// A number, or what SQLite says, where its function is there, and else a number.
#[derive(PartialEq, Eq, Structural, Clone, Copy, Debug)]
pub enum Answer {
    Value(i32),
    AskLocal(i32),
}

/// Where a statement's database comes from.
#[derive(PartialEq, Eq, Structural, Clone, Copy, Debug)]
pub enum DbSource {
    /// There is none.
    Nowhere,
    /// SQLite tells it of the statement that stands in.
    ShadowStmt,
    /// The database that the connection shadows.
    ShadowDb,
    /// SQLite tells it of the statement itself.
    Local,
}

/// Where a statement's database comes from. `local` says whether SQLite's function is there.
pub fn rust_my_sqlite3_db_handle(h: &Handle, local: bool) -> (r: DbSource)
    ensures
        r == (if h is Null {
            DbSource::Nowhere
        } else {
            match server_stmt(*h) {
                Some(s) => if s.has_shadow_stmt && local {
                    DbSource::ShadowStmt
                } else if s.has_shadow_db {
                    DbSource::ShadowDb
                } else {
                    DbSource::Nowhere
                },
                None => if local {
                    DbSource::Local
                } else {
                    DbSource::Nowhere
                },
            }
        }),
{
    match h {
        Handle::Null => {
            return DbSource::Nowhere;
        },
        Handle::Local => {},
        Handle::Registered(s) => {
            if s.is_pg == SERVER_STATEMENT {
                return if s.has_shadow_stmt && local {
                    DbSource::ShadowStmt
                } else if s.has_shadow_db {
                    DbSource::ShadowDb
                } else {
                    DbSource::Nowhere
                };
            }
        },
    }
    if local {
        DbSource::Local
    } else {
        DbSource::Nowhere
    }
}

/// How many parameters a statement has.
pub fn rust_my_sqlite3_bind_parameter_count(h: &Handle) -> (r: Answer)
    ensures
        r == (if h is Null {
            Answer::Value(0)
        } else {
            match server_stmt(*h) {
                Some(s) => Answer::Value(s.params.count),
                None => Answer::AskLocal(0),
            }
        }),
{
    match h {
        Handle::Null => Answer::Value(0),
        Handle::Local => Answer::AskLocal(0),
        Handle::Registered(s) => if s.is_pg == SERVER_STATEMENT {
            Answer::Value(s.params.count)
        } else {
            Answer::AskLocal(0)
        },
    }
}

/// Does a statement only read? `reads` is what its text says of that.
pub fn rust_my_sqlite3_stmt_readonly(h: &Handle, reads: i32) -> (r: Answer)
    ensures
        r == (if h is Null {
            Answer::Value(1)
        } else {
            match server_stmt(*h) {
                Some(s) => if s.sql is Some {
                    Answer::Value(reads)
                } else {
                    Answer::Value(1)
                },
                None => Answer::AskLocal(1),
            }
        }),
{
    match h {
        Handle::Null => Answer::Value(1),
        Handle::Local => Answer::AskLocal(1),
        Handle::Registered(s) => if s.is_pg == SERVER_STATEMENT {
            if s.sql.is_some() {
                Answer::Value(reads)
            } else {
                Answer::Value(1)
            }
        } else {
            Answer::AskLocal(1)
        },
    }
}

/// Is a statement in the middle of its rows?
pub fn rust_my_sqlite3_stmt_busy(h: &Handle) -> (r: Answer)
    ensures
        r == (if h is Null {
            Answer::Value(0)
        } else {
            match server_stmt(*h) {
                Some(s) => Answer::Value(
                    if s.has_result && s.current_row < s.num_rows {
                        1
                    } else {
                        0
                    },
                ),
                None => Answer::AskLocal(0),
            }
        }),
{
    match h {
        Handle::Null => Answer::Value(0),
        Handle::Local => Answer::AskLocal(0),
        Handle::Registered(s) => if s.is_pg == SERVER_STATEMENT {
            if s.has_result && s.current_row < s.num_rows {
                Answer::Value(1)
            } else {
                Answer::Value(0)
            }
        } else {
            Answer::AskLocal(0)
        },
    }
}

/// The counters that SQLite keeps of a statement: none for one that only the server runs.
pub fn rust_my_sqlite3_stmt_status(h: &Handle) -> (r: Answer)
    ensures
        r == (if h is Null || server_stmt(*h) is Some {
            Answer::Value(0)
        } else {
            Answer::AskLocal(0)
        }),
{
    match h {
        Handle::Null => Answer::Value(0),
        Handle::Local => Answer::AskLocal(0),
        Handle::Registered(s) => if s.is_pg == SERVER_STATEMENT {
            Answer::Value(0)
        } else {
            Answer::AskLocal(0)
        },
    }
}

/// A text, or what SQLite says.
pub enum TextAnswer<'a> {
    Nothing,
    Own(&'a Vec<u8>),
    AskLocal,
}


/// Is this the answer: the bytes, or nothing where there are none?
pub open spec fn is_answer(r: TextAnswer, o: Option<Seq<u8>>) -> bool {
    match r {
        TextAnswer::Own(v) => o == Some(v@),
        TextAnswer::Nothing => o is None,
        TextAnswer::AskLocal => false,
    }
}

fn own_or_nothing<'a>(o: &'a Option<Vec<u8>>) -> (r: TextAnswer<'a>)
    ensures
        is_answer(r, prepare_text::opt_bytes(*o)),
{
    match o {
        Some(v) => TextAnswer::Own(v),
        None => TextAnswer::Nothing,
    }
}

/// The text of a statement.
pub fn rust_my_sqlite3_sql<'a>(h: &Handle<'a>) -> (r: TextAnswer<'a>)
    ensures
        h is Null ==> r is Nothing,
        server_stmt(*h) matches Some(s) ==> is_answer(r, prepare_text::opt_bytes(s.sql)),
        !(h is Null) && server_stmt(*h) is None ==> r is AskLocal,
{
    match h {
        Handle::Null => TextAnswer::Nothing,
        Handle::Local => TextAnswer::AskLocal,
        Handle::Registered(s) => if s.is_pg == SERVER_STATEMENT {
            own_or_nothing(&s.sql)
        } else {
            TextAnswer::AskLocal
        },
    }
}

/// The name of a parameter, counted from one.
pub open spec fn name_at(p: Params, idx: int) -> Option<Seq<u8>> {
    if 0 < idx <= p.count && p.names is Some {
        prepare_text::opt_bytes(p.names->0@[idx - 1])
    } else {
        None
    }
}

/// The name of a parameter, counted from one.
pub fn rust_my_sqlite3_bind_parameter_name<'a>(h: &Handle<'a>, idx: i32) -> (r: TextAnswer<'a>)
    requires
        h matches Handle::Registered(s) ==> s.params.wf(),
    ensures
        h is Null ==> r is Nothing,
        server_stmt(*h) matches Some(s) ==> is_answer(r, name_at(s.params, idx as int)),
        !(h is Null) && server_stmt(*h) is None ==> r is AskLocal,
{
    match h {
        Handle::Null => TextAnswer::Nothing,
        Handle::Local => TextAnswer::AskLocal,
        Handle::Registered(s) => {
            if s.is_pg == SERVER_STATEMENT {
                if idx > 0 && idx <= s.params.count {
                    if let Some(names) = &s.params.names {
                        return own_or_nothing(&names[(idx - 1) as usize]);
                    }
                }
                TextAnswer::Nothing
            } else {
                TextAnswer::AskLocal
            }
        },
    }
}

/// A name without the mark before it.
pub open spec fn without_mark(name: Seq<u8>) -> Seq<u8> {
    if name.len() > 0 && (name[0] == 0x3A || name[0] == 0x40 || name[0] == 0x24) {
        name.skip(1)
    } else {
        name
    }
}

/// The place of the parameter of this name, counted from one; zero where there is none.
pub open spec fn index_of(p: Params, name: Seq<u8>) -> int {
    match params::named(p.names->0@, p.count as int, without_mark(name)) {
        Some(i) => i + 1,
        None => 0,
    }
}

/// The place of the parameter of this name, counted from one. A statement without named parameters
/// leaves the answer to SQLite.
pub fn rust_my_sqlite3_bind_parameter_index(h: &Handle, name: Option<&[u8]>) -> (r: Answer)
    requires
        h matches Handle::Registered(s) ==> s.params.wf(),
    ensures
        r == (match name {
            None => Answer::Value(0),
            Some(n) => if h is Null {
                Answer::Value(0)
            } else {
                match server_stmt(*h) {
                    Some(s) => if s.params.names is None || s.params.count == 0 {
                        Answer::AskLocal(0)
                    } else {
                        Answer::Value(index_of(s.params, n@) as i32)
                    },
                    None => Answer::AskLocal(0),
                }
            },
        }),
        r matches Answer::Value(i) ==> i >= 0,
{
    let n = match name {
        None => {
            return Answer::Value(0);
        },
        Some(n) => n,
    };
    match h {
        Handle::Null => Answer::Value(0),
        Handle::Local => Answer::AskLocal(0),
        Handle::Registered(s) => {
            if s.is_pg != SERVER_STATEMENT || s.params.count == 0 {
                return Answer::AskLocal(0);
            }
            match &s.params.names {
                None => Answer::AskLocal(0),
                Some(names) => {
                    let len: usize = n.len();
                    let plain: Vec<u8> = if len > 0 && (n[0] == 0x3A || n[0] == 0x40 || n[0]
                        == 0x24) {
                        prepare_text::copy_range(n, 1, len)
                    } else {
                        prepare_text::copy_range(n, 0, len)
                    };
                    assert(plain@ == without_mark(n@));
                    proof {
                        search::lemma_first_index(
                            |i: int| prepare_text::opt_bytes(names@[i]) == Some(plain@),
                            0,
                            names@.len() as int,
                        );
                    }
                    match params::find_name(names, &plain) {
                        Some(i) => Answer::Value((i + 1) as i32),
                        None => Answer::Value(0),
                    }
                },
            }
        },
    }
}

/// A parameter that has a name is found by it, at its own place or at that of an earlier one of the
/// same name.
pub proof fn law_names_are_found(p: Params, idx: int)
    requires
        p.wf(),
        name_at(p, idx) is Some,
        without_mark(name_at(p, idx)->0) == name_at(p, idx)->0,
    ensures
        1 <= index_of(p, name_at(p, idx)->0) <= idx,
        name_at(p, index_of(p, name_at(p, idx)->0)) == name_at(p, idx),
{
    let n = name_at(p, idx)->0;
    let q = |i: int| prepare_text::opt_bytes(p.names->0@[i]) == Some(n);
    search::lemma_first_index(q, 0, p.count as int);
    assert(q(idx - 1));
}

/// The number of the last inserted row is the connection's own, if it has one, else what any
/// connection inserted last, else the server's, if it can be asked; inside another call it is zero.
pub proof fn law_rowids_in_order(c: ConnInfo, global: i64)
    ensures
        c.last_insert_rowid > 0 ==> rowid_source(true, Some(c), global) == RowId::Known(
            c.last_insert_rowid,
        ),
        c.last_insert_rowid <= 0 && global > 0 ==> rowid_source(true, Some(c), global)
            == RowId::Known(global),
        rowid_source(true, Some(c), global) == RowId::AskServer <==> c.last_insert_rowid <= 0
            && global <= 0 && c.is_pg_active && c.connected,
        global > 0 ==> rowid_source(true, None, global) == RowId::Known(global),
        rowid_source(false, Some(c), global) == RowId::Known(0),
{
}

/// The server's table answers only where the text was translated, the server gave rows and a table
/// was built of them.
pub proof fn law_only_rows_make_a_table(run: TableRun)
    ensures
        server_table(Some(run)) is Some <==> run.translated && run.status == 2 && run.built is Some,
        server_table(Some(run)) is Some ==> server_table(Some(run)) == run.built,
        server_table(None) is None,
{
}

/// A parameter is found by its name with any of the marks before it, or none.
pub proof fn law_marks_do_not_matter(p: Params, name: Seq<u8>)
    requires
        without_mark(name) == name,
    ensures
        index_of(p, seq![0x3Au8] + name) == index_of(p, name),
        index_of(p, seq![0x40u8] + name) == index_of(p, name),
        index_of(p, seq![0x24u8] + name) == index_of(p, name),
{
    assert((seq![0x3Au8] + name).skip(1) =~= name);
    assert((seq![0x40u8] + name).skip(1) =~= name);
    assert((seq![0x24u8] + name).skip(1) =~= name);
}

/// Only a statement that the server alone runs answers for itself.
pub proof fn law_server_statements_answer(s: StmtInfo)
    ensures
        s.is_pg == 2 ==> server_stmt(Handle::Registered(&s)) == Some(s),
        s.is_pg != 2 ==> server_stmt(Handle::Registered(&s)) is None,
        server_stmt(Handle::Local) is None,
        server_stmt(Handle::Null) is None,
{
}

} // verus!
