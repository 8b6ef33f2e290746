//! Running a statement that is given as text.
//!
//! The caller talks to the databases; each step says what it has to do or find out next.

use crate::bytes;
use crate::hash;
use crate::inserts;
use crate::literals;
use crate::pg_statement;
use crate::prepare_text;
use crate::text;
use vstd::prelude::*;
use vstd::string::*;
use vstd::utf8::*;

verus! {

/// Success.
pub const SQLITE_OK: i32 = 0;

/// Failure.
pub const SQLITE_ERROR: i32 = 1;

/// The server ran a command that has no rows.
pub const PGRES_COMMAND_OK: i32 = 1;

/// The server ran a query, or a command that returns rows.
pub const PGRES_TUPLES_OK: i32 = 2;

/// What is known of the server connection of a database handle.
#[derive(Clone, Copy, Debug, PartialEq, Eq, Structural)]
pub struct Link {
    /// There is a connection.
    pub present: bool,
    /// Statements may be sent over it.
    pub active: bool,
    /// It has a link to the server.
    pub connected: bool,
    /// The link works.
    pub healthy: bool,
}

/// What the caller was asked last.
#[derive(Clone, Copy, Debug, PartialEq, Eq, Structural)]
pub enum Stage {
    Inspected,
    Stripped,
    RanLocally,
    Reset,
    Replaced,
    Connected,
    Rewritten,
    Translated,
    LookedUp,
    Prepared,
    Ran,
    Failed,
    Over,
}

/// What the caller has to do, or find out, next.
pub enum Action {
    /// Find the connection and tell its state.
    Inspect,
    /// Take the collation out, if possible.
    StripCollation,
    /// Let the local database run the text, or the one that was given if there is none.
    RunLocally { cleaned: Option<Vec<u8>> },
    /// Reset the link; does it work, and are the session's settings set?
    ResetLink,
    /// Forget the prepared statements, close the link and make a new one; does it work?
    ReplaceLink,
    /// Make a link; does it work?
    Connect,
    /// Rewrite the text for the database of large objects, if it applies, and tell whether the
    /// statement is to be skipped.
    Rewrite,
    /// Translate the text.
    Translate { text: Vec<u8> },
    /// Is a statement with this hash prepared on the connection?
    LookUp { hash: u64 },
    /// Prepare the text under the name; did that work, or was it prepared before?
    PrepareAs { name: Vec<u8>, text: Vec<u8> },
    /// Note the prepared statement, then run it with the parameters.
    NoteAndRun { hash: u64, name: Vec<u8>, params: Vec<String> },
    /// Run the statement that was found, with the parameters.
    RunFound { params: Vec<String> },
    /// Run the text.
    Run { text: Vec<u8> },
    /// Check the connection; first forget the prepared statements, if `forget`.
    CheckHealth { forget: bool },
    /// Done. `changes`: take the number of changed rows over from the result. `item`: the number of
    /// the item that was queued, if it is to be kept. `broken`: the link failed. `deactivate`: no
    /// more statements are sent over the connection.
    Return { rc: i32, changes: bool, item: Option<i64>, broken: bool, deactivate: bool },
}

/// What came of it. Each step reads only the parts that it asked for.
pub struct Reply {
    pub yes: bool,
    pub link: Link,
    pub skip: bool,
    pub text: Option<Vec<u8>>,
    pub rc: i32,
    pub status: i32,
    /// The result has a row, and its first column is not empty.
    pub has_id: bool,
    /// The link to the server failed.
    pub link_failed: bool,
    /// The prepared statement is not known to the server.
    pub stale: bool,
}

/// A statement that is being run.
pub struct Exec {
    sql: Vec<u8>,
    pg_sql: Vec<u8>,
    normalized: Option<(String, Vec<String>)>,
    key: u64,
    failed: bool,
    stage: Stage,
}

/// What to do next, as plain sequences.
pub ghost enum ActionView {
    Inspect,
    StripCollation,
    RunLocally { cleaned: Option<Seq<u8>> },
    ResetLink,
    ReplaceLink,
    Connect,
    Rewrite,
    Translate { text: Seq<u8> },
    LookUp { hash: u64 },
    PrepareAs { name: Seq<u8>, text: Seq<u8> },
    NoteAndRun { hash: u64, name: Seq<u8>, params: Seq<Seq<char>> },
    RunFound { params: Seq<Seq<char>> },
    Run { text: Seq<u8> },
    CheckHealth { forget: bool },
    Return { rc: i32, changes: bool, item: Option<i64>, broken: bool, deactivate: bool },
}

/// The texts of a list of strings.
pub open spec fn strings(v: Seq<String>) -> Seq<Seq<char>> {
    v.map_values(|s: String| s@)
}

impl View for Action {
    type V = ActionView;

    open spec fn view(&self) -> ActionView {
        match self {
            Action::Inspect => ActionView::Inspect,
            Action::StripCollation => ActionView::StripCollation,
            Action::RunLocally { cleaned } => ActionView::RunLocally {
                cleaned: prepare_text::opt_bytes(*cleaned),
            },
            Action::ResetLink => ActionView::ResetLink,
            Action::ReplaceLink => ActionView::ReplaceLink,
            Action::Connect => ActionView::Connect,
            Action::Rewrite => ActionView::Rewrite,
            Action::Translate { text } => ActionView::Translate { text: text@ },
            Action::LookUp { hash } => ActionView::LookUp { hash: *hash },
            Action::PrepareAs { name, text } => ActionView::PrepareAs {
                name: name@,
                text: text@,
            },
            Action::NoteAndRun { hash, name, params } => ActionView::NoteAndRun {
                hash: *hash,
                name: name@,
                params: strings(params@),
            },
            Action::RunFound { params } => ActionView::RunFound { params: strings(params@) },
            Action::Run { text } => ActionView::Run { text: text@ },
            Action::CheckHealth { forget } => ActionView::CheckHealth { forget: *forget },
            Action::Return { rc, changes, item, broken, deactivate } => ActionView::Return {
                rc: *rc,
                changes: *changes,
                item: *item,
                broken: *broken,
                deactivate: *deactivate,
            },
        }
    }
}

/// A statement that is being run, as plain sequences.
pub ghost struct State {
    pub sql: Seq<u8>,
    pub pg_sql: Seq<u8>,
    pub normalized: Option<(Seq<char>, Seq<Seq<char>>)>,
    pub key: u64,
    pub failed: bool,
    pub stage: Stage,
}

impl View for Exec {
    type V = State;

    closed spec fn view(&self) -> State {
        State {
            sql: self.sql@,
            pg_sql: self.pg_sql@,
            normalized: match self.normalized {
                Some((t, p)) => Some((t@, strings(p@))),
                None => None,
            },
            key: self.key,
            failed: self.failed,
            stage: self.stage,
        }
    }
}

/// The request at a stage, and what to do.
pub open spec fn at(s: State, stage: Stage, action: ActionView) -> (State, ActionView) {
    (State { stage, ..s }, action)
}

/// The end without anything to note.
pub open spec fn done(s: State, rc: i32) -> (State, ActionView) {
    at(
        s,
        Stage::Over,
        ActionView::Return { rc, changes: false, item: None, broken: false, deactivate: false },
    )
}

/// The end where the link failed.
pub open spec fn broken(s: State, deactivate: bool) -> (State, ActionView) {
    at(
        s,
        Stage::Over,
        ActionView::Return {
            rc: SQLITE_ERROR,
            changes: false,
            item: None,
            broken: true,
            deactivate,
        },
    )
}

/// The state of the connection is known: the local database runs the statement where no statement
/// may be sent over the connection, and a link that does not work is repaired first.
pub open spec fn on_link(s: State, l: Link) -> (State, ActionView) {
    if !(l.present && l.active) {
        if prepare_text::has_word(s.sql, "collate icu_root") {
            at(s, Stage::Stripped, ActionView::StripCollation)
        } else {
            at(s, Stage::RanLocally, ActionView::RunLocally { cleaned: None })
        }
    } else if l.connected && l.healthy {
        at(s, Stage::Rewritten, ActionView::Rewrite)
    } else if l.connected {
        at(s, Stage::Reset, ActionView::ResetLink)
    } else {
        at(s, Stage::Connected, ActionView::Connect)
    }
}

/// The characters of UTF-8 bytes.
pub open spec fn decoded(b: Seq<u8>) -> Seq<char> {
    decode_utf8(b)
}

/// An insertion of an item that belongs nowhere; bytes that are not UTF-8 are none.
pub open spec fn is_junk(b: Seq<u8>) -> bool {
    valid_utf8(b) && inserts::is_junk(decoded(b))
}

/// The text that is run is known.
pub open spec fn on_rewritten(s: State, text: Option<Seq<u8>>, skip: bool) -> (State, ActionView) {
    let sql = match text {
        Some(t) => t,
        None => s.sql,
    };
    let next = State { sql, ..s };
    if skip || is_junk(sql) {
        done(next, SQLITE_OK)
    } else {
        at(next, Stage::Translated, ActionView::Translate { text: sql })
    }
}

/// The server's text with the row's number asked for, where the statement inserts and does not ask
/// for anything yet.
pub open spec fn returning(sql: Seq<u8>, pg: Seq<u8>) -> Seq<u8> {
    if bytes::occurs_at_icase(sql, 0, "INSERT".spec_bytes()) && bytes::first_occurrence(
        pg,
        0,
        "RETURNING".spec_bytes(),
    ) is None {
        pg + " RETURNING id".spec_bytes()
    } else {
        pg
    }
}

/// The text with its numbers replaced by parameters, and the numbers, if there are any; bytes that
/// are not UTF-8 stay as they are.
pub open spec fn parameterized(pg: Seq<u8>) -> Option<(Seq<char>, Seq<Seq<char>>)> {
    let n = literals::normalized(pg, 0, literals::Quotes { single: false, double: false }, 0);
    if valid_utf8(pg) && literals::has_condition(pg) && n.1.len() > 0 {
        Some(n)
    } else {
        None
    }
}

/// The hash of a text.
pub open spec fn text_key(t: Seq<char>) -> u64 {
    hash::fnv(encode_utf8(t))
}

/// The translation is there: look for a prepared statement.
pub open spec fn on_translated(s: State, pg: Seq<u8>) -> (State, ActionView) {
    let full = returning(s.sql, pg);
    let n = parameterized(full);
    let key = match n {
        Some((t, _)) => text_key(t),
        None => prepare_text::statement_key(full),
    };
    at(
        State { pg_sql: full, normalized: n, key, ..s },
        Stage::LookedUp,
        ActionView::LookUp { hash: key },
    )
}

/// The numbers that go with the statement.
pub open spec fn params_of(s: State) -> Seq<Seq<char>> {
    match s.normalized {
        Some((_, p)) => p,
        None => Seq::empty(),
    }
}

/// The name under which a text with parameters is prepared.
pub open spec fn name_of(key: u64) -> Seq<u8> {
    "nx_".spec_bytes() + prepare_text::hex_number(key as nat)
}

/// It is known whether a prepared statement is there.
pub open spec fn on_looked_up(s: State, found: bool) -> (State, ActionView) {
    if found {
        at(s, Stage::Ran, ActionView::RunFound { params: params_of(s) })
    } else {
        match s.normalized {
            Some((t, _)) => at(
                s,
                Stage::Prepared,
                ActionView::PrepareAs { name: name_of(s.key), text: encode_utf8(t) },
            ),
            None => at(s, Stage::Ran, ActionView::Run { text: s.pg_sql }),
        }
    }
}

/// The statement was prepared, or not.
pub open spec fn on_prepared(s: State, yes: bool) -> (State, ActionView) {
    if yes {
        at(
            s,
            Stage::Ran,
            ActionView::NoteAndRun { hash: s.key, name: name_of(s.key), params: params_of(s) },
        )
    } else {
        at(s, Stage::Ran, ActionView::Run { text: s.pg_sql })
    }
}

/// The number of the item that an insertion into the play queue is about, if there is one.
pub open spec fn queued(sql: Seq<u8>) -> Option<i64> {
    let t = decoded(sql);
    let n = pg_statement::queued_item(t, text::lowercase(t));
    if valid_utf8(sql) && n > 0 {
        Some(n as i64)
    } else {
        None
    }
}

/// The server has run the statement: a broken link and a statement that it does not know are
/// failures, anything else is not.
pub open spec fn on_ran(s: State, status: i32, has_id: bool, link_failed: bool, stale: bool) -> (
    State,
    ActionView,
) {
    if status == PGRES_COMMAND_OK || status == PGRES_TUPLES_OK {
        let inserted = bytes::occurs_at_icase(s.sql, 0, "INSERT".spec_bytes()) && status
            == PGRES_TUPLES_OK && has_id;
        at(
            s,
            Stage::Over,
            ActionView::Return {
                rc: SQLITE_OK,
                changes: true,
                item: if inserted {
                    queued(s.sql)
                } else {
                    None
                },
                broken: false,
                deactivate: false,
            },
        )
    } else {
        at(
            State { failed: link_failed || stale, ..s },
            Stage::Failed,
            ActionView::CheckHealth { forget: stale },
        )
    }
}

/// What a step does, given the answer to what was asked.
pub open spec fn step(
    s: State,
    yes: bool,
    link: Link,
    skip: bool,
    text: Option<Seq<u8>>,
    rc: i32,
    status: i32,
    has_id: bool,
    link_failed: bool,
    stale: bool,
) -> (State, ActionView) {
    match s.stage {
        Stage::Inspected => on_link(s, link),
        Stage::Stripped => at(s, Stage::RanLocally, ActionView::RunLocally { cleaned: text }),
        Stage::RanLocally => done(s, rc),
        Stage::Reset => if yes {
            at(s, Stage::Rewritten, ActionView::Rewrite)
        } else {
            at(s, Stage::Replaced, ActionView::ReplaceLink)
        },
        Stage::Replaced => if yes {
            at(s, Stage::Rewritten, ActionView::Rewrite)
        } else {
            broken(s, true)
        },
        Stage::Connected => if yes {
            at(s, Stage::Rewritten, ActionView::Rewrite)
        } else {
            broken(s, true)
        },
        Stage::Rewritten => on_rewritten(s, text, skip),
        Stage::Translated => match text {
            Some(pg) => if yes {
                on_translated(s, pg)
            } else {
                done(s, SQLITE_OK)
            },
            None => done(s, SQLITE_OK),
        },
        Stage::LookedUp => on_looked_up(s, yes),
        Stage::Prepared => on_prepared(s, yes),
        Stage::Ran => on_ran(s, status, has_id, link_failed, stale),
        Stage::Failed => if s.failed {
            broken(s, false)
        } else {
            done(s, SQLITE_OK)
        },
        Stage::Over => done(s, SQLITE_OK),
    }
}

fn copy(v: &Vec<u8>) -> (r: Vec<u8>)
    ensures
        r@ == v@,
{
    let r = prepare_text::copy_range(v.as_slice(), 0, v.len());
    assert(v@.subrange(0, v@.len() as int) == v@);
    r
}

fn copy_strings(v: &Vec<String>) -> (r: Vec<String>)
    ensures
        strings(r@) == strings(v@),
{
    let mut out: Vec<String> = Vec::new();
    for i in 0..v.len()
        invariant
            out@.len() == i,
            forall|k: int| 0 <= k < i ==> (#[trigger] out@[k])@ == v@[k]@,
    {
        out.push(v[i].clone());
    }
    assert(strings(out@) =~= strings(v@));
    out
}

/// Does the statement insert an item that belongs nowhere?
pub fn is_junk_insert(sql: &[u8]) -> (r: bool)
    ensures
        r == is_junk(sql@),
{
    match std::str::from_utf8(sql) {
        Ok(s) => {
            proof {
                encode_utf8_decode_utf8(s@);
            }
            inserts::is_junk_metadata_insert_impl(s)
        },
        Err(_) => false,
    }
}

/// The server's text with the row's number asked for.
pub fn with_returning(sql: &[u8], pg: &[u8]) -> (r: Vec<u8>)
    ensures
        r@ == returning(sql@, pg@),
{
    proof {
        reveal_strlit("RETURNING");
        is_ascii_spec_bytes("RETURNING");
    }
    let mut out: Vec<u8> = Vec::new();
    prepare_text::push_bytes(&mut out, pg);
    assert(out@ == pg@);
    if bytes::starts_with_icase(sql, "INSERT".as_bytes()) && bytes::find_subslice(
        pg,
        "RETURNING".as_bytes(),
    ).is_none() {
        prepare_text::push_bytes(&mut out, " RETURNING id".as_bytes());
    }
    out
}

fn parameterize(pg: &[u8]) -> (r: Option<(String, Vec<String>)>)
    ensures
        match r {
            Some((t, p)) => parameterized(pg@) == Some((t@, strings(p@))),
            None => parameterized(pg@) is None,
        },
{
    match std::str::from_utf8(pg) {
        Ok(s) => literals::normalize_sql_literals_impl(s),
        Err(_) => None,
    }
}

/// The number of the item that an insertion into the play queue is about, if there is one.
pub fn queued_item_of(sql: &[u8]) -> (r: Option<i64>)
    ensures
        r == queued(sql@),
{
    match std::str::from_utf8(sql) {
        Ok(s) => {
            proof {
                encode_utf8_decode_utf8(s@);
            }
            let n: i64 = pg_statement::extract_metadata_id(s);
            if n > 0 {
                Some(n)
            } else {
                None
            }
        },
        Err(_) => None,
    }
}

/// Where a statement begins, and what is to be done first.
pub open spec fn begin(sql: Option<Seq<u8>>) -> (State, ActionView) {
    let s = State {
        sql: match sql {
            Some(b) => b,
            None => Seq::empty(),
        },
        pg_sql: Seq::empty(),
        normalized: None,
        key: 0,
        failed: false,
        stage: Stage::Over,
    };
    if sql is Some {
        at(s, Stage::Inspected, ActionView::Inspect)
    } else {
        at(s, Stage::RanLocally, ActionView::RunLocally { cleaned: None })
    }
}

impl Exec {
    fn done(&mut self, rc: i32) -> (r: Action)
        ensures
            (final(self)@, r@) == done(old(self)@, rc),
    {
        self.stage = Stage::Over;
        Action::Return { rc, changes: false, item: None, broken: false, deactivate: false }
    }

    fn broken(&mut self, deactivate: bool) -> (r: Action)
        ensures
            (final(self)@, r@) == broken(old(self)@, deactivate),
    {
        self.stage = Stage::Over;
        Action::Return { rc: SQLITE_ERROR, changes: false, item: None, broken: true, deactivate }
    }

    fn on_link(&mut self, l: Link) -> (r: Action)
        ensures
            (final(self)@, r@) == on_link(old(self)@, l),
    {
        proof {
            reveal_strlit("collate icu_root");
        }
        if !(l.present && l.active) {
            if prepare_text::contains_word(self.sql.as_slice(), "collate icu_root") {
                self.stage = Stage::Stripped;
                Action::StripCollation
            } else {
                self.stage = Stage::RanLocally;
                Action::RunLocally { cleaned: None }
            }
        } else if l.connected && l.healthy {
            self.stage = Stage::Rewritten;
            Action::Rewrite
        } else if l.connected {
            self.stage = Stage::Reset;
            Action::ResetLink
        } else {
            self.stage = Stage::Connected;
            Action::Connect
        }
    }

    fn on_rewritten(&mut self, text: Option<Vec<u8>>, skip: bool) -> (r: Action)
        ensures
            (final(self)@, r@) == on_rewritten(
                old(self)@,
                prepare_text::opt_bytes(text),
                skip,
            ),
    {
        if let Some(t) = text {
            self.sql = t;
        }
        if skip || is_junk_insert(self.sql.as_slice()) {
            self.done(SQLITE_OK)
        } else {
            self.stage = Stage::Translated;
            Action::Translate { text: copy(&self.sql) }
        }
    }

    fn on_translated(&mut self, pg: Vec<u8>) -> (r: Action)
        ensures
            (final(self)@, r@) == on_translated(old(self)@, pg@),
    {
        let full = with_returning(self.sql.as_slice(), pg.as_slice());
        let normalized = parameterize(full.as_slice());
        let key: u64 = match &normalized {
            Some(n) => hash::fnv1a_str(n.0.as_str()),
            None => prepare_text::statement_hash(full.as_slice()),
        };
        self.pg_sql = full;
        self.normalized = normalized;
        self.key = key;
        self.stage = Stage::LookedUp;
        Action::LookUp { hash: key }
    }

    fn params(&self) -> (r: Vec<String>)
        ensures
            strings(r@) == params_of(self@),
    {
        match &self.normalized {
            Some(n) => copy_strings(&n.1),
            None => {
                let none: Vec<String> = Vec::new();
                assert(strings(none@) =~= Seq::<Seq<char>>::empty());
                none
            },
        }
    }

    fn on_looked_up(&mut self, found: bool) -> (r: Action)
        ensures
            (final(self)@, r@) == on_looked_up(old(self)@, found),
    {
        if found {
            let params = self.params();
            self.stage = Stage::Ran;
            return Action::RunFound { params };
        }
        let text = match &self.normalized {
            Some(n) => {
                let b = n.0.as_str().as_bytes();
                let t = prepare_text::copy_range(b, 0, b.len());
                assert(b@.subrange(0, b@.len() as int) == b@);
                Some(t)
            },
            None => None,
        };
        match text {
            Some(text) => {
                self.stage = Stage::Prepared;
                Action::PrepareAs { name: prepare_text::hex_name("nx_", self.key), text }
            },
            None => {
                self.stage = Stage::Ran;
                Action::Run { text: copy(&self.pg_sql) }
            },
        }
    }

    fn on_prepared(&mut self, yes: bool) -> (r: Action)
        ensures
            (final(self)@, r@) == on_prepared(old(self)@, yes),
    {
        if yes {
            let params = self.params();
            self.stage = Stage::Ran;
            let name = prepare_text::hex_name("nx_", self.key);
            Action::NoteAndRun { hash: self.key, name, params }
        } else {
            self.stage = Stage::Ran;
            Action::Run { text: copy(&self.pg_sql) }
        }
    }

    fn on_ran(&mut self, status: i32, has_id: bool, link_failed: bool, stale: bool) -> (r: Action)
        ensures
            (final(self)@, r@) == on_ran(old(self)@, status, has_id, link_failed, stale),
    {
        if status == PGRES_COMMAND_OK || status == PGRES_TUPLES_OK {
            let inserted = bytes::starts_with_icase(self.sql.as_slice(), "INSERT".as_bytes())
                && status == PGRES_TUPLES_OK && has_id;
            let item = if inserted {
                queued_item_of(self.sql.as_slice())
            } else {
                None
            };
            self.stage = Stage::Over;
            Action::Return { rc: SQLITE_OK, changes: true, item, broken: false, deactivate: false }
        } else {
            self.failed = link_failed || stale;
            self.stage = Stage::Failed;
            Action::CheckHealth { forget: stale }
        }
    }

    /// Begins to run a statement. Without a text it is up to the local database what happens.
    pub fn rust_my_sqlite3_exec_impl(sql: Option<Vec<u8>>) -> (r: (Exec, Action))
        ensures
            (r.0@, r.1@) == begin(prepare_text::opt_bytes(sql)),
    {
        let given = sql.is_some();
        let text = match sql {
            Some(b) => b,
            None => Vec::new(),
        };
        let stage = if given {
            Stage::Inspected
        } else {
            Stage::RanLocally
        };
        let e = Exec {
            sql: text,
            pg_sql: Vec::new(),
            normalized: None,
            key: 0,
            failed: false,
            stage,
        };
        proof {
            assert(e.pg_sql@ == Seq::<u8>::empty());
        }
        if given {
            (e, Action::Inspect)
        } else {
            assert(e.sql@ == Seq::<u8>::empty());
            (e, Action::RunLocally { cleaned: None })
        }
    }

    /// Goes on with the answer to what was asked last.
    pub fn resume(&mut self, reply: Reply) -> (r: Action)
        ensures
            (final(self)@, r@) == step(
                old(self)@,
                reply.yes,
                reply.link,
                reply.skip,
                prepare_text::opt_bytes(reply.text),
                reply.rc,
                reply.status,
                reply.has_id,
                reply.link_failed,
                reply.stale,
            ),
    {
        match self.stage {
            Stage::Inspected => self.on_link(reply.link),
            Stage::Stripped => {
                self.stage = Stage::RanLocally;
                Action::RunLocally { cleaned: reply.text }
            },
            Stage::RanLocally => self.done(reply.rc),
            Stage::Reset => if reply.yes {
                self.stage = Stage::Rewritten;
                Action::Rewrite
            } else {
                self.stage = Stage::Replaced;
                Action::ReplaceLink
            },
            Stage::Replaced | Stage::Connected => if reply.yes {
                self.stage = Stage::Rewritten;
                Action::Rewrite
            } else {
                self.broken(true)
            },
            Stage::Rewritten => self.on_rewritten(reply.text, reply.skip),
            Stage::Translated => match reply.text {
                Some(pg) => if reply.yes {
                    self.on_translated(pg)
                } else {
                    self.done(SQLITE_OK)
                },
                None => self.done(SQLITE_OK),
            },
            Stage::LookedUp => self.on_looked_up(reply.yes),
            Stage::Prepared => self.on_prepared(reply.yes),
            Stage::Ran => self.on_ran(
                reply.status,
                reply.has_id,
                reply.link_failed,
                reply.stale,
            ),
            Stage::Failed => if self.failed {
                self.broken(false)
            } else {
                self.done(SQLITE_OK)
            },
            Stage::Over => self.done(SQLITE_OK),
        }
    }
}

/// An insertion of an item that belongs nowhere never reaches the server, and is answered as if it
/// had been run.
pub proof fn law_junk_is_dropped(s: State, text: Option<Seq<u8>>, skip: bool)
    requires
        is_junk(
            match text {
                Some(t) => t,
                None => s.sql,
            },
        ),
    ensures
        on_rewritten(s, text, skip).1 == (ActionView::Return {
            rc: SQLITE_OK,
            changes: false,
            item: None,
            broken: false,
            deactivate: false,
        }),
{
}

/// A failure is reported, as one of the link, exactly where the link failed or the server did not
/// know the prepared statement; any other error of the server is answered with success.
pub proof fn law_only_link_errors_are_reported(
    s: State,
    status: i32,
    has_id: bool,
    link_failed: bool,
    stale: bool,
    yes: bool,
    link: Link,
    skip: bool,
    text: Option<Seq<u8>>,
    rc: i32,
)
    requires
        s.stage == Stage::Ran,
        status != PGRES_COMMAND_OK,
        status != PGRES_TUPLES_OK,
    ensures
        ({
            let failed = step(s, yes, link, skip, text, rc, status, has_id, link_failed, stale).0;
            let end = step(
                failed,
                yes,
                link,
                skip,
                text,
                rc,
                status,
                has_id,
                link_failed,
                stale,
            ).1;
            end == if link_failed || stale {
                ActionView::Return {
                    rc: SQLITE_ERROR,
                    changes: false,
                    item: None,
                    broken: true,
                    deactivate: false,
                }
            } else {
                ActionView::Return {
                    rc: SQLITE_OK,
                    changes: false,
                    item: None,
                    broken: false,
                    deactivate: false,
                }
            }
        }),
{
}

/// How far a statement still is from being run.
pub open spec fn rank(stage: Stage) -> int {
    match stage {
        Stage::Inspected => 10,
        Stage::Stripped => 9,
        Stage::Reset => 9,
        Stage::Replaced => 8,
        Stage::Connected => 8,
        Stage::Rewritten => 7,
        Stage::Translated => 6,
        Stage::LookedUp => 5,
        Stage::Prepared => 4,
        Stage::Ran => 3,
        Stage::Failed => 2,
        Stage::RanLocally => 1,
        Stage::Over => 0,
    }
}

/// Every step brings a statement nearer to its end, whatever is answered.
pub proof fn law_progress(
    s: State,
    yes: bool,
    link: Link,
    skip: bool,
    text: Option<Seq<u8>>,
    rc: i32,
    status: i32,
    has_id: bool,
    link_failed: bool,
    stale: bool,
)
    requires
        s.stage != Stage::Over,
    ensures
        rank(
            step(
                s,
                yes,
                link,
                skip,
                text,
                rc,
                status,
                has_id,
                link_failed,
                stale,
            ).0.stage,
        ) < rank(s.stage),
{
}

/// What the caller answers, as plain sequences.
pub ghost struct Answer {
    pub yes: bool,
    pub link: Link,
    pub skip: bool,
    pub text: Option<Seq<u8>>,
    pub rc: i32,
    pub status: i32,
    pub has_id: bool,
    pub link_failed: bool,
    pub stale: bool,
}

/// Where a statement stands once the answer is in, and what is to be done then.
pub open spec fn after(s: State, r: Answer) -> (State, ActionView) {
    step(s, r.yes, r.link, r.skip, r.text, r.rc, r.status, r.has_id, r.link_failed, r.stale)
}

/// The end with this code and nothing to note.
pub open spec fn told(rc: i32) -> ActionView {
    ActionView::Return { rc, changes: false, item: None, broken: false, deactivate: false }
}

/// The caller was told to do this, where a statement waits at this stage.
pub open spec fn waits_for(stage: Stage, a: ActionView) -> bool {
    match a {
        ActionView::Inspect => stage == Stage::Inspected,
        ActionView::StripCollation => stage == Stage::Stripped,
        ActionView::RunLocally { .. } => stage == Stage::RanLocally,
        ActionView::ResetLink => stage == Stage::Reset,
        ActionView::ReplaceLink => stage == Stage::Replaced,
        ActionView::Connect => stage == Stage::Connected,
        ActionView::Rewrite => stage == Stage::Rewritten,
        ActionView::Translate { .. } => stage == Stage::Translated,
        ActionView::LookUp { .. } => stage == Stage::LookedUp,
        ActionView::PrepareAs { .. } => stage == Stage::Prepared,
        ActionView::NoteAndRun { .. } => stage == Stage::Ran,
        ActionView::RunFound { .. } => stage == Stage::Ran,
        ActionView::Run { .. } => stage == Stage::Ran,
        ActionView::CheckHealth { .. } => stage == Stage::Failed,
        ActionView::Return { .. } => stage == Stage::Over,
    }
}

/// A statement waits for the answer to what the caller was told to do.
#[verifier::rlimit(60)]
#[verifier::spinoff_prover]
pub proof fn law_question_is_remembered(s: State, r: Answer, sql: Option<Seq<u8>>)
    ensures
        waits_for(after(s, r).0.stage, after(s, r).1),
        waits_for(begin(sql).0.stage, begin(sql).1),
{
}

/// A text is looked at; without one it is up to the local database what happens.
pub proof fn law_beginnings(sql: Seq<u8>)
    ensures
        begin(Some(sql)).1 == ActionView::Inspect,
        begin(Some(sql)).0.sql == sql,
        begin(None).1 == (ActionView::RunLocally { cleaned: None }),
{
}

/// Only a link that works is used: without a connection that statements may be sent over, the local
/// database runs the text; a link that does not work is reset and, if that fails, replaced; where
/// there is none, one is made; and if none works in the end, the failure is told as one of the link,
/// and no more statements are sent over the connection.
pub proof fn law_only_working_links(s: State, link: Answer, reset: Answer, replaced: Answer)
    requires
        s.stage == Stage::Inspected,
    ensures
        ({
            let l = link.link;
            let a = after(s, link);
            let b = after(a.0, reset);
            let c = after(b.0, replaced);
            let lost = ActionView::Return {
                rc: 1,
                changes: false,
                item: None,
                broken: true,
                deactivate: true,
            };
            &&& !(l.present && l.active) ==> a.1 == ActionView::StripCollation || a.1 == (
            ActionView::RunLocally { cleaned: None })
            &&& l.present && l.active && l.connected && l.healthy ==> a.1 == ActionView::Rewrite
            &&& l.present && l.active && l.connected && !l.healthy ==> a.1
                == ActionView::ResetLink && (reset.yes ==> b.1 == ActionView::Rewrite) && (
            !reset.yes ==> b.1 == ActionView::ReplaceLink && c.1 == if replaced.yes {
                ActionView::Rewrite
            } else {
                lost
            })
            &&& l.present && l.active && !l.connected ==> a.1 == ActionView::Connect && b.1
                == if reset.yes {
                ActionView::Rewrite
            } else {
                lost
            }
        }),
{
}

/// What the local database runs is the text without the collation, if that was taken out, and else
/// the text that was given; and what it says is told.
pub proof fn law_local_answer_is_told(s: State, stripped: Answer, run: Answer)
    ensures
        s.stage == Stage::Stripped ==> after(s, stripped).1 == (ActionView::RunLocally {
            cleaned: stripped.text,
        }),
        s.stage == Stage::Stripped ==> after(after(s, stripped).0, run).1 == told(run.rc),
        s.stage == Stage::RanLocally ==> after(s, run).1 == told(run.rc),
{
}

/// What is translated is the text that the rewriting gave, or else the text that was given; one that
/// is to be skipped is not run anywhere, and is answered as if it had been, and so is one without a
/// translation.
pub proof fn law_the_text_is_translated(s: State, r: Answer, translated: Answer)
    requires
        s.stage == Stage::Rewritten,
    ensures
        ({
            let sql = match r.text {
                Some(t) => t,
                None => s.sql,
            };
            let a = after(s, r);
            let b = after(a.0, translated);
            &&& r.skip ==> a.1 == told(0)
            &&& !r.skip && !is_junk(sql) ==> a.1 == (ActionView::Translate { text: sql })
                && a.0.sql == sql
            &&& !r.skip && !is_junk(sql) ==> if translated.yes && translated.text is Some {
                b.1 is LookUp
            } else {
                b.1 == told(0)
            }
        }),
{
}

/// Whichever way a text with numbers is run, the server gets it whole: the parameters that are sent
/// are the same whether the prepared statement was found or was prepared now, and putting them back
/// in the place of their marks gives the server's text, which is also what is run where preparing
/// does not work. A text without numbers is run as it is, and without parameters. The hash that is
/// looked for and noted is that of the text that is prepared.
#[verifier::rlimit(60)]
#[verifier::spinoff_prover]
pub proof fn law_parameters_go_along(
    s: State,
    translated: Answer,
    found: Answer,
    missing: Answer,
    prepared: Answer,
    refused: Answer,
    pg: Seq<u8>,
    full: Seq<u8>,
)
    requires
        s.stage == Stage::Translated,
        translated.yes,
        translated.text == Some(pg),
        found.yes,
        !missing.yes,
        prepared.yes,
        !refused.yes,
        bytes::occurs_at_icase(s.sql, 0, "INSERT".spec_bytes()) && bytes::first_occurrence(
            pg,
            0,
            "RETURNING".spec_bytes(),
        ) is None ==> full == pg + " RETURNING id".spec_bytes(),
        !(bytes::occurs_at_icase(s.sql, 0, "INSERT".spec_bytes()) && bytes::first_occurrence(
            pg,
            0,
            "RETURNING".spec_bytes(),
        ) is None) ==> full == pg,
    ensures
        ({
            let a = after(s, translated);
            let b = after(a.0, found);
            let c = after(a.0, missing);
            &&& a.1 is LookUp
            &&& b.1 is RunFound
            &&& match c.1 {
                ActionView::PrepareAs { name, text } => {
                    let params = b.1->RunFound_params;
                    let q = literals::Quotes { single: false, double: false };
                    &&& after(c.0, prepared).1 == (ActionView::NoteAndRun {
                        hash: a.1->LookUp_hash,
                        name,
                        params,
                    })
                    &&& after(c.0, refused).1 == (ActionView::Run { text: full })
                    &&& a.1->LookUp_hash == hash::fnv(text)
                    &&& 0 < params.len() <= 32
                    &&& valid_utf8(text)
                    &&& literals::no_marks(full, 0, q, params.len() as int) ==> literals::filled(
                        decode_utf8(text),
                        q,
                        params,
                    ) == literals::as_chars(full)
                },
                ActionView::Run { text } => text == full && b.1->RunFound_params.len() == 0
                    && a.1->LookUp_hash == prepare_text::statement_key(full),
                _ => false,
            }
        }),
{
    let q = literals::Quotes { single: false, double: false };
    let n = literals::normalized(full, 0, q, 0);
    literals::law_parameters_are_numbers(full, 0, q, 0);
    encode_utf8_valid_utf8(n.0);
    encode_utf8_decode_utf8(n.0);
    if literals::no_marks(full, 0, q, n.1.len() as int) {
        literals::law_parameters_put_back(full);
    }
}

/// A text is run with parameters exactly where it is UTF-8, has a condition and has a number to be
/// replaced.
pub proof fn law_numbers_become_parameters(s: State, translated: Answer, missing: Answer, pg: Seq<u8>)
    requires
        s.stage == Stage::Translated,
        translated.yes,
        translated.text == Some(pg),
        !missing.yes,
        !bytes::occurs_at_icase(s.sql, 0, "INSERT".spec_bytes()),
    ensures
        after(after(s, translated).0, missing).1 is PrepareAs <==> valid_utf8(pg)
            && literals::has_condition(pg) && literals::normalized(
            pg,
            0,
            literals::Quotes { single: false, double: false },
            0,
        ).1.len() > 0,
{
}

/// Statements that the server ran are answered with success and counted; an item is noted only of
/// an insertion that returned a row with a number; anything else is checked first, and the prepared
/// statements are forgotten exactly where the server did not know one.
pub proof fn law_results_are_told(s: State, r: Answer)
    requires
        s.stage == Stage::Ran,
    ensures
        r.status == 1 || r.status == 2 ==> (after(s, r).1 matches ActionView::Return {
            rc,
            changes,
            item,
            broken,
            deactivate,
        } && rc == 0 && changes && !broken && !deactivate && (item is Some ==> r.status == 2
            && r.has_id && item->0 > 0 && bytes::occurs_at_icase(
            s.sql,
            0,
            "INSERT".spec_bytes(),
        ))),
        r.status == 2 && r.has_id && bytes::occurs_at_icase(s.sql, 0, "INSERT".spec_bytes()) ==> (
        after(s, r).1 matches ActionView::Return { item, .. } && item == queued(s.sql)),
        r.status != 1 && r.status != 2 ==> after(s, r).1 == (ActionView::CheckHealth {
            forget: r.stale,
        }),
{
}

/// The collation is taken out exactly where the text names it and the local database is to run it.
pub proof fn law_only_the_collation_is_stripped(s: State, r: Answer)
    requires
        s.stage == Stage::Inspected,
    ensures
        after(s, r).1 == ActionView::StripCollation <==> !(r.link.present && r.link.active)
            && bytes::occurs_icase(s.sql, "collate icu_root".spec_bytes()),
{
}

/// An insertion into the play queue that names an item behind its path is about that item, whichever
/// number from one on it has; without a number above zero there it is about none.
pub proof fn law_queued_items_are_told(sql: Seq<u8>, n: nat, rest: Seq<char>)
    requires
        valid_utf8(sql),
        text::occurs(text::lowercase(decoded(sql)), "play_queue_generators"@),
        text::occurs(text::lowercase(decoded(sql)), "insert"@),
        pg_statement::behind_metadata_path(decoded(sql)) == Some(text::number(n) + rest),
        n <= i64::MAX,
        rest.len() > 0 ==> !('0' <= rest[0] <= '9'),
    ensures
        n >= 1 ==> queued(sql) == Some(n as i64),
        n == 0 ==> queued(sql) is None,
{
    pg_statement::law_leading_numbers_read_back(n, rest);
}

} // verus!
