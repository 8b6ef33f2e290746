//! Running a prepared statement to its next row.
//!
//! The caller talks to the databases; each step says what it has to do or find out next.

use crate::exec;
use crate::prepare_text;
use crate::retry;
use crate::retry::RetryState;
use vstd::prelude::*;

verus! {

/// Failure.
pub const SQLITE_ERROR: i32 = 1;

/// There is a row.
pub const SQLITE_ROW: i32 = 100;

/// There are no more rows.
pub const SQLITE_DONE: i32 = 101;

/// The kinds of statements: run locally, write, read, skipped.
pub const KIND_LOCAL: i32 = 0;

pub const KIND_WRITE: i32 = 1;

pub const KIND_READ: i32 = 2;

pub const KIND_SKIPPED: i32 = 3;

/// What is known of the server-side part of a statement.
#[derive(Clone, Copy, Debug, PartialEq, Eq, Structural)]
pub struct StmtInfo {
    /// There is one.
    pub known: bool,
    pub kind: i32,
    /// It has a text.
    pub has_sql: bool,
    /// It stands beside a local statement.
    pub has_shadow: bool,
    /// All rows were read.
    pub read_done: bool,
    /// A result that was kept is being read.
    pub kept_result: bool,
    /// Rows come in one by one.
    pub streaming: bool,
    /// The whole result is there.
    pub has_result: bool,
    /// The write was done.
    pub write_executed: bool,
}

/// What is known of a server connection.
#[derive(Clone, Copy, Debug, PartialEq, Eq, Structural)]
pub struct ConnInfo {
    pub present: bool,
    pub active: bool,
    pub connected: bool,
    /// It stands for one of the library's databases.
    pub library: bool,
}

/// What the caller was asked last.
#[derive(Clone, Copy, Debug, PartialEq, Eq, Structural)]
pub enum Stage {
    Local,
    UnknownConn,
    UnknownText,
    UnknownWritten,
    UnknownNoop,
    UnknownTranslated,
    UnknownWrite,
    UnknownLocal,
    UnknownAdvanced { local: i32 },
    UnknownReadTranslated { local: i32 },
    UnknownRead { local: i32 },
    Conn,
    PoolConn,
    Touched,
    Advanced,
    ReadReady,
    Streamed,
    Fetched,
    FirstRead,
    WriteNoop,
    WriteSpecial,
    WriteReady,
    Written,
    Over,
}

/// What the caller has to do, or find out, next.
#[derive(Clone, Copy, Debug, PartialEq, Eq, Structural)]
pub enum Action {
    /// Let the local database step.
    StepLocally,
    /// Find the connection of the local statement's database, else any to the library.
    FindAnyConnection,
    /// The text of the local statement with its parameters put in, or as it was prepared; what kind
    /// it is; and whether either text is to be skipped.
    ReadText,
    /// Does the thread keep a server-side part whose write was done?
    FindKept,
    /// Is it the end of a transaction that is not open?
    AskNoop,
    /// Translate the text.
    Translate,
    /// Run the write and note that it was done; `rc` tells how it went.
    RunKeptWrite,
    /// Go on in the result that is kept, if there is one; `rc` is what it gives.
    AdvanceKept,
    /// Set up a server-side part and read with it; `rc` is what it gives, -1 for nothing.
    RunKeptRead,
    /// Find the connection of the local statement's database.
    FindConnection,
    /// Get a connection for that database from the pool.
    GetFromPool,
    /// Go on in the result that was kept.
    AdvanceResult,
    /// Note that the pooled connection was used.
    Touch,
    /// Get ready to read, then tell what is known of the statement.
    GetReady,
    /// Fetch the next row that comes in.
    StreamNext,
    /// Go on in the whole result.
    EagerNext,
    /// Run the query.
    RunQuery,
    /// Is it the end of a transaction that is not open?
    AskWriteNoop,
    /// Is it one of the insertions that are left out?
    AskSpecial,
    /// Get the connection ready.
    GetReadyToWrite,
    /// Run the write.
    RunWrite,
    /// Done. `executed`: note that the write was done. `broken`: the link to the server failed.
    Return { rc: i32, executed: bool, broken: bool },
}

/// What came of it. Each step reads only the parts that it asked for.
pub struct Reply {
    pub yes: bool,
    pub rc: i32,
    /// The link to the server failed.
    pub broken: bool,
    pub conn: ConnInfo,
    pub stmt: StmtInfo,
    pub text: Option<Vec<u8>>,
    pub read: bool,
    pub write: bool,
    pub skip: bool,
    pub skip_original: bool,
}

/// A statement that is being run.
#[derive(Clone, Copy, Debug, PartialEq, Eq, Structural)]
pub struct Step {
    pub stmt: StmtInfo,
    pub stage: Stage,
}

/// At a stage, with something to do.
pub open spec fn at(s: Step, stage: Stage, action: Action) -> (Step, Action) {
    (Step { stage, ..s }, action)
}

/// The end.
pub open spec fn done(s: Step, rc: i32) -> (Step, Action) {
    at(s, Stage::Over, Action::Return { rc, executed: false, broken: false })
}

/// The end after a failure.
pub open spec fn failed(s: Step, broken: bool) -> (Step, Action) {
    at(s, Stage::Over, Action::Return { rc: SQLITE_ERROR, executed: false, broken })
}

/// Nothing is left for the server to do: a write is done with that, anything else is up to the
/// local database.
pub open spec fn leave(s: Step) -> (Step, Action) {
    if s.stmt.known && s.stmt.kind == KIND_WRITE {
        done(s, SQLITE_DONE)
    } else {
        at(s, Stage::Local, Action::StepLocally)
    }
}

/// There is a connection to run the statement on.
pub open spec fn on_conn(s: Step) -> (Step, Action) {
    if !s.stmt.has_sql {
        leave(s)
    } else if s.stmt.kind == KIND_READ {
        if s.stmt.read_done {
            done(s, SQLITE_DONE)
        } else if s.stmt.kept_result {
            at(s, Stage::Advanced, Action::AdvanceResult)
        } else {
            at(s, Stage::ReadReady, Action::GetReady)
        }
    } else if s.stmt.kind == KIND_WRITE {
        if s.stmt.write_executed {
            done(s, SQLITE_DONE)
        } else {
            at(s, Stage::WriteNoop, Action::AskWriteNoop)
        }
    } else {
        leave(s)
    }
}

/// The text of a statement without a server-side part is known.
pub open spec fn on_text(
    s: Step,
    text: Option<Seq<u8>>,
    read: bool,
    write: bool,
    skip: bool,
    skip_original: bool,
) -> (Step, Action) {
    match text {
        Some(t) => if write && !skip && !skip_original {
            if exec::is_junk(t) {
                done(s, SQLITE_DONE)
            } else {
                at(s, Stage::UnknownWritten, Action::FindKept)
            }
        } else if read && !skip {
            at(s, Stage::UnknownLocal, Action::StepLocally)
        } else {
            at(s, Stage::Local, Action::StepLocally)
        },
        None => at(s, Stage::Local, Action::StepLocally),
    }
}

/// What a step does, given the answer to what was asked.
pub open spec fn turn(
    s: Step,
    yes: bool,
    rc: i32,
    broken: bool,
    conn: ConnInfo,
    stmt: StmtInfo,
    text: Option<Seq<u8>>,
    read: bool,
    write: bool,
    skip: bool,
    skip_original: bool,
) -> (Step, Action) {
    match s.stage {
        Stage::Local => done(s, rc),
        Stage::UnknownConn => if conn.present && conn.active && conn.connected && conn.library {
            at(s, Stage::UnknownText, Action::ReadText)
        } else {
            at(s, Stage::Local, Action::StepLocally)
        },
        Stage::UnknownText => on_text(s, text, read, write, skip, skip_original),
        Stage::UnknownWritten => if yes {
            done(s, SQLITE_DONE)
        } else {
            at(s, Stage::UnknownNoop, Action::AskNoop)
        },
        Stage::UnknownNoop => if yes {
            done(s, SQLITE_DONE)
        } else {
            at(s, Stage::UnknownTranslated, Action::Translate)
        },
        Stage::UnknownTranslated => if yes {
            at(s, Stage::UnknownWrite, Action::RunKeptWrite)
        } else {
            done(s, SQLITE_DONE)
        },
        Stage::UnknownWrite => if rc == SQLITE_ERROR {
            failed(s, broken)
        } else {
            done(s, SQLITE_DONE)
        },
        Stage::UnknownLocal => if rc == SQLITE_ROW || rc == SQLITE_DONE {
            at(s, Stage::UnknownAdvanced { local: rc }, Action::AdvanceKept)
        } else {
            done(s, rc)
        },
        Stage::UnknownAdvanced { local } => if yes {
            done(s, rc)
        } else {
            at(s, Stage::UnknownReadTranslated { local }, Action::Translate)
        },
        Stage::UnknownReadTranslated { local } => if yes {
            at(s, Stage::UnknownRead { local }, Action::RunKeptRead)
        } else {
            done(s, local)
        },
        Stage::UnknownRead { local } => if rc == SQLITE_ERROR {
            failed(s, broken)
        } else if rc == SQLITE_ROW || rc == SQLITE_DONE {
            done(s, rc)
        } else {
            done(s, local)
        },
        Stage::Conn => if conn.present && conn.active && conn.library {
            if conn.connected {
                on_conn(s)
            } else {
                at(s, Stage::PoolConn, Action::GetFromPool)
            }
        } else {
            leave(s)
        },
        Stage::PoolConn => if conn.present && conn.active && conn.connected {
            at(s, Stage::Touched, Action::Touch)
        } else {
            leave(s)
        },
        Stage::Touched => on_conn(s),
        Stage::Advanced => done(s, rc),
        Stage::ReadReady => {
            let next = Step { stmt, ..s };
            if stmt.streaming {
                at(next, Stage::Streamed, Action::StreamNext)
            } else if stmt.has_result {
                at(next, Stage::Fetched, Action::EagerNext)
            } else {
                at(next, Stage::FirstRead, Action::RunQuery)
            }
        },
        Stage::Streamed => done(s, rc),
        Stage::Fetched => done(s, rc),
        Stage::FirstRead => if rc == SQLITE_ERROR {
            failed(s, broken)
        } else {
            done(s, rc)
        },
        Stage::WriteNoop => if yes {
            at(
                s,
                Stage::Over,
                Action::Return { rc: SQLITE_DONE, executed: true, broken: false },
            )
        } else {
            at(s, Stage::WriteSpecial, Action::AskSpecial)
        },
        Stage::WriteSpecial => if yes {
            done(s, SQLITE_DONE)
        } else {
            at(s, Stage::WriteReady, Action::GetReadyToWrite)
        },
        Stage::WriteReady => if rc == SQLITE_ERROR {
            failed(s, broken)
        } else {
            at(s, Stage::Written, Action::RunWrite)
        },
        Stage::Written => if rc == SQLITE_ERROR {
            failed(s, broken)
        } else {
            done(s, SQLITE_DONE)
        },
        Stage::Over => done(s, SQLITE_ERROR),
    }
}

/// Where a statement begins, and what is to be done first.
pub open spec fn begin(stmt: StmtInfo, resolving: bool) -> (Step, Action) {
    let s = Step { stmt, stage: Stage::Over };
    if resolving {
        at(s, Stage::Local, Action::StepLocally)
    } else if !stmt.known {
        at(s, Stage::UnknownConn, Action::FindAnyConnection)
    } else if stmt.kind == KIND_SKIPPED {
        done(s, SQLITE_DONE)
    } else if stmt.has_shadow {
        at(s, Stage::Conn, Action::FindConnection)
    } else {
        leave(s)
    }
}

impl Step {
    fn at(&mut self, stage: Stage, action: Action) -> (r: Action)
        ensures
            (*final(self), r) == at(*old(self), stage, action),
    {
        self.stage = stage;
        action
    }

    fn done(&mut self, rc: i32) -> (r: Action)
        ensures
            (*final(self), r) == done(*old(self), rc),
    {
        self.at(Stage::Over, Action::Return { rc, executed: false, broken: false })
    }

    fn failed(&mut self, broken: bool) -> (r: Action)
        ensures
            (*final(self), r) == failed(*old(self), broken),
    {
        self.at(Stage::Over, Action::Return { rc: SQLITE_ERROR, executed: false, broken })
    }

    fn leave(&mut self) -> (r: Action)
        ensures
            (*final(self), r) == leave(*old(self)),
    {
        if self.stmt.known && self.stmt.kind == KIND_WRITE {
            self.done(SQLITE_DONE)
        } else {
            self.at(Stage::Local, Action::StepLocally)
        }
    }

    fn on_conn(&mut self) -> (r: Action)
        ensures
            (*final(self), r) == on_conn(*old(self)),
    {
        if !self.stmt.has_sql {
            self.leave()
        } else if self.stmt.kind == KIND_READ {
            if self.stmt.read_done {
                self.done(SQLITE_DONE)
            } else if self.stmt.kept_result {
                self.at(Stage::Advanced, Action::AdvanceResult)
            } else {
                self.at(Stage::ReadReady, Action::GetReady)
            }
        } else if self.stmt.kind == KIND_WRITE {
            if self.stmt.write_executed {
                self.done(SQLITE_DONE)
            } else {
                self.at(Stage::WriteNoop, Action::AskWriteNoop)
            }
        } else {
            self.leave()
        }
    }

    fn on_text(&mut self, reply: &Reply) -> (r: Action)
        ensures
            (*final(self), r) == on_text(
                *old(self),
                prepare_text::opt_bytes(reply.text),
                reply.read,
                reply.write,
                reply.skip,
                reply.skip_original,
            ),
    {
        match &reply.text {
            Some(t) => if reply.write && !reply.skip && !reply.skip_original {
                if exec::is_junk_insert(t.as_slice()) {
                    self.done(SQLITE_DONE)
                } else {
                    self.at(Stage::UnknownWritten, Action::FindKept)
                }
            } else if reply.read && !reply.skip {
                self.at(Stage::UnknownLocal, Action::StepLocally)
            } else {
                self.at(Stage::Local, Action::StepLocally)
            },
            None => self.at(Stage::Local, Action::StepLocally),
        }
    }

    /// Begins to run a statement. `resolving`: table names are being looked up, which is no business
    /// of the server's.
    pub fn my_sqlite3_step_impl(stmt: StmtInfo, resolving: bool) -> (r: (Step, Action))
        ensures
            r == begin(stmt, resolving),
    {
        let mut s = Step { stmt, stage: Stage::Over };
        let action = if resolving {
            s.at(Stage::Local, Action::StepLocally)
        } else if !stmt.known {
            s.at(Stage::UnknownConn, Action::FindAnyConnection)
        } else if stmt.kind == KIND_SKIPPED {
            s.done(SQLITE_DONE)
        } else if stmt.has_shadow {
            s.at(Stage::Conn, Action::FindConnection)
        } else {
            s.leave()
        };
        (s, action)
    }

    /// Goes on with the answer to what was asked last.
    pub fn resume(&mut self, reply: &Reply) -> (r: Action)
        ensures
            (*final(self), r) == turn(
                *old(self),
                reply.yes,
                reply.rc,
                reply.broken,
                reply.conn,
                reply.stmt,
                prepare_text::opt_bytes(reply.text),
                reply.read,
                reply.write,
                reply.skip,
                reply.skip_original,
            ),
    {
        let conn = reply.conn;
        let rc: i32 = reply.rc;
        match self.stage {
            Stage::Local => self.done(rc),
            Stage::UnknownConn => if conn.present && conn.active && conn.connected && conn.library {
                self.at(Stage::UnknownText, Action::ReadText)
            } else {
                self.at(Stage::Local, Action::StepLocally)
            },
            Stage::UnknownText => self.on_text(reply),
            Stage::UnknownWritten => if reply.yes {
                self.done(SQLITE_DONE)
            } else {
                self.at(Stage::UnknownNoop, Action::AskNoop)
            },
            Stage::UnknownNoop => if reply.yes {
                self.done(SQLITE_DONE)
            } else {
                self.at(Stage::UnknownTranslated, Action::Translate)
            },
            Stage::UnknownTranslated => if reply.yes {
                self.at(Stage::UnknownWrite, Action::RunKeptWrite)
            } else {
                self.done(SQLITE_DONE)
            },
            Stage::UnknownWrite => if rc == SQLITE_ERROR {
                self.failed(reply.broken)
            } else {
                self.done(SQLITE_DONE)
            },
            Stage::UnknownLocal => if rc == SQLITE_ROW || rc == SQLITE_DONE {
                self.at(Stage::UnknownAdvanced { local: rc }, Action::AdvanceKept)
            } else {
                self.done(rc)
            },
            Stage::UnknownAdvanced { local } => if reply.yes {
                self.done(rc)
            } else {
                self.at(Stage::UnknownReadTranslated { local }, Action::Translate)
            },
            Stage::UnknownReadTranslated { local } => if reply.yes {
                self.at(Stage::UnknownRead { local }, Action::RunKeptRead)
            } else {
                self.done(local)
            },
            Stage::UnknownRead { local } => if rc == SQLITE_ERROR {
                self.failed(reply.broken)
            } else if rc == SQLITE_ROW || rc == SQLITE_DONE {
                self.done(rc)
            } else {
                self.done(local)
            },
            Stage::Conn => if conn.present && conn.active && conn.library {
                if conn.connected {
                    self.on_conn()
                } else {
                    self.at(Stage::PoolConn, Action::GetFromPool)
                }
            } else {
                self.leave()
            },
            Stage::PoolConn => if conn.present && conn.active && conn.connected {
                self.at(Stage::Touched, Action::Touch)
            } else {
                self.leave()
            },
            Stage::Touched => self.on_conn(),
            Stage::Advanced => self.done(rc),
            Stage::ReadReady => {
                self.stmt = reply.stmt;
                if reply.stmt.streaming {
                    self.at(Stage::Streamed, Action::StreamNext)
                } else if reply.stmt.has_result {
                    self.at(Stage::Fetched, Action::EagerNext)
                } else {
                    self.at(Stage::FirstRead, Action::RunQuery)
                }
            },
            Stage::Streamed => self.done(rc),
            Stage::Fetched => self.done(rc),
            Stage::FirstRead => if rc == SQLITE_ERROR {
                self.failed(reply.broken)
            } else {
                self.done(rc)
            },
            Stage::WriteNoop => if reply.yes {
                self.at(
                    Stage::Over,
                    Action::Return { rc: SQLITE_DONE, executed: true, broken: false },
                )
            } else {
                self.at(Stage::WriteSpecial, Action::AskSpecial)
            },
            Stage::WriteSpecial => if reply.yes {
                self.done(SQLITE_DONE)
            } else {
                self.at(Stage::WriteReady, Action::GetReadyToWrite)
            },
            Stage::WriteReady => if rc == SQLITE_ERROR {
                self.failed(reply.broken)
            } else {
                self.at(Stage::Written, Action::RunWrite)
            },
            Stage::Written => if rc == SQLITE_ERROR {
                self.failed(reply.broken)
            } else {
                self.done(SQLITE_DONE)
            },
            Stage::Over => self.done(SQLITE_ERROR),
        }
    }
}

/// Is the statement marked as at work before it is stepped? Where the server knows of it, and no
/// table names are being looked up.
pub fn marks_in_step(stmt: StmtInfo, resolving: bool) -> (r: bool)
    ensures
        r == (stmt.known && !resolving),
{
    stmt.known && !resolving
}

/// A statement that the server runs.
pub open spec fn runs_on_server(stmt: StmtInfo) -> bool {
    stmt.known && stmt.kind != KIND_LOCAL
}

/// May there be another try after a step that failed? Only where the link did, and for a statement
/// that the server runs.
pub fn may_retry(stmt: StmtInfo, conn_error: bool) -> (r: bool)
    ensures
        r == (runs_on_server(stmt) && conn_error),
{
    stmt.known && stmt.kind != KIND_LOCAL && conn_error
}

/// Is there to be another step, and how many milliseconds are to pass before it?
pub open spec fn another_step(
    stmt: StmtInfo,
    s: RetryState,
    rc: i32,
    delays: Seq<i32>,
) -> Option<nat> {
    if runs_on_server(stmt) {
        retry::another_try(s, rc, delays)
    } else {
        None
    }
}

/// Decides after a step that ended with `rc`: a statement that the server runs is stepped again as
/// after any try, and any other is not. Without another step counting starts anew, and the note on
/// the link stays.
pub fn decide_step(stmt: StmtInfo, state: &mut RetryState, rc: i32, delays: &Vec<i32>) -> (r: Option<
    u32,
>)
    ensures
        match another_step(stmt, *old(state), rc, delays@) {
            Some(ms) => r == Some(ms as u32) && r->0 == ms && *final(state) == retry::decided(
                *old(state),
                rc,
                delays@,
            ),
            None => r is None && *final(state) == (RetryState { retry_count: 0, ..*old(state) }),
        },
{
    if may_retry(stmt, state.conn_error) {
        state.decide(rc, delays)
    } else {
        state.retry_count = 0;
        None
    }
}

/// A write that was done is not done again, and a query whose rows were all read is not run again.
pub proof fn law_nothing_is_run_twice(s: Step)
    requires
        s.stmt.known,
        s.stmt.has_sql,
        (s.stmt.kind == KIND_WRITE && s.stmt.write_executed) || (s.stmt.kind == KIND_READ
            && s.stmt.read_done),
    ensures
        on_conn(s).1 == (Action::Return {
            rc: SQLITE_DONE,
            executed: false,
            broken: false,
        }),
{
}

/// The local database never steps for a write that the server runs.
pub proof fn law_writes_stay_on_the_server(
    s: Step,
    yes: bool,
    rc: i32,
    broken: bool,
    conn: ConnInfo,
    stmt: StmtInfo,
    text: Option<Seq<u8>>,
    read: bool,
    write: bool,
    skip: bool,
    skip_original: bool,
)
    requires
        s.stmt.known,
        s.stmt.kind == KIND_WRITE,
        s.stage == Stage::Conn || s.stage == Stage::PoolConn || s.stage == Stage::Touched || s.stage
            == Stage::WriteNoop
            || s.stage == Stage::WriteSpecial || s.stage == Stage::WriteReady || s.stage
            == Stage::Written,
    ensures
        turn(
            s,
            yes,
            rc,
            broken,
            conn,
            stmt,
            text,
            read,
            write,
            skip,
            skip_original,
        ).1 != Action::StepLocally,
{
}

/// How far a step still is from its end.
pub open spec fn rank(stage: Stage) -> int {
    match stage {
        Stage::UnknownConn => 21,
        Stage::UnknownText => 20,
        Stage::UnknownWritten => 19,
        Stage::UnknownNoop => 18,
        Stage::UnknownTranslated => 17,
        Stage::UnknownWrite => 16,
        Stage::UnknownLocal => 15,
        Stage::UnknownAdvanced { .. } => 14,
        Stage::UnknownReadTranslated { .. } => 13,
        Stage::UnknownRead { .. } => 12,
        Stage::Conn => 11,
        Stage::PoolConn => 10,
        Stage::Touched => 9,
        Stage::WriteNoop => 8,
        Stage::WriteSpecial => 7,
        Stage::WriteReady => 6,
        Stage::Written => 5,
        Stage::ReadReady => 4,
        Stage::Advanced => 3,
        Stage::Streamed => 3,
        Stage::Fetched => 3,
        Stage::FirstRead => 3,
        Stage::Local => 1,
        Stage::Over => 0,
    }
}

/// Every step brings a statement nearer to its next row or its end, whatever is answered.
pub proof fn law_progress(
    s: Step,
    yes: bool,
    rc: i32,
    broken: bool,
    conn: ConnInfo,
    stmt: StmtInfo,
    text: Option<Seq<u8>>,
    read: bool,
    write: bool,
    skip: bool,
    skip_original: bool,
)
    requires
        s.stage != Stage::Over,
    ensures
        rank(
            turn(
                s,
                yes,
                rc,
                broken,
                conn,
                stmt,
                text,
                read,
                write,
                skip,
                skip_original,
            ).0.stage,
        ) < rank(s.stage),
{
    let t = turn(s, yes, rc, broken, conn, stmt, text, read, write, skip, skip_original).0;
    match s.stage {
        Stage::Conn | Stage::PoolConn | Stage::Touched => {
            assert(rank(t.stage) < rank(s.stage));
        },
        Stage::UnknownConn | Stage::UnknownText | Stage::UnknownWritten | Stage::UnknownNoop => {
            assert(rank(t.stage) < rank(s.stage));
        },
        Stage::UnknownLocal | Stage::UnknownAdvanced { .. } | Stage::UnknownReadTranslated { .. } => {
            assert(rank(t.stage) < rank(s.stage));
        },
        _ => {},
    }
}

/// What the caller answers, as plain values.
pub ghost struct Answer {
    pub yes: bool,
    pub rc: i32,
    pub broken: bool,
    pub conn: ConnInfo,
    pub stmt: StmtInfo,
    pub text: Option<Seq<u8>>,
    pub read: bool,
    pub write: bool,
    pub skip: bool,
    pub skip_original: bool,
}

/// Where a statement stands once the answer is in, and what is to be done then.
pub open spec fn after(s: Step, r: Answer) -> (Step, Action) {
    turn(
        s,
        r.yes,
        r.rc,
        r.broken,
        r.conn,
        r.stmt,
        r.text,
        r.read,
        r.write,
        r.skip,
        r.skip_original,
    )
}

/// What the caller was told to do, where a statement waits at this stage.
pub open spec fn question(stage: Stage) -> Action {
    match stage {
        Stage::Local => Action::StepLocally,
        Stage::UnknownConn => Action::FindAnyConnection,
        Stage::UnknownText => Action::ReadText,
        Stage::UnknownWritten => Action::FindKept,
        Stage::UnknownNoop => Action::AskNoop,
        Stage::UnknownTranslated => Action::Translate,
        Stage::UnknownWrite => Action::RunKeptWrite,
        Stage::UnknownLocal => Action::StepLocally,
        Stage::UnknownAdvanced { .. } => Action::AdvanceKept,
        Stage::UnknownReadTranslated { .. } => Action::Translate,
        Stage::UnknownRead { .. } => Action::RunKeptRead,
        Stage::Conn => Action::FindConnection,
        Stage::PoolConn => Action::GetFromPool,
        Stage::Touched => Action::Touch,
        Stage::Advanced => Action::AdvanceResult,
        Stage::ReadReady => Action::GetReady,
        Stage::Streamed => Action::StreamNext,
        Stage::Fetched => Action::EagerNext,
        Stage::FirstRead => Action::RunQuery,
        Stage::WriteNoop => Action::AskWriteNoop,
        Stage::WriteSpecial => Action::AskSpecial,
        Stage::WriteReady => Action::GetReadyToWrite,
        Stage::Written => Action::RunWrite,
        Stage::Over => Action::Return { rc: 1, executed: false, broken: false },
    }
}

/// A statement waits for the answer to what the caller was told to do, and a statement that is over
/// waits for nothing.
#[verifier::rlimit(60)]
#[verifier::spinoff_prover]
pub proof fn law_question_is_remembered(s: Step, r: Answer, stmt: StmtInfo, resolving: bool)
    ensures
        after(s, r).1 is Return <==> after(s, r).0.stage == Stage::Over,
        !(after(s, r).1 is Return) ==> after(s, r).1 == question(after(s, r).0.stage),
        begin(stmt, resolving).1 is Return <==> begin(stmt, resolving).0.stage == Stage::Over,
        !(begin(stmt, resolving).1 is Return) ==> begin(stmt, resolving).1 == question(
            begin(stmt, resolving).0.stage,
        ),
{
    let t = after(s, r);
    match s.stage {
        Stage::Conn | Stage::PoolConn | Stage::Touched => {
            assert(t.1 is Return || t.1 == question(t.0.stage));
        },
        Stage::UnknownText => {
            assert(t.1 is Return || t.1 == question(t.0.stage));
        },
        Stage::UnknownLocal | Stage::UnknownAdvanced { .. } | Stage::UnknownReadTranslated { .. } => {
            assert(t.1 is Return || t.1 == question(t.0.stage));
        },
        Stage::ReadReady | Stage::WriteNoop | Stage::WriteSpecial | Stage::WriteReady => {
            assert(t.1 is Return || t.1 == question(t.0.stage));
        },
        _ => {
            assert(t.1 is Return || t.1 == question(t.0.stage));
        },
    }
}

/// The statement is at a stage for statements of its kind: without a server-side part, a read of
/// the server's, or a write of the server's.
pub open spec fn at_its_place(s: Step) -> bool {
    match s.stage {
        Stage::UnknownConn | Stage::UnknownText | Stage::UnknownWritten | Stage::UnknownNoop
        | Stage::UnknownTranslated | Stage::UnknownWrite | Stage::UnknownLocal
        | Stage::UnknownAdvanced { .. } | Stage::UnknownReadTranslated { .. }
        | Stage::UnknownRead { .. } => !s.stmt.known,
        Stage::Conn | Stage::PoolConn | Stage::Touched => s.stmt.known && s.stmt.kind != 3
            && s.stmt.has_shadow,
        Stage::Advanced | Stage::ReadReady | Stage::Streamed | Stage::Fetched | Stage::FirstRead =>
        s.stmt.known && s.stmt.kind == 2,
        Stage::WriteNoop | Stage::WriteSpecial | Stage::WriteReady | Stage::Written => s.stmt.known
            && s.stmt.kind == 1 && !s.stmt.write_executed,
        Stage::Local => true,
        Stage::Over => true,
    }
}

/// A statement is and stays at the stages for its kind, if what is told of it once it is ready to
/// be read does not make it another one.
pub proof fn law_stays_at_its_place(s: Step, r: Answer, stmt: StmtInfo, resolving: bool)
    requires
        at_its_place(s),
        s.stage == Stage::ReadReady ==> r.stmt.known && r.stmt.kind == 2,
    ensures
        at_its_place(after(s, r).0),
        at_its_place(begin(stmt, resolving).0),
        begin(stmt, resolving).0.stmt == stmt,
        s.stage != Stage::ReadReady ==> after(s, r).0.stmt == s.stmt,
        s.stage == Stage::ReadReady ==> after(s, r).0.stmt == r.stmt,
{
}

/// What fetching the next row gave is what the caller of the step is told: a row where there is
/// one, the end where there is none, and a failure where it failed.
pub proof fn law_rows_are_told(s: Step, r: Answer)
    requires
        question(s.stage) == Action::StreamNext || question(s.stage) == Action::EagerNext
            || question(s.stage) == Action::AdvanceResult || question(s.stage) == Action::RunQuery,
    ensures
        after(s, r).1 matches Action::Return { rc, executed, broken } && rc == r.rc && !executed
            && broken == (question(s.stage) == Action::RunQuery && r.rc == 1 && r.broken),
{
}

/// The end of the rows of a read that the server runs is told only where it was answered, or where
/// all rows had been read; and no row is told of that was not answered.
pub proof fn law_end_is_not_invented(s: Step, r: Answer)
    requires
        at_its_place(s),
        s.stmt.known,
        s.stmt.kind == 2,
        s.stage != Stage::Over,
    ensures
        after(s, r).1 matches Action::Return { rc, .. } ==> rc == r.rc || (rc == 101
            && s.stmt.read_done && s.stmt.has_sql),
{
}

/// A read is answered by the server while it has rows: with a connection that works, the kept
/// result is read on, else rows that come in, else the whole result, and only without any of these
/// the query is run.
pub proof fn law_reads_go_on(s: Step, r: Answer, ready: Answer)
    requires
        s.stage == Stage::Conn,
        s.stmt.kind == 2,
        s.stmt.has_sql,
        !s.stmt.read_done,
        r.conn.present,
        r.conn.active,
        r.conn.library,
        r.conn.connected,
    ensures
        s.stmt.kept_result ==> after(s, r).1 == Action::AdvanceResult,
        !s.stmt.kept_result ==> after(s, r).1 == Action::GetReady && after(
            after(s, r).0,
            ready,
        ).1 == (if ready.stmt.streaming {
            Action::StreamNext
        } else if ready.stmt.has_result {
            Action::EagerNext
        } else {
            Action::RunQuery
        }),
{
}

/// A write that was not done yet is run on the server: with a connection that works, it is run
/// unless it is said to end a transaction that is not open, or to be left out, or the connection
/// cannot be got ready.
pub proof fn law_writes_are_run(s: Step, found: Answer, noop: Answer, special: Answer, ready: Answer)
    requires
        s.stage == Stage::Conn,
        s.stmt.kind == 1,
        s.stmt.has_sql,
        !s.stmt.write_executed,
        found.conn.present,
        found.conn.active,
        found.conn.library,
        found.conn.connected,
    ensures
        ({
            let a = after(s, found);
            let b = after(a.0, noop);
            let c = after(b.0, special);
            let d = after(c.0, ready);
            &&& a.1 == Action::AskWriteNoop
            &&& noop.yes ==> b.1 == (Action::Return { rc: 101, executed: true, broken: false })
            &&& !noop.yes ==> b.1 == Action::AskSpecial
            &&& !noop.yes && special.yes ==> c.1 == (Action::Return {
                rc: 101,
                executed: false,
                broken: false,
            })
            &&& !noop.yes && !special.yes ==> c.1 == Action::GetReadyToWrite
            &&& !noop.yes && !special.yes && ready.rc == 1 ==> d.1 == (Action::Return {
                rc: 1,
                executed: false,
                broken: ready.broken,
            })
            &&& !noop.yes && !special.yes && ready.rc != 1 ==> d.1 == Action::RunWrite
        }),
{
}

/// A write is said to be done only where it was run without a failure, where it had been done
/// before, or where there was nothing that the server was to do.
pub proof fn law_failed_writes_are_told(s: Step, r: Answer)
    requires
        question(s.stage) == Action::RunWrite || question(s.stage) == Action::RunKeptWrite,
    ensures
        after(s, r).1 == (Action::Return {
            rc: if r.rc == 1 {
                1
            } else {
                101
            },
            executed: false,
            broken: r.rc == 1 && r.broken,
        }),
{
}

/// A broken link is told of only where a call failed and was said to have broken it; and a write is
/// noted as done only where it ends a transaction that is not open.
pub proof fn law_notes_are_true(s: Step, r: Answer)
    ensures
        after(s, r).1 matches Action::Return { rc, executed, broken } ==> (broken ==> r.broken
            && r.rc == 1 && rc == 1) && (executed ==> question(s.stage) == Action::AskWriteNoop
            && r.yes),
{
}

/// What the local database said of its step is what the caller is told, where the step was the
/// local database's alone.
pub proof fn law_local_answer_is_told(s: Step, r: Answer)
    requires
        s.stage == Stage::Local,
    ensures
        after(s, r).1 == (Action::Return { rc: r.rc, executed: false, broken: false }),
{
}

/// Where a statement begins: with the local database alone while table names are looked up; with a
/// search for a connection where there is no server-side part, or one beside a local statement;
/// a statement that is skipped is over at once, and so is a write that has no local statement.
pub proof fn law_beginnings(stmt: StmtInfo)
    ensures
        begin(stmt, true) == (Step { stmt, stage: Stage::Local }, Action::StepLocally),
        !stmt.known ==> begin(stmt, false) == (
            Step { stmt, stage: Stage::UnknownConn },
            Action::FindAnyConnection,
        ),
        stmt.known && stmt.kind == 3 ==> begin(stmt, false).1 == (Action::Return {
            rc: 101,
            executed: false,
            broken: false,
        }),
        stmt.known && stmt.kind != 3 && stmt.has_shadow ==> begin(stmt, false) == (
            Step { stmt, stage: Stage::Conn },
            Action::FindConnection,
        ),
        stmt.known && stmt.kind == 1 && !stmt.has_shadow ==> begin(stmt, false).1 == (
        Action::Return { rc: 101, executed: false, broken: false }),
        stmt.known && stmt.kind != 1 && stmt.kind != 3 && !stmt.has_shadow ==> begin(
            stmt,
            false,
        ) == (Step { stmt, stage: Stage::Local }, Action::StepLocally),
{
}

/// A connection is used only where it is there, open for statements and linked to the server: one
/// of the library's without a link is replaced by one from the pool, and without either a write is
/// over and anything else is the local database's.
pub proof fn law_connections_are_usable(s: Step, r: Answer)
    requires
        question(s.stage) == Action::FindConnection || question(s.stage) == Action::GetFromPool,
        s.stmt.known,
    ensures
        !(r.conn.present && r.conn.active) ==> after(s, r).1 == if s.stmt.kind == 1 {
            Action::Return { rc: 101, executed: false, broken: false }
        } else {
            Action::StepLocally
        },
        question(s.stage) == Action::FindConnection && !r.conn.library ==> after(s, r).1 == if s.stmt.kind
            == 1 {
            Action::Return { rc: 101, executed: false, broken: false }
        } else {
            Action::StepLocally
        },
        question(s.stage) == Action::FindConnection && r.conn.present && r.conn.active
            && r.conn.library && !r.conn.connected ==> after(s, r).1 == Action::GetFromPool,
        question(s.stage) == Action::GetFromPool && r.conn.present && r.conn.active
            && !r.conn.connected ==> after(s, r).1 == if s.stmt.kind == 1 {
            Action::Return { rc: 101, executed: false, broken: false }
        } else {
            Action::StepLocally
        },
        question(s.stage) == Action::GetFromPool && r.conn.present && r.conn.active
            && r.conn.connected ==> after(s, r).1 == Action::Touch,
{
}

/// A connection from the pool serves as well as the statement's own: once its use is noted, what is
/// to be done is the same.
pub proof fn law_pooled_connections_serve(stmt: StmtInfo, own: Answer, touched: Answer)
    requires
        own.conn.present,
        own.conn.active,
        own.conn.library,
        own.conn.connected,
    ensures
        after(Step { stmt, stage: Stage::Touched }, touched) == after(
            Step { stmt, stage: Stage::Conn },
            own,
        ),
{
}

/// A write without a server-side part goes to the server once: not where the thread keeps one that
/// was done, not where it ends a transaction that is not open, not without a translation, and never
/// where it is to be skipped or belongs nowhere; the local database never steps for it.
pub proof fn law_unknown_writes(s: Step, r: Answer)
    requires
        !s.stmt.known,
    ensures
        after(s, r).1 == Action::RunKeptWrite ==> question(s.stage) == Action::Translate && r.yes,
        question(s.stage) == Action::ReadText && r.write && !r.skip && !r.skip_original && r.text
            is Some && !exec::is_junk(r.text->0) ==> after(s, r).1 == Action::FindKept,
        question(s.stage) == Action::ReadText && r.write && !r.skip && !r.skip_original && r.text
            is Some && exec::is_junk(r.text->0) ==> after(s, r).1 == (Action::Return {
            rc: 101,
            executed: false,
            broken: false,
        }),
        question(s.stage) == Action::ReadText && (r.skip || r.text is None) ==> after(s, r) == (
            Step { stage: Stage::Local, ..s },
            Action::StepLocally,
        ),
        question(s.stage) == Action::FindKept ==> after(s, r).1 == if r.yes {
            Action::Return { rc: 101, executed: false, broken: false }
        } else {
            Action::AskNoop
        },
        question(s.stage) == Action::AskNoop ==> after(s, r).1 == if r.yes {
            Action::Return { rc: 101, executed: false, broken: false }
        } else {
            Action::Translate
        },
        s.stage == Stage::UnknownTranslated ==> after(s, r).1 == if r.yes {
            Action::RunKeptWrite
        } else {
            Action::Return { rc: 101, executed: false, broken: false }
        },
{
}

/// A statement without a server-side part is looked at only where there is a connection that works
/// and is the library's; otherwise it is the local database's.
pub proof fn law_unknown_needs_the_library(s: Step, r: Answer)
    requires
        question(s.stage) == Action::FindAnyConnection,
    ensures
        after(s, r) == if r.conn.present && r.conn.active && r.conn.connected && r.conn.library {
            (Step { stage: Stage::UnknownText, ..s }, Action::ReadText)
        } else {
            (Step { stage: Stage::Local, ..s }, Action::StepLocally)
        },
{
}

/// A read without a server-side part: the local database steps first, a failure of it is told, and
/// otherwise the server's answer is told, if it gives one, and else the local one.
pub proof fn law_unknown_reads(
    s: Step,
    text: Answer,
    local: Answer,
    kept: Answer,
    translated: Answer,
    run: Answer,
)
    requires
        s.stage == Stage::UnknownText,
        text.text is Some,
        text.read,
        !text.write,
        !text.skip,
    ensures
        ({
            let told = |rc: i32| Action::Return { rc, executed: false, broken: false };
            let a = after(s, text);
            let b = after(a.0, local);
            let c = after(b.0, kept);
            let d = after(c.0, translated);
            let e = after(d.0, run);
            let stepped = local.rc == 100 || local.rc == 101;
            &&& a.1 == Action::StepLocally
            &&& !stepped ==> b.1 == told(local.rc)
            &&& stepped ==> b.1 == Action::AdvanceKept
            &&& stepped && kept.yes ==> c.1 == told(kept.rc)
            &&& stepped && !kept.yes ==> c.1 == Action::Translate
            &&& stepped && !kept.yes && !translated.yes ==> d.1 == told(local.rc)
            &&& stepped && !kept.yes && translated.yes ==> d.1 == Action::RunKeptRead
            &&& stepped && !kept.yes && translated.yes && run.rc == 1 ==> e.1 == (Action::Return {
                rc: 1,
                executed: false,
                broken: run.broken,
            })
            &&& stepped && !kept.yes && translated.yes && (run.rc == 100 || run.rc == 101) ==> e.1
                == told(run.rc)
            &&& stepped && !kept.yes && translated.yes && run.rc != 1 && run.rc != 100 && run.rc
                != 101 ==> e.1 == told(local.rc)
        }),
{
}

/// A statement that the server does not run is never stepped again for a broken link; one that it
/// runs is, once for each wait in the list, only after a failure of the link.
pub proof fn law_steps_are_repeated_for_the_link(stmt: StmtInfo, s: RetryState, rc: i32, delays: Seq<i32>)
    ensures
        another_step(stmt, s, rc, delays) is Some <==> stmt.known && stmt.kind != 0 && s.conn_error
            && rc == 1 && s.retry_count < delays.len(),
        another_step(stmt, s, rc, delays) matches Some(ms) ==> ms == if delays[s.retry_count as int]
            > 0 {
            delays[s.retry_count as int] as nat
        } else {
            0
        },
{
}

} // verus!
