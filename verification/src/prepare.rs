//! Preparing a statement.
//!
//! What talks to the two databases, and what only they or the translator can tell, is done by the
//! caller: each step says what it has to do or find out next.

use crate::bytes;
use crate::prepare_text;
use crate::step;
use vstd::prelude::*;
use vstd::string::*;

verus! {

/// Success.
pub const SQLITE_OK: i32 = 0;

/// Failure.
pub const SQLITE_ERROR: i32 = 1;

/// Out of memory, which is also said where the stack is too small.
pub const SQLITE_NOMEM: i32 = 7;

/// How deep preparing may call itself.
pub const MAX_DEPTH: i32 = 50;

/// With less stack than this, the work goes to a thread with a stack of its own.
pub const WORKER_DELEGATION_THRESHOLD: isize = 400_000;

/// With less stack than this, a query for what is on deck goes to the server alone.
pub const ONDECK_THRESHOLD: isize = 100_000;

/// With less stack than this nothing is prepared, on that thread and on others.
pub const WORKER_THRESHOLD: isize = 32_000;

pub const STACK_THRESHOLD: isize = 64_000;

/// The size that is taken for a stack whose bounds make no sense.
pub const DEFAULT_STACK: isize = 8_388_608;

/// A thread's stack: its size, how much of it is used and how much is left.
#[derive(Clone, Copy, Debug, PartialEq, Eq, Structural)]
pub struct Stack {
    pub size: isize,
    pub used: isize,
    pub remaining: isize,
}

/// The distance of two numbers.
pub open spec fn distance(a: int, b: int) -> int {
    if a >= b {
        a - b
    } else {
        b - a
    }
}

/// The stack between `bottom` and `bottom + size`, with `current` as the place in use. A place
/// outside known bounds is not believed: the stack then counts as unused and of the usual size.
pub fn stack_state(bottom: usize, size: usize, current: usize) -> (r: Stack)
    requires
        bottom + size <= isize::MAX,
        current <= isize::MAX,
    ensures
        ({
            let top = bottom + size;
            let lost = bottom != 0 && !(bottom <= current <= top);
            &&& r.size == (if lost {
                DEFAULT_STACK as int
            } else {
                size as int
            })
            &&& r.used == (if lost {
                0
            } else {
                distance(top, current as int)
            })
            &&& r.remaining == r.size - r.used
        }),
{
    let top: usize = bottom + size;
    let lost = bottom != 0 && (current < bottom || current > top);
    if lost {
        return Stack { size: DEFAULT_STACK, used: 0, remaining: DEFAULT_STACK };
    }
    let used: usize = if top >= current {
        top - current
    } else {
        current - top
    };
    Stack { size: size as isize, used: used as isize, remaining: size as isize - used as isize }
}

/// What is known of the server connection of a database handle.
#[derive(Clone, Copy, Debug, PartialEq, Eq, Structural)]
pub struct ConnInfo {
    /// There is one.
    pub present: bool,
    /// Statements may be sent over it.
    pub active: bool,
    /// It has a link to the server.
    pub connected: bool,
    /// It stands for the library's database.
    pub library: bool,
}

/// The connection can serve a query.
pub open spec fn usable(c: ConnInfo) -> bool {
    c.present && c.active && c.connected && c.library
}

/// What the translator made of a statement.
pub struct Translation {
    pub success: bool,
    pub sql: Option<Vec<u8>>,
    pub param_count: i32,
    pub names: Vec<Option<Vec<u8>>>,
}

/// What kind of statement it is, and which connection it is for.
#[derive(Clone, Copy, Debug, PartialEq, Eq, Structural)]
pub struct Facts {
    pub conn: ConnInfo,
    pub read: bool,
    pub write: bool,
    pub skip: bool,
}

/// The server is to run the statement; the local database gets a stand-in.
pub open spec fn goes_to_server(f: Facts) -> bool {
    f.conn.present && f.conn.active && f.conn.library && (f.read || f.write) && !f.skip
}

/// The statement gets a server-side part.
pub open spec fn gets_server_part(f: Facts) -> bool {
    usable(f.conn) && (f.read || f.write)
}

/// Why the local database is asked to prepare something.
#[derive(Clone, Copy, Debug, PartialEq, Eq, Structural)]
pub enum Purpose {
    /// The column is there already: nothing is to be done.
    SkipAlter,
    /// There is no text: what happens is up to the database.
    NoText,
    /// Little stack, and the query goes to the server.
    OnDeck,
    /// Too little stack, but a read that can go to the server.
    LowStack,
    /// Nothing can be done but to return no rows.
    Nothing,
    /// A stand-in for a statement that goes to the server.
    StandIn,
    /// The statement itself.
    Real,
}

/// What the caller was asked last.
#[derive(Clone, Copy, Debug, PartialEq, Eq, Structural)]
pub enum Stage {
    Column,
    Delegated,
    OnDeckFacts,
    LowFacts,
    LowNoted,
    Facts,
    StandInTranslation,
    Simplified,
    Stripped,
    Defined,
    Prepared { purpose: Purpose },
    Created { purpose: Purpose },
    Translated { purpose: Purpose },
    Polished { purpose: Purpose },
    Over,
}

/// The server-side part of a statement as it is to be set up.
pub struct ServerPart {
    /// 1 for a write, 2 for a read, 3 for one that is skipped.
    pub kind: i32,
    pub sql: Option<Vec<u8>>,
    /// The number of parameters, where it is known.
    pub param_count: Option<i32>,
    /// Take the names of the parameters over from the translation.
    pub names: bool,
    /// Give the statement its hash and, unless that is switched off, a name to be prepared under.
    pub prepared: bool,
    pub is_count_query: bool,
    /// Enter it under the handle of the local statement.
    pub register: bool,
}

/// What is cleared of what the caller of SQLite gets back.
#[derive(Clone, Copy, Debug, PartialEq, Eq, Structural)]
pub enum Clear {
    Nothing,
    Statement,
    StatementAndTail,
}

/// What the caller has to do, or find out, next.
pub enum Action {
    /// Has the table the column?
    ColumnExists { table: Vec<u8>, column: Vec<u8> },
    /// Let the thread with a stack of its own do it, and return what it returns.
    Delegate,
    /// Find the connection and tell what kind of statement it is.
    Inspect,
    /// Translate the statement.
    Translate,
    /// Make a query with full-text search simple enough for the local database, if possible.
    SimplifySearch { text: Vec<u8> },
    /// Take the collation out, if possible.
    StripCollation { text: Vec<u8> },
    /// Let definitions pass over what is there already, if possible.
    AddIfNotExists { text: Vec<u8> },
    /// Let the local database prepare this text.
    Prepare { text: Vec<u8> },
    /// Let the local database prepare the text that was given, with its length.
    PrepareOriginal,
    /// Note that no error is pending, and set up a server-side part.
    ClearErrorAndCreate,
    /// Set up a server-side part.
    Create,
    /// Note that no error is pending.
    ClearError,
    /// Rewrite the server's text further, for the database of large objects too if `blobs`.
    Polish { sql: Vec<u8>, blobs: bool },
    /// Note on the connection, if there is one, that the stack was too small.
    NoteLowStack,
    /// Done. What `clear` says is cleared first.
    Return { rc: i32, clear: Clear, part: Option<ServerPart> },
}

/// What came of it. Each step reads only the parts that it asked for.
pub struct Reply {
    pub yes: bool,
    pub facts: Facts,
    pub translation: Translation,
    pub text: Option<Vec<u8>>,
    /// The local database can be called.
    pub available: bool,
    pub rc: i32,
    /// The local database returned a statement.
    pub statement: bool,
}

/// A statement that is being prepared.
pub struct Prepare {
    sql: Option<Vec<u8>>,
    from_worker: bool,
    worker_active: bool,
    depth: i32,
    remaining: isize,
    text: Vec<u8>,
    cleaned: bool,
    facts: Facts,
    translation: Option<Translation>,
    rc: i32,
    stage: Stage,
}

/// What the translator made of a statement, as plain sequences.
pub ghost struct TranslationView {
    pub success: bool,
    pub sql: Option<Seq<u8>>,
    pub param_count: i32,
    pub names: Seq<Option<Seq<u8>>>,
}

impl View for Translation {
    type V = TranslationView;

    open spec fn view(&self) -> TranslationView {
        TranslationView {
            success: self.success,
            sql: prepare_text::opt_bytes(self.sql),
            param_count: self.param_count,
            names: prepare_text::name_list(self.names@),
        }
    }
}

pub open spec fn opt_translation(o: Option<Translation>) -> Option<TranslationView> {
    match o {
        Some(t) => Some(t@),
        None => None,
    }
}

/// A server-side part, as plain sequences.
pub ghost struct PartView {
    pub kind: i32,
    pub sql: Option<Seq<u8>>,
    pub param_count: Option<i32>,
    pub names: bool,
    pub prepared: bool,
    pub is_count_query: bool,
    pub register: bool,
}

impl View for ServerPart {
    type V = PartView;

    open spec fn view(&self) -> PartView {
        PartView {
            kind: self.kind,
            sql: prepare_text::opt_bytes(self.sql),
            param_count: self.param_count,
            names: self.names,
            prepared: self.prepared,
            is_count_query: self.is_count_query,
            register: self.register,
        }
    }
}

/// What to do next, as plain sequences.
pub ghost enum ActionView {
    ColumnExists { table: Seq<u8>, column: Seq<u8> },
    Delegate,
    Inspect,
    Translate,
    SimplifySearch { text: Seq<u8> },
    StripCollation { text: Seq<u8> },
    AddIfNotExists { text: Seq<u8> },
    Prepare { text: Seq<u8> },
    PrepareOriginal,
    ClearErrorAndCreate,
    Create,
    ClearError,
    Polish { sql: Seq<u8>, blobs: bool },
    NoteLowStack,
    Return { rc: i32, clear: Clear, part: Option<PartView> },
}

impl View for Action {
    type V = ActionView;

    open spec fn view(&self) -> ActionView {
        match self {
            Action::ColumnExists { table, column } => ActionView::ColumnExists {
                table: table@,
                column: column@,
            },
            Action::Delegate => ActionView::Delegate,
            Action::Inspect => ActionView::Inspect,
            Action::Translate => ActionView::Translate,
            Action::SimplifySearch { text } => ActionView::SimplifySearch { text: text@ },
            Action::StripCollation { text } => ActionView::StripCollation { text: text@ },
            Action::AddIfNotExists { text } => ActionView::AddIfNotExists { text: text@ },
            Action::Prepare { text } => ActionView::Prepare { text: text@ },
            Action::PrepareOriginal => ActionView::PrepareOriginal,
            Action::ClearErrorAndCreate => ActionView::ClearErrorAndCreate,
            Action::Create => ActionView::Create,
            Action::ClearError => ActionView::ClearError,
            Action::Polish { sql, blobs } => ActionView::Polish { sql: sql@, blobs: *blobs },
            Action::NoteLowStack => ActionView::NoteLowStack,
            Action::Return { rc, clear, part } => ActionView::Return {
                rc: *rc,
                clear: *clear,
                part: match part {
                    Some(p) => Some(p@),
                    None => None,
                },
            },
        }
    }
}

/// A statement that is being prepared, as plain sequences.
pub ghost struct State {
    pub sql: Option<Seq<u8>>,
    pub from_worker: bool,
    pub worker_active: bool,
    pub depth: i32,
    pub remaining: isize,
    pub text: Seq<u8>,
    pub cleaned: bool,
    pub facts: Facts,
    pub translation: Option<TranslationView>,
    pub rc: i32,
    pub stage: Stage,
}

impl View for Prepare {
    type V = State;

    closed spec fn view(&self) -> State {
        State {
            sql: prepare_text::opt_bytes(self.sql),
            from_worker: self.from_worker,
            worker_active: self.worker_active,
            depth: self.depth,
            remaining: self.remaining,
            text: self.text@,
            cleaned: self.cleaned,
            facts: self.facts,
            translation: opt_translation(self.translation),
            rc: self.rc,
            stage: self.stage,
        }
    }
}

/// The request at a stage, and what to do.
pub open spec fn at(s: State, stage: Stage, action: ActionView) -> (State, ActionView) {
    (State { stage, ..s }, action)
}

/// The end.
pub open spec fn done(s: State, rc: i32, clear: Clear, part: Option<PartView>) -> (State, ActionView) {
    at(s, Stage::Over, ActionView::Return { rc, clear, part })
}

/// Let the local database prepare a query without rows.
pub open spec fn prepare_empty(s: State, purpose: Purpose) -> (State, ActionView) {
    at(
        s,
        Stage::Prepared { purpose },
        ActionView::Prepare { text: prepare_text::empty_query() },
    )
}

/// Let the local database prepare a query that costs nothing.
pub open spec fn prepare_one(s: State, purpose: Purpose) -> (State, ActionView) {
    at(s, Stage::Prepared { purpose }, ActionView::Prepare { text: "SELECT 1".spec_bytes() })
}

/// The stack is too small to go on.
pub open spec fn too_low(s: State) -> bool {
    s.remaining < if s.from_worker {
        WORKER_THRESHOLD
    } else {
        STACK_THRESHOLD
    }
}

/// Take up a statement, as far as nesting and stack allow.
#[verifier::opaque]
pub open spec fn enter(s: State) -> (State, ActionView) {
    if s.depth > MAX_DEPTH {
        done(s, SQLITE_ERROR, Clear::StatementAndTail, None)
    } else if !s.from_worker && s.remaining < WORKER_DELEGATION_THRESHOLD && s.worker_active {
        at(s, Stage::Delegated, ActionView::Delegate)
    } else if s.sql is Some && prepare_text::is_ondeck(s.sql->0) && s.remaining
        < ONDECK_THRESHOLD {
        at(s, Stage::OnDeckFacts, ActionView::Inspect)
    } else if too_low(s) {
        at(s, Stage::LowFacts, ActionView::Inspect)
    } else if s.sql is None {
        at(
            s,
            Stage::Prepared { purpose: Purpose::NoText },
            ActionView::PrepareOriginal,
        )
    } else {
        at(s, Stage::Facts, ActionView::Inspect)
    }
}

/// The text for the local database is as good as it gets.
pub open spec fn prepare_text_now(s: State) -> (State, ActionView) {
    at(
        s,
        Stage::Prepared { purpose: Purpose::Real },
        if s.cleaned {
            ActionView::Prepare { text: s.text }
        } else {
            ActionView::PrepareOriginal
        },
    )
}

/// The collation is gone: full-text search cannot run in the local database.
#[verifier::opaque]
pub open spec fn after_strip(s: State) -> (State, ActionView) {
    if prepare_text::has_word(s.text, "fts4_") || prepare_text::has_word(s.text, " match ") {
        prepare_empty(s, Purpose::Nothing)
    } else {
        at(s, Stage::Defined, ActionView::AddIfNotExists { text: s.text })
    }
}

/// The search is simple: the collation goes next.
#[verifier::opaque]
pub open spec fn after_simplify(s: State) -> (State, ActionView) {
    if prepare_text::has_word(s.text, "collate icu_root") {
        at(s, Stage::Stripped, ActionView::StripCollation { text: s.text })
    } else {
        after_strip(s)
    }
}

/// The text after an attempt to rewrite it.
pub open spec fn retext(s: State, text: Option<Seq<u8>>) -> State {
    match text {
        Some(t) => State { text: t, cleaned: true, ..s },
        None => s,
    }
}

/// The local database has its statement: set up the server-side part, if there is to be one.
#[verifier::opaque]
pub open spec fn attach(s: State) -> (State, ActionView) {
    if gets_server_part(s.facts) {
        at(
            s,
            Stage::Created { purpose: Purpose::Real },
            ActionView::ClearErrorAndCreate,
        )
    } else {
        at(s, Stage::Created { purpose: Purpose::Nothing }, ActionView::ClearError)
    }
}

/// A server-side part that has no text yet.
pub open spec fn bare_part(kind: i32) -> PartView {
    PartView {
        kind,
        sql: None,
        param_count: None,
        names: false,
        prepared: false,
        is_count_query: false,
        register: false,
    }
}

/// The number of the kind of statement.
pub open spec fn kind_of(f: Facts) -> i32 {
    if f.skip {
        3
    } else if f.write {
        1
    } else {
        2
    }
}

/// There is a translation.
#[verifier::opaque]
pub open spec fn polish(s: State, t: TranslationView, purpose: Purpose) -> (State, ActionView) {
    let next = State { translation: Some(t), ..s };
    if t.success && t.sql is Some {
        at(
            next,
            Stage::Polished { purpose },
            ActionView::Polish { sql: t.sql->0, blobs: purpose == Purpose::Real },
        )
    } else {
        match purpose {
            Purpose::OnDeck => done(next, s.rc, Clear::Nothing, Some(bare_part(2))),
            Purpose::LowStack => done(
                next,
                s.rc,
                Clear::Nothing,
                Some(PartView { register: true, ..bare_part(2) }),
            ),
            _ => done(
                next,
                s.rc,
                Clear::Nothing,
                Some(
                    PartView {
                        param_count: Some(t.param_count),
                        names: true,
                        register: true,
                        ..bare_part(kind_of(s.facts))
                    },
                ),
            ),
        }
    }
}

/// The local database has prepared something, or is not there; then there is no statement.
#[verifier::opaque]
pub open spec fn prepared(s: State, purpose: Purpose, available: bool, rc: i32, statement: bool) -> (
    State,
    ActionView,
) {
    let code = if available {
        rc
    } else {
        SQLITE_ERROR
    };
    let next = State { rc: code, ..s };
    let clear = if available {
        Clear::Nothing
    } else {
        Clear::Statement
    };
    let good = available && rc == SQLITE_OK && statement;
    match purpose {
        Purpose::SkipAlter => if available {
            done(next, rc, Clear::Nothing, None)
        } else {
            done(next, SQLITE_OK, Clear::StatementAndTail, None)
        },
        Purpose::OnDeck => if good {
            at(next, Stage::Created { purpose }, ActionView::Create)
        } else {
            done(next, code, clear, None)
        },
        Purpose::LowStack => if good {
            at(next, Stage::Created { purpose }, ActionView::Create)
        } else {
            done(next, code, Clear::Nothing, None)
        },
        Purpose::StandIn => if good {
            attach(next)
        } else {
            done(next, code, clear, None)
        },
        Purpose::Real => if good {
            attach(next)
        } else {
            done(next, code, clear, None)
        },
        _ => done(next, code, clear, None),
    }
}

/// A server-side part was set up, or not.
#[verifier::opaque]
pub open spec fn created(s: State, purpose: Purpose, yes: bool) -> (State, ActionView) {
    if !yes || purpose == Purpose::Nothing {
        done(s, s.rc, Clear::Nothing, None)
    } else if purpose == Purpose::Real && s.facts.skip {
        done(s, s.rc, Clear::Nothing, Some(PartView { register: true, ..bare_part(3) }))
    } else if purpose == Purpose::Real && s.translation is Some {
        polish(s, s.translation->0, purpose)
    } else {
        at(s, Stage::Translated { purpose }, ActionView::Translate)
    }
}

/// The server's text is there.
#[verifier::opaque]
pub open spec fn polished(s: State, purpose: Purpose, text: Seq<u8>) -> (State, ActionView) {
    let t = s.translation->0;
    match purpose {
        Purpose::OnDeck => done(
            s,
            s.rc,
            Clear::Nothing,
            Some(PartView { sql: Some(text), param_count: Some(t.param_count), ..bare_part(2) }),
        ),
        Purpose::LowStack => done(
            s,
            s.rc,
            Clear::Nothing,
            Some(
                PartView {
                    sql: Some(text),
                    param_count: Some(t.param_count),
                    names: true,
                    prepared: true,
                    register: true,
                    ..bare_part(2)
                },
            ),
        ),
        _ => done(
            s,
            s.rc,
            Clear::Nothing,
            Some(
                PartView {
                    kind: kind_of(s.facts),
                    sql: Some(prepare_text::completed(s.facts.write, s.sql->0, text)),
                    param_count: Some(t.param_count),
                    names: true,
                    prepared: true,
                    is_count_query: prepare_text::has_word(text, "parents.parent_id,count(*)"),
                    register: true,
                },
            ),
        ),
    }
}

/// It is known what kind of statement it is and which connection it is for.
#[verifier::opaque]
pub open spec fn on_facts(s: State, facts: Facts) -> (State, ActionView) {
    let next = State { facts, text: s.sql->0, ..s };
    if goes_to_server(facts) {
        at(next, Stage::StandInTranslation, ActionView::Translate)
    } else if prepare_text::has_word(next.text, "fts4_") {
        at(next, Stage::Simplified, ActionView::SimplifySearch { text: next.text })
    } else {
        after_simplify(next)
    }
}

/// Let the local database prepare a query that only binds the parameters of the translation.
pub open spec fn stand_in(t: TranslationView) -> ActionView {
    ActionView::Prepare {
        text: prepare_text::dummy(prepare_text::readable(t.names), t.param_count as int),
    }
}

/// What a step does, given the answer to what was asked.
pub open spec fn step(
    s: State,
    yes: bool,
    facts: Facts,
    translation: TranslationView,
    text: Option<Seq<u8>>,
    available: bool,
    rc: i32,
    statement: bool,
) -> (State, ActionView) {
    match s.stage {
        Stage::Column => if yes {
            prepare_empty(s, Purpose::SkipAlter)
        } else {
            enter(s)
        },
        Stage::Delegated => done(s, rc, Clear::Nothing, None),
        Stage::OnDeckFacts => if usable(facts.conn) {
            prepare_one(State { facts, ..s }, Purpose::OnDeck)
        } else {
            prepare_empty(State { facts, ..s }, Purpose::Nothing)
        },
        Stage::LowFacts => if usable(facts.conn) && s.sql is Some && facts.read {
            prepare_one(State { facts, ..s }, Purpose::LowStack)
        } else {
            at(State { facts, ..s }, Stage::LowNoted, ActionView::NoteLowStack)
        },
        Stage::Facts => on_facts(s, facts),
        Stage::StandInTranslation => at(
            State { translation: Some(translation), ..s },
            Stage::Prepared { purpose: Purpose::StandIn },
            stand_in(translation),
        ),
        Stage::Simplified => after_simplify(retext(s, text)),
        Stage::Stripped => after_strip(retext(s, text)),
        Stage::Defined => prepare_text_now(retext(s, text)),
        Stage::Prepared { purpose } => prepared(s, purpose, available, rc, statement),
        Stage::LowNoted => done(s, SQLITE_NOMEM, Clear::StatementAndTail, None),
        Stage::Created { purpose } => created(s, purpose, yes),
        Stage::Translated { purpose } => polish(s, translation, purpose),
        Stage::Polished { purpose } => match text {
            Some(t) => polished(s, purpose, t),
            None => polished(s, purpose, s.translation->0.sql->0),
        },
        Stage::Over => done(s, s.rc, Clear::Nothing, None),
    }
}

/// The step led to this state and asks for this.
pub open spec fn is_step(
    s: State,
    yes: bool,
    facts: Facts,
    translation: TranslationView,
    text: Option<Seq<u8>>,
    available: bool,
    rc: i32,
    statement: bool,
    next: State,
    action: ActionView,
) -> bool {
    (next, action) == step(s, yes, facts, translation, text, available, rc, statement)
}

/// Which part of the work a stage belongs to: finding out, making the text, setting up.
pub open spec fn part_of_machine(stage: Stage) -> int {
    match stage {
        Stage::Column | Stage::Delegated | Stage::OnDeckFacts | Stage::LowFacts | Stage::LowNoted
        | Stage::Facts => 0,
        Stage::StandInTranslation | Stage::Simplified | Stage::Stripped | Stage::Defined => 1,
        _ => 2,
    }
}

/// A purpose for which a server-side part is set up.
pub open spec fn for_server(p: Purpose) -> bool {
    p == Purpose::OnDeck || p == Purpose::LowStack || p == Purpose::Real
}

/// What is needed at a stage is there.
pub open spec fn stage_ok(s: State) -> bool {
    match s.stage {
        Stage::Facts => s.sql is Some,
        Stage::StandInTranslation => s.sql is Some,
        Stage::Simplified => s.sql is Some,
        Stage::Stripped => s.sql is Some,
        Stage::Defined => s.sql is Some,
        Stage::Prepared { purpose } => purpose == Purpose::Real || purpose == Purpose::StandIn
            ==> s.sql is Some,
        Stage::Created { purpose } => (for_server(purpose) || purpose == Purpose::Nothing) && (
        purpose == Purpose::Real ==> s.sql is Some),
        Stage::Translated { purpose } => for_server(purpose) && (purpose == Purpose::Real
            ==> s.sql is Some),
        Stage::Polished { purpose } => for_server(purpose) && (purpose == Purpose::Real
            ==> s.sql is Some) && s.translation is Some && s.translation->0.sql is Some,
        _ => true,
    }
}

fn copy(v: &Vec<u8>) -> (r: Vec<u8>)
    ensures
        r@ == v@,
{
    let r = prepare_text::copy_range(v.as_slice(), 0, v.len());
    assert(v@.subrange(0, v@.len() as int) == v@);
    r
}

fn literal(s: &str) -> (r: Vec<u8>)
    ensures
        r@ == s.spec_bytes(),
{
    let mut out: Vec<u8> = Vec::new();
    prepare_text::push_bytes(&mut out, s.as_bytes());
    assert(out@ == s.spec_bytes());
    out
}

fn new_part(kind: i32) -> (r: ServerPart)
    ensures
        r@ == bare_part(kind),
{
    ServerPart {
        kind,
        sql: None,
        param_count: None,
        names: false,
        prepared: false,
        is_count_query: false,
        register: false,
    }
}

fn can_serve(c: ConnInfo) -> (r: bool)
    ensures
        r == usable(c),
{
    c.present && c.active && c.connected && c.library
}

fn server_kind(f: Facts) -> (r: i32)
    ensures
        r == kind_of(f),
{
    if f.skip {
        3
    } else if f.write {
        1
    } else {
        2
    }
}

/// Where preparing a statement begins, and what is to be done first: a statement that adds a column
/// is asked about first.
pub open spec fn begin(
    sql: Option<Seq<u8>>,
    from_worker: bool,
    worker_active: bool,
    depth: i32,
    remaining: isize,
) -> (State, ActionView) {
    let s = State {
        sql,
        from_worker,
        worker_active,
        depth,
        remaining,
        text: Seq::empty(),
        cleaned: false,
        facts: no_facts(),
        translation: None,
        rc: SQLITE_OK,
        stage: Stage::Over,
    };
    let column = match sql {
        Some(b) => prepare_text::added_column(b),
        None => None,
    };
    match column {
        Some((table, column)) => at(s, Stage::Column, ActionView::ColumnExists { table, column }),
        None => enter(s),
    }
}

impl Prepare {
    /// What is needed at the present stage is there.
    pub open spec fn wf(&self) -> bool {
        stage_ok(self@)
    }

    fn done(&mut self, rc: i32, clear: Clear, part: Option<ServerPart>) -> (r: Action)
        ensures
            (final(self)@, r@) == done(
                old(self)@,
                rc,
                clear,
                match part {
                    Some(p) => Some(p@),
                    None => None,
                },
            ),
    {
        self.stage = Stage::Over;
        Action::Return { rc, clear, part }
    }

    fn prepare_empty(&mut self, purpose: Purpose) -> (r: Action)
        ensures
            (final(self)@, r@) == prepare_empty(old(self)@, purpose),
    {
        self.stage = Stage::Prepared { purpose };
        Action::Prepare { text: literal("SELECT 1 WHERE 0") }
    }

    fn prepare_one(&mut self, purpose: Purpose) -> (r: Action)
        ensures
            (final(self)@, r@) == prepare_one(old(self)@, purpose),
    {
        self.stage = Stage::Prepared { purpose };
        Action::Prepare { text: literal("SELECT 1") }
    }

    fn enter(&mut self) -> (r: Action)
        ensures
            (final(self)@, r@) == enter(old(self)@),
            final(self).wf(),
    {
        reveal(enter);
        if self.depth > MAX_DEPTH {
            return self.done(SQLITE_ERROR, Clear::StatementAndTail, None);
        }
        if !self.from_worker && self.remaining < WORKER_DELEGATION_THRESHOLD && self.worker_active {
            self.stage = Stage::Delegated;
            return Action::Delegate;
        }
        let ondeck = match &self.sql {
            Some(sql) => prepare_text::is_ondeck_query(sql.as_slice()),
            None => false,
        };
        if ondeck && self.remaining < ONDECK_THRESHOLD {
            self.stage = Stage::OnDeckFacts;
            return Action::Inspect;
        }
        let threshold: isize = if self.from_worker {
            WORKER_THRESHOLD
        } else {
            STACK_THRESHOLD
        };
        if self.remaining < threshold {
            self.stage = Stage::LowFacts;
            return Action::Inspect;
        }
        if self.sql.is_none() {
            self.stage = Stage::Prepared { purpose: Purpose::NoText };
            return Action::PrepareOriginal;
        }
        self.stage = Stage::Facts;
        Action::Inspect
    }

    fn after_strip(&mut self) -> (r: Action)
        requires
            old(self)@.sql is Some,
        ensures
            (final(self)@, r@) == after_strip(old(self)@),
            final(self).wf(),
    {
        reveal(after_strip);
        proof {
            reveal_strlit("fts4_");
            reveal_strlit(" match ");
        }
        if prepare_text::contains_word(self.text.as_slice(), "fts4_")
            || prepare_text::contains_word(self.text.as_slice(), " match ") {
            self.prepare_empty(Purpose::Nothing)
        } else {
            self.stage = Stage::Defined;
            Action::AddIfNotExists { text: copy(&self.text) }
        }
    }

    fn after_simplify(&mut self) -> (r: Action)
        requires
            old(self)@.sql is Some,
        ensures
            (final(self)@, r@) == after_simplify(old(self)@),
            final(self).wf(),
    {
        reveal(after_simplify);
        proof {
            reveal_strlit("collate icu_root");
        }
        if prepare_text::contains_word(self.text.as_slice(), "collate icu_root") {
            self.stage = Stage::Stripped;
            Action::StripCollation { text: copy(&self.text) }
        } else {
            self.after_strip()
        }
    }

    fn retext(&mut self, text: Option<Vec<u8>>)
        ensures
            final(self)@ == retext(old(self)@, prepare_text::opt_bytes(text)),
    {
        if let Some(t) = text {
            self.text = t;
            self.cleaned = true;
        }
    }

    fn attach(&mut self) -> (r: Action)
        requires
            old(self)@.sql is Some,
        ensures
            (final(self)@, r@) == attach(old(self)@),
            final(self).wf(),
    {
        reveal(attach);
        let f = self.facts;
        if can_serve(f.conn) && (f.read || f.write) {
            self.stage = Stage::Created { purpose: Purpose::Real };
            Action::ClearErrorAndCreate
        } else {
            self.stage = Stage::Created { purpose: Purpose::Nothing };
            Action::ClearError
        }
    }

    fn polish(&mut self, t: Translation, purpose: Purpose) -> (r: Action)
        requires
            for_server(purpose),
            purpose == Purpose::Real ==> old(self)@.sql is Some,
        ensures
            (final(self)@, r@) == polish(old(self)@, t@, purpose),
            final(self).wf(),
    {
        reveal(polish);
        let ghost tv = t@;
        let rc: i32 = self.rc;
        let count: i32 = t.param_count;
        let sql = if t.success {
            match &t.sql {
                Some(v) => Some(copy(v)),
                None => None,
            }
        } else {
            None
        };
        self.translation = Some(t);
        match sql {
            Some(sql) => {
                self.stage = Stage::Polished { purpose };
                Action::Polish { sql, blobs: purpose == Purpose::Real }
            },
            None => {
                match purpose {
                    Purpose::OnDeck => self.done(rc, Clear::Nothing, Some(new_part(2))),
                    Purpose::LowStack => {
                        let mut part = new_part(2);
                        part.register = true;
                        self.done(rc, Clear::Nothing, Some(part))
                    },
                    _ => {
                        let mut part = new_part(server_kind(self.facts));
                        part.param_count = Some(count);
                        part.names = true;
                        part.register = true;
                        self.done(rc, Clear::Nothing, Some(part))
                    },
                }
            },
        }
    }

    fn prepared(&mut self, purpose: Purpose, available: bool, rc: i32, statement: bool) -> (r: Action)
        requires
            purpose == Purpose::Real || purpose == Purpose::StandIn ==> old(self)@.sql is Some,
        ensures
            (final(self)@, r@) == prepared(old(self)@, purpose, available, rc, statement),
            final(self).wf(),
    {
        reveal(prepared);
        let code: i32 = if available {
            rc
        } else {
            SQLITE_ERROR
        };
        let clear = if available {
            Clear::Nothing
        } else {
            Clear::Statement
        };
        self.rc = code;
        let good = available && rc == SQLITE_OK && statement;
        match purpose {
            Purpose::SkipAlter => if available {
                self.done(rc, Clear::Nothing, None)
            } else {
                self.done(SQLITE_OK, Clear::StatementAndTail, None)
            },
            Purpose::OnDeck => if good {
                self.stage = Stage::Created { purpose };
                Action::Create
            } else {
                self.done(code, clear, None)
            },
            Purpose::LowStack => if good {
                self.stage = Stage::Created { purpose };
                Action::Create
            } else {
                self.done(code, Clear::Nothing, None)
            },
            Purpose::StandIn => if good {
                self.attach()
            } else {
                self.done(code, clear, None)
            },
            Purpose::Real => if good {
                self.attach()
            } else {
                self.done(code, clear, None)
            },
            _ => self.done(code, clear, None),
        }
    }

    fn created(&mut self, purpose: Purpose, yes: bool) -> (r: Action)
        requires
            for_server(purpose) || purpose == Purpose::Nothing,
            purpose == Purpose::Real ==> old(self)@.sql is Some,
        ensures
            (final(self)@, r@) == created(old(self)@, purpose, yes),
            final(self).wf(),
    {
        reveal(created);
        reveal(polish);
        let rc: i32 = self.rc;
        if !yes || purpose == Purpose::Nothing {
            return self.done(rc, Clear::Nothing, None);
        }
        if purpose == Purpose::Real {
            if self.facts.skip {
                let mut part = new_part(3);
                part.register = true;
                return self.done(rc, Clear::Nothing, Some(part));
            }
            if self.translation.is_some() {
                let t = self.translation.take().unwrap();
                return self.polish(t, purpose);
            }
        }
        self.stage = Stage::Translated { purpose };
        Action::Translate
    }

    fn polished(&mut self, purpose: Purpose, text: Vec<u8>) -> (r: Action)
        requires
            for_server(purpose),
            purpose == Purpose::Real ==> old(self)@.sql is Some,
            old(self)@.translation is Some,
        ensures
            (final(self)@, r@) == polished(old(self)@, purpose, text@),
            final(self).wf(),
    {
        reveal(polished);
        let rc: i32 = self.rc;
        let count: i32 = match &self.translation {
            Some(t) => t.param_count,
            None => 0,
        };
        match purpose {
            Purpose::OnDeck => {
                let mut part = new_part(2);
                part.sql = Some(text);
                part.param_count = Some(count);
                self.done(rc, Clear::Nothing, Some(part))
            },
            Purpose::LowStack => {
                let mut part = new_part(2);
                part.sql = Some(text);
                part.param_count = Some(count);
                part.names = true;
                part.prepared = true;
                part.register = true;
                self.done(rc, Clear::Nothing, Some(part))
            },
            _ => {
                proof {
                    reveal_strlit("parents.parent_id,count(*)");
                }
                let is_count_query = prepare_text::contains_word(
                    text.as_slice(),
                    "parents.parent_id,count(*)",
                );
                let sql = match &self.sql {
                    Some(sql) => prepare_text::complete_sql(
                        self.facts.write,
                        sql.as_slice(),
                        text.as_slice(),
                    ),
                    None => Vec::new(),
                };
                let part = ServerPart {
                    kind: server_kind(self.facts),
                    sql: Some(sql),
                    param_count: Some(count),
                    names: true,
                    prepared: true,
                    is_count_query,
                    register: true,
                };
                self.done(rc, Clear::Nothing, Some(part))
            },
        }
    }

    fn on_facts(&mut self, f: Facts) -> (r: Action)
        requires
            old(self)@.sql is Some,
        ensures
            (final(self)@, r@) == on_facts(old(self)@, f),
            final(self).wf(),
    {
        reveal(on_facts);
        proof {
            reveal_strlit("fts4_");
        }
        self.facts = f;
        let text = match &self.sql {
            Some(sql) => copy(sql),
            None => Vec::new(),
        };
        self.text = text;
        if f.conn.present && f.conn.active && f.conn.library && (f.read || f.write) && !f.skip {
            self.stage = Stage::StandInTranslation;
            Action::Translate
        } else if prepare_text::contains_word(self.text.as_slice(), "fts4_") {
            self.stage = Stage::Simplified;
            Action::SimplifySearch { text: copy(&self.text) }
        } else {
            self.after_simplify()
        }
    }

    fn on_stand_in(&mut self, t: Translation) -> (r: Action)
        requires
            old(self)@.sql is Some,
        ensures
            (final(self)@, r@) == at(
                State { translation: Some(t@), ..old(self)@ },
                Stage::Prepared { purpose: Purpose::StandIn },
                stand_in(t@),
            ),
            final(self).wf(),
    {
        let names = prepare_text::readable_names(&t.names);
        let text = prepare_text::dummy_sql(&names, t.param_count);
        self.translation = Some(t);
        self.stage = Stage::Prepared { purpose: Purpose::StandIn };
        Action::Prepare { text }
    }

    fn on_defined(&mut self, text: Option<Vec<u8>>) -> (r: Action)
        requires
            old(self)@.sql is Some,
        ensures
            (final(self)@, r@) == prepare_text_now(
                retext(old(self)@, prepare_text::opt_bytes(text)),
            ),
            final(self).wf(),
    {
        self.retext(text);
        self.stage = Stage::Prepared { purpose: Purpose::Real };
        if self.cleaned {
            Action::Prepare { text: copy(&self.text) }
        } else {
            Action::PrepareOriginal
        }
    }

    fn on_polished(&mut self, purpose: Purpose, text: Option<Vec<u8>>) -> (r: Action)
        requires
            old(self).wf(),
            old(self)@.stage == (Stage::Polished { purpose }),
        ensures
            (final(self)@, r@) == polished(
                old(self)@,
                purpose,
                match text {
                    Some(t) => t@,
                    None => old(self)@.translation->0.sql->0,
                },
            ),
            final(self).wf(),
    {
        let out = match text {
            Some(t) => t,
            None => match &self.translation {
                Some(t) => match &t.sql {
                    Some(sql) => copy(sql),
                    None => Vec::new(),
                },
                None => Vec::new(),
            },
        };
        self.polished(purpose, out)
    }

    /// Begins to prepare a statement. `depth` counts this call, `remaining` is what is left of the
    /// stack.
    pub fn rust_my_sqlite3_prepare_v2_internal(
        sql: Option<Vec<u8>>,
        from_worker: bool,
        worker_active: bool,
        depth: i32,
        remaining: isize,
    ) -> (r: (Prepare, Action))
        ensures
            (r.0@, r.1@) == begin(
                prepare_text::opt_bytes(sql),
                from_worker,
                worker_active,
                depth,
                remaining,
            ),
            r.0.wf(),
    {
        let added = match &sql {
            Some(b) => prepare_text::maybe_skip_alter_table_add(b.as_slice()),
            None => None,
        };
        let none = ConnInfo { present: false, active: false, connected: false, library: false };
        let mut p = Prepare {
            sql,
            from_worker,
            worker_active,
            depth,
            remaining,
            text: Vec::new(),
            cleaned: false,
            facts: Facts { conn: none, read: false, write: false, skip: false },
            translation: None,
            rc: SQLITE_OK,
            stage: Stage::Over,
        };
        assert(p.text@ == Seq::<u8>::empty());
        match added {
            Some((table, column)) => {
                p.stage = Stage::Column;
                (p, Action::ColumnExists { table, column })
            },
            None => {
                let action = p.enter();
                (p, action)
            },
        }
    }

    fn resume_first(&mut self, reply: Reply) -> (r: Action)
        requires
            old(self).wf(),
            part_of_machine(old(self)@.stage) == 0,
        ensures
            is_step(
                old(self)@,
                reply.yes,
                reply.facts,
                reply.translation@,
                prepare_text::opt_bytes(reply.text),
                reply.available,
                reply.rc,
                reply.statement,
                final(self)@,
                r@,
            ),
            final(self).wf(),
    {
        match self.stage {
            Stage::Column => if reply.yes {
                self.prepare_empty(Purpose::SkipAlter)
            } else {
                self.enter()
            },
            Stage::Delegated => self.done(reply.rc, Clear::Nothing, None),
            Stage::OnDeckFacts => {
                self.facts = reply.facts;
                if can_serve(reply.facts.conn) {
                    self.prepare_one(Purpose::OnDeck)
                } else {
                    self.prepare_empty(Purpose::Nothing)
                }
            },
            Stage::LowFacts => {
                self.facts = reply.facts;
                if can_serve(reply.facts.conn) && self.sql.is_some() && reply.facts.read {
                    self.prepare_one(Purpose::LowStack)
                } else {
                    self.stage = Stage::LowNoted;
                    Action::NoteLowStack
                }
            },
            Stage::LowNoted => self.done(SQLITE_NOMEM, Clear::StatementAndTail, None),
            _ => self.on_facts(reply.facts),
        }
    }

    fn resume_text(&mut self, reply: Reply) -> (r: Action)
        requires
            old(self).wf(),
            part_of_machine(old(self)@.stage) == 1,
        ensures
            is_step(
                old(self)@,
                reply.yes,
                reply.facts,
                reply.translation@,
                prepare_text::opt_bytes(reply.text),
                reply.available,
                reply.rc,
                reply.statement,
                final(self)@,
                r@,
            ),
            final(self).wf(),
    {
        match self.stage {
            Stage::StandInTranslation => self.on_stand_in(reply.translation),
            Stage::Simplified => {
                self.retext(reply.text);
                self.after_simplify()
            },
            Stage::Stripped => {
                self.retext(reply.text);
                self.after_strip()
            },
            _ => self.on_defined(reply.text),
        }
    }

    fn resume_last(&mut self, reply: Reply) -> (r: Action)
        requires
            old(self).wf(),
            part_of_machine(old(self)@.stage) == 2,
        ensures
            is_step(
                old(self)@,
                reply.yes,
                reply.facts,
                reply.translation@,
                prepare_text::opt_bytes(reply.text),
                reply.available,
                reply.rc,
                reply.statement,
                final(self)@,
                r@,
            ),
            final(self).wf(),
    {
        let rc: i32 = self.rc;
        match self.stage {
            Stage::Prepared { purpose } => self.prepared(
                purpose,
                reply.available,
                reply.rc,
                reply.statement,
            ),
            Stage::Created { purpose } => self.created(purpose, reply.yes),
            Stage::Translated { purpose } => self.polish(reply.translation, purpose),
            Stage::Polished { purpose } => self.on_polished(purpose, reply.text),
            _ => self.done(rc, Clear::Nothing, None),
        }
    }

    /// Goes on with the answer to what was asked last.
    pub fn resume(&mut self, reply: Reply) -> (r: Action)
        requires
            old(self).wf(),
        ensures
            is_step(
                old(self)@,
                reply.yes,
                reply.facts,
                reply.translation@,
                prepare_text::opt_bytes(reply.text),
                reply.available,
                reply.rc,
                reply.statement,
                final(self)@,
                r@,
            ),
            final(self).wf(),
    {
        match self.stage {
            Stage::Column | Stage::Delegated | Stage::OnDeckFacts | Stage::LowFacts
            | Stage::LowNoted | Stage::Facts => self.resume_first(reply),
            Stage::StandInTranslation | Stage::Simplified | Stage::Stripped | Stage::Defined
            => self.resume_text(reply),
            _ => self.resume_last(reply),
        }
    }
}

/// Nothing is known.
pub open spec fn no_facts() -> Facts {
    Facts {
        conn: ConnInfo { present: false, active: false, connected: false, library: false },
        read: false,
        write: false,
        skip: false,
    }
}

/// A statement that goes to the server is not handed to the local database: what that prepares in
/// its place is a query that only binds the same parameters.
pub proof fn law_server_statements_stay_out(
    s: State,
    yes: bool,
    facts: Facts,
    translation: TranslationView,
    text: Option<Seq<u8>>,
    available: bool,
    rc: i32,
    statement: bool,
)
    requires
        stage_ok(s),
        s.stage == Stage::Facts,
        goes_to_server(facts),
    ensures
        ({
            let a = step(s, yes, facts, translation, text, available, rc, statement);
            &&& a.0.stage == Stage::StandInTranslation
            &&& forall|f2: Facts, t2: TranslationView, x: Option<Seq<u8>>| #[trigger]
                step(a.0, yes, f2, t2, x, available, rc, statement).1 == stand_in(t2)
        }),
{
    reveal(on_facts);
}

/// A full-text search is never handed to the local database: whatever the text was made of, what is
/// prepared there is the query without rows, or goes on only where no word of a search is left.
pub proof fn law_no_local_search(
    s: State,
    yes: bool,
    facts: Facts,
    translation: TranslationView,
    text: Option<Seq<u8>>,
    available: bool,
    rc: i32,
    statement: bool,
)
    requires
        stage_ok(s),
        (s.stage == Stage::Facts && !goes_to_server(facts)) || s.stage == Stage::Simplified
            || s.stage == Stage::Stripped,
    ensures
        match step(s, yes, facts, translation, text, available, rc, statement).1 {
            ActionView::Prepare { text } => text == prepare_text::empty_query(),
            ActionView::AddIfNotExists { text } => !prepare_text::has_word(text, "fts4_")
                && !prepare_text::has_word(text, " match "),
            ActionView::SimplifySearch { .. } => true,
            ActionView::StripCollation { .. } => true,
            _ => false,
        },
{
    reveal(on_facts);
    reveal(after_simplify);
    reveal(after_strip);
}

/// How far a statement still is from being prepared.
pub open spec fn rank(stage: Stage) -> int {
    match stage {
        Stage::Column => 12,
        Stage::Delegated => 1,
        Stage::OnDeckFacts => 11,
        Stage::LowFacts => 11,
        Stage::LowNoted => 1,
        Stage::Facts => 11,
        Stage::StandInTranslation => 8,
        Stage::Simplified => 10,
        Stage::Stripped => 9,
        Stage::Defined => 8,
        Stage::Prepared { .. } => 7,
        Stage::Created { .. } => 6,
        Stage::Translated { .. } => 5,
        Stage::Polished { .. } => 4,
        Stage::Over => 0,
    }
}

/// Every step brings a statement nearer to being prepared: preparing comes to an end whatever is
/// answered.
pub proof fn law_progress(
    s: State,
    yes: bool,
    facts: Facts,
    translation: TranslationView,
    text: Option<Seq<u8>>,
    available: bool,
    rc: i32,
    statement: bool,
)
    requires
        stage_ok(s),
        s.stage != Stage::Over,
    ensures
        0 <= rank(step(s, yes, facts, translation, text, available, rc, statement).0.stage) < rank(
            s.stage,
        ),
{
    reveal(on_facts);
    reveal(enter);
    reveal(after_strip);
    reveal(after_simplify);
    reveal(attach);
    reveal(polish);
    reveal(prepared);
    reveal(created);
    reveal(polished);
}

/// How transactions were routed: how many statements on them there were, how many were skipped and
/// how many went to the server.
#[derive(Clone, Copy, Debug, PartialEq, Eq, Structural)]
pub struct TxnRoute {
    pub total: u64,
    pub skipped: u64,
    pub routed: u64,
}

/// One more, going round.
pub open spec fn next_count(n: u64) -> u64 {
    if n == u64::MAX {
        0
    } else {
        (n + 1) as u64
    }
}

impl TxnRoute {
    /// Counts a statement on transactions; others do not count. True if the counts are to be
    /// reported: at the first one and at every fiftieth.
    pub fn note(&mut self, sql: &[u8], facts: Facts) -> (r: bool)
        ensures
            !prepare_text::is_txn_control(sql@) ==> *final(self) == *old(self) && !r,
            prepare_text::is_txn_control(sql@) ==> {
                &&& final(self).total == next_count(old(self).total)
                &&& final(self).skipped == (if facts.skip {
                    next_count(old(self).skipped)
                } else {
                    old(self).skipped
                })
                &&& final(self).routed == (if goes_to_server(facts) {
                    next_count(old(self).routed)
                } else {
                    old(self).routed
                })
                &&& r == (final(self).total == 1 || final(self).total % 50 == 0)
            },
    {
        if !prepare_text::is_txn_control_sql(sql) {
            return false;
        }
        self.total = self.total.wrapping_add(1);
        if facts.skip {
            self.skipped = self.skipped.wrapping_add(1);
        }
        if facts.conn.present && facts.conn.active && facts.conn.library && (facts.read
            || facts.write) && !facts.skip {
            self.routed = self.routed.wrapping_add(1);
        }
        self.total == 1 || self.total % 50 == 0
    }
}

/// The name under which a statement is prepared on the server, if that is not switched off, and the
/// hash of its text.
pub fn prepared_name(pg_sql: &[u8], disabled: bool) -> (r: (u64, Option<Vec<u8>>))
    ensures
        r.0 == prepare_text::statement_key(pg_sql@),
        r.1 is Some == !disabled,
        r.1 is Some ==> r.1->0@ == "ps_".spec_bytes() + prepare_text::hex_number(r.0 as nat),
{
    let h: u64 = prepare_text::statement_hash(pg_sql);
    if disabled {
        (h, None)
    } else {
        (h, Some(prepare_text::hex_name("ps_", h)))
    }
}

/// What becomes of a call to prepare a statement.
#[derive(Clone, Copy, Debug, PartialEq, Eq, Structural)]
pub enum Entry {
    /// The local database prepares it: another call is under way.
    Local,
    /// It fails: another call is under way, and the local database cannot be reached.
    Fail,
    /// It is looked at.
    Proceed,
}

/// What becomes of a call to prepare a statement, given whether another one is under way.
pub fn rust_my_sqlite3_prepare_v2(in_call: bool, has_local: bool) -> (r: Entry)
    ensures
        r == (if !in_call {
            Entry::Proceed
        } else if has_local {
            Entry::Local
        } else {
            Entry::Fail
        }),
{
    if !in_call {
        Entry::Proceed
    } else if has_local {
        Entry::Local
    } else {
        Entry::Fail
    }
}

/// How many calls to prepare a statement a thread has under way, one inside the other.
pub struct Nesting {
    pub depth: i32,
}

/// A call that counts, until it ends or is handed to another thread.
pub struct PrepareDepthGuard {
    active: bool,
}

impl PrepareDepthGuard {
    /// The call still counts.
    pub closed spec fn counts(&self) -> bool {
        self.active
    }
}

/// The count without a call, if that counts.
pub open spec fn uncounted(depth: int, counts: bool) -> int {
    if counts {
        depth - 1
    } else {
        depth
    }
}

impl Nesting {
    /// Counts a call.
    pub fn enter(&mut self) -> (r: PrepareDepthGuard)
        requires
            old(self).depth < i32::MAX,
        ensures
            final(self).depth == old(self).depth + 1,
            r.counts(),
    {
        self.depth = self.depth + 1;
        PrepareDepthGuard { active: true }
    }

    /// Counts the call no more, if it still counts.
    pub fn decrement_now(&mut self, guard: &mut PrepareDepthGuard)
        requires
            old(self).depth > i32::MIN,
        ensures
            final(self).depth == uncounted(old(self).depth as int, old(guard).counts()),
            !final(guard).counts(),
    {
        if guard.active {
            self.depth = self.depth - 1;
            guard.active = false;
        }
    }

    /// Ends a call. With `enter` before it, and `decrement_now` between them or not, the count is
    /// what it was.
    pub fn leave(&mut self, guard: PrepareDepthGuard)
        requires
            old(self).depth > i32::MIN,
        ensures
            final(self).depth == uncounted(old(self).depth as int, guard.counts()),
    {
        if guard.active {
            self.depth = self.depth - 1;
        }
    }
}

/// A call that is counted and ended, and counted no more in between or not, leaves the count as it
/// was.
pub proof fn law_nesting_is_balanced(depth: int, handed_on: bool)
    ensures
        uncounted(uncounted(depth + 1, handed_on), !handed_on) == depth,
{
}

/// What the caller answers, as plain sequences.
pub ghost struct Answer {
    pub yes: bool,
    pub facts: Facts,
    pub translation: TranslationView,
    pub text: Option<Seq<u8>>,
    pub available: bool,
    pub rc: i32,
    pub statement: bool,
}

/// Where a statement stands once the answer is in, and what is to be done then.
pub open spec fn after(s: State, r: Answer) -> (State, ActionView) {
    step(s, r.yes, r.facts, r.translation, r.text, r.available, r.rc, r.statement)
}

/// The caller was told to do this, where a statement waits at this stage.
pub open spec fn waits_for(stage: Stage, a: ActionView) -> bool {
    match a {
        ActionView::ColumnExists { .. } => stage == Stage::Column,
        ActionView::Delegate => stage == Stage::Delegated,
        ActionView::Inspect => stage == Stage::OnDeckFacts || stage == Stage::LowFacts || stage
            == Stage::Facts,
        ActionView::Translate => stage == Stage::StandInTranslation || stage is Translated,
        ActionView::SimplifySearch { .. } => stage == Stage::Simplified,
        ActionView::StripCollation { .. } => stage == Stage::Stripped,
        ActionView::AddIfNotExists { .. } => stage == Stage::Defined,
        ActionView::Prepare { .. } => stage is Prepared,
        ActionView::PrepareOriginal => stage is Prepared,
        ActionView::ClearErrorAndCreate => stage == (Stage::Created { purpose: Purpose::Real }),
        ActionView::Create => stage == (Stage::Created { purpose: Purpose::OnDeck }) || stage == (
        Stage::Created { purpose: Purpose::LowStack }),
        ActionView::ClearError => stage == (Stage::Created { purpose: Purpose::Nothing }),
        ActionView::Polish { .. } => stage is Polished,
        ActionView::NoteLowStack => stage == Stage::LowNoted,
        ActionView::Return { .. } => stage == Stage::Over,
    }
}

/// A statement waits for the answer to what the caller was told to do.
#[verifier::rlimit(60)]
#[verifier::spinoff_prover]
pub proof fn law_question_is_remembered(s: State, r: Answer)
    requires
        stage_ok(s),
    ensures
        waits_for(after(s, r).0.stage, after(s, r).1),
{
    reveal(on_facts);
    reveal(enter);
    reveal(after_strip);
    reveal(after_simplify);
    reveal(attach);
    reveal(polish);
    reveal(prepared);
    reveal(created);
    reveal(polished);
}

/// A server-side part is of the kind that the statement is of: one that is skipped exactly where it
/// is to be skipped, else a write exactly where it writes, and else a read; where the stack was too
/// small to look closer it is a read.
#[verifier::rlimit(60)]
#[verifier::spinoff_prover]
pub proof fn law_part_is_of_its_kind(s: State, r: Answer, part: PartView)
    requires
        stage_ok(s),
        after(s, r).1 matches ActionView::Return { part: p, .. } && p == Some(part),
    ensures
        ({
            let closely = s.stage == (Stage::Created { purpose: Purpose::Real }) || s.stage == (
            Stage::Translated { purpose: Purpose::Real }) || s.stage == (Stage::Polished {
                purpose: Purpose::Real,
            });
            &&& part.kind == 1 || part.kind == 2 || part.kind == 3
            &&& part.kind == 3 <==> closely && s.facts.skip
            &&& part.kind == 1 <==> closely && !s.facts.skip && s.facts.write
            &&& !closely ==> s.stage == (Stage::Translated { purpose: Purpose::OnDeck }) || s.stage
                == (Stage::Translated { purpose: Purpose::LowStack }) || s.stage == (
            Stage::Polished { purpose: Purpose::OnDeck }) || s.stage == (Stage::Polished {
                purpose: Purpose::LowStack,
            })
        }),
{
    reveal(on_facts);
    reveal(enter);
    reveal(after_strip);
    reveal(after_simplify);
    reveal(attach);
    reveal(polish);
    reveal(prepared);
    reveal(created);
    reveal(polished);
}

/// A write that is not to be skipped is run by the server when its server-side part is stepped: with
/// a connection that works, the step goes on to run it, and a read's goes on to read.
pub proof fn law_parts_are_run(
    s: State,
    r: Answer,
    part: PartView,
    info: step::StmtInfo,
    found: step::Answer,
    no: step::Answer,
)
    requires
        stage_ok(s),
        after(s, r).1 matches ActionView::Return { part: p, .. } && p == Some(part),
        s.stage == (Stage::Polished { purpose: Purpose::Real }),
        !s.facts.skip,
        info.known,
        info.kind == part.kind,
        info.has_sql == (part.sql is Some),
        info.has_shadow,
        !info.read_done,
        !info.kept_result,
        !info.write_executed,
        found.conn.present,
        found.conn.active,
        found.conn.connected,
        found.conn.library,
        !no.yes,
        no.rc == 0,
    ensures
        ({
            let a = step::begin(info, false);
            let b = step::after(a.0, found);
            let c = step::after(b.0, no);
            let d = step::after(c.0, no);
            let e = step::after(d.0, no);
            &&& s.facts.write ==> e.1 == step::Action::RunWrite
            &&& !s.facts.write ==> b.1 == step::Action::GetReady
        }),
{
    reveal(polished);
}

/// A statement that is skipped ends every step at once, without the server or the local database.
pub proof fn law_skipped_parts_do_nothing(s: State, r: Answer, part: PartView, info: step::StmtInfo)
    requires
        stage_ok(s),
        after(s, r).1 matches ActionView::Return { part: p, .. } && p == Some(part),
        s.stage == (Stage::Created { purpose: Purpose::Real }),
        s.facts.skip,
        info.known,
        info.kind == part.kind,
    ensures
        step::begin(info, false).1 == (step::Action::Return {
            rc: 101,
            executed: false,
            broken: false,
        }),
        part.sql is None,
        part.register,
{
    reveal(created);
    reveal(polish);
}

/// The text of a server-side part is what the translation and its rewriting gave, with what an
/// insertion needs on the server behind it; without a translation it has none. The number of
/// parameters is the translation's.
#[verifier::rlimit(60)]
#[verifier::spinoff_prover]
pub proof fn law_part_has_the_translation(s: State, r: Answer, part: PartView)
    requires
        stage_ok(s),
        after(s, r).1 matches ActionView::Return { part: p, .. } && p == Some(part),
    ensures
        part.sql is Some <==> s.stage is Polished,
        s.stage is Polished ==> part.param_count == Some(s.translation->0.param_count),
        s.stage is Polished ==> ({
            let text = match r.text {
                Some(t) => t,
                None => s.translation->0.sql->0,
            };
            &&& part.sql->0.len() >= text.len()
            &&& part.sql->0.take(text.len() as int) == text
            &&& s.stage == (Stage::Polished { purpose: Purpose::Real }) ==> part.sql->0
                == prepare_text::completed(s.facts.write, s.sql->0, text) && part.prepared
                && part.names && part.register
            &&& s.stage != (Stage::Polished { purpose: Purpose::Real }) ==> part.sql->0 == text
        }),
{
    reveal(on_facts);
    reveal(enter);
    reveal(after_strip);
    reveal(after_simplify);
    reveal(attach);
    reveal(polish);
    reveal(prepared);
    reveal(created);
    reveal(polished);
    if s.stage is Polished {
        let text = match r.text {
            Some(t) => t,
            None => s.translation->0.sql->0,
        };
        assert(text.take(text.len() as int) =~= text);
        assert((text + " RETURNING id".spec_bytes()).take(text.len() as int) =~= text);
        assert((text + " ON CONFLICT DO NOTHING".spec_bytes()).take(text.len() as int) =~= text);
    }
}

/// What is rewritten further is the translation's text, for the database of large objects too
/// exactly where the statement was looked at closely; and only a translation that succeeded is.
pub proof fn law_translations_are_polished(s: State, r: Answer, purpose: Purpose)
    requires
        s.stage == (Stage::Translated { purpose }),
        for_server(purpose),
    ensures
        r.translation.success && r.translation.sql is Some ==> after(s, r).1 == (
        ActionView::Polish { sql: r.translation.sql->0, blobs: purpose == Purpose::Real }),
        !(r.translation.success && r.translation.sql is Some) ==> (after(s, r).1 matches
            ActionView::Return { rc, part, .. } && rc == s.rc && part is Some && part->0.sql is None
            && !part->0.prepared),
{
    reveal(polish);
}

/// The code that the local database gave is what the caller is told, once there is a local
/// statement; without one, the failure is told and there is no server-side part.
pub proof fn law_local_code_is_told(s: State, r: Answer, purpose: Purpose)
    requires
        s.stage == (Stage::Prepared { purpose }),
    ensures
        r.available ==> after(s, r).0.rc == r.rc,
        !r.available && purpose != Purpose::SkipAlter ==> (after(s, r).1 matches
            ActionView::Return { rc, part, .. } && rc == 1 && part is None),
        r.available && (r.rc != 0 || !r.statement) ==> after(s, r).1 == (ActionView::Return {
            rc: r.rc,
            clear: Clear::Nothing,
            part: None,
        }),
{
    reveal(prepared);
    reveal(attach);
}

/// Once the local database has its statement, the code that is told in the end is the one that it
/// gave.
pub proof fn law_code_is_kept(s: State, r: Answer)
    requires
        s.stage is Created || s.stage is Translated || s.stage is Polished,
    ensures
        after(s, r).0.rc == s.rc,
        after(s, r).1 matches ActionView::Return { rc, clear, .. } ==> rc == s.rc && clear
            == Clear::Nothing,
{
    reveal(polish);
    reveal(created);
    reveal(polished);
}

/// A server-side part is set up exactly where the local database has a statement, the connection can
/// serve and the statement reads or writes; then it is one for the statement itself, whether the
/// local database has the statement or a stand-in.
pub proof fn law_parts_need_a_connection(s: State, r: Answer, purpose: Purpose)
    requires
        s.stage == (Stage::Prepared { purpose }),
        purpose == Purpose::Real || purpose == Purpose::StandIn,
        r.available,
        r.rc == 0,
        r.statement,
    ensures
        ({
            let f = s.facts;
            after(s, r).1 == if f.conn.present && f.conn.active && f.conn.connected
                && f.conn.library && (f.read || f.write) {
                ActionView::ClearErrorAndCreate
            } else {
                ActionView::ClearError
            }
        }),
        after(s, r).0.facts == s.facts,
        after(s, r).0.translation == s.translation,
{
    reveal(prepared);
    reveal(attach);
}

/// With little stack a query for what is on deck, or a read, still gets a server-side part, once the
/// local database has a statement.
pub proof fn law_low_stack_parts(s: State, r: Answer, set_up: Answer, purpose: Purpose)
    requires
        s.stage == (Stage::Prepared { purpose }),
        purpose == Purpose::OnDeck || purpose == Purpose::LowStack,
        r.available,
        r.rc == 0,
        r.statement,
    ensures
        after(s, r).1 == ActionView::Create,
        set_up.yes ==> after(after(s, r).0, set_up).1 == ActionView::Translate,
        !set_up.yes ==> (after(after(s, r).0, set_up).1 matches ActionView::Return {
            rc,
            part,
            ..
        } && rc == 0 && part is None),
{
    reveal(prepared);
    reveal(created);
}

/// A part that could not be set up is none; one for a statement to be skipped has no text; any
/// other gets the translation, which is asked for unless it is there already.
pub proof fn law_created_parts_are_translated(s: State, r: Answer)
    requires
        s.stage == (Stage::Created { purpose: Purpose::Real }),
    ensures
        !r.yes ==> after(s, r).1 == (ActionView::Return {
            rc: s.rc,
            clear: Clear::Nothing,
            part: None,
        }),
        r.yes && !s.facts.skip && s.translation is None ==> after(s, r).1 == ActionView::Translate,
        r.yes && !s.facts.skip && s.translation is Some && s.translation->0.success
            && s.translation->0.sql is Some ==> after(s, r).1 == (ActionView::Polish {
            sql: s.translation->0.sql->0,
            blobs: true,
        }),
{
    reveal(created);
    reveal(polish);
}

/// A statement goes to the server, with a stand-in for the local database, exactly where it reads or
/// writes, is not to be skipped, and there is a connection of the library's that statements may be
/// sent over; the translation is kept for the server-side part.
pub proof fn law_reads_and_writes_go_to_the_server(s: State, r: Answer, translated: Answer)
    requires
        s.stage == Stage::Facts,
        s.sql is Some,
    ensures
        ({
            let f = r.facts;
            let server = f.conn.present && f.conn.active && f.conn.library && (f.read || f.write)
                && !f.skip;
            let a = after(s, r);
            let b = after(a.0, translated);
            &&& a.1 == ActionView::Translate <==> server
            &&& a.0.facts == f
            &&& a.0.text == s.sql->0
            &&& server ==> b.1 is Prepare && b.0.stage == (Stage::Prepared {
                purpose: Purpose::StandIn,
            }) && b.0.translation == Some(translated.translation) && b.0.facts == f
        }),
{
    reveal(on_facts);
    reveal(after_simplify);
    reveal(after_strip);
}

/// What the local database prepares for a statement of its own is the text that was given, unless a
/// rewriting changed it, and then what the last one gave.
pub proof fn law_the_text_is_prepared(s: State, r: Answer)
    requires
        s.stage == Stage::Defined,
    ensures
        after(s, r).1 == match r.text {
            Some(t) => ActionView::Prepare { text: t },
            None => if s.cleaned {
                ActionView::Prepare { text: s.text }
            } else {
                ActionView::PrepareOriginal
            },
        },
        after(s, r).0.stage == (Stage::Prepared { purpose: Purpose::Real }),
        after(s, r).0.facts == s.facts,
{
}

/// Each rewriting starts from what the one before gave: full-text search, then the collation, then
/// definitions.
pub proof fn law_rewritings_follow_each_other(s: State, r: Answer)
    requires
        s.stage == Stage::Simplified || s.stage == Stage::Stripped,
        s.sql is Some,
    ensures
        ({
            let text = match r.text {
                Some(t) => t,
                None => s.text,
            };
            let a = after(s, r);
            &&& a.0.text == text
            &&& a.0.cleaned == (s.cleaned || r.text is Some)
            &&& a.1 == (ActionView::StripCollation { text }) <==> s.stage == Stage::Simplified
                && prepare_text::has_word(text, "collate icu_root")
            &&& a.1 == (ActionView::Prepare { text: "SELECT 1 WHERE 0".spec_bytes() }) || a.1 == (
            ActionView::StripCollation { text }) || a.1 == (ActionView::AddIfNotExists { text })
        }),
{
    reveal(after_simplify);
    reveal(after_strip);
}

/// How deep preparing may nest and how much stack it takes: too deep a nesting fails; with less than
/// 400 000 bytes of stack the work is handed to the thread that has a stack of its own, if that
/// runs; with less than 100 000 a query for what is on deck, and with less than 64 000 (32 000 on
/// that thread) any statement, is looked at for the server alone.
pub proof fn law_stack_limits(s: State)
    ensures
        s.depth > 50 ==> enter(s).1 == (ActionView::Return {
            rc: 1,
            clear: Clear::StatementAndTail,
            part: None,
        }),
        s.depth <= 50 && !s.from_worker && s.worker_active && s.remaining < 400_000 ==> enter(s).1
            == ActionView::Delegate,
        enter(s).1 == ActionView::Delegate ==> s.depth <= 50 && !s.from_worker && s.worker_active
            && s.remaining < 400_000,
        enter(s).0.stage == Stage::OnDeckFacts ==> s.remaining < 100_000 && s.sql is Some
            && prepare_text::is_ondeck(s.sql->0),
        enter(s).0.stage == Stage::LowFacts ==> s.remaining < 64_000,
        enter(s).0.stage == Stage::Facts ==> s.sql is Some && s.remaining >= 32_000 && (
        s.remaining >= 64_000 || s.from_worker) && (s.remaining >= 100_000
            || !prepare_text::is_ondeck(s.sql->0)),
        s.depth <= 50 && s.remaining >= 400_000 && s.sql is Some ==> enter(s) == (
            State { stage: Stage::Facts, ..s },
            ActionView::Inspect,
        ),
        s.depth <= 50 && s.remaining >= 400_000 && s.sql is None ==> enter(s).1
            == ActionView::PrepareOriginal,
        s.depth <= 50 && s.from_worker && 32_000 <= s.remaining < 64_000 && s.sql is Some
            && !prepare_text::is_ondeck(s.sql->0) ==> enter(s).1 == ActionView::Inspect && enter(
            s,
        ).0.stage == Stage::Facts,
{
    reveal(enter);
}

/// With too little stack, only a read with a connection that can serve goes on; anything else is
/// noted, and answered as if memory had run out.
pub proof fn law_too_little_stack(s: State, r: Answer, noted: Answer)
    requires
        s.stage == Stage::LowFacts,
    ensures
        ({
            let f = r.facts;
            let serves = f.conn.present && f.conn.active && f.conn.connected && f.conn.library
                && f.read && s.sql is Some;
            let a = after(s, r);
            &&& serves ==> a.1 == (ActionView::Prepare { text: "SELECT 1".spec_bytes() })
                && a.0.stage == (Stage::Prepared { purpose: Purpose::LowStack })
            &&& !serves ==> a.1 == ActionView::NoteLowStack && after(a.0, noted).1 == (
            ActionView::Return { rc: 7, clear: Clear::StatementAndTail, part: None })
        }),
{
}

/// With little stack, a query for what is on deck is the server's where a connection can serve, and
/// has no rows otherwise.
pub proof fn law_on_deck(s: State, r: Answer)
    requires
        s.stage == Stage::OnDeckFacts,
    ensures
        ({
            let f = r.facts;
            let a = after(s, r);
            if f.conn.present && f.conn.active && f.conn.connected && f.conn.library {
                a.1 == (ActionView::Prepare { text: "SELECT 1".spec_bytes() }) && a.0.stage == (
                Stage::Prepared { purpose: Purpose::OnDeck })
            } else {
                a.1 == (ActionView::Prepare { text: "SELECT 1 WHERE 0".spec_bytes() })
                    && a.0.stage == (Stage::Prepared { purpose: Purpose::Nothing })
            }
        }),
{
}

/// A column that is there already is not added again: the local database prepares a query without
/// rows, and what it says is told; and what the thread with a stack of its own said is told.
pub proof fn law_columns_are_added_once(s: State, r: Answer, told: Answer)
    ensures
        s.stage == Stage::Column && r.yes ==> after(s, r).1 == (ActionView::Prepare {
            text: "SELECT 1 WHERE 0".spec_bytes(),
        }),
        s.stage == Stage::Column && r.yes && told.available ==> after(
            after(s, r).0,
            told,
        ).1 == (ActionView::Return { rc: told.rc, clear: Clear::Nothing, part: None }),
        s.stage == Stage::Column && r.yes && !told.available ==> after(
            after(s, r).0,
            told,
        ).1 == (ActionView::Return { rc: 0, clear: Clear::StatementAndTail, part: None }),
        s.stage == Stage::Column && !r.yes ==> after(s, r) == enter(s),
        s.stage == Stage::Delegated ==> after(s, r).1 == (ActionView::Return {
            rc: r.rc,
            clear: Clear::Nothing,
            part: None,
        }),
{
    reveal(prepared);
}

/// A statement begins with nothing known of it but its text and the thread it is prepared on; only
/// one that adds a column to a table is asked about first, with the table and the column that it
/// names.
pub proof fn law_beginnings(
    sql: Option<Seq<u8>>,
    from_worker: bool,
    worker_active: bool,
    depth: i32,
    remaining: isize,
)
    ensures
        ({
            let b = begin(sql, from_worker, worker_active, depth, remaining);
            &&& b.0.sql == sql
            &&& b.0.from_worker == from_worker
            &&& b.0.worker_active == worker_active
            &&& b.0.depth == depth
            &&& b.0.remaining == remaining
            &&& b.0.translation is None
            &&& !b.0.cleaned
            &&& b.0.rc == 0
            &&& sql is Some ==> (prepare_text::added_column(sql->0) matches Some((table, column))
                ==> b.1 == (ActionView::ColumnExists { table, column }))
            &&& b.1 is ColumnExists ==> sql is Some && prepare_text::added_column(sql->0) is Some
            &&& depth <= 50 && remaining >= 400_000 && sql is Some && prepare_text::added_column(
                sql->0,
            ) is None ==> b.1 == ActionView::Inspect && b.0.stage == Stage::Facts
        }),
{
    reveal(enter);
}

/// The text of a statement for the local database is made ready in this order: a full-text search is
/// made simple where it names a search table, then the collation is taken out where it is named,
/// then, where no word of a search is left, definitions are made to pass over what is there; with
/// such a word left, the query without rows stands in.
pub proof fn law_local_texts_are_made_ready(s: State, r: Answer)
    requires
        (s.stage == Stage::Facts && !goes_to_server(r.facts)) || s.stage == Stage::Simplified
            || s.stage == Stage::Stripped,
        s.sql is Some,
    ensures
        ({
            let text = if s.stage == Stage::Facts {
                s.sql->0
            } else {
                match r.text {
                    Some(t) => t,
                    None => s.text,
                }
            };
            let table = bytes::occurs_icase(text, "fts4_".spec_bytes());
            let word = bytes::occurs_icase(text, " match ".spec_bytes());
            let collation = bytes::occurs_icase(text, "collate icu_root".spec_bytes());
            after(s, r).1 == if s.stage == Stage::Facts && table {
                ActionView::SimplifySearch { text }
            } else if s.stage != Stage::Stripped && collation {
                ActionView::StripCollation { text }
            } else if table || word {
                ActionView::Prepare { text: "SELECT 1 WHERE 0".spec_bytes() }
            } else {
                ActionView::AddIfNotExists { text }
            }
        }),
{
    reveal(on_facts);
    reveal(after_simplify);
    reveal(after_strip);
}

/// What a server-side part takes over: for a statement that was looked at closely, its names and a
/// place among the prepared statements, and a place in the registry; with too little stack the same;
/// for what is on deck none of it. A count of children is marked as one.
pub proof fn law_parts_take_over(s: State, r: Answer, part: PartView, purpose: Purpose)
    requires
        stage_ok(s),
        s.stage == (Stage::Polished { purpose }),
        after(s, r).1 matches ActionView::Return { part: p, .. } && p == Some(part),
    ensures
        purpose == Purpose::OnDeck ==> !part.names && !part.prepared && !part.register,
        purpose != Purpose::OnDeck ==> part.names && part.prepared && part.register,
        part.is_count_query <==> purpose == Purpose::Real && bytes::occurs_icase(
            match r.text {
                Some(t) => t,
                None => s.translation->0.sql->0,
            },
            "parents.parent_id,count(*)".spec_bytes(),
        ),
{
    reveal(polished);
}

/// The stand-in binds the parameters of the translation, by their names.
pub proof fn law_stand_ins_are_of_the_translation(s: State, r: Answer)
    requires
        s.stage == Stage::StandInTranslation,
    ensures
        after(s, r).1 == (ActionView::Prepare {
            text: prepare_text::dummy(
                prepare_text::readable(r.translation.names),
                r.translation.param_count as int,
            ),
        }),
        after(s, r).0.translation == Some(r.translation),
        after(s, r).0.facts == s.facts,
        after(s, r).0.sql == s.sql,
{
}

} // verus!
