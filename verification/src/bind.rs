//! Binding a value in SQLite and for the server.

use crate::machine_id;
use crate::params;
use crate::params::LocalValue;
use crate::params::Params;
use crate::prepare_text;
use crate::text;
use vstd::prelude::*;

verus! {

/// SQLite's code for success.
pub const SQLITE_OK: i32 = 0;

/// SQLite's code for a call that came at the wrong time.
pub const SQLITE_MISUSE: i32 = 21;

/// How often a binding that SQLite refused as misuse is tried again.
pub const MISUSE_RETRIES: u8 = 3;

/// How a statement is routed, as binding sees it.
pub struct Routing {
    /// Zero for a statement that is left to SQLite.
    pub is_pg: i32,
    /// Nonzero where the rows that are there stand in for those of the real query.
    pub metadata_only_result: i32,
    pub has_result: bool,
}

/// Does binding make SQLite start the statement over?
pub fn should_reset_stmt(disabled: bool, stmt: Option<&Routing>) -> (r: bool)
    ensures
        r == (!disabled && (stmt matches Some(s) && s.is_pg != 0)),
{
    if disabled {
        return false;
    }
    match stmt {
        Some(s) => s.is_pg != 0,
        None => false,
    }
}

/// Has the statement run again with its parameters, where it has only run to learn about its
/// columns.
pub fn clear_metadata_result_if_needed(stmt: &mut Routing)
    ensures
        final(stmt).is_pg == old(stmt).is_pg,
        final(stmt).has_result == old(stmt).has_result,
        final(stmt).metadata_only_result == (if old(stmt).metadata_only_result != 0 && old(
            stmt,
        ).has_result {
            2
        } else {
            old(stmt).metadata_only_result as int
        }),
{
    if stmt.metadata_only_result != 0 && stmt.has_result {
        stmt.metadata_only_result = 2;
    }
}

/// What is to be done next to bind a value in SQLite.
pub enum BindAction {
    /// Bind.
    Bind,
    /// Start the statement over, if so asked, wait, and bind.
    WaitAndBind { reset: bool },
    /// Answer with this code.
    Finish { code: i32 },
}

/// The binding of a value in SQLite.
pub struct Binding {
    /// SQLite starts the statement over before it binds.
    pub reset: bool,
    /// How many more tries there are.
    pub retries: u8,
}

impl Binding {
    /// Begins to bind. A statement that SQLite never sees binds nothing there and succeeds.
    pub fn begin_bind(server_only: bool, reset: bool) -> (r: (Self, BindAction))
        ensures
            r.0.reset == reset,
            r.0.retries == MISUSE_RETRIES,
            r.1 == (if server_only {
                BindAction::Finish { code: SQLITE_OK }
            } else {
                BindAction::Bind
            }),
    {
        let b = Binding { reset, retries: MISUSE_RETRIES };
        if server_only {
            (b, BindAction::Finish { code: SQLITE_OK })
        } else {
            (b, BindAction::Bind)
        }
    }

    /// Goes on after SQLite has answered: misuse is tried again, and any other answer stands.
    pub fn retry_on_misuse(&mut self, code: i32) -> (r: BindAction)
        ensures
            final(self).reset == old(self).reset,
            code == SQLITE_MISUSE && old(self).retries > 0 ==> final(self).retries == old(
                self,
            ).retries - 1 && r == (BindAction::WaitAndBind { reset: old(self).reset }),
            !(code == SQLITE_MISUSE && old(self).retries > 0) ==> final(self).retries == old(
                self,
            ).retries && r == (BindAction::Finish { code }),
    {
        if code == SQLITE_MISUSE && self.retries > 0 {
            self.retries = self.retries - 1;
            BindAction::WaitAndBind { reset: self.reset }
        } else {
            BindAction::Finish { code }
        }
    }
}


/// What binding a text reads and writes of a statement.
pub struct BoundStmt {
    pub routing: Routing,
    pub sql: Option<String>,
    pub params: Params,
}

/// The text of a statement, for a search in it.
pub open spec fn searched(sql: Option<String>) -> Seq<char> {
    match sql {
        Some(s) => s@,
        None => Seq::empty(),
    }
}

/// What is known when a text is bound.
pub struct TextFacts {
    /// SQLite never starts statements over.
    pub reset_disabled: bool,
    /// SQLite never sees the statement.
    pub server_only: bool,
    /// Empty texts are left alone.
    pub bypass: bool,
    /// What SQLite calls the parameter.
    pub name: Option<Vec<u8>>,
    /// The same, as a text.
    pub name_text: Option<String>,
    pub idx: i32,
}

/// What the caller was asked last.
#[derive(PartialEq, Eq, Structural, Clone, Copy, Debug)]
pub enum TextStage {
    Preferences,
    Local,
    Over,
}

/// What the caller has to do next.
#[derive(PartialEq, Eq, Structural, Clone, Copy, Debug)]
pub enum TextAction {
    /// Read the server's preferences.
    ReadPreferences,
    /// Have SQLite bind the value.
    Bind,
    /// Start the statement over, if so asked, wait, and have SQLite bind the value.
    WaitAndBind { reset: bool },
    /// Done.
    Finish { code: i32 },
}

/// What came of it. Each step reads only the part that it asked for.
pub struct TextReply {
    /// SQLite's answer.
    pub code: i32,
    /// What the preferences hold, if they could be read.
    pub content: Option<String>,
}

/// A text that is being bound.
pub struct TextBind {
    pub facts: TextFacts,
    /// The value: the one that was given, or the machine's identifier in its place.
    pub value: Option<Vec<u8>>,
    pub binding: Binding,
    pub stage: TextStage,
}

/// Is the value to be replaced by the machine's identifier?
pub open spec fn intercepts(stmt: Option<BoundStmt>, facts: TextFacts, value: Option<Vec<u8>>) -> bool {
    &&& stmt is Some
    &&& value is Some
    &&& !facts.bypass
    &&& text::occurs(searched(stmt->0.sql), "devices"@)
    &&& value->0@.len() == 0
    &&& machine_id::takes_identifier(
        searched(stmt->0.sql),
        match facts.name_text {
            Some(n) => Some(n@),
            None => None,
        },
        facts.idx as int,
    )
}

/// The identifier that takes the place of an empty text.
pub open spec fn identifier_bytes(content: Option<String>) -> Seq<u8> {
    vstd::utf8::encode_utf8(
        match content {
            Some(c) => match machine_id::identifier(c@) {
                Some(id) => id,
                None => machine_id::default_identifier(),
            },
            None => machine_id::default_identifier(),
        },
    )
}

/// The statement keeps this text for the server, where it has a place for it.
pub open spec fn stored(old: Option<BoundStmt>, new: Option<BoundStmt>, facts: TextFacts, value: Option<
    Vec<u8>,
>) -> bool {
    match (old, value) {
        (Some(o), Some(v)) => {
            &&& new matches Some(n)
            &&& n.routing == o.routing
            &&& n.sql == o.sql
            &&& n.params.wf()
            &&& match params::slot_of(
                o.params,
                prepare_text::opt_bytes(facts.name),
                facts.idx as int,
            ) {
                Some(slot) => o.params.rebound(n.params, slot) && params::owns(
                    n.params.values@[slot],
                    params::text_form(v@),
                ),
                None => n.params == o.params,
            }
        },
        _ => new == old,
    }
}

/// The statement's parameters are in order.
pub open spec fn stmt_ok(stmt: Option<BoundStmt>) -> bool {
    stmt matches Some(s) ==> s.params.wf()
}

/// What follows once the value is known: SQLite binds it, or the statement keeps it at once.
pub open spec fn proceeds(
    old: Option<BoundStmt>,
    new: Option<BoundStmt>,
    b: TextBind,
    action: TextAction,
) -> bool {
    if b.facts.server_only {
        b.stage == TextStage::Over && action == (TextAction::Finish { code: SQLITE_OK }) && stored(
            old,
            new,
            b.facts,
            b.value,
        )
    } else {
        b.stage == TextStage::Local && action == TextAction::Bind && new == old
    }
}

/// The statement after binding has begun: where it has only run to learn about its columns, it will
/// run again.
pub open spec fn begun(stmt: Option<BoundStmt>) -> Option<BoundStmt> {
    match stmt {
        Some(s) => Some(
            BoundStmt {
                routing: Routing {
                    is_pg: s.routing.is_pg,
                    has_result: s.routing.has_result,
                    metadata_only_result: if s.routing.metadata_only_result != 0
                        && s.routing.has_result {
                        2
                    } else {
                        s.routing.metadata_only_result
                    },
                },
                sql: s.sql,
                params: s.params,
            },
        ),
        None => None,
    }
}

/// What comes of going on with a reply.
pub open spec fn resumed(
    before: TextBind,
    after: TextBind,
    old_stmt: Option<BoundStmt>,
    new_stmt: Option<BoundStmt>,
    reply: TextReply,
    action: TextAction,
) -> bool {
    &&& after.facts == before.facts
    &&& before.stage == TextStage::Preferences ==> {
        &&& after.binding == before.binding
        &&& after.value matches Some(v)
        &&& v@ == identifier_bytes(reply.content)
        &&& proceeds(old_stmt, new_stmt, after, action)
    }
    &&& before.stage == TextStage::Local ==> {
        &&& after.value == before.value
        &&& after.binding.reset == before.binding.reset
        &&& if reply.code == SQLITE_MISUSE && before.binding.retries > 0 {
            &&& after.stage == TextStage::Local
            &&& after.binding.retries == before.binding.retries - 1
            &&& action == (TextAction::WaitAndBind { reset: before.binding.reset })
            &&& new_stmt == old_stmt
        } else {
            &&& after.stage == TextStage::Over
            &&& action == (TextAction::Finish { code: reply.code })
            &&& stored(old_stmt, new_stmt, before.facts, before.value)
        }
    }
}

fn store(stmt: &mut Option<BoundStmt>, facts: &TextFacts, value: &Option<Vec<u8>>)
    requires
        stmt_ok(*old(stmt)),
    ensures
        stmt_ok(*final(stmt)),
        stored(*old(stmt), *final(stmt), *facts, *value),
{
    match stmt.take() {
        None => {},
        Some(mut s) => {
            if let Some(v) = value {
                match &facts.name {
                    Some(n) => params::rust_my_sqlite3_bind_text(
                        &mut s.params,
                        Some(n.as_slice()),
                        facts.idx,
                        Some(v.as_slice()),
                    ),
                    None => params::rust_my_sqlite3_bind_text(
                        &mut s.params,
                        None,
                        facts.idx,
                        Some(v.as_slice()),
                    ),
                }
            }
            *stmt = Some(s);
        },
    }
}

impl TextBind {
    fn proceed(&mut self, stmt: &mut Option<BoundStmt>) -> (r: TextAction)
        requires
            stmt_ok(*old(stmt)),
        ensures
            stmt_ok(*final(stmt)),
            final(self).facts == old(self).facts,
            final(self).value == old(self).value,
            final(self).binding == old(self).binding,
            proceeds(*old(stmt), *final(stmt), *final(self), r),
    {
        if self.facts.server_only {
            store(stmt, &self.facts, &self.value);
            self.stage = TextStage::Over;
            TextAction::Finish { code: SQLITE_OK }
        } else {
            self.stage = TextStage::Local;
            TextAction::Bind
        }
    }

    /// Begins to bind a text. An empty one that goes to the identifier of a device is replaced by the
    /// machine's; the preferences have to be read for that.
    pub fn bind_text_impl(
        stmt: &mut Option<BoundStmt>,
        facts: TextFacts,
        value: Option<Vec<u8>>,
    ) -> (r: (TextBind, TextAction))
        requires
            stmt_ok(*old(stmt)),
        ensures
            stmt_ok(*final(stmt)),
            r.0.facts == facts,
            r.0.value == value,
            r.0.binding.retries == MISUSE_RETRIES,
            r.0.binding.reset == (!facts.reset_disabled && (*old(stmt) matches Some(s)
                && s.routing.is_pg != 0)),
            intercepts(*old(stmt), facts, value) ==> r.0.stage == TextStage::Preferences && r.1
                == TextAction::ReadPreferences && *final(stmt) == begun(*old(stmt)),
            !intercepts(*old(stmt), facts, value) ==> proceeds(
                begun(*old(stmt)),
                *final(stmt),
                r.0,
                r.1,
            ),
    {
        let mut reset = false;
        let mut replace = false;
        match stmt.take() {
            None => {},
            Some(mut s) => {
                clear_metadata_result_if_needed(&mut s.routing);
                reset = should_reset_stmt(facts.reset_disabled, Some(&s.routing));
                if let Some(v) = &value {
                    let empty = String::new();
                    let sql: &str = match &s.sql {
                        Some(t) => t.as_str(),
                        None => empty.as_str(),
                    };
                    let name: Option<&str> = match &facts.name_text {
                        Some(n) => Some(n.as_str()),
                        None => None,
                    };
                    replace = machine_id::intercepts_empty_identifier(
                        facts.bypass,
                        sql,
                        name,
                        facts.idx,
                        v.len(),
                    );
                }
                *stmt = Some(s);
            },
        }
        let mut b = TextBind {
            facts,
            value,
            binding: Binding { reset, retries: MISUSE_RETRIES },
            stage: TextStage::Over,
        };
        if replace {
            b.stage = TextStage::Preferences;
            (b, TextAction::ReadPreferences)
        } else {
            let action = b.proceed(stmt);
            (b, action)
        }
    }

    /// Goes on with what came of the last action.
    pub fn resume(&mut self, stmt: &mut Option<BoundStmt>, reply: TextReply) -> (r: TextAction)
        requires
            stmt_ok(*old(stmt)),
            old(self).stage != TextStage::Over,
            old(self).stage == TextStage::Preferences ==> (reply.content matches Some(c)
                ==> machine_id::readable(c@)),
        ensures
            stmt_ok(*final(stmt)),
            resumed(*old(self), *final(self), *old(stmt), *final(stmt), reply, r),
    {
        match self.stage {
            TextStage::Preferences => {
                let id = match &reply.content {
                    Some(c) => machine_id::get_machine_identifier(Some(c.as_str())),
                    None => machine_id::get_machine_identifier(None),
                };
                let b = id.as_str().as_bytes();
                let v = prepare_text::copy_range(b, 0, b.len());
                assert(v@ == b@);
                self.value = Some(v);
                self.proceed(stmt)
            },
            _ => match self.binding.retry_on_misuse(reply.code) {
                BindAction::WaitAndBind { reset } => TextAction::WaitAndBind { reset },
                BindAction::Bind => TextAction::Bind,
                BindAction::Finish { code } => {
                    store(stmt, &self.facts, &self.value);
                    self.stage = TextStage::Over;
                    TextAction::Finish { code }
                },
            },
        }
    }
}

/// How much is left to do.
pub open spec fn work_left(b: TextBind) -> int {
    match b.stage {
        TextStage::Preferences => 2 + MISUSE_RETRIES,
        TextStage::Local => 1 + b.binding.retries,
        TextStage::Over => 0,
    }
}

/// Each step of binding a text leaves less to do: SQLite is asked four times at most.
pub proof fn law_binding_ends(
    before: TextBind,
    after: TextBind,
    old_stmt: Option<BoundStmt>,
    new_stmt: Option<BoundStmt>,
    reply: TextReply,
    action: TextAction,
)
    requires
        before.stage != TextStage::Over,
        before.binding.retries <= MISUSE_RETRIES,
        resumed(before, after, old_stmt, new_stmt, reply, action),
    ensures
        0 <= work_left(after) < work_left(before) <= 2 + MISUSE_RETRIES,
{
}

/// A value that is no text, as it is bound for the server.
pub enum BindValue {
    Int(i32),
    Int64(i64),
    /// A floating-point number, written out.
    Double(Vec<u8>),
    Blob(Option<Vec<u8>>),
    /// A value of SQLite, if there is one.
    Value(Option<LocalValue>),
    Null,
}

/// What is known when such a value is bound.
pub struct ValueFacts {
    /// SQLite never starts statements over.
    pub reset_disabled: bool,
    /// SQLite never sees the statement.
    pub server_only: bool,
    /// What SQLite calls the parameter.
    pub name: Option<Vec<u8>>,
    pub idx: i32,
}

/// A value that can be bound: blobs that go to the server as they are have SQLite's lengths.
pub open spec fn fits(value: BindValue) -> bool {
    value matches BindValue::Value(Some(LocalValue::Blob(Some(b)))) ==> b@.len() <= i32::MAX
}

/// What binding the value does to a parameter.
pub open spec fn param_stored(old: Params, new: Params, slot: int, value: BindValue) -> bool {
    match value {
        BindValue::Int(n) => old.rebound(new, slot) && params::buffers(
            new.values@[slot],
            params::decimal(n as int),
        ),
        BindValue::Int64(n) => old.rebound(new, slot) && params::buffers(
            new.values@[slot],
            params::decimal(n as int),
        ),
        BindValue::Double(t) => old.rebound(new, slot) && params::buffers(new.values@[slot], t@),
        BindValue::Blob(Some(b)) => if b@.len() > 0 {
            params::stored_in_digits(old, new, slot, b@)
        } else {
            new == old
        },
        BindValue::Blob(None) => new == old,
        BindValue::Value(Some(v)) => params::value_stored(old, new, slot, v),
        BindValue::Value(None) => new == old,
        BindValue::Null => old.rebound(new, slot) && new.values@[slot] == params::freed(
            old.values@[slot],
        ),
    }
}

/// The statement keeps this value for the server, where it has a place for it.
pub open spec fn value_kept(
    old: Option<BoundStmt>,
    new: Option<BoundStmt>,
    facts: ValueFacts,
    value: BindValue,
) -> bool {
    match old {
        Some(o) => {
            &&& new matches Some(n)
            &&& n.routing == o.routing
            &&& n.sql == o.sql
            &&& n.params.wf()
            &&& match params::slot_of(
                o.params,
                prepare_text::opt_bytes(facts.name),
                facts.idx as int,
            ) {
                Some(slot) => param_stored(o.params, n.params, slot, value),
                None => n.params == o.params,
            }
        },
        None => new is None,
    }
}

fn store_value(stmt: &mut Option<BoundStmt>, facts: &ValueFacts, value: BindValue)
    requires
        stmt_ok(*old(stmt)),
        fits(value),
    ensures
        stmt_ok(*final(stmt)),
        value_kept(*old(stmt), *final(stmt), *facts, value),
{
    match stmt.take() {
        None => {},
        Some(mut s) => {
            let name: Option<&[u8]> = match &facts.name {
                Some(n) => Some(n.as_slice()),
                None => None,
            };
            match value {
                BindValue::Int(n) => params::rust_my_sqlite3_bind_int(
                    &mut s.params,
                    name,
                    facts.idx,
                    n,
                ),
                BindValue::Int64(n) => params::rust_my_sqlite3_bind_int64(
                    &mut s.params,
                    name,
                    facts.idx,
                    n,
                ),
                BindValue::Double(t) => params::rust_my_sqlite3_bind_double(
                    &mut s.params,
                    name,
                    facts.idx,
                    t,
                ),
                BindValue::Blob(Some(b)) => params::rust_my_sqlite3_bind_blob(
                    &mut s.params,
                    name,
                    facts.idx,
                    Some(b.as_slice()),
                ),
                BindValue::Blob(None) => {},
                BindValue::Value(Some(v)) => params::rust_my_sqlite3_bind_value(
                    &mut s.params,
                    name,
                    facts.idx,
                    v,
                ),
                BindValue::Value(None) => {},
                BindValue::Null => params::rust_my_sqlite3_bind_null(
                    &mut s.params,
                    name,
                    facts.idx,
                ),
            }
            *stmt = Some(s);
        },
    }
}

/// A value that is being bound, until the statement keeps it.
pub struct ValueBind {
    pub facts: ValueFacts,
    pub value: Option<BindValue>,
    pub binding: Binding,
}

/// The value is there and can be bound.
pub open spec fn value_waits(b: ValueBind) -> bool {
    b.value is Some && fits(b.value->0)
}

/// What comes of SQLite's answer: misuse is tried again, and with any other answer the statement
/// keeps the value, whatever the answer is.
pub open spec fn value_resumed(
    before: ValueBind,
    after: ValueBind,
    old_stmt: Option<BoundStmt>,
    new_stmt: Option<BoundStmt>,
    code: i32,
    action: BindAction,
) -> bool {
    &&& after.facts == before.facts
    &&& after.binding.reset == before.binding.reset
    &&& if code == SQLITE_MISUSE && before.binding.retries > 0 {
        &&& after.value == before.value
        &&& after.binding.retries == before.binding.retries - 1
        &&& action == (BindAction::WaitAndBind { reset: before.binding.reset })
        &&& new_stmt == old_stmt
    } else {
        &&& after.value is None
        &&& after.binding.retries == before.binding.retries
        &&& action == (BindAction::Finish { code })
        &&& value_kept(old_stmt, new_stmt, before.facts, before.value->0)
    }
}

impl ValueBind {
    /// Begins to bind a value. Rows that only tell of the columns are marked for another run, and
    /// SQLite starts the statement over if so told. A statement that SQLite never sees keeps the
    /// value at once.
    pub fn begin(stmt: &mut Option<BoundStmt>, facts: ValueFacts, value: BindValue) -> (r: (
        ValueBind,
        BindAction,
    ))
        requires
            stmt_ok(*old(stmt)),
            fits(value),
        ensures
            stmt_ok(*final(stmt)),
            r.0.facts == facts,
            r.0.binding.retries == MISUSE_RETRIES,
            r.0.binding.reset == (!facts.reset_disabled && (*old(stmt) matches Some(s)
                && s.routing.is_pg != 0)),
            facts.server_only ==> r.0.value is None && r.1 == (BindAction::Finish {
                code: SQLITE_OK,
            }) && value_kept(begun(*old(stmt)), *final(stmt), facts, value),
            !facts.server_only ==> r.0.value == Some(value) && r.1 == BindAction::Bind
                && *final(stmt) == begun(*old(stmt)),
    {
        let mut reset = false;
        match stmt.take() {
            None => {},
            Some(mut s) => {
                clear_metadata_result_if_needed(&mut s.routing);
                reset = should_reset_stmt(facts.reset_disabled, Some(&s.routing));
                *stmt = Some(s);
            },
        }
        let (binding, action) = Binding::begin_bind(facts.server_only, reset);
        if facts.server_only {
            store_value(stmt, &facts, value);
            (ValueBind { facts, value: None, binding }, action)
        } else {
            (ValueBind { facts, value: Some(value), binding }, action)
        }
    }

    /// Goes on with SQLite's answer.
    pub fn resume(&mut self, stmt: &mut Option<BoundStmt>, code: i32) -> (r: BindAction)
        requires
            stmt_ok(*old(stmt)),
            value_waits(*old(self)),
        ensures
            stmt_ok(*final(stmt)),
            value_resumed(*old(self), *final(self), *old(stmt), *final(stmt), code, r),
    {
        let action = self.binding.retry_on_misuse(code);
        if let BindAction::Finish { .. } = action {
            if let Some(v) = self.value.take() {
                store_value(stmt, &self.facts, v);
            }
        }
        action
    }
}

/// Each answer of SQLite leaves fewer tries, or ends the binding.
pub proof fn law_value_binding_ends(
    before: ValueBind,
    after: ValueBind,
    old_stmt: Option<BoundStmt>,
    new_stmt: Option<BoundStmt>,
    code: i32,
    action: BindAction,
)
    requires
        value_waits(before),
        value_resumed(before, after, old_stmt, new_stmt, code, action),
    ensures
        action is Finish <==> after.value is None,
        !(action is Finish) ==> value_waits(after) && after.binding.retries
            < before.binding.retries,
{
}

/// Where the statement has a place for it, a text that was bound is what the server gets, in the form
/// that can be sent; every other parameter, the text of the statement and its way stay as they are.
pub proof fn law_texts_are_kept(
    old: Option<BoundStmt>,
    new: Option<BoundStmt>,
    facts: TextFacts,
    value: Vec<u8>,
    slot: int,
)
    requires
        stmt_ok(old),
        old is Some,
        stored(old, new, facts, Some(value)),
        params::slot_of(old->0.params, prepare_text::opt_bytes(facts.name), facts.idx as int)
            == Some(slot),
    ensures
        new is Some,
        params::bound_bytes(new->0.params.values@[slot]) == Some(params::text_form(value@)),
        forall|j: int|
            0 <= j < old->0.params.values@.len() && j != slot ==> #[trigger] new->0.params.values@[j]
                == old->0.params.values@[j],
        new->0.sql == old->0.sql,
        new->0.routing == old->0.routing,
{
}

/// SQLite's answer to a text is what the caller is told, but for misuse, which is tried again up to
/// three times; and once the caller is told, the statement keeps the value for the server, whatever
/// the answer was.
pub proof fn law_text_answers_are_told(
    before: TextBind,
    after: TextBind,
    old_stmt: Option<BoundStmt>,
    new_stmt: Option<BoundStmt>,
    reply: TextReply,
    action: TextAction,
)
    requires
        before.stage == TextStage::Local,
        resumed(before, after, old_stmt, new_stmt, reply, action),
    ensures
        reply.code != 21 || before.binding.retries == 0 ==> action == (TextAction::Finish {
            code: reply.code,
        }) && stored(old_stmt, new_stmt, before.facts, before.value),
        reply.code == 21 && before.binding.retries > 0 ==> action == (TextAction::WaitAndBind {
            reset: before.binding.reset,
        }) && new_stmt == old_stmt && after.binding.retries + 1 == before.binding.retries,
        after.value == before.value,
        MISUSE_RETRIES == 3,
{
}

/// Only an empty text that goes to the identifier of a device is replaced; what replaces it is the
/// machine's identifier, and that is then bound like any text.
pub proof fn law_only_empty_identifiers_are_replaced(
    stmt: Option<BoundStmt>,
    facts: TextFacts,
    value: Option<Vec<u8>>,
    before: TextBind,
    after: TextBind,
    new_stmt: Option<BoundStmt>,
    reply: TextReply,
    action: TextAction,
)
    ensures
        intercepts(stmt, facts, value) ==> value is Some && value->0@.len() == 0 && stmt is Some
            && !facts.bypass && text::occurs(searched(stmt->0.sql), "devices"@),
        before.stage == TextStage::Preferences && resumed(
            before,
            after,
            stmt,
            new_stmt,
            reply,
            action,
        ) ==> after.value is Some && (!before.facts.server_only ==> action == TextAction::Bind
            && new_stmt == stmt) && (before.facts.server_only ==> action == (TextAction::Finish {
            code: 0,
        }) && stored(stmt, new_stmt, before.facts, after.value)) && (reply.content is Some
            && machine_id::identifier(reply.content->0@) is Some ==> after.value->0@
            == vstd::utf8::encode_utf8(machine_id::identifier(reply.content->0@)->0)),
{
}

/// Binding has a statement run again that has only run to learn about its columns, and changes
/// nothing else about how it is run.
pub proof fn law_binding_runs_again(s: BoundStmt)
    ensures
        begun(Some(s)) matches Some(n) && n.routing.is_pg == s.routing.is_pg
            && n.routing.has_result == s.routing.has_result && n.sql == s.sql && n.params
            == s.params && n.routing.metadata_only_result == if s.routing.metadata_only_result != 0
            && s.routing.has_result {
            2
        } else {
            s.routing.metadata_only_result as int
        },
        begun(None) is None,
{
}

/// What is bound to a parameter is what the server gets: a whole number reads as that number, one
/// that came written out stays as it is, bytes come in hexadecimal digits, and nothing stands where
/// a text or bytes were unbound; every other parameter stays.
pub proof fn law_values_are_kept(
    old: Option<BoundStmt>,
    new: Option<BoundStmt>,
    facts: ValueFacts,
    value: BindValue,
    slot: int,
)
    requires
        stmt_ok(old),
        old is Some,
        fits(value),
        value_kept(old, new, facts, value),
        params::slot_of(old->0.params, prepare_text::opt_bytes(facts.name), facts.idx as int)
            == Some(slot),
    ensures
        new is Some,
        new->0.sql == old->0.sql,
        new->0.routing == old->0.routing,
        forall|j: int|
            0 <= j < old->0.params.values@.len() && j != slot ==> #[trigger] new->0.params.values@[j]
                == old->0.params.values@[j],
        value matches BindValue::Int(n) ==> (params::bound_bytes(new->0.params.values@[slot])
            matches Some(b) && params::value_of(b) == n),
        value matches BindValue::Int64(n) ==> (params::bound_bytes(new->0.params.values@[slot])
            matches Some(b) && params::value_of(b) == n),
        value matches BindValue::Double(t) ==> params::bound_bytes(new->0.params.values@[slot])
            == Some(t@),
        value matches BindValue::Blob(Some(b)) ==> (b@.len() > 0 ==> params::bound_bytes(
            new->0.params.values@[slot],
        ) == Some(params::hex_form(b@))),
        value is Null ==> !(new->0.params.values@[slot] is Owned),
        value matches BindValue::Value(Some(LocalValue::Integer(n))) ==> (params::bound_bytes(
            new->0.params.values@[slot],
        ) matches Some(b) && params::value_of(b) == n),
        value matches BindValue::Value(Some(LocalValue::Text(Some(t)))) ==> params::bound_bytes(
            new->0.params.values@[slot],
        ) == Some(t@),
{
    match value {
        BindValue::Int(n) => {
            params::law_numbers_read_back(n as int);
        },
        BindValue::Int64(n) => {
            params::law_numbers_read_back(n as int);
        },
        BindValue::Value(Some(v)) => {
            params::law_values_are_kept(old->0.params, new->0.params, slot, v);
        },
        _ => {},
    }
}

/// SQLite's answer to a value is what the caller is told, but for misuse, which is tried again while
/// tries are left; then the statement keeps the value, and not before.
pub proof fn law_value_answers_are_told(
    before: ValueBind,
    after: ValueBind,
    old_stmt: Option<BoundStmt>,
    new_stmt: Option<BoundStmt>,
    code: i32,
    action: BindAction,
)
    requires
        value_waits(before),
        value_resumed(before, after, old_stmt, new_stmt, code, action),
    ensures
        code != 21 || before.binding.retries == 0 ==> action == (BindAction::Finish { code })
            && value_kept(old_stmt, new_stmt, before.facts, before.value->0),
        code == 21 && before.binding.retries > 0 ==> action == (BindAction::WaitAndBind {
            reset: before.binding.reset,
        }) && new_stmt == old_stmt && after.value == before.value,
{
}

/// Whatever is bound, the statement keeps its text and its way to the server, and each of the other
/// parameters its value.
pub proof fn law_the_statement_stays(
    o: BoundStmt,
    n: BoundStmt,
    facts: TextFacts,
    value: Option<Vec<u8>>,
    value_facts: ValueFacts,
    bound: BindValue,
)
    requires
        stored(Some(o), Some(n), facts, value) || value_kept(
            Some(o),
            Some(n),
            value_facts,
            bound,
        ),
    ensures
        n.sql == o.sql,
        n.routing == o.routing,
        value is None && stored(Some(o), Some(n), facts, value) ==> n == o,
{
}

} // verus!
