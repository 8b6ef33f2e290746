//! Insertions that replace or skip rows that are there already, in the words of the server.
//!
//! `INSERT OR REPLACE` and `REPLACE INTO` become `ON CONFLICT .. DO UPDATE SET`, `INSERT OR IGNORE`
//! becomes `ON CONFLICT .. DO NOTHING`.

use crate::text;
use sqlparser::ast::Assignment;
use sqlparser::ast::AssignmentTarget;
use sqlparser::ast::ConflictTarget;
use sqlparser::ast::DoUpdate;
use sqlparser::ast::Expr;
use sqlparser::ast::Ident;
use sqlparser::ast::ObjectName;
use sqlparser::ast::ObjectNamePart;
use sqlparser::ast::OnConflict;
use sqlparser::ast::OnConflictAction;
use sqlparser::ast::OnInsert;
use sqlparser::ast::SelectItem;
use sqlparser::ast::SqliteOnConflict;
use sqlparser::ast::Statement;
use sqlparser::ast::TableObject;
use vstd::prelude::*;

verus! {

/// What an insertion says behind the word `OR`.
#[derive(Clone, Copy, Debug, PartialEq, Eq, Structural)]
pub enum OrClause {
    Absent,
    Rollback,
    Abort,
    Fail,
    Ignore,
    Replace,
}

/// The parts of an insertion that decide how it is rewritten. The table's name comes in parts, with
/// nothing for one that is no plain name.
pub struct InsertHead {
    pub has_on: bool,
    pub name: Vec<Option<String>>,
    pub columns: Vec<String>,
    pub or: OrClause,
    pub replace_into: bool,
}

/// What becomes of an insertion: which columns tell that a row is there already, which columns
/// (by number) are then updated, and whether the row's number is returned.
pub enum Rewrite {
    Unchanged,
    DoNothing { target: Option<Vec<&'static str>> },
    DoUpdate { target: Option<Vec<&'static str>>, assign: Vec<usize>, returning_id: bool },
}

/// The texts of a list of strings.
pub open spec fn strings(v: Seq<String>) -> Seq<Seq<char>> {
    v.map_values(|s: String| s@)
}

/// The texts of the parts of a name.
pub open spec fn name_parts(v: Seq<Option<String>>) -> Seq<Option<Seq<char>>> {
    v.map_values(
        |o: Option<String>|
            match o {
                Some(s) => Some(s@),
                None => None,
            },
    )
}

/// The table that a name stands for: its last part; empty where there is none or it is no plain
/// name.
pub open spec fn table_of(name: Seq<Option<Seq<char>>>) -> Seq<char> {
    if name.len() > 0 && name.last() is Some {
        name.last()->0
    } else {
        Seq::empty()
    }
}

/// The table that a name stands for.
pub fn table_name(name: &Vec<Option<String>>) -> (r: String)
    ensures
        r@ == table_of(name_parts(name@)),
{
    let n: usize = name.len();
    if n > 0 {
        assert(name_parts(name@).last() == match name@[n - 1] {
            Some(s) => Some(s@),
            None => None,
        });
        if let Some(t) = &name[n - 1] {
            return t.as_str().to_owned();
        }
    }
    String::new()
}

/// The texts of a list of literals.
pub open spec fn literals(v: Seq<&'static str>) -> Seq<Seq<char>> {
    v.map_values(|s: &'static str| s@)
}

/// The tables whose rows are told apart by their number.
pub open spec fn keyed_by_id(t: Seq<char>) -> bool {
    ||| t == "tags"@
    ||| t == "taggings"@
    ||| t == "metadata_items"@
    ||| t == "media_items"@
    ||| t == "media_parts"@
    ||| t == "media_streams"@
    ||| t == "settings"@
    ||| t == "accounts"@
    ||| t == "directories"@
    ||| t == "library_sections"@
    ||| t == "statistics_media"@
    ||| t == "statistics_resources"@
    ||| t == "devices"@
    ||| t == "play_queue_items"@
    ||| t == "play_queue_generators"@
    ||| t == "play_queues"@
    ||| t == "activities"@
    ||| t == "locations"@
    ||| t == "plugins"@
    ||| t == "media_grabs"@
    ||| t == "versioned_metadata_items"@
    ||| t == "external_metadata_items"@
    ||| t == "external_metadata_sources"@
    ||| t == "metadata_item_views"@
    ||| t == "metadata_item_accounts"@
    ||| t == "metadata_item_clusterings"@
    ||| t == "media_item_settings"@
    ||| t == "media_provider_resources"@
    ||| t == "media_subscriptions"@
    ||| t == "metadata_relations"@
    ||| t == "metadata_subscription_desired_items"@
    ||| t == "sync_schema_versions"@
    ||| t == "spellfix_metadata_titles"@
    ||| t == "section_locations"@
    ||| t == "hub_templates"@
    ||| t == "blobs"@
}

/// The columns by which the rows of a table are told apart, for the tables that are known.
pub open spec fn conflict_columns(t: Seq<char>) -> Option<Seq<Seq<char>>> {
    if keyed_by_id(t) {
        Some(seq!["id"@])
    } else if t == "statistics_bandwidth"@ {
        Some(seq!["account_id"@, "device_id"@, "timespan"@, "at"@, "lan"@])
    } else if t == "metadata_item_settings"@ {
        Some(seq!["account_id"@, "guid"@])
    } else if t == "locatables"@ {
        Some(seq!["location_id"@, "locatable_id"@, "locatable_type"@])
    } else if t == "location_places"@ {
        Some(seq!["location_id"@, "guid"@])
    } else if t == "media_stream_settings"@ {
        Some(seq!["media_stream_id"@, "account_id"@])
    } else if t == "preferences"@ {
        Some(seq!["name"@])
    } else if t == "schema_migrations"@ {
        Some(seq!["version"@])
    } else {
        None
    }
}

fn is_keyed_by_id(t: &str) -> (r: bool)
    ensures
        r == keyed_by_id(t@),
{
    let chars = text::chars_of(t);
    let v = chars.as_slice();
    text::same(v, "tags") || text::same(v, "taggings") || text::same(v, "metadata_items")
        || text::same(v, "media_items") || text::same(v, "media_parts") || text::same(
        v,
        "media_streams",
    ) || text::same(v, "settings") || text::same(v, "accounts") || text::same(v, "directories")
        || text::same(v, "library_sections") || text::same(v, "statistics_media") || text::same(
        v,
        "statistics_resources",
    ) || text::same(v, "devices") || text::same(v, "play_queue_items") || text::same(
        v,
        "play_queue_generators",
    ) || text::same(v, "play_queues") || text::same(v, "activities") || text::same(v, "locations")
        || text::same(v, "plugins") || text::same(v, "media_grabs") || text::same(
        v,
        "versioned_metadata_items",
    ) || text::same(v, "external_metadata_items") || text::same(v, "external_metadata_sources")
        || text::same(v, "metadata_item_views") || text::same(v, "metadata_item_accounts")
        || text::same(v, "metadata_item_clusterings") || text::same(v, "media_item_settings")
        || text::same(v, "media_provider_resources") || text::same(v, "media_subscriptions")
        || text::same(v, "metadata_relations") || text::same(
        v,
        "metadata_subscription_desired_items",
    ) || text::same(v, "sync_schema_versions") || text::same(v, "spellfix_metadata_titles")
        || text::same(v, "section_locations") || text::same(v, "hub_templates") || text::same(
        v,
        "blobs",
    )
}

/// The columns by which the rows of a table are told apart; the name is in lower case.
pub fn get_conflict_columns(table_name: &str) -> (r: Option<Vec<&'static str>>)
    ensures
        target_texts(r) == conflict_columns(table_name@),
{
    if is_keyed_by_id(table_name) {
        let v: Vec<&'static str> = vec!["id"];
        assert(literals(v@) == seq!["id"@]);
        return Some(v);
    }
    if text::str_eq(table_name, "statistics_bandwidth") {
        let v: Vec<&'static str> = vec!["account_id", "device_id", "timespan", "at", "lan"];
        assert(literals(v@) == seq!["account_id"@, "device_id"@, "timespan"@, "at"@, "lan"@]);
        return Some(v);
    }
    if text::str_eq(table_name, "metadata_item_settings") {
        let v: Vec<&'static str> = vec!["account_id", "guid"];
        assert(literals(v@) == seq!["account_id"@, "guid"@]);
        return Some(v);
    }
    if text::str_eq(table_name, "locatables") {
        let v: Vec<&'static str> = vec!["location_id", "locatable_id", "locatable_type"];
        assert(literals(v@) == seq!["location_id"@, "locatable_id"@, "locatable_type"@]);
        return Some(v);
    }
    if text::str_eq(table_name, "location_places") {
        let v: Vec<&'static str> = vec!["location_id", "guid"];
        assert(literals(v@) == seq!["location_id"@, "guid"@]);
        return Some(v);
    }
    if text::str_eq(table_name, "media_stream_settings") {
        let v: Vec<&'static str> = vec!["media_stream_id", "account_id"];
        assert(literals(v@) == seq!["media_stream_id"@, "account_id"@]);
        return Some(v);
    }
    if text::str_eq(table_name, "preferences") {
        let v: Vec<&'static str> = vec!["name"];
        assert(literals(v@) == seq!["name"@]);
        return Some(v);
    }
    if text::str_eq(table_name, "schema_migrations") {
        let v: Vec<&'static str> = vec!["version"];
        assert(literals(v@) == seq!["version"@]);
        return Some(v);
    }
    None
}

/// The texts of the columns by which rows are told apart.
pub open spec fn target_texts(target: Option<Vec<&'static str>>) -> Option<Seq<Seq<char>>> {
    match target {
        Some(t) => Some(literals(t@)),
        None => None,
    }
}

/// The row's number is returned where some column by which rows are told apart has `id` in its
/// name.
pub open spec fn wants_id(cols: Option<Seq<Seq<char>>>) -> bool {
    match cols {
        Some(c) => some_names_id(c),
        None => false,
    }
}

/// Some column has `id` in its name.
pub open spec fn some_names_id(c: Seq<Seq<char>>) -> bool {
    exists|i: int| #[trigger] names_id(c, i)
}

/// Column `i` has `id` in its name.
pub open spec fn names_id(c: Seq<Seq<char>>, i: int) -> bool {
    0 <= i < c.len() && text::occurs(c[i], "id"@)
}

/// Is the row's number to be returned?
fn should_add_returning_id(conflict_cols: &Option<Vec<&'static str>>) -> (r: bool)
    ensures
        r == wants_id(target_texts(*conflict_cols)),
{
    match conflict_cols {
        Some(cols) => {
            let ghost all = literals(cols@);
            for i in 0..cols.len()
                invariant
                    *conflict_cols == Some(*cols),
                    all == literals(cols@),
                    forall|k: int| 0 <= k < i ==> !#[trigger] names_id(all, k),
            {
                assert(all[i as int] == cols@[i as int]@);
                if text::contains(cols[i], "id") {
                    assert(names_id(all, i as int));
                    return true;
                }
            }
            false
        },
        None => false,
    }
}

/// A column that is not updated: the row's number, and the columns by which rows are told apart.
pub open spec fn is_fixed(cols: Option<Seq<Seq<char>>>, c: Seq<char>) -> bool {
    c == "id"@ || match cols {
        Some(list) => list.contains(c),
        None => false,
    }
}

/// The numbers of those of the first `n` columns that are updated; `lower` is the columns in lower
/// case.
pub open spec fn updated(cols: Option<Seq<Seq<char>>>, lower: Seq<Seq<char>>, n: int) -> Seq<int>
    decreases n,
{
    if n <= 0 {
        Seq::empty()
    } else if is_fixed(cols, lower[n - 1]) {
        updated(cols, lower, n - 1)
    } else {
        updated(cols, lower, n - 1).push(n - 1)
    }
}

/// Numbers as they are.
pub open spec fn numbers(v: Seq<usize>) -> Seq<int> {
    v.map_values(|i: usize| i as int)
}

fn is_in(cols: &Option<Vec<&'static str>>, c: &str) -> (r: bool)
    ensures
        r == is_fixed(target_texts(*cols), c@),
{
    if text::str_eq(c, "id") {
        return true;
    }
    match cols {
        Some(list) => {
            let ghost all = literals(list@);
            for i in 0..list.len()
                invariant
                    *cols == Some(*list),
                    all == literals(list@),
                    forall|k: int| 0 <= k < i ==> #[trigger] all[k] != c@,
            {
                assert(all[i as int] == list@[i as int]@);
                if text::str_eq(c, list[i]) {
                    assert(all.contains(c@));
                    return true;
                }
            }
            assert(!all.contains(c@));
            false
        },
        None => false,
    }
}

/// The numbers of the columns that are updated; `lower` is the columns in lower case.
fn make_do_update(conflict_cols: &Option<Vec<&'static str>>, lower: &Vec<String>) -> (r: Vec<
    usize,
>)
    ensures
        numbers(r@) == updated(
            target_texts(*conflict_cols),
            strings(lower@),
            lower@.len() as int,
        ),
        forall|k: int| 0 <= k < r@.len() ==> #[trigger] r@[k] < lower@.len(),
{
    let ghost cols = target_texts(*conflict_cols);
    let mut out: Vec<usize> = Vec::new();
    for i in 0..lower.len()
        invariant
            cols == target_texts(*conflict_cols),
            numbers(out@) == updated(cols, strings(lower@), i as int),
            forall|k: int| 0 <= k < out@.len() ==> #[trigger] out@[k] < i,
    {
        assert(strings(lower@)[i as int] == lower@[i as int]@);
        if !is_in(conflict_cols, lower[i].as_str()) {
            proof {
                assert(numbers(out@.push(i)) =~= numbers(out@).push(i as int));
            }
            out.push(i);
        }
    }
    out
}

/// The rewriting of an insertion; `table` and `columns` are its table and columns in lower case.
pub open spec fn is_plan(
    r: Rewrite,
    has_on: bool,
    or: OrClause,
    replace_into: bool,
    table: Seq<char>,
    columns: Seq<Seq<char>>,
) -> bool {
    let cols = conflict_columns(table);
    if has_on {
        r is Unchanged
    } else if or == OrClause::Replace || replace_into {
        match r {
            Rewrite::DoUpdate { target, assign, returning_id } => {
                &&& target_texts(target) == cols
                &&& numbers(assign@) == updated(cols, columns, columns.len() as int)
                &&& returning_id == wants_id(cols)
            },
            _ => false,
        }
    } else if or == OrClause::Ignore {
        match r {
            Rewrite::DoNothing { target } => target_texts(target) == cols,
            _ => false,
        }
    } else {
        r is Unchanged
    }
}

/// What becomes of an insertion, given its table and columns in lower case.
pub fn plan(head: &InsertHead, table: &str, columns: &Vec<String>) -> (r: Rewrite)
    ensures
        is_plan(r, head.has_on, head.or, head.replace_into, table@, strings(columns@)),
        match r {
            Rewrite::DoUpdate { assign, .. } => forall|k: int|
                0 <= k < assign@.len() ==> #[trigger] assign@[k] < columns@.len(),
            _ => true,
        },
{
    if head.has_on {
        return Rewrite::Unchanged;
    }
    let target = get_conflict_columns(table);
    if head.or == OrClause::Replace || head.replace_into {
        let assign = make_do_update(&target, columns);
        let returning_id = should_add_returning_id(&target);
        Rewrite::DoUpdate { target, assign, returning_id }
    } else if head.or == OrClause::Ignore {
        Rewrite::DoNothing { target }
    } else {
        Rewrite::Unchanged
    }
}

/// The texts in lower case.
pub open spec fn lowered(v: Seq<Seq<char>>) -> Seq<Seq<char>> {
    v.map_values(|s: Seq<char>| text::lowercase(s))
}

/// What becomes of an insertion.
pub fn transform_insert(head: &InsertHead) -> (r: Rewrite)
    ensures
        is_plan(
            r,
            head.has_on,
            head.or,
            head.replace_into,
            text::lowercase(text::lowercase(table_of(name_parts(head.name@)))),
            lowered(strings(head.columns@)),
        ),
        match r {
            Rewrite::DoUpdate { assign, .. } => forall|k: int|
                0 <= k < assign@.len() ==> #[trigger] assign@[k] < head.columns@.len(),
            _ => true,
        },
{
    let table = table_name(&head.name);
    let once = text::to_lowercase(table.as_str());
    let table = text::to_lowercase(once.as_str());
    let mut columns: Vec<String> = Vec::new();
    for i in 0..head.columns.len()
        invariant
            columns@.len() == i,
            strings(columns@) == lowered(strings(head.columns@).take(i as int)),
    {
        let c = text::to_lowercase(head.columns[i].as_str());
        proof {
            let all = strings(head.columns@);
            assert(all[i as int] == head.columns@[i as int]@);
            assert(all.take(i + 1) == all.take(i as int).push(all[i as int]));
            assert(lowered(all.take(i + 1)) =~= lowered(all.take(i as int)).push(
                text::lowercase(all[i as int]),
            ));
            assert(strings(columns@.push(c)) =~= strings(columns@).push(c@));
        }
        columns.push(c);
    }
    proof {
        let all = strings(head.columns@);
        assert(all.take(all.len() as int) == all);
    }
    plan(head, table.as_str(), &columns)
}

/// `sqlparser::ast::Statement`, a statement as the parser reads it.
#[verifier::external_type_specification]
#[verifier::external_body]
pub struct ExStatement(Statement);

/// An assignment: the text of a column, and the texts of the names, one behind the other, that make
/// up its value.
pub ghost struct SetPart {
    pub column: Seq<char>,
    pub value: Seq<Seq<char>>,
}

/// The rule of an insertion for rows that are there already: there is none, they are left alone,
/// they get these assignments, or it is something else. Rows are told apart by the columns of the
/// target, where there is one.
pub ghost enum OnPart {
    Absent,
    Nothing { target: Option<Seq<Seq<char>>> },
    Update { target: Option<Seq<Seq<char>>>, set: Seq<SetPart> },
    Other,
}

/// What an insertion returns: nothing, one column, or something else.
pub ghost enum Returns {
    Absent,
    Column { name: Seq<char> },
    Other,
}

/// The assignments that set the columns with these numbers to those of the same name in the row
/// `source`.
pub open spec fn set_from(columns: Seq<Seq<char>>, numbers: Seq<int>, source: Seq<char>) -> Seq<
    SetPart,
> {
    numbers.map_values(
        |k: int| SetPart { column: columns[k], value: seq![source, columns[k]] },
    )
}

/// The parts of an insertion that matter here. `others` is the text of the insertion without the
/// rule, the words before `INTO` and what it returns: all of the table's name, the columns and the
/// rows are in it.
pub ghost struct InsertParts {
    pub on: OnPart,
    pub name: Seq<Option<Seq<char>>>,
    pub columns: Seq<Seq<char>>,
    pub or: OrClause,
    pub replace_into: bool,
    pub returns: Returns,
    pub others: Seq<char>,
}

/// The parts of a statement, if it is an insertion, as they stand in the fields of
/// `sqlparser::ast::Insert`. A rule is `Nothing` or `Update` where it is an `ON CONFLICT` whose target,
/// if any, is a list of columns, and whose assignments, if any, set plain columns to compound names
/// without a condition; any other rule is `Other`.
pub uninterp spec fn insert_parts(s: Statement) -> Option<InsertParts>;

/// Reads the fields of `sqlparser::ast::Insert`, if the statement is one: whether there is a rule
/// for rows that are there already, the parts of the table's name, the names of the columns, the word
/// behind `OR` and whether the statement is a `REPLACE`. What is inserted into something other than a
/// table has no name.
#[verifier::external_body]
fn read_insert(stmt: &Statement) -> (r: Option<InsertHead>)
    ensures
        r is Some == insert_parts(*stmt) is Some,
        r is Some ==> {
            let p = insert_parts(*stmt)->0;
            &&& r->0.has_on == !(p.on is Absent)
            &&& name_parts(r->0.name@) == p.name
            &&& strings(r->0.columns@) == p.columns
            &&& r->0.or == p.or
            &&& r->0.replace_into == p.replace_into
        },
{
    let Statement::Insert(i) = stmt else { return None };
    let or = match i.or {
        None => OrClause::Absent,
        Some(o) => match o {
            SqliteOnConflict::Rollback => OrClause::Rollback,
            SqliteOnConflict::Abort => OrClause::Abort,
            SqliteOnConflict::Fail => OrClause::Fail,
            SqliteOnConflict::Ignore => OrClause::Ignore,
            SqliteOnConflict::Replace => OrClause::Replace,
    } };
    Some(InsertHead { has_on: i.on.is_some(), or, replace_into: i.replace_into,
        columns: i.columns.iter().map(|c| c.value.clone()).collect(), name: match &i.table {
        TableObject::TableName(n) => n.0.iter().map(|p| p.as_ident().map(|x| x.value.clone())).collect(),
        TableObject::TableFunction(_) => vec![],
    } })
}

/// Sets the field `on` of `sqlparser::ast::Insert` to `ON CONFLICT`, with the columns that tell rows
/// apart, and `DO NOTHING`. No other field changes.
#[verifier::external_body]
fn write_do_nothing(stmt: &mut Statement, target: Option<Vec<&'static str>>)
    requires
        insert_parts(*old(stmt)) is Some,
    ensures
        insert_parts(*final(stmt)) == Some(
            (InsertParts {
                on: OnPart::Nothing { target: target_texts(target) },
                ..insert_parts(*old(stmt))->0
            }),
        ),
{
    let Statement::Insert(i) = stmt else { return };
    let conflict_target = target.map(|t| ConflictTarget::Columns(t.into_iter().map(Ident::new).collect()));
    i.on = Some(OnInsert::OnConflict(OnConflict { conflict_target, action: OnConflictAction::DoNothing }));
}

/// Sets the field `on` of `sqlparser::ast::Insert` to `ON CONFLICT`, with the columns that tell rows
/// apart, and `DO UPDATE SET`, with an assignment for each column whose number is given: its target
/// is the column, its value the column of the row `source`. No other field changes.
#[verifier::external_body]
fn write_do_update(
    stmt: &mut Statement,
    target: Option<Vec<&'static str>>,
    assign: Vec<usize>,
    source: &'static str,
)
    requires
        insert_parts(*old(stmt)) is Some,
        forall|k: int|
            0 <= k < assign@.len() ==> #[trigger] assign@[k] < insert_parts(
                *old(stmt),
            )->0.columns.len(),
    ensures
        insert_parts(*final(stmt)) == Some(
            (InsertParts {
                on: OnPart::Update {
                    target: target_texts(target),
                    set: set_from(insert_parts(*old(stmt))->0.columns, numbers(assign@), source@),
                },
                ..insert_parts(*old(stmt))->0
            }),
        ),
{
    let Statement::Insert(i) = stmt else { return };
    let conflict_target = target.map(|t| ConflictTarget::Columns(t.into_iter().map(Ident::new).collect()));
    let assignments = assign.iter().map(|k| Assignment {
        target: AssignmentTarget::ColumnName(ObjectName(vec![ObjectNamePart::Identifier(i.columns[*k].clone())])),
        value: Expr::CompoundIdentifier(vec![Ident::new(source), i.columns[*k].clone()]),
    }).collect();
    let action = OnConflictAction::DoUpdate(DoUpdate { assignments, selection: None });
    i.on = Some(OnInsert::OnConflict(OnConflict { conflict_target, action }));
}

/// Takes the word behind `OR` out of an `sqlparser::ast::Insert`, and sets its field `replace_into`.
/// No other field changes.
#[verifier::external_body]
fn write_words(stmt: &mut Statement, replace_into: bool)
    requires
        insert_parts(*old(stmt)) is Some,
    ensures
        insert_parts(*final(stmt)) == Some(
            (InsertParts {
                or: OrClause::Absent,
                replace_into,
                ..insert_parts(*old(stmt))->0
            }),
        ),
{
    let Statement::Insert(i) = stmt else { return };
    i.or = None;
    i.replace_into = replace_into;
}

/// Sets the field `returning` of `sqlparser::ast::Insert` to one column. No other field changes.
#[verifier::external_body]
fn write_returning(stmt: &mut Statement, column: &'static str)
    requires
        insert_parts(*old(stmt)) is Some,
    ensures
        insert_parts(*final(stmt)) == Some(
            (InsertParts {
                returns: Returns::Column { name: column@ },
                ..insert_parts(*old(stmt))->0
            }),
        ),
{
    let Statement::Insert(i) = stmt else { return };
    i.returning = Some(vec![SelectItem::UnnamedExpr(Expr::Identifier(Ident::new(column)))]);
}

/// The insertion as it is rewritten; `table` and `columns` are its table and columns in lower case.
pub open spec fn rewritten(p: InsertParts, table: Seq<char>, columns: Seq<Seq<char>>) -> InsertParts {
    let cols = conflict_columns(table);
    if !(p.on is Absent) {
        p
    } else if p.or == OrClause::Replace || p.replace_into {
        InsertParts {
            on: OnPart::Update {
                target: cols,
                set: set_from(
                    p.columns,
                    updated(cols, columns, columns.len() as int),
                    "EXCLUDED"@,
                ),
            },
            or: OrClause::Absent,
            replace_into: false,
            returns: if wants_id(cols) {
                Returns::Column { name: "id"@ }
            } else {
                p.returns
            },
            ..p
        }
    } else if p.or == OrClause::Ignore {
        InsertParts { on: OnPart::Nothing { target: cols }, or: OrClause::Absent, ..p }
    } else {
        p
    }
}

/// The parts of an insertion as it is rewritten.
pub open spec fn rewritten_parts(p: InsertParts) -> InsertParts {
    rewritten(p, text::lowercase(text::lowercase(table_of(p.name))), lowered(p.columns))
}

/// The statement `after` is what rewriting makes of `before`: an insertion with its new parts, and
/// the same statement where it is no insertion or none of its parts change.
pub open spec fn is_transformed(before: Statement, after: Statement) -> bool {
    match insert_parts(before) {
        Some(p) => insert_parts(after) == Some(rewritten_parts(p)) && (rewritten_parts(p) == p
            ==> after == before),
        None => after == before,
    }
}

/// Rewrites a statement, if it is an insertion that replaces or skips rows that are there already.
pub fn transform(stmt: &mut Statement)
    ensures
        is_transformed(*old(stmt), *final(stmt)),
{
    if let Some(head) = read_insert(stmt) {
        match transform_insert(&head) {
            Rewrite::Unchanged => {},
            Rewrite::DoNothing { target } => {
                write_do_nothing(stmt, target);
                write_words(stmt, head.replace_into);
            },
            Rewrite::DoUpdate { target, assign, returning_id } => {
                write_do_update(stmt, target, assign, "EXCLUDED");
                write_words(stmt, false);
                if returning_id {
                    write_returning(stmt, "id");
                }
            },
        }
    }
}

/// A rewritten statement is not changed by rewriting it again.
pub proof fn law_rewritten_once(first: Statement, second: Statement, third: Statement)
    requires
        is_transformed(first, second),
        is_transformed(second, third),
    ensures
        third == second,
{
}

/// Rewriting leaves the table, the columns and all but the rule, the words and what is returned as
/// they are; and it leaves an insertion alone that has a rule, or neither word.
pub proof fn law_rest_is_kept(before: Statement, after: Statement)
    requires
        is_transformed(before, after),
        insert_parts(before) is Some,
    ensures
        ({
            let p = insert_parts(before)->0;
            &&& insert_parts(after) matches Some(q)
            &&& q.name == p.name
            &&& q.columns == p.columns
            &&& q.others == p.others
            &&& !(p.on is Absent) || (p.or != OrClause::Replace && p.or != OrClause::Ignore
                && !p.replace_into) ==> after == before
        }),
{
}

/// No rewritten insertion keeps words that the server does not know: neither `OR REPLACE`, nor
/// `OR IGNORE`, nor `REPLACE INTO`, if it had no rule of its own.
pub proof fn law_words_are_gone(p: InsertParts, table: Seq<char>, columns: Seq<Seq<char>>)
    requires
        p.on is Absent,
    ensures
        rewritten(p, table, columns).or != OrClause::Replace,
        rewritten(p, table, columns).or != OrClause::Ignore,
        !rewritten(p, table, columns).replace_into,
        p.or == OrClause::Absent && !p.replace_into ==> rewritten(p, table, columns) == p,
{
}

/// No column is updated that tells rows apart, and every other one is.
pub proof fn law_updated_columns(cols: Option<Seq<Seq<char>>>, lower: Seq<Seq<char>>, n: int, i: int)
    requires
        0 <= n <= lower.len(),
    ensures
        updated(cols, lower, n).contains(i) <==> 0 <= i < n && !is_fixed(cols, lower[i]),
    decreases n,
{
    let all = updated(cols, lower, n);
    if n > 0 {
        law_updated_columns(cols, lower, n - 1, i);
        let rest = updated(cols, lower, n - 1);
        if !is_fixed(cols, lower[n - 1]) {
            assert(all == rest.push(n - 1));
            assert(all[all.len() - 1] == n - 1);
            if rest.contains(i) {
                let k = choose|k: int| 0 <= k < rest.len() && rest[k] == i;
                assert(all[k] == i);
            }
            if all.contains(i) {
                let k = choose|k: int| 0 <= k < all.len() && all[k] == i;
                if k < rest.len() {
                    assert(rest[k] == i);
                }
            }
        }
    }
}

/// The table of an insertion, in lower case, and in lower case once more.
pub open spec fn table_in_lower_case(p: InsertParts) -> Seq<char> {
    text::lowercase(text::lowercase(table_of(p.name)))
}

/// The insertion has no rule of its own, and says what is to become of rows that are there already.
pub open spec fn is_rewritten(p: InsertParts) -> bool {
    p.on is Absent && (p.or == OrClause::Replace || p.or == OrClause::Ignore || p.replace_into)
}

/// The columns by which the rule of a rewritten insertion tells rows apart.
pub open spec fn target_of(on: OnPart) -> Option<Seq<Seq<char>>> {
    match on {
        OnPart::Nothing { target } => target,
        OnPart::Update { target, .. } => target,
        _ => None,
    }
}

/// Rows of the tables with a plain number as their key are told apart by the one column `id`, and a
/// replacing insertion returns it.
pub proof fn law_plain_keys(before: Statement, after: Statement, p: InsertParts, q: InsertParts)
    requires
        is_transformed(before, after),
        insert_parts(before) == Some(p),
        insert_parts(after) == Some(q),
        is_rewritten(p),
        ({
            let t = table_in_lower_case(p);
            ||| t == "tags"@
            ||| t == "taggings"@
            ||| t == "metadata_items"@
            ||| t == "media_items"@
            ||| t == "media_parts"@
            ||| t == "media_streams"@
            ||| t == "settings"@
            ||| t == "accounts"@
            ||| t == "directories"@
            ||| t == "library_sections"@
            ||| t == "statistics_media"@
            ||| t == "statistics_resources"@
            ||| t == "devices"@
            ||| t == "play_queue_items"@
            ||| t == "play_queue_generators"@
            ||| t == "play_queues"@
            ||| t == "activities"@
            ||| t == "locations"@
            ||| t == "plugins"@
            ||| t == "media_grabs"@
            ||| t == "versioned_metadata_items"@
            ||| t == "external_metadata_items"@
            ||| t == "external_metadata_sources"@
            ||| t == "metadata_item_views"@
            ||| t == "metadata_item_accounts"@
            ||| t == "metadata_item_clusterings"@
            ||| t == "media_item_settings"@
            ||| t == "media_provider_resources"@
            ||| t == "media_subscriptions"@
            ||| t == "metadata_relations"@
            ||| t == "metadata_subscription_desired_items"@
            ||| t == "sync_schema_versions"@
            ||| t == "spellfix_metadata_titles"@
            ||| t == "section_locations"@
            ||| t == "hub_templates"@
            ||| t == "blobs"@
        }),
    ensures
        q.on is Update || q.on is Nothing,
        target_of(q.on) == Some(seq!["id"@]),
        q.on is Update ==> q.returns == (Returns::Column { name: "id"@ }),
        q.on is Nothing ==> q.returns == p.returns,
{
    let c = seq!["id"@];
    reveal_strlit("id");
    assert("id"@.subrange(0, 2) =~= "id"@);
    assert(text::occurs_at(c[0], 0, "id"@));
    assert(names_id(c, 0));
}

/// No table with a key of its own kind has a plain one.
proof fn lemma_other_keys(t: Seq<char>)
    requires
        t == "statistics_bandwidth"@ || t == "metadata_item_settings"@ || t == "locatables"@ || t == "location_places"@ || t == "media_stream_settings"@ || t == "preferences"@ || t == "schema_migrations"@,
    ensures
        !keyed_by_id(t),
{
    reveal_strlit("tags");
    reveal_strlit("taggings");
    reveal_strlit("metadata_items");
    reveal_strlit("media_items");
    reveal_strlit("media_parts");
    reveal_strlit("media_streams");
    reveal_strlit("settings");
    reveal_strlit("accounts");
    reveal_strlit("directories");
    reveal_strlit("library_sections");
    reveal_strlit("statistics_media");
    reveal_strlit("statistics_resources");
    reveal_strlit("devices");
    reveal_strlit("play_queue_items");
    reveal_strlit("play_queue_generators");
    reveal_strlit("play_queues");
    reveal_strlit("activities");
    reveal_strlit("locations");
    reveal_strlit("plugins");
    reveal_strlit("media_grabs");
    reveal_strlit("versioned_metadata_items");
    reveal_strlit("external_metadata_items");
    reveal_strlit("external_metadata_sources");
    reveal_strlit("metadata_item_views");
    reveal_strlit("metadata_item_accounts");
    reveal_strlit("metadata_item_clusterings");
    reveal_strlit("media_item_settings");
    reveal_strlit("media_provider_resources");
    reveal_strlit("media_subscriptions");
    reveal_strlit("metadata_relations");
    reveal_strlit("metadata_subscription_desired_items");
    reveal_strlit("sync_schema_versions");
    reveal_strlit("spellfix_metadata_titles");
    reveal_strlit("section_locations");
    reveal_strlit("hub_templates");
    reveal_strlit("blobs");
    reveal_strlit("statistics_bandwidth");
    reveal_strlit("metadata_item_settings");
    reveal_strlit("locatables");
    reveal_strlit("location_places");
    reveal_strlit("media_stream_settings");
    reveal_strlit("preferences");
    reveal_strlit("schema_migrations");
    assert("accounts"@.len() == 8);
    assert("activities"@.len() == 10);
    assert("blobs"@.len() == 5);
    assert("devices"@.len() == 7);
    assert("directories"@.len() == 11);
    assert("external_metadata_items"@.len() == 23);
    assert("external_metadata_sources"@.len() == 25);
    assert("hub_templates"@.len() == 13);
    assert("library_sections"@.len() == 16);
    assert("locatables"@.len() == 10);
    assert("location_places"@.len() == 15);
    assert("locations"@.len() == 9);
    assert("media_grabs"@.len() == 11);
    assert("media_item_settings"@.len() == 19);
    assert("media_items"@.len() == 11);
    assert("media_parts"@.len() == 11);
    assert("media_provider_resources"@.len() == 24);
    assert("media_stream_settings"@.len() == 21);
    assert("media_streams"@.len() == 13);
    assert("media_subscriptions"@.len() == 19);
    assert("metadata_item_accounts"@.len() == 22);
    assert("metadata_item_clusterings"@.len() == 25);
    assert("metadata_item_settings"@.len() == 22);
    assert("metadata_item_views"@.len() == 19);
    assert("metadata_items"@.len() == 14);
    assert("metadata_relations"@.len() == 18);
    assert("metadata_subscription_desired_items"@.len() == 35);
    assert("play_queue_generators"@.len() == 21);
    assert("play_queue_items"@.len() == 16);
    assert("play_queues"@.len() == 11);
    assert("plugins"@.len() == 7);
    assert("preferences"@.len() == 11);
    assert("schema_migrations"@.len() == 17);
    assert("section_locations"@.len() == 17);
    assert("settings"@.len() == 8);
    assert("spellfix_metadata_titles"@.len() == 24);
    assert("statistics_bandwidth"@.len() == 20);
    assert("statistics_media"@.len() == 16);
    assert("statistics_resources"@.len() == 20);
    assert("sync_schema_versions"@.len() == 20);
    assert("taggings"@.len() == 8);
    assert("tags"@.len() == 4);
    assert("versioned_metadata_items"@.len() == 24);
    assert("activities"@[0] == 'a');
    assert("directories"@[0] == 'd');
    assert("locatables"@[0] == 'l');
    assert("media_grabs"@[0] == 'm');
    assert("media_items"@[0] == 'm');
    assert("media_parts"@[0] == 'm');
    assert("media_stream_settings"@[0] == 'm');
    assert("metadata_item_accounts"@[14] == 'a');
    assert("metadata_item_settings"@[14] == 's');
    assert("play_queue_generators"@[0] == 'p');
    assert("play_queues"@[1] == 'l');
    assert("preferences"@[0] == 'p');
    assert("preferences"@[1] == 'r');
    assert("schema_migrations"@[1] == 'c');
    assert("section_locations"@[1] == 'e');
    assert("statistics_bandwidth"@[1] == 't');
    assert("statistics_bandwidth"@[11] == 'b');
    assert("statistics_resources"@[11] == 'r');
    assert("sync_schema_versions"@[1] == 'y');
}

/// The tables with a key of their own kind are all different.
proof fn lemma_keys_differ(t: Seq<char>)
    ensures
        t == "metadata_item_settings"@ ==> t != "statistics_bandwidth"@,
        t == "locatables"@ ==> t != "statistics_bandwidth"@,
        t == "locatables"@ ==> t != "metadata_item_settings"@,
        t == "location_places"@ ==> t != "statistics_bandwidth"@,
        t == "location_places"@ ==> t != "metadata_item_settings"@,
        t == "location_places"@ ==> t != "locatables"@,
        t == "media_stream_settings"@ ==> t != "statistics_bandwidth"@,
        t == "media_stream_settings"@ ==> t != "metadata_item_settings"@,
        t == "media_stream_settings"@ ==> t != "locatables"@,
        t == "media_stream_settings"@ ==> t != "location_places"@,
        t == "preferences"@ ==> t != "statistics_bandwidth"@,
        t == "preferences"@ ==> t != "metadata_item_settings"@,
        t == "preferences"@ ==> t != "locatables"@,
        t == "preferences"@ ==> t != "location_places"@,
        t == "preferences"@ ==> t != "media_stream_settings"@,
        t == "schema_migrations"@ ==> t != "statistics_bandwidth"@,
        t == "schema_migrations"@ ==> t != "metadata_item_settings"@,
        t == "schema_migrations"@ ==> t != "locatables"@,
        t == "schema_migrations"@ ==> t != "location_places"@,
        t == "schema_migrations"@ ==> t != "media_stream_settings"@,
        t == "schema_migrations"@ ==> t != "preferences"@,
{
    reveal_strlit("statistics_bandwidth");
    reveal_strlit("metadata_item_settings");
    reveal_strlit("locatables");
    reveal_strlit("location_places");
    reveal_strlit("media_stream_settings");
    reveal_strlit("preferences");
    reveal_strlit("schema_migrations");
    assert("locatables"@.len() == 10);
    assert("location_places"@.len() == 15);
    assert("media_stream_settings"@.len() == 21);
    assert("metadata_item_settings"@.len() == 22);
    assert("preferences"@.len() == 11);
    assert("schema_migrations"@.len() == 17);
    assert("statistics_bandwidth"@.len() == 20);
}

/// Rows of the tables with another key are told apart by the columns of that key, in its order, and
/// a replacing insertion returns the row's number where a column of the key names one.
pub proof fn law_other_keys(before: Statement, after: Statement, p: InsertParts, q: InsertParts)
    requires
        is_transformed(before, after),
        insert_parts(before) == Some(p),
        insert_parts(after) == Some(q),
        is_rewritten(p),
    ensures
        table_in_lower_case(p) == "statistics_bandwidth"@ ==> target_of(q.on) == Some(seq!["account_id"@, "device_id"@, "timespan"@, "at"@, "lan"@]),
        table_in_lower_case(p) == "metadata_item_settings"@ ==> target_of(q.on) == Some(seq!["account_id"@, "guid"@]),
        table_in_lower_case(p) == "locatables"@ ==> target_of(q.on) == Some(seq!["location_id"@, "locatable_id"@, "locatable_type"@]),
        table_in_lower_case(p) == "location_places"@ ==> target_of(q.on) == Some(seq!["location_id"@, "guid"@]),
        table_in_lower_case(p) == "media_stream_settings"@ ==> target_of(q.on) == Some(seq!["media_stream_id"@, "account_id"@]),
        table_in_lower_case(p) == "preferences"@ ==> target_of(q.on) == Some(seq!["name"@]),
        table_in_lower_case(p) == "schema_migrations"@ ==> target_of(q.on) == Some(seq!["version"@]),
        (table_in_lower_case(p) == "statistics_bandwidth"@ || table_in_lower_case(p) == "metadata_item_settings"@ || table_in_lower_case(p) == "locatables"@ || table_in_lower_case(p) == "location_places"@ || table_in_lower_case(p) == "media_stream_settings"@) && q.on is Update ==> q.returns == (Returns::Column { name: "id"@ }),
        (table_in_lower_case(p) == "preferences"@ || table_in_lower_case(p) == "schema_migrations"@) ==> q.returns == p.returns,
{
    let t = table_in_lower_case(p);
    lemma_keys_differ(t);
    if t == "statistics_bandwidth"@ || t == "metadata_item_settings"@ || t == "locatables"@ || t == "location_places"@ || t == "media_stream_settings"@ || t == "preferences"@ || t == "schema_migrations"@ {
        lemma_other_keys(t);
    }
    lemma_names_without_id();
    lemma_names_with_id();
}

/// Neither key names a number.
proof fn lemma_names_without_id()
    ensures
        !wants_id(Some(seq!["name"@])),
        !wants_id(Some(seq!["version"@])),
{
    reveal_strlit("id");
    reveal_strlit("name");
    reveal_strlit("version");
    let id = "id"@;
    let a = seq!["name"@];
    let b = seq!["version"@];
    assert forall|i: int| !#[trigger] names_id(a, i) by {
        if names_id(a, i) {
            let n = a[i];
            let k = choose|k: int| text::occurs_at(n, k, id);
            assert(n.subrange(k, k + 2)[0] == n[k] && n.subrange(k, k + 2)[0] == id[0]);
            assert(k == 0 || k == 1 || k == 2);
        }
    }
    assert forall|i: int| !#[trigger] names_id(b, i) by {
        if names_id(b, i) {
            let n = b[i];
            let k = choose|k: int| text::occurs_at(n, k, id);
            assert(n.subrange(k, k + 2)[0] == n[k] && n.subrange(k, k + 2)[0] == id[0]);
            assert(n.subrange(k, k + 2)[1] == n[k + 1] && n.subrange(k, k + 2)[1] == id[1]);
            assert(k == 0 || k == 1 || k == 2 || k == 3 || k == 4 || k == 5);
        }
    }
}

/// The first column of each of the other keys names a number.
proof fn lemma_names_with_id()
    ensures
        forall|c: Seq<Seq<char>>|
            c.len() > 0 && (c[0] == "account_id"@ || c[0] == "location_id"@ || c[0]
                == "media_stream_id"@) ==> #[trigger] wants_id(Some(c)),
{
    reveal_strlit("id");
    reveal_strlit("account_id");
    reveal_strlit("location_id");
    reveal_strlit("media_stream_id");
    assert("account_id"@.subrange(8, 10) =~= "id"@);
    assert("location_id"@.subrange(9, 11) =~= "id"@);
    assert("media_stream_id"@.subrange(13, 15) =~= "id"@);
    assert(text::occurs_at("account_id"@, 8, "id"@));
    assert(text::occurs_at("location_id"@, 9, "id"@));
    assert(text::occurs_at("media_stream_id"@, 13, "id"@));
    assert forall|c: Seq<Seq<char>>|
        c.len() > 0 && (c[0] == "account_id"@ || c[0] == "location_id"@ || c[0]
            == "media_stream_id"@) implies #[trigger] wants_id(Some(c)) by {
        assert(names_id(c, 0));
    }
}

/// Of a table that is not known, nothing is claimed: its rows are told apart by whatever the server
/// knows, and nothing is returned that was not asked for.
pub proof fn law_unknown_tables(before: Statement, after: Statement, p: InsertParts, q: InsertParts)
    requires
        is_transformed(before, after),
        insert_parts(before) == Some(p),
        insert_parts(after) == Some(q),
        is_rewritten(p),
        ({
            let t = table_in_lower_case(p);
            &&& t != "tags"@
            &&& t != "taggings"@
            &&& t != "metadata_items"@
            &&& t != "media_items"@
            &&& t != "media_parts"@
            &&& t != "media_streams"@
            &&& t != "settings"@
            &&& t != "accounts"@
            &&& t != "directories"@
            &&& t != "library_sections"@
            &&& t != "statistics_media"@
            &&& t != "statistics_resources"@
            &&& t != "devices"@
            &&& t != "play_queue_items"@
            &&& t != "play_queue_generators"@
            &&& t != "play_queues"@
            &&& t != "activities"@
            &&& t != "locations"@
            &&& t != "plugins"@
            &&& t != "media_grabs"@
            &&& t != "versioned_metadata_items"@
            &&& t != "external_metadata_items"@
            &&& t != "external_metadata_sources"@
            &&& t != "metadata_item_views"@
            &&& t != "metadata_item_accounts"@
            &&& t != "metadata_item_clusterings"@
            &&& t != "media_item_settings"@
            &&& t != "media_provider_resources"@
            &&& t != "media_subscriptions"@
            &&& t != "metadata_relations"@
            &&& t != "metadata_subscription_desired_items"@
            &&& t != "sync_schema_versions"@
            &&& t != "spellfix_metadata_titles"@
            &&& t != "section_locations"@
            &&& t != "hub_templates"@
            &&& t != "blobs"@
            &&& t != "statistics_bandwidth"@
            &&& t != "metadata_item_settings"@
            &&& t != "locatables"@
            &&& t != "location_places"@
            &&& t != "media_stream_settings"@
            &&& t != "preferences"@
            &&& t != "schema_migrations"@
        }),
    ensures
        target_of(q.on) is None,
        q.returns == p.returns,
{
}

/// What replaces rows updates them, what ignores rows leaves them: `OR REPLACE` and `REPLACE INTO`
/// become an update, `OR IGNORE` alone becomes no action.
pub proof fn law_replacing_and_ignoring(before: Statement, after: Statement, p: InsertParts, q: InsertParts)
    requires
        is_transformed(before, after),
        insert_parts(before) == Some(p),
        insert_parts(after) == Some(q),
        is_rewritten(p),
    ensures
        q.on is Update <==> p.or == OrClause::Replace || p.replace_into,
        q.on is Nothing <==> p.or == OrClause::Ignore && !p.replace_into,
        q.or == OrClause::Absent,
        !q.replace_into,
{
}

/// A row that is there already gets the values of the new row: every column of the insertion is set
/// to the new row's column of the same name, but for the row's number and the columns by which rows
/// are told apart; and nothing else is set.
pub proof fn law_new_values_are_taken(
    before: Statement,
    after: Statement,
    p: InsertParts,
    q: InsertParts,
    target: Option<Seq<Seq<char>>>,
    set: Seq<SetPart>,
)
    requires
        is_transformed(before, after),
        insert_parts(before) == Some(p),
        insert_parts(after) == Some(q),
        is_rewritten(p),
        q.on == (OnPart::Update { target, set }),
    ensures
        set.len() <= p.columns.len(),
        forall|k: int|
            0 <= k < set.len() ==> p.columns.contains((#[trigger] set[k]).column) && set[k].value
                == seq!["EXCLUDED"@, set[k].column] && text::lowercase(set[k].column) != "id"@ && (
            target is Some ==> !target->0.contains(text::lowercase(set[k].column))),
        forall|i: int|
            0 <= i < p.columns.len() && text::lowercase(#[trigger] p.columns[i]) != "id"@ && (
            target is Some ==> !target->0.contains(text::lowercase(p.columns[i]))) ==> exists|k: int|
                0 <= k < set.len() && (#[trigger] set[k]).column == p.columns[i],
{
    let cols = target;
    let lower = lowered(p.columns);
    let n = p.columns.len() as int;
    let all = updated(cols, lower, n);
    assert(set == set_from(p.columns, all, "EXCLUDED"@));
    lemma_updated_len(cols, lower, n);
    assert forall|k: int| 0 <= k < set.len() implies p.columns.contains((#[trigger] set[k]).column)
        && set[k].value == seq!["EXCLUDED"@, set[k].column] && text::lowercase(set[k].column)
        != "id"@ && (target is Some ==> !target->0.contains(text::lowercase(set[k].column))) by {
        let i = all[k];
        law_updated_columns(cols, lower, n, i);
        assert(all.contains(i));
        assert(lower[i] == text::lowercase(p.columns[i]));
    }
    assert forall|i: int|
        0 <= i < p.columns.len() && text::lowercase(#[trigger] p.columns[i]) != "id"@ && (target
            is Some ==> !target->0.contains(text::lowercase(p.columns[i]))) implies exists|k: int|
        0 <= k < set.len() && (#[trigger] set[k]).column == p.columns[i] by {
        law_updated_columns(cols, lower, n, i);
        assert(lower[i] == text::lowercase(p.columns[i]));
        let k = choose|k: int| 0 <= k < all.len() && all[k] == i;
        assert(set[k].column == p.columns[i]);
    }
}

proof fn lemma_updated_len(cols: Option<Seq<Seq<char>>>, lower: Seq<Seq<char>>, n: int)
    requires
        0 <= n,
    ensures
        updated(cols, lower, n).len() <= n,
    decreases n,
{
    if n > 0 {
        lemma_updated_len(cols, lower, n - 1);
    }
}

/// The last part of a name is the table, whatever schema stands before it.
pub proof fn law_table_is_the_last_part(schema: Seq<Option<Seq<char>>>, table: Seq<char>)
    ensures
        table_of(schema.push(Some(table))) == table,
        table_of(schema.push(None)) == Seq::<char>::empty(),
        table_of(Seq::empty()) == Seq::<char>::empty(),
{
}

} // verus!
