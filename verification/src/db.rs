//! The database host functions: which steps each takes, what it checks, and what it answers.
//!
//! Each function reads a JSON object of arguments and answers with an envelope in call data:
//! `{"ok": <value>}`, or `{"err": <message>}`.

use vstd::prelude::*;
use vstd::string::*;
use vstd::utf8::encode_utf8;
use crate::abi::DB_ERROR;
use crate::call_data::{clamped, fits, CallData};
use crate::edit::lemma_object_of_wf;
use crate::invocation::text_bytes;
use crate::json::{lemma_object_tree, members, tree_depth, tree_wf, Json, JsonTree, Number};
use crate::json_text::{
    holds, json_of_bytes, nearest_double, number_as_double, print_json, text_of_json, MAX_DEPTH,
};
use crate::text::{begins_with, concat, same_text};

verus! {

/// The name of a table, and whether it is a system table.
#[derive(Debug)]
pub struct TableName {
    pub name: String,
    pub is_system: bool,
}

/// What is wrong with a table, as content.
pub enum TableFaultTree {
    UserTable,
    SystemTable,
    BadName,
    Mismatch(Seq<char>, Seq<char>),
}

/// What is wrong with a table.
#[derive(Debug)]
pub enum TableFault {
    /// A user table where a system table was expected.
    UserTable,
    /// A system table where a user table was expected.
    SystemTable,
    /// The name that the guest gave is none.
    BadName,
    /// The name that the guest gave is not that of the table that the id belongs to.
    Mismatch(String, String),
}

impl View for TableFault {
    type V = TableFaultTree;

    open spec fn view(&self) -> TableFaultTree {
        match *self {
            TableFault::UserTable => TableFaultTree::UserTable,
            TableFault::SystemTable => TableFaultTree::SystemTable,
            TableFault::BadName => TableFaultTree::BadName,
            TableFault::Mismatch(a, b) => TableFaultTree::Mismatch(a@, b@),
        }
    }
}

/// What is said of a fault.
pub open spec fn table_fault_text(f: TableFaultTree) -> Seq<char> {
    match f {
        TableFaultTree::UserTable =>
            "SystemTableError: user tables cannot be accessed with db.system"@,
        TableFaultTree::SystemTable =>
            "SystemTableError: system tables can only be accessed with db.system"@,
        TableFaultTree::BadName => "table"@,
        TableFaultTree::Mismatch(provided, actual) => "table "@ + provided
            + " does not match the table for the given id, which is "@ + actual,
    }
}

impl TableFault {
    /// What is said of a fault.
    pub fn message(&self) -> (r: String)
        ensures
            r@ == table_fault_text(self@),
    {
        match self {
            TableFault::UserTable =>
                "SystemTableError: user tables cannot be accessed with db.system".to_owned(),
            TableFault::SystemTable =>
                "SystemTableError: system tables can only be accessed with db.system".to_owned(),
            TableFault::BadName => "table".to_owned(),
            TableFault::Mismatch(provided, actual) => {
                let a = concat("table ", provided.as_str());
                let b = concat(
                    a.as_str(),
                    " does not match the table for the given id, which is ",
                );
                concat(b.as_str(), actual.as_str())
            },
        }
    }
}

/// Check that a table is a system table where one is expected, and a user table where one is.
pub fn system_table_guard(name: &TableName, expect_system_table: bool) -> (r: Result<
    (),
    TableFault,
>)
    ensures
        match r {
            Ok(()) => name.is_system == expect_system_table,
            Err(f) => name.is_system != expect_system_table && f@ == (if expect_system_table {
                TableFaultTree::UserTable
            } else {
                TableFaultTree::SystemTable
            }),
        },
{
    if expect_system_table && !name.is_system {
        Err(TableFault::UserTable)
    } else if !expect_system_table && name.is_system {
        Err(TableFault::SystemTable)
    } else {
        Ok(())
    }
}

/// The name that a guest gave for a table, as content: none; or one that is no name; or a name.
pub enum ProvidedTree {
    Nothing,
    BadName,
    Name(Seq<char>),
}

/// The name that a guest gave for a table.
#[derive(Debug)]
pub enum ProvidedTable {
    Nothing,
    BadName,
    Name(String),
}

impl View for ProvidedTable {
    type V = ProvidedTree;

    open spec fn view(&self) -> ProvidedTree {
        match *self {
            ProvidedTable::Nothing => ProvidedTree::Nothing,
            ProvidedTable::BadName => ProvidedTree::BadName,
            ProvidedTable::Name(s) => ProvidedTree::Name(s@),
        }
    }
}

/// What is wrong with the name that a guest gave for a table.
pub open spec fn provided_fault(provided: ProvidedTree, actual: Seq<char>) -> Option<
    TableFaultTree,
> {
    match provided {
        ProvidedTree::Nothing => None,
        ProvidedTree::BadName => Some(TableFaultTree::BadName),
        ProvidedTree::Name(s) => if s == actual {
            None
        } else {
            Some(TableFaultTree::Mismatch(s, actual))
        },
    }
}

/// Check the name that a guest gave for a table against the table that the id belongs to.
pub fn check_table_name(provided: &ProvidedTable, actual: &TableName) -> (r: Result<
    (),
    TableFault,
>)
    ensures
        match r {
            Ok(()) => provided_fault(provided@, actual.name@) is None,
            Err(f) => provided_fault(provided@, actual.name@) == Some(f@),
        },
{
    match provided {
        ProvidedTable::Nothing => Ok(()),
        ProvidedTable::BadName => Err(TableFault::BadName),
        ProvidedTable::Name(s) => if same_text(s.as_str(), actual.name.as_str()) {
            Ok(())
        } else {
            Err(TableFault::Mismatch(s.clone(), actual.name.clone()))
        },
    }
}

/// The envelope of an answer.
pub open spec fn envelope(result: Result<JsonTree, Seq<char>>) -> JsonTree {
    match result {
        Ok(v) => JsonTree::Object(seq![("ok"@, v)]),
        Err(e) => JsonTree::Object(seq![("err"@, JsonTree::Text(e))]),
    }
}

/// What an operation came to, as content.
pub open spec fn answer(result: Result<Json, String>) -> Result<JsonTree, Seq<char>> {
    match result {
        Ok(v) => Ok(v.tree()),
        Err(e) => Err(e@),
    }
}

fn single(name: &str, value: Json) -> (r: Json)
    requires
        tree_wf(value.tree()),
    ensures
        r.tree() == JsonTree::Object(seq![(name@, value.tree())]),
        tree_wf(r.tree()),
{
    let ghost t = value.tree();
    let mut es: Vec<(String, Json)> = Vec::new();
    es.push((name.to_owned(), value));
    proof {
        lemma_object_tree(es);
        assert(members(es@) =~= seq![(name@, t)]);
        lemma_object_of_wf(members(es@));
    }
    Json::Object(es)
}

/// Put the answer of an operation into call data: the packed offset and length of its envelope,
/// or the sentinel where the envelope does not fit. A guest that reads the bytes of the envelope
/// gets the envelope, as long as it nests no deeper than the reader goes.
pub fn write_result(call_data: &mut CallData, result: Result<Json, String>) -> (r: i64)
    requires
        result matches Ok(v) ==> tree_wf(v.tree()),
    ensures
        final(call_data).max() == old(call_data).max(),
        ({
            let bytes = encode_utf8(text_of_json(envelope(answer(result))));
            if fits(old(call_data)@.len(), bytes.len(), old(call_data).max()) {
                &&& final(call_data)@ == old(call_data)@ + bytes
                &&& r as u64 == clamped(old(call_data)@.len()) * 0x1_0000_0000 + clamped(
                    bytes.len(),
                )
            } else {
                &&& final(call_data)@ == old(call_data)@
                &&& r == DB_ERROR
            }
        }),
        tree_depth(envelope(answer(result))) <= MAX_DEPTH ==> holds(
            json_of_bytes(encode_utf8(text_of_json(envelope(answer(result))))),
            envelope(answer(result)),
        ),
{
    let json = match result {
        Ok(v) => single("ok", v),
        Err(e) => single("err", Json::Text(e)),
    };
    call_data.append(&text_bytes(print_json(&json).as_str()))
}

/// The database operations.
#[derive(Debug, Clone, Copy, PartialEq, Eq, Structural)]
pub enum DbOp {
    Get,
    Count,
    Insert,
    Replace,
    Patch,
    Delete,
    Query,
}

/// The name of an operation.
pub open spec fn op_name(op: DbOp) -> Seq<char> {
    match op {
        DbOp::Get => "db.get"@,
        DbOp::Count => "db.count"@,
        DbOp::Insert => "db.insert"@,
        DbOp::Replace => "db.replace"@,
        DbOp::Patch => "db.patch"@,
        DbOp::Delete => "db.delete"@,
        DbOp::Query => "db.query"@,
    }
}

impl DbOp {
    /// The name of an operation.
    pub fn name(&self) -> (r: &'static str)
        ensures
            r@ == op_name(*self),
    {
        match self {
            DbOp::Get => "db.get",
            DbOp::Count => "db.count",
            DbOp::Insert => "db.insert",
            DbOp::Replace => "db.replace",
            DbOp::Patch => "db.patch",
            DbOp::Delete => "db.delete",
            DbOp::Query => "db.query",
        }
    }
}

/// The steps of an operation.
#[derive(Debug, Clone, Copy, PartialEq, Eq, Structural)]
pub enum DbStep {
    /// The arguments are read.
    ReadArgs,
    /// The id is decoded.
    DecodeId,
    /// The value is read.
    ReadValue,
    /// The name of the table is read.
    ParseTable,
    /// The table that the id belongs to is looked up.
    ResolveTable,
    /// The version of the guest's library is read.
    ParseVersion,
    /// The transaction does the work.
    Run,
}

/// What became of a step.
#[derive(Debug)]
pub enum DbEvent {
    /// The step was done.
    Done,
    /// The step failed; what was said of it.
    Failed(String),
    /// The value was read, and is an object or not.
    Value { is_object: bool },
    /// The table is known, and so is the name that the guest gave for it.
    Table { table: TableName, provided: ProvidedTable },
    /// The transaction answered.
    Answer(Json),
    /// The transaction counted, or cannot tell yet.
    Counted(Option<u64>),
    /// The transaction inserted a document under this id.
    Inserted(String),
}

/// Whether an event can come at a step.
pub open spec fn db_event_fits(step: DbStep, event: DbEvent) -> bool {
    match step {
        DbStep::ReadArgs | DbStep::DecodeId | DbStep::ParseVersion => event is Done
            || event is Failed,
        DbStep::ReadValue => event is Value || event is Failed,
        DbStep::ParseTable | DbStep::ResolveTable => event is Table || event is Failed,
        DbStep::Run => match event {
            DbEvent::Answer(v) => tree_wf(v.tree()),
            DbEvent::Counted(_) | DbEvent::Inserted(_) | DbEvent::Failed(_) => true,
            _ => false,
        },
    }
}

/// What comes after a step, as content.
pub enum DbNextTree {
    Go(DbStep),
    Reply(Result<JsonTree, Seq<char>>),
}

/// What comes after a step.
#[derive(Debug)]
pub enum DbNext {
    /// Another step.
    Go(DbStep),
    /// The operation is over, with this answer.
    Reply(Result<Json, String>),
}

impl View for DbNext {
    type V = DbNextTree;

    open spec fn view(&self) -> DbNextTree {
        match *self {
            DbNext::Go(s) => DbNextTree::Go(s),
            DbNext::Reply(r) => DbNextTree::Reply(answer(r)),
        }
    }
}

/// The step after a step that was done.
pub open spec fn step_after(op: DbOp, step: DbStep) -> DbStep {
    match step {
        DbStep::ReadArgs => match op {
            DbOp::Count | DbOp::Query => DbStep::ParseTable,
            DbOp::Insert => DbStep::ReadValue,
            _ => DbStep::DecodeId,
        },
        DbStep::DecodeId => DbStep::ResolveTable,
        DbStep::ReadValue => if op == DbOp::Insert {
            DbStep::ParseTable
        } else {
            DbStep::Run
        },
        DbStep::ParseTable => DbStep::Run,
        DbStep::ResolveTable => match op {
            DbOp::Get => DbStep::ParseVersion,
            DbOp::Replace | DbOp::Patch => DbStep::ReadValue,
            _ => DbStep::Run,
        },
        _ => DbStep::Run,
    }
}

/// What is said where a step fails.
pub open spec fn step_error(op: DbOp, step: DbStep, e: Seq<char>) -> Seq<char> {
    match step {
        DbStep::ReadArgs => op_name(op),
        DbStep::DecodeId => op_name(op) + ": invalid id"@,
        DbStep::ReadValue => op_name(op) + ": invalid value"@,
        DbStep::ParseTable => op_name(op) + ": invalid table"@,
        DbStep::ResolveTable => op_name(op) + ": id"@,
        DbStep::ParseVersion => op_name(op) + ": invalid version"@,
        DbStep::Run => if op == DbOp::Get || op == DbOp::Query {
            e
        } else {
            op_name(op)
        },
    }
}

/// What comes after a step. Getting from a table that does not exist gives null.
pub open spec fn db_next(op: DbOp, step: DbStep, event: DbEvent) -> DbNextTree {
    match event {
        DbEvent::Done => DbNextTree::Go(step_after(op, step)),
        DbEvent::Failed(e) => if op == DbOp::Get && step == DbStep::ResolveTable {
            DbNextTree::Reply(Ok(JsonTree::Null))
        } else {
            DbNextTree::Reply(Err(step_error(op, step, e@)))
        },
        DbEvent::Value { is_object } => if !is_object && op != DbOp::Patch {
            DbNextTree::Reply(Err(op_name(op) + ": value must be an object"@))
        } else {
            DbNextTree::Go(step_after(op, step))
        },
        DbEvent::Table { table, provided } => match provided_fault(provided@, table.name@) {
            Some(f) => DbNextTree::Reply(Err(table_fault_text(f))),
            None => if table.is_system {
                DbNextTree::Reply(Err(table_fault_text(TableFaultTree::SystemTable)))
            } else {
                DbNextTree::Go(step_after(op, step))
            },
        },
        DbEvent::Answer(v) => DbNextTree::Reply(Ok(v.tree())),
        DbEvent::Counted(count) => DbNextTree::Reply(count_answer(count)),
        DbEvent::Inserted(id) => DbNextTree::Reply(Ok(insert_answer(id@))),
    }
}

fn next_step(op: DbOp, step: DbStep) -> (r: DbStep)
    ensures
        r == step_after(op, step),
{
    match step {
        DbStep::ReadArgs => match op {
            DbOp::Count | DbOp::Query => DbStep::ParseTable,
            DbOp::Insert => DbStep::ReadValue,
            _ => DbStep::DecodeId,
        },
        DbStep::DecodeId => DbStep::ResolveTable,
        DbStep::ReadValue => if op == DbOp::Insert {
            DbStep::ParseTable
        } else {
            DbStep::Run
        },
        DbStep::ParseTable => DbStep::Run,
        DbStep::ResolveTable => match op {
            DbOp::Get => DbStep::ParseVersion,
            DbOp::Replace | DbOp::Patch => DbStep::ReadValue,
            _ => DbStep::Run,
        },
        _ => DbStep::Run,
    }
}

fn describe_failure(op: DbOp, step: DbStep, e: &String) -> (r: String)
    ensures
        r@ == step_error(op, step, e@),
{
    match step {
        DbStep::ReadArgs => op.name().to_owned(),
        DbStep::DecodeId => concat(op.name(), ": invalid id"),
        DbStep::ReadValue => concat(op.name(), ": invalid value"),
        DbStep::ParseTable => concat(op.name(), ": invalid table"),
        DbStep::ResolveTable => concat(op.name(), ": id"),
        DbStep::ParseVersion => concat(op.name(), ": invalid version"),
        DbStep::Run => if op == DbOp::Get || op == DbOp::Query {
            e.clone()
        } else {
            op.name().to_owned()
        },
    }
}

/// Decide what comes after a step of an operation.
pub fn db_step(op: DbOp, step: DbStep, event: DbEvent) -> (r: DbNext)
    requires
        db_event_fits(step, event),
    ensures
        r@ == db_next(op, step, event),
        r matches DbNext::Reply(Ok(v)) ==> tree_wf(v.tree()),
{
    match event {
        DbEvent::Done => DbNext::Go(next_step(op, step)),
        DbEvent::Failed(e) => if op == DbOp::Get && step == DbStep::ResolveTable {
            DbNext::Reply(Ok(Json::Null))
        } else {
            DbNext::Reply(Err(describe_failure(op, step, &e)))
        },
        DbEvent::Value { is_object } => if !is_object && op != DbOp::Patch {
            DbNext::Reply(Err(concat(op.name(), ": value must be an object")))
        } else {
            DbNext::Go(next_step(op, step))
        },
        DbEvent::Table { table, provided } => {
            match check_table_name(&provided, &table) {
                Err(f) => {
                    return DbNext::Reply(Err(f.message()));
                },
                Ok(()) => {},
            }
            match system_table_guard(&table, false) {
                Err(f) => DbNext::Reply(Err(f.message())),
                Ok(()) => DbNext::Go(next_step(op, step)),
            }
        },
        DbEvent::Answer(v) => DbNext::Reply(Ok(v)),
        DbEvent::Counted(count) => DbNext::Reply(count_result(count)),
        DbEvent::Inserted(id) => DbNext::Reply(Ok(insert_result(id))),
    }
}

/// Whether a step of an operation comes after its table was checked.
pub open spec fn after_table_check(op: DbOp, step: DbStep) -> bool {
    match step {
        DbStep::ParseVersion | DbStep::Run => true,
        DbStep::ReadValue => op != DbOp::Insert,
        _ => false,
    }
}

/// Whether a step belongs to an operation.
pub open spec fn step_of(op: DbOp, step: DbStep) -> bool {
    match step {
        DbStep::ReadArgs | DbStep::Run => true,
        DbStep::DecodeId | DbStep::ResolveTable => op == DbOp::Get || op == DbOp::Replace || op
            == DbOp::Patch || op == DbOp::Delete,
        DbStep::ReadValue => op == DbOp::Insert || op == DbOp::Replace || op == DbOp::Patch,
        DbStep::ParseTable => op == DbOp::Count || op == DbOp::Insert || op == DbOp::Query,
        DbStep::ParseVersion => op == DbOp::Get,
    }
}

/// No operation does work on a system table: it goes past the check of its table only by an event
/// that shows a user table under the name that the guest gave.
pub proof fn only_user_tables_are_touched(op: DbOp, step: DbStep, event: DbEvent)
    requires
        step_of(op, step),
        db_event_fits(step, event),
        !after_table_check(op, step),
    ensures
        db_next(op, step, event) matches DbNextTree::Go(next) ==> {
            &&& step_of(op, next)
            &&& after_table_check(op, next) ==> {
                &&& event is Table
                &&& !event->table.is_system
                &&& provided_fault(event->provided@, event->table.name@) is None
            }
        },
{
}

/// How far an operation is.
pub open spec fn step_rank(op: DbOp, step: DbStep) -> int {
    match step {
        DbStep::ReadArgs => 0,
        DbStep::DecodeId => 1,
        DbStep::ResolveTable => 2,
        DbStep::ParseVersion => 3,
        DbStep::ReadValue => if op == DbOp::Insert {
            1
        } else {
            3
        },
        DbStep::ParseTable => 2,
        DbStep::Run => 4,
    }
}

/// Every operation ends: its steps come in order, and the last one always answers.
pub proof fn operations_end(op: DbOp, step: DbStep, event: DbEvent)
    requires
        step_of(op, step),
        db_event_fits(step, event),
    ensures
        db_next(op, step, event) matches DbNextTree::Go(next) ==> step_rank(op, next) > step_rank(
            op,
            step,
        ),
        step == DbStep::Run ==> db_next(op, step, event) is Reply,
{
}

/// The answer of a count.
pub open spec fn count_answer(count: Option<u64>) -> Result<JsonTree, Seq<char>> {
    match count {
        None => Err("db.count: table count unavailable while bootstrapping"@),
        Some(n) => if n > u32::MAX {
            Err("db.count: count too large"@)
        } else {
            Ok(JsonTree::Number(Number::Float(nearest_double(Number::PosInt(n)))))
        },
    }
}

/// The answer of a count: a floating point number.
pub fn count_result(count: Option<u64>) -> (r: Result<Json, String>)
    ensures
        answer(r) == count_answer(count),
        r matches Ok(v) ==> tree_wf(v.tree()),
{
    match count {
        None => Err("db.count: table count unavailable while bootstrapping".to_owned()),
        Some(n) => if n > 0xffff_ffff {
            Err("db.count: count too large".to_owned())
        } else {
            Ok(Json::Number(Number::Float(number_as_double(Number::PosInt(n)))))
        },
    }
}

/// The answer of an insertion.
pub open spec fn insert_answer(id: Seq<char>) -> JsonTree {
    JsonTree::Object(seq![("_id"@, JsonTree::Text(id))])
}

/// The answer of an insertion: the id of the new document.
pub fn insert_result(id: String) -> (r: Json)
    ensures
        r.tree() == insert_answer(id@),
        tree_wf(r.tree()),
{
    single("_id", Json::Text(id))
}

/// A write of this transaction to a document: whether it is resolved, and the new document.
pub struct StagedWrite {
    pub is_resolved: bool,
    pub new_document: Option<Json>,
}

/// The JSON of a document: that of the write that this transaction staged for it, where the
/// document was written by this transaction, its table exists, and the write is not resolved yet;
/// otherwise that of the document.
pub fn document_to_json(
    is_pending: bool,
    table_exists: bool,
    staged: Option<StagedWrite>,
    document: Json,
) -> (r: Result<Json, String>)
    ensures
        match staged {
            Some(w) if is_pending && table_exists && !w.is_resolved => match w.new_document {
                Some(d) => r matches Ok(got) && got == d,
                None => r matches Err(e) && e@
                    == "Staged write for a returned document has no new document"@,
            },
            _ => r matches Ok(got) && got == document,
        },
{
    if is_pending && table_exists {
        if let Some(w) = staged {
            if !w.is_resolved {
                return match w.new_document {
                    Some(d) => Ok(d),
                    None => Err(
                        "Staged write for a returned document has no new document".to_owned(),
                    ),
                };
            }
        }
    }
    Ok(document)
}

/// The step that follows a step that was done, as the operations take them: those on a document
/// decode its id and look up its table, those on a table read its name, and those that write read
/// the value, an insertion before its table and the others after.
pub proof fn steps_suit_the_operation(op: DbOp, step: DbStep, event: DbEvent)
    requires
        step_of(op, step),
        db_event_fits(step, event),
        event is Done,
    ensures
        step == DbStep::ReadArgs && (op == DbOp::Count || op == DbOp::Query) ==> db_next(
            op,
            step,
            event,
        ) == DbNextTree::Go(DbStep::ParseTable),
        step == DbStep::ReadArgs && op == DbOp::Insert ==> db_next(op, step, event)
            == DbNextTree::Go(DbStep::ReadValue),
        step == DbStep::ReadArgs && (op == DbOp::Get || op == DbOp::Replace || op == DbOp::Patch
            || op == DbOp::Delete) ==> db_next(op, step, event) == DbNextTree::Go(DbStep::DecodeId),
        step == DbStep::DecodeId ==> db_next(op, step, event) == DbNextTree::Go(
            DbStep::ResolveTable,
        ),
        step == DbStep::ParseVersion ==> db_next(op, step, event) == DbNextTree::Go(DbStep::Run),
{
}

/// Where a step shows a user table, and the guest gave no name for it or the very name of that
/// table, the operation goes on: getting reads the version, replacing and patching read the value,
/// and every other operation does its work.
pub proof fn user_tables_are_let_through(op: DbOp, step: DbStep, event: DbEvent)
    requires
        step_of(op, step),
        step == DbStep::ParseTable || step == DbStep::ResolveTable,
        event is Table,
        !event->table.is_system,
        event->provided is Nothing || (event->provided matches ProvidedTable::Name(s) && s@
            == event->table.name@),
    ensures
        db_next(op, step, event) == DbNextTree::Go(
            if op == DbOp::Get {
                DbStep::ParseVersion
            } else if op == DbOp::Replace || op == DbOp::Patch {
                DbStep::ReadValue
            } else {
                DbStep::Run
            },
        ),
{
}

/// At a table, an operation is answered with an error only where the name that the guest gave is
/// none, where it is that of another table, or where the table is a system table; and in each of
/// these it is. Which of them it is depends on the table and the names alone, and not on the
/// operation.
pub proof fn tables_are_refused_for_cause(op: DbOp, step: DbStep, event: DbEvent)
    requires
        event is Table,
    ensures
        db_next(op, step, event) is Reply <==> event->table.is_system || event->provided is BadName
            || (event->provided matches ProvidedTable::Name(s) && s@ != event->table.name@),
        db_next(op, step, event) matches DbNextTree::Reply(r) ==> r is Err,
        event->provided is BadName ==> db_next(op, step, event) == DbNextTree::Reply(
            Err("table"@),
        ),
        event->table.is_system && (event->provided is Nothing || (
        event->provided matches ProvidedTable::Name(s) && s@ == event->table.name@)) ==> db_next(
            op,
            step,
            event,
        ) == DbNextTree::Reply(
            Err("SystemTableError: system tables can only be accessed with db.system"@),
        ),
        event->provided matches ProvidedTable::Name(s) ==> s@ != event->table.name@ ==> db_next(
            op,
            step,
            event,
        ) == DbNextTree::Reply(
            Err(
                "table "@ + s@ + " does not match the table for the given id, which is "@
                    + event->table.name@,
            ),
        ),
{
}

/// The value of an insertion or a replacement is refused exactly where it is no object, and that of
/// a patch never is; otherwise an insertion goes on to its table, and the others to their work.
pub proof fn values_must_be_objects(op: DbOp, is_object: bool)
    requires
        op == DbOp::Insert || op == DbOp::Replace || op == DbOp::Patch,
    ensures
        ({
            let next = db_next(op, DbStep::ReadValue, DbEvent::Value { is_object });
            &&& is_object || op == DbOp::Patch ==> next == DbNextTree::Go(
                if op == DbOp::Insert {
                    DbStep::ParseTable
                } else {
                    DbStep::Run
                },
            )
            &&& !is_object && op != DbOp::Patch ==> next == DbNextTree::Reply(
                Err(op_name(op) + ": value must be an object"@),
            )
        }),
{
}

/// A step that fails ends the operation with an error, save that getting a document whose table is
/// not there gives null. What the transaction itself says reaches the guest where the operation
/// gets or queries, and otherwise the guest learns only which operation failed.
pub proof fn failures_are_answered(op: DbOp, step: DbStep, e: String)
    ensures
        db_next(op, step, DbEvent::Failed(e)) is Reply,
        db_next(op, step, DbEvent::Failed(e)) == DbNextTree::Reply(Ok(JsonTree::Null)) <==> op
            == DbOp::Get && step == DbStep::ResolveTable,
        !(op == DbOp::Get && step == DbStep::ResolveTable) ==> (db_next(
            op,
            step,
            DbEvent::Failed(e),
        ) matches DbNextTree::Reply(r) && r is Err),
        step == DbStep::Run && (op == DbOp::Get || op == DbOp::Query) ==> db_next(
            op,
            step,
            DbEvent::Failed(e),
        ) == DbNextTree::Reply(Err(e@)),
        (step == DbStep::Run && op != DbOp::Get && op != DbOp::Query) || step == DbStep::ReadArgs
            ==> db_next(op, step, DbEvent::Failed(e)) == DbNextTree::Reply(Err(op_name(op))),
        step != DbStep::Run && !(op == DbOp::Get && step == DbStep::ResolveTable) ==> (db_next(
            op,
            step,
            DbEvent::Failed(e),
        ) matches DbNextTree::Reply(Err(message)) && begins_with(message, op_name(op))),
{
    if let DbNextTree::Reply(Err(message)) = db_next(op, step, DbEvent::Failed(e)) {
        if step != DbStep::Run && !(op == DbOp::Get && step == DbStep::ResolveTable) {
            assert(message.take(op_name(op).len() as int) =~= op_name(op));
        }
    }
}

/// What the transaction gives is the answer: a value as it is, a count as a number where it is at
/// most the largest that is answered, and the id of a new document as its one member.
pub proof fn answers_are_passed_on(op: DbOp, v: Json, count: u64, id: String)
    ensures
        db_next(op, DbStep::Run, DbEvent::Answer(v)) == DbNextTree::Reply(Ok(v.tree())),
        db_next(op, DbStep::Run, DbEvent::Inserted(id)) == DbNextTree::Reply(
            Ok(JsonTree::Object(seq![("_id"@, JsonTree::Text(id@))])),
        ),
        count <= 0xffff_ffff ==> db_next(op, DbStep::Run, DbEvent::Counted(Some(count)))
            == DbNextTree::Reply(
            Ok(JsonTree::Number(Number::Float(nearest_double(Number::PosInt(count))))),
        ),
        count > 0xffff_ffff ==> (db_next(
            op,
            DbStep::Run,
            DbEvent::Counted(Some(count)),
        ) matches DbNextTree::Reply(r) && r is Err),
        db_next(op, DbStep::Run, DbEvent::Counted(None)) matches DbNextTree::Reply(r) && r is Err,
{
}

/// The operations have names of their own.
pub proof fn operations_are_named_apart(a: DbOp, b: DbOp)
    ensures
        op_name(a) == op_name(b) ==> a == b,
{
    reveal_strlit("db.get");
    reveal_strlit("db.count");
    reveal_strlit("db.insert");
    reveal_strlit("db.replace");
    reveal_strlit("db.patch");
    reveal_strlit("db.delete");
    reveal_strlit("db.query");
    assert(op_name(a).len() == op_name(b).len() ==> (op_name(a)[3] == op_name(b)[3] ==> a == b));
}

/// A table is let through exactly where it is of the sort that is expected, and what is said
/// otherwise depends on what was expected.
pub proof fn tables_of_the_wrong_sort_are_refused(
    table: TableName,
    expect_system_table: bool,
    checked: Result<(), TableFault>,
)
    requires
        call_ensures(system_table_guard, (&table, expect_system_table), checked),
    ensures
        checked is Ok <==> table.is_system == expect_system_table,
        checked matches Err(f) ==> (f@ is UserTable <==> expect_system_table) && (f@ is SystemTable
            <==> !expect_system_table),
{
}

/// The name that a guest gave fits a table exactly where it is that of the table, or where the guest
/// gave none.
pub proof fn names_fit_their_table(
    provided: ProvidedTable,
    table: TableName,
    checked: Result<(), TableFault>,
)
    requires
        call_ensures(check_table_name, (&provided, &table), checked),
    ensures
        checked is Ok <==> provided is Nothing || (provided matches ProvidedTable::Name(s) && s@
            == table.name@),
        checked matches Err(f) ==> (f@ is BadName <==> provided is BadName),
        checked matches Err(f) ==> (f@ matches TableFaultTree::Mismatch(given, actual) ==> (
        provided matches ProvidedTable::Name(s) && given == s@) && actual == table.name@),
{
}

/// A document that this transaction wrote, and whose write is not resolved yet, is given as the
/// write has it; any other is given as it is. A write that deletes gives nothing to hand out.
pub proof fn open_writes_are_shown(
    is_pending: bool,
    table_exists: bool,
    staged: Option<StagedWrite>,
    document: Json,
    shown: Result<Json, String>,
)
    requires
        call_ensures(document_to_json, (is_pending, table_exists, staged, document), shown),
    ensures
        !is_pending || !table_exists || staged is None || staged->0.is_resolved ==> shown == Ok::<
            Json,
            String,
        >(document),
        is_pending && table_exists && staged is Some && !staged->0.is_resolved ==> (shown is Err
            <==> staged->0.new_document is None) && (shown matches Ok(d)
            ==> staged->0.new_document == Some(d)),
{
}

/// At a table, the function goes on exactly where the table is one of the user's and the guest gave
/// no name for it or its own.
pub proof fn steps_past_a_table(
    op: DbOp,
    step: DbStep,
    table: TableName,
    provided: ProvidedTable,
    next: DbNext,
)
    requires
        step == DbStep::ParseTable || step == DbStep::ResolveTable,
        call_ensures(db_step, (op, step, DbEvent::Table { table, provided }), next),
    ensures
        next is Go <==> !table.is_system && (provided is Nothing || (
        provided matches ProvidedTable::Name(s) && s@ == table.name@)),
        next matches DbNext::Reply(r) ==> r is Err,
{
}

/// What is said of a step that fails names the operation and what it could not make out: the id, the
/// value, the table, the table of the id, or the version.
pub proof fn failures_name_their_step(op: DbOp, e: String)
    ensures
        db_next(op, DbStep::DecodeId, DbEvent::Failed(e)) == DbNextTree::Reply(
            Err(op_name(op) + ": invalid id"@),
        ),
        db_next(op, DbStep::ReadValue, DbEvent::Failed(e)) == DbNextTree::Reply(
            Err(op_name(op) + ": invalid value"@),
        ),
        db_next(op, DbStep::ParseTable, DbEvent::Failed(e)) == DbNextTree::Reply(
            Err(op_name(op) + ": invalid table"@),
        ),
        op != DbOp::Get ==> db_next(op, DbStep::ResolveTable, DbEvent::Failed(e))
            == DbNextTree::Reply(Err(op_name(op) + ": id"@)),
        db_next(op, DbStep::ParseVersion, DbEvent::Failed(e)) == DbNextTree::Reply(
            Err(op_name(op) + ": invalid version"@),
        ),
        begins_with(op_name(op), "db."@),
{
    reveal_strlit("db.");
    reveal_strlit("db.get");
    reveal_strlit("db.count");
    reveal_strlit("db.insert");
    reveal_strlit("db.replace");
    reveal_strlit("db.patch");
    reveal_strlit("db.delete");
    reveal_strlit("db.query");
    assert(op_name(op).take(3) =~= "db."@);
}

/// What is said of a table of the wrong sort says how the tables of each sort can be accessed.
pub proof fn tables_say_how_to_access_them(table: TableName, checked: Result<(), TableFault>, text: String)
    requires
        !table.is_system,
        call_ensures(system_table_guard, (&table, true), checked),
        checked is Err ==> call_ensures(TableFault::message, (&checked->Err_0,), text),
    ensures
        checked is Err,
        text@ == "SystemTableError: user tables cannot be accessed with db.system"@,
{
}

} // verus!
