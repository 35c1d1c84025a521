//! The guest's side of an invocation: which function an input names, how its result is reported,
//! and how a database operation is asked for and answered.

use vstd::prelude::*;
use vstd::string::*;
use vstd::utf8::encode_utf8;
use crate::abi::{
    pack_round_trip, unpack_len, unpack_offset, DB_COUNT, DB_DELETE, DB_GET, DB_INSERT, DB_PATCH,
    DB_QUERY, DB_REPLACE, RUN_OK,
};
use crate::call_data::{fits, CallData};
use crate::db::{answer, envelope, write_result, DbOp};
use crate::edit::{lemma_array_of_wf, lemma_object_of_wf};
use crate::invocation::text_bytes;
use crate::json::{
    distinct_keys, find_member, has_member, lemma_array_tree, lemma_member_index,
    lemma_object_tree, lemma_object_wf, member_index, members, tree_depth, tree_wf, trees, Json,
    JsonTree, Members,
};
use crate::json_text::{
    holds, json_of_bytes, parse_json_bytes, print_json, text_of_json, MAX_DEPTH,
};
use crate::text::{concat, same_text};

verus! {

/// The member of an object, if it has it.
pub open spec fn member_of(t: JsonTree, key: Seq<char>) -> Option<JsonTree> {
    match t {
        JsonTree::Object(es) => if has_member(es, key) {
            Some(es[member_index(es, key)].1)
        } else {
            None
        },
        _ => None,
    }
}

fn get_member<'a>(v: &'a Json, key: &str) -> (r: Option<&'a Json>)
    requires
        tree_wf(v.tree()),
    ensures
        match r {
            Some(m) => member_of(v.tree(), key@) == Some(m.tree()) && tree_wf(m.tree()),
            None => member_of(v.tree(), key@) is None,
        },
{
    match v {
        Json::Object(es) => {
            proof {
                lemma_object_tree(*es);
                lemma_member_index(members(es@), key@);
            }
            match find_member(es, key) {
                Some(i) => {
                    proof {
                        lemma_object_wf(members(es@), i as int);
                    }
                    Some(&es[i].1)
                },
                None => None,
            }
        },
        _ => None,
    }
}

/// The position of a function among those of a module, or -1.
pub open spec fn function_index(names: Seq<&str>, name: Seq<char>) -> int
    decreases names.len(),
{
    if names.len() == 0 {
        -1
    } else if names[0]@ == name {
        0
    } else {
        let rest = function_index(names.skip(1), name);
        if rest < 0 {
            -1
        } else {
            rest + 1
        }
    }
}

fn find_function(names: &[&str], name: &str) -> (r: Option<usize>)
    ensures
        match r {
            Some(i) => function_index(names@, name@) == i && i < names@.len(),
            None => function_index(names@, name@) == -1,
        },
{
    let mut i: usize = 0;
    assert(names@.skip(0) =~= names@);
    while i < names.len()
        invariant
            i <= names.len(),
            function_index(names@, name@) == (if function_index(
                names@.skip(i as int),
                name@,
            ) < 0 {
                -1
            } else {
                i + function_index(names@.skip(i as int), name@)
            }),
        decreases names.len() - i,
    {
        assert(names@.skip(i as int).skip(1) =~= names@.skip(i + 1));
        assert(names@.skip(i as int)[0] == names@[i as int]);
        if same_text(names[i], name) {
            return Some(i);
        }
        i += 1;
    }
    None
}

/// What an input asks for, as content.
pub enum PlanTree {
    Call(int, Seq<JsonTree>),
    Error(Seq<char>),
}

/// What an input asks for.
#[derive(Debug)]
pub enum DispatchPlan {
    /// Call the function at this position, with these arguments.
    Call { function: usize, args: Vec<Json> },
    /// Report this error.
    Error(String),
}

impl View for DispatchPlan {
    type V = PlanTree;

    open spec fn view(&self) -> PlanTree {
        match *self {
            DispatchPlan::Call { function, args } => PlanTree::Call(
                function as int,
                trees(args@),
            ),
            DispatchPlan::Error(e) => PlanTree::Error(e@),
        }
    }
}

/// What an input that was read asks for.
pub open spec fn plan_for(input: JsonTree, names: Seq<&str>) -> PlanTree {
    match member_of(input, "function"@) {
        Some(JsonTree::Text(name)) => match member_of(input, "args"@) {
            Some(JsonTree::Array(args)) => call_plan(names, name, args),
            Some(_) => PlanTree::Error("Input payload's \"args\" field must be an array"@),
            None => call_plan(names, name, Seq::empty()),
        },
        _ => PlanTree::Error("Input payload is missing the \"function\" field"@),
    }
}

/// A call of the function with a name, where the module has it.
pub open spec fn call_plan(names: Seq<&str>, name: Seq<char>, args: Seq<JsonTree>) -> PlanTree {
    if function_index(names, name) < 0 {
        PlanTree::Error("Function "@ + name + " not found in this module"@)
    } else {
        PlanTree::Call(function_index(names, name), args)
    }
}

/// What the bytes of an input ask for.
pub open spec fn dispatch_plan(input: Seq<u8>, names: Seq<&str>) -> PlanTree {
    match json_of_bytes(input) {
        Err(e) => PlanTree::Error("Invalid input payload: "@ + e),
        Ok(t) => plan_for(t, names),
    }
}

fn duplicate_all(vs: &Vec<Json>) -> (r: Vec<Json>)
    ensures
        trees(r@) == trees(vs@),
{
    let mut out: Vec<Json> = Vec::new();
    let mut i: usize = 0;
    assert(trees(out@) =~= trees(vs@).take(0));
    while i < vs.len()
        invariant
            i <= vs.len(),
            trees(out@) == trees(vs@).take(i as int),
        decreases vs.len() - i,
    {
        let ghost before = trees(out@);
        let v = vs[i].duplicate();
        out.push(v);
        assert(trees(out@) =~= before.push(v.tree()));
        assert(trees(out@) =~= trees(vs@).take(i + 1));
        i += 1;
    }
    assert(trees(out@) =~= trees(vs@));
    out
}

fn plan_call(names: &[&str], name: &str, args: Vec<Json>) -> (r: DispatchPlan)
    ensures
        r@ == call_plan(names@, name@, trees(args@)),
{
    match find_function(names, name) {
        Some(i) => DispatchPlan::Call { function: i, args },
        None => {
            let a = concat("Function ", name);
            DispatchPlan::Error(concat(a.as_str(), " not found in this module"))
        },
    }
}

/// What an input that was read asks for.
pub fn plan_dispatch(input: &Json, names: &[&str]) -> (r: DispatchPlan)
    requires
        tree_wf(input.tree()),
    ensures
        r@ == plan_for(input.tree(), names@),
{
    let name = match get_member(input, "function") {
        Some(Json::Text(s)) => s.as_str(),
        _ => {
            return DispatchPlan::Error(
                "Input payload is missing the \"function\" field".to_owned(),
            );
        },
    };
    match get_member(input, "args") {
        Some(Json::Array(args)) => {
            proof {
                lemma_array_tree(*args);
            }
            plan_call(names, name, duplicate_all(args))
        },
        Some(_) => DispatchPlan::Error(
            "Input payload's \"args\" field must be an array".to_owned(),
        ),
        None => {
            let none: Vec<Json> = Vec::new();
            assert(trees(none@) =~= Seq::empty());
            plan_call(names, name, none)
        },
    }
}

/// What the bytes of an input ask for.
pub fn dispatch(input: &[u8], names: &[&str]) -> (r: DispatchPlan)
    ensures
        r@ == dispatch_plan(input@, names@),
{
    match parse_json_bytes(input) {
        Err(e) => DispatchPlan::Error(concat("Invalid input payload: ", e.as_str())),
        Ok(j) => plan_dispatch(&j, names),
    }
}

/// What a guest reports to the host: the bytes of an output, or those of an error; and the status
/// that its entry point returns.
#[derive(Debug)]
pub struct Report {
    pub is_error: bool,
    pub bytes: Vec<u8>,
    pub status: i32,
}

/// Report the result of a function.
pub fn report_result(result: &Result<Json, String>) -> (r: Report)
    requires
        result matches Ok(v) ==> tree_wf(v.tree()),
    ensures
        match *result {
            Ok(v) => !r.is_error && r.status == 0 && r.bytes@ == encode_utf8(
                text_of_json(v.tree()),
            ),
            Err(e) => r.is_error && r.status == 1 && r.bytes@ == encode_utf8(e@),
        },
{
    match result {
        Ok(v) => Report {
            is_error: false,
            bytes: text_bytes(print_json(v).as_str()),
            status: 0,
        },
        Err(e) => Report { is_error: true, bytes: text_bytes(e.as_str()), status: 1 },
    }
}

/// How many bytes of input there are to read, if there are any.
pub fn read_input(len: i32) -> (r: Option<usize>)
    ensures
        r == (if len <= 0 {
            None
        } else {
            Some(len as usize)
        }),
{
    if len <= 0 {
        None
    } else {
        Some(len as usize)
    }
}

/// A function that a guest lists.
#[derive(Debug, Clone, Copy)]
pub struct FunctionDescriptor {
    /// The name of the function.
    pub name: &'static str,
    /// `query`, `mutation`, `action` or `httpAction`.
    pub function_type: &'static str,
    /// The validator of the arguments, as JSON. Without one they are not validated.
    pub args: Option<&'static str>,
    /// The validator of the result, as JSON. Without one it is not validated.
    pub returns: Option<&'static str>,
    /// `public` or `internal`. Without it the function is public.
    pub visibility: Option<&'static str>,
}

/// A member, where there is something to write.
pub open spec fn optional_member(key: Seq<char>, value: Option<&'static str>) -> Members {
    match value {
        Some(s) => seq![(key, JsonTree::Text(s@))],
        None => Seq::empty(),
    }
}

/// How a function is listed: what it leaves out is not written.
pub open spec fn descriptor_tree(d: FunctionDescriptor) -> JsonTree {
    JsonTree::Object(
        seq![("name"@, JsonTree::Text(d.name@)), ("type"@, JsonTree::Text(d.function_type@))]
            + optional_member("args"@, d.args) + optional_member("returns"@, d.returns)
            + optional_member("visibility"@, d.visibility),
    )
}

proof fn lemma_descriptor_names()
    ensures
        "name"@ != "type"@,
        "name"@ != "args"@,
        "name"@ != "returns"@,
        "name"@ != "visibility"@,
        "type"@ != "args"@,
        "type"@ != "returns"@,
        "type"@ != "visibility"@,
        "args"@ != "returns"@,
        "args"@ != "visibility"@,
        "returns"@ != "visibility"@,
{
    reveal_strlit("name");
    reveal_strlit("type");
    reveal_strlit("args");
    reveal_strlit("returns");
    reveal_strlit("visibility");
    assert("name"@[0] == 'n');
    assert("type"@[0] == 't');
    assert("args"@[0] == 'a');
    assert("returns"@[0] == 'r');
    assert("visibility"@[0] == 'v');
}

fn push_member(es: &mut Vec<(String, Json)>, key: &str, value: Option<&'static str>)
    ensures
        members(final(es)@) == members(old(es)@) + optional_member(key@, value),
{
    let ghost before = members(es@);
    match value {
        Some(s) => {
            es.push((key.to_owned(), Json::Text(s.to_owned())));
            assert(members(es@) =~= before + optional_member(key@, value));
        },
        None => {
            assert(before + optional_member(key@, value) =~= before);
        },
    }
}

fn descriptor_json(d: &FunctionDescriptor) -> (r: Json)
    ensures
        r.tree() == descriptor_tree(*d),
        tree_wf(r.tree()),
{
    let mut es: Vec<(String, Json)> = Vec::new();
    assert(members(es@) =~= Seq::empty());
    push_member(&mut es, "name", Some(d.name));
    push_member(&mut es, "type", Some(d.function_type));
    assert(members(es@) =~= seq![
        ("name"@, JsonTree::Text(d.name@)),
        ("type"@, JsonTree::Text(d.function_type@)),
    ]);
    push_member(&mut es, "args", d.args);
    push_member(&mut es, "returns", d.returns);
    push_member(&mut es, "visibility", d.visibility);
    proof {
        lemma_object_tree(es);
        lemma_descriptor_names();
        assert(distinct_keys(members(es@)));
        lemma_object_of_wf(members(es@));
    }
    Json::Object(es)
}

/// The list of functions that a guest gives.
pub fn functions_output(ds: &[FunctionDescriptor]) -> (r: Json)
    ensures
        r.tree() == JsonTree::Array(ds@.map_values(|d: FunctionDescriptor| descriptor_tree(d))),
        tree_wf(r.tree()),
{
    let ghost want = ds@.map_values(|d: FunctionDescriptor| descriptor_tree(d));
    let mut out: Vec<Json> = Vec::new();
    let mut i: usize = 0;
    assert(trees(out@) =~= want.take(0));
    while i < ds.len()
        invariant
            i <= ds.len(),
            want == ds@.map_values(|d: FunctionDescriptor| descriptor_tree(d)),
            trees(out@) == want.take(i as int),
            forall|j: int| 0 <= j < i ==> tree_wf(#[trigger] want[j]),
        decreases ds.len() - i,
    {
        let ghost before = trees(out@);
        let v = descriptor_json(&ds[i]);
        assert(v.tree() == want[i as int]);
        out.push(v);
        assert(trees(out@) =~= before.push(v.tree()));
        assert(trees(out@) =~= want.take(i + 1));
        i += 1;
    }
    proof {
        assert(trees(out@) =~= want);
        assert(trees(out@).len() == out.len());
        lemma_array_tree(out);
        lemma_array_of_wf(want);
    }
    Json::Array(out)
}

/// An error of a database operation, as content.
pub enum DbErrorTree {
    User(Seq<char>),
    System(Seq<char>),
}

/// An error of a database operation.
#[derive(Debug)]
pub enum ConvexDbError {
    /// What the database says of it, for the user.
    User(String),
    /// The operation itself failed, which is not the function's fault.
    System(String),
}

impl View for ConvexDbError {
    type V = DbErrorTree;

    open spec fn view(&self) -> DbErrorTree {
        match *self {
            ConvexDbError::User(s) => DbErrorTree::User(s@),
            ConvexDbError::System(s) => DbErrorTree::System(s@),
        }
    }
}

impl ConvexDbError {
    /// What is said of an error.
    pub fn message(&self) -> (r: String)
        ensures
            r@ == (match self@ {
                DbErrorTree::User(s) => s,
                DbErrorTree::System(s) => "System error: "@ + s,
            }),
    {
        match self {
            ConvexDbError::User(s) => s.clone(),
            ConvexDbError::System(s) => concat("System error: ", s.as_str()),
        }
    }
}

/// The operation behind a host function.
pub open spec fn op_of_host_function(name: Seq<char>) -> Option<DbOp> {
    if name == DB_GET@ {
        Some(DbOp::Get)
    } else if name == DB_INSERT@ {
        Some(DbOp::Insert)
    } else if name == DB_REPLACE@ {
        Some(DbOp::Replace)
    } else if name == DB_PATCH@ {
        Some(DbOp::Patch)
    } else if name == DB_DELETE@ {
        Some(DbOp::Delete)
    } else if name == DB_COUNT@ {
        Some(DbOp::Count)
    } else if name == DB_QUERY@ {
        Some(DbOp::Query)
    } else {
        None
    }
}

/// A database operation that is asked for: which one, and the bytes of its arguments.
#[derive(Debug)]
pub struct DbRequest {
    pub op: DbOp,
    pub args: Vec<u8>,
}

/// Ask for a database operation.
pub fn db_request(name: &str, args: &Json) -> (r: Result<DbRequest, ConvexDbError>)
    requires
        tree_wf(args.tree()),
    ensures
        match op_of_host_function(name@) {
            Some(op) => r matches Ok(q) && q.op == op && q.args@ == encode_utf8(
                text_of_json(args.tree()),
            ),
            None => r matches Err(e) && e@ == DbErrorTree::System(
                "Unknown database operation "@ + name@,
            ),
        },
{
    let op = if same_text(name, DB_GET) {
        DbOp::Get
    } else if same_text(name, DB_INSERT) {
        DbOp::Insert
    } else if same_text(name, DB_REPLACE) {
        DbOp::Replace
    } else if same_text(name, DB_PATCH) {
        DbOp::Patch
    } else if same_text(name, DB_DELETE) {
        DbOp::Delete
    } else if same_text(name, DB_COUNT) {
        DbOp::Count
    } else if same_text(name, DB_QUERY) {
        DbOp::Query
    } else {
        return Err(ConvexDbError::System(concat("Unknown database operation ", name)));
    };
    Ok(DbRequest { op, args: text_bytes(print_json(args).as_str()) })
}

/// Where the answer of a database operation stands in call data: its offset and its length.
pub fn db_answer_range(result: i64) -> (r: Result<(u32, u32), ConvexDbError>)
    ensures
        if result < 0 {
            r matches Err(e) && e@ == DbErrorTree::System("Database operation failed"@)
        } else {
            r matches Ok((offset, len)) && offset == (result as u64) / 0x1_0000_0000 && len == (
            result as u64) % 0x1_0000_0000
        },
{
    if result < 0 {
        Err(ConvexDbError::System("Database operation failed".to_owned()))
    } else {
        Ok((unpack_offset(result), unpack_len(result)))
    }
}

/// What an envelope holds: the value under `ok`, or else the error under `err`.
pub open spec fn opened(t: JsonTree) -> Result<JsonTree, DbErrorTree> {
    match member_of(t, "ok"@) {
        Some(v) => Ok(v),
        None => Err(
            DbErrorTree::User(
                match member_of(t, "err"@) {
                    Some(JsonTree::Text(s)) => s,
                    _ => "Database operation failed"@,
                },
            ),
        ),
    }
}

/// What the bytes of an envelope hold.
pub open spec fn db_answer(bytes: Seq<u8>) -> Result<JsonTree, DbErrorTree> {
    match json_of_bytes(bytes) {
        Err(e) => Err(DbErrorTree::System("Failed to parse result: "@ + e)),
        Ok(t) => opened(t),
    }
}

/// What an operation came to, as content.
pub open spec fn db_result(r: Result<Json, ConvexDbError>) -> Result<JsonTree, DbErrorTree> {
    match r {
        Ok(v) => Ok(v.tree()),
        Err(e) => Err(e@),
    }
}

/// What an envelope that was read holds.
pub fn open_envelope(j: &Json) -> (r: Result<Json, ConvexDbError>)
    requires
        tree_wf(j.tree()),
    ensures
        db_result(r) == opened(j.tree()),
{
    match get_member(j, "ok") {
        Some(v) => Ok(v.duplicate()),
        None => match get_member(j, "err") {
            Some(Json::Text(s)) => Err(ConvexDbError::User(s.clone())),
            _ => Err(ConvexDbError::User("Database operation failed".to_owned())),
        },
    }
}

/// Read the answer of a database operation.
pub fn db_call(bytes: &[u8]) -> (r: Result<Json, ConvexDbError>)
    ensures
        db_result(r) == db_answer(bytes@),
{
    match parse_json_bytes(bytes) {
        Err(e) => Err(ConvexDbError::System(concat("Failed to parse result: ", e.as_str()))),
        Ok(j) => open_envelope(&j),
    }
}

/// A guest reads from an envelope what the host put into it.
pub proof fn envelopes_round_trip(result: Result<JsonTree, Seq<char>>)
    ensures
        match result {
            Ok(v) => opened(envelope(result)) == Ok::<JsonTree, DbErrorTree>(v),
            Err(e) => opened(envelope(result)) == Err::<JsonTree, DbErrorTree>(
                DbErrorTree::User(e),
            ),
        },
{
    reveal_strlit("ok");
    reveal_strlit("err");
    assert("ok"@.len() == 2 && "err"@.len() == 3);
    let es = envelope(result)->Object_0;
    lemma_member_index(es, "ok"@);
    lemma_member_index(es, "err"@);
    assert(es.len() == 1);
    assert(es[0].0 == "ok"@ || es[0].0 == "err"@);
}

/// A guest that reads the envelope of an answer gets the answer, be it a value or an error.
pub proof fn guests_get_the_answer(bytes: Seq<u8>, result: Result<JsonTree, Seq<char>>)
    requires
        holds(json_of_bytes(bytes), envelope(result)),
    ensures
        match result {
            Ok(v) => db_answer(bytes) == Ok::<JsonTree, DbErrorTree>(v),
            Err(e) => db_answer(bytes) == Err::<JsonTree, DbErrorTree>(DbErrorTree::User(e)),
        },
{
    envelopes_round_trip(result);
}

/// The time that functions see outside a guest.
pub fn now_ms() -> (r: i64)
    ensures
        r == 0,
{
    0
}

/// The random bytes that functions see outside a guest: each is 7 more than the one before.
pub fn random_bytes(len: usize) -> (r: Vec<u8>)
    ensures
        r@ == Seq::new(len as nat, |i: int| ((7 * (i + 1)) % 256) as u8),
{
    let mut out: Vec<u8> = Vec::new();
    let mut seed: u8 = 0;
    let mut i: usize = 0;
    while i < len
        invariant
            i <= len,
            seed == (7 * i) % 256,
            out@ =~= Seq::new(i as nat, |j: int| ((7 * (j + 1)) % 256) as u8),
        decreases len - i,
    {
        seed = if seed < 249 {
            seed + 7
        } else {
            seed - 249
        };
        assert(seed == (7 * (i + 1)) % 256);
        out.push(seed);
        i += 1;
    }
    out
}

proof fn lemma_function_index(names: Seq<&str>, name: Seq<char>)
    ensures
        -1 <= function_index(names, name) < names.len(),
        function_index(names, name) >= 0 ==> names[function_index(names, name)]@ == name,
        forall|i: int|
            0 <= i < names.len() && (#[trigger] names[i])@ == name ==> 0 <= function_index(
                names,
                name,
            ) <= i,
    decreases names.len(),
{
    if names.len() > 0 && names[0]@ != name {
        lemma_function_index(names.skip(1), name);
        let rest = function_index(names.skip(1), name);
        if rest >= 0 {
            assert(names.skip(1)[rest] == names[rest + 1]);
        }
        assert forall|i: int| 0 <= i < names.len() && (#[trigger] names[i])@ == name implies 0
            <= function_index(names, name) <= i by {
            assert(names.skip(1)[i - 1] == names[i]);
        }
    }
}

/// An object with a member under a key has that member, wherever it stands in the object, and only
/// an object has members.
pub proof fn members_are_found(t: JsonTree, key: Seq<char>, i: int)
    requires
        tree_wf(t),
    ensures
        t matches JsonTree::Object(es) ==> 0 <= i < es.len() ==> es[i].0 == key ==> member_of(t, key)
            == Some(es[i].1),
        member_of(t, key) is Some ==> (t matches JsonTree::Object(es) && exists|j: int|
            0 <= j < es.len() && #[trigger] es[j] == (key, member_of(t, key)->0)),
{
    if let JsonTree::Object(es) = t {
        lemma_member_index(es, key);
        let j = member_index(es, key);
        if j >= 0 {
            assert(es[j] == (key, es[j].1));
        }
        if 0 <= i < es.len() && es[i].0 == key {
            assert(distinct_keys(es));
            assert(j == i);
        }
    }
}

/// A function is called exactly where the input names it as a text, under `function`, and its
/// arguments, under `args`, are an array or left out. It is the first function of that name, and it
/// gets those arguments, or none.
pub proof fn named_functions_are_called(
    input: JsonTree,
    names: Seq<&str>,
    function: int,
    args: Seq<JsonTree>,
)
    ensures
        plan_for(input, names) == PlanTree::Call(function, args) <==> {
            &&& 0 <= function < names.len()
            &&& member_of(input, "function"@) == Some(JsonTree::Text(names[function]@))
            &&& forall|j: int| 0 <= j < function ==> (#[trigger] names[j])@ != names[function]@
            &&& member_of(input, "args"@) == Some(JsonTree::Array(args)) || (member_of(
                input,
                "args"@,
            ) is None && args == Seq::<JsonTree>::empty())
        },
{
    if let Some(JsonTree::Text(name)) = member_of(input, "function"@) {
        lemma_function_index(names, name);
        let i = function_index(names, name);
        if 0 <= function < names.len() && names[function]@ == name && (forall|j: int|
            0 <= j < function ==> (#[trigger] names[j])@ != names[function]@) {
            assert(i <= function);
            assert(names[i]@ == name);
        }
    }
}

/// An input that names no function is told so, whatever its arguments are; then one whose arguments
/// are no array; and then one that names a function that is not there, which is named.
pub proof fn unusable_inputs_are_told_why(input: JsonTree, names: Seq<&str>)
    ensures
        !(member_of(input, "function"@) matches Some(JsonTree::Text(_))) ==> plan_for(input, names)
            == PlanTree::Error("Input payload is missing the \"function\" field"@),
        member_of(input, "function"@) matches Some(JsonTree::Text(name)) ==> (member_of(
            input,
            "args"@,
        ) matches Some(a) && !(a is Array)) ==> plan_for(input, names) == PlanTree::Error(
            "Input payload's \"args\" field must be an array"@,
        ),
        member_of(input, "function"@) matches Some(JsonTree::Text(name)) ==> (member_of(
            input,
            "args"@,
        ) matches Some(a) ==> a is Array) ==> (forall|j: int|
            0 <= j < names.len() ==> (#[trigger] names[j])@ != name) ==> plan_for(input, names)
            == PlanTree::Error("Function "@ + name + " not found in this module"@),
{
    if let Some(JsonTree::Text(name)) = member_of(input, "function"@) {
        lemma_function_index(names, name);
    }
}

/// Bytes that are no JSON are told so, and any others are dispatched by what they say.
pub proof fn inputs_are_read_first(input: Seq<u8>, names: Seq<&str>)
    ensures
        json_of_bytes(input) matches Err(e) ==> dispatch_plan(input, names) == PlanTree::Error(
            "Invalid input payload: "@ + e,
        ),
        json_of_bytes(input) matches Ok(t) ==> dispatch_plan(input, names) == plan_for(t, names),
{
}

/// A descriptor says the name and the type of its function, and of the validators and the
/// visibility exactly what is set.
pub proof fn descriptors_say_what_is_set(d: FunctionDescriptor)
    ensures
        member_of(descriptor_tree(d), "name"@) == Some(JsonTree::Text(d.name@)),
        member_of(descriptor_tree(d), "type"@) == Some(JsonTree::Text(d.function_type@)),
        member_of(descriptor_tree(d), "args"@) == (match d.args {
            Some(s) => Some(JsonTree::Text(s@)),
            None => None,
        }),
        member_of(descriptor_tree(d), "returns"@) == (match d.returns {
            Some(s) => Some(JsonTree::Text(s@)),
            None => None,
        }),
        member_of(descriptor_tree(d), "visibility"@) == (match d.visibility {
            Some(s) => Some(JsonTree::Text(s@)),
            None => None,
        }),
{
    lemma_descriptor_names();
    let es = descriptor_tree(d)->Object_0;
    let args = optional_member("args"@, d.args);
    let returned = optional_member("returns"@, d.returns);
    let visibility = optional_member("visibility"@, d.visibility);
    let a = args.len() as int;
    let b = returned.len() as int;
    lemma_member_index(es, "name"@);
    lemma_member_index(es, "type"@);
    lemma_member_index(es, "args"@);
    lemma_member_index(es, "returns"@);
    lemma_member_index(es, "visibility"@);
    assert(es[0] == ("name"@, JsonTree::Text(d.name@)));
    assert(es[1] == ("type"@, JsonTree::Text(d.function_type@)));
    if d.args is Some {
        assert(es[2] == args[0]);
    }
    if d.returns is Some {
        assert(es[2 + a] == returned[0]);
    }
    if d.visibility is Some {
        assert(es[2 + a + b] == visibility[0]);
    }
}

/// A host function of the database stands for one operation, and no other name for any.
pub proof fn host_functions_name_operations(name: Seq<char>)
    ensures
        op_of_host_function(name) == Some(DbOp::Get) <==> name == "__convex_db_get"@,
        op_of_host_function(name) == Some(DbOp::Insert) <==> name == "__convex_db_insert"@,
        op_of_host_function(name) == Some(DbOp::Replace) <==> name == "__convex_db_replace"@,
        op_of_host_function(name) == Some(DbOp::Patch) <==> name == "__convex_db_patch"@,
        op_of_host_function(name) == Some(DbOp::Delete) <==> name == "__convex_db_delete"@,
        op_of_host_function(name) == Some(DbOp::Count) <==> name == "__convex_db_count"@,
        op_of_host_function(name) == Some(DbOp::Query) <==> name == "__convex_db_query"@,
{
    reveal_strlit("__convex_db_get");
    reveal_strlit("__convex_db_insert");
    reveal_strlit("__convex_db_replace");
    reveal_strlit("__convex_db_patch");
    reveal_strlit("__convex_db_delete");
    reveal_strlit("__convex_db_count");
    reveal_strlit("__convex_db_query");
    assert("__convex_db_get"@.len() == 15);
    assert("__convex_db_insert"@.len() == 18 && "__convex_db_insert"@[12] == 'i');
    assert("__convex_db_replace"@.len() == 19);
    assert("__convex_db_patch"@.len() == 17 && "__convex_db_patch"@[12] == 'p');
    assert("__convex_db_delete"@.len() == 18 && "__convex_db_delete"@[12] == 'd');
    assert("__convex_db_count"@.len() == 17 && "__convex_db_count"@[12] == 'c');
    assert("__convex_db_query"@.len() == 17 && "__convex_db_query"@[12] == 'q');
}

/// An answer that holds a value gives it, whatever else it holds. One that holds none is an error
/// of the user: with the text that it holds, or with a text of its own where it holds none.
pub proof fn answers_are_opened(t: JsonTree)
    ensures
        member_of(t, "ok"@) matches Some(v) ==> opened(t) == Ok::<JsonTree, DbErrorTree>(v),
        member_of(t, "ok"@) is None ==> (member_of(t, "err"@) matches Some(JsonTree::Text(s))
            ==> opened(t) == Err::<JsonTree, DbErrorTree>(DbErrorTree::User(s))),
        member_of(t, "ok"@) is None ==> !(member_of(t, "err"@) matches Some(JsonTree::Text(_)))
            ==> opened(t) == Err::<JsonTree, DbErrorTree>(
            DbErrorTree::User("Database operation failed"@),
        ),
{
}

/// An answer that is no JSON is an error of the system, and says what was wrong with it.
pub proof fn unreadable_answers_are_system_errors(bytes: Seq<u8>)
    ensures
        json_of_bytes(bytes) matches Err(e) ==> db_answer(bytes) == Err::<JsonTree, DbErrorTree>(
            DbErrorTree::System("Failed to parse result: "@ + e),
        ),
        json_of_bytes(bytes) is Ok ==> !(db_answer(bytes) matches Err(DbErrorTree::System(_))),
{
}

/// What a function returned is reported as its output with the status 0, and an error as an error
/// with the status 1; the host, for which 0 is success, tells them apart.
pub proof fn reports_are_told_apart(result: Result<Json, String>, report: Report)
    requires
        call_ensures(report_result, (&result,), report),
    ensures
        report.status == RUN_OK <==> result is Ok,
        report.is_error <==> result is Err,
        result matches Err(e) ==> report.bytes@ == encode_utf8(e@),
        result matches Ok(v) ==> report.bytes@ == encode_utf8(text_of_json(v.tree())),
{
}

/// There is an input to read exactly where its length is above 0, and it is that long.
pub proof fn inputs_have_a_length(len: i32, read: Option<usize>)
    requires
        call_ensures(read_input, (len,), read),
    ensures
        read is Some <==> len > 0,
        read matches Some(n) ==> n == len,
{
}

/// A request to the database names the operation of its host function, and carries its arguments as
/// JSON; what is no host function of the database is refused and named.
pub proof fn database_requests_are_packed(
    name: &str,
    args: Json,
    request: Result<DbRequest, ConvexDbError>,
)
    requires
        call_ensures(db_request, (name, &args), request),
    ensures
        request matches Ok(q) ==> q.args@ == encode_utf8(text_of_json(args.tree())),
        request matches Ok(q) ==> op_of_host_function(name@) == Some(q.op),
        request is Err <==> op_of_host_function(name@) is None,
        request matches Err(e) ==> e@ == DbErrorTree::System("Unknown database operation "@ + name@),
{
}

/// What the host packs for an answer is unpacked by the guest, and the sentinel is an error of the
/// system.
pub proof fn answers_are_found_where_they_were_put(
    offset: u32,
    len: u32,
    packed: i64,
    range: Result<(u32, u32), ConvexDbError>,
)
    requires
        packed as u64 == offset * 0x1_0000_0000 + len,
        packed >= 0,
        call_ensures(db_answer_range, (packed,), range),
    ensures
        range matches Ok((at, size)) && at == offset && size == len,
{
    pack_round_trip(offset, len, packed);
}

/// A negative answer of the database is an error of the system, whatever it is.
pub proof fn sentinels_are_errors(result: i64, range: Result<(u32, u32), ConvexDbError>)
    requires
        call_ensures(db_answer_range, (result,), range),
    ensures
        range is Err <==> result < 0,
        range matches Err(e) ==> e@ == DbErrorTree::System("Database operation failed"@),
{
}

/// The functions of a module are listed in their order, one entry for each.
pub proof fn functions_are_listed_in_order(ds: &[FunctionDescriptor], listing: Json, i: int)
    requires
        call_ensures(functions_output, (ds,), listing),
        0 <= i < ds@.len(),
    ensures
        listing.tree() matches JsonTree::Array(ts) && ts.len() == ds@.len() && member_of(
            ts[i],
            "name"@,
        ) == Some(JsonTree::Text(ds@[i].name@)) && member_of(ts[i], "type"@) == Some(
            JsonTree::Text(ds@[i].function_type@),
        ),
{
    descriptors_say_what_is_set(ds@[i]);
}

/// An error says what the database said of it, and where it is none of the user's it says so.
pub proof fn errors_say_whose_they_are(e: ConvexDbError, text: String)
    requires
        call_ensures(ConvexDbError::message, (&e,), text),
    ensures
        e matches ConvexDbError::User(s) ==> text@ == s@,
        e matches ConvexDbError::System(s) ==> text@ == "System error: "@ + s@,
{
}

/// What the host writes as the answer of an operation reaches the guest: the bytes that it puts into
/// call data are read by the guest as that answer, a value as the value and an error as one of the
/// user, as long as the answer nests no deeper than the reader goes.
pub proof fn answers_reach_the_guest(
    data: &mut CallData,
    result: Result<Json, String>,
    packed: i64,
    bytes: &[u8],
    got: Result<Json, ConvexDbError>,
)
    requires
        call_ensures(write_result, (data, result), packed),
        old(data)@.len() + bytes@.len() <= old(data).max(),
        final(data)@ == old(data)@ + bytes@,
        packed != -1,
        tree_depth(envelope(answer(result))) <= MAX_DEPTH,
        call_ensures(db_call, (bytes,), got),
    ensures
        result matches Ok(v) ==> (got matches Ok(w) && w.tree() == v.tree()),
        result matches Err(e) ==> (got matches Err(f) && f@ == DbErrorTree::User(e@)),
{
    let written = encode_utf8(text_of_json(envelope(answer(result))));
    if fits(old(data)@.len(), written.len(), old(data).max()) {
        assert(bytes@ =~= written) by {
            let a = old(data)@ + bytes@;
            let b = old(data)@ + written;
            assert(a == b);
            assert(a.skip(old(data)@.len() as int) =~= bytes@);
            assert(b.skip(old(data)@.len() as int) =~= written);
        }
        guests_get_the_answer(bytes@, answer(result));
    }
}

/// Outside a host the time is the epoch, and random bytes count up in sevens.
pub proof fn stand_ins_are_fixed(now: i64, len: usize, bytes: Vec<u8>, i: int)
    requires
        call_ensures(now_ms, (), now),
        call_ensures(random_bytes, (len,), bytes),
    ensures
        now == 0,
        bytes@.len() == len,
        0 <= i < len && i < 36 ==> bytes@[i] == 7 * (i + 1),
        0 <= i && i + 256 < len ==> bytes@[i + 256] == bytes@[i],
{
}

} // verus!
