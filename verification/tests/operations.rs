use convex_backend::call_data::CallData;
use convex_backend::db::{
    check_table_name, count_result, db_step, document_to_json, insert_result, system_table_guard,
    write_result, DbEvent, DbNext, DbOp, DbStep, ProvidedTable, StagedWrite, TableFault, TableName,
};
use convex_backend::db::DbStep::{
    DecodeId, ParseTable, ParseVersion, ReadArgs, ReadValue, ResolveTable, Run,
};
use convex_backend::guest_runtime::{
    db_answer_range, db_call, db_request, dispatch, functions_output, now_ms, open_envelope,
    plan_dispatch, random_bytes, read_input, report_result, ConvexDbError, DispatchPlan,
    FunctionDescriptor,
};
use convex_backend::json::Json;
use convex_backend::json_text::{parse_json, print_json};

fn table(name: &str, is_system: bool) -> TableName {
    TableName { name: name.to_string(), is_system }
}

fn provided(name: &str) -> ProvidedTable {
    ProvidedTable::Name(name.to_string())
}

#[test]
fn system_tables_are_guarded() {
    assert!(system_table_guard(&table("users", false), false).is_ok());
    assert!(system_table_guard(&table("_jobs", true), true).is_ok());
    assert_eq!(
        system_table_guard(&table("users", false), true).unwrap_err().message(),
        "SystemTableError: user tables cannot be accessed with db.system"
    );
    assert_eq!(
        system_table_guard(&table("_jobs", true), false).unwrap_err().message(),
        "SystemTableError: system tables can only be accessed with db.system"
    );
}

#[test]
fn table_names_have_to_match() {
    let users = table("users", false);
    assert!(check_table_name(&ProvidedTable::Nothing, &users).is_ok());
    assert!(check_table_name(&provided("users"), &users).is_ok());
    assert_eq!(
        check_table_name(&provided("posts"), &users).unwrap_err().message(),
        "table posts does not match the table for the given id, which is users"
    );
    let bad = check_table_name(&ProvidedTable::BadName, &users).unwrap_err();
    assert!(matches!(bad, TableFault::BadName));
    assert_eq!(bad.message(), "table");
}

#[test]
fn answers_go_through_call_data() {
    let mut data = CallData::new(100);
    data.reserve(4);
    let packed = write_result(&mut data, Ok(parse_json("{\"a\":[1]}").unwrap()));
    let (offset, len) = db_answer_range(packed).unwrap();
    let bytes = data.load(offset as i32, len as i32).unwrap();
    assert_eq!(bytes, b"{\"ok\":{\"a\":[1]}}".to_vec());
    assert_eq!(print_json(&db_call(&bytes).unwrap()), "{\"a\":[1]}");

    let packed = write_result(&mut data, Err("no \"such\" table".to_string()));
    let (offset, len) = db_answer_range(packed).unwrap();
    let bytes = data.load(offset as i32, len as i32).unwrap();
    match db_call(&bytes) {
        Err(ConvexDbError::User(e)) => assert_eq!(e, "no \"such\" table"),
        other => panic!("{other:?}"),
    }

    let full = write_result(&mut data, Ok(Json::Text("x".repeat(100))));
    assert_eq!(full, -1);
    assert_eq!(
        db_answer_range(full).unwrap_err().message(),
        "System error: Database operation failed"
    );
}

#[test]
fn envelopes_without_content_are_errors() {
    let open = |s: &str| open_envelope(&parse_json(s).unwrap());
    assert_eq!(open("{}").unwrap_err().message(), "Database operation failed");
    assert_eq!(open("{\"err\":5}").unwrap_err().message(), "Database operation failed");
    assert_eq!(print_json(&open("{\"ok\":null,\"err\":\"x\"}").unwrap()), "null");
    assert!(matches!(db_call(b"{"), Err(ConvexDbError::System(_))));
}

#[test]
fn database_requests_name_their_operation() {
    let args = parse_json("{\"table\":\"t\"}").unwrap();
    for (name, op) in [
        ("__convex_db_get", DbOp::Get),
        ("__convex_db_insert", DbOp::Insert),
        ("__convex_db_replace", DbOp::Replace),
        ("__convex_db_patch", DbOp::Patch),
        ("__convex_db_delete", DbOp::Delete),
        ("__convex_db_count", DbOp::Count),
        ("__convex_db_query", DbOp::Query),
    ] {
        let request = db_request(name, &args).unwrap();
        assert_eq!(request.op, op);
        assert_eq!(request.args, b"{\"table\":\"t\"}".to_vec());
    }
    assert_eq!(
        db_request("drop", &args).unwrap_err().message(),
        "System error: Unknown database operation drop"
    );
}

/// The steps that an operation takes where each succeeds.
fn steps(op: DbOp) -> Vec<DbStep> {
    let mut seen = vec![];
    let mut step = DbStep::ReadArgs;
    loop {
        seen.push(step);
        let event = match step {
            DbStep::ReadValue => DbEvent::Value { is_object: true },
            DbStep::ParseTable | DbStep::ResolveTable => {
                DbEvent::Table { table: table("t", false), provided: ProvidedTable::Nothing }
            }
            DbStep::Run => DbEvent::Answer(Json::Null),
            _ => DbEvent::Done,
        };
        match db_step(op, step, event) {
            DbNext::Go(next) => step = next,
            DbNext::Reply(r) => {
                assert!(r.is_ok());
                return seen;
            }
        }
    }
}

#[test]
fn operations_take_their_steps() {
    assert_eq!(steps(DbOp::Get), vec![ReadArgs, DecodeId, ResolveTable, ParseVersion, Run]);
    assert_eq!(steps(DbOp::Count), vec![ReadArgs, ParseTable, Run]);
    assert_eq!(steps(DbOp::Insert), vec![ReadArgs, ReadValue, ParseTable, Run]);
    assert_eq!(steps(DbOp::Replace), vec![ReadArgs, DecodeId, ResolveTable, ReadValue, Run]);
    assert_eq!(steps(DbOp::Patch), vec![ReadArgs, DecodeId, ResolveTable, ReadValue, Run]);
    assert_eq!(steps(DbOp::Delete), vec![ReadArgs, DecodeId, ResolveTable, Run]);
    assert_eq!(steps(DbOp::Query), vec![ReadArgs, ParseTable, Run]);
}

fn reply(op: DbOp, step: DbStep, event: DbEvent) -> Result<String, String> {
    match db_step(op, step, event) {
        DbNext::Reply(r) => r.map(|j| print_json(&j)),
        other => panic!("{other:?}"),
    }
}

fn failed() -> DbEvent {
    DbEvent::Failed("because".to_string())
}

#[test]
fn failed_steps_are_answered() {
    let say = |op, step| reply(op, step, failed()).unwrap_err();
    assert_eq!(say(DbOp::Get, DbStep::ReadArgs), "db.get");
    assert_eq!(say(DbOp::Get, DbStep::DecodeId), "db.get: invalid id");
    assert_eq!(say(DbOp::Get, DbStep::ParseVersion), "db.get: invalid version");
    assert_eq!(say(DbOp::Get, DbStep::Run), "because");
    assert_eq!(say(DbOp::Query, DbStep::Run), "because");
    assert_eq!(say(DbOp::Count, DbStep::Run), "db.count");
    assert_eq!(say(DbOp::Count, DbStep::ParseTable), "db.count: invalid table");
    assert_eq!(say(DbOp::Insert, DbStep::ReadValue), "db.insert: invalid value");
    assert_eq!(say(DbOp::Replace, DbStep::ResolveTable), "db.replace: id");
    assert_eq!(reply(DbOp::Get, DbStep::ResolveTable, failed()).unwrap(), "null");
    assert_eq!(
        reply(DbOp::Insert, DbStep::ReadValue, DbEvent::Value { is_object: false }).unwrap_err(),
        "db.insert: value must be an object"
    );
    assert!(matches!(
        db_step(DbOp::Patch, DbStep::ReadValue, DbEvent::Value { is_object: false }),
        DbNext::Go(DbStep::Run)
    ));
}

#[test]
fn operations_stay_off_system_tables() {
    for op in [DbOp::Get, DbOp::Replace, DbOp::Patch, DbOp::Delete] {
        let event =
            DbEvent::Table { table: table("_jobs", true), provided: ProvidedTable::Nothing };
        assert_eq!(
            reply(op, DbStep::ResolveTable, event).unwrap_err(),
            "SystemTableError: system tables can only be accessed with db.system"
        );
        let event = DbEvent::Table { table: table("users", false), provided: provided("posts") };
        assert_eq!(
            reply(op, DbStep::ResolveTable, event).unwrap_err(),
            "table posts does not match the table for the given id, which is users"
        );
    }
}

#[test]
fn counts_and_insertions_are_answered() {
    assert_eq!(
        reply(DbOp::Count, DbStep::Run, DbEvent::Counted(Some(3))).unwrap(),
        "3.0"
    );
    assert_eq!(
        count_result(None).unwrap_err(),
        "db.count: table count unavailable while bootstrapping"
    );
    assert_eq!(count_result(Some(1 << 32)).unwrap_err(), "db.count: count too large");
    assert_eq!(print_json(&count_result(Some(u32::MAX as u64)).unwrap()), "4294967295.0");
    assert_eq!(print_json(&insert_result("k1".to_string())), "{\"_id\":\"k1\"}");
    assert_eq!(
        reply(DbOp::Insert, DbStep::Run, DbEvent::Inserted("k1".to_string())).unwrap(),
        "{\"_id\":\"k1\"}"
    );
    assert_eq!(DbOp::Patch.name(), "db.patch");
}

#[test]
fn staged_writes_are_seen() {
    let document = || Json::Text("old".to_string());
    let staged = |is_resolved: bool, new_document: Option<Json>| {
        Some(StagedWrite { is_resolved, new_document })
    };
    let new = || Some(Json::Text("new".to_string()));
    let text = |r: Result<Json, String>| r.map(|j| print_json(&j));
    assert_eq!(text(document_to_json(true, true, staged(false, new()), document())).unwrap(), "\"new\"");
    assert_eq!(text(document_to_json(true, true, staged(true, new()), document())).unwrap(), "\"old\"");
    assert_eq!(text(document_to_json(false, true, staged(false, new()), document())).unwrap(), "\"old\"");
    assert_eq!(text(document_to_json(true, false, staged(false, new()), document())).unwrap(), "\"old\"");
    assert_eq!(text(document_to_json(true, true, None, document())).unwrap(), "\"old\"");
    assert_eq!(
        text(document_to_json(true, true, staged(false, None), document())).unwrap_err(),
        "Staged write for a returned document has no new document"
    );
}

#[test]
fn inputs_are_dispatched() {
    let names = ["a", "b", "a"];
    match dispatch(b"{\"function\":\"b\",\"args\":[1,{\"x\":2}]}", &names) {
        DispatchPlan::Call { function, args } => {
            assert_eq!(function, 1);
            assert_eq!(print_json(&Json::Array(args)), "[1,{\"x\":2}]");
        }
        other => panic!("{other:?}"),
    }
    match dispatch(b"{\"function\":\"a\"}", &names) {
        DispatchPlan::Call { function, args } => assert_eq!((function, args.len()), (0, 0)),
        other => panic!("{other:?}"),
    }
    let error = |input: &[u8]| match dispatch(input, &names) {
        DispatchPlan::Error(e) => e,
        other => panic!("{other:?}"),
    };
    assert_eq!(error(b"{\"function\":\"c\"}"), "Function c not found in this module");
    assert_eq!(error(b"{}"), "Input payload is missing the \"function\" field");
    assert_eq!(error(b"{\"function\":1}"), "Input payload is missing the \"function\" field");
    assert_eq!(
        error(b"{\"function\":\"a\",\"args\":{}}"),
        "Input payload's \"args\" field must be an array"
    );
    assert!(error(b"").starts_with("Invalid input payload: "));
    assert!(matches!(
        plan_dispatch(&parse_json("{\"function\":\"a\"}").unwrap(), &names),
        DispatchPlan::Call { function: 0, .. }
    ));
}

#[test]
fn results_are_reported() {
    let ok = report_result(&Ok(parse_json("[1]").unwrap()));
    assert_eq!((ok.is_error, ok.status, ok.bytes), (false, 0, b"[1]".to_vec()));
    let err = report_result(&Err("bad".to_string()));
    assert_eq!((err.is_error, err.status, err.bytes), (true, 1, b"bad".to_vec()));
    assert_eq!(read_input(5), Some(5));
    assert_eq!(read_input(0), None);
    assert_eq!(read_input(-1), None);
}

#[test]
fn functions_are_listed() {
    let full = FunctionDescriptor {
        name: "list",
        function_type: "query",
        args: Some("{}"),
        returns: Some("[]"),
        visibility: Some("public"),
    };
    let bare = FunctionDescriptor {
        name: "send",
        function_type: "mutation",
        args: None,
        returns: None,
        visibility: None,
    };
    assert_eq!(
        print_json(&functions_output(&[full, bare])),
        "[{\"name\":\"list\",\"type\":\"query\",\"args\":\"{}\",\"returns\":\"[]\",\
         \"visibility\":\"public\"},{\"name\":\"send\",\"type\":\"mutation\"}]"
    );
}

#[test]
fn functions_outside_a_guest_see_fixed_values() {
    assert_eq!(now_ms(), 0);
    assert_eq!(random_bytes(3), vec![7, 14, 21]);
    assert_eq!(random_bytes(37)[36], 3);
}
