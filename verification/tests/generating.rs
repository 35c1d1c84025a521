use convex_backend::json_text::print_json;
use convex_backend::macros::{
    collect_function, convex_functions, extract_result_inner, function_type_from_attrs,
    is_context_type, is_result_type, is_unit_type, validator_for_type, ArgSpec, FnInput,
    FunctionItem, FunctionSpec, MacroFault, TypeAst,
};

fn path(ident: &str) -> TypeAst {
    TypeAst::Path {
        ident: ident.to_string(),
        first_arg: None,
        last_arg: None,
        text: ident.to_string(),
    }
}

fn generic(ident: &str, first: TypeAst, last: TypeAst) -> TypeAst {
    TypeAst::Path {
        ident: ident.to_string(),
        first_arg: Some(Box::new(first)),
        last_arg: Some(Box::new(last)),
        text: format!("{ident}<..>"),
    }
}

fn of(ident: &str, arg: fn() -> TypeAst) -> TypeAst {
    generic(ident, arg(), arg())
}

fn string() -> TypeAst {
    path("String")
}

fn arg(name: &str, ty: TypeAst) -> FnInput {
    FnInput::Typed(ArgSpec { name: Some(name.to_string()), ty })
}

fn validator(t: TypeAst) -> (String, bool) {
    let (json, optional) = validator_for_type(&t);
    (print_json(&json), optional)
}

fn simple(name: &str) -> String {
    format!("{{\"type\":\"{name}\"}}")
}

#[test]
fn types_have_validators() {
    for name in ["String", "str", "ConvexString", "GenericId", "Id"] {
        assert_eq!(validator(path(name)), (simple("string"), false));
    }
    for name in ["bool", "Boolean"] {
        assert_eq!(validator(path(name)), (simple("boolean"), false));
    }
    for name in ["f64", "f32", "Float64"] {
        assert_eq!(validator(path(name)), (simple("number"), false));
    }
    for name in ["i64", "u64", "i32", "u32", "i16", "u16", "i8", "u8", "isize", "usize", "Int64"] {
        assert_eq!(validator(path(name)), (simple("bigint"), false));
    }
    for name in ["Bytes", "Vec_u8"] {
        assert_eq!(validator(path(name)), (simple("bytes"), false));
    }
    for name in ["Document", "ConvexValue", "JsonValue", "Value", "JsonElement", "User", "Foo"] {
        assert_eq!(validator(path(name)), (simple("any"), false));
    }
    assert_eq!(validator(TypeAst::Tuple(2)), (simple("any"), false));
    assert_eq!(validator(TypeAst::Other), (simple("any"), false));
    assert_eq!(
        validator(TypeAst::Reference(Box::new(path("str")))),
        (simple("string"), false)
    );
}

#[test]
fn collections_have_validators() {
    let strings = "{\"type\":\"array\",\"value\":{\"type\":\"string\"}}".to_string();
    let anything = "{\"type\":\"array\",\"value\":{\"type\":\"any\"}}".to_string();
    assert_eq!(validator(of("Vec", string)), (strings.clone(), false));
    assert_eq!(validator(path("VecDeque")), (anything.clone(), false));
    assert_eq!(
        validator(generic("HashMap", path("i64"), string())),
        (strings.clone(), false)
    );
    assert_eq!(validator(path("BTreeSet")), (simple("any"), false));
    assert_eq!(validator(of("Option", string)), (simple("string"), true));
    assert_eq!(validator(path("Option")), (simple("any"), true));
    let inner = || of("Option", string);
    assert_eq!(validator(generic("Vec", inner(), inner())), (strings, false));
    let boxed = |text: &str| TypeAst::Path {
        ident: "Box".to_string(),
        first_arg: None,
        last_arg: None,
        text: text.to_string(),
    };
    assert_eq!(validator(boxed("Box<String>")), (simple("string"), false));
    assert_eq!(validator(boxed("Box<Vec<u8>>")), (anything, false));
}

#[test]
fn types_are_recognized() {
    assert!(is_context_type(&path("Context")));
    assert!(!is_context_type(&TypeAst::Reference(Box::new(path("Context")))));
    assert!(is_unit_type(&TypeAst::Tuple(0)));
    assert!(!is_unit_type(&TypeAst::Tuple(1)));
    assert!(is_result_type(&path("Result")));
    let result = generic("Result", string(), path("E"));
    assert!(matches!(
        extract_result_inner(&result),
        Some(TypeAst::Path { ident, .. }) if ident == "String"
    ));
    assert!(extract_result_inner(&path("Result")).is_none());
    assert!(extract_result_inner(&of("Option", string)).is_none());
}

fn texts(ts: &[&str]) -> Vec<String> {
    ts.iter().map(|t| t.to_string()).collect()
}

#[test]
fn annotations_are_found() {
    assert_eq!(
        function_type_from_attrs(&texts(&["doc", "http_action", "query"])),
        Some(("http_action".to_string(), "httpAction"))
    );
    assert_eq!(
        function_type_from_attrs(&texts(&["mutation"])),
        Some(("mutation".to_string(), "mutation"))
    );
    assert_eq!(function_type_from_attrs(&texts(&["doc", "inline"])), None);
}

fn item() -> FunctionItem {
    FunctionItem {
        attrs: texts(&["doc", "query", "inline", "query"]),
        name: "list".to_string(),
        is_async: true,
        inputs: vec![
            arg("ctx", path("Context")),
            arg("prefix", string()),
            FnInput::Typed(ArgSpec { name: None, ty: path("i64") }),
            arg("limit", of("Option", || path("f64"))),
        ],
        output: Some(generic("Result", of("Option", string), path("E"))),
    }
}

fn spec() -> FunctionSpec {
    collect_function(item()).0.unwrap()
}

#[test]
fn functions_are_collected() {
    let (found, kept) = collect_function(item());
    let f = found.unwrap();
    assert_eq!(kept, vec![true, false, true, false]);
    assert_eq!((f.name.as_str(), f.function_type), ("list", "query"));
    assert!(f.is_async && f.has_context && f.is_result_return);
    assert_eq!(f.args.len(), 3);
    assert_eq!(f.wrapped_name(), "__convex_wrap_list");

    let plain = FunctionItem { attrs: texts(&["doc"]), ..item() };
    let (none, kept) = collect_function(plain);
    assert!(none.is_none());
    assert_eq!(kept, vec![true]);

    let late = FunctionItem {
        attrs: texts(&["action"]),
        inputs: vec![arg("x", string()), arg("ctx", path("Context")), FnInput::Receiver],
        output: None,
        ..item()
    };
    let f = collect_function(late).0.unwrap();
    assert!(!f.has_context && !f.is_result_return);
    assert_eq!(f.args.len(), 2);
    assert!(is_unit_type(&f.return_ty));
}

#[test]
fn wrappers_are_planned() {
    let plan = spec().wrapper();
    assert_eq!(plan.wrapped_name, "__convex_wrap_list");
    assert_eq!(plan.arg_idents, vec!["__arg0", "__arg1", "__arg2"]);
    assert_eq!(
        plan.invalid_messages,
        vec![
            "Invalid value for prefix",
            "Invalid value for argument 1",
            "Invalid value for limit",
        ]
    );
    assert_eq!(plan.call_args, vec!["ctx", "__arg0", "__arg1", "__arg2"]);
    assert!(plan.is_async && plan.maps_result);
}

#[test]
fn functions_are_described() {
    let entry = spec().entry();
    assert_eq!(
        entry.args,
        "{\"type\":\"object\",\"value\":{\"prefix\":{\"fieldType\":{\"type\":\"string\"},\
         \"optional\":false},\"limit\":{\"fieldType\":{\"type\":\"number\"},\"optional\":true}}}"
    );
    assert_eq!(
        entry.returns,
        "{\"type\":\"union\",\"value\":[{\"type\":\"string\"},{\"type\":\"null\"}]}"
    );
    assert_eq!((entry.visibility, entry.function_type), ("public", "query"));
    let unit = FunctionItem { output: None, ..item() };
    assert_eq!(
        collect_function(unit).0.unwrap().returns_validator_json(),
        simple("null")
    );
    let bare = FunctionItem { output: Some(path("Result")), ..item() };
    assert_eq!(
        collect_function(bare).0.unwrap().returns_validator_json(),
        simple("any")
    );
}

#[test]
fn modules_are_generated() {
    let skipped = FunctionItem { attrs: vec![], ..item() };
    let collected = convex_functions(false, Some(vec![skipped, item()])).unwrap();
    assert_eq!(collected.functions.len(), 1);
    assert_eq!(collected.kept_attrs, vec![vec![], vec![true, false, true, false]]);
    assert!(collected.fault.is_none());

    let empty = convex_functions(false, Some(vec![])).unwrap();
    assert_eq!(empty.fault, Some(MacroFault::NoFunctions));
    assert_eq!(
        convex_functions(true, Some(vec![])).unwrap_err().message(),
        "convex_functions takes no arguments"
    );
    assert_eq!(
        convex_functions(false, None).unwrap_err().message(),
        "convex_functions can only be applied to inline modules"
    );
    assert_eq!(
        MacroFault::NoFunctions.message(),
        "convex_functions requires at least one function annotated with #[query], \
         #[mutation], #[action], or #[http_action]"
    );
}
