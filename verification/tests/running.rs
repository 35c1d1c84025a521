use convex_backend::language::{
    is_wasm_environment, is_wasm_extension, is_wasm_guest_path, is_wasm_only_env, path_extension,
    ModuleEnvironment, ModuleLanguage,
};
use convex_backend::runner::{
    allow_unresolved_commit_ts, fetch_wasm_binary, module_environment, needs_retention_check,
    require_wasm_module, run_function_no_retention_check, storage_for_deployment,
    validate_run_function_result, DeploymentStorage, FunctionRunnerCore, RunEvent, RunNext,
    RunRequest, RunStage, StorageUseCase, UdfType,
};

#[test]
fn wasm_only_detection() {
    assert!(!is_wasm_only_env(&[ModuleEnvironment::Wasm, ModuleEnvironment::Isolate]));
    assert!(is_wasm_only_env(&[ModuleEnvironment::Wasm]));
    assert!(is_wasm_only_env(&[ModuleEnvironment::Wasm, ModuleEnvironment::Wasm]));
    assert!(!is_wasm_only_env(&[]));
    assert!(!is_wasm_only_env(&[ModuleEnvironment::Isolate]));
}

#[test]
fn wasm_only_skips_isolate_creation() {
    let core = FunctionRunnerCore { isolate_client: None };
    assert!(core.isolate_client.is_none());
    assert_eq!(core.active_isolate_workers(), 0);
    assert_eq!(core.max_isolate_workers(), 0);
    let Err(err) = core.require_isolate_client() else {
        panic!("expected JavaScriptExecutionDisabled error");
    };
    let err_str = err.message.clone();
    assert!(
        err_str.contains("ISOLATE_EXECUTION_ENABLED=false"),
        "error should mention knob: {err_str}"
    );
    assert!(
        err_str.contains("without the JavaScript engine"),
        "expected wasm-only error, got: {err_str}"
    );
    assert_eq!(err.code.as_deref(), Some("JavaScriptExecutionDisabled"));
    assert!(
        format!("{err:?}").contains("JavaScriptExecutionDisabled"),
        "expected code in debug: {err:?}"
    );

    let core2 = FunctionRunnerCore::new(300, false);
    assert!(core2.isolate_client.is_none());
    assert_eq!(core2.active_isolate_workers(), 0);
}

#[test]
fn mixed_deploy_has_isolate() {
    let core = FunctionRunnerCore::new(300, true);
    assert!(core.isolate_client.is_some());
    assert_eq!(core.max_isolate_workers(), 300);
    assert!(core.require_isolate_client().is_ok());
}

fn request(udf_type: UdfType) -> RunRequest {
    RunRequest {
        udf_type,
        has_function_metadata: true,
        has_http_action_metadata: true,
        has_log_line_sender: true,
        has_isolate: true,
    }
}

/// The stages that a request goes through where every one succeeds, and how it ends.
fn stages(req: &RunRequest, env: ModuleEnvironment) -> (Vec<RunStage>, RunNext) {
    let mut seen = vec![];
    let mut stage = RunStage::BeginTransaction;
    loop {
        seen.push(stage);
        let event = if stage == RunStage::Environment {
            RunEvent::Environment(env)
        } else {
            RunEvent::Done
        };
        match run_function_no_retention_check(req, stage, &event) {
            RunNext::Go(next) => stage = next,
            end => return (seen, end),
        }
    }
}

#[test]
fn wasm_functions_run_with_a_permit() {
    let (seen, end) = stages(&request(UdfType::Mutation), ModuleEnvironment::Wasm);
    assert_eq!(
        seen,
        vec![
            RunStage::BeginTransaction,
            RunStage::FileStorage,
            RunStage::ModuleStorage,
            RunStage::Environment,
            RunStage::Permit,
            RunStage::FetchBinary,
            RunStage::RunWasm,
        ]
    );
    assert!(matches!(end, RunNext::Finish { with_transaction: true }));

    let (_, end) = stages(&request(UdfType::Action), ModuleEnvironment::Wasm);
    assert!(matches!(end, RunNext::Finish { with_transaction: false }));
}

#[test]
fn other_functions_run_in_the_isolate() {
    let (seen, end) = stages(&request(UdfType::Query), ModuleEnvironment::Isolate);
    assert_eq!(seen.last(), Some(&RunStage::RunIsolate));
    assert!(matches!(end, RunNext::Finish { with_transaction: true }));

    let (seen, end) = stages(&request(UdfType::HttpAction), ModuleEnvironment::Wasm);
    assert_eq!(
        seen,
        vec![
            RunStage::BeginTransaction,
            RunStage::FileStorage,
            RunStage::ModuleStorage,
            RunStage::RunIsolate,
        ]
    );
    assert!(matches!(end, RunNext::Finish { with_transaction: false }));
}

#[test]
fn wasm_only_deployments_turn_javascript_down() {
    let mut req = request(UdfType::Query);
    req.has_isolate = false;
    let (_, end) = stages(&req, ModuleEnvironment::Isolate);
    match end {
        RunNext::Fail(e) => assert_eq!(e.code.as_deref(), Some("JavaScriptExecutionDisabled")),
        other => panic!("{other:?}"),
    }
    let (_, end) = stages(&req, ModuleEnvironment::Wasm);
    assert!(matches!(end, RunNext::Finish { with_transaction: true }));

    let mut req = request(UdfType::HttpAction);
    req.has_isolate = false;
    let (seen, end) = stages(&req, ModuleEnvironment::Wasm);
    assert_eq!(seen.last(), Some(&RunStage::ModuleStorage));
    match end {
        RunNext::Fail(e) => assert_eq!(e.code.as_deref(), Some("JavaScriptExecutionDisabled")),
        other => panic!("{other:?}"),
    }
}

fn failure(req: &RunRequest) -> String {
    match stages(req, ModuleEnvironment::Isolate).1 {
        RunNext::Fail(e) => e.message,
        other => panic!("{other:?}"),
    }
}

#[test]
fn missing_parts_are_reported() {
    let mut req = request(UdfType::Query);
    req.has_function_metadata = false;
    assert_eq!(failure(&req), "Missing function metadata for query or mutation");
    let mut req = request(UdfType::Action);
    req.has_function_metadata = false;
    assert_eq!(failure(&req), "Missing function metadata for action");
    let mut req = request(UdfType::Action);
    req.has_log_line_sender = false;
    assert_eq!(failure(&req), "Missing log line sender for action");
    let mut req = request(UdfType::HttpAction);
    req.has_http_action_metadata = false;
    assert_eq!(failure(&req), "Missing http action metadata");
    let mut req = request(UdfType::HttpAction);
    req.has_log_line_sender = false;
    assert_eq!(failure(&req), "Missing log line sender for http action");
}

#[test]
fn failed_stages_end_a_run() {
    let req = request(UdfType::Query);
    let failed = RunEvent::Failed("boom".to_string());
    match run_function_no_retention_check(&req, RunStage::FileStorage, &failed) {
        RunNext::Fail(e) => assert_eq!(e.message, "boom"),
        other => panic!("{other:?}"),
    }
    match run_function_no_retention_check(&req, RunStage::Permit, &failed) {
        RunNext::Fail(e) => assert_eq!(e.message, "WASM semaphore closed"),
        other => panic!("{other:?}"),
    }
}

#[test]
fn retention_matters_for_queries_and_mutations() {
    for t in [UdfType::Query, UdfType::Mutation] {
        assert!(needs_retention_check(t));
        assert!(validate_run_function_result(t, true).is_ok());
        assert_eq!(
            validate_run_function_result(t, false).unwrap_err().message,
            "Function runner retention check changed"
        );
    }
    for t in [UdfType::Action, UdfType::HttpAction] {
        assert!(!needs_retention_check(t));
        assert!(validate_run_function_result(t, false).is_ok());
    }
    assert!(allow_unresolved_commit_ts(UdfType::Mutation));
    assert!(!allow_unresolved_commit_ts(UdfType::Query));
    assert!(!allow_unresolved_commit_ts(UdfType::Action));
}

#[test]
fn deployments_store_files_and_modules() {
    assert_eq!(
        storage_for_deployment(&StorageUseCase::Files).unwrap(),
        DeploymentStorage::Files
    );
    assert_eq!(
        storage_for_deployment(&StorageUseCase::Modules).unwrap(),
        DeploymentStorage::Modules
    );
    assert_eq!(
        storage_for_deployment(&StorageUseCase::Other("Exports".to_string()))
            .unwrap_err()
            .message,
        "function runner storage does not support Exports"
    );
}

#[test]
fn modules_are_looked_up() {
    assert_eq!(
        module_environment("\"a:b\"", Some(ModuleEnvironment::Node)).unwrap(),
        ModuleEnvironment::Node
    );
    assert_eq!(
        module_environment("\"a:b\"", None).unwrap_err().message,
        "Trying to execute \"a:b\" but its module is not found"
    );
    assert!(require_wasm_module("f", Some(ModuleEnvironment::Wasm)).is_ok());
    assert_eq!(
        require_wasm_module("f", Some(ModuleEnvironment::Isolate)).unwrap_err().message,
        "Trying to execute f as a WASM module, but it is bundled for Isolate"
    );
    assert_eq!(
        require_wasm_module("f", None).unwrap_err().message,
        "Trying to execute f but its module is not found"
    );
}

#[test]
fn binaries_are_base64_in_the_source_package() {
    assert_eq!(fetch_wasm_binary("m", Some(" AGFzbQ==\n")).unwrap(), b"\0asm".to_vec());
    assert_eq!(
        fetch_wasm_binary("m", None).unwrap_err().message,
        "Module m not found in source package"
    );
    assert_eq!(
        fetch_wasm_binary("m", Some("!")).unwrap_err().message,
        "WASM module source is not valid base64"
    );
}

#[test]
fn only_isolate_modules_are_analyzed() {
    let core = FunctionRunnerCore::new(4, true);
    assert_eq!(core.analyze(&[ModuleEnvironment::Isolate]).unwrap().max, 4);
    assert_eq!(
        core.analyze(&[ModuleEnvironment::Isolate, ModuleEnvironment::Node]).unwrap_err().message,
        "Can only analyze Isolate modules"
    );
    assert!(core.evaluate_app_definitions(ModuleEnvironment::Isolate, &[]).is_ok());
    assert_eq!(
        core.evaluate_app_definitions(ModuleEnvironment::Isolate, &[ModuleEnvironment::Wasm])
            .unwrap_err()
            .message,
        "Can only evaluate Isolate modules"
    );
    let off = FunctionRunnerCore::new(4, false);
    assert_eq!(
        off.analyze(&[]).unwrap_err().code.as_deref(),
        Some("JavaScriptExecutionDisabled")
    );
}

const LANGUAGES: [ModuleLanguage; 8] = [
    ModuleLanguage::TS,
    ModuleLanguage::RustWasm,
    ModuleLanguage::GoWasm,
    ModuleLanguage::Zig,
    ModuleLanguage::CWasm,
    ModuleLanguage::KotlinWasm,
    ModuleLanguage::DartWasm,
    ModuleLanguage::CSharpWasm,
];

#[test]
fn language_names_round_trip() {
    for l in LANGUAGES {
        assert_eq!(ModuleLanguage::from_str(l.name()).unwrap(), l);
        let is_ts = l == ModuleLanguage::TS;
        assert_eq!(l.is_wasm(), !is_ts);
        assert_eq!(
            l.environment(),
            if is_ts { ModuleEnvironment::Isolate } else { ModuleEnvironment::Wasm }
        );
    }
    assert!(ModuleLanguage::from_str("cobol").is_err());
}

#[test]
fn extensions_tell_languages() {
    assert_eq!(ModuleLanguage::from_extension("a/b.rs"), Some(ModuleLanguage::RustWasm));
    assert_eq!(ModuleLanguage::from_extension("a/b.RS"), Some(ModuleLanguage::RustWasm));
    assert_eq!(ModuleLanguage::from_extension("a.go"), Some(ModuleLanguage::GoWasm));
    assert_eq!(ModuleLanguage::from_extension("a.ts"), Some(ModuleLanguage::TS));
    assert_eq!(ModuleLanguage::from_extension("a.zig"), Some(ModuleLanguage::Zig));
    assert_eq!(ModuleLanguage::from_extension("a.txt"), None);
    assert_eq!(ModuleLanguage::from_extension(".rs"), None);
    assert_eq!(ModuleLanguage::from_extension("rs"), None);
    assert!(is_wasm_guest_path("src/lib.rs"));
    assert!(!is_wasm_guest_path("src/lib.ts"));
    assert!(!is_wasm_guest_path("src/lib"));
    assert!(is_wasm_extension("go"));
    assert!(!is_wasm_extension("ts"));
    assert!(is_wasm_environment(&ModuleEnvironment::Wasm));
    assert!(!is_wasm_environment(&ModuleEnvironment::Node));
}

#[test]
fn path_extensions_are_those_of_std() {
    for path in [
        "", ".", "..", "/", "a", "a.b", "a.b.c", ".a", ".a.b", "a.", "a..", "..a", "a/b.c",
        "a.b/c", "a.b/", "a.b//", "a.b/.", "a.b/./", "a.b/..", "/a.b", "a/../b.c", "./x.y",
        "a.b/./c.d/.", "...", "x/...y",
    ] {
        let expected = std::path::Path::new(path).extension().and_then(|e| e.to_str());
        assert_eq!(path_extension(path).as_deref(), expected, "{path}");
    }
}
