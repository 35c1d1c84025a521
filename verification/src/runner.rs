//! The function runner: where a function runs, which steps that takes, and what comes out.

use vstd::prelude::*;
use vstd::string::*;
use crate::base64_text::{bytes_of_base64, decode_base64};
use crate::language::ModuleEnvironment;
use crate::text::{concat, trim, trimmed};

verus! {

/// What a function does.
#[derive(Debug, Clone, Copy, PartialEq, Eq, Structural)]
pub enum UdfType {
    Query,
    Mutation,
    Action,
    HttpAction,
}

/// What is said where the JavaScript engine is needed and switched off.
pub const JAVASCRIPT_DISABLED: &'static str = "JavaScriptExecutionDisabled";

pub const JAVASCRIPT_DISABLED_MESSAGE: &'static str =
    "This deployment is configured without the JavaScript engine (ISOLATE_EXECUTION_ENABLED=false). JavaScript functions and module analysis are unavailable; only WASM functions can run.";

/// Why a function does not run, as content: a short code where there is one, and a message.
pub struct RunFault {
    pub code: Option<Seq<char>>,
    pub message: Seq<char>,
}

/// Why a function does not run.
#[derive(Debug)]
pub struct RunError {
    pub code: Option<String>,
    pub message: String,
}

impl View for RunError {
    type V = RunFault;

    open spec fn view(&self) -> RunFault {
        RunFault {
            code: match self.code {
                Some(s) => Some(s@),
                None => None,
            },
            message: self.message@,
        }
    }
}

/// A fault without a code.
pub open spec fn plain_fault(message: Seq<char>) -> RunFault {
    RunFault { code: None, message }
}

/// The fault of a deployment without the JavaScript engine.
pub open spec fn javascript_disabled() -> RunFault {
    RunFault { code: Some(JAVASCRIPT_DISABLED@), message: JAVASCRIPT_DISABLED_MESSAGE@ }
}

fn plain_error(message: &str) -> (r: RunError)
    ensures
        r@ == plain_fault(message@),
{
    RunError { code: None, message: message.to_owned() }
}

fn javascript_error() -> (r: RunError)
    ensures
        r@ == javascript_disabled(),
{
    RunError {
        code: Some(JAVASCRIPT_DISABLED.to_owned()),
        message: JAVASCRIPT_DISABLED_MESSAGE.to_owned(),
    }
}

/// The workers of the JavaScript engine.
#[derive(Debug, Clone, Copy, PartialEq, Eq, Structural)]
pub struct IsolateWorkers {
    pub active: usize,
    pub max: usize,
}

/// The function runner, with the JavaScript engine or without it.
#[derive(Debug, Clone, Copy, PartialEq, Eq, Structural)]
pub struct FunctionRunnerCore {
    pub isolate_client: Option<IsolateWorkers>,
}

impl FunctionRunnerCore {
    /// A function runner. The JavaScript engine is there only where it is switched on.
    pub fn new(max_isolate_workers: usize, isolate_execution_enabled: bool) -> (r:
        FunctionRunnerCore)
        ensures
            r.isolate_client == (if isolate_execution_enabled {
                Some(IsolateWorkers { active: 0, max: max_isolate_workers })
            } else {
                None
            }),
    {
        if isolate_execution_enabled {
            FunctionRunnerCore {
                isolate_client: Some(IsolateWorkers { active: 0, max: max_isolate_workers }),
            }
        } else {
            FunctionRunnerCore { isolate_client: None }
        }
    }

    /// How many workers of the JavaScript engine are busy.
    pub fn active_isolate_workers(&self) -> (r: usize)
        ensures
            r == (match self.isolate_client {
                Some(c) => c.active,
                None => 0,
            }),
    {
        match self.isolate_client {
            Some(c) => c.active,
            None => 0,
        }
    }

    /// How many workers the JavaScript engine may have.
    pub fn max_isolate_workers(&self) -> (r: usize)
        ensures
            r == (match self.isolate_client {
                Some(c) => c.max,
                None => 0,
            }),
    {
        match self.isolate_client {
            Some(c) => c.max,
            None => 0,
        }
    }

    /// The JavaScript engine, or what is said where it is switched off.
    pub fn require_isolate_client(&self) -> (r: Result<IsolateWorkers, RunError>)
        ensures
            match self.isolate_client {
                Some(c) => r matches Ok(got) && got == c,
                None => r matches Err(e) && e@ == javascript_disabled(),
            },
    {
        match self.isolate_client {
            Some(c) => Ok(c),
            None => Err(javascript_error()),
        }
    }
}

/// What is known of a request before it runs.
#[derive(Debug, Clone, Copy, PartialEq, Eq, Structural)]
pub struct RunRequest {
    pub udf_type: UdfType,
    pub has_function_metadata: bool,
    pub has_http_action_metadata: bool,
    pub has_log_line_sender: bool,
    /// Whether the JavaScript engine is there.
    pub has_isolate: bool,
}

/// The stages of running a function.
#[derive(Debug, Clone, Copy, PartialEq, Eq, Structural)]
pub enum RunStage {
    /// The transaction is begun.
    BeginTransaction,
    /// The storage for files is looked up.
    FileStorage,
    /// The storage for modules is looked up.
    ModuleStorage,
    /// The environment of the module is looked up.
    Environment,
    /// A permit to run in WebAssembly is waited for.
    Permit,
    /// The binary of the module is fetched.
    FetchBinary,
    /// The function runs in WebAssembly.
    RunWasm,
    /// The function runs in the JavaScript engine.
    RunIsolate,
}

/// What became of a stage.
#[derive(Debug)]
pub enum RunEvent {
    Done,
    Failed(String),
    /// The environment of the module.
    Environment(ModuleEnvironment),
}

/// Whether an event can come at a stage.
pub open spec fn run_event_fits(stage: RunStage, event: RunEvent) -> bool {
    if stage == RunStage::Environment {
        event is Environment || event is Failed
    } else {
        event is Done || event is Failed
    }
}

/// What comes after a stage, as content.
pub enum RunNextTree {
    Go(RunStage),
    Fail(RunFault),
    /// The function ran, and its transaction is handed back or not.
    Finish { with_transaction: bool },
}

/// What comes after a stage.
#[derive(Debug)]
pub enum RunNext {
    Go(RunStage),
    Fail(RunError),
    /// The function ran, and its transaction is handed back or not.
    Finish { with_transaction: bool },
}

impl View for RunNext {
    type V = RunNextTree;

    open spec fn view(&self) -> RunNextTree {
        match *self {
            RunNext::Go(s) => RunNextTree::Go(s),
            RunNext::Fail(e) => RunNextTree::Fail(e@),
            RunNext::Finish { with_transaction } => RunNextTree::Finish { with_transaction },
        }
    }
}

/// What is missing in a request, if something is.
pub open spec fn missing_part(req: RunRequest) -> Option<Seq<char>> {
    match req.udf_type {
        UdfType::Query | UdfType::Mutation => if req.has_function_metadata {
            None
        } else {
            Some("Missing function metadata for query or mutation"@)
        },
        UdfType::Action => if !req.has_function_metadata {
            Some("Missing function metadata for action"@)
        } else if !req.has_log_line_sender {
            Some("Missing log line sender for action"@)
        } else {
            None
        },
        UdfType::HttpAction => if !req.has_http_action_metadata {
            Some("Missing http action metadata"@)
        } else if !req.has_log_line_sender {
            Some("Missing log line sender for http action"@)
        } else {
            None
        },
    }
}

/// Whether the transaction of a function is handed back, to be committed.
pub open spec fn hands_back_transaction(t: UdfType) -> bool {
    t == UdfType::Query || t == UdfType::Mutation
}

/// What comes next for a function that runs in the JavaScript engine.
pub open spec fn isolate_next(req: RunRequest) -> RunNextTree {
    if req.has_isolate {
        RunNextTree::Go(RunStage::RunIsolate)
    } else {
        RunNextTree::Fail(javascript_disabled())
    }
}

/// What comes after a stage. HTTP actions run in the JavaScript engine; any other function runs in
/// WebAssembly where its module does, and otherwise in the JavaScript engine.
pub open spec fn run_next(req: RunRequest, stage: RunStage, event: RunEvent) -> RunNextTree {
    match event {
        RunEvent::Failed(e) => RunNextTree::Fail(
            plain_fault(
                if stage == RunStage::Permit {
                    "WASM semaphore closed"@
                } else {
                    e@
                },
            ),
        ),
        RunEvent::Environment(env) => if env == ModuleEnvironment::Wasm {
            RunNextTree::Go(RunStage::Permit)
        } else {
            isolate_next(req)
        },
        RunEvent::Done => match stage {
            RunStage::BeginTransaction => RunNextTree::Go(RunStage::FileStorage),
            RunStage::FileStorage => RunNextTree::Go(RunStage::ModuleStorage),
            RunStage::ModuleStorage => match missing_part(req) {
                Some(m) => RunNextTree::Fail(plain_fault(m)),
                None => if req.udf_type == UdfType::HttpAction {
                    isolate_next(req)
                } else {
                    RunNextTree::Go(RunStage::Environment)
                },
            },
            RunStage::Permit => RunNextTree::Go(RunStage::FetchBinary),
            RunStage::FetchBinary => RunNextTree::Go(RunStage::RunWasm),
            _ => RunNextTree::Finish { with_transaction: hands_back_transaction(req.udf_type) },
        },
    }
}

fn check_parts(req: &RunRequest) -> (r: Result<(), RunError>)
    ensures
        match missing_part(*req) {
            None => r is Ok,
            Some(m) => r matches Err(e) && e@ == plain_fault(m),
        },
{
    match req.udf_type {
        UdfType::Query | UdfType::Mutation => if req.has_function_metadata {
            Ok(())
        } else {
            Err(plain_error("Missing function metadata for query or mutation"))
        },
        UdfType::Action => if !req.has_function_metadata {
            Err(plain_error("Missing function metadata for action"))
        } else if !req.has_log_line_sender {
            Err(plain_error("Missing log line sender for action"))
        } else {
            Ok(())
        },
        UdfType::HttpAction => if !req.has_http_action_metadata {
            Err(plain_error("Missing http action metadata"))
        } else if !req.has_log_line_sender {
            Err(plain_error("Missing log line sender for http action"))
        } else {
            Ok(())
        },
    }
}

fn go_to_isolate(req: &RunRequest) -> (r: RunNext)
    ensures
        r@ == isolate_next(*req),
{
    if req.has_isolate {
        RunNext::Go(RunStage::RunIsolate)
    } else {
        RunNext::Fail(javascript_error())
    }
}

/// Decide what comes after a stage of running a function.
pub fn run_function_no_retention_check(req: &RunRequest, stage: RunStage, event: &RunEvent) -> (r:
    RunNext)
    requires
        run_event_fits(stage, *event),
    ensures
        r@ == run_next(*req, stage, *event),
{
    match event {
        RunEvent::Failed(e) => if stage == RunStage::Permit {
            RunNext::Fail(plain_error("WASM semaphore closed"))
        } else {
            RunNext::Fail(plain_error(e.as_str()))
        },
        RunEvent::Environment(env) => if *env == ModuleEnvironment::Wasm {
            RunNext::Go(RunStage::Permit)
        } else {
            go_to_isolate(req)
        },
        RunEvent::Done => match stage {
            RunStage::BeginTransaction => RunNext::Go(RunStage::FileStorage),
            RunStage::FileStorage => RunNext::Go(RunStage::ModuleStorage),
            RunStage::ModuleStorage => match check_parts(req) {
                Err(e) => RunNext::Fail(e),
                Ok(()) => if req.udf_type == UdfType::HttpAction {
                    go_to_isolate(req)
                } else {
                    RunNext::Go(RunStage::Environment)
                },
            },
            RunStage::Permit => RunNext::Go(RunStage::FetchBinary),
            RunStage::FetchBinary => RunNext::Go(RunStage::RunWasm),
            _ => RunNext::Finish {
                with_transaction: req.udf_type == UdfType::Query || req.udf_type
                    == UdfType::Mutation,
            },
        },
    }
}

/// Whether a stage can be reached for a request.
pub open spec fn reachable(req: RunRequest, stage: RunStage) -> bool {
    match stage {
        RunStage::BeginTransaction | RunStage::FileStorage | RunStage::ModuleStorage => true,
        RunStage::Environment | RunStage::Permit | RunStage::FetchBinary | RunStage::RunWasm =>
            missing_part(req) is None && req.udf_type != UdfType::HttpAction,
        RunStage::RunIsolate => missing_part(req) is None && req.has_isolate,
    }
}

/// An HTTP action never runs in WebAssembly, nothing runs in a JavaScript engine that is not
/// there, and nothing runs with a part of its request missing.
pub proof fn routing_is_safe(req: RunRequest, stage: RunStage, event: RunEvent)
    requires
        reachable(req, stage),
        run_event_fits(stage, event),
    ensures
        run_next(req, stage, event) matches RunNextTree::Go(next) ==> reachable(req, next),
        run_next(req, stage, event) is Finish ==> stage == RunStage::RunWasm || stage
            == RunStage::RunIsolate,
{
}

/// A function runs in WebAssembly only with a permit, and only where its module does.
pub proof fn wasm_needs_permit(req: RunRequest, stage: RunStage, event: RunEvent)
    requires
        run_event_fits(stage, event),
    ensures
        run_next(req, stage, event) == RunNextTree::Go(RunStage::RunWasm) ==> stage
            == RunStage::FetchBinary,
        run_next(req, stage, event) == RunNextTree::Go(RunStage::FetchBinary) ==> stage
            == RunStage::Permit && event is Done,
        run_next(req, stage, event) == RunNextTree::Go(RunStage::Permit) ==> stage
            == RunStage::Environment && event == RunEvent::Environment(ModuleEnvironment::Wasm),
{
}

/// Without the JavaScript engine, a module that does not run as WebAssembly is turned down with
/// the code that says so, and so is an HTTP action.
pub proof fn wasm_only_deployments_say_so(req: RunRequest, env: ModuleEnvironment)
    requires
        !req.has_isolate,
    ensures
        env != ModuleEnvironment::Wasm ==> run_next(
            req,
            RunStage::Environment,
            RunEvent::Environment(env),
        ) == RunNextTree::Fail(javascript_disabled()),
        req.udf_type == UdfType::HttpAction && missing_part(req) is None ==> run_next(
            req,
            RunStage::ModuleStorage,
            RunEvent::Done,
        ) == RunNextTree::Fail(javascript_disabled()),
{
}

/// An action hands back no transaction; a query and a mutation do.
pub proof fn actions_have_no_transaction(req: RunRequest, stage: RunStage)
    requires
        stage == RunStage::RunWasm || stage == RunStage::RunIsolate,
    ensures
        run_next(req, stage, RunEvent::Done) == (RunNextTree::Finish {
            with_transaction: req.udf_type == UdfType::Query || req.udf_type == UdfType::Mutation,
        }),
{
}

/// Whether the result of a function may hold a commit timestamp that is still open.
pub fn allow_unresolved_commit_ts(udf_type: UdfType) -> (r: bool)
    ensures
        r == (udf_type == UdfType::Mutation),
{
    udf_type == UdfType::Mutation
}

/// Whether the snapshot of a function is checked when its result is: queries and mutations have no
/// effects, so it is early enough. Actions are checked while they run.
pub fn needs_retention_check(udf_type: UdfType) -> (r: bool)
    ensures
        r == hands_back_transaction(udf_type),
{
    match udf_type {
        UdfType::Query | UdfType::Mutation => true,
        UdfType::Action | UdfType::HttpAction => false,
    }
}

/// Check the result of a function against what retention says of its snapshot, where that matters.
pub fn validate_run_function_result(udf_type: UdfType, snapshot_is_retained: bool) -> (r: Result<
    (),
    RunError,
>)
    ensures
        if hands_back_transaction(udf_type) && !snapshot_is_retained {
            r matches Err(e) && e@ == plain_fault("Function runner retention check changed"@)
        } else {
            r is Ok
        },
{
    if needs_retention_check(udf_type) && !snapshot_is_retained {
        Err(plain_error("Function runner retention check changed"))
    } else {
        Ok(())
    }
}

/// What a storage is for.
#[derive(Debug)]
pub enum StorageUseCase {
    Files,
    Modules,
    Other(String),
}

/// The storages that a deployment has.
#[derive(Debug, Clone, Copy, PartialEq, Eq, Structural)]
pub enum DeploymentStorage {
    Files,
    Modules,
}

/// The storage of a deployment for a use.
pub fn storage_for_deployment(use_case: &StorageUseCase) -> (r: Result<DeploymentStorage, RunError>)
    ensures
        match *use_case {
            StorageUseCase::Files => r matches Ok(s) && s == DeploymentStorage::Files,
            StorageUseCase::Modules => r matches Ok(s) && s == DeploymentStorage::Modules,
            StorageUseCase::Other(name) => r matches Err(e) && e@ == plain_fault(
                "function runner storage does not support "@ + name@,
            ),
        },
{
    match use_case {
        StorageUseCase::Files => Ok(DeploymentStorage::Files),
        StorageUseCase::Modules => Ok(DeploymentStorage::Modules),
        StorageUseCase::Other(name) => Err(
            plain_error(
                concat("function runner storage does not support ", name.as_str()).as_str(),
            ),
        ),
    }
}

/// What is said where the module of a function is not there.
pub open spec fn module_not_found(udf_path: Seq<char>) -> RunFault {
    plain_fault("Trying to execute "@ + udf_path + " but its module is not found"@)
}

/// The environment of the module of a function, where the module is there.
pub fn module_environment(udf_path: &str, found: Option<ModuleEnvironment>) -> (r: Result<
    ModuleEnvironment,
    RunError,
>)
    ensures
        match found {
            Some(env) => r matches Ok(got) && got == env,
            None => r matches Err(e) && e@ == module_not_found(udf_path@),
        },
{
    match found {
        Some(env) => Ok(env),
        None => {
            let a = concat("Trying to execute ", udf_path);
            Err(plain_error(concat(a.as_str(), " but its module is not found").as_str()))
        },
    }
}

/// The name of an environment.
pub open spec fn environment_name(env: ModuleEnvironment) -> Seq<char> {
    match env {
        ModuleEnvironment::Isolate => "Isolate"@,
        ModuleEnvironment::Node => "Node"@,
        ModuleEnvironment::Invalid => "Invalid"@,
        ModuleEnvironment::Wasm => "Wasm"@,
    }
}

/// Check that the module of a function is there and runs as WebAssembly.
pub fn require_wasm_module(udf_path: &str, found: Option<ModuleEnvironment>) -> (r: Result<
    (),
    RunError,
>)
    ensures
        match found {
            None => r matches Err(e) && e@ == module_not_found(udf_path@),
            Some(env) => if env == ModuleEnvironment::Wasm {
                r is Ok
            } else {
                r matches Err(e) && e@ == plain_fault(
                    "Trying to execute "@ + udf_path@
                        + " as a WASM module, but it is bundled for "@ + environment_name(env),
                )
            },
        },
{
    let env = match module_environment(udf_path, found) {
        Err(e) => {
            return Err(e);
        },
        Ok(env) => env,
    };
    let name = match env {
        ModuleEnvironment::Wasm => {
            return Ok(());
        },
        ModuleEnvironment::Isolate => "Isolate",
        ModuleEnvironment::Node => "Node",
        ModuleEnvironment::Invalid => "Invalid",
    };
    let a = concat("Trying to execute ", udf_path);
    let b = concat(a.as_str(), " as a WASM module, but it is bundled for ");
    Err(plain_error(concat(b.as_str(), name).as_str()))
}

/// The binary of a module, from its source in the source package, which is base64.
pub fn fetch_wasm_binary(module_name: &str, source: Option<&str>) -> (r: Result<Vec<u8>, RunError>)
    ensures
        match source {
            None => r matches Err(e) && e@ == plain_fault(
                "Module "@ + module_name@ + " not found in source package"@,
            ),
            Some(s) => match bytes_of_base64(trimmed(s@)) {
                Ok(b) => r matches Ok(v) && v@ == b,
                Err(_) => r matches Err(e) && e@ == plain_fault(
                    "WASM module source is not valid base64"@,
                ),
            },
        },
{
    match source {
        None => {
            let a = concat("Module ", module_name);
            Err(plain_error(concat(a.as_str(), " not found in source package").as_str()))
        },
        Some(s) => match decode_base64(trim(s).as_str()) {
            Ok(b) => Ok(b),
            Err(_) => Err(plain_error("WASM module source is not valid base64")),
        },
    }
}

/// Whether all modules run in the JavaScript engine.
pub open spec fn all_isolate(envs: Seq<ModuleEnvironment>) -> bool {
    forall|i: int| 0 <= i < envs.len() ==> #[trigger] envs[i] == ModuleEnvironment::Isolate
}

fn is_all_isolate(envs: &[ModuleEnvironment]) -> (r: bool)
    ensures
        r == all_isolate(envs@),
{
    let mut i: usize = 0;
    while i < envs.len()
        invariant
            i <= envs.len(),
            forall|j: int| 0 <= j < i ==> #[trigger] envs@[j] == ModuleEnvironment::Isolate,
        decreases envs.len() - i,
    {
        if envs[i] != ModuleEnvironment::Isolate {
            assert(envs@[i as int] != ModuleEnvironment::Isolate);
            return false;
        }
        i += 1;
    }
    true
}

impl FunctionRunnerCore {
    /// Check that modules can be analyzed: all run in the JavaScript engine, which is there.
    pub fn analyze(&self, envs: &[ModuleEnvironment]) -> (r: Result<IsolateWorkers, RunError>)
        ensures
            if !all_isolate(envs@) {
                r matches Err(e) && e@ == plain_fault("Can only analyze Isolate modules"@)
            } else {
                match self.isolate_client {
                    Some(c) => r matches Ok(got) && got == c,
                    None => r matches Err(e) && e@ == javascript_disabled(),
                }
            },
    {
        if !is_all_isolate(envs) {
            return Err(plain_error("Can only analyze Isolate modules"));
        }
        self.require_isolate_client()
    }

    /// Check that the definition of an app and those of its components can be evaluated: all run
    /// in the JavaScript engine, which is there.
    pub fn evaluate_app_definitions(
        &self,
        app_env: ModuleEnvironment,
        component_envs: &[ModuleEnvironment],
    ) -> (r: Result<IsolateWorkers, RunError>)
        ensures
            if app_env != ModuleEnvironment::Isolate || !all_isolate(component_envs@) {
                r matches Err(e) && e@ == plain_fault("Can only evaluate Isolate modules"@)
            } else {
                match self.isolate_client {
                    Some(c) => r matches Ok(got) && got == c,
                    None => r matches Err(e) && e@ == javascript_disabled(),
                }
            },
    {
        if app_env != ModuleEnvironment::Isolate || !is_all_isolate(component_envs) {
            return Err(plain_error("Can only evaluate Isolate modules"));
        }
        self.require_isolate_client()
    }
}

/// Where the JavaScript engine is there, a query, a mutation or an action whose module is not one
/// of WebAssembly runs in it, and so does an HTTP action once its storages are there, as long as
/// nothing that it needs is missing. A module of WebAssembly waits for its permit instead, with
/// the engine or without.
pub proof fn functions_run_where_their_module_does(req: RunRequest, env: ModuleEnvironment)
    ensures
        req.has_isolate && env != ModuleEnvironment::Wasm ==> run_next(
            req,
            RunStage::Environment,
            RunEvent::Environment(env),
        ) == RunNextTree::Go(RunStage::RunIsolate),
        env == ModuleEnvironment::Wasm ==> run_next(
            req,
            RunStage::Environment,
            RunEvent::Environment(env),
        ) == RunNextTree::Go(RunStage::Permit),
        req.has_isolate && req.udf_type == UdfType::HttpAction && req.has_http_action_metadata
            && req.has_log_line_sender ==> run_next(req, RunStage::ModuleStorage, RunEvent::Done)
            == RunNextTree::Go(RunStage::RunIsolate),
{
}

/// A function is turned down for want of the JavaScript engine only where the engine is not there
/// and the function would have run in it: its module is not one of WebAssembly, or it is an HTTP
/// action. No other failure carries a code.
pub proof fn javascript_is_missed_for_cause(req: RunRequest, stage: RunStage, event: RunEvent)
    requires
        run_event_fits(stage, event),
    ensures
        run_next(req, stage, event) matches RunNextTree::Fail(f) ==> (f.code is Some <==> f
            == javascript_disabled()),
        run_next(req, stage, event) == RunNextTree::Fail(javascript_disabled()) ==> {
            &&& !req.has_isolate
            &&& (event matches RunEvent::Environment(env) && env != ModuleEnvironment::Wasm) || (
            event is Done && stage == RunStage::ModuleStorage && req.udf_type
                == UdfType::HttpAction)
        },
        javascript_disabled().code == Some("JavaScriptExecutionDisabled"@),
{
}

/// Once the storages are there, a query or a mutation goes on exactly where its function's
/// metadata is there; an action where that and the sender for its log lines are; and an HTTP action
/// where its own metadata, that sender and the JavaScript engine are. What a function does not
/// need makes no difference to it.
pub proof fn complete_requests_go_on(req: RunRequest)
    ensures
        req.udf_type == UdfType::Query || req.udf_type == UdfType::Mutation ==> (run_next(
            req,
            RunStage::ModuleStorage,
            RunEvent::Done,
        ) == RunNextTree::Go(RunStage::Environment) <==> req.has_function_metadata),
        req.udf_type == UdfType::Action ==> (run_next(req, RunStage::ModuleStorage, RunEvent::Done)
            == RunNextTree::Go(RunStage::Environment) <==> req.has_function_metadata
            && req.has_log_line_sender),
        req.udf_type == UdfType::HttpAction ==> (run_next(
            req,
            RunStage::ModuleStorage,
            RunEvent::Done,
        ) is Go <==> req.has_http_action_metadata && req.has_log_line_sender && req.has_isolate),
        run_next(req, RunStage::ModuleStorage, RunEvent::Done) is Go || run_next(
            req,
            RunStage::ModuleStorage,
            RunEvent::Done,
        ) is Fail,
{
}

/// What is missing is named: the metadata before the sender for the log lines, and for what it is
/// missing.
pub proof fn missing_parts_are_named(req: RunRequest)
    ensures
        req.udf_type != UdfType::HttpAction && !req.has_function_metadata ==> run_next(
            req,
            RunStage::ModuleStorage,
            RunEvent::Done,
        ) == RunNextTree::Fail(
            RunFault {
                code: None,
                message: if req.udf_type == UdfType::Action {
                    "Missing function metadata for action"@
                } else {
                    "Missing function metadata for query or mutation"@
                },
            },
        ),
        req.udf_type == UdfType::HttpAction && !req.has_http_action_metadata ==> run_next(
            req,
            RunStage::ModuleStorage,
            RunEvent::Done,
        ) == RunNextTree::Fail(
            RunFault { code: None, message: "Missing http action metadata"@ },
        ),
        req.udf_type == UdfType::Action && req.has_function_metadata && !req.has_log_line_sender
            ==> run_next(req, RunStage::ModuleStorage, RunEvent::Done) == RunNextTree::Fail(
            RunFault { code: None, message: "Missing log line sender for action"@ },
        ),
        req.udf_type == UdfType::HttpAction && req.has_http_action_metadata
            && !req.has_log_line_sender ==> run_next(req, RunStage::ModuleStorage, RunEvent::Done)
            == RunNextTree::Fail(
            RunFault { code: None, message: "Missing log line sender for http action"@ },
        ),
{
}

/// A stage that is done leads to the next one in order, whatever is asked for, up to where the
/// function runs.
pub proof fn stages_come_in_order(req: RunRequest)
    ensures
        run_next(req, RunStage::BeginTransaction, RunEvent::Done) == RunNextTree::Go(
            RunStage::FileStorage,
        ),
        run_next(req, RunStage::FileStorage, RunEvent::Done) == RunNextTree::Go(
            RunStage::ModuleStorage,
        ),
        run_next(req, RunStage::Permit, RunEvent::Done) == RunNextTree::Go(RunStage::FetchBinary),
        run_next(req, RunStage::FetchBinary, RunEvent::Done) == RunNextTree::Go(RunStage::RunWasm),
        run_next(req, RunStage::RunWasm, RunEvent::Done) is Finish,
        run_next(req, RunStage::RunIsolate, RunEvent::Done) is Finish,
{
}

/// A stage that fails ends the run, whatever is asked for: with what was said of the failure, or
/// with the word that no permits are given any more where it was the permit.
pub proof fn failed_stages_end_the_run(req: RunRequest, stage: RunStage, e: String)
    ensures
        run_next(req, stage, RunEvent::Failed(e)) is Fail,
        stage != RunStage::Permit ==> run_next(req, stage, RunEvent::Failed(e))
            == RunNextTree::Fail(RunFault { code: None, message: e@ }),
        stage == RunStage::Permit ==> run_next(req, stage, RunEvent::Failed(e))
            == RunNextTree::Fail(RunFault { code: None, message: "WASM semaphore closed"@ }),
{
}

/// The snapshot of a function is checked exactly where its transaction is handed back.
pub proof fn handed_back_snapshots_are_checked(req: RunRequest)
    ensures
        run_next(req, RunStage::RunWasm, RunEvent::Done) == (RunNextTree::Finish {
            with_transaction: hands_back_transaction(req.udf_type),
        }),
        hands_back_transaction(req.udf_type) <==> req.udf_type != UdfType::Action && req.udf_type
            != UdfType::HttpAction,
{
}

/// The environments have names of their own.
pub proof fn environments_are_named_apart(a: ModuleEnvironment, b: ModuleEnvironment)
    ensures
        environment_name(a) == environment_name(b) ==> a == b,
        environment_name(a).len() > 0,
{
    reveal_strlit("Isolate");
    reveal_strlit("Node");
    reveal_strlit("Invalid");
    reveal_strlit("Wasm");
    assert("Isolate"@[1] == 's');
    assert("Invalid"@[1] == 'n');
    assert("Node"@[0] == 'N');
    assert("Wasm"@[0] == 'W');
}

/// Modules all run in the JavaScript engine where each of them does: none of them is passed over,
/// and where there are none nothing stands against it.
pub proof fn mixed_modules_are_noticed(a: Seq<ModuleEnvironment>, b: Seq<ModuleEnvironment>)
    ensures
        all_isolate(a + b) <==> all_isolate(a) && all_isolate(b),
        a.len() == 0 ==> all_isolate(a),
        a.len() == 1 ==> (all_isolate(a) <==> a[0] == ModuleEnvironment::Isolate),
{
    if all_isolate(a + b) {
        assert forall|i: int| 0 <= i < a.len() implies #[trigger] a[i]
            == ModuleEnvironment::Isolate by {
            assert((a + b)[i] == a[i]);
        }
        assert forall|i: int| 0 <= i < b.len() implies #[trigger] b[i]
            == ModuleEnvironment::Isolate by {
            assert((a + b)[a.len() + i] == b[i]);
        }
    }
}

/// Open commit timestamps are allowed in what mutations return, and nowhere else.
pub proof fn only_mutations_leave_timestamps_open(t: UdfType, allowed: bool)
    requires
        call_ensures(allow_unresolved_commit_ts, (t,), allowed),
    ensures
        allowed <==> t == UdfType::Mutation,
{
}

/// A runner that was made with the JavaScript engine has it, idle, with as many workers as were
/// asked for; one that was made without it has none, and says that it is switched off.
pub proof fn runners_have_the_engine_they_were_given(
    max: usize,
    enabled: bool,
    core: FunctionRunnerCore,
    active: usize,
    most: usize,
    client: Result<IsolateWorkers, RunError>,
)
    requires
        call_ensures(FunctionRunnerCore::new, (max, enabled), core),
        call_ensures(FunctionRunnerCore::active_isolate_workers, (&core,), active),
        call_ensures(FunctionRunnerCore::max_isolate_workers, (&core,), most),
        call_ensures(FunctionRunnerCore::require_isolate_client, (&core,), client),
    ensures
        active == 0,
        enabled ==> most == max && (client matches Ok(w) && w.active == active && w.max == most),
        !enabled ==> most == 0 && (client matches Err(e) && e@ == javascript_disabled()),
{
}

/// What a runner says of its workers is what its engine says, whatever state it is in.
pub proof fn workers_are_those_of_the_engine(
    core: FunctionRunnerCore,
    active: usize,
    most: usize,
    client: Result<IsolateWorkers, RunError>,
)
    requires
        call_ensures(FunctionRunnerCore::active_isolate_workers, (&core,), active),
        call_ensures(FunctionRunnerCore::max_isolate_workers, (&core,), most),
        call_ensures(FunctionRunnerCore::require_isolate_client, (&core,), client),
    ensures
        client matches Ok(w) ==> w.active == active && w.max == most,
        client is Err ==> active == 0 && most == 0,
        client is Ok <==> core.isolate_client is Some,
{
}

/// A result is refused for want of its snapshot exactly where the function is a query or a mutation
/// and the snapshot is not retained; a function whose snapshot is not checked is never refused.
pub proof fn lost_snapshots_are_refused(
    t: UdfType,
    retained: bool,
    needed: bool,
    checked: Result<(), RunError>,
)
    requires
        call_ensures(needs_retention_check, (t,), needed),
        call_ensures(validate_run_function_result, (t, retained), checked),
    ensures
        needed <==> t == UdfType::Query || t == UdfType::Mutation,
        checked is Err <==> (t == UdfType::Query || t == UdfType::Mutation) && !retained,
        checked matches Err(e) ==> e.code is None,
{
}

/// There is a storage for files and one for modules, each for its own use, and no other; a use that
/// there is none for is named.
pub proof fn storages_serve_their_use(
    use_case: StorageUseCase,
    found: Result<DeploymentStorage, RunError>,
)
    requires
        call_ensures(storage_for_deployment, (&use_case,), found),
    ensures
        found matches Ok(s) ==> (s == DeploymentStorage::Files <==> use_case is Files),
        found matches Ok(s) ==> (s == DeploymentStorage::Modules <==> use_case is Modules),
        found is Err <==> use_case is Other,
        use_case matches StorageUseCase::Other(name) ==> (found matches Err(e) && e@.message
            == "function runner storage does not support "@ + name@),
{
}

/// The environment of a module is given where the module is there. A function runs as WebAssembly
/// exactly where that environment is WebAssembly; where the module is not there, both say the same.
pub proof fn wasm_modules_are_required(
    udf_path: &str,
    found: Option<ModuleEnvironment>,
    env: Result<ModuleEnvironment, RunError>,
    required: Result<(), RunError>,
)
    requires
        call_ensures(module_environment, (udf_path, found), env),
        call_ensures(require_wasm_module, (udf_path, found), required),
    ensures
        env is Ok <==> found is Some,
        env matches Ok(e) ==> found == Some(e),
        required is Ok <==> found == Some(ModuleEnvironment::Wasm),
        env matches Err(e) ==> (required matches Err(f) && f@ == e@),
{
}

/// Modules can be analyzed exactly where all of them run in the JavaScript engine and the engine is
/// there. The definition of an app can be evaluated exactly where the definitions of its components
/// could be analyzed and its own runs in the engine too.
pub proof fn javascript_modules_are_analyzed(
    core: FunctionRunnerCore,
    app_env: ModuleEnvironment,
    envs: &[ModuleEnvironment],
    analyzed: Result<IsolateWorkers, RunError>,
    evaluated: Result<IsolateWorkers, RunError>,
)
    requires
        call_ensures(FunctionRunnerCore::analyze, (&core, envs), analyzed),
        call_ensures(FunctionRunnerCore::evaluate_app_definitions, (&core, app_env, envs), evaluated),
    ensures
        analyzed is Ok <==> core.isolate_client is Some && (forall|i: int|
            0 <= i < envs@.len() ==> #[trigger] envs@[i] == ModuleEnvironment::Isolate),
        evaluated is Ok <==> analyzed is Ok && app_env == ModuleEnvironment::Isolate,
        analyzed matches Ok(w) ==> core.isolate_client == Some(w),
        analyzed matches Err(e) ==> (e@.code is Some <==> core.isolate_client is None && (forall|
            i: int,
        |
            0 <= i < envs@.len() ==> #[trigger] envs@[i] == ModuleEnvironment::Isolate)),
{
}

/// The binary of a module is what its source holds in base64, whatever white space stands around
/// it. A module without a source, or with one that is no base64, has none.
pub proof fn binaries_are_read_from_base64(
    module_name: &str,
    source: Option<&str>,
    read: Result<Vec<u8>, RunError>,
)
    requires
        call_ensures(fetch_wasm_binary, (module_name, source), read),
    ensures
        source is None ==> read is Err,
        source matches Some(s) ==> (read is Ok <==> bytes_of_base64(trimmed(s@)) is Ok),
        source matches Some(s) ==> (read matches Ok(b) ==> bytes_of_base64(trimmed(s@)) == Ok::<
            Seq<u8>,
            Seq<char>,
        >(b@)),
{
}

/// What comes after a stage, as the function says it: a function whose module is not one of
/// WebAssembly runs in the JavaScript engine exactly where the engine is there.
pub proof fn runs_are_routed(req: RunRequest, env: ModuleEnvironment, event: RunEvent, next: RunNext)
    requires
        event == RunEvent::Environment(env),
        call_ensures(run_function_no_retention_check, (&req, RunStage::Environment, &event), next),
    ensures
        next == RunNext::Go(RunStage::Permit) <==> env == ModuleEnvironment::Wasm,
        next == RunNext::Go(RunStage::RunIsolate) <==> env != ModuleEnvironment::Wasm
            && req.has_isolate,
        next is Fail <==> env != ModuleEnvironment::Wasm && !req.has_isolate,
{
}

} // verus!
