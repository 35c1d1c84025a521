//! One invocation of a guest module: how it is set up, the stages that it goes through, and what
//! comes out.

use vstd::prelude::*;
use vstd::string::*;
use vstd::utf8::encode_utf8;
use crate::abi::{GUEST_FUNCTIONS, GUEST_RUN, INPUT_ARGS_KEY, INPUT_FUNCTION_KEY, RUN_OK};
use crate::call_data::CallData;
use crate::canonical::{canonical, canonical_json};
use crate::determinism::{
    shown_nanos, DeterministicRng, RngState, VirtualMonotonicClock, VirtualWallClock,
};
use crate::host::{bytes_view, log_trees, HostContext, HostTree, LogLine, LogTree};
use crate::json::{tree_wf, Json, JsonTree};
use crate::json_text::{json_of_text, parse_json, print_json, text_of_json};
use crate::limits::WasmLimits;
use crate::lossy::{lossy_text, read_lossy};
use crate::text::{
    all_digits, begins_with, concat, contains, decimal, decimal_text, digits_value,
    lemma_decimal_digits, occurs,
};

verus! {

/// How many units of fuel a guest uses before it lets other tasks run.
pub const FUEL_YIELD_INTERVAL: u64 = 1_000_000;

/// What the store of an invocation allows.
#[derive(Debug, Clone, Copy, PartialEq, Eq, Structural)]
pub struct StoreSettings {
    pub memory_size: usize,
    pub instances: usize,
    pub memories: usize,
    pub tables: usize,
    pub fuel: u64,
    pub fuel_yield_interval: u64,
}

/// What an invocation starts with.
pub struct Invocation {
    pub host: HostContext,
    pub call_data: CallData,
    pub wall_clock: VirtualWallClock,
    pub monotonic_clock: VirtualMonotonicClock,
    /// Where WASI draws its randomness from.
    pub wasi_rng: DeterministicRng,
    pub store: StoreSettings,
}

/// Nanoseconds as whole milliseconds, or 0 where that is more than `max`.
pub open spec fn millis(nanos: nat, max: nat) -> nat {
    if nanos / 1_000_000 <= max {
        nanos / 1_000_000
    } else {
        0
    }
}

/// Milliseconds since the epoch, for a clock.
pub fn clock_millis(nanos: u128) -> (r: u64)
    ensures
        r == millis(nanos as nat, u64::MAX as nat),
{
    let ms: u128 = nanos / 1_000_000;
    if ms <= 0xffff_ffff_ffff_ffff {
        ms as u64
    } else {
        0
    }
}

/// Milliseconds since the epoch, for a guest.
pub fn guest_millis(nanos: u128) -> (r: i64)
    ensures
        r == millis(nanos as nat, i64::MAX as nat),
{
    let ms: u128 = nanos / 1_000_000;
    if ms <= 0x7fff_ffff_ffff_ffff {
        ms as i64
    } else {
        0
    }
}

/// What the store allows under some limits.
pub open spec fn store_settings(limits: WasmLimits) -> StoreSettings {
    StoreSettings {
        memory_size: limits.max_memory_bytes as usize,
        instances: 1,
        memories: 1,
        tables: 1,
        fuel: limits.fuel,
        fuel_yield_interval: FUEL_YIELD_INTERVAL,
    }
}

/// Whether an invocation is set up for an input, a seed and a time, with nothing done yet.
pub open spec fn is_fresh(
    i: Invocation,
    input: Seq<u8>,
    seed: Seq<u8>,
    guest_ms: i64,
    clock_ms: u64,
    limits: WasmLimits,
) -> bool {
    &&& i.host@ == (HostTree {
        input,
        output: None,
        error: None,
        log_lines: Seq::empty(),
        rng: RngState { seed, word: 0 },
        unix_timestamp_ms: guest_ms,
        observed_rng: false,
        observed_time: false,
    })
    &&& i.call_data@ == Seq::<u8>::empty()
    &&& i.call_data.max() == limits.max_call_data
    &&& i.wall_clock.instant() == clock_ms * 1_000_000
    &&& i.monotonic_clock.instant() == shown_nanos((clock_ms * 1_000_000) as nat)
    &&& i.wasi_rng@ == (RngState { seed, word: 0 })
    &&& i.store == store_settings(limits)
}

fn set_up(
    input: Vec<u8>,
    seed: [u8; 32],
    guest_ms: i64,
    clock_ms: u64,
    limits: &WasmLimits,
) -> (r: Invocation)
    ensures
        is_fresh(r, input@, seed@, guest_ms, clock_ms, *limits),
{
    let clock_nanos: u128 = clock_ms as u128 * 1_000_000;
    Invocation {
        host: HostContext::new(input, seed, guest_ms),
        call_data: CallData::new(limits.max_call_data),
        wall_clock: VirtualWallClock::new(clock_nanos),
        monotonic_clock: VirtualMonotonicClock::new(clock_nanos),
        wasi_rng: DeterministicRng::from_seed(seed),
        store: StoreSettings {
            memory_size: limits.max_memory_bytes as usize,
            instances: 1,
            memories: 1,
            tables: 1,
            fuel: limits.fuel,
            fuel_yield_interval: FUEL_YIELD_INTERVAL,
        },
    }
}

/// Set up the execution of a function.
pub fn set_up_execution(
    input: Vec<u8>,
    seed: [u8; 32],
    unix_nanos: u128,
    limits: &WasmLimits,
) -> (r: Invocation)
    ensures
        is_fresh(
            r,
            input@,
            seed@,
            millis(unix_nanos as nat, i64::MAX as nat) as i64,
            millis(unix_nanos as nat, u64::MAX as nat) as u64,
            *limits,
        ),
{
    set_up(input, seed, guest_millis(unix_nanos), clock_millis(unix_nanos), limits)
}

/// Set up asking a module for its functions: there is no input, and the guest's time is 0.
pub fn set_up_analysis(seed: [u8; 32], unix_nanos: u128, limits: &WasmLimits) -> (r: Invocation)
    ensures
        is_fresh(
            r,
            Seq::empty(),
            seed@,
            0,
            millis(unix_nanos as nat, u64::MAX as nat) as u64,
            *limits,
        ),
{
    let none: Vec<u8> = Vec::new();
    assert(none@ =~= Seq::empty());
    set_up(none, seed, 0, clock_millis(unix_nanos), limits)
}

/// What an invocation is for.
#[derive(Debug, Clone, Copy, PartialEq, Eq, Structural)]
pub enum Purpose {
    /// Run a function.
    Execute,
    /// List the functions of the module.
    Analyze,
}

/// The stages of an invocation.
#[derive(Debug, Clone, Copy, PartialEq, Eq, Structural)]
pub enum Stage {
    /// The module is instantiated.
    Instantiate,
    /// The guest's runtime is initialized.
    Initialize,
    /// The entry point is looked up.
    Locate,
    /// The entry point is called.
    Call,
}

/// What became of a stage.
#[derive(Debug)]
pub enum StageEvent {
    /// The stage took too long.
    TimedOut,
    /// The stage failed; what was said of it.
    Failed(String),
    /// The module was instantiated, and has an initialization function or not.
    Instantiated { has_initialize: bool },
    /// The initialization function returned.
    Initialized,
    /// The entry point was found.
    Located,
    /// The entry point returned a status.
    Returned(i32),
}

/// Whether an event can come at a stage.
pub open spec fn event_fits(stage: Stage, event: StageEvent) -> bool {
    match stage {
        Stage::Instantiate => event is TimedOut || event is Failed || event is Instantiated,
        Stage::Initialize => event is TimedOut || event is Failed || event is Initialized,
        Stage::Locate => event is Failed || event is Located,
        Stage::Call => event is TimedOut || event is Failed || event is Returned,
    }
}

/// What comes after a stage, as content.
pub enum NextTree {
    Go(Stage),
    Fail(Seq<char>),
    Finish,
}

/// What comes after a stage.
#[derive(Debug)]
pub enum Next {
    /// Another stage.
    Go(Stage),
    /// The invocation fails.
    Fail(String),
    /// The entry point was called, or could not be called through.
    Finish,
}

impl View for Next {
    type V = NextTree;

    open spec fn view(&self) -> NextTree {
        match *self {
            Next::Go(s) => NextTree::Go(s),
            Next::Fail(e) => NextTree::Fail(e@),
            Next::Finish => NextTree::Finish,
        }
    }
}

/// The entry point that an invocation calls.
pub open spec fn entry_point(p: Purpose) -> Seq<char> {
    match p {
        Purpose::Execute => GUEST_RUN@,
        Purpose::Analyze => GUEST_FUNCTIONS@,
    }
}

/// What comes after a stage.
pub open spec fn stage_next(p: Purpose, stage: Stage, event: StageEvent) -> NextTree {
    match (stage, event) {
        (Stage::Instantiate, StageEvent::TimedOut) => NextTree::Fail(
            "Timed out instantiating WASM module"@,
        ),
        (Stage::Instantiate, StageEvent::Failed(e)) => NextTree::Fail(
            match p {
                Purpose::Execute => "Instantiating WASM module: "@ + e@,
                Purpose::Analyze => e@,
            },
        ),
        (Stage::Instantiate, StageEvent::Instantiated { has_initialize }) => NextTree::Go(
            if has_initialize {
                Stage::Initialize
            } else {
                Stage::Locate
            },
        ),
        (Stage::Initialize, StageEvent::TimedOut) => NextTree::Fail(
            "Timed out initializing WASM module"@,
        ),
        (Stage::Initialize, StageEvent::Failed(e)) => NextTree::Fail(
            "WASM module initialization failed: "@ + e@,
        ),
        (Stage::Initialize, _) => NextTree::Go(Stage::Locate),
        (Stage::Locate, StageEvent::Failed(e)) => NextTree::Fail(
            "Missing "@ + entry_point(p) + " export: "@ + e@,
        ),
        (Stage::Locate, _) => NextTree::Go(Stage::Call),
        _ => NextTree::Finish,
    }
}

/// Decide what comes after a stage.
pub fn next_stage(p: Purpose, stage: Stage, event: &StageEvent) -> (r: Next)
    requires
        event_fits(stage, *event),
    ensures
        r@ == stage_next(p, stage, *event),
{
    match stage {
        Stage::Instantiate => match event {
            StageEvent::TimedOut => Next::Fail("Timed out instantiating WASM module".to_owned()),
            StageEvent::Failed(e) => match p {
                Purpose::Execute => Next::Fail(concat("Instantiating WASM module: ", e.as_str())),
                Purpose::Analyze => Next::Fail(e.clone()),
            },
            StageEvent::Instantiated { has_initialize } => if *has_initialize {
                Next::Go(Stage::Initialize)
            } else {
                Next::Go(Stage::Locate)
            },
            _ => Next::Finish,
        },
        Stage::Initialize => match event {
            StageEvent::TimedOut => Next::Fail("Timed out initializing WASM module".to_owned()),
            StageEvent::Failed(e) => Next::Fail(
                concat("WASM module initialization failed: ", e.as_str()),
            ),
            _ => Next::Go(Stage::Locate),
        },
        Stage::Locate => match event {
            StageEvent::Failed(e) => {
                let name = match p {
                    Purpose::Execute => GUEST_RUN,
                    Purpose::Analyze => GUEST_FUNCTIONS,
                };
                let a = concat("Missing ", name);
                let b = concat(a.as_str(), " export: ");
                Next::Fail(concat(b.as_str(), e.as_str()))
            },
            _ => Next::Go(Stage::Call),
        },
        Stage::Call => Next::Finish,
    }
}

/// The order of the stages.
pub open spec fn stage_rank(s: Stage) -> int {
    match s {
        Stage::Instantiate => 0,
        Stage::Initialize => 1,
        Stage::Locate => 2,
        Stage::Call => 3,
    }
}

/// Stages come in order, so an invocation ends, and the entry point is not called before it was
/// found.
pub proof fn stages_advance(p: Purpose, stage: Stage, event: StageEvent)
    requires
        event_fits(stage, event),
    ensures
        stage_next(p, stage, event) matches NextTree::Go(next) ==> stage_rank(next) > stage_rank(
            stage,
        ),
        stage_next(p, stage, event) == NextTree::Go(Stage::Call) ==> stage == Stage::Locate
            && event is Located,
        stage_next(p, stage, event) is Finish ==> stage == Stage::Call,
{
}

/// What came out of an execution.
pub struct ExecutionResult {
    pub output: Option<Vec<u8>>,
    pub error: Option<Vec<u8>>,
    pub log_lines: Vec<LogLine>,
    pub observed_rng: bool,
    pub observed_time: bool,
}

/// The content of what came out of an execution.
pub struct ExecutionTree {
    pub output: Option<Seq<u8>>,
    pub error: Option<Seq<u8>>,
    pub log_lines: Seq<LogTree>,
    pub observed_rng: bool,
    pub observed_time: bool,
}

impl View for ExecutionResult {
    type V = ExecutionTree;

    open spec fn view(&self) -> ExecutionTree {
        ExecutionTree {
            output: bytes_view(self.output),
            error: bytes_view(self.error),
            log_lines: log_trees(self.log_lines@),
            observed_rng: self.observed_rng,
            observed_time: self.observed_time,
        }
    }
}

/// What is said of a trap.
pub open spec fn trap_text(message: Seq<char>) -> Seq<char> {
    if occurs(message, "all fuel consumed"@) {
        "WASM function exceeded its instruction budget"@
    } else if occurs(message, "memory"@) && occurs(message, "limit"@) {
        "WASM function exceeded the memory limit: "@ + message
    } else {
        message
    }
}

/// What is said of a call that did not succeed, if it did not.
pub open spec fn call_error(host: HostTree, event: StageEvent, timeout_ms: u64) -> Option<Seq<char>> {
    match event {
        StageEvent::TimedOut => Some(
            "WASM function exceeded the "@ + decimal((timeout_ms / 1000) as nat)
                + " second timeout"@,
        ),
        StageEvent::Failed(trap) => Some(trap_text(trap@)),
        StageEvent::Returned(status) => if status == RUN_OK {
            None
        } else {
            Some(
                lossy_text(
                    match host.error {
                        Some(b) => b,
                        None => Seq::empty(),
                    },
                ),
            )
        },
        _ => None,
    }
}

/// What comes out of an execution: the output of a call that succeeded, or what is said of one
/// that did not.
pub open spec fn execution_of(host: HostTree, event: StageEvent, timeout_ms: u64) -> ExecutionTree {
    match call_error(host, event, timeout_ms) {
        None => ExecutionTree {
            output: host.output,
            error: None,
            log_lines: host.log_lines,
            observed_rng: host.observed_rng,
            observed_time: host.observed_time,
        },
        Some(message) => ExecutionTree {
            output: None,
            error: Some(encode_utf8(message)),
            log_lines: host.log_lines,
            observed_rng: host.observed_rng,
            observed_time: host.observed_time,
        },
    }
}

/// The bytes of a text.
pub fn text_bytes(s: &str) -> (r: Vec<u8>)
    ensures
        r@ == encode_utf8(s@),
{
    let mut out: Vec<u8> = Vec::new();
    out.extend_from_slice(s.as_bytes());
    assert(out@ =~= encode_utf8(s@));
    out
}

fn describe_trap(message: &String) -> (r: String)
    ensures
        r@ == trap_text(message@),
{
    let text = message.as_str();
    if contains(text, "all fuel consumed") {
        "WASM function exceeded its instruction budget".to_owned()
    } else if contains(text, "memory") && contains(text, "limit") {
        concat("WASM function exceeded the memory limit: ", text)
    } else {
        message.clone()
    }
}

fn describe_call(host: &HostContext, event: &StageEvent, timeout_ms: u64) -> (r: Option<String>)
    ensures
        match r {
            None => call_error(host@, *event, timeout_ms) is None,
            Some(s) => call_error(host@, *event, timeout_ms) == Some(s@),
        },
{
    match event {
        StageEvent::TimedOut => {
            let a = concat(
                "WASM function exceeded the ",
                decimal_text(timeout_ms / 1000).as_str(),
            );
            Some(concat(a.as_str(), " second timeout"))
        },
        StageEvent::Failed(trap) => Some(describe_trap(trap)),
        StageEvent::Returned(status) => if *status == RUN_OK {
            None
        } else {
            let none: Vec<u8> = Vec::new();
            assert(none@ =~= Seq::empty());
            match &host.error {
                Some(b) => Some(read_lossy(b.as_slice())),
                None => Some(read_lossy(none.as_slice())),
            }
        },
        _ => None,
    }
}

/// What comes out of an execution after its last stage.
pub fn finish_execution(host: HostContext, event: &StageEvent, limits: &WasmLimits) -> (r:
    ExecutionResult)
    requires
        event_fits(Stage::Call, *event),
    ensures
        r@ == execution_of(host@, *event, limits.timeout_ms),
{
    match describe_call(&host, event, limits.timeout_ms) {
        None => ExecutionResult {
            output: host.output,
            error: None,
            log_lines: host.log_lines,
            observed_rng: host.observed_rng,
            observed_time: host.observed_time,
        },
        Some(message) => ExecutionResult {
            output: None,
            error: Some(text_bytes(message.as_str())),
            log_lines: host.log_lines,
            observed_rng: host.observed_rng,
            observed_time: host.observed_time,
        },
    }
}

/// An execution gives an output or an error, never both; and it keeps the log lines and what the
/// guest observed, whatever became of it.
pub proof fn execution_keeps_observations(host: HostTree, event: StageEvent, timeout_ms: u64)
    ensures
        execution_of(host, event, timeout_ms).output is None || execution_of(
            host,
            event,
            timeout_ms,
        ).error is None,
        execution_of(host, event, timeout_ms).log_lines == host.log_lines,
        execution_of(host, event, timeout_ms).observed_rng == host.observed_rng,
        execution_of(host, event, timeout_ms).observed_time == host.observed_time,
{
}

/// A function that a guest module lists.
///
/// `args` and `returns` hold validators as JSON, and `visibility` is `"public"` or `"internal"`;
/// a guest may leave each of them out.
#[derive(Debug, PartialEq, Eq)]
pub struct WasmFunctionDescriptor {
    pub name: String,
    pub function_type: String,
    pub args: Option<String>,
    pub returns: Option<String>,
    pub visibility: Option<String>,
}

/// The text of an integer.
pub open spec fn integer_text(n: int) -> Seq<char> {
    if n < 0 {
        "-"@ + decimal((-n) as nat)
    } else {
        decimal(n as nat)
    }
}

/// The text of an integer.
pub fn integer_to_text(n: i32) -> (r: String)
    ensures
        r@ == integer_text(n as int),
{
    if n < 0 {
        let m: i64 = -(n as i64);
        concat("-", decimal_text(m as u64).as_str())
    } else {
        decimal_text(n as u64)
    }
}

/// What a module's list of functions is read from, or why there is none.
pub open spec fn analysis_of(host: HostTree, event: StageEvent) -> Result<Seq<u8>, Seq<char>> {
    match event {
        StageEvent::TimedOut => Err("Timed out querying WASM module functions"@),
        StageEvent::Failed(trap) => Err(trap@),
        StageEvent::Returned(status) => if status != RUN_OK {
            Err("__convex_functions returned error status "@ + integer_text(status as int))
        } else {
            match host.output {
                None => Err("__convex_functions returned no output"@),
                Some(b) => Ok(b),
            }
        },
        _ => Err(Seq::empty()),
    }
}

/// What a module's list of functions is read from, after the last stage of an analysis.
pub fn finish_analysis(host: HostContext, event: &StageEvent) -> (r: Result<Vec<u8>, String>)
    requires
        event_fits(Stage::Call, *event),
    ensures
        match (r, analysis_of(host@, *event)) {
            (Ok(b), Ok(bytes)) => b@ == bytes,
            (Err(e), Err(text)) => e@ == text,
            _ => false,
        },
{
    match event {
        StageEvent::TimedOut => Err("Timed out querying WASM module functions".to_owned()),
        StageEvent::Failed(trap) => Err(trap.clone()),
        StageEvent::Returned(status) => if *status != RUN_OK {
            Err(
                concat(
                    "__convex_functions returned error status ",
                    integer_to_text(*status).as_str(),
                ),
            )
        } else {
            match host.output {
                None => Err("__convex_functions returned no output".to_owned()),
                Some(b) => Ok(b),
            }
        },
        _ => {
            let none = String::new();
            assert(none@ =~= Seq::empty());
            Err(none)
        },
    }
}

/// The list of functions of a module, if its output could be read as one.
pub fn parse_function_descriptors(read: Option<Vec<WasmFunctionDescriptor>>) -> (r: Result<
    Vec<WasmFunctionDescriptor>,
    String,
>)
    ensures
        match read {
            Some(ds) => r matches Ok(got) && got == ds,
            None => r matches Err(e) && e@ == "__convex_functions returned invalid JSON"@,
        },
{
    match read {
        Some(ds) => Ok(ds),
        None => Err("__convex_functions returned invalid JSON".to_owned()),
    }
}

/// Which function a guest is to run, and with which arguments.
#[derive(Debug)]
pub struct WasmInput {
    /// The name of the function, such as `users:list`.
    pub function_name: String,
    /// The arguments, as the text of a JSON array.
    pub args_json: String,
}

/// The text that a guest reads as its input.
pub open spec fn input_text(function_name: Seq<char>, args_json: Seq<char>) -> Seq<char> {
    "{\""@ + INPUT_FUNCTION_KEY@ + "\": "@ + text_of_json(JsonTree::Text(function_name)) + ", \""@
        + INPUT_ARGS_KEY@ + "\": "@ + args_json + "}"@
}

/// The bytes that a guest reads as its input.
pub fn input_bytes(input: &WasmInput) -> (r: Vec<u8>)
    ensures
        r@ == encode_utf8(input_text(input.function_name@, input.args_json@)),
{
    let name = Json::Text(input.function_name.clone());
    assert(tree_wf(name.tree()));
    let a = concat("{\"", INPUT_FUNCTION_KEY);
    let b = concat(a.as_str(), "\": ");
    let c = concat(b.as_str(), print_json(&name).as_str());
    let d = concat(c.as_str(), ", \"");
    let e = concat(d.as_str(), INPUT_ARGS_KEY);
    let f = concat(e.as_str(), "\": ");
    let g = concat(f.as_str(), input.args_json.as_str());
    text_bytes(concat(g.as_str(), "}").as_str())
}

/// What a guest answered, as content.
pub enum ReplyTree {
    Value(Seq<char>),
    Error(Seq<char>),
}

/// What a guest answered.
#[derive(Debug)]
pub enum Reply {
    /// A value, as text that is still to be read.
    Value(String),
    /// An error.
    Error(String),
}

impl View for Reply {
    type V = ReplyTree;

    open spec fn view(&self) -> ReplyTree {
        match *self {
            Reply::Value(s) => ReplyTree::Value(s@),
            Reply::Error(s) => ReplyTree::Error(s@),
        }
    }
}

/// What a guest answered: its output; or else its error, or that there was one where it says
/// nothing; or else that there is no result.
pub open spec fn reply_of(e: ExecutionTree) -> ReplyTree {
    match (e.output, e.error) {
        (Some(b), _) => ReplyTree::Value(lossy_text(b)),
        (None, Some(b)) => ReplyTree::Error(
            if lossy_text(b).len() == 0 {
                "WASM function returned an error"@
            } else {
                lossy_text(b)
            },
        ),
        (None, None) => ReplyTree::Error("WASM function returned no result"@),
    }
}

/// What a guest answered.
pub fn guest_reply(e: &ExecutionResult) -> (r: Reply)
    ensures
        r@ == reply_of(e@),
{
    match (&e.output, &e.error) {
        (Some(b), _) => Reply::Value(read_lossy(b.as_slice())),
        (None, Some(b)) => {
            let message = read_lossy(b.as_slice());
            if message.as_str().is_empty() {
                Reply::Error("WASM function returned an error".to_owned())
            } else {
                Reply::Error(message)
            }
        },
        (None, None) => Reply::Error("WASM function returned no result".to_owned()),
    }
}

/// Why the value that a guest returned is no result.
#[derive(Debug, Clone, Copy, PartialEq, Eq, Structural)]
pub enum ResultFault {
    NotJson,
    NotAValue,
    Unresolved,
    TooLarge(usize, usize),
}

/// What is known of a returned value: whether it holds a commit timestamp that is still open, and
/// its size.
#[derive(Debug, Clone, Copy, PartialEq, Eq, Structural)]
pub struct ReturnedValue {
    pub is_pending: bool,
    pub size: usize,
}

/// Read the JSON that a guest returned.
pub fn parse_result(text: &str) -> (r: Result<Json, ResultFault>)
    ensures
        match json_of_text(text@) {
            Ok(t) => r matches Ok(j) && j.tree() == t && tree_wf(t),
            Err(_) => r matches Err(e) && e == ResultFault::NotJson,
        },
{
    match parse_json(text) {
        Ok(j) => Ok(j),
        Err(_) => Err(ResultFault::NotJson),
    }
}

/// What is wrong with a returned value, if anything is. `value` is missing where the JSON stands
/// for no value.
pub open spec fn result_fault(
    value: Option<ReturnedValue>,
    allow_unresolved_commit_ts: bool,
    limit: usize,
) -> Option<ResultFault> {
    match value {
        None => Some(ResultFault::NotAValue),
        Some(v) => if !allow_unresolved_commit_ts && v.is_pending {
            Some(ResultFault::Unresolved)
        } else if v.size > limit {
            Some(ResultFault::TooLarge(v.size, limit))
        } else {
            None
        },
    }
}

/// Check a returned value: it stands for a value, holds no commit timestamp that is still open
/// unless it may, and is not too large.
pub fn deserialize_result(
    value: Option<ReturnedValue>,
    allow_unresolved_commit_ts: bool,
    limit: usize,
) -> (r: Result<ReturnedValue, ResultFault>)
    ensures
        match result_fault(value, allow_unresolved_commit_ts, limit) {
            None => r matches Ok(v) && value == Some(v),
            Some(f) => r matches Err(e) && e == f,
        },
{
    match value {
        None => Err(ResultFault::NotAValue),
        Some(v) => if !allow_unresolved_commit_ts && v.is_pending {
            Err(ResultFault::Unresolved)
        } else if v.size > limit {
            Err(ResultFault::TooLarge(v.size, limit))
        } else {
            Ok(v)
        },
    }
}

/// A query or an action never returns a commit timestamp that is still open.
pub proof fn unresolved_is_refused(value: ReturnedValue, limit: usize)
    ensures
        value.is_pending ==> result_fault(Some(value), false, limit) == Some(
            ResultFault::Unresolved,
        ),
        result_fault(Some(value), false, limit) is None ==> !value.is_pending && value.size
            <= limit,
{
}

/// What is said of a fault.
pub open spec fn result_fault_text(f: ResultFault) -> Seq<char> {
    match f {
        ResultFault::NotJson => "Function return value is not valid JSON"@,
        ResultFault::NotAValue => "Function return value is not a valid Convex value"@,
        ResultFault::Unresolved =>
            "Function return value contains an unresolved commit timestamp"@,
        ResultFault::TooLarge(size, limit) => "Function return value is too large (actual: "@
            + decimal(size as nat) + ", limit: "@ + decimal(limit as nat) + ")"@,
    }
}

impl ResultFault {
    /// What is said of a fault.
    pub fn message(&self) -> (r: String)
        ensures
            r@ == result_fault_text(*self),
    {
        match self {
            ResultFault::NotJson => "Function return value is not valid JSON".to_owned(),
            ResultFault::NotAValue =>
                "Function return value is not a valid Convex value".to_owned(),
            ResultFault::Unresolved =>
                "Function return value contains an unresolved commit timestamp".to_owned(),
            ResultFault::TooLarge(size, limit) => {
                let a = concat(
                    "Function return value is too large (actual: ",
                    decimal_text(*size as u64).as_str(),
                );
                let b = concat(a.as_str(), ", limit: ");
                let c = concat(b.as_str(), decimal_text(*limit as u64).as_str());
                concat(c.as_str(), ")")
            },
        }
    }
}

/// The JSON that a guest returned, or what is said of why there is none.
pub open spec fn returned_json(e: ExecutionTree) -> Result<JsonTree, Seq<char>> {
    match reply_of(e) {
        ReplyTree::Error(message) => Err(message),
        ReplyTree::Value(text) => match json_of_text(text) {
            Ok(t) => Ok(t),
            Err(_) => Err(result_fault_text(ResultFault::NotJson)),
        },
    }
}

/// Read the JSON that a guest returned, or say why there is none.
pub fn read_returned(e: &ExecutionResult) -> (r: Result<Json, String>)
    ensures
        match returned_json(e@) {
            Ok(t) => r matches Ok(j) && j.tree() == t && tree_wf(t),
            Err(message) => r matches Err(m) && m@ == message,
        },
{
    match guest_reply(e) {
        Reply::Error(message) => Err(message),
        Reply::Value(text) => match parse_result(text.as_str()) {
            Ok(j) => Ok(j),
            Err(f) => Err(f.message()),
        },
    }
}

/// The packed text of a returned value, or what is said of what is wrong with it.
pub open spec fn packed_result(
    t: JsonTree,
    value: Option<ReturnedValue>,
    allow_unresolved_commit_ts: bool,
    limit: usize,
) -> Result<Seq<char>, Seq<char>> {
    match result_fault(value, allow_unresolved_commit_ts, limit) {
        None => Ok(text_of_json(canonical(t))),
        Some(f) => Err(result_fault_text(f)),
    }
}

/// Check a returned value and pack it as text, in its canonical form: with its keys in order and
/// its plain numbers as doubles. `value` is what is known of the value that the JSON
/// stands for, and is missing where it stands for none.
pub fn pack_returned(
    json: &Json,
    value: Option<ReturnedValue>,
    allow_unresolved_commit_ts: bool,
    limit: usize,
) -> (r: Result<String, String>)
    requires
        tree_wf(json.tree()),
    ensures
        match packed_result(json.tree(), value, allow_unresolved_commit_ts, limit) {
            Ok(text) => r matches Ok(s) && s@ == text,
            Err(message) => r matches Err(m) && m@ == message,
        },
{
    match deserialize_result(value, allow_unresolved_commit_ts, limit) {
        Ok(_) => Ok(print_json(&canonical_json(json))),
        Err(f) => Err(f.message()),
    }
}

/// The result of one execution of a function: the text of the value, or what is said of the error;
/// with the log lines, and what the function observed.
pub struct WasmUdfResult {
    pub result: Result<String, String>,
    pub log_lines: Vec<LogLine>,
    pub observed_rng: bool,
    pub observed_time: bool,
}

/// The result of an execution, given the packed text of the value that it returned, or what is
/// said of the error.
pub fn udf_result(execution: ExecutionResult, result: Result<String, String>) -> (r: WasmUdfResult)
    ensures
        r.result == result,
        log_trees(r.log_lines@) == execution@.log_lines,
        r.observed_rng == execution@.observed_rng,
        r.observed_time == execution@.observed_time,
{
    WasmUdfResult {
        result,
        log_lines: execution.log_lines,
        observed_rng: execution.observed_rng,
        observed_time: execution.observed_time,
    }
}

/// A returned value is accepted where its size is within the limit and it holds no open commit
/// timestamp, or may hold one; it is refused as unresolved where it holds one and may not; and
/// otherwise its size is what is wrong with it. What is no value is always refused.
pub proof fn values_are_refused_for_cause(value: ReturnedValue, allow: bool, limit: usize)
    ensures
        result_fault(Some(value), allow, limit) is None <==> value.size <= limit && (
        value.is_pending ==> allow),
        result_fault(Some(value), allow, limit) == Some(ResultFault::Unresolved)
            <==> value.is_pending && !allow,
        result_fault(Some(value), allow, limit) is Some && (value.is_pending ==> allow)
            ==> result_fault(Some(value), allow, limit) == Some(
            ResultFault::TooLarge(value.size, limit),
        ),
        result_fault(None, allow, limit) == Some(ResultFault::NotAValue),
{
}

/// Whether open commit timestamps are allowed makes no difference to a value that holds none, and
/// a value that is accepted under a limit is accepted under a higher one, and where more is
/// allowed.
pub proof fn acceptance_is_monotone(value: ReturnedValue, allow: bool, limit: usize, higher: usize)
    requires
        limit <= higher,
    ensures
        !value.is_pending ==> result_fault(Some(value), allow, limit) == result_fault(
            Some(value),
            !allow,
            limit,
        ),
        result_fault(Some(value), allow, limit) is None ==> result_fault(
            Some(value),
            allow,
            higher,
        ) is None,
        result_fault(Some(value), false, limit) is None ==> result_fault(
            Some(value),
            true,
            limit,
        ) is None,
{
}

/// What a function returned is handed on exactly where its value is accepted. What is handed on
/// does not depend on the limit or on what was allowed, and what is said of a refusal does not
/// depend on what was returned.
pub proof fn packing_follows_acceptance(
    t: JsonTree,
    other: JsonTree,
    value: Option<ReturnedValue>,
    allow: bool,
    limit: usize,
)
    ensures
        packed_result(t, value, allow, limit) is Ok <==> (value matches Some(v) && v.size <= limit
            && (v.is_pending ==> allow)),
        packed_result(t, value, allow, limit) matches Ok(text) ==> text == text_of_json(
            canonical(t),
        ),
        packed_result(t, value, allow, limit) matches Err(message) ==> packed_result(
            other,
            value,
            allow,
            limit,
        ) == Err::<Seq<char>, Seq<char>>(message),
{
}

/// Each stage that is done leads to the one after it, whatever the invocation is for: a module
/// with an initialization function is initialized, one without is not, and nothing else is left
/// out.
pub proof fn stages_follow_success(p: Purpose, has_initialize: bool)
    ensures
        stage_next(p, Stage::Instantiate, StageEvent::Instantiated { has_initialize })
            == NextTree::Go(
            if has_initialize {
                Stage::Initialize
            } else {
                Stage::Locate
            },
        ),
        stage_next(p, Stage::Initialize, StageEvent::Initialized) == NextTree::Go(Stage::Locate),
        stage_next(p, Stage::Locate, StageEvent::Located) == NextTree::Go(Stage::Call),
{
}

/// Whether a text ends with another.
pub open spec fn ends_with(s: Seq<char>, tail: Seq<char>) -> bool {
    tail.len() <= s.len() && s.skip(s.len() - tail.len()) == tail
}

/// A stage before the call that fails or takes too long ends the invocation, and what was said of
/// a failure is passed on. The call itself is always finished, and never fails the invocation.
pub proof fn failed_stages_end_the_invocation(p: Purpose, stage: Stage, event: StageEvent)
    requires
        event_fits(stage, event),
    ensures
        stage != Stage::Call && (event is TimedOut || event is Failed) ==> stage_next(
            p,
            stage,
            event,
        ) is Fail,
        stage != Stage::Call ==> (event matches StageEvent::Failed(e) ==> (stage_next(
            p,
            stage,
            event,
        ) matches NextTree::Fail(message) && ends_with(message, e@))),
        stage == Stage::Call ==> stage_next(p, stage, event) is Finish,
        stage_next(p, stage, event) is Fail ==> event is TimedOut || event is Failed,
{
    if let StageEvent::Failed(e) = event {
        if let NextTree::Fail(message) = stage_next(p, stage, event) {
            assert(message.skip(message.len() - e@.len()) =~= e@);
        }
    }
}

/// A trap that speaks of fuel is said to be the instruction budget, one that speaks of a memory
/// limit is said to be that, with what was said of it, and any other is passed on as it is.
pub proof fn traps_are_told_apart(message: Seq<char>)
    ensures
        trap_text(message) == message || ends_with(trap_text(message), message) || occurs(
            message,
            "all fuel consumed"@,
        ),
        !occurs(message, "all fuel consumed"@) && !occurs(message, "memory"@) ==> trap_text(message)
            == message,
        !occurs(message, "all fuel consumed"@) && !occurs(message, "limit"@) ==> trap_text(message)
            == message,
        !occurs(message, "all fuel consumed"@) && occurs(message, "memory"@) && occurs(
            message,
            "limit"@,
        ) ==> trap_text(message) == "WASM function exceeded the memory limit: "@ + message,
        occurs(message, "all fuel consumed"@) ==> trap_text(message)
            == "WASM function exceeded its instruction budget"@,
{
    let t = trap_text(message);
    if t.len() >= message.len() && !occurs(message, "all fuel consumed"@) {
        assert(t.skip(t.len() - message.len()) =~= message);
    }
}

/// A call gives its output exactly where it returns the status 0. Otherwise it gives an error and
/// no output: that of the guest where the guest returned, what the trap said where it trapped, and
/// the timeout, in seconds, where it took too long.
pub proof fn calls_succeed_by_status(host: HostTree, event: StageEvent, timeout_ms: u64)
    requires
        event_fits(Stage::Call, event),
    ensures
        event == StageEvent::Returned(0) ==> execution_of(host, event, timeout_ms).output
            == host.output && execution_of(host, event, timeout_ms).error is None,
        event != StageEvent::Returned(0) ==> execution_of(host, event, timeout_ms).output is None
            && execution_of(host, event, timeout_ms).error is Some,
        event is Returned && event != StageEvent::Returned(0) ==> (host.error matches Some(b)
            ==> execution_of(host, event, timeout_ms).error == Some(encode_utf8(lossy_text(b)))),
        event matches StageEvent::Failed(trap) ==> execution_of(host, event, timeout_ms).error
            == Some(encode_utf8(trap_text(trap@))),
        event is TimedOut ==> execution_of(host, event, timeout_ms).error == Some(
            encode_utf8(
                "WASM function exceeded the "@ + decimal((timeout_ms / 1000) as nat)
                    + " second timeout"@,
            ),
        ),
{
}

/// The functions of a module are listed exactly where the guest returned the status 0 and gave
/// output, and what is listed is that output.
pub proof fn analyses_give_the_output(host: HostTree, event: StageEvent, b: Seq<u8>)
    requires
        event_fits(Stage::Call, event),
    ensures
        analysis_of(host, event) == Ok::<Seq<u8>, Seq<char>>(b) <==> event == StageEvent::Returned(0)
            && host.output == Some(b),
        event matches StageEvent::Failed(trap) ==> analysis_of(host, event) == Err::<
            Seq<u8>,
            Seq<char>,
        >(trap@),
        event matches StageEvent::Returned(status) ==> status != 0 ==> (analysis_of(
            host,
            event,
        ) matches Err(message) && ends_with(message, integer_text(status as int))),
{
    if let StageEvent::Returned(status) = event {
        if status != 0 {
            if let Err(message) = analysis_of(host, event) {
                assert(message.skip(message.len() - integer_text(status as int).len())
                    =~= integer_text(status as int));
            }
        }
    }
}

/// A reply is a value exactly where there is output, whatever error stands beside it. An error is
/// never empty, and is what the guest said where it said something.
pub proof fn replies_say_something(e: ExecutionTree)
    ensures
        reply_of(e) is Value <==> e.output is Some,
        e.output matches Some(b) ==> reply_of(e) == ReplyTree::Value(lossy_text(b)),
        reply_of(e) matches ReplyTree::Error(message) ==> message.len() > 0,
        e.output is None ==> (e.error matches Some(b) ==> lossy_text(b).len() > 0 ==> reply_of(e)
            == ReplyTree::Error(lossy_text(b))),
        e.output is None && e.error is None ==> reply_of(e) == ReplyTree::Error(
            "WASM function returned no result"@,
        ),
{
    reveal_strlit("WASM function returned an error");
    reveal_strlit("WASM function returned no result");
}

/// What a function returned is read exactly where it gave output that is JSON, and what is read is
/// what that JSON says.
pub proof fn returned_json_is_the_output(e: ExecutionTree, t: JsonTree)
    ensures
        returned_json(e) == Ok::<JsonTree, Seq<char>>(t) <==> (e.output matches Some(b)
            && json_of_text(lossy_text(b)) == Ok::<JsonTree, Seq<char>>(t)),
        e.output is None ==> (returned_json(e) matches Err(message) && reply_of(e)
            == ReplyTree::Error(message)),
{
}

/// A time in milliseconds is the number of whole milliseconds in its nanoseconds, where that can be
/// held, and otherwise 0.
pub proof fn milliseconds_are_whole(nanos: nat, max: nat)
    ensures
        nanos < (max + 1) * 1_000_000 ==> millis(nanos, max) * 1_000_000 <= nanos < (millis(
            nanos,
            max,
        ) + 1) * 1_000_000,
        nanos >= (max + 1) * 1_000_000 ==> millis(nanos, max) == 0,
        millis(nanos, max) <= max,
{
    if nanos < (max + 1) * 1_000_000 {
        assert(nanos / 1_000_000 <= max) by (nonlinear_arith)
            requires
                nanos < (max + 1) * 1_000_000,
        ;
    } else {
        assert(nanos / 1_000_000 > max) by (nonlinear_arith)
            requires
                nanos >= (max + 1) * 1_000_000,
        ;
    }
}

/// A fresh invocation holds the input that it was given and nothing that a guest did, and may use
/// what its limits say: a single memory of at most that many bytes, that much call data, and that
/// much fuel. Its clocks all show one time, and both its sources of randomness start from one
/// seed.
pub proof fn fresh_invocations_obey_limits(
    i: Invocation,
    input: Seq<u8>,
    seed: Seq<u8>,
    guest_ms: i64,
    clock_ms: u64,
    limits: WasmLimits,
)
    requires
        is_fresh(i, input, seed, guest_ms, clock_ms, limits),
    ensures
        i.host@.input == input,
        i.host@.output is None && i.host@.error is None && i.host@.log_lines.len() == 0,
        !i.host@.observed_rng && !i.host@.observed_time,
        i.host@.unix_timestamp_ms == guest_ms,
        i.host@.rng == i.wasi_rng@ && i.host@.rng.seed == seed && i.host@.rng.word == 0,
        i.call_data@.len() == 0,
        i.call_data.max() == limits.max_call_data,
        limits.max_memory_bytes <= usize::MAX ==> i.store.memory_size == limits.max_memory_bytes,
        i.store.instances == 1 && i.store.memories == 1 && i.store.tables == 1,
        i.store.fuel == limits.fuel,
        i.store.fuel_yield_interval == 1_000_000,
        i.wall_clock.instant() == clock_ms * 1_000_000,
        clock_ms * 1_000_000 <= u64::MAX ==> i.monotonic_clock.instant()
            == i.wall_clock.instant(),
{
}

/// A number is written with a sign exactly where it is negative, and its digits are those of its
/// size, so no two numbers are written alike.
pub proof fn integers_are_written_apart(n: int, m: int)
    ensures
        n < 0 ==> integer_text(n) == seq!['-'] + integer_text(-n),
        n >= 0 ==> all_digits(integer_text(n)) && digits_value(integer_text(n)) == n,
        integer_text(n) == integer_text(m) ==> n == m,
{
    reveal_strlit("-");
    lemma_decimal_digits(n as nat);
    lemma_decimal_digits((-n) as nat);
    lemma_decimal_digits(m as nat);
    lemma_decimal_digits((-m) as nat);
    assert("-"@ =~= seq!['-']);
    if n < 0 {
        assert(integer_text(n)[0] == '-');
        assert(integer_text(n).skip(1) =~= decimal((-n) as nat));
    }
    if m < 0 {
        assert(integer_text(m)[0] == '-');
        assert(integer_text(m).skip(1) =~= decimal((-m) as nat));
    }
}

/// The input of a guest is an object that holds the name of the function as printed JSON, and then
/// the arguments as they were given.
pub proof fn inputs_carry_name_and_arguments(function_name: Seq<char>, args_json: Seq<char>)
    ensures
        ends_with(input_text(function_name, args_json), args_json + "}"@),
        begins_with(
            input_text(function_name, args_json),
            "{\""@ + "function"@ + "\": "@ + text_of_json(JsonTree::Text(function_name)) + ", \""@
                + "args"@ + "\": "@,
        ),
        input_text(function_name, args_json).len() == ("{\""@ + "function"@ + "\": "@
            + text_of_json(JsonTree::Text(function_name)) + ", \""@ + "args"@ + "\": "@).len()
            + args_json.len() + 1,
{
    reveal_strlit("}");
    let t = input_text(function_name, args_json);
    let tail = args_json + "}"@;
    let head = "{\""@ + "function"@ + "\": "@ + text_of_json(JsonTree::Text(function_name))
        + ", \""@ + "args"@ + "\": "@;
    assert(t =~= head + tail);
    assert(t.skip(t.len() - tail.len()) =~= tail);
    assert(t.take(head.len() as int) =~= head);
}

/// The check of a returned value gives it back unchanged exactly where it is there, is within the
/// limit, and holds no open commit timestamp or may hold one.
pub proof fn accepted_values_come_back(
    value: Option<ReturnedValue>,
    allow: bool,
    limit: usize,
    checked: Result<ReturnedValue, ResultFault>,
)
    requires
        call_ensures(deserialize_result, (value, allow, limit), checked),
    ensures
        checked is Ok <==> (value matches Some(v) && v.size <= limit && (v.is_pending ==> allow)),
        checked matches Ok(v) ==> value == Some(v),
        checked matches Err(f) ==> (f is NotAValue <==> value is None),
        checked matches Err(f) ==> (f is Unresolved <==> (value matches Some(v) && v.is_pending
            && !allow)),
        checked matches Err(f) ==> !(f is NotJson),
{
}

/// What a function returned is packed exactly where its value is accepted, and then as its
/// canonical form.
pub proof fn accepted_values_are_packed(
    json: Json,
    value: Option<ReturnedValue>,
    allow: bool,
    limit: usize,
    packed: Result<String, String>,
)
    requires
        call_ensures(pack_returned, (&json, value, allow, limit), packed),
    ensures
        packed is Ok <==> (value matches Some(v) && v.size <= limit && (v.is_pending ==> allow)),
        packed matches Ok(s) ==> s@ == text_of_json(canonical(json.tree())),
        value is None ==> (packed matches Err(e) && e@
            == "Function return value is not a valid Convex value"@),
        value matches Some(v) ==> v.is_pending && !allow ==> (packed matches Err(e) && e@
            == "Function return value contains an unresolved commit timestamp"@),
        value matches Some(v) ==> !v.is_pending && v.size > limit ==> (packed matches Err(e) && e@
            == "Function return value is too large (actual: "@ + decimal(v.size as nat)
            + ", limit: "@ + decimal(limit as nat) + ")"@),
{
}

/// The clocks of a guest and the host functions show the same time, as long as both can hold it.
pub proof fn clocks_agree(nanos: u128, clock: u64, guest: i64)
    requires
        call_ensures(clock_millis, (nanos,), clock),
        call_ensures(guest_millis, (nanos,), guest),
    ensures
        nanos < 9_223_372_036_854_775_808_000_000 ==> clock == guest && clock * 1_000_000 <= nanos
            < (clock + 1) * 1_000_000,
{
}

/// What comes after a stage, as the function says it: on where the stage was done, and an end where
/// it failed or took too long before the call.
pub proof fn stages_are_taken_in_turn(p: Purpose, stage: Stage, event: StageEvent, next: Next)
    requires
        event_fits(stage, event),
        call_ensures(next_stage, (p, stage, &event), next),
    ensures
        next is Fail <==> stage != Stage::Call && (event is TimedOut || event is Failed),
        next is Finish <==> stage == Stage::Call,
        next matches Next::Go(s) ==> (s == Stage::Initialize <==> event
            == (StageEvent::Instantiated { has_initialize: true })),
        next matches Next::Go(s) ==> (s == Stage::Call <==> event is Located),
{
}

/// What a guest that was called to run leaves behind: its output where it returned 0, and an error
/// where it did not, with the lines and the observations in either case.
pub proof fn executions_are_finished(
    host: HostContext,
    event: StageEvent,
    limits: WasmLimits,
    result: ExecutionResult,
)
    requires
        event_fits(Stage::Call, event),
        call_ensures(finish_execution, (host, &event, &limits), result),
    ensures
        event == StageEvent::Returned(0) ==> result@.output == host@.output && result.error is None,
        event != StageEvent::Returned(0) ==> result.output is None && result.error is Some,
        result@.log_lines == host@.log_lines,
        result.observed_rng == host@.observed_rng,
        result.observed_time == host@.observed_time,
{
    calls_succeed_by_status(host@, event, limits.timeout_ms);
}

/// The functions of a module are listed where the guest returned 0 and gave output, and that output
/// is what is read.
pub proof fn analyses_are_finished(
    host: HostContext,
    event: StageEvent,
    listed: Result<Vec<u8>, String>,
)
    requires
        event_fits(Stage::Call, event),
        call_ensures(finish_analysis, (host, &event), listed),
    ensures
        listed is Ok <==> event == StageEvent::Returned(0) && host@.output is Some,
        listed matches Ok(b) ==> host@.output == Some(b@),
{
}

/// The reply of a guest is its output where it gave one, and otherwise an error that says something.
pub proof fn guests_reply(e: ExecutionResult, reply: Reply, read: Result<Json, String>)
    requires
        call_ensures(guest_reply, (&e,), reply),
        call_ensures(read_returned, (&e,), read),
    ensures
        reply is Value <==> e@.output is Some,
        reply matches Reply::Error(message) ==> message@.len() > 0 && (read matches Err(m) && m@
            == message@),
        read matches Ok(j) ==> (reply matches Reply::Value(text) && json_of_text(text@) == Ok::<
            JsonTree,
            Seq<char>,
        >(j.tree())),
{
    replies_say_something(e@);
}

/// What comes out of a run holds the result that it was given, and the lines and observations of the
/// execution.
pub proof fn results_keep_the_execution(
    execution: ExecutionResult,
    result: Result<String, String>,
    out: WasmUdfResult,
)
    requires
        call_ensures(udf_result, (execution, result), out),
    ensures
        out.result == result,
        log_trees(out.log_lines@) == log_trees(execution.log_lines@),
        out.observed_rng == execution.observed_rng,
        out.observed_time == execution.observed_time,
{
}

/// An execution and an analysis of one module start alike, save that the analysis has no input and
/// shows the guest the epoch.
pub proof fn invocations_start_alike(
    input: Vec<u8>,
    seed: [u8; 32],
    unix_nanos: u128,
    limits: WasmLimits,
    execution: Invocation,
    analysis: Invocation,
)
    requires
        call_ensures(set_up_execution, (input, seed, unix_nanos, &limits), execution),
        call_ensures(set_up_analysis, (seed, unix_nanos, &limits), analysis),
    ensures
        execution.host@.input == input@,
        analysis.host@.input.len() == 0,
        analysis.host@.unix_timestamp_ms == 0,
        unix_nanos < 9_223_372_036_854_775_808_000_000 ==> execution.host@.unix_timestamp_ms
            * 1_000_000 <= unix_nanos < (execution.host@.unix_timestamp_ms + 1) * 1_000_000,
        execution.host@.rng == analysis.host@.rng && execution.host@.rng.seed == seed@,
        execution.wall_clock.instant() == analysis.wall_clock.instant(),
        execution.store == analysis.store,
        execution.store.fuel == limits.fuel,
        execution.call_data.max() == analysis.call_data.max() && execution.call_data.max()
            == limits.max_call_data,
{
}

/// A function is run through one entry point and the functions are listed through another; where
/// the one that is needed is not there, it is named, with what was said of it.
pub proof fn missing_entry_points_fail_the_invocation(p: Purpose, e: String)
    ensures
        stage_next(p, Stage::Locate, StageEvent::Failed(e)) == NextTree::Fail(
            "Missing "@ + (if p == Purpose::Execute {
                "__convex_run"@
            } else {
                "__convex_functions"@
            }) + " export: "@ + e@,
        ),
{
}

/// What is no JSON is refused as such, and what is JSON is read.
pub proof fn returned_texts_are_parsed(text: &str, parsed: Result<Json, ResultFault>, message: String)
    requires
        call_ensures(parse_result, (text,), parsed),
        parsed is Err ==> call_ensures(ResultFault::message, (&parsed->Err_0,), message),
    ensures
        parsed is Ok <==> json_of_text(text@) is Ok,
        parsed matches Ok(j) ==> json_of_text(text@) == Ok::<JsonTree, Seq<char>>(j.tree()),
        parsed is Err ==> message@ == "Function return value is not valid JSON"@,
{
}

} // verus!
