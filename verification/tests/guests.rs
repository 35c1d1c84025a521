use std::time::Duration;

use convex_backend::abi::{
    CALL_DATA_ALLOC, CALL_DATA_LOAD, ERROR_SET, HOST_FN_MODULE, INPUT_LENGTH, INPUT_LOAD, LOG,
    NOW_MS, OUTPUT_SET, RANDOM_BYTES,
};
use convex_backend::call_data::CallData;
use convex_backend::engine::{
    compile_binary, declared_memories, describe_module, engine_settings, CompileAction,
    CompileError, CompileOutcome, WasmRunner, MAX_CONCURRENT_EXECUTIONS_PER_ENV,
};
use convex_backend::guest::GuestFault;
use convex_backend::host::{call_data_load, HostContext};
use convex_backend::invocation::{
    finish_analysis, finish_execution, guest_reply, input_bytes, next_stage, set_up_analysis,
    set_up_execution, ExecutionResult, Next, Purpose, Reply, Stage, StageEvent, WasmInput,
};
use convex_backend::limits::WasmLimits;
use convex_backend::sections::read_declared_maxima;
use convex_backend::validation::{validate_module, ModuleFault};
use sha2::Digest;
use wasmtime::{Caller, Config, Engine, Extern, Linker, Module, Store};

/// What a store holds for a guest.
struct Guest {
    host: HostContext,
    call_data: CallData,
}

fn fault(f: GuestFault) -> wasmtime::Error {
    wasmtime::Error::msg(f.message())
}

/// Calls `f` with the memory of a guest, where it has one, and the host's side of it.
fn with_memory<R>(
    caller: &mut Caller<'_, Guest>,
    f: impl FnOnce(Option<&mut [u8]>, &mut Guest) -> R,
) -> R {
    match caller.get_export("memory").and_then(Extern::into_memory) {
        Some(memory) => {
            let (bytes, guest) = memory.data_and_store_mut(&mut *caller);
            f(Some(bytes), guest)
        }
        None => f(None, caller.data_mut()),
    }
}

fn shared(memory: Option<&mut [u8]>) -> Option<&[u8]> {
    memory.map(|m| &*m)
}

/// An engine whose memories reserve little address space.
fn small_engine() -> Engine {
    let mut config = Config::new();
    config.consume_fuel(true);
    config.memory_reservation(1 << 20);
    config.memory_reservation_for_growth(1 << 20);
    config.memory_guard_size(0);
    config.gc_heap_reservation(1 << 20);
    config.gc_heap_reservation_for_growth(1 << 20);
    Engine::new(&config).unwrap()
}

fn linker(engine: &Engine) -> Linker<Guest> {
    let mut linker = Linker::new(engine);
    let env = HOST_FN_MODULE;
    linker
        .func_wrap(env, INPUT_LENGTH, |caller: Caller<'_, Guest>| -> i32 {
            caller.data().host.input_length()
        })
        .unwrap();
    linker
        .func_wrap(
            env,
            INPUT_LOAD,
            |mut c: Caller<'_, Guest>, offset: i32, dest: i32, len: i32| {
                with_memory(&mut c, |m, g| g.host.input_load(m, offset, dest, len)).map_err(fault)
            },
        )
        .unwrap();
    linker
        .func_wrap(env, CALL_DATA_ALLOC, |mut c: Caller<'_, Guest>, len: i32| -> i32 {
            c.data_mut().call_data.reserve(len)
        })
        .unwrap();
    linker
        .func_wrap(
            env,
            CALL_DATA_LOAD,
            |mut c: Caller<'_, Guest>, offset: i32, dest: i32, len: i32| {
                with_memory(&mut c, |m, g| call_data_load(&g.call_data, m, offset, dest, len))
                    .map_err(fault)
            },
        )
        .unwrap();
    linker
        .func_wrap(env, OUTPUT_SET, |mut c: Caller<'_, Guest>, ptr: i32, len: i32| {
            with_memory(&mut c, |m, g| g.host.output_set(shared(m), ptr, len)).map_err(fault)
        })
        .unwrap();
    linker
        .func_wrap(env, ERROR_SET, |mut c: Caller<'_, Guest>, ptr: i32, len: i32| {
            with_memory(&mut c, |m, g| g.host.error_set(shared(m), ptr, len)).map_err(fault)
        })
        .unwrap();
    linker
        .func_wrap(env, LOG, |mut c: Caller<'_, Guest>, ptr: i32, len: i32| {
            with_memory(&mut c, |m, g| g.host.log_from_guest(shared(m), ptr, len))
                .map(|_| ())
                .map_err(fault)
        })
        .unwrap();
    linker
        .func_wrap(env, NOW_MS, |mut c: Caller<'_, Guest>| -> i64 { c.data_mut().host.now_ms() })
        .unwrap();
    linker
        .func_wrap(env, RANDOM_BYTES, |mut c: Caller<'_, Guest>, dest: i32, len: i32| {
            with_memory(&mut c, |m, g| g.host.random_bytes(m, dest, len)).map_err(fault)
        })
        .unwrap();
    linker
}

/// Goes through the steps of getting a module.
fn get_module(runner: &mut WasmRunner, binary: &[u8], limits: &WasmLimits) -> Result<Module, CompileError> {
    let mut action = runner.get_or_compile_module(binary, limits);
    loop {
        action = match action {
            CompileAction::Ready(key) => return Ok(runner.cached_module(&key).unwrap().clone()),
            CompileAction::Fail(e) => return Err(e),
            CompileAction::AcquirePermit(key) => runner.permit_acquired(key, true),
            CompileAction::Compile(key) => {
                let outcome = match compile_binary(runner.engine(), binary) {
                    Ok(m) => CompileOutcome::Compiled(m),
                    Err(e) => CompileOutcome::Failed(e),
                };
                runner.module_compiled(key, outcome, binary, limits)
            }
            CompileAction::Deserialize { key, has_permit, .. } => {
                runner.module_restored(key, None, has_permit, binary, limits)
            }
        }
    }
}

const NANOS: u128 = 1_700_000_000_000_000_000;

/// Goes through the stages of an invocation; the host's side of it comes back with the last event.
fn invoke(
    engine: &Engine,
    module: &Module,
    purpose: Purpose,
    input: Vec<u8>,
    limits: &WasmLimits,
) -> Result<(HostContext, StageEvent), String> {
    let runtime = tokio::runtime::Builder::new_current_thread().enable_time().build().unwrap();
    runtime.block_on(async {
        let setup = match purpose {
            Purpose::Execute => set_up_execution(input, [7; 32], NANOS, limits),
            Purpose::Analyze => set_up_analysis([7; 32], NANOS, limits),
        };
        let guest = Guest { host: setup.host, call_data: setup.call_data };
        let mut store = Store::new(engine, guest);
        store.set_fuel(setup.store.fuel).unwrap();
        store.fuel_async_yield_interval(Some(setup.store.fuel_yield_interval)).unwrap();
        let linker = linker(engine);
        let timeout = Duration::from_millis(limits.timeout_ms);
        let mut stage = Stage::Instantiate;
        let mut instance = None;
        loop {
            let event = match stage {
                Stage::Instantiate => {
                    let started = linker.instantiate_async(&mut store, module);
                    match tokio::time::timeout(timeout, started).await {
                        Err(_) => StageEvent::TimedOut,
                        Ok(Err(e)) => StageEvent::Failed(e.to_string()),
                        Ok(Ok(i)) => {
                            instance = Some(i);
                            let f = i.get_typed_func::<(), ()>(&mut store, "_initialize");
                            StageEvent::Instantiated { has_initialize: f.is_ok() }
                        }
                    }
                }
                Stage::Initialize => {
                    let f = instance
                        .unwrap()
                        .get_typed_func::<(), ()>(&mut store, "_initialize")
                        .unwrap();
                    match f.call_async(&mut store, ()).await {
                        Ok(()) => StageEvent::Initialized,
                        Err(e) => StageEvent::Failed(e.to_string()),
                    }
                }
                Stage::Locate => StageEvent::Located,
                Stage::Call => {
                    let name = match purpose {
                        Purpose::Execute => "__convex_run",
                        Purpose::Analyze => "__convex_functions",
                    };
                    let f =
                        instance.unwrap().get_typed_func::<(), i32>(&mut store, name).unwrap();
                    match tokio::time::timeout(timeout, f.call_async(&mut store, ())).await {
                        Err(_) => StageEvent::TimedOut,
                        Ok(Err(trap)) => StageEvent::Failed(format!("{trap:#}")),
                        Ok(Ok(status)) => StageEvent::Returned(status),
                    }
                }
            };
            match next_stage(purpose, stage, &event) {
                Next::Go(next) => stage = next,
                Next::Fail(e) => return Err(e),
                Next::Finish => return Ok((store.into_data().host, event)),
            }
        }
    })
}

fn run(wat: &str, function: &str, args: &str, limits: &WasmLimits) -> Result<ExecutionResult, String> {
    let engine = small_engine();
    let module = compile_binary(&engine, wat.as_bytes())?;
    validate_module(&describe_module(&module, wat.as_bytes()), limits).map_err(|f| f.message())?;
    let input = input_bytes(&WasmInput {
        function_name: function.to_string(),
        args_json: args.to_string(),
    });
    let (host, event) = invoke(&engine, &module, Purpose::Execute, input, limits)?;
    Ok(finish_execution(host, &event, limits))
}

fn error_of(result: ExecutionResult) -> String {
    match guest_reply(&result) {
        Reply::Error(e) => e,
        Reply::Value(v) => panic!("{v}"),
    }
}

#[test]
fn test_module_validation_rejects_bad_modules() {
    let mut runner = WasmRunner::new().unwrap();
    let limits = WasmLimits::default();
    assert!(get_module(&mut runner, b"not wasm", &limits).is_err());

    let mk_module = |imports: &str| {
        format!(
            r#"
(module
  {imports}
  (memory (export "memory") 1)
  (func (export "__convex_run") (result i32)
    i32.const 0)
  (func (export "__convex_functions") (result i32)
    i32.const 0))
"#,
        )
    };
    let bad_wasi = mk_module(
        r#"(import "wasi_snapshot_preview1" "not_a_wasi_function" (func $x (result i32)))"#,
    );
    let err = get_module(&mut runner, bad_wasi.as_bytes(), &limits)
        .expect_err("unknown WASI import should be rejected")
        .message();
    assert!(err.contains("outside the WASI preview 1 surface"), "{err:#}");
    let bad_env = mk_module(r#"(import "env" "not_a_host_function" (func $x (result i32)))"#);
    let err = get_module(&mut runner, bad_env.as_bytes(), &limits)
        .expect_err("unknown env import should be rejected")
        .message();
    assert!(err.contains("outside the allowed host function surface"), "{err:#}");
    let bad_module = mk_module(r#"(import "some_other_module" "foo" (func $x (result i32)))"#);
    let err = get_module(&mut runner, bad_module.as_bytes(), &limits)
        .expect_err("foreign module import should be rejected")
        .message();
    assert!(err.contains("outside the allowed sandbox surface"), "{err:#}");
    assert!(get_module(&mut runner, mk_module("").as_bytes(), &limits).is_ok());
}

#[test]
fn test_huge_guest_buffers_are_rejected() {
    let limits = WasmLimits::default();
    let huge_output_set = r#"
(module
  (import "env" "__convex_output_set" (func $output_set (param i32 i32)))
  (memory (export "memory") 1)
  (func (export "__convex_run") (result i32)
    i32.const 0
    i32.const 2147483647
    call $output_set
    i32.const 0)
  (func (export "__convex_functions") (result i32)
    i32.const 0))
"#;
    let message = error_of(run(huge_output_set, "echo", "[]", &limits).unwrap());
    assert!(message.contains("out of bounds"), "{message}");

    let huge_random_bytes = r#"
(module
  (import "env" "__convex_random_bytes" (func $random_bytes (param i32 i32)))
  (memory (export "memory") 1)
  (func (export "__convex_run") (result i32)
    i32.const 0
    i32.const 2147483647
    call $random_bytes
    i32.const 0)
  (func (export "__convex_functions") (result i32)
    i32.const 0))
"#;
    let message = error_of(run(huge_random_bytes, "echo", "[]", &limits).unwrap());
    assert!(message.contains("out of bounds"), "{message}");
}

#[test]
fn test_instantiation_timeout() {
    let spinning_start = r#"
(module
  (memory (export "memory") 1)
  (start $start)
  (func $start
    (loop $spin
      br $spin))
  (func (export "__convex_run") (result i32)
    i32.const 0)
  (func (export "__convex_functions") (result i32)
    i32.const 0))
"#;
    let limits = WasmLimits { timeout_ms: 500, ..WasmLimits::default() };
    let message = match run(spinning_start, "echo", "[]", &limits) {
        Ok(_) => panic!("blocking start function should time out"),
        Err(e) => e,
    };
    assert!(message.contains("Timed out instantiating"), "{message}");
}

const ECHO: &str = r#"
(module
  (import "env" "__convex_input_length" (func $input_length (result i32)))
  (import "env" "__convex_input_load" (func $input_load (param i32 i32 i32)))
  (import "env" "__convex_output_set" (func $output_set (param i32 i32)))
  (import "env" "__convex_log" (func $log (param i32 i32)))
  (memory (export "memory") 1)
  (data (i32.const 0) "[]")
  (func (export "__convex_run") (result i32)
    (call $input_load (i32.const 0) (i32.const 100) (call $input_length))
    (call $log (i32.const 100) (call $input_length))
    (call $output_set (i32.const 100) (call $input_length))
    i32.const 0)
  (func (export "__convex_functions") (result i32)
    (call $output_set (i32.const 0) (i32.const 2))
    i32.const 0))
"#;

#[test]
fn guests_read_their_input_and_set_their_output() {
    let limits = WasmLimits::default();
    let result = run(ECHO, "echo \"x\"", "[1, \"a\"]", &limits).unwrap();
    let input = "{\"function\": \"echo \\\"x\\\"\", \"args\": [1, \"a\"]}";
    assert_eq!(result.log_lines.len(), 1);
    assert_eq!(result.log_lines[0].message, input);
    assert_eq!(result.log_lines[0].timestamp_ms, 1_700_000_000_000);
    assert!(!result.observed_rng && !result.observed_time);
    match guest_reply(&result) {
        Reply::Value(v) => assert_eq!(v, input),
        Reply::Error(e) => panic!("{e}"),
    }
}

#[test]
fn guests_list_their_functions() {
    let limits = WasmLimits::default();
    let engine = small_engine();
    let module = compile_binary(&engine, ECHO.as_bytes()).unwrap();
    let (host, event) = invoke(&engine, &module, Purpose::Analyze, vec![], &limits).unwrap();
    assert_eq!(finish_analysis(host, &event).unwrap(), b"[]".to_vec());
}

#[test]
fn guests_see_virtual_time_and_seeded_bytes() {
    let wat = r#"
(module
  (import "env" "__convex_now_ms" (func $now (result i64)))
  (import "env" "__convex_random_bytes" (func $random (param i32 i32)))
  (import "env" "__convex_output_set" (func $output_set (param i32 i32)))
  (memory (export "memory") 1)
  (func (export "__convex_run") (result i32)
    (i64.store (i32.const 0) (call $now))
    (call $random (i32.const 8) (i32.const 5))
    (call $random (i32.const 13) (i32.const 7))
    (call $output_set (i32.const 0) (i32.const 20))
    i32.const 0)
  (func (export "__convex_functions") (result i32)
    i32.const 0))
"#;
    let limits = WasmLimits::default();
    let result = run(wat, "f", "[]", &limits).unwrap();
    assert!(result.observed_rng && result.observed_time);
    let output = result.output.unwrap();
    assert_eq!(output[..8], 1_700_000_000_000u64.to_le_bytes());
    let mut expected = [0u8; 20];
    expected[..8].copy_from_slice(&output[..8]);
    let mut rng: rand_chacha::ChaCha12Rng = rand_core::SeedableRng::from_seed([7u8; 32]);
    rand_core::Rng::fill_bytes(&mut rng, &mut expected[8..13]);
    rand_core::Rng::fill_bytes(&mut rng, &mut expected[13..20]);
    assert_eq!(output, expected);
    let again = run(wat, "f", "[]", &limits).unwrap();
    assert_eq!(again.output.unwrap(), expected);
}

#[test]
fn guests_report_errors() {
    let wat = |body: &str| {
        format!(
            r#"
(module
  (import "env" "__convex_error_set" (func $error_set (param i32 i32)))
  (memory (export "memory") 1)
  (data (i32.const 0) "went wrong")
  (func (export "__convex_run") (result i32)
    {body})
  (func (export "__convex_functions") (result i32)
    i32.const 0))
"#
        )
    };
    let limits = WasmLimits::default();
    let said = wat("(call $error_set (i32.const 0) (i32.const 10)) (i32.const 1)");
    assert_eq!(error_of(run(&said, "f", "[]", &limits).unwrap()), "went wrong");
    let silent = wat("(i32.const 1)");
    assert_eq!(
        error_of(run(&silent, "f", "[]", &limits).unwrap()),
        "WASM function returned an error"
    );
    let nothing = wat("(i32.const 0)");
    assert_eq!(
        error_of(run(&nothing, "f", "[]", &limits).unwrap()),
        "WASM function returned no result"
    );
    let spin = wat("(loop $l (br $l)) (i32.const 0)");
    let little = WasmLimits { fuel: 10_000, ..WasmLimits::default() };
    assert_eq!(
        error_of(run(&spin, "f", "[]", &little).unwrap()),
        "WASM function exceeded its instruction budget"
    );
    let short = WasmLimits { timeout_ms: 50, ..WasmLimits::default() };
    assert_eq!(
        error_of(run(&spin, "f", "[]", &short).unwrap()),
        "WASM function exceeded the 0 second timeout"
    );
}

#[test]
fn guests_use_call_data() {
    let wat = r#"
(module
  (import "env" "__convex_alloc" (func $alloc (param i32) (result i32)))
  (import "env" "__convex_call_data_load" (func $load (param i32 i32 i32)))
  (import "env" "__convex_output_set" (func $output_set (param i32 i32)))
  (memory (export "memory") 1)
  (data (i32.const 0) "xxxxxxxx")
  (func (export "__convex_run") (result i32)
    (drop (call $alloc (i32.const 3)))
    (call $load (i32.const 1) (i32.const 2) (i32.const 2))
    (call $output_set (i32.const 0) (i32.const 6))
    (call $alloc (i32.const -1)) (i32.const 1) i32.add)
  (func (export "__convex_functions") (result i32)
    i32.const 0))
"#;
    let result = run(wat, "f", "[]", &WasmLimits::default()).unwrap();
    assert_eq!(result.output.unwrap(), b"xx\0\0xx".to_vec());
}

#[test]
fn modules_are_kept_under_the_digest_of_their_binary() {
    let limits = WasmLimits::default();
    let mut runner = WasmRunner::new().unwrap();
    let key: [u8; 32] = sha2::Sha256::digest(ECHO.as_bytes()).into();
    assert!(runner.cached_module(&key).is_none());
    assert!(matches!(
        runner.get_or_compile_module(ECHO.as_bytes(), &limits),
        CompileAction::AcquirePermit(k) if k == key
    ));
    let module = get_module(&mut runner, ECHO.as_bytes(), &limits).unwrap();
    assert!(matches!(
        runner.get_or_compile_module(ECHO.as_bytes(), &limits),
        CompileAction::Ready(k) if k == key
    ));
    let bytes = runner.get_serialized(&key).unwrap();
    assert_eq!(bytes, WasmRunner::serialize_module(&module).unwrap());

    let mut warm = WasmRunner::new().unwrap();
    warm.cache_serialized(key, bytes.clone());
    match warm.get_or_compile_module(ECHO.as_bytes(), &limits) {
        CompileAction::Deserialize { key: k, bytes: b, has_permit } => {
            assert_eq!(k, key);
            assert_eq!(b, bytes);
            assert!(!has_permit);
        }
        _ => panic!("the bytes are kept"),
    }
    assert!(matches!(
        warm.module_restored(key, None, true, ECHO.as_bytes(), &limits),
        CompileAction::Compile(k) if k == key
    ));
    assert!(matches!(
        warm.module_restored(key, Some(module), false, ECHO.as_bytes(), &limits),
        CompileAction::Ready(k) if k == key
    ));
    assert!(warm.cached_module(&key).is_some());
}

#[test]
fn modules_that_cannot_be_had_are_reported() {
    let mut runner = WasmRunner::new().unwrap();
    let limits = WasmLimits { max_module_size: 10, ..WasmLimits::default() };
    let message = get_module(&mut runner, &[0; 11], &limits).unwrap_err().message();
    assert_eq!(message, "WASM module is 11 bytes, exceeding the limit of 10 bytes");
    let fail = |action: CompileAction| match action {
        CompileAction::Fail(e) => e.message(),
        _ => panic!("it fails"),
    };
    let key = [0u8; 32];
    assert_eq!(fail(runner.permit_acquired(key, false)), "WASM compilation semaphore closed");
    assert_eq!(
        fail(runner.module_compiled(key, CompileOutcome::TimedOut, &[], &limits)),
        "Timed out compiling WASM module"
    );
    assert_eq!(
        fail(runner.module_compiled(key, CompileOutcome::Lost("gone".to_string()), &[], &limits)),
        "gone"
    );
    assert_eq!(
        fail(runner.module_compiled(key, CompileOutcome::Failed("bad".to_string()), &[], &limits)),
        "Failed to compile WASM module (was it built with the convex_sdk?): bad"
    );
}

fn fault_of(wat: &str, limits: &WasmLimits) -> ModuleFault {
    let mut runner = WasmRunner::new().unwrap();
    match get_module(&mut runner, wat.as_bytes(), limits) {
        Err(CompileError::Invalid(f)) => f,
        Err(e) => panic!("{e:?}"),
        Ok(_) => panic!("the module passes"),
    }
}

#[test]
fn entry_points_and_memories_are_checked() {
    let limits = WasmLimits::default();
    let run = r#"(func (export "__convex_run") (result i32) i32.const 0)"#;
    let functions = r#"(func (export "__convex_functions") (result i32) i32.const 0)"#;
    let missing = fault_of(&format!("(module {functions})"), &limits);
    assert_eq!(
        missing.message(),
        "WASM module is missing the __convex_run export; was it built with convex_sdk?"
    );
    assert_eq!(
        fault_of(&format!("(module {run})"), &limits).message(),
        "WASM module is missing the __convex_functions export; was it built with convex_sdk?"
    );
    let wrong = r#"(func (export "__convex_run") (param i64 i32) (result i64) i64.const 0)"#;
    assert_eq!(
        fault_of(&format!("(module {wrong} {functions})"), &limits).message(),
        "The __convex_run export must have signature () -> i32, found Some([i64, i32]) -> \
         Some([i64])"
    );
    let global = r#"(global (export "__convex_run") i32 (i32.const 0))"#;
    assert_eq!(
        fault_of(&format!("(module {global} {functions})"), &limits).message(),
        "The __convex_run export must have signature () -> i32, found None -> None"
    );
    let memory = r#"(memory (export "memory") 1 5000)"#;
    assert_eq!(
        fault_of(&format!("(module {run} {functions} {memory})"), &limits).message(),
        "WASM module declares 327680000 bytes of memory, exceeding the limit of 268435456 bytes"
    );
}

#[test]
fn memories_that_are_not_exported_are_checked() {
    let limits = WasmLimits::default();
    let entries = r#"
  (func (export "__convex_run") (result i32) i32.const 0)
  (func (export "__convex_functions") (result i32) i32.const 0)"#;
    let hidden = format!("(module (memory 1 4097) {entries})");
    assert_eq!(
        fault_of(&hidden, &limits).message(),
        "WASM module declares 268500992 bytes of memory, exceeding the limit of 268435456 bytes"
    );
    let mut runner = WasmRunner::new().unwrap();
    let fits = format!("(module (memory 1 4096) {entries})");
    assert!(get_module(&mut runner, fits.as_bytes(), &limits).is_ok());
    let open = format!("(module (memory 1) {entries})");
    assert!(get_module(&mut runner, open.as_bytes(), &limits).is_ok());

    let mut restored = WasmRunner::new().unwrap();
    let module = compile_binary(restored.engine(), hidden.as_bytes()).unwrap();
    assert!(matches!(
        restored.module_restored([0; 32], Some(module), true, hidden.as_bytes(), &limits),
        CompileAction::Compile(_)
    ));
}

#[test]
fn signatures_are_checked_before_imports() {
    let limits = WasmLimits::default();
    let wat = r#"
(module
  (import "some_other_module" "foo" (func))
  (memory (export "memory") 1 5000)
  (func (export "__convex_run") (result i64) i64.const 0)
  (func (export "__convex_functions") (result i32) i32.const 0))
"#;
    let message = fault_of(wat, &limits).message();
    assert!(message.contains("must have signature () -> i32"), "{message}");
    let right = wat.replace("(result i64) i64.const 0", "(result i32) i32.const 0");
    let message = fault_of(&right, &limits).message();
    assert!(message.contains("outside the allowed sandbox surface"), "{message}");
}

#[test]
fn memory_sections_are_read() {
    let header = b"\0asm\x01\0\0\0";
    let with = |rest: &[u8]| [&header[..], rest].concat();
    assert_eq!(read_declared_maxima(&with(&[])), Some(vec![]));
    assert_eq!(read_declared_maxima(b"\0asm\x02\0\0\0"), None);
    // A custom section, then a memory of one page that may grow to 4097.
    let binary = with(&[0, 2, 1, b'x', 5, 5, 1, 1, 1, 0x81, 0x20]);
    assert_eq!(read_declared_maxima(&binary), Some(vec![Some(4097)]));
    assert_eq!(declared_memories(&binary), vec![Some(4097)]);
    // Two memories, of which the second counts in 64 bits.
    let binary = with(&[5, 13, 2, 0, 1, 5, 0, 0xff, 0xff, 0xff, 0xff, 0xff, 0xff, 0xff, 0x7f]);
    assert_eq!(read_declared_maxima(&binary), Some(vec![None, Some((1 << 56) - 1)]));
    let binary = with(&[5, 14, 2, 0, 1, 5, 0, 0x80, 0x80, 0x80, 0x80, 0x80, 0x80, 0x80, 0x80, 1]);
    assert_eq!(read_declared_maxima(&binary), Some(vec![None, Some(1 << 56)]));
    // A section that is longer than the binary, and a number that is too large.
    assert_eq!(read_declared_maxima(&with(&[5, 9, 1])), None);
    assert_eq!(read_declared_maxima(&with(&[0, 0xff, 0xff, 0xff, 0xff, 0x1f])), None);
    let text = "(module (memory 1 7) (memory 2) (memory i64 0 9))";
    assert_eq!(declared_memories(text.as_bytes()), vec![Some(7), None, Some(9)]);
    assert!(declared_memories(b"not wasm").is_empty());
}

#[test]
fn modules_are_described() {
    let runner = WasmRunner::new().unwrap();
    let module = compile_binary(runner.engine(), ECHO.as_bytes()).unwrap();
    let info = describe_module(&module, ECHO.as_bytes());
    let exports: Vec<&str> = info.exports.iter().map(|e| e.name.as_str()).collect();
    assert_eq!(exports, vec!["memory", "__convex_run", "__convex_functions"]);
    assert_eq!(info.imports.len(), 4);
    assert_eq!(info.memories, vec![None]);
    assert_eq!(info.imports[0].module, "env");
    assert_eq!(info.imports[0].name, "__convex_input_length");
    assert!(compile_binary(runner.engine(), b"not wasm").is_err());
}

#[test]
fn modules_belong_to_the_engine_that_compiled_them() {
    let (a, b) = (small_engine(), small_engine());
    let module = compile_binary(&a, ECHO.as_bytes()).unwrap();
    assert!(Engine::same(module.engine(), &a));
    assert!(!Engine::same(module.engine(), &b));
}

#[test]
fn runners_take_an_engine_or_say_why_there_is_none() {
    let engine = small_engine();
    let mut runner = WasmRunner::with_engine(Ok(engine.clone())).ok().unwrap();
    assert!(Engine::same(runner.engine(), &engine));
    assert!(runner.cached_module(&[0; 32]).is_none());
    assert!(runner.get_serialized(&[0; 32]).is_none());
    let permits = runner.execution_semaphore_for_env("a").available_permits();
    assert_eq!(permits, MAX_CONCURRENT_EXECUTIONS_PER_ENV);
    let none = WasmRunner::with_engine(Err("no engine here".to_string()));
    assert_eq!(none.err().unwrap(), "no engine here");
}

#[test]
fn engines_are_deterministic_and_count_fuel() {
    let settings = engine_settings();
    assert!(settings.nan_canonicalization && settings.consume_fuel && !settings.relaxed_simd);
    let runner = WasmRunner::new().unwrap();
    let mut store = Store::new(runner.engine(), ());
    assert!(store.set_fuel(1).is_ok());
    let relaxed = r#"
(module
  (func (param v128 v128) (result v128)
    local.get 0 local.get 1 i8x16.relaxed_swizzle))
"#;
    assert!(compile_binary(runner.engine(), relaxed.as_bytes()).is_err());
}

#[test]
fn deployments_have_their_own_permits() {
    let mut runner = WasmRunner::new().unwrap();
    let a = runner.execution_semaphore_for_env("a");
    let again = runner.execution_semaphore_for_env("a");
    let b = runner.execution_semaphore_for_env("b");
    assert_eq!(a.available_permits(), MAX_CONCURRENT_EXECUTIONS_PER_ENV);
    assert!(std::sync::Arc::ptr_eq(&a, &again));
    assert!(!std::sync::Arc::ptr_eq(&a, &b));
}
