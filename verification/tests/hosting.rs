use convex_backend::abi::{pack_result, unpack_len, unpack_offset, DB_ERROR};
use convex_backend::cache::{BoundedCache, MAX_CACHED_MODULES};
use convex_backend::call_data::CallData;
use convex_backend::determinism::{DeterministicRng, VirtualMonotonicClock, VirtualWallClock};
use convex_backend::guest::{
    checked_range, copied, read_guest, write_guest, write_memory, GuestFault,
};
use convex_backend::host::{call_data_load, HostContext, MAX_LOG_LINES, MAX_LOG_MESSAGE};
use convex_backend::invocation::{
    clock_millis, deserialize_result, finish_analysis, finish_execution, guest_millis, guest_reply,
    integer_to_text, next_stage, pack_returned, parse_function_descriptors, parse_result,
    read_returned, set_up_analysis, set_up_execution, text_bytes, udf_result, Next, Purpose, Reply,
    ResultFault, ReturnedValue, Stage, StageEvent,
};
use convex_backend::json_text::print_json;
use convex_backend::limits::WasmLimits;
use convex_backend::replay::{host_call, HostCall, HostReply};

#[test]
fn results_pack_and_unpack() {
    for (offset, len) in [(0, 0), (1, 2), (0x7fff_ffff, u32::MAX), (u32::MAX, 0)] {
        let packed = pack_result(offset, len);
        assert_eq!(unpack_offset(packed), offset);
        assert_eq!(unpack_len(packed), len);
    }
    assert_eq!(pack_result(1, 2), 0x1_0000_0002);
    assert!(pack_result(0x7fff_ffff, u32::MAX) != DB_ERROR);
}

#[test]
fn ranges_are_checked() {
    assert_eq!(checked_range(2, 3, 5), Some((2, 3)));
    assert_eq!(checked_range(2, 4, 5), None);
    assert_eq!(checked_range(5, 0, 5), Some((5, 0)));
    assert_eq!(checked_range(6, 0, 5), None);
    assert_eq!(checked_range(-1, 1, 5), None);
    assert_eq!(checked_range(0, -1, 5), None);
    assert_eq!(checked_range(i32::MAX, i32::MAX, 5), None);
}

#[test]
fn guest_memory_is_read_and_written() {
    let mut memory = [1u8, 2, 3, 4];
    assert_eq!(read_guest(Some(&memory), 1, 2).unwrap(), vec![2, 3]);
    assert_eq!(read_guest(Some(&memory), -7, 0).unwrap(), Vec::<u8>::new());
    assert_eq!(read_guest(None, 0, 0).unwrap(), Vec::<u8>::new());
    assert_eq!(read_guest(Some(&memory), 0, -1), Err(GuestFault::NegativeLength));
    assert_eq!(read_guest(Some(&memory), -1, 1), Err(GuestFault::NegativePointer));
    assert_eq!(read_guest(None, 0, 1), Err(GuestFault::MemoryMissing));
    assert_eq!(read_guest(Some(&memory), 3, 2), Err(GuestFault::ReadOutOfBounds));

    assert_eq!(write_guest(Some(&mut memory), 2, &[9, 8]), Ok(()));
    assert_eq!(memory, [1, 2, 9, 8]);
    assert_eq!(read_guest(Some(&memory), 2, 2).unwrap(), vec![9, 8]);
    assert_eq!(write_guest(Some(&mut memory), 3, &[9, 8]), Err(GuestFault::WriteOutOfBounds));
    assert_eq!(write_guest(Some(&mut memory), -1, &[9]), Err(GuestFault::NegativePointer));
    assert_eq!(write_guest(None, 0, &[9]), Err(GuestFault::MemoryMissing));
    assert_eq!(write_guest(None, -1, &[]), Ok(()));
    assert_eq!(write_memory(&mut memory, 0, &[7]), Ok(()));
    assert_eq!(memory, [7, 2, 9, 8]);
    assert_eq!(copied(&memory, 1, 2), vec![2, 9]);
}

#[test]
fn guest_faults_are_described() {
    assert_eq!(GuestFault::NegativeLength.message(), "negative length");
    assert_eq!(GuestFault::NegativePointer.message(), "negative pointer");
    assert_eq!(GuestFault::MemoryMissing.message(), "Guest memory export not found");
    assert_eq!(GuestFault::ReadOutOfBounds.message(), "guest memory read out of bounds");
    assert_eq!(GuestFault::WriteOutOfBounds.message(), "guest memory write out of bounds");
    assert_eq!(GuestFault::InputOutOfBounds.message(), "__convex_input_load out of bounds");
    assert_eq!(
        GuestFault::CallDataOutOfBounds.message(),
        "__convex_call_data_load out of bounds"
    );
}

#[test]
fn call_data_grows_up_to_its_limit() {
    let mut data = CallData::new(10);
    assert_eq!(data.reserve(3), 0);
    assert_eq!(data.reserve(2), 3);
    assert_eq!(data.len(), 5);
    assert_eq!(data.load(0, 5).unwrap(), vec![0; 5]);
    assert_eq!(data.append(&vec![1, 2, 3]), pack_result(5, 3));
    assert_eq!(data.load(5, 3).unwrap(), vec![1, 2, 3]);
    assert_eq!(data.load(0, 5).unwrap(), vec![0; 5]);
    assert_eq!(data.append(&vec![1, 2, 3]), DB_ERROR);
    assert_eq!(data.reserve(3), -1);
    assert_eq!(data.reserve(-1), -1);
    assert_eq!(data.len(), 8);
    assert!(data.load(6, 3).is_none());
    assert!(data.load(-1, 1).is_none());

    let mut memory = [0u8; 4];
    assert_eq!(call_data_load(&data, Some(&mut memory), 5, 1, 3), Ok(()));
    assert_eq!(memory, [0, 1, 2, 3]);
    assert_eq!(
        call_data_load(&data, Some(&mut memory), 7, 0, 2),
        Err(GuestFault::CallDataOutOfBounds)
    );
}

#[test]
fn caches_are_emptied_when_full() {
    let mut cache: BoundedCache<usize> = BoundedCache::new();
    let key = |i: usize| {
        let mut k = [0u8; 32];
        k[0] = i as u8;
        k
    };
    for i in 0..MAX_CACHED_MODULES {
        cache.insert(key(i), i);
        assert_eq!(cache.get(&key(i)), Some(&i));
    }
    assert_eq!(cache.len(), MAX_CACHED_MODULES);
    assert_eq!(cache.get(&key(3)), Some(&3));
    cache.insert(key(200), 200);
    assert_eq!(cache.len(), 1);
    assert_eq!(cache.get(&key(3)), None);
    assert_eq!(cache.get(&key(200)), Some(&200));
    cache.insert(key(200), 201);
    assert_eq!(cache.len(), 1);
    assert_eq!(cache.get(&key(200)), Some(&201));
}

#[test]
fn clocks_stand_still() {
    let wall = VirtualWallClock::new(1_700_000_000_005_000_001);
    assert_eq!(wall.now(), 1_700_000_000_005_000_001);
    assert_eq!(wall.now(), 1_700_000_000_005_000_001);
    assert_eq!(wall.resolution(), 1_000_000);
    let mono = VirtualMonotonicClock::new(1_700_000_000_005_000_001);
    assert_eq!(mono.now(), 1_700_000_000_005_000_001);
    assert_eq!(mono.now(), 1_700_000_000_005_000_001);
    assert_eq!(mono.resolution(), 1_000_000);
    assert_eq!(VirtualMonotonicClock::new(u64::MAX as u128).now(), u64::MAX);
    assert_eq!(VirtualMonotonicClock::new(u64::MAX as u128 + 1).now(), 0);
    assert_eq!(clock_millis(1_999_999), 1);
    assert_eq!(guest_millis(1_999_999), 1);
    assert_eq!(guest_millis(u128::MAX), 0);
    assert_eq!(clock_millis(u128::MAX), 0);
}

#[test]
fn seeded_bytes_are_those_of_chacha() {
    for seed in [[0u8; 32], [7u8; 32], [255u8; 32]] {
        let mut theirs: rand_chacha::ChaCha12Rng = rand_core::SeedableRng::from_seed(seed);
        let mut ours = DeterministicRng::from_seed(seed);
        for len in [1usize, 3, 4, 64, 0, 257, 5, 63] {
            let mut expected = vec![0u8; len];
            rand_core::Rng::fill_bytes(&mut theirs, &mut expected);
            assert_eq!(ours.draw(len), expected);
        }
    }
}

#[test]
fn logs_are_bounded() {
    let mut host = HostContext::new(vec![], [0; 32], 5);
    for i in 0..MAX_LOG_LINES + 10 {
        let line = host.log(format!("line {i}").as_bytes()).unwrap();
        assert_eq!(line.message, format!("line {i}"));
        assert_eq!(line.timestamp_ms, 5);
    }
    assert_eq!(host.log_lines.len(), MAX_LOG_LINES);
    assert_eq!(host.log_lines[255].message, "line 255");
}

#[test]
fn long_messages_are_cut() {
    let mut host = HostContext::new(vec![], [0; 32], -5);
    let line = host.log("x".repeat(MAX_LOG_MESSAGE + 1).as_bytes()).unwrap();
    assert_eq!(line.message.len(), MAX_LOG_MESSAGE);
    assert_eq!(line.timestamp_ms, 0);
    assert!(!line.is_truncated);
    let odd = format!("{}\u{e9}", "x".repeat(MAX_LOG_MESSAGE - 1));
    assert!(host.log(odd.as_bytes()).is_none());
    assert_eq!(host.log_lines.len(), 1);
    let line = host.log(b"a\xffb").unwrap();
    assert_eq!(line.message, "a\u{fffd}b");
}

#[test]
fn hosts_hand_out_the_input() {
    let host = HostContext::new(vec![1, 2, 3], [0; 32], 0);
    assert_eq!(host.input_length(), 3);
    let mut memory = [0u8; 4];
    assert_eq!(host.input_load(Some(&mut memory), 1, 2, 2), Ok(()));
    assert_eq!(memory, [0, 0, 2, 3]);
    assert_eq!(
        host.input_load(Some(&mut memory), 2, 0, 2),
        Err(GuestFault::InputOutOfBounds)
    );
    assert_eq!(
        host.input_load(Some(&mut memory), 0, 3, 2),
        Err(GuestFault::WriteOutOfBounds)
    );
    assert_eq!(host.input_load(None, 0, 0, 1), Err(GuestFault::MemoryMissing));
}

#[test]
fn hosts_keep_what_guests_set() {
    let mut host = HostContext::new(vec![], [3; 32], 42);
    let memory = *b"hello";
    assert_eq!(host.output_set(Some(&memory), 1, 3), Ok(()));
    assert_eq!(host.output.as_deref(), Some(&b"ell"[..]));
    assert_eq!(host.output_set(Some(&memory), 4, 2), Err(GuestFault::ReadOutOfBounds));
    assert_eq!(host.output.as_deref(), Some(&b"ell"[..]));
    assert_eq!(host.error_set(Some(&memory), 0, 1), Ok(()));
    assert_eq!(host.error.as_deref(), Some(&b"h"[..]));
    assert_eq!(host.log_from_guest(Some(&memory), 0, 5).unwrap().message, "hello");
    let uncut = "\u{e9}".repeat(MAX_LOG_MESSAGE / 2).replacen('\u{e9}', "x", 1) + "\u{e9}";
    let fault = host.log_from_guest(Some(uncut.as_bytes()), 0, uncut.len() as i32).unwrap_err();
    assert_eq!(fault.message(), "log message cannot be cut at 32768 bytes");
    assert_eq!(host.log_lines.len(), 1);
    assert!(!host.observed_time);
    assert_eq!(host.now_ms(), 42);
    assert!(host.observed_time);
    assert_eq!(host.random_bytes(None, 0, 0), Err(GuestFault::MemoryMissing));
    assert!(!host.observed_rng);
    let mut target = [0u8; 4];
    assert_eq!(host.random_bytes(Some(&mut target), 0, 5), Err(GuestFault::WriteOutOfBounds));
    assert_eq!(host.random_bytes(Some(&mut target), 1, 3), Ok(()));
    assert!(host.observed_rng);
    assert_eq!(target[1..].to_vec(), DeterministicRng::from_seed([3; 32]).draw(3));
}

#[test]
fn invocations_start_afresh() {
    let limits = WasmLimits::default();
    let mut run = set_up_execution(vec![1], [0; 32], 5_999_999, &limits);
    assert_eq!(run.wasi_rng.draw(9), DeterministicRng::from_seed([0; 32]).draw(9));
    assert_eq!(run.host.input, vec![1]);
    assert_eq!(run.host.unix_timestamp_ms, 5);
    assert_eq!(run.wall_clock.now(), 5_000_000);
    assert_eq!(run.monotonic_clock.now(), 5_000_000);
    assert_eq!(run.call_data.len(), 0);
    assert_eq!(run.store.memory_size, 268_435_456);
    assert_eq!(run.store.fuel, 10_000_000_000);
    assert_eq!((run.store.instances, run.store.memories, run.store.tables), (1, 1, 1));
    let analysis = set_up_analysis([0; 32], 5_999_999, &limits);
    assert_eq!(analysis.host.unix_timestamp_ms, 0);
    assert_eq!(analysis.wall_clock.now(), 5_000_000);
    assert!(analysis.host.input.is_empty());
}

fn said(next: Next) -> String {
    match next {
        Next::Fail(e) => e,
        other => panic!("{other:?}"),
    }
}

#[test]
fn stages_come_in_order() {
    let run = Purpose::Execute;
    let started = StageEvent::Instantiated { has_initialize: true };
    assert!(matches!(next_stage(run, Stage::Instantiate, &started), Next::Go(Stage::Initialize)));
    let started = StageEvent::Instantiated { has_initialize: false };
    assert!(matches!(next_stage(run, Stage::Instantiate, &started), Next::Go(Stage::Locate)));
    assert!(matches!(
        next_stage(run, Stage::Initialize, &StageEvent::Initialized),
        Next::Go(Stage::Locate)
    ));
    assert!(matches!(next_stage(run, Stage::Locate, &StageEvent::Located), Next::Go(Stage::Call)));
    assert!(matches!(next_stage(run, Stage::Call, &StageEvent::Returned(1)), Next::Finish));

    let failed = StageEvent::Failed("e".to_string());
    let late = StageEvent::TimedOut;
    assert_eq!(
        said(next_stage(run, Stage::Instantiate, &failed)),
        "Instantiating WASM module: e"
    );
    assert_eq!(said(next_stage(Purpose::Analyze, Stage::Instantiate, &failed)), "e");
    assert_eq!(
        said(next_stage(run, Stage::Instantiate, &late)),
        "Timed out instantiating WASM module"
    );
    assert_eq!(
        said(next_stage(run, Stage::Initialize, &late)),
        "Timed out initializing WASM module"
    );
    assert_eq!(
        said(next_stage(run, Stage::Initialize, &failed)),
        "WASM module initialization failed: e"
    );
    assert_eq!(said(next_stage(run, Stage::Locate, &failed)), "Missing __convex_run export: e");
    assert_eq!(
        said(next_stage(Purpose::Analyze, Stage::Locate, &failed)),
        "Missing __convex_functions export: e"
    );
}

#[test]
fn executions_end() {
    let limits = WasmLimits { timeout_ms: 2_500, ..WasmLimits::default() };
    let host = || {
        let mut h = HostContext::new(vec![], [0; 32], 0);
        h.output = Some(b"out".to_vec());
        h.error = Some(b"err\xff".to_vec());
        h.observed_rng = true;
        h
    };
    let ok = finish_execution(host(), &StageEvent::Returned(0), &limits);
    assert_eq!(ok.output.as_deref(), Some(&b"out"[..]));
    assert!(ok.error.is_none() && ok.observed_rng && !ok.observed_time);
    let error = |event: StageEvent| {
        let r = finish_execution(host(), &event, &limits);
        assert!(r.output.is_none() && r.observed_rng);
        match guest_reply(&r) {
            Reply::Error(e) => e,
            Reply::Value(v) => panic!("{v}"),
        }
    };
    assert_eq!(error(StageEvent::Returned(7)), "err\u{fffd}");
    assert_eq!(error(StageEvent::TimedOut), "WASM function exceeded the 2 second timeout");
    assert_eq!(
        error(StageEvent::Failed("x: all fuel consumed by y".to_string())),
        "WASM function exceeded its instruction budget"
    );
    assert_eq!(
        error(StageEvent::Failed("memory over limit".to_string())),
        "WASM function exceeded the memory limit: memory over limit"
    );
    assert_eq!(error(StageEvent::Failed("unreachable".to_string())), "unreachable");
    let udf = udf_result(ok, Ok("out".to_string()));
    assert_eq!(udf.result.unwrap(), "out");
    assert!(udf.observed_rng && !udf.observed_time && udf.log_lines.is_empty());
}

#[test]
fn analyses_end() {
    let host = |output: Option<Vec<u8>>| {
        let mut h = HostContext::new(vec![], [0; 32], 0);
        h.output = output;
        h
    };
    let some = || host(Some(b"[]".to_vec()));
    assert_eq!(finish_analysis(some(), &StageEvent::Returned(0)).unwrap(), b"[]".to_vec());
    assert_eq!(
        finish_analysis(host(None), &StageEvent::Returned(0)).unwrap_err(),
        "__convex_functions returned no output"
    );
    assert_eq!(
        finish_analysis(some(), &StageEvent::Returned(-3)).unwrap_err(),
        "__convex_functions returned error status -3"
    );
    assert_eq!(
        finish_analysis(some(), &StageEvent::TimedOut).unwrap_err(),
        "Timed out querying WASM module functions"
    );
    assert_eq!(
        finish_analysis(some(), &StageEvent::Failed("trap".to_string())).unwrap_err(),
        "trap"
    );
    assert_eq!(
        parse_function_descriptors(None).err().unwrap(),
        "__convex_functions returned invalid JSON"
    );
    assert_eq!(parse_function_descriptors(Some(vec![])).ok().unwrap().len(), 0);
    assert_eq!(integer_to_text(i32::MIN), "-2147483648");
    assert_eq!(integer_to_text(12), "12");
    assert_eq!(text_bytes("\u{e9}"), vec![0xc3, 0xa9]);
}

#[test]
fn results_are_checked() {
    assert_eq!(print_json(&parse_result("[1]").unwrap()), "[1]");
    assert_eq!(
        parse_result("nope").err().unwrap().message(),
        "Function return value is not valid JSON"
    );
    let value = |is_pending: bool, size: usize| Some(ReturnedValue { is_pending, size });
    assert!(deserialize_result(value(false, 10), false, 10).is_ok());
    assert!(deserialize_result(value(true, 10), true, 10).is_ok());
    let fault = |r: Result<ReturnedValue, ResultFault>| r.err().unwrap().message();
    assert_eq!(
        fault(deserialize_result(None, false, 10)),
        "Function return value is not a valid Convex value"
    );
    assert_eq!(
        fault(deserialize_result(value(true, 10), false, 10)),
        "Function return value contains an unresolved commit timestamp"
    );
    assert_eq!(
        fault(deserialize_result(value(false, 11), false, 10)),
        "Function return value is too large (actual: 11, limit: 10)"
    );
}

#[test]
fn returned_values_are_packed() {
    let limits = WasmLimits::default();
    let returned = |output: Option<&[u8]>, status: i32| {
        let mut host = HostContext::new(vec![], [0; 32], 0);
        host.output = output.map(|b| b.to_vec());
        read_returned(&finish_execution(host, &StageEvent::Returned(status), &limits))
    };
    let json = returned(Some(b" {\"b\": [1, 2]} "), 0).unwrap();
    let small = Some(ReturnedValue { is_pending: false, size: 10 });
    assert_eq!(pack_returned(&json, small, false, 10).unwrap(), "{\"b\":[1.0,2.0]}");
    let unsorted = returned(Some(b"{\"z\": 5, \"a\": \"x\"}"), 0).unwrap();
    assert_eq!(pack_returned(&unsorted, small, false, 10).unwrap(), "{\"a\":\"x\",\"z\":5.0}");
    let token = returned(
        Some(b"{\"z\": [2, {\"y\": 1, \"x\": {\"$commitTs\": 3}}], \"a\": 1}"),
        0,
    )
    .unwrap();
    let pending = Some(ReturnedValue { is_pending: true, size: 10 });
    assert_eq!(
        pack_returned(&token, pending, true, 10).unwrap(),
        "{\"a\":1.0,\"z\":[2.0,{\"x\":{\"$commitTs\":3},\"y\":1.0}]}"
    );
    assert_eq!(
        pack_returned(&json, small, false, 9).unwrap_err(),
        "Function return value is too large (actual: 10, limit: 9)"
    );
    assert_eq!(
        pack_returned(&json, None, true, 10).unwrap_err(),
        "Function return value is not a valid Convex value"
    );
    assert_eq!(
        returned(Some(b"{"), 0).err().unwrap(),
        "Function return value is not valid JSON"
    );
    assert_eq!(returned(None, 0).err().unwrap(), "WASM function returned no result");
    assert_eq!(returned(Some(b"1"), 1).err().unwrap(), "WASM function returned an error");
}

/// Plays some calls on a fresh invocation; the answers, and what comes out.
fn play(calls: &[HostCall], seed: u8) -> (Vec<HostReply>, Vec<u8>, HostContext) {
    let limits = WasmLimits::default();
    let setup = set_up_execution(b"hello".to_vec(), [seed; 32], 9_000_000, &limits);
    let (mut host, mut call_data) = (setup.host, setup.call_data);
    let mut memory = vec![b'm'; 32];
    let replies = calls
        .iter()
        .map(|call| host_call(&mut host, &mut call_data, &mut memory, *call))
        .collect();
    (replies, memory, host)
}

#[test]
fn runs_repeat() {
    let calls = [
        HostCall::InputLength,
        HostCall::InputLoad { offset: 1, dest: 0, len: 4 },
        HostCall::InputLoad { offset: 4, dest: 0, len: 4 },
        HostCall::CallDataAlloc { len: 3 },
        HostCall::CallDataAlloc { len: -1 },
        HostCall::CallDataLoad { offset: 0, dest: 8, len: 3 },
        HostCall::NowMs,
        HostCall::RandomBytes { dest: 16, len: 8 },
        HostCall::Log { ptr: 0, len: 4 },
        HostCall::OutputSet { ptr: 0, len: 16 },
        HostCall::ErrorSet { ptr: 31, len: 2 },
    ];
    let (replies, memory, host) = play(&calls, 7);
    assert_eq!(
        replies,
        vec![
            HostReply::Number(5),
            HostReply::Done,
            HostReply::Fault(GuestFault::InputOutOfBounds),
            HostReply::Number(0),
            HostReply::Number(-1),
            HostReply::Done,
            HostReply::Number(9),
            HostReply::Done,
            HostReply::Done,
            HostReply::Done,
            HostReply::Fault(GuestFault::ReadOutOfBounds),
        ]
    );
    assert_eq!(memory[..12].to_vec(), b"ellommmm\0\0\0m".to_vec());
    assert_eq!(memory[16..24].to_vec(), DeterministicRng::from_seed([7; 32]).draw(8));
    assert_eq!(host.log_lines[0].message, "ello");
    assert!(host.observed_rng && host.observed_time && host.error.is_none());

    let again = play(&calls, 7);
    assert_eq!((&again.0, &again.1), (&replies, &memory));
    assert_eq!(again.2.output, host.output);
    let other = play(&calls, 8);
    assert_eq!(other.0, replies);
    assert_ne!(other.1, memory);
}

#[test]
fn runs_keep_few_lines() {
    let calls = vec![HostCall::Log { ptr: 0, len: 1 }; MAX_LOG_LINES + 20];
    let (replies, _, host) = play(&calls, 0);
    assert_eq!(replies.len(), MAX_LOG_LINES + 20);
    assert_eq!(host.log_lines.len(), MAX_LOG_LINES);
}

#[test]
fn limits_have_defaults() {
    let limits = WasmLimits::default();
    assert_eq!(limits.max_memory_bytes, 256 * 1024 * 1024);
    assert_eq!(limits.max_module_size, 32 * 1024 * 1024);
    assert_eq!(limits.max_call_data, 16 * 1024 * 1024);
    assert_eq!(limits.fuel, 10_000_000_000);
    assert_eq!(limits.timeout_ms, 30_000);
    assert_eq!(limits.compile_timeout_ms, 30_000);
    assert_eq!(limits.remaining_ms(0), 30_000);
    assert_eq!(limits.remaining_ms(29_999), 1);
    assert_eq!(limits.remaining_ms(u64::MAX), 0);
}
