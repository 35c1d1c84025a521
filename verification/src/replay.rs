//! Whole runs of a guest: what the host answers to one call after the other, and that a run comes
//! out the same whenever it is repeated.

use vstd::prelude::*;
use crate::abi::DB_ERROR;
use crate::call_data::{clamped, fits, CallData};
use crate::determinism::{after_draw, drawn, RngState};
use crate::guest::{guest_read, guest_written, write_then_read, GuestFault};
use crate::host::{
    call_data_load, cuttable, line_of, load_fault, loaded, loads_copy_the_buffer, logged,
    random_fault, HostContext, HostTree, MAX_LOG_LINES,
};
use crate::invocation::{
    execution_of, is_fresh, returned_json, ExecutionTree, Invocation, StageEvent,
};
use crate::limits::WasmLimits;
use crate::lossy::lossy_text;

verus! {

/// A call of a guest to one of the host functions that answer at once.
#[derive(Debug, Clone, Copy, PartialEq, Eq, Structural)]
pub enum HostCall {
    InputLength,
    InputLoad { offset: i32, dest: i32, len: i32 },
    CallDataAlloc { len: i32 },
    CallDataLoad { offset: i32, dest: i32, len: i32 },
    OutputSet { ptr: i32, len: i32 },
    ErrorSet { ptr: i32, len: i32 },
    Log { ptr: i32, len: i32 },
    NowMs,
    RandomBytes { dest: i32, len: i32 },
}

/// What the host answers.
#[derive(Debug, Clone, Copy, PartialEq, Eq, Structural)]
pub enum HostReply {
    /// The call was carried out.
    Done,
    Number(i64),
    /// The call failed, which traps the guest.
    Fault(GuestFault),
}

/// The host's side of a run.
pub struct HostState {
    pub host: HostTree,
    pub call_data: Seq<u8>,
    pub max_call_data: nat,
}

/// What a call does: to the host's side, to the memory of the guest, and what is answered.
pub struct Effect {
    pub state: HostState,
    pub memory: Option<Seq<u8>>,
    pub reply: HostReply,
}

/// What is answered where a call may fail.
pub open spec fn reply_unless(fault: Option<GuestFault>) -> HostReply {
    match fault {
        Some(f) => HostReply::Fault(f),
        None => HostReply::Done,
    }
}

/// The memory of a guest after part of a buffer was loaded into it.
pub open spec fn memory_loaded(
    buffer: Seq<u8>,
    memory: Option<Seq<u8>>,
    offset: i32,
    dest: i32,
    len: i32,
) -> Option<Seq<u8>> {
    match memory {
        Some(m) => Some(loaded(buffer, m, offset, dest, len)),
        None => None,
    }
}

/// What a call does.
pub open spec fn host_effect(s: HostState, memory: Option<Seq<u8>>, call: HostCall) -> Effect {
    match call {
        HostCall::InputLength => Effect {
            state: s,
            memory,
            reply: HostReply::Number(
                if s.host.input.len() <= i32::MAX {
                    s.host.input.len() as i64
                } else {
                    i32::MAX as i64
                },
            ),
        },
        HostCall::InputLoad { offset, dest, len } => Effect {
            state: s,
            memory: memory_loaded(s.host.input, memory, offset, dest, len),
            reply: reply_unless(
                load_fault(
                    s.host.input,
                    memory,
                    offset,
                    dest,
                    len,
                    GuestFault::InputOutOfBounds,
                ),
            ),
        },
        HostCall::CallDataAlloc { len } => if len < 0 || !fits(
            s.call_data.len(),
            len as nat,
            s.max_call_data,
        ) {
            Effect { state: s, memory, reply: HostReply::Number((-1) as i64) }
        } else {
            Effect {
                state: HostState {
                    call_data: s.call_data + Seq::new(len as nat, |i: int| 0u8),
                    ..s
                },
                memory,
                reply: HostReply::Number(
                    if s.call_data.len() <= i32::MAX {
                        s.call_data.len() as i64
                    } else {
                        (-1) as i64
                    },
                ),
            }
        },
        HostCall::CallDataLoad { offset, dest, len } => Effect {
            state: s,
            memory: memory_loaded(s.call_data, memory, offset, dest, len),
            reply: reply_unless(
                load_fault(
                    s.call_data,
                    memory,
                    offset,
                    dest,
                    len,
                    GuestFault::CallDataOutOfBounds,
                ),
            ),
        },
        HostCall::OutputSet { ptr, len } => match guest_read(memory, ptr, len) {
            Ok(b) => Effect {
                state: HostState { host: HostTree { output: Some(b), ..s.host }, ..s },
                memory,
                reply: HostReply::Done,
            },
            Err(f) => Effect { state: s, memory, reply: HostReply::Fault(f) },
        },
        HostCall::ErrorSet { ptr, len } => match guest_read(memory, ptr, len) {
            Ok(b) => Effect {
                state: HostState { host: HostTree { error: Some(b), ..s.host }, ..s },
                memory,
                reply: HostReply::Done,
            },
            Err(f) => Effect { state: s, memory, reply: HostReply::Fault(f) },
        },
        HostCall::Log { ptr, len } => match guest_read(memory, ptr, len) {
            Ok(b) => if cuttable(lossy_text(b)) {
                Effect {
                    state: HostState {
                        host: logged(s.host, line_of(lossy_text(b), s.host.unix_timestamp_ms)),
                        ..s
                    },
                    memory,
                    reply: HostReply::Done,
                }
            } else {
                Effect { state: s, memory, reply: HostReply::Fault(GuestFault::LogUncut) }
            },
            Err(f) => Effect { state: s, memory, reply: HostReply::Fault(f) },
        },
        HostCall::NowMs => Effect {
            state: HostState { host: HostTree { observed_time: true, ..s.host }, ..s },
            memory,
            reply: HostReply::Number(s.host.unix_timestamp_ms),
        },
        HostCall::RandomBytes { dest, len } => match random_fault(memory, dest, len) {
            Some(f) => Effect { state: s, memory, reply: HostReply::Fault(f) },
            None => Effect {
                state: HostState {
                    host: HostTree {
                        rng: after_draw(s.host.rng, len as nat),
                        observed_rng: true,
                        ..s.host
                    },
                    ..s
                },
                memory: Some(
                    guest_written(memory->0, dest, drawn(s.host.rng, len as nat)),
                ),
                reply: HostReply::Done,
            },
        },
    }
}

/// The host's side of a run.
pub open spec fn state_of(host: HostContext, call_data: CallData) -> HostState {
    HostState { host: host@, call_data: call_data@, max_call_data: call_data.max() }
}

fn reply_of(r: Result<(), GuestFault>) -> (reply: HostReply)
    ensures
        reply == (match r {
            Ok(()) => HostReply::Done,
            Err(f) => HostReply::Fault(f),
        }),
{
    match r {
        Ok(()) => HostReply::Done,
        Err(f) => HostReply::Fault(f),
    }
}

/// Carry out a call of a guest on a memory that is there.
pub fn host_call(
    host: &mut HostContext,
    call_data: &mut CallData,
    memory: &mut [u8],
    call: HostCall,
) -> (r: HostReply)
    ensures
        ({
            let effect = host_effect(state_of(*old(host), *old(call_data)), Some(old(memory)@), call);
            &&& state_of(*final(host), *final(call_data)) == effect.state
            &&& Some(final(memory)@) == effect.memory
            &&& r == effect.reply
        }),
{
    match call {
        HostCall::InputLength => HostReply::Number(host.input_length() as i64),
        HostCall::InputLoad { offset, dest, len } => reply_of(
            host.input_load(Some(memory), offset, dest, len),
        ),
        HostCall::CallDataAlloc { len } => HostReply::Number(call_data.reserve(len) as i64),
        HostCall::CallDataLoad { offset, dest, len } => reply_of(
            call_data_load(call_data, Some(memory), offset, dest, len),
        ),
        HostCall::OutputSet { ptr, len } => reply_of(host.output_set(Some(&*memory), ptr, len)),
        HostCall::ErrorSet { ptr, len } => reply_of(host.error_set(Some(&*memory), ptr, len)),
        HostCall::Log { ptr, len } => match host.log_from_guest(Some(&*memory), ptr, len) {
            Ok(_) => HostReply::Done,
            Err(f) => HostReply::Fault(f),
        },
        HostCall::NowMs => HostReply::Number(host.now_ms()),
        HostCall::RandomBytes { dest, len } => reply_of(host.random_bytes(Some(memory), dest, len)),
    }
}

/// What a guest does next, with what its memory holds at that time.
pub enum Move {
    /// It calls a host function that answers at once.
    Call { memory: Option<Seq<u8>>, call: HostCall },
    /// It asks the database, with a request that stands in its memory.
    Ask { memory: Option<Seq<u8>>, ptr: i32, len: i32 },
    /// It reads the wall clock or the monotonic clock of WASI.
    ReadClock { is_wall: bool },
    /// It draws random bytes from WASI.
    Draw { len: nat },
}

/// What a guest sees of the world.
pub enum Seen {
    /// What the host answers to a call, and the memory of the guest after it.
    Reply { reply: HostReply, memory: Option<Seq<u8>> },
    /// What a clock shows, in nanoseconds.
    Clock { nanos: nat },
    /// What WASI draws.
    Drawn { bytes: Seq<u8> },
}

/// A guest, as a machine: what it does next depends on nothing but what it has seen. It may call
/// what it likes, as often as it likes.
pub type Guest = spec_fn(Seq<Seen>) -> Move;

/// A snapshot of a database: the answer to the last of the requests that were made of it.
pub type Snapshot = spec_fn(Seq<Seq<u8>>) -> Seq<u8>;

/// A run, as far as it has come.
pub struct RunState {
    pub state: HostState,
    /// What the wall clock and the monotonic clock show, in nanoseconds.
    pub wall_nanos: nat,
    pub monotonic_nanos: nat,
    /// Where WASI draws its randomness from.
    pub wasi_rng: RngState,
    /// What the database was asked.
    pub requests: Seq<Seq<u8>>,
    pub seen: Seq<Seen>,
}

/// A run at its start.
pub open spec fn run_start(i: Invocation) -> RunState {
    RunState {
        state: state_of(i.host, i.call_data),
        wall_nanos: i.wall_clock.instant() as nat,
        monotonic_nanos: i.monotonic_clock.instant() as nat,
        wasi_rng: i.wasi_rng@,
        requests: Seq::empty(),
        seen: Seq::empty(),
    }
}

/// The packed place of an answer in call data that was appended to.
pub open spec fn packed_place(held: nat, len: nat) -> i64 {
    (clamped(held) * 0x1_0000_0000 + clamped(len)) as u64 as i64
}

/// What the database answers, through call data: where the answer stands, or the sentinel where it
/// does not fit.
pub open spec fn database_answered(s: HostState, answer: Seq<u8>) -> (HostState, HostReply) {
    if fits(s.call_data.len(), answer.len(), s.max_call_data) {
        (
            HostState { call_data: s.call_data + answer, ..s },
            HostReply::Number(packed_place(s.call_data.len(), answer.len())),
        )
    } else {
        (s, HostReply::Number(DB_ERROR))
    }
}

/// A run after the next move of its guest.
pub open spec fn run_step(guest: Guest, db: Snapshot, r: RunState) -> RunState {
    match guest(r.seen) {
        Move::Call { memory, call } => {
            let effect = host_effect(r.state, memory, call);
            RunState {
                state: effect.state,
                seen: r.seen.push(Seen::Reply { reply: effect.reply, memory: effect.memory }),
                ..r
            }
        },
        Move::Ask { memory, ptr, len } => match guest_read(memory, ptr, len) {
            Err(f) => RunState {
                seen: r.seen.push(Seen::Reply { reply: HostReply::Fault(f), memory }),
                ..r
            },
            Ok(request) => {
                let requests = r.requests.push(request);
                let (state, reply) = database_answered(r.state, db(requests));
                RunState {
                    state,
                    requests,
                    seen: r.seen.push(Seen::Reply { reply, memory }),
                    ..r
                }
            },
        },
        Move::ReadClock { is_wall } => RunState {
            seen: r.seen.push(
                Seen::Clock {
                    nanos: if is_wall {
                        r.wall_nanos
                    } else {
                        r.monotonic_nanos
                    },
                },
            ),
            ..r
        },
        Move::Draw { len } => RunState {
            wasi_rng: after_draw(r.wasi_rng, len),
            seen: r.seen.push(Seen::Drawn { bytes: drawn(r.wasi_rng, len) }),
            ..r
        },
    }
}

/// A run after some moves of its guest.
pub open spec fn run_for(guest: Guest, db: Snapshot, r: RunState, moves: nat) -> RunState
    decreases moves,
{
    if moves == 0 {
        r
    } else {
        run_step(guest, db, run_for(guest, db, r, (moves - 1) as nat))
    }
}

/// What comes out of a run: how its last stage ends depends, as the guest does, on what was seen.
pub open spec fn run_result(
    r: RunState,
    end: spec_fn(Seq<Seen>) -> StageEvent,
    limits: WasmLimits,
) -> ExecutionTree {
    execution_of(r.state.host, end(r.seen), limits.timeout_ms)
}

/// A run comes out the same whenever it is repeated: with the same input, seed, time, limits and
/// database, a guest sees the same at every move, and the result, the log lines and what it observed
/// are the same.
pub proof fn repeated_runs_agree(
    a: Invocation,
    b: Invocation,
    input: Seq<u8>,
    seed: Seq<u8>,
    guest_ms: i64,
    clock_ms: u64,
    limits: WasmLimits,
    guest: Guest,
    db: Snapshot,
    moves: nat,
    end: spec_fn(Seq<Seen>) -> StageEvent,
)
    requires
        is_fresh(a, input, seed, guest_ms, clock_ms, limits),
        is_fresh(b, input, seed, guest_ms, clock_ms, limits),
    ensures
        ({
            let after_a = run_for(guest, db, run_start(a), moves);
            let after_b = run_for(guest, db, run_start(b), moves);
            let result_a = run_result(after_a, end, limits);
            let result_b = run_result(after_b, end, limits);
            &&& after_a.seen == after_b.seen
            &&& after_a.requests == after_b.requests
            &&& result_a == result_b
            &&& returned_json(result_a) == returned_json(result_b)
            &&& result_a.log_lines == result_b.log_lines
            &&& result_a.observed_rng == result_b.observed_rng
            &&& result_a.observed_time == result_b.observed_time
        }),
{
    assert(run_start(a) == run_start(b));
}

/// Time stands still in a run, and its randomness comes from its seed: whatever a guest does, the
/// clocks and the guest's time show what they showed at the start, and both the host's generator and
/// that of WASI go along the key stream of the same seed.
pub proof fn time_and_seed_stay(guest: Guest, db: Snapshot, r: RunState, moves: nat)
    ensures
        ({
            let after = run_for(guest, db, r, moves);
            &&& after.wall_nanos == r.wall_nanos
            &&& after.monotonic_nanos == r.monotonic_nanos
            &&& after.state.host.unix_timestamp_ms == r.state.host.unix_timestamp_ms
            &&& after.state.host.rng.seed == r.state.host.rng.seed
            &&& after.wasi_rng.seed == r.wasi_rng.seed
            &&& after.state.host.input == r.state.host.input
        }),
    decreases moves,
{
    if moves > 0 {
        time_and_seed_stay(guest, db, r, (moves - 1) as nat);
    }
}

/// However long a run is and whatever its guest does, it keeps no more log lines than the most, and
/// no more call data than it may hold.
pub proof fn runs_stay_bounded(guest: Guest, db: Snapshot, r: RunState, moves: nat)
    requires
        r.state.host.log_lines.len() <= MAX_LOG_LINES,
        r.state.call_data.len() <= r.state.max_call_data,
    ensures
        ({
            let after = run_for(guest, db, r, moves);
            &&& after.state.host.log_lines.len() <= MAX_LOG_LINES
            &&& after.state.call_data.len() <= after.state.max_call_data
            &&& after.state.max_call_data == r.state.max_call_data
        }),
    decreases moves,
{
    if moves > 0 {
        runs_stay_bounded(guest, db, r, (moves - 1) as nat);
    }
}

/// A run from its start gives out no more log lines than the most.
pub proof fn results_hold_few_lines(
    i: Invocation,
    input: Seq<u8>,
    seed: Seq<u8>,
    guest_ms: i64,
    clock_ms: u64,
    limits: WasmLimits,
    guest: Guest,
    db: Snapshot,
    moves: nat,
    end: spec_fn(Seq<Seen>) -> StageEvent,
)
    requires
        is_fresh(i, input, seed, guest_ms, clock_ms, limits),
    ensures
        run_result(run_for(guest, db, run_start(i), moves), end, limits).log_lines.len()
            <= MAX_LOG_LINES,
{
    runs_stay_bounded(guest, db, run_start(i), moves);
}

/// A call that fails changes neither what the host knows nor the memory of the guest.
pub proof fn failed_calls_change_nothing(s: HostState, memory: Option<Seq<u8>>, call: HostCall)
    ensures
        host_effect(s, memory, call).reply is Fault ==> host_effect(s, memory, call).state == s
            && host_effect(s, memory, call).memory == memory,
{
    match call {
        HostCall::InputLoad { offset, dest, len } => {
            if let Some(m) = memory {
                loads_copy_the_buffer(
                    s.host.input,
                    m,
                    offset,
                    dest,
                    len,
                    GuestFault::InputOutOfBounds,
                    0,
                );
            }
        },
        HostCall::CallDataLoad { offset, dest, len } => {
            if let Some(m) = memory {
                loads_copy_the_buffer(
                    s.call_data,
                    m,
                    offset,
                    dest,
                    len,
                    GuestFault::CallDataOutOfBounds,
                    0,
                );
            }
        },
        _ => {},
    }
}

/// Each part of what the host knows is changed by one call alone: the output and the error by being
/// set, the lines by logging, the randomness by drawing, and the call data by being allocated. The
/// input, the time and the limit are never changed. That the time was looked at, or that random
/// bytes were drawn, is noted exactly where it happens, and never forgotten.
pub proof fn calls_change_their_own(s: HostState, memory: Option<Seq<u8>>, call: HostCall)
    ensures
        ({
            let after = host_effect(s, memory, call).state;
            let done = !(host_effect(s, memory, call).reply is Fault);
            &&& after.host.input == s.host.input
            &&& after.host.unix_timestamp_ms == s.host.unix_timestamp_ms
            &&& after.max_call_data == s.max_call_data
            &&& !(call is OutputSet) ==> after.host.output == s.host.output
            &&& !(call is ErrorSet) ==> after.host.error == s.host.error
            &&& !(call is Log) ==> after.host.log_lines == s.host.log_lines
            &&& !(call is RandomBytes) ==> after.host.rng == s.host.rng
            &&& !(call is CallDataAlloc) ==> after.call_data == s.call_data
            &&& after.host.observed_time <==> s.host.observed_time || call is NowMs
            &&& after.host.observed_rng <==> s.host.observed_rng || (call is RandomBytes && done)
        }),
{
}

/// What a guest sets as its output or its error is what its memory holds there, and it stands until
/// the guest sets another.
pub proof fn outputs_are_taken_from_memory(s: HostState, m: Seq<u8>, ptr: i32, len: i32)
    requires
        0 <= ptr,
        0 < len,
        ptr + len <= m.len(),
    ensures
        host_effect(s, Some(m), HostCall::OutputSet { ptr, len }).state.host.output == Some(
            m.subrange(ptr as int, ptr + len),
        ),
        host_effect(s, Some(m), HostCall::ErrorSet { ptr, len }).state.host.error == Some(
            m.subrange(ptr as int, ptr + len),
        ),
        host_effect(s, Some(m), HostCall::OutputSet { ptr, len }).reply is Done,
        host_effect(s, Some(m), HostCall::ErrorSet { ptr, len }).reply is Done,
{
}

/// A guest that asks for the length of its input, and then loads that much, finds the input in its
/// memory.
pub proof fn guests_get_their_input(s: HostState, m: Seq<u8>, dest: i32)
    requires
        s.host.input.len() <= i32::MAX,
        0 <= dest,
        dest + s.host.input.len() <= m.len(),
    ensures
        ({
            let len = s.host.input.len();
            let asked = host_effect(s, Some(m), HostCall::InputLength);
            let load = HostCall::InputLoad { offset: 0, dest, len: len as i32 };
            &&& asked.reply == HostReply::Number(len as i64)
            &&& asked.state == s && asked.memory == Some(m)
            &&& host_effect(s, Some(m), load).reply is Done
            &&& host_effect(s, Some(m), load).memory matches Some(after) && after.subrange(
                dest as int,
                dest + len,
            ) == s.host.input
        }),
{
    let len = s.host.input.len();
    let part = s.host.input.subrange(0, len as int);
    assert(part =~= s.host.input);
    let after = loaded(s.host.input, m, 0, dest, len as i32);
    assert forall|k: int| 0 <= k < len implies #[trigger] after[dest + k] == s.host.input[k] by {
        loads_copy_the_buffer(
            s.host.input,
            m,
            0,
            dest,
            len as i32,
            GuestFault::InputOutOfBounds,
            dest + k,
        );
    }
    loads_copy_the_buffer(s.host.input, m, 0, dest, len as i32, GuestFault::InputOutOfBounds, 0);
    assert(after.subrange(dest as int, dest + len) =~= s.host.input);
}

/// Call data is allocated exactly where a length that is not below 0 has room in what is left. The
/// guest gets the place where the call data ended before, and the new bytes are all 0.
pub proof fn allocations_are_zeroed(s: HostState, memory: Option<Seq<u8>>, len: i32)
    ensures
        ({
            let effect = host_effect(s, memory, HostCall::CallDataAlloc { len });
            let held = s.call_data.len();
            &&& len >= 0 && held + len <= s.max_call_data ==> effect.state.call_data.len() == held
                + len && effect.state.call_data.take(held as int) == s.call_data && (forall|i: int|
                held <= i < held + len ==> #[trigger] effect.state.call_data[i] == 0)
            &&& len >= 0 && held + len <= s.max_call_data && held <= i32::MAX ==> effect.reply
                == HostReply::Number(held as i64)
            &&& len < 0 || held + len > s.max_call_data ==> effect.state == s && effect.reply
                == HostReply::Number((-1) as i64)
            &&& effect.memory == memory
        }),
{
    let effect = host_effect(s, memory, HostCall::CallDataAlloc { len });
    if len >= 0 && s.call_data.len() + len <= s.max_call_data {
        assert(effect.state.call_data.take(s.call_data.len() as int) =~= s.call_data);
    }
}

/// A guest that draws random bytes finds them in its memory, and the next draw goes on from there.
pub proof fn draws_reach_the_guest(s: HostState, m: Seq<u8>, dest: i32, len: i32)
    requires
        0 <= dest,
        0 <= len,
        dest + len <= m.len(),
    ensures
        ({
            let effect = host_effect(s, Some(m), HostCall::RandomBytes { dest, len });
            &&& effect.reply is Done
            &&& effect.memory matches Some(after) && after.len() == m.len() && after.subrange(
                dest as int,
                dest + len,
            ) == drawn(s.host.rng, len as nat)
            &&& effect.state.host.rng == after_draw(s.host.rng, len as nat)
        }),
{
    let b = drawn(s.host.rng, len as nat);
    let after = guest_written(m, dest, b);
    write_then_read(m, dest, b, 0);
    assert(after.subrange(dest as int, dest + len) =~= b);
}

/// The answer of the database is put behind the call data, as long as there is room for it, and the
/// guest gets its place and its length in one number; where there is no room, nothing is changed and
/// the guest gets the sentinel.
pub proof fn answers_are_kept_whole(s: HostState, answer: Seq<u8>)
    ensures
        s.call_data.len() + answer.len() <= s.max_call_data ==> database_answered(
            s,
            answer,
        ).0.call_data == s.call_data + answer,
        s.call_data.len() + answer.len() <= s.max_call_data && s.call_data.len() <= i32::MAX
            && answer.len() <= u32::MAX ==> database_answered(s, answer).1 == HostReply::Number(
            (s.call_data.len() * 0x1_0000_0000 + answer.len()) as i64,
        ),
        s.call_data.len() + answer.len() > s.max_call_data ==> database_answered(s, answer) == (
            s,
            HostReply::Number((-1) as i64),
        ),
        database_answered(s, answer).0.host == s.host,
{
}

/// A guest is told the time of its invocation, whenever it asks. What it logs is kept as a line
/// with that time, as long as there are lines left; a message that cannot be cut is a fault.
pub proof fn guests_see_one_time(s: HostState, m: Seq<u8>, ptr: i32, len: i32)
    requires
        0 <= ptr,
        0 < len,
        ptr + len <= m.len(),
    ensures
        host_effect(s, Some(m), HostCall::NowMs).reply == HostReply::Number(
            s.host.unix_timestamp_ms,
        ),
        ({
            let message = lossy_text(m.subrange(ptr as int, ptr + len));
            let effect = host_effect(s, Some(m), HostCall::Log { ptr, len });
            &&& cuttable(message) <==> effect.reply is Done
            &&& !cuttable(message) ==> effect.reply == HostReply::Fault(GuestFault::LogUncut)
            &&& cuttable(message) && s.host.log_lines.len() < 256 ==> {
                &&& effect.state.host.log_lines.len() == s.host.log_lines.len() + 1
                &&& effect.state.host.log_lines.drop_last() == s.host.log_lines
                &&& effect.state.host.log_lines.last() == line_of(
                    message,
                    s.host.unix_timestamp_ms,
                )
            }
        }),
{
    let effect = host_effect(s, Some(m), HostCall::Log { ptr, len });
    if effect.reply is Done && s.host.log_lines.len() < 256 {
        assert(effect.state.host.log_lines.drop_last() =~= s.host.log_lines);
    }
}

/// What the database answered, and what was allocated, can be loaded: a guest that loads a range of
/// its call data finds it in its memory.
pub proof fn guests_get_their_call_data(s: HostState, m: Seq<u8>, offset: i32, dest: i32, len: i32)
    requires
        0 <= offset,
        0 <= len,
        offset + len <= s.call_data.len(),
        0 <= dest,
        dest + len <= m.len(),
    ensures
        ({
            let effect = host_effect(s, Some(m), HostCall::CallDataLoad { offset, dest, len });
            &&& effect.reply is Done
            &&& effect.memory matches Some(after) && after.subrange(dest as int, dest + len)
                == s.call_data.subrange(offset as int, offset + len)
        }),
{
    let after = loaded(s.call_data, m, offset, dest, len);
    assert forall|k: int| 0 <= k < len implies #[trigger] after[dest + k] == s.call_data[offset
        + k] by {
        loads_copy_the_buffer(
            s.call_data,
            m,
            offset,
            dest,
            len,
            GuestFault::CallDataOutOfBounds,
            dest + k,
        );
    }
    loads_copy_the_buffer(s.call_data, m, offset, dest, len, GuestFault::CallDataOutOfBounds, 0);
    assert(after.subrange(dest as int, dest + len) =~= s.call_data.subrange(
        offset as int,
        offset + len,
    ));
}

} // verus!
