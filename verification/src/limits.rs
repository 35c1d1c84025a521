//! Resource limits on guest modules.

use vstd::prelude::*;

verus! {

/// The linear memory that a module may use, in bytes.
pub const DEFAULT_MAX_MEMORY_BYTES: u64 = 268_435_456;

/// The largest module binary, in bytes.
pub const DEFAULT_MAX_MODULE_SIZE: usize = 33_554_432;

/// The most call data that the host holds for a guest, in bytes.
pub const DEFAULT_MAX_CALL_DATA: usize = 16_777_216;

/// The CPU budget of one invocation, in fuel units, which are about one instruction each.
pub const DEFAULT_FUEL: u64 = 10_000_000_000;

/// The wall-clock timeout of an invocation, in milliseconds.
pub const DEFAULT_USER_TIMEOUT_MS: u64 = 30_000;

/// The wall-clock timeout of compiling a module, in milliseconds.
pub const DEFAULT_COMPILE_TIMEOUT_MS: u64 = 30_000;

/// The resource limits of one execution.
#[derive(Debug, Clone, Copy)]
pub struct WasmLimits {
    /// The most linear memory, in bytes.
    pub max_memory_bytes: u64,
    /// The largest module binary, in bytes.
    pub max_module_size: usize,
    /// The most call data that the host holds for the guest, in bytes.
    pub max_call_data: usize,
    /// The CPU budget, in fuel units.
    pub fuel: u64,
    /// The wall-clock timeout of the invocation, in milliseconds. It also covers time spent inside
    /// host functions, which fuel does not.
    pub timeout_ms: u64,
    /// The wall-clock timeout of compiling the module, in milliseconds.
    pub compile_timeout_ms: u64,
}

impl WasmLimits {
    /// What is left of the wall-clock timeout after some time, in milliseconds. The stages of an
    /// invocation share the timeout: each gets what those before it left.
    pub fn remaining_ms(&self, elapsed_ms: u64) -> (r: u64)
        ensures
            r == (if elapsed_ms <= self.timeout_ms {
                self.timeout_ms - elapsed_ms
            } else {
                0
            }),
    {
        if elapsed_ms <= self.timeout_ms {
            self.timeout_ms - elapsed_ms
        } else {
            0
        }
    }
}

impl Default for WasmLimits {
    fn default() -> (r: WasmLimits)
        ensures
            r.max_memory_bytes == 256 * 1024 * 1024,
            r.max_module_size == 32 * 1024 * 1024,
            r.max_call_data == 16 * 1024 * 1024,
            r.fuel == 10_000_000_000,
            r.timeout_ms == 30 * 1000,
            r.compile_timeout_ms == 30 * 1000,
    {
        WasmLimits {
            max_memory_bytes: DEFAULT_MAX_MEMORY_BYTES,
            max_module_size: DEFAULT_MAX_MODULE_SIZE,
            max_call_data: DEFAULT_MAX_CALL_DATA,
            fuel: DEFAULT_FUEL,
            timeout_ms: DEFAULT_USER_TIMEOUT_MS,
            compile_timeout_ms: DEFAULT_COMPILE_TIMEOUT_MS,
        }
    }
}

/// What is left of the timeout and what has passed of it make up the whole, until nothing is left.
pub proof fn time_runs_out(limits: WasmLimits, elapsed_ms: u64, left: u64)
    requires
        call_ensures(WasmLimits::remaining_ms, (&limits, elapsed_ms), left),
    ensures
        elapsed_ms <= limits.timeout_ms ==> left + elapsed_ms == limits.timeout_ms,
        elapsed_ms >= limits.timeout_ms ==> left == 0,
{
}

/// The limits that hold where none are set: 256 MiB of memory, 32 MiB of module, 16 MiB of call
/// data, ten thousand million units of fuel, and half a minute each to run and to compile.
pub proof fn limits_hold_by_default(limits: WasmLimits)
    requires
        call_ensures(WasmLimits::default, (), limits),
    ensures
        limits.max_memory_bytes == 0x1000_0000,
        limits.max_module_size == 0x200_0000,
        limits.max_call_data == 0x100_0000,
        limits.fuel == 10_000_000_000,
        limits.timeout_ms == 30_000 && limits.compile_timeout_ms == limits.timeout_ms,
{
}

} // verus!
