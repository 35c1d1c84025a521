//! The contract between the host and guest modules.
//!
//! The host owns all memory that crosses the boundary; guests never touch host memory and never
//! export an allocator. A guest exports `__convex_run() -> i32`, which runs a function, and
//! `__convex_functions() -> i32`, which lists the functions of the module. Everything else goes
//! through the host functions under the module `env`.

use vstd::prelude::*;

verus! {

/// The import module of all host functions.
pub const HOST_FN_MODULE: &'static str = "env";

/// The guest's dispatcher.
pub const GUEST_RUN: &'static str = "__convex_run";

/// The guest export that lists the functions in the module.
pub const GUEST_FUNCTIONS: &'static str = "__convex_functions";

/// The keys of the input.
pub const INPUT_FUNCTION_KEY: &'static str = "function";

pub const INPUT_ARGS_KEY: &'static str = "args";

/// The host functions for the input.
pub const INPUT_LENGTH: &'static str = "__convex_input_length";

pub const INPUT_LOAD: &'static str = "__convex_input_load";

/// The host functions for call data.
pub const CALL_DATA_ALLOC: &'static str = "__convex_alloc";

pub const CALL_DATA_LOAD: &'static str = "__convex_call_data_load";

/// The host functions that report the result.
pub const OUTPUT_SET: &'static str = "__convex_output_set";

pub const ERROR_SET: &'static str = "__convex_error_set";

/// Other host functions.
pub const LOG: &'static str = "__convex_log";

pub const NOW_MS: &'static str = "__convex_now_ms";

pub const RANDOM_BYTES: &'static str = "__convex_random_bytes";

/// The host functions for the database.
pub const DB_GET: &'static str = "__convex_db_get";

pub const DB_INSERT: &'static str = "__convex_db_insert";

pub const DB_REPLACE: &'static str = "__convex_db_replace";

pub const DB_PATCH: &'static str = "__convex_db_patch";

pub const DB_DELETE: &'static str = "__convex_db_delete";

pub const DB_COUNT: &'static str = "__convex_db_count";

pub const DB_QUERY: &'static str = "__convex_db_query";

/// What `__convex_run` returns on success.
pub const RUN_OK: i32 = 0;

/// What a database host function returns on a system error.
pub const DB_ERROR: i64 = -1;

/// Pack an offset into call data and a length into one number: the offset in the high half, and
/// the length in the low half.
pub fn pack_result(offset: u32, len: u32) -> (r: i64)
    ensures
        r as u64 == offset * 0x1_0000_0000 + len,
{
    let r = ((offset as i64) << 32) | (len as i64);
    assert((((offset as i64) << 32) | (len as i64)) as u64 == (offset as u64) * 0x1_0000_0000
        + len as u64) by (bit_vector);
    r
}

/// The offset in a packed result.
pub fn unpack_offset(result: i64) -> (r: u32)
    ensures
        r == (result as u64) / 0x1_0000_0000,
{
    assert((result >> 32) as u32 == (result as u64) / 0x1_0000_0000) by (bit_vector);
    (result >> 32) as u32
}

/// The length in a packed result.
pub fn unpack_len(result: i64) -> (r: u32)
    ensures
        r == (result as u64) % 0x1_0000_0000,
{
    assert(result as u32 == (result as u64) % 0x1_0000_0000) by (bit_vector);
    result as u32
}

/// A packed result gives back what was packed.
pub proof fn pack_round_trip(offset: u32, len: u32, packed: i64)
    requires
        packed as u64 == offset * 0x1_0000_0000 + len,
    ensures
        (packed as u64) / 0x1_0000_0000 == offset,
        (packed as u64) % 0x1_0000_0000 == len,
{
}

/// The sentinel for a system error is told apart from every result whose offset fits the range of
/// call data.
pub proof fn sentinel_is_no_result(offset: u32, len: u32, packed: i64)
    requires
        packed as u64 == offset * 0x1_0000_0000 + len,
        offset < u32::MAX,
    ensures
        packed != DB_ERROR,
{
    if packed == DB_ERROR {
        assert(packed as u64 == 0xffff_ffff_ffff_ffff) by (bit_vector)
            requires
                packed == -1,
        ;
    }
}

/// What is packed is unpacked, by the functions that do it.
pub proof fn packed_results_unpack(offset: u32, len: u32, packed: i64, at: u32, size: u32)
    requires
        call_ensures(pack_result, (offset, len), packed),
        call_ensures(unpack_offset, (packed,), at),
        call_ensures(unpack_len, (packed,), size),
    ensures
        at == offset,
        size == len,
{
    pack_round_trip(offset, len, packed);
}

} // verus!
