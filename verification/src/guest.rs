//! Guest memory: what the host reads from it and writes to it.

use vstd::prelude::*;
use vstd::slice::slice_subrange;

verus! {

/// Why a host function fails, which traps the guest.
#[derive(Debug, Clone, Copy, PartialEq, Eq, Structural)]
pub enum GuestFault {
    NegativeLength,
    NegativePointer,
    MemoryMissing,
    ReadOutOfBounds,
    WriteOutOfBounds,
    InputOutOfBounds,
    CallDataOutOfBounds,
    /// A log message is too long and cannot be cut at the longest length.
    LogUncut,
}

/// What is said of a fault.
pub open spec fn guest_fault_text(f: GuestFault) -> Seq<char> {
    match f {
        GuestFault::NegativeLength => "negative length"@,
        GuestFault::NegativePointer => "negative pointer"@,
        GuestFault::MemoryMissing => "Guest memory export not found"@,
        GuestFault::ReadOutOfBounds => "guest memory read out of bounds"@,
        GuestFault::WriteOutOfBounds => "guest memory write out of bounds"@,
        GuestFault::InputOutOfBounds => "__convex_input_load out of bounds"@,
        GuestFault::CallDataOutOfBounds => "__convex_call_data_load out of bounds"@,
        GuestFault::LogUncut => "log message cannot be cut at 32768 bytes"@,
    }
}

impl GuestFault {
    /// What is said of a fault.
    pub fn message(&self) -> (r: String)
        ensures
            r@ == guest_fault_text(*self),
    {
        let text = match self {
            GuestFault::NegativeLength => "negative length",
            GuestFault::NegativePointer => "negative pointer",
            GuestFault::MemoryMissing => "Guest memory export not found",
            GuestFault::ReadOutOfBounds => "guest memory read out of bounds",
            GuestFault::WriteOutOfBounds => "guest memory write out of bounds",
            GuestFault::InputOutOfBounds => "__convex_input_load out of bounds",
            GuestFault::CallDataOutOfBounds => "__convex_call_data_load out of bounds",
            GuestFault::LogUncut => "log message cannot be cut at 32768 bytes",
        };
        text.to_owned()
    }
}

/// The range that a pointer and a length name in a buffer, if it lies in the buffer.
pub open spec fn range_in(ptr: i32, len: i32, size: nat) -> bool {
    0 <= ptr && 0 <= len && ptr + len <= size
}

/// Check a pointer and a length against the size of a buffer.
pub fn checked_range(ptr: i32, len: i32, size: usize) -> (r: Option<(usize, usize)>)
    ensures
        r == (if range_in(ptr, len, size as nat) {
            Some((ptr as usize, len as usize))
        } else {
            None
        }),
{
    if ptr < 0 || len < 0 {
        return None;
    }
    let p: usize = ptr as usize;
    let n: usize = len as usize;
    match p.checked_add(n) {
        None => None,
        Some(end) => if end <= size {
            Some((p, n))
        } else {
            None
        },
    }
}

/// What the host reads from guest memory. Nothing is read where the length is 0, whatever the
/// pointer is.
pub open spec fn guest_read(memory: Option<Seq<u8>>, ptr: i32, len: i32) -> Result<
    Seq<u8>,
    GuestFault,
> {
    if len < 0 {
        Err(GuestFault::NegativeLength)
    } else if len == 0 {
        Ok(Seq::empty())
    } else if ptr < 0 {
        Err(GuestFault::NegativePointer)
    } else {
        match memory {
            None => Err(GuestFault::MemoryMissing),
            Some(m) => if ptr + len > m.len() {
                Err(GuestFault::ReadOutOfBounds)
            } else {
                Ok(m.subrange(ptr as int, ptr + len))
            },
        }
    }
}

/// The content of guest memory that is there or not.
pub open spec fn content(memory: Option<&[u8]>) -> Option<Seq<u8>> {
    match memory {
        Some(m) => Some(m@),
        None => None,
    }
}

/// Read from guest memory. The bounds are checked before anything is allocated.
pub fn read_guest(memory: Option<&[u8]>, ptr: i32, len: i32) -> (r: Result<Vec<u8>, GuestFault>)
    ensures
        match guest_read(content(memory), ptr, len) {
            Ok(b) => r matches Ok(v) && v@ == b,
            Err(f) => r matches Err(e) && e == f,
        },
{
    if len < 0 {
        return Err(GuestFault::NegativeLength);
    }
    if len == 0 {
        return Ok(Vec::new());
    }
    if ptr < 0 {
        return Err(GuestFault::NegativePointer);
    }
    match memory {
        None => Err(GuestFault::MemoryMissing),
        Some(m) => match checked_range(ptr, len, m.len()) {
            None => Err(GuestFault::ReadOutOfBounds),
            Some((p, n)) => Ok(copied(m, p, n)),
        },
    }
}

/// A copy of part of a buffer.
pub fn copied(b: &[u8], from: usize, len: usize) -> (r: Vec<u8>)
    requires
        from + len <= b@.len(),
    ensures
        r@ == b@.subrange(from as int, from + len),
{
    let size: usize = b.len();
    assert(from + len <= size);
    let mut out: Vec<u8> = Vec::new();
    out.extend_from_slice(slice_subrange(b, from, from + len));
    assert(out@ =~= b@.subrange(from as int, from + len));
    out
}

/// A buffer with some bytes written at a position.
pub open spec fn written(m: Seq<u8>, at: int, b: Seq<u8>) -> Seq<u8> {
    m.take(at) + b + m.skip(at + b.len())
}

/// Why some bytes cannot be written to guest memory, if they cannot. Nothing is written where
/// there are no bytes, whatever the pointer is.
pub open spec fn write_fault(memory: Option<Seq<u8>>, ptr: i32, b: Seq<u8>) -> Option<GuestFault> {
    if b.len() == 0 {
        None
    } else if ptr < 0 {
        Some(GuestFault::NegativePointer)
    } else {
        match memory {
            None => Some(GuestFault::MemoryMissing),
            Some(m) => if ptr + b.len() > m.len() {
                Some(GuestFault::WriteOutOfBounds)
            } else {
                None
            },
        }
    }
}

/// Guest memory after some bytes were written to it.
pub open spec fn guest_written(m: Seq<u8>, ptr: i32, b: Seq<u8>) -> Seq<u8> {
    if write_fault(Some(m), ptr, b) is Some || b.len() == 0 {
        m
    } else {
        written(m, ptr as int, b)
    }
}

/// Write to guest memory.
pub fn write_guest(memory: Option<&mut [u8]>, ptr: i32, b: &[u8]) -> (r: Result<(), GuestFault>)
    ensures
        match memory {
            Some(m) => {
                &&& final(m)@ == guest_written(m@, ptr, b@)
                &&& match write_fault(Some(m@), ptr, b@) {
                    Some(f) => r matches Err(e) && e == f,
                    None => r is Ok,
                }
            },
            None => match write_fault(None, ptr, b@) {
                Some(f) => r matches Err(e) && e == f,
                None => r is Ok,
            },
        },
{
    match memory {
        None => if b.len() == 0 {
            Ok(())
        } else if ptr < 0 {
            Err(GuestFault::NegativePointer)
        } else {
            Err(GuestFault::MemoryMissing)
        },
        Some(m) => write_memory(m, ptr, b),
    }
}

/// Write to guest memory that is there.
pub fn write_memory(m: &mut [u8], ptr: i32, b: &[u8]) -> (r: Result<(), GuestFault>)
    ensures
        final(m)@ == guest_written(old(m)@, ptr, b@),
        match write_fault(Some(old(m)@), ptr, b@) {
            Some(f) => r matches Err(e) && e == f,
            None => r is Ok,
        },
{
    if b.len() == 0 {
        return Ok(());
    }
    if ptr < 0 {
        return Err(GuestFault::NegativePointer);
    }
    let at: usize = ptr as usize;
    let size: usize = m.len();
    match at.checked_add(b.len()) {
        None => Err(GuestFault::WriteOutOfBounds),
        Some(end) => if end > size {
            Err(GuestFault::WriteOutOfBounds)
        } else {
            copy_into(m, at, b);
            Ok(())
        },
    }
}

fn copy_into(m: &mut [u8], at: usize, b: &[u8])
    requires
        at + b@.len() <= old(m)@.len(),
    ensures
        final(m)@ == written(old(m)@, at as int, b@),
{
    let ghost before = m@;
    let size: usize = m.len();
    assert(before.len() == size);
    let mut i: usize = 0;
    assert(before =~= written(before, at as int, b@.take(0)));
    while i < b.len()
        invariant
            i <= b.len(),
            at + b@.len() <= before.len(),
            m@.len() == before.len(),
            before.len() <= usize::MAX,
            m@ == written(before, at as int, b@.take(i as int)),
        decreases b.len() - i,
    {
        m[at + i] = b[i];
        i += 1;
        assert(m@ =~= written(before, at as int, b@.take(i as int)));
    }
    assert(b@.take(i as int) =~= b@);
}

/// A write to guest memory changes nothing outside the range that it names, and reading that range
/// gives back what was written.
pub proof fn write_then_read(m: Seq<u8>, ptr: i32, b: Seq<u8>, k: int)
    requires
        write_fault(Some(m), ptr, b) is None,
        b.len() <= i32::MAX,
    ensures
        guest_read(Some(guest_written(m, ptr, b)), ptr, b.len() as i32) == Ok::<
            Seq<u8>,
            GuestFault,
        >(b),
        guest_written(m, ptr, b).len() == m.len(),
        0 <= k < m.len() && (k < ptr || k >= ptr + b.len()) ==> guest_written(m, ptr, b)[k] == m[k],
{
    let after = guest_written(m, ptr, b);
    if b.len() > 0 {
        assert(after.subrange(ptr as int, ptr + b.len()) =~= b);
    } else {
        assert(b =~= Seq::empty());
    }
}

/// What a guest shows is read exactly where it is nothing, or where it lies in the memory from its
/// first byte to its last; and what is read is what the memory holds there.
pub proof fn reads_give_the_memory(memory: Option<Seq<u8>>, ptr: i32, len: i32, i: int)
    ensures
        guest_read(memory, ptr, len) is Ok <==> len == 0 || (len > 0 && ptr >= 0 && (
        memory matches Some(m) && ptr + len <= m.len())),
        guest_read(memory, ptr, len) matches Ok(b) ==> b.len() == len,
        guest_read(memory, ptr, len) matches Ok(b) ==> 0 <= i < len ==> b[i] == memory->0[ptr + i],
{
}

/// A read fails for one reason at a time: a length below 0 comes first, then a place below 0, then
/// a guest without memory, and last the end of the memory.
pub proof fn failed_reads_say_why(memory: Option<Seq<u8>>, ptr: i32, len: i32)
    ensures
        len < 0 <==> guest_read(memory, ptr, len) == Err::<Seq<u8>, GuestFault>(
            GuestFault::NegativeLength,
        ),
        len > 0 && ptr < 0 <==> guest_read(memory, ptr, len) == Err::<Seq<u8>, GuestFault>(
            GuestFault::NegativePointer,
        ),
        len > 0 && ptr >= 0 && memory is None <==> guest_read(memory, ptr, len) == Err::<
            Seq<u8>,
            GuestFault,
        >(GuestFault::MemoryMissing),
        len > 0 && ptr >= 0 && (memory matches Some(m) && ptr + len > m.len()) <==> guest_read(
            memory,
            ptr,
            len,
        ) == Err::<Seq<u8>, GuestFault>(GuestFault::ReadOutOfBounds),
{
}

/// A write is carried out exactly where it writes nothing, or where all of it has room in the
/// memory; one that fails changes nothing, and says why as a read does.
pub proof fn writes_stay_in_the_memory(memory: Option<Seq<u8>>, ptr: i32, b: Seq<u8>)
    ensures
        write_fault(memory, ptr, b) is None <==> b.len() == 0 || (ptr >= 0 && (
        memory matches Some(m) && ptr + b.len() <= m.len())),
        b.len() > 0 && ptr < 0 <==> write_fault(memory, ptr, b) == Some(
            GuestFault::NegativePointer,
        ),
        b.len() > 0 && ptr >= 0 && memory is None <==> write_fault(memory, ptr, b) == Some(
            GuestFault::MemoryMissing,
        ),
        b.len() > 0 && ptr >= 0 && (memory matches Some(m) && ptr + b.len() > m.len())
            <==> write_fault(memory, ptr, b) == Some(GuestFault::WriteOutOfBounds),
        memory matches Some(m) ==> write_fault(memory, ptr, b) is Some ==> guest_written(m, ptr, b)
            == m,
        b.len() == 0 ==> (memory matches Some(m) ==> guest_written(m, ptr, b) == m),
{
}

/// A range lies in a buffer exactly where neither end of it lies outside.
pub proof fn ranges_lie_inside(ptr: i32, len: i32, size: nat)
    ensures
        range_in(ptr, len, size) <==> ptr >= 0 && len >= 0 && ptr <= size && len <= size - ptr,
{
}

/// Each fault has a text of its own.
pub proof fn faults_are_told_apart(a: GuestFault, b: GuestFault)
    ensures
        guest_fault_text(a) == guest_fault_text(b) ==> a == b,
{
    reveal_strlit("negative length");
    reveal_strlit("negative pointer");
    reveal_strlit("Guest memory export not found");
    reveal_strlit("guest memory read out of bounds");
    reveal_strlit("guest memory write out of bounds");
    reveal_strlit("__convex_input_load out of bounds");
    reveal_strlit("__convex_call_data_load out of bounds");
    reveal_strlit("log message cannot be cut at 32768 bytes");
    assert(guest_fault_text(a).len() == guest_fault_text(b).len() ==> a == b);
}

/// A range is given exactly where it lies in the buffer.
pub proof fn checked_ranges_lie_inside(
    ptr: i32,
    len: i32,
    size: usize,
    range: Option<(usize, usize)>,
)
    requires
        call_ensures(checked_range, (ptr, len, size), range),
    ensures
        range is Some <==> ptr >= 0 && len >= 0 && ptr + len <= size,
        range matches Some((at, n)) ==> at == ptr && n == len,
{
}

/// What is read from a guest is what its memory holds, and fails exactly where there is something
/// to read that does not lie in the memory.
pub proof fn guests_are_read(
    memory: &[u8],
    ptr: i32,
    len: i32,
    read: Result<Vec<u8>, GuestFault>,
)
    requires
        call_ensures(read_guest, (Some(memory), ptr, len), read),
    ensures
        read is Ok <==> len == 0 || (len > 0 && ptr >= 0 && ptr + len <= memory@.len()),
        read matches Ok(b) ==> b@.len() == len && (len > 0 ==> b@ == memory@.subrange(
            ptr as int,
            ptr + len,
        )),
{
}

} // verus!
