//! The sections of a WebAssembly binary, as far as they declare memories.
//!
//! A binary is a header and a row of sections. Each section has an id, the length of what it holds,
//! and that many bytes. The memory section holds a count and that many memory types.

use vstd::prelude::*;

verus! {

/// The first four bytes of every binary.
pub open spec fn magic() -> Seq<u8> {
    seq![0u8, 0x61u8, 0x73u8, 0x6du8]
}

/// The header of a binary with a module: the magic number and the version.
pub open spec fn module_header() -> Seq<u8> {
    seq![0u8, 0x61u8, 0x73u8, 0x6du8, 1u8, 0u8, 0u8, 0u8]
}

/// The id of the memory section.
pub const MEMORY_SECTION: u8 = 5;

/// The number that stands at a position, seven bits to a byte and the lowest first, and the
/// position behind it. It takes at most `bytes` bytes and is at most `limit`.
pub open spec fn number_at(b: Seq<u8>, i: int, bytes: nat, limit: nat) -> Option<(nat, int)>
    decreases bytes,
{
    if bytes == 0 || !(0 <= i < b.len()) {
        None
    } else if b[i] < 128 {
        if b[i] <= limit {
            Some((b[i] as nat, i + 1))
        } else {
            None
        }
    } else {
        match number_at(b, i + 1, (bytes - 1) as nat, limit) {
            None => None,
            Some((rest, next)) => if (b[i] - 128) + 128 * rest <= limit {
                Some(((b[i] - 128 + 128 * rest) as nat, next))
            } else {
                None
            },
        }
    }
}

/// A number of 32 bits at a position.
pub open spec fn u32_at(b: Seq<u8>, i: int) -> Option<(nat, int)> {
    number_at(b, i, 5, u32::MAX as nat)
}

/// A number of 64 bits at a position.
pub open spec fn u64_at(b: Seq<u8>, i: int) -> Option<(nat, int)> {
    number_at(b, i, 10, u64::MAX as nat)
}

/// The maximum of the memory whose type stands at a position, in pages, and the position behind
/// it. The flags say whether there is a maximum (1) and whether sizes have 64 bits (4).
pub open spec fn memory_at(b: Seq<u8>, i: int) -> Option<(Option<u64>, int)> {
    if !(0 <= i < b.len()) || b[i] >= 8 {
        None
    } else {
        let is_wide = (b[i] / 4) % 2 == 1;
        match if is_wide {
            u64_at(b, i + 1)
        } else {
            u32_at(b, i + 1)
        } {
            None => None,
            Some((_, after)) => if b[i] % 2 == 0 {
                Some((None, after))
            } else {
                match if is_wide {
                    u64_at(b, after)
                } else {
                    u32_at(b, after)
                } {
                    None => None,
                    Some((max, next)) => Some((Some(max as u64), next)),
                }
            },
        }
    }
}

/// The maxima of the memories whose types stand at a position, one after the other.
pub open spec fn memories_at(b: Seq<u8>, i: int, n: nat) -> Option<Seq<Option<u64>>>
    decreases n,
{
    if n == 0 {
        Some(Seq::empty())
    } else {
        match memory_at(b, i) {
            None => None,
            Some((max, next)) => match memories_at(b, next, (n - 1) as nat) {
                None => None,
                Some(rest) => Some(seq![max] + rest),
            },
        }
    }
}

/// The maxima of the memories that a memory section declares.
pub open spec fn section_memories(section: Seq<u8>) -> Option<Seq<Option<u64>>> {
    match u32_at(section, 0) {
        None => None,
        Some((n, i)) => memories_at(section, i, n),
    }
}

/// The maxima of the memories that the sections from a position on declare. Where there is no
/// memory section, there is no memory.
pub open spec fn memories_from(b: Seq<u8>, i: int) -> Option<Seq<Option<u64>>>
    decreases b.len() - i,
{
    if i >= b.len() {
        Some(Seq::empty())
    } else {
        match u32_at(b, i + 1) {
            None => None,
            Some((size, start)) => if start <= i || start + size > b.len() {
                None
            } else if b[i] == MEMORY_SECTION {
                section_memories(b.subrange(start, start + size))
            } else {
                memories_from(b, start + size)
            },
        }
    }
}

/// The maxima of the memories that the module in a binary declares for itself, in pages; nothing
/// where the binary holds no module that can be read.
pub open spec fn declared_maxima(b: Seq<u8>) -> Option<Seq<Option<u64>>> {
    if module_header().is_prefix_of(b) {
        memories_from(b, 8)
    } else {
        None
    }
}

fn read_number(b: &[u8], i: usize, bytes: u8, limit: u64) -> (r: Option<(u64, usize)>)
    ensures
        match r {
            None => number_at(b@, i as int, bytes as nat, limit as nat) is None,
            Some((n, next)) => i < next <= b@.len() && number_at(
                b@,
                i as int,
                bytes as nat,
                limit as nat,
            ) == Some((n as nat, next as int)),
        },
    decreases bytes,
{
    if bytes == 0 || i >= b.len() {
        return None;
    }
    let byte: u8 = b[i];
    if byte < 128 {
        return if byte as u64 <= limit {
            Some((byte as u64, i + 1))
        } else {
            None
        };
    }
    match read_number(b, i + 1, bytes - 1, limit) {
        None => None,
        Some((rest, next)) => {
            let n: u128 = (byte - 128) as u128 + 128 * (rest as u128);
            if n <= limit as u128 {
                Some((n as u64, next))
            } else {
                None
            }
        },
    }
}

fn read_size(b: &[u8], i: usize, is_wide: bool) -> (r: Option<(u64, usize)>)
    ensures
        match r {
            None => (if is_wide {
                u64_at(b@, i as int)
            } else {
                u32_at(b@, i as int)
            }) is None,
            Some((n, next)) => i < next <= b@.len() && (if is_wide {
                u64_at(b@, i as int)
            } else {
                u32_at(b@, i as int)
            }) == Some((n as nat, next as int)),
        },
{
    if is_wide {
        read_number(b, i, 10, 0xffff_ffff_ffff_ffff)
    } else {
        read_number(b, i, 5, 0xffff_ffff)
    }
}

fn read_memory(b: &[u8], i: usize) -> (r: Option<(Option<u64>, usize)>)
    ensures
        match r {
            None => memory_at(b@, i as int) is None,
            Some((max, next)) => i < next <= b@.len() && memory_at(b@, i as int) == Some(
                (max, next as int),
            ),
        },
{
    if i >= b.len() || b[i] >= 8 {
        return None;
    }
    let is_wide = (b[i] / 4) % 2 == 1;
    match read_size(b, i + 1, is_wide) {
        None => None,
        Some((_, after)) => if b[i] % 2 == 0 {
            Some((None, after))
        } else {
            match read_size(b, after, is_wide) {
                None => None,
                Some((max, next)) => Some((Some(max), next)),
            }
        },
    }
}

fn read_memories(section: &[u8]) -> (r: Option<Vec<Option<u64>>>)
    ensures
        match r {
            None => section_memories(section@) is None,
            Some(ms) => section_memories(section@) == Some(ms@),
        },
{
    let (n, first) = match read_number(section, 0, 5, 0xffff_ffff) {
        None => {
            return None;
        },
        Some(found) => found,
    };
    let mut out: Vec<Option<u64>> = Vec::new();
    let mut i: usize = first;
    let mut left: u64 = n;
    assert(match memories_at(section@, i as int, left as nat) {
        None => true,
        Some(rest) => out@ + rest =~= rest,
    });
    while left > 0
        invariant
            section_memories(section@) == (match memories_at(section@, i as int, left as nat) {
                None => None,
                Some(rest) => Some(out@ + rest),
            }),
        decreases left,
    {
        match read_memory(section, i) {
            None => {
                return None;
            },
            Some((max, next)) => {
                let ghost before = out@;
                out.push(max);
                proof {
                    if let Some(rest) = memories_at(section@, next as int, (left - 1) as nat) {
                        assert(before + (seq![max] + rest) =~= out@ + rest);
                    }
                }
                i = next;
                left -= 1;
            },
        }
    }
    assert(out@ + Seq::empty() =~= out@);
    Some(out)
}

fn has_module_header(b: &[u8]) -> (r: bool)
    ensures
        r == module_header().is_prefix_of(b@),
{
    if b.len() < 8 {
        return false;
    }
    let r = b[0] == 0 && b[1] == 0x61 && b[2] == 0x73 && b[3] == 0x6d && b[4] == 1 && b[5] == 0
        && b[6] == 0 && b[7] == 0;
    proof {
        let head = b@.subrange(0, 8);
        if r {
            assert(module_header() =~= head);
        } else if module_header() == head {
            assert(head[0] == 0 && head[1] == 0x61 && head[2] == 0x73 && head[3] == 0x6d && head[4]
                == 1 && head[5] == 0 && head[6] == 0 && head[7] == 0);
        }
    }
    r
}

/// Read the maxima of the memories that the module in a binary declares for itself, in pages.
pub fn read_declared_maxima(b: &[u8]) -> (r: Option<Vec<Option<u64>>>)
    ensures
        match r {
            None => declared_maxima(b@) is None,
            Some(ms) => declared_maxima(b@) == Some(ms@),
        },
{
    if !has_module_header(b) {
        return None;
    }
    let mut i: usize = 8;
    while i < b.len()
        invariant
            i <= b.len(),
            declared_maxima(b@) == memories_from(b@, i as int),
        decreases b.len() - i,
    {
        let (size, start) = match read_number(b, i + 1, 5, 0xffff_ffff) {
            None => {
                return None;
            },
            Some(found) => found,
        };
        if size > (b.len() - start) as u64 {
            return None;
        }
        let end: usize = start + size as usize;
        if b[i] == MEMORY_SECTION {
            let section = vstd::slice::slice_subrange(b, start, end);
            return read_memories(section);
        }
        i = end;
    }
    let none: Vec<Option<u64>> = Vec::new();
    assert(none@ =~= Seq::empty());
    Some(none)
}

/// A number as a module writes it: seven bits to a byte, the lowest first, with the highest bit set
/// in each byte but the last.
pub open spec fn number_bytes(n: nat) -> Seq<u8>
    decreases n,
{
    if n < 128 {
        seq![n as u8]
    } else {
        seq![(n % 128 + 128) as u8] + number_bytes(n / 128)
    }
}

/// Whether a number is written at a place.
pub open spec fn is_written_at(b: Seq<u8>, i: int, n: nat) -> bool {
    &&& 0 <= i
    &&& i + number_bytes(n).len() <= b.len()
    &&& b.subrange(i, i + number_bytes(n).len()) == number_bytes(n)
}

spec fn seven_bits(k: nat) -> nat
    decreases k,
{
    if k == 0 {
        1
    } else {
        128 * seven_bits((k - 1) as nat)
    }
}

proof fn lemma_number_length(n: nat, k: nat)
    requires
        k > 0,
        n < seven_bits(k),
    ensures
        0 < number_bytes(n).len() <= k,
    decreases n,
{
    if n >= 128 {
        assert(k > 1) by {
            if k == 1 {
                assert(seven_bits(1) == 128 * seven_bits(0));
            }
        }
        assert(seven_bits(k) == 128 * seven_bits((k - 1) as nat));
        lemma_number_length(n / 128, (k - 1) as nat);
    }
}

proof fn lemma_size_lengths(n: nat)
    ensures
        n <= u32::MAX ==> 0 < number_bytes(n).len() <= 5,
        n <= u64::MAX ==> 0 < number_bytes(n).len() <= 10,
{
    reveal_with_fuel(seven_bits, 11);
    assert(seven_bits(5) == 0x8_0000_0000);
    assert(seven_bits(10) == 0x40_0000_0000_0000_0000);
    if n <= u32::MAX {
        lemma_number_length(n, 5);
    }
    if n <= u64::MAX {
        lemma_number_length(n, 10);
    }
}

/// A number is read back from where it is written, and reading goes on behind it, as long as it is
/// within the limit and takes no more bytes than it may.
pub proof fn written_numbers_are_read(b: Seq<u8>, i: int, n: nat, bytes: nat, limit: nat)
    requires
        is_written_at(b, i, n),
        number_bytes(n).len() <= bytes,
        n <= limit,
    ensures
        number_at(b, i, bytes, limit) == Some((n, i + number_bytes(n).len())),
    decreases n,
{
    let written = number_bytes(n);
    let part = b.subrange(i, i + written.len());
    assert(part[0] == b[i]);
    if n >= 128 {
        let rest = number_bytes(n / 128);
        assert(written[0] == (n % 128 + 128) as u8);
        assert(b.subrange(i + 1, i + 1 + rest.len()) =~= rest) by {
            assert forall|j: int| 0 <= j < rest.len() implies b[i + 1 + j] == rest[j] by {
                assert(part[j + 1] == written[j + 1]);
            }
        }
        written_numbers_are_read(b, i + 1, n / 128, (bytes - 1) as nat, limit);
    }
}

/// A number that is read is within the limit, and reading moves on by at most as many bytes as the
/// number may take, and not past the end.
pub proof fn read_numbers_are_bounded(b: Seq<u8>, i: int, bytes: nat, limit: nat)
    ensures
        number_at(b, i, bytes, limit) matches Some((n, next)) ==> n <= limit && i < next <= i + bytes
            && next <= b.len(),
    decreases bytes,
{
    if bytes > 0 {
        read_numbers_are_bounded(b, i + 1, (bytes - 1) as nat, limit);
    }
}

/// A memory is read from its flags and its sizes, in 32 bits, or in 64 where the flag for that is
/// set: it has a maximum exactly where the first flag is set, and the maximum is then the second of
/// its sizes. Unknown flags are refused.
pub proof fn memories_are_read(b: Seq<u8>, i: int, minimum: nat, maximum: nat)
    requires
        0 <= i < b.len(),
    ensures
        b[i] >= 8 ==> memory_at(b, i) is None,
        (b[i] == 0 || b[i] == 2) && minimum <= u32::MAX && is_written_at(b, i + 1, minimum)
            ==> memory_at(b, i) == Some(
            (None::<u64>, i + 1 + number_bytes(minimum).len()),
        ),
        (b[i] == 4 || b[i] == 6) && minimum <= u64::MAX && is_written_at(b, i + 1, minimum)
            ==> memory_at(b, i) == Some(
            (None::<u64>, i + 1 + number_bytes(minimum).len()),
        ),
        (b[i] == 1 || b[i] == 3) && minimum <= u32::MAX && maximum <= u32::MAX && is_written_at(
            b,
            i + 1,
            minimum,
        ) && is_written_at(b, i + 1 + number_bytes(minimum).len(), maximum) ==> memory_at(b, i)
            == Some(
            (
                Some(maximum as u64),
                i + 1 + number_bytes(minimum).len() + number_bytes(maximum).len(),
            ),
        ),
        (b[i] == 5 || b[i] == 7) && minimum <= u64::MAX && maximum <= u64::MAX && is_written_at(
            b,
            i + 1,
            minimum,
        ) && is_written_at(b, i + 1 + number_bytes(minimum).len(), maximum) ==> memory_at(b, i)
            == Some(
            (
                Some(maximum as u64),
                i + 1 + number_bytes(minimum).len() + number_bytes(maximum).len(),
            ),
        ),
{
    lemma_size_lengths(minimum);
    lemma_size_lengths(maximum);
    let after = i + 1 + number_bytes(minimum).len();
    if is_written_at(b, i + 1, minimum) {
        if minimum <= u32::MAX {
            written_numbers_are_read(b, i + 1, minimum, 5, u32::MAX as nat);
        }
        if minimum <= u64::MAX {
            written_numbers_are_read(b, i + 1, minimum, 10, u64::MAX as nat);
        }
    }
    if is_written_at(b, after, maximum) {
        if maximum <= u32::MAX {
            written_numbers_are_read(b, after, maximum, 5, u32::MAX as nat);
        }
        if maximum <= u64::MAX {
            written_numbers_are_read(b, after, maximum, 10, u64::MAX as nat);
        }
    }
}

/// A section that is not the one for memories is passed over, whatever it holds; the one for
/// memories is read; and a module that ends without one declares none.
pub proof fn other_sections_are_passed_over(b: Seq<u8>, i: int, size: nat)
    requires
        0 <= i < b.len(),
        size <= u32::MAX,
        is_written_at(b, i + 1, size),
        i + 1 + number_bytes(size).len() + size <= b.len(),
    ensures
        ({
            let start = i + 1 + number_bytes(size).len();
            &&& b[i] != 5 ==> memories_from(b, i) == memories_from(b, start + size)
            &&& b[i] == 5 ==> memories_from(b, i) == section_memories(
                b.subrange(start, start + size),
            )
        }),
        memories_from(b, b.len() as int) == Some(Seq::<Option<u64>>::empty()),
{
    lemma_size_lengths(size);
    written_numbers_are_read(b, i + 1, size, 5, u32::MAX as nat);
}

/// The memories of a section are as many as it says, read one behind the other.
pub proof fn sections_list_their_memories(section: Seq<u8>, n: nat)
    requires
        n <= u32::MAX,
        is_written_at(section, 0, n),
    ensures
        section_memories(section) == memories_at(section, number_bytes(n).len() as int, n),
        section_memories(section) matches Some(ms) ==> ms.len() == n,
{
    lemma_size_lengths(n);
    written_numbers_are_read(section, 0, n, 5, u32::MAX as nat);
    lemma_memories_counted(section, number_bytes(n).len() as int, n);
}

proof fn lemma_memories_counted(b: Seq<u8>, i: int, n: nat)
    ensures
        memories_at(b, i, n) matches Some(ms) ==> ms.len() == n,
    decreases n,
{
    if n > 0 {
        if let Some((_, next)) = memory_at(b, i) {
            lemma_memories_counted(b, next, (n - 1) as nat);
        }
    }
}

/// The sections of a module start behind its header: the letters `asm` behind a zero, and the
/// version 1 in four bytes. What has another header is no module.
pub proof fn sections_start_behind_the_header(b: Seq<u8>)
    ensures
        b.len() >= 8 && b[0] == 0 && b[1] == 0x61 && b[2] == 0x73 && b[3] == 0x6d && b[4] == 1 && b[5]
            == 0 && b[6] == 0 && b[7] == 0 ==> declared_maxima(b) == memories_from(b, 8),
        b.len() < 8 || b[0] != 0 || b[1] != 0x61 || b[2] != 0x73 || b[3] != 0x6d || b[4] != 1 || b[5]
            != 0 || b[6] != 0 || b[7] != 0 ==> declared_maxima(b) is None,
{
    let header = module_header();
    if header.is_prefix_of(b) {
        assert forall|j: int| 0 <= j < 8 implies b[j] == header[j] by {
            assert(b.subrange(0, 8)[j] == b[j]);
        }
    } else if b.len() >= 8 && b[0] == 0 && b[1] == 0x61 && b[2] == 0x73 && b[3] == 0x6d && b[4] == 1
        && b[5] == 0 && b[6] == 0 && b[7] == 0 {
        assert(b.subrange(0, 8) =~= header);
    }
}

} // verus!
