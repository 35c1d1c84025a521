//! Call data: scratch memory that the host holds for a guest.

use vstd::prelude::*;
use crate::abi::{pack_result, DB_ERROR};
use crate::guest::{checked_range, copied, range_in};

verus! {

/// Call data, with the most that it may hold.
pub struct CallData {
    bytes: Vec<u8>,
    max: usize,
}

impl View for CallData {
    type V = Seq<u8>;

    closed spec fn view(&self) -> Seq<u8> {
        self.bytes@
    }
}

/// Whether more bytes still fit.
pub open spec fn fits(held: nat, more: nat, max: nat) -> bool {
    held + more <= max
}

/// A number as a `u32`, or the largest one where it does not fit.
pub open spec fn clamped(n: nat) -> u32 {
    if n <= u32::MAX {
        n as u32
    } else {
        u32::MAX
    }
}

fn clamp(n: usize) -> (r: u32)
    ensures
        r == clamped(n as nat),
{
    if n as u64 <= 0xffff_ffff {
        n as u32
    } else {
        0xffff_ffff
    }
}

impl CallData {
    /// The most that the call data may hold.
    pub closed spec fn max(self) -> nat {
        self.max as nat
    }

    #[verifier::type_invariant]
    spec fn inv(self) -> bool {
        self.bytes@.len() <= self.max
    }

    /// Empty call data.
    pub fn new(max: usize) -> (r: CallData)
        ensures
            r@ == Seq::<u8>::empty(),
            r.max() == max,
    {
        CallData { bytes: Vec::new(), max }
    }

    /// How many bytes the call data holds. It is never more than it may hold.
    pub fn len(&self) -> (r: usize)
        ensures
            r == self@.len(),
            r <= self.max(),
    {
        proof {
            use_type_invariant(self);
        }
        self.bytes.len()
    }

    fn extend(&mut self, more: &Vec<u8>) -> (r: bool)
        ensures
            final(self).max() == old(self).max(),
            r == fits(old(self)@.len(), more@.len(), old(self).max()),
            final(self)@ == (if r {
                old(self)@ + more@
            } else {
                old(self)@
            }),
    {
        let held: usize = self.bytes.len();
        match held.checked_add(more.len()) {
            None => false,
            Some(total) => {
                if total > self.max {
                    return false;
                }
                let mut bytes: Vec<u8> = Vec::new();
                std::mem::swap(&mut bytes, &mut self.bytes);
                bytes.extend_from_slice(more.as_slice());
                assert(bytes@ =~= old(self)@ + more@);
                self.bytes = bytes;
                true
            },
        }
    }

    /// Reserve some bytes, which are 0, and give the offset at which they start. The answer is -1
    /// where the length is negative, the bytes do not fit, or the offset is no `i32`.
    pub fn reserve(&mut self, len: i32) -> (r: i32)
        ensures
            final(self).max() == old(self).max(),
            if len < 0 || !fits(old(self)@.len(), len as nat, old(self).max()) {
                &&& r == -1
                &&& final(self)@ == old(self)@
            } else {
                &&& final(self)@ == old(self)@ + Seq::new(len as nat, |i: int| 0u8)
                &&& r == (if old(self)@.len() <= i32::MAX {
                    old(self)@.len() as int
                } else {
                    -1
                })
            },
    {
        if len < 0 {
            return -1;
        }
        let offset: usize = self.bytes.len();
        let n: usize = len as usize;
        if n > self.max || offset > self.max - n {
            return -1;
        }
        let mut zeros: Vec<u8> = Vec::new();
        let mut i: usize = 0;
        while i < n
            invariant
                i <= n,
                zeros@ =~= Seq::new(i as nat, |j: int| 0u8),
            decreases n - i,
        {
            zeros.push(0);
            i += 1;
        }
        let _ = self.extend(&zeros);
        if offset as u64 <= 0x7fff_ffff {
            offset as i32
        } else {
            -1
        }
    }

    /// Read part of the call data, if it holds that part.
    pub fn load(&self, offset: i32, len: i32) -> (r: Option<Vec<u8>>)
        ensures
            match r {
                Some(b) => range_in(offset, len, self@.len()) && b@ == self@.subrange(
                    offset as int,
                    offset + len,
                ),
                None => !range_in(offset, len, self@.len()),
            },
    {
        match checked_range(offset, len, self.bytes.len()) {
            None => None,
            Some((p, n)) => Some(copied(self.bytes.as_slice(), p, n)),
        }
    }

    /// Append some bytes, and give the packed offset and length at which they stand, or the
    /// sentinel where they do not fit.
    pub fn append(&mut self, b: &Vec<u8>) -> (r: i64)
        ensures
            final(self).max() == old(self).max(),
            if fits(old(self)@.len(), b@.len(), old(self).max()) {
                &&& final(self)@ == old(self)@ + b@
                &&& r as u64 == clamped(old(self)@.len()) * 0x1_0000_0000 + clamped(b@.len())
            } else {
                &&& final(self)@ == old(self)@
                &&& r == DB_ERROR
            },
    {
        let offset: usize = self.bytes.len();
        if !self.extend(b) {
            return DB_ERROR;
        }
        pack_result(clamp(offset), clamp(b.len()))
    }
}

/// What a database function appended is read back through the packed offset and length, as long as
/// both are `i32` numbers.
pub proof fn append_then_load(before: Seq<u8>, b: Seq<u8>, packed: i64)
    requires
        before.len() + b.len() <= i32::MAX,
        packed as u64 == clamped(before.len()) * 0x1_0000_0000 + clamped(b.len()),
    ensures
        ({
            let offset = (packed as u64) / 0x1_0000_0000;
            let len = (packed as u64) % 0x1_0000_0000;
            &&& range_in(offset as i32, len as i32, (before + b).len())
            &&& (before + b).subrange(offset as int, offset + len) == b
        }),
{
    assert((before + b).subrange(before.len() as int, (before.len() + b.len()) as int) =~= b);
}

/// Appending keeps what was there: a range that could be read before holds the same bytes after.
pub proof fn append_keeps_earlier(before: Seq<u8>, more: Seq<u8>, offset: i32, len: i32)
    requires
        range_in(offset, len, before.len()),
    ensures
        range_in(offset, len, (before + more).len()),
        (before + more).subrange(offset as int, offset + len) == before.subrange(
            offset as int,
            offset + len,
        ),
{
    assert((before + more).subrange(offset as int, offset + len) =~= before.subrange(
        offset as int,
        offset + len,
    ));
}

/// Call data can be filled to the last byte and no further, and what fits leaves room for what is
/// smaller. A place that 32 bits can hold is given as it is, and any other as the highest.
pub proof fn call_data_fills_up(held: nat, more: nat, less: nat, max: nat)
    requires
        held <= max,
        less <= more,
    ensures
        fits(held, (max - held) as nat, max),
        !fits(held, (max - held + 1) as nat, max),
        fits(held, more, max) ==> fits(held, less, max) && held + more <= max,
        held <= 0xffff_ffff ==> clamped(held) == held,
        held > 0xffff_ffff ==> clamped(held) == 0xffff_ffff,
{
}

/// What is appended to call data can be loaded from the place that is given for it, and what was
/// there before stays; what does not fit changes nothing, and gives the sentinel.
pub proof fn appended_bytes_are_loaded(
    data: &mut CallData,
    b: Vec<u8>,
    packed: i64,
    offset: i32,
    len: i32,
    loaded: Option<Vec<u8>>,
)
    requires
        call_ensures(CallData::append, (data, &b), packed),
        old(data)@.len() + b@.len() <= i32::MAX,
        offset == (packed as u64) / 0x1_0000_0000,
        len == (packed as u64) % 0x1_0000_0000,
        call_ensures(CallData::load, (final(data), offset, len), loaded),
    ensures
        old(data)@.len() + b@.len() <= old(data).max() ==> (loaded matches Some(got) && got@ == b@),
        old(data)@.len() + b@.len() <= old(data).max() ==> final(data)@ == old(data)@ + b@,
        old(data)@.len() + b@.len() > old(data).max() ==> final(data)@ == old(data)@ && packed == -1,
        final(data).max() == old(data).max(),
{
    if old(data)@.len() + b@.len() <= old(data).max() {
        append_then_load(old(data)@, b@, packed);
    }
}

} // verus!
