//! Deterministic execution: virtual clocks, and randomness from a seed.
//!
//! A query or mutation that is run again with the same arguments and timestamp has to give the
//! same result, so guests see neither the host's clock nor its entropy.

use vstd::prelude::*;

verus! {

/// A wall clock that stands still.
#[derive(Clone, Copy, Debug)]
pub struct VirtualWallClock {
    nanos: u128,
}

impl VirtualWallClock {
    /// The instant at which the clock stands, in nanoseconds since the epoch.
    pub closed spec fn instant(self) -> u128 {
        self.nanos
    }

    /// A clock that stands at the given instant, in nanoseconds since the epoch.
    pub fn new(nanos: u128) -> (r: VirtualWallClock)
        ensures
            r.instant() == nanos,
    {
        VirtualWallClock { nanos }
    }

    /// The resolution of the clock, in nanoseconds.
    pub fn resolution(&self) -> (r: u64)
        ensures
            r == 1_000_000,
    {
        1_000_000
    }

    /// The instant that the clock shows, in nanoseconds since the epoch. It is the same however
    /// often the clock is read.
    pub fn now(&self) -> (r: u128)
        ensures
            r == self.instant(),
    {
        self.nanos
    }
}

/// A monotonic clock that stands still.
#[derive(Clone, Copy, Debug)]
pub struct VirtualMonotonicClock {
    now_ns: u64,
}

/// An instant in nanoseconds, or 0 where a monotonic clock cannot show it.
pub open spec fn shown_nanos(nanos: nat) -> nat {
    if nanos <= u64::MAX {
        nanos
    } else {
        0
    }
}

impl VirtualMonotonicClock {
    /// The instant at which the clock stands, in nanoseconds.
    pub closed spec fn instant(self) -> u64 {
        self.now_ns
    }

    /// A clock that stands at the given instant, in nanoseconds.
    pub fn new(nanos: u128) -> (r: VirtualMonotonicClock)
        ensures
            r.instant() == shown_nanos(nanos as nat),
    {
        let now_ns: u64 = if nanos <= 0xffff_ffff_ffff_ffff {
            nanos as u64
        } else {
            0
        };
        VirtualMonotonicClock { now_ns }
    }

    /// The resolution of the clock, in nanoseconds.
    pub fn resolution(&self) -> (r: u64)
        ensures
            r == 1_000_000,
    {
        1_000_000
    }

    /// The instant that the clock shows, in nanoseconds. It is the same however often the clock is
    /// read.
    pub fn now(&self) -> (r: u64)
        ensures
            r == self.instant(),
    {
        self.now_ns
    }
}

/// One byte of the ChaCha12 key stream of a seed.
pub uninterp spec fn chacha12_byte(seed: Seq<u8>, i: nat) -> u8;

/// How many words the key stream has before it starts over.
pub const STREAM_WORDS: u128 = 0x10_0000_0000_0000_0000;

/// `rand_chacha::ChaCha12Rng::from_seed`, moved to a word of its key stream by `set_word_pos`, and
/// then `fill_bytes`: that many bytes of the key stream from that word on.
#[verifier::external_body]
fn chacha12_fill(seed: &[u8; 32], word: u128, len: usize) -> (r: Vec<u8>)
    requires
        word < STREAM_WORDS,
        len <= isize::MAX,
    ensures
        r@.len() == len,
        forall|i: int| 0 <= i < len ==> #[trigger] r@[i] == chacha12_byte(seed@, (4 * word + i) as nat),
{
    let mut rng: rand_chacha::ChaCha12Rng = rand_core::SeedableRng::from_seed(*seed);
    rng.set_word_pos(word);
    let mut bytes = vec![0u8; len];
    rand_core::Rng::fill_bytes(&mut rng, &mut bytes);
    bytes
}

/// Randomness from a seed: the ChaCha12 key stream, drawn in whole words.
pub struct DeterministicRng {
    seed: [u8; 32],
    word: u128,
}

/// Where a generator is.
pub struct RngState {
    pub seed: Seq<u8>,
    /// The words that were drawn so far.
    pub word: nat,
}

/// The bytes that a generator gives next.
pub open spec fn drawn(s: RngState, len: nat) -> Seq<u8> {
    Seq::new(len, |i: int| chacha12_byte(s.seed, (4 * s.word + i) as nat))
}

/// Where a generator is after a draw: past the last word that the draw touched.
pub open spec fn after_draw(s: RngState, len: nat) -> RngState {
    RngState { seed: s.seed, word: (s.word + (len + 3) / 4) % (STREAM_WORDS as nat) }
}

impl View for DeterministicRng {
    type V = RngState;

    closed spec fn view(&self) -> RngState {
        RngState { seed: self.seed@, word: self.word as nat }
    }
}

impl DeterministicRng {
    #[verifier::type_invariant]
    spec fn inv(self) -> bool {
        self.word < STREAM_WORDS
    }

    /// A generator at the start of a seed's key stream.
    pub fn from_seed(seed: [u8; 32]) -> (r: DeterministicRng)
        ensures
            r@ == (RngState { seed: seed@, word: 0 }),
    {
        DeterministicRng { seed, word: 0 }
    }

    /// Draw some bytes, as many as a buffer can hold.
    pub fn draw(&mut self, len: usize) -> (r: Vec<u8>)
        requires
            len <= isize::MAX,
        ensures
            r@ == drawn(old(self)@, len as nat),
            final(self)@ == after_draw(old(self)@, len as nat),
    {
        proof {
            use_type_invariant(&*self);
        }
        let bytes = chacha12_fill(&self.seed, self.word, len);
        let words: u128 = (len as u128 + 3) / 4;
        let next: u128 = (self.word + words) % STREAM_WORDS;
        self.word = next;
        assert(bytes@ =~= drawn(old(self)@, len as nat));
        bytes
    }
}

/// The bytes of several draws, one after the other.
pub open spec fn draws(s: RngState, lens: Seq<nat>) -> Seq<Seq<u8>>
    decreases lens.len(),
{
    if lens.len() == 0 {
        Seq::empty()
    } else {
        seq![drawn(s, lens[0])] + draws(after_draw(s, lens[0]), lens.skip(1))
    }
}

/// Two generators from one seed give the same bytes, draw by draw.
pub proof fn same_seed_same_draws(a: RngState, b: RngState, lens: Seq<nat>)
    requires
        a.seed == b.seed,
        a.word == b.word,
    ensures
        draws(a, lens) == draws(b, lens),
{
    assert(a == b);
}

/// Drawing whole words at once gives the same bytes as drawing them in parts.
pub proof fn draws_continue(s: RngState, words: nat, len: nat)
    requires
        s.word + words + (len + 3) / 4 < STREAM_WORDS,
    ensures
        drawn(s, 4 * words + len) == drawn(s, 4 * words) + drawn(after_draw(s, 4 * words), len),
{
    assert((4 * words + 3) / 4 == words);
    let next = after_draw(s, 4 * words);
    assert(next.word == s.word + words) by {
        vstd::arithmetic::div_mod::lemma_small_mod(s.word + words, STREAM_WORDS as nat);
    }
    assert(drawn(s, 4 * words + len) =~= drawn(s, 4 * words) + drawn(next, len));
}

/// A draw gives as many bytes as are asked for, and takes whole words: after it the source stands at
/// the first word that was not touched, and its seed is what it was.
pub proof fn draws_take_whole_words(s: RngState, len: nat, i: int)
    requires
        s.word + len < STREAM_WORDS,
    ensures
        drawn(s, len).len() == len,
        after_draw(s, len).seed == s.seed,
        4 * (after_draw(s, len).word - s.word) >= len,
        4 * (after_draw(s, len).word - s.word) < len + 4,
        0 <= i < len ==> drawn(s, len)[i] == chacha12_byte(s.seed, (4 * s.word + i) as nat),
{
}

/// The monotonic clock shows the nanoseconds that it was given, where it can hold them, and
/// otherwise 0.
pub proof fn clocks_show_what_fits(nanos: nat)
    ensures
        nanos <= 0xffff_ffff_ffff_ffff ==> shown_nanos(nanos) == nanos,
        nanos > 0xffff_ffff_ffff_ffff ==> shown_nanos(nanos) == 0,
{
}

/// The clocks of a guest stand still: they show the time that they were made with, whenever they are
/// asked, to the millisecond.
pub proof fn clocks_stand_still(
    nanos: u128,
    wall: VirtualWallClock,
    monotonic: VirtualMonotonicClock,
    shown: u128,
    counted: u64,
    step: u64,
    tick: u64,
)
    requires
        call_ensures(VirtualWallClock::new, (nanos,), wall),
        call_ensures(VirtualMonotonicClock::new, (nanos,), monotonic),
        call_ensures(VirtualWallClock::now, (&wall,), shown),
        call_ensures(VirtualMonotonicClock::now, (&monotonic,), counted),
        call_ensures(VirtualWallClock::resolution, (&wall,), step),
        call_ensures(VirtualMonotonicClock::resolution, (&monotonic,), tick),
    ensures
        shown == nanos,
        nanos <= u64::MAX ==> counted == nanos,
        step == 1_000_000 && tick == 1_000_000,
{
}

/// Two sources with one seed draw the same bytes, and stand at one place after it.
pub proof fn seeds_decide_draws(
    seed: [u8; 32],
    one: &mut DeterministicRng,
    other: &mut DeterministicRng,
    len: usize,
    drawn_by_one: Vec<u8>,
    drawn_by_other: Vec<u8>,
)
    requires
        call_ensures(DeterministicRng::from_seed, (seed,), *one),
        call_ensures(DeterministicRng::from_seed, (seed,), *other),
        call_ensures(DeterministicRng::draw, (one, len), drawn_by_one),
        call_ensures(DeterministicRng::draw, (other, len), drawn_by_other),
    ensures
        drawn_by_one@ == drawn_by_other@,
        drawn_by_one@.len() == len,
        final(one)@ == final(other)@,
{
}

} // verus!
