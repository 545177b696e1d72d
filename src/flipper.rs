use vstd::prelude::*;

use crate::stats::{zero_hist, ResultArray};

verus! {

/// Words of random bits classified between two pushes into the accumulator.
pub const WORDS_PER_PUSH: u32 = 0xffff;

/// Bit `i` of `word` (bit 0 is the least significant).
pub open spec fn bit_of(word: u64, i: u64) -> bool {
    (word >> i) & 1 == 1
}

/// The classifier's state: histogram of finished runs, the number of bits
/// that repeated the run's first bit so far, and the run's bit value.
pub type RunModel = (Seq<u64>, u32, bool);

/// One bit more. A repeat extends the current run; a change closes it into
/// the bucket of its length (runs of 128 or more share the last bucket)
/// and starts a new one. Counters saturate.
pub open spec fn step(st: RunModel, bit: bool) -> RunModel {
    let (hist, count, prev) = st;
    if bit == prev {
        (hist, vstd::math::min(count + 1, u32::MAX as int) as u32, prev)
    } else {
        let b = vstd::math::min(count as int, 127);
        (hist.update(b, vstd::math::min(hist[b] + 1, u64::MAX as int) as u64), 0, bit)
    }
}

/// The state after the first `n` bits of `word`, most significant first.
pub open spec fn feed_bits(st: RunModel, word: u64, n: nat) -> RunModel
    decreases n,
{
    if n == 0 {
        st
    } else {
        step(feed_bits(st, word, (n - 1) as nat), bit_of(word, (64 - n) as u64))
    }
}

/// Classifies a stream of random bits into run-length buckets.
pub struct RunCounter {
    current: ResultArray,
    count: u32,
    prev: bool,
}

impl View for RunCounter {
    type V = RunModel;

    closed spec fn view(&self) -> RunModel {
        (self.current@, self.count, self.prev)
    }
}

impl RunCounter {
    pub fn new() -> (r: Self)
        ensures
            r@ == (zero_hist(), 0u32, true),
    {
        let r = RunCounter { current: [0u64; 128], count: 0, prev: true };
        assert(r.current@ =~= zero_hist());
        r
    }

    /// Feeds the 64 bits of `word`, most significant first.
    pub fn feed_word(&mut self, word: u64)
        requires
            old(self)@.0.len() == 128,
        ensures
            final(self)@ == feed_bits(old(self)@, word, 64),
    {
        let mut i: u64 = 0;
        while i < 64
            invariant
                i <= 64,
                self@ == feed_bits(old(self)@, word, i as nat),
                self@.0.len() == 128,
            decreases 64 - i,
        {
            let t = (word >> (63 - i)) & 1 == 1;
            if t == self.prev {
                self.count = self.count.saturating_add(1);
            } else {
                self.prev = t;
                let b: usize = if self.count <= 127 { self.count as usize } else { 127 };
                self.current[b] = self.current[b].saturating_add(1);
                self.count = 0;
            }
            i += 1;
        }
    }

    /// Hands out the finished runs and clears the histogram; the run in
    /// progress carries on.
    pub fn take(&mut self) -> (r: ResultArray)
        ensures
            r@ == old(self)@.0,
            final(self)@ == (zero_hist(), old(self)@.1, old(self)@.2),
    {
        let r = self.current;
        self.current = [0u64; 128];
        assert(self.current@ =~= zero_hist());
        r
    }
}

} // verus!
