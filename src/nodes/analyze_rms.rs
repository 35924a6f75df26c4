use vstd::prelude::*;

use crate::block::{AudioBlockMut, AudioBlockPool, AudioBlockRef};
use crate::constants::AUDIO_BLOCK_SAMPLES;
use crate::node::AudioNode;

verus! {

/// Sum of the squares of the first `n` samples of `s`.
pub open spec fn sum_squares(s: Seq<i16>, n: int) -> int
    decreases n,
{
    if n <= 0 {
        0
    } else {
        sum_squares(s, n - 1) + s[n - 1] * s[n - 1]
    }
}

proof fn lemma_sum_squares_bound(s: Seq<i16>, n: int)
    requires
        0 <= n <= s.len(),
    ensures
        0 <= sum_squares(s, n) <= n * 1073741824,
    decreases n,
{
    if n > 0 {
        lemma_sum_squares_bound(s, n - 1);
        let x = s[n - 1];
        assert(0 <= x * x <= 1073741824) by (nonlinear_arith)
            requires
                -32768 <= x <= 32767,
        ;
    }
}

/// RMS meter: one input, no output. Accumulates the sum of squared samples and the
/// number of samples since the last read; an absent input counts as a block of silence.
/// Both counters wrap around on overflow.
pub struct AudioAnalyzeRms {
    accum: u64,
    count: u32,
    new_output: bool,
}

impl AudioAnalyzeRms {
    /// Sum of squared samples since the last read, modulo `2^64`.
    pub closed spec fn sum(&self) -> u64 {
        self.accum
    }

    /// Number of samples since the last read, modulo `2^32`.
    pub closed spec fn samples(&self) -> u32 {
        self.count
    }

    /// Whether a block has been counted since the last read.
    pub closed spec fn fresh(&self) -> bool {
        self.new_output
    }

    /// A meter that has seen nothing.
    pub fn new() -> (r: Self)
        ensures
            r.sum() == 0,
            r.samples() == 0,
            !r.fresh(),
    {
        AudioAnalyzeRms { accum: 0, count: 0, new_output: false }
    }

    /// Whether a block has been counted since the last read.
    pub fn available(&self) -> (r: bool)
        ensures
            r == self.fresh(),
    {
        self.new_output
    }

    /// The sum of squares and the sample count, and reset.
    pub fn read_sums(&mut self) -> (r: (u64, u32))
        ensures
            r == (old(self).sum(), old(self).samples()),
            final(self).sum() == 0,
            final(self).samples() == 0,
            !final(self).fresh(),
    {
        let r = (self.accum, self.count);
        self.accum = 0;
        self.count = 0;
        self.new_output = false;
        r
    }

    /// Graph cycle: add the present input's squared samples, and count a block.
    pub fn update(
        &mut self,
        pool: &mut AudioBlockPool,
        inputs: &[Option<AudioBlockRef>],
        outputs: &mut [Option<AudioBlockMut>],
    )
        requires
            old(pool).wf(),
            inputs@.len() == 1,
        ensures
            *final(pool) == *old(pool),
            final(outputs)@ == old(outputs)@,
            final(self).fresh(),
            final(self).samples() == (old(self).samples() + AUDIO_BLOCK_SAMPLES) % 0x1_0000_0000,
            inputs@[0] is None ==> final(self).sum() == old(self).sum(),
            inputs@[0] matches Some(b) ==> final(self).sum() == (old(self).sum() + sum_squares(
                old(pool).data()[b.id() as int],
                AUDIO_BLOCK_SAMPLES as int,
            )) % 0x1_0000_0000_0000_0000,
    {
        if let Some(input) = &inputs[0] {
            let s = input.samples(pool);
            let mut block_sum: u64 = 0;
            let mut i: usize = 0;
            while i < AUDIO_BLOCK_SAMPLES
                invariant
                    i <= AUDIO_BLOCK_SAMPLES,
                    block_sum == sum_squares(s@, i as int),
                decreases AUDIO_BLOCK_SAMPLES - i,
            {
                let x = s[i] as i64;
                proof {
                    lemma_sum_squares_bound(s@, i as int + 1);
                    assert(0 <= x * x <= 1073741824) by (nonlinear_arith)
                        requires
                            -32768 <= x <= 32767,
                    ;
                }
                block_sum = block_sum + (x * x) as u64;
                i = i + 1;
            }
            let a = self.accum;
            self.accum = if block_sum <= u64::MAX - a {
                a + block_sum
            } else {
                block_sum - (u64::MAX - a) - 1
            };
        }
        let c = self.count;
        self.count = if 128u32 <= u32::MAX - c {
            c + 128
        } else {
            128 - (u32::MAX - c) - 1
        };
        self.new_output = true;
    }
}

impl AudioNode for AudioAnalyzeRms {
    const NUM_INPUTS: usize = 1;

    const NUM_OUTPUTS: usize = 0;

    open spec fn inv(&self) -> bool {
        true
    }

    fn update(
        &mut self,
        pool: &mut AudioBlockPool,
        inputs: &[Option<AudioBlockRef>],
        outputs: &mut [Option<AudioBlockMut>],
    ) {
        AudioAnalyzeRms::update(self, pool, inputs, outputs);
    }
}

} // verus!
