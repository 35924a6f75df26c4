use vstd::prelude::*;

use crate::block::{AudioBlockMut, AudioBlockPool, AudioBlockRef};
use crate::constants::AUDIO_BLOCK_SAMPLES;
use crate::node::AudioNode;

verus! {

/// Smallest of `start` and the first `n` samples of `s`.
pub open spec fn running_min(s: Seq<i16>, n: int, start: i16) -> i16
    decreases n,
{
    if n <= 0 {
        start
    } else {
        let m = running_min(s, n - 1, start);
        if s[n - 1] < m {
            s[n - 1]
        } else {
            m
        }
    }
}

/// Largest of `start` and the first `n` samples of `s`.
pub open spec fn running_max(s: Seq<i16>, n: int, start: i16) -> i16
    decreases n,
{
    if n <= 0 {
        start
    } else {
        let m = running_max(s, n - 1, start);
        if s[n - 1] > m {
            s[n - 1]
        } else {
            m
        }
    }
}

/// Magnitude of a sample, as a non-negative integer (32768 for the most negative).
pub open spec fn magnitude(x: i16) -> int {
    if x < 0 {
        -x
    } else {
        x as int
    }
}

/// Peak detector: one input, no output. Tracks the smallest and largest sample seen since
/// the last read.
pub struct AudioAnalyzePeak {
    min_val: i16,
    max_val: i16,
    new_output: bool,
}

impl AudioAnalyzePeak {
    /// Smallest sample seen since the last read (`i16::MAX` when none).
    pub closed spec fn low(&self) -> i16 {
        self.min_val
    }

    /// Largest sample seen since the last read (`i16::MIN` when none).
    pub closed spec fn high(&self) -> i16 {
        self.max_val
    }

    /// Whether a block has been seen since the last read.
    pub closed spec fn fresh(&self) -> bool {
        self.new_output
    }

    /// A detector that has seen nothing.
    pub fn new() -> (r: Self)
        ensures
            r.low() == i16::MAX,
            r.high() == i16::MIN,
            !r.fresh(),
    {
        AudioAnalyzePeak { min_val: i16::MAX, max_val: i16::MIN, new_output: false }
    }

    /// Whether a block has been seen since the last read.
    pub fn available(&self) -> (r: bool)
        ensures
            r == self.fresh(),
    {
        self.new_output
    }

    /// The larger magnitude of the extremes seen (0 to 32768), and reset.
    pub fn read_magnitude(&mut self) -> (r: u32)
        ensures
            r == if magnitude(old(self).low()) > magnitude(old(self).high()) {
                magnitude(old(self).low())
            } else {
                magnitude(old(self).high())
            },
            final(self).low() == i16::MAX,
            final(self).high() == i16::MIN,
            !final(self).fresh(),
    {
        let min = self.min_val as i32;
        let max = self.max_val as i32;
        self.min_val = i16::MAX;
        self.max_val = i16::MIN;
        self.new_output = false;
        let abs_min = if min < 0 { -min } else { min };
        let abs_max = if max < 0 { -max } else { max };
        if abs_min > abs_max {
            abs_min as u32
        } else {
            abs_max as u32
        }
    }

    /// The span from smallest to largest sample seen, `high - low`, and reset.
    pub fn read_span(&mut self) -> (r: i32)
        ensures
            r == old(self).high() - old(self).low(),
            final(self).low() == i16::MAX,
            final(self).high() == i16::MIN,
            !final(self).fresh(),
    {
        let min = self.min_val;
        let max = self.max_val;
        self.min_val = i16::MAX;
        self.max_val = i16::MIN;
        self.new_output = false;
        max as i32 - min as i32
    }

    /// Graph cycle: take the present input's extremes into account.
    pub fn update(
        &mut self,
        pool: &mut AudioBlockPool,
        inputs: &[Option<AudioBlockRef>],
        outputs: &mut [Option<AudioBlockMut>],
    )
        requires
            old(pool).wf(),
            inputs@.len() == 1,
        ensures
            *final(pool) == *old(pool),
            final(outputs)@ == old(outputs)@,
            inputs@[0] is None ==> *final(self) == *old(self),
            inputs@[0] matches Some(b) ==> {
                let s = old(pool).data()[b.id() as int];
                &&& final(self).low() == running_min(s, AUDIO_BLOCK_SAMPLES as int, old(self).low())
                &&& final(self).high() == running_max(s, AUDIO_BLOCK_SAMPLES as int, old(self).high())
                &&& final(self).fresh()
            },
    {
        let input = match &inputs[0] {
            Some(b) => b,
            None => return,
        };
        let s = input.samples(pool);
        let mut min = self.min_val;
        let mut max = self.max_val;
        let mut i: usize = 0;
        while i < AUDIO_BLOCK_SAMPLES
            invariant
                i <= AUDIO_BLOCK_SAMPLES,
                min == running_min(s@, i as int, self.min_val),
                max == running_max(s@, i as int, self.max_val),
            decreases AUDIO_BLOCK_SAMPLES - i,
        {
            let d = s[i];
            if d < min {
                min = d;
            }
            if d > max {
                max = d;
            }
            i = i + 1;
        }
        self.min_val = min;
        self.max_val = max;
        self.new_output = true;
    }
}

impl AudioNode for AudioAnalyzePeak {
    const NUM_INPUTS: usize = 1;

    const NUM_OUTPUTS: usize = 0;

    open spec fn inv(&self) -> bool {
        true
    }

    fn update(
        &mut self,
        pool: &mut AudioBlockPool,
        inputs: &[Option<AudioBlockRef>],
        outputs: &mut [Option<AudioBlockMut>],
    ) {
        AudioAnalyzePeak::update(self, pool, inputs, outputs);
    }
}

} // verus!
