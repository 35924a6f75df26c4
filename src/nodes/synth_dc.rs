use vstd::prelude::*;
use vstd::wrapping::i32_specs;

use crate::block::{AudioBlockMut, AudioBlockPool, AudioBlockRef};
use crate::constants::AUDIO_BLOCK_SAMPLES;
use crate::constants::POOL_SIZE;
use crate::node::{holds_output, mut_id, AudioNode};

verus! {

/// The sample for a 32-bit level: its upper 16 bits, `floor(mag / 65536)`.
pub open spec fn level_sample(mag: i32) -> i16 {
    (mag as int / 65536) as i16
}

/// Level, and whether a ramp is still running, one sample after `(mag, running)`: a
/// running ramp moves by `inc` (wrapping) and stops on reaching or passing `target`.
pub open spec fn ramp_step(mag: i32, running: bool, inc: i32, target: i32) -> (i32, bool) {
    if !running {
        (mag, false)
    } else {
        let m = i32_specs::wrapping_add(mag, inc);
        if (inc > 0 && m >= target) || (inc < 0 && m <= target) {
            (target, false)
        } else {
            (m, true)
        }
    }
}

/// Level and ramp flag after `n` samples.
pub open spec fn ramp_after(mag: i32, running: bool, inc: i32, target: i32, n: nat) -> (i32, bool)
    decreases n,
{
    if n == 0 {
        (mag, running)
    } else {
        let (m, r) = ramp_after(mag, running, inc, target, (n - 1) as nat);
        ramp_step(m, r, inc, target)
    }
}

/// Convert a 32-bit level to a sample.
pub fn magnitude_to_sample(mag: i32) -> (r: i16)
    ensures
        r == level_sample(mag),
{
    proof {
        assert((mag >> 16u32) as int == mag as int / 65536) by {
            if mag >= 0 {
                assert(mag >= 0 ==> (mag >> 16u32) == mag / 65536i32) by (bit_vector);
            } else {
                assert(mag < 0 ==> mag >> 16u32 == !((!mag) >> 16u32)) by (bit_vector);
                assert(!mag == -1i32 - mag) by (bit_vector);
                let y = !mag;
                assert(y >= 0 ==> (y >> 16u32) == y / 65536i32) by (bit_vector);
                let q = y >> 16u32;
                assert(!q == -1i32 - q) by (bit_vector);
            }
        }
    }
    (mag >> 16u32) as i16
}

/// Constant (DC) source: no input, one output, a 32-bit level that can ramp linearly.
pub struct AudioSynthWaveformDc {
    magnitude: i32,
    target: i32,
    increment: i32,
    transitioning: bool,
}

impl AudioSynthWaveformDc {
    /// Current level.
    pub closed spec fn level(&self) -> i32 {
        self.magnitude
    }

    /// Level a running ramp heads for.
    pub closed spec fn goal(&self) -> i32 {
        self.target
    }

    /// Change per sample of a running ramp.
    pub closed spec fn step(&self) -> i32 {
        self.increment
    }

    /// Whether a ramp is running.
    pub closed spec fn ramping(&self) -> bool {
        self.transitioning
    }

    /// A source at level zero.
    pub fn new() -> (r: Self)
        ensures
            r.level() == 0,
            !r.ramping(),
    {
        AudioSynthWaveformDc { magnitude: 0, target: 0, increment: 0, transitioning: false }
    }

    /// Jump to a level at once.
    pub fn set_magnitude(&mut self, mag: i32)
        ensures
            final(self).level() == mag,
            !final(self).ramping(),
    {
        self.magnitude = mag;
        self.transitioning = false;
    }

    /// Ramp to `target` over `samples` samples. With no samples, or a step that rounds to
    /// zero, the level jumps at once. The step is `(target - level) / samples`, rounded
    /// toward zero and truncated to 32 bits.
    pub fn ramp_to(&mut self, target: i32, samples: i32)
        ensures
            ({
                let diff = target - old(self).level();
                let step = if diff >= 0 {
                    diff / (samples as int)
                } else {
                    -((-diff) / (samples as int))
                };
                if samples <= 0 || step as i32 == 0 {
                    final(self).level() == target && !final(self).ramping()
                } else {
                    &&& final(self).level() == old(self).level()
                    &&& final(self).ramping()
                    &&& final(self).goal() == target
                    &&& final(self).step() == step as i32
                }
            }),
    {
        if samples <= 0 {
            self.magnitude = target;
            self.transitioning = false;
            return;
        }
        let diff = target as i64 - self.magnitude as i64;
        let n = samples as i64;
        let step: i64 = if diff >= 0 { diff / n } else { -((-diff) / n) };
        let inc = step as i32;
        if inc == 0 {
            self.magnitude = target;
            self.transitioning = false;
        } else {
            self.target = target;
            self.increment = inc;
            self.transitioning = true;
        }
    }

    /// Graph cycle: fill the output block with the level, sample by sample as a running
    /// ramp advances. Without an output block nothing happens.
    pub fn update(
        &mut self,
        pool: &mut AudioBlockPool,
        inputs: &[Option<AudioBlockRef>],
        outputs: &mut [Option<AudioBlockMut>],
    )
        requires
            old(pool).wf(),
            old(outputs)@.len() == 1,
        ensures
            final(pool).wf(),
            final(pool).rc() == old(pool).rc(),
            final(outputs)@.len() == 1,
            final(self).goal() == old(self).goal(),
            final(self).step() == old(self).step(),
            old(outputs)@[0] is None ==> *final(self) == *old(self) && final(outputs)@ == old(outputs)@
                && *final(pool) == *old(pool),
            old(outputs)@[0] matches Some(o) ==> {
                let (m, r) = (old(self).level(), old(self).ramping());
                let (g, st) = (old(self).goal(), old(self).step());
                &&& final(outputs)@[0] matches Some(f) && f.id() == o.id()
                &&& final(pool).data() == old(pool).data().update(
                    o.id() as int,
                    Seq::new(
                        AUDIO_BLOCK_SAMPLES as nat,
                        |i: int| level_sample(ramp_after(m, r, st, g, (i + 1) as nat).0),
                    ),
                )
                &&& (final(self).level(), final(self).ramping()) == ramp_after(
                    m,
                    r,
                    st,
                    g,
                    AUDIO_BLOCK_SAMPLES as nat,
                )
            },
    {
        let mut out = match outputs[0].take() {
            Some(b) => b,
            None => return,
        };
        let ghost (m0, r0) = (self.magnitude, self.transitioning);
        let mut samples = [0i16; AUDIO_BLOCK_SAMPLES];
        let mut i: usize = 0;
        while i < AUDIO_BLOCK_SAMPLES
            invariant
                i <= AUDIO_BLOCK_SAMPLES,
                self.target == old(self).target,
                self.increment == old(self).increment,
                m0 == old(self).magnitude,
                r0 == old(self).transitioning,
                (self.magnitude, self.transitioning) == ramp_after(
                    m0,
                    r0,
                    self.increment,
                    self.target,
                    i as nat,
                ),
                forall|k: int|
                    0 <= k < i ==> #[trigger] samples@[k] == level_sample(
                        ramp_after(m0, r0, self.increment, self.target, (k + 1) as nat).0,
                    ),
            decreases AUDIO_BLOCK_SAMPLES - i,
        {
            if self.transitioning {
                let m = self.magnitude.wrapping_add(self.increment);
                if (self.increment > 0 && m >= self.target) || (self.increment < 0 && m <= self.target) {
                    self.magnitude = self.target;
                    self.transitioning = false;
                } else {
                    self.magnitude = m;
                }
            }
            samples[i] = magnitude_to_sample(self.magnitude);
            i = i + 1;
        }
        assert(samples@ =~= Seq::new(
            AUDIO_BLOCK_SAMPLES as nat,
            |i: int| level_sample(ramp_after(m0, r0, self.increment, self.target, (i + 1) as nat).0),
        ));
        out.copy_from(pool, &samples);
        outputs[0] = Some(out);
    }
}

impl AudioNode for AudioSynthWaveformDc {
    const NUM_INPUTS: usize = 0;

    const NUM_OUTPUTS: usize = 1;

    open spec fn inv(&self) -> bool {
        true
    }

    fn update(
        &mut self,
        pool: &mut AudioBlockPool,
        inputs: &[Option<AudioBlockRef>],
        outputs: &mut [Option<AudioBlockMut>],
    ) {
        let ghost o = old(outputs)@[0];
        if let Some(b) = &outputs[0] {
            proof {
                use_type_invariant(b);
            }
        }
        AudioSynthWaveformDc::update(self, pool, inputs, outputs);
        proof {
            assert forall|s: int|
                0 <= s < POOL_SIZE && old(pool).rc()[s] > 0 && !holds_output(old(outputs)@, s) implies
                #[trigger] pool.data()[s] == old(pool).data()[s] by {
                assert(old(outputs)@.len() == 1);
                if o is Some && s == o->Some_0.id() {
                    assert(mut_id(old(outputs)@[0]) == Some(s as u8));
                    assert(holds_output(old(outputs)@, s));
                }
            }
        }
    }
}

} // verus!
