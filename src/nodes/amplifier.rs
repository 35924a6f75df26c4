use vstd::prelude::*;

use crate::block::pool::released;
use crate::block::{AudioBlockMut, AudioBlockPool, AudioBlockRef};
use crate::constants::POOL_SIZE;
use crate::node::{holds_output, mut_id, AudioNode};
use crate::nodes::mixer::{apply_gain, gained, MULTI_UNITYGAIN};

verus! {

/// Single-channel amplifier: one input, one output, a Q16.16 gain.
pub struct AudioAmplifier {
    multiplier: i32,
}

impl AudioAmplifier {
    /// The gain in Q16.16 (65536 is unity).
    pub closed spec fn gain_q16(&self) -> i32 {
        self.multiplier
    }

    /// An amplifier at unity gain.
    pub fn new() -> (r: Self)
        ensures
            r.gain_q16() == MULTI_UNITYGAIN,
    {
        AudioAmplifier { multiplier: MULTI_UNITYGAIN }
    }

    /// Set the gain in Q16.16.
    pub fn set_multiplier(&mut self, mult: i32)
        ensures
            final(self).gain_q16() == mult,
    {
        self.multiplier = mult;
    }

    /// The gain in Q16.16.
    pub fn multiplier(&self) -> (r: i32)
        ensures
            r == self.gain_q16(),
    {
        self.multiplier
    }

    /// Graph cycle: with an input and an output block, the output receives the input
    /// scaled by the gain; at zero gain the output block is released instead, leaving the
    /// output absent (silence).
    pub fn update(
        &mut self,
        pool: &mut AudioBlockPool,
        inputs: &[Option<AudioBlockRef>],
        outputs: &mut [Option<AudioBlockMut>],
    )
        requires
            old(pool).wf(),
            inputs@.len() == 1,
            old(outputs)@.len() == 1,
        ensures
            *final(self) == *old(self),
            final(pool).wf(),
            final(outputs)@.len() == 1,
            (inputs@[0] is None || old(outputs)@[0] is None) ==> final(outputs)@ == old(outputs)@
                && *final(pool) == *old(pool),
            (inputs@[0] is Some && old(outputs)@[0] is Some) ==> {
                let i = inputs@[0]->Some_0;
                let o = old(outputs)@[0]->Some_0;
                if old(self).gain_q16() == 0 {
                    &&& final(outputs)@[0] is None
                    &&& final(pool).rc() == released(old(pool).rc(), o.id() as int)
                    &&& final(pool).data() == old(pool).data()
                } else {
                    &&& final(outputs)@[0] matches Some(f) && f.id() == o.id()
                    &&& final(pool).rc() == old(pool).rc()
                    &&& final(pool).data() == old(pool).data().update(
                        o.id() as int,
                        gained(old(pool).data()[i.id() as int], old(self).gain_q16()),
                    )
                }
            },
    {
        let input = match &inputs[0] {
            Some(b) => b,
            None => return,
        };
        let mut out = match outputs[0].take() {
            Some(b) => b,
            None => return,
        };
        if self.multiplier == 0 {
            out.release(pool);
            return;
        }
        let mut samples = input.samples(pool);
        apply_gain(&mut samples, self.multiplier);
        out.copy_from(pool, &samples);
        outputs[0] = Some(out);
    }
}

impl AudioNode for AudioAmplifier {
    const NUM_INPUTS: usize = 1;

    const NUM_OUTPUTS: usize = 1;

    open spec fn inv(&self) -> bool {
        true
    }

    fn update(
        &mut self,
        pool: &mut AudioBlockPool,
        inputs: &[Option<AudioBlockRef>],
        outputs: &mut [Option<AudioBlockMut>],
    ) {
        let ghost o = old(outputs)@[0];
        if let Some(b) = &outputs[0] {
            proof {
                use_type_invariant(b);
            }
        }
        AudioAmplifier::update(self, pool, inputs, outputs);
        proof {
            assert forall|s: int|
                0 <= s < POOL_SIZE && old(pool).rc()[s] > 0 && !holds_output(old(outputs)@, s) implies
                #[trigger] pool.data()[s] == old(pool).data()[s] by {
                assert(old(outputs)@.len() == 1);
                if o is Some && s == o->Some_0.id() {
                    assert(mut_id(old(outputs)@[0]) == Some(s as u8));
                    assert(holds_output(old(outputs)@, s));
                }
            }
        }
    }
}

} // verus!
