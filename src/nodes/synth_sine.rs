use vstd::prelude::*;
use vstd::wrapping::u32_specs;

use crate::block::{AudioBlockMut, AudioBlockPool, AudioBlockRef};
use crate::constants::AUDIO_BLOCK_SAMPLES;
use crate::dsp::mul_32x32_rshift32;
use crate::constants::POOL_SIZE;
use crate::node::{holds_output, mut_id, AudioNode};

verus! {

/// Entries of a waveform table: 256 steps over one period and the wrap-around point.
pub const WAVE_TABLE_LEN: usize = 257;

/// Table value at phase `ph`, interpolated between the entry selected by the top 8 bits
/// and the next one by bits 8 to 23 (scaled by 65536).
pub open spec fn wave_interp(table: Seq<i16>, ph: u32) -> int {
    let index = (ph >> 24u32) as int;
    let scale = ((ph >> 8u32) & 0xFFFFu32) as int;
    table[index] * (65536 - scale) + table[index + 1] * scale
}

/// Phase `n` samples later, wrapping around.
pub open spec fn phase_after(ph: u32, inc: u32, n: nat) -> u32
    decreases n,
{
    if n == 0 {
        ph
    } else {
        u32_specs::wrapping_add(phase_after(ph, inc, (n - 1) as nat), inc)
    }
}

/// Phase a whole block later: `AUDIO_BLOCK_SAMPLES` steps at once, wrapping around.
pub open spec fn phase_block(ph: u32, inc: u32) -> u32 {
    u32_specs::wrapping_add(ph, u32_specs::wrapping_mul(inc, AUDIO_BLOCK_SAMPLES as u32))
}

/// Table-driven oscillator: no input, one output. The phase advances by a fixed step
/// per sample; the level scales the table's values (65536 is full scale).
pub struct AudioSynthSine {
    phase_accumulator: u32,
    phase_increment: u32,
    magnitude: i32,
    table: [i16; WAVE_TABLE_LEN],
}

impl AudioSynthSine {
    /// Current phase (a full period is `2^32`).
    pub closed spec fn phase_now(&self) -> u32 {
        self.phase_accumulator
    }

    /// Phase step per sample.
    pub closed spec fn step(&self) -> u32 {
        self.phase_increment
    }

    /// Output level, 0 to 65536.
    pub closed spec fn level(&self) -> i32 {
        self.magnitude
    }

    /// The waveform table.
    pub closed spec fn wave(&self) -> Seq<i16> {
        self.table@
    }

    /// The level within `0..=65536`.
    pub open spec fn wf(&self) -> bool {
        0 <= self.level() <= 65536
    }

    /// A silent oscillator at phase zero, not moving, over the waveform `table`.
    pub fn new(table: [i16; WAVE_TABLE_LEN]) -> (r: Self)
        ensures
            r.wf(),
            r.phase_now() == 0,
            r.step() == 0,
            r.level() == 0,
            r.wave() == table@,
    {
        AudioSynthSine { phase_accumulator: 0, phase_increment: 0, magnitude: 0, table }
    }

    /// Set the phase step per sample.
    pub fn set_phase_increment(&mut self, inc: u32)
        requires
            old(self).wf(),
        ensures
            final(self).wf(),
            final(self).step() == inc,
            final(self).phase_now() == old(self).phase_now(),
            final(self).level() == old(self).level(),
            final(self).wave() == old(self).wave(),
    {
        self.phase_increment = inc;
    }

    /// Set the level, clamped to `0..=65536`.
    pub fn set_magnitude(&mut self, mag: i32)
        ensures
            final(self).wf(),
            final(self).level() == if mag < 0 {
                0
            } else if mag > 65536 {
                65536
            } else {
                mag
            },
            final(self).step() == old(self).step(),
            final(self).phase_now() == old(self).phase_now(),
            final(self).wave() == old(self).wave(),
    {
        self.magnitude = if mag < 0 {
            0
        } else if mag > 65536 {
            65536
        } else {
            mag
        };
    }

    /// Set the phase.
    pub fn set_phase(&mut self, phase: u32)
        requires
            old(self).wf(),
        ensures
            final(self).wf(),
            final(self).phase_now() == phase,
            final(self).step() == old(self).step(),
            final(self).level() == old(self).level(),
            final(self).wave() == old(self).wave(),
    {
        self.phase_accumulator = phase;
    }

    /// The current phase.
    pub fn phase_accumulator(&self) -> (r: u32)
        ensures
            r == self.phase_now(),
    {
        self.phase_accumulator
    }

    /// Graph cycle. At level zero, or without an output block, only the phase advances by
    /// a block. Otherwise sample `k` is the interpolated table value at the phase `k`
    /// steps on, scaled by the level: `(interp * level) >> 32`.
    pub fn update(
        &mut self,
        pool: &mut AudioBlockPool,
        inputs: &[Option<AudioBlockRef>],
        outputs: &mut [Option<AudioBlockMut>],
    )
        requires
            old(self).wf(),
            old(pool).wf(),
            old(outputs)@.len() == 1,
        ensures
            final(self).wf(),
            final(self).step() == old(self).step(),
            final(self).level() == old(self).level(),
            final(self).wave() == old(self).wave(),
            final(pool).wf(),
            final(pool).rc() == old(pool).rc(),
            final(outputs)@.len() == 1,
            (old(self).level() == 0 || old(outputs)@[0] is None) ==> {
                &&& final(self).phase_now() == phase_block(old(self).phase_now(), old(self).step())
                &&& final(outputs)@ == old(outputs)@
                &&& final(pool).data() == old(pool).data()
            },
            (old(self).level() != 0 && old(outputs)@[0] is Some) ==> {
                let o = old(outputs)@[0]->Some_0;
                let (ph, inc) = (old(self).phase_now(), old(self).step());
                &&& final(outputs)@[0] matches Some(f) && f.id() == o.id()
                &&& final(self).phase_now() == phase_after(ph, inc, AUDIO_BLOCK_SAMPLES as nat)
                &&& final(pool).data() == old(pool).data().update(
                    o.id() as int,
                    Seq::new(
                        AUDIO_BLOCK_SAMPLES as nat,
                        |k: int|
                            ((wave_interp(old(self).wave(), phase_after(ph, inc, k as nat)) * old(
                                self,
                            ).level()) / 0x1_0000_0000) as i16,
                    ),
                )
            },
    {
        if self.magnitude == 0 {
            self.phase_accumulator = self.phase_accumulator.wrapping_add(
                self.phase_increment.wrapping_mul(128),
            );
            return;
        }
        let mut out = match outputs[0].take() {
            Some(b) => b,
            None => {
                self.phase_accumulator = self.phase_accumulator.wrapping_add(
                    self.phase_increment.wrapping_mul(128),
                );
                return;
            },
        };
        let ph0 = self.phase_accumulator;
        let inc = self.phase_increment;
        let mag = self.magnitude;
        let mut ph = ph0;
        let mut buf = [0i16; AUDIO_BLOCK_SAMPLES];
        let mut i: usize = 0;
        while i < AUDIO_BLOCK_SAMPLES
            invariant
                self.wf(),
                mag == self.magnitude,
                0 < mag <= 65536,
                i <= AUDIO_BLOCK_SAMPLES,
                ph == phase_after(ph0, inc, i as nat),
                forall|k: int|
                    0 <= k < i ==> #[trigger] buf@[k] == ((wave_interp(self.table@, phase_after(ph0, inc, k as nat))
                        * mag) / 0x1_0000_0000) as i16,
            decreases AUDIO_BLOCK_SAMPLES - i,
        {
            let index = (ph >> 24u32) as usize;
            proof {
                assert((ph >> 24u32) < 256) by (bit_vector);
                assert(((ph >> 8u32) & 0xFFFFu32) <= 0xFFFFu32) by (bit_vector);
            }
            let val1 = self.table[index] as i32;
            let val2 = self.table[index + 1] as i32;
            let scale = ((ph >> 8u32) & 0xFFFF) as i32;
            proof {
                assert(-32768 * (65536 - scale) <= val1 * (65536 - scale) <= 32767 * (65536 - scale)) by (nonlinear_arith)
                    requires
                        -32768 <= val1 <= 32767,
                        0 <= scale <= 65535,
                ;
                assert(-32768 * scale <= val2 * scale <= 32767 * scale) by (nonlinear_arith)
                    requires
                        -32768 <= val2 <= 32767,
                        0 <= scale <= 65535,
                ;
            }
            let interpolated = val1 * (0x10000 - scale) + val2 * scale;
            let v = mul_32x32_rshift32(interpolated, mag);
            buf[i] = v as i16;
            ph = ph.wrapping_add(inc);
            i = i + 1;
        }
        self.phase_accumulator = ph;
        out.copy_from(pool, &buf);
        outputs[0] = Some(out);
        proof {
            assert(buf@ =~= Seq::new(
                AUDIO_BLOCK_SAMPLES as nat,
                |k: int| ((wave_interp(self.table@, phase_after(ph0, inc, k as nat)) * mag) / 0x1_0000_0000) as i16,
            ));
        }
    }
}

impl AudioNode for AudioSynthSine {
    const NUM_INPUTS: usize = 0;

    const NUM_OUTPUTS: usize = 1;

    open spec fn inv(&self) -> bool {
        self.wf()
    }

    fn update(
        &mut self,
        pool: &mut AudioBlockPool,
        inputs: &[Option<AudioBlockRef>],
        outputs: &mut [Option<AudioBlockMut>],
    ) {
        let ghost o = old(outputs)@[0];
        if let Some(b) = &outputs[0] {
            proof {
                use_type_invariant(b);
            }
        }
        AudioSynthSine::update(self, pool, inputs, outputs);
        proof {
            assert forall|s: int|
                0 <= s < POOL_SIZE && old(pool).rc()[s] > 0 && !holds_output(old(outputs)@, s) implies
                #[trigger] pool.data()[s] == old(pool).data()[s] by {
                assert(old(outputs)@.len() == 1);
                if o is Some && s == o->Some_0.id() {
                    assert(mut_id(old(outputs)@[0]) == Some(s as u8));
                    assert(holds_output(old(outputs)@, s));
                }
            }
        }
    }
}

} // verus!
