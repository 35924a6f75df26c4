use vstd::prelude::*;

use crate::block::{AudioBlockMut, AudioBlockPool, AudioBlockRef};
use crate::constants::AUDIO_BLOCK_SAMPLES;
use crate::constants::POOL_SIZE;
use crate::node::{holds_output, mut_id, AudioNode};

verus! {

/// Entries of a fader gain table: 256 steps and the end point.
pub const FADER_TABLE_LEN: usize = 257;

/// Fade position at full volume.
pub const MAX_FADE: u32 = 0xFFFF_FFFF;

/// A fader gain table: every entry a Q15 gain in `0..=32767`.
pub open spec fn table_ok(table: Seq<i16>) -> bool {
    table.len() == FADER_TABLE_LEN && forall|i: int| 0 <= i < FADER_TABLE_LEN ==> 0 <= #[trigger] table[i]
        <= 32767
}

/// Gain at fade position `pos`: the table entry selected by the top 8 bits, interpolated
/// toward the next one by bits 8 to 23, rounded down.
pub open spec fn fader_gain(table: Seq<i16>, pos: u32) -> int {
    let index = (pos >> 24u32) as int;
    let scale = ((pos >> 8u32) & 0xFFFFu32) as int;
    (table[index] * (65536 - scale) + table[index + 1] * scale) / 65536
}

/// Look up the gain (Q15) for fade position `pos` in `table`.
pub fn fader_lookup(table: &[i16; FADER_TABLE_LEN], pos: u32) -> (r: i32)
    requires
        table_ok(table@),
    ensures
        r == fader_gain(table@, pos),
        0 <= r <= 32767,
{
    let index = (pos >> 24u32) as usize;
    proof {
        assert((pos >> 24u32) < 256) by (bit_vector);
        assert(((pos >> 8u32) & 0xFFFFu32) <= 0xFFFFu32) by (bit_vector);
    }
    let val1 = table[index] as i32;
    let val2 = table[index + 1] as i32;
    let scale = ((pos >> 8u32) & 0xFFFF) as i32;
    proof {
        assert(0 <= val1 * (65536 - scale) <= 32767 * (65536 - scale)) by (nonlinear_arith)
            requires
                0 <= val1 <= 32767,
                0 <= scale <= 65535,
        ;
        assert(0 <= val2 * scale <= 32767 * scale) by (nonlinear_arith)
            requires
                0 <= val2 <= 32767,
                0 <= scale <= 65535,
        ;
    }
    let interpolated = val1 * (0x10000 - scale) + val2 * scale;
    interpolated / 65536
}

/// Fade position one sample later: it moves by `inc` toward full volume (fading in) or
/// toward silence, stopping at either end.
pub open spec fn fade_step(cur: u32, inc: u32, fading_in: bool) -> u32 {
    if fading_in {
        if inc < MAX_FADE - cur {
            (cur + inc) as u32
        } else {
            MAX_FADE
        }
    } else {
        if inc < cur {
            (cur - inc) as u32
        } else {
            0
        }
    }
}

/// Fade position `n` samples later.
pub open spec fn fade_after(cur: u32, inc: u32, fading_in: bool, n: nat) -> u32
    decreases n,
{
    if n == 0 {
        cur
    } else {
        fade_step(fade_after(cur, inc, fading_in, (n - 1) as nat), inc, fading_in)
    }
}

/// Fade position a block later when no samples are processed: the whole block's movement
/// at once, stopping at either end.
pub open spec fn fade_block(pos: u32, rate: u32, fading_in: bool) -> u32 {
    let advance = rate as int * AUDIO_BLOCK_SAMPLES as int;
    if fading_in {
        if pos + advance > MAX_FADE {
            MAX_FADE
        } else {
            (pos + advance) as u32
        }
    } else {
        if pos <= advance {
            0
        } else {
            (pos - advance) as u32
        }
    }
}

/// Fade effect: one input, one output, a gain that moves along a fader table.
pub struct AudioEffectFade {
    position: u32,
    rate: u32,
    direction_in: bool,
    table: [i16; FADER_TABLE_LEN],
}

impl AudioEffectFade {
    /// Fade position: 0 is silent, `MAX_FADE` full volume.
    pub closed spec fn pos(&self) -> u32 {
        self.position
    }

    /// Movement of the position per sample.
    pub closed spec fn step(&self) -> u32 {
        self.rate
    }

    /// Whether the fade moves toward full volume.
    pub closed spec fn fading_in(&self) -> bool {
        self.direction_in
    }

    /// The gain table.
    pub closed spec fn gains(&self) -> Seq<i16> {
        self.table@
    }

    /// The gain table holds Q15 gains.
    pub open spec fn wf(&self) -> bool {
        table_ok(self.gains())
    }

    /// A fade at full volume, not moving, over the gain table `table`.
    pub fn new(table: [i16; FADER_TABLE_LEN]) -> (r: Self)
        requires
            table_ok(table@),
        ensures
            r.wf(),
            r.pos() == MAX_FADE,
            r.step() == 0,
            r.fading_in(),
            r.gains() == table@,
    {
        AudioEffectFade { position: MAX_FADE, rate: 0, direction_in: true, table }
    }

    /// A fade at silence, not moving, over the gain table `table`.
    pub fn new_silent(table: [i16; FADER_TABLE_LEN]) -> (r: Self)
        requires
            table_ok(table@),
        ensures
            r.wf(),
            r.pos() == 0,
            r.step() == 0,
            r.fading_in(),
            r.gains() == table@,
    {
        AudioEffectFade { position: 0, rate: 0, direction_in: true, table }
    }

    /// Start fading in over `samples` samples (at least one): the step is
    /// `MAX_FADE / samples`, and a silent fade first moves off zero.
    pub fn fade_in_samples(&mut self, samples: u32)
        ensures
            final(self).gains() == old(self).gains(),
            final(self).fading_in(),
            final(self).step() == MAX_FADE / (if samples == 0 { 1 } else { samples }),
            final(self).pos() == if old(self).pos() == 0 { 1 } else { old(self).pos() },
    {
        let n = if samples == 0 { 1 } else { samples };
        self.rate = MAX_FADE / n;
        self.direction_in = true;
        if self.position == 0 {
            self.position = 1;
        }
    }

    /// Start fading out over `samples` samples (at least one): the step is
    /// `MAX_FADE / samples`, and a fade at full volume first moves off the top.
    pub fn fade_out_samples(&mut self, samples: u32)
        ensures
            final(self).gains() == old(self).gains(),
            !final(self).fading_in(),
            final(self).step() == MAX_FADE / (if samples == 0 { 1 } else { samples }),
            final(self).pos() == if old(self).pos() == MAX_FADE {
                (MAX_FADE - 1) as u32
            } else {
                old(self).pos()
            },
    {
        let n = if samples == 0 { 1 } else { samples };
        self.rate = MAX_FADE / n;
        self.direction_in = false;
        if self.position == MAX_FADE {
            self.position = MAX_FADE - 1;
        }
    }

    /// The fade position.
    pub fn position(&self) -> (r: u32)
        ensures
            r == self.pos(),
    {
        self.position
    }

    fn advance_block(&mut self)
        ensures
            final(self).pos() == fade_block(old(self).pos(), old(self).step(), old(self).fading_in()),
            final(self).step() == old(self).step(),
            final(self).fading_in() == old(self).fading_in(),
            final(self).gains() == old(self).gains(),
    {
        let advance = (self.rate as u64) * 128u64;
        assert(advance == self.rate as int * AUDIO_BLOCK_SAMPLES as int);
        if self.direction_in {
            let p = self.position as u64 + advance;
            self.position = if p > MAX_FADE as u64 { MAX_FADE } else { p as u32 };
        } else {
            self.position = if self.position as u64 <= advance {
                0
            } else {
                (self.position as u64 - advance) as u32
            };
        }
    }

    /// Graph cycle. Without an input, or without an output block while fading, the
    /// position still moves by a block. At silence the input is discarded. At full volume
    /// and not moving, the input is copied. Otherwise each sample is scaled by the table
    /// gain at the current position, `(x * gain) >> 15`, as the position moves.
    pub fn update(
        &mut self,
        pool: &mut AudioBlockPool,
        inputs: &[Option<AudioBlockRef>],
        outputs: &mut [Option<AudioBlockMut>],
    )
        requires
            old(self).wf(),
            old(pool).wf(),
            inputs@.len() == 1,
            old(outputs)@.len() == 1,
        ensures
            final(self).wf(),
            final(self).gains() == old(self).gains(),
            final(self).step() == old(self).step(),
            final(self).fading_in() == old(self).fading_in(),
            final(pool).wf(),
            final(pool).rc() == old(pool).rc(),
            final(outputs)@.len() == 1,
            ({
                let (p, inc, dir) = (old(self).pos(), old(self).step(), old(self).fading_in());
                if inputs@[0] is None || (p != 0 && !(p == MAX_FADE && inc == 0) && old(outputs)@[0] is None) {
                    &&& final(self).pos() == fade_block(p, inc, dir)
                    &&& final(outputs)@ == old(outputs)@
                    &&& final(pool).data() == old(pool).data()
                } else if p == 0 || old(outputs)@[0] is None {
                    &&& final(self).pos() == p
                    &&& final(outputs)@ == old(outputs)@
                    &&& final(pool).data() == old(pool).data()
                } else {
                    let i = inputs@[0]->Some_0;
                    let o = old(outputs)@[0]->Some_0;
                    let x = old(pool).data()[i.id() as int];
                    &&& final(outputs)@[0] matches Some(f) && f.id() == o.id()
                    &&& p == MAX_FADE && inc == 0 ==> final(self).pos() == p && final(pool).data()
                        == old(pool).data().update(o.id() as int, x)
                    &&& !(p == MAX_FADE && inc == 0) ==> {
                        &&& final(self).pos() == fade_after(p, inc, dir, AUDIO_BLOCK_SAMPLES as nat)
                        &&& final(pool).data() == old(pool).data().update(
                            o.id() as int,
                            Seq::new(
                                AUDIO_BLOCK_SAMPLES as nat,
                                |k: int|
                                    ((x[k] * fader_gain(old(self).gains(), fade_after(p, inc, dir, k as nat)))
                                        / 32768) as i16,
                            ),
                        )
                    }
                }
            }),
    {
        let input = match &inputs[0] {
            Some(b) => b,
            None => {
                if self.rate > 0 {
                    self.advance_block();
                }
                return;
            },
        };
        let pos = self.position;
        if pos == 0 {
            return;
        }
        if pos == MAX_FADE && self.rate == 0 {
            let mut out = match outputs[0].take() {
                Some(b) => b,
                None => return,
            };
            let samples = input.samples(pool);
            out.copy_from(pool, &samples);
            outputs[0] = Some(out);
            return;
        }
        let mut out = match outputs[0].take() {
            Some(b) => b,
            None => {
                if self.rate > 0 {
                    self.advance_block();
                }
                return;
            },
        };
        let x = input.samples(pool);
        let inc = self.rate;
        let dir = self.direction_in;
        let mut cur = pos;
        let mut buf = [0i16; AUDIO_BLOCK_SAMPLES];
        let mut i: usize = 0;
        while i < AUDIO_BLOCK_SAMPLES
            invariant
                self.wf(),
                i <= AUDIO_BLOCK_SAMPLES,
                inc == self.rate,
                dir == self.direction_in,
                cur == fade_after(pos, inc, dir, i as nat),
                forall|k: int|
                    0 <= k < i ==> #[trigger] buf@[k] == ((x@[k] * fader_gain(
                        self.table@,
                        fade_after(pos, inc, dir, k as nat),
                    )) / 32768) as i16,
            decreases AUDIO_BLOCK_SAMPLES - i,
        {
            let gain = fader_lookup(&self.table, cur);
            let sample = x[i] as i32;
            proof {
                assert(-32768 * 32767 <= sample * gain <= 32767 * 32767) by (nonlinear_arith)
                    requires
                        -32768 <= sample <= 32767,
                        0 <= gain <= 32767,
                ;
            }
            let p = sample * gain;
            proof {
                crate::dsp::lemma_shr15(p);
            }
            buf[i] = (p >> 15u32) as i16;
            cur = if dir {
                if inc < MAX_FADE - cur {
                    cur + inc
                } else {
                    MAX_FADE
                }
            } else {
                if inc < cur {
                    cur - inc
                } else {
                    0
                }
            };
            i = i + 1;
        }
        self.position = cur;
        out.copy_from(pool, &buf);
        outputs[0] = Some(out);
        proof {
            assert(buf@ =~= Seq::new(
                AUDIO_BLOCK_SAMPLES as nat,
                |k: int| ((x@[k] * fader_gain(self.table@, fade_after(pos, inc, dir, k as nat))) / 32768) as i16,
            ));
        }
    }
}

impl AudioNode for AudioEffectFade {
    const NUM_INPUTS: usize = 1;

    const NUM_OUTPUTS: usize = 1;

    open spec fn inv(&self) -> bool {
        self.wf()
    }

    fn update(
        &mut self,
        pool: &mut AudioBlockPool,
        inputs: &[Option<AudioBlockRef>],
        outputs: &mut [Option<AudioBlockMut>],
    ) {
        let ghost o = old(outputs)@[0];
        if let Some(b) = &outputs[0] {
            proof {
                use_type_invariant(b);
            }
        }
        AudioEffectFade::update(self, pool, inputs, outputs);
        proof {
            assert forall|s: int|
                0 <= s < POOL_SIZE && old(pool).rc()[s] > 0 && !holds_output(old(outputs)@, s) implies
                #[trigger] pool.data()[s] == old(pool).data()[s] by {
                assert(old(outputs)@.len() == 1);
                if o is Some && s == o->Some_0.id() {
                    assert(mut_id(old(outputs)@[0]) == Some(s as u8));
                    assert(holds_output(old(outputs)@, s));
                }
            }
        }
    }
}

} // verus!
