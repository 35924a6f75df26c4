use vstd::prelude::*;

use crate::block::{AudioBlockMut, AudioBlockPool, AudioBlockRef};
use crate::constants::AUDIO_BLOCK_SAMPLES;
use crate::dsp::{gain_q16, sat16, saturate16, scaled};
use crate::constants::POOL_SIZE;
use crate::node::{holds_output, mut_id, AudioNode};

verus! {

/// Unity gain in Q16.16.
pub const MULTI_UNITYGAIN: i32 = 65536;

/// A block scaled by a Q16.16 gain, each sample clamped.
pub open spec fn gained(block: Seq<i16>, mult: i32) -> Seq<i16> {
    Seq::new(block.len(), |i: int| scaled(block[i] as int, mult as int, 16))
}

/// `dst` plus `src` scaled by a Q16.16 gain, each sum clamped.
pub open spec fn gained_sum(dst: Seq<i16>, src: Seq<i16>, mult: i32) -> Seq<i16> {
    Seq::new(dst.len(), |i: int| sat16(dst[i] + scaled(src[i] as int, mult as int, 16)))
}

/// Apply a Q16.16 gain to a block in place: `data[i] = saturate16((data[i] * mult) >> 16)`.
pub fn apply_gain(data: &mut [i16; AUDIO_BLOCK_SAMPLES], mult: i32)
    ensures
        final(data)@ == gained(old(data)@, mult),
{
    let mut i: usize = 0;
    while i < AUDIO_BLOCK_SAMPLES
        invariant
            i <= AUDIO_BLOCK_SAMPLES,
            forall|k: int| i <= k < AUDIO_BLOCK_SAMPLES ==> #[trigger] data@[k] == old(data)@[k],
            forall|k: int|
                0 <= k < i ==> #[trigger] data@[k] == scaled(old(data)@[k] as int, mult as int, 16),
        decreases AUDIO_BLOCK_SAMPLES - i,
    {
        data[i] = gain_q16(data[i], mult);
        i = i + 1;
    }
    assert(data@ =~= gained(old(data)@, mult));
}

/// Apply a Q16.16 gain to `src` and saturating-add it into `dst`.
pub fn apply_gain_then_add(
    dst: &mut [i16; AUDIO_BLOCK_SAMPLES],
    src: &[i16; AUDIO_BLOCK_SAMPLES],
    mult: i32,
)
    ensures
        final(dst)@ == gained_sum(old(dst)@, src@, mult),
{
    let mut i: usize = 0;
    while i < AUDIO_BLOCK_SAMPLES
        invariant
            i <= AUDIO_BLOCK_SAMPLES,
            forall|k: int| i <= k < AUDIO_BLOCK_SAMPLES ==> #[trigger] dst@[k] == old(dst)@[k],
            forall|k: int|
                0 <= k < i ==> #[trigger] dst@[k] == sat16(
                    old(dst)@[k] + scaled(src@[k] as int, mult as int, 16),
                ),
        decreases AUDIO_BLOCK_SAMPLES - i,
    {
        let g = gain_q16(src[i], mult);
        dst[i] = saturate16(dst[i] as i32 + g as i32);
        i = i + 1;
    }
    assert(dst@ =~= gained_sum(old(dst)@, src@, mult));
}

/// The samples of present input `ch`, if it is present.
pub open spec fn input_data(
    data: Seq<Seq<i16>>,
    inputs: Seq<Option<AudioBlockRef>>,
    ch: int,
) -> Option<Seq<i16>> {
    match inputs[ch] {
        Some(b) => Some(data[b.id() as int]),
        None => None,
    }
}

/// Mix of the first `n` inputs: the first present one scaled by its gain, each later
/// present one scaled and added with clamping; `None` when none of them is present.
pub open spec fn mix(
    data: Seq<Seq<i16>>,
    inputs: Seq<Option<AudioBlockRef>>,
    mults: Seq<i32>,
    n: int,
) -> Option<Seq<i16>>
    decreases n,
{
    if n <= 0 {
        None
    } else {
        let before = mix(data, inputs, mults, n - 1);
        match input_data(data, inputs, n - 1) {
            Some(d) => match before {
                Some(acc) => Some(gained_sum(acc, d, mults[n - 1])),
                None => Some(gained(d, mults[n - 1])),
            },
            None => before,
        }
    }
}

/// What the mixer writes for the mix `m`: silence when no input is present.
pub open spec fn mix_output(m: Option<Seq<i16>>) -> Seq<i16> {
    match m {
        Some(x) => x,
        None => Seq::new(AUDIO_BLOCK_SAMPLES as nat, |i: int| 0i16),
    }
}

proof fn lemma_mix_len(data: Seq<Seq<i16>>, inputs: Seq<Option<AudioBlockRef>>, mults: Seq<i32>, n: int)
    requires
        forall|ch: int|
            0 <= ch < n ==> (#[trigger] input_data(data, inputs, ch) matches Some(d) ==> d.len()
                == AUDIO_BLOCK_SAMPLES),
    ensures
        mix(data, inputs, mults, n) matches Some(m) ==> m.len() == AUDIO_BLOCK_SAMPLES,
    decreases n,
{
    if n > 0 {
        lemma_mix_len(data, inputs, mults, n - 1);
    }
}

/// With every input absent the mixer writes silence.
pub proof fn lemma_all_absent_is_silence(
    data: Seq<Seq<i16>>,
    inputs: Seq<Option<AudioBlockRef>>,
    mults: Seq<i32>,
)
    requires
        forall|ch: int| 0 <= ch < inputs.len() ==> #[trigger] inputs[ch] is None,
    ensures
        mix_output(mix(data, inputs, mults, inputs.len() as int)) == Seq::new(
            AUDIO_BLOCK_SAMPLES as nat,
            |i: int| 0i16,
        ),
{
    lemma_all_absent_prefix(data, inputs, mults, inputs.len() as int);
}

proof fn lemma_all_absent_prefix(
    data: Seq<Seq<i16>>,
    inputs: Seq<Option<AudioBlockRef>>,
    mults: Seq<i32>,
    n: int,
)
    requires
        n <= inputs.len(),
        forall|ch: int| 0 <= ch < inputs.len() ==> #[trigger] inputs[ch] is None,
    ensures
        mix(data, inputs, mults, n) is None,
    decreases n,
{
    if n > 0 {
        lemma_all_absent_prefix(data, inputs, mults, n - 1);
        assert(inputs[n - 1] is None);
    }
}

/// Absence reads as silence: a mixer input that is absent gives the same output as the
/// same input connected to a block of zeros.
pub proof fn lemma_absent_input_is_silence(
    data: Seq<Seq<i16>>,
    inputs: Seq<Option<AudioBlockRef>>,
    mults: Seq<i32>,
    k: int,
    zero_block: AudioBlockRef,
)
    requires
        0 <= k < inputs.len(),
        inputs[k] is None,
        data[zero_block.id() as int] == Seq::new(AUDIO_BLOCK_SAMPLES as nat, |i: int| 0i16),
        forall|ch: int|
            0 <= ch < inputs.len() ==> (#[trigger] input_data(data, inputs, ch) matches Some(d)
                ==> d.len() == AUDIO_BLOCK_SAMPLES),
    ensures
        mix_output(mix(data, inputs, mults, inputs.len() as int)) == mix_output(
            mix(data, inputs.update(k, Some(zero_block)), mults, inputs.len() as int),
        ),
{
    lemma_absent_prefix(data, inputs, mults, k, zero_block, inputs.len() as int);
}

proof fn lemma_absent_prefix(
    data: Seq<Seq<i16>>,
    inputs: Seq<Option<AudioBlockRef>>,
    mults: Seq<i32>,
    k: int,
    zero_block: AudioBlockRef,
    n: int,
)
    requires
        0 <= k < inputs.len(),
        0 <= n <= inputs.len(),
        inputs[k] is None,
        data[zero_block.id() as int] == Seq::new(AUDIO_BLOCK_SAMPLES as nat, |i: int| 0i16),
        forall|ch: int|
            0 <= ch < inputs.len() ==> (#[trigger] input_data(data, inputs, ch) matches Some(d)
                ==> d.len() == AUDIO_BLOCK_SAMPLES),
    ensures
        ({
            let a = mix(data, inputs, mults, n);
            let b = mix(data, inputs.update(k, Some(zero_block)), mults, n);
            a == b || (a is None && b == Some(Seq::new(AUDIO_BLOCK_SAMPLES as nat, |i: int| 0i16)))
        }),
    decreases n,
{
    let zeros = Seq::new(AUDIO_BLOCK_SAMPLES as nat, |i: int| 0i16);
    let inputs2 = inputs.update(k, Some(zero_block));
    if n > 0 {
        lemma_absent_prefix(data, inputs, mults, k, zero_block, n - 1);
        lemma_mix_len(data, inputs, mults, n - 1);
        assert forall|ch: int| 0 <= ch < n - 1 implies (#[trigger] input_data(data, inputs2, ch) matches Some(
            d,
        ) ==> d.len() == AUDIO_BLOCK_SAMPLES) by {
            if ch != k {
                assert(input_data(data, inputs2, ch) == input_data(data, inputs, ch));
            }
        }
        lemma_mix_len(data, inputs2, mults, n - 1);
        reveal_with_fuel(crate::dsp::pow2, 17);
        assert(crate::dsp::scaled(0, mults[n - 1] as int, 16) == 0);
        let a = mix(data, inputs, mults, n - 1);
        let b = mix(data, inputs2, mults, n - 1);
        let ch = n - 1;
        if ch == k {
            assert(input_data(data, inputs2, ch) == Some(zeros));
            if b is Some && a is Some {
                let acc = b->Some_0;
                assert(gained_sum(acc, zeros, mults[ch]) =~= acc);
            } else if b is Some {
                assert(gained_sum(zeros, zeros, mults[ch]) =~= zeros);
            } else {
                assert(gained(zeros, mults[ch]) =~= zeros);
            }
        } else {
            assert(input_data(data, inputs2, ch) == input_data(data, inputs, ch));
            if let Some(d) = input_data(data, inputs, ch) {
                if a is None && b is Some {
                    assert(gained_sum(zeros, d, mults[ch]) =~= gained(d, mults[ch]));
                }
            }
        }
    }
}

/// `N`-channel mixer: one output, each input scaled by its own Q16.16 gain.
pub struct AudioMixer<const N: usize> {
    multiplier: [i32; N],
}

impl<const N: usize> AudioMixer<N> {
    /// Per-channel gains in Q16.16.
    pub closed spec fn gains(&self) -> Seq<i32> {
        self.multiplier@
    }

    /// A mixer with every channel at unity gain.
    pub fn new() -> (r: Self)
        ensures
            r.gains() == Seq::new(N as nat, |i: int| MULTI_UNITYGAIN),
    {
        let r = AudioMixer { multiplier: [MULTI_UNITYGAIN; N] };
        assert(r.gains() =~= Seq::new(N as nat, |i: int| MULTI_UNITYGAIN));
        r
    }

    /// Set one channel's gain in Q16.16; a channel out of range is ignored.
    pub fn set_multiplier(&mut self, channel: usize, mult: i32)
        ensures
            channel < N ==> final(self).gains() == old(self).gains().update(channel as int, mult),
            channel >= N ==> final(self).gains() == old(self).gains(),
    {
        if channel < N {
            self.multiplier[channel] = mult;
        }
    }

    /// Graph cycle: the output receives the mix of the present inputs, or silence when
    /// none is present. Without an output block nothing happens.
    pub fn update(
        &mut self,
        pool: &mut AudioBlockPool,
        inputs: &[Option<AudioBlockRef>],
        outputs: &mut [Option<AudioBlockMut>],
    )
        requires
            old(pool).wf(),
            inputs@.len() == N,
            old(outputs)@.len() == 1,
        ensures
            *final(self) == *old(self),
            final(pool).wf(),
            final(pool).rc() == old(pool).rc(),
            final(outputs)@.len() == 1,
            old(outputs)@[0] is None ==> final(outputs)@ == old(outputs)@ && *final(pool) == *old(pool),
            old(outputs)@[0] matches Some(o) ==> {
                &&& final(outputs)@[0] matches Some(f) && f.id() == o.id()
                &&& final(pool).data() == old(pool).data().update(
                    o.id() as int,
                    mix_output(mix(old(pool).data(), inputs@, old(self).gains(), N as int)),
                )
            },
    {
        let mut out = match outputs[0].take() {
            Some(b) => b,
            None => return,
        };
        let mut acc = [0i16; AUDIO_BLOCK_SAMPLES];
        let mut initialized = false;
        assert(acc@ =~= Seq::new(AUDIO_BLOCK_SAMPLES as nat, |i: int| 0i16));
        let mut ch: usize = 0;
        while ch < N
            invariant
                pool.wf(),
                inputs@.len() == N,
                ch <= N,
                self.gains().len() == N,
                initialized == mix(pool.data(), inputs@, self.gains(), ch as int) is Some,
                initialized ==> acc@ == mix(pool.data(), inputs@, self.gains(), ch as int)->Some_0,
                !initialized ==> acc@ == Seq::new(AUDIO_BLOCK_SAMPLES as nat, |i: int| 0i16),
            decreases N - ch,
        {
            if let Some(input) = &inputs[ch] {
                let src = input.samples(pool);
                let mult = self.multiplier[ch];
                if !initialized {
                    acc = src;
                    apply_gain(&mut acc, mult);
                    initialized = true;
                } else {
                    apply_gain_then_add(&mut acc, &src, mult);
                }
            }
            ch = ch + 1;
        }
        out.copy_from(pool, &acc);
        outputs[0] = Some(out);
    }
}

impl<const N: usize> AudioNode for AudioMixer<N> {
    const NUM_INPUTS: usize = N;

    const NUM_OUTPUTS: usize = 1;

    open spec fn inv(&self) -> bool {
        true
    }

    fn update(
        &mut self,
        pool: &mut AudioBlockPool,
        inputs: &[Option<AudioBlockRef>],
        outputs: &mut [Option<AudioBlockMut>],
    ) {
        let ghost o = old(outputs)@[0];
        if let Some(b) = &outputs[0] {
            proof {
                use_type_invariant(b);
            }
        }
        AudioMixer::update(self, pool, inputs, outputs);
        proof {
            assert forall|s: int|
                0 <= s < POOL_SIZE && old(pool).rc()[s] > 0 && !holds_output(old(outputs)@, s) implies
                #[trigger] pool.data()[s] == old(pool).data()[s] by {
                assert(old(outputs)@.len() == 1);
                if o is Some && s == o->Some_0.id() {
                    assert(mut_id(old(outputs)@[0]) == Some(s as u8));
                    assert(holds_output(old(outputs)@, s));
                }
            }
        }
    }
}

} // verus!
