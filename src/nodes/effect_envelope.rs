use vstd::prelude::*;
use vstd::wrapping::i32_specs;

use crate::block::{AudioBlockMut, AudioBlockPool, AudioBlockRef};
use crate::constants::AUDIO_BLOCK_SAMPLES;
use crate::dsp::{sat16, saturate16};
use crate::io::input_i2s::drop_output;
use crate::constants::POOL_SIZE;
use crate::node::{holds_output, mut_id, AudioNode};

verus! {

/// Samples that share one gain step.
pub const SAMPLES_PER_GROUP: usize = 8;

/// Gain steps per block.
pub const GROUPS_PER_BLOCK: usize = 16;

/// Unity gain of the envelope, 1.0 in Q2.30.
pub const UNITY_GAIN: i32 = 0x4000_0000;

/// Phase of an envelope.
#[derive(Clone, Copy, Debug, PartialEq, Eq, Structural)]
pub enum EnvelopeState {
    Idle,
    Delay,
    Attack,
    Hold,
    Decay,
    Sustain,
    Release,
    Forced,
}

/// Integer division rounding toward zero, as Rust's `/` does.
pub open spec fn tdiv(a: int, b: int) -> int {
    if a >= 0 {
        a / b
    } else {
        -((-a) / b)
    }
}

/// ADSR envelope (delay, attack, hold, decay, sustain, release): one input, one output.
///
/// Durations are counted in groups of eight samples; the gain moves linearly within each
/// phase and is applied per sample.
pub struct AudioEffectEnvelope {
    state: EnvelopeState,
    count: u16,
    mult_hires: i32,
    inc_hires: i32,
    delay_count: u16,
    attack_count: u16,
    hold_count: u16,
    decay_count: u16,
    sustain_mult: i32,
    release_count: u16,
    release_forced_count: u16,
}

impl AudioEffectEnvelope {
    /// Phase durations at least one group where a division by them occurs, and the sustain
    /// level within unity.
    pub closed spec fn wf(&self) -> bool {
        &&& self.attack_count >= 1
        &&& self.decay_count >= 1
        &&& self.release_count >= 1
        &&& self.release_forced_count >= 1
        &&& 0 <= self.sustain_mult <= UNITY_GAIN
    }

    /// Current phase.
    pub closed spec fn phase(&self) -> EnvelopeState {
        self.state
    }

    /// Groups left in the current phase.
    pub closed spec fn remaining(&self) -> u16 {
        self.count
    }

    /// Current gain, in Q2.30.
    pub closed spec fn gain(&self) -> i32 {
        self.mult_hires
    }

    /// Delay phase length, in groups.
    pub closed spec fn delay_len(&self) -> u16 {
        self.delay_count
    }

    /// Attack phase length, in groups.
    pub closed spec fn attack_len(&self) -> u16 {
        self.attack_count
    }

    /// Hold phase length, in groups.
    pub closed spec fn hold_len(&self) -> u16 {
        self.hold_count
    }

    /// Decay phase length, in groups.
    pub closed spec fn decay_len(&self) -> u16 {
        self.decay_count
    }

    /// Sustain level, in Q2.30.
    pub closed spec fn sustain_level(&self) -> i32 {
        self.sustain_mult
    }

    /// Release phase length, in groups.
    pub closed spec fn release_len(&self) -> u16 {
        self.release_count
    }

    /// Length of the fade to silence on a retrigger, in groups.
    pub closed spec fn forced_len(&self) -> u16 {
        self.release_forced_count
    }

    /// Enter the attack phase from the current gain.
    pub closed spec fn start_attack(self) -> Self {
        AudioEffectEnvelope {
            state: EnvelopeState::Attack,
            count: self.attack_count,
            inc_hires: (UNITY_GAIN as int / self.attack_count as int) as i32,
            ..self
        }
    }

    /// Start over from silence: the delay phase, or the attack phase without delay.
    pub closed spec fn restart(self) -> Self {
        let s = AudioEffectEnvelope { mult_hires: 0, count: self.delay_count, ..self };
        if self.delay_count > 0 {
            AudioEffectEnvelope { state: EnvelopeState::Delay, inc_hires: 0, ..s }
        } else {
            s.start_attack()
        }
    }

    /// Enter the decay phase.
    pub closed spec fn start_decay(self) -> Self {
        AudioEffectEnvelope {
            state: EnvelopeState::Decay,
            count: self.decay_count,
            inc_hires: tdiv(self.sustain_mult - UNITY_GAIN as int, self.decay_count as int) as i32,
            ..self
        }
    }

    /// The change of phase when the current phase's count has run out (release excepted).
    pub closed spec fn transition(self) -> Self {
        match self.state {
            EnvelopeState::Attack => if self.hold_count > 0 {
                AudioEffectEnvelope {
                    state: EnvelopeState::Hold,
                    count: self.hold_count,
                    mult_hires: UNITY_GAIN,
                    inc_hires: 0,
                    ..self
                }
            } else {
                self.start_decay()
            },
            EnvelopeState::Hold => self.start_decay(),
            EnvelopeState::Decay => AudioEffectEnvelope {
                state: EnvelopeState::Sustain,
                count: 0xFFFF,
                mult_hires: self.sustain_mult,
                inc_hires: 0,
                ..self
            },
            EnvelopeState::Sustain => AudioEffectEnvelope { count: 0xFFFF, ..self },
            EnvelopeState::Forced => self.restart(),
            EnvelopeState::Delay => self.start_attack(),
            _ => self,
        }
    }

    /// The state in force during a group: after the change of phase due at its start.
    pub closed spec fn at_group_start(self) -> Self {
        if self.count == 0 {
            self.transition()
        } else {
            self
        }
    }

    /// One group later: the gain moves by its step (wrapping) and the count runs down.
    pub closed spec fn advance(self) -> Self {
        AudioEffectEnvelope {
            mult_hires: i32_specs::wrapping_add(self.mult_hires, self.inc_hires),
            count: if self.count > 0 {
                (self.count - 1) as u16
            } else {
                0
            },
            ..self
        }
    }

    /// Whether the release ends at the start of the group.
    pub closed spec fn ends_here(self) -> bool {
        self.count == 0 && self.state == EnvelopeState::Release
    }

    /// The state after `g` groups, and whether the release ended within them (the
    /// envelope is then idle and stops).
    pub closed spec fn after_groups(self, g: nat) -> (Self, bool)
        decreases g,
    {
        if g == 0 {
            (self, false)
        } else {
            let (p, ended) = self.after_groups((g - 1) as nat);
            if ended {
                (p, true)
            } else if p.ends_here() {
                (AudioEffectEnvelope { state: EnvelopeState::Idle, ..p }, true)
            } else {
                (p.at_group_start().advance(), false)
            }
        }
    }

    /// Gain (Q16) for sample `j` of a group run in state `q`.
    pub closed spec fn sample_gain(q: Self, j: int) -> int {
        q.mult_hires as int / 16384 + (j + 1) * (q.inc_hires as int / 131072)
    }

    /// Output sample `k` for input samples `input`, starting from this state.
    pub closed spec fn output_sample(self, input: Seq<i16>, k: int) -> i16 {
        let g = k / SAMPLES_PER_GROUP as int;
        let j = k % SAMPLES_PER_GROUP as int;
        let (p, ended) = self.after_groups(g as nat);
        if ended || p.ends_here() {
            0
        } else {
            sat16((input[k] * Self::sample_gain(p.at_group_start(), j)) / 65536)
        }
    }

    /// This envelope with `delay_count` set to `v`.
    pub closed spec fn with_delay_count(self, v: u16) -> Self {
        AudioEffectEnvelope { delay_count: v, ..self }
    }

    /// This envelope with `attack_count` set to `v`.
    pub closed spec fn with_attack_count(self, v: u16) -> Self {
        AudioEffectEnvelope { attack_count: v, ..self }
    }

    /// This envelope with `hold_count` set to `v`.
    pub closed spec fn with_hold_count(self, v: u16) -> Self {
        AudioEffectEnvelope { hold_count: v, ..self }
    }

    /// This envelope with `decay_count` set to `v`.
    pub closed spec fn with_decay_count(self, v: u16) -> Self {
        AudioEffectEnvelope { decay_count: v, ..self }
    }

    /// This envelope with `sustain_mult` set to `v`.
    pub closed spec fn with_sustain_mult(self, v: i32) -> Self {
        AudioEffectEnvelope { sustain_mult: v, ..self }
    }

    /// This envelope with `release_count` set to `v`.
    pub closed spec fn with_release_count(self, v: u16) -> Self {
        AudioEffectEnvelope { release_count: v, ..self }
    }

    /// This envelope with `release_forced_count` set to `v`.
    pub closed spec fn with_release_forced_count(self, v: u16) -> Self {
        AudioEffectEnvelope { release_forced_count: v, ..self }
    }

    /// Fade to silence before starting over, on a retrigger.
    pub closed spec fn forced_fade(self) -> Self {
        AudioEffectEnvelope {
            state: EnvelopeState::Forced,
            count: self.release_forced_count,
            inc_hires: tdiv(-self.mult_hires, self.release_forced_count as int) as i32,
            ..self
        }
    }

    /// Fade to silence at the end of a note.
    pub closed spec fn release_start(self) -> Self {
        AudioEffectEnvelope {
            state: EnvelopeState::Release,
            count: self.release_count,
            inc_hires: tdiv(-self.mult_hires, self.release_count as int) as i32,
            ..self
        }
    }

    /// Whether the envelope is not idle.
    pub open spec fn active(&self) -> bool {
        self.phase() != EnvelopeState::Idle
    }

    /// An idle envelope with the default shape: no delay, 10.5 ms attack, 2.5 ms hold,
    /// 35 ms decay, sustain at one half, 300 ms release, 5 ms forced release on retrigger
    /// (58, 14, 193, 1655 and 28 groups at the block sample rate).
    pub fn new() -> (r: Self)
        ensures
            r.wf(),
            r.phase() == EnvelopeState::Idle,
            r.gain() == 0,
            r.delay_len() == 0,
            r.attack_len() == 58,
            r.hold_len() == 14,
            r.decay_len() == 193,
            r.sustain_level() == UNITY_GAIN / 2,
            r.release_len() == 1655,
            r.forced_len() == 28,
    {
        AudioEffectEnvelope {
            state: EnvelopeState::Idle,
            count: 0,
            mult_hires: 0,
            inc_hires: 0,
            delay_count: 0,
            attack_count: 58,
            hold_count: 14,
            decay_count: 193,
            sustain_mult: UNITY_GAIN / 2,
            release_count: 1655,
            release_forced_count: 28,
        }
    }

    /// Set the delay phase's length in groups.
    pub fn set_delay_count(&mut self, count: u16)
        requires
            old(self).wf(),
        ensures
            final(self).wf(),
            final(self).delay_len() == (count),
            *final(self) == old(self).with_delay_count(count),
    {
        self.delay_count = count;
    }

    /// Set the attack phase's length in groups (at least one).
    pub fn set_attack_count(&mut self, count: u16)
        requires
            old(self).wf(),
        ensures
            final(self).wf(),
            final(self).attack_len() == (if count == 0 { 1 } else { count }),
            *final(self) == old(self).with_attack_count(if count == 0 { 1 } else { count }),
    {
        self.attack_count = if count == 0 { 1 } else { count };
    }

    /// Set the hold phase's length in groups.
    pub fn set_hold_count(&mut self, count: u16)
        requires
            old(self).wf(),
        ensures
            final(self).wf(),
            final(self).hold_len() == (count),
            *final(self) == old(self).with_hold_count(count),
    {
        self.hold_count = count;
    }

    /// Set the decay phase's length in groups (at least one).
    pub fn set_decay_count(&mut self, count: u16)
        requires
            old(self).wf(),
        ensures
            final(self).wf(),
            final(self).decay_len() == (if count == 0 { 1 } else { count }),
            *final(self) == old(self).with_decay_count(if count == 0 { 1 } else { count }),
    {
        self.decay_count = if count == 0 { 1 } else { count };
    }

    /// Set the sustain level in Q2.30, clamped to `0..=UNITY_GAIN`.
    pub fn set_sustain_mult(&mut self, mult: i32)
        requires
            old(self).wf(),
        ensures
            final(self).wf(),
            final(self).sustain_level() == if mult < 0 {
                0
            } else if mult > UNITY_GAIN {
                UNITY_GAIN
            } else {
                mult
            },
            *final(self) == old(self).with_sustain_mult(
                if mult < 0 {
                    0
                } else if mult > UNITY_GAIN {
                    UNITY_GAIN
                } else {
                    mult
                },
            ),
    {
        self.sustain_mult = if mult < 0 {
            0
        } else if mult > UNITY_GAIN {
            UNITY_GAIN
        } else {
            mult
        };
    }

    /// Set the release phase's length in groups (at least one).
    pub fn set_release_count(&mut self, count: u16)
        requires
            old(self).wf(),
        ensures
            final(self).wf(),
            final(self).release_len() == (if count == 0 { 1 } else { count }),
            *final(self) == old(self).with_release_count(if count == 0 { 1 } else { count }),
    {
        self.release_count = if count == 0 { 1 } else { count };
    }

    /// Set the length in groups of the fade to silence on a retrigger (at least one).
    pub fn set_release_forced_count(&mut self, count: u16)
        requires
            old(self).wf(),
        ensures
            final(self).wf(),
            final(self).forced_len() == (if count == 0 { 1 } else { count }),
            *final(self) == old(self).with_release_forced_count(if count == 0 { 1 } else { count }),
    {
        self.release_forced_count = if count == 0 { 1 } else { count };
    }

    /// Start a note. From idle or delay the envelope starts over; from any other phase but
    /// a forced release it first fades to silence over the forced-release length.
    pub fn note_on(&mut self)
        requires
            old(self).wf(),
        ensures
            final(self).wf(),
            final(self).active(),
            (old(self).phase() == EnvelopeState::Idle || old(self).phase() == EnvelopeState::Delay)
                ==> {
                &&& final(self).gain() == 0
                &&& old(self).delay_len() > 0 ==> final(self).phase() == EnvelopeState::Delay
                    && final(self).remaining() == old(self).delay_len()
                &&& old(self).delay_len() == 0 ==> final(self).phase() == EnvelopeState::Attack
                    && final(self).remaining() == old(self).attack_len()
            },
            (old(self).active() && old(self).phase() != EnvelopeState::Delay) ==> final(self).phase()
                == EnvelopeState::Forced,
            (old(self).active() && old(self).phase() != EnvelopeState::Delay && old(self).phase()
                != EnvelopeState::Forced) ==> final(self).remaining() == old(self).forced_len(),
            (old(self).phase() == EnvelopeState::Idle || old(self).phase() == EnvelopeState::Delay)
                ==> *final(self) == old(self).restart(),
            old(self).phase() == EnvelopeState::Forced ==> *final(self) == *old(self),
            (old(self).active() && old(self).phase() != EnvelopeState::Delay && old(self).phase()
                != EnvelopeState::Forced) ==> *final(self) == old(self).forced_fade(),
    {
        if self.state == EnvelopeState::Idle || self.state == EnvelopeState::Delay
            || self.release_forced_count == 0 {
            self.mult_hires = 0;
            self.count = self.delay_count;
            if self.count > 0 {
                self.state = EnvelopeState::Delay;
                self.inc_hires = 0;
            } else {
                self.state = EnvelopeState::Attack;
                self.count = self.attack_count;
                self.inc_hires = UNITY_GAIN / (self.count as i32);
            }
        } else if self.state != EnvelopeState::Forced {
            self.state = EnvelopeState::Forced;
            self.count = self.release_forced_count;
            self.inc_hires = ((-(self.mult_hires as i64)) / (self.count as i64)) as i32;
        }
    }

    /// End a note: any phase but release, idle and forced release moves to release.
    pub fn note_off(&mut self)
        requires
            old(self).wf(),
        ensures
            final(self).wf(),
            !(old(self).phase() == EnvelopeState::Release || old(self).phase() == EnvelopeState::Idle
                || old(self).phase() == EnvelopeState::Forced) ==> final(self).phase()
                == EnvelopeState::Release && final(self).remaining() == old(self).release_len(),
            (old(self).phase() == EnvelopeState::Release || old(self).phase() == EnvelopeState::Idle
                || old(self).phase() == EnvelopeState::Forced) ==> *final(self) == *old(self),
            !(old(self).phase() == EnvelopeState::Release || old(self).phase() == EnvelopeState::Idle
                || old(self).phase() == EnvelopeState::Forced) ==> *final(self) == old(self).release_start(),
    {
        if self.state != EnvelopeState::Release && self.state != EnvelopeState::Idle && self.state
            != EnvelopeState::Forced {
            self.state = EnvelopeState::Release;
            self.count = self.release_count;
            self.inc_hires = ((-(self.mult_hires as i64)) / (self.count as i64)) as i32;
        }
    }

    /// Whether the envelope is not idle.
    pub fn is_active(&self) -> (r: bool)
        ensures
            r == self.active(),
    {
        self.state != EnvelopeState::Idle
    }

    /// Whether the envelope is in its sustain phase.
    pub fn is_sustain(&self) -> (r: bool)
        ensures
            r == (self.phase() == EnvelopeState::Sustain),
    {
        self.state == EnvelopeState::Sustain
    }

    /// Current phase.
    pub fn state(&self) -> (r: EnvelopeState)
        ensures
            r == self.phase(),
    {
        self.state
    }

    fn apply_transition(&mut self)
        requires
            old(self).wf(),
            old(self).count == 0,
        ensures
            final(self).wf(),
            *final(self) == old(self).transition(),
    {
        match self.state {
            EnvelopeState::Attack => {
                if self.hold_count > 0 {
                    self.state = EnvelopeState::Hold;
                    self.count = self.hold_count;
                    self.mult_hires = UNITY_GAIN;
                    self.inc_hires = 0;
                } else {
                    self.state = EnvelopeState::Decay;
                    self.count = self.decay_count;
                    self.inc_hires = (self.sustain_mult - UNITY_GAIN) / (self.count as i32);
                }
            },
            EnvelopeState::Hold => {
                self.state = EnvelopeState::Decay;
                self.count = self.decay_count;
                self.inc_hires = (self.sustain_mult - UNITY_GAIN) / (self.count as i32);
            },
            EnvelopeState::Decay => {
                self.state = EnvelopeState::Sustain;
                self.count = 0xFFFF;
                self.mult_hires = self.sustain_mult;
                self.inc_hires = 0;
            },
            EnvelopeState::Sustain => {
                self.count = 0xFFFF;
            },
            EnvelopeState::Forced => {
                self.mult_hires = 0;
                self.count = self.delay_count;
                if self.count > 0 {
                    self.state = EnvelopeState::Delay;
                    self.inc_hires = 0;
                } else {
                    self.state = EnvelopeState::Attack;
                    self.count = self.attack_count;
                    self.inc_hires = UNITY_GAIN / (self.count as i32);
                }
            },
            EnvelopeState::Delay => {
                self.state = EnvelopeState::Attack;
                self.count = self.attack_count;
                self.inc_hires = UNITY_GAIN / (self.count as i32);
            },
            _ => {},
        }
    }

    /// Graph cycle. An idle envelope does nothing. Otherwise the envelope advances by the
    /// sixteen groups of a block, changing phase as counts run out, and stops (idle) when
    /// its release ends. With an input and an output block, the output receives the input
    /// scaled sample by sample by the moving gain, and silence from the end of the release
    /// on; without an input the output is released and left absent.
    pub fn update(
        &mut self,
        pool: &mut AudioBlockPool,
        inputs: &[Option<AudioBlockRef>],
        outputs: &mut [Option<AudioBlockMut>],
    )
        requires
            old(self).wf(),
            old(pool).wf(),
            inputs@.len() == 1,
            old(outputs)@.len() == 1,
        ensures
            final(self).wf(),
            final(pool).wf(),
            final(outputs)@.len() == 1,
            !old(self).active() ==> *final(self) == *old(self) && final(outputs)@ == old(outputs)@
                && *final(pool) == *old(pool),
            old(self).active() ==> {
                &&& *final(self) == old(self).after_groups(GROUPS_PER_BLOCK as nat).0
                &&& inputs@[0] is None ==> {
                    &&& final(outputs)@[0] is None
                    &&& final(pool).rc() == drop_output(old(pool).rc(), old(outputs)@[0])
                    &&& final(pool).data() == old(pool).data()
                }
                &&& (inputs@[0] is Some && old(outputs)@[0] is None) ==> final(outputs)@ == old(
                    outputs,
                )@ && *final(pool) == *old(pool)
                &&& (inputs@[0] is Some && old(outputs)@[0] is Some) ==> {
                    let i = inputs@[0]->Some_0;
                    let o = old(outputs)@[0]->Some_0;
                    &&& final(outputs)@[0] matches Some(f) && f.id() == o.id()
                    &&& final(pool).rc() == old(pool).rc()
                    &&& final(pool).data() == old(pool).data().update(
                        o.id() as int,
                        Seq::new(
                            AUDIO_BLOCK_SAMPLES as nat,
                            |k: int| old(self).output_sample(old(pool).data()[i.id() as int], k),
                        ),
                    )
                }
            },
    {
        if self.state == EnvelopeState::Idle {
            return;
        }
        let input: [i16; AUDIO_BLOCK_SAMPLES] = match &inputs[0] {
            Some(b) => b.samples(pool),
            None => [0i16; AUDIO_BLOCK_SAMPLES],
        };
        let has_input = inputs[0].is_some();
        if !has_input {
            if let Some(o) = outputs[0].take() {
                o.release(pool);
            }
        }
        let ghost e0 = *self;
        let mut buf = [0i16; AUDIO_BLOCK_SAMPLES];
        let mut ended = false;
        let mut g: usize = 0;
        while g < GROUPS_PER_BLOCK
            invariant
                self.wf(),
                e0.wf(),
                g <= GROUPS_PER_BLOCK,
                (*self, ended) == e0.after_groups(g as nat),
                forall|k: int|
                    0 <= k < g * SAMPLES_PER_GROUP ==> #[trigger] buf@[k] == e0.output_sample(
                        input@,
                        k,
                    ),
            decreases GROUPS_PER_BLOCK - g,
        {
            let ghost before = *self;
            let ghost buf0 = buf@;
            let base = g * SAMPLES_PER_GROUP;
            if !ended && self.count == 0 && self.state == EnvelopeState::Release {
                self.state = EnvelopeState::Idle;
                ended = true;
                proof {
                    assert(before.ends_here());
                }
            }
            if ended {
                let mut j: usize = 0;
                while j < SAMPLES_PER_GROUP
                    invariant
                        j <= SAMPLES_PER_GROUP,
                        base == g * SAMPLES_PER_GROUP,
                        g < GROUPS_PER_BLOCK,
                        forall|k: int| 0 <= k < base ==> #[trigger] buf@[k] == buf0[k],
                        forall|k: int| base <= k < base + j ==> #[trigger] buf@[k] == 0,
                    decreases SAMPLES_PER_GROUP - j,
                {
                    buf[base + j] = 0;
                    j = j + 1;
                }
                proof {
                    assert forall|k: int| 0 <= k < (g + 1) * SAMPLES_PER_GROUP implies #[trigger] buf@[k]
                        == e0.output_sample(input@, k) by {
                        if k >= base {
                            lemma_group_of(k, g as int);
                        }
                    }
                }
            } else {
                if self.count == 0 {
                    self.apply_transition();
                }
                let ghost q = *self;
                let m0 = self.mult_hires >> 14u32;
                let inc = self.inc_hires >> 17u32;
                proof {
                    lemma_shr_i32_14(self.mult_hires);
                    lemma_shr_i32_17(self.inc_hires);
                }
                let mut mult: i32 = m0;
                let mut j: usize = 0;
                while j < SAMPLES_PER_GROUP
                    invariant
                        j <= SAMPLES_PER_GROUP,
                        base == g * SAMPLES_PER_GROUP,
                        g < GROUPS_PER_BLOCK,
                        m0 as int == q.mult_hires as int / 16384,
                        inc as int == q.inc_hires as int / 131072,
                        mult == m0 + j * inc,
                        -131072 <= m0 <= 131071,
                        -16384 <= inc <= 16383,
                        forall|k: int| 0 <= k < base ==> #[trigger] buf@[k] == buf0[k],
                        forall|k: int|
                            base <= k < base + j ==> #[trigger] buf@[k] == sat16(
                                (input@[k] * Self::sample_gain(q, k - base)) / 65536,
                            ),
                    decreases SAMPLES_PER_GROUP - j,
                {
                    proof {
                        assert(m0 + (j + 1) * inc == m0 + j * inc + inc) by (nonlinear_arith);
                        assert(-131072 <= (j + 1) * inc <= 131072) by (nonlinear_arith)
                            requires
                                0 <= j < 8,
                                -16384 <= inc <= 16383,
                        ;
                    }
                    mult = mult + inc;
                    let x = input[base + j] as i64;
                    proof {
                        assert(-32768 * 262144 <= x * (mult as int) <= 32768 * 262144) by (nonlinear_arith)
                            requires
                                -32768 <= x <= 32767,
                                -262144 <= mult <= 262144,
                        ;
                    }
                    let p = x * (mult as i64);
                    proof {
                        crate::dsp::lemma_shr16(p);
                    }
                    let v = p >> 16u64;
                    buf[base + j] = saturate16(v as i32);
                    j = j + 1;
                }
                self.mult_hires = self.mult_hires.wrapping_add(self.inc_hires);
                self.count = if self.count > 0 { self.count - 1 } else { 0 };
                proof {
                    assert(*self == q.advance());
                    assert forall|k: int| 0 <= k < (g + 1) * SAMPLES_PER_GROUP implies #[trigger] buf@[k]
                        == e0.output_sample(input@, k) by {
                        if k >= base {
                            lemma_group_of(k, g as int);
                        }
                    }
                }
            }
            g = g + 1;
        }
        assert(buf@ =~= Seq::new(
            AUDIO_BLOCK_SAMPLES as nat,
            |k: int| e0.output_sample(input@, k),
        ));
        if has_input {
            match outputs[0].take() {
                Some(mut out) => {
                    out.copy_from(pool, &buf);
                    outputs[0] = Some(out);
                },
                None => {},
            }
        }
    }
}

proof fn lemma_group_of(k: int, g: int)
    requires
        g * 8 <= k < g * 8 + 8,
    ensures
        k / 8 == g,
        k % 8 == k - g * 8,
{
}

proof fn lemma_shr_i32_14(x: i32)
    ensures
        (x >> 14u32) as int == x as int / 16384,
        -131072 <= (x >> 14u32) <= 131071,
{
    if x >= 0 {
        assert(x >= 0 ==> (x >> 14u32) == x / 16384i32) by (bit_vector);
    } else {
        assert(x < 0 ==> x >> 14u32 == !((!x) >> 14u32)) by (bit_vector);
        assert(!x == -1i32 - x) by (bit_vector);
        let y = !x;
        assert(y >= 0 ==> (y >> 14u32) == y / 16384i32) by (bit_vector);
        let q = y >> 14u32;
        assert(!q == -1i32 - q) by (bit_vector);
    }
}

proof fn lemma_shr_i32_17(x: i32)
    ensures
        (x >> 17u32) as int == x as int / 131072,
        -16384 <= (x >> 17u32) <= 16383,
{
    if x >= 0 {
        assert(x >= 0 ==> (x >> 17u32) == x / 131072i32) by (bit_vector);
    } else {
        assert(x < 0 ==> x >> 17u32 == !((!x) >> 17u32)) by (bit_vector);
        assert(!x == -1i32 - x) by (bit_vector);
        let y = !x;
        assert(y >= 0 ==> (y >> 17u32) == y / 131072i32) by (bit_vector);
        let q = y >> 17u32;
        assert(!q == -1i32 - q) by (bit_vector);
    }
}

impl AudioNode for AudioEffectEnvelope {
    const NUM_INPUTS: usize = 1;

    const NUM_OUTPUTS: usize = 1;

    open spec fn inv(&self) -> bool {
        self.wf()
    }

    fn update(
        &mut self,
        pool: &mut AudioBlockPool,
        inputs: &[Option<AudioBlockRef>],
        outputs: &mut [Option<AudioBlockMut>],
    ) {
        let ghost o = old(outputs)@[0];
        if let Some(b) = &outputs[0] {
            proof {
                use_type_invariant(b);
            }
        }
        AudioEffectEnvelope::update(self, pool, inputs, outputs);
        proof {
            assert forall|s: int|
                0 <= s < POOL_SIZE && old(pool).rc()[s] > 0 && !holds_output(old(outputs)@, s) implies
                #[trigger] pool.data()[s] == old(pool).data()[s] by {
                assert(old(outputs)@.len() == 1);
                if o is Some && s == o->Some_0.id() {
                    assert(mut_id(old(outputs)@[0]) == Some(s as u8));
                    assert(holds_output(old(outputs)@, s));
                }
            }
        }
    }
}

} // verus!
