use vstd::prelude::*;

use crate::block::pool::{lowest_free, released, silent_block};
use crate::block::{AudioBlockMut, AudioBlockPool, AudioBlockRef};
use crate::constants::{AUDIO_BLOCK_SAMPLES, HALF_BLOCK_SAMPLES, POOL_SIZE};
use crate::io::output_i2s::{
    frame_left, frame_right, frame_word, free_half_start, lemma_frame_round_trip, DmaHalf,
};
use crate::node::{holds_output, mut_id, AudioNode};

verus! {

/// `block` with positions `offset..offset + n` replaced by the left (or right) samples of
/// the transfer words `dma[base..base + n]`.
pub open spec fn partly_filled(
    block: Seq<i16>,
    dma: Seq<u32>,
    base: int,
    offset: int,
    n: int,
    left: bool,
) -> Seq<i16> {
    Seq::new(
        block.len(),
        |k: int|
            if offset <= k < offset + n {
                if left {
                    frame_left(dma[base + k - offset])
                } else {
                    frame_right(dma[base + k - offset])
                }
            } else {
                block[k]
            },
    )
}

/// `block` with half a block of samples, from `dma[base..base + 64]`, written at `offset`.
pub open spec fn filled(block: Seq<i16>, dma: Seq<u32>, base: int, offset: int, left: bool) -> Seq<
    i16,
> {
    partly_filled(block, dma, base, offset, HALF_BLOCK_SAMPLES as int, left)
}

/// Loopback: when half a buffer of frames, as the output adapter's interrupt writes them,
/// is read back by the input adapter's interrupt at fill `offset`, the working blocks
/// receive exactly the left and right samples that were sent.
pub proof fn lemma_loopback(
    block_l: Seq<i16>,
    block_r: Seq<i16>,
    dma: Seq<u32>,
    base: int,
    offset: int,
    sent_l: Seq<i16>,
    sent_r: Seq<i16>,
)
    requires
        0 <= offset,
        offset + HALF_BLOCK_SAMPLES <= block_l.len(),
        offset + HALF_BLOCK_SAMPLES <= block_r.len(),
        forall|j: int|
            0 <= j < HALF_BLOCK_SAMPLES ==> dma[base + j] == frame_word(
                #[trigger] sent_l[j],
                sent_r[j],
            ),
    ensures
        forall|j: int|
            0 <= j < HALF_BLOCK_SAMPLES ==> filled(block_l, dma, base, offset, true)[offset + j]
                == sent_l[j] && filled(block_r, dma, base, offset, false)[offset + j] == sent_r[j],
{
    assert forall|j: int| 0 <= j < HALF_BLOCK_SAMPLES implies filled(
        block_l,
        dma,
        base,
        offset,
        true,
    )[offset + j] == sent_l[j] && filled(block_r, dma, base, offset, false)[offset + j]
        == sent_r[j] by {
        assert(dma[base + j] == frame_word(sent_l[j], sent_r[j]));
        lemma_frame_round_trip(sent_l[j], sent_r[j]);
        assert(base + (offset + j) - offset == base + j);
    }
}

/// Slot taken by the second of two successive allocations.
pub open spec fn second_free(rc: Seq<u8>) -> int {
    lowest_free(rc.update(lowest_free(rc), 1u8))
}

/// Whether two successive allocations both succeed.
pub open spec fn pair_available(rc: Seq<u8>) -> bool {
    lowest_free(rc) < POOL_SIZE && second_free(rc) < POOL_SIZE
}

/// Reference counts after the graph's pre-allocated output `o` is replaced.
pub open spec fn drop_output(rc: Seq<u8>, o: Option<AudioBlockMut>) -> Seq<u8> {
    match o {
        Some(b) => released(rc, b.id() as int),
        None => rc,
    }
}

/// Input adapter: de-interleaves each completed half of the hardware buffer into a pair of
/// working blocks and hands full pairs to the graph.
pub struct AudioInputI2S {
    block_left: Option<AudioBlockMut>,
    block_right: Option<AudioBlockMut>,
    block_offset: usize,
    update_responsibility: bool,
}

impl AudioInputI2S {
    /// Slots of the working pair, when there is one.
    pub closed spec fn working(&self) -> Option<(u8, u8)> {
        match (self.block_left, self.block_right) {
            (Some(l), Some(r)) => Some((l.id(), r.id())),
            _ => None,
        }
    }

    /// Number of samples already filled into the working pair.
    pub closed spec fn fill(&self) -> nat {
        self.block_offset as nat
    }

    /// Whether this adapter's interrupt starts graph cycles.
    pub closed spec fn responsible(&self) -> bool {
        self.update_responsibility
    }

    /// Working blocks on two distinct slots of the pool, and the fill on a half-block
    /// boundary.
    pub open spec fn wf(&self) -> bool {
        &&& self.working() matches Some((l, r)) ==> l < POOL_SIZE && r < POOL_SIZE && l != r
        &&& self.fill() == 0 || self.fill() == HALF_BLOCK_SAMPLES || self.fill() == AUDIO_BLOCK_SAMPLES
        &&& self.paired()
    }

    /// Both working blocks or neither.
    pub closed spec fn paired(&self) -> bool {
        self.block_left is Some <==> self.block_right is Some
    }

    /// Create an input adapter without working blocks.
    pub fn new(update_responsibility: bool) -> (r: Self)
        ensures
            r.wf(),
            r.working() is None,
            r.fill() == 0,
            r.responsible() == update_responsibility,
    {
        AudioInputI2S { block_left: None, block_right: None, block_offset: 0, update_responsibility }
    }

    /// Transfer interrupt: de-interleave the half of `dma_buffer` that the hardware has
    /// just completed into the working pair at the current fill. Without working blocks,
    /// or with the pair already full, the samples are dropped.
    ///
    /// Returns whether a graph cycle should run: on the first-half interrupt of the
    /// adapter that holds that responsibility.
    pub fn isr(
        &mut self,
        pool: &mut AudioBlockPool,
        dma_buffer: &[u32; AUDIO_BLOCK_SAMPLES],
        active_half: DmaHalf,
    ) -> (r: bool)
        requires
            old(self).wf(),
            old(pool).wf(),
        ensures
            r == (active_half == DmaHalf::First && old(self).responsible()),
            final(self).wf(),
            final(self).responsible() == old(self).responsible(),
            final(self).working() == old(self).working(),
            final(pool).wf(),
            final(pool).rc() == old(pool).rc(),
            (old(self).working() is Some && old(self).fill() < AUDIO_BLOCK_SAMPLES) ==> {
                let (l, r) = old(self).working()->Some_0;
                let base = free_half_start(active_half);
                let off = old(self).fill() as int;
                &&& final(self).fill() == old(self).fill() + HALF_BLOCK_SAMPLES
                &&& final(pool).data() == old(pool).data().update(
                    l as int,
                    filled(old(pool).data()[l as int], dma_buffer@, base, off, true),
                ).update(r as int, filled(old(pool).data()[r as int], dma_buffer@, base, off, false))
            },
            !(old(self).working() is Some && old(self).fill() < AUDIO_BLOCK_SAMPLES) ==> {
                &&& final(self).fill() == old(self).fill()
                &&& final(pool).data() == old(pool).data()
            },
    {
        let base: usize = match active_half {
            DmaHalf::First => HALF_BLOCK_SAMPLES,
            DmaHalf::Second => 0,
        };
        let should_update = match active_half {
            DmaHalf::First => self.update_responsibility,
            DmaHalf::Second => false,
        };
        let offset = self.block_offset;
        if offset + HALF_BLOCK_SAMPLES <= AUDIO_BLOCK_SAMPLES {
            match (&mut self.block_left, &mut self.block_right) {
                (Some(left), Some(right)) => {
                    proof {
                        use_type_invariant(&*left);
                        use_type_invariant(&*right);
                    }
                    let ghost l = left.id() as int;
                    let ghost r = right.id() as int;
                    let ghost d0 = pool.data();
                    proof {
                        assert(d0[l] =~= partly_filled(d0[l], dma_buffer@, base as int, offset as int, 0, true));
                        assert(d0[r] =~= partly_filled(d0[r], dma_buffer@, base as int, offset as int, 0, false));
                        assert(d0 =~= d0.update(l, d0[l]).update(r, d0[r]));
                    }
                    let mut j: usize = 0;
                    while j < HALF_BLOCK_SAMPLES
                        invariant
                            pool.wf(),
                            pool.rc() == old(pool).rc(),
                            left.id() == l,
                            right.id() == r,
                            l != r,
                            0 <= l < POOL_SIZE,
                            0 <= r < POOL_SIZE,
                            j <= HALF_BLOCK_SAMPLES,
                            offset + HALF_BLOCK_SAMPLES <= AUDIO_BLOCK_SAMPLES,
                            base == free_half_start(active_half),
                            d0 == old(pool).data(),
                            old(pool).wf(),
                            pool.data() == d0.update(
                                l,
                                partly_filled(d0[l], dma_buffer@, base as int, offset as int, j as int, true),
                            ).update(
                                r,
                                partly_filled(d0[r], dma_buffer@, base as int, offset as int, j as int, false),
                            ),
                        decreases HALF_BLOCK_SAMPLES - j,
                    {
                        let w = dma_buffer[base + j];
                        let ghost before = pool.data();
                        left.set(pool, offset + j, w as i16);
                        right.set(pool, offset + j, (w >> 16u32) as i16);
                        proof {
                            let jj = j + 1;
                            assert(pool.data()[l] == before[l].update(offset + j, frame_left(w)));
                            assert(pool.data()[r] == before[r].update(offset + j, frame_right(w)));
                            assert(w == dma_buffer@[base + (offset + j) - offset]);

                            assert(pool.data()[l] =~= partly_filled(d0[l], dma_buffer@, base as int, offset as int, jj as int, true));
                            assert(pool.data()[r] =~= partly_filled(d0[r], dma_buffer@, base as int, offset as int, jj as int, false));
                            assert(pool.data() =~= d0.update(
                                l,
                                partly_filled(d0[l], dma_buffer@, base as int, offset as int, jj as int, true),
                            ).update(
                                r,
                                partly_filled(d0[r], dma_buffer@, base as int, offset as int, jj as int, false),
                            ));
                        }
                        j = j + 1;
                    }
                    self.block_offset = offset + HALF_BLOCK_SAMPLES;
                },
                _ => {},
            }
        }
        should_update
    }

    /// Whether this adapter's interrupt starts graph cycles.
    pub fn has_update_responsibility(&self) -> (r: bool)
        ensures
            r == self.responsible(),
    {
        self.update_responsibility
    }

    /// Whether a working pair is installed.
    pub fn has_working_blocks(&self) -> (r: bool)
        ensures
            r == (self.working() is Some),
    {
        self.block_left.is_some() && self.block_right.is_some()
    }

    /// Number of samples already filled into the working pair.
    pub fn block_offset(&self) -> (r: usize)
        ensures
            r == self.fill(),
    {
        self.block_offset
    }

    /// Release the working pair, if any; the adapter is left without working blocks.
    pub fn release_blocks(&mut self, pool: &mut AudioBlockPool)
        requires
            old(self).wf(),
            old(pool).wf(),
        ensures
            final(self).wf(),
            final(self).working() is None,
            final(self).fill() == old(self).fill(),
            final(self).responsible() == old(self).responsible(),
            final(pool).wf(),
            final(pool).data() == old(pool).data(),
            old(self).working() matches Some((l, r)) ==> final(pool).rc() == released(
                released(old(pool).rc(), l as int),
                r as int,
            ),
            old(self).working() is None ==> final(pool).rc() == old(pool).rc(),
    {
        if let Some(l) = self.block_left.take() {
            l.release(pool);
        }
        if let Some(r) = self.block_right.take() {
            r.release(pool);
        }
    }

    /// Two fresh blocks, or none: a lone block that was allocated is released again.
    fn allocate_pair(pool: &mut AudioBlockPool) -> (r: Option<(AudioBlockMut, AudioBlockMut)>)
        requires
            old(pool).wf(),
        ensures
            final(pool).wf(),
            ({
                let rc = old(pool).rc();
                let a = lowest_free(rc);
                let b = second_free(rc);
                if pair_available(rc) {
                    &&& r matches Some((x, y))
                    &&& x.id() == a
                    &&& y.id() == b
                    &&& a != b
                    &&& final(pool).rc() == rc.update(a, 1u8).update(b, 1u8)
                    &&& final(pool).data() == old(pool).data().update(a, silent_block()).update(
                        b,
                        silent_block(),
                    )
                } else {
                    &&& r is None
                    &&& final(pool).rc() == rc
                    &&& final(pool).data() == if a < POOL_SIZE {
                        old(pool).data().update(a, silent_block())
                    } else {
                        old(pool).data()
                    }
                }
            }),
    {
        match AudioBlockMut::allocate(pool) {
            Some(first) => {
                match AudioBlockMut::allocate(pool) {
                    Some(second) => Some((first, second)),
                    None => {
                        first.release(pool);
                        assert(pool.rc() =~= old(pool).rc());
                        None
                    },
                }
            },
            None => None,
        }
    }

    /// Graph cycle: once the working pair is full, hand it to the graph as outputs
    /// (left, right), replacing what the outputs held. Then, if no working pair is left,
    /// install a freshly allocated one; when the pool cannot supply two blocks the adapter
    /// stays without, and later interrupts drop their samples.
    pub fn update(
        &mut self,
        pool: &mut AudioBlockPool,
        inputs: &[Option<AudioBlockRef>],
        outputs: &mut [Option<AudioBlockMut>],
    )
        requires
            old(self).wf(),
            old(pool).wf(),
            old(outputs)@.len() == 2,
        ensures
            final(self).wf(),
            final(self).responsible() == old(self).responsible(),
            final(pool).wf(),
            final(outputs)@.len() == 2,
            ({
                let handed = old(self).fill() == AUDIO_BLOCK_SAMPLES && old(self).working() is Some;
                let rc0 = old(pool).rc();
                let rc1 = if handed {
                    drop_output(drop_output(rc0, old(outputs)@[0]), old(outputs)@[1])
                } else {
                    rc0
                };
                let needs_new = handed || old(self).working() is None;
                let a = lowest_free(rc1);
                let b = second_free(rc1);
                &&& handed ==> {
                    &&& final(outputs)@[0] matches Some(x) && x.id() == old(self).working()->Some_0.0
                    &&& final(outputs)@[1] matches Some(y) && y.id() == old(self).working()->Some_0.1
                }
                &&& !handed ==> final(outputs)@ == old(outputs)@
                &&& (needs_new && pair_available(rc1)) ==> {
                    &&& final(self).working() == Some((a as u8, b as u8))
                    &&& final(self).fill() == 0
                    &&& final(pool).rc() == rc1.update(a, 1u8).update(b, 1u8)
                    &&& final(pool).data() == old(pool).data().update(a, silent_block()).update(
                        b,
                        silent_block(),
                    )
                }
                &&& (needs_new && !pair_available(rc1)) ==> {
                    &&& final(self).working() is None
                    &&& final(self).fill() == old(self).fill()
                    &&& final(pool).rc() == rc1
                    &&& final(pool).data() == if a < POOL_SIZE {
                        old(pool).data().update(a, silent_block())
                    } else {
                        old(pool).data()
                    }
                }
                &&& !needs_new ==> {
                    &&& final(self).working() == old(self).working()
                    &&& final(self).fill() == old(self).fill()
                    &&& *final(pool) == *old(pool)
                }
            }),
    {
        if self.block_offset >= AUDIO_BLOCK_SAMPLES && self.block_left.is_some() {
            if let Some(left) = self.block_left.take() {
                if let Some(o) = outputs[0].take() {
                    o.release(pool);
                }
                outputs[0] = Some(left);
            }
            if let Some(right) = self.block_right.take() {
                if let Some(o) = outputs[1].take() {
                    o.release(pool);
                }
                outputs[1] = Some(right);
            }
        }
        if self.block_left.is_none() {
            match Self::allocate_pair(pool) {
                Some((l, r)) => {
                    self.block_left = Some(l);
                    self.block_right = Some(r);
                    self.block_offset = 0;
                },
                None => {},
            }
        }
    }
}

impl AudioNode for AudioInputI2S {
    const NUM_INPUTS: usize = 0;

    const NUM_OUTPUTS: usize = 2;

    open spec fn inv(&self) -> bool {
        self.wf()
    }

    fn update(
        &mut self,
        pool: &mut AudioBlockPool,
        inputs: &[Option<AudioBlockRef>],
        outputs: &mut [Option<AudioBlockMut>],
    ) {
        let ghost o0 = old(outputs)@[0];
        let ghost o1 = old(outputs)@[1];
        if let Some(b) = &outputs[0] {
            proof {
                use_type_invariant(b);
            }
        }
        if let Some(b) = &outputs[1] {
            proof {
                use_type_invariant(b);
            }
        }
        AudioInputI2S::update(self, pool, inputs, outputs);
        proof {
            let rc0 = old(pool).rc();
            assert forall|s: int|
                0 <= s < POOL_SIZE && rc0[s] > 0 && !holds_output(old(outputs)@, s) implies
                #[trigger] pool.data()[s] == old(pool).data()[s] by {
                assert(old(outputs)@.len() == 2);
                if o0 is Some && s == o0->Some_0.id() {
                    assert(mut_id(old(outputs)@[0]) == Some(s as u8));
                } else if o1 is Some && s == o1->Some_0.id() {
                    assert(mut_id(old(outputs)@[1]) == Some(s as u8));
                } else {
                    let handed = old(self).fill() == AUDIO_BLOCK_SAMPLES && old(self).working() is Some;
                    let rc1 = if handed {
                        drop_output(drop_output(rc0, o0), o1)
                    } else {
                        rc0
                    };
                    assert(rc1[s] == rc0[s]);
                    let a = lowest_free(rc1);
                    crate::block::pool::lemma_lowest_free_zero(rc1, 0);
                    crate::block::pool::lemma_lowest_free_zero(rc1.update(a, 1u8), 0);
                }
            }
        }
    }
}

} // verus!
