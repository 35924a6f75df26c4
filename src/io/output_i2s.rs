use vstd::prelude::*;

use crate::block::pool::{acquired, released};
use crate::block::{AudioBlockMut, AudioBlockPool, AudioBlockRef};
use crate::constants::{AUDIO_BLOCK_SAMPLES, HALF_BLOCK_SAMPLES};
use crate::node::AudioNode;

verus! {

/// The half of the circular transfer buffer that the hardware is working on.
///
/// The output interrupt fills the other half; the input interrupt reads the other half.
#[derive(Clone, Copy, Debug, PartialEq, Eq, Structural)]
pub enum DmaHalf {
    /// Words `0..64`.
    First,
    /// Words `64..128`.
    Second,
}

/// Index of the first word of the half that software owns while the hardware is on `active`.
pub open spec fn free_half_start(active: DmaHalf) -> int {
    match active {
        DmaHalf::First => HALF_BLOCK_SAMPLES as int,
        DmaHalf::Second => 0,
    }
}

/// One stereo frame in a single transfer word: left in the lower 16 bits, right in the upper.
pub open spec fn frame_word(l: i16, r: i16) -> u32 {
    ((l as u16) as u32) | (((r as u16) as u32) << 16u32)
}

/// The left sample of a frame word.
pub open spec fn frame_left(w: u32) -> i16 {
    w as i16
}

/// The right sample of a frame word.
pub open spec fn frame_right(w: u32) -> i16 {
    (w >> 16u32) as i16
}

/// Both samples of a frame come back out of its word unchanged.
pub proof fn lemma_frame_round_trip(l: i16, r: i16)
    ensures
        frame_left(frame_word(l, r)) == l,
        frame_right(frame_word(l, r)) == r,
{
    assert((((l as u16) as u32) | (((r as u16) as u32) << 16u32)) as i16 == l) by (bit_vector);
    assert(((((l as u16) as u32) | (((r as u16) as u32) << 16u32)) >> 16u32) as i16 == r)
        by (bit_vector);
}

/// The slot of an optional handle.
pub open spec fn opt_id(b: Option<AudioBlockRef>) -> Option<u8> {
    match b {
        Some(h) => Some(h.id()),
        None => None,
    }
}

/// Depth-two queue of shared blocks for one output channel, with the read offset into the
/// oldest block.
pub struct PlaybackChannel {
    first: Option<AudioBlockRef>,
    second: Option<AudioBlockRef>,
    offset: usize,
}

impl PlaybackChannel {
    /// Slots of the queued blocks, oldest first.
    pub closed spec fn ids(&self) -> Seq<u8> {
        match (self.first, self.second) {
            (Some(a), Some(b)) => seq![a.id(), b.id()],
            (Some(a), None) => seq![a.id()],
            _ => Seq::empty(),
        }
    }

    /// Offset of the next sample to play in the oldest block.
    pub closed spec fn pos(&self) -> nat {
        self.offset as nat
    }

    /// A second block only behind a first, and the offset on a half-block boundary.
    pub closed spec fn wf(&self) -> bool {
        &&& self.second is Some ==> self.first is Some
        &&& self.offset == 0 || self.offset == HALF_BLOCK_SAMPLES
    }

    /// Sample `j` of the half block that plays next: silence with nothing queued.
    pub open spec fn next_sample(&self, data: Seq<Seq<i16>>, j: int) -> i16 {
        if self.ids().len() > 0 {
            data[self.ids()[0] as int][self.pos() + j]
        } else {
            0
        }
    }

    /// Slots queued after half a block has been played.
    pub open spec fn ids_after_half(&self) -> Seq<u8> {
        if self.pos() == 0 || self.ids().len() == 0 {
            self.ids()
        } else {
            self.ids().drop_first()
        }
    }

    /// Reference counts after half a block has been played: a finished block is released.
    pub open spec fn rc_after_half(&self, rc: Seq<u8>) -> Seq<u8> {
        if self.pos() != 0 && self.ids().len() > 0 {
            released(rc, self.ids()[0] as int)
        } else {
            rc
        }
    }

    /// Slots queued after `s` is enqueued: with two already queued, the oldest is dropped.
    pub open spec fn ids_after_enqueue(&self, s: u8) -> Seq<u8> {
        if self.ids().len() < 2 {
            self.ids().push(s)
        } else {
            seq![self.ids()[1], s]
        }
    }

    /// Reference counts after `s` is enqueued.
    pub open spec fn rc_after_enqueue(&self, rc: Seq<u8>, s: u8) -> Seq<u8> {
        if self.ids().len() < 2 {
            acquired(rc, s as int)
        } else {
            released(acquired(rc, s as int), self.ids()[0] as int)
        }
    }

    /// Whether enqueuing `input` takes effect: it is present and its slot can take another owner.
    pub open spec fn accepts(rc: Seq<u8>, input: Option<AudioBlockRef>) -> bool {
        match input {
            Some(b) => 0 < rc[b.id() as int] < 255,
            None => false,
        }
    }

    fn new() -> (r: Self)
        ensures
            r.wf(),
            r.ids() == Seq::<u8>::empty(),
            r.pos() == 0,
    {
        PlaybackChannel { first: None, second: None, offset: 0 }
    }

    fn has_block(&self) -> (r: bool)
        ensures
            r == (self.ids().len() > 0),
    {
        self.first.is_some()
    }

    fn has_second(&self) -> (r: bool)
        requires
            self.wf(),
        ensures
            r == (self.ids().len() > 1),
    {
        self.second.is_some()
    }

    fn offset(&self) -> (r: usize)
        ensures
            r == self.pos(),
    {
        self.offset
    }

    /// Queue a new owner of `input`'s block.
    fn enqueue(&mut self, pool: &mut AudioBlockPool, input: &Option<AudioBlockRef>)
        requires
            old(self).wf(),
            old(pool).wf(),
        ensures
            final(self).wf(),
            final(pool).wf(),
            final(pool).data() == old(pool).data(),
            !Self::accepts(old(pool).rc(), *input) ==> *final(self) == *old(self) && *final(pool)
                == *old(pool),
            Self::accepts(old(pool).rc(), *input) ==> {
                let s = input->Some_0.id();
                &&& final(self).ids() == old(self).ids_after_enqueue(s)
                &&& final(self).pos() == if old(self).ids().len() == 1 {
                    old(self).pos()
                } else {
                    0
                }
                &&& final(pool).rc() == old(self).rc_after_enqueue(old(pool).rc(), s)
            },
    {
        if let Some(b) = input {
            match b.duplicate(pool) {
                Some(d) => {
                    if self.first.is_none() {
                        self.first = Some(d);
                        self.offset = 0;
                    } else if self.second.is_none() {
                        self.second = Some(d);
                    } else {
                        let oldest = self.first.take();
                        self.first = self.second.take();
                        self.second = Some(d);
                        self.offset = 0;
                        if let Some(o) = oldest {
                            o.release(pool);
                        }
                    }
                },
                None => {},
            }
        }
    }

    /// Sample `j` of the half block that plays next.
    fn next(&self, pool: &AudioBlockPool, j: usize) -> (r: i16)
        requires
            self.wf(),
            pool.wf(),
            j < HALF_BLOCK_SAMPLES,
        ensures
            r == self.next_sample(pool.data(), j as int),
    {
        match &self.first {
            Some(b) => b.get(pool, self.offset + j),
            None => 0,
        }
    }

    /// Reference counts after every queued block is released, oldest first.
    pub open spec fn rc_after_clear(&self, rc: Seq<u8>) -> Seq<u8> {
        if self.ids().len() == 0 {
            rc
        } else if self.ids().len() == 1 {
            released(rc, self.ids()[0] as int)
        } else {
            released(released(rc, self.ids()[0] as int), self.ids()[1] as int)
        }
    }

    fn clear(&mut self, pool: &mut AudioBlockPool)
        requires
            old(self).wf(),
            old(pool).wf(),
        ensures
            final(self).wf(),
            final(self).ids().len() == 0,
            final(self).pos() == 0,
            final(pool).wf(),
            final(pool).data() == old(pool).data(),
            final(pool).rc() == old(self).rc_after_clear(old(pool).rc()),
    {
        if let Some(a) = self.first.take() {
            a.release(pool);
        }
        if let Some(b) = self.second.take() {
            b.release(pool);
        }
        self.offset = 0;
    }

    /// Account for half a block played; release the oldest block once all of it has played.
    fn advance(&mut self, pool: &mut AudioBlockPool)
        requires
            old(self).wf(),
            old(pool).wf(),
        ensures
            final(self).wf(),
            final(pool).wf(),
            final(pool).data() == old(pool).data(),
            final(self).ids() == old(self).ids_after_half(),
            final(self).pos() == if old(self).pos() == 0 {
                HALF_BLOCK_SAMPLES as nat
            } else {
                0
            },
            final(pool).rc() == old(self).rc_after_half(old(pool).rc()),
    {
        let new_offset = self.offset + HALF_BLOCK_SAMPLES;
        if new_offset < AUDIO_BLOCK_SAMPLES {
            self.offset = new_offset;
        } else {
            self.offset = 0;
            let done = self.first.take();
            self.first = self.second.take();
            if let Some(d) = done {
                d.release(pool);
            }
            assert(self.ids() =~= old(self).ids_after_half());
        }
    }
}

/// Output adapter: queues left and right blocks from the graph and, on each transfer
/// interrupt, writes half a block of frames into the free half of the hardware buffer.
pub struct AudioOutputI2S {
    left: PlaybackChannel,
    right: PlaybackChannel,
    update_responsibility: bool,
}

impl AudioOutputI2S {
    /// The left channel's queue.
    pub closed spec fn left_channel(&self) -> PlaybackChannel {
        self.left
    }

    /// The right channel's queue.
    pub closed spec fn right_channel(&self) -> PlaybackChannel {
        self.right
    }

    /// Whether this adapter's interrupt starts graph cycles.
    pub closed spec fn responsible(&self) -> bool {
        self.update_responsibility
    }

    /// Both channel queues well formed.
    pub open spec fn wf(&self) -> bool {
        self.left_channel().wf() && self.right_channel().wf()
    }

    /// Create an output adapter with nothing queued.
    pub fn new(update_responsibility: bool) -> (r: Self)
        ensures
            r.wf(),
            r.responsible() == update_responsibility,
            r.left_channel().ids().len() == 0,
            r.right_channel().ids().len() == 0,
            r.left_channel().pos() == 0,
            r.right_channel().pos() == 0,
    {
        AudioOutputI2S {
            left: PlaybackChannel::new(),
            right: PlaybackChannel::new(),
            update_responsibility,
        }
    }

    /// Transfer interrupt: fill the half of `dma_buffer` that the hardware is not reading
    /// with the next half block of each channel (silence for a channel with nothing
    /// queued), then advance both channels, releasing each block that has fully played.
    ///
    /// Returns whether a graph cycle should run: on the first-half interrupt of the
    /// adapter that holds that responsibility.
    pub fn isr(
        &mut self,
        pool: &mut AudioBlockPool,
        dma_buffer: &mut [u32; AUDIO_BLOCK_SAMPLES],
        active_half: DmaHalf,
    ) -> (r: bool)
        requires
            old(self).wf(),
            old(pool).wf(),
        ensures
            r == (active_half == DmaHalf::First && old(self).responsible()),
            final(self).wf(),
            final(self).responsible() == old(self).responsible(),
            final(pool).wf(),
            final(pool).data() == old(pool).data(),
            forall|j: int|
                0 <= j < HALF_BLOCK_SAMPLES ==> final(dma_buffer)@[free_half_start(active_half) + j]
                    == frame_word(
                    old(self).left_channel().next_sample(old(pool).data(), j),
                    old(self).right_channel().next_sample(old(pool).data(), j),
                ),
            forall|k: int|
                0 <= k < AUDIO_BLOCK_SAMPLES && !(free_half_start(active_half) <= k
                    < free_half_start(active_half) + HALF_BLOCK_SAMPLES) ==> final(dma_buffer)@[k]
                    == old(dma_buffer)@[k],
            final(self).left_channel().ids() == old(self).left_channel().ids_after_half(),
            final(self).right_channel().ids() == old(self).right_channel().ids_after_half(),
            final(self).left_channel().pos() == if old(self).left_channel().pos() == 0 {
                HALF_BLOCK_SAMPLES as nat
            } else {
                0
            },
            final(self).right_channel().pos() == if old(self).right_channel().pos() == 0 {
                HALF_BLOCK_SAMPLES as nat
            } else {
                0
            },
            final(pool).rc() == old(self).right_channel().rc_after_half(
                old(self).left_channel().rc_after_half(old(pool).rc()),
            ),
    {
        let base: usize = match active_half {
            DmaHalf::First => HALF_BLOCK_SAMPLES,
            DmaHalf::Second => 0,
        };
        let should_update = match active_half {
            DmaHalf::First => self.update_responsibility,
            DmaHalf::Second => false,
        };
        let mut j: usize = 0;
        while j < HALF_BLOCK_SAMPLES
            invariant
                self.wf(),
                pool.wf(),
                *self == *old(self),
                *pool == *old(pool),
                base == free_half_start(active_half),
                j <= HALF_BLOCK_SAMPLES,
                forall|i: int|
                    0 <= i < j ==> dma_buffer@[base + i] == frame_word(
                        self.left_channel().next_sample(pool.data(), i),
                        self.right_channel().next_sample(pool.data(), i),
                    ),
                forall|k: int|
                    0 <= k < AUDIO_BLOCK_SAMPLES && !(base <= k < base + j) ==> dma_buffer@[k]
                        == old(dma_buffer)@[k],
            decreases HALF_BLOCK_SAMPLES - j,
        {
            let l = self.left.next(pool, j);
            let r = self.right.next(pool, j);
            dma_buffer[base + j] = (l as u16 as u32) | ((r as u16 as u32) << 16u32);
            j = j + 1;
        }
        self.left.advance(pool);
        self.right.advance(pool);
        should_update
    }

    /// Release every queued block of both channels.
    pub fn release_blocks(&mut self, pool: &mut AudioBlockPool)
        requires
            old(self).wf(),
            old(pool).wf(),
        ensures
            final(self).wf(),
            final(self).responsible() == old(self).responsible(),
            final(self).left_channel().ids().len() == 0,
            final(self).right_channel().ids().len() == 0,
            final(pool).wf(),
            final(pool).data() == old(pool).data(),
            final(pool).rc() == old(self).right_channel().rc_after_clear(
                old(self).left_channel().rc_after_clear(old(pool).rc()),
            ),
    {
        self.left.clear(pool);
        self.right.clear(pool);
    }

    /// Whether this adapter's interrupt starts graph cycles.
    pub fn has_update_responsibility(&self) -> (r: bool)
        ensures
            r == self.responsible(),
    {
        self.update_responsibility
    }

    /// Whether a left block is queued.
    pub fn has_left_block(&self) -> (r: bool)
        ensures
            r == (self.left_channel().ids().len() > 0),
    {
        self.left.has_block()
    }

    /// Whether a right block is queued.
    pub fn has_right_block(&self) -> (r: bool)
        ensures
            r == (self.right_channel().ids().len() > 0),
    {
        self.right.has_block()
    }

    /// Whether a second left block waits behind the one playing.
    pub fn has_second_left_block(&self) -> (r: bool)
        requires
            self.wf(),
        ensures
            r == (self.left_channel().ids().len() > 1),
    {
        self.left.has_second()
    }

    /// Whether a second right block waits behind the one playing.
    pub fn has_second_right_block(&self) -> (r: bool)
        requires
            self.wf(),
        ensures
            r == (self.right_channel().ids().len() > 1),
    {
        self.right.has_second()
    }

    /// Read offset into the left block that is playing.
    pub fn left_offset(&self) -> (r: usize)
        ensures
            r == self.left_channel().pos(),
    {
        self.left.offset()
    }

    /// Read offset into the right block that is playing.
    pub fn right_offset(&self) -> (r: usize)
        ensures
            r == self.right_channel().pos(),
    {
        self.right.offset()
    }

    /// Graph cycle: queue a new owner of each present input (left, right). With two blocks
    /// already queued on a channel, its oldest is dropped to make room. A block queued on
    /// an empty channel, or after the oldest was dropped, plays from its start.
    pub fn update(
        &mut self,
        pool: &mut AudioBlockPool,
        inputs: &[Option<AudioBlockRef>],
        outputs: &mut [Option<AudioBlockMut>],
    )
        requires
            old(self).wf(),
            old(pool).wf(),
            inputs@.len() == 2,
        ensures
            final(self).wf(),
            final(pool).wf(),
            final(self).responsible() == old(self).responsible(),
            final(outputs)@ == old(outputs)@,
            final(pool).data() == old(pool).data(),
            ({
                let rc0 = old(pool).rc();
                let l = old(self).left_channel();
                let rc1 = if PlaybackChannel::accepts(rc0, inputs@[0]) {
                    l.rc_after_enqueue(rc0, inputs@[0]->Some_0.id())
                } else {
                    rc0
                };
                let r = old(self).right_channel();
                let rc2 = if PlaybackChannel::accepts(rc1, inputs@[1]) {
                    r.rc_after_enqueue(rc1, inputs@[1]->Some_0.id())
                } else {
                    rc1
                };
                &&& final(pool).rc() == rc2
                &&& final(self).left_channel().ids() == if PlaybackChannel::accepts(rc0, inputs@[0]) {
                    l.ids_after_enqueue(inputs@[0]->Some_0.id())
                } else {
                    l.ids()
                }
                &&& final(self).right_channel().ids() == if PlaybackChannel::accepts(rc1, inputs@[1]) {
                    r.ids_after_enqueue(inputs@[1]->Some_0.id())
                } else {
                    r.ids()
                }
                &&& final(self).left_channel().pos() == if PlaybackChannel::accepts(rc0, inputs@[0])
                    && l.ids().len() != 1 {
                    0
                } else {
                    l.pos()
                }
                &&& final(self).right_channel().pos() == if PlaybackChannel::accepts(rc1, inputs@[1])
                    && r.ids().len() != 1 {
                    0
                } else {
                    r.pos()
                }
            }),
    {
        self.left.enqueue(pool, &inputs[0]);
        self.right.enqueue(pool, &inputs[1]);
    }
}

impl AudioNode for AudioOutputI2S {
    const NUM_INPUTS: usize = 2;

    const NUM_OUTPUTS: usize = 0;

    open spec fn inv(&self) -> bool {
        self.wf()
    }

    fn update(
        &mut self,
        pool: &mut AudioBlockPool,
        inputs: &[Option<AudioBlockRef>],
        outputs: &mut [Option<AudioBlockMut>],
    ) {
        AudioOutputI2S::update(self, pool, inputs, outputs);
    }
}

} // verus!
