use vstd::prelude::*;

use crate::block::{AudioBlockMut, AudioBlockPool, AudioBlockRef};
use crate::io::input_i2s::drop_output;
use crate::io::spsc::SpscQueue;
use crate::node::AudioNode;

verus! {

/// Ring slots of the user-facing queues: four usable.
pub const QUEUE_SIZE: usize = 5;

/// Lets user code inject blocks into the graph: one queued block comes out per cycle.
pub struct AudioPlayQueue {
    queue: SpscQueue<AudioBlockMut, QUEUE_SIZE>,
}

impl AudioPlayQueue {
    /// Slots of the queued blocks, oldest first.
    pub closed spec fn queued(&self) -> Seq<u8> {
        self.queue@.map_values(|b: AudioBlockMut| b.id())
    }

    /// The queue's consistency.
    pub closed spec fn wf(&self) -> bool {
        self.queue.wf()
    }

    /// Create an empty play queue.
    pub fn new() -> (r: Self)
        ensures
            r.wf(),
            r.queued() == Seq::<u8>::empty(),
    {
        let r = AudioPlayQueue { queue: SpscQueue::new() };
        assert(r.queued() =~= Seq::<u8>::empty());
        r
    }

    /// Enqueue a block for playback; a full queue (four blocks) hands it back.
    pub fn play(&mut self, block: AudioBlockMut) -> (r: Result<(), AudioBlockMut>)
        requires
            old(self).wf(),
        ensures
            final(self).wf(),
            old(self).queued().len() == QUEUE_SIZE - 1 ==> r == Err::<(), AudioBlockMut>(block)
                && final(self).queued() == old(self).queued(),
            old(self).queued().len() < QUEUE_SIZE - 1 ==> r is Ok && final(self).queued()
                == old(self).queued().push(block.id()),
    {
        proof {
            self.queue.lemma_len_bound();
        }
        let r = self.queue.push(block);
        proof {
            assert(self.queue@.len() == old(self).queue@.len() || self.queue@.len() == old(self).queue@.len() + 1);
            if r is Ok {
                assert(self.queued() =~= old(self).queued().push(block.id()));
            }
        }
        r
    }

    /// Whether no block waits.
    pub fn is_empty(&self) -> (r: bool)
        requires
            self.wf(),
        ensures
            r == (self.queued().len() == 0),
    {
        self.queue.is_empty()
    }

    /// Number of waiting blocks.
    pub fn len(&self) -> (r: usize)
        requires
            self.wf(),
        ensures
            r == self.queued().len(),
    {
        self.queue.len()
    }

    /// Graph cycle: the oldest queued block, if any, becomes the output, replacing (and
    /// releasing) what the output held.
    pub fn update(
        &mut self,
        pool: &mut AudioBlockPool,
        inputs: &[Option<AudioBlockRef>],
        outputs: &mut [Option<AudioBlockMut>],
    )
        requires
            old(self).wf(),
            old(pool).wf(),
            old(outputs)@.len() == 1,
        ensures
            final(self).wf(),
            final(pool).wf(),
            final(pool).data() == old(pool).data(),
            final(outputs)@.len() == 1,
            old(self).queued().len() == 0 ==> final(self).queued() == old(self).queued()
                && final(outputs)@ == old(outputs)@ && *final(pool) == *old(pool),
            old(self).queued().len() > 0 ==> {
                &&& final(self).queued() == old(self).queued().drop_first()
                &&& final(outputs)@[0] matches Some(b) && b.id() == old(self).queued()[0]
                &&& final(pool).rc() == drop_output(old(pool).rc(), old(outputs)@[0])
            },
    {
        match self.queue.pop() {
            Some(block) => {
                if let Some(o) = outputs[0].take() {
                    o.release(pool);
                }
                outputs[0] = Some(block);
                assert(self.queued() =~= old(self).queued().drop_first());
            },
            None => {},
        }
    }
}

impl AudioNode for AudioPlayQueue {
    const NUM_INPUTS: usize = 0;

    const NUM_OUTPUTS: usize = 1;

    open spec fn inv(&self) -> bool {
        self.wf()
    }

    fn update(
        &mut self,
        pool: &mut AudioBlockPool,
        inputs: &[Option<AudioBlockRef>],
        outputs: &mut [Option<AudioBlockMut>],
    ) {
        AudioPlayQueue::update(self, pool, inputs, outputs);
    }
}

} // verus!
