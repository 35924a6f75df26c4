use vstd::prelude::*;

use crate::block::pool::{acquired, released};
use crate::block::{AudioBlockMut, AudioBlockPool, AudioBlockRef};
use crate::io::play_queue::QUEUE_SIZE;
use crate::io::spsc::SpscQueue;
use crate::node::AudioNode;

verus! {

/// Lets user code read the blocks that reach it in the graph, while recording.
pub struct AudioRecordQueue {
    queue: SpscQueue<AudioBlockRef, QUEUE_SIZE>,
    recording: bool,
}

impl AudioRecordQueue {
    /// Slots of the captured blocks, oldest first.
    pub closed spec fn captured(&self) -> Seq<u8> {
        self.queue@.map_values(|b: AudioBlockRef| b.id())
    }

    /// Whether incoming blocks are kept.
    pub closed spec fn is_on(&self) -> bool {
        self.recording
    }

    /// The queue's consistency.
    pub closed spec fn wf(&self) -> bool {
        self.queue.wf()
    }

    /// Create an empty record queue, not recording.
    pub fn new() -> (r: Self)
        ensures
            r.wf(),
            r.captured() == Seq::<u8>::empty(),
            !r.is_on(),
    {
        let r = AudioRecordQueue { queue: SpscQueue::new(), recording: false };
        assert(r.captured() =~= Seq::<u8>::empty());
        r
    }

    /// Start keeping incoming blocks.
    pub fn start(&mut self)
        ensures
            final(self).is_on(),
            final(self).captured() == old(self).captured(),
            final(self).wf() == old(self).wf(),
    {
        self.recording = true;
    }

    /// Stop keeping incoming blocks; those captured stay readable.
    pub fn stop(&mut self)
        ensures
            !final(self).is_on(),
            final(self).captured() == old(self).captured(),
            final(self).wf() == old(self).wf(),
    {
        self.recording = false;
    }

    /// Whether incoming blocks are kept.
    pub fn is_recording(&self) -> (r: bool)
        ensures
            r == self.is_on(),
    {
        self.recording
    }

    /// Take the oldest captured block; `None` when there is none.
    pub fn read(&mut self) -> (r: Option<AudioBlockRef>)
        requires
            old(self).wf(),
        ensures
            final(self).wf(),
            final(self).is_on() == old(self).is_on(),
            old(self).captured().len() == 0 ==> r is None && final(self).captured()
                == old(self).captured(),
            old(self).captured().len() > 0 ==> (r matches Some(b) && b.id() == old(self).captured()[0])
                && final(self).captured() == old(self).captured().drop_first(),
    {
        let r = self.queue.pop();
        assert(self.captured() =~= if old(self).captured().len() == 0 {
            old(self).captured()
        } else {
            old(self).captured().drop_first()
        });
        r
    }

    /// Whether a captured block waits.
    pub fn available(&self) -> (r: bool)
        requires
            self.wf(),
        ensures
            r == (self.captured().len() > 0),
    {
        !self.queue.is_empty()
    }

    /// Number of captured blocks waiting.
    pub fn len(&self) -> (r: usize)
        requires
            self.wf(),
        ensures
            r == self.captured().len(),
    {
        self.queue.len()
    }

    /// Graph cycle: while recording, keep a new owner of the present input block. With four
    /// blocks already waiting the new one is dropped.
    pub fn update(
        &mut self,
        pool: &mut AudioBlockPool,
        inputs: &[Option<AudioBlockRef>],
        outputs: &mut [Option<AudioBlockMut>],
    )
        requires
            old(self).wf(),
            old(pool).wf(),
            inputs@.len() == 1,
        ensures
            final(self).wf(),
            final(self).is_on() == old(self).is_on(),
            final(pool).wf(),
            final(pool).data() == old(pool).data(),
            final(outputs)@ == old(outputs)@,
            ({
                let keep = old(self).is_on() && inputs@[0] is Some && old(self).captured().len()
                    < QUEUE_SIZE - 1 && 0 < old(pool).rc()[inputs@[0]->Some_0.id() as int] < 255;
                &&& keep ==> final(self).captured() == old(self).captured().push(
                    inputs@[0]->Some_0.id(),
                ) && final(pool).rc() == acquired(old(pool).rc(), inputs@[0]->Some_0.id() as int)
                &&& !keep ==> final(self).captured() == old(self).captured() && final(pool).rc()
                    == old(pool).rc()
            }),
    {
        proof {
            self.queue.lemma_len_bound();
        }
        if !self.recording {
            return;
        }
        if let Some(b) = &inputs[0] {
            if let Some(d) = b.duplicate(pool) {
                let ghost s = b.id() as int;
                let ghost mid = pool.rc();
                proof {
                    use_type_invariant(b);
                    assert(mid == acquired(old(pool).rc(), s));
                }
                match self.queue.push(d) {
                    Ok(()) => {
                        assert(self.captured() =~= old(self).captured().push(b.id()));
                    },
                    Err(d) => {
                        d.release(pool);
                        assert(pool.rc() == released(mid, s));
                        assert(pool.rc() =~= old(pool).rc());
                    },
                }
            }
        }
    }
}

impl AudioNode for AudioRecordQueue {
    const NUM_INPUTS: usize = 1;

    const NUM_OUTPUTS: usize = 0;

    open spec fn inv(&self) -> bool {
        self.wf()
    }

    fn update(
        &mut self,
        pool: &mut AudioBlockPool,
        inputs: &[Option<AudioBlockRef>],
        outputs: &mut [Option<AudioBlockMut>],
    ) {
        AudioRecordQueue::update(self, pool, inputs, outputs);
    }
}

} // verus!
