use vstd::prelude::*;

use crate::block::pool::{acquired, lowest_free, released, silent_block, AudioBlockPool};
use crate::constants::{AUDIO_BLOCK_SAMPLES, POOL_SIZE};

verus! {

/// Exclusive (read-write) handle to a pool slot.
///
/// Releasing it gives up its slot's single reference.
pub struct AudioBlockMut {
    slot: u8,
}

/// Shared (read-only) handle to a pool slot, one of possibly many owners.
pub struct AudioBlockRef {
    slot: u8,
}

impl AudioBlockMut {
    #[verifier::type_invariant]
    pub open spec fn inv(&self) -> bool {
        self.id() < POOL_SIZE
    }

    /// The slot this handle designates.
    pub closed spec fn id(&self) -> u8 {
        self.slot
    }

    pub(crate) fn new(slot: u8) -> (r: Self)
        requires
            slot < POOL_SIZE,
        ensures
            r.id() == slot,
    {
        AudioBlockMut { slot }
    }

    /// Convert to a shared handle: same slot, no copy, no reference-count change.
    pub fn into_shared(self) -> (r: AudioBlockRef)
        ensures
            r.id() == self.id(),
    {
        proof {
            use_type_invariant(&self);
        }
        AudioBlockRef { slot: self.slot }
    }

    /// The pool slot index.
    pub fn slot(&self) -> (r: u8)
        ensures
            r == self.id(),
            r < POOL_SIZE,
    {
        proof {
            use_type_invariant(self);
        }
        self.slot
    }

    /// Allocate a zeroed block from the pool; `None` when the pool is exhausted.
    pub fn allocate(pool: &mut AudioBlockPool) -> (r: Option<Self>)
        requires
            old(pool).wf(),
        ensures
            final(pool).wf(),
            r is None <==> forall|s: int| 0 <= s < POOL_SIZE ==> old(pool).rc()[s] > 0,
            r is None ==> *final(pool) == *old(pool),
            r is None ==> lowest_free(old(pool).rc()) == POOL_SIZE,
            r matches Some(b) ==> {
                &&& b.id() == lowest_free(old(pool).rc())
                &&& old(pool).rc()[b.id() as int] == 0
                &&& forall|t: int| 0 <= t < b.id() ==> old(pool).rc()[t] > 0
                &&& final(pool).rc() == old(pool).rc().update(b.id() as int, 1u8)
                &&& final(pool).data() == old(pool).data().update(b.id() as int, silent_block())
            },
    {
        match pool.allocate() {
            Some(s) => Some(AudioBlockMut::new(s)),
            None => None,
        }
    }

    /// Give the slot back to the pool.
    pub fn release(self, pool: &mut AudioBlockPool)
        requires
            old(pool).wf(),
        ensures
            final(pool).wf(),
            final(pool).rc() == released(old(pool).rc(), self.id() as int),
            final(pool).data() == old(pool).data(),
    {
        proof {
            use_type_invariant(&self);
        }
        pool.dec_ref(self.slot);
    }

    /// Read one sample.
    pub fn get(&self, pool: &AudioBlockPool, i: usize) -> (r: i16)
        requires
            pool.wf(),
            i < AUDIO_BLOCK_SAMPLES,
        ensures
            r == pool.data()[self.id() as int][i as int],
    {
        proof {
            use_type_invariant(self);
        }
        pool.sample(self.slot, i)
    }

    /// Write one sample.
    pub fn set(&mut self, pool: &mut AudioBlockPool, i: usize, v: i16)
        requires
            old(pool).wf(),
            i < AUDIO_BLOCK_SAMPLES,
        ensures
            final(self).id() == old(self).id(),
            final(pool).wf(),
            final(pool).rc() == old(pool).rc(),
            final(pool).data() == old(pool).data().update(
                old(self).id() as int,
                old(pool).data()[old(self).id() as int].update(i as int, v),
            ),
    {
        proof {
            use_type_invariant(&*self);
        }
        pool.set_sample(self.slot, i, v);
    }

    /// Copy of all samples.
    pub fn samples(&self, pool: &AudioBlockPool) -> (r: [i16; AUDIO_BLOCK_SAMPLES])
        requires
            pool.wf(),
        ensures
            r@ == pool.data()[self.id() as int],
    {
        proof {
            use_type_invariant(self);
        }
        pool.block(self.slot)
    }

    /// Overwrite all samples.
    pub fn copy_from(&mut self, pool: &mut AudioBlockPool, src: &[i16; AUDIO_BLOCK_SAMPLES])
        requires
            old(pool).wf(),
        ensures
            final(self).id() == old(self).id(),
            final(pool).wf(),
            final(pool).rc() == old(pool).rc(),
            final(pool).data() == old(pool).data().update(old(self).id() as int, src@),
    {
        proof {
            use_type_invariant(&*self);
        }
        pool.set_block(self.slot, *src);
    }

    /// Set every sample to `v`.
    pub fn fill(&mut self, pool: &mut AudioBlockPool, v: i16)
        requires
            old(pool).wf(),
        ensures
            final(self).id() == old(self).id(),
            final(pool).wf(),
            final(pool).rc() == old(pool).rc(),
            final(pool).data() == old(pool).data().update(
                old(self).id() as int,
                Seq::new(AUDIO_BLOCK_SAMPLES as nat, |i: int| v),
            ),
    {
        let samples = [v; AUDIO_BLOCK_SAMPLES];
        assert(samples@ =~= Seq::new(AUDIO_BLOCK_SAMPLES as nat, |i: int| v));
        self.copy_from(pool, &samples);
    }
}

impl AudioBlockRef {
    #[verifier::type_invariant]
    pub open spec fn inv(&self) -> bool {
        self.id() < POOL_SIZE
    }

    /// The slot this handle designates.
    pub closed spec fn id(&self) -> u8 {
        self.slot
    }

    /// The pool slot index.
    pub fn slot(&self) -> (r: u8)
        ensures
            r == self.id(),
            r < POOL_SIZE,
    {
        proof {
            use_type_invariant(self);
        }
        self.slot
    }

    /// Another shared handle to the same slot, adding one owner.
    ///
    /// `None` when the slot cannot take another owner: it is free, or its count is at 255.
    pub fn duplicate(&self, pool: &mut AudioBlockPool) -> (r: Option<AudioBlockRef>)
        requires
            old(pool).wf(),
        ensures
            final(pool).wf(),
            final(pool).data() == old(pool).data(),
            r is Some == (0 < old(pool).rc()[self.id() as int] < 255),
            r matches Some(d) ==> d.id() == self.id() && final(pool).rc() == acquired(
                old(pool).rc(),
                self.id() as int,
            ),
            r is None ==> *final(pool) == *old(pool),
    {
        proof {
            use_type_invariant(self);
        }
        if pool.inc_ref(self.slot) {
            Some(AudioBlockRef { slot: self.slot })
        } else {
            None
        }
    }

    /// Give up this owner's reference; the slot is freed with its last owner.
    pub fn release(self, pool: &mut AudioBlockPool)
        requires
            old(pool).wf(),
        ensures
            final(pool).wf(),
            final(pool).rc() == released(old(pool).rc(), self.id() as int),
            final(pool).data() == old(pool).data(),
    {
        proof {
            use_type_invariant(&self);
        }
        pool.dec_ref(self.slot);
    }

    /// Read one sample.
    pub fn get(&self, pool: &AudioBlockPool, i: usize) -> (r: i16)
        requires
            pool.wf(),
            i < AUDIO_BLOCK_SAMPLES,
        ensures
            r == pool.data()[self.id() as int][i as int],
    {
        proof {
            use_type_invariant(self);
        }
        pool.sample(self.slot, i)
    }

    /// Copy of all samples.
    pub fn samples(&self, pool: &AudioBlockPool) -> (r: [i16; AUDIO_BLOCK_SAMPLES])
        requires
            pool.wf(),
        ensures
            r@ == pool.data()[self.id() as int],
    {
        proof {
            use_type_invariant(self);
        }
        pool.block(self.slot)
    }

    /// Turn back into an exclusive handle.
    ///
    /// The sole owner keeps its slot, untouched. Otherwise a fresh slot receives a copy of
    /// the data and this handle's reference is released; `None` when no slot is free, in
    /// which case the reference is released all the same.
    pub fn into_mut(self, pool: &mut AudioBlockPool) -> (r: Option<AudioBlockMut>)
        requires
            old(pool).wf(),
        ensures
            final(pool).wf(),
            old(pool).rc()[self.id() as int] == 1 ==> {
                &&& r matches Some(m) && m.id() == self.id()
                &&& *final(pool) == *old(pool)
            },
            old(pool).rc()[self.id() as int] != 1 ==> {
                let rel = released(old(pool).rc(), self.id() as int);
                if forall|s: int| 0 <= s < POOL_SIZE ==> rel[s] > 0 {
                    &&& r is None
                    &&& final(pool).rc() == rel
                    &&& final(pool).data() == old(pool).data()
                } else {
                    &&& r matches Some(m)
                    &&& old(pool).rc()[self.id() as int] > 1 ==> m.id() != self.id()
                    &&& rel[m.id() as int] == 0
                    &&& forall|t: int| 0 <= t < m.id() ==> rel[t] > 0
                    &&& final(pool).rc() == rel.update(m.id() as int, 1u8)
                    &&& final(pool).data() == old(pool).data().update(
                        m.id() as int,
                        old(pool).data()[self.id() as int],
                    )
                }
            },
    {
        proof {
            use_type_invariant(&self);
        }
        let count = pool.refcount(self.slot);
        if count == 1 {
            return Some(AudioBlockMut::new(self.slot));
        }
        let src = pool.block(self.slot);
        self.release(pool);
        match AudioBlockMut::allocate(pool) {
            Some(mut fresh) => {
                fresh.copy_from(pool, &src);
                Some(fresh)
            },
            None => None,
        }
    }
}

} // verus!
