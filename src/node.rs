use vstd::prelude::*;

use crate::block::{AudioBlockMut, AudioBlockPool, AudioBlockRef};
use crate::constants::POOL_SIZE;

verus! {

/// Slot of an optional exclusive handle.
pub open spec fn mut_id(b: Option<AudioBlockMut>) -> Option<u8> {
    match b {
        Some(h) => Some(h.id()),
        None => None,
    }
}

/// Whether one of `outs` designates slot `s`.
pub open spec fn holds_output(outs: Seq<Option<AudioBlockMut>>, s: int) -> bool {
    exists|k: int| 0 <= k < outs.len() && #[trigger] mut_id(outs[k]) == Some(s as u8)
}

/// Uniform interface of a processing node: a fixed number of inputs and outputs and one
/// block-processing operation per cycle.
///
/// `update` reads (never writes) the shared input blocks, and fills or leaves absent each
/// pre-allocated exclusive output; an absent output is silence.
pub trait AudioNode {
    /// Number of input channels.
    const NUM_INPUTS: usize;

    /// Number of output channels.
    const NUM_OUTPUTS: usize;

    /// The node's own consistency, kept by every cycle.
    spec fn inv(&self) -> bool;

    /// Process one block of audio. Inputs are only read: the samples of every live slot
    /// that no output block designates are left as they were.
    fn update(
        &mut self,
        pool: &mut AudioBlockPool,
        inputs: &[Option<AudioBlockRef>],
        outputs: &mut [Option<AudioBlockMut>],
    )
        requires
            old(self).inv(),
            old(pool).wf(),
            inputs@.len() == Self::NUM_INPUTS,
            old(outputs)@.len() == Self::NUM_OUTPUTS,
        ensures
            final(self).inv(),
            final(pool).wf(),
            final(outputs)@.len() == old(outputs)@.len(),
            forall|s: int|
                0 <= s < POOL_SIZE && old(pool).rc()[s] > 0 && !holds_output(old(outputs)@, s)
                    ==> #[trigger] final(pool).data()[s] == old(pool).data()[s],
    ;
}

} // verus!
