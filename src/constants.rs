use vstd::prelude::*;

verus! {

/// Number of 16-bit samples per audio block.
pub const AUDIO_BLOCK_SAMPLES: usize = 128;

/// Number of audio blocks in the pool.
pub const POOL_SIZE: usize = 32;

/// Half of a block: the samples moved by one half-buffer interrupt.
pub const HALF_BLOCK_SAMPLES: usize = 64;

} // verus!
