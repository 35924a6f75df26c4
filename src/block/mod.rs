pub mod handles;
pub mod pool;

pub use handles::{AudioBlockMut, AudioBlockRef};
pub use pool::{AudioBlockData, AudioBlockPool};
