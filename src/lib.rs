//! Block-based audio processing for a small real-time target: a fixed pool of reference
//! counted sample blocks with exclusive and shared handles, a single-producer
//! single-consumer queue, a feed-forward processing graph, DMA double-buffering input and
//! output adapters, integer DSP nodes, and the SGTL5000 codec's register programming.

pub mod block;
pub mod codec;
pub mod constants;
pub mod dsp;
pub mod graph;
pub mod io;
pub mod node;
pub mod nodes;
