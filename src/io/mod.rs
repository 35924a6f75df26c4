pub mod input_i2s;
pub mod interleave;
pub mod output_i2s;
pub mod play_queue;
pub mod record_queue;
pub mod spsc;

pub use input_i2s::AudioInputI2S;
pub use output_i2s::{AudioOutputI2S, DmaHalf};
pub use play_queue::AudioPlayQueue;
pub use record_queue::AudioRecordQueue;
