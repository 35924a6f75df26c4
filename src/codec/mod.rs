pub mod registers;
pub mod sgtl5000;

pub use sgtl5000::{CodecOp, EqMode, HeadphoneSource, Input, Sgtl5000};
