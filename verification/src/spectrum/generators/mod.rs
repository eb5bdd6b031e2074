//! What spectrum generators decide without touching a sample.

pub mod audio;
mod bignat;
