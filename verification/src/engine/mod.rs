//! Pre-decoded instructions and the blocks that they form.

pub mod block;
pub mod microop;
