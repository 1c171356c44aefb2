//! Buffers, and the loops that move bytes from one place to another.

pub mod buf;
pub mod copy;
pub mod pipe;
pub mod transfer;
