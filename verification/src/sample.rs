//! Decoding of the binary records the kernel appends to the shared ring
//! buffer backing a sampling-mode counter.

pub mod payload;
pub mod record;
pub mod wire;
