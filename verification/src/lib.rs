//! Block-structured memory substrate for an Immix-style garbage collector:
//! fixed-size, self-aligned memory blocks, per-block line-mark metadata with
//! a hole-finding scan, and a bump-pointer allocator that carves object
//! storage out of the unmarked regions of a block.

use vstd::prelude::*;

pub mod block;
pub mod bump;
pub mod meta;

verus! {

/// Size of one block in bytes (32 KiB, a power of two).
pub const BLOCK_SIZE: usize = 32768;

/// Size of one line in bytes (128, a power of two that divides `BLOCK_SIZE`).
pub const LINE_SIZE: usize = 128;

/// Number of lines in one block.
pub const LINE_COUNT: usize = BLOCK_SIZE / LINE_SIZE;

} // verus!
