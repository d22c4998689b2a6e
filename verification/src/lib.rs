//! Adaptive divide-and-conquer computation over contiguous input.
//!
//! A task estimates its own complexity and, at run time, either runs
//! single-threaded or splits into balanced contiguous subtasks that are
//! executed concurrently and joined back in input order.  The shipped
//! instantiation is a byte-wise XOR transform; the contract and the
//! splitting algorithm are what this crate is about.

pub mod buffers;
pub mod chunks;
pub mod compute;
pub mod parallel;
pub mod xor;

pub use chunks::chunk_start;
pub use chunks::chunk_len;
pub use compute::Compute;
pub use compute::THRESHOLD;
pub use xor::CopyingXor;
pub use xor::copying_xor;
