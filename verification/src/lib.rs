//! Memory blocks: contiguous, exclusively owned spans of a linear heap,
//! described by a start address and a size, with the geometric operations
//! (split, merge, align, grow) that an allocator builds on.
//!
//! Every operation carries a contract over a mathematical model: a block is
//! viewed as a [`span::Span`], the heap it lives in as a [`heap::HeapModel`].

pub mod pointer;
pub mod span;
pub mod heap;
pub mod block;

pub use block::Block;
pub use heap::Heap;
pub use pointer::Pointer;
