//! Memory blocks.
//!
//! Blocks are the unit of memory bookkeeping: a start address and a size.
//! A block of size zero owns nothing and serves as a placeholder or as the
//! marker of a boundary.

use vstd::prelude::*;
use vstd::std_specs::cmp::{PartialEqSpec, PartialOrdSpec};
use core::cmp::Ordering;
use crate::heap::{Heap, HeapModel};
use crate::pointer::Pointer;
use crate::span::Span;

verus! {

/// A contiguous memory block.
///
/// A block of positive size stands for the exclusive ownership of its bytes.
/// Blocks cannot be duplicated: every operation that would hand the same
/// bytes out twice consumes the block, or leaves an empty one in its place.
#[must_use]
#[derive(Debug)]
pub struct Block {
    /// The size of this block, in bytes.
    size: usize,
    /// The address of the start of this block.
    ptr: Pointer,
}

impl View for Block {
    type V = Span;

    /// The address range that the block stands for.
    closed spec fn view(&self) -> Span {
        Span { start: self.ptr@, len: self.size as nat }
    }
}

impl Block {
    /// A block is well formed when its range starts above the null address
    /// and ends within the address space.
    pub open spec fn wf(&self) -> bool {
        self@.addressable()
    }

    /// The handle on the block's first byte.
    pub closed spec fn pointer(&self) -> Pointer {
        self.ptr
    }

    /// The handle on a block's first byte holds the address at which the
    /// block's range starts.
    pub proof fn lemma_pointer(block: Block)
        ensures
            block.pointer()@ == block@.start,
    {
    }

    /// Construct a block from its raw parts (address and size).
    ///
    /// The caller vouches that the `size` bytes at `ptr` belong to no other
    /// live block.
    #[inline]
    pub fn from_raw_parts(ptr: Pointer, size: usize) -> (block: Block)
        requires
            ptr.wf(),
            ptr@ + size <= usize::MAX,
        ensures
            block.wf(),
            block@ == (Span { start: ptr@, len: size as nat }),
    {
        Block { size, ptr }
    }

    /// Grow the heap by `size` bytes and return the block that covers them.
    ///
    /// Returns `None`, leaving the heap as it was, when the heap cannot grow
    /// that far.
    #[inline]
    pub fn brk(size: usize, heap: &mut Heap) -> (res: Option<Block>)
        requires
            old(heap).wf(),
        ensures
            final(heap).wf(),
            res is Some <==> old(heap)@.can_grow(size as nat),
            res matches Some(block) ==> {
                &&& block.wf()
                &&& block@ == (Span { start: old(heap)@.brk(), len: size as nat })
                &&& final(heap)@ == old(heap)@.grown(size as nat)
                &&& final(heap)@.covers(block@)
            },
            res is None ==> final(heap)@ == old(heap)@,
    {
        match heap.sbrk(size) {
            Ok(ptr) => Some(Block { size, ptr }),
            Err(_) => None,
        }
    }

    /// Create an empty block starting at `ptr`.
    #[inline]
    pub fn empty(ptr: Pointer) -> (block: Block)
        requires
            ptr.wf(),
        ensures
            block.wf(),
            block@ == Span::empty_at(ptr@),
    {
        Block { size: 0, ptr }
    }

    /// Create an empty block representing the left edge of this block.
    #[inline]
    pub fn empty_left(&self) -> (block: Block)
        requires
            self.wf(),
        ensures
            block.wf(),
            block@ == Span::empty_at(self@.start),
    {
        Block { size: 0, ptr: self.ptr }
    }

    /// Create an empty block representing the right edge of this block.
    #[inline]
    pub fn empty_right(&self) -> (block: Block)
        requires
            self.wf(),
        ensures
            block.wf(),
            block@ == Span::empty_at(self@.end()),
    {
        Block { size: 0, ptr: self.ptr.offset(self.size) }
    }

    /// Merge this block with a block to the right.
    ///
    /// On success this block grows by the size of `block`, which is left
    /// empty. Merging fails, changing neither block, when `block` is not
    /// empty and does not start where this block ends.
    ///
    /// Merging with an empty block succeeds wherever it lies, and changes
    /// nothing.
    #[inline]
    pub fn merge_right(&mut self, block: &mut Block) -> (res: Result<(), ()>)
        requires
            old(self).wf(),
            old(block).wf(),
        ensures
            final(self).wf(),
            final(block).wf(),
            res is Ok <==> old(block)@.is_empty() || old(self)@.left_to(old(block)@),
            res is Ok ==> old(self)@.merge_right(old(block)@) == Some(
                (final(self)@, final(block)@),
            ),
            res is Err ==> *final(self) == *old(self) && *final(block) == *old(block),
    {
        if block.is_empty() {
            Ok(())
        } else if self.left_to(block) {
            let right = block.pop();
            self.size = self.size + right.size;
            Ok(())
        } else {
            Err(())
        }
    }

    /// Is this block empty/free?
    #[inline]
    pub fn is_empty(&self) -> (empty: bool)
        ensures
            empty == self@.is_empty(),
    {
        self.size == 0
    }

    /// Get the size of the block.
    pub fn size(&self) -> (size: usize)
        ensures
            size == self@.len,
    {
        self.size
    }

    /// Is this block aligned to `align`?
    #[inline]
    pub fn aligned_to(&self, align: usize) -> (aligned: bool)
        requires
            align != 0,
        ensures
            aligned == self@.aligned_to(align as int),
    {
        self.ptr.addr() % align == 0
    }

    /// Copy the bytes of this block to the start of `block`.
    ///
    /// The target is at least as large as the source, and a source that is
    /// not empty lies in the heap, as does the target, apart from it.
    #[inline]
    pub fn copy_to(&self, block: &mut Block, heap: &mut Heap)
        requires
            old(heap).wf(),
            self@.len <= old(block)@.len,
            !self@.is_empty() ==> {
                &&& old(heap)@.covers(self@)
                &&& old(heap)@.covers(old(block)@)
                &&& self@.disjoint(old(block)@)
            },
        ensures
            *final(block) == *old(block),
            final(heap).wf(),
            !self@.is_empty() ==> {
                &&& final(heap)@ == old(heap)@.copied(self@, old(block)@)
                &&& final(heap)@.read(old(block)@.prefix(self@.len as int)) == old(heap)@.read(
                    self@,
                )
                &&& final(heap)@.read(self@) == old(heap)@.read(self@)
            },
            self@.is_empty() ==> final(heap)@ == old(heap)@,
    {
        if self.size > 0 {
            proof {
                heap@.lemma_copied(self@, block@);
            }
            heap.copy_bytes(self.ptr.addr(), block.ptr.addr(), self.size);
        }
    }

    /// Zero the bytes of this block, if `security` is on; else do nothing.
    pub fn sec_zero(&mut self, heap: &mut Heap, security: bool)
        requires
            old(heap).wf(),
            security && !old(self)@.is_empty() ==> old(heap)@.covers(old(self)@),
        ensures
            *final(self) == *old(self),
            final(heap).wf(),
            security ==> final(heap)@ == old(heap)@.zeroed(old(self)@),
            !security ==> final(heap)@ == old(heap)@,
    {
        if security {
            if self.size > 0 {
                heap.zero_bytes(self.ptr.addr(), self.size);
            } else {
                assert(heap@.zeroed(self@).bytes =~= heap@.bytes);
            }
        }
    }

    /// "Pop" this block.
    ///
    /// This marks it as free, and returns the old value.
    #[inline]
    pub fn pop(&mut self) -> (block: Block)
        ensures
            block == *old(self),
            final(self)@ == Span::empty_at(old(self)@.start),
            old(self).wf() ==> final(self).wf(),
    {
        let block = Block { size: self.size, ptr: self.ptr };
        self.size = 0;
        block
    }

    /// Is this block placed left to the given other block?
    #[inline]
    pub fn left_to(&self, to: &Block) -> (left: bool)
        requires
            self.wf(),
        ensures
            left == self@.left_to(to@),
    {
        self.size + self.ptr.addr() == to.ptr.addr()
    }

    /// Split the block at some position.
    ///
    /// The position lies within the block.
    #[inline]
    pub fn split(self, pos: usize) -> (parts: (Block, Block))
        requires
            self.wf(),
            pos <= self@.len,
        ensures
            parts.0.wf(),
            parts.1.wf(),
            (parts.0@, parts.1@) == self@.split(pos as int),
            parts.0@.len + parts.1@.len == self@.len,
            parts.0@.start == self@.start,
            parts.1@.start == self@.start + pos,
            parts.0@.start < parts.1@.start <==> pos > 0,
    {
        (
            Block { size: pos, ptr: self.ptr },
            Block { size: self.size - pos, ptr: self.ptr.offset(pos) },
        )
    }

    /// Split this block, such that the second block is aligned to `align`.
    ///
    /// Returns `None`, leaving the block intact, if the aligned address is
    /// out of bounds. Else the block is left empty.
    ///
    /// `align` is meant to be a power of two. Any target but zero is
    /// accepted, and treated alike.
    #[inline]
    pub fn align(&mut self, align: usize) -> (res: Option<(Block, Block)>)
        requires
            old(self).wf(),
            align != 0,
        ensures
            final(self).wf(),
            res is Some <==> old(self)@.aligner(align as int) < old(self)@.len,
            res matches Some(parts) ==> {
                &&& parts.0.wf()
                &&& parts.1.wf()
                &&& old(self)@.align(align as int) == Some((parts.0@, parts.1@))
                &&& parts.1@.aligned_to(align as int)
                &&& final(self)@ == Span::empty_at(old(self)@.start)
            },
            res is None ==> *final(self) == *old(self),
    {
        let aligner: usize = (align - self.ptr.addr() % align) % align;
        if aligner < self.size {
            proof {
                Span::lemma_aligner(self@, align as int);
            }
            let old_block = self.pop();
            Some(
                (
                    Block { size: aligner, ptr: old_block.ptr },
                    Block { size: old_block.size - aligner, ptr: old_block.ptr.offset(aligner) },
                ),
            )
        } else {
            None
        }
    }
}

/// Blocks are equal when they start at the same address, whatever their sizes.
impl PartialEq for Block {
    #[inline]
    fn eq(&self, other: &Block) -> (equal: bool) {
        self.ptr.addr() == other.ptr.addr()
    }
}

impl vstd::std_specs::cmp::PartialEqSpecImpl for Block {
    open spec fn obeys_eq_spec() -> bool {
        true
    }

    open spec fn eq_spec(&self, other: &Block) -> bool {
        self@.start == other@.start
    }
}

impl Eq for Block {

}

/// Blocks are ordered by the address at which they start.
impl PartialOrd for Block {
    #[inline]
    fn partial_cmp(&self, other: &Block) -> (order: Option<Ordering>) {
        let here: usize = self.ptr.addr();
        let there: usize = other.ptr.addr();
        if here < there {
            Some(Ordering::Less)
        } else if here > there {
            Some(Ordering::Greater)
        } else {
            Some(Ordering::Equal)
        }
    }
}

impl vstd::std_specs::cmp::PartialOrdSpecImpl for Block {
    open spec fn obeys_partial_cmp_spec() -> bool {
        true
    }

    open spec fn partial_cmp_spec(&self, other: &Block) -> Option<Ordering> {
        if self@.start < other@.start {
            Some(Ordering::Less)
        } else if self@.start > other@.start {
            Some(Ordering::Greater)
        } else {
            Some(Ordering::Equal)
        }
    }
}

impl Block {
    /// The order of two blocks: that of the addresses at which they start.
    #[inline]
    pub fn cmp(&self, other: &Block) -> (order: Ordering)
        ensures
            order == Ordering::Less <==> self@.start < other@.start,
            order == Ordering::Equal <==> self@.start == other@.start,
            order == Ordering::Greater <==> self@.start > other@.start,
    {
        let here: usize = self.ptr.addr();
        let there: usize = other.ptr.addr();
        if here < there {
            Ordering::Less
        } else if here > there {
            Ordering::Greater
        } else {
            Ordering::Equal
        }
    }

    /// Equality looks at the start address alone, and a block that is below
    /// another is not equal to it.
    pub proof fn lemma_less_is_unequal(a: Block, b: Block)
        ensures
            a.eq_spec(&b) <==> a@.start == b@.start,
            a.partial_cmp_spec(&b) == Some(Ordering::Less) ==> !a.eq_spec(&b),
            a.partial_cmp_spec(&b) == Some(Ordering::Equal) <==> a.eq_spec(&b),
    {
    }

    /// The heap grows upwards: of two blocks that it hands out one after the
    /// other, the first of them not empty, the first is below the second.
    pub proof fn lemma_brk_grows_up(heap: HeapModel, first: Block, second: Block)
        requires
            heap.wf(),
            !first@.is_empty(),
            heap.can_grow(first@.len),
            first@.start == heap.brk(),
            heap.grown(first@.len).can_grow(second@.len),
            second@.start == heap.grown(first@.len).brk(),
        ensures
            first.partial_cmp_spec(&second) == Some(Ordering::Less),
            !first.eq_spec(&second),
            first@.left_to(second@),
    {
    }

    /// The left part of a split is below the right part, unless the left
    /// part is empty: then the two start at the same address, and are equal.
    pub proof fn lemma_split_orders_parts(block: Block, pos: int, left: Block, right: Block)
        requires
            0 <= pos <= block@.len,
            (left@, right@) == block@.split(pos),
        ensures
            pos > 0 <==> left.partial_cmp_spec(&right) == Some(Ordering::Less),
            pos == 0 <==> left.eq_spec(&right),
    {
    }
}

/// A block degrades to the handle on its first byte; its size is forgotten.
impl From<Block> for Pointer {
    fn from(from: Block) -> (ptr: Pointer)
        ensures
            ptr@ == from@.start,
            from.wf() ==> ptr.wf(),
    {
        from.ptr
    }
}

impl vstd::std_specs::convert::FromSpecImpl<Block> for Pointer {
    open spec fn obeys_from_spec() -> bool {
        true
    }

    open spec fn from_spec(from: Block) -> Pointer {
        from.pointer()
    }
}

} // verus!
