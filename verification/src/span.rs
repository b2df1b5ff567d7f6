//! The mathematical model of a block: an address range.

use vstd::prelude::*;
use vstd::arithmetic::div_mod::{
    lemma_fundamental_div_mod, lemma_fundamental_div_mod_converse, lemma_mod_bound,
    lemma_mod_multiples_basic, lemma_mod_self_0, lemma_small_mod,
};
use vstd::arithmetic::mul::lemma_mul_is_commutative;

verus! {

/// The range of `len` addresses that starts at `start`.
pub struct Span {
    pub start: int,
    pub len: nat,
}

impl Span {
    /// The first address past the range.
    pub open spec fn end(self) -> int {
        self.start + self.len
    }

    /// A range that holds no address.
    pub open spec fn is_empty(self) -> bool {
        self.len == 0
    }

    /// The range starts above the null address and ends within the address space.
    pub open spec fn addressable(self) -> bool {
        0 < self.start && self.end() <= usize::MAX
    }

    /// `self` ends exactly where `other` starts.
    pub open spec fn left_to(self, other: Span) -> bool {
        self.end() == other.start
    }

    /// The two ranges share no address.
    pub open spec fn disjoint(self, other: Span) -> bool {
        self.end() <= other.start || other.end() <= self.start
    }

    /// Every address of `other` is one of `self`.
    pub open spec fn contains(self, other: Span) -> bool {
        self.start <= other.start && other.end() <= self.end()
    }

    /// The empty range at `start`.
    pub open spec fn empty_at(start: int) -> Span {
        Span { start, len: 0 }
    }

    /// The first `pos` addresses of the range.
    pub open spec fn prefix(self, pos: int) -> Span
        recommends
            0 <= pos <= self.len,
    {
        Span { start: self.start, len: pos as nat }
    }

    /// What is left of the range after its first `pos` addresses.
    pub open spec fn suffix(self, pos: int) -> Span
        recommends
            0 <= pos <= self.len,
    {
        Span { start: self.start + pos, len: (self.len - pos) as nat }
    }

    /// The range extended to the right by the length of `other`.
    pub open spec fn merged(self, other: Span) -> Span {
        Span { start: self.start, len: self.len + other.len }
    }

    /// The start address is a multiple of `align`.
    pub open spec fn aligned_to(self, align: int) -> bool
        recommends
            align > 0,
    {
        self.start % align == 0
    }

    /// The distance from the start to the next multiple of `align`.
    pub open spec fn aligner(self, align: int) -> int
        recommends
            align > 0,
    {
        (align - self.start % align) % align
    }

    /// The two parts that a cut after the first `pos` addresses leaves.
    pub open spec fn split(self, pos: int) -> (Span, Span)
        recommends
            0 <= pos <= self.len,
    {
        (self.prefix(pos), self.suffix(pos))
    }

    /// What merging `other` into `self` from the right makes of the two, if
    /// it can be done: an empty `other` is taken wherever it lies and changes
    /// nothing, any other must start where `self` ends and is left empty.
    pub open spec fn merge_right(self, other: Span) -> Option<(Span, Span)> {
        if other.is_empty() {
            Some((self, other))
        } else if self.left_to(other) {
            Some((self.merged(other), Span::empty_at(other.start)))
        } else {
            None
        }
    }

    /// The cut that makes the right part start at a multiple of `align`, if
    /// that start lies within the range.
    pub open spec fn align(self, align: int) -> Option<(Span, Span)>
        recommends
            align > 0,
    {
        if self.aligner(align) < self.len {
            Some(self.split(self.aligner(align)))
        } else {
            None
        }
    }

    /// The parts of a split cover the range: their lengths add up to its
    /// length, the left part starts where the range starts, and the right
    /// part `pos` addresses further on.
    pub proof fn lemma_split_covers(span: Span, pos: int)
        requires
            0 <= pos <= span.len,
        ensures
            span.split(pos).0.len + span.split(pos).1.len == span.len,
            span.split(pos).0.start == span.start,
            span.split(pos).1.start == span.start + pos,
            span.split(pos).0.left_to(span.split(pos).1),
            span.split(pos).0.disjoint(span.split(pos).1),
            span.contains(span.split(pos).0),
            span.contains(span.split(pos).1),
            span.addressable() ==> span.split(pos).0.addressable() && span.split(
                pos,
            ).1.addressable(),
    {
    }

    /// Merging undoes splitting: the right part of a split merges into the
    /// left one, which then has the length of the range that was split,
    /// while the right part is empty.
    pub proof fn lemma_merge_undoes_split(span: Span, pos: int)
        requires
            0 <= pos <= span.len,
        ensures
            span.split(pos).0.merge_right(span.split(pos).1) matches Some(merged) && merged.0
                == span && merged.1.is_empty(),
    {
    }

    /// A block that is neither empty nor adjacent cannot be merged.
    pub proof fn lemma_merge_needs_adjacency(left: Span, right: Span)
        requires
            !right.is_empty(),
            !left.left_to(right),
        ensures
            left.merge_right(right) is None,
    {
    }

    /// An empty block can be merged wherever it lies, and the merge changes
    /// neither block.
    pub proof fn lemma_merge_empty(left: Span, right: Span)
        requires
            right.is_empty(),
        ensures
            left.merge_right(right) == Some((left, right)),
    {
    }

    /// Aligning a range that is not empty and already aligned cuts off an
    /// empty prefix and leaves the whole range as the suffix.
    pub proof fn lemma_align_aligned(span: Span, align: int)
        requires
            align > 0,
            !span.is_empty(),
            span.aligned_to(align),
        ensures
            span.align(align) == Some((Span::empty_at(span.start), span)),
    {
        Span::lemma_aligner(span, align);
    }

    /// Aligning fails exactly when the distance to the next multiple of
    /// `align` is not within the range; when it succeeds, the suffix is
    /// aligned and the two parts are adjacent and as long as the range.
    pub proof fn lemma_align(span: Span, align: int)
        requires
            align > 0,
        ensures
            span.align(align) is None <==> span.aligner(align) >= span.len,
            span.align(align) matches Some(parts) ==> {
                &&& parts.1.aligned_to(align)
                &&& parts.0.start == span.start
                &&& parts.0.left_to(parts.1)
                &&& parts.0.disjoint(parts.1)
                &&& span.contains(parts.0)
                &&& span.contains(parts.1)
                &&& parts.0.len + parts.1.len == span.len
                &&& parts.0.len < align
                &&& !parts.1.is_empty()
            },
    {
        Span::lemma_aligner(span, align);
    }

    /// The aligner is a distance below `align` that leads from the start to
    /// a multiple of `align`.
    pub proof fn lemma_aligner(span: Span, align: int)
        requires
            align > 0,
        ensures
            0 <= span.aligner(align) < align,
            (span.start + span.aligner(align)) % align == 0,
            span.aligned_to(align) <==> span.aligner(align) == 0,
    {
        let r = span.start % align;
        let q = span.start / align;
        let a = span.aligner(align);
        lemma_fundamental_div_mod(span.start, align);
        lemma_mod_bound(span.start, align);
        if r == 0 {
            lemma_mod_self_0(align);
        } else {
            lemma_small_mod((align - r) as nat, align as nat);
            assert(span.start + a == align * (q + 1)) by (nonlinear_arith)
                requires
                    span.start == align * q + r,
                    a == align - r,
            ;
            lemma_mod_multiples_basic(q + 1, align);
            lemma_mul_is_commutative(align, q + 1);
        }
    }

    /// No distance shorter than the aligner leads from the start to a
    /// multiple of `align`.
    pub proof fn lemma_aligner_least(span: Span, align: int, k: int)
        requires
            align > 0,
            0 <= k < span.aligner(align),
        ensures
            (span.start + k) % align != 0,
    {
        let r = span.start % align;
        let q = span.start / align;
        lemma_fundamental_div_mod(span.start, align);
        lemma_mod_bound(span.start, align);
        if r == 0 {
            lemma_mod_self_0(align);
        } else {
            lemma_small_mod((align - r) as nat, align as nat);
            assert(span.start + k == q * align + (r + k)) by (nonlinear_arith)
                requires
                    span.start == align * q + r,
            ;
            lemma_fundamental_div_mod_converse(span.start + k, align, q, r + k);
        }
    }
}

} // verus!
