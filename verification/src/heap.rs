//! The linear heap: one region of bytes that only grows forward.

use vstd::prelude::*;
use crate::pointer::Pointer;
use crate::span::Span;

verus! {

/// The mathematical model of a heap: the bytes between `base` and the break,
/// and the address `limit` past which the break cannot move.
pub struct HeapModel {
    pub base: int,
    pub limit: int,
    pub bytes: Seq<u8>,
}

impl HeapModel {
    /// The break: the first address past the region.
    pub open spec fn brk(self) -> int {
        self.base + self.bytes.len()
    }

    /// The region starts above null and its break is within the limit.
    pub open spec fn wf(self) -> bool {
        0 < self.base && self.brk() <= self.limit <= usize::MAX
    }

    /// The break can move forward by `size` bytes.
    pub open spec fn can_grow(self, size: nat) -> bool {
        self.brk() + size <= self.limit
    }

    /// The heap after its break has moved forward by `size` bytes; the new
    /// bytes are zero.
    pub open spec fn grown(self, size: nat) -> HeapModel {
        HeapModel { bytes: self.bytes + Seq::new(size, |i: int| 0u8), ..self }
    }

    /// Every address of `span` lies in the region.
    pub open spec fn covers(self, span: Span) -> bool {
        self.base <= span.start && span.end() <= self.brk()
    }

    /// The bytes held at the addresses of `span`.
    pub open spec fn read(self, span: Span) -> Seq<u8>
        recommends
            self.covers(span),
    {
        self.bytes.subrange(span.start - self.base, span.end() - self.base)
    }

    /// The heap after `data` has been stored from the address `start` on.
    pub open spec fn written(self, start: int, data: Seq<u8>) -> HeapModel
        recommends
            self.base <= start,
            start + data.len() <= self.brk(),
    {
        HeapModel {
            bytes: Seq::new(
                self.bytes.len(),
                |i: int|
                    if start <= self.base + i < start + data.len() {
                        data[self.base + i - start]
                    } else {
                        self.bytes[i]
                    },
            ),
            ..self
        }
    }

    /// The heap after the bytes of `src` have been copied to the start of `dst`.
    pub open spec fn copied(self, src: Span, dst: Span) -> HeapModel
        recommends
            self.covers(src),
            self.covers(dst),
            src.len <= dst.len,
    {
        self.written(dst.start, self.read(src))
    }

    /// The heap after every byte of `span` has been set to zero.
    pub open spec fn zeroed(self, span: Span) -> HeapModel
        recommends
            self.covers(span),
    {
        self.written(span.start, Seq::new(span.len, |i: int| 0u8))
    }

    /// After a copy the target starts with the bytes of the source, the
    /// source holds what it held, and so does every byte outside the part of
    /// the target that was written.
    pub proof fn lemma_copied(self, src: Span, dst: Span)
        requires
            self.covers(src),
            self.covers(dst),
            src.len <= dst.len,
            src.disjoint(dst),
        ensures
            self.copied(src, dst).read(dst.prefix(src.len as int)) == self.read(src),
            self.copied(src, dst).read(src) == self.read(src),
            self.copied(src, dst).bytes.len() == self.bytes.len(),
            forall|i: int|
                0 <= i < self.bytes.len() && !(dst.start <= self.base + i < dst.start + src.len)
                    ==> self.copied(src, dst).bytes[i] == self.bytes[i],
    {
        assert(self.copied(src, dst).read(dst.prefix(src.len as int)) =~= self.read(src));
        assert(self.copied(src, dst).read(src) =~= self.read(src));
    }

    /// Zeroing leaves zero at every address of the range and changes no
    /// other byte.
    pub proof fn lemma_zeroed(self, span: Span)
        requires
            self.covers(span),
        ensures
            self.zeroed(span).bytes.len() == self.bytes.len(),
            forall|i: int|
                0 <= i < self.bytes.len() ==> self.zeroed(span).bytes[i] == (if span.start
                    <= self.base + i < span.end() {
                    0u8
                } else {
                    self.bytes[i]
                }),
    {
    }

    /// Growing moves the break forward by the size asked for, and keeps what
    /// the heap held; so of two growths in a row, the first of them of
    /// positive size, the second starts strictly above the first.
    pub proof fn lemma_grown(self, first: nat, second: nat)
        requires
            self.wf(),
            self.can_grow(first),
            self.grown(first).can_grow(second),
        ensures
            self.grown(first).wf(),
            self.grown(first).brk() == self.brk() + first,
            self.grown(first).bytes.subrange(0, self.bytes.len() as int) == self.bytes,
            first > 0 ==> self.brk() < self.grown(first).brk(),
            self.grown(first).grown(second).brk() == self.brk() + first + second,
    {
        assert(self.grown(first).bytes.subrange(0, self.bytes.len() as int) =~= self.bytes);
    }

    /// What the heap covered before it grew, it covers afterwards, with the
    /// same bytes, and apart from what the growth added.
    pub proof fn lemma_grown_keeps(self, size: nat, span: Span)
        requires
            self.covers(span),
        ensures
            self.grown(size).covers(span),
            self.grown(size).read(span) == self.read(span),
            span.disjoint(Span { start: self.brk(), len: size }),
            self.grown(size).covers(Span { start: self.brk(), len: size }),
    {
        assert(self.grown(size).read(span) =~= self.read(span));
    }
}

/// A linear heap region held as a vector of bytes.
#[derive(Debug)]
pub struct Heap {
    base: usize,
    limit: usize,
    bytes: Vec<u8>,
}

impl View for Heap {
    type V = HeapModel;

    closed spec fn view(&self) -> HeapModel {
        HeapModel { base: self.base as int, limit: self.limit as int, bytes: self.bytes@ }
    }
}

impl Heap {
    /// The heap's invariant: that of its model.
    pub open spec fn wf(&self) -> bool {
        self@.wf()
    }

    /// An empty heap whose break starts at `base` and may move up to `limit`.
    pub fn new(base: Pointer, limit: usize) -> (heap: Heap)
        requires
            base.wf(),
            base@ <= limit,
        ensures
            heap.wf(),
            heap@ == (HeapModel { base: base@, limit: limit as int, bytes: Seq::empty() }),
    {
        Heap { base: base.addr(), limit, bytes: Vec::new() }
    }

    /// A heap that starts at `base`, already holds `bytes`, and may grow up
    /// to `limit`.
    pub fn from_parts(base: Pointer, bytes: Vec<u8>, limit: usize) -> (heap: Heap)
        requires
            base.wf(),
            base@ + bytes@.len() <= limit,
        ensures
            heap.wf(),
            heap@ == (HeapModel { base: base@, limit: limit as int, bytes: bytes@ }),
    {
        Heap { base: base.addr(), limit, bytes }
    }

    /// The bytes of the region, from its base to its break.
    pub fn bytes(&self) -> (bytes: &Vec<u8>)
        ensures
            bytes@ == self@.bytes,
    {
        &self.bytes
    }

    /// The current break.
    pub fn brk(&self) -> (p: Pointer)
        requires
            self.wf(),
        ensures
            p@ == self@.brk(),
            p.wf(),
    {
        Pointer::new(self.base + self.bytes.len())
    }

    /// Moves the break forward by `size` bytes and returns the address of the
    /// new bytes, which are zero. Fails, changing nothing, when the break
    /// would pass the limit.
    pub fn sbrk(&mut self, size: usize) -> (res: Result<Pointer, ()>)
        requires
            old(self).wf(),
        ensures
            final(self).wf(),
            res is Ok <==> old(self)@.can_grow(size as nat),
            res matches Ok(p) ==> p.wf() && p@ == old(self)@.brk() && final(self)@ == old(
                self,
            )@.grown(size as nat),
            res is Err ==> final(self)@ == old(self)@,
    {
        let start: usize = self.base + self.bytes.len();
        if size > self.limit - start {
            return Err(());
        }
        let ghost before = self@;
        let mut added: usize = 0;
        while added < size
            invariant
                added <= size,
                self.base == before.base,
                self.limit == before.limit,
                before.wf(),
                before.brk() + size <= before.limit,
                self.bytes@ == before.bytes + Seq::new(added as nat, |i: int| 0u8),
            decreases size - added,
        {
            self.bytes.push(0u8);
            added = added + 1;
            assert(self.bytes@ =~= before.bytes + Seq::new(added as nat, |i: int| 0u8));
        }
        Ok(Pointer::new(start))
    }

    /// Copies the `len` bytes at address `src` to address `dst`. The two
    /// ranges lie in the region and do not overlap.
    pub fn copy_bytes(&mut self, src: usize, dst: usize, len: usize)
        requires
            old(self).wf(),
            old(self)@.covers(Span { start: src as int, len: len as nat }),
            old(self)@.covers(Span { start: dst as int, len: len as nat }),
            (Span { start: src as int, len: len as nat }).disjoint(
                Span { start: dst as int, len: len as nat },
            ),
        ensures
            final(self).wf(),
            final(self)@ == old(self)@.written(
                dst as int,
                old(self)@.read(Span { start: src as int, len: len as nat }),
            ),
    {
        let ghost before = self@;
        let ghost data = before.read(Span { start: src as int, len: len as nat });
        let from: usize = src - self.base;
        let to: usize = dst - self.base;
        let mut done: usize = 0;
        while done < len
            invariant
                done <= len,
                self.base == before.base,
                self.limit == before.limit,
                before.wf(),
                from == src - before.base,
                to == dst - before.base,
                from + len <= before.bytes.len(),
                to + len <= before.bytes.len(),
                from + len <= to || to + len <= from,
                data == before.bytes.subrange(from as int, from + len),
                self.bytes@ == before.written(dst as int, data.take(done as int)).bytes,
            decreases len - done,
        {
            let byte: u8 = self.bytes[from + done];
            assert(byte == data[done as int]);
            self.bytes.set(to + done, byte);
            done = done + 1;
            assert(self.bytes@ =~= before.written(dst as int, data.take(done as int)).bytes);
        }
        assert(data.take(len as int) =~= data);
    }

    /// Sets the `len` bytes at address `start` to zero. The range lies in the
    /// region.
    pub fn zero_bytes(&mut self, start: usize, len: usize)
        requires
            old(self).wf(),
            old(self)@.covers(Span { start: start as int, len: len as nat }),
        ensures
            final(self).wf(),
            final(self)@ == old(self)@.zeroed(Span { start: start as int, len: len as nat }),
    {
        let ghost before = self@;
        let at: usize = start - self.base;
        let mut done: usize = 0;
        while done < len
            invariant
                done <= len,
                self.base == before.base,
                self.limit == before.limit,
                before.wf(),
                at == start - before.base,
                at + len <= before.bytes.len(),
                self.bytes@ == before.written(
                    start as int,
                    Seq::new(done as nat, |i: int| 0u8),
                ).bytes,
            decreases len - done,
        {
            self.bytes.set(at + done, 0u8);
            done = done + 1;
            assert(self.bytes@ =~= before.written(
                start as int,
                Seq::new(done as nat, |i: int| 0u8),
            ).bytes);
        }
    }
}

} // verus!
