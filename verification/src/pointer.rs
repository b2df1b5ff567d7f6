//! Address handles.

use vstd::prelude::*;

verus! {

/// A handle on a memory address, with no ownership of what lies there.
///
/// A well-formed handle is never null.
#[derive(Clone, Copy, PartialEq, Eq, PartialOrd, Ord, Hash, Structural, Debug)]
pub struct Pointer {
    addr: usize,
}

impl View for Pointer {
    type V = int;

    /// The address, as a mathematical integer.
    closed spec fn view(&self) -> int {
        self.addr as int
    }
}

impl Pointer {
    /// A handle is well formed when it is non-null and lies in the address space.
    pub open spec fn wf(&self) -> bool {
        0 < self@ <= usize::MAX
    }

    /// A handle on the address `addr`, which must not be null.
    pub fn new(addr: usize) -> (p: Pointer)
        requires
            addr != 0,
        ensures
            p@ == addr,
            p.wf(),
    {
        Pointer { addr }
    }

    /// The address this handle refers to.
    pub fn addr(&self) -> (a: usize)
        ensures
            a == self@,
    {
        self.addr
    }

    /// The handle `diff` bytes further on.
    pub fn offset(self, diff: usize) -> (p: Pointer)
        requires
            self.wf(),
            self@ + diff <= usize::MAX,
        ensures
            p@ == self@ + diff,
            p.wf(),
    {
        Pointer { addr: self.addr + diff }
    }
}

} // verus!
