use vstd::prelude::*;

use crate::heap::{Block, Heap};

verus! {

/// How a retired object is destroyed once no hazard protects it.
#[derive(Clone, Copy, Debug, PartialEq, Eq, Structural)]
pub enum DeleteKind {
    /// The object owns its storage: its destructor runs and its block
    /// returns to the free pool.
    Boxed,
    /// The storage belongs to the caller: only the destructor runs, and the
    /// block stays reserved until the caller deallocates it.
    DropInPlace,
}

impl DeleteKind {
    /// What the block of a destroyed object holds afterwards.
    pub open spec fn vacated<T>(self) -> Block<T> {
        match self {
            DeleteKind::Boxed => Block::Free,
            DeleteKind::DropInPlace => Block::Dropped,
        }
    }

    /// Destroys the object at `addr`; the null address is left alone.
    pub fn delete<T>(self, heap: &mut Heap<T>, addr: usize)
        requires
            addr == 0 || old(heap).is_live(addr),
        ensures
            final(heap)@ == deleted(old(heap)@, addr, self),
    {
        if addr != 0 {
            heap.vacate(addr, self.vacated_block());
        }
    }

    fn vacated_block<T>(self) -> (r: Block<T>)
        ensures
            r == self.vacated::<T>(),
    {
        match self {
            DeleteKind::Boxed => Block::Free,
            DeleteKind::DropInPlace => Block::Dropped,
        }
    }
}

/// The blocks after the object at `addr` is destroyed the `kind` way.
pub open spec fn deleted<T>(blocks: Seq<Block<T>>, addr: usize, kind: DeleteKind) -> Seq<
    Block<T>,
> {
    if addr == 0 {
        blocks
    } else {
        blocks.update(addr - 1, kind.vacated())
    }
}

/// A strategy for destroying retired objects, fixed when a pointer is
/// handed over for retirement and applied when a scan reclaims it.
pub trait Deleter {
    spec fn spec_kind(&self) -> DeleteKind;

    fn kind(&self) -> (r: DeleteKind)
        ensures
            r == self.spec_kind(),
    ;

    /// Destroys the object at `addr`; the null address is left alone.
    fn delete<T>(&self, heap: &mut Heap<T>, addr: usize)
        requires
            addr == 0 || old(heap).is_live(addr),
        ensures
            final(heap)@ == deleted(old(heap)@, addr, self.spec_kind()),
    {
        let kind = self.kind();
        kind.delete(heap, addr);
    }
}

/// Deleter for objects that own their block.
pub struct BoxedPointer;

impl BoxedPointer {
    pub fn new() -> (r: Self)
        ensures
            r.spec_kind() == DeleteKind::Boxed,
    {
        BoxedPointer
    }
}

impl Deleter for BoxedPointer {
    open spec fn spec_kind(&self) -> DeleteKind {
        DeleteKind::Boxed
    }

    fn kind(&self) -> (r: DeleteKind) {
        DeleteKind::Boxed
    }
}

/// Deleter for objects whose block the caller frees separately.
pub struct DropPointer;

impl DropPointer {
    pub fn new() -> (r: Self)
        ensures
            r.spec_kind() == DeleteKind::DropInPlace,
    {
        DropPointer
    }
}

impl Deleter for DropPointer {
    open spec fn spec_kind(&self) -> DeleteKind {
        DeleteKind::DropInPlace
    }

    fn kind(&self) -> (r: DeleteKind) {
        DeleteKind::DropInPlace
    }
}

} // verus!
