use vstd::prelude::*;

verus! {

/// One block of the arena.
pub enum Block<T> {
    /// Unused: the next allocation may take it.
    Free,
    /// Holds a live object.
    Live(T),
    /// The object was destroyed in place; the block stays reserved until it
    /// is deallocated.
    Dropped,
}

/// Whether `addr` names a live object among `blocks`: address `a` is the
/// block at index `a - 1`, and address `0` is null.
pub open spec fn live<T>(blocks: Seq<Block<T>>, addr: usize) -> bool {
    0 < addr <= blocks.len() && blocks[addr - 1] is Live
}

/// Whether no block below `end` is free.
pub open spec fn none_free_below<T>(blocks: Seq<Block<T>>, end: int) -> bool {
    forall|j: int| 0 <= j < end ==> !(#[trigger] blocks[j] is Free)
}

/// The arena that holds the objects of a domain.
pub struct Heap<T> {
    blocks: Vec<Block<T>>,
}

impl<T> View for Heap<T> {
    type V = Seq<Block<T>>;

    closed spec fn view(&self) -> Seq<Block<T>> {
        self.blocks@
    }
}

impl<T> Heap<T> {
    pub open spec fn is_live(&self, addr: usize) -> bool {
        live(self@, addr)
    }

    /// An empty arena.
    pub fn new() -> (r: Self)
        ensures
            r@ == Seq::<Block<T>>::empty(),
    {
        Heap { blocks: Vec::new() }
    }

    /// Places `value` in the first free block, or in a new block at the end
    /// when none is free, and returns its address.
    pub fn allocate(&mut self, value: T) -> (addr: usize)
        requires
            old(self)@.len() < usize::MAX,
        ensures
            0 < addr <= old(self)@.len() + 1,
            none_free_below(old(self)@, addr - 1),
            addr <= old(self)@.len() ==> old(self)@[addr - 1] is Free && final(self)@ == old(
                self,
            )@.update(addr - 1, Block::Live(value)),
            addr == old(self)@.len() + 1 ==> final(self)@ == old(self)@.push(Block::Live(value)),
    {
        let n = self.blocks.len();
        let mut i: usize = 0;
        while i < n
            invariant
                n == self.blocks@.len(),
                self.blocks@ == old(self)@,
                0 <= i <= n,
                none_free_below(self.blocks@, i as int),
            decreases n - i,
        {
            if let Block::Free = self.blocks[i] {
                self.blocks.set(i, Block::Live(value));
                return i + 1;
            }
            i = i + 1;
        }
        self.blocks.push(Block::Live(value));
        n + 1
    }

    /// Whether `addr` names a live object.
    pub fn contains(&self, addr: usize) -> (r: bool)
        ensures
            r == self.is_live(addr),
    {
        if addr == 0 || addr > self.blocks.len() {
            false
        } else {
            match &self.blocks[addr - 1] {
                Block::Live(_) => true,
                _ => false,
            }
        }
    }

    /// The live object at `addr`.
    pub fn get(&self, addr: usize) -> (r: &T)
        requires
            self.is_live(addr),
        ensures
            self@[addr - 1] == Block::Live(*r),
    {
        match &self.blocks[addr - 1] {
            Block::Live(v) => v,
            _ => vstd::pervasive::unreached(),
        }
    }

    /// Mutable access to the live object at `addr`.
    pub fn get_mut(&mut self, addr: usize) -> (r: &mut T)
        requires
            old(self).is_live(addr),
        ensures
            old(self)@[addr - 1] == Block::Live(*r),
            final(self)@ == old(self)@.update(addr - 1, Block::Live(*final(r))),
    {
        match &mut self.blocks[addr - 1] {
            Block::Live(v) => v,
            _ => vstd::pervasive::unreached(),
        }
    }

    /// Returns the block at `addr`, whose object was destroyed in place, to
    /// the free pool.
    pub fn dealloc(&mut self, addr: usize)
        requires
            0 < addr <= old(self)@.len(),
            old(self)@[addr - 1] is Dropped,
        ensures
            final(self)@ == old(self)@.update(addr - 1, Block::Free),
    {
        self.blocks.set(addr - 1, Block::Free);
    }

    /// Replaces the block at `addr`, dropping what it held.
    pub(crate) fn vacate(&mut self, addr: usize, block: Block<T>)
        requires
            0 < addr <= old(self)@.len(),
        ensures
            final(self)@ == old(self)@.update(addr - 1, block),
    {
        self.blocks.set(addr - 1, block);
    }
}

} // verus!
