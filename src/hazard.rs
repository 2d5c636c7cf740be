use vstd::prelude::*;

verus! {

/// A hazard cell: the address its holder protects (`0` when none) and
/// whether the cell is vacant, that is free for any holder to lease.
#[derive(Clone, Copy, Debug, PartialEq, Eq, Structural)]
pub struct Hazard {
    pub ptr: usize,
    pub vacant: bool,
}

impl Hazard {
    /// Publishes `ptr` as the address this cell protects.
    pub fn protect(&mut self, ptr: usize)
        ensures
            *final(self) == (Hazard { ptr, vacant: old(self).vacant }),
    {
        self.ptr = ptr;
    }
}

/// Whether some cell among `cells` protects `addr`.
pub open spec fn protected(cells: Seq<Hazard>, addr: usize) -> bool {
    exists|i: int| 0 <= i < cells.len() && (#[trigger] cells[i]).ptr == addr
}

/// Whether no cell below `end` is vacant.
pub open spec fn none_vacant_below(cells: Seq<Hazard>, end: int) -> bool {
    forall|j: int| 0 <= j < end ==> !(#[trigger] cells[j]).vacant
}

/// The grow-only list of hazard cells. Cells are never removed; a lease
/// flips a cell from vacant to taken and a release flips it back.
pub struct HazardList {
    cells: Vec<Hazard>,
}

impl View for HazardList {
    type V = Seq<Hazard>;

    closed spec fn view(&self) -> Seq<Hazard> {
        self.cells@
    }
}

impl HazardList {
    /// A list without cells.
    pub fn new() -> (r: Self)
        ensures
            r@ == Seq::<Hazard>::empty(),
    {
        HazardList { cells: Vec::new() }
    }

    pub fn len(&self) -> (r: usize)
        ensures
            r == self@.len(),
    {
        self.cells.len()
    }

    pub fn cell(&self, i: usize) -> (r: Hazard)
        requires
            i < self@.len(),
        ensures
            r == self@[i as int],
    {
        self.cells[i]
    }

    /// Leases the first vacant cell, or a new cell added at the end when
    /// none is vacant, and returns its index.
    pub fn acquire(&mut self) -> (r: usize)
        ensures
            r <= old(self)@.len(),
            none_vacant_below(old(self)@, r as int),
            r < old(self)@.len() ==> old(self)@[r as int].vacant && final(self)@ == old(
                self,
            )@.update(r as int, Hazard { ptr: old(self)@[r as int].ptr, vacant: false }),
            r == old(self)@.len() ==> final(self)@ == old(self)@.push(
                Hazard { ptr: 0, vacant: false },
            ),
    {
        let n = self.cells.len();
        let mut i: usize = 0;
        while i < n
            invariant
                n == self.cells@.len(),
                self.cells@ == old(self)@,
                0 <= i <= n,
                none_vacant_below(self.cells@, i as int),
            decreases n - i,
        {
            if self.cells[i].vacant {
                let ptr = self.cells[i].ptr;
                self.cells.set(i, Hazard { ptr, vacant: false });
                return i;
            }
            i = i + 1;
        }
        self.cells.push(Hazard { ptr: 0, vacant: false });
        n
    }

    /// Publishes `ptr` in cell `i`.
    pub fn protect(&mut self, i: usize, ptr: usize)
        requires
            i < old(self)@.len(),
        ensures
            final(self)@ == old(self)@.update(
                i as int,
                Hazard { ptr, vacant: old(self)@[i as int].vacant },
            ),
    {
        let mut cell = self.cells[i];
        cell.protect(ptr);
        self.cells.set(i, cell);
    }

    /// Clears cell `i` and returns it to the vacant pool.
    pub fn release(&mut self, i: usize)
        requires
            i < old(self)@.len(),
        ensures
            final(self)@ == old(self)@.update(i as int, Hazard { ptr: 0, vacant: true }),
    {
        self.cells.set(i, Hazard { ptr: 0, vacant: true });
    }
}

} // verus!
