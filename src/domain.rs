use vstd::prelude::*;

use crate::deleter::DeleteKind;
use crate::hazard::{none_vacant_below, Hazard, HazardList};
use crate::heap::{live, none_free_below, Block, Heap};
use crate::retired::{
    distinct_ptrs, holds_ptr, kept, lemma_kept_sub, lemma_reclaimed_keeps, reclaimed, Retired, RetiredList,
};

verus! {

/// The invariant of a domain with hazard cells `cells`, retired records
/// `recs` and arena blocks `blocks`: a vacant cell protects nothing, every
/// protected address and every retired address names a live object, and no
/// address is retired twice.
pub open spec fn domain_wf<T>(cells: Seq<Hazard>, recs: Seq<Retired>, blocks: Seq<Block<T>>) -> bool {
    &&& forall|i: int| 0 <= i < cells.len() && (#[trigger] cells[i]).vacant ==> cells[i].ptr == 0
    &&& forall|i: int|
        0 <= i < cells.len() && (#[trigger] cells[i]).ptr != 0 ==> live(blocks, cells[i].ptr)
    &&& forall|k: int| 0 <= k < recs.len() ==> live(blocks, (#[trigger] recs[k]).ptr)
    &&& distinct_ptrs(recs)
}

/// The records `recs` with a record for `ptr` added at the end, unless
/// `ptr` is null.
pub open spec fn with_retired(recs: Seq<Retired>, ptr: usize, kind: DeleteKind) -> Seq<Retired> {
    if ptr == 0 {
        recs
    } else {
        recs.push(Retired { ptr, kind })
    }
}

/// A domain: the arena of shared objects, the hazard cells that readers
/// lease, and the records of retired objects awaiting reclamation.
pub struct GlobalDomain<T> {
    list: HazardList,
    ret: RetiredList,
    heap: Heap<T>,
}

impl<T> GlobalDomain<T> {
    pub closed spec fn cells(&self) -> Seq<Hazard> {
        self.list@
    }

    pub closed spec fn retired(&self) -> Seq<Retired> {
        self.ret@
    }

    pub closed spec fn objects(&self) -> Seq<Block<T>> {
        self.heap@
    }

    pub open spec fn wf(&self) -> bool {
        domain_wf(self.cells(), self.retired(), self.objects())
    }

    /// A domain with no objects, no cells and no retired records.
    pub fn new() -> (r: Self)
        ensures
            r.wf(),
            r.cells() == Seq::<Hazard>::empty(),
            r.retired() == Seq::<Retired>::empty(),
            r.objects() == Seq::<Block<T>>::empty(),
    {
        GlobalDomain { list: HazardList::new(), ret: RetiredList::new(), heap: Heap::new() }
    }

    /// The arena, to read objects from.
    pub fn heap(&self) -> (r: &Heap<T>)
        ensures
            r@ == self.objects(),
    {
        &self.heap
    }

    /// The hazard cells.
    pub fn hazard_list(&self) -> (r: &HazardList)
        ensures
            r@ == self.cells(),
    {
        &self.list
    }

    /// The records awaiting reclamation.
    pub fn retired_list(&self) -> (r: &RetiredList)
        ensures
            r@ == self.retired(),
    {
        &self.ret
    }

    /// Mutable access to the live object at `addr`; the object stays live,
    /// so the domain's invariant is kept whatever is written through it.
    pub fn object_mut(&mut self, addr: usize) -> (r: &mut T)
        requires
            old(self).wf(),
            live(old(self).objects(), addr),
        ensures
            old(self).objects()[addr - 1] == Block::Live(*r),
            final(self).cells() == old(self).cells(),
            final(self).retired() == old(self).retired(),
            final(self).objects() == old(self).objects().update(addr - 1, Block::Live(*final(r))),
            final(self).wf(),
    {
        self.heap.get_mut(addr)
    }

    /// Places `value` in the arena (in its first free block, or a new one at
    /// the end) and returns its address.
    pub fn allocate(&mut self, value: T) -> (addr: usize)
        requires
            old(self).wf(),
            old(self).objects().len() < usize::MAX,
        ensures
            final(self).wf(),
            final(self).cells() == old(self).cells(),
            final(self).retired() == old(self).retired(),
            0 < addr <= old(self).objects().len() + 1,
            none_free_below(old(self).objects(), addr - 1),
            addr <= old(self).objects().len() ==> old(self).objects()[addr - 1] is Free
                && final(self).objects() == old(self).objects().update(
                addr - 1,
                Block::Live(value),
            ),
            addr == old(self).objects().len() + 1 ==> final(self).objects()
                == old(self).objects().push(Block::Live(value)),
    {
        let addr = self.heap.allocate(value);
        proof {
            let before = old(self).objects();
            assert forall|a: usize| live(before, a) implies live(self.heap@, a) by {
                assert(self.heap@[a - 1] == before[a - 1]);
            }
        }
        addr
    }

    /// Frees the block at `addr`, whose object a `DropInPlace` reclamation
    /// destroyed.
    pub fn dealloc(&mut self, addr: usize)
        requires
            old(self).wf(),
            0 < addr <= old(self).objects().len(),
            old(self).objects()[addr - 1] is Dropped,
        ensures
            final(self).wf(),
            final(self).cells() == old(self).cells(),
            final(self).retired() == old(self).retired(),
            final(self).objects() == old(self).objects().update(addr - 1, Block::Free),
    {
        self.heap.dealloc(addr);
        proof {
            let before = old(self).objects();
            assert forall|a: usize| live(before, a) implies live(self.heap@, a) by {
                assert(self.heap@[a - 1] == before[a - 1]);
            }
        }
    }

    /// Leases a hazard cell: the first vacant one, or a new one at the end
    /// when none is vacant. Returns its index.
    pub fn acquire(&mut self) -> (r: usize)
        requires
            old(self).wf(),
        ensures
            final(self).wf(),
            final(self).retired() == old(self).retired(),
            final(self).objects() == old(self).objects(),
            r <= old(self).cells().len(),
            none_vacant_below(old(self).cells(), r as int),
            r < old(self).cells().len() ==> old(self).cells()[r as int].vacant
                && final(self).cells() == old(self).cells().update(
                r as int,
                Hazard { ptr: 0, vacant: false },
            ),
            r == old(self).cells().len() ==> final(self).cells() == old(self).cells().push(
                Hazard { ptr: 0, vacant: false },
            ),
    {
        self.list.acquire()
    }

    /// Publishes `ptr`, null or live, in the leased cell `i`.
    pub fn protect(&mut self, i: usize, ptr: usize)
        requires
            old(self).wf(),
            i < old(self).cells().len(),
            !old(self).cells()[i as int].vacant,
            ptr == 0 || live(old(self).objects(), ptr),
        ensures
            final(self).wf(),
            final(self).cells() == old(self).cells().update(
                i as int,
                Hazard { ptr, vacant: false },
            ),
            final(self).retired() == old(self).retired(),
            final(self).objects() == old(self).objects(),
    {
        self.list.protect(i, ptr);
    }

    /// Clears cell `i` and returns it to the vacant pool.
    pub fn release(&mut self, i: usize)
        requires
            old(self).wf(),
            i < old(self).cells().len(),
        ensures
            final(self).wf(),
            final(self).cells() == old(self).cells().update(
                i as int,
                Hazard { ptr: 0, vacant: true },
            ),
            final(self).retired() == old(self).retired(),
            final(self).objects() == old(self).objects(),
    {
        self.list.release(i);
    }

    /// Retires `ptr`, to be destroyed the `kind` way, then runs a scan. A
    /// null `ptr` is not recorded: the call is then a scan alone.
    pub fn retire(&mut self, ptr: usize, kind: DeleteKind)
        requires
            old(self).wf(),
            ptr == 0 || (live(old(self).objects(), ptr) && !holds_ptr(old(self).retired(), ptr)),
        ensures
            final(self).wf(),
            final(self).cells() == old(self).cells(),
            final(self).retired() == kept(with_retired(old(self).retired(), ptr, kind), old(self).cells()),
            final(self).objects() == reclaimed(
                old(self).objects(),
                with_retired(old(self).retired(), ptr, kind),
                old(self).cells(),
            ),
    {
        if ptr != 0 {
            self.ret.push(ptr, kind);
            proof {
                let recs = self.ret@;
                assert(recs.last() == Retired { ptr, kind });
                assert forall|i: int, j: int| 0 <= i < j < recs.len() implies (#[trigger] recs[i]).ptr
                    != (#[trigger] recs[j]).ptr by {
                    if j == recs.len() - 1 {
                        assert(recs[i] == old(self).retired()[i]);
                    } else {
                        assert(recs[i] == old(self).retired()[i]);
                        assert(recs[j] == old(self).retired()[j]);
                    }
                }
            }
        }
        self.reclaim();
    }

    /// The reclamation scan over every retired record.
    pub fn reclaim(&mut self)
        requires
            old(self).wf(),
        ensures
            final(self).wf(),
            final(self).cells() == old(self).cells(),
            final(self).retired() == kept(old(self).retired(), old(self).cells()),
            final(self).objects() == reclaimed(
                old(self).objects(),
                old(self).retired(),
                old(self).cells(),
            ),
    {
        self.ret.reclaim(&self.list, &mut self.heap);
        proof {
            let cells = old(self).cells();
            let recs = old(self).retired();
            let before = old(self).objects();
            lemma_kept_sub(recs, cells);
            assert forall|i: int|
                0 <= i < cells.len() && (#[trigger] cells[i]).ptr != 0 implies live(
                self.heap@,
                cells[i].ptr,
            ) by {
                lemma_reclaimed_keeps(before, recs, cells, cells[i].ptr);
            }
            let survivors = self.ret@;
            assert forall|k: int| 0 <= k < survivors.len() implies live(
                self.heap@,
                (#[trigger] survivors[k]).ptr,
            ) by {
                let j = choose|j: int| 0 <= j < recs.len() && (#[trigger] recs[j]).ptr == survivors[k].ptr;
                assert(live(before, recs[j].ptr));
                lemma_reclaimed_keeps(before, recs, cells, survivors[k].ptr);
            }
        }
    }
}

} // verus!
