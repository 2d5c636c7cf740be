use std::collections::HashSet;
use vstd::prelude::*;

use crate::deleter::{deleted, DeleteKind};
use crate::hazard::{protected, Hazard, HazardList};
use crate::heap::{live, Block, Heap};

verus! {

/// A retired pointer waiting for reclamation, with the way to destroy it.
#[derive(Clone, Copy, Debug, PartialEq, Eq, Structural)]
pub struct Retired {
    pub ptr: usize,
    pub kind: DeleteKind,
}

/// Whether no address occurs twice among `recs`.
pub open spec fn distinct_ptrs(recs: Seq<Retired>) -> bool {
    forall|i: int, j: int|
        0 <= i < j < recs.len() ==> (#[trigger] recs[i]).ptr != (#[trigger] recs[j]).ptr
}

/// Whether some record among `recs` holds `addr`.
pub open spec fn holds_ptr(recs: Seq<Retired>, addr: usize) -> bool {
    exists|i: int| 0 <= i < recs.len() && (#[trigger] recs[i]).ptr == addr
}

/// The records of `recs` that a scan against `cells` keeps: those whose
/// address some cell protects, in their order.
pub open spec fn kept(recs: Seq<Retired>, cells: Seq<Hazard>) -> Seq<Retired>
    decreases recs.len(),
{
    if recs.len() == 0 {
        recs
    } else {
        let rest = kept(recs.drop_last(), cells);
        if protected(cells, recs.last().ptr) {
            rest.push(recs.last())
        } else {
            rest
        }
    }
}

/// The blocks after a scan against `cells` has destroyed, in order, each
/// record of `recs` whose address no cell protects.
pub open spec fn reclaimed<T>(blocks: Seq<Block<T>>, recs: Seq<Retired>, cells: Seq<Hazard>) -> Seq<
    Block<T>,
>
    decreases recs.len(),
{
    if recs.len() == 0 {
        blocks
    } else {
        let before = reclaimed(blocks, recs.drop_last(), cells);
        if protected(cells, recs.last().ptr) {
            before
        } else {
            deleted(before, recs.last().ptr, recs.last().kind)
        }
    }
}

/// A scan leaves the number of blocks alone, and a block whose address is
/// protected, or held by no record, keeps what it held.
pub proof fn lemma_reclaimed_keeps<T>(
    blocks: Seq<Block<T>>,
    recs: Seq<Retired>,
    cells: Seq<Hazard>,
    addr: usize,
)
    requires
        forall|k: int| 0 <= k < recs.len() ==> 0 < (#[trigger] recs[k]).ptr <= blocks.len(),
    ensures
        reclaimed(blocks, recs, cells).len() == blocks.len(),
        0 < addr <= blocks.len() && (protected(cells, addr) || !holds_ptr(recs, addr))
            ==> reclaimed(blocks, recs, cells)[addr - 1] == blocks[addr - 1],
    decreases recs.len(),
{
    if recs.len() > 0 {
        let front = recs.drop_last();
        assert forall|k: int| 0 <= k < front.len() implies 0 < (#[trigger] front[k]).ptr
            <= blocks.len() by {
            assert(front[k] == recs[k]);
        }
        if !holds_ptr(recs, addr) {
            assert forall|k: int| 0 <= k < front.len() implies (#[trigger] front[k]).ptr
                != addr by {
                assert(front[k] == recs[k]);
            }
            assert(recs.last() == recs[recs.len() - 1]);
        }
        lemma_reclaimed_keeps(blocks, front, cells, addr);
    }
}

/// The records a scan keeps are protected records of the scanned list, and
/// no address occurs twice among them when none did among those scanned.
pub proof fn lemma_kept_sub(recs: Seq<Retired>, cells: Seq<Hazard>)
    ensures
        forall|k: int|
            0 <= k < kept(recs, cells).len() ==> protected(
                cells,
                (#[trigger] kept(recs, cells)[k]).ptr,
            ) && holds_ptr(recs, kept(recs, cells)[k].ptr),
        distinct_ptrs(recs) ==> distinct_ptrs(kept(recs, cells)),
    decreases recs.len(),
{
    if recs.len() > 0 {
        let front = recs.drop_last();
        lemma_kept_sub(front, cells);
        let rest = kept(front, cells);
        assert forall|k: int| 0 <= k < rest.len() implies holds_ptr(
            recs,
            (#[trigger] rest[k]).ptr,
        ) by {
            let j = choose|j: int| 0 <= j < front.len() && (#[trigger] front[j]).ptr == rest[k].ptr;
            assert(recs[j] == front[j]);
        }
        assert(recs.last() == recs[recs.len() - 1]);
        if distinct_ptrs(recs) {
            assert forall|k: int| 0 <= k < rest.len() implies (#[trigger] rest[k]).ptr
                != recs.last().ptr by {
                let j = choose|j: int| 0 <= j < front.len() && (#[trigger] front[j]).ptr == rest[k].ptr;
                assert(recs[j] == front[j]);
            }
        }
    }
}

/// A scan over records that are all protected keeps them all and destroys
/// nothing.
proof fn lemma_all_protected<T>(blocks: Seq<Block<T>>, recs: Seq<Retired>, cells: Seq<Hazard>)
    requires
        forall|k: int| 0 <= k < recs.len() ==> protected(cells, (#[trigger] recs[k]).ptr),
    ensures
        kept(recs, cells) == recs,
        reclaimed(blocks, recs, cells) == blocks,
    decreases recs.len(),
{
    if recs.len() > 0 {
        let front = recs.drop_last();
        assert forall|k: int| 0 <= k < front.len() implies protected(
            cells,
            (#[trigger] front[k]).ptr,
        ) by {
            assert(front[k] == recs[k]);
        }
        lemma_all_protected(blocks, front, cells);
        assert(recs.last() == recs[recs.len() - 1]);
        assert(front.push(recs.last()) =~= recs);
    }
}

/// Scanning twice against the same cells is scanning once: the second scan
/// keeps every record the first one kept and destroys nothing.
pub proof fn lemma_rescan_harmless<T>(blocks: Seq<Block<T>>, recs: Seq<Retired>, cells: Seq<Hazard>)
    ensures
        kept(kept(recs, cells), cells) == kept(recs, cells),
        reclaimed(reclaimed(blocks, recs, cells), kept(recs, cells), cells) == reclaimed(
            blocks,
            recs,
            cells,
        ),
{
    lemma_kept_sub(recs, cells);
    lemma_all_protected(reclaimed(blocks, recs, cells), kept(recs, cells), cells);
}

/// A scan destroys every retired object that no cell protects, the way its
/// record says, and keeps no record of it.
pub proof fn lemma_scan_reclaims_unprotected<T>(
    blocks: Seq<Block<T>>,
    recs: Seq<Retired>,
    cells: Seq<Hazard>,
    k: int,
)
    requires
        distinct_ptrs(recs),
        forall|q: int| 0 <= q < recs.len() ==> 0 < (#[trigger] recs[q]).ptr <= blocks.len(),
        0 <= k < recs.len(),
        !protected(cells, recs[k].ptr),
    ensures
        reclaimed(blocks, recs, cells)[recs[k].ptr - 1] == recs[k].kind.vacated::<T>(),
        !holds_ptr(kept(recs, cells), recs[k].ptr),
    decreases recs.len(),
{
    lemma_kept_sub(recs, cells);
    let front = recs.drop_last();
    assert forall|q: int| 0 <= q < front.len() implies 0 < (#[trigger] front[q]).ptr
        <= blocks.len() by {
        assert(front[q] == recs[q]);
    }
    lemma_reclaimed_keeps(blocks, front, cells, recs[k].ptr);
    if k < recs.len() - 1 {
        assert forall|i: int, j: int| 0 <= i < j < front.len() implies (#[trigger] front[i]).ptr
            != (#[trigger] front[j]).ptr by {
            assert(front[i] == recs[i]);
            assert(front[j] == recs[j]);
        }
        assert(front[k] == recs[k]);
        lemma_scan_reclaims_unprotected(blocks, front, cells, k);
        assert(recs.last() == recs[recs.len() - 1]);
    }
}

/// The retired records of a domain, newest last.
pub struct RetiredList {
    records: Vec<Retired>,
}

impl View for RetiredList {
    type V = Seq<Retired>;

    closed spec fn view(&self) -> Seq<Retired> {
        self.records@
    }
}

impl RetiredList {
    /// A list without records.
    pub fn new() -> (r: Self)
        ensures
            r@ == Seq::<Retired>::empty(),
    {
        RetiredList { records: Vec::new() }
    }

    pub fn len(&self) -> (r: usize)
        ensures
            r == self@.len(),
    {
        self.records.len()
    }

    /// Adds a record for `ptr`, to be destroyed the `kind` way.
    pub fn push(&mut self, ptr: usize, kind: DeleteKind)
        ensures
            final(self)@ == old(self)@.push(Retired { ptr, kind }),
    {
        self.records.push(Retired { ptr, kind });
    }

    /// The reclamation scan: collects the addresses that `list` protects,
    /// destroys each record's object that none of them protects, and keeps
    /// the other records for a later scan.
    pub fn reclaim<T>(&mut self, list: &HazardList, heap: &mut Heap<T>)
        requires
            forall|k: int| 0 <= k < old(self)@.len() ==> live(old(heap)@, (#[trigger] old(self)@[k]).ptr),
            distinct_ptrs(old(self)@),
        ensures
            final(self)@ == kept(old(self)@, list@),
            final(heap)@ == reclaimed(old(heap)@, old(self)@, list@),
    {
        let cells = Ghost(list@);
        let mut hazards: HashSet<usize> = HashSet::new();
        let n = list.len();
        let mut i: usize = 0;
        while i < n
            invariant
                n == cells@.len(),
                cells@ == list@,
                0 <= i <= n,
                forall|p: usize|
                    hazards@.contains(p) <==> exists|j: int| 0 <= j < i && (#[trigger] cells@[j]).ptr == p,
            decreases n - i,
        {
            let cell = list.cell(i);
            hazards.insert(cell.ptr);
            proof {
                assert forall|p: usize| hazards@.contains(p) implies exists|j: int|
                    0 <= j < i + 1 && (#[trigger] cells@[j]).ptr == p by {
                    if p == cell.ptr {
                        assert(cells@[i as int].ptr == p);
                    }
                }
            }
            i = i + 1;
        }
        let mut chain: Vec<Retired> = Vec::new();
        std::mem::swap(&mut self.records, &mut chain);
        let ghost blocks = heap@;
        let mut survivors: Vec<Retired> = Vec::new();
        let m = chain.len();
        let mut k: usize = 0;
        while k < m
            invariant
                m == chain@.len(),
                chain@ == old(self)@,
                blocks == old(heap)@,
                0 <= k <= m,
                forall|p: usize| hazards@.contains(p) <==> protected(cells@, p),
                forall|q: int| 0 <= q < m ==> live(blocks, (#[trigger] chain@[q]).ptr),
                distinct_ptrs(chain@),
                survivors@ == kept(chain@.subrange(0, k as int), cells@),
                heap@ == reclaimed(blocks, chain@.subrange(0, k as int), cells@),
            decreases m - k,
        {
            let rec = chain[k];
            let ghost done = chain@.subrange(0, k as int);
            let ghost next = chain@.subrange(0, k + 1);
            proof {
                assert(next.drop_last() =~= done);
                assert(next.last() == rec);
                assert forall|q: int| 0 <= q < done.len() implies 0 < (#[trigger] done[q]).ptr
                    <= blocks.len() by {
                    assert(done[q] == chain@[q]);
                }
                assert(!holds_ptr(done, rec.ptr)) by {
                    assert forall|q: int| 0 <= q < done.len() implies (#[trigger] done[q]).ptr
                        != rec.ptr by {
                        assert(done[q] == chain@[q]);
                    }
                }
                lemma_reclaimed_keeps(blocks, done, cells@, rec.ptr);
            }
            if hazards.contains(&rec.ptr) {
                survivors.push(rec);
            } else {
                rec.kind.delete(heap, rec.ptr);
            }
            k = k + 1;
        }
        proof {
            assert(chain@.subrange(0, m as int) =~= chain@);
        }
        self.records = survivors;
    }
}

} // verus!
