use vstd::prelude::*;

use crate::deleter::{DeleteKind, Deleter};
use crate::domain::{with_retired, GlobalDomain};
use crate::hazard::{none_vacant_below, Hazard};
use crate::heap::{live, Block};
use crate::retired::{holds_ptr, kept, lemma_reclaimed_keeps, reclaimed, Retired};

verus! {

/// A shared pointer variable: holds the address of an object, or `0`.
pub struct Slot {
    ptr: usize,
}

impl View for Slot {
    type V = usize;

    closed spec fn view(&self) -> usize {
        self.ptr
    }
}

impl Slot {
    pub fn new(ptr: usize) -> (r: Self)
        ensures
            r@ == ptr,
    {
        Slot { ptr }
    }

    pub fn load(&self) -> (r: usize)
        ensures
            r == self@,
    {
        self.ptr
    }

    /// Puts `ptr` in the slot and returns what it held.
    fn exchange(&mut self, ptr: usize) -> (r: usize)
        ensures
            r == old(self)@,
            final(self)@ == ptr,
    {
        let current = self.ptr;
        self.ptr = ptr;
        current
    }
}

/// A reader's handle: the hazard cell it leases, if any.
pub struct Holder {
    cell: Option<usize>,
}

/// Access to a protected object: the cell that protects it and its address.
pub struct Guard {
    cell: usize,
    data: usize,
}

/// The right to retire an address that was taken out of a slot, with the
/// way to destroy it.
pub struct DoerWrapper {
    inner: usize,
    kind: DeleteKind,
}

impl Default for Holder {
    fn default() -> (r: Self)
        ensures
            r.lease() == None::<usize>,
    {
        Holder { cell: None }
    }
}

impl Holder {
    pub closed spec fn lease(&self) -> Option<usize> {
        self.cell
    }

    /// Whether the cell this holder leases, if any, is a taken cell of `d`.
    pub open spec fn leases_in<T>(&self, d: &GlobalDomain<T>) -> bool {
        match self.lease() {
            None => true,
            Some(c) => c < d.cells().len() && !d.cells()[c as int].vacant,
        }
    }

    /// A holder that leases no cell yet.
    pub fn new() -> (r: Self)
        ensures
            r.lease() == None::<usize>,
    {
        Holder { cell: None }
    }

    /// Protects the object that `src` points to: leases a cell when the
    /// holder has none, publishes the address in it, and returns a guard on
    /// the object, or `None` when `src` is null.
    pub fn load_pointer<T>(&mut self, domain: &mut GlobalDomain<T>, src: &Slot) -> (r: Option<
        Guard,
    >)
        requires
            old(domain).wf(),
            old(self).leases_in(old(domain)),
            src@ == 0 || live(old(domain).objects(), src@),
        ensures
            final(domain).wf(),
            final(self).leases_in(final(domain)),
            final(domain).retired() == old(domain).retired(),
            final(domain).objects() == old(domain).objects(),
            final(self).lease() is Some,
            old(self).lease() is Some ==> final(self).lease() == old(self).lease(),
            ({
                let c = final(self).lease().unwrap() as int;
                let before = old(domain).cells();
                &&& final(domain).cells()[c] == Hazard { ptr: src@, vacant: false }
                &&& c <= before.len()
                &&& c < before.len() ==> final(domain).cells() == before.update(c, final(domain).cells()[c])
                &&& c == before.len() ==> final(domain).cells() == before.push(final(domain).cells()[c])
                &&& old(self).lease() is None ==> none_vacant_below(before, c) && (c < before.len() ==> before[c].vacant)
            }),
            r is None <==> src@ == 0,
            r matches Some(g) ==> g.cell_index() == final(self).lease().unwrap() && g.addr() == src@,
    {
        let cell = match self.cell {
            Some(c) => c,
            None => {
                let c = domain.acquire();
                self.cell = Some(c);
                c
            },
        };
        let ptr = src.load();
        domain.protect(cell, ptr);
        if ptr == 0 {
            None
        } else {
            Some(Guard { cell, data: ptr })
        }
    }

    /// Releases the cell this holder leases, if any: the cell is cleared and
    /// returns to the vacant pool, and the holder leases nothing.
    pub fn release<T>(&mut self, domain: &mut GlobalDomain<T>)
        requires
            old(domain).wf(),
            old(self).leases_in(old(domain)),
        ensures
            final(domain).wf(),
            final(self).lease() == None::<usize>,
            final(domain).retired() == old(domain).retired(),
            final(domain).objects() == old(domain).objects(),
            old(self).lease() is None ==> final(domain).cells() == old(domain).cells(),
            old(self).lease() matches Some(c) ==> final(domain).cells() == old(domain).cells().update(
                c as int,
                Hazard { ptr: 0, vacant: true },
            ),
    {
        if let Some(c) = self.cell {
            domain.release(c);
        }
        self.cell = None;
    }

    /// Puts `ptr` in `src` and hands back the address it held, to retire
    /// the `deleter` way, or `None` when it held null.
    pub fn swap<D: Deleter>(&self, src: &mut Slot, ptr: usize, deleter: &D) -> (r: Option<
        DoerWrapper,
    >)
        ensures
            final(src)@ == ptr,
            r is None <==> old(src)@ == 0,
            r matches Some(w) ==> w.inner() == old(src)@ && w.kind() == deleter.spec_kind(),
    {
        let current = src.exchange(ptr);
        if current == 0 {
            None
        } else {
            Some(DoerWrapper { inner: current, kind: deleter.kind() })
        }
    }

    /// Takes the address out of `src`, leaving it null, and hands it back to
    /// retire the `deleter` way, or `None` when it held null.
    pub fn get_wrapper<D: Deleter>(&self, src: &mut Slot, deleter: &D) -> (r: Option<
        DoerWrapper,
    >)
        ensures
            final(src)@ == 0,
            r is None <==> old(src)@ == 0,
            r matches Some(w) ==> w.inner() == old(src)@ && w.kind() == deleter.spec_kind(),
    {
        self.swap(src, 0, deleter)
    }

    /// Runs a reclamation scan at once.
    pub fn try_reclaim<T>(domain: &mut GlobalDomain<T>)
        requires
            old(domain).wf(),
        ensures
            final(domain).wf(),
            final(domain).cells() == old(domain).cells(),
            final(domain).retired() == kept(old(domain).retired(), old(domain).cells()),
            final(domain).objects() == reclaimed(
                old(domain).objects(),
                old(domain).retired(),
                old(domain).cells(),
            ),
    {
        domain.reclaim();
    }
}

impl Guard {
    pub closed spec fn cell_index(&self) -> usize {
        self.cell
    }

    pub closed spec fn addr(&self) -> usize {
        self.data
    }

    /// Whether the guard's cell in `d` is taken and protects its address.
    pub open spec fn valid_in<T>(&self, d: &GlobalDomain<T>) -> bool {
        &&& self.addr() != 0
        &&& self.cell_index() < d.cells().len()
        &&& d.cells()[self.cell_index() as int] == Hazard { ptr: self.addr(), vacant: false }
    }

    /// The address of the protected object.
    pub fn address(&self) -> (r: usize)
        ensures
            r == self.addr(),
    {
        self.data
    }

    /// The protected object, which no scan destroys while the guard's cell
    /// protects it.
    pub fn as_ref<'a, T>(&self, domain: &'a GlobalDomain<T>) -> (r: &'a T)
        requires
            domain.wf(),
            self.valid_in(domain),
        ensures
            domain.objects()[self.addr() - 1] == Block::Live(*r),
    {
        proof {
            let i = self.cell_index() as int;
            assert(domain.cells()[i].ptr != 0);
        }
        domain.heap().get(self.data)
    }

    /// Mutable access to the protected object. Guards of other holders on
    /// the same object are not excluded: callers arrange who writes.
    pub fn as_mut<'a, T>(&self, domain: &'a mut GlobalDomain<T>) -> (r: &'a mut T)
        requires
            old(domain).wf(),
            self.valid_in(old(domain)),
        ensures
            old(domain).objects()[self.addr() - 1] == Block::Live(*r),
            final(domain).cells() == old(domain).cells(),
            final(domain).retired() == old(domain).retired(),
            final(domain).objects() == old(domain).objects().update(
                self.addr() - 1,
                Block::Live(*final(r)),
            ),
            final(domain).wf(),
    {
        proof {
            let i = self.cell_index() as int;
            assert(domain.cells()[i].ptr != 0);
        }
        domain.object_mut(self.data)
    }

    /// Ends the access: the holder's cell is cleared and returned to the
    /// vacant pool.
    pub fn release<T>(self, holder: &mut Holder, domain: &mut GlobalDomain<T>)
        requires
            old(domain).wf(),
            old(holder).leases_in(old(domain)),
            old(holder).lease() == Some(self.cell_index()),
        ensures
            final(domain).wf(),
            final(holder).lease() == None::<usize>,
            final(domain).retired() == old(domain).retired(),
            final(domain).objects() == old(domain).objects(),
            final(domain).cells() == old(domain).cells().update(
                self.cell_index() as int,
                Hazard { ptr: 0, vacant: true },
            ),
    {
        holder.release(domain);
    }
}

/// No scan destroys or changes an object while a guard on it is valid,
/// whichever records the scan goes over.
pub proof fn lemma_guard_outlives_scan<T>(d: &GlobalDomain<T>, g: &Guard, recs: Seq<Retired>)
    requires
        d.wf(),
        g.valid_in(d),
        forall|k: int| 0 <= k < recs.len() ==> 0 < (#[trigger] recs[k]).ptr <= d.objects().len(),
    ensures
        live(d.objects(), g.addr()),
        reclaimed(d.objects(), recs, d.cells())[g.addr() - 1] == d.objects()[g.addr() - 1],
{
    let i = g.cell_index() as int;
    assert(d.cells()[i].ptr == g.addr());
    lemma_reclaimed_keeps(d.objects(), recs, d.cells(), g.addr());
}

impl DoerWrapper {
    pub closed spec fn inner(&self) -> usize {
        self.inner
    }

    pub closed spec fn kind(&self) -> DeleteKind {
        self.kind
    }

    /// The address handed over for retirement.
    pub fn address(&self) -> (r: usize)
        ensures
            r == self.inner(),
    {
        self.inner
    }

    /// The object handed over for retirement, while it is still live.
    pub fn as_ref<'a, T>(&self, domain: &'a GlobalDomain<T>) -> (r: &'a T)
        requires
            live(domain.objects(), self.inner()),
        ensures
            domain.objects()[self.inner() - 1] == Block::Live(*r),
    {
        domain.heap().get(self.inner)
    }

    /// Mutable access to the object handed over for retirement, while it is
    /// still live.
    pub fn as_mut<'a, T>(&self, domain: &'a mut GlobalDomain<T>) -> (r: &'a mut T)
        requires
            old(domain).wf(),
            live(old(domain).objects(), self.inner()),
        ensures
            old(domain).objects()[self.inner() - 1] == Block::Live(*r),
            final(domain).cells() == old(domain).cells(),
            final(domain).retired() == old(domain).retired(),
            final(domain).objects() == old(domain).objects().update(
                self.inner() - 1,
                Block::Live(*final(r)),
            ),
            final(domain).wf(),
    {
        domain.object_mut(self.inner)
    }

    /// Retires the address, which must be live and not retired already, and
    /// runs a scan: every retired object that no cell protects is destroyed,
    /// and the rest stay retired.
    pub fn retire<T>(self, domain: &mut GlobalDomain<T>)
        requires
            old(domain).wf(),
            self.inner() == 0 || (live(old(domain).objects(), self.inner()) && !holds_ptr(
                old(domain).retired(),
                self.inner(),
            )),
        ensures
            final(domain).wf(),
            final(domain).cells() == old(domain).cells(),
            final(domain).retired() == kept(
                with_retired(old(domain).retired(), self.inner(), self.kind()),
                old(domain).cells(),
            ),
            final(domain).objects() == reclaimed(
                old(domain).objects(),
                with_retired(old(domain).retired(), self.inner(), self.kind()),
                old(domain).cells(),
            ),
    {
        domain.retire(self.inner, self.kind);
    }
}

} // verus!
