use hazzy::{BoxedPointer, DeleteKind, Deleter, DropPointer, GlobalDomain, Holder, Slot};
use std::sync::atomic::{AtomicUsize, Ordering};
use std::sync::Arc;

struct CountDrops(Arc<AtomicUsize>);

impl Drop for CountDrops {
    fn drop(&mut self) {
        self.0.fetch_add(1, Ordering::Relaxed);
    }
}

impl CountDrops {
    fn get_number_of_drops(&self) -> usize {
        self.0.load(Ordering::Relaxed)
    }
}

#[test]
fn test_hazard() {
    let new = Arc::new(AtomicUsize::new(0));
    let check = CountDrops(new.clone());
    let mut domain = GlobalDomain::new();
    let boxed1 = domain.allocate(CountDrops(new.clone()));
    let boxed2 = domain.allocate(CountDrops(new.clone()));
    let ptr1 = Slot::new(boxed1);
    let mut holder = Holder::default();
    let guard = holder.load_pointer(&mut domain, &ptr1);
    let dropbox = BoxedPointer::new();
    if let Some(g) = guard {
        g.release(&mut holder, &mut domain);
    }
    let mut ptr1 = ptr1;
    if let Some(wrapper) = holder.swap(&mut ptr1, boxed2, &dropbox) {
        wrapper.retire(&mut domain);
    }
    assert_eq!(check.get_number_of_drops(), 1 as usize);
    let mut ptr2 = Slot::new(boxed2);
    let boxed3 = domain.allocate(CountDrops(new.clone()));
    if let Some(wrapper) = holder.swap(&mut ptr2, boxed3, &dropbox) {
        wrapper.retire(&mut domain);
    }
    assert_eq!(check.get_number_of_drops(), 2 as usize);
}

fn counter() -> Arc<AtomicUsize> {
    Arc::new(AtomicUsize::new(0))
}

fn drops(c: &Arc<AtomicUsize>) -> usize {
    c.load(Ordering::Relaxed)
}

#[test]
fn single_swap_single_retire() {
    let c = counter();
    let mut domain = GlobalDomain::new();
    let a = domain.allocate(CountDrops(c.clone()));
    let b = domain.allocate(CountDrops(c.clone()));
    let mut slot = Slot::new(a);
    let mut holder = Holder::new();
    let token = holder.swap(&mut slot, b, &BoxedPointer::new()).unwrap();
    assert_eq!(token.address(), a);
    token.retire(&mut domain);
    assert_eq!(drops(&c), 1);
    assert!(!domain.heap().contains(a));
    assert!(domain.heap().contains(b));
    let guard = holder.load_pointer(&mut domain, &slot).unwrap();
    assert_eq!(guard.address(), b);
    assert_eq!(guard.as_ref(&domain).get_number_of_drops(), 1);
}

#[test]
fn reader_holds_across_writer_swap() {
    let c = counter();
    let mut domain = GlobalDomain::new();
    let a = domain.allocate(CountDrops(c.clone()));
    let b = domain.allocate(CountDrops(c.clone()));
    let mut slot = Slot::new(a);
    let mut reader = Holder::new();
    let writer = Holder::new();
    let guard = reader.load_pointer(&mut domain, &slot).unwrap();
    writer
        .swap(&mut slot, b, &BoxedPointer::new())
        .unwrap()
        .retire(&mut domain);
    assert_eq!(drops(&c), 0);
    assert!(domain.heap().contains(a));
    assert_eq!(guard.as_ref(&domain).get_number_of_drops(), 0);
    assert_eq!(domain.retired_list().len(), 1);
    guard.release(&mut reader, &mut domain);
    Holder::try_reclaim(&mut domain);
    assert_eq!(drops(&c), 1);
    assert!(!domain.heap().contains(a));
    assert_eq!(domain.retired_list().len(), 0);
}

#[test]
fn two_sequential_swaps() {
    let c = counter();
    let mut domain = GlobalDomain::new();
    let a = domain.allocate(CountDrops(c.clone()));
    let b = domain.allocate(CountDrops(c.clone()));
    let d = domain.allocate(CountDrops(c.clone()));
    let mut slot = Slot::new(a);
    let holder = Holder::new();
    let deleter = BoxedPointer::new();
    holder.swap(&mut slot, b, &deleter).unwrap().retire(&mut domain);
    assert_eq!(drops(&c), 1);
    holder.swap(&mut slot, d, &deleter).unwrap().retire(&mut domain);
    assert_eq!(drops(&c), 2);
    assert!(!domain.heap().contains(a));
    assert!(!domain.heap().contains(b));
    assert!(domain.heap().contains(d));
    assert_eq!(slot.load(), d);
}

#[test]
fn load_of_null_slot() {
    let mut domain: GlobalDomain<u32> = GlobalDomain::new();
    let slot = Slot::new(0);
    let mut holder = Holder::new();
    assert_eq!(domain.hazard_list().len(), 0);
    assert!(holder.load_pointer(&mut domain, &slot).is_none());
    assert_eq!(domain.hazard_list().len(), 1);
    let cell = domain.hazard_list().cell(0);
    assert_eq!(cell.ptr, 0);
    assert!(!cell.vacant);
}

#[test]
fn double_scan_harmless() {
    let c = counter();
    let mut domain = GlobalDomain::new();
    let a = domain.allocate(CountDrops(c.clone()));
    let b = domain.allocate(CountDrops(c.clone()));
    let mut slot = Slot::new(a);
    let holder = Holder::new();
    holder
        .swap(&mut slot, b, &BoxedPointer::new())
        .unwrap()
        .retire(&mut domain);
    assert_eq!(drops(&c), 1);
    Holder::try_reclaim(&mut domain);
    Holder::try_reclaim(&mut domain);
    assert_eq!(drops(&c), 1);
    assert_eq!(domain.retired_list().len(), 0);
    assert!(domain.heap().contains(b));
}

#[test]
fn surviving_across_scans() {
    let c = counter();
    let mut domain = GlobalDomain::new();
    let a = domain.allocate(CountDrops(c.clone()));
    let a2 = domain.allocate(CountDrops(c.clone()));
    let b = domain.allocate(CountDrops(c.clone()));
    let b2 = domain.allocate(CountDrops(c.clone()));
    let mut slot_a = Slot::new(a);
    let mut slot_b = Slot::new(b);
    let mut reader = Holder::new();
    let writer = Holder::new();
    let deleter = BoxedPointer::new();
    let guard = reader.load_pointer(&mut domain, &slot_a).unwrap();
    writer.swap(&mut slot_a, a2, &deleter).unwrap().retire(&mut domain);
    assert_eq!(drops(&c), 0);
    assert_eq!(domain.retired_list().len(), 1);
    guard.release(&mut reader, &mut domain);
    writer.swap(&mut slot_b, b2, &deleter).unwrap().retire(&mut domain);
    assert_eq!(drops(&c), 2);
    assert!(!domain.heap().contains(a));
    assert!(!domain.heap().contains(b));
    assert_eq!(domain.retired_list().len(), 0);
}

#[test]
fn released_guard_clears_its_cell() {
    let mut domain = GlobalDomain::new();
    let a = domain.allocate(7u32);
    let slot = Slot::new(a);
    let mut holder = Holder::new();
    let guard = holder.load_pointer(&mut domain, &slot).unwrap();
    assert_eq!(*guard.as_ref(&domain), 7);
    assert_eq!(domain.hazard_list().cell(0).ptr, a);
    guard.release(&mut holder, &mut domain);
    let cell = domain.hazard_list().cell(0);
    assert_eq!(cell.ptr, 0);
    assert!(cell.vacant);
}

#[test]
fn vacant_cell_is_leased_again() {
    let mut domain: GlobalDomain<u32> = GlobalDomain::new();
    let mut first = Holder::new();
    let mut second = Holder::new();
    let slot = Slot::new(0);
    first.load_pointer(&mut domain, &slot);
    second.load_pointer(&mut domain, &slot);
    assert_eq!(domain.hazard_list().len(), 2);
    assert_eq!(domain.acquire(), 2);
    assert_eq!(domain.hazard_list().len(), 3);
    first.release(&mut domain);
    assert!(domain.hazard_list().cell(0).vacant);
    let mut third = Holder::default();
    third.load_pointer(&mut domain, &slot);
    assert_eq!(domain.hazard_list().len(), 3);
    assert!(!domain.hazard_list().cell(0).vacant);
}

#[test]
fn take_leaves_slot_null() {
    let c = counter();
    let mut domain = GlobalDomain::new();
    let a = domain.allocate(CountDrops(c.clone()));
    let mut slot = Slot::new(a);
    let holder = Holder::new();
    let token = holder.get_wrapper(&mut slot, &BoxedPointer::new()).unwrap();
    assert_eq!(slot.load(), 0);
    assert_eq!(token.as_ref(&domain).get_number_of_drops(), 0);
    token.retire(&mut domain);
    assert_eq!(drops(&c), 1);
    assert!(holder.get_wrapper(&mut slot, &BoxedPointer::new()).is_none());
    assert!(holder.swap(&mut slot, 0, &DropPointer::new()).is_none());
}

#[test]
fn drop_in_place_keeps_the_block() {
    let c = counter();
    let mut domain = GlobalDomain::new();
    let a = domain.allocate(CountDrops(c.clone()));
    let b = domain.allocate(CountDrops(c.clone()));
    let mut slot = Slot::new(a);
    let holder = Holder::new();
    let token = holder.swap(&mut slot, b, &DropPointer::new()).unwrap();
    token.retire(&mut domain);
    assert_eq!(drops(&c), 1);
    assert!(!domain.heap().contains(a));
    // the destroyed object's block is still reserved
    let d = domain.allocate(CountDrops(c.clone()));
    assert_eq!(d, 3);
    domain.dealloc(a);
    let e = domain.allocate(CountDrops(c.clone()));
    assert_eq!(e, a);
}

#[test]
fn boxed_reclamation_frees_the_block() {
    let c = counter();
    let mut domain = GlobalDomain::new();
    let a = domain.allocate(CountDrops(c.clone()));
    let b = domain.allocate(CountDrops(c.clone()));
    let mut slot = Slot::new(a);
    Holder::new()
        .swap(&mut slot, b, &BoxedPointer::new())
        .unwrap()
        .retire(&mut domain);
    let d = domain.allocate(CountDrops(c.clone()));
    assert_eq!(d, a);
}

#[test]
fn deleters_report_their_kind() {
    assert_eq!(BoxedPointer::new().kind(), DeleteKind::Boxed);
    assert_eq!(DropPointer::new().kind(), DeleteKind::DropInPlace);
}

#[test]
fn deleter_tolerates_null() {
    let c = counter();
    let mut domain = GlobalDomain::new();
    let a = domain.allocate(CountDrops(c.clone()));
    let mut heap = hazzy::Heap::new();
    let h = heap.allocate(CountDrops(c.clone()));
    BoxedPointer::new().delete(&mut heap, 0);
    assert_eq!(drops(&c), 0);
    assert!(heap.contains(h));
    DropPointer::new().delete(&mut heap, h);
    assert_eq!(drops(&c), 1);
    assert!(!heap.contains(h));
    assert!(domain.heap().contains(a));
}

#[test]
fn protect_publishes_the_address() {
    let mut cell = hazzy::Hazard { ptr: 0, vacant: false };
    cell.protect(42);
    assert_eq!(cell, hazzy::Hazard { ptr: 42, vacant: false });
    let mut list = hazzy::HazardList::new();
    assert_eq!(list.acquire(), 0);
    list.protect(0, 5);
    assert_eq!(list.cell(0).ptr, 5);
    list.release(0);
    assert_eq!(list.acquire(), 0);
    assert_eq!(list.len(), 1);
}

#[test]
fn writes_through_guard_and_token() {
    let mut domain = GlobalDomain::new();
    let a = domain.allocate(1u32);
    let b = domain.allocate(2u32);
    let mut slot = Slot::new(a);
    let mut holder = Holder::new();
    let guard = holder.load_pointer(&mut domain, &slot).unwrap();
    *guard.as_mut(&mut domain) = 10;
    assert_eq!(*guard.as_ref(&domain), 10);
    let token = holder.swap(&mut slot, b, &BoxedPointer::new()).unwrap();
    *token.as_mut(&mut domain) += 1;
    assert_eq!(*token.as_ref(&domain), 11);
    guard.release(&mut holder, &mut domain);
    token.retire(&mut domain);
    assert!(!domain.heap().contains(a));
    assert_eq!(*domain.heap().get(b), 2);
}
