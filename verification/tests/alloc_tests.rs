use allocator_api::alloc_ref::AllocRef;
use allocator_api::dummy::{MyHeap, ARENA_SIZE};
use allocator_api::errors::CannotReallocInPlace;
use allocator_api::heap::{Global, Heap};
use allocator_api::layout::Layout;

#[test]
fn heap_allocates_aligned_blocks() {
    let mut h = Heap;
    let layout = Layout::from_size_align(24, 8).unwrap();
    let b = h.allocate(layout).unwrap();
    assert!(b.size() >= 24);
    assert_ne!(b.addr(), 0);
    assert_eq!(b.addr() % 8, 0);
    h.deallocate(b, layout);
}

#[test]
fn global_allocates_like_heap() {
    let mut g = Global;
    let layout = Layout::from_size_align(5, 1).unwrap();
    let b = g.allocate(layout).unwrap();
    assert!(b.size() >= 5);
    assert_ne!(b.addr(), 0);
    g.deallocate(b, layout);
}

#[test]
fn zero_sized_requests_succeed() {
    let mut h = Heap;
    let layout = Layout::from_size_align(0, 64).unwrap();
    let b = h.allocate(layout).unwrap();
    assert_ne!(b.addr(), 0);
    assert_eq!(b.addr() % 64, 0);
    h.deallocate(b, layout);
}

#[test]
fn excess_reports_address_and_capacity() {
    let mut h = Heap;
    let layout = Layout::from_size_align(10, 2).unwrap();
    let b = h.allocate(layout).unwrap();
    let e = b.excess();
    assert_eq!(e.0, b.addr());
    assert_eq!(e.1, b.size());
    h.deallocate(b, layout);
}

#[test]
fn allocate_zeroed_zeroes_every_requested_byte() {
    let mut h = MyHeap::new();
    let layout = Layout::from_size_align(64, 8).unwrap();
    let b = h.allocate_zeroed(layout).unwrap();
    let bytes = b.read_range(0, 64);
    assert!(bytes.iter().all(|&x| x == 0));
    h.deallocate(b, layout);
}

#[test]
fn in_place_resizing_declines_by_default() {
    let mut h = Heap;
    let layout = Layout::from_size_align(16, 4).unwrap();
    let mut b = h.allocate(layout).unwrap();
    assert_eq!(h.grow_in_place(&mut b, layout, 32), Err(CannotReallocInPlace));
    assert_eq!(h.shrink_in_place(&mut b, layout, 8), Err(CannotReallocInPlace));
    assert_eq!(CannotReallocInPlace.description(), "cannot reallocate allocator's memory in place");
    h.deallocate(b, layout);
}

#[test]
fn reallocate_preserves_contents() {
    let mut h = Heap;
    let layout = Layout::from_size_align(4, 1).unwrap();
    let mut b = h.allocate(layout).unwrap();
    b.write_at(0, &[1, 2, 3, 4]);
    let grown = h.reallocate(b, layout, 16).unwrap();
    assert!(grown.size() >= 16);
    assert_eq!(grown.read_range(0, 4), vec![1, 2, 3, 4]);
    let bigger = Layout::from_size_align(16, 1).unwrap();
    let shrunk = h.reallocate(grown, bigger, 2).unwrap();
    assert_eq!(shrunk.read_range(0, 2), vec![1, 2]);
    let smaller = Layout::from_size_align(2, 1).unwrap();
    h.deallocate(shrunk, smaller);
}

#[test]
fn reallocate_zeroed_zeroes_the_new_tail() {
    let mut h = MyHeap::new();
    let layout = Layout::from_size_align(4, 1).unwrap();
    let mut b = h.allocate(layout).unwrap();
    b.write_at(0, &[9, 9, 9, 9]);
    let grown = h.reallocate_zeroed(b, layout, 12).unwrap();
    assert_eq!(grown.read_range(0, 4), vec![9, 9, 9, 9]);
    assert_eq!(grown.read_range(4, 12), vec![0; 8]);
    let full = Layout::from_size_align(12, 1).unwrap();
    h.deallocate(grown, full);
}

#[test]
fn bump_allocator_counts_and_exhausts() {
    let mut h = MyHeap::new();
    assert_eq!(h.allocations(), 0);
    assert_eq!(h.used(), 0);
    let small = Layout::from_size_align(8, 8).unwrap();
    let b1 = h.allocate(small).unwrap();
    assert_eq!(h.allocations(), 1);
    assert_eq!(h.used(), 8);
    assert_eq!(b1.addr() % 8, 0);
    let whole = Layout::from_size_align(ARENA_SIZE, 1).unwrap();
    assert!(h.allocate(whole).is_err());
    assert_eq!(h.allocations(), 2);
    let rest = Layout::from_size_align(ARENA_SIZE - 8, 1).unwrap();
    let b2 = h.allocate(rest).unwrap();
    assert_eq!(h.used(), ARENA_SIZE);
    let one = Layout::from_size_align(1, 1).unwrap();
    assert!(h.allocate(one).is_err());
    h.deallocate(b1, small);
    h.deallocate(b2, rest);
}

#[test]
fn bump_allocator_aligns_its_cursor() {
    let mut h = MyHeap::new();
    let one = Layout::from_size_align(1, 1).unwrap();
    let b1 = h.allocate(one).unwrap();
    let aligned = Layout::from_size_align(16, 16).unwrap();
    let b2 = h.allocate(aligned).unwrap();
    assert_eq!(b2.addr() % 16, 0);
    assert_eq!(h.used(), 32);
    h.deallocate(b1, one);
    h.deallocate(b2, aligned);
}

#[test]
fn bump_allocator_rejects_huge_alignments() {
    let mut h = MyHeap::new();
    let layout = Layout::from_size_align(8, 2 * ARENA_SIZE).unwrap();
    assert!(h.allocate(layout).is_err());
    let zero = Layout::from_size_align(0, 2 * ARENA_SIZE).unwrap();
    assert!(h.allocate(zero).is_ok());
}
