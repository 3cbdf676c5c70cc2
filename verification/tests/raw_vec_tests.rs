use allocator_api::dummy::MyHeap;
use allocator_api::errors::TryReserveError;
use allocator_api::heap::Heap;
use allocator_api::layout::Layout;
use allocator_api::raw_vec::RawVec;

fn four_byte_elem() -> Layout {
    Layout::from_size_align(4, 4).unwrap()
}

#[test]
fn new_buffer_is_lazy() {
    let v = RawVec::new_in(four_byte_elem(), MyHeap::new());
    assert_eq!(v.cap(), 0);
    assert_ne!(v.addr(), 0);
    assert_eq!(v.allocator().allocations(), 0);
}

#[test]
fn with_capacity_reserves_exactly() {
    let v = RawVec::try_with_capacity_in(four_byte_elem(), 10, MyHeap::new()).unwrap();
    assert_eq!(v.cap(), 10);
    assert_eq!(v.allocator().allocations(), 1);
}

#[test]
fn with_capacity_zero_never_allocates() {
    let v = RawVec::try_with_capacity_in(four_byte_elem(), 0, MyHeap::new()).unwrap();
    assert_eq!(v.cap(), 0);
    assert_eq!(v.allocator().allocations(), 0);
}

#[test]
fn zero_sized_elements_never_allocate() {
    let elem = Layout::from_size_align(0, 1).unwrap();
    let v = RawVec::try_with_capacity_in(elem, 100_000, MyHeap::new()).unwrap();
    assert_eq!(v.cap(), usize::MAX);
    assert!(v.cap() >= 100_000);
    assert_eq!(v.allocator().allocations(), 0);
    let mut v = v;
    assert!(v.try_reserve(0, 50_000).is_ok());
    assert_eq!(v.allocator().allocations(), 0);
}

#[test]
fn reserve_is_idempotent() {
    let mut v = RawVec::new_in(four_byte_elem(), MyHeap::new());
    assert!(v.try_reserve(0, 3).is_ok());
    let cap_after_first = v.cap();
    assert!(cap_after_first >= 3);
    assert_eq!(v.allocator().allocations(), 1);
    // the second call with unchanged arguments is a no-op
    assert!(v.try_reserve(0, 3).is_ok());
    assert_eq!(v.cap(), cap_after_first);
    assert_eq!(v.allocator().allocations(), 1);
}

#[test]
fn reserve_doubles_for_amortized_growth() {
    let mut v = RawVec::try_with_capacity_in(four_byte_elem(), 8, MyHeap::new()).unwrap();
    assert!(v.try_reserve(8, 1).is_ok());
    assert_eq!(v.cap(), 16);
}

#[test]
fn reserve_exact_skips_the_headroom() {
    let mut v = RawVec::try_with_capacity_in(four_byte_elem(), 8, MyHeap::new()).unwrap();
    assert!(v.try_reserve_exact(8, 1).is_ok());
    assert_eq!(v.cap(), 9);
}

#[test]
fn double_grows_strictly() {
    let mut v = RawVec::new_in(four_byte_elem(), MyHeap::new());
    assert!(v.try_double().is_ok());
    assert_eq!(v.cap(), 4);
    assert!(v.try_double().is_ok());
    assert_eq!(v.cap(), 8);
    assert!(v.try_double().is_ok());
    assert_eq!(v.cap(), 16);
}

#[test]
fn reserving_nothing_is_a_no_op() {
    let mut v = RawVec::new_in(four_byte_elem(), MyHeap::new());
    assert!(v.try_reserve(0, 0).is_ok());
    assert_eq!(v.cap(), 0);
    assert_eq!(v.allocator().allocations(), 0);
}

#[test]
fn double_starts_with_one_element_when_elements_are_huge() {
    // an element too large for eight of them to fit memory: the first
    // doubling must request a single element, not the usual handful
    let huge = usize::MAX / 8 + 1;
    let elem = Layout::from_size_align(huge, 1).unwrap();
    let mut v = RawVec::new_in(elem, MyHeap::new());
    match v.try_double() {
        Err(TryReserveError::AllocError { layout }) => {
            assert_eq!(layout.size(), huge);
        },
        other => panic!("expected the arena to refuse one huge element, got {:?}", other),
    }
}

#[test]
fn double_fails_for_zero_sized_elements() {
    let elem = Layout::from_size_align(0, 4).unwrap();
    let mut v = RawVec::new_in(elem, Heap);
    let before = v.cap();
    assert_eq!(v.try_double(), Err(TryReserveError::CapacityOverflow));
    assert_eq!(v.cap(), before);
}

#[test]
fn overflowing_requests_fail_without_corruption() {
    let mut v = RawVec::try_with_capacity_in(four_byte_elem(), 2, MyHeap::new()).unwrap();
    v.write_elem(0, &[1, 2, 3, 4]);
    v.write_elem(1, &[5, 6, 7, 8]);
    let huge = isize::MAX as usize;
    assert_eq!(v.try_reserve(2, huge), Err(TryReserveError::CapacityOverflow));
    assert_eq!(v.cap(), 2);
    assert_eq!(v.read_elem(0), vec![1, 2, 3, 4]);
    assert_eq!(v.read_elem(1), vec![5, 6, 7, 8]);
    // the buffer stays usable after the failed request
    assert!(v.try_reserve(2, 1).is_ok());
    assert!(v.cap() >= 3);
}

#[test]
fn with_capacity_overflow_fails() {
    let r = RawVec::try_with_capacity_in(four_byte_elem(), isize::MAX as usize, MyHeap::new());
    assert_eq!(r.unwrap_err(), TryReserveError::CapacityOverflow);
}

#[test]
fn allocator_failure_reports_layout_and_preserves_state() {
    // 2000 four-byte elements do not fit MyHeap's arena
    let mut v = RawVec::try_with_capacity_in(four_byte_elem(), 2, MyHeap::new()).unwrap();
    v.write_elem(0, &[1, 1, 1, 1]);
    match v.try_reserve(2, 1998) {
        Err(TryReserveError::AllocError { layout }) => {
            assert_eq!(layout.size(), 8000);
            assert_eq!(layout.align(), 4);
        },
        other => panic!("expected an allocator failure, got {:?}", other),
    }
    assert_eq!(v.cap(), 2);
    assert_eq!(v.read_elem(0), vec![1, 1, 1, 1]);
}

#[test]
fn shrink_preserves_the_kept_elements() {
    let mut v = RawVec::try_with_capacity_in(four_byte_elem(), 5, MyHeap::new()).unwrap();
    for i in 0..5usize {
        let x = i as u8;
        v.write_elem(i, &[x, x + 10, x + 20, x + 30]);
    }
    assert!(v.try_shrink_to_fit(3).is_ok());
    assert_eq!(v.cap(), 3);
    for i in 0..3usize {
        let x = i as u8;
        assert_eq!(v.read_elem(i), vec![x, x + 10, x + 20, x + 30]);
    }
}

#[test]
fn shrink_to_current_capacity_is_a_no_op() {
    let mut v = RawVec::try_with_capacity_in(four_byte_elem(), 3, MyHeap::new()).unwrap();
    assert!(v.try_shrink_to_fit(3).is_ok());
    assert_eq!(v.cap(), 3);
    assert_eq!(v.allocator().allocations(), 1);
}

#[test]
fn shrink_to_zero_releases_the_block() {
    let mut v = RawVec::try_with_capacity_in(four_byte_elem(), 3, MyHeap::new()).unwrap();
    assert!(v.try_shrink_to_fit(0).is_ok());
    assert_eq!(v.cap(), 0);
}

#[test]
fn end_to_end_reserve_write_shrink_into_box() {
    let mut v = RawVec::new_in(four_byte_elem(), MyHeap::new());
    assert!(v.try_reserve(0, 3).is_ok());
    assert!(v.cap() >= 3);
    assert_eq!(v.allocator().allocations(), 1);
    v.write_elem(0, &[1, 2, 3, 4]);
    v.write_elem(1, &[5, 6, 7, 8]);
    v.write_elem(2, &[9, 10, 11, 12]);
    assert!(v.try_shrink_to_fit(3).is_ok());
    assert_eq!(v.cap(), 3);
    assert_eq!(v.read_elem(0), vec![1, 2, 3, 4]);
    assert_eq!(v.read_elem(1), vec![5, 6, 7, 8]);
    assert_eq!(v.read_elem(2), vec![9, 10, 11, 12]);
    let s = v.try_into_box(3).unwrap();
    assert_eq!(s.len(), 3);
    assert_eq!(s.read_elem(0), vec![1, 2, 3, 4]);
    assert_eq!(s.read_elem(1), vec![5, 6, 7, 8]);
    assert_eq!(s.read_elem(2), vec![9, 10, 11, 12]);
    let heap = s.free();
    assert_eq!(heap.allocations(), 1);
}

#[test]
fn into_box_shrinks_first() {
    let mut v = RawVec::try_with_capacity_in(four_byte_elem(), 6, MyHeap::new()).unwrap();
    v.write_elem(0, &[7, 7, 7, 7]);
    v.write_elem(1, &[8, 8, 8, 8]);
    let s = v.try_into_box(2).unwrap();
    assert_eq!(s.len(), 2);
    assert_eq!(s.read_elem(0), vec![7, 7, 7, 7]);
    assert_eq!(s.read_elem(1), vec![8, 8, 8, 8]);
}

#[test]
fn owned_slice_elements_can_be_rewritten() {
    let mut v = RawVec::try_with_capacity_in(four_byte_elem(), 3, MyHeap::new()).unwrap();
    v.write_elem(0, &[1, 0, 0, 0]);
    v.write_elem(1, &[2, 0, 0, 0]);
    v.write_elem(2, &[3, 0, 0, 0]);
    let mut s = v.try_into_box(3).unwrap();
    s.write_elem(0, &[4, 0, 0, 0]);
    assert_eq!(s.read_elem(0), vec![4, 0, 0, 0]);
    assert_eq!(s.read_elem(1), vec![2, 0, 0, 0]);
    assert_eq!(s.read_elem(2), vec![3, 0, 0, 0]);
}

#[test]
fn owned_slice_turns_back_into_a_buffer() {
    let mut v = RawVec::try_with_capacity_in(four_byte_elem(), 2, MyHeap::new()).unwrap();
    v.write_elem(0, &[1, 2, 3, 4]);
    v.write_elem(1, &[5, 6, 7, 8]);
    let s = v.try_into_box(2).unwrap();
    let w = s.into_raw_vec();
    assert_eq!(w.cap(), 2);
    assert_eq!(w.read_elem(0), vec![1, 2, 3, 4]);
    assert_eq!(w.read_elem(1), vec![5, 6, 7, 8]);
}

#[test]
fn duplicate_copies_every_element() {
    let h = Heap;
    let mut v = RawVec::try_with_capacity_in(four_byte_elem(), 2, h).unwrap();
    v.write_elem(0, &[1, 2, 3, 4]);
    v.write_elem(1, &[5, 6, 7, 8]);
    let s = v.try_into_box(2).unwrap();
    let copy = s.duplicate_in(h.clone()).unwrap();
    assert_eq!(copy.len(), 2);
    assert_eq!(copy.read_elem(0), vec![1, 2, 3, 4]);
    assert_eq!(copy.read_elem(1), vec![5, 6, 7, 8]);
    // the copy is independent of the region it came from
    let mut copy = copy;
    copy.write_elem(0, &[9, 9, 9, 9]);
    assert_eq!(s.read_elem(0), vec![1, 2, 3, 4]);
}

#[test]
fn zero_sized_into_box_keeps_the_count() {
    let elem = Layout::from_size_align(0, 1).unwrap();
    let v = RawVec::try_with_capacity_in(elem, 7, Heap).unwrap();
    let s = v.try_into_box(7).unwrap();
    assert_eq!(s.len(), 7);
    assert_eq!(s.read_elem(3), Vec::<u8>::new());
}

#[test]
fn two_buffers_share_one_heap_handle() {
    // clones of a shared allocator handle refer to the same heap; two
    // buffers over such clones keep independent, uncorrupted state while
    // their operations interleave
    let h = Heap;
    let mut a = RawVec::new_in(four_byte_elem(), h);
    let mut b = RawVec::new_in(four_byte_elem(), h.clone());
    assert!(a.try_reserve(0, 2).is_ok());
    assert!(b.try_reserve(0, 4).is_ok());
    a.write_elem(0, &[1, 1, 1, 1]);
    b.write_elem(0, &[2, 2, 2, 2]);
    assert!(a.try_reserve(1, 8).is_ok());
    b.write_elem(3, &[3, 3, 3, 3]);
    assert!(b.try_shrink_to_fit(4).is_ok());
    a.write_elem(1, &[4, 4, 4, 4]);
    assert_eq!(a.read_elem(0), vec![1, 1, 1, 1]);
    assert_eq!(a.read_elem(1), vec![4, 4, 4, 4]);
    assert_eq!(b.read_elem(0), vec![2, 2, 2, 2]);
    assert_eq!(b.read_elem(3), vec![3, 3, 3, 3]);
    assert!(a.cap() >= 9);
    assert_eq!(b.cap(), 4);
}

#[test]
fn writes_stay_inside_their_slot() {
    let mut v = RawVec::try_with_capacity_in(four_byte_elem(), 3, Heap).unwrap();
    v.write_elem(0, &[1, 1, 1, 1]);
    v.write_elem(1, &[2, 2, 2, 2]);
    v.write_elem(2, &[3, 3, 3, 3]);
    v.write_elem(1, &[9, 9, 9, 9]);
    assert_eq!(v.read_elem(0), vec![1, 1, 1, 1]);
    assert_eq!(v.read_elem(1), vec![9, 9, 9, 9]);
    assert_eq!(v.read_elem(2), vec![3, 3, 3, 3]);
}
