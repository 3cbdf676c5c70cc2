use allocator_api::boxed::Box;
use allocator_api::dummy::MyHeap;
use allocator_api::heap::Heap;

#[test]
fn new_box_owns_its_value() {
    let five = Box::new(5u32);
    assert_eq!(*five.as_ref(), 5);
}

#[test]
fn box_in_a_custom_heap() {
    let b = Box::new_in(41usize, MyHeap::new());
    assert_eq!(*b.as_ref(), 41);
}

#[test]
fn as_mut_updates_the_value() {
    let mut b = Box::new_in(41usize, Heap);
    *b.as_mut() += 1;
    assert_eq!(*b.as_ref(), 42);
}

#[test]
fn into_raw_and_back_round_trips() {
    let b = Box::new_in(String::from("hello"), Heap);
    let raw = Box::into_raw(b);
    assert_eq!(raw, "hello");
    let again = Box::from_raw_in(raw, Heap);
    assert_eq!(again.as_ref(), "hello");
}

#[test]
fn into_raw_non_null_returns_the_value() {
    let b = Box::new_in(7i64, Heap);
    assert_eq!(Box::into_raw_non_null(b), 7);
}
