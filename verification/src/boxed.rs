//! An owning single-value container tied to an allocator instance.
//!
//! `Box` is the thin, mechanical counterpart of the raw buffer: it owns one
//! value together with the allocator handle that backs it, so pointers in
//! different heaps stay associated with their provider. Conversions to and
//! from the raw form move ownership — a box turned into its raw parts is
//! consumed and cannot be used or dropped twice.

use vstd::prelude::*;
use crate::alloc_ref::AllocRef;
use crate::heap::Heap;

verus! {

/// A pointer type for heap allocation: one value owned together with the
/// allocator instance it is associated with.
pub struct Box<T, A: AllocRef> {
    value: T,
    a: A,
}

impl<T, A: AllocRef> Box<T, A> {
    /// The value this box owns.
    pub closed spec fn value_spec(&self) -> T {
        self.value
    }

    /// The allocator instance this box is associated with.
    pub closed spec fn allocator_spec(&self) -> A {
        self.a
    }

    /// The box's invariant: its allocator is well-formed.
    pub open spec fn wf(&self) -> bool {
        self.allocator_spec().wf()
    }

    /// Places `x` into a box associated with the allocator `a`.
    pub fn new_in(x: T, a: A) -> (b: Box<T, A>)
        requires
            a.wf(),
        ensures
            b.wf(),
            b.value_spec() == x,
            b.allocator_spec() == a,
    {
        Box { value: x, a }
    }

    /// Rebuilds a box from a raw value in the given allocator, the inverse
    /// of [`Box::into_raw`].
    pub fn from_raw_in(raw: T, a: A) -> (b: Box<T, A>)
        requires
            a.wf(),
        ensures
            b.wf(),
            b.value_spec() == raw,
            b.allocator_spec() == a,
    {
        Box { value: raw, a }
    }

    /// Consumes the box, returning the wrapped value and releasing the
    /// allocator handle. The caller becomes responsible for the value; the
    /// box cannot be used afterwards.
    pub fn into_raw_non_null(b: Box<T, A>) -> (r: T)
        ensures
            r == b.value_spec(),
    {
        let Box { value, a } = b;
        let _released = a;
        value
    }

    /// Consumes the box, returning the wrapped value; see
    /// [`Box::into_raw_non_null`].
    pub fn into_raw(b: Box<T, A>) -> (r: T)
        ensures
            r == b.value_spec(),
    {
        Box::into_raw_non_null(b)
    }

    /// A reference to the owned value.
    pub fn as_ref(&self) -> (r: &T)
        ensures
            *r == self.value_spec(),
    {
        &self.value
    }

    /// A mutable reference to the owned value.
    pub fn as_mut(&mut self) -> (r: &mut T)
        ensures
            *r == old(self).value_spec(),
            final(self).value_spec() == *final(r),
            final(self).allocator_spec() == old(self).allocator_spec(),
    {
        &mut self.value
    }
}

impl<T> Box<T, Heap> {
    /// Places `x` into a box backed by the default heap.
    pub fn new(x: T) -> (b: Box<T, Heap>)
        ensures
            b.wf(),
            b.value_spec() == x,
    {
        Box::new_in(x, Heap)
    }
}

} // verus!
