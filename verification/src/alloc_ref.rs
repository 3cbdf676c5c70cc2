//! The allocator capability: a trait describing the lifecycle of memory
//! blocks (allocate, deallocate, grow, shrink, zero-initialize), with
//! verified default implementations for every operation expressible in terms
//! of the two primitives `allocate` and `deallocate`.

use vstd::prelude::*;
use crate::block::Block;
use crate::errors::{AllocErr, CannotReallocInPlace};
use crate::layout::Layout;

verus! {

/// An implementation of `AllocRef` can allocate, reallocate and deallocate
/// blocks of bytes described by a [`Layout`].
///
/// Every block handed out is an owned [`Block`]: it must be given back to
/// the same allocator through [`AllocRef::deallocate`] or one of the
/// reallocation methods (or have its ownership transferred wholesale), with
/// a layout that *fits* the block — a size no larger than the block's usable
/// size and the alignment the block was allocated with.
///
/// Zero-sized requests always succeed and yield a valid, non-null block.
///
/// The in-place resize methods are best-effort: their defaults always answer
/// [`CannotReallocInPlace`], which merely tells the composite
/// [`AllocRef::reallocate`] to fall back to allocate-copy-free. Only allocators
/// that can actually extend or carve up a live block need to override them.
pub trait AllocRef: Sized {
    /// Well-formedness of the allocator's own bookkeeping state.
    spec fn wf(&self) -> bool;

    /// Requests a block satisfying `layout`. On success the block is
    /// non-null, aligned to `layout.align()`, and usable for at least
    /// `layout.size()` bytes (possibly more); its contents are arbitrary.
    /// Zero-sized layouts must succeed.
    fn allocate(&mut self, layout: Layout) -> (r: Result<Block, AllocErr>)
        requires
            old(self).wf(),
        ensures
            final(self).wf(),
            r matches Ok(b) ==> (b.wf() && b.size_spec() >= layout.size_spec()
                && b.aligned_to(layout.align_spec())),
            layout.size_spec() == 0 ==> r is Ok,
    ;

    /// Releases a block previously obtained from this allocator. `layout`
    /// must fit the block: its size must not exceed the block's usable size
    /// and its alignment must be the one the block was allocated with.
    fn deallocate(&mut self, b: Block, layout: Layout)
        requires
            old(self).wf(),
            b.wf(),
            layout.size_spec() <= b.size_spec(),
            b.aligned_to(layout.align_spec()),
        ensures
            final(self).wf(),
    ;

    /// Behaves like [`AllocRef::allocate`], but additionally guarantees that
    /// the first `layout.size()` bytes of the returned block are zero.
    ///
    /// The default implementation allocates and then explicitly zeroes the
    /// requested bytes; allocators with a native zero-fill path should
    /// override it.
    fn allocate_zeroed(&mut self, layout: Layout) -> (r: Result<Block, AllocErr>)
        requires
            old(self).wf(),
        ensures
            final(self).wf(),
            r matches Ok(b) ==> (b.wf() && b.size_spec() >= layout.size_spec()
                && b.aligned_to(layout.align_spec())
                && forall|i: int| 0 <= i < layout.size_spec() ==> b.bytes_spec()[i] == 0u8),
            layout.size_spec() == 0 ==> r is Ok,
    {
        let size = layout.size();
        match self.allocate(layout) {
            Ok(mut b) => {
                b.zero_range(0, size);
                Ok(b)
            },
            Err(e) => Err(e),
        }
    }

    /// Attempts to extend the block `b`, which `layout` must fit, so that it
    /// becomes usable for at least `new_size` bytes without moving it. On
    /// success the address and all previously usable bytes are unchanged; on
    /// failure the block is untouched and the caller should fall back to
    /// copy-based reallocation.
    ///
    /// The default implementation always declines.
    fn grow_in_place(&mut self, b: &mut Block, layout: Layout, new_size: usize) -> (r: Result<
        usize,
        CannotReallocInPlace,
    >)
        requires
            old(self).wf(),
            old(b).wf(),
            layout.size_spec() <= old(b).size_spec(),
            old(b).aligned_to(layout.align_spec()),
            layout.size_spec() <= new_size,
        ensures
            final(self).wf(),
            r matches Ok(s) ==> (final(b).wf() && final(b).addr_spec() == old(b).addr_spec()
                && final(b).size_spec() >= new_size && s == final(b).size_spec()
                && forall|i: int|
                0 <= i < old(b).size_spec() ==> final(b).bytes_spec()[i] == old(b).bytes_spec()[i]),
            r is Err ==> *final(b) == *old(b),
    {
        Err(CannotReallocInPlace)
    }

    /// Behaves like [`AllocRef::grow_in_place`], but additionally zeroes the
    /// newly usable bytes between `layout.size()` and `new_size`.
    fn grow_in_place_zeroed(&mut self, b: &mut Block, layout: Layout, new_size: usize) -> (r:
        Result<usize, CannotReallocInPlace>)
        requires
            old(self).wf(),
            old(b).wf(),
            layout.size_spec() <= old(b).size_spec(),
            old(b).aligned_to(layout.align_spec()),
            layout.size_spec() <= new_size,
        ensures
            final(self).wf(),
            r matches Ok(s) ==> (final(b).wf() && final(b).addr_spec() == old(b).addr_spec()
                && final(b).size_spec() >= new_size && s == final(b).size_spec()
                && (forall|i: int|
                0 <= i < layout.size_spec() ==> final(b).bytes_spec()[i] == old(b).bytes_spec()[i])
                && (forall|i: int|
                layout.size_spec() <= i < new_size ==> final(b).bytes_spec()[i] == 0u8)),
            r is Err ==> *final(b) == *old(b),
    {
        match self.grow_in_place(b, layout, new_size) {
            Ok(_) => {
                b.zero_range(layout.size(), new_size);
                Ok(b.size())
            },
            Err(e) => Err(e),
        }
    }

    /// Attempts to shrink the block `b`, which `layout` must fit, to a
    /// usable size of at least `new_size` bytes without moving it, so the
    /// allocator may carve off the tail for reuse. On success the address
    /// and the first `new_size` bytes are unchanged; on failure the block is
    /// untouched.
    ///
    /// The default implementation always declines.
    fn shrink_in_place(&mut self, b: &mut Block, layout: Layout, new_size: usize) -> (r: Result<
        usize,
        CannotReallocInPlace,
    >)
        requires
            old(self).wf(),
            old(b).wf(),
            layout.size_spec() <= old(b).size_spec(),
            old(b).aligned_to(layout.align_spec()),
            new_size <= layout.size_spec(),
        ensures
            final(self).wf(),
            r matches Ok(s) ==> (final(b).wf() && final(b).addr_spec() == old(b).addr_spec()
                && final(b).size_spec() >= new_size && s == final(b).size_spec()
                && forall|i: int|
                0 <= i < new_size ==> final(b).bytes_spec()[i] == old(b).bytes_spec()[i]),
            r is Err ==> *final(b) == *old(b),
    {
        Err(CannotReallocInPlace)
    }

    /// Returns a block usable for at least `new_size` bytes with `layout`'s
    /// alignment, preserving the first `min(layout.size(), new_size)` bytes
    /// of `b`. On success, ownership of `b` passes to the allocator; on
    /// failure, `b` is handed back untouched inside the error.
    ///
    /// The default implementation first tries the in-place methods and falls
    /// back to allocate, copy, free.
    fn reallocate(&mut self, b: Block, layout: Layout, new_size: usize) -> (r: Result<
        Block,
        (Block, AllocErr),
    >)
        requires
            old(self).wf(),
            b.wf(),
            layout.size_spec() <= b.size_spec(),
            b.aligned_to(layout.align_spec()),
        ensures
            final(self).wf(),
            r matches Ok(nb) ==> (nb.wf() && nb.size_spec() >= new_size
                && nb.aligned_to(layout.align_spec())
                && forall|i: int|
                0 <= i < layout.size_spec() && i < new_size ==> nb.bytes_spec()[i]
                    == b.bytes_spec()[i]),
            r matches Err(p) ==> p.0 == b,
    {
        let old_size = layout.size();
        let mut cur = b;
        if new_size > old_size {
            match self.grow_in_place(&mut cur, layout, new_size) {
                Ok(_) => {
                    return Ok(cur);
                },
                Err(_) => {},
            }
        } else if new_size < old_size {
            match self.shrink_in_place(&mut cur, layout, new_size) {
                Ok(_) => {
                    return Ok(cur);
                },
                Err(_) => {},
            }
        } else {
            return Ok(cur);
        }
        let new_layout = match Layout::from_size_align(new_size, layout.align()) {
            Ok(l) => l,
            Err(_) => {
                return Err((cur, AllocErr));
            },
        };
        match self.allocate(new_layout) {
            Ok(mut nb) => {
                let n = if old_size < new_size {
                    old_size
                } else {
                    new_size
                };
                nb.copy_prefix_from(&cur, n);
                self.deallocate(cur, layout);
                Ok(nb)
            },
            Err(e) => Err((cur, e)),
        }
    }

    /// Behaves like [`AllocRef::reallocate`], but when the block grows it
    /// additionally guarantees that the bytes between `layout.size()` and
    /// `new_size` of the returned block are zero.
    fn reallocate_zeroed(&mut self, b: Block, layout: Layout, new_size: usize) -> (r: Result<
        Block,
        (Block, AllocErr),
    >)
        requires
            old(self).wf(),
            b.wf(),
            layout.size_spec() <= b.size_spec(),
            b.aligned_to(layout.align_spec()),
        ensures
            final(self).wf(),
            r matches Ok(nb) ==> (nb.wf() && nb.size_spec() >= new_size
                && nb.aligned_to(layout.align_spec())
                && (forall|i: int|
                0 <= i < layout.size_spec() && i < new_size ==> nb.bytes_spec()[i]
                    == b.bytes_spec()[i])
                && (forall|i: int|
                layout.size_spec() <= i < new_size ==> nb.bytes_spec()[i] == 0u8)),
            r matches Err(p) ==> p.0 == b,
    {
        let old_size = layout.size();
        let mut cur = b;
        if new_size > old_size {
            match self.grow_in_place_zeroed(&mut cur, layout, new_size) {
                Ok(_) => {
                    return Ok(cur);
                },
                Err(_) => {},
            }
        } else if new_size < old_size {
            match self.shrink_in_place(&mut cur, layout, new_size) {
                Ok(_) => {
                    return Ok(cur);
                },
                Err(_) => {},
            }
        } else {
            return Ok(cur);
        }
        let new_layout = match Layout::from_size_align(new_size, layout.align()) {
            Ok(l) => l,
            Err(_) => {
                return Err((cur, AllocErr));
            },
        };
        match self.allocate_zeroed(new_layout) {
            Ok(mut nb) => {
                let n = if old_size < new_size {
                    old_size
                } else {
                    new_size
                };
                nb.copy_prefix_from(&cur, n);
                self.deallocate(cur, layout);
                Ok(nb)
            },
            Err(e) => Err((cur, e)),
        }
    }
}

} // verus!
