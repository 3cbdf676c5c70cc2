//! Error values shared by the allocator capability and the containers built
//! on it.

use vstd::prelude::*;
use crate::layout::{Layout, LayoutErr};

verus! {

/// The error indicating an allocation failure: the allocator could not
/// produce or resize a block, whether from resource exhaustion or from a
/// request it does not support. A unit signal; the caller decides whether
/// failure is fatal.
#[derive(Clone, Copy, PartialEq, Eq, Debug)]
pub struct AllocErr;

/// The negotiation signal returned by `grow_in_place` and `shrink_in_place`
/// when the allocator was unable to resize the given block without moving
/// it. Not an error for end users: it means "fall back to copy-based
/// reallocation" and must never reach an out-of-memory handler.
#[derive(Clone, Copy, PartialEq, Eq, Debug)]
pub struct CannotReallocInPlace;

impl CannotReallocInPlace {
    /// A human-readable description of this signal.
    pub fn description(&self) -> (r: &'static str)
        ensures
            r@ == "cannot reallocate allocator's memory in place"@,
    {
        "cannot reallocate allocator's memory in place"
    }
}

/// The error type for fallible capacity-changing operations on containers.
#[derive(Clone, Copy, PartialEq, Eq, Debug)]
pub enum TryReserveError {
    /// The computed capacity exceeded the collection's maximum (the total
    /// byte size would pass `isize::MAX`, or an element count overflowed).
    CapacityOverflow,
    /// The memory allocator returned an error.
    AllocError {
        /// The layout of the allocation request that failed.
        layout: Layout,
    },
}

impl From<LayoutErr> for TryReserveError {
    /// A layout that cannot be constructed means the requested capacity was
    /// not addressable.
    fn from(_err: LayoutErr) -> (r: Self) {
        TryReserveError::CapacityOverflow
    }
}

impl vstd::std_specs::convert::FromSpecImpl<LayoutErr> for TryReserveError {
    open spec fn obeys_from_spec() -> bool {
        true
    }

    open spec fn from_spec(_err: LayoutErr) -> Self {
        TryReserveError::CapacityOverflow
    }
}

} // verus!
