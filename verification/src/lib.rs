//! An allocator abstraction layer: a capability trait describing pluggable
//! memory providers, a raw growable buffer built on top of it, and the layout
//! arithmetic both rely on.
//!
//! Memory blocks are modeled as owned resource handles: a [`block::Block`]
//! carries its address together with the bytes it grants access to, so that
//! every successful allocation is matched by exactly one deallocation (or an
//! explicit ownership transfer) by construction.

pub mod alloc_ref;
pub mod block;
pub mod boxed;
pub mod dummy;
pub mod errors;
pub mod heap;
pub mod layout;
pub mod raw_vec;

pub use crate::alloc_ref::AllocRef;
pub use crate::block::Block;
pub use crate::boxed::Box;
pub use crate::dummy::MyHeap;
pub use crate::heap::Global;
pub use crate::heap::Heap;
pub use crate::block::Excess;
pub use crate::errors::AllocErr;
pub use crate::errors::CannotReallocInPlace;
pub use crate::errors::TryReserveError;
pub use crate::layout::Layout;
pub use crate::layout::LayoutErr;
pub use crate::raw_vec::OwnedSlice;
pub use crate::raw_vec::RawVec;
