//! Handles to the process-wide default heap.
//!
//! `Heap` and `Global` are stateless, copyable handles: every copy refers to
//! the same underlying provider, so buffers may freely clone them. In this
//! model the default heap is unbounded; requests fail only when their layout
//! cannot be represented at all.

use vstd::prelude::*;
use crate::alloc_ref::AllocRef;
use crate::block::Block;
use crate::errors::AllocErr;
use crate::layout::{lemma_pow2_pos, Layout};
use vstd::arithmetic::div_mod::lemma_mod_self_0;

verus! {

/// A handle to the default heap.
#[derive(Clone, Copy, Default, Debug, PartialEq, Eq)]
pub struct Heap;

impl AllocRef for Heap {
    open spec fn wf(&self) -> bool {
        true
    }

    fn allocate(&mut self, layout: Layout) -> (r: Result<Block, AllocErr>)
        ensures
            r is Ok,
    {
        proof {
            use_type_invariant(&layout);
            lemma_pow2_pos(layout.align_spec());
            lemma_mod_self_0(layout.align_spec());
        }
        Ok(Block::new_zeroed(layout.align(), layout.size()))
    }

    fn deallocate(&mut self, b: Block, layout: Layout) {
        let _released = b;
    }
}

/// A handle to the global default allocator, interchangeable with [`Heap`].
#[derive(Clone, Copy, Default, Debug, PartialEq, Eq)]
pub struct Global;

impl AllocRef for Global {
    open spec fn wf(&self) -> bool {
        true
    }

    fn allocate(&mut self, layout: Layout) -> (r: Result<Block, AllocErr>)
        ensures
            r is Ok,
    {
        proof {
            use_type_invariant(&layout);
            lemma_pow2_pos(layout.align_spec());
            lemma_mod_self_0(layout.align_spec());
        }
        Ok(Block::new_zeroed(layout.align(), layout.size()))
    }

    fn deallocate(&mut self, b: Block, layout: Layout) {
        let _released = b;
    }
}

} // verus!
