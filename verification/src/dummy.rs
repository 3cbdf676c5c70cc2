//! A tiny bump allocator with a fixed budget, handy for examples and tests.
//!
//! `MyHeap` hands out blocks from a single arena of 4096 bytes and never
//! reclaims them; it also counts how often it was invoked, so tests can
//! observe exactly when an allocation happened.

use vstd::prelude::*;
use vstd::arithmetic::power2::is_pow2;
use vstd::arithmetic::div_mod::{lemma_mod_adds, lemma_mod_multiples_basic};
use crate::alloc_ref::AllocRef;
use crate::block::Block;
use crate::errors::AllocErr;
use crate::layout::{lemma_padding_mod, lemma_pow2_divides, lemma_pow2_pos, padding_for, Layout};

verus! {

/// The number of arena bytes a [`MyHeap`] starts with.
pub const ARENA_SIZE: usize = 4096;

/// A bump allocator over a fixed arena: requests are carved off a cursor
/// that only moves forward, and deallocation is a no-op. Alignments beyond
/// the arena's own cannot be served and fail.
#[derive(Debug)]
pub struct MyHeap {
    cursor: usize,
    allocs: usize,
}

impl MyHeap {
    /// The number of arena bytes handed out so far, padding included.
    pub closed spec fn used_spec(&self) -> int {
        self.cursor as int
    }

    /// How many times an allocation was requested from this heap.
    pub closed spec fn allocs_spec(&self) -> int {
        self.allocs as int
    }

    /// Creates a fresh, empty bump allocator.
    pub fn new() -> (h: MyHeap)
        ensures
            h.wf(),
            h.used_spec() == 0,
            h.allocs_spec() == 0,
    {
        MyHeap { cursor: 0, allocs: 0 }
    }

    /// The number of arena bytes handed out so far, padding included.
    pub fn used(&self) -> (r: usize)
        ensures
            r == self.used_spec(),
    {
        self.cursor
    }

    /// How many times an allocation was requested from this heap.
    pub fn allocations(&self) -> (r: usize)
        ensures
            r == self.allocs_spec(),
    {
        self.allocs
    }
}

impl AllocRef for MyHeap {
    open spec fn wf(&self) -> bool {
        self.used_spec() <= ARENA_SIZE
    }

    fn allocate(&mut self, layout: Layout) -> (r: Result<Block, AllocErr>)
        ensures
            final(self).used_spec() >= old(self).used_spec(),
            old(self).allocs_spec() < usize::MAX ==> final(self).allocs_spec() == old(
                self,
            ).allocs_spec() + 1,
            layout.size_spec() == 0 ==> final(self).used_spec() == old(self).used_spec(),
    {
        proof {
            use_type_invariant(&layout);
            lemma_pow2_pos(layout.align_spec());
        }
        if self.allocs < usize::MAX {
            self.allocs = self.allocs + 1;
        }
        let size = layout.size();
        let align = layout.align();
        if size == 0 {
            proof {
                lemma_mod_multiples_basic(1, align as int);
            }
            return Ok(Block::new_zeroed(align, 0));
        }
        if align > ARENA_SIZE {
            return Err(AllocErr);
        }
        proof {
            lemma_padding_mod(self.cursor as int, align as int);
        }
        let rem = self.cursor % align;
        let off = if rem == 0 {
            self.cursor
        } else {
            self.cursor + (align - rem)
        };
        if size > ARENA_SIZE || off > ARENA_SIZE - size {
            return Err(AllocErr);
        }
        proof {
            reveal_with_fuel(is_pow2, 14);
            assert(is_pow2(ARENA_SIZE as int));
            lemma_pow2_divides(align as int, ARENA_SIZE as int);
            lemma_mod_adds(ARENA_SIZE as int, off as int, align as int);
        }
        let addr = ARENA_SIZE + off;
        self.cursor = off + size;
        Ok(Block::new_zeroed(addr, size))
    }

    fn deallocate(&mut self, b: Block, layout: Layout)
        ensures
            *final(self) == *old(self),
    {
        let _released = b;
    }
}

} // verus!
