//! Owned memory blocks: the resource handle an allocator hands out.
//!
//! A `Block` pairs the address of an allocation with the bytes the caller may
//! use. Ownership of the handle is ownership of the region: the only ways to
//! give it up are deallocation and explicit transfer, so a successful
//! allocation is matched by exactly one release by construction.

use vstd::prelude::*;

verus! {

/// The combination of a starting address and the total usable capacity of a
/// returned block.
#[derive(Clone, Copy, PartialEq, Eq, Debug)]
pub struct Excess(pub usize, pub usize);

/// An owned memory block: a non-null starting address together with the
/// usable bytes of the allocation. The number of bytes is the block's usable
/// size, which may exceed the size that was requested.
#[derive(Debug)]
pub struct Block {
    addr: usize,
    bytes: Vec<u8>,
}

impl Block {
    /// The starting address of the block.
    pub closed spec fn addr_spec(&self) -> int {
        self.addr as int
    }

    /// The usable bytes of the block.
    pub closed spec fn bytes_spec(&self) -> Seq<u8> {
        self.bytes@
    }

    /// The usable size of the block, in bytes.
    pub open spec fn size_spec(&self) -> int {
        self.bytes_spec().len() as int
    }

    /// A block's address is never null.
    pub open spec fn wf(&self) -> bool {
        self.addr_spec() != 0
    }

    /// Whether the block's starting address satisfies `align`.
    pub open spec fn aligned_to(&self, align: int) -> bool {
        align >= 1 && self.addr_spec() % align == 0
    }

    /// Creates a fresh zero-filled block at `addr` with `size` usable bytes.
    pub(crate) fn new_zeroed(addr: usize, size: usize) -> (b: Block)
        requires
            addr != 0,
        ensures
            b.wf(),
            b.addr_spec() == addr,
            b.size_spec() == size,
            forall|i: int| 0 <= i < size ==> b.bytes_spec()[i] == 0u8,
    {
        let mut bytes: Vec<u8> = Vec::new();
        let mut k: usize = 0;
        while k < size
            invariant
                k <= size,
                bytes@.len() == k,
                forall|i: int| 0 <= i < k ==> bytes@[i] == 0u8,
            decreases size - k,
        {
            bytes.push(0u8);
            k = k + 1;
        }
        Block { addr, bytes }
    }

    /// The starting address of the block.
    pub fn addr(&self) -> (r: usize)
        ensures
            r == self.addr_spec(),
    {
        self.addr
    }

    /// The usable size of the block, in bytes.
    pub fn size(&self) -> (r: usize)
        ensures
            r == self.size_spec(),
    {
        self.bytes.len()
    }

    /// The block's address and usable capacity, as an `Excess` pair.
    pub fn excess(&self) -> (r: Excess)
        ensures
            r.0 == self.addr_spec(),
            r.1 == self.size_spec(),
    {
        Excess(self.addr, self.bytes.len())
    }

    /// Reads the byte at offset `i`.
    pub fn read_byte(&self, i: usize) -> (r: u8)
        requires
            i < self.size_spec(),
        ensures
            r == self.bytes_spec()[i as int],
    {
        self.bytes[i]
    }

    /// Copies the bytes `i..j` out of the block.
    pub fn read_range(&self, i: usize, j: usize) -> (r: Vec<u8>)
        requires
            i <= j <= self.size_spec(),
        ensures
            r@ == self.bytes_spec().subrange(i as int, j as int),
    {
        let mut out: Vec<u8> = Vec::new();
        let mut k: usize = i;
        while k < j
            invariant
                i <= k <= j <= self.bytes@.len(),
                out@ == self.bytes@.subrange(i as int, k as int),
            decreases j - k,
        {
            out.push(self.bytes[k]);
            proof {
                assert(out@ =~= self.bytes@.subrange(i as int, k + 1));
            }
            k = k + 1;
        }
        out
    }

    /// Overwrites the bytes starting at offset `off` with `data`, leaving
    /// every byte outside `off..off + data.len()` unchanged.
    pub fn write_at(&mut self, off: usize, data: &[u8])
        requires
            off + data@.len() <= old(self).size_spec(),
        ensures
            final(self).wf() == old(self).wf(),
            final(self).addr_spec() == old(self).addr_spec(),
            final(self).size_spec() == old(self).size_spec(),
            forall|i: int|
                0 <= i < data@.len() ==> final(self).bytes_spec()[off + i] == data@[i],
            forall|i: int|
                0 <= i < old(self).size_spec() && !(off <= i < off + data@.len())
                    ==> final(self).bytes_spec()[i] == old(self).bytes_spec()[i],
    {
        let n = data.len();
        let total = self.bytes.len();
        let mut k: usize = 0;
        while k < n
            invariant
                k <= n,
                off + n <= total,
                total == self.bytes@.len(),
                n == data@.len(),
                self.addr == old(self).addr,
                self.bytes@.len() == old(self).bytes_spec().len(),
                forall|i: int| 0 <= i < k ==> self.bytes@[off + i] == data@[i],
                forall|i: int|
                    0 <= i < self.bytes@.len() && !(off <= i < off + k)
                        ==> self.bytes@[i] == old(self).bytes_spec()[i],
            decreases n - k,
        {
            self.bytes[off + k] = data[k];
            k = k + 1;
        }
    }

    /// Sets the bytes `start..end` to zero, leaving the rest unchanged.
    pub fn zero_range(&mut self, start: usize, end: usize)
        requires
            start <= end <= old(self).size_spec(),
        ensures
            final(self).wf() == old(self).wf(),
            final(self).addr_spec() == old(self).addr_spec(),
            final(self).size_spec() == old(self).size_spec(),
            forall|i: int| start <= i < end ==> final(self).bytes_spec()[i] == 0u8,
            forall|i: int|
                0 <= i < old(self).size_spec() && !(start <= i < end)
                    ==> final(self).bytes_spec()[i] == old(self).bytes_spec()[i],
    {
        let mut k: usize = start;
        while k < end
            invariant
                start <= k <= end <= self.bytes@.len(),
                self.addr == old(self).addr,
                self.bytes@.len() == old(self).bytes_spec().len(),
                forall|i: int| start <= i < k ==> self.bytes@[i] == 0u8,
                forall|i: int|
                    0 <= i < self.bytes@.len() && !(start <= i < k)
                        ==> self.bytes@[i] == old(self).bytes_spec()[i],
            decreases end - k,
        {
            self.bytes[k] = 0u8;
            k = k + 1;
        }
    }

    /// Copies the first `n` bytes of `src` to the front of this block,
    /// leaving the rest unchanged.
    pub fn copy_prefix_from(&mut self, src: &Block, n: usize)
        requires
            n <= src.size_spec(),
            n <= old(self).size_spec(),
        ensures
            final(self).wf() == old(self).wf(),
            final(self).addr_spec() == old(self).addr_spec(),
            final(self).size_spec() == old(self).size_spec(),
            forall|i: int| 0 <= i < n ==> final(self).bytes_spec()[i] == src.bytes_spec()[i],
            forall|i: int|
                n <= i < old(self).size_spec()
                    ==> final(self).bytes_spec()[i] == old(self).bytes_spec()[i],
    {
        let src_bytes = vstd::slice::slice_subrange(src.bytes.as_slice(), 0, n);
        self.write_at(0, src_bytes);
        proof {
            assert forall|i: int| 0 <= i < n implies self.bytes@[i] == src.bytes_spec()[i] by {
                assert(self.bytes@[0 + i] == src_bytes@[i]);
            }
        }
    }
}

} // verus!
