//! A raw growable buffer: a contiguous region sized for `capacity` elements
//! of a fixed element layout, obtained from an allocator capability.
//!
//! The buffer owns its block, its capacity bookkeeping and its allocator
//! instance. It does not track how many elements are initialized — that
//! belongs to whatever container is built on top. Capacity changes are
//! atomic from the caller's perspective: when an operation fails, the
//! buffer's block and capacity are exactly what they were before the call.

use vstd::prelude::*;
use vstd::arithmetic::mul::lemma_mul_inequality;
use vstd::arithmetic::div_mod::lemma_fundamental_div_mod;
use crate::alloc_ref::AllocRef;
use crate::block::Block;
use crate::errors::TryReserveError;
use crate::layout::{layout_valid, Layout};

verus! {

/// The capacity a just-created empty buffer jumps to when it is doubled:
/// a handful of elements, or a single one if elements are huge.
pub open spec fn double_target(elem_size: int, cap: int) -> int {
    if cap == 0 {
        if elem_size > usize::MAX as int / 8 {
            1
        } else {
            4
        }
    } else {
        2 * cap
    }
}

/// Whether `reserve`-style growth to `used + additional` elements must fail:
/// the element count itself overflows, or the total byte size would exceed
/// the maximum addressable size.
pub open spec fn reserve_overflows(elem_size: int, used: int, additional: int) -> bool {
    if elem_size == 0 {
        used + additional > usize::MAX as int
    } else {
        (used + additional) * elem_size > isize::MAX as int
    }
}

/// The capacity an insufficient buffer grows to under amortized
/// reservation: the doubled capacity or the request, whichever is larger,
/// clamped to the most elements that can ever fit — but never below the
/// request itself.
pub open spec fn amortized_target(elem_size: int, cap: int, required: int) -> int
    recommends
        elem_size >= 1,
{
    let doubled = 2 * cap;
    let candidate = if doubled > required {
        doubled
    } else {
        required
    };
    let maxcap = isize::MAX as int / elem_size;
    if candidate > maxcap {
        maxcap
    } else {
        candidate
    }
}

/// Reservation is idempotent. After one successful
/// `try_reserve(used, additional)` the capacity is at least
/// `used + additional`, and for any such buffer the same request is already
/// satisfied — on which inputs the contract of [`RawVec::try_reserve`]
/// forces the second call to succeed without touching the buffer, its block
/// or its allocator.
pub proof fn lemma_reserve_idempotent<A: AllocRef>(v: RawVec<A>, used: usize, additional: usize)
    requires
        v.cap_elems() >= used + additional,
    ensures
        v.cap_elems() - used >= additional,
{
}

/// A byte range wholly inside a prefix reads the same from the prefix as
/// from the full sequence.
proof fn lemma_chunk_of_take(s: Seq<u8>, bound: int, lo: int, hi: int)
    requires
        0 <= lo <= hi <= bound <= s.len(),
    ensures
        s.take(bound).subrange(lo, hi) == s.subrange(lo, hi),
{
    assert(s.take(bound).subrange(lo, hi) =~= s.subrange(lo, hi));
}

/// Shrinking preserves the kept elements. When a buffer's contents become
/// the first `used` elements' bytes of what they were — as the contract of
/// [`RawVec::try_shrink_to_fit`] ensures on success — every element below
/// `used` reads back byte-identical to what it was before the shrink.
pub proof fn lemma_shrink_preserves_elements<A: AllocRef>(
    pre: RawVec<A>,
    post: RawVec<A>,
    used: usize,
    i: usize,
)
    requires
        pre.wf(),
        post.elem_spec() == pre.elem_spec(),
        post.contents() == pre.contents().take(used * pre.elem_size()),
        i < used,
        used <= pre.cap_elems(),
    ensures
        post.elem_at(i as int) == pre.elem_at(i as int),
{
    let size = pre.elem_size();
    pre.lemma_contents_len();
    if size == 0 {
        assert(used as int * size == 0 && i as int * size == 0 && (i as int + 1) * size == 0)
            by (nonlinear_arith)
            requires
                size == 0,
        ;
        assert(post.elem_at(i as int) =~= pre.elem_at(i as int));
    } else {
        lemma_mul_inequality(i as int + 1, used as int, size);
        lemma_mul_inequality(used as int, pre.cap_raw(), size);
        assert((i as int + 1) * size == i as int * size + size) by (nonlinear_arith);
        assert(i as int * size >= 0) by (nonlinear_arith)
            requires
                i >= 0,
                size >= 0,
        ;
        lemma_chunk_of_take(
            pre.contents(),
            used as int * size,
            i as int * size,
            (i as int + 1) * size,
        );
    }
}

/// Converting into a fixed region preserves the kept elements. When the
/// region's contents are the first `used` elements' bytes of the buffer —
/// as the contract of [`RawVec::try_into_box`] ensures on success — every
/// element below `used` reads back byte-identical to the buffer's.
pub proof fn lemma_into_box_preserves_elements<A: AllocRef>(
    pre: RawVec<A>,
    s: OwnedSlice<A>,
    used: usize,
    i: usize,
)
    requires
        pre.wf(),
        s.elem_spec() == pre.elem_spec(),
        s.contents() == pre.contents().take(used * pre.elem_size()),
        i < used,
        used <= pre.cap_elems(),
    ensures
        s.elem_at(i as int) == pre.elem_at(i as int),
{
    let size = pre.elem_size();
    pre.lemma_contents_len();
    if size == 0 {
        assert(used as int * size == 0 && i as int * size == 0 && (i as int + 1) * size == 0)
            by (nonlinear_arith)
            requires
                size == 0,
        ;
        assert(s.elem_at(i as int) =~= pre.elem_at(i as int));
    } else {
        lemma_mul_inequality(i as int + 1, used as int, size);
        lemma_mul_inequality(used as int, pre.cap_raw(), size);
        assert((i as int + 1) * size == i as int * size + size) by (nonlinear_arith);
        assert(i as int * size >= 0) by (nonlinear_arith)
            requires
                i >= 0,
                size >= 0,
        ;
        lemma_chunk_of_take(
            pre.contents(),
            used as int * size,
            i as int * size,
            (i as int + 1) * size,
        );
    }
}

/// Exceeding the per-element capacity limit is the same as exceeding the
/// byte limit.
proof fn lemma_cap_div_bound(required: int, size: int, m: int)
    requires
        size >= 1,
        required >= 0,
        m >= 0,
    ensures
        (required > m / size) <==> (required * size > m),
{
    lemma_fundamental_div_mod(m, size);
    vstd::arithmetic::div_mod::lemma_mod_bound(m, size);
    let q = m / size;
    let rem = m % size;
    if required > q {
        assert(required * size > m) by (nonlinear_arith)
            requires
                m == size * q + rem,
                rem < size,
                required >= q + 1,
                size >= 1,
        ;
    } else {
        assert(required * size <= m) by (nonlinear_arith)
            requires
                m == size * q + rem,
                0 <= rem,
                0 <= required <= q,
                size >= 1,
        ;
    }
}

/// Twice the maximum signed size, plus one, is the maximum unsigned size.
proof fn lemma_double_isize_max()
    ensures
        2 * (isize::MAX as int) + 1 == usize::MAX as int,
{
    broadcast use vstd::layout::layout_of_primitives;

    vstd::layout::signed_int_min_max_values();
    vstd::layout::unsigned_int_max_values();
}

/// A raw buffer of homogeneous elements: a pointer-and-capacity pair plus
/// the allocator instance that backs it. The element shape is fixed at
/// construction; the capacity is counted in elements.
///
/// Zero-sized elements never allocate: the capacity is reported as the
/// maximum representable count and all operations are pure bookkeeping.
#[derive(Debug)]
pub struct RawVec<A: AllocRef> {
    elem: Layout,
    cap: usize,
    block: Option<Block>,
    a: A,
}

impl<A: AllocRef> RawVec<A> {
    /// The layout of a single element.
    pub closed spec fn elem_spec(&self) -> Layout {
        self.elem
    }

    /// The byte size of a single element.
    pub open spec fn elem_size(&self) -> int {
        self.elem_spec().size_spec()
    }

    /// The alignment of the elements.
    pub open spec fn elem_align(&self) -> int {
        self.elem_spec().align_spec()
    }

    /// The stored capacity, in elements (zero for zero-sized elements).
    pub closed spec fn cap_raw(&self) -> int {
        self.cap as int
    }

    /// The capacity this buffer reports: unbounded for zero-sized elements,
    /// the stored element count otherwise.
    pub open spec fn cap_elems(&self) -> int {
        if self.elem_size() == 0 {
            usize::MAX as int
        } else {
            self.cap_raw()
        }
    }

    /// The allocator instance backing this buffer.
    pub closed spec fn allocator_spec(&self) -> A {
        self.a
    }

    /// The block currently backing this buffer, if any.
    pub closed spec fn block_spec(&self) -> Option<Block> {
        self.block
    }

    /// The bytes of the buffer's region, capacity × element size of them.
    pub closed spec fn contents(&self) -> Seq<u8> {
        match self.block {
            Some(b) => b.bytes_spec().take(self.cap as int * self.elem_spec().size_spec()),
            None => Seq::empty(),
        }
    }

    /// The bytes of the element slot at index `i`.
    pub open spec fn elem_at(&self, i: int) -> Seq<u8> {
        self.contents().subrange(i * self.elem_size(), (i + 1) * self.elem_size())
    }

    /// The buffer's invariant: the element layout is valid with a size that
    /// is a multiple of its alignment; the byte size of the region stays
    /// addressable; a block is present exactly when the capacity is nonzero
    /// (zero-sized elements never have one); and the block is aligned and
    /// large enough for the capacity.
    pub closed spec fn wf(&self) -> bool {
        let size = self.elem.size_spec();
        let align = self.elem.align_spec();
        &&& layout_valid(size, align)
        &&& size % align == 0
        &&& self.a.wf()
        &&& if size == 0 {
            self.cap == 0 && self.block is None
        } else {
            &&& self.cap as int * size <= isize::MAX as int
            &&& match self.block {
                None => self.cap == 0,
                Some(b) => {
                    &&& b.wf()
                    &&& self.cap > 0
                    &&& b.size_spec() >= self.cap as int * size
                    &&& b.aligned_to(align)
                },
            }
        }
    }

    /// The length of the contents is capacity × element size for every
    /// well-formed buffer.
    pub proof fn lemma_contents_len(&self)
        requires
            self.wf(),
        ensures
            self.contents().len() == (if self.elem_size() == 0 {
                0
            } else {
                self.cap_raw() * self.elem_size()
            }),
            self.cap_raw() * self.elem_size() <= isize::MAX as int,
            self.cap_raw() >= 0,
    {
        if self.elem_size() != 0 {
            match self.block {
                Some(b) => {},
                None => {
                    assert(self.cap as int * self.elem_size() == 0) by (nonlinear_arith)
                        requires
                            self.cap as int == 0,
                    ;
                },
            }
        } else {
            assert(self.cap as int * self.elem_size() == 0) by (nonlinear_arith)
                requires
                    self.elem_size() == 0,
            ;
        }
    }

    /// Creates the empty buffer: no allocation happens until the first
    /// reservation. The element layout's size must be a multiple of its
    /// alignment, as the size of a Rust type always is.
    pub fn new_in(elem: Layout, a: A) -> (v: RawVec<A>)
        requires
            a.wf(),
            elem.size_spec() % elem.align_spec() == 0,
        ensures
            v.wf(),
            v.elem_spec() == elem,
            v.allocator_spec() == a,
            v.cap_elems() == (if elem.size_spec() == 0 {
                usize::MAX as int
            } else {
                0
            }),
            v.contents() == Seq::<u8>::empty(),
    {
        proof {
            use_type_invariant(&elem);
        }
        RawVec { elem, cap: 0, block: None, a }
    }

    /// The capacity of the buffer, in elements.
    pub fn cap(&self) -> (r: usize)
        requires
            self.wf(),
        ensures
            r == self.cap_elems(),
    {
        if self.elem.size() == 0 {
            usize::MAX
        } else {
            self.cap
        }
    }

    /// The layout of a single element.
    pub fn elem_layout(&self) -> (r: Layout)
        ensures
            r == self.elem_spec(),
    {
        self.elem
    }

    /// A reference to the allocator instance backing this buffer.
    pub fn allocator(&self) -> (r: &A)
        ensures
            *r == self.allocator_spec(),
    {
        &self.a
    }

    /// The address of the buffer's region. For a buffer that has not
    /// allocated, this is a well-defined, non-null, non-dereferenceable
    /// sentinel: the element alignment.
    pub fn addr(&self) -> (r: usize)
        requires
            self.wf(),
        ensures
            r != 0,
            self.block_spec() matches Some(b) ==> r == b.addr_spec(),
    {
        match &self.block {
            Some(b) => b.addr(),
            None => {
                proof {
                    crate::layout::lemma_pow2_pos(self.elem.align_spec());
                }
                self.elem.align()
            },
        }
    }

    /// Grows the stored capacity to exactly `new_cap` elements, reallocating
    /// the block (or allocating the first one). On failure the block and
    /// capacity are untouched; the overflow error comes exactly when the new
    /// byte size would not be addressable.
    fn grow_exact(&mut self, new_cap: usize) -> (r: Result<(), TryReserveError>)
        requires
            old(self).wf(),
            old(self).elem_size() > 0,
            new_cap > old(self).cap_raw(),
        ensures
            final(self).wf(),
            final(self).elem_spec() == old(self).elem_spec(),
            final(self).allocator_spec().wf(),
            r is Ok ==> (final(self).cap_raw() == new_cap && final(self).contents().take(
                old(self).contents().len() as int,
            ) == old(self).contents() && final(self).contents().len() == new_cap as int * old(self).elem_size()),
            r is Err ==> (final(self).cap_raw() == old(self).cap_raw() && final(self).block_spec()
                == old(self).block_spec() && final(self).contents() == old(self).contents()),
            (r matches Err(e) && e is CapacityOverflow) <==> new_cap as int * old(self).elem_size()
                > isize::MAX as int,
            r matches Err(e) ==> (e matches TryReserveError::AllocError { layout } ==> (
            layout.size_spec() == new_cap as int * old(self).elem_size() && layout.align_spec()
                == old(self).elem_align())),
    {
        proof {
            self.lemma_contents_len();
        }
        let size = self.elem.size();
        let ghost old_cap = self.cap as int;
        proof {
            assert(self.elem.stride() == size as int);
            assert(self.elem.stride() * new_cap as int == new_cap as int * size as int)
                by (nonlinear_arith)
                requires
                    self.elem.stride() == size as int,
            ;
            assert(self.elem.stride() * old_cap == old_cap * size as int) by (nonlinear_arith)
                requires
                    self.elem.stride() == size as int,
            ;
        }
        let new_layout = match self.elem.array(new_cap) {
            Ok(l) => l,
            Err(_) => {
                return Err(TryReserveError::CapacityOverflow);
            },
        };
        proof {
            lemma_mul_inequality(1, new_cap as int, size as int);
            lemma_mul_inequality(old_cap, new_cap as int, size as int);
        }
        let ghost old_contents = self.contents();
        let b_opt = self.block.take();
        match b_opt {
            None => {
                match self.a.allocate(new_layout) {
                    Ok(b) => {
                        self.block = Some(b);
                        self.cap = new_cap;
                        proof {
                            assert(self.contents().take(old_contents.len() as int)
                                =~= old_contents);
                        }
                        Ok(())
                    },
                    Err(_) => {
                        self.block = None;
                        Err(TryReserveError::AllocError { layout: new_layout })
                    },
                }
            },
            Some(b) => {
                let old_layout = self.elem.array(self.cap).unwrap();
                match self.a.reallocate(b, old_layout, new_layout.size()) {
                    Ok(nb) => {
                        self.block = Some(nb);
                        self.cap = new_cap;
                        proof {
                            assert forall|i: int| 0 <= i < old_contents.len() implies self
                                .contents()[i] == old_contents[i] by {
                                assert(self.contents()[i] == nb.bytes_spec()[i]);
                                assert(old_contents[i] == b.bytes_spec()[i]);
                            }
                            assert(self.contents().take(old_contents.len() as int)
                                =~= old_contents);
                        }
                        Ok(())
                    },
                    Err(p) => {
                        self.block = Some(p.0);
                        proof {
                            assert(self.contents() =~= old_contents);
                        }
                        Err(TryReserveError::AllocError { layout: new_layout })
                    },
                }
            },
        }
    }

    /// The shared body of the reservation entry points: ensure room for
    /// `used + additional` elements, growing either exactly to that count or
    /// with doubling headroom.
    fn reserve_internal(&mut self, used: usize, additional: usize, exact: bool) -> (r: Result<
        (),
        TryReserveError,
    >)
        requires
            old(self).wf(),
            used <= old(self).cap_elems(),
        ensures
            final(self).wf(),
            final(self).elem_spec() == old(self).elem_spec(),
            old(self).cap_elems() - used >= additional ==> (r is Ok && *final(self) == *old(self)),
            r is Ok ==> final(self).cap_elems() >= used + additional,
            r is Ok ==> final(self).contents().take(old(self).contents().len() as int) == old(self).contents(),
            r is Err ==> (final(self).cap_elems() == old(self).cap_elems() && final(self).block_spec() == old(self).block_spec() && final(self).contents() == old(self).contents()),
            (r matches Err(e) && e is CapacityOverflow) <==> (old(self).cap_elems() - used
                < additional && reserve_overflows(
                old(self).elem_size(),
                used as int,
                additional as int,
            )),
            (exact && r is Ok && old(self).cap_elems() - used < additional) ==> final(self).cap_raw() == used + additional,
            (!exact && r is Ok && old(self).cap_elems() - used < additional) ==> final(self).cap_raw() == amortized_target(
                old(self).elem_size(),
                old(self).cap_raw(),
                used + additional,
            ),
    {
        let c = self.cap();
        if additional <= c - used {
            return Ok(());
        }
        let required = match used.checked_add(additional) {
            Some(rc) => rc,
            None => {
                proof {
                    if self.elem_size() > 0 {
                        assert((used + additional) * self.elem_size() > isize::MAX as int)
                            by (nonlinear_arith)
                            requires
                                used + additional > usize::MAX as int,
                                usize::MAX as int >= isize::MAX as int,
                                self.elem_size() >= 1,
                        ;
                    }
                }
                return Err(TryReserveError::CapacityOverflow);
            },
        };
        proof {
            assert(self.elem_size() > 0);
        }
        let size = self.elem.size();
        let maxcap = (isize::MAX as usize) / size;
        proof {
            lemma_cap_div_bound(required as int, size as int, isize::MAX as int);
        }
        if required > maxcap {
            return Err(TryReserveError::CapacityOverflow);
        }
        let new_cap = if exact {
            required
        } else {
            proof {
                assert(self.cap as int <= isize::MAX as int) by (nonlinear_arith)
                    requires
                        self.cap as int * size as int <= isize::MAX as int,
                        size as int >= 1,
                        self.cap as int >= 0,
                ;
                lemma_double_isize_max();
            }
            let doubled = self.cap * 2;
            let candidate = if doubled > required {
                doubled
            } else {
                required
            };
            if candidate > maxcap {
                maxcap
            } else {
                candidate
            }
        };
        proof {
            lemma_cap_div_bound(new_cap as int, size as int, isize::MAX as int);
        }
        self.grow_exact(new_cap)
    }

    /// Ensures the buffer has room for at least `used + additional`
    /// elements. If the capacity is already sufficient this is a no-op — the
    /// buffer, block and allocator are untouched, which makes repeated calls
    /// with the same arguments idempotent. Otherwise the buffer grows to at
    /// least `max(used + additional, capacity × 2)`, clamped so the new
    /// capacity never exceeds the addressable maximum and never falls below
    /// the request.
    ///
    /// On failure the buffer's block and capacity are exactly as they were:
    /// `CapacityOverflow` comes precisely when `used + additional` elements
    /// can never fit, and an allocator failure reports the layout that was
    /// requested.
    pub fn try_reserve(&mut self, used: usize, additional: usize) -> (r: Result<
        (),
        TryReserveError,
    >)
        requires
            old(self).wf(),
            used <= old(self).cap_elems(),
        ensures
            final(self).wf(),
            final(self).elem_spec() == old(self).elem_spec(),
            old(self).cap_elems() - used >= additional ==> (r is Ok && *final(self) == *old(self)),
            r is Ok ==> final(self).cap_elems() >= used + additional,
            r is Ok ==> final(self).contents().take(old(self).contents().len() as int) == old(self).contents(),
            r is Err ==> (final(self).cap_elems() == old(self).cap_elems() && final(self).block_spec() == old(self).block_spec() && final(self).contents() == old(self).contents()),
            (r matches Err(e) && e is CapacityOverflow) <==> (old(self).cap_elems() - used
                < additional && reserve_overflows(
                old(self).elem_size(),
                used as int,
                additional as int,
            )),
            (r is Ok && old(self).cap_elems() - used < additional) ==> final(self).cap_raw()
                == amortized_target(
                old(self).elem_size(),
                old(self).cap_raw(),
                used + additional,
            ),
    {
        self.reserve_internal(used, additional, false)
    }

    /// Like [`RawVec::try_reserve`], but when growth is needed the buffer
    /// grows to exactly `used + additional` elements, with no doubling
    /// headroom — for callers that know the final size and want to avoid
    /// over-allocation.
    pub fn try_reserve_exact(&mut self, used: usize, additional: usize) -> (r: Result<
        (),
        TryReserveError,
    >)
        requires
            old(self).wf(),
            used <= old(self).cap_elems(),
        ensures
            final(self).wf(),
            final(self).elem_spec() == old(self).elem_spec(),
            old(self).cap_elems() - used >= additional ==> (r is Ok && *final(self) == *old(self)),
            r is Ok ==> final(self).cap_elems() >= used + additional,
            (r is Ok && old(self).cap_elems() - used < additional) ==> final(self).cap_raw() == used
                + additional,
            r is Ok ==> final(self).contents().take(old(self).contents().len() as int) == old(self).contents(),
            r is Err ==> (final(self).cap_elems() == old(self).cap_elems() && final(self).block_spec() == old(self).block_spec() && final(self).contents() == old(self).contents()),
            (r matches Err(e) && e is CapacityOverflow) <==> (old(self).cap_elems() - used
                < additional && reserve_overflows(
                old(self).elem_size(),
                used as int,
                additional as int,
            )),
    {
        self.reserve_internal(used, additional, true)
    }

    /// Eagerly reserves room for exactly `n` elements in a fresh buffer
    /// backed by `a`. Zero-sized elements (and a request for zero elements)
    /// never touch the allocator. `CapacityOverflow` comes precisely when
    /// `n` elements can never fit; an allocator failure reports the layout
    /// that was requested.
    pub fn try_with_capacity_in(elem: Layout, n: usize, a: A) -> (r: Result<
        RawVec<A>,
        TryReserveError,
    >)
        requires
            a.wf(),
            elem.size_spec() % elem.align_spec() == 0,
        ensures
            r matches Ok(v) ==> (v.wf() && v.elem_spec() == elem && v.cap_elems() == (
            if elem.size_spec() == 0 {
                usize::MAX as int
            } else {
                n as int
            }) && v.cap_elems() >= n),
            elem.size_spec() == 0 ==> (r matches Ok(v) && v.allocator_spec() == a),
            n == 0 ==> (r matches Ok(v) && v.allocator_spec() == a),
            (r matches Err(e) && e is CapacityOverflow) <==> (elem.size_spec() > 0 && n as int
                * elem.size_spec() > isize::MAX as int),
            r matches Err(e) ==> (e matches TryReserveError::AllocError { layout } ==> (
            layout.size_spec() == n as int * elem.size_spec() && layout.align_spec()
                == elem.align_spec())),
    {
        let mut v = RawVec::new_in(elem, a);
        if elem.size() == 0 || n == 0 {
            proof {
                if elem.size_spec() > 0 {
                    assert(n as int * elem.size_spec() == 0) by (nonlinear_arith)
                        requires
                            n as int == 0,
                    ;
                }
            }
            return Ok(v);
        }
        match v.grow_exact(n) {
            Ok(()) => Ok(v),
            Err(e) => Err(e),
        }
    }

    /// Unconditionally grows the buffer: a just-created empty buffer jumps
    /// to a small non-zero starting capacity, and any other buffer doubles.
    /// On success the capacity is strictly greater than before; a buffer
    /// that can grow no further — zero-sized elements are always at the
    /// maximum — fails with `CapacityOverflow` instead, and any failure
    /// leaves the buffer untouched.
    pub fn try_double(&mut self) -> (r: Result<(), TryReserveError>)
        requires
            old(self).wf(),
        ensures
            final(self).wf(),
            final(self).elem_spec() == old(self).elem_spec(),
            r is Ok ==> final(self).cap_elems() > old(self).cap_elems(),
            r is Ok ==> final(self).cap_raw() == double_target(
                old(self).elem_size(),
                old(self).cap_raw(),
            ),
            r is Ok ==> final(self).contents().take(old(self).contents().len() as int) == old(self).contents(),
            r is Err ==> (final(self).cap_elems() == old(self).cap_elems() && final(self).block_spec() == old(self).block_spec() && final(self).contents() == old(self).contents()),
            (r matches Err(e) && e is CapacityOverflow) <==> (old(self).elem_size() == 0
                || double_target(old(self).elem_size(), old(self).cap_raw()) * old(self).elem_size()
                > isize::MAX as int),
    {
        if self.elem.size() == 0 {
            return Err(TryReserveError::CapacityOverflow);
        }
        let target: usize = if self.cap == 0 {
            if self.elem.size() > usize::MAX / 8 {
                1
            } else {
                4
            }
        } else {
            proof {
                assert(self.cap as int <= isize::MAX as int) by (nonlinear_arith)
                    requires
                        self.cap as int * self.elem_size() <= isize::MAX as int,
                        self.elem_size() >= 1,
                        self.cap as int >= 0,
                ;
                lemma_double_isize_max();
            }
            self.cap * 2
        };
        self.grow_exact(target)
    }

    /// Shrinks the buffer to exactly `used` elements, a no-op when the
    /// capacity already is `used` (and pure bookkeeping for zero-sized
    /// elements). The first `used` elements' bytes are preserved exactly.
    /// Shrinking cannot overflow; the only possible failure is the
    /// allocator's, and it leaves the buffer untouched.
    pub fn try_shrink_to_fit(&mut self, used: usize) -> (r: Result<(), TryReserveError>)
        requires
            old(self).wf(),
            used <= old(self).cap_elems(),
        ensures
            final(self).wf(),
            final(self).elem_spec() == old(self).elem_spec(),
            r is Ok ==> final(self).cap_elems() == (if old(self).elem_size() == 0 {
                usize::MAX as int
            } else {
                used as int
            }),
            r is Ok ==> final(self).contents() == old(self).contents().take(
                used * old(self).elem_size(),
            ),
            (old(self).elem_size() == 0 || used == old(self).cap_raw() || used == 0) ==> r is Ok,
            r is Err ==> (final(self).cap_elems() == old(self).cap_elems() && final(self).block_spec() == old(self).block_spec() && final(self).contents() == old(self).contents()),
            r matches Err(e) ==> e is AllocError,
    {
        proof {
            self.lemma_contents_len();
        }
        if self.elem.size() == 0 {
            proof {
                assert(used * self.elem_size() == 0) by (nonlinear_arith)
                    requires
                        self.elem_size() == 0,
                ;
                assert(self.contents().take(0) =~= self.contents());
            }
            return Ok(());
        }
        if used == self.cap {
            proof {
                assert(self.contents().take(self.contents().len() as int) =~= self.contents());
            }
            return Ok(());
        }
        let size = self.elem.size();
        let ghost old_cap = self.cap as int;
        proof {
            assert(self.elem.stride() == size as int);
            assert(self.elem.stride() * old_cap == old_cap * size as int) by (nonlinear_arith)
                requires
                    self.elem.stride() == size as int,
            ;
            assert(self.elem.stride() * used as int == used as int * size as int)
                by (nonlinear_arith)
                requires
                    self.elem.stride() == size as int,
            ;
            lemma_mul_inequality(used as int, old_cap, size as int);
        }
        let old_layout = self.elem.array(self.cap).unwrap();
        let ghost old_contents = self.contents();
        if used == 0 {
            let b = self.block.take().unwrap();
            self.cap = 0;
            self.a.deallocate(b, old_layout);
            proof {
                assert(self.contents() =~= old_contents.take(0));
            }
            return Ok(());
        }
        let new_layout = self.elem.array(used).unwrap();
        let b = self.block.take().unwrap();
        match self.a.reallocate(b, old_layout, new_layout.size()) {
            Ok(nb) => {
                self.block = Some(nb);
                self.cap = used;
                proof {
                    assert forall|j: int|
                        0 <= j < used as int * size as int implies self.contents()[j]
                        == old_contents[j] by {
                        assert(self.contents()[j] == nb.bytes_spec()[j]);
                        assert(old_contents[j] == b.bytes_spec()[j]);
                    }
                    assert(self.contents() =~= old_contents.take(used as int * size as int));
                }
                Ok(())
            },
            Err(p) => {
                self.block = Some(p.0);
                proof {
                    assert(self.contents() =~= old_contents);
                }
                Err(TryReserveError::AllocError { layout: new_layout })
            },
        }
    }

    /// Writes the bytes of the element at index `i`: `data` must be exactly
    /// one element's bytes. Every byte outside that element's slot is
    /// unchanged, and so is the buffer's shape.
    pub fn write_elem(&mut self, i: usize, data: &[u8])
        requires
            old(self).wf(),
            i < old(self).cap_elems(),
            data@.len() == old(self).elem_size(),
        ensures
            final(self).wf(),
            final(self).elem_spec() == old(self).elem_spec(),
            final(self).cap_elems() == old(self).cap_elems(),
            final(self).allocator_spec() == old(self).allocator_spec(),
            final(self).contents().len() == old(self).contents().len(),
            final(self).elem_at(i as int) == data@,
            forall|j: int|
                0 <= j < old(self).contents().len() && !(i as int * old(self).elem_size() <= j < (
                i + 1) as int * old(self).elem_size()) ==> final(self).contents()[j] == old(self).contents()[j],
    {
        proof {
            self.lemma_contents_len();
        }
        if self.elem.size() == 0 {
            proof {
                assert(self.elem_at(i as int) =~= data@);
            }
            return ;
        }
        let size = self.elem.size();
        proof {
            lemma_mul_inequality(i as int + 1, self.cap as int, size as int);
            assert((i as int + 1) * size as int == i as int * size as int + size as int)
                by (nonlinear_arith);
            assert(i as int * size as int >= 0) by (nonlinear_arith)
                requires
                    i >= 0,
                    size as int >= 0,
            ;
        }
        let off = i * size;
        match &mut self.block {
            Some(b) => {
                b.write_at(off, data);
            },
            None => vstd::pervasive::unreached(),
        }
        proof {
            assert(self.elem_at(i as int) =~= data@);
        }
    }

    /// Reads a copy of the bytes of the element at index `i`.
    pub fn read_elem(&self, i: usize) -> (r: Vec<u8>)
        requires
            self.wf(),
            i < self.cap_elems(),
        ensures
            r@ == self.elem_at(i as int),
    {
        proof {
            self.lemma_contents_len();
        }
        if self.elem.size() == 0 {
            let r: Vec<u8> = Vec::new();
            proof {
                assert(r@ =~= self.elem_at(i as int));
            }
            return r;
        }
        let size = self.elem.size();
        proof {
            lemma_mul_inequality(i as int + 1, self.cap as int, size as int);
            assert((i as int + 1) * size as int == i as int * size as int + size as int)
                by (nonlinear_arith);
            assert(i as int * size as int >= 0) by (nonlinear_arith)
                requires
                    i >= 0,
                    size as int >= 0,
            ;
        }
        let off = i * size;
        match &self.block {
            Some(b) => {
                let r = b.read_range(off, off + size);
                proof {
                    assert(r@ =~= self.elem_at(i as int));
                }
                r
            },
            None => vstd::pervasive::unreached(),
        }
    }

    /// Converts the buffer into a fixed-capacity owned region of exactly
    /// `used` elements, shrinking first when `used` is below the capacity.
    /// Ownership of the block and the allocator transfers to the result; the
    /// buffer is consumed and cannot be used afterwards. If the shrink
    /// fails, the unchanged buffer is handed back inside the error.
    pub fn try_into_box(self, used: usize) -> (r: Result<
        OwnedSlice<A>,
        (RawVec<A>, TryReserveError),
    >)
        requires
            self.wf(),
            used <= self.cap_elems(),
        ensures
            r matches Ok(s) ==> (s.wf() && s.elem_spec() == self.elem_spec() && s.len_spec() == used
                && s.contents() == self.contents().take(used * self.elem_size())
                && s.allocator_spec().wf()),
            r matches Err(p) ==> (p.0.wf() && p.0.elem_spec() == self.elem_spec()
                && p.0.cap_elems() == self.cap_elems() && p.0.block_spec() == self.block_spec()
                && p.0.contents() == self.contents() && p.1 is AllocError),
            (self.elem_size() == 0 || used == self.cap_elems() || used == 0) ==> r is Ok,
    {
        let mut v = self;
        match v.try_shrink_to_fit(used) {
            Ok(()) => {
                let RawVec { elem, cap, block, a } = v;
                Ok(OwnedSlice { elem, len: used, block, a })
            },
            Err(e) => Err((v, e)),
        }
    }
}

/// A fixed-capacity owned region of exactly `len` elements, produced from a
/// [`RawVec`] by [`RawVec::try_into_box`]. It owns the block and the
/// allocator; it can be read, turned back into a buffer, or freed.
pub struct OwnedSlice<A: AllocRef> {
    elem: Layout,
    len: usize,
    block: Option<Block>,
    a: A,
}

impl<A: AllocRef> OwnedSlice<A> {
    /// The layout of a single element.
    pub closed spec fn elem_spec(&self) -> Layout {
        self.elem
    }

    /// The byte size of a single element.
    pub open spec fn elem_size(&self) -> int {
        self.elem_spec().size_spec()
    }

    /// The number of elements of the region.
    pub closed spec fn len_spec(&self) -> int {
        self.len as int
    }

    /// The allocator instance owning the region.
    pub closed spec fn allocator_spec(&self) -> A {
        self.a
    }

    /// The block backing the region, if any.
    pub closed spec fn block_spec(&self) -> Option<Block> {
        self.block
    }

    /// The bytes of the region, length × element size of them.
    pub closed spec fn contents(&self) -> Seq<u8> {
        match self.block {
            Some(b) => b.bytes_spec().take(self.len as int * self.elem_spec().size_spec()),
            None => Seq::empty(),
        }
    }

    /// The bytes of the element at index `i`.
    pub open spec fn elem_at(&self, i: int) -> Seq<u8> {
        self.contents().subrange(i * self.elem_size(), (i + 1) * self.elem_size())
    }

    /// The region's invariant, mirroring the buffer's: for zero-sized
    /// elements there is no block and the length is mere bookkeeping;
    /// otherwise the block is present exactly when the length is nonzero,
    /// aligned, and large enough.
    pub closed spec fn wf(&self) -> bool {
        let size = self.elem.size_spec();
        let align = self.elem.align_spec();
        &&& layout_valid(size, align)
        &&& size % align == 0
        &&& self.a.wf()
        &&& if size == 0 {
            self.block is None
        } else {
            &&& self.len as int * size <= isize::MAX as int
            &&& match self.block {
                None => self.len == 0,
                Some(b) => {
                    &&& b.wf()
                    &&& self.len > 0
                    &&& b.size_spec() >= self.len as int * size
                    &&& b.aligned_to(align)
                },
            }
        }
    }

    /// The number of elements of the region.
    pub fn len(&self) -> (r: usize)
        ensures
            r == self.len_spec(),
    {
        self.len
    }

    /// The layout of a single element.
    pub fn elem_layout(&self) -> (r: Layout)
        ensures
            r == self.elem_spec(),
    {
        self.elem
    }

    /// A reference to the allocator instance owning the region.
    pub fn allocator(&self) -> (r: &A)
        ensures
            *r == self.allocator_spec(),
    {
        &self.a
    }

    /// Reads a copy of the bytes of the element at index `i`.
    pub fn read_elem(&self, i: usize) -> (r: Vec<u8>)
        requires
            self.wf(),
            i < self.len_spec(),
        ensures
            r@ == self.elem_at(i as int),
    {
        if self.elem.size() == 0 {
            let r: Vec<u8> = Vec::new();
            proof {
                assert(i as int * self.elem_size() == 0) by (nonlinear_arith)
                    requires
                        self.elem_size() == 0,
                ;
                assert((i + 1) as int * self.elem_size() == 0) by (nonlinear_arith)
                    requires
                        self.elem_size() == 0,
                ;
                assert(r@ =~= self.elem_at(i as int));
            }
            return r;
        }
        let size = self.elem.size();
        proof {
            lemma_mul_inequality(i as int + 1, self.len as int, size as int);
            assert((i as int + 1) * size as int == i as int * size as int + size as int)
                by (nonlinear_arith);
            assert(i as int * size as int >= 0) by (nonlinear_arith)
                requires
                    i >= 0,
                    size as int >= 0,
            ;
        }
        let off = i * size;
        match &self.block {
            Some(b) => {
                let r = b.read_range(off, off + size);
                proof {
                    assert(r@ =~= self.elem_at(i as int));
                }
                r
            },
            None => vstd::pervasive::unreached(),
        }
    }

    /// Writes the bytes of the element at index `i`: `data` must be exactly
    /// one element's bytes. Every byte outside that element's slot is
    /// unchanged, and so is the region's shape.
    pub fn write_elem(&mut self, i: usize, data: &[u8])
        requires
            old(self).wf(),
            i < old(self).len_spec(),
            data@.len() == old(self).elem_size(),
        ensures
            final(self).wf(),
            final(self).elem_spec() == old(self).elem_spec(),
            final(self).len_spec() == old(self).len_spec(),
            final(self).allocator_spec() == old(self).allocator_spec(),
            final(self).contents().len() == old(self).contents().len(),
            final(self).elem_at(i as int) == data@,
            forall|j: int|
                0 <= j < old(self).contents().len() && !(i as int * old(self).elem_size() <= j < (
                i + 1) as int * old(self).elem_size()) ==> final(self).contents()[j] == old(
                    self,
                ).contents()[j],
    {
        if self.elem.size() == 0 {
            proof {
                assert(i as int * self.elem_size() == 0 && (i + 1) as int * self.elem_size() == 0)
                    by (nonlinear_arith)
                    requires
                        self.elem_size() == 0,
                ;
                assert(self.elem_at(i as int) =~= data@);
            }
            return ;
        }
        let size = self.elem.size();
        proof {
            lemma_mul_inequality(i as int + 1, self.len as int, size as int);
            assert((i as int + 1) * size as int == i as int * size as int + size as int)
                by (nonlinear_arith);
            assert(i as int * size as int >= 0) by (nonlinear_arith)
                requires
                    i >= 0,
                    size as int >= 0,
            ;
        }
        let off = i * size;
        match &mut self.block {
            Some(b) => {
                b.write_at(off, data);
            },
            None => vstd::pervasive::unreached(),
        }
        proof {
            assert(self.elem_at(i as int) =~= data@);
        }
    }

    /// Turns the region back into a raw buffer whose capacity is exactly
    /// the region's length, transferring the block and the allocator.
    pub fn into_raw_vec(self) -> (v: RawVec<A>)
        requires
            self.wf(),
        ensures
            v.wf(),
            v.elem_spec() == self.elem_spec(),
            v.allocator_spec() == self.allocator_spec(),
            v.cap_elems() == (if self.elem_size() == 0 {
                usize::MAX as int
            } else {
                self.len_spec()
            }),
            v.contents() == self.contents(),
    {
        let OwnedSlice { elem, len, block, a } = self;
        if elem.size() == 0 {
            RawVec { elem, cap: 0, block: None, a }
        } else {
            RawVec { elem, cap: len, block, a }
        }
    }

    /// Creates a new region with the same elements, byte for byte, backed
    /// by the allocator instance `a` — for a shared heap, a clone of this
    /// region's own handle. Overflow is impossible for a region that
    /// already exists, so the only possible failure is the allocator's.
    pub fn duplicate_in(&self, a: A) -> (r: Result<OwnedSlice<A>, TryReserveError>)
        requires
            self.wf(),
            a.wf(),
        ensures
            r matches Ok(s) ==> (s.wf() && s.elem_spec() == self.elem_spec() && s.len_spec()
                == self.len_spec() && s.contents() == self.contents()),
            r matches Err(e) ==> e is AllocError,
    {
        let size = self.elem.size();
        proof {
            if size > 0 {
                assert(self.len as int * size as int <= isize::MAX as int);
            }
        }
        let mut v = match RawVec::try_with_capacity_in(self.elem, self.len, a) {
            Ok(v) => v,
            Err(e) => {
                return Err(e);
            },
        };
        let n = self.len * size;
        match (&self.block, &mut v.block) {
            (Some(src), Some(dst)) => {
                dst.copy_prefix_from(src, n);
            },
            _ => {},
        }
        proof {
            assert(v.wf());
            assert(v.contents() =~= self.contents());
        }
        match v.try_into_box(self.len) {
            Ok(s) => {
                proof {
                    assert(s.contents() =~= self.contents());
                }
                Ok(s)
            },
            Err(_) => vstd::pervasive::unreached(),
        }
    }

    /// Releases the region: the block, if any, goes back to the allocator,
    /// and the allocator instance is handed back to the caller.
    pub fn free(self) -> (r: A)
        requires
            self.wf(),
        ensures
            r.wf(),
    {
        let OwnedSlice { elem, len, block, a } = self;
        let mut a = a;
        match block {
            None => a,
            Some(b) => {
                proof {
                    use_type_invariant(&elem);
                    assert(elem.stride() == elem.size_spec());
                    assert(elem.stride() * len as int == len as int * elem.size_spec())
                        by (nonlinear_arith)
                        requires
                            elem.stride() == elem.size_spec(),
                    ;
                }
                let layout = elem.array(len).unwrap();
                a.deallocate(b, layout);
                a
            },
        }
    }
}

} // verus!
