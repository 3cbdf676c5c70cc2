//! Memory layout descriptors: a `(size, align)` pair with the invariant that
//! `align` is a power of two and `size`, rounded up to a multiple of `align`,
//! stays within the maximum addressable byte count (`isize::MAX`).

use vstd::prelude::*;
use vstd::arithmetic::power2::is_pow2;
use vstd::arithmetic::div_mod::{
    lemma_fundamental_div_mod, lemma_div_is_ordered, lemma_mod_multiples_basic,
    lemma_mod_decreases,
};
use vstd::arithmetic::mul::lemma_mul_inequality;

verus! {

/// The error returned when a requested layout does not satisfy the layout
/// invariant: a non-power-of-two alignment, or a size whose rounded-up value
/// would exceed the maximum addressable byte count.
#[derive(Clone, Copy, PartialEq, Eq, Debug)]
pub struct LayoutErr;

/// Whether `(size, align)` satisfies the layout invariant: `align` is a power
/// of two and `size`, rounded up to the nearest multiple of `align`, does not
/// exceed `isize::MAX`.
pub open spec fn layout_valid(size: int, align: int) -> bool {
    &&& is_pow2(align)
    &&& 0 <= size <= isize::MAX as int - (isize::MAX as int % align)
}

/// A power of two is at least one.
pub proof fn lemma_pow2_pos(align: int)
    requires
        is_pow2(align),
    ensures
        align >= 1,
{
    reveal(is_pow2);
}

/// A smaller power of two always divides a larger one.
pub proof fn lemma_pow2_divides(a: int, b: int)
    requires
        is_pow2(a),
        is_pow2(b),
        a <= b,
    ensures
        b % a == 0,
{
    vstd::arithmetic::power2::is_pow2_equiv(a);
    vstd::arithmetic::power2::is_pow2_equiv(b);
    let i = choose|i: nat| vstd::arithmetic::power::pow(2, i) == a;
    let j = choose|j: nat| vstd::arithmetic::power::pow(2, j) == b;
    lemma_pow2_pos(a);
    lemma_pow2_pos(b);
    if j < i {
        vstd::arithmetic::power::lemma_pow_strictly_increases(2, j, i);
        assert(false);
    }
    vstd::arithmetic::power::lemma_pow_adds(2, (j - i) as nat, i);
    lemma_mod_multiples_basic(vstd::arithmetic::power::pow(2, (j - i) as nat) as int, a);
}

/// A multiple of the alignment that stays within `isize::MAX` satisfies the
/// layout invariant's size bound as it stands, with no room lost to rounding.
pub proof fn lemma_aligned_size_valid(bytes: int, align: int)
    requires
        is_pow2(align),
        bytes % align == 0,
        0 <= bytes <= isize::MAX as int,
    ensures
        layout_valid(bytes, align),
{
    let m = isize::MAX as int;
    lemma_pow2_pos(align);
    lemma_fundamental_div_mod(m, align);
    lemma_fundamental_div_mod(bytes, align);
    lemma_div_is_ordered(bytes, m, align);
    lemma_mul_inequality(bytes / align, m / align, align);
}

/// The number of padding bytes needed after `size` bytes so that the next
/// address is a multiple of `align` (assuming the block starts aligned).
pub open spec fn padding_for(size: int, align: int) -> int {
    if size % align == 0 {
        0
    } else {
        align - size % align
    }
}

/// Padding rounds a size up to the next multiple of the alignment: the padded
/// size is a multiple of `align` and the padding stays below `align`.
pub proof fn lemma_padding_mod(size: int, align: int)
    requires
        align >= 1,
        0 <= size,
    ensures
        (size + padding_for(size, align)) % align == 0,
        0 <= padding_for(size, align) < align,
{
    lemma_fundamental_div_mod(size, align);
    if size % align != 0 {
        let q = size / align;
        let p = padding_for(size, align);
        assert(size + p == (q + 1) * align) by (nonlinear_arith)
            requires
                size == align * q + size % align,
                p == align - size % align,
        ;
        lemma_mod_multiples_basic(q + 1, align);
    }
}

/// A memory layout descriptor: a byte size together with a power-of-two
/// alignment. Values of this type always satisfy [`layout_valid`]; the only
/// way to obtain one is through [`Layout::from_size_align`] or the derived
/// combinators, which validate their inputs.
#[derive(Clone, Copy, PartialEq, Eq, Debug)]
pub struct Layout {
    size: usize,
    align: usize,
}

impl Layout {
    /// The byte size this layout requests.
    pub closed spec fn size_spec(&self) -> int {
        self.size as int
    }

    /// The alignment this layout requests.
    pub closed spec fn align_spec(&self) -> int {
        self.align as int
    }

    #[verifier::type_invariant]
    pub open spec fn inv(&self) -> bool {
        layout_valid(self.size_spec(), self.align_spec())
    }

    /// Constructs a layout from a size and an alignment.
    ///
    /// Succeeds exactly when `align` is a power of two and `size`, rounded up
    /// to a multiple of `align`, does not exceed the maximum addressable byte
    /// count; the resulting layout reports `size` and `align` unchanged.
    /// Invalid requests fail with `LayoutErr` and are never silently clamped.
    pub fn from_size_align(size: usize, align: usize) -> (r: Result<Layout, LayoutErr>)
        ensures
            layout_valid(size as int, align as int) <==> (r matches Ok(l)
                && l.size_spec() == size && l.align_spec() == align),
            !layout_valid(size as int, align as int) <==> r is Err,
    {
        if !exec_is_pow2(align) {
            return Err(LayoutErr);
        }
        let m: usize = isize::MAX as usize;
        proof {
            lemma_pow2_pos(align as int);
            lemma_mod_decreases(m as nat, align as nat);
        }
        if size <= m - m % align {
            Ok(Layout { size, align })
        } else {
            Err(LayoutErr)
        }
    }

    /// The byte size this layout requests.
    pub fn size(&self) -> (r: usize)
        ensures
            r == self.size_spec(),
    {
        self.size
    }

    /// The alignment this layout requests.
    pub fn align(&self) -> (r: usize)
        ensures
            r == self.align_spec(),
    {
        self.align
    }

    /// The distance between the starts of consecutive array elements of this
    /// layout: the size rounded up to a multiple of the alignment.
    pub open spec fn stride(&self) -> int {
        self.size_spec() + padding_for(self.size_spec(), self.align_spec())
    }

    /// Returns the amount of padding that must be inserted after `self` to
    /// ensure that the following address satisfies `align` (in bytes), i.e.
    /// the least `r` with `(size + r) % align == 0`.
    pub fn padding_needed_for(&self, align: usize) -> (r: usize)
        requires
            is_pow2(align as int),
        ensures
            r == padding_for(self.size_spec(), align as int),
            (self.size_spec() + r) % (align as int) == 0,
            r < align,
    {
        proof {
            lemma_pow2_pos(align as int);
            lemma_padding_mod(self.size as int, align as int);
        }
        let rem = self.size % align;
        if rem == 0 {
            0
        } else {
            align - rem
        }
    }

    /// The rounded-up size of a layout never exceeds the invariant's bound,
    /// so the stride stays within the maximum addressable byte count.
    proof fn lemma_stride_bound(&self)
        requires
            layout_valid(self.size_spec(), self.align_spec()),
        ensures
            self.size_spec() <= self.stride() <= isize::MAX as int - (isize::MAX as int
                % self.align_spec()),
            self.stride() % self.align_spec() == 0,
    {
        let size = self.size_spec();
        let align = self.align_spec();
        let m = isize::MAX as int;
        let padded = self.stride();
        lemma_pow2_pos(align);
        lemma_padding_mod(size, align);
        lemma_fundamental_div_mod(m, align);
        lemma_fundamental_div_mod(padded, align);
        let k = padded / align;
        let d = m / align;
        assert(padded <= align * d) by (nonlinear_arith)
            requires
                align >= 1,
                padded == align * k,
                padded < align * d + align,
        ;
    }

    /// Creates a layout describing `n` instances of `self`, with padding
    /// between each so every instance is aligned. On success returns the
    /// array layout together with the distance between element starts;
    /// succeeds exactly when the total byte size stays addressable.
    pub fn repeat(&self, n: usize) -> (r: Result<(Layout, usize), LayoutErr>)
        ensures
            r matches Ok(p) ==> (p.1 == self.stride() && p.0.size_spec() == self.stride() * n
                && p.0.align_spec() == self.align_spec()),
            (r is Ok) <==> self.stride() * n <= isize::MAX as int,
    {
        proof {
            use_type_invariant(self);
            self.lemma_stride_bound();
        }
        let pad = self.padding_needed_for(self.align);
        let padded = self.size + pad;
        match padded.checked_mul(n) {
            None => {
                proof {
                    lemma_isize_max_below_usize_max();
                }
                Err(LayoutErr)
            },
            Some(total) => {
                let m: usize = isize::MAX as usize;
                proof {
                    lemma_pow2_pos(self.align as int);
                    lemma_mod_decreases(m as nat, self.align as nat);
                    lemma_mul_mod_zero(padded as int, n as int, self.align as int);
                    if total as int <= m as int {
                        lemma_aligned_size_valid(total as int, self.align as int);
                    }
                }
                if total <= m - m % self.align {
                    Ok((Layout { size: total, align: self.align }, padded))
                } else {
                    Err(LayoutErr)
                }
            },
        }
    }

    /// Creates a layout describing an array of `n` elements of layout `self`,
    /// failing exactly when the total byte size would not stay addressable.
    pub fn array(&self, n: usize) -> (r: Result<Layout, LayoutErr>)
        ensures
            r matches Ok(k) ==> (k.size_spec() == self.stride() * n && k.align_spec()
                == self.align_spec()),
            (r is Ok) <==> self.stride() * n <= isize::MAX as int,
    {
        match self.repeat(n) {
            Ok(p) => Ok(p.0),
            Err(e) => Err(e),
        }
    }
}

/// The maximum signed size is strictly below the maximum unsigned size.
proof fn lemma_isize_max_below_usize_max()
    ensures
        isize::MAX as int <= usize::MAX as int,
{
    vstd::layout::signed_int_min_max_values();
    vstd::layout::unsigned_int_max_values();
    vstd::arithmetic::power2::lemma_pow2_strictly_increases(
        (isize::BITS - 1) as nat,
        usize::BITS as nat,
    );
}

/// A product of a multiple of `align` stays a multiple of `align`.
proof fn lemma_mul_mod_zero(a: int, b: int, align: int)
    requires
        align >= 1,
        a % align == 0,
        b >= 0,
    ensures
        (a * b) % align == 0,
{
    lemma_fundamental_div_mod(a, align);
    assert(a * b == align * ((a / align) * b)) by (nonlinear_arith)
        requires
            a == align * (a / align),
    ;
    lemma_mod_multiples_basic((a / align) * b, align);
}

/// Runtime check that `n` is a power of two, verified against the
/// mathematical definition.
fn exec_is_pow2(n: usize) -> (b: bool)
    ensures
        b == is_pow2(n as int),
{
    if n == 0 {
        proof {
            reveal(is_pow2);
        }
        return false;
    }
    let mut m: usize = n;
    while m > 1
        invariant
            m >= 1,
            is_pow2(n as int) == is_pow2(m as int),
        decreases m,
    {
        if m % 2 != 0 {
            proof {
                reveal(is_pow2);
            }
            return false;
        }
        proof {
            reveal(is_pow2);
        }
        m = m / 2;
    }
    proof {
        reveal(is_pow2);
    }
    true
}

} // verus!
