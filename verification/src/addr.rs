//! Canonical virtual addresses and arbitrary physical addresses, with
//! frame-number conversions and power-of-two alignment arithmetic.

use vstd::prelude::*;

verus! {

use crate::PAGE_SIZE;
use vstd::arithmetic::power2::{pow2, lemma_pow2_unfold, lemma_pow2_strictly_increases, lemma2_to64,
    lemma2_to64_rest};
use vstd::arithmetic::div_mod::{lemma_fundamental_div_mod, lemma_mod_multiples_basic};
use vstd::bits::{low_bits_mask, lemma_low_bits_mask_unfold, lemma_u64_low_bits_mask_is_mod};

/// A virtual address is canonical when bits 48..64 all equal bit 47,
/// i.e. the top 17 bits are all zero or all one.
pub open spec fn is_canonical(raw: u64) -> bool {
    (raw >> 47) == 0u64 || (raw >> 47) == 0x1_FFFFu64
}

/// Sign-extends bit 47 of `raw` into bits 48..64.
pub open spec fn sign_extend_47(raw: u64) -> u64 {
    if (raw >> 47) & 1u64 == 1u64 {
        raw | 0xFFFF_0000_0000_0000u64
    } else {
        raw & 0x0000_FFFF_FFFF_FFFFu64
    }
}

/// A 64-bit canonical virtual address.
#[derive(Debug, Copy, Clone, PartialEq, Eq, Structural)]
pub struct VirtualAddress(u64);

impl VirtualAddress {
    pub closed spec fn view(self) -> u64 {
        self.0
    }

    /// Checked at every construction: no `VirtualAddress` holding a
    /// non-canonical value is ever produced.
    #[verifier::type_invariant]
    closed spec fn canonical_invariant(self) -> bool {
        is_canonical(self.0)
    }

    /// Wraps a raw value that is already in canonical form; a
    /// non-canonical value is a caller error.
    pub fn new(raw: u64) -> (r: VirtualAddress)
        requires
            is_canonical(raw),
        ensures
            r@ == raw,
    {
        VirtualAddress(raw)
    }

    /// Forcibly normalizes any raw value by sign-extending bit 47 into
    /// the high 16 bits, instead of rejecting non-canonical input.
    pub fn new_truncate(addr: u64) -> (r: VirtualAddress)
        ensures
            r@ == sign_extend_47(addr),
            is_canonical(r@),
    {
        proof {
            lemma_sign_extend_canonical(addr);
        }
        if (addr >> 47) & 1u64 == 1u64 {
            VirtualAddress(addr | 0xFFFF_0000_0000_0000u64)
        } else {
            VirtualAddress(addr & 0x0000_FFFF_FFFF_FFFFu64)
        }
    }

    /// The raw value is canonical by the type invariant: a non-canonical
    /// raw value can never have produced a `VirtualAddress`.
    pub fn as_usize(&self) -> (r: usize)
        requires
            self@ <= usize::MAX,
        ensures
            r == self@,
            is_canonical(r as u64),
    {
        proof {
            use_type_invariant(self);
        }
        self.0 as usize
    }

    /// The raw value is canonical by the type invariant: a non-canonical
    /// raw value can never have produced a `VirtualAddress`.
    pub fn as_u64(&self) -> (r: u64)
        ensures
            r == self@,
            is_canonical(r),
    {
        proof {
            use_type_invariant(self);
        }
        self.0
    }
}

/// Sign extension always yields a canonical address, and it leaves an
/// address that is already canonical unchanged; so for every canonical
/// address the truncating constructor is the identity, and round-tripping
/// a canonical address through its raw integer is the identity too.
pub proof fn lemma_sign_extend_canonical(raw: u64)
    ensures
        is_canonical(sign_extend_47(raw)),
        is_canonical(raw) ==> sign_extend_47(raw) == raw,
{
    assert(is_canonical(sign_extend_47(raw)) && (is_canonical(raw) ==> sign_extend_47(raw)
        == raw)) by (bit_vector);
}

/// A 64-bit physical address; no canonicality constraint. Totally
/// ordered by its raw value.
#[derive(Debug, Copy, Clone, PartialEq, Eq, Structural, PartialOrd, Ord)]
pub struct PhysicalAddress(u64);

impl PhysicalAddress {
    pub closed spec fn view(self) -> u64 {
        self.0
    }

    pub fn new(addr: u64) -> (r: PhysicalAddress)
        ensures
            r@ == addr,
    {
        PhysicalAddress(addr)
    }

    /// The number of the frame containing this address.
    pub fn frame_num(&self) -> (r: usize)
        requires
            self@ <= usize::MAX,
        ensures
            r == self@ as int / PAGE_SIZE as int,
    {
        self.as_usize() / PAGE_SIZE
    }

    /// The first address of frame number `num`.
    pub fn from_frame_num(num: usize) -> (r: PhysicalAddress)
        requires
            num * PAGE_SIZE <= usize::MAX,
        ensures
            r@ == num * PAGE_SIZE,
    {
        PhysicalAddress::from_usize(num * PAGE_SIZE)
    }

    pub fn from_usize(addr: usize) -> (r: PhysicalAddress)
        ensures
            r@ == addr,
    {
        PhysicalAddress::new(addr as u64)
    }

    pub fn as_u64(&self) -> (r: u64)
        ensures
            r == self@,
    {
        self.0
    }

    pub fn as_usize(&self) -> (r: usize)
        requires
            self@ <= usize::MAX,
        ensures
            r == self@,
    {
        self.0 as usize
    }

    pub fn add(&self, count: u64) -> (r: PhysicalAddress)
        requires
            self@ + count <= u64::MAX,
        ensures
            r@ == self@ + count,
    {
        PhysicalAddress::new(self.0 + count)
    }

    /// Rounds this address up to the next multiple of `align`, which must
    /// be a power of two; computed by biasing before masking, which cannot
    /// underflow. The result is the one multiple of `align` in
    /// `[self, self + align)`.
    pub fn align_up(&self, align: u64) -> (r: PhysicalAddress)
        requires
            is_power_of_two(align),
            self@ + align - 1 <= u64::MAX,
        ensures
            r@ >= self@,
            r@ % align == 0,
            r@ < self@ + align,
    {
        proof {
            lemma_align_up_mask(self.0, align);
        }
        let raw = (self.0 + (align - 1)) & !(align - 1);
        PhysicalAddress::new(raw)
    }
}

/// `align` has exactly one bit set.
pub open spec fn is_power_of_two(align: u64) -> bool {
    align != 0 && (align & ((align - 1) as u64)) == 0u64
}

/// A power of two is `pow2(n)` for some `n` below the word width, and the
/// value one less than it is the mask of the `n` low bits.
proof fn lemma_pow2_exponent(align: u64) -> (n: nat)
    requires
        is_power_of_two(align),
    ensures
        n < 64,
        align == pow2(n),
        align - 1 == low_bits_mask(n),
    decreases align,
{
    if align == 1 {
        lemma2_to64();
        0nat
    } else {
        assert(align % 2 == 0 && align / 2 != 0 && ((align / 2) & ((align / 2 - 1) as u64)) == 0
            && align / 2 < align) by (bit_vector)
            requires
                align != 0,
                align != 1,
                (align & ((align - 1) as u64)) == 0u64,
        ;
        let m = lemma_pow2_exponent(align / 2);
        lemma_pow2_unfold(m + 1);
        lemma_low_bits_mask_unfold(m + 1);
        if m + 1 >= 64 {
            lemma2_to64_rest();
            if m + 1 > 64 {
                lemma_pow2_strictly_increases(64, m + 1);
            }
            assert(false);
        }
        m + 1
    }
}

/// For a power-of-two alignment, the bias-and-mask computation yields the
/// one multiple of the alignment in `[raw, raw + align)`.
proof fn lemma_align_up_mask(raw: u64, align: u64)
    requires
        is_power_of_two(align),
        raw + align - 1 <= u64::MAX,
    ensures
        ({
            let r = (raw + align - 1) as u64 & !((align - 1) as u64);
            r % align == 0 && raw <= r < raw + align
        }),
{
    let n = lemma_pow2_exponent(align);
    let biased = (raw + align - 1) as u64;
    let mask = (align - 1) as u64;
    let r = biased & !mask;
    assert((biased & !mask) + (biased & mask) == biased) by (bit_vector);
    lemma_u64_low_bits_mask_is_mod(biased, n);
    assert(biased & mask == biased % align);
    lemma_fundamental_div_mod(biased as int, align as int);
    assert(r == (biased as int / align as int) * align);
    lemma_mod_multiples_basic(biased as int / align as int, align as int);
}

} // verus!
