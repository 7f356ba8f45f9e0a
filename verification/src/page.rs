//! Virtual pages and the decomposition of a page number into the four
//! 9-bit table indices used by the four-level translation tree.

use vstd::prelude::*;

verus! {

use crate::addr::VirtualAddress;
use crate::PAGE_SIZE;

/// Page numbers carry 36 significant bits: 48-bit virtual addresses
/// less the 12-bit page offset.
pub const PAGE_NUM_LIMIT: u64 = 0x10_0000_0000;

/// The table index a page selects at level 4 of the tree.
pub open spec fn spec_level4_index(num: u64) -> u64 {
    (num >> 27) & 0o777
}

/// The table index a page selects at level 3 of the tree.
pub open spec fn spec_level3_index(num: u64) -> u64 {
    (num >> 18) & 0o777
}

/// The table index a page selects at level 2 of the tree.
pub open spec fn spec_level2_index(num: u64) -> u64 {
    (num >> 9) & 0o777
}

/// The table index a page selects at level 1 of the tree.
pub open spec fn spec_level1_index(num: u64) -> u64 {
    num & 0o777
}

/// A virtual page, identified by its page number (virtual address
/// divided by the page size).
#[derive(Debug, Copy, Clone, PartialEq, Eq, Structural)]
pub struct Page {
    num: u64,
}

impl Page {
    /// The page number.
    pub closed spec fn view(self) -> u64 {
        self.num
    }

    pub fn new(num: u64) -> (r: Page)
        requires
            num < PAGE_NUM_LIMIT,
        ensures
            r@ == num,
    {
        Page { num }
    }

    pub fn num(&self) -> (r: u64)
        ensures
            r == self@,
    {
        self.num
    }

    /// The page containing the given virtual address: bits 12..48 of the
    /// address.
    pub fn containing(vaddr: VirtualAddress) -> (r: Page)
        ensures
            r@ == ((vaddr@ & 0o000000_777_777_777_777_0000u64) >> 12),
            r@ < PAGE_NUM_LIMIT,
            r@ == (vaddr@ / PAGE_SIZE as u64) % PAGE_NUM_LIMIT,
    {
        let raw = vaddr.as_u64();
        let num = (raw & 0o000000_777_777_777_777_0000u64) >> 12;
        proof {
            lemma_page_of_address(raw);
        }
        Page { num }
    }

    /// The first virtual address of this page. Only pages in the lower
    /// (zero-extended) canonical half have a raw address equal to
    /// `num * PAGE_SIZE`.
    pub fn addr(&self) -> (r: VirtualAddress)
        requires
            self@ * PAGE_SIZE < 0x8000_0000_0000,
        ensures
            r@ == self@ * PAGE_SIZE,
    {
        proof {
            lemma_low_address_canonical((self@ * PAGE_SIZE) as u64);
        }
        VirtualAddress::new(self.num * (PAGE_SIZE as u64))
    }

    pub fn level4_page_number(&self) -> (r: usize)
        ensures
            r == spec_level4_index(self@),
            r < 512,
    {
        proof {
            lemma_index_bounded(self@, 27);
        }
        ((self.num >> 27) & 0o777) as usize
    }

    pub fn level3_page_number(&self) -> (r: usize)
        ensures
            r == spec_level3_index(self@),
            r < 512,
    {
        proof {
            lemma_index_bounded(self@, 18);
        }
        ((self.num >> 18) & 0o777) as usize
    }

    pub fn level2_page_number(&self) -> (r: usize)
        ensures
            r == spec_level2_index(self@),
            r < 512,
    {
        proof {
            lemma_index_bounded(self@, 9);
        }
        ((self.num >> 9) & 0o777) as usize
    }

    pub fn level1_page_number(&self) -> (r: usize)
        ensures
            r == spec_level1_index(self@),
            r < 512,
    {
        proof {
            let n = self@;
            assert((n & 0o777u64) < 512u64) by (bit_vector);
        }
        (self.num & 0o777) as usize
    }
}

/// Masking out the page offset and shifting it away yields the page
/// number: the address divided by the page size, kept to 36 bits.
proof fn lemma_page_of_address(raw: u64)
    by (bit_vector)
    ensures
        ((raw & 0o000000_777_777_777_777_0000u64) >> 12) < 0x10_0000_0000u64,
        ((raw & 0o000000_777_777_777_777_0000u64) >> 12) == (raw / 4096u64) % 0x10_0000_0000u64,
{
}

/// An address below the canonical boundary is canonical.
proof fn lemma_low_address_canonical(raw: u64)
    requires
        raw < 0x8000_0000_0000,
    ensures
        crate::addr::is_canonical(raw),
{
    assert(raw < 0x8000_0000_0000u64 ==> (raw >> 47) == 0u64) by (bit_vector);
}

/// The four table indices of any page number are below 512.
pub proof fn lemma_indices_bounded(p: u64)
    ensures
        spec_level4_index(p) < 512,
        spec_level3_index(p) < 512,
        spec_level2_index(p) < 512,
        spec_level1_index(p) < 512,
{
    lemma_index_bounded(p, 27);
    lemma_index_bounded(p, 18);
    lemma_index_bounded(p, 9);
    assert((p & 0o777u64) < 512u64) by (bit_vector);
}

/// A 9-bit field extraction stays below 512, whatever the shift.
proof fn lemma_index_bounded(num: u64, shift: u64)
    by (bit_vector)
    requires
        shift <= 32,
    ensures
        ((num >> shift) & 0o777u64) < 512u64,
{
}

} // verus!
