//! The global descriptor table: 64-bit segment descriptors assembled
//! from base, limit, access and flag fields, and the task state segment
//! they can point at.

use vstd::prelude::*;

verus! {

use crate::PriviledgeLevel;

/// Number of descriptor slots in the table.
pub const GDT_SIZE: usize = 16;

/// Access bit: the segment is present.
pub const ACCESS_PRESENT: u8 = 0x80;

/// Access bit: an ordinary code or data segment, not a system segment.
pub const ACCESS_CODE_OR_DATA: u8 = 0x10;

/// Access bit: the segment holds code.
pub const ACCESS_EXECUTABLE: u8 = 0x8;

/// Access bit: a data segment grows down / a code segment is conforming.
pub const ACCESS_GROWS_DOWN: u8 = 0x4;

/// Access bit: readable code or writable data.
pub const ACCESS_READ_WRITE: u8 = 0x2;

/// Flag bit: the limit counts 4K pages rather than bytes.
pub const GDT_FLAG_PAGE_GRANULARITY: u8 = 0x8;

/// Flag bit: a 32-bit protected-mode segment.
pub const GDT_FLAG_PROTECTED_MODE: u8 = 0x4;

/// Flag bit: a 64-bit code segment.
pub const GDT_FLAG_LONG_MODE: u8 = 0x2;

/// The access byte of an ordinary 64-bit kernel code segment:
/// present, code-or-data, executable, readable.
pub const CODE_SEGMENT_ACCESS: u8 = 0x9A;

/// The access byte of an ordinary kernel data segment: present,
/// code-or-data, writable.
pub const DATA_SEGMENT_ACCESS: u8 = 0x92;

/// The access byte of an available 64-bit task state segment.
pub const TSS_ACCESS: u8 = 0x89;

/// The size in bytes of the packed task state segment.
pub const TSS_SIZE: usize = 104;

/// The bits of one descriptor, assembled from its four fields: limit in
/// bits 0..16 and 48..52, base in bits 16..40 and 56..64, access in bits
/// 40..48, flags in bits 52..56.
pub open spec fn spec_descriptor(base: u32, limit: u32, access: u8, flags: u8) -> u64 {
    0u64 | (((base & 0x00FF_FFFFu32) as u64) << 16u64) | (((base & 0xFF00_0000u32) as u64)
        << 32u64) | ((limit & 0x0000_FFFFu32) as u64) | (((limit & 0x000F_0000u32) as u64)
        << 32u64) | ((access as u64) << 40u64) | (((flags & 0x0Fu8) as u64) << 52u64)
}

/// An index into the descriptor table, scaled to a byte offset, as the
/// segment registers expect it.
#[derive(Debug, Copy, Clone, PartialEq, Eq, Structural)]
pub struct SegmentSelector(pub u16);

/// One entry of the descriptor table.
#[derive(Debug, Copy, Clone, PartialEq, Eq, Structural)]
struct Descriptor(u64);

impl Descriptor {
    fn new(base: u32, limit: u32, access: u8, flags: u8) -> (r: Descriptor)
        ensures
            r.0 == spec_descriptor(base, limit, access, flags),
    {
        let mut desc = Descriptor(0);

        desc.set_base(base);
        desc.set_limit(limit);
        desc.set_access(access);
        desc.set_flags(flags);

        proof {
            lemma_descriptor_assembly(base, limit, access, flags);
        }
        desc
    }

    fn raw(bits: u64) -> (r: Descriptor)
        ensures
            r.0 == bits,
    {
        Descriptor(bits)
    }

    fn set_base(&mut self, base: u32)
        ensures
            final (self).0 == old(self).0 | (((base & 0x00FF_FFFFu32) as u64) << 16u64) | (((base
                & 0xFF00_0000u32) as u64) << 32u64),
    {
        self.0 = self.0 | (((base & 0x00FF_FFFF) as u64) << 16u64);
        self.0 = self.0 | (((base & 0xFF00_0000) as u64) << 32u64);
    }

    fn set_limit(&mut self, limit: u32)
        ensures
            final (self).0 == old(self).0 | ((limit & 0x0000_FFFFu32) as u64) | (((limit
                & 0x000F_0000u32) as u64) << 32u64),
    {
        self.0 = self.0 | ((limit & 0x0000_FFFF) as u64);
        self.0 = self.0 | (((limit & 0x000F_0000) as u64) << 32u64);
    }

    fn set_access(&mut self, access: u8)
        ensures
            final (self).0 == old(self).0 | ((access as u64) << 40u64),
    {
        self.0 = self.0 | ((access as u64) << 40u64);
    }

    fn set_flags(&mut self, flags: u8)
        ensures
            final (self).0 == old(self).0 | (((flags & 0x0Fu8) as u64) << 52u64),
    {
        self.0 = self.0 | (((flags & 0x0F) as u64) << 52u64);
    }
}

/// Or-ing the four field encodings together in any grouping yields the
/// assembled descriptor.
proof fn lemma_descriptor_assembly(base: u32, limit: u32, access: u8, flags: u8)
    by (bit_vector)
    ensures
        ((((0u64 | (((base & 0x00FF_FFFFu32) as u64) << 16u64) | (((base & 0xFF00_0000u32) as u64)
            << 32u64)) | ((limit & 0x0000_FFFFu32) as u64) | (((limit & 0x000F_0000u32) as u64)
            << 32u64)) | ((access as u64) << 40u64)) | (((flags & 0x0Fu8) as u64) << 52u64)) == (
        0u64 | (((base & 0x00FF_FFFFu32) as u64) << 16u64) | (((base & 0xFF00_0000u32) as u64)
            << 32u64) | ((limit & 0x0000_FFFFu32) as u64) | (((limit & 0x000F_0000u32) as u64)
            << 32u64) | ((access as u64) << 40u64) | (((flags & 0x0Fu8) as u64) << 52u64)),
{
}

/// A global descriptor table under construction: a fixed array of
/// descriptor slots and the index of the next free one. Slot 0 stays the
/// mandatory null descriptor.
pub struct Gdt {
    entries: Vec<Descriptor>,
    index: usize,
}

impl Gdt {
    /// The bits of each descriptor slot.
    pub closed spec fn view(&self) -> Seq<u64> {
        self.entries@.map_values(|d: Descriptor| d.0)
    }

    /// The index of the next free slot.
    pub closed spec fn spec_index(&self) -> int {
        self.index as int
    }

    pub open spec fn wf(&self) -> bool {
        &&& self@.len() == GDT_SIZE
        &&& 1 <= self.spec_index() <= GDT_SIZE
    }

    /// An empty table: all slots null, with construction starting at
    /// slot 1.
    pub fn new() -> (r: Gdt)
        ensures
            r.wf(),
            r.spec_index() == 1,
            forall|i: int| 0 <= i < GDT_SIZE ==> r@[i] == 0,
    {
        let mut entries: Vec<Descriptor> = Vec::new();
        let mut i: usize = 0;
        while i < GDT_SIZE
            invariant
                i <= GDT_SIZE,
                entries@.len() == i,
                forall|j: int| 0 <= j < i ==> (#[trigger] entries@[j]).0 == 0,
            decreases GDT_SIZE - i,
        {
            entries.push(Descriptor(0));
            i = i + 1;
        }
        Gdt { entries, index: 1 }
    }

    /// The bits of the descriptor in slot `i`.
    pub fn entry_bits(&self, i: usize) -> (r: u64)
        requires
            self.wf(),
            i < GDT_SIZE,
        ensures
            r == self@[i as int],
    {
        self.entries[i].0
    }

    /// Writes `descriptor` into the next free slot and returns the
    /// selector for it. A full table is a caller error.
    fn add_entry(&mut self, descriptor: Descriptor) -> (r: SegmentSelector)
        requires
            old(self).wf(),
            old(self).spec_index() < GDT_SIZE,
        ensures
            final (self).wf(),
            final (self)@ == old(self)@.update(old(self).spec_index(), descriptor.0),
            final (self).spec_index() == old(self).spec_index() + 1,
            r.0 == old(self).spec_index() * 8,
    {
        self.entries.set(self.index, descriptor);
        let selector = SegmentSelector((self.index * 8) as u16);
        self.index = self.index + 1;
        proof {
            assert(self@ =~= old(self)@.update(old(self).spec_index(), descriptor.0));
        }
        selector
    }

    /// Adds a 64-bit kernel code segment and returns its selector.
    pub fn add_code_segment(&mut self, base: u32, limit: u32) -> (r: SegmentSelector)
        requires
            old(self).wf(),
            old(self).spec_index() < GDT_SIZE,
        ensures
            final (self).wf(),
            final (self)@ == old(self)@.update(
                old(self).spec_index(),
                spec_descriptor(
                    base,
                    limit,
                    CODE_SEGMENT_ACCESS,
                    GDT_FLAG_LONG_MODE | GDT_FLAG_PAGE_GRANULARITY,
                ),
            ),
            final (self).spec_index() == old(self).spec_index() + 1,
            r.0 == old(self).spec_index() * 8,
    {
        proof {
            assert((0x80u8 | 0x10u8 | 0x8u8 | 0x2u8) == 0x9Au8) by (bit_vector);
        }
        let access = ACCESS_PRESENT | ACCESS_CODE_OR_DATA | ACCESS_EXECUTABLE | ACCESS_READ_WRITE;

        self.add_entry(
            Descriptor::new(base, limit, access, GDT_FLAG_LONG_MODE | GDT_FLAG_PAGE_GRANULARITY),
        )
    }

    /// Adds an ordinary kernel data segment and returns its selector.
    pub fn add_data_segment(&mut self, base: u32, limit: u32) -> (r: SegmentSelector)
        requires
            old(self).wf(),
            old(self).spec_index() < GDT_SIZE,
        ensures
            final (self).wf(),
            final (self)@ == old(self)@.update(
                old(self).spec_index(),
                spec_descriptor(base, limit, DATA_SEGMENT_ACCESS, 0),
            ),
            final (self).spec_index() == old(self).spec_index() + 1,
            r.0 == old(self).spec_index() * 8,
    {
        proof {
            assert((0x80u8 | 0x10u8 | 0x2u8) == 0x92u8) by (bit_vector);
        }
        let access = ACCESS_PRESENT | ACCESS_CODE_OR_DATA | ACCESS_READ_WRITE;
        self.add_entry(Descriptor::new(base, limit, access, 0))
    }

    /// Adds a task state segment living at `tss_addr` and returns its
    /// selector. System descriptors are double width: the slot after the
    /// returned one holds the upper 32 bits of the address.
    pub fn add_tss(&mut self, tss_addr: u64) -> (r: SegmentSelector)
        requires
            old(self).wf(),
            old(self).spec_index() + 2 <= GDT_SIZE,
        ensures
            final (self).wf(),
            final (self)@ == old(self)@.update(
                old(self).spec_index(),
                spec_descriptor(
                    tss_addr as u32,
                    (TSS_SIZE - 1) as u32,
                    TSS_ACCESS,
                    0,
                ),
            ).update(old(self).spec_index() + 1, tss_addr >> 32u64),
            final (self).spec_index() == old(self).spec_index() + 2,
            r.0 == old(self).spec_index() * 8,
    {
        // system segments don't use the ordinary access flags; this
        // access byte is an available 64-bit task state segment
        let access = TSS_ACCESS;

        let segment = self.add_entry(
            Descriptor::new(
                #[verifier::truncate]
                (tss_addr as u32),
                (TSS_SIZE - 1) as u32,
                access,
                0,
            ),
        );

        // the second half holds the upper 32 bits of the address
        self.add_entry(Descriptor::raw(tss_addr >> 32u64));

        segment
    }
}

/// The access byte of an ordinary segment, as a value that can be
/// adjusted before a descriptor is built from it.
#[derive(Debug, Copy, Clone, PartialEq, Eq, Structural)]
pub struct AccessFlags {
    pub bits: u8,
}

impl AccessFlags {
    /// Replaces the privilege field (bits 5..7) with the given ring.
    pub fn set_priviledge(self, ring: PriviledgeLevel) -> (r: AccessFlags)
        ensures
            r.bits == (self.bits & 0x9F) | ((ring.spec_value() * 32) as u8),
    {
        let v = ring.value();
        proof {
            lemma_priviledge_field(self.bits, v);
        }
        // clear the current privilege bits, then set the ring
        AccessFlags { bits: (self.bits & 0b1001_1111) | (v << 5u8) }
    }
}

/// Shifting a two-bit ring into bits 5..7 is multiplication by 32.
proof fn lemma_priviledge_field(bits: u8, v: u8)
    by (bit_vector)
    requires
        v <= 3,
    ensures
        (v << 5u8) == v * 32,
        ((bits & 0x9Fu8) | (v << 5u8)) == ((bits & 0x9Fu8) | ((v * 32) as u8)),
{
}

/// A task state segment: in 64-bit mode only the stack switch tables
/// and the port permission base are live; the rest is reserved.
#[derive(Debug, Copy, Clone)]
pub struct Tss {
    pub reserved1: u32,
    /// Stacks for privilege level changes.
    pub priviledge_stacks: [u64; 3],
    pub reserved2: u64,
    /// Stacks registered to interrupt handlers through their descriptors.
    pub interrupt_stacks: [u64; 7],
    pub reserved3: u64,
    pub reserved4: u16,
    /// Port permission bitmap offset; unused.
    pub io_permission_base: u16,
}

impl Tss {
    pub fn new() -> (r: Tss)
        ensures
            r.priviledge_stacks@ == Seq::new(3, |i: int| 0u64),
            r.interrupt_stacks@ == Seq::new(7, |i: int| 0u64),
            r.io_permission_base == 0,
    {
        let r = Tss {
            reserved1: 0,
            priviledge_stacks: [0u64, 0u64, 0u64],
            reserved2: 0,
            interrupt_stacks: [0u64, 0u64, 0u64, 0u64, 0u64, 0u64, 0u64],
            reserved3: 0,
            reserved4: 0,
            io_permission_base: 0,
        };
        proof {
            assert(r.priviledge_stacks@ =~= Seq::new(3, |i: int| 0u64));
            assert(r.interrupt_stacks@ =~= Seq::new(7, |i: int| 0u64));
        }
        r
    }
}

} // verus!
