//! The interrupt descriptor table: 256 descriptors, each naming a
//! handler's address, the code segment to run it in, and its descriptor flags.

use vstd::prelude::*;

verus! {

use crate::PriviledgeLevel;
use core::marker::PhantomData;

/// The kind of entry a descriptor is.
#[derive(Debug, Copy, Clone, PartialEq, Eq, Structural)]
pub enum DescriptorType {
    Interrupt,
    Trap,
}

impl DescriptorType {
    /// The entry type's four-bit hardware encoding.
    pub open spec fn spec_value(self) -> u8 {
        match self {
            DescriptorType::Interrupt => 0xE,
            DescriptorType::Trap => 0xF,
        }
    }

    pub fn value(self) -> (r: u8)
        ensures
            r == self.spec_value(),
            r <= 0xF,
    {
        match self {
            DescriptorType::Interrupt => 0xE,
            DescriptorType::Trap => 0xF,
        }
    }
}

/// The flag byte of a descriptor: present bit, privilege field, and
/// entry type.
#[derive(Debug, Copy, Clone, PartialEq, Eq, Structural)]
pub struct DescriptorFlags(pub u8);

impl DescriptorFlags {
    pub fn new() -> (r: DescriptorFlags)
        ensures
            r.0 == 0,
    {
        DescriptorFlags(0)
    }

    /// Replaces the privilege field (bits 5..7) with the given ring.
    pub fn set_priviledge(self, ring: PriviledgeLevel) -> (r: DescriptorFlags)
        ensures
            r.0 == (self.0 & 0x9F) | ((ring.spec_value() * 32) as u8),
    {
        let v = ring.value();
        proof {
            lemma_flag_fields(self.0, v);
        }
        // clear the current privilege bits, then set the ring
        DescriptorFlags((self.0 & 0b1001_1111) | (v << 5u8))
    }

    /// Replaces the entry type field (bits 0..4).
    pub fn set_type(self, desc_type: DescriptorType) -> (r: DescriptorFlags)
        ensures
            r.0 == (self.0 & 0xF0) | desc_type.spec_value(),
    {
        let v = desc_type.value();
        // clear the current type bits, then set the type
        DescriptorFlags((self.0 & 0b1111_0000) | v)
    }

    /// Sets the present bit.
    pub fn set_present(self) -> (r: DescriptorFlags)
        ensures
            r.0 == self.0 | 0x80,
    {
        DescriptorFlags(self.0 | 0x80)
    }
}

/// A two-bit ring shifted into bits 5..7 is the ring times 32; the
/// present bit is the top bit.
proof fn lemma_flag_fields(bits: u8, v: u8)
    by (bit_vector)
    requires
        v <= 3,
    ensures
        (v << 5u8) == v * 32,
        (1u8 << 7u8) == 0x80u8,
{
}

/// An interrupt handler, known to the table by the address of its entry
/// code; the wrapper types below witness that the code follows the
/// interrupt calling convention.
pub trait InterruptHandler: Sized {
    spec fn spec_raw(&self) -> usize;

    /// The address of the handler's entry code.
    fn raw_handler(&self) -> (r: usize)
        ensures
            r == self.spec_raw(),
    ;
}

/// The entry address of a handler taking no error code.
#[derive(Debug, Copy, Clone, PartialEq, Eq, Structural)]
pub struct StandardHandler(pub usize);

impl StandardHandler {
    pub fn new(addr: usize) -> (r: StandardHandler)
        ensures
            r.spec_raw() == addr,
    {
        StandardHandler(addr)
    }
}

impl InterruptHandler for StandardHandler {
    open spec fn spec_raw(&self) -> usize {
        self.0
    }

    fn raw_handler(&self) -> (r: usize) {
        self.0
    }
}

/// The entry address of a handler that expects an error code on the
/// stack.
#[derive(Debug, Copy, Clone, PartialEq, Eq, Structural)]
pub struct HandlerWithError(pub usize);

impl HandlerWithError {
    pub fn new(addr: usize) -> (r: HandlerWithError)
        ensures
            r.spec_raw() == addr,
    {
        HandlerWithError(addr)
    }
}

impl InterruptHandler for HandlerWithError {
    open spec fn spec_raw(&self) -> usize {
        self.0
    }

    fn raw_handler(&self) -> (r: usize) {
        self.0
    }
}

/// What the hardware pushes for a handler taking no error code.
#[derive(Debug, Copy, Clone, PartialEq, Eq, Structural)]
pub struct InterruptStackFrame {
    pub instruction_pointer: usize,
    pub code_segment: usize,
    pub flags: usize,
    pub stack_pointer: usize,
    pub stack_segment: usize,
}

/// One entry of the interrupt table: the handler's address split into
/// three fields, the code segment selector, the stack-table index, and
/// the descriptor flags.
#[derive(Debug)]
pub struct Descriptor<T: InterruptHandler> {
    /// Bits 0..16 of the handler address.
    pub offset_low: u16,
    /// Selector of the code segment the handler runs in.
    pub gdt_selector: u16,
    /// Bits 0..3 hold the interrupt stack table index; the rest is zero.
    pub ist: u8,
    /// Present bit, privilege field and entry type.
    pub flags: DescriptorFlags,
    /// Bits 16..32 of the handler address.
    pub offset_mid: u16,
    /// Bits 32..64 of the handler address.
    pub offset_high: u32,
    /// Always zero.
    pub zero: u32,
    pub phantom: PhantomData<T>,
}

impl<T: InterruptHandler> Descriptor<T> {
    /// An absent entry: all fields zero.
    pub fn new() -> (r: Self)
        ensures
            r.offset_low == 0,
            r.gdt_selector == 0,
            r.ist == 0,
            r.flags.0 == 0,
            r.offset_mid == 0,
            r.offset_high == 0,
    {
        Descriptor {
            offset_low: 0,
            gdt_selector: 0,
            ist: 0,
            flags: DescriptorFlags::new(),
            offset_mid: 0,
            offset_high: 0,
            zero: 0,
            phantom: PhantomData,
        }
    }

    /// A present ring-one interrupt entry for `handler`, running in the
    /// code segment named by `selector`.
    pub fn interrupt(handler: T, selector: u16) -> (r: Self)
        ensures
            r.gdt_selector == selector,
            spec_offset_of(r.offset_low, r.offset_mid, r.offset_high) == handler.spec_raw(),
            r.flags.0 == 0xAE,
    {
        let descriptor = DescriptorFlags::new().set_type(
            DescriptorType::Interrupt,
        ).set_priviledge(PriviledgeLevel::RingOne).set_present();

        let mut entry = Self::new();

        entry.set_offset(selector, handler.raw_handler());
        entry.set_flags(descriptor);
        proof {
            assert(((0u8 & 0xF0u8) | 0xEu8) == 0xEu8 && ((0xEu8 & 0x9Fu8) | 32u8) == 0x2Eu8 && (
            0x2Eu8 | 0x80u8) == 0xAEu8) by (bit_vector);
        }
        entry
    }

    /// Points this entry at handler code living at `offset`, to be run in
    /// the code segment named by `selector`.
    pub fn set_offset(&mut self, selector: u16, offset: usize)
        ensures
            final (self).gdt_selector == selector,
            spec_offset_of(
                final (self).offset_low,
                final (self).offset_mid,
                final (self).offset_high,
            ) == offset,
            final (self).ist == old(self).ist,
            final (self).flags == old(self).flags,
    {
        let off = offset as u64;
        proof {
            lemma_offset_split(off);
        }
        self.gdt_selector = selector;
        self.offset_low = (off & 0xFFFF) as u16;
        self.offset_mid = ((off >> 16u64) & 0xFFFF) as u16;
        self.offset_high = ((off >> 32u64) & 0xFFFF_FFFF) as u32;
    }

    /// Replaces this entry's flag byte.
    pub fn set_flags(&mut self, type_attr: DescriptorFlags)
        ensures
            final (self).flags == type_attr,
            final (self).offset_low == old(self).offset_low,
            final (self).offset_mid == old(self).offset_mid,
            final (self).offset_high == old(self).offset_high,
            final (self).gdt_selector == old(self).gdt_selector,
            final (self).ist == old(self).ist,
    {
        self.flags = type_attr;
    }
}

/// The handler address an entry's three offset fields assemble to.
pub open spec fn spec_offset_of(low: u16, mid: u16, high: u32) -> int {
    low + mid * 0x1_0000 + high * 0x1_0000_0000
}

/// Splitting an address into its three descriptor fields loses nothing below
/// 64 bits.
proof fn lemma_offset_split(offset: u64)
    by (bit_vector)
    ensures
        (offset & 0xFFFFu64) + ((offset >> 16u64) & 0xFFFFu64) * 0x1_0000 + ((offset >> 32u64)
            & 0xFFFF_FFFFu64) * 0x1_0000_0000 == offset,
        (offset & 0xFFFFu64) <= 0xFFFF,
        ((offset >> 16u64) & 0xFFFFu64) <= 0xFFFF,
        ((offset >> 32u64) & 0xFFFF_FFFFu64) <= 0xFFFF_FFFF,
{
}

/// The interrupt descriptor table: one descriptor per vector, the
/// architectural exceptions by name and the rest in one block.
pub struct Idt {
    pub div_by_zero: Descriptor<StandardHandler>,
    pub debug: Descriptor<StandardHandler>,
    pub non_maskable_interrupt: Descriptor<StandardHandler>,
    pub breakpoint: Descriptor<StandardHandler>,
    pub overflow: Descriptor<StandardHandler>,
    pub bound_range_exceeded: Descriptor<StandardHandler>,
    pub invalid_opcode: Descriptor<StandardHandler>,
    pub device_not_available: Descriptor<StandardHandler>,
    pub double_fault: Descriptor<HandlerWithError>,
    pub coprocessor_segment_overrun: Descriptor<StandardHandler>,
    pub invalid_tss: Descriptor<HandlerWithError>,
    pub segment_not_present: Descriptor<HandlerWithError>,
    pub stack_segment_fault: Descriptor<HandlerWithError>,
    pub general_protection_fault: Descriptor<HandlerWithError>,
    pub page_fault: Descriptor<HandlerWithError>,
    /// Vector 15 is reserved.
    pub reserved1: Descriptor<StandardHandler>,
    pub floating_point_exception: Descriptor<StandardHandler>,
    pub alignment_check: Descriptor<HandlerWithError>,
    pub machine_check: Descriptor<StandardHandler>,
    pub simd_floating_point_exception: Descriptor<StandardHandler>,
    pub virtualization_exception: Descriptor<StandardHandler>,
    /// Vectors 21..30 are reserved.
    pub reserved2: Vec<Descriptor<StandardHandler>>,
    pub security_exception: Descriptor<HandlerWithError>,
    /// Vector 31 is reserved.
    pub reserved3: Descriptor<StandardHandler>,
    /// Descriptors for the user-defined vectors 32..256.
    pub descriptors: Vec<Descriptor<StandardHandler>>,
}

impl Idt {
    pub open spec fn wf(&self) -> bool {
        self.reserved2@.len() == 9 && self.descriptors@.len() == 256 - 32
    }

    /// A table with every entry absent.
    pub fn new() -> (r: Self)
        ensures
            r.wf(),
            forall|i: int| 0 <= i < 9 ==> (#[trigger] r.reserved2@[i]).flags.0 == 0,
            forall|i: int| 0 <= i < 256 - 32 ==> (#[trigger] r.descriptors@[i]).flags.0 == 0,
            r.div_by_zero.flags.0 == 0,
            r.debug.flags.0 == 0,
            r.non_maskable_interrupt.flags.0 == 0,
            r.breakpoint.flags.0 == 0,
            r.overflow.flags.0 == 0,
            r.bound_range_exceeded.flags.0 == 0,
            r.invalid_opcode.flags.0 == 0,
            r.device_not_available.flags.0 == 0,
            r.double_fault.flags.0 == 0,
            r.coprocessor_segment_overrun.flags.0 == 0,
            r.invalid_tss.flags.0 == 0,
            r.segment_not_present.flags.0 == 0,
            r.stack_segment_fault.flags.0 == 0,
            r.general_protection_fault.flags.0 == 0,
            r.page_fault.flags.0 == 0,
            r.reserved1.flags.0 == 0,
            r.floating_point_exception.flags.0 == 0,
            r.alignment_check.flags.0 == 0,
            r.machine_check.flags.0 == 0,
            r.simd_floating_point_exception.flags.0 == 0,
            r.virtualization_exception.flags.0 == 0,
            r.security_exception.flags.0 == 0,
            r.reserved3.flags.0 == 0,
    {
        let mut reserved2: Vec<Descriptor<StandardHandler>> = Vec::new();
        let mut i: usize = 0;
        while i < 9
            invariant
                i <= 9,
                reserved2@.len() == i,
                forall|j: int| 0 <= j < i ==> (#[trigger] reserved2@[j]).flags.0 == 0,
            decreases 9 - i,
        {
            reserved2.push(Descriptor::new());
            i = i + 1;
        }
        let mut descriptors: Vec<Descriptor<StandardHandler>> = Vec::new();
        let mut k: usize = 0;
        while k < 256 - 32
            invariant
                k <= 256 - 32,
                descriptors@.len() == k,
                forall|j: int| 0 <= j < k ==> (#[trigger] descriptors@[j]).flags.0 == 0,
            decreases 256 - 32 - k,
        {
            descriptors.push(Descriptor::new());
            k = k + 1;
        }
        Idt {
            div_by_zero: Descriptor::new(),
            debug: Descriptor::new(),
            non_maskable_interrupt: Descriptor::new(),
            breakpoint: Descriptor::new(),
            overflow: Descriptor::new(),
            bound_range_exceeded: Descriptor::new(),
            invalid_opcode: Descriptor::new(),
            device_not_available: Descriptor::new(),
            double_fault: Descriptor::new(),
            coprocessor_segment_overrun: Descriptor::new(),
            invalid_tss: Descriptor::new(),
            segment_not_present: Descriptor::new(),
            stack_segment_fault: Descriptor::new(),
            general_protection_fault: Descriptor::new(),
            page_fault: Descriptor::new(),
            reserved1: Descriptor::new(),
            floating_point_exception: Descriptor::new(),
            alignment_check: Descriptor::new(),
            machine_check: Descriptor::new(),
            simd_floating_point_exception: Descriptor::new(),
            virtualization_exception: Descriptor::new(),
            reserved2,
            security_exception: Descriptor::new(),
            reserved3: Descriptor::new(),
            descriptors,
        }
    }
}

} // verus!
