//! Physical- and virtual-memory management core for a bare-metal 64-bit
//! kernel: address types, owned memory regions, frame allocators (bitmap
//! and bump strategies), page-table entry encoding, and the mapper that
//! edits the four-level translation tree.

use vstd::prelude::*;

pub mod addr;
pub mod bitmap;
pub mod bump;
pub mod elf_symbols;
pub mod gdt;
pub mod idt;
pub mod multiboot;
pub mod page;
pub mod table;
pub mod vga;
pub mod memory;

pub use addr::PhysicalAddress;
pub use addr::VirtualAddress;
pub use memory::{Frame, RawFrame, PhysicalMemoryRegion, MemoryRange, FrameAllocator, FrameAllocatorImpl};

verus! {

/// Size in bytes of one page (and of one physical frame).
pub const PAGE_SIZE: usize = 4096;

/// A hardware privilege ring, zero (most privileged) through three.
#[derive(Debug, Copy, Clone, PartialEq, Eq, Structural)]
pub enum PriviledgeLevel {
    RingZero,
    RingOne,
    RingTwo,
    RingThree,
}

impl PriviledgeLevel {
    /// The ring's two-bit hardware encoding.
    pub open spec fn spec_value(self) -> u8 {
        match self {
            PriviledgeLevel::RingZero => 0,
            PriviledgeLevel::RingOne => 1,
            PriviledgeLevel::RingTwo => 2,
            PriviledgeLevel::RingThree => 3,
        }
    }

    pub fn value(self) -> (r: u8)
        ensures
            r == self.spec_value(),
            r <= 3,
    {
        match self {
            PriviledgeLevel::RingZero => 0,
            PriviledgeLevel::RingOne => 1,
            PriviledgeLevel::RingTwo => 2,
            PriviledgeLevel::RingThree => 3,
        }
    }
}

/// Stack and kernel image extents handed over by the boot sequence.
#[derive(Debug, Copy, Clone, PartialEq, Eq, Structural)]
pub struct BootInfo {
    /// Where the stack starts (its highest address).
    pub stack_bottom: u64,
    pub stack_top: u64,
    pub pkernel_start: u64,
    pub pkernel_end: u64,
    pub vkernel_start: u64,
    pub vkernel_end: u64,
}

} // verus!
