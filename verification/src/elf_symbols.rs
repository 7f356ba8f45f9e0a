//! The kernel image's ELF section headers, held as plain values, and the
//! bounds of the memory the image occupies.

use vstd::prelude::*;

verus! {

use crate::memory::MemoryRange;

/// The kinds of ELF section.
#[derive(Debug, Copy, Clone, PartialEq, Eq, Structural)]
pub enum SectionType {
    Null,
    ProgramBits,
    SymbolTable,
    StringTable,
    Rela,
    SymbolHashTable,
    DynamicLinkingTable,
    Note,
    NoBits,
    Rel,
    Reserved,
    DynamicLoaderSymbolTable,
    EnvironmentSpecific,
    ProcessorSpecific,
    Unknown,
}

/// The section kind a raw type code stands for.
pub open spec fn spec_section_type(t: u32) -> SectionType {
    if t == 0 {
        SectionType::Null
    } else if t == 1 {
        SectionType::ProgramBits
    } else if t == 2 {
        SectionType::SymbolTable
    } else if t == 3 {
        SectionType::StringTable
    } else if t == 4 {
        SectionType::Rela
    } else if t == 5 {
        SectionType::SymbolHashTable
    } else if t == 6 {
        SectionType::DynamicLinkingTable
    } else if t == 7 {
        SectionType::Note
    } else if t == 8 {
        SectionType::NoBits
    } else if t == 9 {
        SectionType::Rel
    } else if t == 10 {
        SectionType::Reserved
    } else if t == 11 {
        SectionType::DynamicLoaderSymbolTable
    } else if 0x6000_0000 <= t <= 0x6FFF_FFFF {
        SectionType::EnvironmentSpecific
    } else if 0x7000_0000 <= t <= 0x7FFF_FFFF {
        SectionType::ProcessorSpecific
    } else {
        SectionType::Unknown
    }
}

/// Attribute flags of a section; only the writable, occupies-memory and
/// executable bits are defined.
#[derive(Debug, Copy, Clone, PartialEq, Eq, Structural)]
pub struct SectionFlags {
    pub bits: u64,
}

/// Writable while the process runs.
pub const SECTION_WRITE: u64 = 0x1;

/// Occupies memory while the process runs.
pub const SECTION_ALLOC: u64 = 0x2;

/// Holds executable instructions.
pub const SECTION_EXEC: u64 = 0x4;

/// One section header of the kernel image, with both 32- and 64-bit
/// headers widened to one record.
#[derive(Debug, Copy, Clone, PartialEq, Eq, Structural)]
pub struct ElfSection {
    /// Offset of the section's name in the string section.
    pub name_offset: u32,
    /// Raw type code of the section.
    pub section_type: u32,
    /// Attribute flags of the section.
    pub flags: u64,
    /// Virtual address of the section's start in memory.
    pub addr: u64,
    /// Offset of the section's contents in the file.
    pub offset: u64,
    /// Size of the section in bytes.
    pub size: u64,
    /// Index of an associated section.
    pub link: u32,
    /// Extra type-specific information.
    pub info: u32,
    /// Required alignment of the section.
    pub addr_alignment: u64,
    /// Size of each fixed-size entry the section holds, or zero.
    pub entry_size: u64,
}

impl ElfSection {
    /// The kind of this section.
    pub fn section_type(&self) -> (r: SectionType)
        ensures
            r == spec_section_type(self.section_type),
    {
        match self.section_type {
            0 => SectionType::Null,
            1 => SectionType::ProgramBits,
            2 => SectionType::SymbolTable,
            3 => SectionType::StringTable,
            4 => SectionType::Rela,
            5 => SectionType::SymbolHashTable,
            6 => SectionType::DynamicLinkingTable,
            7 => SectionType::Note,
            8 => SectionType::NoBits,
            9 => SectionType::Rel,
            10 => SectionType::Reserved,
            11 => SectionType::DynamicLoaderSymbolTable,
            0x6000_0000..=0x6FFF_FFFF => SectionType::EnvironmentSpecific,
            0x7000_0000..=0x7FFF_FFFF => SectionType::ProcessorSpecific,
            _ => SectionType::Unknown,
        }
    }

    /// The raw type code of this section.
    pub fn section_type_raw(&self) -> (r: u32)
        ensures
            r == self.section_type,
    {
        self.section_type
    }

    /// The defined attribute flags of this section; undefined bits are
    /// dropped.
    pub fn flags(&self) -> (r: SectionFlags)
        ensures
            r.bits == self.flags & (SECTION_WRITE | SECTION_ALLOC | SECTION_EXEC),
    {
        SectionFlags { bits: self.flags & (SECTION_WRITE | SECTION_ALLOC | SECTION_EXEC) }
    }
}

/// The kernel image's section headers.
pub struct ElfSymbols {
    entry_size: u32,
    shndx: u32,
    sections: Vec<ElfSection>,
}

impl ElfSymbols {
    pub closed spec fn view(&self) -> Seq<ElfSection> {
        self.sections@
    }

    /// True when some section header is more than a null entry.
    pub open spec fn has_real_section(&self) -> bool {
        exists|i: int| 0 <= i < self@.len() && (#[trigger] self@[i]).section_type != 0
    }

    pub fn new(entry_size: u32, shndx: u32, sections: Vec<ElfSection>) -> (r: ElfSymbols)
        ensures
            r@ == sections@,
    {
        ElfSymbols { entry_size, shndx, sections }
    }

    /// The section headers, in image order.
    pub fn sections(&self) -> (r: &Vec<ElfSection>)
        ensures
            r@ == self@,
    {
        &self.sections
    }

    /// The range from the lowest to the highest start address of any
    /// non-null section: where the kernel image resides in memory. An
    /// image without a single real section is a caller error.
    pub fn kernel_memory_region(&self) -> (r: MemoryRange)
        requires
            self.has_real_section(),
            forall|i: int| 0 <= i < self@.len() ==> (#[trigger] self@[i]).addr <= usize::MAX,
        ensures
            r.wf(),
            exists|i: int|
                0 <= i < self@.len() && (#[trigger] self@[i]).section_type != 0 && r.spec_start()
                    == self@[i].addr,
            exists|i: int|
                0 <= i < self@.len() && (#[trigger] self@[i]).section_type != 0 && r.spec_end()
                    == self@[i].addr,
            forall|i: int|
                0 <= i < self@.len() && (#[trigger] self@[i]).section_type != 0 ==> r.spec_start()
                    <= self@[i].addr <= r.spec_end(),
    {
        let mut start: u64 = 0;
        let mut end: u64 = 0;
        let mut found = false;
        let mut i: usize = 0;
        while i < self.sections.len()
            invariant
                i <= self@.len(),
                forall|j: int| 0 <= j < self@.len() ==> (#[trigger] self@[j]).addr <= usize::MAX,
                !found ==> forall|j: int| 0 <= j < i ==> (#[trigger] self@[j]).section_type == 0,
                found ==> exists|j: int|
                    0 <= j < i && (#[trigger] self@[j]).section_type != 0 && start == self@[j].addr,
                found ==> exists|j: int|
                    0 <= j < i && (#[trigger] self@[j]).section_type != 0 && end == self@[j].addr,
                found ==> forall|j: int|
                    0 <= j < i && (#[trigger] self@[j]).section_type != 0 ==> start <= self@[j].addr
                        <= end,
                found ==> start <= end,
            decreases self@.len() - i,
        {
            let section = self.sections[i];
            if section.section_type_raw() != 0 {
                if !found {
                    start = section.addr;
                    end = section.addr;
                    found = true;
                } else {
                    if section.addr < start {
                        start = section.addr;
                    }
                    if section.addr > end {
                        end = section.addr;
                    }
                }
            }
            i = i + 1;
        }
        proof {
            if !found {
                let w = choose|w: int| 0 <= w < self@.len() && (#[trigger] self@[w]).section_type
                    != 0;
                assert(false);
            }
        }
        MemoryRange::new(start as usize, end as usize)
    }
}

} // verus!
