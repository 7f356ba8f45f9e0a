//! Boot-information records, held as plain values: the tag header and
//! its type code, the physical memory map, and the kernel image's ELF
//! section headers. Reading these structures out of the raw boot image
//! is the embedding program's job; the logic over them lives here.

use vstd::prelude::*;

verus! {

use crate::memory::MemoryRange;

/// The kinds of boot-information tag.
#[derive(Debug, Copy, Clone, PartialEq, Eq, Structural)]
pub enum Type {
    MemoryInfo,
    BiosBoot,
    BootCmdLine,
    Modules,
    ElfSymbols,
    MemoryMap,
    BootLoaderName,
    ApmTable,
    VbeInfo,
    FramebufferInfo,
    Efi32SystemTable,
    Efi64SystemTable,
    SMBiosTable,
    AcpiOldRdsp,
    AcpiNewRdsp,
    NetworkingInfo,
    EfiMemoryMap,
    EfiBootServicesNotTerminated,
    Efi32ImageHandle,
    Efi64ImageHandle,
    ImageLoadBase,
    Unknown,
}

/// The tag kind a raw type code stands for.
pub open spec fn spec_tag_type(t: u32) -> Type {
    if t == 4 {
        Type::MemoryInfo
    } else if t == 5 {
        Type::BiosBoot
    } else if t == 1 {
        Type::BootCmdLine
    } else if t == 3 {
        Type::Modules
    } else if t == 9 {
        Type::ElfSymbols
    } else if t == 6 {
        Type::MemoryMap
    } else if t == 2 {
        Type::BootLoaderName
    } else if t == 10 {
        Type::ApmTable
    } else if t == 7 {
        Type::VbeInfo
    } else if t == 8 {
        Type::FramebufferInfo
    } else if t == 11 {
        Type::Efi32SystemTable
    } else if t == 12 {
        Type::Efi64SystemTable
    } else if t == 13 {
        Type::SMBiosTable
    } else if t == 14 {
        Type::AcpiOldRdsp
    } else if t == 15 {
        Type::AcpiNewRdsp
    } else if t == 16 {
        Type::NetworkingInfo
    } else if t == 17 {
        Type::EfiMemoryMap
    } else if t == 18 {
        Type::EfiBootServicesNotTerminated
    } else if t == 19 {
        Type::Efi32ImageHandle
    } else if t == 20 {
        Type::Efi64ImageHandle
    } else if t == 21 {
        Type::ImageLoadBase
    } else {
        Type::Unknown
    }
}

/// The header every boot-information tag starts with.
#[derive(Debug, Copy, Clone, PartialEq, Eq, Structural)]
pub struct TagHeader {
    pub tag_type: u32,
    pub size: u32,
}

impl TagHeader {
    pub fn new(tag_type: u32, size: u32) -> (r: TagHeader)
        ensures
            r == (TagHeader { tag_type, size }),
    {
        TagHeader { tag_type, size }
    }

    /// The kind of tag this header announces.
    pub fn tag_type(&self) -> (r: Type)
        ensures
            r == spec_tag_type(self.tag_type),
    {
        match self.tag_type {
            4 => Type::MemoryInfo,
            5 => Type::BiosBoot,
            1 => Type::BootCmdLine,
            3 => Type::Modules,
            9 => Type::ElfSymbols,
            6 => Type::MemoryMap,
            2 => Type::BootLoaderName,
            10 => Type::ApmTable,
            7 => Type::VbeInfo,
            8 => Type::FramebufferInfo,
            11 => Type::Efi32SystemTable,
            12 => Type::Efi64SystemTable,
            13 => Type::SMBiosTable,
            14 => Type::AcpiOldRdsp,
            15 => Type::AcpiNewRdsp,
            16 => Type::NetworkingInfo,
            17 => Type::EfiMemoryMap,
            18 => Type::EfiBootServicesNotTerminated,
            19 => Type::Efi32ImageHandle,
            20 => Type::Efi64ImageHandle,
            21 => Type::ImageLoadBase,
            _ => Type::Unknown,
        }
    }
}

/// What a memory-map entry's range of physical memory is good for.
#[derive(Debug, Copy, Clone, PartialEq, Eq, Structural)]
pub enum EntryType {
    Reserved,
    Available,
    Acpi,
    PreservedHibernation,
    Defective,
}

/// The use a raw entry type code declares.
pub open spec fn spec_entry_type(t: u32) -> EntryType {
    if t == 1 {
        EntryType::Available
    } else if t == 3 {
        EntryType::Acpi
    } else if t == 4 {
        EntryType::PreservedHibernation
    } else if t == 5 {
        EntryType::Defective
    } else {
        EntryType::Reserved
    }
}

/// One entry of the boot-time physical memory map: a byte range and its
/// declared use.
#[derive(Debug, Copy, Clone, PartialEq, Eq, Structural)]
pub struct Entry {
    pub base_addr: u64,
    pub length: u64,
    pub entry_type: u32,
}

impl Entry {
    pub fn new(base_addr: u64, length: u64, entry_type: u32) -> (r: Entry)
        ensures
            r.base_addr == base_addr,
            r.length == length,
            r.entry_type == entry_type,
    {
        Entry { base_addr, length, entry_type }
    }

    pub fn start_addr(&self) -> (r: u64)
        ensures
            r == self.base_addr,
    {
        self.base_addr
    }

    pub fn end_addr(&self) -> (r: u64)
        requires
            self.base_addr + self.length <= u64::MAX,
        ensures
            r == self.base_addr + self.length,
    {
        self.base_addr + self.length
    }

    pub fn entry_type(&self) -> (r: EntryType)
        ensures
            r == spec_entry_type(self.entry_type),
    {
        match self.entry_type {
            1 => EntryType::Available,
            3 => EntryType::Acpi,
            4 => EntryType::PreservedHibernation,
            5 => EntryType::Defective,
            _ => EntryType::Reserved,
        }
    }
}

/// The boot-time physical memory map.
pub struct MemoryMap {
    entry_size: u32,
    entry_version: u32,
    entries: Vec<Entry>,
}

impl MemoryMap {
    pub closed spec fn view(&self) -> Seq<Entry> {
        self.entries@
    }

    pub fn new(entry_size: u32, entry_version: u32, entries: Vec<Entry>) -> (r: MemoryMap)
        ensures
            r@ == entries@,
    {
        MemoryMap { entry_size, entry_version, entries }
    }

    /// All entries, in map order.
    pub fn entries(&self) -> (r: &Vec<Entry>)
        ensures
            r@ == self@,
    {
        &self.entries
    }

    /// The entries declared available for general use, in map order.
    pub fn available(&self) -> (r: Vec<Entry>)
        ensures
            r@ == self@.filter(
                |e: Entry| spec_entry_type(e.entry_type) == EntryType::Available,
            ),
    {
        let mut r: Vec<Entry> = Vec::new();
        let mut i: usize = 0;
        while i < self.entries.len()
            invariant
                i <= self@.len(),
                r@ == self@.take(i as int).filter(
                    |e: Entry| spec_entry_type(e.entry_type) == EntryType::Available,
                ),
            decreases self@.len() - i,
        {
            let entry = self.entries[i];
            let keep = match entry.entry_type() {
                EntryType::Available => true,
                _ => false,
            };
            if keep {
                r.push(entry);
            }
            proof {
                let pred = |e: Entry|
                    spec_entry_type(e.entry_type) == EntryType::Available;
                assert(self@.take(i + 1).drop_last() =~= self@.take(i as int));
                reveal_with_fuel(Seq::filter, 2);
                assert(self@.take(i + 1).filter(pred) =~= r@);
            }
            i = i + 1;
        }
        proof {
            assert(self@.take(self@.len() as int) =~= self@);
        }
        r
    }
}

/// A chunk of the boot information, identified by where it sits in
/// memory and how large it says it is.
#[derive(Debug, Copy, Clone, PartialEq, Eq, Structural)]
pub struct Multiboot2Info {
    pub total_size: u32,
    pub addr: usize,
}

impl Multiboot2Info {
    pub fn new(addr: usize, total_size: u32) -> (r: Multiboot2Info)
        ensures
            r.addr == addr,
            r.total_size == total_size,
    {
        Multiboot2Info { total_size, addr }
    }

    /// The memory range in which the boot information resides.
    pub fn memory_region(&self) -> (r: MemoryRange)
        requires
            self.addr + self.total_size <= usize::MAX,
        ensures
            r.spec_start() == self.addr,
            r.spec_end() == self.addr + self.total_size,
            r.wf(),
    {
        MemoryRange::new(self.addr, self.addr + self.total_size as usize)
    }
}

} // verus!
