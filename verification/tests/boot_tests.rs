use kmem::elf_symbols::{ElfSection, ElfSymbols, SectionType};
use kmem::multiboot::{Entry, EntryType, MemoryMap, Multiboot2Info, TagHeader, Type};
use kmem::memory::MemoryRange;

fn section(section_type: u32, addr: u64) -> ElfSection {
    ElfSection {
        name_offset: 0,
        section_type,
        flags: 0,
        addr,
        offset: 0,
        size: 0x1000,
        link: 0,
        info: 0,
        addr_alignment: 8,
        entry_size: 0,
    }
}

#[test]
fn tag_types() {
    assert_eq!(TagHeader::new(4, 16).tag_type(), Type::MemoryInfo);
    assert_eq!(TagHeader::new(6, 24).tag_type(), Type::MemoryMap);
    assert_eq!(TagHeader::new(9, 20).tag_type(), Type::ElfSymbols);
    assert_eq!(TagHeader::new(21, 12).tag_type(), Type::ImageLoadBase);
    assert_eq!(TagHeader::new(99, 8).tag_type(), Type::Unknown);
}

#[test]
fn entry_types() {
    assert_eq!(Entry::new(0, 0x1000, 1).entry_type(), EntryType::Available);
    assert_eq!(Entry::new(0, 0x1000, 3).entry_type(), EntryType::Acpi);
    assert_eq!(Entry::new(0, 0x1000, 4).entry_type(), EntryType::PreservedHibernation);
    assert_eq!(Entry::new(0, 0x1000, 5).entry_type(), EntryType::Defective);
    assert_eq!(Entry::new(0, 0x1000, 2).entry_type(), EntryType::Reserved);
    assert_eq!(Entry::new(0, 0x1000, 77).entry_type(), EntryType::Reserved);
}

#[test]
fn entry_bounds() {
    let entry = Entry::new(0x8000, 0x2000, 1);
    assert_eq!(entry.start_addr(), 0x8000);
    assert_eq!(entry.end_addr(), 0xA000);
}

#[test]
fn available_filters_entries() {
    let entries = vec![
        Entry::new(0x0, 0x1000, 1),
        Entry::new(0x1000, 0x1000, 2),
        Entry::new(0x2000, 0x3000, 1),
        Entry::new(0x5000, 0x1000, 5),
    ];
    let map = MemoryMap::new(24, 0, entries);
    assert_eq!(map.entries().len(), 4);

    let available = map.available();
    assert_eq!(available.len(), 2);
    assert_eq!(available[0].base_addr, 0x0);
    assert_eq!(available[1].base_addr, 0x2000);
}

#[test]
fn info_memory_region() {
    let info = Multiboot2Info::new(0x9000, 0x120);
    let region = info.memory_region();
    assert!(region.contains(&MemoryRange::new(0x9000, 0x9120)));
    assert!(!region.contains(&MemoryRange::new(0x9000, 0x9121)));
}

#[test]
fn section_types() {
    assert_eq!(section(0, 0).section_type(), SectionType::Null);
    assert_eq!(section(1, 0).section_type(), SectionType::ProgramBits);
    assert_eq!(section(8, 0).section_type(), SectionType::NoBits);
    assert_eq!(section(0x6000_0001, 0).section_type(), SectionType::EnvironmentSpecific);
    assert_eq!(section(0x7FFF_FFFF, 0).section_type(), SectionType::ProcessorSpecific);
    assert_eq!(section(0x1234, 0).section_type(), SectionType::Unknown);
    assert_eq!(section(0x1234, 0).section_type_raw(), 0x1234);
}

#[test]
fn section_flags_keep_known_bits() {
    let mut s = section(1, 0);
    s.flags = 0xFF;
    assert_eq!(s.flags().bits, 0x7);
    s.flags = 0x2;
    assert_eq!(s.flags().bits, 0x2);
}

#[test]
fn kernel_region_bounds_sections() {
    let sections = vec![
        section(0, 0),  // null placeholder, ignored
        section(1, 0x20_0000),
        section(1, 0x10_0000),
        section(8, 0x30_0000),
    ];
    let symbols = ElfSymbols::new(64, 0, sections);
    assert_eq!(symbols.sections().len(), 4);
    let region = symbols.kernel_memory_region();
    assert!(region.contains(&MemoryRange::new(0x10_0000, 0x30_0000)));
    assert!(!region.contains(&MemoryRange::new(0x0F_0000, 0x30_0000)));
}
