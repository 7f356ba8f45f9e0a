use kmem::addr::{PhysicalAddress, VirtualAddress};
use kmem::bitmap::BootstrapAllocatorImpl;
use kmem::bump::BumpAllocator;
use kmem::memory::{Frame, FrameAllocator, FrameAllocatorImpl, MemoryRange, PhysicalMemoryRegion};
use kmem::page::Page;
use kmem::table::{Entry, MapError, Mapper, RecursivePageTable};

#[test]
fn get_page_numbers() {
    let page = Page::new(0o_246_135_654_321);
    assert_eq!(page.level4_page_number(), 0o246);
    assert_eq!(page.level3_page_number(), 0o135);
    assert_eq!(page.level2_page_number(), 0o654);
    assert_eq!(page.level1_page_number(), 0o321);
}

#[test]
fn page_from_addr() {
    assert_eq!(Page::containing(VirtualAddress::new(0x02000)).num(), 2);
    assert_eq!(Page::containing(VirtualAddress::new(0x02FFF)).num(), 2);
}

#[test]
fn entry_encoding() {
    let frame = Frame::from_num(0xB8);
    let entry = Entry::new(&frame, 0x3);
    assert!(entry.is_present());
    assert_eq!(entry.addr(), PhysicalAddress::new(0xB8 * 4096));
    assert_eq!(entry.flags(), 0x3);

    let empty = Entry::empty();
    assert!(!empty.is_present());
    assert_eq!(empty.addr(), PhysicalAddress::new(0));

    let mut cleared = Entry::new(&frame, 0x3);
    cleared.clear();
    assert!(!cleared.is_present());
}

fn test_allocator() -> BootstrapAllocatorImpl {
    // arena [0x10000, 0x50000): frames 0x10 .. 0x50
    let region = PhysicalMemoryRegion::new(PhysicalAddress::new(0x10000), 0x40000);
    let mut alloc = BootstrapAllocatorImpl::new();
    alloc.init(region);
    alloc
}

#[test]
fn map_then_unmap_leaves_no_mapping() {
    let mut alloc = test_allocator();
    let root = alloc.allocate().expect("arena should have room for the root");
    let mut mapper = Mapper::new(RecursivePageTable::new(root.num as u64));

    let page = Page::containing(VirtualAddress::new(0xFFFF_DEAD_BEEF_B000));
    let frame = Frame::containing(0xB_8000);

    assert_eq!(mapper.translate(page), None);
    mapper.map(page, frame, &mut alloc).expect("mapping should succeed");
    assert_eq!(mapper.translate(page), Some(0xB8));

    mapper.unmap(page).expect("unmapping a mapped page should succeed");
    assert_eq!(mapper.translate(page), None);
}

#[test]
fn map_no_alloc_fails_without_tables() {
    let mut alloc = test_allocator();
    let root = alloc.allocate().unwrap();
    let mut mapper = Mapper::new(RecursivePageTable::new(root.num as u64));

    let page = Page::new(0o_111_222_333_444);
    let frame = Frame::from_num(0xB8);

    // no level-3 table exists yet, and the failed call creates nothing
    assert_eq!(mapper.map_no_alloc(page, frame), Err(MapError::Level3TableNotMapped));
    assert_eq!(mapper.map_no_alloc(page, frame), Err(MapError::Level3TableNotMapped));

    // after an allocating map, the same call finds the whole path
    mapper.map(page, frame, &mut alloc).unwrap();
    let frame2 = Frame::from_num(0xB9);
    assert_eq!(mapper.map_no_alloc(page, frame2), Ok(()));
    assert_eq!(mapper.translate(page), Some(0xB9));
}

#[test]
fn unmap_keeps_intermediate_tables() {
    let mut alloc = test_allocator();
    let root = alloc.allocate().unwrap();
    let mut mapper = Mapper::new(RecursivePageTable::new(root.num as u64));

    let page = Page::new(0o_246_135_654_321);
    let frame = Frame::from_num(0x42);
    mapper.map(page, frame, &mut alloc).unwrap();
    mapper.unmap(page).unwrap();

    // the intermediate tables were not reclaimed: an allocation-free
    // remap of the same page succeeds
    assert_eq!(mapper.map_no_alloc(page, frame), Ok(()));
    assert_eq!(mapper.translate(page), Some(0x42));
}

#[test]
fn map_distinct_pages_coexist() {
    let mut alloc = test_allocator();
    let root = alloc.allocate().unwrap();
    let mut mapper = Mapper::new(RecursivePageTable::new(root.num as u64));

    let a = Page::new(0o_246_135_654_321);
    let b = Page::new(0o_246_135_654_322);
    let c = Page::new(0o_111_135_654_321);
    mapper.map(a, Frame::from_num(0x41), &mut alloc).unwrap();
    mapper.map(b, Frame::from_num(0x42), &mut alloc).unwrap();
    mapper.map(c, Frame::from_num(0x43), &mut alloc).unwrap();
    assert_eq!(mapper.translate(a), Some(0x41));
    assert_eq!(mapper.translate(b), Some(0x42));
    assert_eq!(mapper.translate(c), Some(0x43));

    mapper.unmap(b).unwrap();
    assert_eq!(mapper.translate(a), Some(0x41));
    assert_eq!(mapper.translate(b), None);
    assert_eq!(mapper.translate(c), Some(0x43));
}

#[test]
fn map_out_of_memory() {
    // an arena with room for the root table only
    let region = PhysicalMemoryRegion::new(PhysicalAddress::new(0x10000), 0x1000);
    let mut alloc = BootstrapAllocatorImpl::new();
    alloc.init(region);
    let root = alloc.allocate().unwrap();
    let mut mapper = Mapper::new(RecursivePageTable::new(root.num as u64));

    let page = Page::new(0o_246_135_654_321);
    let frame = Frame::from_num(0x42);
    assert_eq!(mapper.map(page, frame, &mut alloc), Err(MapError::OutOfMemory));
    assert_eq!(mapper.translate(page), None);
}

#[test]
fn unmap_missing_levels() {
    let mut alloc = test_allocator();
    let root = alloc.allocate().unwrap();
    let mut mapper = Mapper::new(RecursivePageTable::new(root.num as u64));

    let page = Page::new(0o_246_135_654_321);
    assert_eq!(mapper.unmap(page), Err(MapError::Level3TableNotMapped));

    mapper.map(page, Frame::from_num(0x42), &mut alloc).unwrap();
    // a page sharing only the level-4 slot stops one level further down
    let sibling = Page::new(0o_246_136_654_321);
    assert_eq!(mapper.unmap(sibling), Err(MapError::Level2TableNotMapped));
    let cousin = Page::new(0o_246_135_655_321);
    assert_eq!(mapper.unmap(cousin), Err(MapError::Level1TableNotMapped));
}

#[test]
fn map_with_bump_allocator() {
    // the mapper is generic over the allocator strategy: drive it from
    // the bump allocator instead of the bitmap one
    let regions = vec![MemoryRange::new(0x10000, 0x20000)];
    let mut alloc = BumpAllocator::new(regions);
    let root = alloc.allocate().unwrap();
    let mut mapper = Mapper::new(RecursivePageTable::new(root.num() as u64));

    let page = Page::new(0o_246_135_654_321);
    mapper.map(page, Frame::from_num(0x99), &mut alloc).unwrap();
    assert_eq!(mapper.translate(page), Some(0x99));
}

#[test]
fn addresses_are_ordered() {
    assert!(PhysicalAddress::new(0x1000) < PhysicalAddress::new(0x2000));
    assert!(PhysicalAddress::new(0x2000) <= PhysicalAddress::new(0x2000));
}
