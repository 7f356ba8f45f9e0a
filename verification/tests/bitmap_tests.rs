use kmem::addr::PhysicalAddress;
use kmem::bitmap::{BootstrapAllocatorImpl, FixedBitmap};
use kmem::memory::{FrameAllocatorImpl, PhysicalMemoryRegion, RawFrame};

#[test]
fn first_entry() {
    let mut bitmap = FixedBitmap::new();

    bitmap.set(0);

    assert!(bitmap.is_set(0));
}

#[test]
fn aligned_first() {
    let region = PhysicalMemoryRegion::new(PhysicalAddress::new(0x1000), 0x5000);
    let mut bitmap_alloc = BootstrapAllocatorImpl::new();
    bitmap_alloc.init(region);

    assert_eq!(bitmap_alloc.allocate(), Some(RawFrame { num: 0x1 }));
}

#[test]
fn set() {
    let mut bitmap = FixedBitmap::new();

    bitmap.set(0);
    bitmap.set(20);
    bitmap.set(21);
    bitmap.set(300);
    bitmap.set(420);

    assert!(bitmap.is_set(0));
    assert!(bitmap.is_set(20));
    assert!(bitmap.is_set(21));
    assert!(bitmap.is_set(300));
    assert!(bitmap.is_set(420));
}

#[test]
fn unset() {
    let mut bitmap = FixedBitmap::new();

    bitmap.set(20);
    bitmap.set(21);
    bitmap.unset(20);

    assert!(!bitmap.is_set(20));
    assert!(bitmap.is_set(21));
}

#[test]
fn range() {
    let mut bitmap = FixedBitmap::new();

    bitmap.set(20);
    bitmap.set(21);
    bitmap.unset(20);

    assert_eq!(bitmap.contiguous_range(3), Some(0));
    bitmap.set(2);
    assert_eq!(bitmap.contiguous_range(3), Some(3));
    bitmap.set(4);
    bitmap.set(6);
    bitmap.set(10);
    assert_eq!(bitmap.contiguous_range(3), Some(7));
    bitmap.set(9);
    assert_eq!(bitmap.contiguous_range(3), Some(11));
}

#[test]
fn next_free() {
    let mut bitmap = FixedBitmap::new();

    assert_eq!(bitmap.first_unset(), Some(0));
    bitmap.set(0);
    assert_eq!(bitmap.first_unset(), Some(1));
    bitmap.set(6);
    assert_eq!(bitmap.first_unset(), Some(1));
    bitmap.set(1);
    bitmap.set(2);
    bitmap.set(3);
    bitmap.set(4);
    bitmap.set(6);
    bitmap.set(7);
    assert_eq!(bitmap.first_unset(), Some(5));
    bitmap.set(5);
    assert_eq!(bitmap.first_unset(), Some(8));
}

#[test]
fn bitmap_alloc() {
    let region = PhysicalMemoryRegion::new(PhysicalAddress::new(0x1300), 0x5000);
    let mut bitmap_alloc = BootstrapAllocatorImpl::new();
    bitmap_alloc.init(region);

    assert_eq!(bitmap_alloc.allocate(), Some(RawFrame { num: 0x2 }));
    assert_eq!(bitmap_alloc.allocate(), Some(RawFrame { num: 0x3 }));
    assert_eq!(bitmap_alloc.allocate(), Some(RawFrame { num: 0x4 }));
    assert_eq!(bitmap_alloc.allocate(), Some(RawFrame { num: 0x5 }));
    assert_eq!(bitmap_alloc.allocate(), None);
    assert_eq!(bitmap_alloc.allocate(), None);

    bitmap_alloc.dealloc(RawFrame { num: 0x3 });
    bitmap_alloc.dealloc(RawFrame { num: 0x5 });
    assert_eq!(bitmap_alloc.allocate(), Some(RawFrame { num: 0x3 }));
    assert_eq!(bitmap_alloc.allocate(), Some(RawFrame { num: 0x5 }));
    assert_eq!(bitmap_alloc.allocate(), None);
}

#[test]
fn alloc_sub_range() {
    let region = PhysicalMemoryRegion::new(PhysicalAddress::new(0x1300), 0x5000);
    let mut bitmap_alloc = BootstrapAllocatorImpl::new();
    bitmap_alloc.init(region);

    assert_eq!(
        bitmap_alloc.alloc_range(4096),
        Some(PhysicalMemoryRegion::new(PhysicalAddress::new(0x2000), 4096))
    );
    assert_eq!(
        bitmap_alloc.alloc_range(8192),
        Some(PhysicalMemoryRegion::new(PhysicalAddress::new(0x3000), 8192))
    );
    assert_eq!(bitmap_alloc.allocate(), Some(RawFrame { num: 5 }));
    assert_eq!(bitmap_alloc.allocate(), None);
    assert_eq!(bitmap_alloc.alloc_range(4096), None);
    assert_eq!(bitmap_alloc.alloc_range(8192), None);
}

#[test]
fn bitmap_size() {
    let bitmap = FixedBitmap::new();
    assert_eq!(bitmap.size(), 4096);
}
