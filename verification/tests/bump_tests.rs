use kmem::bump::BumpAllocator;
use kmem::memory::{FrameAllocator, MemoryRange};

#[test]
fn bump_alloc() {
    let regions = vec![
        MemoryRange::new(0x100, 0x10000),
        MemoryRange::new(0x10010, 0x10020), // too small, make sure no frames!
        MemoryRange::new(0x20000, 0x50000),
    ];

    let mut allocator = BumpAllocator::new(regions.clone());

    while let Some(frame) = allocator.allocate() {
        assert!(regions.iter().any(|region| region.contains_frame(&frame)));
        assert!(!regions[1].contains_frame(&frame))
    }
}

#[test]
fn alloc_counts_every_frame_once() {
    let regions = vec![
        MemoryRange::new(0x0, 0x3000),
        MemoryRange::new(0x5000, 0x5800),
        MemoryRange::new(0x6000, 0x8000),
    ];
    let mut allocator = BumpAllocator::new(regions);

    let mut frames = Vec::new();
    while let Some(frame) = allocator.allocate() {
        frames.push(frame.num());
    }
    // frames 0..3 from the first region, none from the half-page second
    // one, 6 and 7 from the third, each exactly once and in order
    assert_eq!(frames, vec![0, 1, 2, 6, 7]);
}
