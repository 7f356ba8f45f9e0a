use kmem::addr::{PhysicalAddress, VirtualAddress};
use kmem::memory::PhysicalMemoryRegion;

#[test]
fn valid_addr() {
    VirtualAddress::new(0xFFFF_EAAA_AAAA_AAAA);
}

#[test]
fn truncate() {
    VirtualAddress::new(VirtualAddress::new_truncate(0xFFFF_7AAA_AAAA_AAAA).as_u64());
}

#[test]
fn align() {
    let addr = PhysicalAddress::new(0x3283_2929_1234_1323);
    assert_eq!(
        addr.align_up(4096),
        PhysicalAddress::new(0x3283_2929_1234_2000)
    );
}

#[test]
fn align_is_identity_on_aligned() {
    let addr = PhysicalAddress::new(0x4000);
    assert_eq!(addr.align_up(4096), PhysicalAddress::new(0x4000));
    assert_eq!(addr.align_up(1), PhysicalAddress::new(0x4000));
    let odd = PhysicalAddress::new(0x4001);
    assert_eq!(odd.align_up(2), PhysicalAddress::new(0x4002));
}

#[test]
fn canonical_round_trip() {
    let values = [0u64, 0x7FFF_FFFF_FFFF, 0xFFFF_8000_0000_0000, 0xFFFF_FFFF_FFFF_FFFF];
    for v in values {
        assert_eq!(VirtualAddress::new(v).as_u64(), v);
        assert_eq!(VirtualAddress::new_truncate(v).as_u64(), v);
    }
}

#[test]
fn truncate_sign_extends() {
    assert_eq!(
        VirtualAddress::new_truncate(0x0000_8000_0000_0000).as_u64(),
        0xFFFF_8000_0000_0000
    );
    assert_eq!(
        VirtualAddress::new_truncate(0x0000_7FFF_FFFF_FFFF).as_u64(),
        0x0000_7FFF_FFFF_FFFF
    );
}

#[test]
fn frame_num_round_trip() {
    let addr = PhysicalAddress::from_frame_num(0x1234);
    assert_eq!(addr.as_u64(), 0x1234 * 4096);
    assert_eq!(addr.frame_num(), 0x1234);
    assert_eq!(PhysicalAddress::new(0x5FFF).frame_num(), 5);
}

#[test]
fn take_splits_region() {
    let mut region = PhysicalMemoryRegion::new(PhysicalAddress::new(0x1000), 0x3000);
    let head = region.take(0x1000);
    assert_eq!(head, PhysicalMemoryRegion::new(PhysicalAddress::new(0x1000), 0x1000));
    assert_eq!(region, PhysicalMemoryRegion::new(PhysicalAddress::new(0x2000), 0x2000));
    assert_eq!(region.end(), PhysicalAddress::new(0x4000));
}

#[test]
fn subtract_interior_splits_in_two() {
    let region = PhysicalMemoryRegion::new(PhysicalAddress::new(0x1000), 0x4000);
    let other = PhysicalMemoryRegion::new(PhysicalAddress::new(0x2000), 0x1000);
    let (left, right) = region.subtract(&other);
    assert_eq!(left, Some(PhysicalMemoryRegion::new(PhysicalAddress::new(0x1000), 0x1000)));
    assert_eq!(right, Some(PhysicalMemoryRegion::new(PhysicalAddress::new(0x3000), 0x2000)));
    // the two leftovers and the removed piece tile the region
    let (l, r) = (left.unwrap(), right.unwrap());
    assert_eq!(l.size + other.size + r.size, 0x4000);
    assert_eq!(l.base.as_u64() + l.size as u64, other.base.as_u64());
    assert_eq!(other.base.as_u64() + other.size as u64, r.base.as_u64());
}

#[test]
fn subtract_exact_cover_leaves_nothing() {
    let region = PhysicalMemoryRegion::new(PhysicalAddress::new(0x1000), 0x4000);
    let other = PhysicalMemoryRegion::new(PhysicalAddress::new(0x1000), 0x4000);
    let (left, right) = region.subtract(&other);
    assert_eq!(left, None);
    assert_eq!(right, None);
}

#[test]
fn subtract_head_and_tail_overlap() {
    let head = PhysicalMemoryRegion::new(PhysicalAddress::new(0x1000), 0x4000)
        .subtract(&PhysicalMemoryRegion::new(PhysicalAddress::new(0x0), 0x2000));
    assert_eq!(head.0, None);
    assert_eq!(head.1, Some(PhysicalMemoryRegion::new(PhysicalAddress::new(0x2000), 0x3000)));

    let tail = PhysicalMemoryRegion::new(PhysicalAddress::new(0x1000), 0x4000)
        .subtract(&PhysicalMemoryRegion::new(PhysicalAddress::new(0x4000), 0x2000));
    assert_eq!(tail.0, Some(PhysicalMemoryRegion::new(PhysicalAddress::new(0x1000), 0x3000)));
    assert_eq!(tail.1, None);
}

#[test]
fn subtract_no_overlap_returns_whole() {
    let (left, right) = PhysicalMemoryRegion::new(PhysicalAddress::new(0x1000), 0x1000)
        .subtract(&PhysicalMemoryRegion::new(PhysicalAddress::new(0x8000), 0x1000));
    assert_eq!(left, Some(PhysicalMemoryRegion::new(PhysicalAddress::new(0x1000), 0x1000)));
    assert_eq!(right, None);
}

#[test]
fn intersection_overlap() {
    let a = PhysicalMemoryRegion::new(PhysicalAddress::new(0x1000), 0x3000);
    let b = PhysicalMemoryRegion::new(PhysicalAddress::new(0x2000), 0x4000);
    assert_eq!(
        a.intersection(&b),
        Some(PhysicalMemoryRegion::new(PhysicalAddress::new(0x2000), 0x2000))
    );
    let c = PhysicalMemoryRegion::new(PhysicalAddress::new(0x4000), 0x1000);
    assert_eq!(a.intersection(&c), None);
}
