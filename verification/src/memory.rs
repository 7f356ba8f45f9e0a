//! Architecture-independent memory management: owned physical regions and
//! their arithmetic, frame handles, and the frame-allocator capability
//! traits shared by the bitmap and bump strategies.

use vstd::prelude::*;

verus! {

use crate::addr::PhysicalAddress;
use crate::PAGE_SIZE;

/// Frame numbers fit 40 bits: 52-bit physical addresses (the width a
/// page-table entry can hold) less the 12-bit page offset.
pub const FRAME_NUM_LIMIT: u64 = 0x100_0000_0000;

/// A handle to one physical page-sized unit, identified by frame number.
#[derive(Debug, Copy, Clone, PartialEq, Eq, Structural)]
pub struct Frame {
    num: usize,
}

impl Frame {
    /// The frame number.
    pub closed spec fn view(self) -> usize {
        self.num
    }

    pub fn num(&self) -> (r: usize)
        ensures
            r == self@,
    {
        self.num
    }

    /// The first physical address of this frame.
    pub fn addr(&self) -> (r: PhysicalAddress)
        requires
            self@ * PAGE_SIZE <= usize::MAX,
        ensures
            r@ == self@ * PAGE_SIZE,
    {
        PhysicalAddress::from_usize(self.num * PAGE_SIZE)
    }

    /// The frame containing the given physical address.
    pub fn containing(addr: usize) -> (r: Frame)
        ensures
            r@ == addr as int / PAGE_SIZE as int,
    {
        Frame { num: addr / PAGE_SIZE }
    }

    pub fn from_num(num: usize) -> (r: Frame)
        ensures
            r@ == num,
    {
        Frame { num }
    }
}

/// A frame as handed out by an allocator strategy, before it is wrapped
/// in a `Frame` handle.
#[derive(Debug, Copy, Clone, PartialEq, Eq, Structural, PartialOrd, Ord)]
pub struct RawFrame {
    pub num: usize,
}

/// An owned, contiguous chunk of physical memory `[base, base + size)`.
#[derive(Debug, PartialEq, Eq, Structural)]
pub struct PhysicalMemoryRegion {
    pub base: PhysicalAddress,
    pub size: usize,
}

impl PhysicalMemoryRegion {
    /// The region's end stays within the 64-bit physical address space.
    pub open spec fn wf(&self) -> bool {
        self.base@ + self.size <= u64::MAX
    }

    pub open spec fn spec_start(&self) -> int {
        self.base@ as int
    }

    pub open spec fn spec_end(&self) -> int {
        self.base@ + self.size
    }

    /// The piece of `self` that lies strictly before `other`, described
    /// as its start and size.
    pub open spec fn sub_left(&self, other: &PhysicalMemoryRegion) -> Option<(int, int)> {
        let cut = if self.spec_end() <= other.spec_start() {
            self.spec_end()
        } else {
            other.spec_start()
        };
        if self.spec_start() < cut {
            Some((self.spec_start(), cut - self.spec_start()))
        } else {
            None
        }
    }

    /// The piece of `self` that lies strictly after `other`, described
    /// as its start and size.
    pub open spec fn sub_right(&self, other: &PhysicalMemoryRegion) -> Option<(int, int)> {
        let cut = if self.spec_start() >= other.spec_end() {
            self.spec_start()
        } else {
            other.spec_end()
        };
        if cut < self.spec_end() {
            Some((cut, self.spec_end() - cut))
        } else {
            None
        }
    }

    /// `r` is the region that descriptor `d` (a start and a size)
    /// describes, or no region at all.
    pub open spec fn matches_desc(r: Option<PhysicalMemoryRegion>, d: Option<(int, int)>) -> bool {
        match (r, d) {
            (Some(piece), Some(desc)) => piece.base@ == desc.0 && piece.size == desc.1
                && piece.wf(),
            (None, None) => true,
            _ => false,
        }
    }

    /// An empty region; by definition it controls no memory.
    pub fn empty() -> (r: PhysicalMemoryRegion)
        ensures
            r.base@ == 0,
            r.size == 0,
            r.wf(),
    {
        PhysicalMemoryRegion { base: PhysicalAddress::new(0), size: 0 }
    }

    pub fn new(base: PhysicalAddress, size: usize) -> (r: PhysicalMemoryRegion)
        ensures
            r.base == base,
            r.size == size,
    {
        PhysicalMemoryRegion { base, size }
    }

    /// The region a boot-time memory-map entry describes.
    pub fn from_multiboot(entry: &crate::multiboot::Entry) -> (r: PhysicalMemoryRegion)
        requires
            entry.base_addr + entry.length <= u64::MAX,
            entry.length <= usize::MAX,
        ensures
            r.base@ == entry.base_addr,
            r.size == entry.length,
            r.wf(),
    {
        PhysicalMemoryRegion {
            base: PhysicalAddress::new(entry.start_addr()),
            size: entry.length as usize,
        }
    }

    /// Removes the first `amount` bytes from this region and returns them
    /// as a new region; the two never alias. Taking more than the region
    /// holds is a caller error.
    pub fn take(&mut self, amount: usize) -> (r: PhysicalMemoryRegion)
        requires
            old(self).wf(),
            amount <= old(self).size,
        ensures
            final (self).wf(),
            final (self).base@ == old(self).base@ + amount,
            final (self).size == old(self).size - amount,
            r.base == old(self).base,
            r.size == amount,
            r.wf(),
    {
        let old_base = self.base;
        self.base = self.base.add(amount as u64);
        self.size = self.size - amount;

        PhysicalMemoryRegion { base: old_base, size: amount }
    }

    /// The first address past this region.
    pub fn end(&self) -> (r: PhysicalAddress)
        requires
            self.wf(),
        ensures
            r@ == self.spec_end(),
    {
        self.base.add(self.size as u64)
    }

    /// Removes the overlap with `other` from `self` and returns what is
    /// left: the piece before `other` and the piece after it. A region
    /// that does not overlap `other` comes back whole, on the side of
    /// `other` where it lies; zero-length leftovers are suppressed.
    pub fn subtract(self, other: &PhysicalMemoryRegion) -> (r: (
        Option<PhysicalMemoryRegion>,
        Option<PhysicalMemoryRegion>,
    ))
        requires
            self.wf(),
            other.wf(),
        ensures
            PhysicalMemoryRegion::matches_desc(r.0, self.sub_left(other)),
            PhysicalMemoryRegion::matches_desc(r.1, self.sub_right(other)),
    {
        let self_end = self.end();
        let other_end = other.end();

        let left_cut = if self_end.as_u64() <= other.base.as_u64() {
            self_end
        } else {
            other.base
        };
        let left = if self.base.as_u64() < left_cut.as_u64() {
            Some(
                PhysicalMemoryRegion {
                    base: self.base,
                    size: (left_cut.as_u64() - self.base.as_u64()) as usize,
                },
            )
        } else {
            None
        };

        let right_cut = if self.base.as_u64() >= other_end.as_u64() {
            self.base
        } else {
            other_end
        };
        let right = if right_cut.as_u64() < self_end.as_u64() {
            Some(
                PhysicalMemoryRegion {
                    base: right_cut,
                    size: (self_end.as_u64() - right_cut.as_u64()) as usize,
                },
            )
        } else {
            None
        };

        (left, right)
    }

    /// The overlap of `self` and `other`, or nothing when they are
    /// disjoint (touching only at an edge counts as disjoint).
    pub fn intersection(&self, other: &PhysicalMemoryRegion) -> (r: Option<PhysicalMemoryRegion>)
        requires
            self.wf(),
            other.wf(),
        ensures
            ({
                let lo = if self.spec_start() >= other.spec_start() {
                    self.spec_start()
                } else {
                    other.spec_start()
                };
                let hi = if self.spec_end() <= other.spec_end() {
                    self.spec_end()
                } else {
                    other.spec_end()
                };
                match r {
                    Some(overlap) => lo < hi && overlap.base@ == lo && overlap.size == hi - lo,
                    None => lo >= hi,
                }
            }),
    {
        let lo = if self.base.as_u64() >= other.base.as_u64() {
            self.base
        } else {
            other.base
        };
        let self_end = self.end();
        let other_end = other.end();
        let hi = if self_end.as_u64() <= other_end.as_u64() {
            self_end
        } else {
            other_end
        };
        if lo.as_u64() < hi.as_u64() {
            Some(PhysicalMemoryRegion { base: lo, size: (hi.as_u64() - lo.as_u64()) as usize })
        } else {
            None
        }
    }
}

/// Subtracting a region that sits strictly inside `self` leaves exactly
/// two pieces, which together with the subtracted region tile `self`
/// back-to-back; subtracting a region that covers `self` exactly leaves
/// nothing.
pub proof fn lemma_subtract_reconstructs(region: PhysicalMemoryRegion, other: PhysicalMemoryRegion)
    requires
        region.wf(),
        other.wf(),
    ensures
        region.spec_start() < other.spec_start() && other.spec_end() < region.spec_end() ==> ({
            &&& region.sub_left(&other) matches Some(l) && l.0 == region.spec_start() && l.0 + l.1
                == other.spec_start()
            &&& region.sub_right(&other) matches Some(t) && t.0 == other.spec_end() && t.0 + t.1
                == region.spec_end()
            &&& region.sub_left(&other).unwrap().1 + other.size + region.sub_right(
                &other,
            ).unwrap().1 == region.size
        }),
        region.spec_start() == other.spec_start() && other.spec_end() == region.spec_end() ==> ({
            region.sub_left(&other) is None && region.sub_right(&other) is None
        }),
{
}

/// A half-open range of physical addresses, without ownership.
#[derive(Debug, Copy, Clone, PartialEq, Eq, Structural)]
pub struct MemoryRange {
    start_addr: PhysicalAddress,
    end_addr: PhysicalAddress,
}

impl MemoryRange {
    pub closed spec fn spec_start(&self) -> int {
        self.start_addr@ as int
    }

    pub closed spec fn spec_end(&self) -> int {
        self.end_addr@ as int
    }

    pub open spec fn wf(&self) -> bool {
        self.spec_start() <= self.spec_end() && self.spec_end() <= usize::MAX
    }

    /// The set of frames that lie entirely inside this range.
    pub open spec fn frames(&self) -> Set<usize> {
        Set::new(
            |num: usize|
                self.spec_start() <= num * PAGE_SIZE && (num + 1) * PAGE_SIZE <= self.spec_end(),
        )
    }

    /// A range running backwards is a caller error.
    pub fn new(start_addr: usize, end_addr: usize) -> (r: MemoryRange)
        requires
            start_addr <= end_addr,
        ensures
            r.spec_start() == start_addr,
            r.spec_end() == end_addr,
            r.wf(),
    {
        MemoryRange {
            start_addr: PhysicalAddress::from_usize(start_addr),
            end_addr: PhysicalAddress::from_usize(end_addr),
        }
    }

    pub fn start_addr(&self) -> (r: PhysicalAddress)
        ensures
            r@ == self.spec_start(),
    {
        self.start_addr
    }

    pub fn end_addr(&self) -> (r: PhysicalAddress)
        ensures
            r@ == self.spec_end(),
    {
        self.end_addr
    }

    /// True when this range entirely contains `region`.
    pub fn contains(&self, region: &MemoryRange) -> (r: bool)
        ensures
            r == (self.spec_start() <= region.spec_start() && region.spec_end()
                <= self.spec_end()),
    {
        self.start_addr.as_u64() <= region.start_addr.as_u64() && region.end_addr.as_u64()
            <= self.end_addr.as_u64()
    }

    /// True when `frame` lies entirely inside this range.
    pub fn contains_frame(&self, frame: &Frame) -> (r: bool)
        requires
            self.wf(),
            (frame@ + 1) * PAGE_SIZE <= usize::MAX,
        ensures
            r == self.frames().contains(frame@),
    {
        let start = frame.num() * PAGE_SIZE;
        self.start_addr.as_usize() <= start && start + PAGE_SIZE <= self.end_addr.as_usize()
    }
}

/// The capability every frame-allocator strategy offers: allocate one
/// frame, release one frame. `allocated()` is the set of frame numbers
/// currently handed out and not yet released.
pub trait FrameAllocator: Sized {
    spec fn wf(&self) -> bool;

    spec fn allocated(&self) -> Set<usize>;

    /// Whether the strategy still has a frame to hand out.
    spec fn can_allocate(&self) -> bool;

    /// On which frames `dealloc` is allowed; releasing any other frame is
    /// a caller error.
    spec fn can_dealloc(&self, num: usize) -> bool;

    /// Allocates a frame that is not currently handed out, succeeding
    /// exactly as long as the strategy is not exhausted; exhaustion has
    /// no side effect. Every frame handed out backs a real physical
    /// page, so its number fits the width of a page-table entry.
    fn allocate(&mut self) -> (r: Option<Frame>)
        requires
            old(self).wf(),
        ensures
            final (self).wf(),
            r is Some <==> old(self).can_allocate(),
            match r {
                Some(f) => !old(self).allocated().contains(f@) && final (self).allocated() == old(
                    self,
                ).allocated().insert(f@) && (f@ as u64) < FRAME_NUM_LIMIT,
                None => final (self).allocated() == old(self).allocated()
                    && !final (self).can_allocate(),
            },
    ;

    /// Returns one allocated frame to the allocator: exactly one release
    /// per allocation.
    fn dealloc(&mut self, frame: Frame)
        requires
            old(self).wf(),
            old(self).can_dealloc(frame@),
        ensures
            final (self).wf(),
            final (self).allocated() == old(self).allocated().remove(frame@),
    ;
}

/// Construction and seeding of a bootstrap-style allocator strategy: it
/// is built empty and then initialized exactly once with the arena it
/// will manage.
pub trait FrameAllocatorImpl: FrameAllocator {
    spec fn is_seeded(&self) -> bool;

    fn new() -> (r: Self)
        ensures
            r.wf(),
            !r.is_seeded(),
            r.allocated() == Set::<usize>::empty(),
    ;

    /// Hands the allocator the arena it manages. Seeding an allocator a
    /// second time is a caller error; the arena must not be empty and
    /// must fit the machine's address width.
    fn init(&mut self, arena: PhysicalMemoryRegion)
        requires
            old(self).wf(),
            !old(self).is_seeded(),
            old(self).allocated() == Set::<usize>::empty(),
            arena.wf(),
            0 < arena.size,
            arena.spec_end() <= usize::MAX,
            arena.spec_end() <= FRAME_NUM_LIMIT * PAGE_SIZE,
            arena.spec_start() + PAGE_SIZE <= usize::MAX,
        ensures
            final (self).wf(),
            final (self).is_seeded(),
            final (self).allocated() == old(self).allocated(),
    ;
}

} // verus!
