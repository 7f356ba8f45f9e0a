//! A bump allocator for physical frames: monotonic allocation over a
//! sequence of free regions, with no reclamation.

use vstd::prelude::*;

verus! {

use crate::addr::PhysicalAddress;
use crate::memory::{Frame, FrameAllocator, MemoryRange, FRAME_NUM_LIMIT};
use crate::PAGE_SIZE;
use vstd::arithmetic::div_mod::{lemma_fundamental_div_mod, lemma_fundamental_div_mod_converse};

/// Allocates frames from a sequence of free regions, front to back,
/// never reusing or reclaiming a frame. Deallocation is unsupported by
/// design: this strategy is intentionally incapable of reclamation.
pub struct BumpAllocator {
    free_regions: Vec<MemoryRange>,
    region_idx: usize,
    next_frame: usize,
}

impl BumpAllocator {
    /// The free regions this allocator draws from.
    pub closed spec fn regions(&self) -> Seq<MemoryRange> {
        self.free_regions@
    }

    pub closed spec fn inv(&self) -> bool {
        &&& forall|i: int|
            0 <= i < self.free_regions@.len() ==> (#[trigger] self.free_regions@[i]).wf()
                && self.free_regions@[i].spec_end() <= FRAME_NUM_LIMIT * PAGE_SIZE
        &&& forall|i: int, j: int|
            0 <= i < j < self.free_regions@.len() ==> (#[trigger] self.free_regions@[i]).frames().disjoint(
                #[trigger] self.free_regions@[j].frames(),
            )
        &&& self.region_idx <= self.free_regions@.len()
        &&& self.region_idx < self.free_regions@.len() ==> {
            &&& self.next_frame * PAGE_SIZE
                >= self.free_regions@[self.region_idx as int].spec_start()
            &&& self.next_frame * PAGE_SIZE <= usize::MAX + PAGE_SIZE
        }
    }

    /// The frames handed out so far: every frame of the regions already
    /// exhausted, and the frames of the current region before the cursor.
    pub closed spec fn spec_allocated(&self) -> Set<usize> {
        Set::new(
            |f: usize|
                {
                    ||| exists|i: int|
                        0 <= i < self.region_idx && (#[trigger] self.free_regions@[i]).frames().contains(
                            f,
                        )
                    ||| (self.region_idx < self.free_regions@.len()
                        && self.free_regions@[self.region_idx as int].frames().contains(f) && f
                        < self.next_frame)
                },
        )
    }

    /// Frame `f` of region `i` is still to be handed out: the region is
    /// the current one or a later one, and within the current region the
    /// frame lies at or past the cursor.
    pub closed spec fn is_candidate(&self, i: int, f: usize) -> bool {
        &&& self.region_idx <= i < self.free_regions@.len()
        &&& self.free_regions@[i].frames().contains(f)
        &&& i == self.region_idx ==> f >= self.next_frame
    }

    /// Returns the next page of the current region, advancing to the
    /// following region whenever the current one is exhausted: of all the
    /// frames still to be handed out, the first, in region order. Once
    /// every region is spent it fails permanently.
    pub fn allocate(&mut self) -> (r: Option<Frame>)
        requires
            old(self).inv(),
        ensures
            final (self).inv(),
            final (self).regions() == old(self).regions(),
            match r {
                Some(f) => {
                    &&& !old(self).spec_allocated().contains(f@)
                    &&& final (self).spec_allocated() == old(self).spec_allocated().insert(f@)
                    &&& (f@ as u64) < FRAME_NUM_LIMIT
                    &&& exists|i: int| #[trigger] old(self).is_candidate(i, f@)
                    &&& forall|i: int, i2: int, f2: usize|
                        #[trigger] old(self).is_candidate(i, f@) && #[trigger] old(
                            self,
                        ).is_candidate(i2, f2) ==> i < i2 || (i == i2 && f@ <= f2)
                    &&& forall|i: int, g: usize|
                        #![trigger final (self).is_candidate(i, g)]
                        #![trigger old(self).is_candidate(i, g)]
                        final (self).is_candidate(i, g) <==> (old(self).is_candidate(i, g) && g
                            != f@)
                },
                None => {
                    &&& final (self).spec_allocated() == old(self).spec_allocated()
                    &&& forall|i: int, f: usize| !old(self).is_candidate(i, f)
                    &&& forall|i: int, f: usize| !final (self).is_candidate(i, f)
                },
            },
    {
        loop
            invariant
                self.inv(),
                self.spec_allocated() == old(self).spec_allocated(),
                self.free_regions@ == old(self).free_regions@,
                forall|i: int, f: usize|
                    #![trigger self.is_candidate(i, f)]
                    #![trigger old(self).is_candidate(i, f)]
                    self.is_candidate(i, f) == old(self).is_candidate(i, f),
            decreases self.free_regions@.len() - self.region_idx,
        {
            if self.region_idx >= self.free_regions.len() {
                return None;
            }
            let current = self.free_regions[self.region_idx];
            let end_frames = current.end_addr().as_usize() / PAGE_SIZE;
            proof {
                lemma_fundamental_div_mod(current.spec_end(), PAGE_SIZE as int);
            }
            if self.next_frame + 1 <= end_frames {
                let f = self.next_frame;
                let ghost mid = *self;
                self.next_frame = f + 1;
                proof {
                    let idx = mid.region_idx as int;
                    assert(mid.free_regions@[idx].frames().contains(f));
                    assert(mid.is_candidate(idx, f));
                    if mid.spec_allocated().contains(f) {
                        if exists|i: int|
                            0 <= i < mid.region_idx && (#[trigger] mid.free_regions@[i]).frames().contains(
                                f,
                            ) {
                            let i = choose|i: int|
                                0 <= i < mid.region_idx
                                    && (#[trigger] mid.free_regions@[i]).frames().contains(f);
                            assert(mid.free_regions@[i].frames().disjoint(
                                mid.free_regions@[idx].frames(),
                            ));
                        }
                    }
                    assert(self.spec_allocated() =~= mid.spec_allocated().insert(f));
                    // handing out f removes exactly f from the pending
                    // frames: the cursor moved one past it, and no other
                    // region holds f
                    assert forall|i: int, g: usize|
                        #![trigger self.is_candidate(i, g)]
                        #![trigger mid.is_candidate(i, g)]
                        self.is_candidate(i, g) == (mid.is_candidate(i, g) && g != f) by {
                        if i != idx && g == f {
                            if 0 <= i < mid.free_regions@.len() && i != idx {
                                if i < idx {
                                    assert(mid.free_regions@[i].frames().disjoint(
                                        mid.free_regions@[idx].frames(),
                                    ));
                                } else {
                                    assert(mid.free_regions@[idx].frames().disjoint(
                                        mid.free_regions@[i].frames(),
                                    ));
                                }
                            }
                        }
                    }
                    // minimality: any other pending frame sits in this
                    // region at or past the cursor, or in a later region
                    assert forall|i: int, i2: int, f2: usize|
                        #[trigger] mid.is_candidate(i, f) && #[trigger] mid.is_candidate(i2, f2)
                        implies i < i2 || (i == i2 && f <= f2) by {
                        if i != idx {
                            assert(mid.free_regions@[i].frames().disjoint(
                                mid.free_regions@[idx].frames(),
                            ));
                        }
                    }
                }
                return Some(Frame::from_num(f));
            } else {
                let ghost pre = *self;
                self.region_idx = self.region_idx + 1;
                if self.region_idx < self.free_regions.len() {
                    self.next_frame = first_frame_of(&self.free_regions[self.region_idx]);
                }
                proof {
                    let oidx = pre.region_idx as int;
                    assert forall|g: usize|
                        self.spec_allocated().contains(g) == pre.spec_allocated().contains(g) by {
                        if pre.free_regions@[oidx].frames().contains(g) {
                            // the old region is exhausted: all its frames
                            // lie below the old cursor
                            assert((g + 1) * PAGE_SIZE <= pre.free_regions@[oidx].spec_end());
                            lemma_fundamental_div_mod(
                                pre.free_regions@[oidx].spec_end(),
                                PAGE_SIZE as int,
                            );
                            assert(g < pre.next_frame);
                        }
                        if self.region_idx < self.free_regions.len()
                            && self.free_regions@[self.region_idx as int].frames().contains(g) {
                            lemma_frame_at_or_past_first(
                                self.free_regions@[self.region_idx as int],
                                g,
                                self.next_frame as int,
                            );
                        }
                    }
                    assert(self.spec_allocated() =~= pre.spec_allocated());
                    assert forall|i: int, f: usize|
                        #![trigger self.is_candidate(i, f)]
                        #![trigger pre.is_candidate(i, f)]
                        self.is_candidate(i, f) == pre.is_candidate(i, f) by {
                        if pre.is_candidate(i, f) && i == oidx {
                            assert((f + 1) * PAGE_SIZE <= pre.free_regions@[oidx].spec_end());
                            lemma_fundamental_div_mod(
                                pre.free_regions@[oidx].spec_end(),
                                PAGE_SIZE as int,
                            );
                        }
                        if self.is_candidate(i, f) && self.region_idx
                            < self.free_regions@.len() && i == self.region_idx {
                            lemma_frame_at_or_past_first(
                                self.free_regions@[i],
                                f,
                                self.next_frame as int,
                            );
                        }
                    }
                }
            }
        }
    }

    /// Builds a bump allocator over `free_regions`, which must be
    /// pairwise disjoint; allocation starts at the first region.
    pub fn new(free_regions: Vec<MemoryRange>) -> (r: BumpAllocator)
        requires
            forall|i: int|
                0 <= i < free_regions@.len() ==> (#[trigger] free_regions@[i]).wf()
                    && free_regions@[i].spec_end() <= FRAME_NUM_LIMIT * PAGE_SIZE,
            forall|i: int, j: int|
                0 <= i < j < free_regions@.len() ==> (#[trigger] free_regions@[i]).frames().disjoint(
                    #[trigger] free_regions@[j].frames(),
                ),
        ensures
            r.inv(),
            r.regions() == free_regions@,
            r.spec_allocated() == Set::<usize>::empty(),
            forall|i: int, f: usize|
                #![trigger r.is_candidate(i, f)]
                #![trigger free_regions@[i].frames().contains(f)]
                r.is_candidate(i, f) <==> (0 <= i < free_regions@.len()
                    && free_regions@[i].frames().contains(f)),
    {
        let next_frame = if free_regions.len() > 0 {
            first_frame_of(&free_regions[0])
        } else {
            0
        };
        let r = BumpAllocator { free_regions, region_idx: 0, next_frame };
        proof {
            assert forall|f: usize| !r.spec_allocated().contains(f) by {
                if r.spec_allocated().contains(f) {
                    assert(r.free_regions@[0].frames().contains(f) && f < r.next_frame);
                    lemma_frame_at_or_past_first(r.free_regions@[0], f, r.next_frame as int);
                }
            }
            assert(r.spec_allocated() =~= Set::<usize>::empty());
            // at the start every frame of every region is still pending:
            // the cursor sits at the first region's first aligned frame
            assert forall|i: int, f: usize|
                #![trigger r.is_candidate(i, f)]
                #![trigger r.free_regions@[i].frames().contains(f)]
                r.is_candidate(i, f) == (0 <= i < r.free_regions@.len()
                    && r.free_regions@[i].frames().contains(f)) by {
                if i == 0 && 0 <= i < r.free_regions@.len()
                    && r.free_regions@[0].frames().contains(f) {
                    lemma_frame_at_or_past_first(r.free_regions@[0], f, r.next_frame as int);
                }
            }
        }
        r
    }
}

/// The number of the first page-aligned frame at or after the start of
/// `region`.
fn first_frame_of(region: &MemoryRange) -> (r: usize)
    requires
        region.wf(),
    ensures
        r * PAGE_SIZE >= region.spec_start(),
        r * PAGE_SIZE <= region.spec_start() + PAGE_SIZE - 1,
        r == (region.spec_start() + PAGE_SIZE - 1) / PAGE_SIZE as int,
{
    let start = region.start_addr().as_usize();
    let q = start / PAGE_SIZE;
    proof {
        lemma_fundamental_div_mod(start as int, PAGE_SIZE as int);
        if start % PAGE_SIZE == 0 {
            lemma_fundamental_div_mod_converse(
                start + (PAGE_SIZE - 1),
                PAGE_SIZE as int,
                q as int,
                PAGE_SIZE - 1,
            );
        } else {
            lemma_fundamental_div_mod_converse(
                start + (PAGE_SIZE - 1),
                PAGE_SIZE as int,
                q + 1,
                start as int % PAGE_SIZE as int - 1,
            );
        }
    }
    if start % PAGE_SIZE == 0 {
        q
    } else {
        q + 1
    }
}

/// No frame of `region` lies below the number of its first page-aligned
/// frame.
proof fn lemma_frame_at_or_past_first(region: MemoryRange, f: usize, cursor: int)
    requires
        region.wf(),
        region.frames().contains(f),
        cursor == (region.spec_start() + PAGE_SIZE - 1) / PAGE_SIZE as int,
    ensures
        f >= cursor,
{
    lemma_fundamental_div_mod(region.spec_start() + (PAGE_SIZE - 1), PAGE_SIZE as int);
}

impl FrameAllocator for BumpAllocator {
    open spec fn wf(&self) -> bool {
        self.inv()
    }

    open spec fn allocated(&self) -> Set<usize> {
        self.spec_allocated()
    }

    /// A frame is available while some region at or past the cursor
    /// still holds one.
    open spec fn can_allocate(&self) -> bool {
        exists|i: int, f: usize| #[trigger] self.is_candidate(i, f)
    }

    /// The bump strategy never reclaims: no frame may be released.
    open spec fn can_dealloc(&self, num: usize) -> bool {
        false
    }

    fn allocate(&mut self) -> (r: Option<Frame>) {
        BumpAllocator::allocate(self)
    }

    /// Never callable: `can_dealloc` admits no frame, so no caller can
    /// meet this method's precondition.
    fn dealloc(&mut self, frame: Frame) {
    }
}

} // verus!
