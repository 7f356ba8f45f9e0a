//! A fixed-capacity bit vector (one bit per frame, most significant bit
//! first within each 64-bit word) and the bootstrap frame allocator built
//! on it.

use vstd::prelude::*;

verus! {

use crate::addr::{is_power_of_two, PhysicalAddress};
use vstd::arithmetic::div_mod::lemma_fundamental_div_mod;
use crate::memory::{Frame, FrameAllocator, FrameAllocatorImpl, PhysicalMemoryRegion, RawFrame, FRAME_NUM_LIMIT};
use crate::PAGE_SIZE;

/// Number of 64-bit words in the bitmap.
pub const BITMAP_WORDS: usize = 64;

/// Number of bits the bitmap tracks.
pub const BITMAP_BITS: usize = 4096;

/// Bit `b` of word `w`, counting from the most significant bit.
pub open spec fn word_bit(w: u64, b: int) -> bool
    recommends
        0 <= b < 64,
{
    ((w >> ((63 - b) as u64)) & 1u64) == 1u64
}

/// A fixed-capacity bit vector; bit 0 is the most significant bit of
/// word 0.
pub struct FixedBitmap {
    words: Vec<u64>,
}

impl FixedBitmap {
    /// The bits, as a sequence of `BITMAP_BITS` booleans.
    pub closed spec fn view(&self) -> Seq<bool> {
        Seq::new(BITMAP_BITS as nat, |i: int| word_bit(self.words@[i / 64], i % 64))
    }

    pub closed spec fn wf(&self) -> bool {
        self.words@.len() == BITMAP_WORDS
    }

    /// A bitmap with every bit clear.
    pub fn new() -> (r: FixedBitmap)
        ensures
            r.wf(),
            r@ == Seq::new(BITMAP_BITS as nat, |i: int| false),
    {
        let mut words: Vec<u64> = Vec::new();
        let mut i: usize = 0;
        while i < BITMAP_WORDS
            invariant
                i <= BITMAP_WORDS,
                words@.len() == i,
                forall|j: int| 0 <= j < i ==> words@[j] == 0u64,
            decreases BITMAP_WORDS - i,
        {
            words.push(0u64);
            i = i + 1;
        }
        let r = FixedBitmap { words };
        proof {
            assert forall|k: int| 0 <= k < BITMAP_BITS implies !r@[k] by {
                lemma_word_bit_zero((k % 64) as u64);
            }
            assert(r@ =~= Seq::new(BITMAP_BITS as nat, |i: int| false));
        }
        r
    }

    /// The number of bits the bitmap tracks: always `BITMAP_BITS`.
    pub fn size(&self) -> (r: usize)
        ensures
            r == BITMAP_BITS,
            r == self@.len(),
    {
        BITMAP_BITS
    }

    /// Marks bit `index`; all other bits keep their value.
    pub fn set(&mut self, index: usize)
        requires
            old(self).wf(),
            index < BITMAP_BITS,
        ensures
            final (self).wf(),
            final (self)@ == old(self)@.update(index as int, true),
    {
        let word_index = index / 64;
        let bit_offset = index % 64;
        let w = self.words[word_index];
        let updated = w | (0x8000_0000_0000_0000u64 >> (bit_offset as u64));
        self.words.set(word_index, updated);
        proof {
            assert forall|k: int| 0 <= k < BITMAP_BITS implies self@[k] == old(self)@.update(
                index as int,
                true,
            )[k] by {
                if k / 64 == index as int / 64 {
                    lemma_word_bit_or(w, (index % 64) as u64, (k % 64) as u64);
                    if k != index {
                        assert(k % 64 != index as int % 64);
                    }
                }
            }
            assert(self@ =~= old(self)@.update(index as int, true));
        }
    }

    /// Clears bit `index`; all other bits keep their value.
    pub fn unset(&mut self, index: usize)
        requires
            old(self).wf(),
            index < BITMAP_BITS,
        ensures
            final (self).wf(),
            final (self)@ == old(self)@.update(index as int, false),
    {
        let word_index = index / 64;
        let bit_offset = index % 64;
        let w = self.words[word_index];
        let updated = w & !(0x8000_0000_0000_0000u64 >> (bit_offset as u64));
        self.words.set(word_index, updated);
        proof {
            assert forall|k: int| 0 <= k < BITMAP_BITS implies self@[k] == old(self)@.update(
                index as int,
                false,
            )[k] by {
                if k / 64 == index as int / 64 {
                    lemma_word_bit_clear(w, (index % 64) as u64, (k % 64) as u64);
                    if k != index {
                        assert(k % 64 != index as int % 64);
                    }
                }
            }
            assert(self@ =~= old(self)@.update(index as int, false));
        }
    }

    /// True when bit `index` is marked.
    pub fn is_set(&self, index: usize) -> (r: bool)
        requires
            self.wf(),
            index < BITMAP_BITS,
        ensures
            r == self@[index as int],
    {
        let word_index = index / 64;
        let bit_offset = index % 64;
        let w = self.words[word_index];
        proof {
            lemma_word_bit_test(w, (index % 64) as u64);
        }
        (w & (0x8000_0000_0000_0000u64 >> (bit_offset as u64))) != 0
    }

    /// The index of the first clear bit, scanning in index order, or
    /// nothing when every bit is marked.
    pub fn first_unset(&self) -> (r: Option<usize>)
        requires
            self.wf(),
        ensures
            match r {
                Some(k) => k < BITMAP_BITS && !self@[k as int] && forall|j: int|
                    0 <= j < k ==> self@[j],
                None => forall|j: int| 0 <= j < BITMAP_BITS ==> self@[j],
            },
    {
        let mut i: usize = 0;
        while i < BITMAP_BITS
            invariant
                self.wf(),
                i <= BITMAP_BITS,
                forall|j: int| 0 <= j < i ==> self@[j],
            decreases BITMAP_BITS - i,
        {
            if !self.is_set(i) {
                return Some(i);
            }
            i = i + 1;
        }
        None
    }

    /// Finds the first run of `num` contiguous clear bits and returns the
    /// index of its first bit, or nothing when no such run exists.
    pub fn contiguous_range(&self, num: usize) -> (r: Option<usize>)
        requires
            self.wf(),
            1 <= num,
        ensures
            match r {
                Some(s) => s + num <= BITMAP_BITS && all_clear(self@, s as int, num as int)
                    && forall|s2: int| 0 <= s2 < s ==> !all_clear(self@, s2, num as int),
                None => forall|s2: int|
                    0 <= s2 <= BITMAP_BITS - num ==> !all_clear(self@, s2, num as int),
            },
    {
        if num > BITMAP_BITS {
            return None;
        }
        let mut count: usize = 0;
        let mut p: usize = 0;
        while p < BITMAP_BITS
            invariant
                self.wf(),
                1 <= num <= BITMAP_BITS,
                p <= BITMAP_BITS,
                count < num,
                count <= p,
                all_clear(self@, p - count, count as int),
                count < p ==> self@[p - count - 1],
                forall|s2: int| 0 <= s2 <= p - num ==> !all_clear(self@, s2, num as int),
            decreases BITMAP_BITS - p,
        {
            if !self.is_set(p) {
                count = count + 1;
                if count == num {
                    return Some(p + 1 - num);
                }
            } else {
                count = 0;
            }
            p = p + 1;
        }
        None
    }
}

/// Bits `s .. s + n` of `bits` are all clear.
pub open spec fn all_clear(bits: Seq<bool>, s: int, n: int) -> bool {
    forall|j: int| s <= j < s + n ==> !bits[j]
}

/// Bit `k` is the first clear bit of `bits`.
pub open spec fn is_first_clear(bits: Seq<bool>, k: int) -> bool {
    &&& 0 <= k < bits.len()
    &&& !bits[k]
    &&& forall|j: int| 0 <= j < k ==> bits[j]
}

/// Bits `s .. s + n` are the first run of `n` contiguous clear bits.
pub open spec fn is_first_run(bits: Seq<bool>, s: int, n: int) -> bool {
    &&& 0 <= s
    &&& s + n <= bits.len()
    &&& all_clear(bits, s, n)
    &&& forall|s2: int| 0 <= s2 < s ==> !all_clear(bits, s2, n)
}

/// `bits` with bits `s .. s + n` marked and every other bit unchanged.
pub open spec fn mark_range(bits: Seq<bool>, s: int, n: int) -> Seq<bool> {
    Seq::new(bits.len(), |i: int| if s <= i < s + n { true } else { bits[i] })
}

/// A simple bootstrap allocator: a fixed-size bitmap tracks which frames
/// of an owned arena are handed out. Bit `i` stands for the frame
/// numbered `i` places after the arena's first page-aligned frame; the
/// bitmap's fixed capacity may fall short of a large arena, in which case
/// the frames past its reach are never handed out.
pub struct BootstrapAllocatorImpl {
    bitmap: FixedBitmap,
    arena: PhysicalMemoryRegion,
}

impl BootstrapAllocatorImpl {
    pub closed spec fn inv(&self) -> bool {
        &&& self.bitmap.wf()
        &&& self.arena.base@ + self.arena.size <= usize::MAX
        &&& self.arena.base@ + self.arena.size <= FRAME_NUM_LIMIT * PAGE_SIZE
        &&& self.arena.base@ + PAGE_SIZE <= usize::MAX
    }

    /// The allocation bits.
    pub closed spec fn bits(&self) -> Seq<bool> {
        self.bitmap@
    }

    /// The arena this allocator manages.
    pub closed spec fn spec_arena(&self) -> PhysicalMemoryRegion {
        self.arena
    }

    /// The number of the first page-aligned frame inside the arena.
    pub open spec fn spec_first_frame(&self) -> int {
        (self.spec_arena().base@ + (PAGE_SIZE - 1)) / PAGE_SIZE as int
    }

    /// The number of the first frame past the arena.
    pub open spec fn spec_end_frame(&self) -> int {
        self.spec_arena().spec_end() / PAGE_SIZE as int
    }

    /// An allocator with an empty arena and every bit clear; it manages
    /// nothing until it is seeded with an arena.
    pub fn new() -> (r: BootstrapAllocatorImpl)
        ensures
            r.inv(),
            r.spec_arena().base@ == 0,
            r.spec_arena().size == 0,
            r.bits() == Seq::new(BITMAP_BITS as nat, |i: int| false),
    {
        BootstrapAllocatorImpl { bitmap: FixedBitmap::new(), arena: PhysicalMemoryRegion::empty() }
    }

    /// Hands the allocator the arena it manages, leaving the bitmap as
    /// it was. Seeding an allocator that already holds an arena is a
    /// caller error; the arena must fit the machine's address width and
    /// the width of a page-table entry.
    pub fn init(&mut self, arena: PhysicalMemoryRegion)
        requires
            old(self).inv(),
            old(self).spec_arena().size == 0,
            arena.wf(),
            arena.spec_end() <= usize::MAX,
            arena.spec_end() <= FRAME_NUM_LIMIT * PAGE_SIZE,
            arena.spec_start() + PAGE_SIZE <= usize::MAX,
        ensures
            final (self).inv(),
            final (self).spec_arena() == arena,
            final (self).bits() == old(self).bits(),
    {
        self.arena = arena;
    }

    /// The frame `first_frame + index`, which bitmap bit `index` stands
    /// for.
    fn frame_number(&self, index: usize) -> (r: usize)
        requires
            self.inv(),
            index + self.arena.base@ as int / PAGE_SIZE as int <= usize::MAX,
        ensures
            r == index + self.arena.base@ as int / PAGE_SIZE as int,
    {
        let first_frame_num = self.arena.base.frame_num();
        index + first_frame_num
    }

    /// The number of the first page-aligned frame inside the arena.
    fn first_frame_num(&self) -> (r: usize)
        requires
            self.inv(),
        ensures
            r == self.spec_first_frame(),
    {
        proof {
            assert(is_power_of_two(4096u64)) by (bit_vector);
        }
        let aligned = self.arena.base.align_up(PAGE_SIZE as u64);
        let r = aligned.as_usize() / PAGE_SIZE;
        proof {
            let a = aligned@ as int;
            let base = self.arena.base@ as int;
            lemma_fundamental_div_mod(a, PAGE_SIZE as int);
            lemma_fundamental_div_mod(base + (PAGE_SIZE - 1), PAGE_SIZE as int);
        }
        r
    }

    /// The number of the first frame past the arena.
    fn end_frame_num(&self) -> (r: usize)
        requires
            self.inv(),
        ensures
            r == self.spec_end_frame(),
    {
        self.arena.end().frame_num()
    }

    /// Allocates the frame of the first clear bit: scans for the first
    /// unset bit, fails (with no side effect) when there is none or when
    /// the frame it stands for would fall outside the arena, and
    /// otherwise marks the bit and returns the frame.
    pub fn allocate(&mut self) -> (r: Option<RawFrame>)
        requires
            old(self).inv(),
        ensures
            final (self).inv(),
            final (self).spec_arena() == old(self).spec_arena(),
            match r {
                Some(f) => {
                    &&& old(self).spec_first_frame() <= f.num
                    &&& is_first_clear(old(self).bits(), f.num - old(self).spec_first_frame())
                    &&& f.num + 1 <= old(self).spec_end_frame()
                    &&& final (self).bits() == old(self).bits().update(
                        f.num - old(self).spec_first_frame(),
                        true,
                    )
                },
                None => {
                    &&& final (self).bits() == old(self).bits()
                    &&& forall|k: int|
                        is_first_clear(old(self).bits(), k) ==> old(self).spec_first_frame() + k
                            + 1 > old(self).spec_end_frame()
                },
            },
    {
        let first_frame_num = self.first_frame_num();
        proof {
            lemma_first_frame_fits(self.arena.base@ as int, first_frame_num as int);
        }
        let first_free = match self.bitmap.first_unset() {
            Some(k) => k,
            None => {
                return None;
            },
        };
        let frame_num = first_free + first_frame_num;

        // the bitmap's fixed capacity may exceed the arena's frame count
        if frame_num + 1 > self.end_frame_num() {
            return None;
        }

        self.bitmap.set(first_free);
        Some(RawFrame { num: frame_num })
    }

    /// Returns a frame to the allocator. Releasing a frame outside the
    /// arena or the bitmap's reach, or one that is not currently handed
    /// out, is a caller error.
    pub fn dealloc(&mut self, frame: RawFrame)
        requires
            old(self).inv(),
            old(self).spec_first_frame() <= frame.num,
            frame.num + 1 <= old(self).spec_end_frame(),
            frame.num - old(self).spec_first_frame() < BITMAP_BITS,
            old(self).bits()[frame.num - old(self).spec_first_frame()],
        ensures
            final (self).inv(),
            final (self).spec_arena() == old(self).spec_arena(),
            final (self).bits() == old(self).bits().update(
                frame.num - old(self).spec_first_frame(),
                false,
            ),
    {
        let first_frame_num = self.first_frame_num();
        let bitmap_num = frame.num - first_frame_num;
        self.bitmap.unset(bitmap_num);
    }

    /// Allocates the first run of `size / PAGE_SIZE` contiguous free
    /// frames as an owned sub-region, or fails (with no side effect) when
    /// no such run exists or the first one found would leave the arena.
    /// The size must be a positive multiple of the page size.
    pub fn alloc_range(&mut self, size: usize) -> (r: Option<PhysicalMemoryRegion>)
        requires
            old(self).inv(),
            size % PAGE_SIZE == 0,
            0 < size,
        ensures
            final (self).inv(),
            final (self).spec_arena() == old(self).spec_arena(),
            match r {
                Some(region) => exists|s: int|
                    {
                        &&& #[trigger] is_first_run(old(self).bits(), s, size as int / PAGE_SIZE as int)
                        &&& s + size as int / PAGE_SIZE as int + old(self).spec_first_frame() <= old(
                            self,
                        ).spec_end_frame()
                        &&& region.base@ == (s + old(self).spec_first_frame()) * PAGE_SIZE
                        &&& region.size == size
                        &&& final (self).bits() == mark_range(
                            old(self).bits(),
                            s,
                            size as int / PAGE_SIZE as int,
                        )
                    },
                None => {
                    &&& final (self).bits() == old(self).bits()
                    &&& forall|s: int|
                        #[trigger] is_first_run(old(self).bits(), s, size as int / PAGE_SIZE as int)
                            ==> s + size as int / PAGE_SIZE as int + old(self).spec_first_frame() > old(
                            self,
                        ).spec_end_frame()
                },
            },
    {
        let num_frames = size / PAGE_SIZE;
        let start_frame = match self.bitmap.contiguous_range(num_frames) {
            Some(s) => s,
            None => {
                return None;
            },
        };
        let first_frame_num = self.first_frame_num();
        proof {
            lemma_first_frame_fits(self.arena.base@ as int, first_frame_num as int);
        }

        // ensure the run doesn't go outside the arena
        if start_frame + num_frames + first_frame_num > self.end_frame_num() {
            return None;
        }

        // mark every frame of the run as allocated
        let ghost bits0 = self.bits();
        let mut index = start_frame;
        while index < start_frame + num_frames
            invariant
                self.inv(),
                self.spec_arena() == old(self).spec_arena(),
                start_frame <= index <= start_frame + num_frames,
                start_frame + num_frames <= BITMAP_BITS,
                self.bits() == mark_range(bits0, start_frame as int, index - start_frame),
            decreases start_frame + num_frames - index,
        {
            self.bitmap.set(index);
            proof {
                assert(self.bits() =~= mark_range(
                    bits0,
                    start_frame as int,
                    index + 1 - start_frame,
                ));
            }
            index = index + 1;
        }

        proof {
            lemma_end_frame_fits(self.arena.spec_end(), self.spec_end_frame());
            lemma_fundamental_div_mod(size as int, PAGE_SIZE as int);
        }
        let r = Some(
            PhysicalMemoryRegion {
                base: PhysicalAddress::from_frame_num(start_frame + first_frame_num),
                size: num_frames * PAGE_SIZE,
            },
        );
        proof {
            assert(is_first_run(old(self).bits(), start_frame as int, num_frames as int));
        }
        r
    }
}

impl FrameAllocator for BootstrapAllocatorImpl {
    open spec fn wf(&self) -> bool {
        self.inv()
    }

    open spec fn allocated(&self) -> Set<usize> {
        Set::new(
            |f: usize|
                exists|k: int|
                    0 <= k < BITMAP_BITS && #[trigger] self.bits()[k] && f == self.spec_first_frame()
                        + k,
        )
    }

    /// A frame is available while some clear bit stands for a frame
    /// inside the arena.
    open spec fn can_allocate(&self) -> bool {
        exists|k: int|
            #[trigger] is_first_clear(self.bits(), k) && self.spec_first_frame() + k + 1
                <= self.spec_end_frame()
    }

    open spec fn can_dealloc(&self, num: usize) -> bool {
        &&& self.spec_first_frame() <= num
        &&& num + 1 <= self.spec_end_frame()
        &&& num - self.spec_first_frame() < BITMAP_BITS
        &&& self.bits()[num - self.spec_first_frame()]
    }

    fn allocate(&mut self) -> (r: Option<Frame>) {
        proof {
            lemma_first_frame_fits(self.arena.base@ as int, self.spec_first_frame());
        }
        match BootstrapAllocatorImpl::allocate(self) {
            Some(raw) => {
                proof {
                    let first = old(self).spec_first_frame();
                    let k = raw.num - first;
                    assert(is_first_clear(old(self).bits(), k) && first + k + 1 <= old(
                        self,
                    ).spec_end_frame());
                    if old(self).allocated().contains(raw.num) {
                        let k2 = choose|k2: int|
                            0 <= k2 < BITMAP_BITS && #[trigger] old(self).bits()[k2] && raw.num
                                == first + k2;
                        assert(k2 == k);
                    }
                    assert forall|g: usize|
                        self.allocated().contains(g) == old(self).allocated().insert(
                            raw.num,
                        ).contains(g) by {
                        if g == raw.num {
                            assert(self.bits()[k]);
                        } else {
                            if self.allocated().contains(g) {
                                let k2 = choose|k2: int|
                                    0 <= k2 < BITMAP_BITS && #[trigger] self.bits()[k2] && g == first
                                        + k2;
                                assert(old(self).bits()[k2]);
                            }
                            if old(self).allocated().contains(g) {
                                let k2 = choose|k2: int|
                                    0 <= k2 < BITMAP_BITS && #[trigger] old(self).bits()[k2] && g
                                        == first + k2;
                                assert(self.bits()[k2]);
                            }
                        }
                    }
                    assert(self.allocated() =~= old(self).allocated().insert(raw.num));
                }
                Some(Frame::from_num(raw.num))
            },
            None => {
                proof {
                    assert(self.allocated() =~= old(self).allocated());
                    if old(self).can_allocate() {
                        let k = choose|k: int|
                            #[trigger] is_first_clear(old(self).bits(), k) && old(
                                self,
                            ).spec_first_frame() + k + 1 <= old(self).spec_end_frame();
                        assert(false);
                    }
                }
                None
            },
        }
    }

    fn dealloc(&mut self, frame: Frame) {
        proof {
            lemma_first_frame_fits(self.arena.base@ as int, self.spec_first_frame());
        }
        let raw = RawFrame { num: frame.num() };
        BootstrapAllocatorImpl::dealloc(self, raw);
        proof {
            let first = old(self).spec_first_frame();
            let k = raw.num - first;
            assert forall|g: usize|
                self.allocated().contains(g) == old(self).allocated().remove(raw.num).contains(
                    g,
                ) by {
                if g != raw.num {
                    if self.allocated().contains(g) {
                        let k2 = choose|k2: int|
                            0 <= k2 < BITMAP_BITS && #[trigger] self.bits()[k2] && g == first + k2;
                        assert(old(self).bits()[k2]);
                    }
                    if old(self).allocated().contains(g) {
                        let k2 = choose|k2: int|
                            0 <= k2 < BITMAP_BITS && #[trigger] old(self).bits()[k2] && g == first
                                + k2;
                        assert(self.bits()[k2]);
                    }
                } else {
                    if self.allocated().contains(g) {
                        let k2 = choose|k2: int|
                            0 <= k2 < BITMAP_BITS && #[trigger] self.bits()[k2] && g == first + k2;
                        assert(k2 == k);
                    }
                }
            }
            assert(self.allocated() =~= old(self).allocated().remove(raw.num));
        }
    }
}

impl FrameAllocatorImpl for BootstrapAllocatorImpl {
    open spec fn is_seeded(&self) -> bool {
        self.spec_arena().size != 0
    }

    fn new() -> (r: Self) {
        let r = BootstrapAllocatorImpl::new();
        proof {
            assert forall|g: usize| !r.allocated().contains(g) by {
                if r.allocated().contains(g) {
                    let k2 = choose|k2: int|
                        0 <= k2 < BITMAP_BITS && #[trigger] r.bits()[k2] && g
                            == r.spec_first_frame() + k2;
                }
            }
            assert(r.allocated() =~= Set::<usize>::empty());
        }
        r
    }

    fn init(&mut self, arena: PhysicalMemoryRegion) {
        proof {
            lemma_first_frame_fits(old(self).arena.base@ as int, old(self).spec_first_frame());
            assert forall|k: int| 0 <= k < BITMAP_BITS implies !self.bits()[k] by {
                if self.bits()[k] {
                    let g = (old(self).spec_first_frame() + k) as usize;
                    assert(old(self).allocated().contains(g));
                }
            }
        }
        BootstrapAllocatorImpl::init(self, arena);
        proof {
            assert forall|g: usize| !self.allocated().contains(g) by {
                if self.allocated().contains(g) {
                    let k2 = choose|k2: int|
                        0 <= k2 < BITMAP_BITS && #[trigger] self.bits()[k2] && g
                            == self.spec_first_frame() + k2;
                }
            }
            assert(self.allocated() =~= old(self).allocated());
        }
    }
}

/// The first aligned frame number of an arena that fits the address
/// width leaves ample room in the machine word above it.
proof fn lemma_first_frame_fits(base: int, first: int)
    requires
        0 <= base,
        base + PAGE_SIZE <= usize::MAX,
        first == (base + (PAGE_SIZE - 1)) / PAGE_SIZE as int,
    ensures
        first * PAGE_SIZE <= base + PAGE_SIZE - 1,
        0 <= first,
        first + BITMAP_BITS + 1 <= usize::MAX,
{
    lemma_fundamental_div_mod(base + (PAGE_SIZE - 1), PAGE_SIZE as int);
}

/// A frame count derived from an in-range end address stays in range
/// when scaled back to an address.
proof fn lemma_end_frame_fits(end: int, end_frame: int)
    requires
        0 <= end <= usize::MAX,
        end_frame == end / PAGE_SIZE as int,
    ensures
        0 <= end_frame,
        end_frame * PAGE_SIZE <= end,
{
    lemma_fundamental_div_mod(end, PAGE_SIZE as int);
}

/// In the zero word, every bit is clear.
proof fn lemma_word_bit_zero(b: u64)
    by (bit_vector)
    requires
        b < 64,
    ensures
        ((0u64 >> ((63 - b) as u64)) & 1u64) != 1u64,
{
}

/// Or-ing in the mask with bit `j` set (counting from the most
/// significant bit) sets bit `j` and leaves every other bit unchanged.
proof fn lemma_word_bit_or(w: u64, j: u64, k: u64)
    by (bit_vector)
    requires
        j < 64,
        k < 64,
    ensures
        j == k ==> (((w | (0x8000_0000_0000_0000u64 >> j)) >> ((63 - k) as u64)) & 1u64) == 1u64,
        j != k ==> (((w | (0x8000_0000_0000_0000u64 >> j)) >> ((63 - k) as u64)) & 1u64) == ((w
            >> ((63 - k) as u64)) & 1u64),
{
}

/// And-ing with the complement of the mask with bit `j` set clears bit
/// `j` and leaves every other bit unchanged.
proof fn lemma_word_bit_clear(w: u64, j: u64, k: u64)
    by (bit_vector)
    requires
        j < 64,
        k < 64,
    ensures
        j == k ==> (((w & !(0x8000_0000_0000_0000u64 >> j)) >> ((63 - k) as u64)) & 1u64) != 1u64,
        j != k ==> (((w & !(0x8000_0000_0000_0000u64 >> j)) >> ((63 - k) as u64)) & 1u64) == ((w
            >> ((63 - k) as u64)) & 1u64),
{
}

/// Testing against the mask with bit `j` set agrees with reading bit `j`.
proof fn lemma_word_bit_test(w: u64, j: u64)
    by (bit_vector)
    requires
        j < 64,
    ensures
        ((w & (0x8000_0000_0000_0000u64 >> j)) != 0) == (((w >> ((63 - j) as u64)) & 1u64) == 1u64),
{
}

} // verus!
