//! The four-level page-table tree: raw 64-bit entries encoding a frame
//! address plus permission flags, tables of 512 entries, the tree that a
//! recursively mapped table spans, and the mapper that edits it.
//!
//! The hardware reaches a table through the recursive mapping by address
//! arithmetic alone; this model keeps the same information as data: each
//! table is stored next to the number of the physical frame that holds
//! it, and following an entry means looking its frame number up. An
//! entry whose present bit is set is trusted to point at a real table of
//! the next lower level — presence is the sole validity signal — and the
//! tree's well-formedness keeps that convention honest.

use vstd::prelude::*;

verus! {

use crate::memory::{Frame, FrameAllocator, FRAME_NUM_LIMIT};
use crate::addr::PhysicalAddress;
use crate::page::{
    Page,
    spec_level4_index,
    spec_level3_index,
    spec_level2_index,
    spec_level1_index,
};

/// Present: the entry points at a frame the hardware may use.
pub const FLAG_PRESENT: u64 = 0x1;

/// Writable.
pub const FLAG_WRITE: u64 = 0x2;

/// Accessible from user mode.
pub const FLAG_USER: u64 = 0x4;

/// Write-through caching.
pub const FLAG_PAGE_WRITETHROUGH: u64 = 0x8;

/// Caching disabled.
pub const FLAG_NO_CACHE: u64 = 0x10;

/// Set by the hardware on access.
pub const FLAG_ACCESSED: u64 = 0x20;

/// Set by the hardware on write.
pub const FLAG_DIRTY: u64 = 0x40;

/// Page-attribute-table bit.
pub const FLAG_PAT: u64 = 0x80;

/// Kept across address-space switches.
pub const FLAG_GLOBAL: u64 = 0x100;

/// No instruction fetches from this mapping.
pub const FLAG_NO_EXECUTE: u64 = 0x8000_0000_0000_0000;

/// Bits 12..52 of an entry hold the 4K-aligned physical frame address.
pub const ENTRY_ADDR_MASK: u64 = 0x000F_FFFF_FFFF_F000;

/// The fixed virtual address of the live level-4 table under the
/// recursive mapping: the address whose table indices are all ones at
/// every level. This is a contract with the processor's own page-walking
/// hardware; the index arithmetic in this module is derived from it.
pub const PAGE_TABLE_ADDR: u64 = 0xFFFF_FFFF_FFFF_F000;

/// One page-table entry: a 64-bit value holding a frame address and flag
/// bits.
#[derive(Debug, Copy, Clone, PartialEq, Eq, Structural)]
pub struct Entry(u64);

impl Entry {
    pub closed spec fn view(self) -> u64 {
        self.0
    }

    /// The present flag is set.
    pub open spec fn spec_present(self) -> bool {
        self@ & FLAG_PRESENT == FLAG_PRESENT
    }

    /// The number of the frame this entry points at.
    pub open spec fn spec_frame_num(self) -> u64 {
        (self@ & ENTRY_ADDR_MASK) >> 12u64
    }

    /// The flag bits, with the frame address masked out.
    pub open spec fn spec_flags(self) -> u64 {
        self@ & !ENTRY_ADDR_MASK
    }

    /// An entry pointing at `frame` with the given flags, which must not
    /// reach into the address bits.
    pub fn new(frame: &Frame, flags: u64) -> (r: Entry)
        requires
            (frame@ as u64) < FRAME_NUM_LIMIT,
            flags & ENTRY_ADDR_MASK == 0,
        ensures
            r@ == ((frame@ as u64) << 12u64) | flags,
            r.spec_frame_num() == frame@,
            r.spec_flags() == flags,
            r.spec_present() == (flags & FLAG_PRESENT == FLAG_PRESENT),
    {
        let bits = ((frame.num() as u64) << 12u64) | flags;
        proof {
            lemma_entry_encoding(frame@ as u64, flags);
        }
        Entry(bits)
    }

    /// An entry with no bits set; not present.
    pub fn empty() -> (r: Entry)
        ensures
            r@ == 0,
            !r.spec_present(),
            r.spec_frame_num() == 0,
            r.spec_flags() == 0,
    {
        proof {
            lemma_entry_zero();
        }
        Entry(0)
    }

    /// Zeroes the entry, leaving it not present.
    pub fn clear(&mut self)
        ensures
            final (self)@ == 0,
            !final (self).spec_present(),
    {
        proof {
            lemma_entry_zero();
        }
        self.0 = 0;
    }

    /// The physical address of the frame this entry points at; the
    /// bottom 12 bits are zero because frames are 4K-aligned.
    pub fn addr(&self) -> (r: PhysicalAddress)
        ensures
            r@ == self@ & ENTRY_ADDR_MASK,
            r@ == self.spec_frame_num() * 4096,
    {
        proof {
            let bits = self@;
            assert((bits & 0x000F_FFFF_FFFF_F000u64) == ((bits & 0x000F_FFFF_FFFF_F000u64)
                >> 12u64) * 4096 && ((bits & 0x000F_FFFF_FFFF_F000u64) >> 12u64)
                < 0x100_0000_0000u64) by (bit_vector);
        }
        PhysicalAddress::new(self.0 & ENTRY_ADDR_MASK)
    }

    /// The flag bits.
    pub fn flags(&self) -> (r: u64)
        ensures
            r == self.spec_flags(),
    {
        self.0 & !ENTRY_ADDR_MASK
    }

    /// True when the present flag is set; a present entry is trusted to
    /// be valid.
    pub fn is_present(&self) -> (r: bool)
        ensures
            r == self.spec_present(),
    {
        (self.0 & FLAG_PRESENT) == FLAG_PRESENT
    }
}

/// Packing a 40-bit frame number above 12 zero bits and flag bits that
/// avoid the address field keeps the two readable separately.
proof fn lemma_entry_encoding(f: u64, flags: u64)
    by (bit_vector)
    requires
        f < 0x100_0000_0000u64,
        flags & 0x000F_FFFF_FFFF_F000u64 == 0,
    ensures
        (((f << 12u64) | flags) & 0x000F_FFFF_FFFF_F000u64) >> 12u64 == f,
        ((f << 12u64) | flags) & !0x000F_FFFF_FFFF_F000u64 == flags,
        (((f << 12u64) | flags) & 1u64 == 1u64) == (flags & 1u64 == 1u64),
{
}

/// The zero entry has no flags, no frame, and is not present.
proof fn lemma_entry_zero()
    by (bit_vector)
    ensures
        0u64 & 1u64 != 1u64,
        (0u64 & 0x000F_FFFF_FFFF_F000u64) >> 12u64 == 0u64,
        0u64 & !0x000F_FFFF_FFFF_F000u64 == 0u64,
{
}

/// One 512-entry table of the tree.
pub struct PageTable {
    entries: Vec<Entry>,
}

impl PageTable {
    pub closed spec fn view(&self) -> Seq<Entry> {
        self.entries@
    }
}

/// Why a walk of the tree could not complete.
#[derive(Debug, Copy, Clone, PartialEq, Eq, Structural)]
pub enum MapError {
    /// The level-4 entry for the page is absent, so no level-3 table
    /// exists.
    Level3TableNotMapped,
    /// The level-3 entry for the page is absent, so no level-2 table
    /// exists.
    Level2TableNotMapped,
    /// The level-2 entry for the page is absent, so no level-1 table
    /// exists.
    Level1TableNotMapped,
    /// The frame allocator was exhausted while a missing intermediate
    /// table was being created.
    OutOfMemory,
}

/// The tree of tables hanging off one recursively mapped root: table 0
/// is the level-4 root, and each stored table is paired with the number
/// of the physical frame holding it, which is how an entry's pointee is
/// found.
pub struct RecursivePageTable {
    tables: Vec<PageTable>,
    frames: Vec<u64>,
    levels: Ghost<Seq<int>>,
}

impl RecursivePageTable {
    /// How many tables the tree holds.
    pub closed spec fn num_tables(&self) -> int {
        self.tables@.len() as int
    }

    /// The frame numbers holding each table.
    pub closed spec fn spec_frames(&self) -> Seq<u64> {
        self.frames@
    }

    /// The level (4 down to 1) of each table.
    pub closed spec fn spec_levels(&self) -> Seq<int> {
        self.levels@
    }

    /// The entry at index `e` of table `t`.
    pub closed spec fn entry_at(&self, t: int, e: int) -> Entry {
        self.tables@[t]@[e]
    }

    /// `(t, e)` is a slot that points at a lower-level table when
    /// present.
    pub open spec fn is_table_ref(&self, t: int, e: int) -> bool {
        &&& 0 <= t < self.num_tables()
        &&& 0 <= e < 512
        &&& self.spec_levels()[t] >= 2
        &&& self.entry_at(t, e).spec_present()
    }

    /// The tree is well formed: the root is at level 4; tables hold 512
    /// entries; each table sits in its own frame; every present entry of
    /// a table above level 1 points at exactly one stored table, one
    /// level down, and no two such entries share a pointee.
    pub closed spec fn wf(&self) -> bool {
        &&& self.tables@.len() == self.frames@.len()
        &&& self.levels@.len() == self.tables@.len()
        &&& 1 <= self.tables@.len()
        &&& self.levels@[0] == 4
        &&& forall|t: int| 0 <= t < self.num_tables() ==> 1 <= #[trigger] self.spec_levels()[t] <= 4
        &&& forall|t: int| 0 <= t < self.num_tables() ==> (#[trigger] self.tables@[t])@.len() == 512
        &&& forall|t: int|
            0 <= t < self.num_tables() ==> (#[trigger] self.spec_frames()[t]) < FRAME_NUM_LIMIT
                && self.spec_frames()[t] <= usize::MAX
        &&& forall|t1: int, t2: int|
            0 <= t1 < t2 < self.num_tables() ==> self.spec_frames()[t1] != self.spec_frames()[t2]
        &&& forall|t: int, e: int|
            #[trigger] self.is_table_ref(t, e) ==> exists|u: int|
                0 <= u < self.num_tables() && self.spec_frames()[u] == self.entry_at(
                    t,
                    e,
                ).spec_frame_num() && self.spec_levels()[u] == self.spec_levels()[t] - 1
        &&& forall|t1: int, e1: int, t2: int, e2: int|
            #[trigger] self.is_table_ref(t1, e1) && #[trigger] self.is_table_ref(t2, e2) && !(t1
                == t2 && e1 == e2) ==> self.entry_at(t1, e1).spec_frame_num() != self.entry_at(
                t2,
                e2,
            ).spec_frame_num()
    }

    /// The table that the entry at `(t, e)` points at.
    pub closed spec fn child_of(&self, t: int, e: int) -> int {
        choose|u: int|
            0 <= u < self.num_tables() && self.spec_frames()[u] == self.entry_at(
                t,
                e,
            ).spec_frame_num() && self.spec_levels()[u] == self.spec_levels()[t] - 1
    }

    /// One step of a walk: the table below `t` at index `idx`, or -1
    /// when the entry is absent.
    pub open spec fn walk_step(&self, t: int, idx: int) -> int {
        if 0 <= t < self.num_tables() && 0 <= idx < 512 && self.entry_at(t, idx).spec_present() {
            self.child_of(t, idx)
        } else {
            -1
        }
    }

    /// The level-1 table that the walk for page `p` ends at, or -1 when
    /// an intermediate table is missing.
    pub open spec fn leaf_table(&self, p: u64) -> int {
        let t3 = self.walk_step(0, spec_level4_index(p) as int);
        if t3 < 0 {
            -1
        } else {
            let t2 = self.walk_step(t3, spec_level3_index(p) as int);
            if t2 < 0 {
                -1
            } else {
                self.walk_step(t2, spec_level2_index(p) as int)
            }
        }
    }

    /// The error an allocation-free walk for page `p` reports: the
    /// highest level at which the path is broken.
    pub open spec fn missing_level_error(&self, p: u64) -> MapError {
        let t3 = self.walk_step(0, spec_level4_index(p) as int);
        if t3 < 0 {
            MapError::Level3TableNotMapped
        } else if self.walk_step(t3, spec_level3_index(p) as int) < 0 {
            MapError::Level2TableNotMapped
        } else {
            MapError::Level1TableNotMapped
        }
    }

    /// The leaf entry the tree maps page `p` to, reached by walking
    /// level 4 down to level 1, or nothing when the path is incomplete
    /// or the leaf is absent.
    pub open spec fn mapping_of(&self, p: u64) -> Option<Entry> {
        let t1 = self.leaf_table(p);
        if t1 < 0 {
            None
        } else {
            let e = self.entry_at(t1, spec_level1_index(p) as int);
            if e.spec_present() {
                Some(e)
            } else {
                None
            }
        }
    }

    /// Every table frame is currently handed out by `alloc`, so a fresh
    /// allocation can never collide with a stored table.
    pub open spec fn owns_frames<A: FrameAllocator>(&self, alloc: &A) -> bool {
        forall|t: int|
            0 <= t < self.num_tables() ==> alloc.allocated().contains(
                (#[trigger] self.spec_frames()[t]) as usize,
            )
    }

    /// A tree holding one empty root table, which lives in `root_frame`.
    pub fn new(root_frame: u64) -> (r: RecursivePageTable)
        requires
            root_frame < FRAME_NUM_LIMIT,
            root_frame <= usize::MAX,
        ensures
            r.wf(),
            r.num_tables() == 1,
            r.spec_frames() == seq![root_frame],
            forall|p: u64| #[trigger] r.mapping_of(p) is None,
    {
        let root = new_zeroed_table();
        let mut tables: Vec<PageTable> = Vec::new();
        tables.push(root);
        let mut frames: Vec<u64> = Vec::new();
        frames.push(root_frame);
        let ghost lv: Seq<int> = seq![4int];
        let r = RecursivePageTable { tables, frames, levels: Ghost(lv) };
        proof {
            assert(r.spec_frames() =~= seq![root_frame]);
            assert forall|p: u64| #[trigger] r.mapping_of(p) is None by {
                crate::page::lemma_indices_bounded(p);
                assert(!r.entry_at(0, spec_level4_index(p) as int).spec_present());
            }
        }
        r
    }

    /// The entry at index `index` of stored table `t`.
    pub fn entry(&self, t: usize, index: usize) -> (r: Entry)
        requires
            self.wf(),
            t < self.num_tables(),
            index < 512,
        ensures
            r == self.entry_at(t as int, index as int),
    {
        self.tables[t].entries[index]
    }

    /// The index of the stored table living in `frame`, when there is
    /// one.
    fn find_table(&self, frame: u64) -> (r: Option<usize>)
        requires
            self.wf(),
        ensures
            match r {
                Some(u) => u < self.num_tables() && self.spec_frames()[u as int] == frame,
                None => forall|u: int|
                    0 <= u < self.num_tables() ==> self.spec_frames()[u] != frame,
            },
    {
        let mut i: usize = 0;
        while i < self.frames.len()
            invariant
                self.wf(),
                i <= self.frames@.len(),
                forall|u: int| 0 <= u < i ==> self.spec_frames()[u] != frame,
            decreases self.frames@.len() - i,
        {
            if self.frames[i] == frame {
                return Some(i);
            }
            i = i + 1;
        }
        None
    }

    /// Gets the table below `t` at `index`, when the entry there is
    /// present; a present entry always has its pointee stored, by
    /// well-formedness.
    pub fn get_table(&self, t: usize, index: usize) -> (r: Option<usize>)
        requires
            self.wf(),
            t < self.num_tables(),
            index < 512,
            self.spec_levels()[t as int] >= 2,
        ensures
            match r {
                Some(u) => {
                    &&& u < self.num_tables()
                    &&& self.entry_at(t as int, index as int).spec_present()
                    &&& u == self.walk_step(t as int, index as int)
                    &&& self.spec_levels()[u as int] == self.spec_levels()[t as int] - 1
                },
                None => !self.entry_at(t as int, index as int).spec_present(),
            },
    {
        let entry = self.tables[t].entries[index];
        if entry.is_present() {
            let frame = entry.addr().as_u64() >> 12u64;
            proof {
                assert(self.is_table_ref(t as int, index as int));
            }
            match self.find_table(frame) {
                Some(u) => {
                    proof {
                        let c = self.child_of(t as int, index as int);
                        assert(self.spec_frames()[c] == frame && self.spec_levels()[c]
                            == self.spec_levels()[t as int] - 1);
                        lemma_frames_distinct(self, c, u as int);
                    }
                    Some(u)
                },
                None => {
                    proof {
                        let c = self.child_of(t as int, index as int);
                        assert(self.spec_frames()[c] == frame);
                        assert(false);
                    }
                    None
                },
            }
        } else {
            None
        }
    }

    /// Gets the table below `t` at `index`, creating it when the entry
    /// there is absent: a frame is allocated, a present, writable and
    /// user-accessible entry pointing to it is written into `t`, and the
    /// new table starts out with all 512 entries clear. When the entry is
    /// already present, nothing changes at all. Nothing the tree already
    /// maps changes either way.
    pub fn create_table<A: FrameAllocator>(&mut self, t: usize, index: usize, alloc: &mut A) -> (r:
        Result<usize, MapError>)
        requires
            old(self).wf(),
            t < old(self).num_tables(),
            index < 512,
            old(self).spec_levels()[t as int] >= 2,
            old(alloc).wf(),
            old(self).owns_frames(old(alloc)),
        ensures
            final (self).wf(),
            final (alloc).wf(),
            final (self).owns_frames(final (alloc)),
            old(alloc).allocated().subset_of(final (alloc).allocated()),
            match r {
                Ok(u) => {
                    &&& 0 <= u < final (self).num_tables()
                    &&& old(self).num_tables() <= final (self).num_tables()
                    &&& final (self).spec_levels()[u as int] == old(self).spec_levels()[t as int]
                        - 1
                    &&& final (self).entry_at(t as int, index as int).spec_present()
                    &&& final (self).walk_step(t as int, index as int) == u
                    &&& forall|t0: int|
                        0 <= t0 < old(self).num_tables() ==> final (self).spec_levels()[t0] == old(
                            self,
                        ).spec_levels()[t0] && final (self).spec_frames()[t0] == old(
                            self,
                        ).spec_frames()[t0]
                    &&& forall|t0: int, e0: int|
                        0 <= t0 < old(self).num_tables() && 0 <= e0 < 512 && !(t0 == t && e0
                            == index) ==> final (self).entry_at(t0, e0) == old(self).entry_at(
                            t0,
                            e0,
                        )
                    &&& forall|t0: int, e0: int|
                        old(self).is_table_ref(t0, e0) ==> final (self).is_table_ref(t0, e0)
                            && final (self).walk_step(t0, e0) == old(self).walk_step(t0, e0)
                    &&& forall|p: u64| final (self).mapping_of(p) == old(self).mapping_of(p)
                    &&& old(self).entry_at(t as int, index as int).spec_present() ==> *final (self)
                        == *old(self) && *final (alloc) == *old(alloc)
                    &&& !old(self).entry_at(t as int, index as int).spec_present() ==> {
                        &&& final (self).entry_at(t as int, index as int).spec_flags() == (
                        FLAG_PRESENT | FLAG_WRITE | FLAG_USER)
                        &&& u == old(self).num_tables()
                        &&& final (self).num_tables() == old(self).num_tables() + 1
                        &&& forall|e0: int|
                            0 <= e0 < 512 ==> (#[trigger] final (self).entry_at(u as int, e0))@
                                == 0
                    }
                },
                Err(e) => e == MapError::OutOfMemory && *final (self) == *old(self)
                    && !final (alloc).can_allocate(),
            },
    {
        match self.get_table(t, index) {
            Some(u) => Ok(u),
            None => {
                let frame = match alloc.allocate() {
                    Some(f) => f,
                    None => {
                        return Err(MapError::OutOfMemory);
                    },
                };
                let g = frame.num() as u64;
                let ghost pre = *old(self);
                proof {
                    // a fresh frame holds no stored table
                    assert forall|t0: int|
                        0 <= t0 < pre.num_tables() implies pre.spec_frames()[t0] != g by {
                        assert(old(alloc).allocated().contains(pre.spec_frames()[t0] as usize));
                    }
                    assert((0x1u64 | 0x2u64 | 0x4u64) == 0x7u64 && (0x7u64
                        & 0x000F_FFFF_FFFF_F000u64) == 0u64 && (0x7u64 & 0x1u64)
                        == 0x1u64) by (bit_vector);
                }
                let entry = Entry::new(&frame, FLAG_PRESENT | FLAG_WRITE | FLAG_USER);
                let table = new_zeroed_table();
                let ghost lvl = self.levels@[t as int];
                self.tables.push(table);
                self.frames.push(g);
                proof {
                    self.levels@ = self.levels@.push(lvl - 1);
                }
                let u = self.tables.len() - 1;
                self.tables[t].entries[index] = entry;
                proof {
                    assert(self.spec_frames() =~= pre.spec_frames().push(g));
                    assert(self.spec_levels() =~= pre.spec_levels().push(lvl - 1));
                    assert forall|e0: int| 0 <= e0 < 512 implies !(#[trigger] self.entry_at(
                        u as int,
                        e0,
                    )).spec_present() by {}
                    lemma_create_shapes(&pre, self, t as int, index as int, u as int, g, entry);
                    assert forall|p: u64| self.mapping_of(p) == pre.mapping_of(p) by {
                        lemma_create_preserves_mapping(&pre, self, t as int, index as int, p);
                    }
                    assert forall|t0: int|
                        0 <= t0 < self.num_tables() implies alloc.allocated().contains(
                        (#[trigger] self.spec_frames()[t0]) as usize,
                    ) by {
                        if t0 < pre.num_tables() {
                            assert(old(alloc).allocated().contains(
                                pre.spec_frames()[t0] as usize,
                            ));
                        }
                    }
                }
                Ok(u)
            },
        }
    }

    /// Writes `e` into slot `index` of the level-1 table `t`. Exactly
    /// the pages whose walk ends at that slot change their mapping, and
    /// the tree's structure — its tables, frames and walks — stays as it
    /// was.
    fn set_leaf(&mut self, t: usize, index: usize, e: Entry)
        requires
            old(self).wf(),
            t < old(self).num_tables(),
            index < 512,
            old(self).spec_levels()[t as int] == 1,
        ensures
            final (self).wf(),
            final (self).num_tables() == old(self).num_tables(),
            final (self).spec_frames() == old(self).spec_frames(),
            final (self).spec_levels() == old(self).spec_levels(),
            final (self).entry_at(t as int, index as int) == e,
            forall|t0: int, e0: int|
                0 <= t0 < old(self).num_tables() && 0 <= e0 < 512 && !(t0 == t && e0 == index)
                    ==> final (self).entry_at(t0, e0) == old(self).entry_at(t0, e0),
            forall|p: u64|
                #![trigger final (self).mapping_of(p)]
                final (self).mapping_of(p) == if old(self).leaf_table(p) == t
                    && spec_level1_index(p) == index {
                    if e.spec_present() {
                        Some(e)
                    } else {
                        None::<Entry>
                    }
                } else {
                    old(self).mapping_of(p)
                },
    {
        let ghost pre = *old(self);
        self.tables[t].entries[index] = e;
        proof {
            assert forall|t0: int, e0: int| #[trigger]
                self.is_table_ref(t0, e0) implies exists|x: int|
                0 <= x < self.num_tables() && self.spec_frames()[x] == self.entry_at(
                    t0,
                    e0,
                ).spec_frame_num() && self.spec_levels()[x] == self.spec_levels()[t0] - 1 by {
                assert(pre.is_table_ref(t0, e0));
            }
            assert forall|t1: int, e1: int, t2: int, e2: int| #[trigger]
                self.is_table_ref(t1, e1) && #[trigger] self.is_table_ref(t2, e2) && !(t1 == t2
                && e1 == e2) implies self.entry_at(t1, e1).spec_frame_num() != self.entry_at(
                t2,
                e2,
            ).spec_frame_num() by {
                assert(pre.is_table_ref(t1, e1) && pre.is_table_ref(t2, e2));
            }
            assert forall|p: u64|
                self.mapping_of(p) == (if pre.leaf_table(p) == t as int && spec_level1_index(p)
                    == index {
                    if e.spec_present() {
                        Some(e)
                    } else {
                        None::<Entry>
                    }
                } else {
                    pre.mapping_of(p)
                }) by {
                crate::page::lemma_indices_bounded(p);
                let i4 = spec_level4_index(p) as int;
                let i3 = spec_level3_index(p) as int;
                let i2 = spec_level2_index(p) as int;
                if pre.entry_at(0, i4).spec_present() {
                    assert(pre.is_table_ref(0, i4));
                    lemma_walk_stable(&pre, self, 0, i4);
                    let t3 = pre.walk_step(0, i4);
                    if pre.entry_at(t3, i3).spec_present() {
                        assert(pre.is_table_ref(t3, i3));
                        lemma_walk_stable(&pre, self, t3, i3);
                        let t2 = pre.walk_step(t3, i3);
                        if pre.entry_at(t2, i2).spec_present() {
                            assert(pre.is_table_ref(t2, i2));
                            lemma_walk_stable(&pre, self, t2, i2);
                        }
                    }
                }
            }
        }
    }
}

/// Entry `(t, e)` of `post` is either exactly what it was in `pre`, or a
/// present, writable, user-accessible pointer to a freshly created table.
pub open spec fn untouched_or_created(
    pre: RecursivePageTable,
    post: RecursivePageTable,
    t: int,
    e: int,
) -> bool {
    post.entry_at(t, e) == pre.entry_at(t, e) || post.entry_at(t, e).spec_flags() == (FLAG_PRESENT
        | FLAG_WRITE | FLAG_USER)
}

/// Walks, creates and tears down table levels to establish or remove a
/// single virtual-to-physical mapping in the tree it owns.
pub struct Mapper {
    page_table: RecursivePageTable,
}

impl Mapper {
    /// The tree this mapper edits.
    pub closed spec fn tree(&self) -> RecursivePageTable {
        self.page_table
    }

    pub fn new(table: RecursivePageTable) -> (r: Mapper)
        ensures
            r.tree() == table,
    {
        Mapper { page_table: table }
    }

    /// A view of the tree this mapper edits, for reading it out.
    pub fn table(&self) -> (r: &RecursivePageTable)
        ensures
            *r == self.tree(),
    {
        &self.page_table
    }

    /// The frame that page `page` is currently mapped to, when the walk
    /// completes and the leaf entry is present.
    pub fn translate(&self, page: Page) -> (r: Option<u64>)
        requires
            self.tree().wf(),
        ensures
            match r {
                Some(f) => self.tree().mapping_of(page@) matches Some(e) && e.spec_frame_num()
                    == f,
                None => self.tree().mapping_of(page@) is None,
            },
    {
        let l4_idx = page.level4_page_number();
        let l3_idx = page.level3_page_number();
        let l2_idx = page.level2_page_number();
        let l1_idx = page.level1_page_number();

        let t3 = match self.page_table.get_table(0, l4_idx) {
            Some(u) => u,
            None => {
                return None;
            },
        };
        let t2 = match self.page_table.get_table(t3, l3_idx) {
            Some(u) => u,
            None => {
                return None;
            },
        };
        let t1 = match self.page_table.get_table(t2, l2_idx) {
            Some(u) => u,
            None => {
                return None;
            },
        };
        let entry = self.page_table.tables[t1].entries[l1_idx];
        if entry.is_present() {
            Some(entry.addr().as_u64() >> 12u64)
        } else {
            None
        }
    }

    /// Establishes the mapping `page -> frame` with present and writable
    /// flags, creating any missing intermediate table from `alloc`: each
    /// created table hangs off a fresh present, writable, user-accessible
    /// entry, and intermediate entries that already existed are left
    /// exactly as they were. No other page's mapping changes. Fails only
    /// when the allocator is exhausted, and then changes no mapping at
    /// all.
    pub fn map<A: FrameAllocator>(&mut self, page: Page, frame: Frame, alloc: &mut A) -> (r: Result<
        (),
        MapError,
    >)
        requires
            old(self).tree().wf(),
            old(alloc).wf(),
            old(self).tree().owns_frames(old(alloc)),
            page@ < crate::page::PAGE_NUM_LIMIT,
            (frame@ as u64) < FRAME_NUM_LIMIT,
        ensures
            final (self).tree().wf(),
            final (alloc).wf(),
            final (self).tree().owns_frames(final (alloc)),
            old(alloc).allocated().subset_of(final (alloc).allocated()),
            match r {
                Ok(_) => {
                    &&& final (self).tree().mapping_of(page@) matches Some(e)
                        && e.spec_frame_num() == frame@ && e.spec_flags() == (FLAG_PRESENT
                        | FLAG_WRITE) && e.spec_present()
                    &&& forall|q: u64|
                        q < crate::page::PAGE_NUM_LIMIT && q != page@ ==> final (self).tree().mapping_of(
                            q,
                        ) == old(self).tree().mapping_of(q)
                    &&& ({
                        let i4 = spec_level4_index(page@) as int;
                        let i3 = spec_level3_index(page@) as int;
                        let i2 = spec_level2_index(page@) as int;
                        let t3 = final (self).tree().walk_step(0, i4);
                        let t2 = final (self).tree().walk_step(t3, i3);
                        &&& final (self).tree().entry_at(0, i4).spec_present()
                        &&& final (self).tree().entry_at(t3, i3).spec_present()
                        &&& final (self).tree().entry_at(t2, i2).spec_present()
                        &&& untouched_or_created(old(self).tree(), final (self).tree(), 0, i4)
                        &&& untouched_or_created(old(self).tree(), final (self).tree(), t3, i3)
                        &&& untouched_or_created(old(self).tree(), final (self).tree(), t2, i2)
                    })
                },
                Err(e) => {
                    &&& e == MapError::OutOfMemory
                    &&& !final (alloc).can_allocate()
                    &&& forall|q: u64|
                        final (self).tree().mapping_of(q) == old(self).tree().mapping_of(q)
                },
            },
    {
        let l4_idx = page.level4_page_number();
        let l3_idx = page.level3_page_number();
        let l2_idx = page.level2_page_number();
        let l1_idx = page.level1_page_number();

        // walk down manually, creating missing levels on the way
        let t3 = match self.page_table.create_table(0, l4_idx, alloc) {
            Ok(u) => u,
            Err(e) => {
                return Err(e);
            },
        };
        let ghost s1 = self.page_table;
        let t2 = match self.page_table.create_table(t3, l3_idx, alloc) {
            Ok(u) => u,
            Err(e) => {
                return Err(e);
            },
        };
        let ghost s2 = self.page_table;
        let t1 = match self.page_table.create_table(t2, l2_idx, alloc) {
            Ok(u) => u,
            Err(e) => {
                return Err(e);
            },
        };
        let ghost s3 = self.page_table;
        proof {
            assert(s1.is_table_ref(0, l4_idx as int));
            assert(s2.walk_step(0, l4_idx as int) == t3);
            assert(s2.is_table_ref(0, l4_idx as int) && s2.is_table_ref(t3 as int, l3_idx as int));
            assert(s3.walk_step(0, l4_idx as int) == t3);
            assert(s3.walk_step(t3 as int, l3_idx as int) == t2);
            assert(s3.walk_step(t2 as int, l2_idx as int) == t1);
            assert(s3.leaf_table(page@) == t1);
            assert((0x1u64 | 0x2u64) == 0x3u64 && (0x3u64 & 0x000F_FFFF_FFFF_F000u64) == 0u64 && (
            0x3u64 & 0x1u64) == 0x1u64) by (bit_vector);
        }
        let entry = Entry::new(&frame, FLAG_PRESENT | FLAG_WRITE);
        self.page_table.set_leaf(t1, l1_idx, entry);
        proof {
            assert forall|q: u64|
                q < crate::page::PAGE_NUM_LIMIT && q != page@ implies self.tree().mapping_of(q)
                == old(self).tree().mapping_of(q) by {
                if s3.leaf_table(q) == t1 && spec_level1_index(q) == l1_idx {
                    lemma_walk_injective(&s3, page@, q);
                }
            }
            assert forall|t0: int|
                0 <= t0 < self.tree().num_tables() implies alloc.allocated().contains(
                (#[trigger] self.tree().spec_frames()[t0]) as usize,
            ) by {
                assert(s3.spec_frames()[t0] == self.tree().spec_frames()[t0]);
            }
            // the three intermediate slots of the page's path: each was
            // left untouched or freshly created as present+writable+user
            let s0 = old(self).tree();
            let s4 = self.page_table;
            let i4 = l4_idx as int;
            let i3 = l3_idx as int;
            let i2 = l2_idx as int;
            lemma_entry_zero();
            assert(s3.spec_levels()[t3 as int] == 3 && s3.spec_levels()[t2 as int] == 2
                && s3.spec_levels()[t1 as int] == 1);
            assert(t3 != 0 && t2 != 0 && t1 != 0 && t2 != t3 && t1 != t3 && t1 != t2);
            // the leaf write touched only table t1, so the walk steps of
            // the three upper levels carry over to the final state
            lemma_walk_stable(&s3, &s4, 0, i4);
            assert(s3.is_table_ref(t3 as int, i3) && s3.is_table_ref(t2 as int, i2));
            lemma_walk_stable(&s3, &s4, t3 as int, i3);
            lemma_walk_stable(&s3, &s4, t2 as int, i2);
            assert(s4.walk_step(0, i4) == t3 && s4.walk_step(t3 as int, i3) == t2);
            assert(s4.entry_at(0, i4) == s3.entry_at(0, i4));
            assert(s4.entry_at(t3 as int, i3) == s3.entry_at(t3 as int, i3));
            assert(s4.entry_at(t2 as int, i2) == s3.entry_at(t2 as int, i2));
            if s0.entry_at(0, i4).spec_present() {
                assert(s1 == s0);
                assert(s2.entry_at(0, i4) == s1.entry_at(0, i4));
                assert(s3.entry_at(0, i4) == s2.entry_at(0, i4));
            } else {
                assert(s1.entry_at(0, i4).spec_flags() == (FLAG_PRESENT | FLAG_WRITE | FLAG_USER));
                assert(s2.entry_at(0, i4) == s1.entry_at(0, i4));
                assert(s3.entry_at(0, i4) == s2.entry_at(0, i4));
            }
            if s1.entry_at(t3 as int, i3).spec_present() {
                assert(s2 == s1);
                // a freshly created level-3 table starts out clear, so a
                // present entry means the table already existed
                if !s0.entry_at(0, i4).spec_present() {
                    assert(s1.entry_at(t3 as int, i3)@ == 0);
                    assert(false);
                }
                assert(s1 == s0);
                assert(s3.entry_at(t3 as int, i3) == s2.entry_at(t3 as int, i3));
            } else {
                assert(s2.entry_at(t3 as int, i3).spec_flags() == (FLAG_PRESENT | FLAG_WRITE
                    | FLAG_USER));
                assert(s3.entry_at(t3 as int, i3) == s2.entry_at(t3 as int, i3));
            }
            if s2.entry_at(t2 as int, i2).spec_present() {
                assert(s3 == s2);
                if t2 == s1.num_tables() {
                    assert(s2.entry_at(t2 as int, i2)@ == 0);
                    assert(false);
                }
                if s1.entry_at(t3 as int, i3).spec_present() {
                    assert(s2 == s1);
                    if !s0.entry_at(0, i4).spec_present() {
                        assert(s1.entry_at(t3 as int, i3)@ == 0);
                        assert(false);
                    }
                    assert(s1 == s0);
                } else {
                    // the level-2 table predates the walk: only the slot
                    // (t3, i3) changed between the start and this step
                    assert(t2 < s1.num_tables());
                    assert(s2.entry_at(t2 as int, i2) == s1.entry_at(t2 as int, i2));
                    if s0.entry_at(0, i4).spec_present() {
                        assert(s1 == s0);
                    } else {
                        assert(t2 < s0.num_tables());
                        assert(s1.entry_at(t2 as int, i2) == s0.entry_at(t2 as int, i2));
                    }
                }
            } else {
                assert(s3.entry_at(t2 as int, i2).spec_flags() == (FLAG_PRESENT | FLAG_WRITE
                    | FLAG_USER));
            }
        }
        Ok(())
    }

    /// Establishes the mapping `page -> frame` exactly as `map` does,
    /// but never allocates: when an intermediate table is missing it
    /// fails, naming the level, and changes nothing. It succeeds exactly
    /// when the whole path down to the level-1 table already exists.
    pub fn map_no_alloc(&mut self, page: Page, frame: Frame) -> (r: Result<(), MapError>)
        requires
            old(self).tree().wf(),
            page@ < crate::page::PAGE_NUM_LIMIT,
            (frame@ as u64) < FRAME_NUM_LIMIT,
        ensures
            final (self).tree().wf(),
            final (self).tree().spec_frames() == old(self).tree().spec_frames(),
            r is Ok <==> old(self).tree().leaf_table(page@) >= 0,
            match r {
                Ok(_) => {
                    &&& final (self).tree().mapping_of(page@) matches Some(e)
                        && e.spec_frame_num() == frame@ && e.spec_flags() == (FLAG_PRESENT
                        | FLAG_WRITE) && e.spec_present()
                    &&& forall|q: u64|
                        q < crate::page::PAGE_NUM_LIMIT && q != page@ ==> final (self).tree().mapping_of(
                            q,
                        ) == old(self).tree().mapping_of(q)
                },
                Err(e) => *final (self) == *old(self) && e == old(self).tree().missing_level_error(
                    page@,
                ),
            },
    {
        let l4_idx = page.level4_page_number();
        let l3_idx = page.level3_page_number();
        let l2_idx = page.level2_page_number();
        let l1_idx = page.level1_page_number();

        // walk down manually, failing where the path is broken
        let t3 = match self.page_table.get_table(0, l4_idx) {
            Some(u) => u,
            None => {
                return Err(MapError::Level3TableNotMapped);
            },
        };
        let t2 = match self.page_table.get_table(t3, l3_idx) {
            Some(u) => u,
            None => {
                return Err(MapError::Level2TableNotMapped);
            },
        };
        let t1 = match self.page_table.get_table(t2, l2_idx) {
            Some(u) => u,
            None => {
                return Err(MapError::Level1TableNotMapped);
            },
        };
        let ghost s0 = self.page_table;
        proof {
            assert((0x1u64 | 0x2u64) == 0x3u64 && (0x3u64 & 0x000F_FFFF_FFFF_F000u64) == 0u64 && (
            0x3u64 & 0x1u64) == 0x1u64) by (bit_vector);
        }
        let entry = Entry::new(&frame, FLAG_PRESENT | FLAG_WRITE);
        self.page_table.set_leaf(t1, l1_idx, entry);
        proof {
            assert forall|q: u64|
                q < crate::page::PAGE_NUM_LIMIT && q != page@ implies self.tree().mapping_of(q)
                == old(self).tree().mapping_of(q) by {
                if s0.leaf_table(q) == t1 && spec_level1_index(q) == l1_idx {
                    lemma_walk_injective(&s0, page@, q);
                }
            }
        }
        Ok(())
    }

    /// Removes the mapping for `page` by clearing its level-1 entry; no
    /// other page's mapping changes, and no table is reclaimed. When an
    /// intermediate table is missing it fails, naming the level, and
    /// changes nothing; it succeeds exactly when the walk reaches a
    /// level-1 table.
    pub fn unmap(&mut self, page: Page) -> (r: Result<(), MapError>)
        requires
            old(self).tree().wf(),
            page@ < crate::page::PAGE_NUM_LIMIT,
        ensures
            final (self).tree().wf(),
            final (self).tree().spec_frames() == old(self).tree().spec_frames(),
            final (self).tree().num_tables() == old(self).tree().num_tables(),
            r is Ok <==> old(self).tree().leaf_table(page@) >= 0,
            match r {
                Ok(_) => {
                    &&& final (self).tree().mapping_of(page@) is None
                    &&& forall|q: u64|
                        q < crate::page::PAGE_NUM_LIMIT && q != page@ ==> final (self).tree().mapping_of(
                            q,
                        ) == old(self).tree().mapping_of(q)
                },
                Err(e) => *final (self) == *old(self) && e == old(self).tree().missing_level_error(
                    page@,
                ),
            },
    {
        let l4_idx = page.level4_page_number();
        let l3_idx = page.level3_page_number();
        let l2_idx = page.level2_page_number();
        let l1_idx = page.level1_page_number();

        // walk down manually, failing where the path is broken; the
        // frames backing now-possibly-empty intermediate tables are not
        // reclaimed
        let t3 = match self.page_table.get_table(0, l4_idx) {
            Some(u) => u,
            None => {
                return Err(MapError::Level3TableNotMapped);
            },
        };
        let t2 = match self.page_table.get_table(t3, l3_idx) {
            Some(u) => u,
            None => {
                return Err(MapError::Level2TableNotMapped);
            },
        };
        let t1 = match self.page_table.get_table(t2, l2_idx) {
            Some(u) => u,
            None => {
                return Err(MapError::Level1TableNotMapped);
            },
        };
        let ghost s0 = self.page_table;
        self.page_table.set_leaf(t1, l1_idx, Entry::empty());
        proof {
            assert forall|q: u64|
                q < crate::page::PAGE_NUM_LIMIT && q != page@ implies self.tree().mapping_of(q)
                == old(self).tree().mapping_of(q) by {
                if s0.leaf_table(q) == t1 && spec_level1_index(q) == l1_idx {
                    lemma_walk_injective(&s0, page@, q);
                }
            }
        }
        Ok(())
    }
}

/// A walk step is unchanged between two well-formed trees when the
/// stepped-through entry is unchanged, the old tables keep their frames
/// and levels, and only new tables (in fresh frames) were added.
proof fn lemma_walk_stable(pre: &RecursivePageTable, post: &RecursivePageTable, t0: int, e0: int)
    requires
        pre.wf(),
        post.wf(),
        pre.is_table_ref(t0, e0),
        pre.num_tables() <= post.num_tables(),
        forall|x: int|
            0 <= x < pre.num_tables() ==> post.spec_frames()[x] == pre.spec_frames()[x]
                && post.spec_levels()[x] == pre.spec_levels()[x],
        post.entry_at(t0, e0) == pre.entry_at(t0, e0),
    ensures
        post.walk_step(t0, e0) == pre.walk_step(t0, e0),
        0 <= pre.walk_step(t0, e0) < pre.num_tables(),
        pre.spec_levels()[pre.walk_step(t0, e0)] == pre.spec_levels()[t0] - 1,
        pre.spec_frames()[pre.walk_step(t0, e0)] == pre.entry_at(t0, e0).spec_frame_num(),
    decreases 0int,
{
    let fnum = pre.entry_at(t0, e0).spec_frame_num();
    let c = pre.child_of(t0, e0);
    assert(0 <= c < pre.num_tables() && pre.spec_frames()[c] == fnum && pre.spec_levels()[c]
        == pre.spec_levels()[t0] - 1);
    assert(0 <= c < post.num_tables() && post.spec_frames()[c] == fnum && post.spec_levels()[c]
        == post.spec_levels()[t0] - 1);
    let c2 = post.child_of(t0, e0);
    assert(0 <= c2 < post.num_tables() && post.spec_frames()[c2] == fnum);
    if c2 != c {
        assert(post.spec_frames()[c2] == post.spec_frames()[c]);
        assert(false);
    }
}

/// Two pages below the page-number limit whose walks end at the same
/// leaf table with the same leaf index are the same page: distinct slots
/// never point at the same table, so distinct paths never meet.
pub proof fn lemma_walk_injective(tree: &RecursivePageTable, p: u64, q: u64)
    requires
        tree.wf(),
        p < crate::page::PAGE_NUM_LIMIT,
        q < crate::page::PAGE_NUM_LIMIT,
        tree.leaf_table(p) >= 0,
        tree.leaf_table(p) == tree.leaf_table(q),
        spec_level1_index(p) == spec_level1_index(q),
    ensures
        p == q,
{
    crate::page::lemma_indices_bounded(p);
    crate::page::lemma_indices_bounded(q);
    let p4 = spec_level4_index(p) as int;
    let p3 = spec_level3_index(p) as int;
    let p2 = spec_level2_index(p) as int;
    let q4 = spec_level4_index(q) as int;
    let q3 = spec_level3_index(q) as int;
    let q2 = spec_level2_index(q) as int;
    assert(tree.is_table_ref(0, p4) && tree.is_table_ref(0, q4));
    let tp3 = tree.walk_step(0, p4);
    let tq3 = tree.walk_step(0, q4);
    lemma_child_in_range(tree, 0, p4);
    lemma_child_in_range(tree, 0, q4);
    assert(tree.is_table_ref(tp3, p3) && tree.is_table_ref(tq3, q3));
    let tp2 = tree.walk_step(tp3, p3);
    let tq2 = tree.walk_step(tq3, q3);
    lemma_child_in_range(tree, tp3, p3);
    lemma_child_in_range(tree, tq3, q3);
    assert(tree.is_table_ref(tp2, p2) && tree.is_table_ref(tq2, q2));
    lemma_child_in_range(tree, tp2, p2);
    lemma_child_in_range(tree, tq2, q2);
    if p4 != q4 || tp3 != tq3 {
        assert(tree.entry_at(0, p4).spec_frame_num() != tree.entry_at(0, q4).spec_frame_num()
            || tp3 == tq3);
        assert(tp3 != tq3);
        assert(tree.entry_at(tp3, p3).spec_frame_num() != tree.entry_at(tq3, q3).spec_frame_num());
        assert(tp2 != tq2);
        assert(tree.entry_at(tp2, p2).spec_frame_num() != tree.entry_at(tq2, q2).spec_frame_num());
        assert(tree.walk_step(tp2, p2) != tree.walk_step(tq2, q2));
        assert(false);
    }
    if p3 != q3 {
        assert(tree.entry_at(tp3, p3).spec_frame_num() != tree.entry_at(tq3, q3).spec_frame_num());
        assert(tp2 != tq2);
        assert(tree.entry_at(tp2, p2).spec_frame_num() != tree.entry_at(tq2, q2).spec_frame_num());
        assert(false);
    }
    if p2 != q2 {
        assert(tree.entry_at(tp2, p2).spec_frame_num() != tree.entry_at(tq2, q2).spec_frame_num());
        assert(false);
    }
    lemma_indices_determine_page(p, q);
}

/// A present slot's walk step lands on a stored table one level down,
/// sitting in the frame the slot names.
proof fn lemma_child_in_range(tree: &RecursivePageTable, t0: int, e0: int)
    requires
        tree.wf(),
        tree.is_table_ref(t0, e0),
    ensures
        0 <= tree.walk_step(t0, e0) < tree.num_tables(),
        tree.spec_levels()[tree.walk_step(t0, e0)] == tree.spec_levels()[t0] - 1,
        tree.spec_frames()[tree.walk_step(t0, e0)] == tree.entry_at(t0, e0).spec_frame_num(),
{
    let fnum = tree.entry_at(t0, e0).spec_frame_num();
    let c = tree.child_of(t0, e0);
    assert(0 <= c < tree.num_tables() && tree.spec_frames()[c] == fnum && tree.spec_levels()[c]
        == tree.spec_levels()[t0] - 1);
}

/// After a missing table is created — one zeroed table appended in a
/// fresh frame and one previously absent slot now pointing at it — the
/// tree is still well formed, the new slot steps to the new table, and
/// every walk step that existed before is unchanged.
proof fn lemma_create_shapes(
    pre: &RecursivePageTable,
    post: &RecursivePageTable,
    t: int,
    index: int,
    u: int,
    g: u64,
    entry: Entry,
)
    requires
        pre.wf(),
        0 <= t < pre.num_tables(),
        0 <= index < 512,
        pre.spec_levels()[t] >= 2,
        !pre.entry_at(t, index).spec_present(),
        g < FRAME_NUM_LIMIT,
        g <= usize::MAX,
        forall|x: int| 0 <= x < pre.num_tables() ==> pre.spec_frames()[x] != g,
        u == pre.num_tables(),
        post.num_tables() == u + 1,
        post.spec_frames() == pre.spec_frames().push(g),
        post.spec_levels() == pre.spec_levels().push(pre.spec_levels()[t] - 1),
        forall|t0: int|
            0 <= t0 < post.num_tables() ==> (#[trigger] post.tables@[t0])@.len() == 512,
        forall|t0: int, e0: int|
            0 <= t0 < pre.num_tables() && 0 <= e0 < 512 && !(t0 == t && e0 == index)
                ==> post.entry_at(t0, e0) == pre.entry_at(t0, e0),
        post.entry_at(t, index) == entry,
        entry.spec_present(),
        entry.spec_frame_num() == g,
        forall|e0: int| 0 <= e0 < 512 ==> !(#[trigger] post.entry_at(u, e0)).spec_present(),
    ensures
        post.wf(),
        post.walk_step(t, index) == u,
        forall|t0: int, e0: int|
            #[trigger] pre.is_table_ref(t0, e0) ==> post.is_table_ref(t0, e0) && post.walk_step(
                t0,
                e0,
            ) == pre.walk_step(t0, e0),
{
    assert forall|t0: int, e0: int| #[trigger]
        post.is_table_ref(t0, e0) implies exists|x: int|
        0 <= x < post.num_tables() && post.spec_frames()[x] == post.entry_at(
            t0,
            e0,
        ).spec_frame_num() && post.spec_levels()[x] == post.spec_levels()[t0] - 1 by {
        if t0 == t && e0 == index {
            assert(post.spec_frames()[u] == g && post.spec_levels()[u] == post.spec_levels()[t]
                - 1);
        } else if t0 < u {
            assert(pre.is_table_ref(t0, e0));
            let x = choose|x: int|
                0 <= x < pre.num_tables() && pre.spec_frames()[x] == pre.entry_at(
                    t0,
                    e0,
                ).spec_frame_num() && pre.spec_levels()[x] == pre.spec_levels()[t0] - 1;
            assert(0 <= x < post.num_tables() && post.spec_frames()[x] == post.entry_at(
                t0,
                e0,
            ).spec_frame_num() && post.spec_levels()[x] == post.spec_levels()[t0] - 1);
        }
    }
    assert forall|t1: int, e1: int, t2: int, e2: int| #[trigger]
        post.is_table_ref(t1, e1) && #[trigger] post.is_table_ref(t2, e2) && !(t1 == t2 && e1
        == e2) implies post.entry_at(t1, e1).spec_frame_num() != post.entry_at(
        t2,
        e2,
    ).spec_frame_num() by {
        if t1 == t && e1 == index {
            if t2 < u {
                assert(pre.is_table_ref(t2, e2));
                lemma_ref_frame_stored(pre, t2, e2);
            }
        } else if t2 == t && e2 == index {
            if t1 < u {
                assert(pre.is_table_ref(t1, e1));
                lemma_ref_frame_stored(pre, t1, e1);
            }
        } else {
            if t1 < u && t2 < u {
                assert(pre.is_table_ref(t1, e1) && pre.is_table_ref(t2, e2));
            }
        }
    }
    assert(post.wf());
    let c = post.child_of(t, index);
    assert(post.spec_frames()[u] == g && post.spec_levels()[u] == post.spec_levels()[t] - 1);
    assert(0 <= c < post.num_tables() && post.spec_frames()[c] == g);
    if c != u {
        if c < u {
            assert(pre.spec_frames()[c] != g);
        }
        assert(false);
    }
    assert forall|t0: int, e0: int| #[trigger]
        pre.is_table_ref(t0, e0) implies post.is_table_ref(t0, e0) && post.walk_step(t0, e0)
        == pre.walk_step(t0, e0) by {
        lemma_walk_stable(pre, post, t0, e0);
    }
}

/// The frame a present slot names is one of the tree's stored frames.
proof fn lemma_ref_frame_stored(tree: &RecursivePageTable, t0: int, e0: int)
    requires
        tree.wf(),
        tree.is_table_ref(t0, e0),
    ensures
        exists|x: int|
            0 <= x < tree.num_tables() && #[trigger] tree.spec_frames()[x] == tree.entry_at(
                t0,
                e0,
            ).spec_frame_num(),
{
    let c = tree.child_of(t0, e0);
    assert(0 <= c < tree.num_tables() && tree.spec_frames()[c] == tree.entry_at(
        t0,
        e0,
    ).spec_frame_num());
}

/// Creating a table changes no mapping: the new slot was absent, so
/// every page whose walk passes through it was unmapped, and it still is
/// because the new table is empty.
proof fn lemma_create_preserves_mapping(
    pre: &RecursivePageTable,
    post: &RecursivePageTable,
    t: int,
    index: int,
    p: u64,
)
    requires
        pre.wf(),
        post.wf(),
        0 <= t < pre.num_tables(),
        0 <= index < 512,
        pre.spec_levels()[t] >= 2,
        !pre.entry_at(t, index).spec_present(),
        post.num_tables() == pre.num_tables() + 1,
        forall|x: int|
            0 <= x < pre.num_tables() ==> post.spec_frames()[x] == pre.spec_frames()[x]
                && post.spec_levels()[x] == pre.spec_levels()[x],
        post.spec_levels()[pre.num_tables() as int] == pre.spec_levels()[t] - 1,
        forall|t0: int, e0: int|
            0 <= t0 < pre.num_tables() && 0 <= e0 < 512 && !(t0 == t && e0 == index)
                ==> post.entry_at(t0, e0) == pre.entry_at(t0, e0),
        post.entry_at(t, index).spec_present(),
        post.walk_step(t, index) == pre.num_tables(),
        forall|e0: int|
            0 <= e0 < 512 ==> !(#[trigger] post.entry_at(pre.num_tables() as int, e0)).spec_present(),
    ensures
        post.mapping_of(p) == pre.mapping_of(p),
{
    crate::page::lemma_indices_bounded(p);
    let u = pre.num_tables() as int;
    let i4 = spec_level4_index(p) as int;
    let i3 = spec_level3_index(p) as int;
    let i2 = spec_level2_index(p) as int;
    let i1 = spec_level1_index(p) as int;
    if t == 0 && index == i4 {
        assert(pre.mapping_of(p) is None);
        assert(post.walk_step(0, i4) == u);
        assert(post.walk_step(u, i3) == -1);
        assert(post.mapping_of(p) is None);
    } else {
        assert(post.entry_at(0, i4) == pre.entry_at(0, i4));
        if !pre.entry_at(0, i4).spec_present() {
            assert(pre.mapping_of(p) is None && post.mapping_of(p) is None);
        } else {
            assert(pre.is_table_ref(0, i4));
            lemma_walk_stable(pre, post, 0, i4);
            let t3 = pre.walk_step(0, i4);
            if t == t3 && index == i3 {
                assert(pre.walk_step(t3, i3) == -1);
                assert(pre.mapping_of(p) is None);
                assert(post.walk_step(t3, i3) == u);
                assert(post.walk_step(u, i2) == -1);
                assert(post.mapping_of(p) is None);
            } else {
                assert(post.entry_at(t3, i3) == pre.entry_at(t3, i3));
                if !pre.entry_at(t3, i3).spec_present() {
                    assert(pre.mapping_of(p) is None && post.mapping_of(p) is None);
                } else {
                    assert(pre.is_table_ref(t3, i3));
                    lemma_walk_stable(pre, post, t3, i3);
                    let t2 = pre.walk_step(t3, i3);
                    if t == t2 && index == i2 {
                        assert(pre.walk_step(t2, i2) == -1);
                        assert(pre.mapping_of(p) is None);
                        assert(post.walk_step(t2, i2) == u);
                        assert(post.leaf_table(p) == u);
                        assert(!post.entry_at(u, i1).spec_present());
                        assert(post.mapping_of(p) is None);
                    } else {
                        assert(post.entry_at(t2, i2) == pre.entry_at(t2, i2));
                        if !pre.entry_at(t2, i2).spec_present() {
                            assert(pre.mapping_of(p) is None && post.mapping_of(p) is None);
                        } else {
                            assert(pre.is_table_ref(t2, i2));
                            lemma_walk_stable(pre, post, t2, i2);
                            let t1 = pre.walk_step(t2, i2);
                            assert(pre.spec_levels()[t1] == 1);
                            assert(t1 != t);
                            assert(post.entry_at(t1, i1) == pre.entry_at(t1, i1));
                        }
                    }
                }
            }
        }
    }
}

/// Two page numbers below the limit with the same four table indices
/// are equal.
proof fn lemma_indices_determine_page(p: u64, q: u64)
    requires
        p < 0x10_0000_0000u64,
        q < 0x10_0000_0000u64,
        spec_level4_index(p) == spec_level4_index(q),
        spec_level3_index(p) == spec_level3_index(q),
        spec_level2_index(p) == spec_level2_index(q),
        spec_level1_index(p) == spec_level1_index(q),
    ensures
        p == q,
{
    assert(p < 0x10_0000_0000u64 && q < 0x10_0000_0000u64 && ((p >> 27) & 0o777) == ((q >> 27)
        & 0o777) && ((p >> 18) & 0o777) == ((q >> 18) & 0o777) && ((p >> 9) & 0o777) == ((q >> 9)
        & 0o777) && (p & 0o777) == (q & 0o777) ==> p == q) by (bit_vector);
}
/// Two stored tables in the same frame are the same table.
proof fn lemma_frames_distinct(tree: &RecursivePageTable, a: int, b: int)
    requires
        tree.wf(),
        0 <= a < tree.num_tables(),
        0 <= b < tree.num_tables(),
        tree.spec_frames()[a] == tree.spec_frames()[b],
    ensures
        a == b,
{
}

/// A table with 512 empty entries.
fn new_zeroed_table() -> (r: PageTable)
    ensures
        r@.len() == 512,
        forall|e: int| 0 <= e < 512 ==> !(#[trigger] r@[e]).spec_present() && r@[e]@ == 0,
{
    let mut entries: Vec<Entry> = Vec::new();
    let mut i: usize = 0;
    while i < 512
        invariant
            i <= 512,
            entries@.len() == i,
            forall|e: int| 0 <= e < i ==> !(#[trigger] entries@[e]).spec_present() && entries@[e]@ == 0,
        decreases 512 - i,
    {
        entries.push(Entry::empty());
        i = i + 1;
    }
    PageTable { entries }
}

} // verus!
