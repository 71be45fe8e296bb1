//! A task's address space: its page table together with the frames that back
//! its mapped pages.

use crate::address::{page_ceil, page_floor, VirtAddr, VirtPageNum};
use crate::frame_allocator::{zero_page, FrameTracker, StackFrameAllocator};
use crate::page_table::{permission_ok, user_flags, PTEFlags, PageTable, PageTableEntry};
use std::collections::BTreeMap;
use vstd::prelude::*;

verus! {

/// One memory area: the contiguous range `[start_vpn, end_vpn)` of virtual
/// pages, mapped with one set of flags.
#[derive(Clone, Copy, Debug, PartialEq, Eq, Structural)]
pub struct MapArea {
    pub start_vpn: VirtPageNum,
    pub end_vpn: VirtPageNum,
    pub flags: PTEFlags,
}

impl MapArea {
    /// Page `vpn` lies in the area.
    pub open spec fn contains(self, vpn: usize) -> bool {
        self.start_vpn.0 <= vpn < self.end_vpn.0
    }

    /// The two areas share no page.
    pub open spec fn apart_from(self, other: MapArea) -> bool {
        self.end_vpn.0 <= other.start_vpn.0 || other.end_vpn.0 <= self.start_vpn.0
    }

    /// The area lies within `outer`, has its flags and holds a page.
    pub open spec fn part_of(self, outer: MapArea) -> bool {
        &&& outer.start_vpn.0 <= self.start_vpn.0 < self.end_vpn.0 <= outer.end_vpn.0
        &&& self.flags == outer.flags
    }
}

/// What is left of area `a` when the pages `[start, end)` leave it: the
/// area itself where the range is empty or misses it, else the part below
/// the range and the part above it, as far as they hold a page.
pub open spec fn trim_one(a: MapArea, start: int, end: int) -> Seq<MapArea> {
    if start >= end || a.end_vpn.0 <= start || end <= a.start_vpn.0 {
        seq![a]
    } else {
        let below = if a.start_vpn.0 < start {
            seq![MapArea { end_vpn: VirtPageNum(start as usize), ..a }]
        } else {
            Seq::<MapArea>::empty()
        };
        let above = if end < a.end_vpn.0 {
            seq![MapArea { start_vpn: VirtPageNum(end as usize), ..a }]
        } else {
            Seq::<MapArea>::empty()
        };
        below + above
    }
}

/// What is left of `areas`, in order, when the pages `[start, end)` leave them.
pub open spec fn trim(areas: Seq<MapArea>, start: int, end: int) -> Seq<MapArea>
    decreases areas.len(),
{
    if areas.len() == 0 {
        Seq::<MapArea>::empty()
    } else {
        trim(areas.drop_last(), start, end) + trim_one(areas.last(), start, end)
    }
}

/// How many pages `areas` hold together.
pub open spec fn area_pages(areas: Seq<MapArea>) -> int
    decreases areas.len(),
{
    if areas.len() == 0 {
        0
    } else {
        area_pages(areas.drop_last()) + (areas.last().end_vpn.0 - areas.last().start_vpn.0)
    }
}

/// The areas hold a page each, share no page, and together cover exactly
/// the mapped pages, each page with the flags of its area.
pub open spec fn areas_ok(areas: Seq<MapArea>, mappings: Map<usize, PageTableEntry>) -> bool {
    &&& forall|i: int| 0 <= i < areas.len() ==> (#[trigger] areas[i]).start_vpn.0 < areas[i].end_vpn.0
    &&& forall|i: int, j: int|
        0 <= i < j < areas.len() ==> (#[trigger] areas[i]).apart_from(#[trigger] areas[j])
    &&& forall|i: int, vpn: usize|
        0 <= i < areas.len() && #[trigger] areas[i].contains(vpn) ==> mappings.contains_key(vpn)
            && mappings[vpn].flags == areas[i].flags
    &&& forall|vpn: usize| #[trigger]
        mappings.contains_key(vpn) ==> exists|i: int|
            0 <= i < areas.len() && #[trigger] areas[i].contains(vpn)
}

/// What an address space is, mathematically: its memory areas, which
/// virtual pages are mapped, with which entry, and what bytes each mapped
/// page holds.
pub struct AddressSpace {
    /// The memory areas, in the order in which they were made.
    pub areas: Seq<MapArea>,
    /// Virtual page number to page-table entry.
    pub mappings: Map<usize, PageTableEntry>,
    /// Virtual page number to the bytes of the page.
    pub memory: Map<usize, Seq<u8>>,
}

impl AddressSpace {
    /// The address space with no area and no page.
    pub open spec fn emptied() -> AddressSpace {
        AddressSpace { areas: Seq::empty(), mappings: Map::empty(), memory: Map::empty() }
    }

    /// The same pages are mapped and backed, every entry is valid, every
    /// page holds 4096 bytes, and the areas cover exactly the mapped pages.
    pub open spec fn consistent(self) -> bool {
        &&& areas_ok(self.areas, self.mappings)
        &&& forall|vpn: usize|
            #![trigger self.mappings.contains_key(vpn)]
            #![trigger self.memory.contains_key(vpn)]
            {
                &&& self.mappings.contains_key(vpn) == self.memory.contains_key(vpn)
                &&& self.mappings.contains_key(vpn) ==> self.mappings[vpn].flags.valid
                &&& self.memory.contains_key(vpn) ==> self.memory[vpn].len() == 4096
            }
    }

    /// No page of `[start, end)` is mapped.
    pub open spec fn range_unmapped(self, start: int, end: int) -> bool {
        forall|vpn: usize| start <= vpn < end ==> !#[trigger] self.mappings.contains_key(vpn)
    }

    /// Every page of `[start, end)` is mapped.
    pub open spec fn range_mapped(self, start: int, end: int) -> bool {
        forall|vpn: usize| start <= vpn < end ==> #[trigger] self.mappings.contains_key(vpn)
    }

    /// `other` maps the same pages to the same entries and bytes.
    pub open spec fn same_as(self, other: AddressSpace) -> bool {
        &&& self.areas =~= other.areas
        &&& self.mappings =~= other.mappings
        &&& self.memory =~= other.memory
    }
}

/// `post` is `pre` with the pages of `[start, end)` as a new area with
/// `flags`, each page mapped onto a zeroed frame, and nothing else changed.
pub open spec fn maps_range(
    pre: AddressSpace,
    post: AddressSpace,
    start: int,
    end: int,
    flags: PTEFlags,
) -> bool {
    &&& maps_pages(pre, post, start, end, flags)
    &&& post.areas == (if start < end {
        pre.areas.push(
            MapArea {
                start_vpn: VirtPageNum(start as usize),
                end_vpn: VirtPageNum(end as usize),
                flags,
            },
        )
    } else {
        pre.areas
    })
}

/// `post` is `pre` without the pages of `[start, end)`, which have left
/// their areas, and nothing else changed.
pub open spec fn unmaps_range(pre: AddressSpace, post: AddressSpace, start: int, end: int) -> bool {
    &&& unmaps_pages(pre, post, start, end)
    &&& post.areas == trim(pre.areas, start, end)
}

/// The pages of `post` are those of `pre` and every page of `[start, end)`,
/// newly mapped with `flags` onto a zeroed frame.
pub open spec fn maps_pages(
    pre: AddressSpace,
    post: AddressSpace,
    start: int,
    end: int,
    flags: PTEFlags,
) -> bool {
    forall|vpn: usize|
        #![trigger post.mappings.contains_key(vpn)]
        #![trigger post.memory.contains_key(vpn)]
        #![trigger post.mappings[vpn]]
        #![trigger post.memory[vpn]]
        if start <= vpn < end {
            &&& post.mappings.contains_key(vpn)
            &&& post.mappings[vpn].flags == flags
            &&& post.memory.contains_key(vpn)
            &&& post.memory[vpn] == zero_page()
        } else {
            &&& post.mappings.contains_key(vpn) == pre.mappings.contains_key(vpn)
            &&& post.memory.contains_key(vpn) == pre.memory.contains_key(vpn)
            &&& pre.mappings.contains_key(vpn) ==> post.mappings[vpn] == pre.mappings[vpn]
            &&& pre.memory.contains_key(vpn) ==> post.memory[vpn] == pre.memory[vpn]
        }
}

/// The pages of `post` are those of `pre` but for the pages of `[start, end)`.
pub open spec fn unmaps_pages(pre: AddressSpace, post: AddressSpace, start: int, end: int) -> bool {
    forall|vpn: usize|
        #![trigger post.mappings.contains_key(vpn)]
        #![trigger post.memory.contains_key(vpn)]
        #![trigger post.mappings[vpn]]
        #![trigger post.memory[vpn]]
        if start <= vpn < end {
            &&& !post.mappings.contains_key(vpn)
            &&& !post.memory.contains_key(vpn)
        } else {
            &&& post.mappings.contains_key(vpn) == pre.mappings.contains_key(vpn)
            &&& post.memory.contains_key(vpn) == pre.memory.contains_key(vpn)
            &&& pre.mappings.contains_key(vpn) ==> post.mappings[vpn] == pre.mappings[vpn]
            &&& pre.memory.contains_key(vpn) ==> post.memory[vpn] == pre.memory[vpn]
        }
}

/// The address space of one task: the frame at the root of its page table,
/// the page table, and the frames behind its pages, keyed by virtual page
/// number.
pub struct MemorySet {
    root_frame: FrameTracker,
    page_table: PageTable,
    areas: Vec<MapArea>,
    data_frames: BTreeMap<usize, FrameTracker>,
}

impl View for MemorySet {
    type V = AddressSpace;

    closed spec fn view(&self) -> AddressSpace {
        AddressSpace {
            areas: self.areas@,
            mappings: self.page_table@,
            memory: Map::new(
                |vpn: usize| self.data_frames@.contains_key(vpn),
                |vpn: usize| self.data_frames@[vpn].bytes(),
            ),
        }
    }
}

impl MemorySet {
    /// Every mapped page is backed by exactly one well-formed frame, the one
    /// its entry names, and the areas cover exactly the mapped pages.
    pub closed spec fn wf(&self) -> bool {
        &&& self.pages_wf()
        &&& areas_ok(self.areas@, self.page_table@)
    }

    /// Every mapped page is backed by exactly one well-formed frame, the one
    /// its entry names.
    spec fn pages_wf(&self) -> bool {
        &&& self.page_table.wf()
        &&& forall|vpn: usize|
            #![trigger self.page_table@.contains_key(vpn)]
            #![trigger self.data_frames@.contains_key(vpn)]
            {
                &&& self.page_table@.contains_key(vpn) == self.data_frames@.contains_key(vpn)
                &&& self.data_frames@.contains_key(vpn) ==> {
                    &&& self.data_frames@[vpn].wf()
                    &&& self.page_table@[vpn].ppn == self.data_frames@[vpn].spec_ppn()
                }
            }
    }

    /// The token of the page table.
    pub closed spec fn spec_token(&self) -> usize {
        self.page_table.spec_token()
    }

    /// The view of a well-formed memory set is consistent.
    pub proof fn lemma_consistent(&self)
        requires
            self.wf(),
        ensures
            self@.consistent(),
    {
        assert forall|vpn: usize|
            #![trigger self@.mappings.contains_key(vpn)]
            #![trigger self@.memory.contains_key(vpn)]
            {
                &&& self@.mappings.contains_key(vpn) == self@.memory.contains_key(vpn)
                &&& self@.mappings.contains_key(vpn) ==> self@.mappings[vpn].flags.valid
                &&& self@.memory.contains_key(vpn) ==> self@.memory[vpn].len() == 4096
            } by {
            if self.page_table@.contains_key(vpn) {
                self.page_table.lemma_entries_valid(vpn);
                self.data_frames@[vpn].lemma_len();
            }
        }
    }

    /// An address space with no page mapped, whose page table is rooted at
    /// frame `root`.
    pub fn new_bare(root: FrameTracker) -> (set: MemorySet)
        ensures
            set.wf(),
            set@ == AddressSpace::emptied(),
            set.spec_token() == root.spec_ppn().0,
    {
        let page_table = PageTable::new(root.ppn());
        let set = MemorySet {
            root_frame: root,
            page_table,
            areas: Vec::new(),
            data_frames: BTreeMap::new(),
        };
        assert(set@.areas =~= Seq::<MapArea>::empty());
        assert(set@.memory =~= Map::<usize, Seq<u8>>::empty());
        set
    }

    /// The token that names this address space to the hardware.
    pub fn token(&self) -> (token: usize)
        ensures
            token == self.spec_token(),
    {
        self.page_table.token()
    }

    /// The memory areas, in the order in which they were made.
    pub fn areas(&self) -> (areas: &Vec<MapArea>)
        ensures
            areas@ == self@.areas,
    {
        &self.areas
    }

    /// Looks `vpn` up in the page table.
    pub fn translate(&self, vpn: VirtPageNum) -> (pte: Option<PageTableEntry>)
        ensures
            pte == (if self@.mappings.contains_key(vpn.0) {
                Some(self@.mappings[vpn.0])
            } else {
                None
            }),
    {
        self.page_table.translate(vpn)
    }

    /// Whether no page of `[start, end)` is mapped.
    pub fn is_range_unmapped(&self, start: VirtPageNum, end: VirtPageNum) -> (yes: bool)
        ensures
            yes == self@.range_unmapped(start.0 as int, end.0 as int),
    {
        let mut vpn: usize = start.0;
        while vpn < end.0
            invariant
                start.0 <= vpn,
                self@.range_unmapped(start.0 as int, vpn as int),
            decreases end.0 - vpn,
        {
            if self.page_table.translate(VirtPageNum(vpn)).is_some() {
                assert(self@.mappings.contains_key(vpn));
                return false;
            }
            vpn = vpn + 1;
        }
        true
    }

    /// Whether every page of `[start, end)` is mapped.
    pub fn is_range_mapped(&self, start: VirtPageNum, end: VirtPageNum) -> (yes: bool)
        ensures
            yes == self@.range_mapped(start.0 as int, end.0 as int),
    {
        let mut vpn: usize = start.0;
        while vpn < end.0
            invariant
                start.0 <= vpn,
                self@.range_mapped(start.0 as int, vpn as int),
            decreases end.0 - vpn,
        {
            if self.page_table.translate(VirtPageNum(vpn)).is_none() {
                assert(!self@.mappings.contains_key(vpn));
                return false;
            }
            vpn = vpn + 1;
        }
        true
    }

    /// Maps the pages of `[start, end)` as a new area with `flags` (marked
    /// valid), each page onto a fresh zeroed frame. The range must be
    /// unmapped and the pool must hold a frame for each page.
    pub fn map_range(
        &mut self,
        pool: &mut StackFrameAllocator,
        start: VirtPageNum,
        end: VirtPageNum,
        flags: PTEFlags,
    )
        requires
            old(self).wf(),
            old(pool).wf(),
            old(self)@.range_unmapped(start.0 as int, end.0 as int),
            old(pool).free_count() >= end.0 - start.0,
        ensures
            final(self).wf(),
            final(pool).wf(),
            final(self).spec_token() == old(self).spec_token(),
            maps_range(
                old(self)@,
                final(self)@,
                start.0 as int,
                end.0 as int,
                (PTEFlags { valid: true, ..flags }),
            ),
            final(pool).free_count() == old(pool).free_count() - (if end.0 > start.0 {
                end.0 - start.0
            } else {
                0
            }),
    {
        self.map_pages(pool, start, end, flags);
        if start.0 < end.0 {
            let area = MapArea {
                start_vpn: start,
                end_vpn: end,
                flags: PTEFlags {
                    valid: true,
                    readable: flags.readable,
                    writable: flags.writable,
                    executable: flags.executable,
                    user: flags.user,
                },
            };
            proof {
                lemma_push_keeps_areas_ok(
                    old(self)@.areas,
                    old(self)@.mappings,
                    self@.mappings,
                    area,
                );
            }
            self.areas.push(area);
        } else {
            proof {
                lemma_same_pages_keep_areas_ok(
                    old(self)@.areas,
                    old(self)@.mappings,
                    self@.mappings,
                );
            }
        }
    }

    fn map_pages(
        &mut self,
        pool: &mut StackFrameAllocator,
        start: VirtPageNum,
        end: VirtPageNum,
        flags: PTEFlags,
    )
        requires
            old(self).pages_wf(),
            old(pool).wf(),
            old(self)@.range_unmapped(start.0 as int, end.0 as int),
            old(pool).free_count() >= end.0 - start.0,
        ensures
            final(self).pages_wf(),
            final(pool).wf(),
            final(self).spec_token() == old(self).spec_token(),
            final(self).areas == old(self).areas,
            maps_pages(
                old(self)@,
                final(self)@,
                start.0 as int,
                end.0 as int,
                (PTEFlags { valid: true, ..flags }),
            ),
            final(pool).free_count() == old(pool).free_count() - (if end.0 > start.0 {
                end.0 - start.0
            } else {
                0
            }),
    {
        let mut vpn: usize = start.0;
        while vpn < end.0
            invariant
                start.0 <= vpn,
                vpn <= end.0 || vpn == start.0,
                self.pages_wf(),
                self.areas == old(self).areas,
                pool.wf(),
                self.spec_token() == old(self).spec_token(),
                old(self)@.range_unmapped(start.0 as int, end.0 as int),
                old(pool).free_count() >= end.0 - start.0,
                pool.free_count() == old(pool).free_count() - (vpn - start.0),
                maps_pages(
                    old(self)@,
                    self@,
                    start.0 as int,
                    vpn as int,
                    (PTEFlags { valid: true, ..flags }),
                ),
            decreases end.0 - vpn,
        {
            assert(!old(self)@.mappings.contains_key(vpn));
            assert(!self@.mappings.contains_key(vpn));
            match pool.frame_alloc() {
                Some(frame) => {
                    self.page_table.map(VirtPageNum(vpn), frame.ppn(), flags);
                    self.data_frames.insert(vpn, frame);
                },
                None => {
                    assert(false);
                },
            }
            vpn = vpn + 1;
        }
    }

    /// Unmaps every page of `[start, end)`, takes it out of its area and
    /// gives its frame back to the pool. Every page of the range must be
    /// mapped.
    pub fn unmap_range(
        &mut self,
        pool: &mut StackFrameAllocator,
        start: VirtPageNum,
        end: VirtPageNum,
    )
        requires
            old(self).wf(),
            old(pool).wf(),
            old(self)@.range_mapped(start.0 as int, end.0 as int),
        ensures
            final(self).wf(),
            final(pool).wf(),
            final(self).spec_token() == old(self).spec_token(),
            unmaps_range(old(self)@, final(self)@, start.0 as int, end.0 as int),
            final(pool).free_count() == old(pool).free_count() + (if end.0 > start.0 {
                end.0 - start.0
            } else {
                0
            }),
    {
        self.unmap_pages(pool, start, end);
        let mut kept: Vec<MapArea> = Vec::new();
        let mut i: usize = 0;
        while i < self.areas.len()
            invariant
                i <= self.areas@.len(),
                self.areas == old(self).areas,
                kept@ == trim(self.areas@.take(i as int), start.0 as int, end.0 as int),
            decreases self.areas@.len() - i,
        {
            let a = self.areas[i];
            proof {
                let next = self.areas@.take(i + 1);
                assert(next.drop_last() =~= self.areas@.take(i as int));
                assert(next.last() == a);
            }
            if start.0 >= end.0 || a.end_vpn.0 <= start.0 || end.0 <= a.start_vpn.0 {
                kept.push(a);
            } else {
                if a.start_vpn.0 < start.0 {
                    kept.push(MapArea { start_vpn: a.start_vpn, end_vpn: start, flags: a.flags });
                }
                if end.0 < a.end_vpn.0 {
                    kept.push(MapArea { start_vpn: end, end_vpn: a.end_vpn, flags: a.flags });
                }
            }
            assert(kept@ =~= trim(self.areas@.take(i + 1), start.0 as int, end.0 as int));
            i = i + 1;
        }
        proof {
            assert(self.areas@.take(i as int) =~= self.areas@);
            lemma_trim_keeps_areas_ok(
                old(self)@.areas,
                old(self)@.mappings,
                self@.mappings,
                start.0 as int,
                end.0 as int,
            );
        }
        self.areas = kept;
    }

    /// Tears the address space down: unmaps every page of every area and
    /// gives the frames back to the pool. The page table's root stays.
    pub fn recycle_data_pages(&mut self, pool: &mut StackFrameAllocator)
        requires
            old(self).wf(),
            old(pool).wf(),
        ensures
            final(self).wf(),
            final(pool).wf(),
            final(self).spec_token() == old(self).spec_token(),
            final(self)@ == AddressSpace::emptied(),
            final(pool).free_count() == old(pool).free_count() + area_pages(old(self)@.areas),
    {
        while self.areas.len() > 0
            invariant
                self.wf(),
                pool.wf(),
                self.spec_token() == old(self).spec_token(),
                pool.free_count() + area_pages(self@.areas) == old(pool).free_count() + area_pages(
                    old(self)@.areas,
                ),
            decreases self.areas@.len(),
        {
            let ghost before = self@;
            let a = self.areas[self.areas.len() - 1];
            proof {
                assert(before.areas[before.areas.len() - 1] == a);
                assert forall|vpn: usize| a.start_vpn.0 <= vpn < a.end_vpn.0 implies #[trigger] self@.mappings.contains_key(
                    vpn,
                ) by {
                    assert(before.areas[before.areas.len() - 1].contains(vpn));
                }
            }
            self.unmap_range(pool, a.start_vpn, a.end_vpn);
            proof {
                let rest = before.areas.drop_last();
                assert forall|i: int| 0 <= i < rest.len() implies (#[trigger] rest[i]).end_vpn.0
                    <= a.start_vpn.0 || a.end_vpn.0 <= rest[i].start_vpn.0 by {
                    assert(rest[i] == before.areas[i]);
                    assert(before.areas[i].apart_from(before.areas[before.areas.len() - 1]));
                }
                lemma_trim_misses(rest, a.start_vpn.0 as int, a.end_vpn.0 as int);
                assert(trim_one(a, a.start_vpn.0 as int, a.end_vpn.0 as int) =~= Seq::<
                    MapArea,
                >::empty());
                assert(self@.areas =~= rest);
            }
        }
        proof {
            assert forall|vpn: usize| !#[trigger] self.page_table@.contains_key(vpn) by {
                if self.page_table@.contains_key(vpn) {
                    let i = choose|i: int|
                        0 <= i < self.areas@.len() && #[trigger] self.areas@[i].contains(vpn);
                }
            }
            assert forall|vpn: usize| !#[trigger] self.data_frames@.contains_key(vpn) by {
                assert(!self.page_table@.contains_key(vpn));
            }
            assert(self@.mappings =~= Map::<usize, PageTableEntry>::empty());
            assert(self@.memory =~= Map::<usize, Seq<u8>>::empty());
            assert(self@.areas =~= Seq::<MapArea>::empty());
        }
    }

    fn unmap_pages(&mut self, pool: &mut StackFrameAllocator, start: VirtPageNum, end: VirtPageNum)
        requires
            old(self).pages_wf(),
            old(pool).wf(),
            old(self)@.range_mapped(start.0 as int, end.0 as int),
        ensures
            final(self).pages_wf(),
            final(pool).wf(),
            final(self).spec_token() == old(self).spec_token(),
            final(self).areas == old(self).areas,
            unmaps_pages(old(self)@, final(self)@, start.0 as int, end.0 as int),
            final(pool).free_count() == old(pool).free_count() + (if end.0 > start.0 {
                end.0 - start.0
            } else {
                0
            }),
    {
        let mut vpn: usize = start.0;
        while vpn < end.0
            invariant
                start.0 <= vpn,
                vpn <= end.0 || vpn == start.0,
                self.pages_wf(),
                self.areas == old(self).areas,
                pool.wf(),
                self.spec_token() == old(self).spec_token(),
                old(self)@.range_mapped(start.0 as int, end.0 as int),
                pool.free_count() == old(pool).free_count() + (vpn - start.0),
                unmaps_pages(old(self)@, self@, start.0 as int, vpn as int),
            decreases end.0 - vpn,
        {
            assert(old(self)@.mappings.contains_key(vpn));
            assert(self@.mappings.contains_key(vpn));
            self.page_table.unmap(VirtPageNum(vpn));
            match self.data_frames.remove(&vpn) {
                Some(frame) => {
                    pool.frame_dealloc(frame);
                },
                None => {
                    assert(false);
                },
            }
            vpn = vpn + 1;
        }
    }
}


/// `page` with `chunk` laid over it from position `at` on.
pub open spec fn splice(page: Seq<u8>, at: int, chunk: Seq<u8>) -> Seq<u8> {
    Seq::new(
        page.len(),
        |i: int|
            if at <= i < at + chunk.len() {
                chunk[i - at]
            } else {
                page[i]
            },
    )
}

impl AddressSpace {
    /// The page that holds virtual address `va`.
    pub open spec fn page_of(va: usize) -> usize {
        (va / 4096) as usize
    }

    /// The page after the one that holds virtual address `va`.
    pub open spec fn next_page_of(va: usize) -> usize {
        (va / 4096 + 1) as usize
    }

    /// User code may read the byte at `va`: its page is mapped, valid,
    /// readable and user-accessible.
    pub open spec fn can_read(self, va: usize) -> bool {
        let vpn = Self::page_of(va);
        &&& self.mappings.contains_key(vpn)
        &&& self.mappings[vpn].flags.valid
        &&& self.mappings[vpn].flags.readable
        &&& self.mappings[vpn].flags.user
    }

    /// User code may write the byte at `va`: its page is mapped, valid,
    /// writable and user-accessible.
    pub open spec fn can_write(self, va: usize) -> bool {
        let vpn = Self::page_of(va);
        &&& self.mappings.contains_key(vpn)
        &&& self.mappings[vpn].flags.valid
        &&& self.mappings[vpn].flags.writable
        &&& self.mappings[vpn].flags.user
    }

    /// The byte at virtual address `va`.
    pub open spec fn byte_at(self, va: usize) -> u8 {
        self.memory[Self::page_of(va)][(va % 4096) as int]
    }

    /// This space with the byte at `va` set to `value`.
    pub open spec fn with_byte(self, va: usize, value: u8) -> AddressSpace {
        let vpn = Self::page_of(va);
        AddressSpace {
            memory: self.memory.insert(vpn, self.memory[vpn].update((va % 4096) as int, value)),
            ..self
        }
    }

    /// Every page touched by `len` bytes starting at `va` is mapped.
    pub open spec fn can_hold(self, va: usize, len: int) -> bool {
        &&& self.mappings.contains_key(Self::page_of(va))
        &&& va % 4096 + len > 4096 ==> self.mappings.contains_key(Self::next_page_of(va))
    }

    /// This space with `bytes` written from `va` on: into the tail of the
    /// page of `va` and, where they do not fit there, on into the head of
    /// the next virtual page.
    pub open spec fn with_bytes(self, va: usize, bytes: Seq<u8>) -> AddressSpace {
        let vpn = Self::page_of(va);
        let next = Self::next_page_of(va);
        let offset = va % 4096;
        let first = if offset + bytes.len() <= 4096 {
            bytes.len() as int
        } else {
            4096 - offset
        };
        let head = self.memory.insert(
            vpn,
            splice(self.memory[vpn], offset as int, bytes.subrange(0, first)),
        );
        AddressSpace {
            memory: if first < bytes.len() {
                head.insert(next, splice(head[next], 0, bytes.subrange(first, bytes.len() as int)))
            } else {
                head
            },
            ..self
        }
    }

    /// The `len` bytes found from `va` on, read from the page of `va` and,
    /// past its end, from the next virtual page, in order.
    pub open spec fn bytes_from(self, va: usize, len: nat) -> Seq<u8> {
        let vpn = Self::page_of(va);
        let next = Self::next_page_of(va);
        let offset = va % 4096;
        Seq::new(
            len,
            |i: int|
                if offset + i < 4096 {
                    self.memory[vpn][offset + i]
                } else {
                    self.memory[next][offset + i - 4096]
                },
        )
    }
}

/// Whether a request to map `len > 0` bytes at `start` with permission
/// request `prot` is granted in `space`: `start` is page-aligned, the request
/// names an access right and no unknown bit, the range fits the address
/// word, and no page of it is mapped yet.
pub open spec fn mmap_accepts(space: AddressSpace, start: usize, len: usize, prot: usize) -> bool {
    &&& len > 0
    &&& start % 4096 == 0
    &&& permission_ok(prot)
    &&& start + len <= usize::MAX
    &&& space.range_unmapped(page_floor(start as int), page_ceil(start + len))
}

/// What `mmap` returns and does.
pub open spec fn mmap_spec(
    pre: AddressSpace,
    post: AddressSpace,
    start: usize,
    len: usize,
    prot: usize,
    ret: isize,
) -> bool {
    if len == 0 {
        ret == 0 && post == pre
    } else if mmap_accepts(pre, start, len, prot) {
        &&& ret == 0
        &&& maps_range(
            pre,
            post,
            page_floor(start as int),
            page_ceil(start + len),
            user_flags(prot),
        )
    } else {
        ret == -1 && post == pre
    }
}

/// Whether a request to unmap `len > 0` bytes at `start` is granted in
/// `space`: `start` is page-aligned, the range fits the address word, and
/// every page of it is mapped.
pub open spec fn munmap_accepts(space: AddressSpace, start: usize, len: usize) -> bool {
    &&& len > 0
    &&& start % 4096 == 0
    &&& start + len <= usize::MAX
    &&& space.range_mapped(page_floor(start as int), page_ceil(start + len))
}

/// What `unmmap` returns and does.
pub open spec fn munmap_spec(
    pre: AddressSpace,
    post: AddressSpace,
    start: usize,
    len: usize,
    ret: isize,
) -> bool {
    if len == 0 {
        ret == 0 && post == pre
    } else if munmap_accepts(pre, start, len) {
        &&& ret == 0
        &&& unmaps_range(pre, post, page_floor(start as int), page_ceil(start + len))
    } else {
        ret == -1 && post == pre
    }
}

/// The number of pages that a granted request for `len` bytes at `start` covers.
pub open spec fn pages_spanned(start: usize, len: usize) -> int {
    page_ceil(start + len) - page_floor(start as int)
}

impl MemorySet {
    /// Maps `len` bytes from `start` on with permission request `prot`
    /// (bit 0 read, bit 1 write, bit 2 execute). A zero `len` is a no-op that
    /// returns 0; a request that is not granted returns -1 and changes
    /// nothing; a granted one maps every page of the range onto a zeroed
    /// frame and returns 0. The pool must hold the frames of a granted request.
    pub fn mmap(
        &mut self,
        pool: &mut StackFrameAllocator,
        start: usize,
        len: usize,
        prot: usize,
    ) -> (ret: isize)
        requires
            old(self).wf(),
            old(pool).wf(),
            mmap_accepts(old(self)@, start, len, prot) ==> old(pool).free_count() >= pages_spanned(
                start,
                len,
            ),
        ensures
            final(self).wf(),
            final(pool).wf(),
            final(self).spec_token() == old(self).spec_token(),
            mmap_spec(old(self)@, final(self)@, start, len, prot, ret),
            final(pool).free_count() == old(pool).free_count() - (if mmap_accepts(
                old(self)@,
                start,
                len,
                prot,
            ) {
                pages_spanned(start, len)
            } else {
                0
            }),
    {
        if len == 0 {
            return 0;
        }
        if !VirtAddr(start).aligned() {
            return -1;
        }
        let flags = match PTEFlags::from_permission_bits(prot) {
            Some(f) => f,
            None => {
                return -1;
            },
        };
        let end_addr = match start.checked_add(len) {
            Some(e) => e,
            None => {
                return -1;
            },
        };
        let first = VirtAddr(start).floor();
        let last = VirtAddr(end_addr).ceil();
        if !self.is_range_unmapped(first, last) {
            return -1;
        }
        self.map_range(pool, first, last, flags);
        0
    }

    /// How many frames a request to map `len` bytes at `start` with `prot`
    /// would take from the pool: the pages it covers, or 0 where it would
    /// not be granted.
    pub fn mmap_frames_needed(&self, start: usize, len: usize, prot: usize) -> (n: usize)
        ensures
            n == (if mmap_accepts(self@, start, len, prot) {
                pages_spanned(start, len)
            } else {
                0
            }),
    {
        if len == 0 || !VirtAddr(start).aligned() || prot == 0 || prot > 7 {
            return 0;
        }
        let end_addr = match start.checked_add(len) {
            Some(e) => e,
            None => {
                return 0;
            },
        };
        let first = VirtAddr(start).floor();
        let last = VirtAddr(end_addr).ceil();
        if !self.is_range_unmapped(first, last) {
            return 0;
        }
        last.0 - first.0
    }

    /// Unmaps `len` bytes from `start` on. A zero `len` is a no-op that
    /// returns 0; a request that is not granted returns -1 and unmaps
    /// nothing; a granted one unmaps every page of the range, gives the
    /// frames back to the pool and returns 0.
    pub fn unmmap(&mut self, pool: &mut StackFrameAllocator, start: usize, len: usize) -> (ret:
        isize)
        requires
            old(self).wf(),
            old(pool).wf(),
        ensures
            final(self).wf(),
            final(pool).wf(),
            final(self).spec_token() == old(self).spec_token(),
            munmap_spec(old(self)@, final(self)@, start, len, ret),
            final(pool).free_count() == old(pool).free_count() + (if munmap_accepts(
                old(self)@,
                start,
                len,
            ) {
                pages_spanned(start, len)
            } else {
                0
            }),
    {
        if len == 0 {
            return 0;
        }
        if !VirtAddr(start).aligned() {
            return -1;
        }
        let end_addr = match start.checked_add(len) {
            Some(e) => e,
            None => {
                return -1;
            },
        };
        let first = VirtAddr(start).floor();
        let last = VirtAddr(end_addr).ceil();
        if !self.is_range_mapped(first, last) {
            return -1;
        }
        self.unmap_range(pool, first, last);
        0
    }

    /// Reads the byte at `va` on behalf of user code: `None` unless the page
    /// is mapped, valid, readable and user-accessible.
    pub fn peek(&self, va: usize) -> (value: Option<u8>)
        requires
            self.wf(),
        ensures
            value == (if self@.can_read(va) {
                Some(self@.byte_at(va))
            } else {
                None
            }),
    {
        let vpn = VirtAddr(va).floor();
        let offset = VirtAddr(va).page_offset();
        match self.page_table.translate(vpn) {
            Some(pte) => {
                if pte.is_valid() && pte.readable() && pte.is_user() {
                    match self.data_frames.get(&vpn.0) {
                        Some(frame) => Some(frame.read_byte(offset)),
                        None => None,
                    }
                } else {
                    None
                }
            },
            None => None,
        }
    }

    /// Writes `value` at `va` on behalf of user code, and says whether it
    /// did: nothing is written unless the page is mapped, valid, writable and
    /// user-accessible.
    pub fn poke(&mut self, va: usize, value: u8) -> (done: bool)
        requires
            old(self).wf(),
        ensures
            final(self).wf(),
            final(self).spec_token() == old(self).spec_token(),
            done == old(self)@.can_write(va),
            final(self)@ == (if done {
                old(self)@.with_byte(va, value)
            } else {
                old(self)@
            }),
    {
        let vpn = VirtAddr(va).floor();
        let offset = VirtAddr(va).page_offset();
        match self.page_table.translate(vpn) {
            Some(pte) => {
                if pte.is_valid() && pte.writable() && pte.is_user() {
                    match self.data_frames.remove(&vpn.0) {
                        Some(mut frame) => {
                            frame.write_byte(offset, value);
                            self.data_frames.insert(vpn.0, frame);
                            assert(self@.memory =~= old(self)@.with_byte(va, value).memory);
                            true
                        },
                        None => {
                            assert(false);
                            false
                        },
                    }
                } else {
                    false
                }
            },
            None => false,
        }
    }

    fn write_chunk(&mut self, vpn: usize, offset: usize, bytes: &Vec<u8>, from: usize, to: usize)
        requires
            old(self).wf(),
            old(self)@.mappings.contains_key(vpn),
            from <= to <= bytes@.len(),
            offset + (to - from) <= 4096,
        ensures
            final(self).wf(),
            final(self).spec_token() == old(self).spec_token(),
            final(self)@.areas == old(self)@.areas,
            final(self)@.mappings == old(self)@.mappings,
            final(self)@.memory == old(self)@.memory.insert(
                vpn,
                splice(old(self)@.memory[vpn], offset as int, bytes@.subrange(from as int, to as int)),
            ),
    {
        assert(self.page_table@.contains_key(vpn));
        assert(self.data_frames@.contains_key(vpn));
        match self.data_frames.remove(&vpn) {
            Some(mut frame) => {
                let ghost page = frame.bytes();
                proof {
                    frame.lemma_len();
                }
                let mut i: usize = from;
                assert(frame.bytes() =~= splice(
                    page,
                    offset as int,
                    bytes@.subrange(from as int, i as int),
                ));
                while i < to
                    invariant
                        from <= i <= to,
                        to <= bytes@.len(),
                        offset + (to - from) <= 4096,
                        frame.wf(),
                        page.len() == 4096,
                        frame.spec_ppn() == old(self).data_frames@[vpn].spec_ppn(),
                        frame.bytes() == splice(
                            page,
                            offset as int,
                            bytes@.subrange(from as int, i as int),
                        ),
                    decreases to - i,
                {
                    frame.write_byte(offset + (i - from), bytes[i]);
                    assert(frame.bytes() =~= splice(
                        page,
                        offset as int,
                        bytes@.subrange(from as int, i + 1),
                    ));
                    i = i + 1;
                }
                self.data_frames.insert(vpn, frame);
                assert(self@.memory =~= old(self)@.memory.insert(
                    vpn,
                    splice(
                        old(self)@.memory[vpn],
                        offset as int,
                        bytes@.subrange(from as int, to as int),
                    ),
                ));
            },
            None => {
                assert(false);
            },
        }
    }

    /// Writes `bytes` into this address space from `va` on, and says whether
    /// it did. The bytes may straddle a page boundary: every page they touch
    /// is looked up before the first byte is written, and where one is
    /// unmapped nothing is written.
    pub fn write_bytes(&mut self, va: usize, bytes: &Vec<u8>) -> (done: bool)
        requires
            old(self).wf(),
            bytes@.len() <= 4096,
        ensures
            final(self).wf(),
            final(self).spec_token() == old(self).spec_token(),
            done == old(self)@.can_hold(va, bytes@.len() as int),
            final(self)@ == (if done {
                old(self)@.with_bytes(va, bytes@)
            } else {
                old(self)@
            }),
    {
        let vpn = VirtAddr(va).floor();
        let offset = VirtAddr(va).page_offset();
        if self.page_table.translate(vpn).is_none() {
            return false;
        }
        let n = bytes.len();
        if offset + n <= 4096 {
            self.write_chunk(vpn.0, offset, bytes, 0, n);
            true
        } else {
            let first = 4096 - offset;
            let next = vpn.0 + 1;
            if self.page_table.translate(VirtPageNum(next)).is_none() {
                return false;
            }
            self.write_chunk(vpn.0, offset, bytes, 0, first);
            self.write_chunk(next, 0, bytes, first, n);
            true
        }
    }

    /// Copies `len` bytes out of this address space from `va` on, or `None`
    /// where a page they touch is unmapped.
    pub fn read_bytes(&self, va: usize, len: usize) -> (bytes: Option<Vec<u8>>)
        requires
            self.wf(),
            len <= 4096,
        ensures
            match bytes {
                Some(b) => self@.can_hold(va, len as int) && b@ == self@.bytes_from(va, len as nat),
                None => !self@.can_hold(va, len as int),
            },
    {
        let vpn = VirtAddr(va).floor();
        let offset = VirtAddr(va).page_offset();
        let first = match self.data_frames.get(&vpn.0) {
            Some(frame) => frame,
            None => {
                return None;
            },
        };
        let mut out: Vec<u8> = Vec::new();
        if offset + len <= 4096 {
            let mut i: usize = 0;
            while i < len
                invariant
                    i <= len,
                    offset + len <= 4096,
                    first.wf(),
                    first.bytes() == self@.memory[vpn.0],
                    out@.len() == i,
                    forall|j: int| 0 <= j < i ==> out@[j] == self@.memory[vpn.0][offset + j],
                decreases len - i,
            {
                out.push(first.read_byte(offset + i));
                i = i + 1;
            }
            assert(out@ =~= self@.bytes_from(va, len as nat));
            Some(out)
        } else {
            let next = vpn.0 + 1;
            let second = match self.data_frames.get(&next) {
                Some(frame) => frame,
                None => {
                    return None;
                },
            };
            let mut i: usize = 0;
            while i < len
                invariant
                    i <= len,
                    len <= 4096,
                    offset < 4096,
                    first.wf(),
                    second.wf(),
                    first.bytes() == self@.memory[vpn.0],
                    second.bytes() == self@.memory[next],
                    out@.len() == i,
                    forall|j: int|
                        0 <= j < i ==> out@[j] == (if offset + j < 4096 {
                            self@.memory[vpn.0][offset + j]
                        } else {
                            self@.memory[next][offset + j - 4096]
                        }),
                decreases len - i,
            {
                if offset + i < 4096 {
                    out.push(first.read_byte(offset + i));
                } else {
                    out.push(second.read_byte(offset + i - 4096));
                }
                i = i + 1;
            }
            assert(out@ =~= self@.bytes_from(va, len as nat));
            Some(out)
        }
    }
}

/// Areas that cover exactly the mapped pages still do so when the pages are
/// mapped as before.
pub proof fn lemma_same_pages_keep_areas_ok(
    areas: Seq<MapArea>,
    before: Map<usize, PageTableEntry>,
    after: Map<usize, PageTableEntry>,
)
    requires
        areas_ok(areas, before),
        forall|vpn: usize|
            #![trigger after.contains_key(vpn)]
            #![trigger after[vpn]]
            {
                &&& after.contains_key(vpn) == before.contains_key(vpn)
                &&& before.contains_key(vpn) ==> after[vpn] == before[vpn]
            },
    ensures
        areas_ok(areas, after),
{
    assert forall|i: int, vpn: usize|
        0 <= i < areas.len() && #[trigger] areas[i].contains(vpn) implies after.contains_key(vpn)
        && after[vpn].flags == areas[i].flags by {
        assert(before.contains_key(vpn));
    }
    assert forall|vpn: usize| #[trigger] after.contains_key(vpn) implies exists|i: int|
        0 <= i < areas.len() && #[trigger] areas[i].contains(vpn) by {
        assert(before.contains_key(vpn));
    }
}

/// Areas that cover exactly the mapped pages still do so when a new area
/// joins them whose pages, unmapped before, are mapped with its flags.
pub proof fn lemma_push_keeps_areas_ok(
    areas: Seq<MapArea>,
    before: Map<usize, PageTableEntry>,
    after: Map<usize, PageTableEntry>,
    area: MapArea,
)
    requires
        areas_ok(areas, before),
        area.start_vpn.0 < area.end_vpn.0,
        forall|vpn: usize|
            #![trigger after.contains_key(vpn)]
            #![trigger after[vpn]]
            if area.contains(vpn) {
                &&& !before.contains_key(vpn)
                &&& after.contains_key(vpn)
                &&& after[vpn].flags == area.flags
            } else {
                &&& after.contains_key(vpn) == before.contains_key(vpn)
                &&& before.contains_key(vpn) ==> after[vpn] == before[vpn]
            },
    ensures
        areas_ok(areas.push(area), after),
{
    let joined = areas.push(area);
    let last = joined.len() - 1;
    assert forall|i: int, j: int| 0 <= i < j < joined.len() implies (#[trigger] joined[i]).apart_from(
        #[trigger] joined[j],
    ) by {
        if j == last {
            let a = areas[i];
            let probe: usize = if a.start_vpn.0 >= area.start_vpn.0 {
                a.start_vpn.0
            } else {
                area.start_vpn.0
            };
            if !a.apart_from(area) {
                assert(a.contains(probe));
                assert(area.contains(probe));
                assert(after.contains_key(probe));
            }
        } else {
            assert(joined[i] == areas[i]);
            assert(joined[j] == areas[j]);
        }
    }
    assert forall|i: int, vpn: usize|
        0 <= i < joined.len() && #[trigger] joined[i].contains(vpn) implies after.contains_key(vpn)
        && after[vpn].flags == joined[i].flags by {
        if i < last {
            assert(areas[i].contains(vpn));
            assert(before.contains_key(vpn));
        }
    }
    assert forall|vpn: usize| #[trigger] after.contains_key(vpn) implies exists|i: int|
        0 <= i < joined.len() && #[trigger] joined[i].contains(vpn) by {
        if area.contains(vpn) {
            assert(joined[last].contains(vpn));
        } else {
            assert(before.contains_key(vpn));
            let i = choose|i: int| 0 <= i < areas.len() && #[trigger] areas[i].contains(vpn);
            assert(joined[i].contains(vpn));
        }
    }
}

/// Every area left by a trim is part of one of the areas before it and
/// holds no page of the range that left.
pub proof fn lemma_trim_parts(areas: Seq<MapArea>, start: int, end: int, k: int) -> (i: int)
    requires
        0 <= k < trim(areas, start, end).len(),
        0 <= start,
        end <= usize::MAX,
        forall|i: int| 0 <= i < areas.len() ==> (#[trigger] areas[i]).start_vpn.0 < areas[i].end_vpn.0,
    ensures
        0 <= i < areas.len(),
        trim(areas, start, end)[k].part_of(areas[i]),
        start < end ==> trim(areas, start, end)[k].end_vpn.0 <= start || end <= trim(
            areas,
            start,
            end,
        )[k].start_vpn.0,
        k >= trim(areas.drop_last(), start, end).len() ==> i == areas.len() - 1,
        k < trim(areas.drop_last(), start, end).len() ==> i < areas.len() - 1,
    decreases areas.len(),
{
    let front = trim(areas.drop_last(), start, end);
    if k < front.len() {
        assert forall|i: int| 0 <= i < areas.drop_last().len() implies (#[trigger] areas.drop_last()[i]).start_vpn.0
            < areas.drop_last()[i].end_vpn.0 by {
            assert(areas.drop_last()[i] == areas[i]);
        }
        let i = lemma_trim_parts(areas.drop_last(), start, end, k);
        assert(areas.drop_last()[i] == areas[i]);
        i
    } else {
        areas.len() - 1
    }
}

/// Every page of an area that is not in the range that left lies in an
/// area left by the trim.
pub proof fn lemma_trim_covers(areas: Seq<MapArea>, start: int, end: int, i: int, vpn: usize) -> (k:
    int)
    requires
        0 <= i < areas.len(),
        areas[i].contains(vpn),
        0 <= start,
        end <= usize::MAX,
        !(start <= vpn < end),
    ensures
        0 <= k < trim(areas, start, end).len(),
        trim(areas, start, end)[k].contains(vpn),
    decreases areas.len(),
{
    let front = trim(areas.drop_last(), start, end);
    let a = areas.last();
    if i < areas.len() - 1 {
        assert(areas.drop_last()[i] == areas[i]);
        lemma_trim_covers(areas.drop_last(), start, end, i, vpn)
    } else {
        let rest = trim_one(a, start, end);
        if start >= end || a.end_vpn.0 <= start || end <= a.start_vpn.0 {
            assert(rest[0].contains(vpn));
            front.len() as int
        } else if vpn < start {
            assert(rest[0].contains(vpn));
            front.len() as int
        } else {
            assert(rest[rest.len() - 1].contains(vpn));
            front.len() + rest.len() - 1
        }
    }
}

/// Areas that cover exactly the mapped pages still do so after a range of
/// pages has been unmapped and has left them.
pub proof fn lemma_trim_keeps_areas_ok(
    areas: Seq<MapArea>,
    before: Map<usize, PageTableEntry>,
    after: Map<usize, PageTableEntry>,
    start: int,
    end: int,
)
    requires
        areas_ok(areas, before),
        0 <= start,
        end <= usize::MAX,
        forall|vpn: usize|
            #![trigger after.contains_key(vpn)]
            #![trigger after[vpn]]
            if start <= vpn < end {
                !after.contains_key(vpn)
            } else {
                &&& after.contains_key(vpn) == before.contains_key(vpn)
                &&& before.contains_key(vpn) ==> after[vpn] == before[vpn]
            },
    ensures
        areas_ok(trim(areas, start, end), after),
{
    let left = trim(areas, start, end);
    assert forall|k: int| 0 <= k < left.len() implies (#[trigger] left[k]).start_vpn.0
        < left[k].end_vpn.0 by {
        lemma_trim_parts(areas, start, end, k);
    }
    assert forall|k: int, vpn: usize|
        0 <= k < left.len() && #[trigger] left[k].contains(vpn) implies after.contains_key(vpn)
        && after[vpn].flags == left[k].flags by {
        let i = lemma_trim_parts(areas, start, end, k);
        assert(areas[i].contains(vpn));
        assert(before.contains_key(vpn));
    }
    assert forall|vpn: usize| #[trigger] after.contains_key(vpn) implies exists|k: int|
        0 <= k < left.len() && #[trigger] left[k].contains(vpn) by {
        assert(before.contains_key(vpn));
        let i = choose|i: int| 0 <= i < areas.len() && #[trigger] areas[i].contains(vpn);
        let k = lemma_trim_covers(areas, start, end, i, vpn);
        assert(left[k].contains(vpn));
    }
    lemma_trim_apart(areas, start, end);
}

/// Areas that share no page share none after a trim.
pub proof fn lemma_trim_apart(areas: Seq<MapArea>, start: int, end: int)
    requires
        0 <= start,
        end <= usize::MAX,
        forall|i: int| 0 <= i < areas.len() ==> (#[trigger] areas[i]).start_vpn.0 < areas[i].end_vpn.0,
        forall|i: int, j: int|
            0 <= i < j < areas.len() ==> (#[trigger] areas[i]).apart_from(#[trigger] areas[j]),
    ensures
        forall|k: int, l: int|
            0 <= k < l < trim(areas, start, end).len() ==> (#[trigger] trim(
                areas,
                start,
                end,
            )[k]).apart_from(#[trigger] trim(areas, start, end)[l]),
    decreases areas.len(),
{
    let left = trim(areas, start, end);
    if areas.len() > 0 {
        let front_areas = areas.drop_last();
        let front = trim(front_areas, start, end);
        assert forall|i: int| 0 <= i < front_areas.len() implies (#[trigger] front_areas[i]).start_vpn.0
            < front_areas[i].end_vpn.0 by {
            assert(front_areas[i] == areas[i]);
        }
        assert forall|i: int, j: int| 0 <= i < j < front_areas.len() implies (#[trigger] front_areas[i]).apart_from(
            #[trigger] front_areas[j],
        ) by {
            assert(front_areas[i] == areas[i]);
            assert(front_areas[j] == areas[j]);
        }
        lemma_trim_apart(front_areas, start, end);
        assert forall|k: int, l: int| 0 <= k < l < left.len() implies (#[trigger] left[k]).apart_from(
            #[trigger] left[l],
        ) by {
            if l < front.len() {
                assert(left[k] == front[k]);
                assert(left[l] == front[l]);
            } else if k < front.len() {
                let i = lemma_trim_parts(areas, start, end, k);
                let j = lemma_trim_parts(areas, start, end, l);
                assert(areas[i].apart_from(areas[j]));
            } else {
                let rest = trim_one(areas.last(), start, end);
                assert(left[k] == rest[k - front.len()]);
                assert(left[l] == rest[l - front.len()]);
            }
        }
    }
}

/// A trim leaves areas as they are where none of them holds a page of the
/// range.
pub proof fn lemma_trim_misses(areas: Seq<MapArea>, start: int, end: int)
    requires
        forall|i: int|
            0 <= i < areas.len() ==> (#[trigger] areas[i]).end_vpn.0 <= start || end
                <= areas[i].start_vpn.0,
    ensures
        trim(areas, start, end) == areas,
    decreases areas.len(),
{
    if areas.len() > 0 {
        assert forall|i: int| 0 <= i < areas.drop_last().len() implies (#[trigger] areas.drop_last()[i]).end_vpn.0
            <= start || end <= areas.drop_last()[i].start_vpn.0 by {
            assert(areas.drop_last()[i] == areas[i]);
        }
        lemma_trim_misses(areas.drop_last(), start, end);
        assert(trim(areas, start, end) =~= areas);
    } else {
        assert(trim(areas, start, end) =~= areas);
    }
}

/// Mapping a range and unmapping it at once gives back the address space as
/// it was: the same areas, the same pages mapped to the same entries, holding
/// the same bytes. This is so whether or not the mapping was granted, but for
/// a range that was fully mapped to begin with: there the mapping is refused
/// and the unmapping then takes the earlier pages away.
pub proof fn lemma_mmap_munmap_round_trip(
    before: AddressSpace,
    mapped: AddressSpace,
    after: AddressSpace,
    start: usize,
    len: usize,
    prot: usize,
    mapped_ret: isize,
    unmapped_ret: isize,
)
    requires
        before.consistent(),
        len > 0,
        start % 4096 == 0,
        !munmap_accepts(before, start, len),
        mmap_spec(before, mapped, start, len, prot, mapped_ret),
        munmap_spec(mapped, after, start, len, unmapped_ret),
    ensures
        after.same_as(before),
        mapped_ret == 0 ==> unmapped_ret == 0,
{
    let first = page_floor(start as int);
    let last = page_ceil(start + len);
    if mmap_accepts(before, start, len, prot) {
        assert(mapped.range_mapped(first, last));
        assert(munmap_accepts(mapped, start, len));
        assert(first < last);
        let area = MapArea {
            start_vpn: VirtPageNum(first as usize),
            end_vpn: VirtPageNum(last as usize),
            flags: user_flags(prot),
        };
        assert(mapped.areas == before.areas.push(area));
        assert(mapped.areas.drop_last() =~= before.areas);
        assert forall|i: int| 0 <= i < before.areas.len() implies (#[trigger] before.areas[i]).end_vpn.0
            <= first || last <= before.areas[i].start_vpn.0 by {
            let a = before.areas[i];
            let probe: usize = if a.start_vpn.0 >= first {
                a.start_vpn.0
            } else {
                first as usize
            };
            if !(a.end_vpn.0 <= first || last <= a.start_vpn.0) {
                assert(a.contains(probe));
                assert(before.mappings.contains_key(probe));
            }
        }
        lemma_trim_misses(before.areas, first, last);
        assert(trim_one(area, first, last) =~= Seq::<MapArea>::empty());
        assert(after.areas =~= before.areas);
        assert forall|vpn: usize| after.mappings.contains_key(vpn) == before.mappings.contains_key(
            vpn,
        ) by {
            assert(mapped.mappings.contains_key(vpn) == (before.mappings.contains_key(vpn) || first
                <= vpn < last));
        }
        assert forall|vpn: usize| after.memory.contains_key(vpn) == before.memory.contains_key(
            vpn,
        ) by {
            assert(mapped.memory.contains_key(vpn) == (before.memory.contains_key(vpn) || first
                <= vpn < last));
            assert(before.mappings.contains_key(vpn) == before.memory.contains_key(vpn));
        }
        assert(after.mappings =~= before.mappings);
        assert(after.memory =~= before.memory);
    }
}

/// A request to map a range that holds an already mapped page is refused
/// with -1, and the address space stays as it was.
pub proof fn lemma_mmap_over_mapped_page(
    before: AddressSpace,
    after: AddressSpace,
    start: usize,
    len: usize,
    prot: usize,
    ret: isize,
    vpn: usize,
)
    requires
        len > 0,
        page_floor(start as int) <= vpn < page_ceil(start + len),
        before.mappings.contains_key(vpn),
        mmap_spec(before, after, start, len, prot, ret),
    ensures
        ret == -1,
        after == before,
{
}

/// A request to unmap a range that holds a page which is not mapped is
/// refused with -1, and every page stays as it was.
pub proof fn lemma_munmap_of_unmapped_page(
    before: AddressSpace,
    after: AddressSpace,
    start: usize,
    len: usize,
    ret: isize,
    vpn: usize,
)
    requires
        len > 0,
        page_floor(start as int) <= vpn < page_ceil(start + len),
        !before.mappings.contains_key(vpn),
        munmap_spec(before, after, start, len, ret),
    ensures
        ret == -1,
        after == before,
{
}

/// A request of length zero, to map or to unmap, returns 0 and changes nothing.
pub proof fn lemma_zero_length_is_a_no_op(
    before: AddressSpace,
    after: AddressSpace,
    start: usize,
    prot: usize,
    ret: isize,
)
    requires
        mmap_spec(before, after, start, 0, prot, ret) || munmap_spec(before, after, start, 0, ret),
    ensures
        ret == 0,
        after == before,
{
}

/// Bytes written from an address on are found again when read from that
/// address on, whether or not they straddle a page boundary.
pub proof fn lemma_write_then_read(space: AddressSpace, va: usize, bytes: Seq<u8>)
    requires
        space.consistent(),
        bytes.len() <= 4096,
        space.can_hold(va, bytes.len() as int),
    ensures
        space.with_bytes(va, bytes).bytes_from(va, bytes.len()) == bytes,
        space.with_bytes(va, bytes).consistent(),
{
    let post = space.with_bytes(va, bytes);
    assert(post.bytes_from(va, bytes.len()) =~= bytes);
}

} // verus!
