//! The memory calls on an address space: map, unmap, protect, move the end
//! of the heap, and copy the whole space for a new process.

use vstd::prelude::*;

use crate::config::{PAGE_SIZE, USER_HEAP_SIZE, USER_SPACE_END};
use crate::mm::address::{VPNRange, VirtPageNum};
use crate::mm::areas::find_index;
use crate::mm::frame::Frame;
use crate::mm::linear_map::{unallocated, LinearMap};
use crate::mm::memory_set::{
    areas_wf, lemma_contained, lemma_covered, lemma_find_area, lemma_uncovered, pages_of, MapArea,
    MapPermission, MemorySet, MemorySetView, PageEntry, MMAP_BASE_VPN, MMAP_END_VPN, USER_VPN_END,
};
use crate::syscall::errno::{EBADF, EINVAL, ENOMEM};

verus! {

/// Changes are shared with other processes.
pub const MAP_SHARED: usize = 0x01;

/// Changes are private to the process.
pub const MAP_PRIVATE: usize = 0x02;

/// The mapping goes exactly where the caller says.
pub const MAP_FIXED: usize = 0x10;

/// The mapping is backed by no file.
pub const MAP_ANONYMOUS: usize = 0x20;

/// How a mapping is made.
#[derive(Clone, Copy, Debug, PartialEq, Eq, Structural)]
pub struct MapFlags {
    pub bits: usize,
}

impl MapFlags {
    /// Whether `bits` holds known flags only.
    pub open spec fn valid_bits(bits: usize) -> bool {
        bits & !0x33usize == 0
    }

    /// The flags with the bits `bits`, where they are known flags only.
    pub fn from_bits(bits: usize) -> (r: Option<MapFlags>)
        ensures
            r is Some <==> Self::valid_bits(bits),
            r is Some ==> r.unwrap().bits == bits,
    {
        if bits & !0x33usize == 0 {
            Some(MapFlags { bits })
        } else {
            None
        }
    }

    pub fn bits(&self) -> (r: usize)
        ensures
            r == self.bits,
    {
        self.bits
    }
}

/// The number of pages that `len` bytes take.
pub open spec fn spec_pages_for(len: usize) -> int {
    len / PAGE_SIZE + if len % PAGE_SIZE == 0 {
        0int
    } else {
        1int
    }
}

/// The number of pages that `len` bytes take.
pub fn pages_for(len: usize) -> (r: usize)
    ensures
        r == spec_pages_for(len),
        r <= 0x10_0000_0000_0000,
{
    let whole = len / PAGE_SIZE;
    if len % PAGE_SIZE == 0 {
        whole
    } else {
        whole + 1
    }
}

/// The permission that the protection bits `prot` of a memory call stand
/// for: read, write and execute from bit 0 on, for user code. Other bits
/// stand for no permission.
pub open spec fn spec_prot_to_perm(prot: usize) -> Option<MapPermission> {
    if prot & !0x7usize == 0 {
        Some(MapPermission { bits: (((prot as u8) << 1) | 0x10) })
    } else {
        None
    }
}

/// The permission that the protection bits `prot` of a memory call stand
/// for.
pub fn prot_to_perm(prot: usize) -> (r: Option<MapPermission>)
    ensures
        r == spec_prot_to_perm(prot),
{
    if prot & !0x7usize == 0 {
        let low: u8 = (prot & 0x7) as u8;
        proof {
            assert(prot & !0x7usize == 0 ==> (prot & 0x7) as u8 == prot as u8) by (bit_vector);
        }
        Some(MapPermission { bits: (low << 1) | 0x10 })
    } else {
        None
    }
}

impl MemorySetView {
    /// What `mmap` returns and leaves behind.
    pub open spec fn mmap(
        self,
        start: usize,
        len: usize,
        prot: MapPermission,
        flags: MapFlags,
    ) -> (isize, Self) {
        let pages = spec_pages_for(len);
        let first = start / PAGE_SIZE;
        if start % PAGE_SIZE != 0 || len == 0 {
            (EINVAL, self)
        } else if flags.bits & MAP_ANONYMOUS == 0 {
            (EBADF, self)
        } else if flags.bits & MAP_FIXED != 0 {
            if first + pages > USER_VPN_END {
                (ENOMEM, self)
            } else {
                (
                    start as isize,
                    MemorySetView {
                        mmap_top: if MMAP_BASE_VPN <= first < MMAP_END_VPN && first + pages
                            > self.mmap_top {
                            if first + pages <= MMAP_END_VPN {
                                (first + pages) as usize
                            } else {
                                MMAP_END_VPN
                            }
                        } else {
                            self.mmap_top
                        },
                        ..self.map_range(first, (first + pages) as usize, prot)
                    },
                )
            }
        } else if self.mmap_top + pages > MMAP_END_VPN {
            (ENOMEM, self)
        } else {
            (
                (self.mmap_top * PAGE_SIZE) as isize,
                MemorySetView {
                    mmap_top: (self.mmap_top + pages) as usize,
                    ..self.map_range(self.mmap_top, (self.mmap_top + pages) as usize, prot)
                },
            )
        }
    }

    /// What `munmap` returns and leaves behind.
    pub open spec fn munmap(self, start: usize, len: usize) -> (Result<(), isize>, Self) {
        if start % PAGE_SIZE != 0 || len == 0 {
            (Err(EINVAL), self)
        } else {
            (
                Ok(()),
                self.unmap_range(
                    start / PAGE_SIZE,
                    (start / PAGE_SIZE + spec_pages_for(len)) as usize,
                ),
            )
        }
    }

    /// What `mprotect` returns and leaves behind.
    pub open spec fn mprotect(self, addr: usize, len: usize, prot: usize) -> (
        Result<(), isize>,
        Self,
    ) {
        let first = addr / PAGE_SIZE;
        let end = (first + spec_pages_for(len)) as usize;
        if addr % PAGE_SIZE != 0 || spec_prot_to_perm(prot) is None {
            (Err(EINVAL), self)
        } else if !self.range_mapped(first, end) {
            (Err(ENOMEM), self)
        } else {
            (Ok(()), self.protect_range(first, end, spec_prot_to_perm(prot).unwrap()))
        }
    }

    /// Where the heap ends after `sbrk`, and what `sbrk` leaves behind.
    pub open spec fn sbrk(self, heap_pt: usize, heap_bottom: usize, increment: isize) -> (
        usize,
        Self,
    ) {
        let new_pt = heap_pt + increment;
        if increment > 0 {
            if new_pt > heap_bottom + USER_HEAP_SIZE || new_pt > USER_SPACE_END {
                (heap_pt, self)
            } else {
                (
                    new_pt as usize,
                    self.map_range(
                        spec_pages_for(heap_pt) as usize,
                        spec_pages_for(new_pt as usize) as usize,
                        MapPermission { bits: 0x16 },
                    ),
                )
            }
        } else if increment < 0 {
            if new_pt < heap_bottom || heap_pt > USER_SPACE_END {
                (heap_pt, self)
            } else {
                (
                    new_pt as usize,
                    self.unmap_range(
                        spec_pages_for(new_pt as usize) as usize,
                        spec_pages_for(heap_pt) as usize,
                    ),
                )
            }
        } else {
            (heap_pt, self)
        }
    }

    /// The address space of a new process made from this one: the same
    /// pages with the same permissions and the same bytes, none of the
    /// pages resident.
    pub open spec fn forked(self) -> Self {
        MemorySetView {
            pages: Map::new(
                |v: usize| self.pages.contains_key(v),
                |v: usize| PageEntry { perm: self.pages[v].perm, frame: Frame::Unallocated },
            ),
            ..self
        }
    }
}

impl MemorySet {
    /// Maps `len` bytes, rounded up to whole pages, with the permission
    /// `prot`, none of the pages resident, and gives the address of the
    /// mapping. A fixed mapping goes to `start` and replaces what was
    /// mapped there; any other goes to the page after the mappings made so
    /// far in the window for such mappings. A `start` that is not at the
    /// start of a page and a `len` of zero are invalid; a mapping that is
    /// backed by a file finds no file; a mapping that does not fit is out
    /// of memory.
    pub fn mmap(
        &mut self,
        start: usize,
        len: usize,
        prot: MapPermission,
        flags: MapFlags,
        _fd: usize,
        _offset: usize,
    ) -> (r: isize)
        requires
            old(self).wf(),
        ensures
            final(self).wf(),
            (r, final(self)@) == old(self)@.mmap(start, len, prot, flags),
    {
        if start % PAGE_SIZE != 0 || len == 0 {
            return EINVAL;
        }
        if flags.bits & MAP_ANONYMOUS == 0 {
            return EBADF;
        }
        let pages = pages_for(len);
        let first = start / PAGE_SIZE;
        if flags.bits & MAP_FIXED != 0 {
            if first > USER_VPN_END || pages > USER_VPN_END - first {
                return ENOMEM;
            }
            self.map_pages(first, first + pages, prot);
            if MMAP_BASE_VPN <= first && first < MMAP_END_VPN && first + pages > self.mmap_top {
                if first + pages <= MMAP_END_VPN {
                    self.mmap_top = first + pages;
                } else {
                    self.mmap_top = MMAP_END_VPN;
                }
            }
            start as isize
        } else {
            let first = self.mmap_top;
            if pages > MMAP_END_VPN - first {
                return ENOMEM;
            }
            self.map_pages(first, first + pages, prot);
            self.mmap_top = first + pages;
            (first * PAGE_SIZE) as isize
        }
    }

    /// Unmaps the pages that the `len` bytes from `start` on take. A
    /// `start` that is not at the start of a page and a `len` of zero are
    /// invalid.
    pub fn munmap(&mut self, start: usize, len: usize) -> (r: Result<(), isize>)
        requires
            old(self).wf(),
        ensures
            final(self).wf(),
            (r, final(self)@) == old(self)@.munmap(start, len),
    {
        if start % PAGE_SIZE != 0 || len == 0 {
            return Err(EINVAL);
        }
        let first = start / PAGE_SIZE;
        let pages = pages_for(len);
        self.unmap_pages(first, first + pages);
        Ok(())
    }

    /// Puts the permission that `prot` stands for on the pages that the
    /// `len` bytes from `addr` on take. An `addr` that is not at the start
    /// of a page and protection bits that stand for no permission are
    /// invalid; a range with a page that is not mapped is out of memory.
    pub fn mprotect(&mut self, addr: usize, len: usize, prot: usize) -> (r: Result<(), isize>)
        requires
            old(self).wf(),
        ensures
            final(self).wf(),
            (r, final(self)@) == old(self)@.mprotect(addr, len, prot),
    {
        if addr % PAGE_SIZE != 0 {
            return Err(EINVAL);
        }
        let perm = match prot_to_perm(prot) {
            Some(perm) => perm,
            None => return Err(EINVAL),
        };
        let first = addr / PAGE_SIZE;
        let end = first + pages_for(len);
        if !self.is_range_mapped(first, end) {
            return Err(ENOMEM);
        }
        self.protect_pages(first, end, perm);
        Ok(())
    }

    /// Grows the region that ends at the page `top` up to the page
    /// `new_top` where there is such a region with the permission `perm`,
    /// and maps the pages in between as a region of their own where there
    /// is none. What was mapped there is unmapped first.
    fn grow_to(&mut self, top: usize, new_top: usize, perm: MapPermission)
        requires
            old(self).wf(),
            top <= new_top <= USER_VPN_END,
        ensures
            final(self).wf(),
            final(self)@ == old(self)@.map_range(top, new_top, perm),
    {
        if top == 0 || top == new_top {
            self.map_pages(top, new_top, perm);
            return ;
        }
        self.unmap_pages(top, new_top);
        let ghost mid = self.areas@;
        match self.find(top - 1) {
            Some(i) => {
                proof {
                    lemma_find_area(mid, (top - 1) as usize);
                    assert(mid[i as int].covers((top - 1) as usize));
                    assert(!(mid[i as int].inner@.start < top < mid[i as int].inner@.end));
                    assert(mid[i as int].inner@.end == top);
                }
                if self.areas[i].map_perm.bits == perm.bits {
                    let grown = self.areas[i].inner.set_end(VirtPageNum(new_top));
                    proof {
                        let after = self.areas@;
                        let whole = mid[i as int];
                        assert(grown is Ok);
                        assert(after.len() == mid.len());
                        assert forall|j: int| 0 <= j < after.len() && j != i implies (
                        #[trigger] after[j]) == mid[j] by {}
                        assert(after[i as int].map_perm == whole.map_perm);
                        assert(after[i as int].inner@ == whole.inner@.set_end(VirtPageNum(new_top)));
                        assert(areas_wf(after)) by {
                            assert forall|a: int, b: int| 0 <= a < b < after.len() implies (
                            #[trigger] after[a]).inner@.end <= (#[trigger] after[b]).inner@.start
                                || after[b].inner@.end <= after[a].inner@.start by {
                                assert(mid[a].inner@.end <= mid[b].inner@.start
                                    || mid[b].inner@.end <= mid[a].inner@.start);
                                assert(mid[a].inner@.end <= top || new_top <= mid[a].inner@.start);
                                assert(mid[b].inner@.end <= top || new_top <= mid[b].inner@.start);
                            }
                        }
                        let goal = old(self)@.map_range(top, new_top, perm).pages;
                        assert(pages_of(mid) == old(self)@.unmap_range(top, new_top).pages);
                        assert forall|v: usize|
                            (#[trigger] pages_of(after).contains_key(v)) == goal.contains_key(v)
                                && (goal.contains_key(v) ==> pages_of(after)[v] == goal[v]) by {
                            if top <= v < new_top {
                                lemma_covered(after, v, i as int);
                                assert(after[i as int].inner@.frames[v - whole.inner@.start]
                                    == unallocated(new_top - top)[v - top]);
                            } else if pages_of(mid).contains_key(v) {
                                lemma_contained(mid, v);
                                let j = find_index(mid, v);
                                lemma_covered(after, v, j);
                                if j == i {
                                    assert(after[i as int].inner@.frames[v - whole.inner@.start]
                                        == whole.inner@.frames[v - whole.inner@.start]);
                                }
                            } else {
                                lemma_find_area(mid, v);
                                assert forall|j: int| 0 <= j < after.len() implies !(
                                #[trigger] after[j]).covers(v) by {
                                    assert(!mid[j].covers(v));
                                }
                                lemma_uncovered(after, v);
                            }
                        }
                        assert(self@.pages =~= goal);
                    }
                    return ;
                }
            },
            None => {},
        }
        proof {
            assert(self@ == old(self)@.unmap_range(top, new_top));
        }
        self.map_pages(top, new_top, perm);
        proof {
            assert(self@.pages =~= old(self)@.map_range(top, new_top, perm).pages);
        }
    }

    /// Moves the end of the heap, which is at `heap_pt` above
    /// `heap_bottom`, by `increment` bytes and gives the new end. Moving it
    /// up maps the pages that the heap then reaches; moving it down unmaps
    /// the pages that it no longer reaches. A move above the most that a
    /// heap grows, or below its bottom, is not made: the end stays.
    pub fn sbrk(&mut self, heap_pt: usize, heap_bottom: usize, increment: isize) -> (r: usize)
        requires
            old(self).wf(),
        ensures
            final(self).wf(),
            (r, final(self)@) == old(self)@.sbrk(heap_pt, heap_bottom, increment),
    {
        if increment > 0 {
            let new_pt = match heap_pt.checked_add_signed(increment) {
                Some(new_pt) => new_pt,
                None => return heap_pt,
            };
            let limit = match heap_bottom.checked_add(USER_HEAP_SIZE) {
                Some(limit) => limit,
                None => usize::MAX,
            };
            if new_pt > limit || new_pt > USER_SPACE_END {
                return heap_pt;
            }
            self.grow_to(pages_for(heap_pt), pages_for(new_pt), MapPermission { bits: 0x16 });
            new_pt
        } else if increment < 0 {
            let new_pt = match heap_pt.checked_add_signed(increment) {
                Some(new_pt) => new_pt,
                None => return heap_pt,
            };
            if new_pt < heap_bottom || heap_pt > USER_SPACE_END {
                return heap_pt;
            }
            self.unmap_pages(pages_for(new_pt), pages_for(heap_pt));
            new_pt
        } else {
            heap_pt
        }
    }

    /// The address space of a new process made from this one: the same
    /// pages with the same permissions and the same bytes, none of the
    /// pages resident.
    pub fn duplicate(&self) -> (r: MemorySet)
        requires
            self.wf(),
        ensures
            r.wf(),
            r@ == self@.forked(),
    {
        let mut areas: Vec<MapArea> = Vec::new();
        let mut i: usize = 0;
        while i < self.areas.len()
            invariant
                i <= self.areas@.len(),
                areas_wf(self.areas@),
                areas@.len() == i,
                forall|j: int|
                    0 <= j < i ==> (#[trigger] areas@[j]).inner.wf() && areas@[j].map_perm
                        == self.areas@[j].map_perm && areas@[j].inner@.start
                        == self.areas@[j].inner@.start && areas@[j].inner@.end
                        == self.areas@[j].inner@.end && areas@[j].inner@.frames == unallocated(
                        self.areas@[j].inner@.end - self.areas@[j].inner@.start,
                    ),
            decreases self.areas@.len() - i,
        {
            let range = VPNRange::new(
                self.areas[i].inner.vpn_range.get_start(),
                self.areas[i].inner.vpn_range.get_end(),
            );
            let inner = if self.areas[i].inner.oom_handler {
                LinearMap::with_oom_handler(range)
            } else {
                LinearMap::new(range)
            };
            areas.push(MapArea { inner, map_perm: self.areas[i].map_perm });
            i += 1;
        }
        let r = MemorySet { areas, data: self.data.clone(), mmap_top: self.mmap_top };
        proof {
            let mine = self.areas@;
            let theirs = r.areas@;
            assert(areas_wf(theirs)) by {
                assert forall|a: int, b: int| 0 <= a < b < theirs.len() implies (
                #[trigger] theirs[a]).inner@.end <= (#[trigger] theirs[b]).inner@.start
                    || theirs[b].inner@.end <= theirs[a].inner@.start by {
                    assert(mine[a].inner@.end <= mine[b].inner@.start || mine[b].inner@.end
                        <= mine[a].inner@.start);
                }
                assert forall|a: int| 0 <= a < theirs.len() implies (
                #[trigger] theirs[a]).inner.wf() && theirs[a].inner@.start
                    < theirs[a].inner@.end <= USER_VPN_END by {
                    assert(mine[a].inner.wf());
                }
            }
            let goal = self@.forked().pages;
            assert forall|v: usize|
                (#[trigger] pages_of(theirs).contains_key(v)) == goal.contains_key(v) && (
                goal.contains_key(v) ==> pages_of(theirs)[v] == goal[v]) by {
                if pages_of(mine).contains_key(v) {
                    lemma_contained(mine, v);
                    let j = find_index(mine, v);
                    assert(theirs[j].covers(v));
                    lemma_covered(theirs, v, j);
                    assert(theirs[j].inner@.frames[v - mine[j].inner@.start] == Frame::Unallocated);
                } else {
                    lemma_find_area(mine, v);
                    assert forall|j: int| 0 <= j < theirs.len() implies !(
                    #[trigger] theirs[j]).covers(v) by {
                        assert(!mine[j].covers(v));
                    }
                    lemma_uncovered(theirs, v);
                }
            }
            assert(r@.pages =~= goal);
            assert(r@.data =~= self@.data);
        }
        r
    }
}

} // verus!
