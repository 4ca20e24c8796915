//! Changes to the regions of an address space: cutting a region at a page,
//! and unmapping, mapping and protecting a range of pages.

use vstd::prelude::*;

use crate::mm::address::{VPNRange, VirtPageNum};
use crate::mm::frame::Frame;
use crate::mm::linear_map::LinearMap;
use crate::mm::memory_set::{
    areas_wf, lemma_contained, lemma_covered, lemma_uncovered, pages_of, MapArea, MapPermission,
    MemorySet, MemorySetView, PageEntry, USER_VPN_END,
};

verus! {

impl MemorySetView {
    /// The address space without the pages from `start` up to `end`.
    pub open spec fn unmap_range(self, start: usize, end: usize) -> Self {
        MemorySetView {
            pages: Map::new(
                |v: usize| self.pages.contains_key(v) && !(start <= v < end),
                |v: usize| self.pages[v],
            ),
            ..self
        }
    }

    /// The address space with the pages from `start` up to `end` mapped
    /// anew with the permission `perm`, none of them resident.
    pub open spec fn map_range(self, start: usize, end: usize, perm: MapPermission) -> Self {
        MemorySetView {
            pages: Map::new(
                |v: usize| self.pages.contains_key(v) || start <= v < end,
                |v: usize|
                    if start <= v < end {
                        PageEntry { perm, frame: Frame::Unallocated }
                    } else {
                        self.pages[v]
                    },
            ),
            ..self
        }
    }

    /// The address space with the permission `perm` on those of the pages
    /// from `start` up to `end` that are mapped.
    pub open spec fn protect_range(self, start: usize, end: usize, perm: MapPermission) -> Self {
        MemorySetView {
            pages: Map::new(
                |v: usize| self.pages.contains_key(v),
                |v: usize|
                    if start <= v < end {
                        PageEntry { perm, frame: self.pages[v].frame }
                    } else {
                        self.pages[v]
                    },
            ),
            ..self
        }
    }

    /// Whether each of the pages from `start` up to `end` is mapped.
    pub open spec fn range_mapped(self, start: usize, end: usize) -> bool {
        forall|v: usize| start <= v < end ==> self.pages.contains_key(v)
    }
}

/// Whether no region has the page `vpn` strictly inside: above its first
/// page and not above its last.
pub open spec fn none_straddles(areas: Seq<MapArea>, vpn: usize) -> bool {
    forall|i: int|
        0 <= i < areas.len() ==> !((#[trigger] areas[i]).inner@.start < vpn < areas[i].inner@.end)
}

/// Whether the region lies inside the pages from `start` up to `end`.
pub open spec fn lies_inside(a: MapArea, start: usize, end: usize) -> bool {
    start <= a.inner@.start && a.inner@.end <= end
}

/// Whether no region shares a page with the pages from `start` up to
/// `end`.
pub open spec fn all_clear_of(areas: Seq<MapArea>, start: usize, end: usize) -> bool {
    forall|i: int|
        0 <= i < areas.len() ==> (#[trigger] areas[i]).inner@.end <= start || end
            <= areas[i].inner@.start
}

impl MemorySet {
    /// Cuts the region that has the page `vpn` strictly inside into the
    /// region below `vpn` and the region from `vpn` on. What the address
    /// space holds of each page stays.
    pub fn split_at(&mut self, vpn: usize)
        requires
            old(self).wf(),
        ensures
            final(self).wf(),
            final(self)@ == old(self)@,
            none_straddles(final(self).areas@, vpn),
            forall|w: usize|
                none_straddles(old(self).areas@, w) ==> none_straddles(final(self).areas@, w),
    {
        let ghost before = self.areas@;
        match self.find(vpn) {
            Some(i) => {
                proof {
                    crate::mm::memory_set::lemma_find_area(before, vpn);
                    assert(before[i as int].covers(vpn));
                    assert(before[i as int].inner.wf());
                }
                if self.areas[i].inner.vpn_range.get_start().0 < vpn {
                    let perm = self.areas[i].map_perm;
                    let cut = self.areas[i].inner.into_two(VirtPageNum(vpn));
                    match cut {
                        Ok(second) => {
                            let ghost lower = self.areas@[i as int];
                            let upper = MapArea { inner: second, map_perm: perm };
                            let n = self.areas.len();
                            proof {
                                assert(n == before.len());
                            }
                            self.areas.insert(i + 1, upper);
                            proof {
                                let after = self.areas@;
                                let whole = before[i as int];
                                let k = vpn - whole.inner@.start;
                                assert(lower.map_perm == whole.map_perm);
                                assert(lower.inner@ == whole.inner@.lower_part(VirtPageNum(vpn)));
                                assert(upper.inner@ == whole.inner@.upper_part(VirtPageNum(vpn)));
                                assert(after.len() == before.len() + 1);
                                assert forall|j: int| 0 <= j < after.len() implies (
                                #[trigger] after[j]) == if j < i {
                                    before[j]
                                } else if j == i {
                                    lower
                                } else if j == i + 1 {
                                    upper
                                } else {
                                    before[j - 1]
                                } by {}
                                assert(areas_wf(after)) by {
                                    assert forall|a: int, b: int|
                                        0 <= a < b < after.len() implies (
                                    #[trigger] after[a]).inner@.end <= (
                                    #[trigger] after[b]).inner@.start || after[b].inner@.end
                                        <= after[a].inner@.start by {
                                        let oa = if a <= i {
                                            a
                                        } else {
                                            a - 1
                                        };
                                        let ob = if b <= i {
                                            b
                                        } else {
                                            b - 1
                                        };
                                        if oa != ob {
                                            assert(before[oa].inner@.end <= before[ob].inner@.start
                                                || before[ob].inner@.end
                                                <= before[oa].inner@.start);
                                        }
                                    }
                                }
                                assert forall|v: usize|
                                    (#[trigger] pages_of(after).contains_key(v)) == pages_of(
                                        before,
                                    ).contains_key(v) && (pages_of(before).contains_key(v)
                                        ==> pages_of(after)[v] == pages_of(before)[v]) by {
                                    if pages_of(before).contains_key(v) {
                                        lemma_contained(before, v);
                                        let b = find_index(before, v);
                                        if b < i {
                                            lemma_covered(after, v, b);
                                        } else if b > i {
                                            lemma_covered(after, v, b + 1);
                                        } else if v < vpn {
                                            lemma_covered(after, v, i as int);
                                            assert(lower.inner@.frames[v - whole.inner@.start]
                                                == whole.inner@.frames[v - whole.inner@.start]);
                                        } else {
                                            lemma_covered(after, v, i + 1);
                                            assert(upper.inner@.frames[v - vpn]
                                                == whole.inner@.frames[k + (v - vpn)]);
                                        }
                                    } else {
                                        crate::mm::memory_set::lemma_find_area(before, v);
                                        assert forall|j: int| 0 <= j < after.len() implies !(
                                        #[trigger] after[j]).covers(v) by {
                                            let oj = if j <= i {
                                                j
                                            } else {
                                                j - 1
                                            };
                                            assert(!before[oj].covers(v));
                                        }
                                        lemma_uncovered(after, v);
                                    }
                                }
                                assert(pages_of(after) =~= pages_of(before));
                                assert forall|w: usize| none_straddles(before, w) implies none_straddles(
                                    after,
                                    w,
                                ) by {
                                    assert forall|j: int| 0 <= j < after.len() implies !((
                                    #[trigger] after[j]).inner@.start < w < after[j].inner@.end) by {
                                        let oj = if j <= i {
                                            j
                                        } else {
                                            j - 1
                                        };
                                        assert(!(before[oj].inner@.start < w
                                            < before[oj].inner@.end));
                                    }
                                }
                                assert(none_straddles(after, vpn)) by {
                                    assert forall|j: int| 0 <= j < after.len() implies !((
                                    #[trigger] after[j]).inner@.start < vpn
                                        < after[j].inner@.end) by {
                                        let oj = if j <= i {
                                            j
                                        } else {
                                            j - 1
                                        };
                                        if oj != i {
                                            if before[oj].inner@.start < vpn
                                                < before[oj].inner@.end {
                                                assert(before[oj].covers(vpn));
                                                crate::mm::memory_set::lemma_unique_area(
                                                    before,
                                                    vpn,
                                                    oj,
                                                );
                                            }
                                        }
                                    }
                                }
                            }
                        },
                        Err(_) => {
                            proof {
                                assert(false);
                            }
                        },
                    }
                } else {
                    proof {
                        assert forall|j: int| 0 <= j < before.len() implies !((
                        #[trigger] before[j]).inner@.start < vpn < before[j].inner@.end) by {
                            if before[j].inner@.start < vpn < before[j].inner@.end {
                                crate::mm::memory_set::lemma_unique_area(before, vpn, j);
                            }
                        }
                    }
                }
            },
            None => {
                proof {
                    crate::mm::memory_set::lemma_find_area(before, vpn);
                    assert forall|j: int| 0 <= j < before.len() implies !((
                    #[trigger] before[j]).inner@.start < vpn < before[j].inner@.end) by {
                        assert(!before[j].covers(vpn));
                    }
                }
            },
        }
    }

    /// Unmaps the pages from `start` up to `end`: regions are cut at both
    /// pages and the regions in between are dropped.
    pub fn unmap_pages(&mut self, start: usize, end: usize)
        requires
            old(self).wf(),
            start <= end,
        ensures
            final(self).wf(),
            final(self)@ == old(self)@.unmap_range(start, end),
            all_clear_of(final(self).areas@, start, end),
            none_straddles(final(self).areas@, start),
            none_straddles(final(self).areas@, end),
    {
        self.split_at(start);
        self.split_at(end);
        let ghost mid = self.areas@;
        let mut i: usize = self.areas.len();
        while i > 0
            invariant
                i <= self.areas@.len(),
                start <= end,
                areas_wf(self.areas@),
                areas_wf(mid),
                self.mmap_top == old(self).mmap_top,
                self@.data == old(self)@.data,
                none_straddles(self.areas@, start),
                none_straddles(self.areas@, end),
                forall|j: int|
                    i <= j < self.areas@.len() ==> !lies_inside(
                        #[trigger] self.areas@[j],
                        start,
                        end,
                    ),
                forall|v: usize|
                    #[trigger] pages_of(self.areas@).contains_key(v) ==> pages_of(mid).contains_key(
                        v,
                    ) && pages_of(self.areas@)[v] == pages_of(mid)[v],
                forall|v: usize|
                    #[trigger] pages_of(mid).contains_key(v) && !(start <= v < end) ==> pages_of(
                        self.areas@,
                    ).contains_key(v),
            decreases i,
        {
            i -= 1;
            let a_start = self.areas[i].inner.vpn_range.get_start().0;
            let a_end = self.areas[i].inner.vpn_range.get_end().0;
            if start <= a_start && a_end <= end {
                let ghost cur = self.areas@;
                let dropped = self.areas.remove(i);
                proof {
                    let next = self.areas@;
                    assert forall|j: int| 0 <= j < next.len() implies (#[trigger] next[j]) == if j
                        < i {
                        cur[j]
                    } else {
                        cur[j + 1]
                    } by {}
                    assert(areas_wf(next)) by {
                        assert forall|a: int, b: int| 0 <= a < b < next.len() implies (
                        #[trigger] next[a]).inner@.end <= (#[trigger] next[b]).inner@.start
                            || next[b].inner@.end <= next[a].inner@.start by {
                            let oa = if a < i {
                                a
                            } else {
                                a + 1
                            };
                            let ob = if b < i {
                                b
                            } else {
                                b + 1
                            };
                            assert(cur[oa].inner@.end <= cur[ob].inner@.start || cur[ob].inner@.end
                                <= cur[oa].inner@.start);
                        }
                    }
                    assert forall|v: usize| #[trigger]
                        pages_of(next).contains_key(v) implies pages_of(mid).contains_key(v)
                        && pages_of(next)[v] == pages_of(mid)[v] by {
                        lemma_contained(next, v);
                        let j = find_index(next, v);
                        let oj = if j < i {
                            j
                        } else {
                            j + 1
                        };
                        lemma_covered(cur, v, oj);
                        assert(pages_of(cur).contains_key(v));
                    }
                    assert forall|v: usize| #[trigger]
                        pages_of(mid).contains_key(v) && !(start <= v < end) implies pages_of(
                        next,
                    ).contains_key(v) by {
                        assert(pages_of(cur).contains_key(v));
                        lemma_contained(cur, v);
                        let b = find_index(cur, v);
                        assert(b != i);
                        let nj = if b < i {
                            b
                        } else {
                            b - 1
                        };
                        lemma_covered(next, v, nj);
                    }
                    assert(none_straddles(next, start)) by {
                        assert forall|j: int| 0 <= j < next.len() implies !((
                        #[trigger] next[j]).inner@.start < start < next[j].inner@.end) by {
                            let oj = if j < i {
                                j
                            } else {
                                j + 1
                            };
                            assert(!(cur[oj].inner@.start < start < cur[oj].inner@.end));
                        }
                    }
                    assert(none_straddles(next, end)) by {
                        assert forall|j: int| 0 <= j < next.len() implies !((
                        #[trigger] next[j]).inner@.start < end < next[j].inner@.end) by {
                            let oj = if j < i {
                                j
                            } else {
                                j + 1
                            };
                            assert(!(cur[oj].inner@.start < end < cur[oj].inner@.end));
                        }
                    }
                    assert forall|j: int| i <= j < next.len() implies !lies_inside(
                        #[trigger] next[j],
                        start,
                        end,
                    ) by {
                        assert(next[j] == cur[j + 1]);
                    }
                }
            }
        }
        proof {
            let last = self.areas@;
            assert(all_clear_of(last, start, end)) by {
                assert forall|j: int| 0 <= j < last.len() implies (#[trigger] last[j]).inner@.end
                    <= start || end <= last[j].inner@.start by {
                    assert(!lies_inside(last[j], start, end));
                    assert(!(last[j].inner@.start < start < last[j].inner@.end));
                    assert(!(last[j].inner@.start < end < last[j].inner@.end));
                }
            }
            assert forall|v: usize| start <= v < end implies !pages_of(last).contains_key(v) by {
                if pages_of(last).contains_key(v) {
                    lemma_contained(last, v);
                    let j = find_index(last, v);
                    assert(last[j].inner@.end <= start || end <= last[j].inner@.start);
                }
            }
            let goal = old(self)@.unmap_range(start, end).pages;
            assert(old(self)@.pages == pages_of(mid));
            assert forall|v: usize|
                (#[trigger] pages_of(last).contains_key(v)) == goal.contains_key(v) && (
                goal.contains_key(v) ==> pages_of(last)[v] == goal[v]) by {
                if pages_of(last).contains_key(v) {
                    assert(pages_of(mid).contains_key(v));
                }
                if goal.contains_key(v) {
                    assert(pages_of(mid).contains_key(v) && !(start <= v < end));
                }
            }
            assert(self@.pages =~= goal);
        }
    }

    /// Maps the pages from `start` up to `end` anew with the permission
    /// `perm`, none of them resident: what was mapped there is unmapped
    /// first.
    pub fn map_pages(&mut self, start: usize, end: usize, perm: MapPermission)
        requires
            old(self).wf(),
            start <= end <= USER_VPN_END,
        ensures
            final(self).wf(),
            final(self)@ == old(self)@.map_range(start, end, perm),
    {
        self.unmap_pages(start, end);
        if start == end {
            proof {
                assert(self@.pages =~= old(self)@.map_range(start, end, perm).pages);
            }
            return ;
        }
        let ghost mid = self.areas@;
        let inner = LinearMap::new(VPNRange::new(VirtPageNum(start), VirtPageNum(end)));
        let fresh = MapArea { inner, map_perm: perm };
        self.areas.push(fresh);
        proof {
            let after = self.areas@;
            assert(after =~= mid.push(fresh));
            assert(areas_wf(after)) by {
                assert forall|a: int, b: int| 0 <= a < b < after.len() implies (
                #[trigger] after[a]).inner@.end <= (#[trigger] after[b]).inner@.start
                    || after[b].inner@.end <= after[a].inner@.start by {
                    if b == mid.len() {
                        assert(mid[a].inner@.end <= start || end <= mid[a].inner@.start);
                    } else {
                        assert(mid[a].inner@.end <= mid[b].inner@.start || mid[b].inner@.end
                            <= mid[a].inner@.start);
                    }
                }
            }
            let goal = old(self)@.map_range(start, end, perm).pages;
            assert forall|v: usize|
                (#[trigger] pages_of(after).contains_key(v)) == goal.contains_key(v) && (
                goal.contains_key(v) ==> pages_of(after)[v] == goal[v]) by {
                if start <= v < end {
                    lemma_covered(after, v, mid.len() as int);
                    assert(fresh.inner@.frames[v - start] == Frame::Unallocated);
                } else if pages_of(mid).contains_key(v) {
                    lemma_contained(mid, v);
                    lemma_covered(after, v, find_index(mid, v));
                } else {
                    crate::mm::memory_set::lemma_find_area(mid, v);
                    assert forall|j: int| 0 <= j < after.len() implies !(
                    #[trigger] after[j]).covers(v) by {
                        if j < mid.len() {
                            assert(!mid[j].covers(v));
                        }
                    }
                    lemma_uncovered(after, v);
                }
            }
            assert(self@.pages =~= goal);
        }
    }

    /// Puts the permission `perm` on those of the pages from `start` up to
    /// `end` that are mapped: regions are cut at both pages and the regions
    /// in between get the permission.
    pub fn protect_pages(&mut self, start: usize, end: usize, perm: MapPermission)
        requires
            old(self).wf(),
            start <= end,
        ensures
            final(self).wf(),
            final(self)@ == old(self)@.protect_range(start, end, perm),
    {
        self.split_at(start);
        self.split_at(end);
        let ghost mid = self.areas@;
        let mut i: usize = 0;
        while i < self.areas.len()
            invariant
                i <= self.areas@.len(),
                start <= end,
                areas_wf(mid),
                none_straddles(mid, start),
                none_straddles(mid, end),
                self.mmap_top == old(self).mmap_top,
                self@.data == old(self)@.data,
                self.areas@.len() == mid.len(),
                forall|j: int|
                    0 <= j < mid.len() ==> (#[trigger] self.areas@[j]).inner == mid[j].inner
                        && self.areas@[j].map_perm == if j < i && lies_inside(mid[j], start, end) {
                        perm
                    } else {
                        mid[j].map_perm
                    },
            decreases self.areas@.len() - i,
        {
            let a_start = self.areas[i].inner.vpn_range.get_start().0;
            let a_end = self.areas[i].inner.vpn_range.get_end().0;
            if start <= a_start && a_end <= end {
                self.areas[i].map_perm = perm;
            }
            i += 1;
        }
        proof {
            let after = self.areas@;
            assert(areas_wf(after)) by {
                assert forall|a: int, b: int| 0 <= a < b < after.len() implies (
                #[trigger] after[a]).inner@.end <= (#[trigger] after[b]).inner@.start
                    || after[b].inner@.end <= after[a].inner@.start by {
                    assert(mid[a].inner@.end <= mid[b].inner@.start || mid[b].inner@.end
                        <= mid[a].inner@.start);
                }
                assert forall|a: int| 0 <= a < after.len() implies (
                #[trigger] after[a]).inner.wf() && after[a].inner@.start < after[a].inner@.end
                    <= USER_VPN_END by {
                    assert(mid[a].inner.wf());
                }
            }
            let goal = old(self)@.protect_range(start, end, perm).pages;
            assert forall|v: usize|
                (#[trigger] pages_of(after).contains_key(v)) == goal.contains_key(v) && (
                goal.contains_key(v) ==> pages_of(after)[v] == goal[v]) by {
                if pages_of(mid).contains_key(v) {
                    lemma_contained(mid, v);
                    let j = find_index(mid, v);
                    assert(after[j].covers(v));
                    lemma_covered(after, v, j);
                    assert(!(mid[j].inner@.start < start < mid[j].inner@.end));
                    assert(!(mid[j].inner@.start < end < mid[j].inner@.end));
                } else {
                    crate::mm::memory_set::lemma_find_area(mid, v);
                    assert forall|j: int| 0 <= j < after.len() implies !(
                    #[trigger] after[j]).covers(v) by {
                        assert(!mid[j].covers(v));
                    }
                    lemma_uncovered(after, v);
                }
            }
            assert(self@.pages =~= goal);
        }
    }

    /// Whether each of the pages from `start` up to `end` is mapped.
    pub fn is_range_mapped(&self, start: usize, end: usize) -> (r: bool)
        ensures
            r == self@.range_mapped(start, end),
    {
        let mut v: usize = start;
        while v < end
            invariant
                start <= v,
                forall|w: usize| start <= w < v ==> self@.pages.contains_key(w),
            decreases end - v,
        {
            if self.find(v).is_none() {
                proof {
                    assert(!pages_of(self.areas@).contains_key(v));
                    assert(start <= v < end);
                    assert(!self@.pages.contains_key(v));
                }
                return false;
            }
            v += 1;
        }
        true
    }
}

/// The index of the region that `find_area` gives for the page `v`.
pub open spec fn find_index(areas: Seq<MapArea>, v: usize) -> int {
    crate::mm::memory_set::find_area(areas, v).unwrap()
}

} // verus!
