//! Making a page resident when user code touches it.

use std::sync::Arc;
use vstd::prelude::*;

use crate::mm::address::{PhysPageNum, VirtPageNum};
use crate::mm::areas::find_index;
use crate::mm::frame::{Frame, FrameTracker};
use crate::mm::memory_set::{
    areas_wf, lemma_contained, lemma_covered, lemma_find_area, lemma_uncovered, pages_of,
    MemorySet, MemorySetView, PageEntry,
};

verus! {

/// The slot of a page that is resident in the frame `ppn`.
pub open spec fn resident_in(ppn: usize) -> Frame {
    Frame::InMemory(Arc::new(FrameTracker { ppn: PhysPageNum(ppn) }))
}

/// Where an address space holds a page.
#[derive(Clone, Copy, Debug, PartialEq, Eq, Structural)]
pub enum Residency {
    /// The page is not mapped.
    Unmapped,
    /// The page is mapped and has no frame yet.
    Unallocated,
    /// The page is in a frame.
    Resident,
    /// The page is held compressed or in the swap store.
    Evicted,
}

impl MemorySetView {
    /// Where the page `vpn` is held.
    pub open spec fn residency(self, vpn: usize) -> Residency {
        if !self.pages.contains_key(vpn) {
            Residency::Unmapped
        } else {
            match self.pages[vpn].frame {
                Frame::Unallocated => Residency::Unallocated,
                Frame::InMemory(_) => Residency::Resident,
                _ => Residency::Evicted,
            }
        }
    }

    /// The address space after the mapped page `vpn` became resident in
    /// the frame `ppn`.
    pub open spec fn page_in(self, vpn: usize, ppn: usize) -> Self {
        MemorySetView {
            pages: self.pages.insert(
                vpn,
                PageEntry { perm: self.pages[vpn].perm, frame: resident_in(ppn) },
            ),
            ..self
        }
    }
}

impl MemorySet {
    /// Where the page `vpn` is held.
    pub fn residency(&self, vpn: usize) -> (r: Residency)
        requires
            self.wf(),
        ensures
            r == self@.residency(vpn),
    {
        match self.find(vpn) {
            Some(i) => {
                proof {
                    lemma_find_area(self.areas@, vpn);
                    assert(self.areas@[i as int].inner.wf());
                }
                let idx = vpn - self.areas[i].inner.vpn_range.get_start().0;
                match &self.areas[i].inner.frames[idx] {
                    Frame::Unallocated => Residency::Unallocated,
                    Frame::InMemory(_) => Residency::Resident,
                    _ => Residency::Evicted,
                }
            },
            None => Residency::Unmapped,
        }
    }

    /// Makes the page `vpn`, which is mapped and unallocated, resident in
    /// the frame `frame`.
    pub fn fault_in(&mut self, vpn: usize, frame: FrameTracker)
        requires
            old(self).wf(),
            old(self)@.pages.contains_key(vpn),
            old(self)@.pages[vpn].frame is Unallocated,
        ensures
            final(self).wf(),
            final(self)@ == old(self)@.page_in(vpn, frame.ppn.0),
    {
        let ghost before = self.areas@;
        let ghost ppn = frame.ppn.0;
        proof {
            lemma_contained(before, vpn);
        }
        let i = self.find(vpn).unwrap();
        proof {
            assert(before[i as int].inner.wf());
        }
        self.areas[i].inner.alloc_in_memory(VirtPageNum(vpn), Arc::new(frame));
        proof {
            let after = self.areas@;
            assert(after.len() == before.len());
            assert forall|j: int| 0 <= j < after.len() && j != i implies (#[trigger] after[j])
                == before[j] by {}
            assert(areas_wf(after)) by {
                assert forall|a: int, b: int| 0 <= a < b < after.len() implies (
                #[trigger] after[a]).inner@.end <= (#[trigger] after[b]).inner@.start
                    || after[b].inner@.end <= after[a].inner@.start by {
                    assert(before[a].inner@.end <= before[b].inner@.start
                        || before[b].inner@.end <= before[a].inner@.start);
                }
            }
            let goal = old(self)@.page_in(vpn, ppn).pages;
            assert forall|v: usize|
                (#[trigger] pages_of(after).contains_key(v)) == goal.contains_key(v) && (
                goal.contains_key(v) ==> pages_of(after)[v] == goal[v]) by {
                if pages_of(before).contains_key(v) {
                    lemma_contained(before, v);
                    let j = find_index(before, v);
                    assert(after[j].covers(v));
                    lemma_covered(after, v, j);
                } else {
                    lemma_find_area(before, v);
                    assert forall|j: int| 0 <= j < after.len() implies !(
                    #[trigger] after[j]).covers(v) by {
                        assert(!before[j].covers(v));
                    }
                    lemma_uncovered(after, v);
                }
            }
            assert(self@.pages =~= goal);
        }
    }
}

} // verus!
