//! The pool of physical page frames.

use vstd::prelude::*;

use crate::mm::address::PhysPageNum;
use crate::mm::frame::FrameTracker;

verus! {

/// The pool as a mathematical value: the frames from `current` up to `end`
/// were never handed out, and the frames of `recycled` came back.
pub struct FrameAllocatorView {
    pub current: usize,
    pub end: usize,
    pub recycled: Seq<usize>,
}

impl FrameAllocatorView {
    /// The number of frames that the pool can hand out.
    pub open spec fn free(self) -> int {
        self.end - self.current + self.recycled.len()
    }

    /// The frame that the pool hands out next: the one that came back
    /// last, or the first one that was never handed out.
    pub open spec fn next(self) -> Option<usize> {
        if self.recycled.len() > 0 {
            Some(self.recycled.last())
        } else if self.current < self.end {
            Some(self.current)
        } else {
            None
        }
    }

    /// The pool after it handed out its next frame.
    pub open spec fn after_alloc(self) -> Self {
        if self.recycled.len() > 0 {
            FrameAllocatorView { recycled: self.recycled.drop_last(), ..self }
        } else if self.current < self.end {
            FrameAllocatorView { current: (self.current + 1) as usize, ..self }
        } else {
            self
        }
    }

    /// The pool after the frame `ppn` came back.
    pub open spec fn after_dealloc(self, ppn: usize) -> Self {
        FrameAllocatorView { recycled: self.recycled.push(ppn), ..self }
    }
}

/// A pool of physical page frames that hands out the frame that came back
/// last before a frame that was never handed out.
pub struct StackFrameAllocator {
    pub current: usize,
    pub end: usize,
    pub recycled: Vec<usize>,
}

impl View for StackFrameAllocator {
    type V = FrameAllocatorView;

    open spec fn view(&self) -> FrameAllocatorView {
        FrameAllocatorView { current: self.current, end: self.end, recycled: self.recycled@ }
    }
}

impl StackFrameAllocator {
    /// The frames that were never handed out are in order.
    pub open spec fn wf(&self) -> bool {
        self.current <= self.end
    }

    /// A pool with the frames from `start` up to `end`.
    pub fn new(start: PhysPageNum, end: PhysPageNum) -> (r: Self)
        requires
            start.0 <= end.0,
        ensures
            r.wf(),
            r@ == (FrameAllocatorView { current: start.0, end: end.0, recycled: Seq::empty() }),
    {
        StackFrameAllocator { current: start.0, end: end.0, recycled: Vec::new() }
    }

    /// Hands out a frame, if the pool has one.
    pub fn alloc_frame(&mut self) -> (r: Option<FrameTracker>)
        requires
            old(self).wf(),
        ensures
            final(self).wf(),
            final(self)@ == old(self)@.after_alloc(),
            match r {
                Some(t) => old(self)@.next() == Some(t.ppn.0),
                None => old(self)@.next() is None,
            },
    {
        if let Some(ppn) = self.recycled.pop() {
            Some(FrameTracker::new(PhysPageNum(ppn)))
        } else if self.current == self.end {
            None
        } else {
            self.current += 1;
            Some(FrameTracker::new(PhysPageNum(self.current - 1)))
        }
    }

    /// Takes the frame `ppn` back.
    pub fn dealloc_frame(&mut self, ppn: PhysPageNum)
        requires
            old(self).wf(),
        ensures
            final(self).wf(),
            final(self)@ == old(self)@.after_dealloc(ppn.0),
    {
        self.recycled.push(ppn.0);
    }

    /// The number of frames that the pool can hand out; the largest number
    /// where theirs does not fit.
    pub fn unallocated_frames(&self) -> (n: usize)
        requires
            self.wf(),
        ensures
            n == if self@.free() <= usize::MAX {
                self@.free()
            } else {
                usize::MAX as int
            },
    {
        (self.end - self.current).saturating_add(self.recycled.len())
    }
}

} // verus!
