use std::sync::Arc;
use vstd::prelude::*;

use crate::mm::address::PhysPageNum;

verus! {

/// The owner of one physical page frame.
#[derive(Debug)]
pub struct FrameTracker {
    pub ppn: PhysPageNum,
}

impl FrameTracker {
    pub fn new(ppn: PhysPageNum) -> (t: Self)
        ensures
            t.ppn == ppn,
    {
        FrameTracker { ppn }
    }
}

/// The backing of one virtual page.
#[derive(Clone, Debug)]
pub enum Frame {
    /// No physical backing.
    Unallocated,
    /// A resident physical frame.
    InMemory(Arc<FrameTracker>),
    /// Held compressed; the handle names the compressed copy.
    Compressed(usize),
    /// Held in the swap store; the handle names the swapped copy.
    SwappedOut(usize),
}

impl Frame {
    /// The resident frame of this slot, if it has one.
    pub open spec fn tracker(&self) -> Option<Arc<FrameTracker>> {
        match self {
            Frame::InMemory(t) => Some(*t),
            _ => None,
        }
    }

    /// Makes an unallocated slot resident. Any other slot is left as it is and
    /// the frame is refused.
    pub fn insert_in_memory(&mut self, frame_tracker: Arc<FrameTracker>) -> (r: Result<(), ()>)
        ensures
            r is Ok <==> *old(self) is Unallocated,
            r is Ok ==> *final(self) == Frame::InMemory(frame_tracker),
            r is Err ==> *final(self) == *old(self),
    {
        match self {
            Frame::Unallocated => {
                *self = Frame::InMemory(frame_tracker);
                Ok(())
            },
            _ => Err(()),
        }
    }

    /// Takes the resident frame out of the slot, which becomes unallocated. A
    /// slot that is not resident is left as it is.
    pub fn take_in_memory(&mut self) -> (r: Option<Arc<FrameTracker>>)
        ensures
            r == old(self).tracker(),
            *old(self) is InMemory ==> *final(self) == Frame::Unallocated,
            !(*old(self) is InMemory) ==> *final(self) == *old(self),
    {
        match self {
            Frame::InMemory(_) => {
                let mut frame = Frame::Unallocated;
                std::mem::swap(self, &mut frame);
                match frame {
                    Frame::InMemory(t) => Some(t),
                    _ => None,
                }
            },
            _ => None,
        }
    }
}

} // verus!
