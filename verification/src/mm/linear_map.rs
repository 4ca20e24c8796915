use std::collections::VecDeque;
use std::sync::Arc;
use vstd::prelude::*;

use crate::mm::address::{VPNRange, VirtPageNum};
use crate::mm::frame::{Frame, FrameTracker};

verus! {

/// Whether a slot is held in the compressed store (`compressed`) or in the
/// swap store (otherwise).
pub open spec fn evicted_as(f: Frame, compressed: bool) -> bool {
    if compressed {
        f is Compressed
    } else {
        f is SwappedOut
    }
}

/// Number of slots of `frames` held in the given store.
pub open spec fn count_evicted(frames: Seq<Frame>, compressed: bool) -> nat
    decreases frames.len(),
{
    if frames.len() == 0 {
        0
    } else {
        count_evicted(frames.drop_last(), compressed) + if evicted_as(frames.last(), compressed) {
            1nat
        } else {
            0nat
        }
    }
}

/// Number of compressed slots.
pub open spec fn count_compressed(frames: Seq<Frame>) -> nat {
    count_evicted(frames, true)
}

/// Number of swapped-out slots.
pub open spec fn count_swapped(frames: Seq<Frame>) -> nat {
    count_evicted(frames, false)
}

/// The entries `e` of `active` with `lo <= e < hi`, in their order, each
/// rebased to `e - lo`.
pub open spec fn active_window(active: Seq<usize>, lo: int, hi: int) -> Seq<usize>
    decreases active.len(),
{
    if active.len() == 0 {
        Seq::empty()
    } else {
        let rest = active_window(active.drop_last(), lo, hi);
        let e = active.last();
        if lo <= e < hi {
            rest.push((e - lo) as usize)
        } else {
            rest
        }
    }
}

/// The entries of `active` other than `idx`, in their order.
pub open spec fn active_without(active: Seq<usize>, idx: int) -> Seq<usize>
    decreases active.len(),
{
    if active.len() == 0 {
        Seq::empty()
    } else {
        let rest = active_without(active.drop_last(), idx);
        if active.last() != idx {
            rest.push(active.last())
        } else {
            rest
        }
    }
}

/// Every entry of `active` moved up by `k` slots.
pub open spec fn active_raised(active: Seq<usize>, k: int) -> Seq<usize> {
    Seq::new(active.len(), |j: int| (active[j] + k) as usize)
}

/// A bound above every slot index.
pub open spec fn index_limit() -> int {
    usize::MAX + 1
}

/// `n` unallocated slots.
pub open spec fn unallocated(n: int) -> Seq<Frame> {
    Seq::new(n as nat, |j: int| Frame::Unallocated)
}

/// The evicted slots of a table are those before a cut and those from it
/// on.
pub proof fn lemma_count_split(frames: Seq<Frame>, k: int, compressed: bool)
    requires
        0 <= k <= frames.len(),
    ensures
        count_evicted(frames, compressed) == count_evicted(frames.subrange(0, k), compressed)
            + count_evicted(frames.subrange(k, frames.len() as int), compressed),
    decreases frames.len(),
{
    let n = frames.len() as int;
    if k == n {
        assert(frames.subrange(0, k) =~= frames);
        assert(frames.subrange(k, n).len() == 0);
    } else {
        lemma_count_split(frames.drop_last(), k, compressed);
        assert(frames.drop_last().subrange(0, k) =~= frames.subrange(0, k));
        assert(frames.drop_last().subrange(k, n - 1) =~= frames.subrange(k, n).drop_last());
        assert(frames.subrange(k, n).last() == frames.last());
    }
}

/// A slot that changes to one that is evicted in the same way, or as
/// little, leaves the count of evicted slots as it is.
pub proof fn lemma_count_update(frames: Seq<Frame>, i: int, f: Frame, compressed: bool)
    requires
        0 <= i < frames.len(),
        evicted_as(frames[i], compressed) == evicted_as(f, compressed),
    ensures
        count_evicted(frames.update(i, f), compressed) == count_evicted(frames, compressed),
    decreases frames.len(),
{
    let n = frames.len() as int;
    if i == n - 1 {
        assert(frames.update(i, f).drop_last() =~= frames.drop_last());
    } else {
        lemma_count_update(frames.drop_last(), i, f, compressed);
        assert(frames.update(i, f).drop_last() =~= frames.drop_last().update(i, f));
    }
}

/// A table of unallocated slots has no evicted slot.
pub proof fn lemma_count_unallocated(n: int, compressed: bool)
    requires
        0 <= n,
    ensures
        count_evicted(unallocated(n), compressed) == 0,
    decreases n,
{
    if n > 0 {
        lemma_count_unallocated(n - 1, compressed);
        assert(unallocated(n).drop_last() =~= unallocated(n - 1));
    }
}

/// Every entry of a window comes from an entry of the queue inside the
/// window's bounds.
pub proof fn lemma_window_members(active: Seq<usize>, lo: int, hi: int)
    requires
        0 <= lo,
    ensures
        forall|j: int|
            0 <= j < active_window(active, lo, hi).len() ==> {
                let e = #[trigger] active_window(active, lo, hi)[j] + lo;
                lo <= e < hi && active.contains(e as usize)
            },
    decreases active.len(),
{
    if active.len() > 0 {
        lemma_window_members(active.drop_last(), lo, hi);
        let rest = active_window(active.drop_last(), lo, hi);
        let w = active_window(active, lo, hi);
        assert forall|j: int| 0 <= j < w.len() implies {
            let e = #[trigger] w[j] + lo;
            lo <= e < hi && active.contains(e as usize)
        } by {
            if j < rest.len() {
                let e = rest[j] + lo;
                let i = choose|i: int| 0 <= i < active.drop_last().len() && active.drop_last()[i] == e as usize;
                assert(active[i] == e as usize);
            } else {
                assert(active[active.len() - 1] == active.last());
            }
        }
    }
}

/// Two windows that meet at `cut` and together cover every index hold as
/// many entries as the queue.
pub proof fn lemma_window_lengths(active: Seq<usize>, cut: int)
    requires
        0 <= cut,
    ensures
        active_window(active, 0, cut).len() + active_window(active, cut, index_limit()).len()
            == active.len(),
    decreases active.len(),
{
    if active.len() > 0 {
        lemma_window_lengths(active.drop_last(), cut);
    }
}

/// What is left of a queue after `idx` is taken out does not hold `idx`, and
/// holds nothing that the queue did not hold.
pub proof fn lemma_without_members(active: Seq<usize>, idx: int)
    ensures
        forall|j: int|
            0 <= j < active_without(active, idx).len() ==> {
                let e = #[trigger] active_without(active, idx)[j];
                e != idx && active.contains(e)
            },
    decreases active.len(),
{
    if active.len() > 0 {
        lemma_without_members(active.drop_last(), idx);
        let rest = active_without(active.drop_last(), idx);
        let w = active_without(active, idx);
        assert forall|j: int| 0 <= j < w.len() implies {
            let e = #[trigger] w[j];
            e != idx && active.contains(e)
        } by {
            if j < rest.len() {
                let e = rest[j];
                let i = choose|i: int| 0 <= i < active.drop_last().len() && active.drop_last()[i] == e;
                assert(active[i] == e);
            } else {
                assert(active[active.len() - 1] == active.last());
            }
        }
    }
}

/// The frame table as a mathematical value.
pub struct LinearMapView {
    pub start: int,
    pub end: int,
    pub frames: Seq<Frame>,
    pub oom_handler: bool,
    pub active: Seq<usize>,
    pub compressed: nat,
    pub swapped: nat,
}

impl LinearMapView {
    /// A table over `[start, end)` with every slot unallocated.
    pub open spec fn new(start: int, end: int, oom_handler: bool) -> Self {
        LinearMapView {
            start,
            end,
            frames: unallocated(end - start),
            oom_handler,
            active: Seq::empty(),
            compressed: 0,
            swapped: 0,
        }
    }

    /// The table has one slot for each page of its range, its counters count
    /// exactly the evicted slots, and its queue holds resident slots only.
    pub open spec fn wf(self) -> bool {
        &&& 0 <= self.start <= self.end <= usize::MAX
        &&& self.frames.len() == self.end - self.start
        &&& self.compressed == count_compressed(self.frames)
        &&& self.swapped == count_swapped(self.frames)
        &&& forall|j: int|
            0 <= j < self.active.len() ==> (#[trigger] self.active[j]) < self.frames.len()
                && self.frames[self.active[j] as int] is InMemory
        &&& !self.oom_handler ==> self.active.len() == 0
    }

    pub open spec fn contains(self, vpn: VirtPageNum) -> bool {
        self.start <= vpn.0 < self.end
    }

    /// The slot index of `vpn`.
    pub open spec fn index_of(self, vpn: VirtPageNum) -> int {
        vpn.0 - self.start
    }

    /// The slot of `vpn`.
    pub open spec fn slot(self, vpn: VirtPageNum) -> Frame {
        self.frames[self.index_of(vpn)]
    }

    /// The resident frame of `vpn`, if its slot is resident.
    pub open spec fn get_in_memory(self, vpn: VirtPageNum) -> Option<Arc<FrameTracker>> {
        self.slot(vpn).tracker()
    }

    /// The table after the slot of `vpn` became resident with `value`.
    pub open spec fn alloc_in_memory(self, vpn: VirtPageNum, value: Arc<FrameTracker>) -> Self {
        LinearMapView {
            frames: self.frames.update(self.index_of(vpn), Frame::InMemory(value)),
            active: if self.oom_handler {
                self.active.push(self.index_of(vpn) as usize)
            } else {
                self.active
            },
            ..self
        }
    }

    /// The table after the resident frame of `vpn`, if any, was taken out.
    pub open spec fn remove_in_memory(self, vpn: VirtPageNum) -> Self {
        LinearMapView {
            frames: if self.slot(vpn) is InMemory {
                self.frames.update(self.index_of(vpn), Frame::Unallocated)
            } else {
                self.frames
            },
            active: if self.oom_handler {
                active_without(self.active, self.index_of(vpn))
            } else {
                self.active
            },
            ..self
        }
    }

    /// The table after its start moved to `new_start`, which does not lie
    /// past its end.
    pub open spec fn set_start(self, new_start: VirtPageNum) -> Self {
        if new_start.0 <= self.start {
            LinearMapView {
                start: new_start.0 as int,
                frames: unallocated(self.start - new_start.0) + self.frames,
                active: active_raised(self.active, self.start - new_start.0),
                ..self
            }
        } else {
            LinearMapView {
                start: new_start.0 as int,
                frames: self.frames.subrange(new_start.0 - self.start, self.frames.len() as int),
                active: active_window(self.active, new_start.0 - self.start, index_limit()),
                ..self
            }
        }
    }

    /// The table after its end moved to `new_end`, which does not lie before
    /// its start.
    pub open spec fn set_end(self, new_end: VirtPageNum) -> Self {
        LinearMapView {
            end: new_end.0 as int,
            frames: if new_end.0 >= self.end {
                self.frames + unallocated(new_end.0 - self.end)
            } else {
                self.frames.subrange(0, new_end.0 - self.start)
            },
            ..self
        }
    }

    /// The part of the table below `cut`, which lies inside the range.
    pub open spec fn lower_part(self, cut: VirtPageNum) -> Self {
        let k = cut.0 - self.start;
        LinearMapView {
            start: self.start,
            end: cut.0 as int,
            frames: self.frames.subrange(0, k),
            oom_handler: self.oom_handler,
            active: active_window(self.active, 0, k),
            compressed: count_compressed(self.frames.subrange(0, k)),
            swapped: count_swapped(self.frames.subrange(0, k)),
        }
    }

    /// The part of the table from `cut` on, which lies inside the range.
    pub open spec fn upper_part(self, cut: VirtPageNum) -> Self {
        let k = cut.0 - self.start;
        let n = self.frames.len() as int;
        LinearMapView {
            start: cut.0 as int,
            end: self.end,
            frames: self.frames.subrange(k, n),
            oom_handler: self.oom_handler,
            active: active_window(self.active, k, index_limit()),
            compressed: count_compressed(self.frames.subrange(k, n)),
            swapped: count_swapped(self.frames.subrange(k, n)),
        }
    }
}

/// The frame table of one memory region: one slot for each page of a
/// contiguous range of virtual page numbers.
#[derive(Clone)]
pub struct LinearMap {
    pub vpn_range: VPNRange,
    pub frames: Vec<Frame>,
    /// Whether the queue of resident slots is kept for the eviction policy.
    pub oom_handler: bool,
    /// Slot indices that became resident, oldest first.
    pub active: VecDeque<usize>,
    /// Number of compressed slots.
    pub compressed: usize,
    /// Number of swapped-out slots.
    pub swapped: usize,
}

impl View for LinearMap {
    type V = LinearMapView;

    open spec fn view(&self) -> LinearMapView {
        LinearMapView {
            start: self.vpn_range.start.0 as int,
            end: self.vpn_range.end.0 as int,
            frames: self.frames@,
            oom_handler: self.oom_handler,
            active: self.active@,
            compressed: self.compressed as nat,
            swapped: self.swapped as nat,
        }
    }
}

impl LinearMap {
    /// The table has one slot for each page of its range.
    pub open spec fn sized(&self) -> bool {
        &&& self.vpn_range.wf()
        &&& self.frames@.len() == self.vpn_range.spec_len()
    }

    /// The table has one slot for each page of its range, its counters count
    /// exactly the evicted slots, and its queue holds resident slots only.
    pub open spec fn wf(&self) -> bool {
        self@.wf()
    }

    /// A table over `vpn_range` with every slot unallocated and no queue of
    /// resident slots.
    pub fn new(vpn_range: VPNRange) -> (r: Self)
        requires
            vpn_range.wf(),
        ensures
            r.wf(),
            r@ == LinearMapView::new(vpn_range.start.0 as int, vpn_range.end.0 as int, false),
    {
        let len = vpn_range.get_end().0 - vpn_range.get_start().0;
        let mut new_dict = Self {
            vpn_range,
            frames: Vec::with_capacity(len),
            oom_handler: false,
            active: VecDeque::new(),
            compressed: 0,
            swapped: 0,
        };
        let mut i: usize = 0;
        while i < len
            invariant
                i <= len,
                new_dict.frames@ =~= unallocated(i as int),
                new_dict.vpn_range == vpn_range,
                !new_dict.oom_handler,
                new_dict.active@ =~= Seq::empty(),
                new_dict.compressed == 0,
                new_dict.swapped == 0,
            decreases len - i,
        {
            new_dict.frames.push(Frame::Unallocated);
            i += 1;
        }
        proof {
            lemma_count_unallocated(len as int, true);
            lemma_count_unallocated(len as int, false);
        }
        new_dict
    }

    /// As `new`, with the queue of resident slots kept.
    pub fn with_oom_handler(vpn_range: VPNRange) -> (r: Self)
        requires
            vpn_range.wf(),
        ensures
            r.wf(),
            r@ == LinearMapView::new(vpn_range.start.0 as int, vpn_range.end.0 as int, true),
    {
        let mut r = Self::new(vpn_range);
        r.oom_handler = true;
        r
    }

    /// The slot of `key`, for the caller to change. The caller keeps the
    /// counters and the queue in step with what it stores.
    pub fn get_mut(&mut self, key: &VirtPageNum) -> (r: &mut Frame)
        requires
            old(self).sized(),
            old(self)@.contains(*key),
        ensures
            *r == old(self)@.slot(*key),
            final(self)@ == (LinearMapView {
                frames: old(self)@.frames.update(old(self)@.index_of(*key), *final(r)),
                ..old(self)@
            }),
    {
        let idx = key.0 - self.vpn_range.get_start().0;
        &mut self.frames[idx]
    }

    /// The resident frame of `key`, if its slot is resident.
    pub fn get_in_memory(&self, key: &VirtPageNum) -> (r: Option<&Arc<FrameTracker>>)
        requires
            self.sized(),
            self@.contains(*key),
        ensures
            match r {
                Some(t) => self@.get_in_memory(*key) == Some(*t),
                None => self@.get_in_memory(*key) is None,
            },
    {
        match &self.frames[key.0 - self.vpn_range.get_start().0] {
            Frame::InMemory(tracker) => Some(tracker),
            _ => None,
        }
    }

    /// Makes the unallocated slot of `key` resident with `value`, and queues
    /// the slot where the queue is kept.
    pub fn alloc_in_memory(&mut self, key: VirtPageNum, value: Arc<FrameTracker>)
        requires
            old(self).wf(),
            old(self)@.contains(key),
            old(self)@.slot(key) is Unallocated,
        ensures
            final(self).wf(),
            final(self)@ == old(self)@.alloc_in_memory(key, value),
    {
        let idx = key.0 - self.vpn_range.get_start().0;
        if self.oom_handler {
            self.active.push_back(idx);
        }
        let ghost before = self.frames@;
        let inserted = self.frames[idx].insert_in_memory(value);
        proof {
            lemma_count_update(before, idx as int, Frame::InMemory(value), true);
            lemma_count_update(before, idx as int, Frame::InMemory(value), false);
        }
    }

    /// Takes the resident frame of `key` out of its slot and, where the queue
    /// is kept, out of the queue. A slot that is not resident stays as it is.
    pub fn remove_in_memory(&mut self, key: &VirtPageNum) -> (r: Option<Arc<FrameTracker>>)
        requires
            old(self).wf(),
            old(self)@.contains(*key),
        ensures
            final(self).wf(),
            r == old(self)@.get_in_memory(*key),
            final(self)@ == old(self)@.remove_in_memory(*key),
    {
        let idx = key.0 - self.vpn_range.get_start().0;
        if self.oom_handler {
            self.active = Self::retain_other(&self.active, idx);
        }
        let ghost before = self.frames@;
        let taken = self.frames[idx].take_in_memory();
        proof {
            lemma_without_members(old(self).active@, idx as int);
            if before[idx as int] is InMemory {
                lemma_count_update(before, idx as int, Frame::Unallocated, true);
                lemma_count_update(before, idx as int, Frame::Unallocated, false);
            } else {
                assert(self.frames@ =~= before);
            }
        }
        taken
    }

    /// The queue without the entries equal to `idx`.
    fn retain_other(active: &VecDeque<usize>, idx: usize) -> (r: VecDeque<usize>)
        ensures
            r@ == active_without(active@, idx as int),
    {
        let mut kept: VecDeque<usize> = VecDeque::new();
        let mut i: usize = 0;
        while i < active.len()
            invariant
                i <= active@.len(),
                kept@ == active_without(active@.take(i as int), idx as int),
            decreases active@.len() - i,
        {
            let e = active[i];
            proof {
                assert(active@.take(i + 1).drop_last() =~= active@.take(i as int));
            }
            if e != idx {
                kept.push_back(e);
            }
            i += 1;
        }
        proof {
            assert(active@.take(i as int) =~= active@);
        }
        kept
    }

    /// The queue with every entry moved up by `k` slots.
    fn raise_active(active: &VecDeque<usize>, k: usize) -> (r: VecDeque<usize>)
        requires
            forall|j: int| 0 <= j < active@.len() ==> active@[j] + k <= usize::MAX,
        ensures
            r@ == active_raised(active@, k as int),
    {
        let mut raised: VecDeque<usize> = VecDeque::new();
        let mut i: usize = 0;
        while i < active.len()
            invariant
                i <= active@.len(),
                forall|j: int| 0 <= j < active@.len() ==> active@[j] + k <= usize::MAX,
                raised@ =~= active_raised(active@.take(i as int), k as int),
            decreases active@.len() - i,
        {
            raised.push_back(active[i] + k);
            i += 1;
        }
        proof {
            assert(active@.take(i as int) =~= active@);
        }
        raised
    }

    /// Moves the start of the range to `new_vpn_start`. Moving it down adds
    /// unallocated slots in front; moving it up drops the slots in front,
    /// which the caller has deallocated. Fails, and changes nothing, when the
    /// new start lies past the end.
    pub fn set_start(&mut self, new_vpn_start: VirtPageNum) -> (r: Result<(), ()>)
        requires
            old(self).wf(),
            forall|i: int|
                0 <= i < old(self)@.frames.len() && i < new_vpn_start.0 - old(self)@.start ==> old(
                    self,
                )@.frames[i] is Unallocated,
        ensures
            r is Err <==> new_vpn_start.0 > old(self)@.end,
            r is Err ==> *final(self) == *old(self),
            r is Ok ==> final(self).wf() && final(self)@ == old(self)@.set_start(new_vpn_start),
    {
        let vpn_start = self.vpn_range.get_start();
        let vpn_end = self.vpn_range.get_end();
        if new_vpn_start.0 > vpn_end.0 {
            return Err(());
        }
        let ghost before = self.frames@;
        self.vpn_range = VPNRange::new(new_vpn_start, vpn_end);
        if new_vpn_start.0 < vpn_start.0 {
            let k = vpn_start.0 - new_vpn_start.0;
            let mut grown: Vec<Frame> = Vec::with_capacity(vpn_end.0 - new_vpn_start.0);
            let mut i: usize = 0;
            while i < k
                invariant
                    i <= k,
                    grown@ =~= unallocated(i as int),
                decreases k - i,
            {
                grown.push(Frame::Unallocated);
                i += 1;
            }
            grown.append(&mut self.frames);
            self.frames = grown;
            self.active = Self::raise_active(&self.active, k);
            proof {
                lemma_count_split(self.frames@, k as int, true);
                lemma_count_split(self.frames@, k as int, false);
                lemma_count_unallocated(k as int, true);
                lemma_count_unallocated(k as int, false);
                assert(self.frames@.subrange(0, k as int) =~= unallocated(k as int));
                assert(self.frames@.subrange(k as int, self.frames@.len() as int) =~= before);
            }
        } else {
            let k = new_vpn_start.0 - vpn_start.0;
            let rest = self.frames.split_off(k);
            self.frames = rest;
            let (_, kept) = Self::split_active_into_two(&self.active, k);
            self.active = kept;
            proof {
                lemma_count_split(before, k as int, true);
                lemma_count_split(before, k as int, false);
                lemma_count_dropped(before.subrange(0, k as int), true);
                lemma_count_dropped(before.subrange(0, k as int), false);
                lemma_window_members(old(self).active@, k as int, index_limit());
                if k == 0 {
                    lemma_window_all(old(self).active@);
                    assert(unallocated(0) + before =~= before);
                    assert(before.subrange(0, before.len() as int) =~= before);
                    assert(active_raised(old(self).active@, 0) =~= old(self).active@);
                }
            }
        }
        Ok(())
    }

    /// Moves the end of the range to `new_vpn_end`. Moving it up appends
    /// unallocated slots; moving it down drops the slots at the end, which
    /// the caller has deallocated. Fails, and changes nothing, when the new
    /// end lies before the start.
    pub fn set_end(&mut self, new_vpn_end: VirtPageNum) -> (r: Result<(), ()>)
        requires
            old(self).wf(),
            forall|i: int|
                0 <= i < old(self)@.frames.len() && i >= new_vpn_end.0 - old(self)@.start ==> old(
                    self,
                )@.frames[i] is Unallocated,
        ensures
            r is Err <==> new_vpn_end.0 < old(self)@.start,
            r is Err ==> *final(self) == *old(self),
            r is Ok ==> final(self).wf() && final(self)@ == old(self)@.set_end(new_vpn_end),
    {
        let vpn_start = self.vpn_range.get_start();
        if vpn_start.0 > new_vpn_end.0 {
            return Err(());
        }
        let ghost before = self.frames@;
        let old_len = self.frames.len();
        let new_len = new_vpn_end.0 - vpn_start.0;
        self.vpn_range = VPNRange::new(vpn_start, new_vpn_end);
        if new_len < old_len {
            self.frames.truncate(new_len);
            proof {
                lemma_count_split(before, new_len as int, true);
                lemma_count_split(before, new_len as int, false);
                lemma_count_dropped(before.subrange(new_len as int, old_len as int), true);
                lemma_count_dropped(before.subrange(new_len as int, old_len as int), false);
            }
        } else {
            let mut i: usize = old_len;
            while i < new_len
                invariant
                    old_len <= i <= new_len,
                    self.frames@ =~= before + unallocated(i - old_len),
                    self.vpn_range == (VPNRange { start: vpn_start, end: new_vpn_end }),
                    self.oom_handler == old(self).oom_handler,
                    self.active == old(self).active,
                    self.compressed == old(self).compressed,
                    self.swapped == old(self).swapped,
                decreases new_len - i,
            {
                self.frames.push(Frame::Unallocated);
                i += 1;
            }
            proof {
                lemma_count_split(self.frames@, old_len as int, true);
                lemma_count_split(self.frames@, old_len as int, false);
                lemma_count_unallocated(new_len - old_len, true);
                lemma_count_unallocated(new_len - old_len, false);
                assert(self.frames@.subrange(0, old_len as int) =~= before);
                assert(self.frames@.subrange(old_len as int, new_len as int) =~= unallocated(
                    new_len - old_len,
                ));
            }
        }
        Ok(())
    }

    /// Cuts the table at `cut`: `self` keeps the pages below `cut`, the
    /// result takes the pages from `cut` on, and the queue and the counters
    /// are shared out by slot. Fails, and changes nothing, unless `cut` lies
    /// strictly inside the range.
    #[inline(always)]
    pub fn into_two(&mut self, cut: VirtPageNum) -> (r: Result<Self, ()>)
        requires
            old(self).wf(),
        ensures
            r is Err <==> (cut.0 <= old(self)@.start || cut.0 >= old(self)@.end),
            r is Err ==> *final(self) == *old(self),
            r is Ok ==> {
                &&& final(self).wf()
                &&& r.unwrap().wf()
                &&& final(self)@ == old(self)@.lower_part(cut)
                &&& r.unwrap()@ == old(self)@.upper_part(cut)
            },
    {
        let vpn_start = self.vpn_range.get_start();
        let vpn_end = self.vpn_range.get_end();
        if cut.0 <= vpn_start.0 || cut.0 >= vpn_end.0 {
            return Err(());
        }
        let ghost before = self.frames@;
        let ghost k = cut.0 - vpn_start.0;
        let second_frames = self.frames.split_off(cut.0 - vpn_start.0);
        proof {
            lemma_count_split(before, k, true);
            lemma_count_split(before, k, false);
            assert(self.frames@.subrange(0, k) =~= self.frames@);
        }
        let ((first_active, second_active), (first_compressed, first_swapped)) = (
            LinearMap::split_active_into_two(&self.active, cut.0 - vpn_start.0),
            self.count_compressed_and_swapped(0, cut.0 - vpn_start.0),
        );
        let second = LinearMap {
            vpn_range: VPNRange::new(cut, vpn_end),
            frames: second_frames,
            oom_handler: self.oom_handler,
            active: second_active,
            compressed: self.compressed - first_compressed,
            swapped: self.swapped - first_swapped,
        };
        self.vpn_range = VPNRange::new(vpn_start, cut);
        self.active = first_active;
        self.compressed = first_compressed;
        self.swapped = first_swapped;
        proof {
            lemma_window_members(old(self).active@, 0, k);
            lemma_window_members(old(self).active@, k, index_limit());
        }
        Ok(second)
    }

    /// Cuts the table at `first_cut` and then what lies above at
    /// `second_cut`: `self` keeps the pages below the first cut, the results
    /// take the pages between the cuts and the pages from the second cut on.
    /// Fails, and changes nothing, unless both cuts lie strictly inside the
    /// range, the first below the second.
    pub fn into_three(&mut self, first_cut: VirtPageNum, second_cut: VirtPageNum) -> (r: Result<
        (Self, Self),
        (),
    >)
        requires
            old(self).wf(),
        ensures
            r is Ok <==> old(self)@.start < first_cut.0 < second_cut.0 < old(self)@.end,
            r is Err ==> *final(self) == *old(self),
            r is Ok ==> {
                &&& final(self).wf()
                &&& r.unwrap().0.wf()
                &&& r.unwrap().1.wf()
                &&& final(self)@ == old(self)@.lower_part(first_cut)
                &&& r.unwrap().0@ == old(self)@.upper_part(first_cut).lower_part(second_cut)
                &&& r.unwrap().1@ == old(self)@.upper_part(first_cut).upper_part(second_cut)
            },
    {
        let vpn_start = self.vpn_range.get_start();
        let vpn_end = self.vpn_range.get_end();
        if first_cut.0 <= vpn_start.0 || second_cut.0 <= first_cut.0 || second_cut.0 >= vpn_end.0 {
            return Err(());
        }
        match self.into_two(first_cut) {
            Ok(mut second) => {
                match second.into_two(second_cut) {
                    Ok(third) => Ok((second, third)),
                    Err(_) => Err(()),
                }
            },
            Err(_) => Err(()),
        }
    }

    /// The numbers of compressed and of swapped-out slots among the slots
    /// from `start` up to `end`; both counted as zero without a look at the
    /// slots while both counters of the table are zero.
    pub fn count_compressed_and_swapped(&self, start: usize, end: usize) -> (r: (usize, usize))
        requires
            start <= end <= self.frames@.len(),
        ensures
            self.compressed == 0 && self.swapped == 0 ==> r == (0usize, 0usize),
            !(self.compressed == 0 && self.swapped == 0) ==> r.0 == count_compressed(
                self.frames@.subrange(start as int, end as int),
            ) && r.1 == count_swapped(self.frames@.subrange(start as int, end as int)),
    {
        if self.compressed == 0 && self.swapped == 0 {
            (0, 0)
        } else {
            let mut compressed: usize = 0;
            let mut swapped: usize = 0;
            let mut i: usize = start;
            while i < end
                invariant
                    start <= i <= end <= self.frames@.len(),
                    compressed == count_compressed(self.frames@.subrange(start as int, i as int)),
                    swapped == count_swapped(self.frames@.subrange(start as int, i as int)),
                    compressed <= i - start,
                    swapped <= i - start,
                decreases end - i,
            {
                proof {
                    assert(self.frames@.subrange(start as int, i + 1).drop_last()
                        =~= self.frames@.subrange(start as int, i as int));
                }
                match &self.frames[i] {
                    Frame::Compressed(_) => {
                        compressed += 1;
                    },
                    Frame::SwappedOut(_) => {
                        swapped += 1;
                    },
                    _ => {},
                }
                i += 1;
            }
            (compressed, swapped)
        }
    }

    /// The queue shared out at `cut_idx`: the entries below it, and the
    /// entries from it on, rebased to it.
    pub fn split_active_into_two(active: &VecDeque<usize>, cut_idx: usize) -> (r: (
        VecDeque<usize>,
        VecDeque<usize>,
    ))
        ensures
            r.0@ == active_window(active@, 0, cut_idx as int),
            r.1@ == active_window(active@, cut_idx as int, index_limit()),
    {
        let mut first_active: VecDeque<usize> = VecDeque::new();
        let mut second_active: VecDeque<usize> = VecDeque::new();
        let mut i: usize = 0;
        while i < active.len()
            invariant
                i <= active@.len(),
                first_active@ == active_window(active@.take(i as int), 0, cut_idx as int),
                second_active@ == active_window(
                    active@.take(i as int),
                    cut_idx as int,
                    index_limit(),
                ),
            decreases active@.len() - i,
        {
            let idx = active[i];
            proof {
                assert(active@.take(i + 1).drop_last() =~= active@.take(i as int));
            }
            if idx < cut_idx {
                first_active.push_back(idx);
            } else {
                second_active.push_back(idx - cut_idx);
            }
            i += 1;
        }
        proof {
            assert(active@.take(i as int) =~= active@);
        }
        (first_active, second_active)
    }

    /// The queue shared out at two cuts: the entries below the first, the
    /// entries between them, rebased to the first, and the entries from the
    /// second on, rebased to the second.
    pub fn split_active_into_three(
        active: &VecDeque<usize>,
        first_cut_idx: usize,
        second_cut_idx: usize,
    ) -> (r: (VecDeque<usize>, VecDeque<usize>, VecDeque<usize>))
        requires
            first_cut_idx < second_cut_idx,
        ensures
            r.0@ == active_window(active@, 0, first_cut_idx as int),
            r.1@ == active_window(active@, first_cut_idx as int, second_cut_idx as int),
            r.2@ == active_window(active@, second_cut_idx as int, index_limit()),
    {
        let mut first_active: VecDeque<usize> = VecDeque::new();
        let mut second_active: VecDeque<usize> = VecDeque::new();
        let mut third_active: VecDeque<usize> = VecDeque::new();
        let mut i: usize = 0;
        while i < active.len()
            invariant
                i <= active@.len(),
                first_cut_idx < second_cut_idx,
                first_active@ == active_window(active@.take(i as int), 0, first_cut_idx as int),
                second_active@ == active_window(
                    active@.take(i as int),
                    first_cut_idx as int,
                    second_cut_idx as int,
                ),
                third_active@ == active_window(
                    active@.take(i as int),
                    second_cut_idx as int,
                    index_limit(),
                ),
            decreases active@.len() - i,
        {
            let idx = active[i];
            proof {
                assert(active@.take(i + 1).drop_last() =~= active@.take(i as int));
            }
            if idx < first_cut_idx {
                first_active.push_back(idx);
            } else if idx < second_cut_idx {
                second_active.push_back(idx - first_cut_idx);
            } else {
                third_active.push_back(idx - second_cut_idx);
            }
            i += 1;
        }
        proof {
            assert(active@.take(i as int) =~= active@);
        }
        (first_active, second_active, third_active)
    }
}

/// A slot made resident is found resident with the frame it was given.
pub proof fn law_alloc_then_get(m: LinearMapView, vpn: VirtPageNum, value: Arc<FrameTracker>)
    requires
        m.wf(),
        m.contains(vpn),
        m.slot(vpn) is Unallocated,
    ensures
        m.alloc_in_memory(vpn, value).get_in_memory(vpn) == Some(value),
{
}

/// Removing a slot that was just made resident hands back the frame it was
/// given and leaves the slot unallocated, so that removing it once more
/// hands back nothing.
pub proof fn law_remove_after_alloc(m: LinearMapView, vpn: VirtPageNum, value: Arc<FrameTracker>)
    requires
        m.wf(),
        m.contains(vpn),
        m.slot(vpn) is Unallocated,
    ensures
        ({
            let allocated = m.alloc_in_memory(vpn, value);
            let removed = allocated.remove_in_memory(vpn);
            &&& allocated.get_in_memory(vpn) == Some(value)
            &&& removed.slot(vpn) is Unallocated
            &&& removed.get_in_memory(vpn) is None
            &&& removed.remove_in_memory(vpn).frames == removed.frames
        }),
{
}

/// A cut strictly inside the range gives two tables over `[start, cut)` and
/// `[cut, end)` whose slots, one after the other, are the slots of the
/// table, and whose queue lengths and counters add up to those of the table.
pub proof fn law_into_two_partitions(m: LinearMapView, cut: VirtPageNum)
    requires
        m.wf(),
        m.start < cut.0 < m.end,
    ensures
        ({
            let first = m.lower_part(cut);
            let second = m.upper_part(cut);
            &&& first.wf()
            &&& second.wf()
            &&& first.start == m.start
            &&& first.end == cut.0
            &&& second.start == cut.0
            &&& second.end == m.end
            &&& first.frames + second.frames == m.frames
            &&& first.active.len() + second.active.len() == m.active.len()
            &&& first.compressed + second.compressed == m.compressed
            &&& first.swapped + second.swapped == m.swapped
        }),
{
    let k = cut.0 - m.start;
    let first = m.lower_part(cut);
    let second = m.upper_part(cut);
    lemma_count_split(m.frames, k, true);
    lemma_count_split(m.frames, k, false);
    lemma_window_lengths(m.active, k);
    lemma_window_members(m.active, 0, k);
    lemma_window_members(m.active, k, index_limit());
    assert(first.frames + second.frames =~= m.frames);
}

/// Moving the end up appends exactly `new_end - end` unallocated slots and
/// keeps the slots there were; moving it down keeps exactly the first
/// `new_end - start` slots.
pub proof fn law_set_end_resizes(m: LinearMapView, new_end: VirtPageNum)
    requires
        m.wf(),
        m.start <= new_end.0,
    ensures
        m.set_end(new_end).frames.len() == new_end.0 - m.start,
        new_end.0 >= m.end ==> m.set_end(new_end).frames == m.frames + unallocated(
            new_end.0 - m.end,
        ) && forall|i: int|
            m.frames.len() <= i < new_end.0 - m.start ==> m.set_end(new_end).frames[i]
                is Unallocated,
        new_end.0 < m.end ==> m.set_end(new_end).frames == m.frames.take(new_end.0 - m.start),
{
}

/// Slots that are all unallocated hold no evicted slot.
pub proof fn lemma_count_dropped(frames: Seq<Frame>, compressed: bool)
    requires
        forall|i: int| 0 <= i < frames.len() ==> frames[i] is Unallocated,
    ensures
        count_evicted(frames, compressed) == 0,
    decreases frames.len(),
{
    if frames.len() > 0 {
        lemma_count_dropped(frames.drop_last(), compressed);
    }
}

/// The window over every index is the queue itself.
pub proof fn lemma_window_all(active: Seq<usize>)
    ensures
        active_window(active, 0, index_limit()) == active,
    decreases active.len(),
{
    if active.len() > 0 {
        lemma_window_all(active.drop_last());
        assert(active.drop_last().push(active.last()) =~= active);
    }
}

} // verus!
