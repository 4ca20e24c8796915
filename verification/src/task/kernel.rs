//! The kernel as one value: the table of tasks, the queue of ready tasks,
//! the timers, the address spaces and their futex queues, and the clock.

use vstd::prelude::*;

use crate::arch::acpi::Pm1Cnt;
use crate::config::{FRAME_POOL_END, FRAME_POOL_START, INITPROC_PID};
use crate::mm::address::PhysPageNum;
use crate::mm::frame_allocator::{FrameAllocatorView, StackFrameAllocator};
use crate::mm::memory_set::{MemorySet, MemorySetView};
use crate::task::signal::{SigActionEntry, Signals};
use crate::task::tcb::{Blocked, TaskControlBlock, TaskStatus};
use crate::timer::TimeSpec;

verus! {

/// A task that is to be woken when the clock reaches `expire`.
#[derive(Clone, Copy, Debug)]
pub struct TimerEntry {
    pub expire: TimeSpec,
    pub pid: usize,
}

/// A task that waits on the futex word at `addr`.
#[derive(Clone, Copy, Debug)]
pub struct FutexWaiter {
    pub addr: usize,
    pub pid: usize,
}

/// The futex queues of one address space: the waiters in the order in
/// which they came.
pub struct Futex {
    pub waiters: Vec<FutexWaiter>,
}

/// The entries of `s` other than `p`, in their order.
pub open spec fn without(s: Seq<usize>, p: usize) -> Seq<usize>
    decreases s.len(),
{
    if s.len() == 0 {
        Seq::empty()
    } else if s.last() == p {
        without(s.drop_last(), p)
    } else {
        without(s.drop_last(), p).push(s.last())
    }
}

/// What is left after `p` is taken out holds no `p`, holds only what was
/// there, keeps what was there but `p`, and holds nothing twice where
/// nothing was there twice.
pub proof fn lemma_without(s: Seq<usize>, p: usize)
    ensures
        !without(s, p).contains(p),
        forall|x: usize| without(s, p).contains(x) ==> s.contains(x),
        forall|x: usize| s.contains(x) && x != p ==> without(s, p).contains(x),
        s.no_duplicates() ==> without(s, p).no_duplicates(),
        !s.contains(p) ==> without(s, p) == s,
    decreases s.len(),
{
    if s.len() > 0 {
        let d = s.drop_last();
        let l = s.last();
        lemma_without(d, p);
        let w = without(s, p);
        let wd = without(d, p);
        assert(s =~= d.push(l));
        assert forall|x: usize| d.contains(x) implies s.contains(x) by {
            let i = choose|i: int| 0 <= i < d.len() && d[i] == x;
            assert(s[i] == x);
        }
        assert(s.contains(l)) by {
            assert(s[s.len() - 1] == l);
        }
        assert forall|x: usize| s.contains(x) implies d.contains(x) || x == l by {
            let i = choose|i: int| 0 <= i < s.len() && s[i] == x;
            if i < d.len() {
                assert(d[i] == x);
            }
        }
        if l == p {
            assert(w == wd);
        } else {
            assert(w == wd.push(l));
            assert forall|x: usize| wd.contains(x) implies w.contains(x) by {
                let j = choose|j: int| 0 <= j < wd.len() && wd[j] == x;
                assert(w[j] == x);
            }
            assert(w.contains(l)) by {
                assert(w[w.len() - 1] == l);
            }
            assert forall|x: usize| w.contains(x) implies wd.contains(x) || x == l by {
                let j = choose|j: int| 0 <= j < w.len() && w[j] == x;
                if j < wd.len() {
                    assert(wd[j] == x);
                }
            }
            if s.no_duplicates() {
                assert(d.no_duplicates());
                assert(!d.contains(l)) by {
                    if d.contains(l) {
                        let i = choose|i: int| 0 <= i < d.len() && d[i] == l;
                        assert(s[i] == l && s[s.len() - 1] == l);
                    }
                }
                assert(!wd.contains(l));
                assert forall|i: int, j: int|
                    0 <= i < w.len() && 0 <= j < w.len() && i != j implies w[i] != w[j] by {
                    if i < wd.len() {
                        assert(wd[i] == w[i]);
                    }
                    if j < wd.len() {
                        assert(wd[j] == w[j]);
                    }
                }
            }
        }
        if !s.contains(p) {
            assert(!d.contains(p));
            assert(l != p);
            assert(w =~= s);
        }
        if s.no_duplicates() && l == p {
            assert(d.no_duplicates());
        }
    }
}

/// The timers of `timers` that are not for the task `p`, in their order.
pub open spec fn timers_without(timers: Seq<TimerEntry>, p: usize) -> Seq<TimerEntry>
    decreases timers.len(),
{
    if timers.len() == 0 {
        Seq::empty()
    } else if timers.last().pid == p {
        timers_without(timers.drop_last(), p)
    } else {
        timers_without(timers.drop_last(), p).push(timers.last())
    }
}

/// The timers of `timers` that have not run out at `now`, in their order.
pub open spec fn timers_pending(timers: Seq<TimerEntry>, now: TimeSpec) -> Seq<TimerEntry>
    decreases timers.len(),
{
    if timers.len() == 0 {
        Seq::empty()
    } else if timers.last().expire.nanos() <= now.nanos() {
        timers_pending(timers.drop_last(), now)
    } else {
        timers_pending(timers.drop_last(), now).push(timers.last())
    }
}

/// The waiters of `waiters` that are not the task `p`, in their order.
pub open spec fn waiters_without(waiters: Seq<FutexWaiter>, p: usize) -> Seq<FutexWaiter>
    decreases waiters.len(),
{
    if waiters.len() == 0 {
        Seq::empty()
    } else if waiters.last().pid == p {
        waiters_without(waiters.drop_last(), p)
    } else {
        waiters_without(waiters.drop_last(), p).push(waiters.last())
    }
}

/// The lowest number of a task of `tasks` whose thread group is `tgid`.
pub open spec fn group_member(tasks: Seq<Option<TaskControlBlock>>, tgid: usize) -> Option<usize>
    decreases tasks.len(),
{
    if tasks.len() == 0 {
        None
    } else {
        match group_member(tasks.drop_last(), tgid) {
            Some(p) => Some(p),
            None => if tasks.last() is Some && tasks.last().unwrap().tgid == tgid {
                Some((tasks.len() - 1) as usize)
            } else {
                None
            },
        }
    }
}

/// `group_member` gives the first task of the group, and none only where
/// the group has no task.
pub proof fn lemma_group_member(tasks: Seq<Option<TaskControlBlock>>, tgid: usize)
    requires
        tasks.len() <= usize::MAX,
    ensures
        match group_member(tasks, tgid) {
            Some(p) => p < tasks.len() && tasks[p as int] is Some && tasks[p as int].unwrap().tgid
                == tgid && forall|q: int|
                0 <= q < p ==> !((#[trigger] tasks[q]) is Some && tasks[q].unwrap().tgid == tgid),
            None => forall|q: int|
                0 <= q < tasks.len() ==> !((#[trigger] tasks[q]) is Some && tasks[q].unwrap().tgid
                    == tgid),
        },
    decreases tasks.len(),
{
    if tasks.len() > 0 {
        let d = tasks.drop_last();
        lemma_group_member(d, tgid);
        match group_member(d, tgid) {
            Some(p) => {
                assert(d[p as int] == tasks[p as int]);
                assert forall|q: int| 0 <= q < p implies !((#[trigger] tasks[q]) is Some
                    && tasks[q].unwrap().tgid == tgid) by {
                    assert(d[q] == tasks[q]);
                }
            },
            None => {
                assert forall|q: int| 0 <= q < tasks.len() - 1 implies !((#[trigger] tasks[q])
                    is Some && tasks[q].unwrap().tgid == tgid) by {
                    assert(d[q] == tasks[q]);
                }
            },
        }
    }
}

/// The kernel as a mathematical value.
pub struct KernelView {
    /// The task with number `p` at index `p`; `None` where there is no
    /// such task.
    pub tasks: Seq<Option<TaskControlBlock>>,
    /// The numbers of the children of each task, in the order in which
    /// they became its children.
    pub children: Seq<Seq<usize>>,
    /// The task that runs.
    pub current: Option<usize>,
    /// The tasks that wait for the processor, the next one first.
    pub ready: Seq<usize>,
    pub timers: Seq<TimerEntry>,
    pub spaces: Seq<MemorySetView>,
    /// The futex waiters of each address space.
    pub futexes: Seq<Seq<FutexWaiter>>,
    /// The clock, in ticks.
    pub ticks: usize,
    pub pm1_cnt: Pm1Cnt,
    /// The pool of physical page frames.
    pub frames: FrameAllocatorView,
    /// The actions that tasks set for signals.
    pub sigactions: Seq<SigActionEntry>,
}

impl KernelView {
    /// Whether there is a task with number `p`.
    pub open spec fn live(self, p: usize) -> bool {
        p < self.tasks.len() && self.tasks[p as int] is Some
    }

    /// The task with number `p`.
    pub open spec fn task(self, p: usize) -> TaskControlBlock {
        self.tasks[p as int].unwrap()
    }

    /// The task that runs.
    pub open spec fn cur(self) -> TaskControlBlock {
        self.task(self.current.unwrap())
    }

    /// The time that the clock shows.
    pub open spec fn now(self) -> TimeSpec {
        TimeSpec::spec_from_ticks(self.ticks)
    }

    /// The kernel with `t` in place of the task with number `p`.
    pub open spec fn with_task(self, p: usize, t: TaskControlBlock) -> Self {
        KernelView { tasks: self.tasks.update(p as int, Some(t)), ..self }
    }

    /// The kernel with `m` in place of the address space with number `s`.
    pub open spec fn with_space(self, s: usize, m: MemorySetView) -> Self {
        KernelView { spaces: self.spaces.update(s as int, m), ..self }
    }

    /// The table of tasks and the queues fit together: every task stands
    /// at its own number in an address space that exists, the children of
    /// a task are tasks that name it as their parent, the task that runs
    /// is marked as running, and the ready queue holds ready tasks, none
    /// twice.
    pub open spec fn wf(self) -> bool {
        &&& self.tasks.len() == self.children.len()
        &&& 2 <= self.tasks.len() <= isize::MAX
        &&& self.tasks[0] is None
        &&& self.tasks[INITPROC_PID as int] is Some
        &&& self.tasks[INITPROC_PID as int].unwrap().parent is None
        &&& self.spaces.len() == self.futexes.len()
        &&& self.spaces.len() <= self.tasks.len()
        &&& self.frames.current <= self.frames.end
        &&& forall|p: usize|
            self.live(p) ==> (#[trigger] self.task(p)).pid == p && self.task(p).vm
                < self.spaces.len() && self.task(p).tgid <= p && self.task(p).pgid <= p
                && self.task(p).blocked.wf()
        &&& forall|p: int, j: int|
            0 <= p < self.children.len() && 0 <= j < self.children[p].len() ==> self.live(
                #[trigger] self.children[p][j],
            ) && self.task(self.children[p][j]).parent == Some(p as usize)
        &&& forall|p: int|
            0 <= p < self.children.len() ==> (#[trigger] self.children[p]).no_duplicates()
        &&& self.current is Some ==> self.live(self.current.unwrap())
            && self.cur().task_status is Running
        &&& forall|j: int|
            0 <= j < self.ready.len() ==> self.live(#[trigger] self.ready[j]) && self.task(
                self.ready[j],
            ).task_status is Ready
        &&& self.ready.no_duplicates()
        &&& forall|j: int| 0 <= j < self.timers.len() ==> (#[trigger] self.timers[j]).expire.normal()
    }

    /// The kernel right after it was made: the first task, ready to run in
    /// an empty address space, and nothing else.
    pub open spec fn boot() -> Self {
        KernelView {
            tasks: seq![None, Some(TaskControlBlock::spec_new(INITPROC_PID, 0))],
            children: seq![Seq::empty(), Seq::empty()],
            current: None,
            ready: seq![INITPROC_PID],
            timers: Seq::empty(),
            spaces: seq![MemorySetView::empty()],
            futexes: seq![Seq::empty()],
            ticks: 0,
            pm1_cnt: Pm1Cnt { bits: 0 },
            frames: FrameAllocatorView {
                current: FRAME_POOL_START,
                end: FRAME_POOL_END,
                recycled: Seq::empty(),
            },
            sigactions: Seq::empty(),
        }
    }

    /// The kernel after the processor, if it is free, took the first task
    /// of the ready queue.
    pub open spec fn schedule(self) -> Self {
        if self.current is None && self.ready.len() > 0 {
            let p = self.ready[0];
            KernelView {
                tasks: self.tasks.update(
                    p as int,
                    Some(TaskControlBlock { task_status: TaskStatus::Running, ..self.task(p) }),
                ),
                current: Some(p),
                ready: self.ready.subrange(1, self.ready.len() as int),
                ..self
            }
        } else {
            self
        }
    }

    /// The kernel after the task `p`, if it is blocked, was made ready and
    /// put at the end of the ready queue.
    pub open spec fn wake(self, p: usize) -> Self {
        if self.live(p) && self.task(p).task_status is Interruptible {
            KernelView {
                tasks: self.tasks.update(
                    p as int,
                    Some(TaskControlBlock { task_status: TaskStatus::Ready, ..self.task(p) }),
                ),
                ready: self.ready.push(p),
                ..self
            }
        } else {
            self
        }
    }

    /// The kernel after the signals `sig` became pending for the task `p`,
    /// which is woken if it then has a pending signal that it does not
    /// mask, or one that it waits for.
    pub open spec fn add_signal(self, p: usize, sig: Signals) -> Self {
        let t = TaskControlBlock {
            sigpending: Signals { bits: self.task(p).sigpending.bits | sig.bits },
            ..self.task(p)
        };
        if t.spec_signal_wakes() {
            self.with_task(p, t).wake(p)
        } else {
            self.with_task(p, t)
        }
    }

    /// The kernel after the task that runs was blocked in the system call
    /// `why` and the processor took the next ready task.
    pub open spec fn block_current(self, why: Blocked) -> Self {
        let c = self.current.unwrap();
        KernelView {
            tasks: self.tasks.update(
                c as int,
                Some(
                    TaskControlBlock {
                        task_status: TaskStatus::Interruptible,
                        blocked: why,
                        ..self.task(c)
                    },
                ),
            ),
            current: None,
            ..self
        }.schedule()
    }

    /// The kernel after the task that runs went to the end of the ready
    /// queue and the processor took the next ready task.
    pub open spec fn suspend_current(self) -> Self {
        let c = self.current.unwrap();
        KernelView {
            tasks: self.tasks.update(
                c as int,
                Some(TaskControlBlock { task_status: TaskStatus::Ready, ..self.task(c) }),
            ),
            current: None,
            ready: self.ready.push(c),
            ..self
        }.schedule()
    }

    /// The kernel after each of `timers` that has run out at `now` woke
    /// its task, the first timer first.
    pub open spec fn fire(self, timers: Seq<TimerEntry>, now: TimeSpec) -> Self
        decreases timers.len(),
    {
        if timers.len() == 0 {
            self
        } else {
            let k = self.fire(timers.drop_last(), now);
            if timers.last().expire.nanos() <= now.nanos() {
                k.wake(timers.last().pid)
            } else {
                k
            }
        }
    }

    /// The kernel after the clock moved to `ticks`: the timers that have
    /// run out woke their tasks and are gone.
    pub open spec fn set_time(self, ticks: usize) -> Self {
        let now = TimeSpec::spec_from_ticks(ticks);
        KernelView {
            ticks,
            timers: timers_pending(self.timers, now),
            ..self.fire(self.timers, now)
        }
    }
}

/// The kernel: every task, what waits and what runs.
pub struct Kernel {
    pub tasks: Vec<Option<TaskControlBlock>>,
    pub children: Vec<Vec<usize>>,
    pub current: Option<usize>,
    pub ready_queue: Vec<usize>,
    pub timers: Vec<TimerEntry>,
    pub spaces: Vec<MemorySet>,
    pub futexes: Vec<Futex>,
    pub ticks: usize,
    pub pm1_cnt: Pm1Cnt,
    pub frames: StackFrameAllocator,
    pub sigactions: Vec<SigActionEntry>,
}

impl View for Kernel {
    type V = KernelView;

    open spec fn view(&self) -> KernelView {
        KernelView {
            tasks: self.tasks@,
            children: Seq::new(self.children@.len(), |i: int| self.children@[i]@),
            current: self.current,
            ready: self.ready_queue@,
            timers: self.timers@,
            spaces: Seq::new(self.spaces@.len(), |i: int| self.spaces@[i]@),
            futexes: Seq::new(self.futexes@.len(), |i: int| self.futexes@[i].waiters@),
            ticks: self.ticks,
            pm1_cnt: self.pm1_cnt,
            frames: self.frames@,
            sigactions: self.sigactions@,
        }
    }
}

/// Two kernels with the same tasks, children and queues, and as many
/// address spaces, are well formed together where the pool of frames of
/// the second is in order.
pub proof fn lemma_same_tables_wf(k: KernelView, n: KernelView)
    requires
        k.wf(),
        n.tasks == k.tasks,
        n.children == k.children,
        n.current == k.current,
        n.ready == k.ready,
        n.timers == k.timers,
        n.spaces.len() == k.spaces.len(),
        n.futexes.len() == k.futexes.len(),
        n.frames.current <= n.frames.end,
    ensures
        n.wf(),
{
    assert forall|q: usize| n.live(q) implies (#[trigger] n.task(q)).pid == q && n.task(q).vm
        < n.spaces.len() && n.task(q).tgid <= q && n.task(q).pgid <= q && n.task(q).blocked.wf() by {
        assert(k.live(q));
        assert(k.task(q).pid == q);
    }
    assert forall|q: int, j: int|
        0 <= q < n.children.len() && 0 <= j < n.children[q].len() implies n.live(
        #[trigger] n.children[q][j],
    ) && n.task(n.children[q][j]).parent == Some(q as usize) by {
        assert(k.live(k.children[q][j]));
    }
    assert forall|j: int| 0 <= j < n.ready.len() implies n.live(#[trigger] n.ready[j]) && n.task(
        n.ready[j],
    ).task_status is Ready by {
        assert(k.live(k.ready[j]));
    }
    if n.current is Some {
        assert(k.live(k.current.unwrap()));
    }
}

/// Waking a task keeps the kernel well formed.
pub proof fn lemma_wake_wf(k: KernelView, p: usize)
    requires
        k.wf(),
    ensures
        k.wake(p).wf(),
{
    let n = k.wake(p);
    if k.live(p) && k.task(p).task_status is Interruptible {
        assert forall|q: usize| n.live(q) implies (#[trigger] n.task(q)).pid == q && n.task(q).vm
            < n.spaces.len() && n.task(q).tgid <= q && n.task(q).pgid <= q && n.task(q).blocked.wf() by {
            assert(k.live(q));
            assert(k.task(q).pid == q);
        }
        assert forall|q: int, j: int|
            0 <= q < n.children.len() && 0 <= j < n.children[q].len() implies n.live(
            #[trigger] n.children[q][j],
        ) && n.task(n.children[q][j]).parent == Some(q as usize) by {
            assert(k.live(k.children[q][j]));
        }
        assert forall|j: int| 0 <= j < n.ready.len() implies n.live(#[trigger] n.ready[j])
            && n.task(n.ready[j]).task_status is Ready by {
            if j < k.ready.len() {
                assert(k.live(k.ready[j]));
            }
        }
        assert(n.ready.no_duplicates()) by {
            assert forall|i: int, j: int|
                0 <= i < n.ready.len() && 0 <= j < n.ready.len() && i != j implies n.ready[i]
                != n.ready[j] by {
                if i < k.ready.len() {
                    assert(k.live(k.ready[i]));
                }
                if j < k.ready.len() {
                    assert(k.live(k.ready[j]));
                }
            }
        }
        if n.current is Some {
            assert(k.live(k.current.unwrap()));
        }
    }
}

/// A change to one task that keeps its number, its address space, its
/// parent and its status keeps the kernel well formed.
pub proof fn lemma_with_task_wf(k: KernelView, p: usize, t: TaskControlBlock)
    requires
        k.wf(),
        k.live(p),
        t.pid == p,
        t.vm == k.task(p).vm,
        t.parent == k.task(p).parent,
        t.task_status == k.task(p).task_status,
        t.tgid <= p,
        t.pgid <= p,
        t.blocked.wf(),
    ensures
        k.with_task(p, t).wf(),
{
    let n = k.with_task(p, t);
    assert forall|q: usize| n.live(q) implies (#[trigger] n.task(q)).pid == q && n.task(q).vm
        < n.spaces.len() && n.task(q).tgid <= q && n.task(q).pgid <= q && n.task(q).blocked.wf() by {
        assert(k.live(q));
        assert(k.task(q).pid == q);
    }
    assert forall|q: int, j: int|
        0 <= q < n.children.len() && 0 <= j < n.children[q].len() implies n.live(
        #[trigger] n.children[q][j],
    ) && n.task(n.children[q][j]).parent == Some(q as usize) by {
        assert(k.live(k.children[q][j]));
    }
    assert forall|j: int| 0 <= j < n.ready.len() implies n.live(#[trigger] n.ready[j]) && n.task(
        n.ready[j],
    ).task_status is Ready by {
        assert(k.live(k.ready[j]));
    }
    if n.current is Some {
        assert(k.live(k.current.unwrap()));
    }
}

/// The processor taking the next ready task keeps the kernel well formed.
pub proof fn lemma_schedule_wf(k: KernelView)
    requires
        k.wf(),
    ensures
        k.schedule().wf(),
{
    let n = k.schedule();
    if k.current is None && k.ready.len() > 0 {
        let p = k.ready[0];
        assert(k.live(p));
        assert forall|q: usize| n.live(q) implies (#[trigger] n.task(q)).pid == q && n.task(q).vm
            < n.spaces.len() && n.task(q).tgid <= q && n.task(q).pgid <= q && n.task(q).blocked.wf() by {
            assert(k.live(q));
            assert(k.task(q).pid == q);
        }
        assert forall|q: int, j: int|
            0 <= q < n.children.len() && 0 <= j < n.children[q].len() implies n.live(
            #[trigger] n.children[q][j],
        ) && n.task(n.children[q][j]).parent == Some(q as usize) by {
            assert(k.live(k.children[q][j]));
        }
        assert forall|j: int| 0 <= j < n.ready.len() implies n.live(#[trigger] n.ready[j])
            && n.task(n.ready[j]).task_status is Ready by {
            assert(n.ready[j] == k.ready[j + 1]);
            assert(k.live(k.ready[j + 1]));
        }
        assert forall|i: int, j: int|
            0 <= i < n.ready.len() && 0 <= j < n.ready.len() && i != j implies n.ready[i]
            != n.ready[j] by {
            assert(n.ready[i] == k.ready[i + 1]);
            assert(n.ready[j] == k.ready[j + 1]);
        }
    }
}

/// Blocking the task that runs keeps the kernel well formed.
pub proof fn lemma_block_current_wf(k: KernelView, why: Blocked)
    requires
        k.wf(),
        k.current is Some,
        why.wf(),
    ensures
        k.block_current(why).wf(),
{
    let c = k.current.unwrap();
    let m = KernelView {
        tasks: k.tasks.update(
            c as int,
            Some(
                TaskControlBlock {
                    task_status: TaskStatus::Interruptible,
                    blocked: why,
                    ..k.task(c)
                },
            ),
        ),
        current: None,
        ..k
    };
    assert(m.wf()) by {
        assert forall|q: usize| m.live(q) implies (#[trigger] m.task(q)).pid == q && m.task(q).vm
            < m.spaces.len() && m.task(q).tgid <= q && m.task(q).pgid <= q && m.task(q).blocked.wf() by {
            assert(k.live(q));
            assert(k.task(q).pid == q);
        }
        assert forall|q: int, j: int|
            0 <= q < m.children.len() && 0 <= j < m.children[q].len() implies m.live(
            #[trigger] m.children[q][j],
        ) && m.task(m.children[q][j]).parent == Some(q as usize) by {
            assert(k.live(k.children[q][j]));
        }
        assert forall|j: int| 0 <= j < m.ready.len() implies m.live(#[trigger] m.ready[j])
            && m.task(m.ready[j]).task_status is Ready by {
            assert(k.live(k.ready[j]));
        }
    }
    lemma_schedule_wf(m);
}

/// The task that runs going to the end of the ready queue keeps the kernel
/// well formed.
pub proof fn lemma_suspend_current_wf(k: KernelView)
    requires
        k.wf(),
        k.current is Some,
    ensures
        k.suspend_current().wf(),
{
    let c = k.current.unwrap();
    let m = KernelView {
        tasks: k.tasks.update(
            c as int,
            Some(TaskControlBlock { task_status: TaskStatus::Ready, ..k.task(c) }),
        ),
        current: None,
        ready: k.ready.push(c),
        ..k
    };
    assert(m.wf()) by {
        assert forall|q: usize| m.live(q) implies (#[trigger] m.task(q)).pid == q && m.task(q).vm
            < m.spaces.len() && m.task(q).tgid <= q && m.task(q).pgid <= q && m.task(q).blocked.wf() by {
            assert(k.live(q));
            assert(k.task(q).pid == q);
        }
        assert forall|q: int, j: int|
            0 <= q < m.children.len() && 0 <= j < m.children[q].len() implies m.live(
            #[trigger] m.children[q][j],
        ) && m.task(m.children[q][j]).parent == Some(q as usize) by {
            assert(k.live(k.children[q][j]));
        }
        assert forall|j: int| 0 <= j < m.ready.len() implies m.live(#[trigger] m.ready[j])
            && m.task(m.ready[j]).task_status is Ready by {
            if j < k.ready.len() {
                assert(k.live(k.ready[j]));
            }
        }
        assert forall|i: int, j: int|
            0 <= i < m.ready.len() && 0 <= j < m.ready.len() && i != j implies m.ready[i]
            != m.ready[j] by {
            if i < k.ready.len() {
                assert(k.live(k.ready[i]));
            }
            if j < k.ready.len() {
                assert(k.live(k.ready[j]));
            }
        }
    }
    lemma_schedule_wf(m);
}

/// Timers that run out keep the kernel well formed, and change neither the
/// timers nor the clock.
pub proof fn lemma_fire_wf(k: KernelView, timers: Seq<TimerEntry>, now: TimeSpec)
    requires
        k.wf(),
    ensures
        k.fire(timers, now).wf(),
        k.fire(timers, now).timers == k.timers,
        k.fire(timers, now).ticks == k.ticks,
    decreases timers.len(),
{
    if timers.len() > 0 {
        lemma_fire_wf(k, timers.drop_last(), now);
        lemma_wake_wf(k.fire(timers.drop_last(), now), timers.last().pid);
    }
}

/// The timers that are left at `now` are timers that were there.
pub proof fn lemma_timers_pending(timers: Seq<TimerEntry>, now: TimeSpec)
    ensures
        forall|j: int|
            0 <= j < timers_pending(timers, now).len() ==> timers.contains(
                #[trigger] timers_pending(timers, now)[j],
            ),
    decreases timers.len(),
{
    if timers.len() > 0 {
        let d = timers.drop_last();
        lemma_timers_pending(d, now);
        let w = timers_pending(timers, now);
        let wd = timers_pending(d, now);
        assert forall|j: int| 0 <= j < w.len() implies timers.contains(#[trigger] w[j]) by {
            if j < wd.len() {
                assert(d.contains(wd[j]));
                let i = choose|i: int| 0 <= i < d.len() && d[i] == wd[j];
                assert(timers[i] == wd[j]);
            } else {
                assert(timers[timers.len() - 1] == w[j]);
            }
        }
    }
}

impl Kernel {
    /// The kernel is well formed as a value, and so is each of its address
    /// spaces.
    pub open spec fn wf(&self) -> bool {
        &&& self@.wf()
        &&& forall|i: int| 0 <= i < self.spaces@.len() ==> (#[trigger] self.spaces@[i]).wf()
    }

    /// A kernel with the first task, ready to run in an empty address
    /// space.
    pub fn new() -> (k: Kernel)
        ensures
            k.wf(),
            k@ == KernelView::boot(),
    {
        let mut tasks: Vec<Option<TaskControlBlock>> = Vec::new();
        tasks.push(None);
        tasks.push(Some(TaskControlBlock::new(INITPROC_PID, 0)));
        let mut children: Vec<Vec<usize>> = Vec::new();
        children.push(Vec::new());
        children.push(Vec::new());
        let mut ready_queue: Vec<usize> = Vec::new();
        ready_queue.push(INITPROC_PID);
        let mut spaces: Vec<MemorySet> = Vec::new();
        spaces.push(MemorySet::new_bare());
        let mut futexes: Vec<Futex> = Vec::new();
        futexes.push(Futex { waiters: Vec::new() });
        let k = Kernel {
            tasks,
            children,
            current: None,
            ready_queue,
            timers: Vec::new(),
            spaces,
            futexes,
            ticks: 0,
            pm1_cnt: Pm1Cnt { bits: 0 },
            frames: StackFrameAllocator::new(
                PhysPageNum(FRAME_POOL_START),
                PhysPageNum(FRAME_POOL_END),
            ),
            sigactions: Vec::new(),
        };
        proof {
            let b = KernelView::boot();
            assert(k@.tasks =~= b.tasks);
            assert(k@.children =~= b.children);
            assert(k@.ready =~= b.ready);
            assert(k@.timers =~= b.timers);
            assert(k@.spaces =~= b.spaces);
            assert(k@.futexes =~= b.futexes);
            assert(k@.sigactions =~= b.sigactions);
        }
        k
    }

    /// The task with number `p`.
    pub fn task(&self, p: usize) -> (t: &TaskControlBlock)
        requires
            self@.live(p),
        ensures
            *t == self@.task(p),
    {
        self.tasks[p].as_ref().unwrap()
    }

    /// Whether there is a task with number `p`.
    pub fn is_live(&self, p: usize) -> (r: bool)
        ensures
            r == self@.live(p),
    {
        p < self.tasks.len() && self.tasks[p].is_some()
    }

    /// The task that runs.
    pub fn current_task(&self) -> (t: &TaskControlBlock)
        requires
            self.wf(),
            self@.current is Some,
        ensures
            *t == self@.cur(),
            t.pid == self@.current.unwrap(),
    {
        self.task(self.current.unwrap())
    }

    /// Puts `t` in place of the task with number `p`.
    pub fn set_task(&mut self, p: usize, t: TaskControlBlock)
        requires
            old(self)@.live(p),
        ensures
            final(self)@ == old(self)@.with_task(p, t),
            final(self).spaces == old(self).spaces,
    {
        self.tasks[p] = Some(t);
    }

    /// The task with number `pid`, if there is one.
    pub fn find_task_by_pid(&self, pid: usize) -> (r: Option<usize>)
        ensures
            r == if self@.live(pid) {
                Some(pid)
            } else {
                None
            },
    {
        if self.is_live(pid) {
            Some(pid)
        } else {
            None
        }
    }

    /// The task with the lowest number in the thread group `tgid`, if the
    /// group has a task.
    pub fn find_task_by_tgid(&self, tgid: usize) -> (r: Option<usize>)
        requires
            self.wf(),
        ensures
            r == group_member(self@.tasks, tgid),
            r is Some ==> self@.live(r.unwrap()),
    {
        let mut i: usize = 0;
        while i < self.tasks.len()
            invariant
                i <= self.tasks@.len() <= usize::MAX,
                forall|q: int|
                    0 <= q < i ==> !((#[trigger] self.tasks@[q]) is Some
                        && self.tasks@[q].unwrap().tgid == tgid),
            decreases self.tasks@.len() - i,
        {
            if self.tasks[i].is_some() && self.tasks[i].as_ref().unwrap().tgid == tgid {
                proof {
                    lemma_group_member(self.tasks@, tgid);
                }
                return Some(i);
            }
            i += 1;
        }
        proof {
            lemma_group_member(self.tasks@, tgid);
        }
        None
    }

    /// The number of tasks.
    pub fn procs_count(&self) -> (n: usize)
        ensures
            n == self@.tasks.filter(|t: Option<TaskControlBlock>| t is Some).len(),
    {
        let mut n: usize = 0;
        let mut i: usize = 0;
        while i < self.tasks.len()
            invariant
                i <= self.tasks@.len(),
                n <= i,
                n == self.tasks@.take(i as int).filter(|t: Option<TaskControlBlock>| t is Some).len(),
            decreases self.tasks@.len() - i,
        {
            proof {
                reveal(Seq::filter);
                assert(self.tasks@.take(i + 1).drop_last() =~= self.tasks@.take(i as int));
            }
            if self.tasks[i].is_some() {
                n += 1;
            }
            i += 1;
        }
        proof {
            assert(self.tasks@.take(i as int) =~= self.tasks@);
        }
        n
    }

    /// Gives the processor, if it is free, to the first task of the ready
    /// queue.
    pub fn schedule(&mut self)
        requires
            old(self).wf(),
        ensures
            final(self).wf(),
            final(self)@ == old(self)@.schedule(),
            final(self).spaces == old(self).spaces,
    {
        if self.current.is_none() && self.ready_queue.len() > 0 {
            let p = self.ready_queue.remove(0);
            proof {
                assert(old(self)@.live(old(self)@.ready[0]));
            }
            let mut t = *self.task(p);
            t.task_status = TaskStatus::Running;
            self.set_task(p, t);
            self.current = Some(p);
            proof {
                assert(self@.ready =~= old(self)@.schedule().ready);
                lemma_schedule_wf(old(self)@);
            }
        }
    }

    /// Makes the task `p` ready if it is blocked, and puts it at the end of
    /// the ready queue.
    pub fn wake_interruptible(&mut self, p: usize)
        requires
            old(self).wf(),
        ensures
            final(self).wf(),
            final(self)@ == old(self)@.wake(p),
            final(self).spaces == old(self).spaces,
    {
        if self.is_live(p) {
            let mut t = *self.task(p);
            match t.task_status {
                TaskStatus::Interruptible => {
                    t.task_status = TaskStatus::Ready;
                    self.set_task(p, t);
                    self.ready_queue.push(p);
                    proof {
                        lemma_wake_wf(old(self)@, p);
                    }
                },
                _ => {},
            }
        }
    }

    /// Makes the signals `sig` pending for the task `p`, and wakes it if it
    /// then has a pending signal that it does not mask, or one that it
    /// waits for.
    pub fn add_signal(&mut self, p: usize, sig: Signals)
        requires
            old(self).wf(),
            old(self)@.live(p),
        ensures
            final(self).wf(),
            final(self)@ == old(self)@.add_signal(p, sig),
            final(self).spaces == old(self).spaces,
    {
        let mut t = *self.task(p);
        t.sigpending = t.sigpending.union(sig);
        self.set_task(p, t);
        proof {
            lemma_with_task_wf(old(self)@, p, t);
        }
        if t.signal_wakes() {
            self.wake_interruptible(p);
        }
    }

    /// Blocks the task that runs in the system call `why` and gives the
    /// processor to the next ready task.
    pub fn block_current_and_run_next(&mut self, why: Blocked)
        requires
            old(self).wf(),
            old(self)@.current is Some,
            why.wf(),
        ensures
            final(self).wf(),
            final(self)@ == old(self)@.block_current(why),
            final(self).spaces == old(self).spaces,
    {
        let c = self.current.unwrap();
        let mut t = *self.task(c);
        t.task_status = TaskStatus::Interruptible;
        t.blocked = why;
        self.set_task(c, t);
        self.current = None;
        proof {
            lemma_block_current_wf(old(self)@, why);
        }
        self.schedule_unchecked();
    }

    /// Puts the task that runs at the end of the ready queue and gives the
    /// processor to the next ready task.
    pub fn suspend_current_and_run_next(&mut self)
        requires
            old(self).wf(),
            old(self)@.current is Some,
        ensures
            final(self).wf(),
            final(self)@ == old(self)@.suspend_current(),
            final(self).spaces == old(self).spaces,
    {
        let c = self.current.unwrap();
        let mut t = *self.task(c);
        t.task_status = TaskStatus::Ready;
        self.set_task(c, t);
        self.current = None;
        self.ready_queue.push(c);
        proof {
            lemma_suspend_current_wf(old(self)@);
        }
        self.schedule_unchecked();
    }

    /// As `schedule`, on a kernel whose ready queue holds tasks that
    /// exist.
    fn schedule_unchecked(&mut self)
        requires
            old(self)@.ready.len() > 0 ==> old(self)@.live(old(self)@.ready[0]),
        ensures
            final(self)@ == old(self)@.schedule(),
            final(self).spaces == old(self).spaces,
    {
        if self.current.is_none() && self.ready_queue.len() > 0 {
            let p = self.ready_queue.remove(0);
            let mut t = *self.task(p);
            t.task_status = TaskStatus::Running;
            self.set_task(p, t);
            self.current = Some(p);
            proof {
                assert(self@.ready =~= old(self)@.schedule().ready);
            }
        }
    }

    /// The time that the clock shows.
    pub fn now(&self) -> (t: TimeSpec)
        ensures
            t == self@.now(),
            t.normal(),
    {
        TimeSpec::from_ticks(self.ticks)
    }

    /// Asks for the task `pid` to be woken when the clock reaches
    /// `expire`.
    pub fn wait_with_timeout(&mut self, pid: usize, expire: TimeSpec)
        requires
            old(self).wf(),
            expire.normal(),
        ensures
            final(self).wf(),
            final(self)@ == (KernelView {
                timers: old(self)@.timers.push(TimerEntry { expire, pid }),
                ..old(self)@
            }),
            final(self).spaces == old(self).spaces,
    {
        self.timers.push(TimerEntry { expire, pid });
        proof {
            let k = old(self)@;
            let n = self@;
            assert forall|q: usize| n.live(q) implies (#[trigger] n.task(q)).pid == q && n.task(
                q,
            ).vm < n.spaces.len() && n.task(q).tgid <= q && n.task(q).pgid <= q && n.task(q).blocked.wf() by {
                assert(k.live(q));
                assert(k.task(q).pid == q);
            }
            assert forall|q: int, j: int|
                0 <= q < n.children.len() && 0 <= j < n.children[q].len() implies n.live(
                #[trigger] n.children[q][j],
            ) && n.task(n.children[q][j]).parent == Some(q as usize) by {
                assert(k.live(k.children[q][j]));
            }
            assert forall|j: int| 0 <= j < n.ready.len() implies n.live(#[trigger] n.ready[j])
                && n.task(n.ready[j]).task_status is Ready by {
                assert(k.live(k.ready[j]));
            }
        }
    }

    /// Moves the clock to `ticks`: each timer that has run out wakes its
    /// task, the first timer first, and is dropped.
    pub fn set_time(&mut self, ticks: usize)
        requires
            old(self).wf(),
        ensures
            final(self).wf(),
            final(self)@ == old(self)@.set_time(ticks),
            final(self).spaces == old(self).spaces,
    {
        let now = TimeSpec::from_ticks(ticks);
        let mut left: Vec<TimerEntry> = Vec::new();
        let mut i: usize = 0;
        let ghost start = old(self)@;
        while i < self.timers.len()
            invariant
                i <= self.timers@.len(),
                now.normal(),
                self.wf(),
                start.wf(),
                self.timers@ == start.timers,
                self.spaces == old(self).spaces,
                self@ == start.fire(start.timers.take(i as int), now),
                left@ == timers_pending(start.timers.take(i as int), now),
            decreases self.timers@.len() - i,
        {
            let e = self.timers[i];
            proof {
                assert(start.timers.take(i + 1).drop_last() =~= start.timers.take(i as int));
                lemma_fire_wf(start, start.timers.take(i + 1), now);
            }
            if e.expire.le(&now) {
                self.wake_interruptible(e.pid);
            } else {
                left.push(e);
            }
            i += 1;
        }
        proof {
            assert(start.timers.take(i as int) =~= start.timers);
            lemma_timers_pending(start.timers, now);
        }
        self.timers = left;
        self.ticks = ticks;
        proof {
            let k = start.fire(start.timers, now);
            let n = self@;
            assert forall|q: usize| n.live(q) implies (#[trigger] n.task(q)).pid == q && n.task(
                q,
            ).vm < n.spaces.len() && n.task(q).tgid <= q && n.task(q).pgid <= q && n.task(q).blocked.wf() by {
                assert(k.live(q));
                assert(k.task(q).pid == q);
            }
            assert forall|q: int, j: int|
                0 <= q < n.children.len() && 0 <= j < n.children[q].len() implies n.live(
                #[trigger] n.children[q][j],
            ) && n.task(n.children[q][j]).parent == Some(q as usize) by {
                assert(k.live(k.children[q][j]));
            }
            assert forall|j: int| 0 <= j < n.ready.len() implies n.live(#[trigger] n.ready[j])
                && n.task(n.ready[j]).task_status is Ready by {
                assert(k.live(k.ready[j]));
            }
            assert forall|j: int| 0 <= j < n.timers.len() implies (
            #[trigger] n.timers[j]).expire.normal() by {
                assert(start.timers.contains(n.timers[j]));
            }
        }
    }
}

} // verus!
