//! The end of a task: it clears the word it asked to have cleared, becomes
//! a zombie, leaves every queue, hands its children to the first task and
//! tells its parent.

use vstd::bytes::spec_u32_to_le_bytes;
use vstd::prelude::*;

use crate::config::INITPROC_PID;
use crate::task::futex::lemma_wake_scan;
use crate::task::kernel::{
    lemma_same_tables_wf, lemma_wake_wf, lemma_with_task_wf, lemma_without, timers_without,
    waiters_without, without, FutexWaiter, Kernel, KernelView, TimerEntry,
};
use crate::task::signal::Signals;
use crate::task::tcb::{Blocked, TaskControlBlock, TaskStatus};

verus! {

/// The timers that are left without those of a task are timers that were
/// there.
pub proof fn lemma_timers_without(timers: Seq<TimerEntry>, p: usize)
    ensures
        forall|j: int|
            0 <= j < timers_without(timers, p).len() ==> timers.contains(
                #[trigger] timers_without(timers, p)[j],
            ),
    decreases timers.len(),
{
    if timers.len() > 0 {
        let d = timers.drop_last();
        lemma_timers_without(d, p);
        let w = timers_without(timers, p);
        let wd = timers_without(d, p);
        assert forall|j: int| 0 <= j < w.len() implies timers.contains(#[trigger] w[j]) by {
            if j < wd.len() {
                assert(d.contains(wd[j]));
                let i = choose|i: int| 0 <= i < d.len() && d[i] == wd[j];
                assert(timers[i] == wd[j]);
            } else {
                assert(timers[timers.len() - 1] == w[j]);
            }
        }
    }
}

impl KernelView {
    /// The kernel after the task `p` became a zombie with the exit code
    /// `code` and left the processor, the ready queue, the timers and the
    /// futex queues of its address space.
    pub open spec fn retire(self, p: usize, code: u32) -> Self {
        let vm = self.task(p).vm as int;
        KernelView {
            tasks: self.tasks.update(
                p as int,
                Some(
                    TaskControlBlock {
                        task_status: TaskStatus::Zombie,
                        exit_code: code,
                        blocked: Blocked::Nothing,
                        ..self.task(p)
                    },
                ),
            ),
            current: if self.current == Some(p) {
                None
            } else {
                self.current
            },
            ready: without(self.ready, p),
            timers: timers_without(self.timers, p),
            futexes: self.futexes.update(vm, waiters_without(self.futexes[vm], p)),
            ..self
        }
    }

    /// The kernel after the children of the task `p` became children of
    /// the first task, behind the children it had. The children of the
    /// first task itself stay where they are.
    pub open spec fn reparent(self, p: usize) -> Self {
        if p == INITPROC_PID {
            self
        } else {
            KernelView {
                tasks: Seq::new(
                    self.tasks.len(),
                    |i: int|
                        if self.children[p as int].contains(i as usize) && self.tasks[i] is Some {
                            Some(
                                TaskControlBlock {
                                    parent: Some(INITPROC_PID),
                                    ..self.tasks[i].unwrap()
                                },
                            )
                        } else {
                            self.tasks[i]
                        },
                ),
                children: self.children.update(
                    INITPROC_PID as int,
                    self.children[INITPROC_PID as int] + self.children[p as int],
                ).update(p as int, Seq::empty()),
                ..self
            }
        }
    }

    /// The parent of the task `p`, where `p` names one that exists.
    pub open spec fn parent_of(self, p: usize) -> Option<usize> {
        match self.task(p).parent {
            Some(q) => if self.live(q) {
                Some(q)
            } else {
                None
            },
            None => None,
        }
    }

    /// The kernel after the parent of the task `p`, if it has one, got the
    /// exit signal of `p` and was woken.
    pub open spec fn notify_parent(self, p: usize) -> Self {
        match self.parent_of(p) {
            Some(q) => self.with_task(
                q,
                TaskControlBlock {
                    sigpending: Signals {
                        bits: self.task(q).sigpending.bits | self.task(p).exit_signal.bits,
                    },
                    ..self.task(q)
                },
            ).wake(q),
            None => self,
        }
    }

    /// The kernel after the word was cleared that the task `p` asked to
    /// have cleared when it exits, and the first waiter on that word was
    /// woken. Nothing happens for a task that asked for no such word, or
    /// for one that user code may not write.
    pub open spec fn clear_tid(self, p: usize) -> Self {
        let t = self.task(p);
        if t.clear_child_tid != 0 && self.spaces[t.vm as int].range_accessible(
            t.clear_child_tid,
            4,
            true,
        ) {
            self.write_user(t.vm, t.clear_child_tid, spec_u32_to_le_bytes(0)).futex_wake(
                t.vm,
                t.clear_child_tid,
                1,
            ).1
        } else {
            self
        }
    }

    /// The kernel after the task `p` exited with the exit code `code`.
    pub open spec fn exit_task(self, p: usize, code: u32) -> Self {
        self.clear_tid(p).retire(p, code).reparent(p).notify_parent(p)
    }

    /// The kernel after the tasks with a number below `n` that belong to
    /// the thread group `tgid`, are not `except` and have not exited yet
    /// exited with the exit code `code`, the lowest number first.
    pub open spec fn exit_others(self, tgid: usize, except: usize, code: u32, n: nat) -> Self
        decreases n,
    {
        if n == 0 {
            self
        } else {
            let k = self.exit_others(tgid, except, code, (n - 1) as nat);
            let q = (n - 1) as usize;
            if k.live(q) && q != except && k.task(q).tgid == tgid && !(k.task(q).task_status
                is Zombie) {
                k.exit_task(q, code)
            } else {
                k
            }
        }
    }
}

/// A task that becomes a zombie keeps the kernel well formed.
pub proof fn lemma_retire_wf(k: KernelView, p: usize, code: u32)
    requires
        k.wf(),
        k.live(p),
    ensures
        k.retire(p, code).wf(),
        k.retire(p, code).tasks.len() == k.tasks.len(),
        k.retire(p, code).live(p),
{
    let n = k.retire(p, code);
    lemma_without(k.ready, p);
    lemma_timers_without(k.timers, p);
    assert forall|q: usize| n.live(q) implies (#[trigger] n.task(q)).pid == q && n.task(q).vm
        < n.spaces.len() && n.task(q).tgid <= q && n.task(q).pgid <= q && n.task(q).blocked.wf() by {
        assert(k.live(q));
        assert(k.task(q).pid == q);
    }
    assert forall|q: int, j: int|
        0 <= q < n.children.len() && 0 <= j < n.children[q].len() implies n.live(
        #[trigger] n.children[q][j],
    ) && n.task(n.children[q][j]).parent == Some(q as usize) by {
        assert(k.live(k.children[q][j]));
    }
    assert forall|j: int| 0 <= j < n.ready.len() implies n.live(#[trigger] n.ready[j]) && n.task(
        n.ready[j],
    ).task_status is Ready by {
        assert(n.ready.contains(n.ready[j]));
        assert(k.ready.contains(n.ready[j]));
        let i = choose|i: int| 0 <= i < k.ready.len() && k.ready[i] == n.ready[j];
        assert(k.live(k.ready[i]));
    }
    assert forall|j: int| 0 <= j < n.timers.len() implies (#[trigger] n.timers[j]).expire.normal() by {
        assert(k.timers.contains(n.timers[j]));
    }
    if n.current is Some {
        assert(k.live(k.current.unwrap()));
    }
    assert(k.task(p).vm < k.spaces.len());
}

/// Children that go to the first task keep the kernel well formed.
pub proof fn lemma_reparent_wf(k: KernelView, p: usize)
    requires
        k.wf(),
        k.live(p),
    ensures
        k.reparent(p).wf(),
        k.reparent(p).tasks.len() == k.tasks.len(),
        k.reparent(p).live(p),
        k.reparent(p).task(p).exit_signal == k.task(p).exit_signal,
        k.reparent(p).task(p).task_status == k.task(p).task_status,
{
    let n = k.reparent(p);
    if p != INITPROC_PID {
        let kids = k.children[p as int];
        let mine = k.children[INITPROC_PID as int];
        assert forall|q: usize| n.live(q) implies (#[trigger] n.task(q)).pid == q && n.task(q).vm
            < n.spaces.len() && n.task(q).tgid <= q && n.task(q).pgid <= q && n.task(q).blocked.wf() by {
            assert(k.live(q));
            assert(k.task(q).pid == q);
        }
        assert forall|q: int, j: int|
            0 <= q < n.children.len() && 0 <= j < n.children[q].len() implies n.live(
            #[trigger] n.children[q][j],
        ) && n.task(n.children[q][j]).parent == Some(q as usize) by {
            let c = n.children[q][j];
            if q == INITPROC_PID {
                if j < mine.len() {
                    assert(c == mine[j]);
                    assert(k.live(mine[j]));
                    if kids.contains(c) {
                        let i = choose|i: int| 0 <= i < kids.len() && kids[i] == c;
                        assert(k.live(kids[i]));
                    }
                } else {
                    assert(c == kids[j - mine.len()]);
                    assert(k.live(kids[j - mine.len()]));
                    assert(kids.contains(c));
                }
            } else {
                assert(c == k.children[q][j]);
                assert(k.live(k.children[q][j]));
                if kids.contains(c) {
                    let i = choose|i: int| 0 <= i < kids.len() && kids[i] == c;
                    assert(k.live(kids[i]));
                }
            }
        }
        assert forall|q: int| 0 <= q < n.children.len() implies (
        #[trigger] n.children[q]).no_duplicates() by {
            if q == INITPROC_PID {
                let both = mine + kids;
                assert(mine.no_duplicates());
                assert(kids.no_duplicates());
                assert forall|i: int, j: int|
                    0 <= i < both.len() && 0 <= j < both.len() && i != j implies both[i]
                    != both[j] by {
                    if i < mine.len() && j >= mine.len() {
                        assert(k.live(mine[i]));
                        assert(k.live(kids[j - mine.len()]));
                    }
                    if j < mine.len() && i >= mine.len() {
                        assert(k.live(mine[j]));
                        assert(k.live(kids[i - mine.len()]));
                    }
                }
            } else if q != p {
                assert(n.children[q] == k.children[q]);
            }
        }
        assert forall|j: int| 0 <= j < n.ready.len() implies n.live(#[trigger] n.ready[j])
            && n.task(n.ready[j]).task_status is Ready by {
            assert(k.live(k.ready[j]));
        }
        if n.current is Some {
            assert(k.live(k.current.unwrap()));
        }
        if kids.contains(p) {
            let i = choose|i: int| 0 <= i < kids.len() && kids[i] == p;
            assert(k.live(kids[i]));
        }
    }
}

/// Telling the parent keeps the kernel well formed.
pub proof fn lemma_notify_parent_wf(k: KernelView, p: usize)
    requires
        k.wf(),
        k.live(p),
    ensures
        k.notify_parent(p).wf(),
        k.notify_parent(p).tasks.len() == k.tasks.len(),
{
    match k.parent_of(p) {
        Some(q) => {
            let t = TaskControlBlock {
                sigpending: Signals {
                    bits: k.task(q).sigpending.bits | k.task(p).exit_signal.bits,
                },
                ..k.task(q)
            };
            assert(k.task(q).pid == q);
            lemma_with_task_wf(k, q, t);
            lemma_wake_wf(k.with_task(q, t), q);
        },
        None => {},
    }
}

/// Clearing the word of a task that exits keeps the kernel well formed
/// and leaves every task in place.
pub proof fn lemma_clear_tid_wf(k: KernelView, p: usize)
    requires
        k.wf(),
        k.live(p),
    ensures
        k.clear_tid(p).wf(),
        k.clear_tid(p).tasks.len() == k.tasks.len(),
        forall|x: usize| #[trigger] k.clear_tid(p).live(x) == k.live(x),
{
    let t = k.task(p);
    if t.clear_child_tid != 0 && k.spaces[t.vm as int].range_accessible(
        t.clear_child_tid,
        4,
        true,
    ) {
        let a = k.write_user(t.vm, t.clear_child_tid, spec_u32_to_le_bytes(0));
        lemma_same_tables_wf(k, a);
        lemma_wake_scan(a, t.clear_child_tid, 1, a.futexes[t.vm as int]);
        let r = a.wake_scan(t.clear_child_tid, 1, a.futexes[t.vm as int]);
        lemma_same_tables_wf(r.1, k.clear_tid(p));
        assert forall|x: usize| #[trigger] k.clear_tid(p).live(x) == k.live(x) by {
            assert(r.1.live(x) == a.live(x));
        }
    }
}

/// A task that exits keeps the kernel well formed.
pub proof fn lemma_exit_task_wf(k: KernelView, p: usize, code: u32)
    requires
        k.wf(),
        k.live(p),
    ensures
        k.exit_task(p, code).wf(),
        k.exit_task(p, code).tasks.len() == k.tasks.len(),
{
    lemma_clear_tid_wf(k, p);
    let c = k.clear_tid(p);
    assert(c.live(p) == k.live(p));
    lemma_retire_wf(c, p, code);
    lemma_reparent_wf(c.retire(p, code), p);
    lemma_notify_parent_wf(c.retire(p, code).reparent(p), p);
}

/// Tasks of a group that exit keep the kernel well formed.
pub proof fn lemma_exit_others_wf(k: KernelView, tgid: usize, except: usize, code: u32, n: nat)
    requires
        k.wf(),
    ensures
        k.exit_others(tgid, except, code, n).wf(),
        k.exit_others(tgid, except, code, n).tasks.len() == k.tasks.len(),
    decreases n,
{
    if n > 0 {
        lemma_exit_others_wf(k, tgid, except, code, (n - 1) as nat);
        let m = k.exit_others(tgid, except, code, (n - 1) as nat);
        let q = (n - 1) as usize;
        if m.live(q) {
            lemma_exit_task_wf(m, q, code);
        }
    }
}

impl Kernel {
    /// The ready queue without the task `p`.
    fn ready_without(&self, p: usize) -> (r: Vec<usize>)
        ensures
            r@ == without(self.ready_queue@, p),
    {
        let mut kept: Vec<usize> = Vec::new();
        let mut i: usize = 0;
        while i < self.ready_queue.len()
            invariant
                i <= self.ready_queue@.len(),
                kept@ == without(self.ready_queue@.take(i as int), p),
            decreases self.ready_queue@.len() - i,
        {
            proof {
                assert(self.ready_queue@.take(i + 1).drop_last() =~= self.ready_queue@.take(
                    i as int,
                ));
            }
            if self.ready_queue[i] != p {
                kept.push(self.ready_queue[i]);
            }
            i += 1;
        }
        proof {
            assert(self.ready_queue@.take(i as int) =~= self.ready_queue@);
        }
        kept
    }

    /// The timers without those of the task `p`.
    fn timers_left_without(&self, p: usize) -> (r: Vec<TimerEntry>)
        ensures
            r@ == timers_without(self.timers@, p),
    {
        let mut kept: Vec<TimerEntry> = Vec::new();
        let mut i: usize = 0;
        while i < self.timers.len()
            invariant
                i <= self.timers@.len(),
                kept@ == timers_without(self.timers@.take(i as int), p),
            decreases self.timers@.len() - i,
        {
            proof {
                assert(self.timers@.take(i + 1).drop_last() =~= self.timers@.take(i as int));
            }
            if self.timers[i].pid != p {
                kept.push(self.timers[i]);
            }
            i += 1;
        }
        proof {
            assert(self.timers@.take(i as int) =~= self.timers@);
        }
        kept
    }

    /// The futex waiters of the address space `vm` without the task `p`.
    fn waiters_left_without(&self, vm: usize, p: usize) -> (r: Vec<FutexWaiter>)
        requires
            vm < self.futexes@.len(),
        ensures
            r@ == waiters_without(self.futexes@[vm as int].waiters@, p),
    {
        let mut kept: Vec<FutexWaiter> = Vec::new();
        let mut i: usize = 0;
        let ghost all = self.futexes@[vm as int].waiters@;
        while i < self.futexes[vm].waiters.len()
            invariant
                vm < self.futexes@.len(),
                all == self.futexes@[vm as int].waiters@,
                i <= all.len(),
                kept@ == waiters_without(all.take(i as int), p),
            decreases all.len() - i,
        {
            proof {
                assert(all.take(i + 1).drop_last() =~= all.take(i as int));
            }
            if self.futexes[vm].waiters[i].pid != p {
                kept.push(self.futexes[vm].waiters[i]);
            }
            i += 1;
        }
        proof {
            assert(all.take(i as int) =~= all);
        }
        kept
    }

    /// Makes the task `p` a zombie with the exit code `code` and takes it
    /// off the processor, the ready queue, the timers and the futex queues
    /// of its address space.
    fn retire(&mut self, p: usize, code: u32)
        requires
            old(self).wf(),
            old(self)@.live(p),
        ensures
            final(self).wf(),
            final(self)@ == old(self)@.retire(p, code),
            final(self).spaces == old(self).spaces,
    {
        let mut t = *self.task(p);
        let vm = t.vm;
        t.task_status = TaskStatus::Zombie;
        t.exit_code = code;
        t.blocked = Blocked::Nothing;
        let ready = self.ready_without(p);
        let timers = self.timers_left_without(p);
        let waiters = self.waiters_left_without(vm, p);
        self.set_task(p, t);
        self.ready_queue = ready;
        self.timers = timers;
        self.futexes[vm].waiters = waiters;
        match self.current {
            Some(c) => {
                if c == p {
                    self.current = None;
                }
            },
            None => {},
        }
        proof {
            assert(self@.futexes =~= old(self)@.retire(p, code).futexes);
            assert(self@.children =~= old(self)@.children);
            assert(self@.spaces =~= old(self)@.spaces);
            lemma_retire_wf(old(self)@, p, code);
        }
    }

    /// Hands the children of the task `p` to the first task, behind the
    /// children it has.
    fn reparent(&mut self, p: usize)
        requires
            old(self).wf(),
            old(self)@.live(p),
        ensures
            final(self).wf(),
            final(self)@ == old(self)@.reparent(p),
            final(self).spaces == old(self).spaces,
    {
        if p == INITPROC_PID {
            return ;
        }
        let ghost start = old(self)@;
        let ghost kids_seq = start.children[p as int];
        let mut kids: Vec<usize> = Vec::new();
        std::mem::swap(&mut kids, &mut self.children[p]);
        let mut i: usize = 0;
        proof {
            assert(self@.children =~= start.children.update(p as int, Seq::empty()));
        }
        while i < kids.len()
            invariant
                i <= kids@.len(),
                kids@ == kids_seq,
                kids_seq == start.children[p as int],
                start.wf(),
                start.live(p),
                p != INITPROC_PID,
                self.spaces == old(self).spaces,
                self@.current == start.current,
                self@.ready == start.ready,
                self@.timers == start.timers,
                self@.futexes == start.futexes,
                self@.spaces == start.spaces,
                self@.ticks == start.ticks,
                self@.pm1_cnt == start.pm1_cnt,
                self@.frames == start.frames,
                self@.sigactions == start.sigactions,
                self.tasks@.len() == start.tasks.len(),
                self@.children.len() == start.children.len(),
                forall|x: int|
                    0 <= x < start.tasks.len() ==> #[trigger] self.tasks@[x] == if kids_seq.take(
                        i as int,
                    ).contains(x as usize) {
                        Some(
                            TaskControlBlock {
                                parent: Some(INITPROC_PID),
                                ..start.tasks[x].unwrap()
                            },
                        )
                    } else {
                        start.tasks[x]
                    },
                self@.children =~= start.children.update(
                    INITPROC_PID as int,
                    start.children[INITPROC_PID as int] + kids_seq.take(i as int),
                ).update(p as int, Seq::empty()),
            decreases kids@.len() - i,
        {
            let c = kids[i];
            proof {
                assert(start.live(kids_seq[i as int]));
                assert(kids_seq.take(i + 1) =~= kids_seq.take(i as int).push(c));
                assert(!kids_seq.take(i as int).contains(c)) by {
                    if kids_seq.take(i as int).contains(c) {
                        let j = choose|j: int|
                            0 <= j < kids_seq.take(i as int).len() && kids_seq.take(i as int)[j]
                                == c;
                        assert(kids_seq[j] == c && kids_seq[i as int] == c);
                    }
                }
            }
            let mut t = *self.task(c);
            t.parent = Some(INITPROC_PID);
            let ghost before = self.tasks@;
            self.set_task(c, t);
            proof {
                assert(self.children@.len() == self@.children.len());
            }
            let ghost mid = self@;
            self.children[INITPROC_PID].push(c);
            proof {
                assert(self@.children =~= mid.children.update(
                    INITPROC_PID as int,
                    mid.children[INITPROC_PID as int].push(c),
                ));
                assert(self@.futexes =~= mid.futexes);
                assert(self@.spaces =~= mid.spaces);
                assert forall|x: int| 0 <= x < start.tasks.len() implies #[trigger] self.tasks@[x]
                    == if kids_seq.take(i + 1).contains(x as usize) {
                    Some(
                        TaskControlBlock { parent: Some(INITPROC_PID), ..start.tasks[x].unwrap() },
                    )
                } else {
                    start.tasks[x]
                } by {
                    let prev = kids_seq.take(i as int);
                    let next = kids_seq.take(i + 1);
                    if x == c {
                        assert(next[i as int] == c);
                        assert(next.contains(c));
                    } else {
                        if prev.contains(x as usize) {
                            let j = choose|j: int| 0 <= j < prev.len() && prev[j] == x as usize;
                            assert(next[j] == x as usize);
                        }
                        if next.contains(x as usize) {
                            let j = choose|j: int| 0 <= j < next.len() && next[j] == x as usize;
                            assert(j < i);
                            assert(prev[j] == x as usize);
                        }
                    }
                }
                assert((start.children[INITPROC_PID as int] + kids_seq.take(i as int)).push(c)
                    =~= start.children[INITPROC_PID as int] + kids_seq.take(i + 1));
            }
            i += 1;
        }
        proof {
            assert(kids_seq.take(i as int) =~= kids_seq);
            let goal = start.reparent(p);
            assert(self@.tasks =~= goal.tasks) by {
                assert forall|x: int| 0 <= x < start.tasks.len() implies self@.tasks[x]
                    == goal.tasks[x] by {
                    if kids_seq.contains(x as usize) {
                        let j = choose|j: int| 0 <= j < kids_seq.len() && kids_seq[j] == x as usize;
                        assert(start.live(kids_seq[j]));
                    }
                }
            }
            assert(self@.children =~= goal.children);
            assert(self@.spaces =~= goal.spaces);
            assert(self@.futexes =~= goal.futexes);
            lemma_reparent_wf(start, p);
        }
    }

    /// Gives the parent of the task `p`, if it has one, the exit signal of
    /// `p` and wakes it.
    fn notify_parent(&mut self, p: usize)
        requires
            old(self).wf(),
            old(self)@.live(p),
        ensures
            final(self).wf(),
            final(self)@ == old(self)@.notify_parent(p),
            final(self).spaces == old(self).spaces,
    {
        let me = *self.task(p);
        match me.parent {
            Some(q) => {
                if self.is_live(q) {
                    let mut t = *self.task(q);
                    t.sigpending = t.sigpending.union(me.exit_signal);
                    proof {
                        assert(old(self)@.task(q).pid == q);
                        lemma_with_task_wf(old(self)@, q, t);
                    }
                    self.set_task(q, t);
                    self.wake_interruptible(q);
                }
            },
            None => {},
        }
    }

    /// Ends the task `p` with the exit code `code`: the word it asked to
    /// have cleared is cleared and the first waiter on it woken, the task
    /// becomes a zombie, leaves every queue, hands its children to the
    /// first task and tells its parent.
    pub fn exit_task(&mut self, p: usize, code: u32)
        requires
            old(self).wf(),
            old(self)@.live(p),
        ensures
            final(self).wf(),
            final(self)@ == old(self)@.exit_task(p, code),
    {
        self.clear_tid(p);
        let ghost cleared = self@;
        proof {
            lemma_clear_tid_wf(old(self)@, p);
            assert(cleared.live(p) == old(self)@.live(p));
        }
        self.retire(p, code);
        proof {
            lemma_retire_wf(cleared, p, code);
        }
        self.reparent(p);
        proof {
            lemma_reparent_wf(cleared.retire(p, code), p);
        }
        self.notify_parent(p);
    }

    /// Clears the word that the task `p` asked to have cleared when it
    /// exits, and wakes the first waiter on that word.
    fn clear_tid(&mut self, p: usize)
        requires
            old(self).wf(),
            old(self)@.live(p),
        ensures
            final(self).wf(),
            final(self)@ == old(self)@.clear_tid(p),
    {
        let t = *self.task(p);
        if t.clear_child_tid != 0 {
            if self.write_user_u32(t.vm, t.clear_child_tid, 0).is_ok() {
                self.futex_wake(t.vm, t.clear_child_tid, 1);
            }
        }
    }

    /// Ends the task that runs with the exit code `code` and gives the
    /// processor to the next ready task.
    pub fn exit_current_and_run_next(&mut self, code: u32)
        requires
            old(self).wf(),
            old(self)@.current is Some,
        ensures
            final(self).wf(),
            final(self)@ == old(self)@.exit_task(old(self)@.current.unwrap(), code).schedule(),
    {
        let c = self.current.unwrap();
        self.exit_task(c, code);
        self.schedule();
    }

    /// Ends every task of the thread group of the task that runs with the
    /// exit code `code`, the other tasks first and the lowest number first,
    /// and gives the processor to the next ready task.
    pub fn exit_group_and_run_next(&mut self, code: u32)
        requires
            old(self).wf(),
            old(self)@.current is Some,
        ensures
            final(self).wf(),
            final(self)@ == old(self)@.exit_others(
                old(self)@.cur().tgid,
                old(self)@.current.unwrap(),
                code,
                old(self)@.tasks.len(),
            ).exit_task(old(self)@.current.unwrap(), code).schedule(),
    {
        let c = self.current.unwrap();
        let tgid = self.task(c).tgid;
        let n = self.tasks.len();
        let ghost start = old(self)@;
        let mut q: usize = 0;
        while q < n
            invariant
                q <= n,
                n == start.tasks.len(),
                start.wf(),
                start.live(c),
                self.wf(),
                self@ == start.exit_others(tgid, c, code, q as nat),
            decreases n - q,
        {
            proof {
                lemma_exit_others_wf(start, tgid, c, code, q as nat);
            }
            if self.is_live(q) && q != c {
                let t = *self.task(q);
                if t.tgid == tgid && !t.is_zombie() {
                    self.exit_task(q, code);
                }
            }
            q += 1;
        }
        proof {
            lemma_exit_others_wf(start, tgid, c, code, n as nat);
            lemma_exit_others_keep(start, tgid, c, code, n as nat);
        }
        self.exit_task(c, code);
        self.schedule();
    }
}

/// The tasks of a group that exit leave the task `except` in place.
pub proof fn lemma_exit_others_keep(k: KernelView, tgid: usize, except: usize, code: u32, n: nat)
    requires
        k.wf(),
        k.live(except),
    ensures
        k.exit_others(tgid, except, code, n).live(except),
    decreases n,
{
    if n > 0 {
        lemma_exit_others_keep(k, tgid, except, code, (n - 1) as nat);
        lemma_exit_others_wf(k, tgid, except, code, (n - 1) as nat);
        let m = k.exit_others(tgid, except, code, (n - 1) as nat);
        let q = (n - 1) as usize;
        if m.live(q) {
            lemma_exit_task_live(m, q, code, except);
        }
    }
}

/// A task that exits leaves every task in place.
pub proof fn lemma_exit_task_live(k: KernelView, p: usize, code: u32, x: usize)
    requires
        k.wf(),
        k.live(p),
        k.live(x),
    ensures
        k.exit_task(p, code).live(x),
{
    lemma_clear_tid_wf(k, p);
    let c = k.clear_tid(p);
    assert(c.live(p) == k.live(p));
    assert(c.live(x) == k.live(x));
    let a = c.retire(p, code);
    lemma_retire_wf(c, p, code);
    assert(a.live(x));
    let b = a.reparent(p);
    lemma_reparent_wf(a, p);
    assert(b.live(x));
}

} // verus!
