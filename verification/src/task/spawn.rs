//! The start of a task, and the collecting of a task that has exited.

use vstd::prelude::*;

use crate::config::INITPROC_PID;
use crate::task::kernel::{
    lemma_same_tables_wf, timers_without, waiters_without, Futex, Kernel, KernelView,
};
use crate::task::lifecycle::lemma_timers_without;
use crate::task::signal::{entries_inherited, SigActionEntry, Signals};
use crate::task::tcb::{
    kstack_top, spec_kstack_top, spec_trap_cx_ppn, trap_cx_ppn, Blocked, Rusage, TaskControlBlock,
    TaskStatus,
};
use crate::timer::{ITimerVal, TimeVal};

verus! {

/// The new task shares the address space of its maker.
pub const CLONE_VM: u32 = 0x0000_0100;

/// The new task has the parent of its maker.
pub const CLONE_PARENT: u32 = 0x0000_8000;

/// The new task joins the thread group of its maker.
pub const CLONE_THREAD: u32 = 0x0001_0000;

/// The new task starts with the thread pointer that the maker gives.
pub const CLONE_SETTLS: u32 = 0x0008_0000;

/// The number of the new task is stored in the memory of its maker.
pub const CLONE_PARENT_SETTID: u32 = 0x0010_0000;

/// An address of the new task is cleared when it exits.
pub const CLONE_CHILD_CLEARTID: u32 = 0x0020_0000;

/// The number of the new task is stored in its own memory.
pub const CLONE_CHILD_SETTID: u32 = 0x0100_0000;

impl KernelView {
    /// The task that `spawn` makes for the maker `parent`.
    pub open spec fn spawn_child(
        self,
        parent: usize,
        flags: u32,
        stack: usize,
        tls: usize,
        exit_signal: Signals,
    ) -> TaskControlBlock {
        let p = self.task(parent);
        let pid = self.tasks.len() as usize;
        let thread = flags & CLONE_THREAD != 0;
        TaskControlBlock {
            pid,
            tid: if thread {
                (pid - p.tgid) as usize
            } else {
                0
            },
            tgid: if thread {
                p.tgid
            } else {
                pid
            },
            vm: if flags & CLONE_VM != 0 {
                p.vm
            } else {
                self.spaces.len() as usize
            },
            parent: if flags & (CLONE_PARENT | CLONE_THREAD) != 0 {
                self.parent_of(parent)
            } else {
                Some(parent)
            },
            task_status: TaskStatus::Ready,
            blocked: Blocked::Nothing,
            sigpending: Signals { bits: 0 },
            sigmask: p.sigmask,
            exit_code: 0,
            exit_signal,
            clear_child_tid: 0,
            robust_list: p.robust_list,
            heap_bottom: p.heap_bottom,
            heap_pt: p.heap_pt,
            timer: [
                ITimerVal {
                    it_interval: TimeVal { tv_sec: 0, tv_usec: 0 },
                    it_value: TimeVal { tv_sec: 0, tv_usec: 0 },
                },
                ITimerVal {
                    it_interval: TimeVal { tv_sec: 0, tv_usec: 0 },
                    it_value: TimeVal { tv_sec: 0, tv_usec: 0 },
                },
                ITimerVal {
                    it_interval: TimeVal { tv_sec: 0, tv_usec: 0 },
                    it_value: TimeVal { tv_sec: 0, tv_usec: 0 },
                },
            ],
            rusage: Rusage {
                ru_utime: TimeVal { tv_sec: 0, tv_usec: 0 },
                ru_stime: TimeVal { tv_sec: 0, tv_usec: 0 },
            },
            pgid: p.pgid,
            kstack_top: spec_kstack_top(pid),
            ustack_base: p.ustack_base,
            trap_cx_ppn: spec_trap_cx_ppn(pid),
            user_sp: if stack != 0 {
                stack
            } else {
                p.user_sp
            },
            tls: if flags & CLONE_SETTLS != 0 {
                tls
            } else {
                p.tls
            },
            nofile_soft: p.nofile_soft,
            nofile_hard: p.nofile_hard,
        }
    }

    /// The kernel after the task `parent` made a new task: the new task
    /// gets the next number, shares the address space of its maker or gets
    /// a copy of it, and becomes the last child of its parent. It is ready
    /// but not yet in the ready queue.
    pub open spec fn spawn(
        self,
        parent: usize,
        flags: u32,
        stack: usize,
        tls: usize,
        exit_signal: Signals,
    ) -> Self {
        let child = self.spawn_child(parent, flags, stack, tls, exit_signal);
        let grown = self.children.push(Seq::empty());
        KernelView {
            tasks: self.tasks.push(Some(child)),
            children: match child.parent {
                Some(q) => grown.update(q as int, grown[q as int].push(child.pid)),
                None => grown,
            },
            spaces: if flags & CLONE_VM != 0 {
                self.spaces
            } else {
                self.spaces.push(self.spaces[self.task(parent).vm as int].forked())
            },
            futexes: if flags & CLONE_VM != 0 {
                self.futexes
            } else {
                self.futexes.push(Seq::empty())
            },
            sigactions: self.sigactions + entries_inherited(self.sigactions, parent, child.pid),
            ..self
        }
    }

    /// The kernel after the ready task `p` joined the end of the ready
    /// queue.
    pub open spec fn add_task(self, p: usize) -> Self {
        KernelView { ready: self.ready.push(p), ..self }
    }

    /// The kernel after the task `c` lost its child at the index `idx`,
    /// which is gone.
    pub open spec fn reap(self, c: usize, idx: int) -> Self {
        let z = self.children[c as int][idx];
        KernelView {
            tasks: self.tasks.update(z as int, None),
            children: self.children.update(c as int, self.children[c as int].remove(idx)),
            ..self
        }
    }

    /// The kernel after the task `c` left the system call it was blocked
    /// in: it waits for nothing and has no timer.
    pub open spec fn settle(self, c: usize) -> Self {
        KernelView {
            tasks: self.tasks.update(
                c as int,
                Some(TaskControlBlock { blocked: Blocked::Nothing, ..self.task(c) }),
            ),
            timers: timers_without(self.timers, c),
            ..self
        }
    }

    /// The kernel after the task `c` left the futex queues of the address
    /// space `s`.
    pub open spec fn futex_leave(self, s: usize, c: usize) -> Self {
        KernelView {
            futexes: self.futexes.update(s as int, waiters_without(self.futexes[s as int], c)),
            ..self
        }
    }
}

/// A new task keeps the kernel well formed.
pub proof fn lemma_spawn_wf(
    k: KernelView,
    parent: usize,
    flags: u32,
    stack: usize,
    tls: usize,
    exit_signal: Signals,
)
    requires
        k.wf(),
        k.live(parent),
        k.tasks.len() < isize::MAX,
    ensures
        k.spawn(parent, flags, stack, tls, exit_signal).wf(),
        k.spawn(parent, flags, stack, tls, exit_signal).live(k.tasks.len() as usize),
        k.spawn(parent, flags, stack, tls, exit_signal).live(parent),
        !k.spawn(parent, flags, stack, tls, exit_signal).ready.contains(k.tasks.len() as usize),
{
    let n = k.spawn(parent, flags, stack, tls, exit_signal);
    let child = k.spawn_child(parent, flags, stack, tls, exit_signal);
    let pid = k.tasks.len() as usize;
    assert(k.task(parent).pid == parent);
    assert forall|q: usize| n.live(q) implies (#[trigger] n.task(q)).pid == q && n.task(q).vm
        < n.spaces.len() && n.task(q).tgid <= q && n.task(q).pgid <= q && n.task(q).blocked.wf() by {
        if q != pid {
            assert(k.live(q));
            assert(k.task(q).pid == q);
        }
    }
    assert forall|q: int, j: int|
        0 <= q < n.children.len() && 0 <= j < n.children[q].len() implies n.live(
        #[trigger] n.children[q][j],
    ) && n.task(n.children[q][j]).parent == Some(q as usize) by {
        if q < k.children.len() && j < k.children[q].len() {
            assert(k.live(k.children[q][j]));
        }
    }
    assert forall|q: int| 0 <= q < n.children.len() implies (
    #[trigger] n.children[q]).no_duplicates() by {
        if q < k.children.len() {
            assert(k.children[q].no_duplicates());
            assert forall|i: int, j: int|
                0 <= i < n.children[q].len() && 0 <= j < n.children[q].len() && i
                    != j implies n.children[q][i] != n.children[q][j] by {
                if i < k.children[q].len() {
                    assert(k.live(k.children[q][i]));
                }
                if j < k.children[q].len() {
                    assert(k.live(k.children[q][j]));
                }
            }
        }
    }
    assert forall|j: int| 0 <= j < n.ready.len() implies n.live(#[trigger] n.ready[j]) && n.task(
        n.ready[j],
    ).task_status is Ready by {
        assert(k.live(k.ready[j]));
    }
    if n.current is Some {
        assert(k.live(k.current.unwrap()));
    }
    if n.ready.contains(pid) {
        let j = choose|j: int| 0 <= j < k.ready.len() && k.ready[j] == pid;
        assert(k.live(k.ready[j]));
    }
}

/// A ready task that joins the ready queue keeps the kernel well formed.
pub proof fn lemma_add_task_wf(k: KernelView, p: usize)
    requires
        k.wf(),
        k.live(p),
        k.task(p).task_status is Ready,
        !k.ready.contains(p),
    ensures
        k.add_task(p).wf(),
{
    let n = k.add_task(p);
    assert forall|q: usize| n.live(q) implies (#[trigger] n.task(q)).pid == q && n.task(q).vm
        < n.spaces.len() && n.task(q).tgid <= q && n.task(q).pgid <= q && n.task(q).blocked.wf() by {
        assert(k.live(q));
        assert(k.task(q).pid == q);
    }
    assert forall|q: int, j: int|
        0 <= q < n.children.len() && 0 <= j < n.children[q].len() implies n.live(
        #[trigger] n.children[q][j],
    ) && n.task(n.children[q][j]).parent == Some(q as usize) by {
        assert(k.live(k.children[q][j]));
    }
    assert forall|j: int| 0 <= j < n.ready.len() implies n.live(#[trigger] n.ready[j]) && n.task(
        n.ready[j],
    ).task_status is Ready by {
        if j < k.ready.len() {
            assert(k.live(k.ready[j]));
        }
    }
    assert forall|i: int, j: int|
        0 <= i < n.ready.len() && 0 <= j < n.ready.len() && i != j implies n.ready[i]
        != n.ready[j] by {
        if i < k.ready.len() {
            assert(k.ready.contains(k.ready[i]));
        }
        if j < k.ready.len() {
            assert(k.ready.contains(k.ready[j]));
        }
    }
    if n.current is Some {
        assert(k.live(k.current.unwrap()));
    }
}

/// Collecting a child that has exited keeps the kernel well formed.
pub proof fn lemma_reap_wf(k: KernelView, c: usize, idx: int)
    requires
        k.wf(),
        k.live(c),
        0 <= idx < k.children[c as int].len(),
        k.task(k.children[c as int][idx]).task_status is Zombie,
        !(k.task(c).task_status is Zombie),
    ensures
        k.reap(c, idx).wf(),
        k.reap(c, idx).live(c),
        k.reap(c, idx).current == k.current,
        k.reap(c, idx).task(c) == k.task(c),
        k.reap(c, idx).children[c as int].len() == k.children[c as int].len() - 1,
{
    let n = k.reap(c, idx);
    let kids = k.children[c as int];
    let z = kids[idx];
    assert(k.live(z));
    assert(k.task(z).parent == Some(c));
    assert(z != INITPROC_PID);
    assert(z != c);
    assert forall|q: usize| n.live(q) implies (#[trigger] n.task(q)).pid == q && n.task(q).vm
        < n.spaces.len() && n.task(q).tgid <= q && n.task(q).pgid <= q && n.task(q).blocked.wf() by {
        assert(k.live(q));
        assert(k.task(q).pid == q);
    }
    assert forall|q: int, j: int|
        0 <= q < n.children.len() && 0 <= j < n.children[q].len() implies n.live(
        #[trigger] n.children[q][j],
    ) && n.task(n.children[q][j]).parent == Some(q as usize) by {
        if q == c {
            let oj = if j < idx {
                j
            } else {
                j + 1
            };
            assert(n.children[q][j] == kids[oj]);
            assert(k.live(kids[oj]));
            assert(kids[oj] != kids[idx]);
        } else {
            assert(k.live(k.children[q][j]));
        }
    }
    assert forall|q: int| 0 <= q < n.children.len() implies (
    #[trigger] n.children[q]).no_duplicates() by {
        if q == c {
            assert(kids.no_duplicates());
            assert forall|i: int, j: int|
                0 <= i < n.children[q].len() && 0 <= j < n.children[q].len() && i
                    != j implies n.children[q][i] != n.children[q][j] by {
                let oi = if i < idx {
                    i
                } else {
                    i + 1
                };
                let oj = if j < idx {
                    j
                } else {
                    j + 1
                };
                assert(n.children[q][i] == kids[oi]);
                assert(n.children[q][j] == kids[oj]);
            }
        } else {
            assert(n.children[q] == k.children[q]);
        }
    }
    assert forall|j: int| 0 <= j < n.ready.len() implies n.live(#[trigger] n.ready[j]) && n.task(
        n.ready[j],
    ).task_status is Ready by {
        assert(k.live(k.ready[j]));
    }
    if n.current is Some {
        assert(k.live(k.current.unwrap()));
    }
}

/// A task that leaves the system call it was blocked in keeps the kernel
/// well formed.
pub proof fn lemma_settle_wf(k: KernelView, c: usize)
    requires
        k.wf(),
        k.live(c),
    ensures
        k.settle(c).wf(),
        k.settle(c).live(c),
        k.settle(c).current == k.current,
        k.settle(c).spaces == k.spaces,
        k.settle(c).futexes == k.futexes,
{
    let n = k.settle(c);
    lemma_timers_without(k.timers, c);
    assert(k.task(c).pid == c);
    assert forall|q: usize| n.live(q) implies (#[trigger] n.task(q)).pid == q && n.task(q).vm
        < n.spaces.len() && n.task(q).tgid <= q && n.task(q).pgid <= q && n.task(q).blocked.wf() by {
        assert(k.live(q));
        assert(k.task(q).pid == q);
    }
    assert forall|q: int, j: int|
        0 <= q < n.children.len() && 0 <= j < n.children[q].len() implies n.live(
        #[trigger] n.children[q][j],
    ) && n.task(n.children[q][j]).parent == Some(q as usize) by {
        assert(k.live(k.children[q][j]));
    }
    assert forall|j: int| 0 <= j < n.ready.len() implies n.live(#[trigger] n.ready[j]) && n.task(
        n.ready[j],
    ).task_status is Ready by {
        assert(k.live(k.ready[j]));
    }
    assert forall|j: int| 0 <= j < n.timers.len() implies (#[trigger] n.timers[j]).expire.normal() by {
        assert(k.timers.contains(n.timers[j]));
    }
    if n.current is Some {
        assert(k.live(k.current.unwrap()));
    }
}

impl Kernel {
    /// Makes a new task for the task `parent`: it gets the next number,
    /// shares the address space of its maker or gets a copy of it, and
    /// becomes the last child of its parent. It is ready but not yet in the
    /// ready queue. Gives the number of the new task.
    pub fn spawn(
        &mut self,
        parent: usize,
        flags: u32,
        stack: usize,
        tls: usize,
        exit_signal: Signals,
    ) -> (pid: usize)
        requires
            old(self).wf(),
            old(self)@.live(parent),
            old(self)@.tasks.len() < isize::MAX,
        ensures
            final(self).wf(),
            pid == old(self)@.tasks.len(),
            final(self)@ == old(self)@.spawn(parent, flags, stack, tls, exit_signal),
    {
        let ghost start = self@;
        let p = *self.task(parent);
        let pid = self.tasks.len();
        let thread = flags & CLONE_THREAD != 0;
        proof {
            assert(start.task(parent).pid == parent);
        }
        let par = if flags & (CLONE_PARENT | CLONE_THREAD) != 0 {
            match p.parent {
                Some(q) => if self.is_live(q) {
                    Some(q)
                } else {
                    None
                },
                None => None,
            }
        } else {
            Some(parent)
        };
        let vm = if flags & CLONE_VM != 0 {
            p.vm
        } else {
            self.spaces.len()
        };
        let child = TaskControlBlock {
            pid,
            tid: if thread {
                pid - p.tgid
            } else {
                0
            },
            tgid: if thread {
                p.tgid
            } else {
                pid
            },
            vm,
            parent: par,
            task_status: TaskStatus::Ready,
            blocked: Blocked::Nothing,
            sigpending: Signals::empty(),
            sigmask: p.sigmask,
            exit_code: 0,
            exit_signal,
            clear_child_tid: 0,
            robust_list: p.robust_list,
            heap_bottom: p.heap_bottom,
            heap_pt: p.heap_pt,
            timer: [ITimerVal::new(), ITimerVal::new(), ITimerVal::new()],
            rusage: Rusage { ru_utime: TimeVal::new(), ru_stime: TimeVal::new() },
            pgid: p.pgid,
            kstack_top: kstack_top(pid),
            ustack_base: p.ustack_base,
            trap_cx_ppn: trap_cx_ppn(pid),
            user_sp: if stack != 0 {
                stack
            } else {
                p.user_sp
            },
            tls: if flags & CLONE_SETTLS != 0 {
                tls
            } else {
                p.tls
            },
            nofile_soft: p.nofile_soft,
            nofile_hard: p.nofile_hard,
        };
        proof {
            assert(child == start.spawn_child(parent, flags, stack, tls, exit_signal));
        }
        if flags & CLONE_VM == 0 {
            let copy = self.spaces[p.vm].duplicate();
            self.spaces.push(copy);
            self.futexes.push(Futex { waiters: Vec::new() });
        }
        let mut inherited: Vec<SigActionEntry> = Vec::new();
        let mut e: usize = 0;
        while e < self.sigactions.len()
            invariant
                e <= self.sigactions@.len(),
                self.sigactions@ == start.sigactions,
                inherited@ == entries_inherited(start.sigactions.take(e as int), parent, pid),
            decreases self.sigactions@.len() - e,
        {
            proof {
                assert(start.sigactions.take(e + 1).drop_last() =~= start.sigactions.take(e as int));
            }
            let entry = self.sigactions[e];
            if entry.pid == parent {
                inherited.push(SigActionEntry { pid, signum: entry.signum, action: entry.action });
            }
            e += 1;
        }
        proof {
            assert(start.sigactions.take(e as int) =~= start.sigactions);
        }
        self.sigactions.append(&mut inherited);
        self.tasks.push(Some(child));
        self.children.push(Vec::new());
        match par {
            Some(q) => {
                self.children[q].push(pid);
            },
            None => {},
        }
        proof {
            let goal = start.spawn(parent, flags, stack, tls, exit_signal);
            assert(self@.tasks =~= goal.tasks);
            assert(self@.children =~= goal.children);
            assert(self@.spaces =~= goal.spaces);
            assert(self@.futexes =~= goal.futexes);
            lemma_spawn_wf(start, parent, flags, stack, tls, exit_signal);
            assert forall|i: int| 0 <= i < self.spaces@.len() implies (
            #[trigger] self.spaces@[i]).wf() by {
                if i < old(self).spaces@.len() {
                    assert(old(self).spaces@[i].wf());
                }
            }
        }
        pid
    }

    /// Puts the ready task `p`, which is not in the ready queue, at the end
    /// of the ready queue.
    pub fn add_task(&mut self, p: usize)
        requires
            old(self).wf(),
            old(self)@.live(p),
            old(self)@.task(p).task_status is Ready,
            !old(self)@.ready.contains(p),
        ensures
            final(self).wf(),
            final(self)@ == old(self)@.add_task(p),
    {
        self.ready_queue.push(p);
        proof {
            lemma_add_task_wf(old(self)@, p);
        }
    }

    /// Takes the child at the index `idx`, which has exited, out of the
    /// children of the task `c` and out of the table of tasks.
    pub fn reap(&mut self, c: usize, idx: usize)
        requires
            old(self).wf(),
            old(self)@.live(c),
            idx < old(self)@.children[c as int].len(),
            old(self)@.task(old(self)@.children[c as int][idx as int]).task_status is Zombie,
            !(old(self)@.task(c).task_status is Zombie),
        ensures
            final(self).wf(),
            final(self)@ == old(self)@.reap(c, idx as int),
    {
        let ghost start = self@;
        proof {
            assert(start.live(start.children[c as int][idx as int]));
            assert(self.children@.len() == start.children.len());
        }
        let z = self.children[c].remove(idx);
        self.tasks[z] = None;
        proof {
            let goal = start.reap(c, idx as int);
            assert(self@.children =~= goal.children);
            assert(self@.spaces =~= goal.spaces);
            assert(self@.futexes =~= goal.futexes);
            lemma_reap_wf(start, c, idx as int);
        }
    }

    /// The task `c` leaves the system call it was blocked in: it waits for
    /// nothing and its timers are dropped.
    pub fn settle(&mut self, c: usize)
        requires
            old(self).wf(),
            old(self)@.live(c),
        ensures
            final(self).wf(),
            final(self)@ == old(self)@.settle(c),
    {
        let mut t = *self.task(c);
        t.blocked = Blocked::Nothing;
        let mut kept: Vec<crate::task::kernel::TimerEntry> = Vec::new();
        let mut i: usize = 0;
        while i < self.timers.len()
            invariant
                i <= self.timers@.len(),
                self.timers@ == old(self).timers@,
                kept@ == timers_without(self.timers@.take(i as int), c),
            decreases self.timers@.len() - i,
        {
            proof {
                assert(self.timers@.take(i + 1).drop_last() =~= self.timers@.take(i as int));
            }
            if self.timers[i].pid != c {
                kept.push(self.timers[i]);
            }
            i += 1;
        }
        proof {
            assert(self.timers@.take(i as int) =~= self.timers@);
        }
        self.set_task(c, t);
        self.timers = kept;
        proof {
            lemma_settle_wf(old(self)@, c);
        }
    }

    /// The task `c` leaves the futex queues of the address space `s`.
    pub fn futex_leave(&mut self, s: usize, c: usize)
        requires
            old(self).wf(),
            s < old(self)@.futexes.len(),
        ensures
            final(self).wf(),
            final(self)@ == old(self)@.futex_leave(s, c),
    {
        let mut kept: Vec<crate::task::kernel::FutexWaiter> = Vec::new();
        let mut i: usize = 0;
        let ghost all = self.futexes@[s as int].waiters@;
        while i < self.futexes[s].waiters.len()
            invariant
                s < self.futexes@.len(),
                all == self.futexes@[s as int].waiters@,
                i <= all.len(),
                kept@ == waiters_without(all.take(i as int), c),
            decreases all.len() - i,
        {
            proof {
                assert(all.take(i + 1).drop_last() =~= all.take(i as int));
            }
            if self.futexes[s].waiters[i].pid != c {
                kept.push(self.futexes[s].waiters[i]);
            }
            i += 1;
        }
        proof {
            assert(all.take(i as int) =~= all);
        }
        self.futexes[s].waiters = kept;
        proof {
            assert(self@.futexes =~= old(self)@.futex_leave(s, c).futexes);
            assert(self@.children =~= old(self)@.children);
            assert(self@.spaces =~= old(self)@.spaces);
            lemma_same_tables_wf(old(self)@, self@);
        }
    }
}

} // verus!
