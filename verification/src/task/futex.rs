//! The futex queues: waking waiters and moving them to another word.

use vstd::prelude::*;

use crate::task::kernel::{
    lemma_same_tables_wf, lemma_wake_wf, FutexWaiter, Kernel, KernelView,
};

verus! {

/// The waiters that `requeue` takes out of a queue, and those it leaves:
/// it takes the first `budget` waiters on the word at `addr`.
pub open spec fn requeue_scan(waiters: Seq<FutexWaiter>, addr: usize, budget: nat) -> (
    Seq<FutexWaiter>,
    Seq<FutexWaiter>,
)
    decreases waiters.len(),
{
    if waiters.len() == 0 {
        (Seq::empty(), Seq::empty())
    } else {
        let w = waiters[0];
        let rest = waiters.subrange(1, waiters.len() as int);
        if budget > 0 && w.addr == addr {
            let r = requeue_scan(rest, addr, (budget - 1) as nat);
            (seq![w] + r.0, r.1)
        } else {
            let r = requeue_scan(rest, addr, budget);
            (r.0, seq![w] + r.1)
        }
    }
}

/// The waiters of `moved`, in their order, now on the word at `addr`.
pub open spec fn retarget(moved: Seq<FutexWaiter>, addr: usize) -> Seq<FutexWaiter> {
    Seq::new(moved.len(), |i: int| FutexWaiter { addr, pid: moved[i].pid })
}

/// `requeue_scan` takes at most `budget` waiters and at most as many as
/// there are.
pub proof fn lemma_requeue_scan_len(waiters: Seq<FutexWaiter>, addr: usize, budget: nat)
    ensures
        requeue_scan(waiters, addr, budget).0.len() <= budget,
        requeue_scan(waiters, addr, budget).0.len() + requeue_scan(waiters, addr, budget).1.len()
            == waiters.len(),
    decreases waiters.len(),
{
    if waiters.len() > 0 {
        let rest = waiters.subrange(1, waiters.len() as int);
        if budget > 0 && waiters[0].addr == addr {
            lemma_requeue_scan_len(rest, addr, (budget - 1) as nat);
        } else {
            lemma_requeue_scan_len(rest, addr, budget);
        }
    }
}

impl KernelView {
    /// Whether the task `p` is blocked.
    pub open spec fn blocked(self, p: usize) -> bool {
        self.live(p) && self.task(p).task_status is Interruptible
    }

    /// How many waiters are woken, the kernel after they were woken, and
    /// the waiters that stay, when the first `budget` blocked waiters of
    /// `waiters` on the word at `addr` are woken, the first one first.
    pub open spec fn wake_scan(self, addr: usize, budget: nat, waiters: Seq<FutexWaiter>) -> (
        nat,
        KernelView,
        Seq<FutexWaiter>,
    )
        decreases waiters.len(),
    {
        if waiters.len() == 0 {
            (0, self, Seq::empty())
        } else {
            let w = waiters[0];
            let rest = waiters.subrange(1, waiters.len() as int);
            if budget > 0 && w.addr == addr && self.blocked(w.pid) {
                let r = self.wake(w.pid).wake_scan(addr, (budget - 1) as nat, rest);
                (r.0 + 1, r.1, r.2)
            } else {
                let r = self.wake_scan(addr, budget, rest);
                (r.0, r.1, seq![w] + r.2)
            }
        }
    }

    /// What `futex_wake` returns and leaves behind: the first `n` blocked
    /// waiters on the word at `addr` in the address space `s` are woken
    /// and leave the queue; their number is returned.
    pub open spec fn futex_wake(self, s: usize, addr: usize, n: u32) -> (isize, Self) {
        let r = self.wake_scan(addr, n as nat, self.futexes[s as int]);
        ((r.0 as usize) as isize, KernelView { futexes: r.1.futexes.update(s as int, r.2), ..r.1 })
    }

    /// What `futex_requeue` returns and leaves behind: the first `wake_n`
    /// blocked waiters on the word at `addr` are woken as `futex_wake`
    /// wakes them; then the first `move_n` waiters that are left on that
    /// word go, in their order and without being woken, to the end of the
    /// queue as waiters on the word at `addr2`. The number of waiters
    /// woken and moved is returned.
    pub open spec fn futex_requeue(
        self,
        s: usize,
        addr: usize,
        addr2: usize,
        wake_n: u32,
        move_n: u32,
    ) -> (isize, Self) {
        let r = self.wake_scan(addr, wake_n as nat, self.futexes[s as int]);
        let q = requeue_scan(r.2, addr, move_n as nat);
        (
            ((r.0 + q.0.len()) as usize) as isize,
            KernelView { futexes: r.1.futexes.update(s as int, q.1 + retarget(q.0, addr2)), ..r.1 },
        )
    }

    /// The kernel after the task `pid` joined the waiters on the word at
    /// `addr` in the address space `s`.
    pub open spec fn futex_enqueue(self, s: usize, addr: usize, pid: usize) -> Self {
        KernelView {
            futexes: self.futexes.update(
                s as int,
                self.futexes[s as int].push(FutexWaiter { addr, pid }),
            ),
            ..self
        }
    }

    /// Whether the task `pid` waits on a futex word in the address space
    /// `s`.
    pub open spec fn futex_queued(self, s: usize, pid: usize) -> bool {
        exists|i: int|
            0 <= i < self.futexes[s as int].len() && (#[trigger] self.futexes[s as int][i]).pid
                == pid
    }
}

/// Waking waiters keeps the kernel well formed, changes no queue of
/// waiters, wakes at most `budget` waiters and at most as many as there
/// are.
pub proof fn lemma_wake_scan(k: KernelView, addr: usize, budget: nat, waiters: Seq<FutexWaiter>)
    requires
        k.wf(),
    ensures
        k.wake_scan(addr, budget, waiters).1.wf(),
        k.wake_scan(addr, budget, waiters).1.futexes == k.futexes,
        k.wake_scan(addr, budget, waiters).1.spaces == k.spaces,
        k.wake_scan(addr, budget, waiters).1.tasks.len() == k.tasks.len(),
        forall|x: usize| #[trigger] k.wake_scan(addr, budget, waiters).1.live(x) == k.live(x),
        k.wake_scan(addr, budget, waiters).0 <= budget,
        k.wake_scan(addr, budget, waiters).0 + k.wake_scan(addr, budget, waiters).2.len()
            == waiters.len(),
    decreases waiters.len(),
{
    if waiters.len() > 0 {
        let w = waiters[0];
        let rest = waiters.subrange(1, waiters.len() as int);
        if budget > 0 && w.addr == addr && k.blocked(w.pid) {
            lemma_wake_wf(k, w.pid);
            lemma_wake_scan(k.wake(w.pid), addr, (budget - 1) as nat, rest);
            assert forall|x: usize| #[trigger]
                k.wake_scan(addr, budget, waiters).1.live(x) == k.live(x) by {
                assert(k.wake(w.pid).live(x) == k.live(x));
            }
        } else {
            lemma_wake_scan(k, addr, budget, rest);
        }
    }
}

impl Kernel {
    /// Puts `waiters` in place of the waiters of the address space `s`.
    fn set_waiters(&mut self, s: usize, waiters: Vec<FutexWaiter>)
        requires
            old(self).wf(),
            s < old(self)@.futexes.len(),
        ensures
            final(self).wf(),
            final(self)@ == (KernelView {
                futexes: old(self)@.futexes.update(s as int, waiters@),
                ..old(self)@
            }),
    {
        self.futexes[s].waiters = waiters;
        proof {
            assert(self@.futexes =~= old(self)@.futexes.update(s as int, waiters@));
            assert(self@.children =~= old(self)@.children);
            assert(self@.spaces =~= old(self)@.spaces);
            lemma_same_tables_wf(old(self)@, self@);
        }
    }

    /// The waiters of the address space `s`.
    fn waiters_of(&self, s: usize) -> (r: Vec<FutexWaiter>)
        requires
            s < self@.futexes.len(),
        ensures
            r@ == self@.futexes[s as int],
    {
        let mut out: Vec<FutexWaiter> = Vec::new();
        let mut i: usize = 0;
        let ghost all = self.futexes@[s as int].waiters@;
        while i < self.futexes[s].waiters.len()
            invariant
                s < self.futexes@.len(),
                all == self.futexes@[s as int].waiters@,
                i <= all.len(),
                out@ == all.take(i as int),
            decreases all.len() - i,
        {
            out.push(self.futexes[s].waiters[i]);
            proof {
                assert(all.take(i + 1) =~= all.take(i as int).push(all[i as int]));
            }
            i += 1;
        }
        proof {
            assert(all.take(i as int) =~= all);
        }
        out
    }

    /// Whether the task `pid` waits on a futex word in the address space
    /// `s`.
    pub fn is_futex_queued(&self, s: usize, pid: usize) -> (r: bool)
        requires
            s < self@.futexes.len(),
        ensures
            r == self@.futex_queued(s, pid),
    {
        let mut i: usize = 0;
        let ghost all = self.futexes@[s as int].waiters@;
        while i < self.futexes[s].waiters.len()
            invariant
                s < self.futexes@.len(),
                all == self.futexes@[s as int].waiters@,
                all == self@.futexes[s as int],
                i <= all.len(),
                forall|j: int| 0 <= j < i ==> (#[trigger] all[j]).pid != pid,
            decreases all.len() - i,
        {
            if self.futexes[s].waiters[i].pid == pid {
                proof {
                    assert(all[i as int].pid == pid);
                }
                return true;
            }
            i += 1;
        }
        false
    }

    /// The task `pid` joins the waiters on the word at `addr` in the
    /// address space `s`.
    pub fn futex_enqueue(&mut self, s: usize, addr: usize, pid: usize)
        requires
            old(self).wf(),
            s < old(self)@.futexes.len(),
        ensures
            final(self).wf(),
            final(self)@ == old(self)@.futex_enqueue(s, addr, pid),
    {
        self.futexes[s].waiters.push(FutexWaiter { addr, pid });
        proof {
            assert(self@.futexes =~= old(self)@.futex_enqueue(s, addr, pid).futexes);
            assert(self@.children =~= old(self)@.children);
            assert(self@.spaces =~= old(self)@.spaces);
            lemma_same_tables_wf(old(self)@, self@);
        }
    }

    /// Wakes the first `budget` blocked waiters of `all` on the word at
    /// `addr`; gives their number and the waiters that stay.
    fn wake_waiters(&mut self, addr: usize, budget: u32, all: &Vec<FutexWaiter>) -> (r: (
        usize,
        Vec<FutexWaiter>,
    ))
        requires
            old(self).wf(),
        ensures
            final(self).wf(),
            r.0 == old(self)@.wake_scan(addr, budget as nat, all@).0,
            final(self)@ == old(self)@.wake_scan(addr, budget as nat, all@).1,
            r.1@ == old(self)@.wake_scan(addr, budget as nat, all@).2,
            r.0 <= budget,
    {
        let ghost start = self@;
        let mut kept: Vec<FutexWaiter> = Vec::new();
        let mut left: u32 = budget;
        let mut woken: usize = 0;
        let mut i: usize = 0;
        proof {
            assert(all@.subrange(0, all@.len() as int) =~= all@);
            assert(kept@ + start.wake_scan(addr, budget as nat, all@).2 =~= start.wake_scan(
                addr,
                budget as nat,
                all@,
            ).2);
        }
        while i < all.len()
            invariant
                i <= all@.len(),
                self.wf(),
                start.wf(),
                woken + left == budget,
                woken + self@.wake_scan(addr, left as nat, all@.subrange(i as int, all@.len() as int)).0
                    == start.wake_scan(addr, budget as nat, all@).0,
                self@.wake_scan(addr, left as nat, all@.subrange(i as int, all@.len() as int)).1
                    == start.wake_scan(addr, budget as nat, all@).1,
                kept@ + self@.wake_scan(
                    addr,
                    left as nat,
                    all@.subrange(i as int, all@.len() as int),
                ).2 == start.wake_scan(addr, budget as nat, all@).2,
            decreases all@.len() - i,
        {
            let w = all[i];
            let ghost tail = all@.subrange(i as int, all@.len() as int);
            let ghost rest = all@.subrange(i + 1, all@.len() as int);
            proof {
                assert(tail[0] == w);
                assert(tail.subrange(1, tail.len() as int) =~= rest);
            }
            let blocked = self.is_live(w.pid) && match self.task(w.pid).task_status {
                crate::task::tcb::TaskStatus::Interruptible => true,
                _ => false,
            };
            if left > 0 && w.addr == addr && blocked {
                self.wake_interruptible(w.pid);
                left -= 1;
                woken += 1;
            } else {
                let ghost before = kept@;
                kept.push(w);
                proof {
                    let r = self@.wake_scan(addr, left as nat, rest);
                    assert(kept@ + r.2 =~= before + (seq![w] + r.2));
                }
            }
            i += 1;
        }
        proof {
            assert(all@.subrange(i as int, all@.len() as int) =~= Seq::<FutexWaiter>::empty());
            assert(kept@ + Seq::<FutexWaiter>::empty() =~= kept@);
        }
        (woken, kept)
    }

    /// Wakes the first `n` blocked waiters on the word at `addr` in the
    /// address space `s`, the first one first, takes them out of the queue
    /// and gives their number.
    pub fn futex_wake(&mut self, s: usize, addr: usize, n: u32) -> (r: isize)
        requires
            old(self).wf(),
            s < old(self)@.futexes.len(),
        ensures
            final(self).wf(),
            (r, final(self)@) == old(self)@.futex_wake(s, addr, n),
    {
        let all = self.waiters_of(s);
        proof {
            lemma_wake_scan(self@, addr, n as nat, all@);
        }
        let (woken, kept) = self.wake_waiters(addr, n, &all);
        self.set_waiters(s, kept);
        #[verifier::truncate]
        (woken as isize)
    }

    /// Wakes the first `wake_n` blocked waiters on the word at `addr` in
    /// the address space `s`; then moves the first `move_n` waiters that
    /// are left on that word, in their order and without waking them, to
    /// the end of the queue as waiters on the word at `addr2`. Gives the
    /// number of waiters woken and moved.
    pub fn futex_requeue(&mut self, s: usize, addr: usize, addr2: usize, wake_n: u32, move_n: u32) -> (r:
        isize)
        requires
            old(self).wf(),
            s < old(self)@.futexes.len(),
        ensures
            final(self).wf(),
            (r, final(self)@) == old(self)@.futex_requeue(s, addr, addr2, wake_n, move_n),
    {
        let all = self.waiters_of(s);
        proof {
            lemma_wake_scan(self@, addr, wake_n as nat, all@);
        }
        let (woken, left) = self.wake_waiters(addr, wake_n, &all);
        let mut kept: Vec<FutexWaiter> = Vec::new();
        let mut moved: Vec<FutexWaiter> = Vec::new();
        let mut budget: u32 = move_n;
        let mut i: usize = 0;
        let ghost goal = requeue_scan(left@, addr, move_n as nat);
        proof {
            assert(left@.subrange(0, left@.len() as int) =~= left@);
            assert(moved@ + goal.0 =~= goal.0);
            assert(kept@ + goal.1 =~= goal.1);
            assert(woken + left@.len() == all@.len());
        }
        while i < left.len()
            invariant
                i <= left@.len(),
                moved@.len() + budget == move_n,
                moved@.len() + kept@.len() == i,
                woken + left@.len() <= usize::MAX,
                goal == requeue_scan(left@, addr, move_n as nat),
                moved@ + requeue_scan(
                    left@.subrange(i as int, left@.len() as int),
                    addr,
                    budget as nat,
                ).0 == goal.0,
                kept@ + requeue_scan(
                    left@.subrange(i as int, left@.len() as int),
                    addr,
                    budget as nat,
                ).1 == goal.1,
            decreases left@.len() - i,
        {
            let w = left[i];
            let ghost tail = left@.subrange(i as int, left@.len() as int);
            let ghost rest = left@.subrange(i + 1, left@.len() as int);
            proof {
                assert(tail[0] == w);
                assert(tail.subrange(1, tail.len() as int) =~= rest);
            }
            if budget > 0 && w.addr == addr {
                let ghost before = moved@;
                moved.push(w);
                budget -= 1;
                proof {
                    let r = requeue_scan(rest, addr, budget as nat);
                    assert(moved@ + r.0 =~= before + (seq![w] + r.0));
                }
            } else {
                let ghost before = kept@;
                kept.push(w);
                proof {
                    let r = requeue_scan(rest, addr, budget as nat);
                    assert(kept@ + r.1 =~= before + (seq![w] + r.1));
                }
            }
            i += 1;
        }
        proof {
            assert(left@.subrange(i as int, left@.len() as int) =~= Seq::<FutexWaiter>::empty());
            assert(moved@ + Seq::<FutexWaiter>::empty() =~= moved@);
            assert(kept@ + Seq::<FutexWaiter>::empty() =~= kept@);
        }
        let count = moved.len();
        let mut j: usize = 0;
        let ghost stay = kept@;
        while j < moved.len()
            invariant
                j <= moved@.len(),
                kept@ == stay + retarget(moved@.take(j as int), addr2),
            decreases moved@.len() - j,
        {
            let ghost before = kept@;
            kept.push(FutexWaiter { addr: addr2, pid: moved[j].pid });
            proof {
                assert(kept@ =~= stay + retarget(moved@.take(j + 1), addr2));
            }
            j += 1;
        }
        proof {
            assert(moved@.take(j as int) =~= moved@);
        }
        self.set_waiters(s, kept);
        #[verifier::truncate]
        ((woken + count) as isize)
    }
}

} // verus!
