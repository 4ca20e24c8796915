//! The system calls in which a task may block: sleeping, waiting for a
//! child, and waiting on a futex. A call that blocks returns `None`; the
//! task finishes the call with `resume_blocked` when it runs again.

use vstd::bytes::spec_u32_to_le_bytes;
use vstd::prelude::*;

use crate::mm::memory_set::{words_to_bytes, MemorySetView};
use crate::syscall::errno::{EAGAIN, ECHILD, EFAULT, EINTR, EINVAL, ETIMEDOUT, SUCCESS};
use crate::task::kernel::{Kernel, KernelView, TimerEntry};
use crate::task::spawn::{lemma_reap_wf, lemma_settle_wf};
use crate::task::tcb::{valid_wait_option, Blocked};
use crate::timer::TimeSpec;

verus! {

/// `sys_wait4` returns at once where no child has exited.
pub const WNOHANG: u32 = 1;

/// The futex call that waits.
pub const FUTEX_WAIT: u32 = 0;

/// The futex call that wakes.
pub const FUTEX_WAKE: u32 = 1;

/// The futex call that wakes some waiters and moves others.
pub const FUTEX_REQUEUE: u32 = 3;

/// Whether `sys_wait4` with the number `pid` waits for the child `child`:
/// for every child with the number -1, for the child with that number
/// otherwise.
pub open spec fn wait_matches(pid: isize, child: usize) -> bool {
    pid == -1 || pid as usize == child
}

/// Whether `sys_wait4` with the number `pid` waits for one of `kids`.
pub open spec fn has_match(kids: Seq<usize>, pid: isize) -> bool {
    exists|i: int| 0 <= i < kids.len() && wait_matches(pid, #[trigger] kids[i])
}

/// Whether the futex command is one that `sys_futex` serves or refuses as
/// invalid: wait, wake, requeue, or a number that names no command.
pub open spec fn futex_command_served(futex_op: u32) -> bool {
    let cmd = futex_op & 0x7f;
    cmd == FUTEX_WAIT || cmd == FUTEX_WAKE || cmd == FUTEX_REQUEUE || cmd > 12
}

/// The time that an address space holds at `addr`: the seconds and, eight
/// bytes on, the nanoseconds.
pub open spec fn spec_timespec_at(m: MemorySetView, addr: usize) -> TimeSpec {
    TimeSpec {
        tv_sec: m.u64_at(addr) as usize,
        tv_nsec: m.u64_at((addr + 8) as usize) as usize,
    }
}

/// The words that stand for a time in the memory of user code.
pub open spec fn spec_timespec_words(t: TimeSpec) -> Seq<u64> {
    seq![t.tv_sec as u64, t.tv_nsec as u64]
}

impl KernelView {
    /// The index of the first of `kids` that has exited and that
    /// `sys_wait4` with the number `pid` waits for.
    pub open spec fn first_zombie(self, kids: Seq<usize>, pid: isize) -> Option<int>
        decreases kids.len(),
    {
        if kids.len() == 0 {
            None
        } else {
            match self.first_zombie(kids.drop_last(), pid) {
                Some(i) => Some(i),
                None => if self.live(kids.last()) && self.task(kids.last()).task_status is Zombie
                    && wait_matches(pid, kids.last()) {
                    Some(kids.len() - 1)
                } else {
                    None
                },
            }
        }
    }

    /// What `sys_wait4` returns and leaves behind when it may collect up
    /// to `fuel` children that are not leaders of their thread group
    /// before it comes to an end.
    pub open spec fn wait4_steps(self, pid: isize, status: usize, option: u32, fuel: nat) -> (
        Option<isize>,
        Self,
    )
        decreases fuel,
    {
        let c = self.current.unwrap();
        let kids = self.children[c as int];
        if !has_match(kids, pid) {
            (Some(ECHILD), self)
        } else {
            match self.first_zombie(kids, pid) {
                Some(idx) => {
                    let z = kids[idx];
                    let gone = self.task(z);
                    let left = self.reap(c, idx);
                    if gone.pid == gone.tgid {
                        if status == 0 {
                            (Some(z as isize), left)
                        } else if left.cur_space().range_accessible(status, 4, true) {
                            (
                                Some(z as isize),
                                left.write_user(
                                    left.cur().vm,
                                    status,
                                    spec_u32_to_le_bytes(gone.exit_code),
                                ),
                            )
                        } else {
                            (Some(EFAULT), left)
                        }
                    } else if fuel > 0 {
                        left.wait4_steps(pid, status, option, (fuel - 1) as nat)
                    } else {
                        (Some(ECHILD), left)
                    }
                },
                None => if option & WNOHANG != 0 {
                    (Some(SUCCESS), self)
                } else {
                    (None, self.block_current(Blocked::Child { pid, status, option }))
                },
            }
        }
    }

    /// What `sys_wait4` returns and leaves behind.
    pub open spec fn sys_wait4(self, pid: isize, status: usize, option: u32) -> (
        Option<isize>,
        Self,
    ) {
        self.wait4_steps(pid, status, option, self.children[self.current.unwrap() as int].len())
    }

    /// The kernel after the task that runs asked to be woken at `end` and
    /// blocked in the system call `why`.
    pub open spec fn block_until(self, end: TimeSpec, why: Blocked) -> Self {
        KernelView {
            timers: self.timers.push(TimerEntry { expire: end, pid: self.current.unwrap() }),
            ..self
        }.block_current(why)
    }

    /// What `sys_nanosleep` returns and leaves behind.
    pub open spec fn sys_nanosleep(self, req: usize, rem: usize) -> (Option<isize>, Self) {
        if req == 0 {
            (Some(EINVAL), self)
        } else if !self.cur_space().range_accessible(req, 16, false) {
            (Some(EFAULT), self)
        } else {
            match self.now().spec_checked_add(spec_timespec_at(self.cur_space(), req)) {
                None => (Some(EINVAL), self),
                Some(end) => (None, self.block_until(end, Blocked::Sleep { end, rem })),
            }
        }
    }

    /// What a task gets that stores the time `t` at `addr`, unless `addr`
    /// is 0, and then returns `r`: `r`, or a bad address.
    pub open spec fn report_time(self, addr: usize, t: TimeSpec, r: isize) -> (
        Option<isize>,
        Self,
    ) {
        if addr == 0 {
            (Some(r), self)
        } else if self.cur_space().range_accessible(addr, 16, true) {
            (
                Some(r),
                self.write_user(self.cur().vm, addr, words_to_bytes(spec_timespec_words(t))),
            )
        } else {
            (Some(EFAULT), self)
        }
    }

    /// What a task that slept until `end` gets when it runs again, and
    /// what it leaves behind: with a signal pending it is interrupted and
    /// the time left goes to `rem`; at or after `end` it has slept and no
    /// time is left; before `end` without a signal it sleeps on.
    pub open spec fn nanosleep_resume(self, end: TimeSpec, rem: usize) -> (Option<isize>, Self) {
        let c = self.current.unwrap();
        if self.cur().sigpending.bits != 0 {
            self.settle(c).report_time(rem, end.spec_saturating_sub(self.now()), EINTR)
        } else if end.nanos() <= self.now().nanos() {
            self.settle(c).report_time(rem, TimeSpec { tv_sec: 0, tv_nsec: 0 }, SUCCESS)
        } else {
            (None, self.block_current(Blocked::Sleep { end, rem }))
        }
    }

    /// What a task that waited on the futex word at `addr` gets when it
    /// runs again, and what it leaves behind: with a signal pending that
    /// it does not mask it is interrupted; out of the queue it was woken;
    /// at or after the end of a timed wait it has timed out; otherwise it
    /// waits on.
    pub open spec fn futex_resume(self, addr: usize, timed: bool, end: TimeSpec) -> (
        Option<isize>,
        Self,
    ) {
        let c = self.current.unwrap();
        let vm = self.cur().vm;
        if self.cur().spec_has_unmasked_signal() {
            (Some(EINTR), self.settle(c).futex_leave(vm, c))
        } else if !self.futex_queued(vm, c) {
            (Some(SUCCESS), self.settle(c).futex_leave(vm, c))
        } else if timed && end.nanos() <= self.now().nanos() {
            (Some(ETIMEDOUT), self.settle(c).futex_leave(vm, c))
        } else {
            (None, self.block_current(Blocked::Futex { addr, timed, end }))
        }
    }

    /// What `resume_blocked` returns and leaves behind.
    pub open spec fn resume_blocked(self) -> (Option<isize>, Self) {
        let c = self.current.unwrap();
        match self.cur().blocked {
            Blocked::Nothing => (Some(SUCCESS), self),
            Blocked::Sleep { end, rem } => self.nanosleep_resume(end, rem),
            Blocked::Child { pid, status, option } => self.settle(c).sys_wait4(
                pid,
                status,
                option,
            ),
            Blocked::Futex { addr, timed, end } => self.futex_resume(addr, timed, end),
            Blocked::SigWait { set, info, timed, end } => self.sigwait_step(
                set,
                info,
                timed,
                end,
            ),
        }
    }

    /// What the waiting call of `sys_futex` returns and leaves behind.
    pub open spec fn futex_wait(self, uaddr: usize, val: u32, timeout: usize) -> (
        Option<isize>,
        Self,
    ) {
        let c = self.current.unwrap();
        let vm = self.cur().vm;
        let zero = TimeSpec { tv_sec: 0, tv_nsec: 0 };
        if timeout != 0 && !self.cur_space().range_accessible(timeout, 16, false) {
            (Some(EFAULT), self)
        } else if self.cur_space().u32_at(uaddr) != val {
            (Some(EAGAIN), self)
        } else if timeout == 0 {
            (
                None,
                self.futex_enqueue(vm, uaddr, c).block_current(
                    Blocked::Futex { addr: uaddr, timed: false, end: zero },
                ),
            )
        } else {
            match self.now().spec_checked_add(spec_timespec_at(self.cur_space(), timeout)) {
                None => (Some(EINVAL), self),
                Some(end) => (
                    None,
                    self.futex_enqueue(vm, uaddr, c).block_until(
                        end,
                        Blocked::Futex { addr: uaddr, timed: true, end },
                    ),
                ),
            }
        }
    }

    /// Whether `sys_futex` comes to look at the command: the futex word
    /// is at a valid address that user code may write.
    pub open spec fn futex_word_ok(self, uaddr: usize) -> bool {
        uaddr != 0 && uaddr % 4 == 0 && self.cur_space().range_accessible(uaddr, 4, true)
    }

    /// What `sys_futex` returns and leaves behind.
    pub open spec fn sys_futex(
        self,
        uaddr: usize,
        futex_op: u32,
        val: u32,
        timeout: usize,
        uaddr2: usize,
    ) -> (Option<isize>, Self) {
        let vm = self.cur().vm;
        let cmd = futex_op & 0x7f;
        if uaddr == 0 || uaddr % 4 != 0 {
            (Some(EINVAL), self)
        } else if !self.cur_space().range_accessible(uaddr, 4, true) {
            (Some(EFAULT), self)
        } else if cmd == FUTEX_WAIT {
            self.futex_wait(uaddr, val, timeout)
        } else if cmd == FUTEX_WAKE {
            (Some(self.futex_wake(vm, uaddr, val).0), self.futex_wake(vm, uaddr, val).1)
        } else if cmd == FUTEX_REQUEUE {
            if uaddr2 == 0 || uaddr2 % 4 != 0 {
                (Some(EINVAL), self)
            } else if !self.cur_space().range_accessible(uaddr2, 4, true) {
                (Some(EFAULT), self)
            } else {
                (
                    Some(self.futex_requeue(vm, uaddr, uaddr2, val, timeout as u32).0),
                    self.futex_requeue(vm, uaddr, uaddr2, val, timeout as u32).1,
                )
            }
        } else {
            (Some(EINVAL), self)
        }
    }
}

/// `first_zombie` gives the first child that has exited and is waited for,
/// and none only where there is no such child.
pub proof fn lemma_first_zombie(k: KernelView, kids: Seq<usize>, pid: isize)
    ensures
        match k.first_zombie(kids, pid) {
            Some(i) => 0 <= i < kids.len() && k.live(kids[i]) && k.task(kids[i]).task_status
                is Zombie && wait_matches(pid, kids[i]) && forall|j: int|
                0 <= j < i ==> !(k.live(#[trigger] kids[j]) && k.task(kids[j]).task_status
                    is Zombie && wait_matches(pid, kids[j])),
            None => forall|j: int|
                0 <= j < kids.len() ==> !(k.live(#[trigger] kids[j]) && k.task(
                    kids[j],
                ).task_status is Zombie && wait_matches(pid, kids[j])),
        },
    decreases kids.len(),
{
    if kids.len() > 0 {
        let d = kids.drop_last();
        lemma_first_zombie(k, d, pid);
        match k.first_zombie(d, pid) {
            Some(i) => {
                assert(d[i] == kids[i]);
                assert forall|j: int| 0 <= j < i implies !(k.live(#[trigger] kids[j]) && k.task(
                    kids[j],
                ).task_status is Zombie && wait_matches(pid, kids[j])) by {
                    assert(d[j] == kids[j]);
                }
            },
            None => {
                assert forall|j: int| 0 <= j < kids.len() - 1 implies !(k.live(
                    #[trigger] kids[j],
                ) && k.task(kids[j]).task_status is Zombie && wait_matches(pid, kids[j])) by {
                    assert(d[j] == kids[j]);
                }
            },
        }
    }
}

impl Kernel {
    /// Whether `sys_wait4` with the number `pid` waits for a child of the
    /// task `c`.
    fn has_matching_child(&self, c: usize, pid: isize) -> (r: bool)
        requires
            c < self@.children.len(),
        ensures
            r == has_match(self@.children[c as int], pid),
    {
        let ghost kids = self.children@[c as int]@;
        let mut i: usize = 0;
        while i < self.children[c].len()
            invariant
                c < self.children@.len(),
                kids == self.children@[c as int]@,
                kids == self@.children[c as int],
                i <= kids.len(),
                forall|j: int| 0 <= j < i ==> !wait_matches(pid, #[trigger] kids[j]),
            decreases kids.len() - i,
        {
            let kid = self.children[c][i];
            let wanted: usize = #[verifier::truncate]
            (pid as usize);
            if pid == -1 || wanted == kid {
                proof {
                    assert(wait_matches(pid, kids[i as int]));
                }
                return true;
            }
            i += 1;
        }
        false
    }

    /// The index of the first child of the task `c` that has exited and
    /// that `sys_wait4` with the number `pid` waits for.
    fn first_zombie_child(&self, c: usize, pid: isize) -> (r: Option<usize>)
        requires
            self.wf(),
            c < self@.children.len(),
        ensures
            match r {
                Some(i) => self@.first_zombie(self@.children[c as int], pid) == Some(i as int),
                None => self@.first_zombie(self@.children[c as int], pid) is None,
            },
    {
        let ghost kids = self.children@[c as int]@;
        let mut i: usize = 0;
        while i < self.children[c].len()
            invariant
                self.wf(),
                c < self.children@.len(),
                kids == self.children@[c as int]@,
                kids == self@.children[c as int],
                i <= kids.len(),
                forall|j: int|
                    0 <= j < i ==> !(self@.live(#[trigger] kids[j]) && self@.task(
                        kids[j],
                    ).task_status is Zombie && wait_matches(pid, kids[j])),
            decreases kids.len() - i,
        {
            let kid = self.children[c][i];
            proof {
                assert(self@.live(self@.children[c as int][i as int]));
            }
            let wanted: usize = #[verifier::truncate]
            (pid as usize);
            if self.task(kid).is_zombie() && (pid == -1 || wanted == kid) {
                proof {
                    lemma_first_zombie(self@, kids, pid);
                }
                return Some(i);
            }
            i += 1;
        }
        proof {
            lemma_first_zombie(self@, kids, pid);
        }
        None
    }

    /// The time that the address space `s` holds at `addr`.
    pub fn read_timespec(&self, s: usize, addr: usize) -> (r: Result<TimeSpec, isize>)
        requires
            s < self@.spaces.len(),
        ensures
            r is Ok <==> self@.spaces[s as int].range_accessible(addr, 16, false),
            r is Ok ==> r.unwrap() == spec_timespec_at(self@.spaces[s as int], addr),
            r is Err ==> r.unwrap_err() == EFAULT,
    {
        match self.read_user_words(s, addr, 2) {
            Ok(words) => {
                let sec: usize = #[verifier::truncate]
                (words[0] as usize);
                let nsec: usize = #[verifier::truncate]
                (words[1] as usize);
                Ok(TimeSpec { tv_sec: sec, tv_nsec: nsec })
            },
            Err(e) => Err(e),
        }
    }

    /// Stores the time `t` at `addr` in the address space of the task that
    /// runs, unless `addr` is 0, and gives `r`, or a bad address.
    fn report_time(&mut self, addr: usize, t: TimeSpec, r: isize) -> (out: Option<isize>)
        requires
            old(self).wf(),
            old(self)@.current is Some,
        ensures
            final(self).wf(),
            (out, final(self)@) == old(self)@.report_time(addr, t, r),
    {
        if addr == 0 {
            return Some(r);
        }
        let vm = self.current_task().vm;
        let mut words: Vec<u64> = Vec::new();
        words.push(t.tv_sec as u64);
        words.push(t.tv_nsec as u64);
        proof {
            assert(words@ =~= spec_timespec_words(t));
        }
        match self.write_user_words(vm, addr, &words) {
            Ok(_) => Some(r),
            Err(e) => Some(e),
        }
    }

    /// Asks for the task that runs to be woken at `end` and blocks it in
    /// the system call `why`.
    pub fn block_until(&mut self, end: TimeSpec, why: Blocked)
        requires
            old(self).wf(),
            old(self)@.current is Some,
            end.normal(),
            why.wf(),
        ensures
            final(self).wf(),
            final(self)@ == old(self)@.block_until(end, why),
    {
        let c = self.current.unwrap();
        self.wait_with_timeout(c, end);
        self.block_current_and_run_next(why);
    }
}

/// Waits for a child of the task that runs to exit, collects it and gives
/// its number. A `pid` of -1 waits for any child, another `pid` for the
/// child with that number; without such a child the call fails. The first
/// such child that has exited is taken out of the children and out of the
/// table of tasks. If it led its thread group, its exit status is stored
/// at `status`, unless `status` is 0, and its number is returned;
/// otherwise the search goes on. While no such child has exited, the call
/// returns 0 with the option not to hang, and blocks without it. Unknown
/// options are not served.
pub fn sys_wait4(k: &mut Kernel, pid: isize, status: usize, option: u32, _ru: usize) -> (r: Option<
    isize,
>)
    requires
        old(k).wf(),
        old(k)@.current is Some,
        valid_wait_option(option),
    ensures
        final(k).wf(),
        (r, final(k)@) == old(k)@.sys_wait4(pid, status, option),
{
    let c = k.current.unwrap();
    let ghost goal = old(k)@.sys_wait4(pid, status, option);
    let ghost mut fuel: nat = k@.children[c as int].len();
    loop
        invariant
            k.wf(),
            k@.current == Some(c),
            fuel >= k@.children[c as int].len(),
            k@.wait4_steps(pid, status, option, fuel) == goal,
            goal == old(k)@.sys_wait4(pid, status, option),
            valid_wait_option(option),
        decreases fuel,
    {
        proof {
            assert(k@.live(c));
            assert(c < k@.children.len());
        }
        if !k.has_matching_child(c, pid) {
            return Some(ECHILD);
        }
        match k.first_zombie_child(c, pid) {
            Some(idx) => {
                proof {
                    lemma_first_zombie(k@, k@.children[c as int], pid);
                    lemma_reap_wf(k@, c, idx as int);
                }
                let z = k.children[c][idx];
                let gone = *k.task(z);
                let ghost before = k@;
                k.reap(c, idx);
                if gone.pid == gone.tgid {
                    proof {
                        assert(before.task(z).pid == z);
                    }
                    if status != 0 {
                        let vm = k.current_task().vm;
                        match k.write_user_u32(vm, status, gone.exit_code) {
                            Ok(_) => {},
                            Err(errno) => return Some(errno),
                        };
                    }
                    return Some(z as isize);
                }
                proof {
                    fuel = (fuel - 1) as nat;
                }
            },
            None => {
                if option & WNOHANG != 0 {
                    return Some(SUCCESS);
                } else {
                    k.block_current_and_run_next(Blocked::Child { pid, status, option });
                    return None;
                }
            },
        }
    }
}

/// Puts the task that runs to sleep for the time at `req`: it blocks until
/// the clock reaches the end of that time or a signal wakes it. Without a
/// `req`, and with a time that is not normal or whose end does not fit,
/// the call is invalid.
pub fn sys_nanosleep(k: &mut Kernel, req: usize, rem: usize) -> (r: Option<isize>)
    requires
        old(k).wf(),
        old(k)@.current is Some,
    ensures
        final(k).wf(),
        (r, final(k)@) == old(k)@.sys_nanosleep(req, rem),
{
    if req == 0 {
        return Some(EINVAL);
    }
    let vm = k.current_task().vm;
    let req = match k.read_timespec(vm, req) {
        Ok(req) => req,
        Err(errno) => return Some(errno),
    };
    let end = match k.now().checked_add(&req) {
        Some(end) => end,
        None => return Some(EINVAL),
    };
    k.block_until(end, Blocked::Sleep { end, rem });
    None
}

/// Finishes the sleep of the task that runs, as `nanosleep_resume` says.
fn nanosleep_resume(k: &mut Kernel, end: TimeSpec, rem: usize) -> (r: Option<isize>)
    requires
        old(k).wf(),
        old(k)@.current is Some,
        end.normal(),
    ensures
        final(k).wf(),
        (r, final(k)@) == old(k)@.nanosleep_resume(end, rem),
{
    let c = k.current.unwrap();
    let now = k.now();
    let pending = k.current_task().sigpending;
    if !pending.is_empty() {
        proof {
            lemma_settle_wf(k@, c);
        }
        k.settle(c);
        k.report_time(rem, end.saturating_sub(&now), EINTR)
    } else if end.le(&now) {
        proof {
            lemma_settle_wf(k@, c);
        }
        k.settle(c);
        k.report_time(rem, TimeSpec::new(), SUCCESS)
    } else {
        k.block_current_and_run_next(Blocked::Sleep { end, rem });
        None
    }
}

/// Finishes the futex wait of the task that runs, as `futex_resume` says.
fn futex_resume(k: &mut Kernel, addr: usize, timed: bool, end: TimeSpec) -> (r: Option<isize>)
    requires
        old(k).wf(),
        old(k)@.current is Some,
        timed ==> end.normal(),
    ensures
        final(k).wf(),
        (r, final(k)@) == old(k)@.futex_resume(addr, timed, end),
{
    let c = k.current.unwrap();
    let me = *k.current_task();
    let vm = me.vm;
    let now = k.now();
    proof {
        lemma_settle_wf(k@, c);
    }
    if me.has_unmasked_signal() {
        k.settle(c);
        k.futex_leave(vm, c);
        Some(EINTR)
    } else if !k.is_futex_queued(vm, c) {
        k.settle(c);
        k.futex_leave(vm, c);
        Some(SUCCESS)
    } else if timed && end.le(&now) {
        k.settle(c);
        k.futex_leave(vm, c);
        Some(ETIMEDOUT)
    } else {
        k.block_current_and_run_next(Blocked::Futex { addr, timed, end });
        None
    }
}

/// Finishes the system call in which the task that runs was blocked, and
/// gives what the call returns; `None` where the task blocks again. A task
/// that was blocked in no call gets 0.
pub fn resume_blocked(k: &mut Kernel) -> (r: Option<isize>)
    requires
        old(k).wf(),
        old(k)@.current is Some,
    ensures
        final(k).wf(),
        (r, final(k)@) == old(k)@.resume_blocked(),
{
    let c = k.current.unwrap();
    let blocked = k.current_task().blocked;
    match blocked {
        Blocked::Nothing => Some(SUCCESS),
        Blocked::Sleep { end, rem } => nanosleep_resume(k, end, rem),
        Blocked::Child { pid, status, option } => {
            proof {
                lemma_settle_wf(k@, c);
            }
            k.settle(c);
            sys_wait4(k, pid, status, option, 0)
        },
        Blocked::Futex { addr, timed, end } => futex_resume(k, addr, timed, end),
        Blocked::SigWait { set, info, timed, end } => crate::syscall::signal::sigwait_step(
            k,
            set,
            info,
            timed,
            end,
        ),
    }
}

/// The waiting call of `sys_futex`: the task that runs joins the waiters on
/// the word at `uaddr` and blocks, for the time at `timeout` at most,
/// unless the word no longer holds `val`: then it is to try again.
fn do_futex_wait(k: &mut Kernel, uaddr: usize, val: u32, timeout: usize) -> (r: Option<isize>)
    requires
        old(k).wf(),
        old(k)@.current is Some,
        old(k)@.cur_space().range_accessible(uaddr, 4, true),
    ensures
        final(k).wf(),
        (r, final(k)@) == old(k)@.futex_wait(uaddr, val, timeout),
{
    let c = k.current.unwrap();
    let vm = k.current_task().vm;
    let timeout = if timeout != 0 {
        match k.read_timespec(vm, timeout) {
            Ok(t) => Some(t),
            Err(errno) => return Some(errno),
        }
    } else {
        None
    };
    let word = k.spaces[vm].peek_u32(uaddr);
    if word != val {
        return Some(EAGAIN);
    }
    match timeout {
        None => {
            k.futex_enqueue(vm, uaddr, c);
            k.block_current_and_run_next(
                Blocked::Futex { addr: uaddr, timed: false, end: TimeSpec::new() },
            );
            None
        },
        Some(t) => {
            let end = match k.now().checked_add(&t) {
                Some(end) => end,
                None => return Some(EINVAL),
            };
            k.futex_enqueue(vm, uaddr, c);
            k.block_until(end, Blocked::Futex { addr: uaddr, timed: true, end });
            None
        },
    }
}

/// The futex calls of the task that runs on the word at `uaddr`: wait
/// while the word holds `val`, wake up to `val` waiters, or wake up to
/// `val` waiters and move up to as many as the low 32 bits of `timeout`
/// say to the word at `uaddr2`. A word at address 0 or at an address that
/// is not a multiple of 4 is invalid, a word that user code may not write
/// is at a bad address, and a command number that names no command is
/// invalid. The commands that are known but not served are left out.
pub fn sys_futex(
    k: &mut Kernel,
    uaddr: usize,
    futex_op: u32,
    val: u32,
    timeout: usize,
    uaddr2: usize,
    _val3: u32,
) -> (r: Option<isize>)
    requires
        old(k).wf(),
        old(k)@.current is Some,
        old(k)@.futex_word_ok(uaddr) ==> futex_command_served(futex_op),
    ensures
        final(k).wf(),
        (r, final(k)@) == old(k)@.sys_futex(uaddr, futex_op, val, timeout, uaddr2),
{
    let vm = k.current_task().vm;
    if uaddr == 0 || uaddr % 4 != 0 {
        return Some(EINVAL);
    }
    if !k.spaces[vm].can_access_range(uaddr, 4, true) {
        return Some(EFAULT);
    }
    let cmd = futex_op & 0x7fu32;
    if cmd == FUTEX_WAIT {
        do_futex_wait(k, uaddr, val, timeout)
    } else if cmd == FUTEX_WAKE {
        Some(k.futex_wake(vm, uaddr, val))
    } else if cmd == FUTEX_REQUEUE {
        if uaddr2 == 0 || uaddr2 % 4 != 0 {
            return Some(EINVAL);
        }
        if !k.spaces[vm].can_access_range(uaddr2, 4, true) {
            return Some(EFAULT);
        }
        let move_n: u32 = #[verifier::truncate]
        (timeout as u32);
        Some(k.futex_requeue(vm, uaddr, uaddr2, val, move_n))
    } else {
        Some(EINVAL)
    }
}

} // verus!
