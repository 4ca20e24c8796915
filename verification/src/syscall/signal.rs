//! The system calls on the signals of the task that runs: its mask, its
//! actions, and waiting for a signal.

use vstd::prelude::*;

use crate::syscall::blocking::spec_timespec_at;
use crate::syscall::errno::{EAGAIN, EFAULT, EINTR, EINVAL, SUCCESS};
use crate::task::kernel::{lemma_same_tables_wf, lemma_with_task_wf, Kernel, KernelView};
use crate::task::signal::{
    action_of, entries_without, signal_bit, SigAction, SigActionEntry, Signals,
};
use crate::task::spawn::lemma_settle_wf;
use crate::task::tcb::{Blocked, TaskControlBlock};
use crate::timer::TimeSpec;

verus! {

/// `sys_sigprocmask` adds the signals to the mask.
pub const SIG_BLOCK: u32 = 0;

/// `sys_sigprocmask` takes the signals out of the mask.
pub const SIG_UNBLOCK: u32 = 1;

/// `sys_sigprocmask` puts the signals in place of the mask.
pub const SIG_SETMASK: u32 = 2;

/// The signals that no task masks or handles: those that kill and stop.
pub const UNMASKABLE: u64 = (1 << 8) | (1 << 18);

/// The bytes that tell user code which signal came, on its stack.
pub const SIGINFO_SIZE: usize = 128;

/// From the start of the saved context to the mask that it holds: two
/// words and the record of the signal stack.
pub const SAVED_MASK_OFFSET: usize = 40;

/// Where the frame of a signal handler whose stack pointer is `sp` holds
/// the mask that the task had before the signal: behind the bytes on the
/// signal, from the next address that is a multiple of 8.
pub open spec fn spec_saved_mask_addr(sp: usize) -> int {
    (sp + SIGINFO_SIZE + 7) / 8 * 8 + SAVED_MASK_OFFSET
}

/// The words that stand for an action in the memory of user code.
pub open spec fn spec_sigaction_words(a: SigAction) -> Seq<u64> {
    seq![a.handler as u64, a.flags as u64, a.restorer as u64, a.mask.bits]
}

/// The words that tell user code which signal came: its number, and
/// fifteen words that are not kept.
pub open spec fn spec_siginfo_words(signum: usize) -> Seq<u64> {
    seq![signum as u64] + Seq::new(15, |i: int| 0u64)
}

/// The mask that `sys_sigprocmask` makes of the mask `mask` and the
/// signals `set`, without the signals that no task masks.
pub open spec fn spec_new_mask(how: u32, mask: u64, set: u64) -> u64 {
    (if how == SIG_BLOCK {
        mask | set
    } else if how == SIG_UNBLOCK {
        mask & !set
    } else {
        set
    }) & !UNMASKABLE
}

impl KernelView {
    /// What `sys_sigprocmask` returns and leaves behind.
    pub open spec fn sys_sigprocmask(self, how: u32, set: usize, oldset: usize) -> (isize, Self) {
        let c = self.current.unwrap();
        let told = if oldset != 0 {
            self.store(oldset, seq![self.cur().sigmask.bits], SUCCESS)
        } else {
            (SUCCESS, self)
        };
        if told.0 != SUCCESS || set == 0 {
            told
        } else if !told.1.cur_space().range_accessible(set, 8, false) {
            (EFAULT, told.1)
        } else if how > 2 {
            (EINVAL, told.1)
        } else {
            (
                SUCCESS,
                told.1.with_task(
                    c,
                    TaskControlBlock {
                        sigmask: Signals {
                            bits: spec_new_mask(
                                how,
                                told.1.cur().sigmask.bits,
                                told.1.cur_space().u64_at(set),
                            ),
                        },
                        ..told.1.cur()
                    },
                ),
            )
        }
    }

    /// What `sys_sigaction` returns and leaves behind.
    pub open spec fn sys_sigaction(self, signum: usize, act: usize, oldact: usize) -> (
        isize,
        Self,
    ) {
        let c = self.current.unwrap();
        if signum == 0 || signum > 64 || signum == 9 || signum == 19 {
            (EINVAL, self)
        } else {
            let told = if oldact != 0 {
                self.store(
                    oldact,
                    spec_sigaction_words(action_of(self.sigactions, c, signum)),
                    SUCCESS,
                )
            } else {
                (SUCCESS, self)
            };
            if told.0 != SUCCESS || act == 0 {
                told
            } else if !told.1.cur_space().range_accessible(act, 32, false) {
                (EFAULT, told.1)
            } else {
                let w = told.1.user_words(told.1.cur().vm, act, 4);
                let action = SigAction {
                    handler: w[0] as usize,
                    flags: w[1] as usize,
                    restorer: w[2] as usize,
                    mask: Signals { bits: w[3] & !UNMASKABLE },
                };
                (
                    SUCCESS,
                    KernelView {
                        sigactions: entries_without(told.1.sigactions, c, signum).push(
                            SigActionEntry { pid: c, signum, action },
                        ),
                        ..told.1
                    },
                )
            }
        }
    }

    /// The kernel after the task that runs came back from a signal
    /// handler: it has the mask again that the frame of the handler holds.
    pub open spec fn sys_sigreturn(self) -> Self {
        let c = self.current.unwrap();
        self.with_task(
            c,
            TaskControlBlock {
                sigmask: Signals {
                    bits: self.cur_space().u64_at(
                        spec_saved_mask_addr(self.cur().user_sp) as usize,
                    ),
                },
                ..self.cur()
            },
        )
    }

    /// What a task gets that takes the pending signal `signum`, and what
    /// it leaves behind: the signal is no longer pending, its number goes
    /// to `info`, unless `info` is 0, and is returned.
    pub open spec fn take_signal(self, info: usize, signum: usize) -> (Option<isize>, Self) {
        let c = self.current.unwrap();
        let taken = self.with_task(
            c,
            TaskControlBlock {
                sigpending: Signals { bits: self.cur().sigpending.bits & !signal_bit(signum) },
                ..self.cur()
            },
        );
        if info == 0 {
            (Some(signum as isize), taken)
        } else {
            let r = taken.store(info, spec_siginfo_words(signum), signum as isize);
            (Some(r.0), r.1)
        }
    }

    /// What a task that waits for one of the signals `set` gets, and what
    /// it leaves behind: the lowest such signal that is pending; at or
    /// after the end of a timed wait, the word to try again; with another
    /// signal pending that it does not mask, an interruption; otherwise it
    /// blocks.
    pub open spec fn sigwait_step(self, set: u64, info: usize, timed: bool, end: TimeSpec) -> (
        Option<isize>,
        Self,
    ) {
        let c = self.current.unwrap();
        let calm = self.settle(c);
        match (Signals { bits: self.cur().sigpending.bits & set }).spec_first() {
            Some(signum) => calm.take_signal(info, signum),
            None => if timed && end.nanos() <= self.now().nanos() {
                (Some(EAGAIN), calm)
            } else if self.cur().spec_has_unmasked_signal() {
                (Some(EINTR), calm)
            } else if timed {
                (None, calm.block_until(end, Blocked::SigWait { set, info, timed, end }))
            } else {
                (None, calm.block_current(Blocked::SigWait { set, info, timed, end }))
            },
        }
    }

    /// What `sys_sigtimedwait` returns and leaves behind.
    pub open spec fn sys_sigtimedwait(self, set: usize, info: usize, timeout: usize) -> (
        Option<isize>,
        Self,
    ) {
        if !self.cur_space().range_accessible(set, 8, false) {
            (Some(EFAULT), self)
        } else if timeout != 0 && !self.cur_space().range_accessible(timeout, 16, false) {
            (Some(EFAULT), self)
        } else if timeout == 0 {
            self.sigwait_step(
                self.cur_space().u64_at(set),
                info,
                false,
                TimeSpec { tv_sec: 0, tv_nsec: 0 },
            )
        } else {
            match self.now().spec_checked_add(spec_timespec_at(self.cur_space(), timeout)) {
                None => (Some(EINVAL), self),
                Some(end) => self.sigwait_step(self.cur_space().u64_at(set), info, true, end),
            }
        }
    }
}

/// Changes the signals that the task that runs masks: the mask it had is
/// stored at `oldset`, and then the signals at `set` are added to the
/// mask, taken out of it, or put in its place, as `how` says; each only
/// where the address is not 0. The signals that kill and stop are never
/// masked. Another `how` is invalid.
pub fn sys_sigprocmask(k: &mut Kernel, how: u32, set: usize, oldset: usize) -> (r: isize)
    requires
        old(k).wf(),
        old(k)@.current is Some,
    ensures
        final(k).wf(),
        (r, final(k)@) == old(k)@.sys_sigprocmask(how, set, oldset),
{
    let c = k.current.unwrap();
    let vm = k.current_task().vm;
    if oldset != 0 {
        let mut words: Vec<u64> = Vec::new();
        words.push(k.current_task().sigmask.bits);
        proof {
            assert(words@ =~= seq![old(k)@.cur().sigmask.bits]);
        }
        let told = k.store(oldset, &words, SUCCESS);
        if told != SUCCESS {
            return told;
        }
    }
    if set == 0 {
        return SUCCESS;
    }
    let bits = match k.spaces[vm].read_u64(set) {
        Ok(bits) => bits,
        Err(errno) => return errno,
    };
    let mut t = *k.task(c);
    if how == SIG_BLOCK {
        t.sigmask.bits = (t.sigmask.bits | bits) & !UNMASKABLE;
    } else if how == SIG_UNBLOCK {
        t.sigmask.bits = (t.sigmask.bits & !bits) & !UNMASKABLE;
    } else if how == SIG_SETMASK {
        t.sigmask.bits = bits & !UNMASKABLE;
    } else {
        return EINVAL;
    }
    proof {
        lemma_with_task_wf(k@, c, t);
    }
    k.set_task(c, t);
    SUCCESS
}

/// Sets what the task that runs does when the signal with number `signum`
/// comes: the action it had is stored at `oldact`, and then the action at
/// `act` is set; each only where the address is not 0. The signals that
/// kill and stop are never masked while a handler runs. A number that
/// names no signal, and the signals that kill and stop, are invalid.
pub fn sys_sigaction(k: &mut Kernel, signum: usize, act: usize, oldact: usize) -> (r: isize)
    requires
        old(k).wf(),
        old(k)@.current is Some,
    ensures
        final(k).wf(),
        (r, final(k)@) == old(k)@.sys_sigaction(signum, act, oldact),
{
    if signum == 0 || signum > 64 || signum == 9 || signum == 19 {
        return EINVAL;
    }
    let c = k.current.unwrap();
    let vm = k.current_task().vm;
    if oldact != 0 {
        let had = k.action_of(c, signum);
        let mut words: Vec<u64> = Vec::new();
        words.push(had.handler as u64);
        words.push(had.flags as u64);
        words.push(had.restorer as u64);
        words.push(had.mask.bits);
        proof {
            assert(words@ =~= spec_sigaction_words(had));
        }
        let told = k.store(oldact, &words, SUCCESS);
        if told != SUCCESS {
            return told;
        }
    }
    if act == 0 {
        return SUCCESS;
    }
    let words = match k.read_user_words(vm, act, 4) {
        Ok(words) => words,
        Err(errno) => return errno,
    };
    let handler: usize = #[verifier::truncate]
    (words[0] as usize);
    let flags: usize = #[verifier::truncate]
    (words[1] as usize);
    let restorer: usize = #[verifier::truncate]
    (words[2] as usize);
    let action = SigAction {
        handler,
        flags,
        restorer,
        mask: Signals { bits: words[3] & !UNMASKABLE },
    };
    k.set_action(c, signum, action);
    SUCCESS
}

/// Ends a signal handler of the task that runs: the task gets the mask
/// again that the frame of the handler holds, which user code must be
/// able to read, and the call returns `a0`, the value that the first
/// argument register had, so that the register is as the handler left it.
pub fn sys_sigreturn(k: &mut Kernel, a0: usize) -> (r: isize)
    requires
        old(k).wf(),
        old(k)@.current is Some,
        spec_saved_mask_addr(old(k)@.cur().user_sp) + 8 <= usize::MAX,
        old(k)@.cur_space().range_accessible(
            spec_saved_mask_addr(old(k)@.cur().user_sp) as usize,
            8,
            false,
        ),
    ensures
        final(k).wf(),
        final(k)@ == old(k)@.sys_sigreturn(),
        r == a0 as isize,
{
    let c = k.current.unwrap();
    let mut t = *k.current_task();
    let at = (t.user_sp + SIGINFO_SIZE + 7) / 8 * 8 + SAVED_MASK_OFFSET;
    match k.spaces[t.vm].read_u64(at) {
        Ok(bits) => {
            t.sigmask.bits = bits;
        },
        Err(_) => {
            proof {
                assert(false);
            }
        },
    }
    proof {
        lemma_with_task_wf(k@, c, t);
    }
    k.set_task(c, t);
    #[verifier::truncate]
    (a0 as isize)
}

impl Kernel {
    /// The action that the task `pid` set for the signal `signum`, or the
    /// default.
    pub fn action_of(&self, pid: usize, signum: usize) -> (r: SigAction)
        ensures
            r == action_of(self@.sigactions, pid, signum),
    {
        let mut i: usize = self.sigactions.len();
        proof {
            assert(self.sigactions@.take(i as int) =~= self.sigactions@);
        }
        while i > 0
            invariant
                i <= self.sigactions@.len(),
                action_of(self.sigactions@, pid, signum) == action_of(
                    self.sigactions@.take(i as int),
                    pid,
                    signum,
                ),
            decreases i,
        {
            i -= 1;
            proof {
                assert(self.sigactions@.take(i + 1).drop_last() =~= self.sigactions@.take(
                    i as int,
                ));
            }
            let e = self.sigactions[i];
            if e.pid == pid && e.signum == signum {
                return e.action;
            }
        }
        SigAction::new()
    }

    /// Sets the action of the task `pid` for the signal `signum`.
    pub fn set_action(&mut self, pid: usize, signum: usize, action: SigAction)
        requires
            old(self).wf(),
        ensures
            final(self).wf(),
            final(self)@ == (KernelView {
                sigactions: entries_without(old(self)@.sigactions, pid, signum).push(
                    SigActionEntry { pid, signum, action },
                ),
                ..old(self)@
            }),
    {
        let mut kept: Vec<SigActionEntry> = Vec::new();
        let mut i: usize = 0;
        while i < self.sigactions.len()
            invariant
                i <= self.sigactions@.len(),
                self.sigactions@ == old(self).sigactions@,
                kept@ == entries_without(self.sigactions@.take(i as int), pid, signum),
            decreases self.sigactions@.len() - i,
        {
            proof {
                assert(self.sigactions@.take(i + 1).drop_last() =~= self.sigactions@.take(
                    i as int,
                ));
            }
            let e = self.sigactions[i];
            if !(e.pid == pid && e.signum == signum) {
                kept.push(e);
            }
            i += 1;
        }
        proof {
            assert(self.sigactions@.take(i as int) =~= self.sigactions@);
        }
        kept.push(SigActionEntry { pid, signum, action });
        self.sigactions = kept;
        proof {
            lemma_same_tables_wf(old(self)@, self@);
        }
    }
}

/// One look of a task that waits for one of the signals `set`, as
/// `sigwait_step` says.
pub fn sigwait_step(k: &mut Kernel, set: u64, info: usize, timed: bool, end: TimeSpec) -> (r: Option<
    isize,
>)
    requires
        old(k).wf(),
        old(k)@.current is Some,
        timed ==> end.normal(),
    ensures
        final(k).wf(),
        (r, final(k)@) == old(k)@.sigwait_step(set, info, timed, end),
{
    let c = k.current.unwrap();
    let me = *k.current_task();
    let now = k.now();
    proof {
        lemma_settle_wf(k@, c);
    }
    k.settle(c);
    let wanted = Signals { bits: me.sigpending.bits & set };
    match wanted.first() {
        Some(signum) => {
            let mut t = *k.task(c);
            let shift: u64 = (signum - 1) as u64;
            t.sigpending.bits = t.sigpending.bits & !(1u64 << shift);
            proof {
                lemma_with_task_wf(k@, c, t);
            }
            k.set_task(c, t);
            if info == 0 {
                return Some(signum as isize);
            }
            let mut words: Vec<u64> = Vec::new();
            words.push(signum as u64);
            let mut i: usize = 0;
            while i < 15
                invariant
                    i <= 15,
                    words@ =~= seq![signum as u64] + Seq::new(i as nat, |j: int| 0u64),
                decreases 15 - i,
            {
                words.push(0);
                i += 1;
            }
            Some(k.store(info, &words, signum as isize))
        },
        None => {
            if timed && end.le(&now) {
                Some(EAGAIN)
            } else if me.has_unmasked_signal() {
                Some(EINTR)
            } else if timed {
                k.block_until(end, Blocked::SigWait { set, info, timed, end });
                None
            } else {
                k.block_current_and_run_next(Blocked::SigWait { set, info, timed, end });
                None
            }
        },
    }
}

/// Waits for one of the signals at `set` to be pending for the task that
/// runs, takes the lowest one and gives its number, which also goes to
/// `info` unless `info` is 0. The wait ends after the time at `timeout`,
/// unless `timeout` is 0, with the word to try again, and with an
/// interruption when another signal comes that the task does not mask.
pub fn sys_sigtimedwait(k: &mut Kernel, set: usize, info: usize, timeout: usize) -> (r: Option<
    isize,
>)
    requires
        old(k).wf(),
        old(k)@.current is Some,
    ensures
        final(k).wf(),
        (r, final(k)@) == old(k)@.sys_sigtimedwait(set, info, timeout),
{
    let vm = k.current_task().vm;
    let bits = match k.spaces[vm].read_u64(set) {
        Ok(bits) => bits,
        Err(errno) => return Some(errno),
    };
    if timeout == 0 {
        return sigwait_step(k, bits, info, false, TimeSpec::new());
    }
    let t = match k.read_timespec(vm, timeout) {
        Ok(t) => t,
        Err(errno) => return Some(errno),
    };
    match k.now().checked_add(&t) {
        Some(end) => sigwait_step(k, bits, info, true, end),
        None => Some(EINVAL),
    }
}

} // verus!
