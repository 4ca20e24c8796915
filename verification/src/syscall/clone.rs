//! The system calls that make a task.

use vstd::bytes::spec_u32_to_le_bytes;
use vstd::prelude::*;

use crate::mm::memory_set::{lemma_write_elsewhere, lemma_write_then_read_u32};
use crate::syscall::errno::{EAGAIN, EFAULT};
use crate::task::kernel::{lemma_with_task_wf, Kernel, KernelView};
use crate::task::signal::{Signals, SIGCHLD};
use crate::task::spawn::{
    lemma_spawn_wf, CLONE_CHILD_CLEARTID, CLONE_CHILD_SETTID, CLONE_PARENT_SETTID, CLONE_VM,
};
use crate::task::tcb::TaskControlBlock;

verus! {

/// The signal that the low eight bits of the flags of `sys_clone` name for
/// the exit of the new task; none where they name no signal.
pub open spec fn spec_exit_signal(flags: u32) -> Signals {
    match Signals::spec_from_signum((flags & 0xff) as usize) {
        Some(signal) => signal,
        None => Signals { bits: 0 },
    }
}

impl KernelView {
    /// What `sys_clone` returns and leaves behind.
    pub open spec fn sys_clone(
        self,
        flags: u32,
        stack: usize,
        ptid: usize,
        tls: usize,
        ctid: usize,
    ) -> (isize, Self) {
        let c = self.current.unwrap();
        let how = flags & !0xffu32;
        if self.tasks.len() >= isize::MAX {
            (EAGAIN, self)
        } else {
            let pid = self.tasks.len() as usize;
            let made = self.spawn(c, how, stack, tls, spec_exit_signal(flags));
            let pvm = self.task(c).vm;
            let cvm = made.task(pid).vm;
            let word = spec_u32_to_le_bytes(pid as u32);
            if how & CLONE_PARENT_SETTID != 0 && !made.spaces[pvm as int].range_accessible(
                ptid,
                4,
                true,
            ) {
                (EFAULT, made)
            } else {
                let told = if how & CLONE_PARENT_SETTID != 0 {
                    made.write_user(pvm, ptid, word)
                } else {
                    made
                };
                if how & CLONE_CHILD_SETTID != 0 && !told.spaces[cvm as int].range_accessible(
                    ctid,
                    4,
                    true,
                ) {
                    (EFAULT, told)
                } else {
                    let set = if how & CLONE_CHILD_SETTID != 0 {
                        told.write_user(cvm, ctid, word)
                    } else {
                        told
                    };
                    let marked = if how & CLONE_CHILD_CLEARTID != 0 {
                        set.with_task(
                            pid,
                            TaskControlBlock { clear_child_tid: ctid, ..set.task(pid) },
                        )
                    } else {
                        set
                    };
                    (pid as isize, marked.add_task(pid))
                }
            }
        }
    }

    /// What `sys_fork` returns and leaves behind.
    pub open spec fn sys_fork(self) -> (isize, Self) {
        if self.tasks.len() >= isize::MAX {
            (EAGAIN, self)
        } else {
            let pid = self.tasks.len() as usize;
            (
                pid as isize,
                self.spawn(self.current.unwrap(), 0, 0, 0, Signals { bits: SIGCHLD }).add_task(
                    pid,
                ),
            )
        }
    }
}

/// Makes a new task for the task that runs and gives its number. The low
/// eight bits of `flags` name the signal that the parent gets when the new
/// task exits; the other bits say what the new task shares with its maker,
/// who its parent is, where its number is stored, and which address is
/// cleared when it exits. The new task joins the end of the ready queue
/// only after its number was stored: a bad address for the number leaves
/// it out of the queue. A full table of tasks makes no task.
pub fn sys_clone(k: &mut Kernel, flags: u32, stack: usize, ptid: usize, tls: usize, ctid: usize) -> (r:
    isize)
    requires
        old(k).wf(),
        old(k)@.current is Some,
    ensures
        final(k).wf(),
        (r, final(k)@) == old(k)@.sys_clone(flags, stack, ptid, tls, ctid),
{
    let parent = k.current.unwrap();
    let exit_signal = match Signals::from_signum((flags & 0xff) as usize) {
        Ok(signal) => signal,
        Err(_) => Signals::empty(),
    };
    let flags = flags & !0xffu32;
    if k.tasks.len() >= isize::MAX as usize {
        return EAGAIN;
    }
    let parent_vm = k.task(parent).vm;
    proof {
        lemma_spawn_wf(k@, parent, flags, stack, tls, exit_signal);
    }
    let new_pid = k.spawn(parent, flags, stack, tls, exit_signal);
    let child_vm = k.task(new_pid).vm;
    let word: u32 = #[verifier::truncate]
    (new_pid as u32);
    if flags & CLONE_PARENT_SETTID != 0 {
        match k.write_user_u32(parent_vm, ptid, word) {
            Ok(_) => {},
            Err(errno) => return errno,
        };
    }
    if flags & CLONE_CHILD_SETTID != 0 {
        match k.write_user_u32(child_vm, ctid, word) {
            Ok(_) => {},
            Err(errno) => return errno,
        };
    }
    if flags & CLONE_CHILD_CLEARTID != 0 {
        let mut t = *k.task(new_pid);
        t.clear_child_tid = ctid;
        proof {
            lemma_with_task_wf(k@, new_pid, t);
        }
        k.set_task(new_pid, t);
    }
    k.add_task(new_pid);
    new_pid as isize
}

/// Makes a new process for the task that runs and gives its number: a task
/// with a copy of the address space, whose parent gets the child signal
/// when it exits. A full table of tasks makes no task.
pub fn sys_fork(k: &mut Kernel) -> (r: isize)
    requires
        old(k).wf(),
        old(k)@.current is Some,
    ensures
        final(k).wf(),
        (r, final(k)@) == old(k)@.sys_fork(),
{
    let exit_signal = Signals::from_bits_truncate(SIGCHLD);
    let parent = k.current.unwrap();
    if k.tasks.len() >= isize::MAX as usize {
        return EAGAIN;
    }
    proof {
        lemma_spawn_wf(k@, parent, 0, 0, 0, exit_signal);
    }
    let new_pid = k.spawn(parent, 0, 0, 0, exit_signal);
    k.add_task(new_pid);
    new_pid as isize
}

/// Where a task is made with its number stored both in the memory of its
/// maker and in its own memory, the same number, that of the new task, is
/// read at both addresses. Where the two share one address space, this
/// holds of addresses that are the same or whose words do not overlap.
pub proof fn law_clone_stores_one_number(
    k: KernelView,
    flags: u32,
    stack: usize,
    ptid: usize,
    tls: usize,
    ctid: usize,
)
    requires
        k.wf(),
        k.current is Some,
        flags & CLONE_PARENT_SETTID != 0,
        flags & CLONE_CHILD_SETTID != 0,
        k.sys_clone(flags, stack, ptid, tls, ctid).0 >= 0,
        flags & CLONE_VM != 0 ==> ptid == ctid || ptid + 4 <= ctid || ctid + 4 <= ptid,
    ensures
        ({
            let r = k.sys_clone(flags, stack, ptid, tls, ctid);
            let pid = r.0 as usize;
            &&& pid == k.tasks.len()
            &&& r.1.live(pid)
            &&& r.1.spaces[k.cur().vm as int].u32_at(ptid) == pid as u32
            &&& r.1.spaces[r.1.task(pid).vm as int].u32_at(ctid) == pid as u32
        }),
{
    let c = k.current.unwrap();
    let how = flags & !0xffu32;
    assert(how & CLONE_PARENT_SETTID != 0 && how & CLONE_CHILD_SETTID != 0 && (how & CLONE_VM != 0)
        == (flags & CLONE_VM != 0)) by (bit_vector)
        requires
            how == flags & !0xffu32,
            flags & CLONE_PARENT_SETTID != 0,
            flags & CLONE_CHILD_SETTID != 0,
    ;
    let pid = k.tasks.len() as usize;
    let made = k.spawn(c, how, stack, tls, spec_exit_signal(flags));
    lemma_spawn_wf(k, c, how, stack, tls, spec_exit_signal(flags));
    let pvm = k.task(c).vm;
    let cvm = made.task(pid).vm;
    let word = spec_u32_to_le_bytes(pid as u32);
    let told = made.write_user(pvm, ptid, word);
    let set = told.write_user(cvm, ctid, word);
    vstd::bytes::lemma_auto_spec_u32_to_from_le_bytes();
    assert(k.task(c).pid == c);
    lemma_write_then_read_u32(made.spaces[pvm as int], ptid, pid as u32);
    lemma_write_then_read_u32(told.spaces[cvm as int], ctid, pid as u32);
    if pvm == cvm {
        assert(pvm < k.spaces.len());
        assert(made.task(pid) == k.spawn_child(c, how, stack, tls, spec_exit_signal(flags)));
        assert(how & CLONE_VM != 0);
        assert(word.len() == 4);
        if ptid != ctid {
            lemma_write_elsewhere(told.spaces[cvm as int], ctid, word, ptid, 4);
        }
    }
}

} // verus!
