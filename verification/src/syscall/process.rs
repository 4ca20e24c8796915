//! The system calls on tasks: identity, exit, signals and yielding.

use vstd::prelude::*;

use crate::arch::acpi::Pm1Cnt;
use crate::syscall::errno::{EINVAL, ESRCH, SUCCESS};
use crate::task::kernel::{
    group_member, lemma_same_tables_wf, lemma_with_task_wf, Kernel, KernelView,
};
use crate::task::signal::Signals;
use crate::task::tcb::{RobustList, TaskControlBlock, ROBUST_LIST_HEAD_SIZE};

verus! {

/// The exit code as a parent reads it: the low eight bits of `exit_code`,
/// moved up by eight bits.
pub open spec fn spec_exit_status(exit_code: u32) -> u32 {
    (exit_code & 0xff) << 8
}

/// The exit code as a parent reads it: the low eight bits of `exit_code`,
/// moved up by eight bits.
pub fn exit_status(exit_code: u32) -> (r: u32)
    ensures
        r == spec_exit_status(exit_code),
{
    (exit_code & 0xff) << 8
}

/// Asks the machine for the soft-off state.
pub fn sys_shutdown(k: &mut Kernel) -> (r: isize)
    requires
        old(k).wf(),
    ensures
        r == SUCCESS,
        final(k).wf(),
        final(k)@ == (KernelView {
            pm1_cnt: Pm1Cnt { bits: old(k)@.pm1_cnt.bits | 0x3c00 },
            ..old(k)@
        }),
{
    k.pm1_cnt.set_s5();
    proof {
        lemma_same_tables_wf(old(k)@, k@);
    }
    SUCCESS
}

/// Ends the task that runs: it becomes a zombie whose exit status holds
/// the low eight bits of `exit_code`, leaves every queue, hands its
/// children to the first task and tells its parent; the processor goes to
/// the next ready task.
pub fn sys_exit(k: &mut Kernel, exit_code: u32)
    requires
        old(k).wf(),
        old(k)@.current is Some,
    ensures
        final(k).wf(),
        final(k)@ == old(k)@.exit_task(
            old(k)@.current.unwrap(),
            spec_exit_status(exit_code),
        ).schedule(),
{
    k.exit_current_and_run_next(exit_status(exit_code));
}

/// Ends every task of the thread group of the task that runs, as
/// `sys_exit` ends one: the other tasks of the group first, the lowest
/// number first, then the task that runs.
pub fn sys_exit_group(k: &mut Kernel, exit_code: u32)
    requires
        old(k).wf(),
        old(k)@.current is Some,
    ensures
        final(k).wf(),
        final(k)@ == old(k)@.exit_others(
            old(k)@.cur().tgid,
            old(k)@.current.unwrap(),
            spec_exit_status(exit_code),
            old(k)@.tasks.len(),
        ).exit_task(old(k)@.current.unwrap(), spec_exit_status(exit_code)).schedule(),
{
    k.exit_group_and_run_next(exit_status(exit_code));
}

/// Gives up the processor: the task that runs goes to the end of the
/// ready queue and the first ready task runs.
pub fn sys_yield(k: &mut Kernel) -> (r: isize)
    requires
        old(k).wf(),
        old(k)@.current is Some,
    ensures
        r == SUCCESS,
        final(k).wf(),
        final(k)@ == old(k)@.suspend_current(),
{
    k.suspend_current_and_run_next();
    SUCCESS
}

/// What `sys_kill` and `sys_tkill` return and leave behind for the signal
/// number `sig` and the task `target` that was found.
pub open spec fn spec_send_signal(k: KernelView, target: Option<usize>, sig: usize) -> (
    isize,
    KernelView,
) {
    match Signals::spec_from_signum(sig) {
        None => (EINVAL, k),
        Some(signal) => match target {
            None => (ESRCH, k),
            Some(t) => if signal.bits != 0 {
                (SUCCESS, k.add_signal(t, signal))
            } else {
                (SUCCESS, k)
            },
        },
    }
}

/// Sends the signal with number `sig` to the task with the lowest number
/// in the thread group `pid`; the task is woken if it is blocked and does
/// not mask the signal. The number 0 only asks whether the group has a
/// task. An invalid signal number is refused before the group is looked
/// at. A group number of 0 is not served.
pub fn sys_kill(k: &mut Kernel, pid: usize, sig: usize) -> (r: isize)
    requires
        old(k).wf(),
        sig <= 64 ==> pid != 0,
    ensures
        final(k).wf(),
        (r, final(k)@) == spec_send_signal(old(k)@, group_member(old(k)@.tasks, pid), sig),
{
    let signal = match Signals::from_signum(sig) {
        Ok(signal) => signal,
        Err(_) => return EINVAL,
    };
    if let Some(task) = k.find_task_by_tgid(pid) {
        if !signal.is_empty() {
            k.add_signal(task, signal);
        }
        SUCCESS
    } else {
        ESRCH
    }
}

/// Sends the signal with number `sig` to the task with number `tid`, as
/// `sys_kill` sends one to a group. A task number of 0 is not served.
pub fn sys_tkill(k: &mut Kernel, tid: usize, sig: usize) -> (r: isize)
    requires
        old(k).wf(),
        sig <= 64 ==> tid != 0,
    ensures
        final(k).wf(),
        (r, final(k)@) == spec_send_signal(
            old(k)@,
            if old(k)@.live(tid) {
                Some(tid)
            } else {
                None
            },
            sig,
        ),
{
    let signal = match Signals::from_signum(sig) {
        Ok(signal) => signal,
        Err(_) => return EINVAL,
    };
    if let Some(task) = k.find_task_by_pid(tid) {
        if !signal.is_empty() {
            k.add_signal(task, signal);
        }
        SUCCESS
    } else {
        ESRCH
    }
}

/// The clock in milliseconds.
pub fn sys_get_time(k: &Kernel) -> (r: isize)
    ensures
        r == k@.ticks / 100_000,
{
    (k.ticks / 100_000) as isize
}

/// The number of the thread group of the task that runs.
pub fn sys_getpid(k: &Kernel) -> (r: isize)
    requires
        k.wf(),
        k@.current is Some,
    ensures
        r == k@.cur().tgid,
{
    let pid = k.current_task().tgid;
    pid as isize
}

/// The number of the thread group of the parent of the task that runs,
/// which has a parent.
pub fn sys_getppid(k: &Kernel) -> (r: isize)
    requires
        k.wf(),
        k@.current is Some,
        k@.parent_of(k@.current.unwrap()) is Some,
    ensures
        r == k@.task(k@.parent_of(k@.current.unwrap()).unwrap()).tgid,
{
    let parent = k.current_task().parent.unwrap();
    let ppid = k.task(parent).tgid;
    ppid as isize
}

/// The user of every task is the superuser.
pub fn sys_getuid() -> (r: isize)
    ensures
        r == 0,
{
    0
}

/// The effective user of every task is the superuser.
pub fn sys_geteuid() -> (r: isize)
    ensures
        r == 0,
{
    0
}

/// The group of every task is the group of the superuser.
pub fn sys_getgid() -> (r: isize)
    ensures
        r == 0,
{
    0
}

/// The effective group of every task is the group of the superuser.
pub fn sys_getegid() -> (r: isize)
    ensures
        r == 0,
{
    0
}

/// Process groups are not kept: the call succeeds for a thread group that
/// has a task and changes nothing.
pub fn sys_setpgid(k: &Kernel, pid: usize, pgid: usize) -> (r: isize)
    requires
        k.wf(),
    ensures
        r == if group_member(k@.tasks, pid) is Some {
            SUCCESS
        } else {
            ESRCH
        },
{
    match k.find_task_by_tgid(pid) {
        Some(_) => SUCCESS,
        None => ESRCH,
    }
}

/// The process group of the task with the lowest number in the thread
/// group `pid`.
pub fn sys_getpgid(k: &Kernel, pid: usize) -> (r: isize)
    requires
        k.wf(),
    ensures
        r == match group_member(k@.tasks, pid) {
            Some(t) => k@.task(t).pgid as isize,
            None => ESRCH,
        },
{
    match k.find_task_by_tgid(pid) {
        Some(t) => k.task(t).pgid as isize,
        None => ESRCH,
    }
}

/// The number of the task that runs.
pub fn sys_gettid(k: &Kernel) -> (r: isize)
    requires
        k.wf(),
        k@.current is Some,
    ensures
        r == k@.current.unwrap(),
{
    k.current_task().pid as isize
}

/// Records `tidptr` as the address that is cleared when the task that
/// runs exits, and gives the number of the task.
pub fn sys_set_tid_address(k: &mut Kernel, tidptr: usize) -> (r: isize)
    requires
        old(k).wf(),
        old(k)@.current is Some,
    ensures
        r == old(k)@.current.unwrap(),
        final(k).wf(),
        final(k)@ == old(k)@.with_task(
            old(k)@.current.unwrap(),
            TaskControlBlock { clear_child_tid: tidptr, ..old(k)@.cur() },
        ),
{
    let c = k.current.unwrap();
    let mut t = *k.task(c);
    t.clear_child_tid = tidptr;
    proof {
        lemma_with_task_wf(k@, c, t);
    }
    k.set_task(c, t);
    sys_gettid(k)
}

/// Records `head` as the head of the robust list of the task that runs.
/// A `len` other than the size of such a head is refused.
pub fn sys_set_robust_list(k: &mut Kernel, head: usize, len: usize) -> (r: isize)
    requires
        old(k).wf(),
        old(k)@.current is Some,
    ensures
        final(k).wf(),
        len != ROBUST_LIST_HEAD_SIZE ==> r == EINVAL && final(k)@ == old(k)@,
        len == ROBUST_LIST_HEAD_SIZE ==> r == SUCCESS && final(k)@ == old(k)@.with_task(
            old(k)@.current.unwrap(),
            TaskControlBlock {
                robust_list: RobustList { head, len: old(k)@.cur().robust_list.len },
                ..old(k)@.cur()
            },
        ),
{
    if len != ROBUST_LIST_HEAD_SIZE {
        return EINVAL;
    }
    let c = k.current.unwrap();
    let mut t = *k.task(c);
    t.robust_list.head = head;
    proof {
        lemma_with_task_wf(k@, c, t);
    }
    k.set_task(c, t);
    SUCCESS
}

/// On one processor there is nothing to order: the call succeeds.
pub fn sys_memorybarrier(_cmd: usize, _flags: usize, _cpu_id: usize) -> (r: isize)
    ensures
        r == SUCCESS,
{
    SUCCESS
}

/// No random bytes are made: the call stores nothing and gives 0.
pub fn sys_getrandom(_buf: usize, _buflen: usize, _flags: usize) -> (r: isize)
    ensures
        r == 0,
{
    0
}

} // verus!
