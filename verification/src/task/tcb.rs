//! The control block of a task.

use vstd::prelude::*;

use crate::config::{
    KSTACK_BASE, KSTACK_SIZE, MEMORY_START, PAGE_SIZE, SYSTEM_FD_LIMIT, USER_HEAP_BASE,
    USER_STACK_BASE,
};
use crate::task::signal::Signals;
use crate::timer::{ITimerVal, TimeSpec, TimeVal};

verus! {

/// Where a task stands in its life.
#[derive(Clone, Copy, Debug, PartialEq, Eq, Structural)]
pub enum TaskStatus {
    /// Waits for a processor.
    Ready,
    /// Runs on the processor.
    Running,
    /// Has exited and waits for its parent to collect it.
    Zombie,
    /// Is blocked until a signal, a timer, a futex or a child wakes it.
    Interruptible,
}

/// The system call that a blocked task finishes when it runs again.
#[derive(Clone, Copy, Debug, PartialEq, Eq, Structural)]
pub enum Blocked {
    /// The task is in no system call.
    Nothing,
    /// Sleeps until `end`; the time left goes to `rem`.
    Sleep { end: TimeSpec, rem: usize },
    /// Waits for a child to exit.
    Child { pid: isize, status: usize, option: u32 },
    /// Waits on the futex word at `addr`, until `end` where `timed` is
    /// set.
    Futex { addr: usize, timed: bool, end: TimeSpec },
    /// Waits for one of the signals `set`, until `end` where `timed` is
    /// set; what came goes to `info`.
    SigWait { set: u64, info: usize, timed: bool, end: TimeSpec },
}

/// Whether `option` holds known options of `sys_wait4` only.
pub open spec fn valid_wait_option(option: u32) -> bool {
    option & !0x0100_000fu32 == 0
}

impl Blocked {
    /// The time at which a wait ends is a normal one, and the options of
    /// a wait for a child are known ones.
    pub open spec fn wf(self) -> bool {
        match self {
            Blocked::Nothing => true,
            Blocked::Sleep { end, rem } => end.normal(),
            Blocked::Child { pid, status, option } => valid_wait_option(option),
            Blocked::Futex { addr, timed, end } => timed ==> end.normal(),
            Blocked::SigWait { set, info, timed, end } => timed ==> end.normal(),
        }
    }
}

/// The list of futexes that are released when the task dies.
#[derive(Clone, Copy, Debug, PartialEq, Eq, Structural)]
pub struct RobustList {
    pub head: usize,
    pub len: usize,
}

/// The size that user code gives for the head of a robust list.
pub const ROBUST_LIST_HEAD_SIZE: usize = 24;

/// The processor time a task has used.
#[derive(Clone, Copy, Debug, PartialEq, Eq, Structural)]
pub struct Rusage {
    pub ru_utime: TimeVal,
    pub ru_stime: TimeVal,
}

/// The state of one task.
#[derive(Clone, Copy, Debug)]
pub struct TaskControlBlock {
    /// The number of the task, unique among all tasks.
    pub pid: usize,
    /// The number of the task within its thread group.
    pub tid: usize,
    /// The number of the thread group: the `pid` of its leader.
    pub tgid: usize,
    /// The number of the address space.
    pub vm: usize,
    /// The number of the parent, which does not keep the parent alive.
    pub parent: Option<usize>,
    pub task_status: TaskStatus,
    pub blocked: Blocked,
    pub sigpending: Signals,
    pub sigmask: Signals,
    pub exit_code: u32,
    /// The signal that the parent gets when the task exits.
    pub exit_signal: Signals,
    pub clear_child_tid: usize,
    pub robust_list: RobustList,
    pub heap_bottom: usize,
    pub heap_pt: usize,
    pub timer: [ITimerVal; 3],
    pub rusage: Rusage,
    pub pgid: usize,
    pub kstack_top: usize,
    pub ustack_base: usize,
    pub trap_cx_ppn: usize,
    /// The user stack pointer the task starts with.
    pub user_sp: usize,
    /// The thread pointer the task starts with.
    pub tls: usize,
    pub nofile_soft: usize,
    pub nofile_hard: usize,
}

/// The top of the kernel stack of the task with number `pid`.
pub open spec fn spec_kstack_top(pid: usize) -> usize {
    if pid <= 0x1_0000 {
        (KSTACK_BASE - pid * KSTACK_SIZE) as usize
    } else {
        0
    }
}

/// The page that holds the trap context of the task with number `pid`.
pub open spec fn spec_trap_cx_ppn(pid: usize) -> usize {
    if pid <= 0x1000 {
        (MEMORY_START / PAGE_SIZE + pid) as usize
    } else {
        0
    }
}

impl TaskControlBlock {
    /// The first task: its own group and leader, with no parent, ready to
    /// run in the address space `vm`.
    pub open spec fn spec_new(pid: usize, vm: usize) -> TaskControlBlock {
        TaskControlBlock {
            pid,
            tid: 0,
            tgid: pid,
            vm,
            parent: None,
            task_status: TaskStatus::Ready,
            blocked: Blocked::Nothing,
            sigpending: Signals { bits: 0 },
            sigmask: Signals { bits: 0 },
            exit_code: 0,
            exit_signal: Signals { bits: 0 },
            clear_child_tid: 0,
            robust_list: RobustList { head: 0, len: ROBUST_LIST_HEAD_SIZE },
            heap_bottom: USER_HEAP_BASE,
            heap_pt: USER_HEAP_BASE,
            timer: [
                ITimerVal {
                    it_interval: TimeVal { tv_sec: 0, tv_usec: 0 },
                    it_value: TimeVal { tv_sec: 0, tv_usec: 0 },
                },
                ITimerVal {
                    it_interval: TimeVal { tv_sec: 0, tv_usec: 0 },
                    it_value: TimeVal { tv_sec: 0, tv_usec: 0 },
                },
                ITimerVal {
                    it_interval: TimeVal { tv_sec: 0, tv_usec: 0 },
                    it_value: TimeVal { tv_sec: 0, tv_usec: 0 },
                },
            ],
            rusage: Rusage {
                ru_utime: TimeVal { tv_sec: 0, tv_usec: 0 },
                ru_stime: TimeVal { tv_sec: 0, tv_usec: 0 },
            },
            pgid: pid,
            kstack_top: spec_kstack_top(pid),
            ustack_base: USER_STACK_BASE,
            trap_cx_ppn: spec_trap_cx_ppn(pid),
            user_sp: USER_STACK_BASE,
            tls: 0,
            nofile_soft: SYSTEM_FD_LIMIT,
            nofile_hard: SYSTEM_FD_LIMIT,
        }
    }

    /// Whether a signal is pending that the task does not mask.
    pub open spec fn spec_has_unmasked_signal(self) -> bool {
        self.sigpending.bits & !self.sigmask.bits != 0
    }

    /// Whether a pending signal ends what the task is blocked in: one that
    /// it does not mask, or one that it waits for.
    pub open spec fn spec_signal_wakes(self) -> bool {
        self.spec_has_unmasked_signal() || match self.blocked {
            Blocked::SigWait { set, info, timed, end } => self.sigpending.bits & set != 0,
            _ => false,
        }
    }

    /// The first task: its own group and leader, with no parent, ready to
    /// run in the address space `vm`.
    pub fn new(pid: usize, vm: usize) -> (t: TaskControlBlock)
        ensures
            t == Self::spec_new(pid, vm),
    {
        TaskControlBlock {
            pid,
            tid: 0,
            tgid: pid,
            vm,
            parent: None,
            task_status: TaskStatus::Ready,
            blocked: Blocked::Nothing,
            sigpending: Signals::empty(),
            sigmask: Signals::empty(),
            exit_code: 0,
            exit_signal: Signals::empty(),
            clear_child_tid: 0,
            robust_list: RobustList { head: 0, len: ROBUST_LIST_HEAD_SIZE },
            heap_bottom: USER_HEAP_BASE,
            heap_pt: USER_HEAP_BASE,
            timer: [ITimerVal::new(), ITimerVal::new(), ITimerVal::new()],
            rusage: Rusage { ru_utime: TimeVal::new(), ru_stime: TimeVal::new() },
            pgid: pid,
            kstack_top: kstack_top(pid),
            ustack_base: USER_STACK_BASE,
            trap_cx_ppn: trap_cx_ppn(pid),
            user_sp: USER_STACK_BASE,
            tls: 0,
            nofile_soft: SYSTEM_FD_LIMIT,
            nofile_hard: SYSTEM_FD_LIMIT,
        }
    }

    pub fn getpid(&self) -> (r: usize)
        ensures
            r == self.pid,
    {
        self.pid
    }

    pub fn is_zombie(&self) -> (r: bool)
        ensures
            r == (self.task_status is Zombie),
    {
        match self.task_status {
            TaskStatus::Zombie => true,
            _ => false,
        }
    }

    /// Whether a signal is pending that the task does not mask.
    pub fn has_unmasked_signal(&self) -> (r: bool)
        ensures
            r == self.spec_has_unmasked_signal(),
    {
        self.sigpending.bits & !self.sigmask.bits != 0
    }

    /// Whether a pending signal ends what the task is blocked in.
    pub fn signal_wakes(&self) -> (r: bool)
        ensures
            r == self.spec_signal_wakes(),
    {
        if self.has_unmasked_signal() {
            return true;
        }
        match self.blocked {
            Blocked::SigWait { set, info: _, timed: _, end: _ } => self.sigpending.bits & set != 0,
            _ => false,
        }
    }
}

/// The top of the kernel stack of the task with number `pid`.
pub fn kstack_top(pid: usize) -> (r: usize)
    ensures
        r == spec_kstack_top(pid),
{
    if pid <= 0x1_0000 {
        KSTACK_BASE - pid * KSTACK_SIZE
    } else {
        0
    }
}

/// The page that holds the trap context of the task with number `pid`.
pub fn trap_cx_ppn(pid: usize) -> (r: usize)
    ensures
        r == spec_trap_cx_ppn(pid),
{
    if pid <= 0x1000 {
        MEMORY_START / PAGE_SIZE + pid
    } else {
        0
    }
}

} // verus!
