//! The system calls that report on the system and on the task that runs.

use vstd::prelude::*;
use vstd::std_specs::convert::FromSpecImpl;
use vstd::string::StringSliceAdditionalSpecFns;

use crate::config::{
    MEMORY_END, MEMORY_START, PAGE_SIZE, SYSTEM_TASK_LIMIT, USER_STACK_SIZE,
};
use crate::mm::memory_set::{lemma_words_to_bytes_len, words_to_bytes};
use crate::syscall::errno::{EFAULT, EINVAL, ESRCH, SUCCESS};
use crate::task::kernel::{lemma_with_task_wf, Kernel, KernelView};
use crate::task::tcb::{Rusage, TaskControlBlock};
use crate::timer::{ITimerVal, TimeVal, Times};

verus! {

/// What `sys_syslog` is asked to do.
#[allow(non_camel_case_types)]
#[derive(Clone, Copy, Debug, PartialEq, Eq, Structural)]
pub enum SyslogAction {
    CLOSE,
    OPEN,
    READ,
    READ_ALL,
    READ_CLEAR,
    CLEAR,
    CONSOLE_OFF,
    CONSOLE_ON,
    CONSOLE_LEVEL,
    SIZE_UNREAD,
    SIZE_BUFFER,
    ILLEAGAL,
}

impl SyslogAction {
    /// The action that the number `n` stands for; the illegal action where
    /// it stands for none.
    pub open spec fn spec_from(n: u32) -> SyslogAction {
        if n == 0 {
            SyslogAction::CLOSE
        } else if n == 1 {
            SyslogAction::OPEN
        } else if n == 2 {
            SyslogAction::READ
        } else if n == 3 {
            SyslogAction::READ_ALL
        } else if n == 4 {
            SyslogAction::READ_CLEAR
        } else if n == 5 {
            SyslogAction::CLEAR
        } else if n == 6 {
            SyslogAction::CONSOLE_OFF
        } else if n == 7 {
            SyslogAction::CONSOLE_ON
        } else if n == 8 {
            SyslogAction::CONSOLE_LEVEL
        } else if n == 9 {
            SyslogAction::SIZE_UNREAD
        } else if n == 10 {
            SyslogAction::SIZE_BUFFER
        } else {
            SyslogAction::ILLEAGAL
        }
    }
}

impl From<u32> for SyslogAction {
    fn from(n: u32) -> (r: SyslogAction) {
        match n {
            0 => SyslogAction::CLOSE,
            1 => SyslogAction::OPEN,
            2 => SyslogAction::READ,
            3 => SyslogAction::READ_ALL,
            4 => SyslogAction::READ_CLEAR,
            5 => SyslogAction::CLEAR,
            6 => SyslogAction::CONSOLE_OFF,
            7 => SyslogAction::CONSOLE_ON,
            8 => SyslogAction::CONSOLE_LEVEL,
            9 => SyslogAction::SIZE_UNREAD,
            10 => SyslogAction::SIZE_BUFFER,
            _ => SyslogAction::ILLEAGAL,
        }
    }
}

impl FromSpecImpl<u32> for SyslogAction {
    open spec fn obeys_from_spec() -> bool {
        true
    }

    open spec fn from_spec(n: u32) -> SyslogAction {
        SyslogAction::spec_from(n)
    }
}

/// The names that `sys_uname` reports, each in a field of 65 bytes.
#[allow(unused)]
pub struct UTSName {
    pub sysname: [u8; 65],
    pub nodename: [u8; 65],
    pub release: [u8; 65],
    pub version: [u8; 65],
    pub machine: [u8; 65],
    pub domainname: [u8; 65],
}

/// What `sys_sysinfo` reports.
#[derive(Clone, Copy, Debug)]
pub struct Sysinfo {
    /// Seconds since boot.
    pub uptime: usize,
    /// The load averages of 1, 5 and 15 minutes.
    pub loads: [usize; 3],
    /// The size of the usable main memory.
    pub totalram: usize,
    /// The size of the memory that is free.
    pub freeram: usize,
    pub sharedram: usize,
    pub bufferram: usize,
    pub totalswap: usize,
    pub freeswap: usize,
    /// The number of tasks.
    pub procs: u16,
    pub totalhigh: usize,
    pub freehigh: usize,
    /// The unit of the memory sizes, in bytes.
    pub mem_unit: u32,
}

/// A soft and a hard limit of a resource.
#[derive(Clone, Copy, Debug, PartialEq, Eq, Structural)]
pub struct RLimit {
    pub rlim_cur: usize,
    pub rlim_max: usize,
}

/// The resources that `sys_prlimit` knows.
#[derive(Clone, Copy, Debug, PartialEq, Eq, Structural)]
pub enum Resource {
    CPU,
    FSIZE,
    DATA,
    STACK,
    CORE,
    RSS,
    NPROC,
    NOFILE,
    MEMLOCK,
    AS,
    LOCKS,
    SIGPENDING,
    MSGQUEUE,
    NICE,
    RTPRIO,
    RTTIME,
    NLIMITS,
    ILLEAGAL,
}

impl Resource {
    /// The resource that the number `n` stands for; the illegal resource
    /// where it stands for none.
    pub open spec fn spec_from_primitive(n: u32) -> Resource {
        if n == 0 {
            Resource::CPU
        } else if n == 1 {
            Resource::FSIZE
        } else if n == 2 {
            Resource::DATA
        } else if n == 3 {
            Resource::STACK
        } else if n == 4 {
            Resource::CORE
        } else if n == 5 {
            Resource::RSS
        } else if n == 6 {
            Resource::NPROC
        } else if n == 7 {
            Resource::NOFILE
        } else if n == 8 {
            Resource::MEMLOCK
        } else if n == 9 {
            Resource::AS
        } else if n == 10 {
            Resource::LOCKS
        } else if n == 11 {
            Resource::SIGPENDING
        } else if n == 12 {
            Resource::MSGQUEUE
        } else if n == 13 {
            Resource::NICE
        } else if n == 14 {
            Resource::RTPRIO
        } else if n == 15 {
            Resource::RTTIME
        } else if n == 16 {
            Resource::NLIMITS
        } else {
            Resource::ILLEAGAL
        }
    }

    /// The resource that the number `n` stands for; the illegal resource
    /// where it stands for none.
    pub fn from_primitive(n: u32) -> (r: Resource)
        ensures
            r == Self::spec_from_primitive(n),
    {
        match n {
            0 => Resource::CPU,
            1 => Resource::FSIZE,
            2 => Resource::DATA,
            3 => Resource::STACK,
            4 => Resource::CORE,
            5 => Resource::RSS,
            6 => Resource::NPROC,
            7 => Resource::NOFILE,
            8 => Resource::MEMLOCK,
            9 => Resource::AS,
            10 => Resource::LOCKS,
            11 => Resource::SIGPENDING,
            12 => Resource::MSGQUEUE,
            13 => Resource::NICE,
            14 => Resource::RTPRIO,
            15 => Resource::RTTIME,
            16 => Resource::NLIMITS,
            _ => Resource::ILLEAGAL,
        }
    }
}

/// What the log of the kernel holds.
pub const LOG: &'static str =
    "<5>[    0.000000] Linux version 5.10.102.1-microsoft-standard-WSL2 (rtrt@TEAM-NPUCORE) (gcc (Ubuntu 9.4.0-1ubuntu1~20.04) 9.4.0, GNU ld (GNU Binutils for Ubuntu) 2.34) #1 SMP Thu Mar 10 13:31:47 CST 2022";

/// The size of the buffer of the log.
pub const LOG_BUF_LEN: usize = 4096;

pub const UTS_SYSNAME: &'static str = "Linux\0";

pub const UTS_NODENAME: &'static str = "debian\0";

pub const UTS_RELEASE: &'static str = "5.10.0-7-riscv64\0";

pub const UTS_VERSION: &'static str = "#1 SMP Debian 5.10.40-1 (2021-05-28)\0";

pub const UTS_MACHINE: &'static str = "riscv64\0";

pub const UTS_DOMAINNAME: &'static str = "\0";

/// The words that stand for a time of day in the memory of user code.
pub open spec fn spec_timeval_words(t: TimeVal) -> Seq<u64> {
    seq![t.tv_sec as u64, t.tv_usec as u64]
}

/// The words that stand for an interval timer in the memory of user code.
pub open spec fn spec_itimer_words(t: ITimerVal) -> Seq<u64> {
    seq![
        t.it_interval.tv_sec as u64,
        t.it_interval.tv_usec as u64,
        t.it_value.tv_sec as u64,
        t.it_value.tv_usec as u64,
    ]
}

/// The interval timers `timers` with `t` in place of the timer `which`.
pub open spec fn spec_with_timer(timers: [ITimerVal; 3], which: usize, t: ITimerVal) -> [ITimerVal;
    3] {
    [
        if which == 0 {
            t
        } else {
            timers[0]
        },
        if which == 1 {
            t
        } else {
            timers[1]
        },
        if which == 2 {
            t
        } else {
            timers[2]
        },
    ]
}

/// The words that stand for the processor time of a task in the memory of
/// user code: the two times, and fourteen words that are not kept.
pub open spec fn spec_rusage_words(r: Rusage) -> Seq<u64> {
    seq![
        r.ru_utime.tv_sec as u64,
        r.ru_utime.tv_usec as u64,
        r.ru_stime.tv_sec as u64,
        r.ru_stime.tv_usec as u64,
    ] + Seq::new(14, |i: int| 0u64)
}

/// The words that stand for a report on the system in the memory of user
/// code, one word for each field and for each load.
pub open spec fn spec_sysinfo_words(s: Sysinfo) -> Seq<u64> {
    seq![
        s.uptime as u64,
        s.loads[0] as u64,
        s.loads[1] as u64,
        s.loads[2] as u64,
        s.totalram as u64,
        s.freeram as u64,
        s.sharedram as u64,
        s.bufferram as u64,
        s.totalswap as u64,
        s.freeswap as u64,
        s.procs as u64,
        s.totalhigh as u64,
        s.freehigh as u64,
        s.mem_unit as u64,
    ]
}

/// The bytes of the log that `sys_syslog` hands out for a buffer of `len`
/// bytes: from the start of the log, or from its end where `tail` is set,
/// and a zero byte behind them.
pub open spec fn spec_log_part(len: u32, tail: bool) -> Seq<u8> {
    let all = LOG.spec_bytes();
    let n = if all.len() <= len {
        all.len() as int
    } else {
        len as int
    };
    if tail {
        all.subrange(all.len() - n, all.len() as int).push(0u8)
    } else {
        all.subrange(0, n).push(0u8)
    }
}

impl KernelView {
    /// What a task gets that stores `bytes` at `addr` in its address space
    /// and then returns `ok`: `ok`, or a bad address.
    pub open spec fn store_bytes(self, addr: usize, bytes: Seq<u8>, ok: isize) -> (isize, Self) {
        if self.cur_space().range_accessible(addr, bytes.len() as int, true) {
            (ok, self.write_user(self.cur().vm, addr, bytes))
        } else {
            (EFAULT, self)
        }
    }

    /// What a task gets that stores `words` at `addr` in its address space
    /// and then returns `ok`: `ok`, or a bad address.
    pub open spec fn store(self, addr: usize, words: Seq<u64>, ok: isize) -> (isize, Self) {
        self.store_bytes(addr, words_to_bytes(words), ok)
    }

    /// The number of tasks.
    pub open spec fn procs(self) -> nat {
        self.tasks.filter(|t: Option<TaskControlBlock>| t is Some).len()
    }

    /// The report on the system.
    pub open spec fn sysinfo(self) -> Sysinfo {
        let procs = (self.procs() as usize) as u16;
        let free = if self.frames.free() <= usize::MAX {
            self.frames.free() as usize
        } else {
            usize::MAX
        };
        Sysinfo {
            uptime: self.ticks / crate::config::CLOCK_FREQ,
            loads: [
                (procs * 65536 / 60) as usize,
                (procs * 65536 / 300) as usize,
                (procs * 65536 / 900) as usize,
            ],
            totalram: (MEMORY_END - MEMORY_START) as usize,
            freeram: if free * PAGE_SIZE <= usize::MAX {
                (free * PAGE_SIZE) as usize
            } else {
                usize::MAX
            },
            sharedram: 0,
            bufferram: 0,
            totalswap: 0,
            freeswap: 0,
            procs,
            totalhigh: 0,
            freehigh: 0,
            mem_unit: 1,
        }
    }

    /// What `sys_syslog` returns and leaves behind.
    pub open spec fn sys_syslog(self, type_: u32, buf: usize, len: u32) -> (isize, Self) {
        if type_ <= 1 {
            (SUCCESS, self)
        } else if type_ == 2 {
            self.store_bytes(
                buf,
                spec_log_part(len, false),
                ((spec_log_part(len, false).len() - 1) as usize) as isize,
            )
        } else if type_ == 3 {
            self.store_bytes(
                buf,
                spec_log_part(len, true),
                ((spec_log_part(len, true).len() - 1) as usize) as isize,
            )
        } else if type_ == 10 {
            (LOG_BUF_LEN as isize, self)
        } else {
            (EINVAL, self)
        }
    }

    /// What `sys_uname` returns and leaves behind.
    pub open spec fn sys_uname(self, buf: usize) -> (isize, Self) {
        if !self.cur_space().range_accessible(buf, 390, true) {
            (EFAULT, self)
        } else {
            let a = self.store_bytes(buf, UTS_SYSNAME.spec_bytes(), SUCCESS);
            let b = a.1.store_bytes((buf + 65) as usize, UTS_NODENAME.spec_bytes(), a.0);
            let c = b.1.store_bytes((buf + 130) as usize, UTS_RELEASE.spec_bytes(), b.0);
            let d = c.1.store_bytes((buf + 195) as usize, UTS_VERSION.spec_bytes(), c.0);
            let e = d.1.store_bytes((buf + 260) as usize, UTS_MACHINE.spec_bytes(), d.0);
            e.1.store_bytes((buf + 325) as usize, UTS_DOMAINNAME.spec_bytes(), e.0)
        }
    }

    /// What `sys_setitimer` returns and leaves behind.
    pub open spec fn sys_setitimer(self, which: usize, new_value: usize, old_value: usize) -> (
        isize,
        Self,
    ) {
        let c = self.current.unwrap();
        if which > 2 {
            (EINVAL, self)
        } else {
            let told = if old_value != 0 {
                self.store(old_value, spec_itimer_words(self.cur().timer[which as int]), SUCCESS)
            } else {
                (SUCCESS, self)
            };
            if told.0 != SUCCESS || new_value == 0 {
                told
            } else if !told.1.cur_space().range_accessible(new_value, 32, false) {
                (EFAULT, told.1)
            } else {
                let w = told.1.user_words(told.1.cur().vm, new_value, 4);
                let t = ITimerVal {
                    it_interval: TimeVal { tv_sec: w[0] as usize, tv_usec: w[1] as usize },
                    it_value: TimeVal { tv_sec: w[2] as usize, tv_usec: w[3] as usize },
                };
                (
                    SUCCESS,
                    told.1.with_task(
                        c,
                        TaskControlBlock {
                            timer: spec_with_timer(told.1.cur().timer, which, t),
                            ..told.1.cur()
                        },
                    ),
                )
            }
        }
    }

    /// Whether `sys_prlimit` serves the call: for the task that runs, and
    /// for the resources whose limits are kept.
    pub open spec fn prlimit_served(
        self,
        pid: usize,
        resource: u32,
        new_limit: usize,
        old_limit: usize,
    ) -> bool {
        let told = self.prlimit_report(resource, old_limit);
        &&& pid == 0
        &&& old_limit != 0 ==> resource == 3 || resource == 6 || resource == 7 || resource > 16
        &&& new_limit != 0 && told.0 == SUCCESS ==> resource == 3 || resource == 7 || resource
            > 16
        &&& new_limit != 0 && told.0 == SUCCESS && resource == 3
            && told.1.cur_space().range_accessible(new_limit, 16, false) ==> told.1.user_words(
            told.1.cur().vm,
            new_limit,
            2,
        )[0] as usize <= USER_STACK_SIZE
    }

    /// What `sys_prlimit` returns and leaves behind after it reported the
    /// old limits.
    pub open spec fn prlimit_report(self, resource: u32, old_limit: usize) -> (isize, Self) {
        if old_limit == 0 {
            (SUCCESS, self)
        } else if resource == 3 {
            self.store(old_limit, seq![USER_STACK_SIZE as u64, USER_STACK_SIZE as u64], SUCCESS)
        } else if resource == 6 {
            self.store(
                old_limit,
                seq![SYSTEM_TASK_LIMIT as u64, SYSTEM_TASK_LIMIT as u64],
                SUCCESS,
            )
        } else if resource == 7 {
            self.store(
                old_limit,
                seq![self.cur().nofile_soft as u64, self.cur().nofile_hard as u64],
                SUCCESS,
            )
        } else {
            (EINVAL, self)
        }
    }

    /// What `sys_prlimit` returns and leaves behind.
    pub open spec fn sys_prlimit(self, resource: u32, new_limit: usize, old_limit: usize) -> (
        isize,
        Self,
    ) {
        let c = self.current.unwrap();
        let told = self.prlimit_report(resource, old_limit);
        if told.0 != SUCCESS || new_limit == 0 {
            told
        } else if !told.1.cur_space().range_accessible(new_limit, 16, false) {
            (EFAULT, told.1)
        } else if resource == 7 {
            let w = told.1.user_words(told.1.cur().vm, new_limit, 2);
            (
                SUCCESS,
                told.1.with_task(
                    c,
                    TaskControlBlock {
                        nofile_soft: w[0] as usize,
                        nofile_hard: w[1] as usize,
                        ..told.1.cur()
                    },
                ),
            )
        } else if resource == 3 {
            (SUCCESS, told.1)
        } else {
            (EINVAL, told.1)
        }
    }

    /// What `sys_get_robust_list` returns and leaves behind.
    pub open spec fn sys_get_robust_list(self, pid: u32, head_ptr: usize, len_ptr: usize) -> (
        isize,
        Self,
    ) {
        let target = if pid == 0 {
            self.current.unwrap()
        } else {
            pid as usize
        };
        if !self.live(target) {
            (ESRCH, self)
        } else {
            let list = self.task(target).robust_list;
            let a = self.store(head_ptr, seq![list.head as u64], SUCCESS);
            if a.0 != SUCCESS {
                a
            } else {
                a.1.store(len_ptr, seq![list.len as u64], SUCCESS)
            }
        }
    }

    /// The words that `sys_printtcb` stores.
    pub open spec fn tcb_words(self) -> Seq<u64> {
        let t = self.cur();
        seq![
            t.pid as u64,
            t.tid as u64,
            t.tgid as u64,
            t.kstack_top as u64,
            t.ustack_base as u64,
            t.trap_cx_ppn as u64,
        ]
    }
}

impl Kernel {
    /// Stores `bytes` at `addr` in the address space of the task that runs
    /// and gives `ok`, or a bad address.
    pub fn store_bytes(&mut self, addr: usize, bytes: &Vec<u8>, ok: isize) -> (r: isize)
        requires
            old(self).wf(),
            old(self)@.current is Some,
        ensures
            final(self).wf(),
            final(self)@.current == old(self)@.current,
            final(self)@.tasks == old(self)@.tasks,
            (r, final(self)@) == old(self)@.store_bytes(addr, bytes@, ok),
    {
        let vm = self.current_task().vm;
        match self.copy_to_user(vm, addr, bytes) {
            Ok(_) => ok,
            Err(errno) => errno,
        }
    }

    /// Stores `words` at `addr` in the address space of the task that runs
    /// and gives `ok`, or a bad address.
    pub fn store(&mut self, addr: usize, words: &Vec<u64>, ok: isize) -> (r: isize)
        requires
            old(self).wf(),
            old(self)@.current is Some,
        ensures
            final(self).wf(),
            final(self)@.current == old(self)@.current,
            final(self)@.tasks == old(self)@.tasks,
            (r, final(self)@) == old(self)@.store(addr, words@, ok),
    {
        let bytes = crate::mm::memory_set::encode_words(words);
        self.store_bytes(addr, &bytes, ok)
    }

    /// The report on the system.
    pub fn sysinfo(&self) -> (r: Sysinfo)
        requires
            self.wf(),
        ensures
            r == self@.sysinfo(),
    {
        let procs: u16 = #[verifier::truncate]
        (self.procs_count() as u16);
        let free = self.frames.unallocated_frames();
        let load: usize = procs as usize * 65536;
        Sysinfo {
            uptime: self.ticks / crate::config::CLOCK_FREQ,
            loads: [load / 60, load / 300, load / 900],
            totalram: MEMORY_END - MEMORY_START,
            freeram: match free.checked_mul(PAGE_SIZE) {
                Some(bytes) => bytes,
                None => usize::MAX,
            },
            sharedram: 0,
            bufferram: 0,
            totalswap: 0,
            freeswap: 0,
            procs,
            totalhigh: 0,
            freehigh: 0,
            mem_unit: 1,
        }
    }
}

/// The bytes of `s`.
fn bytes_of(s: &str) -> (r: Vec<u8>)
    ensures
        r@ == s.spec_bytes(),
{
    let all = s.as_bytes();
    let mut out: Vec<u8> = Vec::new();
    let mut i: usize = 0;
    while i < all.len()
        invariant
            i <= all@.len(),
            all@ == s.spec_bytes(),
            out@ == all@.take(i as int),
        decreases all@.len() - i,
    {
        out.push(all[i]);
        proof {
            assert(all@.take(i + 1) =~= all@.take(i as int).push(all@[i as int]));
        }
        i += 1;
    }
    proof {
        assert(all@.take(i as int) =~= all@);
    }
    out
}

/// The bytes of the log that `sys_syslog` hands out for a buffer of `len`
/// bytes.
fn log_part(len: u32, tail: bool) -> (r: Vec<u8>)
    ensures
        r@ == spec_log_part(len, tail),
{
    let all = bytes_of(LOG);
    let n = if all.len() <= len as usize {
        all.len()
    } else {
        len as usize
    };
    let from = if tail {
        all.len() - n
    } else {
        0
    };
    let mut out: Vec<u8> = Vec::new();
    let mut i: usize = 0;
    while i < n
        invariant
            i <= n,
            from + n <= all@.len() <= usize::MAX,
            out@ == all@.subrange(from as int, from + i),
        decreases n - i,
    {
        out.push(all[from + i]);
        proof {
            assert(all@.subrange(from as int, from + i + 1) =~= all@.subrange(
                from as int,
                from + i,
            ).push(all@[from + i]));
        }
        i += 1;
    }
    out.push(0);
    out
}

/// Reads the log of the kernel: the calls that open and close the log
/// succeed, the calls that read store the start or the end of the log,
/// with a zero byte behind it, in the buffer at `buf` and give the number
/// of bytes of the log, and the call for the size of the buffer gives it.
/// A number that names no call is invalid. The calls that clear the log
/// or turn the console are not served.
pub fn sys_syslog(k: &mut Kernel, type_: u32, buf: usize, len: u32) -> (r: isize)
    requires
        old(k).wf(),
        old(k)@.current is Some,
        !(4 <= type_ <= 9),
    ensures
        final(k).wf(),
        (r, final(k)@) == old(k)@.sys_syslog(type_, buf, len),
{
    let type_ = SyslogAction::from(type_);
    match type_ {
        SyslogAction::CLOSE | SyslogAction::OPEN => SUCCESS,
        SyslogAction::READ => {
            let part = log_part(len, false);
            let n: isize = #[verifier::truncate]
            ((part.len() - 1) as isize);
            k.store_bytes(buf, &part, n)
        },
        SyslogAction::READ_ALL => {
            let part = log_part(len, true);
            let n: isize = #[verifier::truncate]
            ((part.len() - 1) as isize);
            k.store_bytes(buf, &part, n)
        },
        SyslogAction::SIZE_BUFFER => LOG_BUF_LEN as isize,
        _ => EINVAL,
    }
}

/// Sets the interval timer `which` of the task that runs from the value at
/// `new_value`, after storing the value it had at `old_value`; each only
/// where the address is not 0. A timer other than 0, 1 or 2 is invalid.
pub fn sys_setitimer(k: &mut Kernel, which: usize, new_value: usize, old_value: usize) -> (r: isize)
    requires
        old(k).wf(),
        old(k)@.current is Some,
    ensures
        final(k).wf(),
        (r, final(k)@) == old(k)@.sys_setitimer(which, new_value, old_value),
{
    if which > 2 {
        return EINVAL;
    }
    let c = k.current.unwrap();
    if old_value != 0 {
        let t = k.current_task().timer[which];
        let mut words: Vec<u64> = Vec::new();
        words.push(t.it_interval.tv_sec as u64);
        words.push(t.it_interval.tv_usec as u64);
        words.push(t.it_value.tv_sec as u64);
        words.push(t.it_value.tv_usec as u64);
        proof {
            assert(words@ =~= spec_itimer_words(t));
        }
        let told = k.store(old_value, &words, SUCCESS);
        if told != SUCCESS {
            return told;
        }
    }
    if new_value != 0 {
        let vm = k.current_task().vm;
        let words = match k.read_user_words(vm, new_value, 4) {
            Ok(words) => words,
            Err(errno) => return errno,
        };
        let mut t = *k.task(c);
        let sec0: usize = #[verifier::truncate]
        (words[0] as usize);
        let usec0: usize = #[verifier::truncate]
        (words[1] as usize);
        let sec1: usize = #[verifier::truncate]
        (words[2] as usize);
        let usec1: usize = #[verifier::truncate]
        (words[3] as usize);
        let fresh = ITimerVal {
            it_interval: TimeVal { tv_sec: sec0, tv_usec: usec0 },
            it_value: TimeVal { tv_sec: sec1, tv_usec: usec1 },
        };
        let ghost before = t.timer;
        t.timer[which] = fresh;
        proof {
            assert(t.timer =~= spec_with_timer(before, which, fresh));
            lemma_with_task_wf(k@, c, t);
        }
        k.set_task(c, t);
    }
    SUCCESS
}

/// Stores the time of day at `tv`, unless `tv` is 0. Time zones are not
/// kept.
pub fn sys_gettimeofday(k: &mut Kernel, tv: usize, _tz: usize) -> (r: isize)
    requires
        old(k).wf(),
        old(k)@.current is Some,
    ensures
        final(k).wf(),
        (r, final(k)@) == if tv == 0 {
            (SUCCESS, old(k)@)
        } else {
            old(k)@.store(
                tv,
                spec_timeval_words(TimeVal::spec_from_ticks(old(k)@.ticks)),
                SUCCESS,
            )
        },
{
    if tv != 0 {
        let now = TimeVal::from_ticks(k.ticks);
        let mut words: Vec<u64> = Vec::new();
        words.push(now.tv_sec as u64);
        words.push(now.tv_usec as u64);
        proof {
            assert(words@ =~= spec_timeval_words(now));
        }
        return k.store(tv, &words, SUCCESS);
    }
    SUCCESS
}

/// Stores the time that the clock shows at `tp`, unless `tp` is 0; every
/// clock shows the same time.
pub fn sys_clock_gettime(k: &mut Kernel, _clk_id: usize, tp: usize) -> (r: isize)
    requires
        old(k).wf(),
        old(k)@.current is Some,
    ensures
        final(k).wf(),
        (r, final(k)@) == if tp == 0 {
            (SUCCESS, old(k)@)
        } else {
            old(k)@.store(
                tp,
                crate::syscall::blocking::spec_timespec_words(old(k)@.now()),
                SUCCESS,
            )
        },
{
    if tp != 0 {
        let now = k.now();
        let mut words: Vec<u64> = Vec::new();
        words.push(now.tv_sec as u64);
        words.push(now.tv_nsec as u64);
        proof {
            assert(words@ =~= crate::syscall::blocking::spec_timespec_words(now));
        }
        return k.store(tp, &words, SUCCESS);
    }
    SUCCESS
}

/// Stores the names of the system in the six fields of 65 bytes at `buf`,
/// each name with a zero byte behind it.
pub fn sys_uname(k: &mut Kernel, buf: usize) -> (r: isize)
    requires
        old(k).wf(),
        old(k)@.current is Some,
    ensures
        final(k).wf(),
        (r, final(k)@) == old(k)@.sys_uname(buf),
{
    let vm = k.current_task().vm;
    if !k.spaces[vm].can_access_range(buf, 390, true) {
        return EFAULT;
    }
    let a = k.store_bytes(buf, &bytes_of(UTS_SYSNAME), SUCCESS);
    let b = k.store_bytes(buf + 65, &bytes_of(UTS_NODENAME), a);
    let c = k.store_bytes(buf + 130, &bytes_of(UTS_RELEASE), b);
    let d = k.store_bytes(buf + 195, &bytes_of(UTS_VERSION), c);
    let e = k.store_bytes(buf + 260, &bytes_of(UTS_MACHINE), d);
    k.store_bytes(buf + 325, &bytes_of(UTS_DOMAINNAME), e)
}

/// Stores the report on the system at `info`.
pub fn sys_sysinfo(k: &mut Kernel, info: usize) -> (r: isize)
    requires
        old(k).wf(),
        old(k)@.current is Some,
    ensures
        final(k).wf(),
        (r, final(k)@) == old(k)@.store(info, spec_sysinfo_words(old(k)@.sysinfo()), SUCCESS),
{
    let s = k.sysinfo();
    let mut words: Vec<u64> = Vec::new();
    words.push(s.uptime as u64);
    words.push(s.loads[0] as u64);
    words.push(s.loads[1] as u64);
    words.push(s.loads[2] as u64);
    words.push(s.totalram as u64);
    words.push(s.freeram as u64);
    words.push(s.sharedram as u64);
    words.push(s.bufferram as u64);
    words.push(s.totalswap as u64);
    words.push(s.freeswap as u64);
    words.push(s.procs as u64);
    words.push(s.totalhigh as u64);
    words.push(s.freehigh as u64);
    words.push(s.mem_unit as u64);
    proof {
        assert(words@ =~= spec_sysinfo_words(s));
    }
    k.store(info, &words, SUCCESS)
}

/// Whether `sys_prlimit` serves the call with these arguments, as
/// `prlimit_served` says.
pub fn prlimit_served(k: &Kernel, pid: usize, resource: u32, new_limit: usize, old_limit: usize) -> (r:
    bool)
    requires
        k.wf(),
        k@.current is Some,
    ensures
        r == k@.prlimit_served(pid, resource, new_limit, old_limit),
{
    if pid != 0 {
        return false;
    }
    let kept = resource == 3 || resource == 6 || resource == 7;
    if old_limit != 0 && !kept && resource <= 16 {
        return false;
    }
    let vm = k.current_task().vm;
    let told = old_limit == 0 || (kept && k.spaces[vm].can_access_range(old_limit, 16, true));
    let mut stored: Vec<u64> = Vec::new();
    stored.push(USER_STACK_SIZE as u64);
    stored.push(USER_STACK_SIZE as u64);
    let fresh = crate::mm::memory_set::encode_words(&stored);
    proof {
        assert(stored@ =~= seq![USER_STACK_SIZE as u64, USER_STACK_SIZE as u64]);
        lemma_words_to_bytes_len(seq![USER_STACK_SIZE as u64, USER_STACK_SIZE as u64]);
        lemma_words_to_bytes_len(seq![SYSTEM_TASK_LIMIT as u64, SYSTEM_TASK_LIMIT as u64]);
        lemma_words_to_bytes_len(
            seq![k@.cur().nofile_soft as u64, k@.cur().nofile_hard as u64],
        );
        assert(k@.cur_space() == k.spaces@[vm as int]@);
        assert(told == (k@.prlimit_report(resource, old_limit).0 == SUCCESS));
    }
    if new_limit == 0 || !told {
        return true;
    }
    if resource == 6 || (resource != 3 && resource != 7 && resource <= 16) {
        return false;
    }
    let ghost told_k = k@.prlimit_report(resource, old_limit).1;
    let ghost after = told_k.cur_space();
    proof {
        assert(told_k.cur().vm == vm);
        assert(after == told_k.spaces[vm as int]);
        assert(after.pages == k.spaces@[vm as int]@.pages);
        let before = k.spaces@[vm as int]@;
        assert forall|a: usize|
            #![trigger after.accessible(a, false)]
            #![trigger before.accessible(a, false)]
            after.accessible(a, false) == before.accessible(a, false) by {}
        assert(after.range_accessible(new_limit, 16, false) == k.spaces@[vm as int]@.range_accessible(
            new_limit,
            16,
            false,
        ));
    }
    if resource != 3 || !k.spaces[vm].can_access_range(new_limit, 16, false) {
        return true;
    }
    let mut bytes: Vec<u8> = Vec::new();
    let mut i: usize = 0;
    while i < 8
        invariant
            i <= 8,
            new_limit + 16 <= usize::MAX + 1,
            vm < k.spaces@.len(),
            fresh@.len() == 16,
            bytes@ == after.bytes(new_limit, i as int),
            forall|a: usize|
                #[trigger] after.data[a] == if old_limit != 0 && old_limit <= a < old_limit + 16 {
                    fresh@[a - old_limit]
                } else {
                    k.spaces@[vm as int]@.data[a]
                },
        decreases 8 - i,
    {
        let a = new_limit + i;
        let b = if old_limit != 0 && old_limit <= a && a - old_limit < 16 {
            fresh[a - old_limit]
        } else {
            k.spaces[vm].byte_at(a)
        };
        bytes.push(b);
        i += 1;
        proof {
            assert(bytes@ =~= after.bytes(new_limit, i as int));
        }
    }
    let soft: usize = #[verifier::truncate]
    (vstd::bytes::u64_from_le_bytes(bytes.as_slice()) as usize);
    proof {
        assert(told_k.user_words(vm, new_limit, 2)[0] == after.u64_at(new_limit));
    }
    soft <= USER_STACK_SIZE
}

/// Reports and sets the limits of a resource of the task that runs: the
/// limits are stored at `old_limit`, and then set from the value at
/// `new_limit`, each only where the address is not 0. The limits of the
/// stack and of the number of tasks are fixed; the limits of the number
/// of open files are kept for each task. A number that names no resource
/// is invalid.
pub fn sys_prlimit(k: &mut Kernel, pid: usize, resource: u32, new_limit: usize, old_limit: usize) -> (r:
    isize)
    requires
        old(k).wf(),
        old(k)@.current is Some,
        old(k)@.prlimit_served(pid, resource, new_limit, old_limit),
    ensures
        final(k).wf(),
        (r, final(k)@) == old(k)@.sys_prlimit(resource, new_limit, old_limit),
{
    let c = k.current.unwrap();
    let kind = Resource::from_primitive(resource);
    if old_limit != 0 {
        let mut words: Vec<u64> = Vec::new();
        match kind {
            Resource::STACK => {
                words.push(USER_STACK_SIZE as u64);
                words.push(USER_STACK_SIZE as u64);
            },
            Resource::NPROC => {
                words.push(SYSTEM_TASK_LIMIT as u64);
                words.push(SYSTEM_TASK_LIMIT as u64);
            },
            Resource::NOFILE => {
                words.push(k.current_task().nofile_soft as u64);
                words.push(k.current_task().nofile_hard as u64);
            },
            _ => return EINVAL,
        }
        proof {
            assert(words@ =~= seq![words@[0], words@[1]]);
        }
        let told = k.store(old_limit, &words, SUCCESS);
        if told != SUCCESS {
            return told;
        }
    }
    if new_limit != 0 {
        let vm = k.current_task().vm;
        let words = match k.read_user_words(vm, new_limit, 2) {
            Ok(words) => words,
            Err(errno) => return errno,
        };
        match kind {
            Resource::NOFILE => {
                let mut t = *k.task(c);
                let soft: usize = #[verifier::truncate]
                (words[0] as usize);
                let hard: usize = #[verifier::truncate]
                (words[1] as usize);
                t.nofile_soft = soft;
                t.nofile_hard = hard;
                proof {
                    lemma_with_task_wf(k@, c, t);
                }
                k.set_task(c, t);
            },
            Resource::STACK => {},
            _ => return EINVAL,
        }
    }
    SUCCESS
}

/// Stores the head of the robust list of a task at `head_ptr` and the
/// size of such a head at `len_ptr`, both in the address space of the task
/// that runs. The task is the one with the number `pid`, or the task that
/// runs for the number 0.
pub fn sys_get_robust_list(k: &mut Kernel, pid: u32, head_ptr: usize, len_ptr: usize) -> (r: isize)
    requires
        old(k).wf(),
        old(k)@.current is Some,
    ensures
        final(k).wf(),
        (r, final(k)@) == old(k)@.sys_get_robust_list(pid, head_ptr, len_ptr),
{
    let task = if pid == 0 {
        k.current.unwrap()
    } else {
        match k.find_task_by_pid(pid as usize) {
            Some(task) => task,
            None => return ESRCH,
        }
    };
    let list = k.task(task).robust_list;
    let mut head: Vec<u64> = Vec::new();
    head.push(list.head as u64);
    proof {
        assert(head@ =~= seq![list.head as u64]);
    }
    let told = k.store(head_ptr, &head, SUCCESS);
    if told != SUCCESS {
        return told;
    }
    let mut len: Vec<u64> = Vec::new();
    len.push(list.len as u64);
    proof {
        assert(len@ =~= seq![list.len as u64]);
    }
    k.store(len_ptr, &len, SUCCESS)
}

/// Stores the processor time of the task that runs at `buf`, in ticks, and
/// gives the clock in ticks.
pub fn sys_times(k: &mut Kernel, buf: usize) -> (r: isize)
    requires
        old(k).wf(),
        old(k)@.current is Some,
    ensures
        final(k).wf(),
        (r, final(k)@) == old(k)@.store(
            buf,
            seq![
                old(k)@.cur().rusage.ru_utime.spec_to_tick() as u64,
                old(k)@.cur().rusage.ru_stime.spec_to_tick() as u64,
                0u64,
                0u64,
            ],
            old(k)@.ticks as isize,
        ),
{
    let usage = k.current_task().rusage;
    let times = Times {
        tms_utime: usage.ru_utime.to_tick(),
        tms_stime: usage.ru_stime.to_tick(),
        tms_cutime: 0,
        tms_cstime: 0,
    };
    let mut words: Vec<u64> = Vec::new();
    words.push(times.tms_utime as u64);
    words.push(times.tms_stime as u64);
    words.push(times.tms_cutime as u64);
    words.push(times.tms_cstime as u64);
    proof {
        assert(words@ =~= seq![
            times.tms_utime as u64,
            times.tms_stime as u64,
            0u64,
            0u64,
        ]);
    }
    let ticks: isize = #[verifier::truncate]
    (k.ticks as isize);
    k.store(buf, &words, ticks)
}

/// Stores the processor time of the task that runs at `usage`. Only the
/// task itself can be asked for.
pub fn sys_getrusage(k: &mut Kernel, who: isize, usage: usize) -> (r: isize)
    requires
        old(k).wf(),
        old(k)@.current is Some,
        who == 0,
    ensures
        final(k).wf(),
        (r, final(k)@) == old(k)@.store(
            usage,
            spec_rusage_words(old(k)@.cur().rusage),
            SUCCESS,
        ),
{
    let used = k.current_task().rusage;
    let mut words: Vec<u64> = Vec::new();
    words.push(used.ru_utime.tv_sec as u64);
    words.push(used.ru_utime.tv_usec as u64);
    words.push(used.ru_stime.tv_sec as u64);
    words.push(used.ru_stime.tv_usec as u64);
    let mut i: usize = 0;
    while i < 14
        invariant
            i <= 14,
            words@ =~= seq![
                used.ru_utime.tv_sec as u64,
                used.ru_utime.tv_usec as u64,
                used.ru_stime.tv_sec as u64,
                used.ru_stime.tv_usec as u64,
            ] + Seq::new(i as nat, |j: int| 0u64),
        decreases 14 - i,
    {
        words.push(0);
        i += 1;
    }
    k.store(usage, &words, SUCCESS)
}

/// Stores six words on the task that runs at `message`: its number, its
/// number in its thread group, the number of the group, the top of its
/// kernel stack, the base of its user stack and the page of its trap
/// context. Gives 0, also where the words could not be stored.
pub fn sys_printtcb(k: &mut Kernel, message: usize) -> (r: isize)
    requires
        old(k).wf(),
        old(k)@.current is Some,
    ensures
        final(k).wf(),
        r == 0,
        final(k)@ == old(k)@.store(message, old(k)@.tcb_words(), SUCCESS).1,
{
    let tcb = *k.current_task();
    let mut tcb_massage: Vec<u64> = Vec::new();
    tcb_massage.push(tcb.pid as u64);
    tcb_massage.push(tcb.tid as u64);
    tcb_massage.push(tcb.tgid as u64);
    tcb_massage.push(tcb.kstack_top as u64);
    tcb_massage.push(tcb.ustack_base as u64);
    tcb_massage.push(tcb.trap_cx_ppn as u64);
    proof {
        assert(tcb_massage@ =~= old(k)@.tcb_words());
    }
    let _ = k.store(message, &tcb_massage, SUCCESS);
    0
}

} // verus!
