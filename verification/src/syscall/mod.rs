//! The system calls on processes, memory, signals and futexes.

pub mod blocking;
pub mod clone;
pub mod errno;
pub mod exec;
pub mod info;
pub mod memory;
pub mod process;
pub mod signal;

pub use blocking::{resume_blocked, sys_futex, sys_nanosleep, sys_wait4};
pub use clone::{sys_clone, sys_fork};
pub use exec::{check_image, sys_execve, ExecRequest};
pub use info::{
    prlimit_served, sys_clock_gettime, sys_get_robust_list, sys_getrusage, sys_gettimeofday,
    sys_printtcb, sys_prlimit, sys_setitimer, sys_sysinfo, sys_syslog, sys_times, sys_uname,
    RLimit, Resource, Sysinfo, SyslogAction, UTSName,
};
pub use memory::{sys_brk, sys_mmap, sys_mprotect, sys_munmap, sys_sbrk};
pub use process::{
    sys_exit, sys_exit_group, sys_get_time, sys_getegid, sys_geteuid, sys_getgid, sys_getpgid,
    sys_getpid, sys_getppid, sys_getrandom, sys_gettid, sys_getuid, sys_kill, sys_memorybarrier,
    sys_set_robust_list, sys_set_tid_address, sys_setpgid, sys_shutdown, sys_tkill, sys_yield,
};
pub use signal::{sys_sigaction, sys_sigprocmask, sys_sigreturn, sys_sigtimedwait};
