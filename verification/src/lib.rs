//! A verified model of the process and memory core of a small monolithic
//! kernel: the per-region frame table, the address space built from it, the
//! task table with signals and futexes, and the system calls over them.

pub mod arch;
pub mod config;
pub mod fs;
pub mod mm;
pub mod syscall;
pub mod task;
pub mod timer;
