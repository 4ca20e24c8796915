//! Sizes and limits of the machine and of a user process.

use vstd::prelude::*;

verus! {

pub const PAGE_SIZE_BITS: usize = 12;

pub const PAGE_SIZE: usize = 4096;

/// Ticks of the clock in one second.
pub const CLOCK_FREQ: usize = 100_000_000;

/// Nanoseconds in one tick of the clock.
pub const NSEC_PER_TICK: usize = 10;

/// Ticks of the clock in one microsecond.
pub const TICKS_PER_USEC: usize = 100;

pub const MEMORY_START: usize = 0x9000_0000;

pub const MEMORY_END: usize = 0xA000_0000;

/// The size of a user stack, in bytes.
pub const USER_STACK_SIZE: usize = 4096 * 40;

/// The most that a heap grows above its bottom, in bytes.
pub const USER_HEAP_SIZE: usize = 4096 * 20;

/// The most tasks that the system holds.
pub const SYSTEM_TASK_LIMIT: usize = 128;

/// The most files that a process holds open.
pub const SYSTEM_FD_LIMIT: usize = 256;

/// Where mappings without a fixed address start.
pub const MMAP_BASE: usize = 0x6000_0000;

/// Where mappings without a fixed address end.
pub const MMAP_END: usize = 0x6800_0000;

/// One above the highest address of a user process.
pub const USER_SPACE_END: usize = 0x8000_0000;

/// Where the heap of a new process starts.
pub const USER_HEAP_BASE: usize = 0x1000_0000;

/// Where the stack of a new process starts.
pub const USER_STACK_BASE: usize = 0x7000_0000;

/// One above the kernel stack of the task with number zero.
pub const KSTACK_BASE: usize = 0xF000_0000;

/// The size of a kernel stack with its guard page.
pub const KSTACK_SIZE: usize = 0x3000;

/// The number of the first task.
pub const INITPROC_PID: usize = 1;

/// The first page frame of the pool of frames.
pub const FRAME_POOL_START: usize = 0x9_1001;

/// One above the last page frame of the pool of frames.
pub const FRAME_POOL_END: usize = 0xA_0000;

} // verus!
