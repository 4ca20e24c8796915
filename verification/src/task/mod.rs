//! Tasks: their signals, their futexes, and the table that holds them.

pub mod futex;
pub mod kernel;
pub mod lifecycle;
pub mod signal;
pub mod spawn;
pub mod tcb;
pub mod user;

pub use kernel::{Futex, FutexWaiter, Kernel, KernelView, TimerEntry};
pub use signal::{SigAction, SigActionEntry, Signals};
pub use tcb::{Blocked, RobustList, Rusage, TaskControlBlock, TaskStatus};
