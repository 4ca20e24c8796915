//! The values that system calls return: zero, or a negative error number.

use vstd::prelude::*;

verus! {

pub const SUCCESS: isize = 0;

/// No such process.
pub const ESRCH: isize = -3;

/// Interrupted system call.
pub const EINTR: isize = -4;

/// Exec format error.
pub const ENOEXEC: isize = -8;

/// Bad file number.
pub const EBADF: isize = -9;

/// No child processes.
pub const ECHILD: isize = -10;

/// Try again.
pub const EAGAIN: isize = -11;

/// Out of memory.
pub const ENOMEM: isize = -12;

/// Bad address.
pub const EFAULT: isize = -14;

/// Invalid argument.
pub const EINVAL: isize = -22;

/// Connection timed out.
pub const ETIMEDOUT: isize = -110;

} // verus!
