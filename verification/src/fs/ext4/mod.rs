//! The part of the ext4 binding that names files, classifies inodes and
//! says what a block device does.

pub mod blockdev;
pub mod file;

pub use blockdev::KernelDevOp;
pub use file::{Ext4File, InodeTypes};

use vstd::prelude::*;

verus! {

/// The sum of two sizes that fits in a `usize`.
pub fn add(left: usize, right: usize) -> (sum: usize)
    requires
        left + right <= usize::MAX,
    ensures
        sum == left + right,
{
    left + right
}

} // verus!
