//! The block device under the ext4 driver.

use vstd::prelude::*;

verus! {

/// What a block device does for the ext4 driver. Each call gives the
/// number of bytes moved, or the place reached, or the number of an error.
pub trait KernelDevOp {
    /// The device itself.
    type DevType;

    /// Writes `buf` at the place the device has reached.
    fn write(dev: &mut Self::DevType, buf: &[u8]) -> Result<usize, i32>;

    /// Fills `buf` from the place the device has reached.
    fn read(dev: &mut Self::DevType, buf: &mut [u8]) -> Result<usize, i32>;

    /// Moves to the place `off`, counted as `whence` says.
    fn seek(dev: &mut Self::DevType, off: i64, whence: i32) -> Result<i64, i32>;

    /// Hands what was written on to the device.
    fn flush(dev: &mut Self::DevType) -> Result<usize, i32> where Self: Sized;
}

} // verus!
