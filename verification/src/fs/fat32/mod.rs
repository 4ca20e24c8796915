//! What the kernel keeps in memory of a file on a FAT32 volume.

pub mod vfs;

pub use vfs::{FileContent, InodeLock, InodeTime};
