//! File system collaborators.

pub mod ext4;
pub mod fat32;
