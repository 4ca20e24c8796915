//! The records that an inode holds beside its directory entry.

use vstd::prelude::*;

verus! {

/// Where the content of a file lies.
pub struct FileContent {
    /// The size in bytes, as the chain of clusters gives it.
    pub size: u32,
    /// The clusters of the file, in their order.
    pub clus_list: Vec<u32>,
    /// For a directory, the place of its last entry.
    pub hint: u32,
}

impl FileContent {
    /// The size of the file in bytes.
    pub fn get_file_size(&self) -> (r: u32)
        ensures
            r == self.size,
    {
        self.size
    }
}

/// The times of an inode.
pub struct InodeTime {
    pub create_time: u64,
    pub access_time: u64,
    pub modify_time: u64,
}

impl InodeTime {
    /// Sets the time at which the inode was made and leaves the others.
    pub fn set_create_time(&mut self, create_time: u64)
        ensures
            *final(self) == (InodeTime { create_time, ..*old(self) }),
    {
        self.create_time = create_time;
    }

    /// The time at which the inode was made.
    pub fn create_time(&self) -> (r: &u64)
        ensures
            *r == self.create_time,
    {
        &self.create_time
    }

    /// Sets the time of the last access and leaves the others.
    pub fn set_access_time(&mut self, access_time: u64)
        ensures
            *final(self) == (InodeTime { access_time, ..*old(self) }),
    {
        self.access_time = access_time;
    }

    /// The time of the last access.
    pub fn access_time(&self) -> (r: &u64)
        ensures
            *r == self.access_time,
    {
        &self.access_time
    }

    /// Sets the time of the last change and leaves the others.
    pub fn set_modify_time(&mut self, modify_time: u64)
        ensures
            *final(self) == (InodeTime { modify_time, ..*old(self) }),
    {
        self.modify_time = modify_time;
    }

    /// The time of the last change.
    pub fn modify_time(&self) -> (r: &u64)
        ensures
            *r == self.modify_time,
    {
        &self.modify_time
    }
}

/// What a task holds while it works on the directory entries of an inode.
pub struct InodeLock;

} // verus!
