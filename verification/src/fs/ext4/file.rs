use vstd::prelude::*;
use vstd::std_specs::convert::FromSpecImpl;

verus! {

pub const O_RDONLY: u32 = 0;

pub const O_RDWR: u32 = 2;

/// Directory entry types and inode modes.
#[allow(non_camel_case_types)]
#[derive(Clone, Copy, Debug, PartialEq, Eq, Structural)]
pub enum InodeTypes {
    EXT4_DE_UNKNOWN,
    EXT4_DE_REG_FILE,
    EXT4_DE_DIR,
    EXT4_DE_CHRDEV,
    EXT4_DE_BLKDEV,
    EXT4_DE_FIFO,
    EXT4_DE_SOCK,
    EXT4_DE_SYMLINK,
    EXT4_INODE_MODE_FIFO,
    EXT4_INODE_MODE_CHARDEV,
    EXT4_INODE_MODE_DIRECTORY,
    EXT4_INODE_MODE_BLOCKDEV,
    EXT4_INODE_MODE_FILE,
    EXT4_INODE_MODE_SOFTLINK,
    EXT4_INODE_MODE_SOCKET,
    EXT4_INODE_MODE_TYPE_MASK,
}

impl InodeTypes {
    /// The number that stands for the type on disk.
    pub open spec fn spec_code(self) -> usize {
        match self {
            InodeTypes::EXT4_DE_UNKNOWN => 0,
            InodeTypes::EXT4_DE_REG_FILE => 1,
            InodeTypes::EXT4_DE_DIR => 2,
            InodeTypes::EXT4_DE_CHRDEV => 3,
            InodeTypes::EXT4_DE_BLKDEV => 4,
            InodeTypes::EXT4_DE_FIFO => 5,
            InodeTypes::EXT4_DE_SOCK => 6,
            InodeTypes::EXT4_DE_SYMLINK => 7,
            InodeTypes::EXT4_INODE_MODE_FIFO => 0x1000,
            InodeTypes::EXT4_INODE_MODE_CHARDEV => 0x2000,
            InodeTypes::EXT4_INODE_MODE_DIRECTORY => 0x4000,
            InodeTypes::EXT4_INODE_MODE_BLOCKDEV => 0x6000,
            InodeTypes::EXT4_INODE_MODE_FILE => 0x8000,
            InodeTypes::EXT4_INODE_MODE_SOFTLINK => 0xA000,
            InodeTypes::EXT4_INODE_MODE_SOCKET => 0xC000,
            InodeTypes::EXT4_INODE_MODE_TYPE_MASK => 0xF000,
        }
    }

    /// Whether some type has the code `num`.
    pub open spec fn is_code(num: usize) -> bool {
        num <= 7 || num == 0x1000 || num == 0x2000 || num == 0x4000 || num == 0x6000 || num
            == 0x8000 || num == 0xA000 || num == 0xC000 || num == 0xF000
    }

    /// The type with the code `num`; the unknown type where no type has it.
    pub open spec fn spec_from_code(num: usize) -> InodeTypes {
        if num == 1 {
            InodeTypes::EXT4_DE_REG_FILE
        } else if num == 2 {
            InodeTypes::EXT4_DE_DIR
        } else if num == 3 {
            InodeTypes::EXT4_DE_CHRDEV
        } else if num == 4 {
            InodeTypes::EXT4_DE_BLKDEV
        } else if num == 5 {
            InodeTypes::EXT4_DE_FIFO
        } else if num == 6 {
            InodeTypes::EXT4_DE_SOCK
        } else if num == 7 {
            InodeTypes::EXT4_DE_SYMLINK
        } else if num == 0x1000 {
            InodeTypes::EXT4_INODE_MODE_FIFO
        } else if num == 0x2000 {
            InodeTypes::EXT4_INODE_MODE_CHARDEV
        } else if num == 0x4000 {
            InodeTypes::EXT4_INODE_MODE_DIRECTORY
        } else if num == 0x6000 {
            InodeTypes::EXT4_INODE_MODE_BLOCKDEV
        } else if num == 0x8000 {
            InodeTypes::EXT4_INODE_MODE_FILE
        } else if num == 0xA000 {
            InodeTypes::EXT4_INODE_MODE_SOFTLINK
        } else if num == 0xC000 {
            InodeTypes::EXT4_INODE_MODE_SOCKET
        } else if num == 0xF000 {
            InodeTypes::EXT4_INODE_MODE_TYPE_MASK
        } else {
            InodeTypes::EXT4_DE_UNKNOWN
        }
    }

    /// The number that stands for the type on disk.
    pub fn code(&self) -> (r: usize)
        ensures
            r == self.spec_code(),
    {
        match self {
            InodeTypes::EXT4_DE_UNKNOWN => 0,
            InodeTypes::EXT4_DE_REG_FILE => 1,
            InodeTypes::EXT4_DE_DIR => 2,
            InodeTypes::EXT4_DE_CHRDEV => 3,
            InodeTypes::EXT4_DE_BLKDEV => 4,
            InodeTypes::EXT4_DE_FIFO => 5,
            InodeTypes::EXT4_DE_SOCK => 6,
            InodeTypes::EXT4_DE_SYMLINK => 7,
            InodeTypes::EXT4_INODE_MODE_FIFO => 0x1000,
            InodeTypes::EXT4_INODE_MODE_CHARDEV => 0x2000,
            InodeTypes::EXT4_INODE_MODE_DIRECTORY => 0x4000,
            InodeTypes::EXT4_INODE_MODE_BLOCKDEV => 0x6000,
            InodeTypes::EXT4_INODE_MODE_FILE => 0x8000,
            InodeTypes::EXT4_INODE_MODE_SOFTLINK => 0xA000,
            InodeTypes::EXT4_INODE_MODE_SOCKET => 0xC000,
            InodeTypes::EXT4_INODE_MODE_TYPE_MASK => 0xF000,
        }
    }
}

impl From<usize> for InodeTypes {
    fn from(num: usize) -> (r: InodeTypes) {
        match num {
            0 => InodeTypes::EXT4_DE_UNKNOWN,
            1 => InodeTypes::EXT4_DE_REG_FILE,
            2 => InodeTypes::EXT4_DE_DIR,
            3 => InodeTypes::EXT4_DE_CHRDEV,
            4 => InodeTypes::EXT4_DE_BLKDEV,
            5 => InodeTypes::EXT4_DE_FIFO,
            6 => InodeTypes::EXT4_DE_SOCK,
            7 => InodeTypes::EXT4_DE_SYMLINK,
            0x1000 => InodeTypes::EXT4_INODE_MODE_FIFO,
            0x2000 => InodeTypes::EXT4_INODE_MODE_CHARDEV,
            0x4000 => InodeTypes::EXT4_INODE_MODE_DIRECTORY,
            0x6000 => InodeTypes::EXT4_INODE_MODE_BLOCKDEV,
            0x8000 => InodeTypes::EXT4_INODE_MODE_FILE,
            0xA000 => InodeTypes::EXT4_INODE_MODE_SOFTLINK,
            0xC000 => InodeTypes::EXT4_INODE_MODE_SOCKET,
            0xF000 => InodeTypes::EXT4_INODE_MODE_TYPE_MASK,
            _ => InodeTypes::EXT4_DE_UNKNOWN,
        }
    }
}

impl FromSpecImpl<usize> for InodeTypes {
    open spec fn obeys_from_spec() -> bool {
        true
    }

    open spec fn from_spec(num: usize) -> InodeTypes {
        InodeTypes::spec_from_code(num)
    }
}

/// A number is the code of the type it converts to exactly when some type
/// has it as its code, and every type converts back from its own code.
pub proof fn law_code_round_trip(t: InodeTypes, num: usize)
    ensures
        InodeTypes::spec_from_code(t.spec_code()) == t,
        InodeTypes::is_code(num) <==> InodeTypes::spec_from_code(num).spec_code() == num,
{
}

/// The state of an open file as the file system keeps it.
#[derive(Clone, Copy, Debug)]
pub struct Ext4FileDesc {
    /// The mount point the file belongs to; zero while the file is closed.
    pub mp: usize,
    pub inode: u32,
    pub flags: u32,
    pub fsize: u64,
    pub fpos: u64,
}

/// A file of an ext4 volume, named by its path.
pub struct Ext4File {
    pub file_desc: Ext4FileDesc,
    pub file_path: String,
    pub this_type: InodeTypes,
}

/// The mode string of the C library for the open flags `flags`.
pub open spec fn spec_mode_string(flags: u32) -> Seq<char> {
    if flags == O_RDONLY {
        "rb"@
    } else if flags == O_RDWR {
        "r+"@
    } else if flags == 0x241 {
        "wb"@
    } else if flags == 0x441 {
        "ab"@
    } else if flags == 0x242 {
        "w+"@
    } else if flags == 0x442 {
        "a+"@
    } else {
        "r+"@
    }
}

/// The inode type that the type bits of `mode`, those above the nine
/// permission bits, stand for; a regular file where they stand for none.
pub open spec fn spec_type_of_mode(mode: u32) -> InodeTypes {
    let types = mode & !0o777u32;
    if types == 0x1000 {
        InodeTypes::EXT4_INODE_MODE_FIFO
    } else if types == 0x2000 {
        InodeTypes::EXT4_INODE_MODE_CHARDEV
    } else if types == 0x4000 {
        InodeTypes::EXT4_INODE_MODE_DIRECTORY
    } else if types == 0x6000 {
        InodeTypes::EXT4_INODE_MODE_BLOCKDEV
    } else if types == 0x8000 {
        InodeTypes::EXT4_INODE_MODE_FILE
    } else if types == 0xA000 {
        InodeTypes::EXT4_INODE_MODE_SOFTLINK
    } else if types == 0xC000 {
        InodeTypes::EXT4_INODE_MODE_SOCKET
    } else if types == 0xF000 {
        InodeTypes::EXT4_INODE_MODE_TYPE_MASK
    } else {
        InodeTypes::EXT4_INODE_MODE_FILE
    }
}

impl Ext4File {
    /// A closed file named `path`, which holds no NUL character.
    pub fn new(path: &str, types: InodeTypes) -> (r: Self)
        requires
            !path@.contains('\0'),
        ensures
            r.file_path@ == path@,
            r.this_type == types,
            r.file_desc == (Ext4FileDesc { mp: 0, inode: 0, flags: 0, fsize: 0, fpos: 0 }),
    {
        Self {
            file_desc: Ext4FileDesc { mp: 0, inode: 0, flags: 0, fsize: 0, fpos: 0 },
            file_path: path.to_owned(),
            this_type: types,
        }
    }

    pub fn get_path(&self) -> (r: String)
        ensures
            r@ == self.file_path@,
    {
        self.file_path.clone()
    }

    pub fn get_type(&self) -> (r: InodeTypes)
        ensures
            r == self.this_type,
    {
        self.this_type
    }

    /// The mode string of the C library for the open flags `flags`:
    /// read only, read and write, and the four combinations that create
    /// the file; `"r+"` for any other flags.
    pub fn flags_to_cstring(flags: u32) -> (r: String)
        ensures
            r@ == spec_mode_string(flags),
    {
        let cstr = if flags == O_RDONLY {
            "rb"
        } else if flags == O_RDWR {
            "r+"
        } else if flags == 0x241 {
            "wb"
        } else if flags == 0x441 {
            "ab"
        } else if flags == 0x242 {
            "w+"
        } else if flags == 0x442 {
            "a+"
        } else {
            "r+"
        };
        cstr.to_owned()
    }

    /// The inode type of the file, from the mode that the file system
    /// reports for its path.
    pub fn file_type_get(&mut self, mode: u32) -> (r: InodeTypes)
        ensures
            r == spec_type_of_mode(mode),
            *final(self) == *old(self),
    {
        let cal: u32 = 0o777;
        let types = mode & (!cal);
        if types == 0x1000 {
            InodeTypes::EXT4_INODE_MODE_FIFO
        } else if types == 0x2000 {
            InodeTypes::EXT4_INODE_MODE_CHARDEV
        } else if types == 0x4000 {
            InodeTypes::EXT4_INODE_MODE_DIRECTORY
        } else if types == 0x6000 {
            InodeTypes::EXT4_INODE_MODE_BLOCKDEV
        } else if types == 0x8000 {
            InodeTypes::EXT4_INODE_MODE_FILE
        } else if types == 0xA000 {
            InodeTypes::EXT4_INODE_MODE_SOFTLINK
        } else if types == 0xC000 {
            InodeTypes::EXT4_INODE_MODE_SOCKET
        } else if types == 0xF000 {
            InodeTypes::EXT4_INODE_MODE_TYPE_MASK
        } else {
            InodeTypes::EXT4_INODE_MODE_FILE
        }
    }
}

} // verus!
