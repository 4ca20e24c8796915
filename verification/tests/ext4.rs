use npucore::fs::ext4::{Ext4File, InodeTypes};

#[test]
fn it_works() {
    let result = npucore::fs::ext4::add(2, 2);
    assert_eq!(result, 4);
}

#[test]
fn open_flags_map_to_mode_strings() {
    assert_eq!(Ext4File::flags_to_cstring(0), "rb");
    assert_eq!(Ext4File::flags_to_cstring(2), "r+");
    assert_eq!(Ext4File::flags_to_cstring(0x241), "wb");
    assert_eq!(Ext4File::flags_to_cstring(0x441), "ab");
    assert_eq!(Ext4File::flags_to_cstring(0x242), "w+");
    assert_eq!(Ext4File::flags_to_cstring(0x442), "a+");
    assert_eq!(Ext4File::flags_to_cstring(0x1234), "r+");
}

#[test]
fn new_file_keeps_path_and_type() {
    let f = Ext4File::new("/bin/sh", InodeTypes::EXT4_DE_REG_FILE);
    assert_eq!(f.get_path(), "/bin/sh");
    assert_eq!(f.get_type(), InodeTypes::EXT4_DE_REG_FILE);
    assert_eq!(f.file_desc.mp, 0);
}

#[test]
fn mode_bits_give_the_inode_type() {
    let mut f = Ext4File::new("/", InodeTypes::EXT4_DE_DIR);
    assert_eq!(f.file_type_get(0x4000 | 0o755), InodeTypes::EXT4_INODE_MODE_DIRECTORY);
    assert_eq!(f.file_type_get(0x8000 | 0o644), InodeTypes::EXT4_INODE_MODE_FILE);
    assert_eq!(f.file_type_get(0xA000 | 0o777), InodeTypes::EXT4_INODE_MODE_SOFTLINK);
    assert_eq!(f.file_type_get(0x1000), InodeTypes::EXT4_INODE_MODE_FIFO);
    assert_eq!(f.file_type_get(0x2000), InodeTypes::EXT4_INODE_MODE_CHARDEV);
    assert_eq!(f.file_type_get(0x6000), InodeTypes::EXT4_INODE_MODE_BLOCKDEV);
    assert_eq!(f.file_type_get(0xC000), InodeTypes::EXT4_INODE_MODE_SOCKET);
    assert_eq!(f.file_type_get(0xF000), InodeTypes::EXT4_INODE_MODE_TYPE_MASK);
    assert_eq!(f.file_type_get(0x3000 | 0o600), InodeTypes::EXT4_INODE_MODE_FILE);
}

#[test]
fn inode_type_codes_convert_both_ways() {
    assert_eq!(InodeTypes::from(2usize), InodeTypes::EXT4_DE_DIR);
    assert_eq!(InodeTypes::from(0x8000usize), InodeTypes::EXT4_INODE_MODE_FILE);
    assert_eq!(InodeTypes::from(9usize), InodeTypes::EXT4_DE_UNKNOWN);
    assert_eq!(InodeTypes::EXT4_DE_SYMLINK.code(), 7);
    assert_eq!(InodeTypes::EXT4_INODE_MODE_TYPE_MASK.code(), 0xF000);
}

#[test]
fn inode_times_are_set_one_by_one() {
    let mut t = npucore::fs::fat32::InodeTime { create_time: 1, access_time: 2, modify_time: 3 };
    t.set_access_time(20);
    assert_eq!((*t.create_time(), *t.access_time(), *t.modify_time()), (1, 20, 3));
    t.set_create_time(10);
    t.set_modify_time(30);
    assert_eq!((*t.create_time(), *t.access_time(), *t.modify_time()), (10, 20, 30));
    let c = npucore::fs::fat32::FileContent { size: 513, clus_list: vec![2, 3], hint: 0 };
    assert_eq!(c.get_file_size(), 513);
}

struct MemoryDisk {
    bytes: Vec<u8>,
    at: usize,
}

struct MemoryDiskOps;

impl npucore::fs::ext4::KernelDevOp for MemoryDiskOps {
    type DevType = MemoryDisk;

    fn write(dev: &mut MemoryDisk, buf: &[u8]) -> Result<usize, i32> {
        let end = dev.at + buf.len();
        if end > dev.bytes.len() {
            return Err(-28);
        }
        dev.bytes[dev.at..end].copy_from_slice(buf);
        dev.at = end;
        Ok(buf.len())
    }

    fn read(dev: &mut MemoryDisk, buf: &mut [u8]) -> Result<usize, i32> {
        let n = buf.len().min(dev.bytes.len() - dev.at);
        buf[..n].copy_from_slice(&dev.bytes[dev.at..dev.at + n]);
        dev.at += n;
        Ok(n)
    }

    fn seek(dev: &mut MemoryDisk, off: i64, _whence: i32) -> Result<i64, i32> {
        if off < 0 || off as usize > dev.bytes.len() {
            return Err(-22);
        }
        dev.at = off as usize;
        Ok(off)
    }

    fn flush(_dev: &mut MemoryDisk) -> Result<usize, i32> {
        Ok(0)
    }
}

fn copy_block<K: npucore::fs::ext4::KernelDevOp>(
    dev: &mut K::DevType,
    from: i64,
    to: i64,
) -> Result<usize, i32> {
    let mut block = [0u8; 4];
    K::seek(dev, from, 0)?;
    K::read(dev, &mut block)?;
    K::seek(dev, to, 0)?;
    K::write(dev, &block)
}

#[test]
fn a_device_of_one_s_own_serves_the_driver() {
    let mut disk = MemoryDisk { bytes: vec![1, 2, 3, 4, 0, 0, 0, 0], at: 0 };
    assert_eq!(copy_block::<MemoryDiskOps>(&mut disk, 0, 4), Ok(4));
    assert_eq!(disk.bytes, vec![1, 2, 3, 4, 1, 2, 3, 4]);
    assert_eq!(copy_block::<MemoryDiskOps>(&mut disk, 6, 0), Ok(4));
    assert_eq!(disk.bytes, vec![3, 4, 0, 0, 1, 2, 3, 4]);
    assert_eq!(copy_block::<MemoryDiskOps>(&mut disk, 0, 6), Err(-28));
    assert_eq!(copy_block::<MemoryDiskOps>(&mut disk, 9, 0), Err(-22));
}
