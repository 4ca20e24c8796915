use npucore::mm::fault::Residency;
use npucore::mm::memory_set::{MapPermission, MemorySet};
use npucore::mm::mmap::{pages_for, prot_to_perm, MapFlags};
use npucore::mm::{Frame, PhysPageNum, StackFrameAllocator};
use npucore::syscall::errno::{EBADF, EFAULT, EINVAL, ENOMEM, SUCCESS};
use npucore::syscall::{sys_brk, sys_mmap, sys_mprotect, sys_munmap, sys_sbrk};
use npucore::task::Kernel;

const RW: MapPermission = MapPermission { bits: 0x16 };
const RO: MapPermission = MapPermission { bits: 0x12 };
const ANON: MapFlags = MapFlags { bits: 0x22 };
const FIXED: MapFlags = MapFlags { bits: 0x32 };

fn ranges(m: &MemorySet) -> Vec<(usize, usize, u8)> {
    let mut v: Vec<(usize, usize, u8)> = m
        .areas
        .iter()
        .map(|a| (a.inner.vpn_range.get_start().0, a.inner.vpn_range.get_end().0, a.map_perm.bits))
        .collect();
    v.sort();
    v
}

#[test]
fn pages_for_rounds_up() {
    assert_eq!(pages_for(0), 0);
    assert_eq!(pages_for(1), 1);
    assert_eq!(pages_for(4096), 1);
    assert_eq!(pages_for(4097), 2);
}

#[test]
fn protection_bits_become_permissions() {
    assert_eq!(prot_to_perm(0), Some(MapPermission { bits: 0x10 }));
    assert_eq!(prot_to_perm(1), Some(RO));
    assert_eq!(prot_to_perm(3), Some(RW));
    assert_eq!(prot_to_perm(7), Some(MapPermission { bits: 0x1e }));
    assert_eq!(prot_to_perm(8), None);
    assert_eq!(MapPermission::from_bits(0x1e), Some(MapPermission { bits: 0x1e }));
    assert_eq!(MapPermission::from_bits(0x21), None);
    assert_eq!(MapFlags::from_bits(0x33), Some(MapFlags { bits: 0x33 }));
    assert_eq!(MapFlags::from_bits(0x40), None);
}

#[test]
fn mmap_places_mappings_one_after_the_other() {
    let mut m = MemorySet::new_bare();
    assert_eq!(m.mmap(0, 4096, RW, ANON, 0, 0), 0x6000_0000);
    assert_eq!(m.mmap(0x1234_0000, 4097, RO, ANON, 0, 0), 0x6000_1000);
    assert_eq!(m.mmap(0, 1, RW, ANON, 0, 0), 0x6000_3000);
    assert_eq!(ranges(&m), vec![(0x60000, 0x60001, 0x16), (0x60001, 0x60003, 0x12), (0x60003, 0x60004, 0x16)]);
    assert_eq!(m.mmap_top, 0x60004);
}

#[test]
fn mmap_refuses_bad_calls() {
    let mut m = MemorySet::new_bare();
    assert_eq!(m.mmap(1, 4096, RW, ANON, 0, 0), EINVAL);
    assert_eq!(m.mmap(0, 0, RW, ANON, 0, 0), EINVAL);
    assert_eq!(m.mmap(0, 4096, RW, MapFlags { bits: 0x02 }, 3, 0), EBADF);
    assert_eq!(m.mmap(0x7fff_f000, 8192, RW, FIXED, 0, 0), ENOMEM);
    assert_eq!(m.mmap(0, 0x0800_1000, RW, ANON, 0, 0), ENOMEM);
    assert!(m.areas.is_empty());
    assert_eq!(m.mmap(0, 0x0800_0000, RW, ANON, 0, 0), 0x6000_0000);
    assert_eq!(m.mmap(0, 1, RW, ANON, 0, 0), ENOMEM);
}

#[test]
fn fixed_mapping_replaces_what_was_there() {
    let mut m = MemorySet::new_bare();
    assert_eq!(m.mmap(0x1000_0000, 0x4000, RW, FIXED, 0, 0), 0x1000_0000);
    assert_eq!(m.mmap(0x1000_1000, 0x2000, RO, FIXED, 0, 0), 0x1000_1000);
    assert_eq!(
        ranges(&m),
        vec![(0x10000, 0x10001, 0x16), (0x10001, 0x10003, 0x12), (0x10003, 0x10004, 0x16)]
    );
    assert_eq!(m.mmap_top, 0x60000);
    assert_eq!(m.mmap(0x6000_2000, 0x1000, RW, FIXED, 0, 0), 0x6000_2000);
    assert_eq!(m.mmap_top, 0x60003);
    assert_eq!(m.mmap(0, 0x1000, RW, ANON, 0, 0), 0x6000_3000);
}

#[test]
fn munmap_cuts_regions() {
    let mut m = MemorySet::new_bare();
    m.mmap(0x1000_0000, 0x8000, RW, FIXED, 0, 0);
    m.write_u32(0x1000_2000, 5).unwrap();
    assert_eq!(m.munmap(0x1000_2001, 1), Err(EINVAL));
    assert_eq!(m.munmap(0x1000_2000, 0), Err(EINVAL));
    assert_eq!(m.munmap(0x1000_2000, 0x2001), Ok(()));
    assert_eq!(ranges(&m), vec![(0x10000, 0x10002, 0x16), (0x10005, 0x10008, 0x16)]);
    assert_eq!(m.read_u32(0x1000_2000), Err(EFAULT));
    assert_eq!(m.read_u32(0x1000_1ffc), Ok(0));
    assert_eq!(m.read_u32(0x1000_1ffe), Err(EFAULT));
    assert_eq!(m.munmap(0x0fff_f000, 0x10_0000), Ok(()));
    assert!(m.areas.is_empty());
    assert_eq!(m.munmap(0x2000_0000, 0x1000), Ok(()));
}

#[test]
fn splitting_keeps_the_frames_with_their_pages() {
    let mut m = MemorySet::new_bare();
    m.mmap(0x1000_0000, 0x4000, RW, FIXED, 0, 0);
    let mut pool = StackFrameAllocator::new(PhysPageNum(10), PhysPageNum(12));
    let f = pool.alloc_frame().unwrap();
    assert_eq!(f.ppn, PhysPageNum(10));
    m.areas[0].inner.alloc_in_memory(npucore::mm::VirtPageNum(0x10003), std::sync::Arc::new(f));
    m.split_at(0x10002);
    assert_eq!(ranges(&m), vec![(0x10000, 0x10002, 0x16), (0x10002, 0x10004, 0x16)]);
    let upper = &m.areas[m.find(0x10003).unwrap()];
    assert_eq!(upper.inner.get_in_memory(&npucore::mm::VirtPageNum(0x10003)).unwrap().ppn, PhysPageNum(10));
    assert!(matches!(upper.inner.frames[0], Frame::Unallocated));
    m.split_at(0x10002);
    m.split_at(0x20000);
    assert_eq!(m.areas.len(), 2);
}

#[test]
fn frame_pool_hands_out_recycled_frames_first() {
    let mut pool = StackFrameAllocator::new(PhysPageNum(10), PhysPageNum(12));
    assert_eq!(pool.unallocated_frames(), 2);
    let a = pool.alloc_frame().unwrap();
    let b = pool.alloc_frame().unwrap();
    assert_eq!((a.ppn, b.ppn), (PhysPageNum(10), PhysPageNum(11)));
    assert!(pool.alloc_frame().is_none());
    pool.dealloc_frame(a.ppn);
    assert_eq!(pool.unallocated_frames(), 1);
    assert_eq!(pool.alloc_frame().unwrap().ppn, PhysPageNum(10));
}

#[test]
fn mprotect_changes_what_user_code_may_do() {
    let mut m = MemorySet::new_bare();
    m.mmap(0x1000_0000, 0x3000, RW, FIXED, 0, 0);
    assert_eq!(m.mprotect(0x1000_1001, 0x1000, 1), Err(EINVAL));
    assert_eq!(m.mprotect(0x1000_1000, 0x1000, 8), Err(EINVAL));
    assert_eq!(m.mprotect(0x1000_2000, 0x2000, 1), Err(ENOMEM));
    assert_eq!(ranges(&m), vec![(0x10000, 0x10003, 0x16)]);
    assert_eq!(m.mprotect(0x1000_1000, 0x1000, 1), Ok(()));
    assert_eq!(
        ranges(&m),
        vec![(0x10000, 0x10001, 0x16), (0x10001, 0x10002, 0x12), (0x10002, 0x10003, 0x16)]
    );
    assert_eq!(m.write_u32(0x1000_1000, 1), Err(EFAULT));
    assert_eq!(m.write_u32(0x1000_0ffe, 1), Err(EFAULT));
    assert_eq!(m.write_u32(0x1000_0ffc, 0xaabbccdd), Ok(()));
    assert_eq!(m.read_bytes(0x1000_0ffc, 6), Ok(vec![0xdd, 0xcc, 0xbb, 0xaa, 0, 0]));
    assert_eq!(m.mprotect(0x1000_0000, 0x3000, 0), Ok(()));
    assert_eq!(m.read_u32(0x1000_0ffc), Err(EFAULT));
    assert_eq!(m.peek_u32(0x1000_0ffc), 0xaabbccdd);
    assert_eq!(m.mprotect(0x1000_0000, 0, 3), Ok(()));
}

#[test]
fn words_are_stored_low_byte_first() {
    let mut m = MemorySet::new_bare();
    m.mmap(0x1000_0000, 0x1000, RW, FIXED, 0, 0);
    assert_eq!(m.write_words(0x1000_0008, &vec![0x0102_0304_0506_0708, 9]), Ok(()));
    assert_eq!(m.read_bytes(0x1000_0008, 9), Ok(vec![8, 7, 6, 5, 4, 3, 2, 1, 9]));
    assert_eq!(m.read_u64(0x1000_0008), Ok(0x0102_0304_0506_0708));
    assert_eq!(m.read_words(0x1000_0008, 2), Ok(vec![0x0102_0304_0506_0708, 9]));
    assert_eq!(m.write_words(0x1000_0ff8, &vec![1, 2]), Err(EFAULT));
    assert_eq!(m.read_u64(0x1000_0ff8), Ok(0));
    assert!(m.can_access_range(usize::MAX, 0, true));
    assert!(!m.can_access_range(usize::MAX, 2, true));
}

#[test]
fn sbrk_moves_the_end_of_the_heap() {
    let mut m = MemorySet::new_bare();
    let bottom = 0x1000_0000;
    assert_eq!(m.sbrk(bottom, bottom, 0), bottom);
    assert_eq!(m.sbrk(bottom, bottom, 100), bottom + 100);
    assert_eq!(ranges(&m), vec![(0x10000, 0x10001, 0x16)]);
    assert_eq!(m.sbrk(bottom + 100, bottom, 0x2000), bottom + 0x2064);
    assert_eq!(ranges(&m), vec![(0x10000, 0x10003, 0x16)]);
    assert_eq!(m.areas.len(), 1);
    assert_eq!(m.sbrk(bottom + 0x2064, bottom, 4096 * 20), bottom + 0x2064);
    assert_eq!(m.sbrk(bottom + 0x2064, bottom, -0x1065), bottom + 0xfff);
    assert_eq!(ranges(&m), vec![(0x10000, 0x10001, 0x16)]);
    assert_eq!(m.sbrk(bottom + 0xfff, bottom, -0x1000), bottom + 0xfff);
    assert_eq!(m.sbrk(bottom + 0xfff, bottom, -0xfff), bottom);
    assert!(m.areas.is_empty());
    assert_eq!(m.sbrk(bottom, bottom, 4096 * 20), bottom + 4096 * 20);
    assert_eq!(m.sbrk(bottom + 4096 * 20, bottom, 1), bottom + 4096 * 20);
}

#[test]
fn heap_grows_beside_a_region_with_other_rights() {
    let mut m = MemorySet::new_bare();
    m.mmap(0x1000_0000, 0x1000, RO, FIXED, 0, 0);
    assert_eq!(m.sbrk(0x1000_1000, 0x1000_0000, 0x1000), 0x1000_2000);
    assert_eq!(ranges(&m), vec![(0x10000, 0x10001, 0x12), (0x10001, 0x10002, 0x16)]);
}

#[test]
fn duplicate_copies_pages_and_bytes() {
    let mut m = MemorySet::new_bare();
    m.mmap(0x1000_0000, 0x2000, RW, FIXED, 0, 0);
    m.mmap(0, 0x1000, RO, ANON, 0, 0);
    m.write_u32(0x1000_0000, 77).unwrap();
    let c = m.duplicate();
    assert_eq!(ranges(&c), ranges(&m));
    assert_eq!(c.read_u32(0x1000_0000), Ok(77));
    assert_eq!(c.mmap_top, m.mmap_top);
    assert!(c.areas.iter().all(|a| a.inner.frames.iter().all(|f| matches!(f, Frame::Unallocated))));
}

#[test]
fn memory_calls_of_the_task_that_runs() {
    let mut k = Kernel::new();
    k.schedule();
    assert_eq!(sys_mmap(&mut k, 0, 0x2000, 3, 0x22, usize::MAX, 0), 0x6000_0000);
    assert_eq!(sys_mmap(&mut k, 0, 0x1000, 1, 0x22, usize::MAX, 0), 0x6000_2000);
    assert_eq!(sys_mmap(&mut k, 8, 0x1000, 1, 0x22, usize::MAX, 0), EINVAL);
    assert_eq!(k.spaces[0].write_u32(0x6000_2000, 1), Err(EFAULT));
    assert_eq!(sys_mprotect(&mut k, 0x6000_2000, 0x1000, 3), SUCCESS);
    assert_eq!(k.spaces[0].write_u32(0x6000_2000, 1), Ok(()));
    assert_eq!(sys_mprotect(&mut k, 0x6000_3000, 0x1000, 3), ENOMEM);
    assert_eq!(sys_mprotect(&mut k, 0x6000_2000, 0x1000, 0x10), EINVAL);
    assert_eq!(sys_munmap(&mut k, 0x6000_0000, 0x1000), SUCCESS);
    assert_eq!(sys_munmap(&mut k, 0x6000_0001, 0x1000), EINVAL);
    assert_eq!(k.spaces[0].read_u32(0x6000_0000), Err(EFAULT));
    assert_eq!(k.spaces[0].read_u32(0x6000_1000), Ok(0));
}

#[test]
fn brk_and_sbrk_of_the_task_that_runs() {
    let mut k = Kernel::new();
    k.schedule();
    let bottom = 0x1000_0000;
    assert_eq!(sys_brk(&mut k, 0), bottom);
    assert_eq!(sys_sbrk(&mut k, 0x1800), bottom + 0x1800);
    assert_eq!(k.tasks[1].as_ref().unwrap().heap_pt, 0x1000_1800);
    assert_eq!(k.spaces[0].write_u32(0x1000_1ffc, 3), Ok(()));
    assert_eq!(sys_brk(&mut k, 0x1000_0800 as usize), bottom + 0x800);
    assert_eq!(k.spaces[0].read_u32(0x1000_1000), Err(EFAULT));
    assert_eq!(sys_brk(&mut k, bottom as usize - 1), bottom + 0x800);
    assert_eq!(sys_brk(&mut k, bottom as usize + 4096 * 20 + 1), bottom + 0x800);
    assert_eq!(sys_brk(&mut k, bottom as usize + 4096 * 20), bottom + 4096 * 20);
    assert_eq!(sys_sbrk(&mut k, -(4096 * 20)), bottom);
    assert_eq!(sys_sbrk(&mut k, -1), bottom);
}

#[test]
fn a_page_fault_gives_the_page_the_next_frame() {
    let mut k = Kernel::new();
    k.schedule();
    let addr = sys_mmap(&mut k, 0, 8192, 3, 0x22, usize::MAX, 0) as usize;
    let vpn = addr / 4096;
    assert_eq!(k.spaces[0].residency(vpn), Residency::Unallocated);
    assert_eq!(k.spaces[0].residency(vpn + 2), Residency::Unmapped);
    let free = k.frames.unallocated_frames();
    assert_eq!(k.handle_page_fault(addr + 17), SUCCESS);
    assert_eq!(k.spaces[0].residency(vpn), Residency::Resident);
    assert_eq!(k.spaces[0].residency(vpn + 1), Residency::Unallocated);
    assert_eq!(k.frames.unallocated_frames(), free - 1);
    assert_eq!(k.handle_page_fault(addr), SUCCESS);
    assert_eq!(k.frames.unallocated_frames(), free - 1);
    assert_eq!(k.handle_page_fault(addr + 8192), EFAULT);
    let i = k.spaces[0].find(vpn).unwrap();
    match k.spaces[0].areas[i].inner.get_in_memory(&npucore::mm::VirtPageNum(vpn)) {
        Some(frame) => assert_eq!(frame.ppn, PhysPageNum(0x9_1001)),
        None => panic!("the page has no frame"),
    }
}

#[test]
fn a_page_fault_without_a_free_frame_is_out_of_memory() {
    let mut k = Kernel::new();
    k.schedule();
    let addr = sys_mmap(&mut k, 0, 4096, 3, 0x22, usize::MAX, 0) as usize;
    k.frames = StackFrameAllocator::new(PhysPageNum(5), PhysPageNum(5));
    assert_eq!(k.handle_page_fault(addr), ENOMEM);
    assert_eq!(k.spaces[0].residency(addr / 4096), Residency::Unallocated);
}

#[test]
fn a_page_held_outside_memory_cannot_be_served() {
    let mut k = Kernel::new();
    k.schedule();
    let addr = sys_mmap(&mut k, 0, 4096, 3, 0x22, usize::MAX, 0) as usize;
    let vpn = addr / 4096;
    let i = k.spaces[0].find(vpn).unwrap();
    k.spaces[0].areas[i].inner.frames[0] = Frame::SwappedOut(3);
    k.spaces[0].areas[i].inner.swapped = 1;
    assert_eq!(k.spaces[0].residency(vpn), Residency::Evicted);
    assert_eq!(k.handle_page_fault(addr), EFAULT);
}
