use npucore::mm::{Frame, FrameTracker, LinearMap, PhysPageNum, VPNRange, VirtPageNum};
use std::collections::VecDeque;
use std::sync::Arc;

fn frame(ppn: usize) -> Arc<FrameTracker> {
    Arc::new(FrameTracker::new(PhysPageNum(ppn)))
}

fn range(start: usize, end: usize) -> VPNRange {
    VPNRange::new(VirtPageNum(start), VirtPageNum(end))
}

fn is_unallocated(f: &Frame) -> bool {
    matches!(f, Frame::Unallocated)
}

#[test]
fn new_map_is_all_unallocated() {
    let m = LinearMap::new(range(100, 104));
    assert_eq!(m.frames.len(), 4);
    assert!(m.frames.iter().all(is_unallocated));
    assert_eq!(m.compressed, 0);
    assert_eq!(m.swapped, 0);
    assert!(m.active.is_empty());
    let empty = LinearMap::new(range(7, 7));
    assert_eq!(empty.frames.len(), 0);
}

#[test]
fn alloc_then_get_returns_the_frame() {
    let mut m = LinearMap::new(range(100, 104));
    let f = frame(9);
    m.alloc_in_memory(VirtPageNum(102), f.clone());
    let got = m.get_in_memory(&VirtPageNum(102)).unwrap();
    assert!(Arc::ptr_eq(got, &f));
    assert!(m.get_in_memory(&VirtPageNum(101)).is_none());
}

#[test]
fn remove_after_alloc_returns_the_frame_once() {
    let mut m = LinearMap::with_oom_handler(range(100, 104));
    let f = frame(9);
    m.alloc_in_memory(VirtPageNum(100), f.clone());
    assert_eq!(m.active, VecDeque::from(vec![0usize]));
    let got = m.remove_in_memory(&VirtPageNum(100)).unwrap();
    assert!(Arc::ptr_eq(&got, &f));
    assert!(is_unallocated(&m.frames[0]));
    assert!(m.active.is_empty());
    assert!(m.remove_in_memory(&VirtPageNum(100)).is_none());
}

#[test]
fn get_mut_hands_out_the_slot() {
    let mut m = LinearMap::new(range(10, 12));
    *m.get_mut(&VirtPageNum(11)) = Frame::InMemory(frame(3));
    assert_eq!(m.get_in_memory(&VirtPageNum(11)).unwrap().ppn, PhysPageNum(3));
    assert!(is_unallocated(&m.frames[0]));
}

#[test]
fn split_scenario() {
    let mut m = LinearMap::new(range(100, 104));
    let f1 = frame(1);
    let f2 = frame(2);
    m.alloc_in_memory(VirtPageNum(101), f1.clone());
    m.alloc_in_memory(VirtPageNum(103), f2.clone());
    let second = m.into_two(VirtPageNum(102)).unwrap();
    assert_eq!(m.vpn_range.get_start(), VirtPageNum(100));
    assert_eq!(m.vpn_range.get_end(), VirtPageNum(102));
    assert!(is_unallocated(&m.frames[0]));
    assert!(Arc::ptr_eq(m.get_in_memory(&VirtPageNum(101)).unwrap(), &f1));
    assert_eq!(second.vpn_range.get_start(), VirtPageNum(102));
    assert_eq!(second.vpn_range.get_end(), VirtPageNum(104));
    assert!(second.get_in_memory(&VirtPageNum(102)).is_none());
    assert!(is_unallocated(&second.frames[0]));
    assert!(Arc::ptr_eq(second.get_in_memory(&VirtPageNum(103)).unwrap(), &f2));
}

#[test]
fn into_two_shares_out_queue_and_counters() {
    let mut m = LinearMap::with_oom_handler(range(0, 6));
    m.alloc_in_memory(VirtPageNum(4), frame(1));
    m.alloc_in_memory(VirtPageNum(1), frame(2));
    m.alloc_in_memory(VirtPageNum(5), frame(3));
    m.frames[0] = Frame::Compressed(70);
    m.frames[2] = Frame::SwappedOut(71);
    m.frames[3] = Frame::Compressed(72);
    m.compressed = 2;
    m.swapped = 1;
    let second = m.into_two(VirtPageNum(3)).unwrap();
    assert_eq!(m.active, VecDeque::from(vec![1usize]));
    assert_eq!(second.active, VecDeque::from(vec![1usize, 2]));
    assert_eq!((m.compressed, m.swapped), (1, 1));
    assert_eq!((second.compressed, second.swapped), (1, 0));
    assert_eq!(m.frames.len() + second.frames.len(), 6);
    assert!(second.oom_handler);
}

#[test]
fn into_two_refuses_a_cut_at_the_edges() {
    let mut m = LinearMap::new(range(100, 104));
    m.alloc_in_memory(VirtPageNum(101), frame(1));
    assert!(m.into_two(VirtPageNum(100)).is_err());
    assert!(m.into_two(VirtPageNum(99)).is_err());
    assert!(m.into_two(VirtPageNum(104)).is_err());
    assert!(m.into_two(VirtPageNum(200)).is_err());
    assert_eq!(m.vpn_range.get_start(), VirtPageNum(100));
    assert_eq!(m.vpn_range.get_end(), VirtPageNum(104));
    assert_eq!(m.frames.len(), 4);
    assert!(m.get_in_memory(&VirtPageNum(101)).is_some());
}

#[test]
fn into_three_cuts_twice_or_not_at_all() {
    let mut m = LinearMap::with_oom_handler(range(10, 20));
    m.alloc_in_memory(VirtPageNum(11), frame(1));
    m.alloc_in_memory(VirtPageNum(15), frame(2));
    m.alloc_in_memory(VirtPageNum(19), frame(3));
    assert!(m.into_three(VirtPageNum(12), VirtPageNum(12)).is_err());
    assert!(m.into_three(VirtPageNum(12), VirtPageNum(20)).is_err());
    assert!(m.into_three(VirtPageNum(10), VirtPageNum(15)).is_err());
    assert_eq!(m.frames.len(), 10);
    assert_eq!(m.vpn_range.get_end(), VirtPageNum(20));
    let (second, third) = m.into_three(VirtPageNum(12), VirtPageNum(17)).unwrap();
    assert_eq!((m.vpn_range.get_start(), m.vpn_range.get_end()), (VirtPageNum(10), VirtPageNum(12)));
    assert_eq!(
        (second.vpn_range.get_start(), second.vpn_range.get_end()),
        (VirtPageNum(12), VirtPageNum(17))
    );
    assert_eq!(
        (third.vpn_range.get_start(), third.vpn_range.get_end()),
        (VirtPageNum(17), VirtPageNum(20))
    );
    assert_eq!(m.active, VecDeque::from(vec![1usize]));
    assert_eq!(second.active, VecDeque::from(vec![3usize]));
    assert_eq!(third.active, VecDeque::from(vec![2usize]));
    assert_eq!(second.get_in_memory(&VirtPageNum(15)).unwrap().ppn, PhysPageNum(2));
    assert_eq!(third.get_in_memory(&VirtPageNum(19)).unwrap().ppn, PhysPageNum(3));
}

#[test]
fn set_end_grows_and_shrinks() {
    let mut m = LinearMap::new(range(100, 104));
    m.alloc_in_memory(VirtPageNum(101), frame(1));
    assert!(m.set_end(VirtPageNum(107)).is_ok());
    assert_eq!(m.frames.len(), 7);
    assert!(m.frames[4..].iter().all(is_unallocated));
    assert!(m.get_in_memory(&VirtPageNum(101)).is_some());
    assert!(m.set_end(VirtPageNum(102)).is_ok());
    assert_eq!(m.frames.len(), 2);
    assert!(m.get_in_memory(&VirtPageNum(101)).is_some());
    assert!(m.set_end(VirtPageNum(99)).is_err());
    assert_eq!(m.vpn_range.get_end(), VirtPageNum(102));
    assert!(m.set_end(VirtPageNum(100)).is_ok());
    assert_eq!(m.frames.len(), 0);
}

#[test]
fn set_start_grows_in_front_and_drops_in_front() {
    let mut m = LinearMap::with_oom_handler(range(100, 104));
    m.alloc_in_memory(VirtPageNum(102), frame(1));
    assert!(m.set_start(VirtPageNum(98)).is_ok());
    assert_eq!(m.frames.len(), 6);
    assert!(is_unallocated(&m.frames[0]));
    assert!(is_unallocated(&m.frames[1]));
    assert_eq!(m.get_in_memory(&VirtPageNum(102)).unwrap().ppn, PhysPageNum(1));
    assert_eq!(m.active, VecDeque::from(vec![4usize]));
    assert!(m.set_start(VirtPageNum(101)).is_ok());
    assert_eq!(m.frames.len(), 3);
    assert_eq!(m.get_in_memory(&VirtPageNum(102)).unwrap().ppn, PhysPageNum(1));
    assert_eq!(m.active, VecDeque::from(vec![1usize]));
    assert!(m.set_start(VirtPageNum(105)).is_err());
    assert_eq!(m.vpn_range.get_start(), VirtPageNum(101));
    assert_eq!(m.frames.len(), 3);
}

#[test]
fn counting_skips_the_scan_while_counters_are_zero() {
    let mut m = LinearMap::new(range(0, 4));
    m.frames[1] = Frame::Compressed(5);
    assert_eq!(m.count_compressed_and_swapped(0, 4), (0, 0));
    m.compressed = 1;
    assert_eq!(m.count_compressed_and_swapped(0, 4), (1, 0));
    assert_eq!(m.count_compressed_and_swapped(2, 4), (0, 0));
    m.frames[3] = Frame::SwappedOut(6);
    m.swapped = 1;
    assert_eq!(m.count_compressed_and_swapped(1, 4), (1, 1));
}

#[test]
fn active_queue_is_shared_out_by_index() {
    let active = VecDeque::from(vec![5usize, 0, 9, 3, 4]);
    let (a, b) = LinearMap::split_active_into_two(&active, 4);
    assert_eq!(a, VecDeque::from(vec![0usize, 3]));
    assert_eq!(b, VecDeque::from(vec![1usize, 5, 0]));
    let (x, y, z) = LinearMap::split_active_into_three(&active, 3, 5);
    assert_eq!(x, VecDeque::from(vec![0usize]));
    assert_eq!(y, VecDeque::from(vec![0usize, 1]));
    assert_eq!(z, VecDeque::from(vec![0usize, 4]));
}

#[test]
fn frame_refuses_a_second_insert() {
    let mut f = Frame::Unallocated;
    assert!(f.insert_in_memory(frame(1)).is_ok());
    assert!(f.insert_in_memory(frame(2)).is_err());
    assert_eq!(f.take_in_memory().unwrap().ppn, PhysPageNum(1));
    assert!(f.take_in_memory().is_none());
    let mut c = Frame::Compressed(4);
    assert!(c.insert_in_memory(frame(3)).is_err());
    assert!(c.take_in_memory().is_none());
    assert!(matches!(c, Frame::Compressed(4)));
}
