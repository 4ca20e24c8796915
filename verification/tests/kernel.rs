use npucore::syscall::blocking::{FUTEX_REQUEUE, FUTEX_WAIT, FUTEX_WAKE, WNOHANG};
use npucore::syscall::errno::{
    EAGAIN, ECHILD, EFAULT, EINTR, EINVAL, ESRCH, ETIMEDOUT, SUCCESS,
};
use npucore::syscall::{
    resume_blocked, sys_clone, sys_exit, sys_exit_group, sys_fork, sys_futex, sys_get_time,
    sys_getegid, sys_geteuid, sys_getgid, sys_getpgid, sys_getpid, sys_getppid, sys_getrandom,
    sys_gettid, sys_getuid, sys_kill, sys_memorybarrier, sys_mmap, sys_nanosleep,
    sys_set_robust_list, sys_set_tid_address, sys_setpgid, sys_shutdown, sys_tkill, sys_wait4,
    sys_yield,
};
use npucore::task::spawn::{
    CLONE_CHILD_CLEARTID, CLONE_CHILD_SETTID, CLONE_PARENT, CLONE_PARENT_SETTID, CLONE_SETTLS,
    CLONE_THREAD, CLONE_VM,
};
use npucore::task::{Blocked, Kernel, TaskStatus};

const PROT_RW: usize = 3;
const MAP_PRIVATE_ANON: usize = 0x22;
const SIGCHLD_NUM: u32 = 17;

fn booted() -> Kernel {
    let mut k = Kernel::new();
    k.schedule();
    assert_eq!(k.current, Some(1));
    k
}

fn with_page(k: &mut Kernel) -> usize {
    let addr = sys_mmap(k, 0, 4096, PROT_RW, MAP_PRIVATE_ANON, usize::MAX, 0);
    assert!(addr > 0);
    addr as usize
}

fn status_of(k: &Kernel, pid: usize) -> TaskStatus {
    k.tasks[pid].as_ref().unwrap().task_status
}

fn word_at(k: &Kernel, space: usize, addr: usize) -> u32 {
    k.spaces[space].read_u32(addr).unwrap()
}

#[test]
fn boot_has_one_ready_task() {
    let k = Kernel::new();
    assert_eq!(k.current, None);
    assert_eq!(k.ready_queue, vec![1]);
    assert!(k.tasks[0].is_none());
    let init = k.tasks[1].as_ref().unwrap();
    assert_eq!((init.pid, init.tgid, init.tid, init.parent), (1, 1, 0, None));
    assert_eq!(init.task_status, TaskStatus::Ready);
    assert_eq!(k.spaces.len(), 1);
    let k = booted();
    assert_eq!(status_of(&k, 1), TaskStatus::Running);
    assert!(k.ready_queue.is_empty());
}

#[test]
fn identity_calls() {
    let mut k = booted();
    assert_eq!(sys_getpid(&k), 1);
    assert_eq!(sys_gettid(&k), 1);
    assert_eq!(sys_getuid(), 0);
    assert_eq!(sys_geteuid(), 0);
    assert_eq!(sys_getgid(), 0);
    assert_eq!(sys_getegid(), 0);
    assert_eq!(sys_getrandom(0, 16, 0), 0);
    assert_eq!(sys_memorybarrier(0, 0, 0), SUCCESS);
    assert_eq!(sys_getpgid(&k, 1), 1);
    assert_eq!(sys_getpgid(&k, 9), ESRCH);
    assert_eq!(sys_setpgid(&k, 1, 5), SUCCESS);
    assert_eq!(sys_setpgid(&k, 9, 5), ESRCH);
    assert_eq!(sys_getpgid(&k, 1), 1);
    let child = sys_fork(&mut k);
    assert_eq!(child, 2);
    sys_yield(&mut k);
    assert_eq!(k.current, Some(2));
    assert_eq!(sys_getpid(&k), 2);
    assert_eq!(sys_getppid(&k), 1);
}

#[test]
fn clock_in_milliseconds() {
    let mut k = booted();
    assert_eq!(sys_get_time(&k), 0);
    k.set_time(250_000_000);
    assert_eq!(sys_get_time(&k), 2500);
}

#[test]
fn shutdown_asks_for_soft_off() {
    let mut k = booted();
    assert_eq!(sys_shutdown(&mut k), SUCCESS);
    assert_eq!(k.pm1_cnt.bits, 0x3c00);
}

#[test]
fn yield_goes_round() {
    let mut k = booted();
    assert_eq!(sys_yield(&mut k), SUCCESS);
    assert_eq!(k.current, Some(1));
    let a = sys_fork(&mut k) as usize;
    let b = sys_fork(&mut k) as usize;
    assert_eq!(k.ready_queue, vec![a, b]);
    sys_yield(&mut k);
    assert_eq!(k.current, Some(a));
    assert_eq!(k.ready_queue, vec![b, 1]);
    assert_eq!(status_of(&k, 1), TaskStatus::Ready);
    sys_yield(&mut k);
    sys_yield(&mut k);
    assert_eq!(k.current, Some(1));
}

#[test]
fn set_tid_address_and_robust_list() {
    let mut k = booted();
    assert_eq!(sys_set_tid_address(&mut k, 0x1234), 1);
    assert_eq!(k.tasks[1].as_ref().unwrap().clear_child_tid, 0x1234);
    assert_eq!(sys_set_robust_list(&mut k, 0x8000, 23), EINVAL);
    assert_eq!(k.tasks[1].as_ref().unwrap().robust_list.head, 0);
    assert_eq!(sys_set_robust_list(&mut k, 0x8000, 24), SUCCESS);
    assert_eq!(k.tasks[1].as_ref().unwrap().robust_list.head, 0x8000);
    assert_eq!(k.tasks[1].as_ref().unwrap().robust_list.len, 24);
}

#[test]
fn kill_checks_signal_then_target() {
    let mut k = booted();
    assert_eq!(sys_kill(&mut k, 1, 65), EINVAL);
    assert_eq!(sys_kill(&mut k, 0, 65), EINVAL);
    assert_eq!(sys_kill(&mut k, 7, 9), ESRCH);
    assert_eq!(sys_kill(&mut k, 1, 0), SUCCESS);
    assert_eq!(k.tasks[1].as_ref().unwrap().sigpending.bits, 0);
    assert_eq!(sys_kill(&mut k, 1, 10), SUCCESS);
    assert_eq!(k.tasks[1].as_ref().unwrap().sigpending.bits, 1 << 9);
    assert_eq!(sys_tkill(&mut k, 1, 64), SUCCESS);
    assert_eq!(k.tasks[1].as_ref().unwrap().sigpending.bits, (1 << 9) | (1 << 63));
    assert_eq!(sys_tkill(&mut k, 3, 10), ESRCH);
    assert_eq!(sys_tkill(&mut k, 3, 200), EINVAL);
}

#[test]
fn kill_goes_to_the_lowest_task_of_the_group() {
    let mut k = booted();
    let t = sys_clone(&mut k, CLONE_VM | CLONE_THREAD, 0, 0, 0, 0) as usize;
    assert_eq!(k.tasks[t].as_ref().unwrap().tgid, 1);
    assert_eq!(sys_kill(&mut k, 1, 12), SUCCESS);
    assert_eq!(k.tasks[1].as_ref().unwrap().sigpending.bits, 1 << 11);
    assert_eq!(k.tasks[t].as_ref().unwrap().sigpending.bits, 0);
    assert_eq!(sys_kill(&mut k, t, 12), ESRCH);
    assert_eq!(sys_tkill(&mut k, t, 12), SUCCESS);
    assert_eq!(k.tasks[t].as_ref().unwrap().sigpending.bits, 1 << 11);
}

#[test]
fn signal_wakes_a_blocked_task_unless_masked() {
    let mut k = booted();
    let page = with_page(&mut k);
    let child = sys_fork(&mut k) as usize;
    assert_eq!(sys_futex(&mut k, page, FUTEX_WAIT, 0, 0, 0, 0), None);
    assert_eq!(status_of(&k, 1), TaskStatus::Interruptible);
    assert_eq!(k.current, Some(child));
    k.tasks[1].as_mut().unwrap().sigmask.bits = 1 << 9;
    assert_eq!(sys_kill(&mut k, 1, 10), SUCCESS);
    assert_eq!(status_of(&k, 1), TaskStatus::Interruptible);
    assert_eq!(sys_kill(&mut k, 1, 11), SUCCESS);
    assert_eq!(status_of(&k, 1), TaskStatus::Ready);
    assert_eq!(k.ready_queue, vec![1]);
    sys_yield(&mut k);
    assert_eq!(k.current, Some(1));
    assert_eq!(resume_blocked(&mut k), Some(EINTR));
    assert!(k.futexes[0].waiters.is_empty());
    assert_eq!(k.tasks[1].as_ref().unwrap().blocked, Blocked::Nothing);
}

#[test]
fn wait4_blocks_until_the_child_exits() {
    let mut k = booted();
    let status = with_page(&mut k);
    let child = sys_fork(&mut k) as usize;
    assert_eq!(child, 2);
    assert_eq!(sys_wait4(&mut k, -1, status, 0, 0), None);
    assert_eq!(status_of(&k, 1), TaskStatus::Interruptible);
    assert_eq!(k.current, Some(child));
    sys_exit(&mut k, 7);
    assert_eq!(k.tasks[child].as_ref().unwrap().exit_code, 7 << 8);
    assert_eq!(k.current, Some(1));
    assert_eq!(status_of(&k, 1), TaskStatus::Running);
    assert_eq!(k.tasks[1].as_ref().unwrap().sigpending.bits, 1 << 16);
    assert_eq!(resume_blocked(&mut k), Some(child as isize));
    assert_eq!(word_at(&k, 0, status), 0x700);
    assert!(k.tasks[child].is_none());
    assert!(k.children[1].is_empty());
    assert_eq!(k.tasks[1].as_ref().unwrap().blocked, Blocked::Nothing);
}

#[test]
fn wait4_without_a_child_fails() {
    let mut k = booted();
    assert_eq!(sys_wait4(&mut k, -1, 0, 0, 0), Some(ECHILD));
    let child = sys_fork(&mut k) as usize;
    assert_eq!(sys_wait4(&mut k, 9, 0, 0, 0), Some(ECHILD));
    assert_eq!(sys_wait4(&mut k, child as isize, 0, WNOHANG, 0), Some(SUCCESS));
    assert_eq!(status_of(&k, 1), TaskStatus::Running);
}

#[test]
fn wait4_takes_the_first_zombie_and_keeps_the_rest() {
    let mut k = booted();
    let a = sys_fork(&mut k) as usize;
    let b = sys_fork(&mut k) as usize;
    sys_yield(&mut k);
    assert_eq!(k.current, Some(a));
    sys_yield(&mut k);
    assert_eq!(k.current, Some(b));
    sys_exit(&mut k, 3);
    assert_eq!(k.current, Some(1));
    assert_eq!(sys_wait4(&mut k, a as isize, 0, WNOHANG, 0), Some(SUCCESS));
    assert_eq!(sys_wait4(&mut k, -1, 0, 0, 0), Some(b as isize));
    assert_eq!(k.children[1], vec![a]);
    assert!(k.tasks[b].is_none());
    assert!(k.tasks[a].is_some());
}

#[test]
fn wait4_reports_a_bad_status_address_after_it_collected() {
    let mut k = booted();
    let child = sys_fork(&mut k) as usize;
    sys_yield(&mut k);
    sys_exit(&mut k, 1);
    assert_eq!(k.current, Some(1));
    assert_eq!(sys_wait4(&mut k, -1, 0x10, 0, 0), Some(EFAULT));
    assert!(k.tasks[child].is_none());
}

#[test]
fn wait4_skips_a_thread_that_exited() {
    let mut k = booted();
    let child = sys_fork(&mut k) as usize;
    sys_yield(&mut k);
    assert_eq!(k.current, Some(child));
    let thread = sys_clone(&mut k, CLONE_VM | CLONE_THREAD, 0, 0, 0, 0) as usize;
    assert_eq!(k.tasks[thread].as_ref().unwrap().parent, Some(1));
    assert_eq!(k.tasks[thread].as_ref().unwrap().tgid, child);
    assert_eq!(k.tasks[thread].as_ref().unwrap().tid, thread - child);
    assert_eq!(k.children[1], vec![child, thread]);
    sys_yield(&mut k);
    assert_eq!(k.current, Some(1));
    sys_yield(&mut k);
    assert_eq!(k.current, Some(thread));
    sys_exit(&mut k, 4);
    assert_eq!(k.current, Some(child));
    sys_yield(&mut k);
    assert_eq!(k.current, Some(1));
    assert_eq!(sys_wait4(&mut k, -1, 0, WNOHANG, 0), Some(SUCCESS));
    assert!(k.tasks[thread].is_none());
    assert_eq!(k.children[1], vec![child]);
}

#[test]
fn exit_hands_children_to_the_first_task() {
    let mut k = booted();
    let a = sys_fork(&mut k) as usize;
    sys_yield(&mut k);
    assert_eq!(k.current, Some(a));
    let b = sys_fork(&mut k) as usize;
    let c = sys_fork(&mut k) as usize;
    assert_eq!(k.children[a], vec![b, c]);
    sys_exit(&mut k, 0);
    assert_eq!(status_of(&k, a), TaskStatus::Zombie);
    assert_eq!(k.children[1], vec![a, b, c]);
    assert!(k.children[a].is_empty());
    assert_eq!(k.tasks[b].as_ref().unwrap().parent, Some(1));
    assert_eq!(k.tasks[c].as_ref().unwrap().parent, Some(1));
    assert!(!k.ready_queue.contains(&a));
}

#[test]
fn exit_status_keeps_the_low_byte() {
    let mut k = booted();
    let a = sys_fork(&mut k) as usize;
    sys_yield(&mut k);
    sys_exit(&mut k, 0x1ff);
    assert_eq!(k.tasks[a].as_ref().unwrap().exit_code, 0xff00);
}

#[test]
fn exit_group_ends_every_thread() {
    let mut k = booted();
    let child = sys_fork(&mut k) as usize;
    sys_yield(&mut k);
    assert_eq!(k.current, Some(child));
    let t1 = sys_clone(&mut k, CLONE_VM | CLONE_THREAD, 0, 0, 0, 0) as usize;
    let t2 = sys_clone(&mut k, CLONE_VM | CLONE_THREAD, 0, 0, 0, 0) as usize;
    sys_exit_group(&mut k, 2);
    for p in [child, t1, t2] {
        assert_eq!(status_of(&k, p), TaskStatus::Zombie);
        assert_eq!(k.tasks[p].as_ref().unwrap().exit_code, 2 << 8);
        assert!(!k.ready_queue.contains(&p));
    }
    assert_eq!(k.current, Some(1));
    assert_eq!(sys_wait4(&mut k, -1, 0, 0, 0), Some(child as isize));
}

#[test]
fn futex_wait_on_a_changed_word_does_not_block() {
    let mut k = booted();
    let addr = with_page(&mut k);
    k.spaces[0].write_u32(addr, 6).unwrap();
    assert_eq!(sys_futex(&mut k, addr, FUTEX_WAIT, 5, 0, 0, 0), Some(EAGAIN));
    assert_eq!(k.current, Some(1));
    assert_eq!(status_of(&k, 1), TaskStatus::Running);
    assert!(k.futexes[0].waiters.is_empty());
}

#[test]
fn futex_checks_the_word_address() {
    let mut k = booted();
    let addr = with_page(&mut k);
    assert_eq!(sys_futex(&mut k, 0, FUTEX_WAKE, 1, 0, 0, 0), Some(EINVAL));
    assert_eq!(sys_futex(&mut k, addr + 2, FUTEX_WAKE, 1, 0, 0, 0), Some(EINVAL));
    assert_eq!(sys_futex(&mut k, 0x1000, FUTEX_WAKE, 1, 0, 0, 0), Some(EFAULT));
    assert_eq!(sys_futex(&mut k, addr, 0x7f, 1, 0, 0, 0), Some(EINVAL));
    assert_eq!(sys_futex(&mut k, addr, FUTEX_REQUEUE, 1, 0, 0, 0), Some(EINVAL));
    assert_eq!(sys_futex(&mut k, addr, FUTEX_REQUEUE, 1, 0, 0x1000, 0), Some(EFAULT));
    assert_eq!(sys_futex(&mut k, addr, FUTEX_WAKE | 128, 1, 0, 0, 0), Some(0));
    assert_eq!(sys_futex(&mut k, addr, FUTEX_WAIT, 0, 0x10, 0, 0), Some(EFAULT));
}

#[test]
fn futex_wake_wakes_one_of_two() {
    let mut k = booted();
    let addr = with_page(&mut k);
    let a = sys_clone(&mut k, CLONE_VM | CLONE_THREAD, 0, 0, 0, 0) as usize;
    let b = sys_clone(&mut k, CLONE_VM | CLONE_THREAD, 0, 0, 0, 0) as usize;
    sys_yield(&mut k);
    assert_eq!(k.current, Some(a));
    assert_eq!(sys_futex(&mut k, addr, FUTEX_WAIT, 0, 0, 0, 0), None);
    assert_eq!(k.current, Some(b));
    assert_eq!(sys_futex(&mut k, addr, FUTEX_WAIT, 0, 0, 0, 0), None);
    assert_eq!(k.current, Some(1));
    assert_eq!(status_of(&k, a), TaskStatus::Interruptible);
    assert_eq!(status_of(&k, b), TaskStatus::Interruptible);
    assert_eq!(sys_futex(&mut k, addr, FUTEX_WAKE, 1, 0, 0, 0), Some(1));
    assert_eq!(status_of(&k, a), TaskStatus::Ready);
    assert_eq!(status_of(&k, b), TaskStatus::Interruptible);
    assert_eq!(k.ready_queue, vec![a]);
    assert_eq!(k.futexes[0].waiters.len(), 1);
    assert_eq!(k.futexes[0].waiters[0].pid, b);
    sys_yield(&mut k);
    assert_eq!(k.current, Some(a));
    assert_eq!(resume_blocked(&mut k), Some(SUCCESS));
    assert_eq!(sys_futex(&mut k, addr, FUTEX_WAKE, 5, 0, 0, 0), Some(1));
    assert_eq!(sys_futex(&mut k, addr, FUTEX_WAKE, 5, 0, 0, 0), Some(0));
}

#[test]
fn futex_requeue_wakes_then_moves_in_order() {
    let mut k = booted();
    let addr = with_page(&mut k);
    let other = addr + 64;
    let t: Vec<usize> =
        (0..4).map(|_| sys_clone(&mut k, CLONE_VM | CLONE_THREAD, 0, 0, 0, 0) as usize).collect();
    sys_yield(&mut k);
    for _ in 0..3 {
        assert_eq!(sys_futex(&mut k, addr, FUTEX_WAIT, 0, 0, 0, 0), None);
    }
    assert_eq!(k.current, Some(t[3]));
    assert_eq!(sys_futex(&mut k, other, FUTEX_WAIT, 0, 0, 0, 0), None);
    assert_eq!(k.current, Some(1));
    assert_eq!(sys_futex(&mut k, addr, FUTEX_REQUEUE, 1, 1, other, 0), Some(2));
    assert_eq!(status_of(&k, t[0]), TaskStatus::Ready);
    assert_eq!(status_of(&k, t[1]), TaskStatus::Interruptible);
    let queue: Vec<(usize, usize)> = k.futexes[0].waiters.iter().map(|w| (w.addr, w.pid)).collect();
    assert_eq!(queue, vec![(addr, t[2]), (other, t[3]), (other, t[1])]);
    assert_eq!(sys_futex(&mut k, other, FUTEX_WAKE, 9, 0, 0, 0), Some(2));
    assert_eq!(k.ready_queue, vec![t[0], t[3], t[1]]);
}

#[test]
fn futex_wait_times_out() {
    let mut k = booted();
    let addr = with_page(&mut k);
    let child = sys_fork(&mut k) as usize;
    k.spaces[0].write_words(addr + 16, &vec![2, 500]).unwrap();
    assert_eq!(sys_futex(&mut k, addr, FUTEX_WAIT, 0, addr + 16, 0, 0), None);
    assert_eq!(k.current, Some(child));
    assert_eq!(k.timers.len(), 1);
    assert_eq!((k.timers[0].expire.tv_sec, k.timers[0].expire.tv_nsec), (2, 500));
    k.set_time(100_000_000);
    assert_eq!(status_of(&k, 1), TaskStatus::Interruptible);
    k.set_time(200_000_050);
    assert_eq!(status_of(&k, 1), TaskStatus::Ready);
    assert!(k.timers.is_empty());
    sys_yield(&mut k);
    assert_eq!(k.current, Some(1));
    assert_eq!(resume_blocked(&mut k), Some(ETIMEDOUT));
    assert!(k.futexes[0].waiters.is_empty());
}

#[test]
fn nanosleep_sleeps_to_the_end() {
    let mut k = booted();
    let page = with_page(&mut k);
    let child = sys_fork(&mut k) as usize;
    k.set_time(50);
    k.spaces[0].write_words(page, &vec![1, 0]).unwrap();
    k.spaces[0].write_words(page + 16, &vec![9, 9]).unwrap();
    assert_eq!(sys_nanosleep(&mut k, 0, 0), Some(EINVAL));
    assert_eq!(sys_nanosleep(&mut k, 0x10, 0), Some(EFAULT));
    assert_eq!(sys_nanosleep(&mut k, page, page + 16), None);
    assert_eq!(k.current, Some(child));
    assert_eq!((k.timers[0].expire.tv_sec, k.timers[0].expire.tv_nsec), (1, 500));
    k.set_time(100_000_049);
    assert_eq!(status_of(&k, 1), TaskStatus::Interruptible);
    k.set_time(100_000_050);
    assert_eq!(status_of(&k, 1), TaskStatus::Ready);
    sys_yield(&mut k);
    assert_eq!(resume_blocked(&mut k), Some(SUCCESS));
    assert_eq!(k.spaces[0].read_words(page + 16, 2).unwrap(), vec![0, 0]);
}

#[test]
fn nanosleep_is_interrupted_by_a_signal() {
    let mut k = booted();
    let page = with_page(&mut k);
    let child = sys_fork(&mut k) as usize;
    k.spaces[0].write_words(page, &vec![3, 0]).unwrap();
    assert_eq!(sys_nanosleep(&mut k, page, page + 16), None);
    assert_eq!(k.current, Some(child));
    k.set_time(100_000_000);
    assert_eq!(sys_kill(&mut k, 1, 10), SUCCESS);
    assert_eq!(status_of(&k, 1), TaskStatus::Ready);
    sys_yield(&mut k);
    assert_eq!(k.current, Some(1));
    assert_eq!(resume_blocked(&mut k), Some(EINTR));
    assert_eq!(k.spaces[0].read_words(page + 16, 2).unwrap(), vec![2, 0]);
    assert!(k.timers.is_empty());
}

#[test]
fn nanosleep_refuses_a_time_that_is_not_normal() {
    let mut k = booted();
    let page = with_page(&mut k);
    k.spaces[0].write_words(page, &vec![1, 1_000_000_000]).unwrap();
    assert_eq!(sys_nanosleep(&mut k, page, 0), Some(EINVAL));
    k.spaces[0].write_words(page, &vec![u64::MAX, 0]).unwrap();
    k.set_time(100_000_000);
    assert_eq!(sys_nanosleep(&mut k, page, 0), Some(EINVAL));
    assert_eq!(status_of(&k, 1), TaskStatus::Running);
}

#[test]
fn a_task_woken_early_sleeps_on() {
    let mut k = booted();
    let page = with_page(&mut k);
    let child = sys_clone(&mut k, 0, 0, 0, 0, 0) as usize;
    k.spaces[0].write_words(page, &vec![5, 0]).unwrap();
    assert_eq!(sys_nanosleep(&mut k, page, 0), None);
    assert_eq!(k.current, Some(child));
    sys_exit(&mut k, 0);
    assert_eq!(k.current, Some(1));
    assert_eq!(k.tasks[1].as_ref().unwrap().sigpending.bits, 0);
    assert_eq!(resume_blocked(&mut k), None);
    assert_eq!(status_of(&k, 1), TaskStatus::Interruptible);
    assert_eq!(k.current, None);
    k.set_time(500_000_000);
    k.schedule();
    assert_eq!(k.current, Some(1));
    assert_eq!(resume_blocked(&mut k), Some(SUCCESS));
}

#[test]
fn resume_without_a_call_gives_zero() {
    let mut k = booted();
    assert_eq!(resume_blocked(&mut k), Some(SUCCESS));
    assert_eq!(status_of(&k, 1), TaskStatus::Running);
}

#[test]
fn clone_stores_the_number_in_both_memories() {
    let mut k = booted();
    let page = with_page(&mut k);
    let flags = CLONE_VM | CLONE_PARENT_SETTID | CLONE_CHILD_SETTID | SIGCHLD_NUM;
    let pid = sys_clone(&mut k, flags, 0x7000, page, 0, page + 8);
    assert_eq!(pid, 2);
    assert_eq!(word_at(&k, 0, page), 2);
    assert_eq!(word_at(&k, 0, page + 8), 2);
    assert_eq!(k.tasks[2].as_ref().unwrap().vm, 0);
    assert_eq!(k.tasks[2].as_ref().unwrap().user_sp, 0x7000);
    assert_eq!(k.tasks[2].as_ref().unwrap().exit_signal.bits, 1 << 16);
    let flags = CLONE_PARENT_SETTID | CLONE_CHILD_SETTID;
    let pid = sys_clone(&mut k, flags, 0, page + 16, 0, page + 24);
    assert_eq!(pid, 3);
    assert_eq!(k.tasks[3].as_ref().unwrap().vm, 1);
    assert_eq!(word_at(&k, 0, page + 16), 3);
    assert_eq!(word_at(&k, 1, page + 24), 3);
    assert_eq!(word_at(&k, 0, page + 24), 0);
    assert_eq!(word_at(&k, 1, page + 16), 0);
    assert_eq!(k.ready_queue, vec![2, 3]);
}

#[test]
fn clone_with_a_bad_address_leaves_the_task_out_of_the_queue() {
    let mut k = booted();
    let pid = sys_clone(&mut k, CLONE_VM | CLONE_PARENT_SETTID, 0, 0x10, 0, 0);
    assert_eq!(pid, EFAULT);
    assert!(k.tasks[2].is_some());
    assert_eq!(k.children[1], vec![2]);
    assert!(k.ready_queue.is_empty());
    let page = with_page(&mut k);
    let pid = sys_clone(&mut k, CLONE_VM | CLONE_PARENT_SETTID | CLONE_CHILD_SETTID, 0, page, 0, 0x10);
    assert_eq!(pid, EFAULT);
    assert_eq!(word_at(&k, 0, page), 3);
    assert!(k.ready_queue.is_empty());
}

#[test]
fn clone_flags_shape_the_new_task() {
    let mut k = booted();
    let child = sys_fork(&mut k) as usize;
    sys_yield(&mut k);
    assert_eq!(k.current, Some(child));
    k.tasks[child].as_mut().unwrap().sigmask.bits = 0xf0;
    let sibling = sys_clone(&mut k, CLONE_PARENT, 0, 0, 0, 0) as usize;
    assert_eq!(k.tasks[sibling].as_ref().unwrap().parent, Some(1));
    assert_eq!(k.tasks[sibling].as_ref().unwrap().tgid, sibling);
    assert_eq!(k.tasks[sibling].as_ref().unwrap().sigmask.bits, 0xf0);
    assert_eq!(k.children[1], vec![child, sibling]);
    let t = sys_clone(&mut k, CLONE_VM | CLONE_SETTLS | CLONE_CHILD_CLEARTID | 200, 0, 0, 0x55, 0x66);
    let t = k.tasks[t as usize].as_ref().unwrap();
    assert_eq!(t.parent, Some(child));
    assert_eq!(t.tls, 0x55);
    assert_eq!(t.clear_child_tid, 0x66);
    assert_eq!(t.exit_signal.bits, 0);
    assert_eq!(t.vm, k.tasks[child].as_ref().unwrap().vm);
    assert_eq!(t.task_status, TaskStatus::Ready);
}

#[test]
fn fork_copies_the_memory() {
    let mut k = booted();
    let page = with_page(&mut k);
    k.spaces[0].write_u32(page, 41).unwrap();
    let child = sys_fork(&mut k) as usize;
    assert_eq!(k.tasks[child].as_ref().unwrap().vm, 1);
    assert_eq!(k.tasks[child].as_ref().unwrap().exit_signal.bits, 1 << 16);
    k.spaces[0].write_u32(page, 42).unwrap();
    assert_eq!(word_at(&k, 1, page), 41);
    assert_eq!(word_at(&k, 0, page), 42);
    assert_eq!(k.spaces[1].mmap_top, k.spaces[0].mmap_top);
}

#[test]
fn exit_clears_the_word_and_wakes_one_waiter() {
    let mut k = booted();
    let page = with_page(&mut k);
    k.spaces[0].write_u32(page, 99).unwrap();
    let flags = CLONE_VM | CLONE_THREAD | CLONE_CHILD_CLEARTID;
    let thread = sys_clone(&mut k, flags, 0x7000, 0, 0, page) as usize;
    let other = sys_clone(&mut k, CLONE_VM | CLONE_THREAD, 0x6000, 0, 0, 0) as usize;
    assert_eq!(sys_futex(&mut k, page, FUTEX_WAIT, 99, 0, 0, 0), None);
    assert_eq!(k.current, Some(thread));
    sys_yield(&mut k);
    assert_eq!(k.current, Some(other));
    assert_eq!(sys_futex(&mut k, page, FUTEX_WAIT, 99, 0, 0, 0), None);
    assert_eq!(k.current, Some(thread));
    assert_eq!(k.futexes[0].waiters.len(), 2);
    sys_exit(&mut k, 0);
    assert_eq!(word_at(&k, 0, page), 0);
    assert_eq!(status_of(&k, thread), TaskStatus::Zombie);
    assert_eq!(status_of(&k, other), TaskStatus::Interruptible);
    assert_eq!(k.futexes[0].waiters.len(), 1);
    assert_eq!(k.current, Some(1));
    assert_eq!(resume_blocked(&mut k), Some(SUCCESS));
}

#[test]
fn exit_leaves_a_word_alone_that_cannot_be_written() {
    let mut k = booted();
    let page = with_page(&mut k);
    k.spaces[0].write_u32(page, 7).unwrap();
    let child = sys_clone(&mut k, CLONE_CHILD_CLEARTID | SIGCHLD_NUM, 0, 0, 0, 0x10) as usize;
    let plain = sys_fork(&mut k) as usize;
    sys_yield(&mut k);
    assert_eq!(k.current, Some(child));
    sys_exit(&mut k, 1);
    assert_eq!(k.current, Some(plain));
    sys_exit(&mut k, 2);
    assert_eq!(word_at(&k, 0, page), 7);
    assert_eq!(word_at(&k, 1, page), 7);
    assert_eq!(word_at(&k, 2, page), 7);
    assert_eq!(status_of(&k, child), TaskStatus::Zombie);
    assert_eq!(status_of(&k, plain), TaskStatus::Zombie);
}
