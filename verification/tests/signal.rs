use npucore::syscall::errno::{EAGAIN, EFAULT, EINTR, EINVAL, SUCCESS};
use npucore::syscall::signal::{SIG_BLOCK, SIG_SETMASK, SIG_UNBLOCK, UNMASKABLE};
use npucore::syscall::{
    resume_blocked, sys_fork, sys_kill, sys_mmap, sys_sigaction, sys_sigprocmask, sys_sigreturn,
    sys_sigtimedwait, sys_yield,
};
use npucore::task::signal::{SigAction, Signals};
use npucore::task::{Blocked, Kernel, TaskStatus};

fn running() -> (Kernel, usize) {
    let mut k = Kernel::new();
    k.schedule();
    let addr = sys_mmap(&mut k, 0, 4096, 3, 0x22, usize::MAX, 0);
    assert!(addr > 0);
    (k, addr as usize)
}

fn pending(k: &Kernel, pid: usize) -> u64 {
    k.tasks[pid].as_ref().unwrap().sigpending.bits
}

fn mask(k: &Kernel, pid: usize) -> u64 {
    k.tasks[pid].as_ref().unwrap().sigmask.bits
}

#[test]
fn first_is_the_lowest_signal() {
    assert_eq!(Signals::empty().first(), None);
    assert_eq!(Signals { bits: 1 }.first(), Some(1));
    assert_eq!(Signals { bits: 0b1010_0000 }.first(), Some(6));
    assert_eq!(Signals { bits: 1 << 63 }.first(), Some(64));
    assert_eq!(Signals { bits: u64::MAX }.first(), Some(1));
}

#[test]
fn sigprocmask_blocks_unblocks_and_sets() {
    let (mut k, page) = running();
    k.spaces[0].write_words(page, &vec![0b0110]).unwrap();
    assert_eq!(sys_sigprocmask(&mut k, SIG_BLOCK, page, 0), SUCCESS);
    assert_eq!(mask(&k, 1), 0b0110);
    k.spaces[0].write_words(page, &vec![0b1100]).unwrap();
    assert_eq!(sys_sigprocmask(&mut k, SIG_BLOCK, page, page + 8), SUCCESS);
    assert_eq!(mask(&k, 1), 0b1110);
    assert_eq!(k.spaces[0].read_u64(page + 8), Ok(0b0110));
    k.spaces[0].write_words(page, &vec![0b0010]).unwrap();
    assert_eq!(sys_sigprocmask(&mut k, SIG_UNBLOCK, page, 0), SUCCESS);
    assert_eq!(mask(&k, 1), 0b1100);
    k.spaces[0].write_words(page, &vec![0b0001]).unwrap();
    assert_eq!(sys_sigprocmask(&mut k, SIG_SETMASK, page, 0), SUCCESS);
    assert_eq!(mask(&k, 1), 0b0001);
}

#[test]
fn sigprocmask_never_masks_kill_and_stop() {
    let (mut k, page) = running();
    assert_eq!(UNMASKABLE, (1 << 8) | (1 << 18));
    k.spaces[0].write_words(page, &vec![u64::MAX]).unwrap();
    assert_eq!(sys_sigprocmask(&mut k, SIG_SETMASK, page, 0), SUCCESS);
    assert_eq!(mask(&k, 1), u64::MAX & !UNMASKABLE);
    assert_eq!(sys_sigprocmask(&mut k, SIG_BLOCK, page, 0), SUCCESS);
    assert_eq!(mask(&k, 1), u64::MAX & !UNMASKABLE);
}

#[test]
fn sigprocmask_only_reports_without_a_set() {
    let (mut k, page) = running();
    k.tasks[1].as_mut().unwrap().sigmask.bits = 0x55;
    assert_eq!(sys_sigprocmask(&mut k, 7, 0, page), SUCCESS);
    assert_eq!(k.spaces[0].read_u64(page), Ok(0x55));
    assert_eq!(mask(&k, 1), 0x55);
    assert_eq!(sys_sigprocmask(&mut k, SIG_BLOCK, 0, 0), SUCCESS);
    assert_eq!(mask(&k, 1), 0x55);
}

#[test]
fn sigprocmask_refuses_bad_addresses_and_commands() {
    let (mut k, page) = running();
    k.spaces[0].write_words(page, &vec![0b1]).unwrap();
    assert_eq!(sys_sigprocmask(&mut k, SIG_BLOCK, page, 0x10), EFAULT);
    assert_eq!(sys_sigprocmask(&mut k, SIG_BLOCK, 0x10, 0), EFAULT);
    assert_eq!(sys_sigprocmask(&mut k, 3, page, 0), EINVAL);
    assert_eq!(mask(&k, 1), 0);
}

#[test]
fn sigaction_sets_and_reports() {
    let (mut k, page) = running();
    k.spaces[0].write_words(page, &vec![0x4000, 0x4, 0x5000, u64::MAX]).unwrap();
    k.spaces[0].write_words(page + 64, &vec![9, 9, 9, 9]).unwrap();
    assert_eq!(sys_sigaction(&mut k, 10, page, page + 64), SUCCESS);
    assert_eq!(k.spaces[0].read_words(page + 64, 4).unwrap(), vec![0, 0, 0, 0]);
    let set = k.action_of(1, 10);
    assert_eq!(
        (set.handler, set.flags, set.restorer, set.mask.bits),
        (0x4000, 0x4, 0x5000, u64::MAX & !UNMASKABLE)
    );
    assert_eq!(k.action_of(1, 11), SigAction::new());
    k.spaces[0].write_words(page, &vec![0x6000, 0, 0, 1]).unwrap();
    assert_eq!(sys_sigaction(&mut k, 10, page, page + 64), SUCCESS);
    assert_eq!(
        k.spaces[0].read_words(page + 64, 4).unwrap(),
        vec![0x4000, 0x4, 0x5000, u64::MAX & !UNMASKABLE]
    );
    assert_eq!(k.action_of(1, 10).handler, 0x6000);
    assert_eq!(k.sigactions.len(), 1);
    assert_eq!(sys_sigaction(&mut k, 10, 0, page + 64), SUCCESS);
    assert_eq!(k.spaces[0].read_words(page + 64, 4).unwrap(), vec![0x6000, 0, 0, 1]);
    assert_eq!(k.sigactions.len(), 1);
}

#[test]
fn sigaction_refuses_signals_that_cannot_be_handled() {
    let (mut k, page) = running();
    for signum in [0usize, 9, 19, 65, 1000] {
        assert_eq!(sys_sigaction(&mut k, signum, page, 0), EINVAL);
    }
    assert_eq!(sys_sigaction(&mut k, 64, page, 0), SUCCESS);
    assert_eq!(sys_sigaction(&mut k, 1, 0x10, 0), EFAULT);
    assert_eq!(sys_sigaction(&mut k, 1, page, 0x10), EFAULT);
    assert_eq!(k.sigactions.len(), 1);
}

#[test]
fn a_new_task_has_the_actions_of_its_parent() {
    let (mut k, page) = running();
    k.spaces[0].write_words(page, &vec![0x4000, 0, 0, 0]).unwrap();
    assert_eq!(sys_sigaction(&mut k, 10, page, 0), SUCCESS);
    let child = sys_fork(&mut k) as usize;
    assert_eq!(k.action_of(child, 10).handler, 0x4000);
    k.spaces[0].write_words(page, &vec![0x7000, 0, 0, 0]).unwrap();
    assert_eq!(sys_sigaction(&mut k, 10, page, 0), SUCCESS);
    assert_eq!(k.action_of(1, 10).handler, 0x7000);
    assert_eq!(k.action_of(child, 10).handler, 0x4000);
}

#[test]
fn sigtimedwait_takes_the_lowest_pending_signal() {
    let (mut k, page) = running();
    assert_eq!(sys_kill(&mut k, 1, 12), SUCCESS);
    assert_eq!(sys_kill(&mut k, 1, 10), SUCCESS);
    assert_eq!(sys_kill(&mut k, 1, 5), SUCCESS);
    k.spaces[0].write_words(page, &vec![(1 << 9) | (1 << 11)]).unwrap();
    k.spaces[0].write_words(page + 64, &vec![7; 16]).unwrap();
    assert_eq!(sys_sigtimedwait(&mut k, page, page + 64, 0), Some(10));
    assert_eq!(pending(&k, 1), (1 << 11) | (1 << 4));
    let mut info = vec![0u64; 16];
    info[0] = 10;
    assert_eq!(k.spaces[0].read_words(page + 64, 16).unwrap(), info);
    assert_eq!(sys_sigtimedwait(&mut k, page, 0, 0), Some(12));
    assert_eq!(pending(&k, 1), 1 << 4);
    assert_eq!(k.current, Some(1));
}

#[test]
fn sigtimedwait_checks_its_addresses() {
    let (mut k, page) = running();
    assert_eq!(sys_sigtimedwait(&mut k, 0x10, 0, 0), Some(EFAULT));
    assert_eq!(sys_sigtimedwait(&mut k, page, 0, 0x10), Some(EFAULT));
    assert_eq!(sys_kill(&mut k, 1, 3), SUCCESS);
    k.spaces[0].write_words(page, &vec![1 << 2]).unwrap();
    assert_eq!(sys_sigtimedwait(&mut k, page, 0x10, 0), Some(EFAULT));
    assert_eq!(pending(&k, 1), 0);
    k.set_time(100_000_000);
    k.spaces[0].write_words(page + 8, &vec![u64::MAX, 0]).unwrap();
    assert_eq!(sys_sigtimedwait(&mut k, page, 0, page + 8), Some(EINVAL));
    k.spaces[0].write_words(page + 8, &vec![0, 1_000_000_000]).unwrap();
    assert_eq!(sys_sigtimedwait(&mut k, page, 0, page + 8), Some(EINVAL));
    assert_eq!(k.current, Some(1));
}

#[test]
fn sigtimedwait_gives_up_at_the_end() {
    let (mut k, page) = running();
    let child = sys_fork(&mut k) as usize;
    k.spaces[0].write_words(page, &vec![1 << 9, 1, 0]).unwrap();
    assert_eq!(sys_sigtimedwait(&mut k, page, 0, page + 8), None);
    assert_eq!(k.current, Some(child));
    assert_eq!(k.tasks[1].as_ref().unwrap().task_status, TaskStatus::Interruptible);
    assert_eq!((k.timers[0].pid, k.timers[0].expire.tv_sec), (1, 1));
    k.set_time(100_000_000);
    assert_eq!(k.tasks[1].as_ref().unwrap().task_status, TaskStatus::Ready);
    sys_yield(&mut k);
    assert_eq!(k.current, Some(1));
    assert_eq!(resume_blocked(&mut k), Some(EAGAIN));
    assert_eq!(k.tasks[1].as_ref().unwrap().blocked, Blocked::Nothing);
    assert!(k.timers.is_empty());
}

#[test]
fn sigtimedwait_is_woken_by_a_masked_signal_it_waits_for() {
    let (mut k, page) = running();
    let child = sys_fork(&mut k) as usize;
    k.spaces[0].write_words(page, &vec![1 << 9]).unwrap();
    assert_eq!(sys_sigprocmask(&mut k, SIG_BLOCK, page, 0), SUCCESS);
    assert_eq!(sys_sigtimedwait(&mut k, page, page + 64, 0), None);
    assert_eq!(k.current, Some(child));
    assert!(k.timers.is_empty());
    assert_eq!(sys_kill(&mut k, 1, 10), SUCCESS);
    assert_eq!(k.tasks[1].as_ref().unwrap().task_status, TaskStatus::Ready);
    sys_yield(&mut k);
    assert_eq!(resume_blocked(&mut k), Some(10));
    assert_eq!(pending(&k, 1), 0);
    assert_eq!(k.spaces[0].read_u64(page + 64), Ok(10));
}

#[test]
fn sigtimedwait_is_interrupted_by_another_signal() {
    let (mut k, page) = running();
    let child = sys_fork(&mut k) as usize;
    k.spaces[0].write_words(page, &vec![1 << 9, 5, 0]).unwrap();
    assert_eq!(sys_sigtimedwait(&mut k, page, 0, page + 8), None);
    assert_eq!(k.current, Some(child));
    assert_eq!(sys_kill(&mut k, 1, 11), SUCCESS);
    sys_yield(&mut k);
    assert_eq!(k.current, Some(1));
    assert_eq!(resume_blocked(&mut k), Some(EINTR));
    assert_eq!(pending(&k, 1), 1 << 10);
    assert!(k.timers.is_empty());
}

#[test]
fn a_signal_waiter_woken_without_cause_waits_on() {
    let (mut k, page) = running();
    let child = sys_fork(&mut k) as usize;
    k.spaces[0].write_words(page, &vec![1 << 9]).unwrap();
    assert_eq!(sys_sigtimedwait(&mut k, page, 0, 0), None);
    k.wake_interruptible(1);
    sys_yield(&mut k);
    assert_eq!(k.current, Some(1));
    assert_eq!(resume_blocked(&mut k), None);
    assert_eq!(k.current, Some(child));
    assert_eq!(k.tasks[1].as_ref().unwrap().task_status, TaskStatus::Interruptible);
}

#[test]
fn sigreturn_restores_the_mask_of_the_frame() {
    let (mut k, page) = running();
    k.tasks[1].as_mut().unwrap().user_sp = page + 3;
    k.tasks[1].as_mut().unwrap().sigmask.bits = 0xff;
    k.spaces[0].write_words(page + 136 + 40, &vec![0x1234]).unwrap();
    assert_eq!(sys_sigreturn(&mut k, 77), 77);
    assert_eq!(mask(&k, 1), 0x1234);
    k.tasks[1].as_mut().unwrap().user_sp = page;
    k.spaces[0].write_words(page + 128 + 40, &vec![0x5]).unwrap();
    assert_eq!(sys_sigreturn(&mut k, usize::MAX), -1);
    assert_eq!(mask(&k, 1), 0x5);
}
