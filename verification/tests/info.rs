use npucore::syscall::errno::{EFAULT, EINVAL, ESRCH, SUCCESS};
use npucore::syscall::info::LOG;
use npucore::syscall::{
    sys_clock_gettime, sys_fork, sys_get_robust_list, sys_getrusage, sys_gettimeofday, sys_mmap,
    sys_printtcb, sys_prlimit, sys_set_robust_list, sys_setitimer, sys_sysinfo, sys_syslog,
    sys_times, sys_uname, Resource, SyslogAction,
};
use npucore::task::Kernel;
use npucore::timer::{TimeSpec, TimeVal};

fn booted_with_page() -> (Kernel, usize) {
    let mut k = Kernel::new();
    k.schedule();
    let page = sys_mmap(&mut k, 0, 4096, 3, 0x22, usize::MAX, 0) as usize;
    (k, page)
}

fn words(k: &Kernel, addr: usize, n: usize) -> Vec<u64> {
    k.spaces[0].read_words(addr, n).unwrap()
}

#[test]
fn numbers_name_actions_and_resources() {
    assert_eq!(SyslogAction::from(0), SyslogAction::CLOSE);
    assert_eq!(SyslogAction::from(3), SyslogAction::READ_ALL);
    assert_eq!(SyslogAction::from(10), SyslogAction::SIZE_BUFFER);
    assert_eq!(SyslogAction::from(11), SyslogAction::ILLEAGAL);
    assert_eq!(Resource::from_primitive(3), Resource::STACK);
    assert_eq!(Resource::from_primitive(7), Resource::NOFILE);
    assert_eq!(Resource::from_primitive(16), Resource::NLIMITS);
    assert_eq!(Resource::from_primitive(17), Resource::ILLEAGAL);
}

#[test]
fn times_from_ticks() {
    assert_eq!(TimeSpec::from_ticks(250_000_007), TimeSpec { tv_sec: 2, tv_nsec: 500_000_070 });
    assert_eq!(TimeVal::from_ticks(250_000_199), TimeVal { tv_sec: 2, tv_usec: 500_001 });
    assert_eq!(TimeVal { tv_sec: 2, tv_usec: 3 }.to_tick(), 200_000_300);
    assert_eq!(TimeVal { tv_sec: usize::MAX, tv_usec: 0 }.to_tick(), usize::MAX);
    let a = TimeSpec { tv_sec: 1, tv_nsec: 999_999_999 };
    let b = TimeSpec { tv_sec: 2, tv_nsec: 2 };
    assert_eq!(a.checked_add(&b), Some(TimeSpec { tv_sec: 4, tv_nsec: 1 }));
    assert_eq!(a.checked_add(&TimeSpec { tv_sec: 0, tv_nsec: 1_000_000_000 }), None);
    assert_eq!(a.checked_add(&TimeSpec { tv_sec: usize::MAX, tv_nsec: 1 }), None);
    assert_eq!(b.saturating_sub(&a), TimeSpec { tv_sec: 0, tv_nsec: 3 });
    assert_eq!(a.saturating_sub(&b), TimeSpec { tv_sec: 0, tv_nsec: 0 });
    assert!(a.le(&b));
    assert!(!b.le(&a));
    assert!(a.le(&a));
}

#[test]
fn syslog_reads_the_log() {
    let (mut k, page) = booted_with_page();
    assert_eq!(sys_syslog(&mut k, 0, 0, 0), SUCCESS);
    assert_eq!(sys_syslog(&mut k, 1, 0, 0), SUCCESS);
    assert_eq!(sys_syslog(&mut k, 10, 0, 0), 4096);
    assert_eq!(sys_syslog(&mut k, 11, 0, 0), EINVAL);
    assert_eq!(sys_syslog(&mut k, 2, page, 4), 4);
    assert_eq!(k.spaces[0].read_bytes(page, 5).unwrap(), b"<5>[\0".to_vec());
    assert_eq!(sys_syslog(&mut k, 3, page, 4), 4);
    assert_eq!(k.spaces[0].read_bytes(page, 5).unwrap(), b"2022\0".to_vec());
    let all = sys_syslog(&mut k, 2, page, 4000);
    assert_eq!(all as usize, LOG.len());
    assert_eq!(k.spaces[0].read_bytes(page, LOG.len()).unwrap(), LOG.as_bytes().to_vec());
    assert_eq!(sys_syslog(&mut k, 2, 0x10, 4), EFAULT);
}

#[test]
fn uname_fills_six_fields() {
    let (mut k, page) = booted_with_page();
    assert_eq!(sys_uname(&mut k, page), SUCCESS);
    assert_eq!(k.spaces[0].read_bytes(page, 6).unwrap(), b"Linux\0".to_vec());
    assert_eq!(k.spaces[0].read_bytes(page + 65, 7).unwrap(), b"debian\0".to_vec());
    assert_eq!(k.spaces[0].read_bytes(page + 130, 17).unwrap(), b"5.10.0-7-riscv64\0".to_vec());
    assert_eq!(
        k.spaces[0].read_bytes(page + 195, 37).unwrap(),
        b"#1 SMP Debian 5.10.40-1 (2021-05-28)\0".to_vec()
    );
    assert_eq!(k.spaces[0].read_bytes(page + 260, 8).unwrap(), b"riscv64\0".to_vec());
    assert_eq!(k.spaces[0].read_bytes(page + 325, 1).unwrap(), vec![0]);
    assert_eq!(sys_uname(&mut k, page + 4096 - 389), EFAULT);
}

#[test]
fn times_of_day() {
    let (mut k, page) = booted_with_page();
    k.set_time(350_000_123);
    assert_eq!(sys_gettimeofday(&mut k, 0, 0), SUCCESS);
    assert_eq!(sys_gettimeofday(&mut k, page, 0), SUCCESS);
    assert_eq!(words(&k, page, 2), vec![3, 500_001]);
    assert_eq!(sys_clock_gettime(&mut k, 0, page + 16), SUCCESS);
    assert_eq!(words(&k, page + 16, 2), vec![3, 500_001_230]);
    assert_eq!(sys_clock_gettime(&mut k, 0, 0), SUCCESS);
    assert_eq!(sys_gettimeofday(&mut k, 8, 0), EFAULT);
    assert_eq!(sys_clock_gettime(&mut k, 1, 8), EFAULT);
}

#[test]
fn sysinfo_reports_tasks_and_memory() {
    let (mut k, page) = booted_with_page();
    sys_fork(&mut k);
    sys_fork(&mut k);
    k.set_time(700_000_000);
    assert_eq!(sys_sysinfo(&mut k, page), SUCCESS);
    assert_eq!(
        words(&k, page, 14),
        vec![
            7,
            3 * 65536 / 60,
            3 * 65536 / 300,
            3 * 65536 / 900,
            0x1000_0000,
            (0xA_0000 - 0x9_1001) * 4096,
            0,
            0,
            0,
            0,
            3,
            0,
            0,
            1
        ]
    );
    assert_eq!(sys_sysinfo(&mut k, 0), EFAULT);
    assert_eq!(k.procs_count(), 3);
}

#[test]
fn interval_timers_are_kept_for_each_task() {
    let (mut k, page) = booted_with_page();
    assert_eq!(sys_setitimer(&mut k, 3, 0, 0), EINVAL);
    k.spaces[0].write_words(page, &vec![1, 2, 3, 4]).unwrap();
    assert_eq!(sys_setitimer(&mut k, 1, page, page + 32), SUCCESS);
    assert_eq!(words(&k, page + 32, 4), vec![0, 0, 0, 0]);
    k.spaces[0].write_words(page, &vec![5, 6, 7, 8]).unwrap();
    assert_eq!(sys_setitimer(&mut k, 1, page, page + 32), SUCCESS);
    assert_eq!(words(&k, page + 32, 4), vec![1, 2, 3, 4]);
    assert_eq!(sys_setitimer(&mut k, 0, 0, page + 32), SUCCESS);
    assert_eq!(words(&k, page + 32, 4), vec![0, 0, 0, 0]);
    assert_eq!(sys_setitimer(&mut k, 1, 8, 0), EFAULT);
    assert_eq!(sys_setitimer(&mut k, 1, page, 8), EFAULT);
    let t = k.tasks[1].as_ref().unwrap().timer[1];
    assert_eq!((t.it_interval.tv_sec, t.it_value.tv_usec), (5, 8));
}

#[test]
fn limits_of_resources() {
    let (mut k, page) = booted_with_page();
    assert_eq!(sys_prlimit(&mut k, 0, 3, 0, page), SUCCESS);
    assert_eq!(words(&k, page, 2), vec![4096 * 40, 4096 * 40]);
    assert_eq!(sys_prlimit(&mut k, 0, 6, 0, page), SUCCESS);
    assert_eq!(words(&k, page, 2), vec![128, 128]);
    assert_eq!(sys_prlimit(&mut k, 0, 7, 0, page), SUCCESS);
    assert_eq!(words(&k, page, 2), vec![256, 256]);
    k.spaces[0].write_words(page + 16, &vec![10, 20]).unwrap();
    assert_eq!(sys_prlimit(&mut k, 0, 7, page + 16, page), SUCCESS);
    assert_eq!(words(&k, page, 2), vec![256, 256]);
    assert_eq!(sys_prlimit(&mut k, 0, 7, 0, page), SUCCESS);
    assert_eq!(words(&k, page, 2), vec![10, 20]);
    assert_eq!(sys_prlimit(&mut k, 0, 3, page + 16, 0), SUCCESS);
    assert_eq!(sys_prlimit(&mut k, 0, 17, 0, page), EINVAL);
    assert_eq!(sys_prlimit(&mut k, 0, 99, page + 16, 0), EINVAL);
    assert_eq!(sys_prlimit(&mut k, 0, 7, 8, 0), EFAULT);
    assert_eq!(sys_prlimit(&mut k, 0, 7, 0, 8), EFAULT);
    assert_eq!(sys_prlimit(&mut k, 0, 5, 0, 0), SUCCESS);
}

#[test]
fn robust_list_of_a_task() {
    let (mut k, page) = booted_with_page();
    sys_set_robust_list(&mut k, 0xbeef0, 24);
    let child = sys_fork(&mut k) as u32;
    assert_eq!(sys_get_robust_list(&mut k, 0, page, page + 8), SUCCESS);
    assert_eq!(words(&k, page, 2), vec![0xbeef0, 24]);
    k.tasks[child as usize].as_mut().unwrap().robust_list.head = 0x77;
    assert_eq!(sys_get_robust_list(&mut k, child, page, page + 8), SUCCESS);
    assert_eq!(words(&k, page, 2), vec![0x77, 24]);
    assert_eq!(sys_get_robust_list(&mut k, 9, page, page + 8), ESRCH);
    assert_eq!(sys_get_robust_list(&mut k, 0, 8, page + 8), EFAULT);
    assert_eq!(sys_get_robust_list(&mut k, 0, page, 8), EFAULT);
}

#[test]
fn processor_times() {
    let (mut k, page) = booted_with_page();
    k.tasks[1].as_mut().unwrap().rusage.ru_utime = TimeVal { tv_sec: 1, tv_usec: 5 };
    k.tasks[1].as_mut().unwrap().rusage.ru_stime = TimeVal { tv_sec: 0, tv_usec: 7 };
    k.set_time(12345);
    assert_eq!(sys_times(&mut k, page), 12345);
    assert_eq!(words(&k, page, 4), vec![100_000_500, 700, 0, 0]);
    assert_eq!(sys_times(&mut k, 8), EFAULT);
    k.spaces[0].write_words(page + 136, &vec![9]).unwrap();
    assert_eq!(sys_getrusage(&mut k, 0, page), SUCCESS);
    let mut expect = vec![1, 5, 0, 7];
    expect.extend(vec![0u64; 14]);
    assert_eq!(words(&k, page, 18), expect);
    assert_eq!(sys_getrusage(&mut k, 0, 8), EFAULT);
}

#[test]
fn printtcb_stores_six_words() {
    let (mut k, page) = booted_with_page();
    assert_eq!(sys_printtcb(&mut k, page), 0);
    assert_eq!(
        words(&k, page, 6),
        vec![1, 0, 1, 0xF000_0000 - 0x3000, 0x7000_0000, 0x9_0001]
    );
    assert_eq!(sys_printtcb(&mut k, 8), 0);
}

#[test]
fn prlimit_serves_the_running_task_and_the_kept_resources() {
    let mut k = Kernel::new();
    k.schedule();
    let page = npucore::syscall::sys_mmap(&mut k, 0, 4096, 3, 0x22, usize::MAX, 0) as usize;
    let served = npucore::syscall::prlimit_served;
    assert!(served(&k, 0, 3, 0, page));
    assert!(served(&k, 0, 6, 0, page));
    assert!(served(&k, 0, 7, page, page));
    assert!(served(&k, 0, 99, page, page));
    assert!(!served(&k, 1, 7, 0, 0));
    assert!(!served(&k, 0, 2, 0, page));
    assert!(served(&k, 0, 2, 0, 0));
    assert!(!served(&k, 0, 2, page, 0));
    assert!(!served(&k, 0, 6, page, 0));
    assert!(served(&k, 0, 6, page, 0x10));
    k.spaces[0].write_words(page, &vec![4096 * 40, 0]).unwrap();
    assert!(served(&k, 0, 3, page, 0));
    k.spaces[0].write_words(page, &vec![4096 * 40 + 1, 0]).unwrap();
    assert!(!served(&k, 0, 3, page, 0));
    assert!(served(&k, 0, 3, page, page));
    assert!(!served(&k, 0, 3, page, page + 8));
    assert!(served(&k, 0, 3, 0x10, 0));
}
