use npucore::syscall::errno::{EFAULT, ENOEXEC, SUCCESS};
use npucore::syscall::{check_image, sys_execve, sys_mmap};
use npucore::task::Kernel;

fn running() -> (Kernel, usize) {
    let mut k = Kernel::new();
    k.schedule();
    let addr = sys_mmap(&mut k, 0, 4096, 3, 0x22, usize::MAX, 0);
    assert!(addr > 0);
    (k, addr as usize)
}

fn put(k: &mut Kernel, addr: usize, bytes: &[u8]) {
    k.spaces[0].write_bytes(addr, &bytes.to_vec()).unwrap();
}

fn put_list(k: &mut Kernel, addr: usize, items: &[usize]) {
    let words: Vec<u64> = items.iter().map(|a| *a as u64).collect();
    k.spaces[0].write_words(addr, &words).unwrap();
}

#[test]
fn execve_reads_the_name_and_both_lists() {
    let (mut k, page) = running();
    put(&mut k, page, b"/bin/ls\0");
    put(&mut k, page + 128, b"ls\0-l\0\0HOME=/root\0");
    put_list(&mut k, page + 512, &[page + 128, page + 131, page + 134, 0]);
    put_list(&mut k, page + 1024, &[page + 135, 0]);
    let q = sys_execve(&k, page, page + 512, page + 1024).unwrap();
    assert_eq!(q.path, b"/bin/ls".to_vec());
    assert_eq!(q.argv, vec![b"ls".to_vec(), b"-l".to_vec(), Vec::new()]);
    assert_eq!(q.envp, vec![b"HOME=/root".to_vec()]);
}

#[test]
fn execve_without_lists_has_no_strings() {
    let (mut k, page) = running();
    put(&mut k, page, b"a\0");
    let q = sys_execve(&k, page, 0, 0).unwrap();
    assert_eq!(q.path, b"a".to_vec());
    assert!(q.argv.is_empty());
    assert!(q.envp.is_empty());
    put_list(&mut k, page + 8, &[0]);
    let q = sys_execve(&k, page + 1, page + 8, page + 8).unwrap();
    assert!(q.path.is_empty());
    assert!(q.argv.is_empty());
    assert!(q.envp.is_empty());
}

#[test]
fn execve_refuses_what_user_code_cannot_read() {
    let (mut k, page) = running();
    put(&mut k, page, b"prog\0");
    assert_eq!(sys_execve(&k, 0, 0, 0).err(), Some(EFAULT));
    assert_eq!(sys_execve(&k, page + 4096, 0, 0).err(), Some(EFAULT));
    assert_eq!(sys_execve(&k, page, 0x10, 0).err(), Some(EFAULT));
    assert_eq!(sys_execve(&k, page, 0, 0x10).err(), Some(EFAULT));
    put_list(&mut k, page + 512, &[page, 0x10, 0]);
    assert_eq!(sys_execve(&k, page, page + 512, 0).err(), Some(EFAULT));
    put_list(&mut k, page + 512, &[page, page]);
    put_list(&mut k, page + 528, &[0]);
    assert_eq!(sys_execve(&k, page, page + 512, 0).unwrap().argv.len(), 2);
}

#[test]
fn execve_refuses_a_string_that_runs_off_its_page() {
    let (mut k, page) = running();
    put(&mut k, page + 4090, b"abcdef");
    assert_eq!(sys_execve(&k, page + 4090, 0, 0).err(), Some(EFAULT));
    put(&mut k, page + 4090, b"abcde\0");
    assert_eq!(sys_execve(&k, page + 4090, 0, 0).unwrap().path, b"abcde".to_vec());
    put_list(&mut k, page + 4088, &[page as usize]);
    put(&mut k, page, b"x\0");
    assert_eq!(sys_execve(&k, page, page + 4088, 0).err(), Some(EFAULT));
}

#[test]
fn only_a_program_image_is_loaded() {
    assert_eq!(check_image(4, [0x7f, b'E', b'L', b'F']), SUCCESS);
    assert_eq!(check_image(9000, [0x7f, b'E', b'L', b'F']), SUCCESS);
    assert_eq!(check_image(3, [0x7f, b'E', b'L', b'F']), ENOEXEC);
    assert_eq!(check_image(0, [0, 0, 0, 0]), ENOEXEC);
    assert_eq!(check_image(100, [b'#', b'!', b'/', b'b']), ENOEXEC);
    assert_eq!(check_image(100, [0x7f, b'E', b'L', b'G']), ENOEXEC);
    assert_eq!(check_image(100, [b'E', b'L', b'F', 0x7f]), ENOEXEC);
}
