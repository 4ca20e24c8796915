//! The system calls on the memory of the task that runs.

use vstd::prelude::*;

use crate::mm::memory_set::MapPermission;
use crate::mm::mmap::MapFlags;
use crate::syscall::errno::SUCCESS;
use crate::task::kernel::{lemma_with_task_wf, Kernel, KernelView};
use crate::task::tcb::TaskControlBlock;

verus! {

/// The permission bits that the protection bits `prot` of `sys_mmap` stand
/// for: the low byte of `prot` moved up by one bit, for user code.
pub open spec fn spec_mmap_perm_bits(prot: usize) -> u8 {
    ((prot as u8) << 1) | 0x10
}

/// Maps memory in the address space of the task that runs, as
/// `MemorySet::mmap` does, and gives the address of the mapping or the
/// error. Protection bits that stand for no permission and unknown flags
/// are not served.
pub fn sys_mmap(
    k: &mut Kernel,
    start: usize,
    len: usize,
    prot: usize,
    flags: usize,
    fd: usize,
    offset: usize,
) -> (r: isize)
    requires
        old(k).wf(),
        old(k)@.current is Some,
        MapPermission::valid_bits(spec_mmap_perm_bits(prot)),
        MapFlags::valid_bits(flags),
    ensures
        final(k).wf(),
        r == old(k)@.cur_space().mmap(
            start,
            len,
            MapPermission { bits: spec_mmap_perm_bits(prot) },
            MapFlags { bits: flags },
        ).0,
        final(k)@ == old(k)@.with_space(
            old(k)@.cur().vm,
            old(k)@.cur_space().mmap(
                start,
                len,
                MapPermission { bits: spec_mmap_perm_bits(prot) },
                MapFlags { bits: flags },
            ).1,
        ),
{
    let vm = k.current_task().vm;
    let low: u8 = #[verifier::truncate]
    (prot as u8);
    let prot = MapPermission::from_bits((low << 1) | 0x10).unwrap();
    let flags = MapFlags::from_bits(flags).unwrap();
    k.mmap_in(vm, start, len, prot, flags, fd, offset)
}

/// Unmaps memory in the address space of the task that runs, as
/// `MemorySet::munmap` does.
pub fn sys_munmap(k: &mut Kernel, start: usize, len: usize) -> (r: isize)
    requires
        old(k).wf(),
        old(k)@.current is Some,
    ensures
        final(k).wf(),
        r == match old(k)@.cur_space().munmap(start, len).0 {
            Ok(_) => SUCCESS,
            Err(errno) => errno,
        },
        final(k)@ == old(k)@.with_space(
            old(k)@.cur().vm,
            old(k)@.cur_space().munmap(start, len).1,
        ),
{
    let vm = k.current_task().vm;
    let result = k.munmap_in(vm, start, len);
    match result {
        Ok(_) => SUCCESS,
        Err(errno) => errno,
    }
}

/// Protects memory in the address space of the task that runs, as
/// `MemorySet::mprotect` does.
pub fn sys_mprotect(k: &mut Kernel, addr: usize, len: usize, prot: usize) -> (r: isize)
    requires
        old(k).wf(),
        old(k)@.current is Some,
    ensures
        final(k).wf(),
        r == match old(k)@.cur_space().mprotect(addr, len, prot).0 {
            Ok(_) => SUCCESS,
            Err(errno) => errno,
        },
        final(k)@ == old(k)@.with_space(
            old(k)@.cur().vm,
            old(k)@.cur_space().mprotect(addr, len, prot).1,
        ),
{
    let vm = k.current_task().vm;
    let result = k.mprotect_in(vm, addr, len, prot);
    match result {
        Ok(_) => SUCCESS,
        Err(errno) => errno,
    }
}

impl KernelView {
    /// The kernel after the end of the heap of the task that runs moved by
    /// `increment` bytes, as `MemorySet::sbrk` moves it.
    pub open spec fn sbrk(self, increment: isize) -> Self {
        let t = self.cur();
        let moved = self.cur_space().sbrk(t.heap_pt, t.heap_bottom, increment);
        self.with_space(t.vm, moved.1).with_task(
            t.pid,
            TaskControlBlock { heap_pt: moved.0, ..t },
        )
    }

    /// The bytes by which `sys_brk` moves the end of the heap of the task
    /// that runs to bring it to `brk_addr`: none for the address 0, and
    /// none where the distance does not fit in an `isize`.
    pub open spec fn brk_increment(self, brk_addr: usize) -> isize {
        let d = brk_addr - self.cur().heap_pt;
        if brk_addr == 0 || d > isize::MAX || d < -isize::MAX {
            0
        } else {
            d as isize
        }
    }
}

/// Moves the end of the heap of the task that runs by `increment` bytes,
/// as `MemorySet::sbrk` does, and gives the new end.
pub fn sys_sbrk(k: &mut Kernel, increment: isize) -> (r: isize)
    requires
        old(k).wf(),
        old(k)@.current is Some,
    ensures
        final(k).wf(),
        final(k)@ == old(k)@.sbrk(increment),
        r == final(k)@.task(old(k)@.current.unwrap()).heap_pt as isize,
{
    let c = k.current.unwrap();
    let mut t = *k.task(c);
    t.heap_pt = k.sbrk_in(t.vm, t.heap_pt, t.heap_bottom, increment);
    proof {
        assert(k@.task(c) == old(k)@.task(c));
        lemma_with_task_wf(k@, c, t);
    }
    k.set_task(c, t);
    #[verifier::truncate]
    (t.heap_pt as isize)
}

/// Moves the end of the heap of the task that runs to `brk_addr` and gives
/// the new end. The address 0 only asks for the end.
pub fn sys_brk(k: &mut Kernel, brk_addr: usize) -> (r: isize)
    requires
        old(k).wf(),
        old(k)@.current is Some,
    ensures
        final(k).wf(),
        final(k)@ == old(k)@.sbrk(old(k)@.brk_increment(brk_addr)),
        r == final(k)@.task(old(k)@.current.unwrap()).heap_pt as isize,
{
    let former_addr = k.current_task().heap_pt;
    let grow_size: isize = if brk_addr == 0 {
        0
    } else if brk_addr >= former_addr {
        let d = brk_addr - former_addr;
        if d > isize::MAX as usize {
            0
        } else {
            d as isize
        }
    } else {
        let d = former_addr - brk_addr;
        if d > isize::MAX as usize {
            0
        } else {
            -(d as isize)
        }
    };
    sys_sbrk(k, grow_size)
}

} // verus!
