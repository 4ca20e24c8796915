//! What the kernel reads from and stores in the memory of user code.

use vstd::bytes::spec_u32_to_le_bytes;
use vstd::prelude::*;

use crate::mm::memory_set::{words_to_bytes, MemorySetView};
use crate::mm::mmap::MapFlags;
use crate::mm::MapPermission;
use crate::config::PAGE_SIZE;
use crate::mm::fault::Residency;
use crate::syscall::errno::{EFAULT, ENOMEM, SUCCESS};
use crate::task::kernel::{lemma_same_tables_wf, Kernel, KernelView};

verus! {

impl KernelView {
    /// The address space of the task that runs.
    pub open spec fn cur_space(self) -> MemorySetView {
        self.spaces[self.cur().vm as int]
    }

    /// The kernel after `bytes` were stored from `addr` on in the address
    /// space `s`.
    pub open spec fn write_user(self, s: usize, addr: usize, bytes: Seq<u8>) -> Self {
        self.with_space(s, self.spaces[s as int].write(addr, bytes))
    }

    /// The 64-bit words that the address space `s` holds from `addr` on.
    pub open spec fn user_words(self, s: usize, addr: usize, n: nat) -> Seq<u64> {
        Seq::new(n, |i: int| self.spaces[s as int].u64_at((addr + 8 * i) as usize))
    }
}

impl KernelView {
    /// What `handle_page_fault` returns and leaves behind.
    pub open spec fn page_fault(self, addr: usize) -> (isize, Self) {
        let vm = self.cur().vm;
        let vpn = addr / PAGE_SIZE;
        match self.cur_space().residency(vpn) {
            Residency::Unmapped => (EFAULT, self),
            Residency::Evicted => (EFAULT, self),
            Residency::Resident => (SUCCESS, self),
            Residency::Unallocated => match self.frames.next() {
                None => (ENOMEM, self),
                Some(ppn) => (
                    SUCCESS,
                    KernelView {
                        frames: self.frames.after_alloc(),
                        ..self.with_space(vm, self.cur_space().page_in(vpn, ppn))
                    },
                ),
            },
        }
    }
}

impl Kernel {
    /// Serves the fault of the task that runs on the address `addr`: a
    /// page that is mapped and has no frame yet gets the next frame of the
    /// pool. An address that is not mapped, and a page that is held
    /// outside of memory, are bad addresses; without a free frame the call
    /// is out of memory.
    pub fn handle_page_fault(&mut self, addr: usize) -> (r: isize)
        requires
            old(self).wf(),
            old(self)@.current is Some,
        ensures
            final(self).wf(),
            (r, final(self)@) == old(self)@.page_fault(addr),
    {
        let vm = self.current_task().vm;
        let vpn = addr / PAGE_SIZE;
        match self.spaces[vm].residency(vpn) {
            Residency::Unmapped => EFAULT,
            Residency::Evicted => EFAULT,
            Residency::Resident => SUCCESS,
            Residency::Unallocated => {
                let frame = match self.frames.alloc_frame() {
                    Some(frame) => frame,
                    None => {
                        proof {
                            assert(self@.frames == old(self)@.frames);
                            assert(self@ == old(self)@);
                        }
                        return ENOMEM;
                    },
                };
                self.spaces[vm].fault_in(vpn, frame);
                proof {
                    let goal = old(self)@.page_fault(addr).1;
                    assert(self@.futexes =~= goal.futexes);
                    assert(self@.children =~= goal.children);
                    assert(self@.spaces =~= goal.spaces);
                    lemma_same_tables_wf(old(self)@, self@);
                }
                SUCCESS
            },
        }
    }

    /// Stores `bytes` from `addr` on in the address space `s`, where user
    /// code may write all these addresses; changes nothing and reports a
    /// bad address otherwise.
    pub fn copy_to_user(&mut self, s: usize, addr: usize, bytes: &Vec<u8>) -> (r: Result<
        (),
        isize,
    >)
        requires
            old(self).wf(),
            s < old(self)@.spaces.len(),
        ensures
            final(self).wf(),
            r is Ok <==> old(self)@.spaces[s as int].range_accessible(
                addr,
                bytes@.len() as int,
                true,
            ),
            r is Ok ==> final(self)@ == old(self)@.write_user(s, addr, bytes@),
            r is Err ==> r.unwrap_err() == EFAULT && final(self)@ == old(self)@,
    {
        let r = self.spaces[s].write_bytes(addr, bytes);
        proof {
            assert(self@.futexes =~= old(self)@.futexes);
            assert(self@.children =~= old(self)@.children);
            if r is Ok {
                assert(self@.spaces =~= old(self)@.write_user(s, addr, bytes@).spaces);
            } else {
                assert(self@.spaces =~= old(self)@.spaces);
            }
            lemma_same_tables_wf(old(self)@, self@);
        }
        r
    }

    /// Stores the 32-bit word `value` at `addr` in the address space `s`.
    pub fn write_user_u32(&mut self, s: usize, addr: usize, value: u32) -> (r: Result<(), isize>)
        requires
            old(self).wf(),
            s < old(self)@.spaces.len(),
        ensures
            final(self).wf(),
            r is Ok <==> old(self)@.spaces[s as int].range_accessible(addr, 4, true),
            r is Ok ==> final(self)@ == old(self)@.write_user(
                s,
                addr,
                spec_u32_to_le_bytes(value),
            ),
            r is Err ==> r.unwrap_err() == EFAULT && final(self)@ == old(self)@,
    {
        let bytes = vstd::bytes::u32_to_le_bytes(value);
        self.copy_to_user(s, addr, &bytes)
    }

    /// Stores `words` from `addr` on in the address space `s`, each as
    /// eight bytes with the low one first.
    pub fn write_user_words(&mut self, s: usize, addr: usize, words: &Vec<u64>) -> (r: Result<
        (),
        isize,
    >)
        requires
            old(self).wf(),
            s < old(self)@.spaces.len(),
        ensures
            final(self).wf(),
            r is Ok <==> old(self)@.spaces[s as int].range_accessible(
                addr,
                8 * (words@.len() as int),
                true,
            ),
            r is Ok ==> final(self)@ == old(self)@.write_user(s, addr, words_to_bytes(words@)),
            r is Err ==> r.unwrap_err() == EFAULT && final(self)@ == old(self)@,
    {
        let bytes = crate::mm::memory_set::encode_words(words);
        self.copy_to_user(s, addr, &bytes)
    }

    /// The 32-bit word at `addr` in the address space `s`.
    pub fn read_user_u32(&self, s: usize, addr: usize) -> (r: Result<u32, isize>)
        requires
            s < self@.spaces.len(),
        ensures
            r is Ok <==> self@.spaces[s as int].range_accessible(addr, 4, false),
            r is Ok ==> r.unwrap() == self@.spaces[s as int].u32_at(addr),
            r is Err ==> r.unwrap_err() == EFAULT,
    {
        self.spaces[s].read_u32(addr)
    }

    /// The `n` 64-bit words from `addr` on in the address space `s`.
    pub fn read_user_words(&self, s: usize, addr: usize, n: usize) -> (r: Result<Vec<u64>, isize>)
        requires
            s < self@.spaces.len(),
            n <= 64,
        ensures
            r is Ok <==> self@.spaces[s as int].range_accessible(addr, 8 * n, false),
            r is Ok ==> r.unwrap()@ == self@.user_words(s, addr, n as nat),
            r is Err ==> r.unwrap_err() == EFAULT,
    {
        self.spaces[s].read_words(addr, n)
    }

    /// Maps memory in the address space `s`, as `MemorySet::mmap` does.
    pub fn mmap_in(
        &mut self,
        s: usize,
        start: usize,
        len: usize,
        prot: MapPermission,
        flags: MapFlags,
        fd: usize,
        offset: usize,
    ) -> (r: isize)
        requires
            old(self).wf(),
            s < old(self)@.spaces.len(),
        ensures
            final(self).wf(),
            r == old(self)@.spaces[s as int].mmap(start, len, prot, flags).0,
            final(self)@ == old(self)@.with_space(
                s,
                old(self)@.spaces[s as int].mmap(start, len, prot, flags).1,
            ),
    {
        let r = self.spaces[s].mmap(start, len, prot, flags, fd, offset);
        proof {
            assert(self@.futexes =~= old(self)@.futexes);
            assert(self@.children =~= old(self)@.children);
            assert(self@.spaces =~= old(self)@.spaces.update(
                s as int,
                old(self)@.spaces[s as int].mmap(start, len, prot, flags).1,
            ));
            lemma_same_tables_wf(old(self)@, self@);
        }
        r
    }

    /// Unmaps memory in the address space `s`, as `MemorySet::munmap`
    /// does.
    pub fn munmap_in(&mut self, s: usize, start: usize, len: usize) -> (r: Result<(), isize>)
        requires
            old(self).wf(),
            s < old(self)@.spaces.len(),
        ensures
            final(self).wf(),
            r == old(self)@.spaces[s as int].munmap(start, len).0,
            final(self)@ == old(self)@.with_space(
                s,
                old(self)@.spaces[s as int].munmap(start, len).1,
            ),
    {
        let r = self.spaces[s].munmap(start, len);
        proof {
            assert(self@.futexes =~= old(self)@.futexes);
            assert(self@.children =~= old(self)@.children);
            assert(self@.spaces =~= old(self)@.spaces.update(
                s as int,
                old(self)@.spaces[s as int].munmap(start, len).1,
            ));
            lemma_same_tables_wf(old(self)@, self@);
        }
        r
    }

    /// Protects memory in the address space `s`, as `MemorySet::mprotect`
    /// does.
    pub fn mprotect_in(&mut self, s: usize, addr: usize, len: usize, prot: usize) -> (r: Result<
        (),
        isize,
    >)
        requires
            old(self).wf(),
            s < old(self)@.spaces.len(),
        ensures
            final(self).wf(),
            r == old(self)@.spaces[s as int].mprotect(addr, len, prot).0,
            final(self)@ == old(self)@.with_space(
                s,
                old(self)@.spaces[s as int].mprotect(addr, len, prot).1,
            ),
    {
        let r = self.spaces[s].mprotect(addr, len, prot);
        proof {
            assert(self@.futexes =~= old(self)@.futexes);
            assert(self@.children =~= old(self)@.children);
            assert(self@.spaces =~= old(self)@.spaces.update(
                s as int,
                old(self)@.spaces[s as int].mprotect(addr, len, prot).1,
            ));
            lemma_same_tables_wf(old(self)@, self@);
        }
        r
    }

    /// Moves the end of a heap in the address space `s`, as
    /// `MemorySet::sbrk` does.
    pub fn sbrk_in(&mut self, s: usize, heap_pt: usize, heap_bottom: usize, increment: isize) -> (r:
        usize)
        requires
            old(self).wf(),
            s < old(self)@.spaces.len(),
        ensures
            final(self).wf(),
            r == old(self)@.spaces[s as int].sbrk(heap_pt, heap_bottom, increment).0,
            final(self)@ == old(self)@.with_space(
                s,
                old(self)@.spaces[s as int].sbrk(heap_pt, heap_bottom, increment).1,
            ),
    {
        let r = self.spaces[s].sbrk(heap_pt, heap_bottom, increment);
        proof {
            assert(self@.futexes =~= old(self)@.futexes);
            assert(self@.children =~= old(self)@.children);
            assert(self@.spaces =~= old(self)@.spaces.update(
                s as int,
                old(self)@.spaces[s as int].sbrk(heap_pt, heap_bottom, increment).1,
            ));
            lemma_same_tables_wf(old(self)@, self@);
        }
        r
    }
}

} // verus!
