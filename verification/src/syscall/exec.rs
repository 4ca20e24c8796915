//! Starting a new program: what the call reads from the memory of user
//! code, and what it makes of the head of the file.

use vstd::prelude::*;

use crate::config::PAGE_SIZE;
use crate::mm::memory_set::{lemma_contained, MemorySet, MemorySetView, USER_VPN_END};
use crate::syscall::errno::{EFAULT, ENOEXEC, SUCCESS};
use crate::task::kernel::Kernel;

verus! {

/// What a call to start a new program asks for: the file, the arguments
/// and the environment, each as the bytes of a string without its closing
/// zero byte.
pub struct ExecRequest {
    pub path: Vec<u8>,
    pub argv: Vec<Vec<u8>>,
    pub envp: Vec<Vec<u8>>,
}

/// The byte strings that the vectors of `v` hold.
pub open spec fn texts(v: Seq<Vec<u8>>) -> Seq<Seq<u8>> {
    Seq::new(v.len(), |i: int| v[i]@)
}

impl MemorySetView {
    /// Whether a string of `n` bytes stands at `addr`, with its closing
    /// zero byte, where user code may read all of it.
    pub open spec fn string_ends(self, addr: usize, n: nat) -> bool {
        &&& self.range_accessible(addr, n as int + 1, false)
        &&& forall|a: usize| addr <= a < addr + n ==> #[trigger] self.data[a] != 0
        &&& self.data[(addr + n) as usize] == 0
    }

    /// The string at `addr`, without its closing zero byte, if user code
    /// may read up to that byte.
    pub open spec fn string_at(self, addr: usize) -> Option<Seq<u8>> {
        if exists|n: nat| self.string_ends(addr, n) {
            Some(self.bytes(addr, (choose|n: nat| self.string_ends(addr, n)) as int))
        } else {
            None
        }
    }

    /// The word that the list at `addr` holds at the index `i`.
    pub open spec fn entry_at(self, addr: usize, i: int) -> u64 {
        self.u64_at((addr + 8 * i) as usize)
    }

    /// The address that the list at `addr` holds at the index `i`.
    pub open spec fn pointer_at(self, addr: usize, i: int) -> usize {
        self.entry_at(addr, i) as usize
    }

    /// Whether a list of `n` addresses stands at `addr`, with its closing
    /// zero word, where user code may read all of it.
    pub open spec fn list_ends(self, addr: usize, n: nat) -> bool {
        &&& self.range_accessible(addr, 8 * (n as int + 1), false)
        &&& forall|i: int| 0 <= i < n ==> #[trigger] self.entry_at(addr, i) != 0
        &&& self.entry_at(addr, n as int) == 0
    }

    /// The strings whose addresses the list at `addr` holds, if user code
    /// may read the list and each string; no string where `addr` is 0.
    pub open spec fn strings_at(self, addr: usize) -> Option<Seq<Seq<u8>>> {
        if addr == 0 {
            Some(Seq::empty())
        } else if exists|n: nat| self.list_ends(addr, n) {
            let n = choose|n: nat| self.list_ends(addr, n);
            if forall|i: int|
                0 <= i < n ==> self.string_at(#[trigger] self.pointer_at(addr, i)) is Some {
                Some(Seq::new(n, |i: int| self.string_at(self.pointer_at(addr, i)).unwrap()))
            } else {
                None
            }
        } else {
            None
        }
    }
}

/// A string ends at one place only.
pub proof fn lemma_string_ends_once(m: MemorySetView, addr: usize, a: nat, b: nat)
    requires
        m.string_ends(addr, a),
        m.string_ends(addr, b),
    ensures
        a == b,
{
    if a < b {
        assert(m.data[(addr + a) as usize] != 0);
    }
    if b < a {
        assert(m.data[(addr + b) as usize] != 0);
    }
}

/// A list ends at one place only.
pub proof fn lemma_list_ends_once(m: MemorySetView, addr: usize, a: nat, b: nat)
    requires
        m.list_ends(addr, a),
        m.list_ends(addr, b),
    ensures
        a == b,
{
    if a < b {
        assert(m.entry_at(addr, a as int) != 0);
    }
    if b < a {
        assert(m.entry_at(addr, b as int) != 0);
    }
}

impl MemorySet {
    /// The string at `addr`, without its closing zero byte; a bad address
    /// where user code may not read up to that byte.
    pub fn read_string(&self, addr: usize) -> (r: Result<Vec<u8>, isize>)
        requires
            self.wf(),
        ensures
            match r {
                Ok(s) => self@.string_at(addr) == Some(s@),
                Err(e) => e == EFAULT && self@.string_at(addr) is None,
            },
    {
        let mut out: Vec<u8> = Vec::new();
        let mut a: usize = addr;
        loop
            invariant
                self.wf(),
                a == addr + out@.len(),
                self@.range_accessible(addr, out@.len() as int, false),
                forall|x: usize| addr <= x < addr + out@.len() ==> #[trigger] self@.data[x] != 0,
                out@ == self@.bytes(addr, out@.len() as int),
            decreases usize::MAX - a,
        {
            let ghost len = out@.len();
            if !self.can_access(a, false) {
                proof {
                    assert forall|n: nat| !self@.string_ends(addr, n) by {
                        if self@.string_ends(addr, n) {
                            if n < len {
                                assert(self@.data[(addr + n) as usize] != 0);
                            } else {
                                assert(self@.accessible(a, false));
                            }
                        }
                    }
                }
                return Err(EFAULT);
            }
            proof {
                lemma_contained(self.areas@, a / PAGE_SIZE);
                assert(a / PAGE_SIZE < USER_VPN_END);
            }
            let b = self.byte_at(a);
            if b == 0 {
                proof {
                    assert(self@.string_ends(addr, len));
                    let n = choose|n: nat| self@.string_ends(addr, n);
                    lemma_string_ends_once(self@, addr, n, len);
                }
                return Ok(out);
            }
            out.push(b);
            a += 1;
            proof {
                assert(out@ =~= self@.bytes(addr, out@.len() as int));
            }
        }
    }

    /// The strings whose addresses the list at `addr` holds; a bad address
    /// where user code may not read the list or one of the strings. No
    /// string where `addr` is 0.
    pub fn read_strings(&self, addr: usize) -> (r: Result<Vec<Vec<u8>>, isize>)
        requires
            self.wf(),
        ensures
            match r {
                Ok(v) => self@.strings_at(addr) == Some(texts(v@)),
                Err(e) => e == EFAULT && self@.strings_at(addr) is None,
            },
    {
        let mut out: Vec<Vec<u8>> = Vec::new();
        if addr == 0 {
            proof {
                assert(texts(out@) =~= Seq::empty());
            }
            return Ok(out);
        }
        let mut a: usize = addr;
        loop
            invariant
                self.wf(),
                addr != 0,
                a == addr + 8 * out@.len(),
                self@.range_accessible(addr, 8 * (out@.len() as int), false),
                forall|i: int| 0 <= i < out@.len() ==> #[trigger] self@.entry_at(addr, i) != 0,
                forall|i: int|
                    0 <= i < out@.len() ==> self@.string_at(self@.pointer_at(addr, i)) == Some(
                        (#[trigger] out@[i])@,
                    ),
            decreases usize::MAX - a,
        {
            let ghost len = out@.len();
            let word = match self.read_u64(a) {
                Ok(word) => word,
                Err(_) => {
                    proof {
                        assert forall|n: nat| !self@.list_ends(addr, n) by {
                            if self@.list_ends(addr, n) {
                                if n < len {
                                    assert(self@.entry_at(addr, n as int) != 0);
                                } else {
                                    assert(self@.range_accessible(a, 8, false));
                                }
                            }
                        }
                    }
                    return Err(EFAULT);
                },
            };
            proof {
                assert(self@.accessible(a, false));
                lemma_contained(self.areas@, a / PAGE_SIZE);
                assert(a / PAGE_SIZE < USER_VPN_END);
                assert(self@.range_accessible(addr, 8 * (len as int + 1), false));
            }
            if word == 0 {
                proof {
                    assert(self@.list_ends(addr, len));
                    let n = choose|n: nat| self@.list_ends(addr, n);
                    lemma_list_ends_once(self@, addr, n, len);
                    assert forall|i: int| 0 <= i < len implies self@.string_at(
                        #[trigger] self@.pointer_at(addr, i),
                    ) == Some(out@[i]@) by {
                        assert(self@.string_at(self@.pointer_at(addr, i)) == Some(out@[i]@));
                    }
                    assert(self@.strings_at(addr) is Some);
                    assert(texts(out@) =~= self@.strings_at(addr).unwrap());
                }
                return Ok(out);
            }
            let at: usize = #[verifier::truncate]
            (word as usize);
            let s = match self.read_string(at) {
                Ok(s) => s,
                Err(_) => {
                    proof {
                        if exists|n: nat| self@.list_ends(addr, n) {
                            let n = choose|n: nat| self@.list_ends(addr, n);
                            if n < len {
                                assert(self@.entry_at(addr, n as int) != 0);
                            }
                            assert(self@.entry_at(addr, len as int) != 0);
                            assert(len < n);
                            assert(self@.string_at(self@.pointer_at(addr, len as int)) is None);
                        }
                    }
                    return Err(EFAULT);
                },
            };
            out.push(s);
            a += 8;
        }
    }
}

impl Kernel {
    /// What `sys_execve` makes of the memory of the task that runs.
    pub open spec fn spec_execve(&self, pathname: usize, argv: usize, envp: usize) -> Option<
        (Seq<u8>, Seq<Seq<u8>>, Seq<Seq<u8>>),
    > {
        let m = self@.cur_space();
        if m.string_at(pathname) is Some && m.strings_at(argv) is Some && m.strings_at(envp)
            is Some {
            Some(
                (
                    m.string_at(pathname).unwrap(),
                    m.strings_at(argv).unwrap(),
                    m.strings_at(envp).unwrap(),
                ),
            )
        } else {
            None
        }
    }
}

/// Reads what the task that runs asks for when it starts a new program:
/// the name of the file at `pathname`, and the arguments and the
/// environment, whose addresses the lists at `argv` and `envp` hold. A bad
/// address where user code may not read one of them.
pub fn sys_execve(k: &Kernel, pathname: usize, argv: usize, envp: usize) -> (r: Result<
    ExecRequest,
    isize,
>)
    requires
        k.wf(),
        k@.current is Some,
    ensures
        match r {
            Ok(q) => k.spec_execve(pathname, argv, envp) == Some(
                (q.path@, texts(q.argv@), texts(q.envp@)),
            ),
            Err(e) => e == EFAULT && k.spec_execve(pathname, argv, envp) is None,
        },
{
    let vm = k.current_task().vm;
    let path = match k.spaces[vm].read_string(pathname) {
        Ok(path) => path,
        Err(errno) => return Err(errno),
    };
    let args = match k.spaces[vm].read_strings(argv) {
        Ok(args) => args,
        Err(errno) => return Err(errno),
    };
    let vars = match k.spaces[vm].read_strings(envp) {
        Ok(vars) => vars,
        Err(errno) => return Err(errno),
    };
    Ok(ExecRequest { path, argv: args, envp: vars })
}

/// Whether a file of `size` bytes that starts with the bytes `head` is a
/// program that can be loaded: 0 where it has at least four bytes and
/// starts with the mark of an executable, the error for a file that
/// cannot be executed otherwise.
pub fn check_image(size: usize, head: [u8; 4]) -> (r: isize)
    ensures
        r == if size >= 4 && head@ == seq![0x7fu8, 0x45u8, 0x4cu8, 0x46u8] {
            SUCCESS
        } else {
            ENOEXEC
        },
{
    if size >= 4 && head[0] == 0x7f && head[1] == 0x45 && head[2] == 0x4c && head[3] == 0x46 {
        proof {
            assert(head@ =~= seq![0x7fu8, 0x45u8, 0x4cu8, 0x46u8]);
        }
        SUCCESS
    } else {
        ENOEXEC
    }
}

} // verus!
