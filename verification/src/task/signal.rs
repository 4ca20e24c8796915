//! Sets of signals.

use vstd::prelude::*;

verus! {

/// The bit of the signal that a child sends to its parent when it exits.
pub const SIGCHLD: u64 = 1 << 16;

/// The bit of the signal that kills a task.
pub const SIGKILL: u64 = 1 << 8;

/// The bit of the signal that stops a task.
pub const SIGSTOP: u64 = 1 << 18;

/// The bit that stands for the signal with number `signum`, from 1 to 64.
pub open spec fn signal_bit(signum: usize) -> u64 {
    1u64 << ((signum - 1) as u64)
}

/// A set of signals: bit `n - 1` stands for the signal with number `n`.
#[derive(Clone, Copy, Debug, PartialEq, Eq, Structural)]
pub struct Signals {
    pub bits: u64,
}

impl Signals {
    /// The set that `signum` names: no signal for 0, the one signal for 1
    /// to 64, and none for a larger number.
    pub open spec fn spec_from_signum(signum: usize) -> Option<Signals> {
        if signum == 0 {
            Some(Signals { bits: 0 })
        } else if signum <= 64 {
            Some(Signals { bits: signal_bit(signum) })
        } else {
            None
        }
    }

    pub fn empty() -> (r: Signals)
        ensures
            r.bits == 0,
    {
        Signals { bits: 0 }
    }

    pub fn from_bits_truncate(bits: u64) -> (r: Signals)
        ensures
            r.bits == bits,
    {
        Signals { bits }
    }

    pub fn bits(&self) -> (r: u64)
        ensures
            r == self.bits,
    {
        self.bits
    }

    pub fn is_empty(&self) -> (r: bool)
        ensures
            r == (self.bits == 0),
    {
        self.bits == 0
    }

    /// Whether every signal of `other` is in the set.
    pub fn contains(&self, other: Signals) -> (r: bool)
        ensures
            r == (self.bits & other.bits == other.bits),
    {
        self.bits & other.bits == other.bits
    }

    /// The set with the signals of `other` added.
    pub fn union(&self, other: Signals) -> (r: Signals)
        ensures
            r.bits == self.bits | other.bits,
    {
        Signals { bits: self.bits | other.bits }
    }

    /// The set without the signals of `other`.
    pub fn difference(&self, other: Signals) -> (r: Signals)
        ensures
            r.bits == self.bits & !other.bits,
    {
        Signals { bits: self.bits & !other.bits }
    }

    /// The set that `signum` names: no signal for 0, the one signal for 1
    /// to 64. A larger number names no set.
    pub fn from_signum(signum: usize) -> (r: Result<Signals, ()>)
        ensures
            r is Ok <==> signum <= 64,
            r is Ok ==> Some(r.unwrap()) == Self::spec_from_signum(signum),
    {
        if signum == 0 {
            Ok(Signals { bits: 0 })
        } else if signum <= 64 {
            let shift: u64 = (signum - 1) as u64;
            Ok(Signals { bits: 1u64 << shift })
        } else {
            Err(())
        }
    }
}

/// What a task does when a signal comes: the address of its handler, the
/// flags, the address of the code that returns from the handler, and the
/// signals that are masked while the handler runs.
#[derive(Clone, Copy, Debug, PartialEq, Eq, Structural)]
pub struct SigAction {
    pub handler: usize,
    pub flags: usize,
    pub restorer: usize,
    pub mask: Signals,
}

/// The action that the task `pid` set for the signal with number `signum`.
#[derive(Clone, Copy, Debug)]
pub struct SigActionEntry {
    pub pid: usize,
    pub signum: usize,
    pub action: SigAction,
}

impl SigAction {
    /// The action of a task that set none: the default handler, no flags
    /// and no mask.
    pub open spec fn spec_default() -> SigAction {
        SigAction { handler: 0, flags: 0, restorer: 0, mask: Signals { bits: 0 } }
    }

    /// The action of a task that set none.
    pub fn new() -> (r: SigAction)
        ensures
            r == Self::spec_default(),
    {
        SigAction { handler: 0, flags: 0, restorer: 0, mask: Signals::empty() }
    }
}

/// The action that `entries` hold for the signal `signum` of the task
/// `pid`: that of the last such entry, or the default.
pub open spec fn action_of(entries: Seq<SigActionEntry>, pid: usize, signum: usize) -> SigAction
    decreases entries.len(),
{
    if entries.len() == 0 {
        SigAction::spec_default()
    } else if entries.last().pid == pid && entries.last().signum == signum {
        entries.last().action
    } else {
        action_of(entries.drop_last(), pid, signum)
    }
}

/// The entries of `entries` that are not for the signal `signum` of the
/// task `pid`, in their order.
pub open spec fn entries_without(entries: Seq<SigActionEntry>, pid: usize, signum: usize) -> Seq<
    SigActionEntry,
>
    decreases entries.len(),
{
    if entries.len() == 0 {
        Seq::empty()
    } else if entries.last().pid == pid && entries.last().signum == signum {
        entries_without(entries.drop_last(), pid, signum)
    } else {
        entries_without(entries.drop_last(), pid, signum).push(entries.last())
    }
}

/// The entries of the task `parent` in `entries`, in their order, as
/// entries of the task `child`.
pub open spec fn entries_inherited(entries: Seq<SigActionEntry>, parent: usize, child: usize) -> Seq<
    SigActionEntry,
>
    decreases entries.len(),
{
    if entries.len() == 0 {
        Seq::empty()
    } else if entries.last().pid == parent {
        entries_inherited(entries.drop_last(), parent, child).push(
            SigActionEntry { pid: child, ..entries.last() },
        )
    } else {
        entries_inherited(entries.drop_last(), parent, child)
    }
}

/// The number of the lowest signal of `bits` with a number up to `n`.
pub open spec fn first_signal_below(bits: u64, n: nat) -> Option<usize>
    decreases n,
{
    if n == 0 {
        None
    } else {
        match first_signal_below(bits, (n - 1) as nat) {
            Some(s) => Some(s),
            None => if bits & signal_bit(n as usize) != 0 {
                Some(n as usize)
            } else {
                None
            },
        }
    }
}

impl Signals {
    /// The number of the lowest signal of the set.
    pub open spec fn spec_first(self) -> Option<usize> {
        first_signal_below(self.bits, 64)
    }

    /// The number of the lowest signal of the set.
    pub fn first(&self) -> (r: Option<usize>)
        ensures
            r == self.spec_first(),
            r is Some ==> 1 <= r.unwrap() <= 64,
    {
        let mut n: usize = 0;
        while n < 64
            invariant
                n <= 64,
                first_signal_below(self.bits, n as nat) is None,
            decreases 64 - n,
        {
            let shift: u64 = n as u64;
            if self.bits & (1u64 << shift) != 0 {
                proof {
                    reveal_with_fuel(first_signal_below, 2);
                    lemma_first_signal_stays(self.bits, (n + 1) as nat, 64);
                }
                return Some(n + 1);
            }
            n += 1;
        }
        None
    }
}

/// A signal that is the lowest with a number up to `n` is the lowest with
/// a number up to `m`, for `m` not below `n`.
pub proof fn lemma_first_signal_stays(bits: u64, n: nat, m: nat)
    requires
        n <= m,
        first_signal_below(bits, n) is Some,
    ensures
        first_signal_below(bits, m) == first_signal_below(bits, n),
    decreases m,
{
    if m > n {
        lemma_first_signal_stays(bits, n, (m - 1) as nat);
    }
}

} // verus!
