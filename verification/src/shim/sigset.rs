//! Signal numbers and sets of signals.
use vstd::prelude::*;

use crate::errno::Errno;

verus! {

pub const SIGINT: u32 = 2;

pub const SIGQUIT: u32 = 3;

pub const SIGILL: u32 = 4;

pub const SIGTRAP: u32 = 5;

pub const SIGABRT: u32 = 6;

pub const SIGBUS: u32 = 7;

pub const SIGFPE: u32 = 8;

pub const SIGKILL: u32 = 9;

pub const SIGUSR1: u32 = 10;

pub const SIGSEGV: u32 = 11;

pub const SIGALRM: u32 = 14;

pub const SIGCHLD: u32 = 17;

pub const SIGCONT: u32 = 18;

pub const SIGSTOP: u32 = 19;

pub const SIGTSTP: u32 = 20;

pub const SIGTTIN: u32 = 21;

pub const SIGTTOU: u32 = 22;

pub const SIGURG: u32 = 23;

pub const SIGXCPU: u32 = 24;

pub const SIGXFSZ: u32 = 25;

pub const SIGWINCH: u32 = 28;

pub const SIGSYS: u32 = 31;

/// The first real-time signal.
pub const SIGRTMIN: u32 = 32;

/// The number of signals.
pub const NSIG: u32 = 64;

/// The numbers of signals.
pub open spec fn is_signal(n: int) -> bool {
    1 <= n <= 64
}

/// The signal with the given number.
pub fn signal_from_i32(n: i32) -> (r: Result<u32, Errno>)
    ensures
        r == (if is_signal(n as int) {
            Ok(n as u32)
        } else {
            Err(Errno::EINVAL)
        }),
{
    if 1 <= n && n <= 64 {
        Ok(n as u32)
    } else {
        Err(Errno::EINVAL)
    }
}

/// Whether every occurrence of the signal is queued.
pub fn is_rt_signal(signal: u32) -> (r: bool)
    ensures
        r == (signal >= SIGRTMIN),
{
    signal >= SIGRTMIN
}

/// What a signal does when no handler is installed for it.
#[derive(Clone, Copy, PartialEq, Eq, Structural, Debug)]
pub enum SignalDisposition {
    Terminate,
    Ignore,
    Core,
    Stop,
    Continue,
}

/// The disposition of each signal.
pub open spec fn disposition_of(signal: int) -> SignalDisposition {
    if signal == SIGCHLD || signal == SIGURG || signal == SIGWINCH {
        SignalDisposition::Ignore
    } else if signal == SIGCONT {
        SignalDisposition::Continue
    } else if SIGSTOP <= signal <= SIGTTOU {
        SignalDisposition::Stop
    } else if SIGQUIT <= signal <= SIGFPE || signal == SIGSEGV || signal == SIGXCPU || signal
        == SIGXFSZ || signal == SIGSYS {
        SignalDisposition::Core
    } else {
        SignalDisposition::Terminate
    }
}

/// What the signal does when no handler is installed for it.
pub fn default_disposition(signal: u32) -> (r: SignalDisposition)
    ensures
        r == disposition_of(signal as int),
{
    if signal == SIGCHLD || signal == SIGURG || signal == SIGWINCH {
        SignalDisposition::Ignore
    } else if signal == SIGCONT {
        SignalDisposition::Continue
    } else if SIGSTOP <= signal && signal <= SIGTTOU {
        SignalDisposition::Stop
    } else if (SIGQUIT <= signal && signal <= SIGFPE) || signal == SIGSEGV || signal == SIGXCPU
        || signal == SIGXFSZ || signal == SIGSYS {
        SignalDisposition::Core
    } else {
        SignalDisposition::Terminate
    }
}

/// A set of signals, one bit each: the lowest for signal 1.
#[derive(Clone, Copy, PartialEq, Eq, Structural, Debug)]
pub struct SigSet {
    pub bits: u64,
}

/// The bit at position `i` is set.
pub open spec fn bit_set(bits: u64, i: u64) -> bool {
    (bits >> i) & 1 == 1
}

/// What the bits of unions, differences and intersections are.
pub proof fn lemma_bit_ops(a: u64, b: u64, i: u64, j: u64)
    by (bit_vector)
    requires
        i < 64,
        j < 64,
    ensures
        ((a | b) >> i) & 1 == 1 <==> ((a >> i) & 1 == 1 || (b >> i) & 1 == 1),
        ((a & !b) >> i) & 1 == 1 <==> ((a >> i) & 1 == 1 && !((b >> i) & 1 == 1)),
        ((a & b) >> i) & 1 == 1 <==> ((a >> i) & 1 == 1 && (b >> i) & 1 == 1),
        ((1u64 << j) >> i) & 1 == 1 <==> i == j,
        (0u64 >> i) & 1 == 0,
{
}

/// If the lowest `n` bits are clear, shifting all others out leaves nothing.
proof fn lemma_low_bits_clear(bits: u64, n: u64)
    requires
        1 <= n <= 64,
        forall|i: u64| i < n ==> !#[trigger] bit_set(bits, i),
    ensures
        bits << ((64 - n) as u64) == 0,
    decreases n,
{
    let shift = (64 - n) as u64;
    let top = (n - 1) as u64;
    assert(!bit_set(bits, top));
    if n == 1 {
        assert((bits >> 0u64) & 1 != 1 ==> bits << 63u64 == 0) by (bit_vector);
    } else {
        lemma_low_bits_clear(bits, top);
        let above = (64 - top) as u64;
        assert(bits << above == 0 && (bits >> top) & 1 != 1 && above == 64 - top && above == shift + 1
            && top < 64 && shift < 64 ==> bits << shift == 0) by (bit_vector);
    }
}

impl SigSet {
    /// Whether the set has the signal.
    pub open spec fn has(self, signal: int) -> bool {
        is_signal(signal) && bit_set(self.bits, (signal - 1) as u64)
    }

    /// The set without signals.
    pub fn empty() -> (r: SigSet)
        ensures
            r.bits == 0,
            forall|n: int| !#[trigger] r.has(n),
    {
        let r = SigSet { bits: 0 };
        assert forall|n: int| !#[trigger] r.has(n) by {
            if is_signal(n) {
                lemma_bit_ops(0, 0, (n - 1) as u64, 0);
            }
        }
        r
    }

    /// Whether the set has the signal.
    pub fn contains(&self, signal: u32) -> (r: bool)
        requires
            is_signal(signal as int),
        ensures
            r == self.has(signal as int),
    {
        (self.bits >> (signal - 1) as u64) & 1 == 1
    }

    /// The signals of either set.
    pub fn union(&self, other: SigSet) -> (r: SigSet)
        ensures
            r.bits == self.bits | other.bits,
            forall|n: int| #[trigger] r.has(n) == (self.has(n) || other.has(n)),
    {
        let r = SigSet { bits: self.bits | other.bits };
        assert forall|n: int| #[trigger] r.has(n) == (self.has(n) || other.has(n)) by {
            if is_signal(n) {
                lemma_bit_ops(self.bits, other.bits, (n - 1) as u64, 0);
            }
        }
        r
    }

    /// The signals of this set that the other one lacks.
    pub fn difference(&self, other: SigSet) -> (r: SigSet)
        ensures
            r.bits == self.bits & !other.bits,
            forall|n: int| #[trigger] r.has(n) == (self.has(n) && !other.has(n)),
    {
        let r = SigSet { bits: self.bits & !other.bits };
        assert forall|n: int| #[trigger] r.has(n) == (self.has(n) && !other.has(n)) by {
            if is_signal(n) {
                lemma_bit_ops(self.bits, other.bits, (n - 1) as u64, 0);
            }
        }
        r
    }

    /// The signals that both sets have.
    pub fn intersection(&self, other: SigSet) -> (r: SigSet)
        ensures
            forall|n: int| #[trigger] r.has(n) == (self.has(n) && other.has(n)),
    {
        let r = SigSet { bits: self.bits & other.bits };
        assert forall|n: int| #[trigger] r.has(n) == (self.has(n) && other.has(n)) by {
            if is_signal(n) {
                lemma_bit_ops(self.bits, other.bits, (n - 1) as u64, 0);
            }
        }
        r
    }

    /// The set with one signal.
    pub fn single(signal: u32) -> (r: SigSet)
        requires
            is_signal(signal as int),
        ensures
            forall|n: int| #[trigger] r.has(n) == (n == signal),
    {
        let r = SigSet { bits: 1u64 << (signal - 1) as u64 };
        assert forall|n: int| #[trigger] r.has(n) == (n == signal) by {
            if is_signal(n) {
                lemma_bit_ops(0, 0, (n - 1) as u64, (signal - 1) as u64);
            }
        }
        r
    }

    /// Puts a signal into the set.
    pub fn add_signal(&mut self, signal: u32)
        requires
            is_signal(signal as int),
        ensures
            forall|n: int| #[trigger] final(self).has(n) == (old(self).has(n) || n == signal),
    {
        *self = self.union(SigSet::single(signal));
    }

    /// Takes a signal out of the set.
    pub fn remove(&mut self, signal: u32)
        requires
            is_signal(signal as int),
        ensures
            forall|n: int| #[trigger] final(self).has(n) == (old(self).has(n) && n != signal),
    {
        *self = self.difference(SigSet::single(signal));
    }

    /// Whether the set has no signals.
    pub fn is_empty(&self) -> (r: bool)
        ensures
            r == (forall|n: int| !#[trigger] self.has(n)),
    {
        let r = self.lowest_set();
        proof {
            match r {
                Some(n) => assert(self.has(n as int)),
                None => {},
            }
        }
        r.is_none()
    }

    /// The signal with the lowest number.
    pub fn lowest_set(&self) -> (r: Option<u32>)
        ensures
            match r {
                Some(n) => self.has(n as int) && forall|m: int| m < n ==> !#[trigger] self.has(m),
                None => forall|m: int| !#[trigger] self.has(m),
            },
    {
        let mut n: u32 = 1;
        while n <= 64
            invariant
                1 <= n <= 65,
                forall|m: int| m < n ==> !#[trigger] self.has(m),
            decreases 65 - n,
        {
            if self.contains(n) {
                return Some(n);
            }
            n = n + 1;
        }
        None
    }
}

/// Two sets with the same signals are the same set.
pub proof fn law_sets_are_their_signals(a: SigSet, b: SigSet)
    requires
        forall|n: int| #[trigger] a.has(n) == b.has(n),
    ensures
        a == b,
{
    let x = a.bits ^ b.bits;
    assert forall|i: u64| i < 64 implies !#[trigger] bit_set(x, i) by {
        assert(a.has(i + 1) == b.has(i + 1));
        let p = a.bits;
        let q = b.bits;
        assert(i < 64 && (((p >> i) & 1 == 1) == ((q >> i) & 1 == 1)) ==> !(((p ^ q) >> i) & 1
            == 1)) by (bit_vector);
    }
    lemma_low_bits_clear(x, 64);
    let p = a.bits;
    let q = b.bits;
    assert((p ^ q) << 0u64 == 0 ==> p == q) by (bit_vector);
}

} // verus!
