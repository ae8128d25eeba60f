//! Signals that wait to be delivered.
use std::collections::VecDeque;

use vstd::prelude::*;

use crate::shim::limits::{ResourceLimits, RlimitResource};
use crate::shim::sigset::{is_rt_signal, is_signal, SigSet, SIGBUS, SIGFPE, SIGILL, SIGRTMIN, SIGSEGV, SIGTRAP};

verus! {

/// The code of a signal that a user process sent.
pub const SI_USER: i32 = 0;

/// The code of a signal that the kernel raised.
pub const SI_KERNEL: i32 = 0x80;

/// A signal that was sent, and why.
#[derive(Clone, Copy, PartialEq, Eq, Structural, Debug)]
pub struct Siginfo {
    pub signo: u32,
    pub errno: i32,
    pub code: i32,
    /// The address of the fault, zero where there was none.
    pub addr: u64,
}

/// The information on an exception.
pub fn siginfo_exception(signal: u32, fault_address: u64) -> (r: Siginfo)
    ensures
        r == (Siginfo { signo: signal, errno: 0, code: SI_KERNEL, addr: fault_address }),
{
    Siginfo { signo: signal, errno: 0, code: SI_KERNEL, addr: fault_address }
}

/// The information on a signal that a user process sent.
pub open spec fn user_signal(signal: u32) -> Siginfo {
    Siginfo { signo: signal, errno: 0, code: SI_USER, addr: 0 }
}

/// The information on a signal that a user process sent.
pub fn siginfo_kill(signal: u32) -> (r: Siginfo)
    ensures
        r == user_signal(signal),
{
    Siginfo { signo: signal, errno: 0, code: SI_USER, addr: 0 }
}

/// Some entry of the queue is for the signal.
pub open spec fn queued(queue: Seq<Siginfo>, signal: int) -> bool {
    exists|i: int| 0 <= i < queue.len() && (#[trigger] queue[i]).signo == signal
}

/// The queue holds signals, and none twice but for real-time signals.
pub open spec fn valid_queue(queue: Seq<Siginfo>) -> bool {
    &&& forall|i: int| 0 <= i < queue.len() ==> is_signal((#[trigger] queue[i]).signo as int)
    &&& forall|i: int, j: int|
        0 <= i < j < queue.len() && (#[trigger] queue[i]).signo == (#[trigger] queue[j]).signo
            ==> queue[i].signo >= SIGRTMIN
}

/// The lowest number from `from` on for which `p` holds, among those of signals.
pub open spec fn lowest(p: spec_fn(int) -> bool, from: int) -> Option<int>
    decreases 65 - from,
{
    if from > 64 {
        None
    } else if p(from) {
        Some(from)
    } else {
        lowest(p, from + 1)
    }
}

/// Where [`lowest`] is found.
pub proof fn lemma_lowest(p: spec_fn(int) -> bool, from: int, n: int)
    requires
        from <= n <= 65,
        forall|m: int| from <= m < n ==> !#[trigger] p(m),
        n <= 64 ==> p(n),
    ensures
        lowest(p, from) == (if n <= 64 {
            Some(n)
        } else {
            None
        }),
    decreases n - from,
{
    if from < n {
        assert(!p(from));
        lemma_lowest(p, from + 1, n);
    }
}

/// Signals that report an exception. They are delivered first, since they go with the registers at the
/// time of the exception.
pub open spec fn is_exception(signal: int) -> bool {
    signal == SIGSEGV || signal == SIGBUS || signal == SIGFPE || signal == SIGILL || signal
        == SIGTRAP
}

/// The signal waits and is not blocked.
pub open spec fn deliverable(queue: Seq<Siginfo>, blocked: SigSet, signal: int) -> bool {
    queued(queue, signal) && !blocked.has(signal)
}

/// The signal to deliver next: the lowest exception, or else the lowest signal.
pub open spec fn next_signal(queue: Seq<Siginfo>, blocked: SigSet) -> Option<int> {
    match lowest(|n: int| deliverable(queue, blocked, n) && is_exception(n), 1) {
        Some(n) => Some(n),
        None => lowest(|n: int| deliverable(queue, blocked, n), 1),
    }
}

/// The first entry for the signal from `from` on.
pub open spec fn position(queue: Seq<Siginfo>, signal: int, from: int) -> int
    decreases queue.len() - from,
{
    if from >= queue.len() || queue[from].signo == signal {
        from
    } else {
        position(queue, signal, from + 1)
    }
}

proof fn lemma_position(queue: Seq<Siginfo>, signal: int, from: int, at: int)
    requires
        0 <= from <= at < queue.len(),
        queue[at].signo == signal,
        forall|i: int| from <= i < at ==> (#[trigger] queue[i]).signo != signal,
    ensures
        position(queue, signal, from) == at,
    decreases at - from,
{
    if from < at {
        lemma_position(queue, signal, from + 1, at);
    }
}

/// The queue after a signal was sent. A signal other than a real-time signal waits at most once; the
/// limit counts for real-time signals and for those that came neither from a user nor from the kernel.
pub open spec fn pushed(queue: Seq<Siginfo>, limit: u64, info: Siginfo) -> Seq<Siginfo> {
    let rt = info.signo >= SIGRTMIN;
    if !rt && queued(queue, info.signo as int) {
        queue
    } else if (rt || (info.code != SI_USER && info.code != SI_KERNEL)) && queue.len() >= limit {
        queue
    } else {
        queue.push(info)
    }
}

/// Signals that wait to be delivered, in the order in which they came.
pub struct PendingSignals {
    pending: SigSet,
    queue: VecDeque<Siginfo>,
}

impl View for PendingSignals {
    type V = Seq<Siginfo>;

    closed spec fn view(&self) -> Seq<Siginfo> {
        self.queue@
    }
}

impl PendingSignals {
    /// The set of signals is that of the queue.
    pub closed spec fn well_formed(&self) -> bool {
        &&& valid_queue(self.queue@)
        &&& forall|n: int| #[trigger] self.pending.has(n) == queued(self.queue@, n)
    }

    /// No signals.
    pub fn new() -> (r: PendingSignals)
        ensures
            r.well_formed(),
            r@ == Seq::<Siginfo>::empty(),
    {
        PendingSignals { pending: SigSet::empty(), queue: VecDeque::new() }
    }

    /// The signals that wait.
    pub fn pending_set(&self) -> (r: SigSet)
        requires
            self.well_formed(),
        ensures
            forall|n: int| #[trigger] r.has(n) == queued(self@, n),
    {
        self.pending
    }

    /// The signal to deliver next, if one waits that is not blocked.
    pub fn next(&self, blocked: SigSet) -> (r: Option<u32>)
        requires
            self.well_formed(),
        ensures
            match r {
                Some(n) => next_signal(self@, blocked) == Some(n as int) && is_signal(n as int)
                    && deliverable(self@, blocked, n as int),
                None => next_signal(self@, blocked) is None && forall|n: int|
                    !#[trigger] deliverable(self@, blocked, n),
            },
    {
        let mut exceptions = SigSet::single(SIGSEGV);
        exceptions.add_signal(SIGBUS);
        exceptions.add_signal(SIGFPE);
        exceptions.add_signal(SIGILL);
        exceptions.add_signal(SIGTRAP);
        let pending = self.pending.difference(blocked);
        let urgent = pending.intersection(exceptions);
        let ghost p = |n: int| deliverable(self@, blocked, n) && is_exception(n);
        let ghost q = |n: int| deliverable(self@, blocked, n);
        proof {
            assert forall|n: int| #[trigger] urgent.has(n) == p(n) by {
                assert(pending.has(n) == q(n));
                assert(exceptions.has(n) == is_exception(n));
            }
            assert forall|n: int| #[trigger] pending.has(n) == q(n) by {}
        }
        match urgent.lowest_set() {
            Some(n) => {
                proof {
                    assert forall|m: int| 1 <= m < n implies !#[trigger] p(m) by {
                        assert(!urgent.has(m));
                    }
                    assert(p(n as int));
                    lemma_lowest(p, 1, n as int);
                }
                Some(n)
            },
            None => {
                proof {
                    assert forall|m: int| 1 <= m < 65 implies !#[trigger] p(m) by {
                        assert(!urgent.has(m));
                    }
                    lemma_lowest(p, 1, 65);
                }
                let r = pending.lowest_set();
                proof {
                    match r {
                        Some(n) => {
                            assert forall|m: int| 1 <= m < n implies !#[trigger] q(m) by {
                                assert(!pending.has(m));
                            }
                            assert(q(n as int));
                            lemma_lowest(q, 1, n as int);
                        },
                        None => {
                            assert forall|m: int| 1 <= m < 65 implies !#[trigger] q(m) by {
                                assert(!pending.has(m));
                            }
                            lemma_lowest(q, 1, 65);
                            assert forall|n: int| !#[trigger] deliverable(self@, blocked, n) by {
                                assert(pending.has(n) == q(n));
                            }
                        },
                    }
                }
                r
            },
        }
    }

    /// Takes the oldest entry for a signal that waits.
    pub fn remove(&mut self, signal: u32) -> (r: Siginfo)
        requires
            old(self).well_formed(),
            queued(old(self)@, signal as int),
        ensures
            final(self).well_formed(),
            ({
                let at = position(old(self)@, signal as int, 0);
                0 <= at < old(self)@.len() && r == old(self)@[at] && final(self)@ == old(
                    self,
                )@.remove(at)
            }),
            r.signo == signal,
    {
        let ghost before = self.queue@;
        let mut pos: usize = 0;
        assert(exists|i: int| 0 <= i < before.len() && (#[trigger] before[i]).signo == signal);
        while pos < self.queue.len() && self.queue[pos].signo != signal
            invariant
                self.queue@ == before,
                pos <= before.len(),
                forall|i: int| 0 <= i < pos ==> (#[trigger] before[i]).signo != signal,
            decreases before.len() - pos,
        {
            pos = pos + 1;
        }
        assert(pos < before.len());
        let mut i: usize = pos + 1;
        let mut more: bool = false;
        while i < self.queue.len() && !more
            invariant
                self.queue@ == before,
                pos < i <= before.len(),
                more == (exists|j: int| pos < j < i && (#[trigger] before[j]).signo == signal),
            decreases before.len() - i,
        {
            if self.queue[i].signo == signal {
                assert(before[i as int].signo == signal);
                more = true;
            }
            i = i + 1;
        }
        if !more {
            self.pending.remove(signal);
        }
        let info = self.queue[pos];
        self.queue.remove(pos);
        proof {
            let after = self.queue@;
            lemma_position(before, signal as int, 0, pos as int);
            assert(after == before.remove(pos as int));
            assert forall|n: int| #[trigger] self.pending.has(n) == queued(after, n) by {
                if queued(before, n) {
                    let k = choose|k: int| 0 <= k < before.len() && (#[trigger] before[k]).signo
                        == n;
                    if n != signal || k > pos {
                        assert(k != pos);
                        if k < pos {
                            assert(after[k].signo == n);
                        } else {
                            assert(after[k - 1].signo == n);
                        }
                    }
                }
                if n == signal && more {
                    let k = choose|k: int| pos < k < i && (#[trigger] before[k]).signo == signal;
                    assert(after[k - 1].signo == n);
                }
                if queued(after, n) {
                    let k = choose|k: int| 0 <= k < after.len() && (#[trigger] after[k]).signo == n;
                    if k < pos {
                        assert(before[k].signo == n);
                    } else {
                        assert(before[k + 1].signo == n);
                    }
                }
            }
            assert(valid_queue(after)) by {
                assert forall|x: int, y: int|
                    0 <= x < y < after.len() && (#[trigger] after[x]).signo == (
                    #[trigger] after[y]).signo implies after[x].signo >= SIGRTMIN by {
                    let x2 = if x < pos {
                        x
                    } else {
                        x + 1
                    };
                    let y2 = if y < pos {
                        y
                    } else {
                        y + 1
                    };
                    assert(before[x2].signo == before[y2].signo);
                }
            }
        }
        info
    }

    /// Queues a signal, within the limit on signals that wait.
    pub fn push(&mut self, limits: &ResourceLimits, info: Siginfo)
        requires
            limits.well_formed(),
            old(self).well_formed(),
            is_signal(info.signo as int),
        ensures
            final(self).well_formed(),
            final(self)@ == pushed(old(self)@, limits.sigpending(), info),
    {
        let signal = info.signo;
        if !is_rt_signal(signal) && self.pending.contains(signal) {
            return;
        }
        if is_rt_signal(signal) || (info.code != SI_USER && info.code != SI_KERNEL) {
            if self.queue.len() as u64 >= limits.get_rlimit_cur(RlimitResource::SIGPENDING) {
                return;
            }
        }
        let ghost before = self.queue@;
        self.queue.push_back(info);
        self.pending.add_signal(signal);
        proof {
            let after = self.queue@;
            assert forall|n: int| #[trigger] self.pending.has(n) == queued(after, n) by {
                if queued(before, n) {
                    let k = choose|k: int| 0 <= k < before.len() && (#[trigger] before[k]).signo
                        == n;
                    assert(after[k].signo == n);
                }
                assert(after[before.len() as int] == info);
                if queued(after, n) && n != signal {
                    let k = choose|k: int| 0 <= k < after.len() && (#[trigger] after[k]).signo == n;
                    assert(before[k].signo == n);
                }
            }
            assert forall|x: int, y: int|
                0 <= x < y < after.len() && (#[trigger] after[x]).signo == (
                #[trigger] after[y]).signo implies after[x].signo >= SIGRTMIN by {
                if y == before.len() {
                    assert(before[x].signo == signal);
                    assert(queued(before, signal as int));
                } else {
                    assert(before[x].signo == before[y].signo);
                }
            }
        }
    }
}

/// A signal that was sent within the limit waits, and no signal that waited is lost.
pub proof fn law_sent_signals_wait(queue: Seq<Siginfo>, limit: u64, info: Siginfo)
    requires
        queue.len() < limit || (info.signo < SIGRTMIN && (info.code == SI_USER || info.code
            == SI_KERNEL)),
    ensures
        queued(pushed(queue, limit, info), info.signo as int),
        forall|n: int| #[trigger] queued(queue, n) ==> queued(pushed(queue, limit, info), n),
{
    let after = pushed(queue, limit, info);
    if after != queue {
        assert(after[queue.len() as int] == info);
    }
    assert forall|n: int| #[trigger] queued(queue, n) implies queued(after, n) by {
        let k = choose|k: int| 0 <= k < queue.len() && (#[trigger] queue[k]).signo == n;
        assert(after[k].signo == n);
    }
}

/// What is delivered next waits and is not blocked; and something is delivered whenever some signal
/// waits that is not blocked. Exceptions come before all other signals.
pub proof fn law_next_signal(queue: Seq<Siginfo>, blocked: SigSet, n: int)
    requires
        valid_queue(queue),
    ensures
        next_signal(queue, blocked) matches Some(m) ==> deliverable(queue, blocked, m),
        deliverable(queue, blocked, n) ==> next_signal(queue, blocked) is Some,
        deliverable(queue, blocked, n) && is_exception(n) ==> (next_signal(queue, blocked) matches Some(
            m,
        ) && is_exception(m) && m <= n),
{
    let p = |n: int| deliverable(queue, blocked, n) && is_exception(n);
    let q = |n: int| deliverable(queue, blocked, n);
    lemma_lowest_is_lowest(p, 1, n);
    lemma_lowest_is_lowest(q, 1, n);
    if deliverable(queue, blocked, n) {
        let k = choose|k: int| 0 <= k < queue.len() && (#[trigger] queue[k]).signo == n;
        assert(is_signal(queue[k].signo as int));
        assert(q(n));
    }
}

/// What [`lowest`] finds, and that it finds the lowest.
pub proof fn lemma_lowest_is_lowest(p: spec_fn(int) -> bool, from: int, n: int)
    ensures
        lowest(p, from) matches Some(m) ==> p(m) && from <= m <= 64,
        p(n) && from <= n <= 64 ==> (lowest(p, from) matches Some(m) && m <= n),
    decreases 65 - from,
{
    if from <= 64 && !p(from) {
        lemma_lowest_is_lowest(p, from + 1, n);
    }
}

} // verus!
