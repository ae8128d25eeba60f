//! What signals do to a thread and to its process, by their numbers.
use vstd::prelude::*;

use crate::shim::delivery::{
    acted, delivered, law_delivery_is_complete, lemma_next, lemma_next_is_queued,
    lemma_remove_queued, DeliveryModel, Waiting,
};
use crate::shim::limits::{initial_limit, RlimitResource};
use crate::shim::pending::{
    deliverable, is_exception, lemma_lowest_is_lowest, next_signal, position, pushed, queued, Siginfo,
};
use crate::shim::process::{exit_code, ExitStatus, ProcessModel};
use crate::shim::signal::{
    exception_signal_of, forced, frame_fits, handler_stack, reset_handler, sent, Handler, SigAction,
    SigAltStack, SignalState,
};
use crate::shim::sigset::{disposition_of, SigSet};

verus! {

/// What each signal does by default: `SIGCHLD`, `SIGURG` and `SIGWINCH` nothing, `SIGCONT` lets a process
/// go on, those from `SIGSTOP` to `SIGTTOU` stop it, and all others end it, some with a memory image.
pub proof fn law_default_actions(n: int)
    requires
        1 <= n <= 64,
    ensures
        (disposition_of(n) is Ignore) == (n == 17 || n == 23 || n == 28),
        (disposition_of(n) is Continue) == (n == 18),
        (disposition_of(n) is Stop) == (19 <= n <= 22),
        (disposition_of(n) is Core) == (3 <= n <= 8 || n == 11 || n == 24 || n == 25 || n == 31),
{
}

/// The signal waits for the thread or for its process.
pub open spec fn waits(state: Waiting, n: int) -> bool {
    (exists|i: int| 0 <= i < state.own.len() && (#[trigger] state.own[i]).signo == n) || (exists|i: int|
        0 <= i < state.shared.len() && (#[trigger] state.shared[i]).signo == n)
}

/// The signal is not handled, and does something to the process by default.
pub open spec fn is_uncaught(handlers: Seq<Handler>, n: int) -> bool {
    &&& 1 <= n <= 64
    &&& handlers[n - 1].action.sigaction == 0
    &&& n != 17 && n != 18 && n != 23 && n != 28
}

/// One signal of a thread or of its process is taken, and nothing is done but what it does by default.
proof fn lemma_one_delivered(
    state: Waiting,
    blocked: SigSet,
    handlers: Seq<Handler>,
    tid: i32,
    m: int,
) -> (next: Waiting)
    requires
        handlers.len() == 64,
        state.process.running(tid),
        (next_signal(state.own, blocked) == Some(m)) || (next_signal(state.own, blocked) is None
            && next_signal(state.shared, blocked) == Some(m)),
        handlers[m - 1].action.sigaction <= 1,
    ensures
        1 <= m <= 64,
        !blocked.has(m),
        waits(state, m),
        delivered(state, blocked, handlers, tid) == delivered(next, blocked, handlers, tid),
        next.own.len() + next.shared.len() < state.own.len() + state.shared.len(),
        forall|n: int| #[trigger] waits(next, n) ==> waits(state, n),
        forall|n: int| n != m && #[trigger] waits(state, n) ==> waits(next, n),
        next.process == (if handlers[m - 1].action.sigaction == 0 && is_uncaught(handlers, m) {
            state.process.exit_group(tid, ExitStatus::Signal(m as u32))
        } else {
            state.process
        }),
{
    lemma_next_is_queued(state.own, blocked);
    lemma_next_is_queued(state.shared, blocked);
    let p = |n: int| deliverable(state.own, blocked, n) && is_exception(n);
    let q = |n: int| deliverable(state.own, blocked, n);
    let r = |n: int| deliverable(state.shared, blocked, n) && is_exception(n);
    let s = |n: int| deliverable(state.shared, blocked, n);
    lemma_lowest_is_lowest(p, 1, 1);
    lemma_lowest_is_lowest(q, 1, 1);
    lemma_lowest_is_lowest(r, 1, 1);
    lemma_lowest_is_lowest(s, 1, 1);
    let action = handlers[m - 1].action;
    let in_own = next_signal(state.own, blocked) is Some;
    let queue = if in_own {
        state.own
    } else {
        state.shared
    };
    lemma_next(queue, blocked, m);
    let at = position(queue, m, 0);
    let rest = if in_own {
        Waiting { own: state.own.remove(at), ..state }
    } else {
        Waiting { shared: state.shared.remove(at), ..state }
    };
    let after = queue.remove(at);
    assert(queue[at].signo == m);
    assert forall|n: int| #[trigger] waits(rest, n) implies waits(state, n) by {
        if exists|i: int| 0 <= i < after.len() && (#[trigger] after[i]).signo == n {
            let i = choose|i: int| 0 <= i < after.len() && (#[trigger] after[i]).signo == n;
            if i < at {
                assert(queue[i].signo == n);
            } else {
                assert(queue[i + 1].signo == n);
            }
        }
    }
    assert forall|n: int| n != m && #[trigger] waits(state, n) implies waits(rest, n) by {
        lemma_remove_queued(queue, at, n);
        assert(queued(queue, n) == (exists|i: int|
            0 <= i < queue.len() && (#[trigger] queue[i]).signo == n));
        assert(queued(after, n) == (exists|i: int|
            0 <= i < after.len() && (#[trigger] after[i]).signo == n));
    }
    let next = acted(rest, action, m, tid);
    assert(next.own == rest.own && next.shared == rest.shared);
    assert forall|n: int| #[trigger] waits(next, n) implies waits(state, n) by {
        assert(waits(rest, n));
    }
    assert forall|n: int| n != m && #[trigger] waits(state, n) implies waits(next, n) by {
        assert(waits(rest, n));
    }
    assert(waits(state, m));
    next
}

/// A signal that waits, is not blocked and is not handled ends the whole process, unless it does nothing by
/// default or the handler of another signal runs first: every thread is exiting then, and the process ends
/// by a signal that waited, was not blocked and was not handled.
pub proof fn law_uncaught_signals_end_process(
    state: Waiting,
    blocked: SigSet,
    handlers: Seq<Handler>,
    tid: i32,
    n: int,
)
    requires
        handlers.len() == 64,
        waits(state, n),
        !blocked.has(n),
        is_uncaught(handlers, n),
        state.process.running(tid),
        !state.process.group_exit,
    ensures
        match delivered(state, blocked, handlers, tid) {
            DeliveryModel::Run(_, info, action) => info.signo != n && action.sigaction > 1,
            DeliveryModel::Done(after) => {
                &&& after.process.group_exit
                &&& after.process.threads.dom() == state.process.threads.dom()
                &&& forall|t: i32|
                    state.process.threads.contains_key(t) ==> #[trigger] after.process.threads[t]
                &&& exists|m: int|
                    {
                        &&& #[trigger] waits(state, m)
                        &&& !blocked.has(m)
                        &&& is_uncaught(handlers, m)
                        &&& after.process.exit_status == ExitStatus::Signal(m as u32)
                    }
            },
        },
    decreases state.own.len() + state.shared.len(),
{
    lemma_next_is_queued(state.own, blocked);
    lemma_next_is_queued(state.shared, blocked);
    law_delivery_is_complete(state, blocked, handlers, tid);
    let p = |k: int| deliverable(state.own, blocked, k) && is_exception(k);
    let q = |k: int| deliverable(state.own, blocked, k);
    let r = |k: int| deliverable(state.shared, blocked, k) && is_exception(k);
    let s = |k: int| deliverable(state.shared, blocked, k);
    lemma_lowest_is_lowest(p, 1, n);
    lemma_lowest_is_lowest(q, 1, n);
    lemma_lowest_is_lowest(r, 1, n);
    lemma_lowest_is_lowest(s, 1, n);
    if exists|i: int| 0 <= i < state.own.len() && (#[trigger] state.own[i]).signo == n {
        assert(queued(state.own, n));
        assert(q(n));
    } else {
        assert(queued(state.shared, n));
        assert(s(n));
    }
    let m = match next_signal(state.own, blocked) {
        Some(m) => m,
        None => next_signal(state.shared, blocked)->Some_0,
    };
    if handlers[m - 1].action.sigaction <= 1 {
        let next = lemma_one_delivered(state, blocked, handlers, tid, m);
        if is_uncaught(handlers, m) {
            law_delivery_is_complete(next, blocked, handlers, tid);
            lemma_exited(next, blocked, handlers, tid);
            assert(next.process.threads.dom() =~= state.process.threads.dom());
            assert(waits(state, m));
        } else {
            law_uncaught_signals_end_process(next, blocked, handlers, tid, n);
            if let DeliveryModel::Done(after) = delivered(next, blocked, handlers, tid) {
                let k = choose|k: int|
                    {
                        &&& #[trigger] waits(next, k)
                        &&& !blocked.has(k)
                        &&& is_uncaught(handlers, k)
                        &&& after.process.exit_status == ExitStatus::Signal(k as u32)
                    };
                assert(waits(state, k));
            }
        }
    }
}

/// Nothing more happens to a thread that is exiting.
proof fn lemma_exited(state: Waiting, blocked: SigSet, handlers: Seq<Handler>, tid: i32)
    requires
        !state.process.running(tid),
    ensures
        delivered(state, blocked, handlers, tid) matches DeliveryModel::Done(after) && after.process
            == state.process,
{
    lemma_next_is_queued(state.own, blocked);
    lemma_next_is_queued(state.shared, blocked);
}

/// Signals that are ignored, or that do nothing by default and are not handled, leave the process as it is
/// and no handler to run.
pub proof fn law_harmless_signals_change_nothing(
    state: Waiting,
    blocked: SigSet,
    handlers: Seq<Handler>,
    tid: i32,
)
    requires
        handlers.len() == 64,
        forall|n: int| #[trigger]
            waits(state, n) && !blocked.has(n) && 1 <= n <= 64 ==> handlers[n - 1].action.sigaction == 1 || (
            handlers[n - 1].action.sigaction == 0 && (n == 17 || n == 18 || n == 23 || n == 28)),
    ensures
        delivered(state, blocked, handlers, tid) matches DeliveryModel::Done(after) && after.process
            == state.process,
    decreases state.own.len() + state.shared.len(),
{
    lemma_next_is_queued(state.own, blocked);
    lemma_next_is_queued(state.shared, blocked);
    let p = |k: int| deliverable(state.own, blocked, k) && is_exception(k);
    let q = |k: int| deliverable(state.own, blocked, k);
    let r = |k: int| deliverable(state.shared, blocked, k) && is_exception(k);
    let s = |k: int| deliverable(state.shared, blocked, k);
    lemma_lowest_is_lowest(p, 1, 1);
    lemma_lowest_is_lowest(q, 1, 1);
    lemma_lowest_is_lowest(r, 1, 1);
    lemma_lowest_is_lowest(s, 1, 1);
    if !state.process.running(tid) {
        lemma_exited(state, blocked, handlers, tid);
    } else if next_signal(state.own, blocked) is Some || next_signal(state.shared, blocked) is Some {
        let m = match next_signal(state.own, blocked) {
            Some(m) => m,
            None => next_signal(state.shared, blocked)->Some_0,
        };
        assert(waits(state, m)) by {
            if next_signal(state.own, blocked) is Some {
                assert(queued(state.own, m));
            } else {
                assert(queued(state.shared, m));
            }
        }
        let next = lemma_one_delivered(state, blocked, handlers, tid, m);
        law_harmless_signals_change_nothing(next, blocked, handlers, tid);
    }
}

/// The signal comes first among those of a queue: it is not blocked, and the only ones that come before it
/// are exceptions (`SIGILL`, `SIGTRAP`, `SIGBUS`, `SIGFPE` and `SIGSEGV`), and signals of its own sort with a
/// lower number. `at` is the first place at which it waits.
pub open spec fn comes_first(queue: Seq<Siginfo>, blocked: SigSet, n: int, at: int) -> bool {
    &&& 1 <= n <= 64
    &&& !blocked.has(n)
    &&& 0 <= at < queue.len()
    &&& queue[at].signo == n
    &&& forall|k: int| 0 <= k < at ==> (#[trigger] queue[k]).signo != n
    &&& forall|k: int|
        0 <= k < queue.len() && !blocked.has((#[trigger] queue[k]).signo as int) ==> {
            let m = queue[k].signo as int;
            let urgent = n == 4 || n == 5 || n == 7 || n == 8 || n == 11;
            let other = m == 4 || m == 5 || m == 7 || m == 8 || m == 11;
            if urgent {
                !other || m >= n
            } else {
                !other && m >= n
            }
        }
}

proof fn lemma_comes_first(queue: Seq<Siginfo>, blocked: SigSet, n: int, at: int)
    requires
        comes_first(queue, blocked, n, at),
    ensures
        next_signal(queue, blocked) == Some(n),
        position(queue, n, 0) == at,
{
    let p = |k: int| deliverable(queue, blocked, k) && is_exception(k);
    let q = |k: int| deliverable(queue, blocked, k);
    assert(queued(queue, n));
    assert(q(n));
    lemma_lowest_is_lowest(p, 1, n);
    lemma_lowest_is_lowest(q, 1, n);
    let m = next_signal(queue, blocked)->Some_0;
    assert(queued(queue, m));
    let k = choose|k: int| 0 <= k < queue.len() && (#[trigger] queue[k]).signo == m;
    assert(queue[k].signo == m);
    lemma_position_at(queue, n, 0, at);
}

proof fn lemma_position_at(queue: Seq<Siginfo>, n: int, from: int, at: int)
    requires
        0 <= from <= at < queue.len(),
        queue[at].signo == n,
        forall|k: int| from <= k < at ==> (#[trigger] queue[k]).signo != n,
    ensures
        position(queue, n, from) == at,
    decreases at - from,
{
    if from < at {
        lemma_position_at(queue, n, from + 1, at);
    }
}

/// The signal that comes first for a running thread, if it has a handler, is taken from where it waits, and
/// its handler is to be run with what was sent; all else stays.
pub proof fn law_first_signal_runs_its_handler(
    state: Waiting,
    blocked: SigSet,
    handlers: Seq<Handler>,
    tid: i32,
    n: int,
    at: int,
)
    requires
        handlers.len() == 64,
        state.process.running(tid),
        comes_first(state.own, blocked, n, at),
        handlers[n - 1].action.sigaction > 1,
    ensures
        delivered(state, blocked, handlers, tid) == DeliveryModel::Run(
            Waiting { own: state.own.remove(at), ..state },
            state.own[at],
            handlers[n - 1].action,
        ),
{
    lemma_next_is_queued(state.own, blocked);
    lemma_comes_first(state.own, blocked, n, at);
}

/// The same holds of the signals of the process, where none waits for the thread that is not blocked.
pub proof fn law_first_shared_signal_runs_its_handler(
    state: Waiting,
    blocked: SigSet,
    handlers: Seq<Handler>,
    tid: i32,
    n: int,
    at: int,
)
    requires
        handlers.len() == 64,
        state.process.running(tid),
        forall|k: int|
            0 <= k < state.own.len() ==> blocked.has((#[trigger] state.own[k]).signo as int),
        comes_first(state.shared, blocked, n, at),
        handlers[n - 1].action.sigaction > 1,
    ensures
        delivered(state, blocked, handlers, tid) == DeliveryModel::Run(
            Waiting { shared: state.shared.remove(at), ..state },
            state.shared[at],
            handlers[n - 1].action,
        ),
{
    lemma_next_is_queued(state.own, blocked);
    lemma_next_is_queued(state.shared, blocked);
    lemma_comes_first(state.shared, blocked, n, at);
    let p = |k: int| deliverable(state.own, blocked, k) && is_exception(k);
    let q = |k: int| deliverable(state.own, blocked, k);
    lemma_lowest_is_lowest(p, 1, 1);
    lemma_lowest_is_lowest(q, 1, 1);
}

/// A signal that comes first and is ignored, or does nothing by default, is taken, and delivery goes on.
pub proof fn law_first_signal_is_taken(
    state: Waiting,
    blocked: SigSet,
    handlers: Seq<Handler>,
    tid: i32,
    n: int,
    at: int,
)
    requires
        handlers.len() == 64,
        state.process.running(tid),
        comes_first(state.own, blocked, n, at),
        handlers[n - 1].action.sigaction == 1 || (handlers[n - 1].action.sigaction == 0 && (n == 17 || n
            == 18 || n == 23 || n == 28)),
    ensures
        delivered(state, blocked, handlers, tid) == delivered(
            Waiting { own: state.own.remove(at), ..state },
            blocked,
            handlers,
            tid,
        ),
{
    lemma_next_is_queued(state.own, blocked);
    lemma_comes_first(state.own, blocked, n, at);
}

/// A signal that is sent is queued behind the others, with two exceptions: a standard signal that waits
/// already is not queued again; and a real-time signal, or one that neither a user nor the kernel sent, is
/// dropped where as many wait as may.
pub proof fn law_signals_are_queued(queue: Seq<Siginfo>, limit: u64, info: Siginfo)
    ensures
        ({
            let twice = info.signo < 32 && exists|i: int|
                0 <= i < queue.len() && (#[trigger] queue[i]).signo == info.signo;
            let counted = info.signo >= 32 || (info.code != 0 && info.code != 0x80);
            pushed(queue, limit, info) == (if twice || (counted && queue.len() >= limit) {
                queue
            } else {
                queue.push(info)
            })
        }),
{
    assert(queued(queue, info.signo as int) == (exists|i: int|
        0 <= i < queue.len() && (#[trigger] queue[i]).signo == info.signo));
}

/// A signal that is sent is dropped at once only if it is neither blocked nor `SIGKILL` nor `SIGSTOP`, and
/// would do nothing: it is ignored, or is not handled and does nothing by default (`SIGCONT` counts as doing
/// something).
pub proof fn law_sent_signals_are_kept(
    queue: Seq<Siginfo>,
    blocked: SigSet,
    handlers: Seq<Handler>,
    limit: u64,
    info: Siginfo,
)
    requires
        handlers.len() == 64,
        1 <= info.signo <= 64,
    ensures
        ({
            let n = info.signo;
            let action = handlers[n - 1].action.sigaction;
            let nothing = n != 9 && n != 19 && !blocked.has(n as int) && (action == 1 || (action == 0 && (n
                == 17 || n == 23 || n == 28)));
            sent(queue, blocked, handlers, limit, info) == (if nothing {
                queue
            } else {
                pushed(queue, limit, info)
            })
        }),
{
}

/// A signal that is forced on a thread is queued. If it could not take effect, since it is blocked or
/// ignored, or if the process is to end, it is no longer blocked, and its action is the default one for
/// good; otherwise nothing else changes.
pub proof fn law_forced_signals_take_effect(
    before: SignalState,
    handlers: Seq<Handler>,
    limit: u64,
    force_exit: bool,
    info: Siginfo,
    after: SignalState,
    handlers_after: Seq<Handler>,
    n: int,
)
    requires
        handlers.len() == 64,
        1 <= info.signo <= 64,
        1 <= n <= 64,
        forced(before, handlers, limit, force_exit, info, after, handlers_after),
    ensures
        after.pending@ == pushed(before.pending@, limit, info),
        after.altstack == before.altstack,
        ({
            let s = info.signo;
            let needed = force_exit || before.blocked.has(s as int) || handlers[s - 1].action.sigaction == 1;
            &&& after.blocked.has(n) == (before.blocked.has(n) && !(needed && n == s))
            &&& if needed && n == s {
                handlers_after[n - 1].action.sigaction == 0 && handlers_after[n - 1].immutable
            } else {
                handlers_after[n - 1] == handlers[n - 1]
            }
        }),
{
}

/// A program that is run in place of another one keeps of its handlers only that signals are ignored, and
/// that an action is fixed.
pub proof fn law_handlers_do_not_survive_exec(handler: Handler)
    ensures
        reset_handler(handler).action.sigaction == (if handler.action.sigaction == 1 {
            1
        } else {
            0u64
        }),
        reset_handler(handler).action.flags == 0,
        reset_handler(handler).action.restorer == 0,
        reset_handler(handler).action.mask.bits == 0,
        reset_handler(handler).immutable == handler.immutable,
{
}

/// Exceptions of the processor become the signals of their kind: a division by zero `SIGFPE`, a breakpoint
/// `SIGTRAP`, an unknown instruction `SIGILL`, and any other `SIGSEGV`.
pub proof fn law_exceptions_become_signals(exception: u8)
    ensures
        exception_signal_of(exception) == (if exception == 0 {
            8
        } else if exception == 3 {
            5
        } else if exception == 6 {
            4
        } else {
            11u32
        }),
{
}

/// A handler runs on the alternate stack, from its end down, if it asks for it, there is one, and the thread
/// does not run on it already; otherwise it runs below where the thread stands. Where it runs on the
/// alternate stack, its frame must lie in it.
pub proof fn law_handlers_run_on_their_stack(stack: SigAltStack, action: SigAction, sp: u64, frame: u64)
    requires
        stack.sp + stack.size <= 0xffff_ffff_ffff_ffff,
    ensures
        ({
            let there = stack.flags & 2 == 0;
            let on_it = there && stack.sp <= sp < stack.sp + stack.size;
            let asks = action.flags & 0x0800_0000 != 0;
            &&& handler_stack(stack, action, sp) == (if asks && there && !on_it {
                stack.sp + stack.size
            } else {
                sp as int
            })
            &&& frame_fits(stack, action, sp, frame) == (!(on_it || (asks && there)) || stack.sp <= frame
                < stack.sp + stack.size)
        }),
{
}

/// An exit status is cut to its lowest eight bits, taken as a signed number.
pub proof fn law_exit_codes_are_cut(status: int)
    ensures
        -128 <= exit_code(status) <= 127,
        (status - exit_code(status)) % 256 == 0,
{
}

/// A thread that exits is exiting, and its code is the status of the process as long as no other follows;
/// no other thread is touched.
pub proof fn law_thread_exit(p: ProcessModel, tid: i32, code: i8, other: i32)
    requires
        p.running(tid),
    ensures
        ({
            let after = p.exit_thread(tid, code);
            &&& after.threads.contains_key(tid) && after.threads[tid]
            &&& after.exit_status == ExitStatus::Exit(code)
            &&& after.group_exit == p.group_exit && after.killing == p.killing
            &&& other != tid ==> after.threads.contains_key(other) == p.threads.contains_key(other)
            &&& other != tid && p.threads.contains_key(other) ==> after.threads[other]
                == p.threads[other]
        }),
{
}

/// A thread that joins a process runs in it; one that leaves is gone, and the process ends with its last
/// thread. The others stay as they are.
pub proof fn law_threads_join_and_leave(p: ProcessModel, tid: i32, other: i32)
    requires
        p.threads.dom().finite(),
        other != tid,
    ensures
        p.attach(tid).running(tid),
        p.attach(tid).running(other) == p.running(other),
        p.attach(tid).group_exit == p.group_exit,
        p.attach(tid).exit_status == p.exit_status,
        !p.detach(tid).threads.contains_key(tid),
        p.detach(tid).running(other) == p.running(other),
        p.detach(tid).exit_status == p.exit_status,
        p.threads.contains_key(other) ==> p.detach(tid).group_exit == p.group_exit,
        p.threads.dom() == set![tid] ==> p.detach(tid).group_exit,
{
    if p.threads.contains_key(other) {
        assert(p.threads.remove(tid).contains_key(other));
        assert(p.threads.remove(tid).dom().contains(other));
        assert(p.threads.remove(tid).dom().len() > 0);
    }
    if p.threads.dom() == set![tid] {
        assert(p.threads.remove(tid).dom() =~= Set::<i32>::empty());
    }
}

/// A process starts with room for a million open files, with the stack that it was given, which it may
/// raise, and with nothing else.
pub proof fn law_initial_limits(resource: RlimitResource, stack_size: u64)
    ensures
        resource is NOFILE ==> initial_limit(resource, stack_size).rlim_cur == 1024 * 1024
            && initial_limit(resource, stack_size).rlim_max == 1024 * 1024,
        resource is STACK ==> initial_limit(resource, stack_size).rlim_cur == stack_size
            && initial_limit(resource, stack_size).rlim_max == 0xffff_ffff_ffff_ffff,
        !(resource is NOFILE) && !(resource is STACK) ==> initial_limit(resource, stack_size).rlim_cur
            == 0 && initial_limit(resource, stack_size).rlim_max == 0,
{
}

} // verus!
