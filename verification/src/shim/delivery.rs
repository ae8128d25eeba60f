//! Delivery of the signals that wait when a thread is about to run guest code.
use vstd::prelude::*;

use crate::shim::limits::ResourceLimits;
use crate::shim::pending::{
    deliverable, is_exception, law_sent_signals_wait, lemma_lowest_is_lowest, next_signal, position, queued, PendingSignals,
    Siginfo,
};
use crate::shim::process::{ExitStatus, Process, ProcessModel};
use crate::shim::signal::{
    forced, frame_fits, handler_entered, handler_of, kernel_signal, plain_action, Handler, SigAction,
    SignalHandlers, SignalState, SIG_DFL, SIG_IGN,
};
use crate::shim::sigset::{
    default_disposition, disposition_of, is_signal, SigSet, SignalDisposition, SIGSEGV,
};

verus! {

/// What delivery works on: the signals that wait for the thread and for its process, and the process.
pub struct Waiting {
    pub own: Seq<Siginfo>,
    pub shared: Seq<Siginfo>,
    pub process: ProcessModel,
}

/// What delivery comes to: nothing more to do, or a handler to run.
pub enum DeliveryModel {
    Done(Waiting),
    Run(Waiting, Siginfo, SigAction),
}

/// The signal ends a process that has no handler for it. Stopping is not supported, so signals that
/// stop a process end it too.
pub open spec fn is_fatal(signal: int) -> bool {
    disposition_of(signal) != SignalDisposition::Ignore && disposition_of(signal)
        != SignalDisposition::Continue
}

/// What is delivered next has a place in the queue.
pub proof fn lemma_next_is_queued(queue: Seq<Siginfo>, blocked: SigSet)
    ensures
        next_signal(queue, blocked) matches Some(n) ==> 0 <= position(queue, n, 0) < queue.len(),
{
    let p = |n: int| deliverable(queue, blocked, n) && is_exception(n);
    let q = |n: int| deliverable(queue, blocked, n);
    lemma_lowest_is_lowest(p, 1, 1);
    lemma_lowest_is_lowest(q, 1, 1);
    if let Some(n) = next_signal(queue, blocked) {
        assert(queued(queue, n));
        let k = choose|k: int| 0 <= k < queue.len() && (#[trigger] queue[k]).signo == n;
        lemma_position_bound(queue, n, 0, k);
    }
}

proof fn lemma_position_bound(queue: Seq<Siginfo>, signal: int, from: int, at: int)
    requires
        0 <= from <= at < queue.len(),
        queue[at].signo == signal,
    ensures
        from <= position(queue, signal, from) <= at,
    decreases at - from,
{
    if queue[from].signo != signal {
        lemma_position_bound(queue, signal, from + 1, at);
    }
}

/// Takes signals that are not blocked, those of the thread before those of its process, and acts on
/// them, until a handler is to be run, the thread is found to be exiting, or none is left.
pub open spec fn delivered(
    state: Waiting,
    blocked: SigSet,
    handlers: Seq<Handler>,
    tid: i32,
) -> DeliveryModel
    decreases state.own.len() + state.shared.len(),
{
    proof {
        lemma_next_is_queued(state.own, blocked);
        lemma_next_is_queued(state.shared, blocked);
    }
    match next_signal(state.own, blocked) {
        Some(n) => {
            let at = position(state.own, n, 0);
            let info = state.own[at];
            let rest = Waiting { own: state.own.remove(at), ..state };
            let action = handler_of(handlers, n).action;
            if !state.process.running(tid) {
                DeliveryModel::Done(rest)
            } else if action.sigaction != SIG_DFL && action.sigaction != SIG_IGN {
                DeliveryModel::Run(rest, info, action)
            } else {
                delivered(acted(rest, action, n, tid), blocked, handlers, tid)
            }
        },
        None => match next_signal(state.shared, blocked) {
            Some(n) => {
                let at = position(state.shared, n, 0);
                let info = state.shared[at];
                let rest = Waiting { shared: state.shared.remove(at), ..state };
                let action = handler_of(handlers, n).action;
                if !state.process.running(tid) {
                    DeliveryModel::Done(rest)
                } else if action.sigaction != SIG_DFL && action.sigaction != SIG_IGN {
                    DeliveryModel::Run(rest, info, action)
                } else {
                    delivered(acted(rest, action, n, tid), blocked, handlers, tid)
                }
            },
            None => DeliveryModel::Done(state),
        },
    }
}

/// What a signal without a handler does: if it is fatal and not ignored, the process ends.
pub open spec fn acted(state: Waiting, action: SigAction, signal: int, tid: i32) -> Waiting {
    if action.sigaction == SIG_DFL && is_fatal(signal) {
        Waiting {
            process: state.process.exit_group(tid, ExitStatus::Signal(signal as u32)),
            ..state
        }
    } else {
        state
    }
}

/// The outcome of a delivery.
pub struct Delivery {
    /// Threads to interrupt, since the process ends.
    pub interrupt: Vec<i32>,
    /// The signal and the action whose handler is to be run.
    pub handler: Option<(Siginfo, SigAction)>,
}

/// Acts on the signals that wait, until a handler is to be run or nothing is left to do. After the
/// handler was set up by [`enter_handler`], this is called again.
pub fn process_signals(
    state: &mut SignalState,
    shared: &mut PendingSignals,
    handlers: &SignalHandlers,
    process: &mut Process,
    tid: i32,
) -> (r: Delivery)
    requires
        old(state).well_formed(),
        old(shared).well_formed(),
        handlers.well_formed(),
        old(process).well_formed(),
        old(process)@.threads.contains_key(tid),
    ensures
        final(state).well_formed(),
        final(shared).well_formed(),
        final(process).well_formed(),
        *final(state) == (SignalState { pending: final(state).pending, ..*old(state) }),
        ({
            let after = Waiting {
                own: final(state).pending@,
                shared: final(shared)@,
                process: final(process)@,
            };
            delivered(
                Waiting {
                    own: old(state).pending@,
                    shared: old(shared)@,
                    process: old(process)@,
                },
                old(state).blocked,
                handlers@,
                tid,
            ) == (match r.handler {
                Some((info, action)) => DeliveryModel::Run(after, info, action),
                None => DeliveryModel::Done(after),
            })
        }),
        forall|t: i32| #[trigger]
            r.interrupt@.contains(t) == (final(process)@.group_exit && !old(process)@.group_exit
                && old(process)@.threads.contains_key(t)),
{
    let ghost start = Waiting {
        own: state.pending@,
        shared: shared@,
        process: process@,
    };
    let mut interrupt: Vec<i32> = Vec::new();
    proof {
        process.lemma_consistent();
    }
    loop
        invariant
            start == (Waiting {
                own: old(state).pending@,
                shared: old(shared)@,
                process: old(process)@,
            }),
            state.well_formed(),
            shared.well_formed(),
            handlers.well_formed(),
            process.well_formed(),
            process@.threads.dom() == old(process)@.threads.dom(),
            old(process)@.threads.contains_key(tid),
            process@.group_exit ==> !process@.running(tid),
            old(process)@.group_exit ==> process@.group_exit,
            *state == (SignalState { pending: state.pending, ..*old(state) }),
            delivered(start, old(state).blocked, handlers@, tid) == delivered(
                Waiting { own: state.pending@, shared: shared@, process: process@ },
                old(state).blocked,
                handlers@,
                tid,
            ),
            forall|t: i32| #[trigger]
                interrupt@.contains(t) == (process@.group_exit && !old(process)@.group_exit && old(
                    process,
                )@.threads.contains_key(t)),
        decreases state.pending@.len() + shared@.len(),
    {
        let blocked = state.blocked;
        let info = match state.pending.next(blocked) {
            Some(signal) => state.pending.remove(signal),
            None => match shared.next(blocked) {
                Some(signal) => shared.remove(signal),
                None => return Delivery { interrupt, handler: None },
            },
        };
        if process.is_exiting(tid) {
            return Delivery { interrupt, handler: None };
        }
        let signal = info.signo;
        let action = handlers.get(signal).action;
        if action.sigaction == SIG_DFL {
            match default_disposition(signal) {
                SignalDisposition::Terminate | SignalDisposition::Core | SignalDisposition::Stop => {
                    let ghost before = process@;
                    interrupt = process.exit_group(tid, ExitStatus::Signal(signal));
                    assert(process@.threads.dom() =~= before.threads.dom());
                },
                SignalDisposition::Ignore | SignalDisposition::Continue => {},
            }
        } else if action.sigaction != SIG_IGN {
            return Delivery { interrupt, handler: Some((info, action)) };
        }
    }
}

/// Sets the handler up that [`process_signals`] asked for: its frame stands at `frame_addr`, below
/// [`SignalState::handler_sp`], and `written` tells whether it could be written there. Where that
/// fails, the thread gets `SIGSEGV` instead, which ends the process if it was `SIGSEGV` itself that
/// could not be delivered. The result tells whether the handler runs.
pub fn enter_handler(
    state: &mut SignalState,
    handlers: &mut SignalHandlers,
    limits: &ResourceLimits,
    signal: u32,
    action: &SigAction,
    sp: u64,
    frame_addr: u64,
    written: bool,
) -> (r: bool)
    requires
        limits.well_formed(),
        old(state).well_formed(),
        old(handlers).well_formed(),
        is_signal(signal as int),
    ensures
        final(state).well_formed(),
        final(handlers).well_formed(),
        r == (frame_fits(old(state).altstack, *action, sp, frame_addr) && written),
        r ==> {
            &&& final(handlers)@ == old(handlers)@
            &&& handler_entered(*old(state), signal, *action, *final(state))
        },
        !r ==> forced(
            *old(state),
            old(handlers)@,
            limits.sigpending(),
            signal == SIGSEGV,
            kernel_signal(SIGSEGV),
            *final(state),
            final(handlers)@,
        ),
{
    match state.deliver_signal(signal, action, sp, frame_addr, written) {
        Ok(()) => true,
        Err(_) => {
            state.force_signal(handlers, limits, SIGSEGV, signal == SIGSEGV);
            false
        },
    }
}

/// The state in which a delivery leaves things.
pub open spec fn left(d: DeliveryModel) -> Waiting {
    match d {
        DeliveryModel::Done(w) => w,
        DeliveryModel::Run(w, _, _) => w,
    }
}

/// Taking one signal leaves those with other numbers.
pub proof fn lemma_remove_queued(queue: Seq<Siginfo>, at: int, n: int)
    requires
        0 <= at < queue.len(),
        n != queue[at].signo,
    ensures
        queued(queue.remove(at), n) == queued(queue, n),
{
    let after = queue.remove(at);
    if queued(queue, n) {
        let k = choose|k: int| 0 <= k < queue.len() && (#[trigger] queue[k]).signo == n;
        if k < at {
            assert(after[k].signo == n);
        } else {
            assert(after[k - 1].signo == n);
        }
    }
    if queued(after, n) {
        let k = choose|k: int| 0 <= k < after.len() && (#[trigger] after[k]).signo == n;
        if k < at {
            assert(queue[k].signo == n);
        } else {
            assert(queue[k + 1].signo == n);
        }
    }
}

/// What is delivered next is not blocked, and waits at its place.
pub proof fn lemma_next(queue: Seq<Siginfo>, blocked: SigSet, n: int)
    requires
        next_signal(queue, blocked) == Some(n),
    ensures
        !blocked.has(n),
        queue[position(queue, n, 0)].signo == n,
        0 <= position(queue, n, 0) < queue.len(),
{
    lemma_next_is_queued(queue, blocked);
    let p = |n: int| deliverable(queue, blocked, n) && is_exception(n);
    let q = |n: int| deliverable(queue, blocked, n);
    lemma_lowest_is_lowest(p, 1, 1);
    lemma_lowest_is_lowest(q, 1, 1);
    lemma_position_found(queue, n, 0);
}

proof fn lemma_position_found(queue: Seq<Siginfo>, n: int, from: int)
    requires
        0 <= from,
    ensures
        position(queue, n, from) < queue.len() ==> queue[position(queue, n, from)].signo == n,
    decreases queue.len() - from,
{
    if from < queue.len() && queue[from].signo != n {
        lemma_position_found(queue, n, from + 1);
    }
}

/// A blocked signal stays where it waits, whatever else is delivered.
pub proof fn law_blocked_signals_stay(
    state: Waiting,
    blocked: SigSet,
    handlers: Seq<Handler>,
    tid: i32,
    n: int,
)
    requires
        blocked.has(n),
    ensures
        queued(left(delivered(state, blocked, handlers, tid)).own, n) == queued(state.own, n),
        queued(left(delivered(state, blocked, handlers, tid)).shared, n) == queued(state.shared, n),
    decreases state.own.len() + state.shared.len(),
{
    lemma_next_is_queued(state.own, blocked);
    lemma_next_is_queued(state.shared, blocked);
    match next_signal(state.own, blocked) {
        Some(m) => {
            lemma_next(state.own, blocked, m);
            let at = position(state.own, m, 0);
            lemma_remove_queued(state.own, at, n);
            let rest = Waiting { own: state.own.remove(at), ..state };
            let action = handler_of(handlers, m).action;
            if state.process.running(tid) && (action.sigaction == SIG_DFL || action.sigaction
                == SIG_IGN) {
                law_blocked_signals_stay(acted(rest, action, m, tid), blocked, handlers, tid, n);
            }
        },
        None => match next_signal(state.shared, blocked) {
            Some(m) => {
                lemma_next(state.shared, blocked, m);
                let at = position(state.shared, m, 0);
                lemma_remove_queued(state.shared, at, n);
                let rest = Waiting { shared: state.shared.remove(at), ..state };
                let action = handler_of(handlers, m).action;
                if state.process.running(tid) && (action.sigaction == SIG_DFL || action.sigaction
                    == SIG_IGN) {
                    law_blocked_signals_stay(acted(rest, action, m, tid), blocked, handlers, tid, n);
                }
            },
            None => {},
        },
    }
}

/// Handlers run only in a thread that is not exiting, only for signals that waited and were not
/// blocked, and with the action that stands for the signal. Unless a handler is to be run or the
/// process ends, no signal is left that could be delivered.
pub proof fn law_delivery_is_complete(
    state: Waiting,
    blocked: SigSet,
    handlers: Seq<Handler>,
    tid: i32,
)
    ensures
        match delivered(state, blocked, handlers, tid) {
            DeliveryModel::Run(after, info, action) => {
                &&& state.process == after.process
                &&& state.process.running(tid)
                &&& !blocked.has(info.signo as int)
                &&& queued(state.own, info.signo as int) || queued(state.shared, info.signo as int)
                &&& action == handler_of(handlers, info.signo as int).action
                &&& action.sigaction != SIG_DFL && action.sigaction != SIG_IGN
            },
            DeliveryModel::Done(after) => after.process.running(tid) ==> {
                &&& after.process == state.process
                &&& next_signal(after.own, blocked) is None
                &&& next_signal(after.shared, blocked) is None
            },
        },
    decreases state.own.len() + state.shared.len(),
{
    lemma_next_is_queued(state.own, blocked);
    lemma_next_is_queued(state.shared, blocked);
    match next_signal(state.own, blocked) {
        Some(m) => {
            lemma_next(state.own, blocked, m);
            let at = position(state.own, m, 0);
            let rest = Waiting { own: state.own.remove(at), ..state };
            let action = handler_of(handlers, m).action;
            if state.process.running(tid) && (action.sigaction == SIG_DFL || action.sigaction
                == SIG_IGN) {
                let next = acted(rest, action, m, tid);
                law_delivery_is_complete(next, blocked, handlers, tid);
                if let DeliveryModel::Run(after, info, action) = delivered(
                    next,
                    blocked,
                    handlers,
                    tid,
                ) {
                    lemma_still_queued(state.own, at, info.signo as int);
                }
            }
        },
        None => match next_signal(state.shared, blocked) {
            Some(m) => {
                lemma_next(state.shared, blocked, m);
                let at = position(state.shared, m, 0);
                let rest = Waiting { shared: state.shared.remove(at), ..state };
                let action = handler_of(handlers, m).action;
                if state.process.running(tid) && (action.sigaction == SIG_DFL || action.sigaction
                    == SIG_IGN) {
                    let next = acted(rest, action, m, tid);
                    law_delivery_is_complete(next, blocked, handlers, tid);
                    if let DeliveryModel::Run(after, info, action) = delivered(
                        next,
                        blocked,
                        handlers,
                        tid,
                    ) {
                        lemma_still_queued(state.shared, at, info.signo as int);
                    }
                }
            },
            None => {},
        },
    }
}

proof fn lemma_still_queued(queue: Seq<Siginfo>, at: int, n: int)
    requires
        0 <= at < queue.len(),
    ensures
        queued(queue.remove(at), n) ==> queued(queue, n),
{
    if n == queue[at].signo {
        assert(queued(queue, n));
    } else {
        lemma_remove_queued(queue, at, n);
    }
}

/// A signal that waits, is not blocked, and ends the process by default does so, unless the handler of
/// another signal is to be run first.
pub proof fn law_fatal_signals_end_process(
    state: Waiting,
    blocked: SigSet,
    handlers: Seq<Handler>,
    tid: i32,
    n: int,
)
    requires
        is_signal(n),
        queued(state.own, n) || queued(state.shared, n),
        !blocked.has(n),
        handler_of(handlers, n).action.sigaction == SIG_DFL,
        is_fatal(n),
    ensures
        match delivered(state, blocked, handlers, tid) {
            DeliveryModel::Run(_, info, _) => info.signo != n,
            DeliveryModel::Done(after) => !after.process.running(tid),
        },
    decreases state.own.len() + state.shared.len(),
{
    lemma_next_is_queued(state.own, blocked);
    lemma_next_is_queued(state.shared, blocked);
    law_delivery_is_complete(state, blocked, handlers, tid);
    let own = |n: int| deliverable(state.own, blocked, n);
    let shared = |n: int| deliverable(state.shared, blocked, n);
    lemma_lowest_is_lowest(own, 1, n);
    lemma_lowest_is_lowest(shared, 1, n);
    if queued(state.own, n) {
        assert(own(n));
    } else {
        assert(shared(n));
    }
    match next_signal(state.own, blocked) {
        Some(m) => {
            lemma_next(state.own, blocked, m);
            let at = position(state.own, m, 0);
            let rest = Waiting { own: state.own.remove(at), ..state };
            let action = handler_of(handlers, m).action;
            if state.process.running(tid) && (action.sigaction == SIG_DFL || action.sigaction
                == SIG_IGN) {
                let next = acted(rest, action, m, tid);
                if m == n {
                    law_delivery_is_complete(next, blocked, handlers, tid);
                } else {
                    lemma_remove_queued(state.own, at, n);
                    law_fatal_signals_end_process(next, blocked, handlers, tid, n);
                }
            }
        },
        None => match next_signal(state.shared, blocked) {
            Some(m) => {
                lemma_next(state.shared, blocked, m);
                let at = position(state.shared, m, 0);
                let rest = Waiting { shared: state.shared.remove(at), ..state };
                let action = handler_of(handlers, m).action;
                if state.process.running(tid) && (action.sigaction == SIG_DFL || action.sigaction
                    == SIG_IGN) {
                    let next = acted(rest, action, m, tid);
                    if m == n {
                        law_delivery_is_complete(next, blocked, handlers, tid);
                    } else {
                        lemma_remove_queued(state.shared, at, n);
                        law_fatal_signals_end_process(next, blocked, handlers, tid, n);
                    }
                }
            },
            None => {},
        },
    }
}

/// A forced `SIGSEGV` always reaches the thread: it waits and is not blocked, and its action is not to
/// ignore it. Where the process is to end in any case, its action is the default one for good, so that
/// the process ends unless a handler runs first.
pub proof fn law_forced_signal_is_acted_on(
    before: SignalState,
    handlers_before: Seq<Handler>,
    limit: u64,
    force_exit: bool,
    after: SignalState,
    handlers_after: Seq<Handler>,
)
    requires
        handlers_before.len() == 64,
        forced(
            before,
            handlers_before,
            limit,
            force_exit,
            kernel_signal(SIGSEGV),
            after,
            handlers_after,
        ),
    ensures
        deliverable(after.pending@, after.blocked, SIGSEGV as int),
        handler_of(handlers_after, SIGSEGV as int).action.sigaction != SIG_IGN,
        force_exit ==> handler_of(handlers_after, SIGSEGV as int) == (Handler {
            action: plain_action(SIG_DFL),
            immutable: true,
        }),
{
    law_sent_signals_wait(before.pending@, limit, kernel_signal(SIGSEGV));
}

} // verus!
