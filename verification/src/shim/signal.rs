//! Signals: handlers, masks, stacks, and their delivery.
use vstd::prelude::*;

use crate::errno::Errno;
use crate::shim::limits::ResourceLimits;
use crate::shim::pending::{
    deliverable, pushed, siginfo_exception, siginfo_kill, user_signal, PendingSignals,
    Siginfo, SI_KERNEL,
};
use crate::shim::sigset::{
    default_disposition, disposition_of, is_signal, lemma_bit_ops, signal_from_i32, SigSet, SignalDisposition,
    SIGFPE, SIGILL, SIGKILL, SIGSEGV, SIGSTOP, SIGTRAP,
};

verus! {

/// The default handler.
pub const SIG_DFL: u64 = 0;

/// The handler that ignores a signal.
pub const SIG_IGN: u64 = 1;

/// Run the handler on the alternate stack.
pub const SA_ONSTACK: u64 = 0x0800_0000;

/// Do not block the signal while its handler runs.
pub const SA_NODEFER: u64 = 0x4000_0000;

/// The size of a signal set in bytes.
pub const SIGSET_BYTES: u64 = 8;

/// What to do on a signal.
#[derive(Clone, Copy, PartialEq, Eq, Structural, Debug)]
pub struct SigAction {
    /// The address of the handler, or [`SIG_DFL`], or [`SIG_IGN`].
    pub sigaction: u64,
    pub restorer: u64,
    pub flags: u64,
    pub mask: SigSet,
}

/// The action of a signal without a handler.
pub open spec fn plain_action(sigaction: u64) -> SigAction {
    SigAction { sigaction, restorer: 0, flags: 0, mask: SigSet { bits: 0 } }
}

/// The action of a signal without a handler.
pub fn action_without_handler(sigaction: u64) -> (r: SigAction)
    ensures
        r == plain_action(sigaction),
{
    SigAction { sigaction, restorer: 0, flags: 0, mask: SigSet { bits: 0 } }
}

/// The action for a signal, and whether users can change it.
#[derive(Clone, Copy, PartialEq, Eq, Structural, Debug)]
pub struct Handler {
    pub action: SigAction,
    pub immutable: bool,
}

/// The actions for all signals.
pub struct SignalHandlers {
    handlers: Vec<Handler>,
}

impl View for SignalHandlers {
    type V = Seq<Handler>;

    closed spec fn view(&self) -> Seq<Handler> {
        self.handlers@
    }
}

/// The handler of a signal among those of all signals.
pub open spec fn handler_of(handlers: Seq<Handler>, signal: int) -> Handler {
    handlers[signal - 1]
}

/// The handler of a program that starts: ignored signals stay ignored, all others get their default
/// actions.
pub open spec fn reset_handler(handler: Handler) -> Handler {
    Handler {
        action: plain_action(
            if handler.action.sigaction == SIG_IGN {
                SIG_IGN
            } else {
                SIG_DFL
            },
        ),
        immutable: handler.immutable,
    }
}

/// The handlers after a request to change or to read the action for a signal, and what the request
/// returns: the action before.
pub open spec fn sigaction_result(
    handlers: Seq<Handler>,
    signal: int,
    act: Option<SigAction>,
) -> (Seq<Handler>, Result<SigAction, Errno>) {
    let old = handler_of(handlers, signal);
    if signal == SIGKILL || signal == SIGSTOP || old.immutable {
        (handlers, Err(Errno::EINVAL))
    } else {
        match act {
            Some(action) => (
                handlers.update(signal - 1, Handler { action, ..old }),
                Ok(old.action),
            ),
            None => (handlers, Ok(old.action)),
        }
    }
}

impl SignalHandlers {
    /// There is a handler for each signal.
    pub open spec fn well_formed(&self) -> bool {
        self@.len() == 64
    }

    /// The handlers of a new process: all signals have their default actions, and those for `SIGKILL`
    /// and `SIGSTOP` cannot be changed.
    pub fn new() -> (r: SignalHandlers)
        ensures
            r.well_formed(),
            forall|n: int|
                is_signal(n) ==> #[trigger] handler_of(r@, n) == (Handler {
                    action: plain_action(SIG_DFL),
                    immutable: n == SIGKILL || n == SIGSTOP,
                }),
    {
        let mut handlers: Vec<Handler> = Vec::new();
        let mut i: u32 = 0;
        while i < 64
            invariant
                i <= 64,
                handlers@.len() == i,
                forall|j: int|
                    0 <= j < i ==> #[trigger] handlers@[j] == (Handler {
                        action: plain_action(SIG_DFL),
                        immutable: j + 1 == SIGKILL || j + 1 == SIGSTOP,
                    }),
            decreases 64 - i,
        {
            handlers.push(
                Handler {
                    action: action_without_handler(SIG_DFL),
                    immutable: i + 1 == SIGKILL || i + 1 == SIGSTOP,
                },
            );
            i = i + 1;
        }
        SignalHandlers { handlers }
    }

    /// The handler of a signal.
    pub fn get(&self, signal: u32) -> (r: Handler)
        requires
            self.well_formed(),
            is_signal(signal as int),
        ensures
            r == handler_of(self@, signal as int),
    {
        self.handlers[signal as usize - 1]
    }

    /// Replaces the handler of a signal.
    fn put(&mut self, signal: u32, handler: Handler)
        requires
            old(self).well_formed(),
            is_signal(signal as int),
        ensures
            final(self).well_formed(),
            final(self)@ == old(self)@.update(signal - 1, handler),
    {
        self.handlers.set(signal as usize - 1, handler);
    }

    /// Makes the handlers those of a program that starts: ignored signals stay ignored, all others get
    /// their default actions.
    pub fn reset_for_exec(&mut self)
        requires
            old(self).well_formed(),
        ensures
            final(self).well_formed(),
            forall|n: int|
                is_signal(n) ==> #[trigger] handler_of(final(self)@, n) == reset_handler(
                    handler_of(old(self)@, n),
                ),
    {
        let ghost before = self.handlers@;
        let mut i: usize = 0;
        while i < self.handlers.len()
            invariant
                i <= self.handlers@.len(),
                self.handlers@.len() == 64,
                before.len() == 64,
                forall|j: int| i <= j < 64 ==> #[trigger] self.handlers@[j] == before[j],
                forall|j: int|
                    0 <= j < i ==> #[trigger] self.handlers@[j] == reset_handler(before[j]),
            decreases 64 - i,
        {
            let old_handler = self.handlers[i];
            let sigaction = if old_handler.action.sigaction == SIG_IGN {
                SIG_IGN
            } else {
                SIG_DFL
            };
            self.handlers.set(
                i,
                Handler {
                    action: action_without_handler(sigaction),
                    immutable: old_handler.immutable,
                },
            );
            i = i + 1;
        }
    }

    /// The action for a signal, unless it is fixed.
    pub fn read_action(&self, signal: u32) -> (r: Result<SigAction, Errno>)
        requires
            self.well_formed(),
            is_signal(signal as int),
        ensures
            r == sigaction_result(self@, signal as int, None).1,
    {
        let handler = self.get(signal);
        if signal == SIGKILL || signal == SIGSTOP || handler.immutable {
            return Err(Errno::EINVAL);
        }
        Ok(handler.action)
    }

    /// Reads, and perhaps changes, the action for a signal. `act` is `Some(None)` where the new action
    /// could not be read. The result is the action before.
    pub fn sys_rt_sigaction(
        &mut self,
        signal: u32,
        act: Option<Option<SigAction>>,
        sigsetsize: u64,
    ) -> (r: Result<SigAction, Errno>)
        requires
            old(self).well_formed(),
            is_signal(signal as int),
        ensures
            final(self).well_formed(),
            ({
                let refused = signal == SIGKILL || signal == SIGSTOP || sigsetsize != SIGSET_BYTES;
                if refused || act == Some(None::<SigAction>) {
                    final(self)@ == old(self)@ && r == Err::<SigAction, _>(
                        if refused {
                            Errno::EINVAL
                        } else {
                            Errno::EFAULT
                        },
                    )
                } else {
                    (final(self)@, r) == sigaction_result(
                        old(self)@,
                        signal as int,
                        match act {
                            Some(a) => a,
                            None => None,
                        },
                    )
                }
            }),
    {
        if signal == SIGKILL || signal == SIGSTOP {
            return Err(Errno::EINVAL);
        }
        if sigsetsize != SIGSET_BYTES {
            return Err(Errno::EINVAL);
        }
        let act = match act {
            Some(Some(act)) => Some(act),
            Some(None) => return Err(Errno::EFAULT),
            None => None,
        };
        let handler = self.get(signal);
        if handler.immutable {
            return Err(Errno::EINVAL);
        }
        if let Some(action) = act {
            self.put(signal, Handler { action, immutable: handler.immutable });
        }
        Ok(handler.action)
    }
}

/// No request changes the action for `SIGKILL` or `SIGSTOP`, nor any action that was fixed.
pub proof fn law_fixed_actions(handlers: Seq<Handler>, signal: int, act: Option<SigAction>, n: int)
    requires
        handlers.len() == 64,
        is_signal(signal),
        is_signal(n),
        n == SIGKILL || n == SIGSTOP || handler_of(handlers, n).immutable,
    ensures
        handler_of(sigaction_result(handlers, signal, act).0, n) == handler_of(handlers, n),
{
}

/// What was set as the action for a signal is what the next request reads, and requests for other
/// signals do not touch it.
pub proof fn law_action_reads_back(
    handlers: Seq<Handler>,
    signal: int,
    act: SigAction,
    other: int,
    other_act: Option<SigAction>,
)
    requires
        handlers.len() == 64,
        is_signal(signal),
        is_signal(other),
        other != signal,
        sigaction_result(handlers, signal, Some(act)).1 is Ok,
    ensures
        ({
            let after = sigaction_result(handlers, signal, Some(act)).0;
            &&& sigaction_result(after, signal, None).1 == Ok::<_, Errno>(act)
            &&& sigaction_result(
                sigaction_result(after, other, other_act).0,
                signal,
                None,
            ).1 == Ok::<_, Errno>(act)
        }),
{
}

/// The alternate stack is not in use.
pub const SS_DISABLE: u32 = 2;

/// The alternate stack is in use right now.
pub const SS_ONSTACK: u32 = 1;

/// Give the alternate stack up when a handler starts.
pub const SS_AUTODISARM: u32 = 0x8000_0000;

/// The smallest alternate stack.
pub const MINSIGSTKSZ: u64 = 2048;

/// An alternate stack for handlers.
#[derive(Clone, Copy, PartialEq, Eq, Structural, Debug)]
pub struct SigAltStack {
    pub sp: u64,
    pub flags: u32,
    pub size: u64,
}

impl SigAltStack {
    /// The stack is in use.
    pub open spec fn enabled(self) -> bool {
        self.flags & SS_DISABLE == 0
    }

    /// The end of a stack in use is an address.
    pub open spec fn well_formed(self) -> bool {
        self.enabled() ==> self.sp + self.size <= u64::MAX
    }

    /// The address belongs to the stack, which is in use.
    pub open spec fn covers(self, sp: u64) -> bool {
        self.enabled() && self.sp <= sp < self.sp + self.size
    }
}

/// No alternate stack.
pub open spec fn no_altstack() -> SigAltStack {
    SigAltStack { sp: 0, flags: SS_DISABLE, size: 0 }
}

/// Whether the address belongs to the stack, which is in use.
pub fn is_on_stack(stack: &SigAltStack, sp: u64) -> (r: bool)
    requires
        stack.well_formed(),
    ensures
        r == stack.covers(sp),
{
    if stack.flags & SS_DISABLE != 0 {
        return false;
    }
    sp >= stack.sp && sp < stack.sp + stack.size
}

/// What a request for an alternate stack comes to.
pub open spec fn altstack_request(ss: SigAltStack) -> Result<SigAltStack, Errno> {
    if ss.flags & !(SS_DISABLE | SS_ONSTACK | SS_AUTODISARM) != 0 {
        Err(Errno::EINVAL)
    } else if ss.flags & SS_DISABLE != 0 {
        Ok(no_altstack())
    } else if ss.sp + ss.size > u64::MAX {
        Err(Errno::EINVAL)
    } else if ss.size < MINSIGSTKSZ {
        Err(Errno::ENOMEM)
    } else {
        Ok(SigAltStack { sp: ss.sp, flags: ss.flags & SS_AUTODISARM, size: ss.size })
    }
}

/// How a set of signals changes the signals that are blocked.
#[derive(Clone, Copy, PartialEq, Eq, Structural, Debug)]
pub enum SigmaskHow {
    Block,
    Unblock,
    SetMask,
}

/// The signals that are blocked after a request.
pub open spec fn masked(how: SigmaskHow, blocked: SigSet, set: SigSet) -> SigSet {
    match how {
        SigmaskHow::Block => SigSet { bits: blocked.bits | set.bits },
        SigmaskHow::Unblock => SigSet { bits: blocked.bits & !set.bits },
        SigmaskHow::SetMask => set,
    }
}

/// The signals that are blocked after a request.
pub fn change_mask(how: SigmaskHow, blocked: SigSet, set: SigSet) -> (r: SigSet)
    ensures
        r == masked(how, blocked, set),
{
    match how {
        SigmaskHow::Block => blocked.union(set),
        SigmaskHow::Unblock => blocked.difference(set),
        SigmaskHow::SetMask => set,
    }
}

/// What a request about the blocked signals comes to.
#[derive(Clone, Copy, PartialEq, Eq, Structural, Debug)]
pub struct MaskChange {
    /// The signals that are blocked before.
    pub old: SigSet,
    /// The signals that are blocked after it.
    pub new: SigSet,
}

/// What a request about the alternate stack comes to.
#[derive(Clone, Copy, PartialEq, Eq, Debug)]
pub struct AltStackPlan {
    /// The stack to write, where the caller wants it.
    pub old: Option<SigAltStack>,
    /// Whether a new stack is then read and set, or why it cannot be.
    pub set: Result<bool, Errno>,
}

/// The alternate stack as a caller sees it: with a mark if the stack pointer is on it.
pub open spec fn seen_altstack(altstack: SigAltStack, sp: u64) -> SigAltStack {
    if altstack.covers(sp) {
        SigAltStack { flags: altstack.flags | SS_ONSTACK, ..altstack }
    } else {
        altstack
    }
}

/// What a request about the alternate stack comes to.
pub open spec fn altstack_plan(altstack: SigAltStack, sp: u64, wants_old: bool, sets: bool) -> AltStackPlan {
    AltStackPlan {
        old: if wants_old {
            Some(seen_altstack(altstack, sp))
        } else {
            None
        },
        set: if sets && altstack.covers(sp) {
            Err(Errno::EPERM)
        } else {
            Ok(sets)
        },
    }
}

/// A signal is blocked after a request if it was and is not taken out, or is put in.
pub proof fn law_masked_signals(how: SigmaskHow, blocked: SigSet, set: SigSet, n: int)
    ensures
        masked(how, blocked, set).has(n) == (match how {
            SigmaskHow::Block => blocked.has(n) || set.has(n),
            SigmaskHow::Unblock => blocked.has(n) && !set.has(n),
            SigmaskHow::SetMask => set.has(n),
        }),
{
    if is_signal(n) {
        lemma_bit_ops(blocked.bits, set.bits, (n - 1) as u64, 0);
    }
}

/// An exception of the processor.
#[derive(Clone, Copy, PartialEq, Eq, Structural, Debug)]
pub struct ExceptionInfo {
    pub exception: u8,
    pub error_code: u32,
    pub cr2: u64,
    pub kernel_mode: bool,
}

/// Division by zero.
pub const EXCEPTION_DIVIDE_ERROR: u8 = 0;

/// A breakpoint.
pub const EXCEPTION_BREAKPOINT: u8 = 3;

/// An instruction that does not exist.
pub const EXCEPTION_INVALID_OPCODE: u8 = 6;

/// An access to memory that is not there or not allowed.
pub const EXCEPTION_PAGE_FAULT: u8 = 14;

/// The signal state of a thread.
pub struct SignalState {
    pub pending: PendingSignals,
    pub blocked: SigSet,
    pub altstack: SigAltStack,
    pub last_exception: ExceptionInfo,
}

/// A frame that could not be delivered.
#[derive(Clone, Copy, PartialEq, Eq, Structural, Debug)]
pub struct DeliverFault;

/// The stack pointer on which a handler starts: the end of the alternate stack, where the action asks
/// for it, there is one, and the thread is not on it already.
pub open spec fn handler_stack(altstack: SigAltStack, action: SigAction, sp: u64) -> u64 {
    if action.flags & SA_ONSTACK != 0 && !altstack.covers(sp) && altstack.enabled() {
        (altstack.sp + altstack.size) as u64
    } else {
        sp
    }
}

/// A frame fits: where a handler runs on the alternate stack, so does its frame lie.
pub open spec fn frame_fits(
    altstack: SigAltStack,
    action: SigAction,
    sp: u64,
    frame_addr: u64,
) -> bool {
    let switched = action.flags & SA_ONSTACK != 0 && !altstack.covers(sp) && altstack.enabled();
    (switched || altstack.covers(sp)) ==> altstack.covers(frame_addr)
}

/// The information on a signal that the kernel raised without an address.
pub open spec fn kernel_signal(signal: u32) -> Siginfo {
    Siginfo { signo: signal, errno: 0, code: SI_KERNEL, addr: 0 }
}

/// A signal was forced on a thread: it waits, and if it was blocked or ignored, or is to end the
/// process in any case, it is not blocked any more and has its default action for good.
pub open spec fn forced(
    before: SignalState,
    handlers_before: Seq<Handler>,
    limit: u64,
    force_exit: bool,
    info: Siginfo,
    after: SignalState,
    handlers_after: Seq<Handler>,
) -> bool {
    let signal = info.signo as int;
    &&& after.pending@ == pushed(before.pending@, limit, info)
    &&& after.altstack == before.altstack
    &&& after.last_exception == before.last_exception
    &&& if force_exit || before.blocked.has(signal) || handler_of(
        handlers_before,
        signal,
    ).action.sigaction == SIG_IGN {
        &&& forall|n: int| #[trigger]
            after.blocked.has(n) == (before.blocked.has(n) && n != signal)
        &&& handlers_after == handlers_before.update(
            signal - 1,
            Handler { action: plain_action(SIG_DFL), immutable: true },
        )
    } else {
        after.blocked == before.blocked && handlers_after == handlers_before
    }
}

impl SignalState {
    /// The queue is in order, and so is the alternate stack.
    pub open spec fn well_formed(&self) -> bool {
        self.pending.well_formed() && self.altstack.well_formed()
    }

    /// The state of the first thread of a process.
    pub fn new_process() -> (r: SignalState)
        ensures
            r.well_formed(),
            r.pending@ == Seq::<Siginfo>::empty(),
            r.blocked == (SigSet { bits: 0 }),
            r.altstack == no_altstack(),
            r.last_exception == (ExceptionInfo {
                exception: 0,
                error_code: 0,
                cr2: 0,
                kernel_mode: false,
            }),
    {
        proof {
            lemma_disabled();
        }
        SignalState {
            pending: PendingSignals::new(),
            blocked: SigSet { bits: 0 },
            altstack: SigAltStack { sp: 0, flags: SS_DISABLE, size: 0 },
            last_exception: ExceptionInfo {
                exception: 0,
                error_code: 0,
                cr2: 0,
                kernel_mode: false,
            },
        }
    }

    /// The state of a thread that this one clones: blocked signals stay blocked, nothing waits, and
    /// there is no alternate stack.
    pub fn clone_for_new_task(&self) -> (r: SignalState)
        ensures
            r.well_formed(),
            r.pending@ == Seq::<Siginfo>::empty(),
            r.blocked == self.blocked,
            r.altstack == no_altstack(),
            r.last_exception == self.last_exception,
    {
        proof {
            lemma_disabled();
        }
        SignalState {
            pending: PendingSignals::new(),
            blocked: self.blocked,
            altstack: SigAltStack { sp: 0, flags: SS_DISABLE, size: 0 },
            last_exception: self.last_exception,
        }
    }

    /// Gives the alternate stack up.
    pub fn clear_sigaltstack(&mut self)
        requires
            old(self).well_formed(),
        ensures
            final(self).well_formed(),
            *final(self) == (SignalState { altstack: no_altstack(), ..*old(self) }),
    {
        proof {
            lemma_disabled();
        }
        self.altstack = SigAltStack { sp: 0, flags: SS_DISABLE, size: 0 };
    }

    /// Sets the alternate stack.
    pub fn set_sigaltstack(&mut self, ss: SigAltStack) -> (r: Result<(), Errno>)
        requires
            old(self).well_formed(),
        ensures
            final(self).well_formed(),
            match altstack_request(ss) {
                Ok(altstack) => r is Ok && *final(self) == (SignalState { altstack, ..*old(self) }),
                Err(e) => r == Err::<(), _>(e) && *final(self) == *old(self),
            },
    {
        if ss.flags & !(SS_DISABLE | SS_ONSTACK | SS_AUTODISARM) != 0 {
            Err(Errno::EINVAL)
        } else if ss.flags & SS_DISABLE != 0 {
            self.clear_sigaltstack();
            Ok(())
        } else if ss.sp.checked_add(ss.size).is_none() {
            Err(Errno::EINVAL)
        } else if ss.size < MINSIGSTKSZ {
            Err(Errno::ENOMEM)
        } else {
            self.altstack =
            SigAltStack { sp: ss.sp, flags: ss.flags & SS_AUTODISARM, size: ss.size };
            Ok(())
        }
    }

    /// The alternate stack as the caller sees it: with a mark if the stack pointer is on it.
    pub fn old_altstack(&self, sp: u64) -> (r: SigAltStack)
        requires
            self.well_formed(),
        ensures
            r == seen_altstack(self.altstack, sp),
    {
        let mut r = self.altstack;
        if is_on_stack(&r, sp) {
            r.flags = r.flags | SS_ONSTACK;
        }
        r
    }

    /// Decides a request about the alternate stack, of a caller whose stack pointer is `sp`: what is
    /// written first, where the caller wants the stack as it is, and whether it can then be set, with
    /// [`SignalState::set_sigaltstack`], where the caller gives a new one. A stack on which the caller
    /// runs cannot be set.
    pub fn sys_sigaltstack(&self, sp: u64, wants_old: bool, sets: bool) -> (r: AltStackPlan)
        requires
            self.well_formed(),
        ensures
            r == altstack_plan(self.altstack, sp, wants_old, sets),
    {
        let on_stack = is_on_stack(&self.altstack, sp);
        let old = if wants_old {
            Some(self.old_altstack(sp))
        } else {
            None
        };
        let set = if sets && on_stack {
            Err(Errno::EPERM)
        } else {
            Ok(sets)
        };
        AltStackPlan { old, set }
    }

    /// Decides a request about the signals that are blocked. `set` is `Some(None)` where the set could
    /// not be read. The result is the set to write where the caller wants the one before, and the set to
    /// block once that was written, with [`SignalState::set_signal_mask`].
    pub fn sys_rt_sigprocmask(
        &self,
        how: SigmaskHow,
        set: Option<Option<SigSet>>,
        sigsetsize: u64,
    ) -> (r: Result<MaskChange, Errno>)
        ensures
            r == (if sigsetsize != SIGSET_BYTES {
                Err(Errno::EINVAL)
            } else {
                match set {
                    Some(None) => Err(Errno::EFAULT),
                    Some(Some(s)) => Ok(
                        MaskChange { old: self.blocked, new: masked(how, self.blocked, s) },
                    ),
                    None => Ok(MaskChange { old: self.blocked, new: self.blocked }),
                }
            }),
    {
        if sigsetsize != SIGSET_BYTES {
            return Err(Errno::EINVAL);
        }
        let new = match set {
            Some(Some(set)) => change_mask(how, self.blocked, set),
            Some(None) => return Err(Errno::EFAULT),
            None => self.blocked,
        };
        Ok(MaskChange { old: self.blocked, new })
    }

    /// Blocks exactly the signals of a set.
    pub fn set_signal_mask(&mut self, mask: SigSet)
        ensures
            *final(self) == (SignalState { blocked: mask, ..*old(self) }),
    {
        self.blocked = mask;
    }

    /// The stack pointer below which the frame of a handler is put.
    pub fn handler_sp(&self, action: &SigAction, sp: u64) -> (r: u64)
        requires
            self.well_formed(),
        ensures
            r == handler_stack(self.altstack, *action, sp),
    {
        let on_alt_stack = is_on_stack(&self.altstack, sp);
        if action.flags & SA_ONSTACK != 0 && !on_alt_stack && self.altstack.flags & SS_DISABLE
            == 0 {
            self.altstack.sp + self.altstack.size
        } else {
            sp
        }
    }

    /// Whether a frame at the address can be used for a handler.
    pub fn accepts_frame(&self, action: &SigAction, sp: u64, frame_addr: u64) -> (r: bool)
        requires
            self.well_formed(),
        ensures
            r == frame_fits(self.altstack, *action, sp, frame_addr),
    {
        let on_alt_stack = is_on_stack(&self.altstack, sp);
        let switched = action.flags & SA_ONSTACK != 0 && !on_alt_stack && self.altstack.flags
            & SS_DISABLE == 0;
        !(switched || on_alt_stack) || is_on_stack(&self.altstack, frame_addr)
    }

    /// Delivers a signal to its handler. The frame for it stands at `frame_addr`, below
    /// [`SignalState::handler_sp`]; `written` tells whether it could be written there.
    pub fn deliver_signal(
        &mut self,
        signal: u32,
        action: &SigAction,
        sp: u64,
        frame_addr: u64,
        written: bool,
    ) -> (r: Result<(), DeliverFault>)
        requires
            old(self).well_formed(),
            is_signal(signal as int),
        ensures
            final(self).well_formed(),
            if frame_fits(old(self).altstack, *action, sp, frame_addr) && written {
                r is Ok && handler_entered(*old(self), signal, *action, *final(self))
            } else {
                r is Err && *final(self) == *old(self)
            },
    {
        if !self.accepts_frame(action, sp, frame_addr) {
            return Err(DeliverFault);
        }
        if !written {
            return Err(DeliverFault);
        }
        let mut mask = self.blocked.union(action.mask);
        if action.flags & SA_NODEFER == 0 {
            mask.add_signal(signal);
        }
        self.blocked = mask;
        if self.altstack.flags & SS_AUTODISARM != 0 {
            self.clear_sigaltstack();
        }
        Ok(())
    }

    /// Whether a signal that is sent now would have no effect: it is ignored, and not blocked.
    pub fn is_signal_ignored(&self, handlers: &SignalHandlers, signal: u32) -> (r: bool)
        requires
            handlers.well_formed(),
            is_signal(signal as int),
        ensures
            r == ignores(self.blocked, handlers@, signal as int),
    {
        if signal == SIGKILL || signal == SIGSTOP {
            return false;
        }
        if self.blocked.contains(signal) {
            return false;
        }
        let sigaction = handlers.get(signal).action.sigaction;
        if sigaction == SIG_IGN {
            true
        } else if sigaction == SIG_DFL {
            default_disposition(signal) == SignalDisposition::Ignore
        } else {
            false
        }
    }

    /// Sends a signal to this thread.
    pub fn send_signal(&mut self, handlers: &SignalHandlers, limits: &ResourceLimits, info: Siginfo)
        requires
            limits.well_formed(),
            old(self).well_formed(),
            handlers.well_formed(),
            is_signal(info.signo as int),
        ensures
            final(self).well_formed(),
            *final(self) == (SignalState { pending: final(self).pending, ..*old(self) }),
            final(self).pending@ == sent(
                old(self).pending@,
                old(self).blocked,
                handlers@,
                limits.sigpending(),
                info,
            ),
    {
        if self.is_signal_ignored(handlers, info.signo) {
            return;
        }
        self.pending.push(limits, info);
    }

    /// Sends a signal to the process of this thread.
    pub fn send_shared_signal(
        &self,
        shared: &mut PendingSignals,
        handlers: &SignalHandlers,
        limits: &ResourceLimits,
        info: Siginfo,
    )
        requires
            limits.well_formed(),
            old(shared).well_formed(),
            handlers.well_formed(),
            is_signal(info.signo as int),
        ensures
            final(shared).well_formed(),
            final(shared)@ == sent(old(shared)@, self.blocked, handlers@, limits.sigpending(), info),
    {
        if self.is_signal_ignored(handlers, info.signo) {
            return;
        }
        shared.push(limits, info);
    }

    /// Sends a signal to a process, a thread, or a thread of a process; only the caller itself can be
    /// named.
    pub fn do_kill(
        &mut self,
        handlers: &SignalHandlers,
        limits: &ResourceLimits,
        own_pid: i32,
        own_tid: i32,
        pid: Option<i32>,
        tid: Option<i32>,
        signal: i32,
    ) -> (r: Result<(), Errno>)
        requires
            limits.well_formed(),
            old(self).well_formed(),
            handlers.well_formed(),
        ensures
            final(self).well_formed(),
            *final(self) == (SignalState { pending: final(self).pending, ..*old(self) }),
            r == (if !is_signal(signal as int) {
                Err(Errno::EINVAL)
            } else if (pid matches Some(p) && p != own_pid) || (tid matches Some(t) && t
                != own_tid) {
                Err(Errno::ESRCH)
            } else {
                Ok(())
            }),
            final(self).pending@ == (if r is Ok {
                sent(
                    old(self).pending@,
                    old(self).blocked,
                    handlers@,
                    limits.sigpending(),
                    user_signal(signal as u32),
                )
            } else {
                old(self).pending@
            }),
    {
        let signal = match signal_from_i32(signal) {
            Ok(signal) => signal,
            Err(e) => return Err(e),
        };
        let same_pid = match pid {
            Some(p) => p == own_pid,
            None => true,
        };
        let same_tid = match tid {
            Some(t) => t == own_tid,
            None => true,
        };
        if same_pid && same_tid {
            self.send_signal(handlers, limits, siginfo_kill(signal));
            Ok(())
        } else {
            Err(Errno::ESRCH)
        }
    }

    /// Whether a signal waits that is not blocked, for the thread or for its process.
    pub fn has_pending_signals(&self, shared: &PendingSignals) -> (r: bool)
        requires
            self.well_formed(),
            shared.well_formed(),
        ensures
            r == (exists|n: int| #[trigger]
                deliverable(self.pending@, self.blocked, n) || deliverable(
                    shared@,
                    self.blocked,
                    n,
                )),
    {
        let set = self.pending_signal_set(shared);
        let r = !set.is_empty();
        proof {
            if r {
                let n = choose|n: int| #[trigger] set.has(n);
                assert(deliverable(self.pending@, self.blocked, n) || deliverable(
                    shared@,
                    self.blocked,
                    n,
                ));
            } else {
                assert forall|n: int| #![trigger deliverable(self.pending@, self.blocked, n)]
                    !(deliverable(self.pending@, self.blocked, n) || deliverable(
                        shared@,
                        self.blocked,
                        n,
                    )) by {
                    assert(!set.has(n));
                }
            }
        }
        r
    }

    /// The signals that wait and are not blocked.
    pub fn pending_signal_set(&self, shared: &PendingSignals) -> (r: SigSet)
        requires
            self.well_formed(),
            shared.well_formed(),
        ensures
            forall|n: int| #[trigger]
                r.has(n) == (deliverable(self.pending@, self.blocked, n) || deliverable(
                    shared@,
                    self.blocked,
                    n,
                )),
    {
        let thread = self.pending.pending_set().difference(self.blocked);
        let process = shared.pending_set().difference(self.blocked);
        thread.union(process)
    }

    /// Makes sure that a signal is acted on, as [`SignalState::force_signal_with_info`] does.
    pub fn force_signal(
        &mut self,
        handlers: &mut SignalHandlers,
        limits: &ResourceLimits,
        signal: u32,
        force_exit: bool,
    )
        requires
            limits.well_formed(),
            old(self).well_formed(),
            old(handlers).well_formed(),
            signal == SIGKILL || signal == SIGSEGV,
        ensures
            final(self).well_formed(),
            final(handlers).well_formed(),
            forced(
                *old(self),
                old(handlers)@,
                limits.sigpending(),
                force_exit,
                kernel_signal(signal),
                *final(self),
                final(handlers)@,
            ),
    {
        self.force_signal_with_info(handlers, limits, force_exit, siginfo_exception(signal, 0));
    }

    /// Makes sure that a signal is acted on: it is queued, and if it is blocked or ignored, or
    /// `force_exit` is set, it is unblocked and gets its default action for good.
    pub fn force_signal_with_info(
        &mut self,
        handlers: &mut SignalHandlers,
        limits: &ResourceLimits,
        force_exit: bool,
        info: Siginfo,
    )
        requires
            limits.well_formed(),
            old(self).well_formed(),
            old(handlers).well_formed(),
            info.signo == SIGKILL || info.signo == SIGSEGV,
        ensures
            final(self).well_formed(),
            final(handlers).well_formed(),
            forced(*old(self), old(handlers)@, limits.sigpending(), force_exit, info, *final(self), final(handlers)@),
    {
        let signal = info.signo;
        self.pending.push(limits, info);
        let handler = handlers.get(signal);
        if force_exit || self.blocked.contains(signal) || handler.action.sigaction == SIG_IGN {
            let mut blocked = self.blocked;
            blocked.remove(signal);
            self.blocked = blocked;
            handlers.put(
                signal,
                Handler { action: action_without_handler(SIG_DFL), immutable: true },
            );
        }
    }

    /// Reports an exception to the thread as a signal. Exceptions that stand for other signals than
    /// `SIGSEGV` cannot be forced.
    pub fn handle_exception_request(
        &mut self,
        handlers: &mut SignalHandlers,
        limits: &ResourceLimits,
        info: ExceptionInfo,
    )
        requires
            limits.well_formed(),
            old(self).well_formed(),
            old(handlers).well_formed(),
            exception_signal_of(info.exception) == SIGSEGV,
        ensures
            final(self).well_formed(),
            final(handlers).well_formed(),
            forced(
                SignalState { last_exception: info, ..*old(self) },
                old(handlers)@,
                limits.sigpending(),
                false,
                Siginfo {
                    signo: SIGSEGV,
                    errno: 0,
                    code: SI_KERNEL,
                    addr: if info.exception == EXCEPTION_PAGE_FAULT {
                        info.cr2
                    } else {
                        0
                    },
                },
                *final(self),
                final(handlers)@,
            ),
    {
        let signal = exception_signal(info.exception);
        let fault_address = if info.exception == EXCEPTION_PAGE_FAULT {
            info.cr2
        } else {
            0
        };
        self.last_exception = info;
        self.force_signal_with_info(
            handlers,
            limits,
            false,
            siginfo_exception(signal, fault_address),
        );
    }

    /// Returns from a handler. `saved` is what its frame kept: the alternate stack and the signals
    /// that were blocked; `None` where the frame could not be read.
    pub fn sys_rt_sigreturn(
        &mut self,
        handlers: &mut SignalHandlers,
        limits: &ResourceLimits,
        saved: Option<(SigAltStack, SigSet)>,
    ) -> (r: Result<(), Errno>)
        requires
            limits.well_formed(),
            old(self).well_formed(),
            old(handlers).well_formed(),
        ensures
            final(self).well_formed(),
            final(handlers).well_formed(),
            match saved {
                Some((stack, mask)) => r is Ok && final(handlers)@ == old(handlers)@
                    && *final(self) == (SignalState {
                    blocked: mask,
                    altstack: match altstack_request(stack) {
                        Ok(altstack) => altstack,
                        Err(_) => old(self).altstack,
                    },
                    ..*old(self)
                }),
                None => r == Err::<(), _>(Errno::EFAULT) && forced(
                    *old(self),
                    old(handlers)@,
                    limits.sigpending(),
                    false,
                    kernel_signal(SIGSEGV),
                    *final(self),
                    final(handlers)@,
                ),
            },
    {
        match saved {
            Some((stack, mask)) => {
                let _ = self.set_sigaltstack(stack);
                self.blocked = mask;
                Ok(())
            },
            None => {
                self.force_signal(handlers, limits, SIGSEGV, false);
                Err(Errno::EFAULT)
            },
        }
    }
}

proof fn lemma_disabled()
    ensures
        SS_DISABLE & SS_DISABLE != 0,
{
    assert(2u32 & 2u32 != 0) by (bit_vector);
}

/// A signal that is sent has no effect: it is neither `SIGKILL` nor `SIGSTOP`, it is not blocked, and
/// it is ignored, by choice or by default.
pub open spec fn ignores(blocked: SigSet, handlers: Seq<Handler>, signal: int) -> bool {
    let sigaction = handler_of(handlers, signal).action.sigaction;
    &&& signal != SIGKILL
    &&& signal != SIGSTOP
    &&& !blocked.has(signal)
    &&& sigaction == SIG_IGN || (sigaction == SIG_DFL && disposition_of(signal)
        == SignalDisposition::Ignore)
}

/// A thread that has entered the handler of a signal blocks that signal, unless the action says
/// otherwise, and those of the action's mask; an alternate stack that disarms itself is gone.
pub open spec fn handler_entered(
    before: SignalState,
    signal: u32,
    action: SigAction,
    after: SignalState,
) -> bool {
    &&& after.pending == before.pending
    &&& after.last_exception == before.last_exception
    &&& forall|n: int| #[trigger]
        after.blocked.has(n) == (before.blocked.has(n) || action.mask.has(n) || (n == signal
            && action.flags & SA_NODEFER == 0))
    &&& after.altstack == (if before.altstack.flags & SS_AUTODISARM != 0 {
        no_altstack()
    } else {
        before.altstack
    })
}

/// The signals that wait after one was sent.
pub open spec fn sent(
    queue: Seq<Siginfo>,
    blocked: SigSet,
    handlers: Seq<Handler>,
    limit: u64,
    info: Siginfo,
) -> Seq<Siginfo> {
    if ignores(blocked, handlers, info.signo as int) {
        queue
    } else {
        pushed(queue, limit, info)
    }
}

/// The signal that stands for an exception.
pub open spec fn exception_signal_of(exception: u8) -> u32 {
    if exception == EXCEPTION_DIVIDE_ERROR {
        SIGFPE
    } else if exception == EXCEPTION_BREAKPOINT {
        SIGTRAP
    } else if exception == EXCEPTION_INVALID_OPCODE {
        SIGILL
    } else {
        SIGSEGV
    }
}

/// The signal that stands for an exception.
pub fn exception_signal(exception: u8) -> (r: u32)
    ensures
        r == exception_signal_of(exception),
{
    if exception == EXCEPTION_DIVIDE_ERROR {
        SIGFPE
    } else if exception == EXCEPTION_BREAKPOINT {
        SIGTRAP
    } else if exception == EXCEPTION_INVALID_OPCODE {
        SIGILL
    } else {
        SIGSEGV
    }
}

} // verus!
