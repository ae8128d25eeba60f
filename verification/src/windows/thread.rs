//! Threads on Windows: how they enter and leave guest code, and how they are interrupted.
use vstd::prelude::*;

use crate::lvbs::kernel::ContinueOperation;
use crate::shim::entry::TaskParams;
use crate::shim::signal::{
    ExceptionInfo, EXCEPTION_BREAKPOINT, EXCEPTION_DIVIDE_ERROR, EXCEPTION_INVALID_OPCODE,
    EXCEPTION_PAGE_FAULT,
};
use crate::shim::sigset::{bit_set, is_signal, SigSet};
use crate::shim::thread::PtRegs;

verus! {

/// The registers of a thread, as the system keeps them.
#[derive(Clone, Copy, PartialEq, Eq, Structural, Debug)]
pub struct Context {
    pub rax: u64,
    pub rcx: u64,
    pub rdx: u64,
    pub rbx: u64,
    pub rsp: u64,
    pub rbp: u64,
    pub rsi: u64,
    pub rdi: u64,
    pub r8: u64,
    pub r9: u64,
    pub r10: u64,
    pub r11: u64,
    pub r12: u64,
    pub r13: u64,
    pub r14: u64,
    pub r15: u64,
    pub rip: u64,
    pub eflags: u32,
}

/// The registers of the guest after they were saved: all but the segments, which stay.
pub open spec fn saved(guest: PtRegs, context: Context) -> PtRegs {
    PtRegs {
        r15: context.r15,
        r14: context.r14,
        r13: context.r13,
        r12: context.r12,
        rbp: context.rbp,
        rbx: context.rbx,
        r11: context.r11,
        r10: context.r10,
        r9: context.r9,
        r8: context.r8,
        rax: context.rax,
        rcx: context.rcx,
        rdx: context.rdx,
        rsi: context.rsi,
        rdi: context.rdi,
        orig_rax: context.rax,
        rip: context.rip,
        cs: guest.cs,
        eflags: context.eflags as u64,
        rsp: context.rsp,
        ss: guest.ss,
    }
}

/// Saves the registers of the guest.
pub fn save_guest_context(guest: &mut PtRegs, context: &Context)
    ensures
        *final(guest) == saved(*old(guest), *context),
{
    guest.r15 = context.r15;
    guest.r14 = context.r14;
    guest.r13 = context.r13;
    guest.r12 = context.r12;
    guest.rbp = context.rbp;
    guest.rbx = context.rbx;
    guest.r11 = context.r11;
    guest.r10 = context.r10;
    guest.r9 = context.r9;
    guest.r8 = context.r8;
    guest.rax = context.rax;
    guest.rcx = context.rcx;
    guest.rdx = context.rdx;
    guest.rsi = context.rsi;
    guest.rdi = context.rdi;
    guest.orig_rax = context.rax;
    guest.rip = context.rip;
    guest.eflags = context.eflags as u64;
    guest.rsp = context.rsp;
}

/// The registers with which the guest goes on.
pub open spec fn resumed(guest: PtRegs) -> Context {
    Context {
        rax: guest.rax,
        rcx: guest.rcx,
        rdx: guest.rdx,
        rbx: guest.rbx,
        rsp: guest.rsp,
        rbp: guest.rbp,
        rsi: guest.rsi,
        rdi: guest.rdi,
        r8: guest.r8,
        r9: guest.r9,
        r10: guest.r10,
        r11: guest.r11,
        r12: guest.r12,
        r13: guest.r13,
        r14: guest.r14,
        r15: guest.r15,
        rip: guest.rip,
        eflags: (guest.eflags % 0x1_0000_0000) as u32,
    }
}

/// How the guest goes on.
#[derive(Clone, Copy, PartialEq, Eq, Structural, Debug)]
pub enum SwitchPath {
    /// All registers are loaded one by one. This leaves the address of the next instruction in a
    /// register, where it must have been anyway.
    Direct,
    /// The system sets all registers.
    Full(Context),
}

/// Decides how the guest goes on.
pub fn switch_to_guest(guest: &PtRegs) -> (r: SwitchPath)
    ensures
        r == (if guest.rcx == guest.rip {
            SwitchPath::Direct
        } else {
            SwitchPath::Full(resumed(*guest))
        }),
{
    if guest.rcx == guest.rip {
        SwitchPath::Direct
    } else {
        SwitchPath::Full(
            Context {
                rax: guest.rax,
                rcx: guest.rcx,
                rdx: guest.rdx,
                rbx: guest.rbx,
                rsp: guest.rsp,
                rbp: guest.rbp,
                rsi: guest.rsi,
                rdi: guest.rdi,
                r8: guest.r8,
                r9: guest.r9,
                r10: guest.r10,
                r11: guest.r11,
                r12: guest.r12,
                r13: guest.r13,
                r14: guest.r14,
                r15: guest.r15,
                rip: guest.rip,
                eflags: (guest.eflags % 0x1_0000_0000) as u32,
            },
        )
    }
}

/// A guest that is interrupted and goes on has the registers that it had.
pub proof fn law_registers_survive(guest: PtRegs, context: Context)
    ensures
        resumed(saved(guest, context)) == context,
{
}

/// The exception code of an access to memory that is not allowed.
pub const ACCESS_VIOLATION: u32 = 0xc000_0005;

pub const ILLEGAL_INSTRUCTION: u32 = 0xc000_001d;

pub const BREAKPOINT: u32 = 0x8000_0003;

pub const INT_DIVIDE_BY_ZERO: u32 = 0xc000_0094;

/// A violation of protection that is no page fault.
pub const EXCEPTION_GENERAL_PROTECTION: u8 = 13;

/// What an exception of the system is to the shim. An access violation without an address is a violation
/// of protection, any other one a page fault of user mode; `flag` is zero for reads.
pub open spec fn exception_of(code: u32, flag: u64, address: u64) -> ExceptionInfo {
    let (exception, error_code, cr2) = if code == ACCESS_VIOLATION {
        if flag == 0 && address == u64::MAX {
            (EXCEPTION_GENERAL_PROTECTION, 0u32, 0u64)
        } else {
            (
                EXCEPTION_PAGE_FAULT,
                if flag == 0 {
                    4u32
                } else {
                    6u32
                },
                address,
            )
        }
    } else if code == ILLEGAL_INSTRUCTION {
        (EXCEPTION_INVALID_OPCODE, 0u32, 0u64)
    } else if code == BREAKPOINT {
        (EXCEPTION_BREAKPOINT, 0u32, 0u64)
    } else {
        (EXCEPTION_DIVIDE_ERROR, 0u32, 0u64)
    };
    ExceptionInfo { exception, error_code, cr2, kernel_mode: false }
}

/// What an exception of the system is to the shim.
pub fn exception_handler(code: u32, flag: u64, address: u64) -> (r: ExceptionInfo)
    requires
        code == ACCESS_VIOLATION || code == ILLEGAL_INSTRUCTION || code == BREAKPOINT || code
            == INT_DIVIDE_BY_ZERO,
    ensures
        r == exception_of(code, flag, address),
{
    let (exception, error_code, cr2) = if code == ACCESS_VIOLATION {
        if flag == 0 && address == u64::MAX {
            (EXCEPTION_GENERAL_PROTECTION, 0u32, 0u64)
        } else if flag == 0 {
            (EXCEPTION_PAGE_FAULT, 4u32, address)
        } else {
            (EXCEPTION_PAGE_FAULT, 6u32, address)
        }
    } else if code == ILLEGAL_INSTRUCTION {
        (EXCEPTION_INVALID_OPCODE, 0u32, 0u64)
    } else if code == BREAKPOINT {
        (EXCEPTION_BREAKPOINT, 0u32, 0u64)
    } else {
        (EXCEPTION_DIVIDE_ERROR, 0u32, 0u64)
    };
    ExceptionInfo { exception, error_code, cr2, kernel_mode: false }
}

/// Where a thread enters the shim.
#[derive(Clone, Copy, PartialEq, Eq, Structural, Debug)]
pub struct Callbacks {
    /// For an interrupt.
    pub interrupt: u64,
    /// For an exception.
    pub exception: u64,
}

/// An exception in a thread, as the system reports it.
#[derive(Clone, Copy, PartialEq, Eq, Structural, Debug)]
pub struct Fault {
    pub code: u32,
    /// The address that was set aside for a fault at the instruction.
    pub fixup: Option<u64>,
    /// The base of the thread-local storage of the guest, as the processor has it.
    pub fs_base: u64,
    /// The base of the thread-local storage of the guest, as the thread keeps it.
    pub stored_fs_base: u64,
    /// The size of the record of the exception.
    pub record_size: u64,
}

impl Fault {
    /// The fault may follow from the loss of the base of the thread-local storage, which the system
    /// clears at times.
    pub open spec fn lost_fs_base(self) -> bool {
        self.code == ACCESS_VIOLATION && self.fs_base == 0 && self.stored_fs_base != 0
    }
}

/// What is done about an exception.
#[derive(Clone, Copy, PartialEq, Eq, Structural, Debug)]
pub enum ExceptionPath {
    /// Leave it to other handlers.
    ContinueSearch,
    /// Go on with the registers as they are now.
    ContinueExecution,
    /// Put the record of the exception at the address, then go on with the registers as they are now.
    Exception { record: u64 },
}

/// Where the record of an exception is put: on top of the stack of the host.
pub open spec fn record_address(tls: TlsState, fault: Fault) -> int {
    tls.host_sp - fault.record_size
}

/// What is done about an exception in a thread, and the registers and the state that the thread has
/// then. Only a thread that has run guest code has a state.
pub open spec fn exception_outcome(
    tls: Option<TlsState>,
    context: Context,
    fault: Fault,
    callbacks: Callbacks,
) -> (ExceptionPath, Context, Option<TlsState>) {
    match tls {
        None => (ExceptionPath::ContinueSearch, context, tls),
        Some(state) => if !state.is_in_guest {
            match fault.fixup {
                Some(addr) if fault.code == ACCESS_VIOLATION => (
                    ExceptionPath::ContinueExecution,
                    Context { rip: addr, ..context },
                    tls,
                ),
                _ => (ExceptionPath::ContinueSearch, context, tls),
            }
        } else {
            let left = TlsState { is_in_guest: false, guest: saved(state.guest, context), ..state };
            if fault.lost_fs_base() {
                (
                    ExceptionPath::ContinueExecution,
                    to_interrupt(state, context, callbacks.interrupt),
                    Some(left),
                )
            } else {
                let record = record_address(state, fault);
                (
                    ExceptionPath::Exception { record: record as u64 },
                    Context {
                        rip: callbacks.exception,
                        rsp: (record - record % 16) as u64,
                        rbp: state.host_bp,
                        rdx: record as u64,
                        ..context
                    },
                    Some(left),
                )
            }
        },
    }
}

/// Handles an exception. A thread that was in the guest leaves it, with its registers saved, and enters
/// the shim; a fault that may follow from the loss of the base of the thread-local storage is treated as
/// an interrupt, so that the base is restored.
pub fn vectored_exception_handler(
    tls: &mut Option<TlsState>,
    context: &mut Context,
    fault: Fault,
    callbacks: Callbacks,
) -> (r: ExceptionPath)
    requires
        match *old(tls) {
            Some(state) => state.is_in_guest && !fault.lost_fs_base() ==> fault.record_size
                <= state.host_sp && record_address(state, fault) % 8 == 0,
            None => true,
        },
    ensures
        (r, *final(context), *final(tls)) == exception_outcome(
            *old(tls),
            *old(context),
            fault,
            callbacks,
        ),
{
    let mut state = match *tls {
        Some(state) => state,
        None => return ExceptionPath::ContinueSearch,
    };
    if !state.is_in_guest {
        if fault.code == ACCESS_VIOLATION {
            if let Some(addr) = fault.fixup {
                context.rip = addr;
                return ExceptionPath::ContinueExecution;
            }
        }
        return ExceptionPath::ContinueSearch;
    }
    state.is_in_guest = false;
    save_guest_context(&mut state.guest, &*context);
    *tls = Some(state);
    if fault.code == ACCESS_VIOLATION && fault.fs_base == 0 && fault.stored_fs_base != 0 {
        set_context_to_interrupt_callback(&state, context, callbacks.interrupt);
        return ExceptionPath::ContinueExecution;
    }
    let record: u64 = state.host_sp - fault.record_size;
    context.rip = callbacks.exception;
    context.rsp = record - record % 16;
    context.rbp = state.host_bp;
    context.rdx = record;
    ExceptionPath::Exception { record }
}

/// A guest that an exception took out of the guest has the registers that it had when it goes on.
pub proof fn law_registers_survive_exceptions(
    state: TlsState,
    context: Context,
    fault: Fault,
    callbacks: Callbacks,
)
    requires
        state.is_in_guest,
    ensures
        exception_outcome(Some(state), context, fault, callbacks).2 matches Some(left)
            && !left.is_in_guest && resumed(left.guest) == context,
{
}

/// A range of code.
#[derive(Clone, Copy, PartialEq, Eq, Structural, Debug)]
pub struct CodeRange {
    pub start: u64,
    pub end: u64,
}

impl CodeRange {
    /// The range holds the address.
    pub open spec fn covers(self, ip: u64) -> bool {
        self.start <= ip < self.end
    }

    /// Whether an instruction lies in the range.
    pub fn contains(&self, ip: u64) -> (r: bool)
        ensures
            r == self.covers(ip),
    {
        self.start <= ip && ip < self.end
    }
}

/// Whether an instruction lies in the library of the system or in this program.
pub fn is_in_ntdll_or_this(ip: u64, ntdll: CodeRange, this: CodeRange) -> (r: bool)
    ensures
        r == (ntdll.covers(ip) || this.covers(ip)),
{
    ntdll.contains(ip) || this.contains(ip)
}

/// Whom an interrupt is for.
#[derive(Clone, Copy, PartialEq, Eq, Structural, Debug)]
pub enum InterruptTarget {
    /// The calling thread itself.
    Current,
    /// A thread that is no longer managed.
    Gone,
    /// Another thread, which is to be suspended, looked at and resumed.
    Other,
}

/// What an interrupt starts with: the calling thread gets its mark, for a thread that is gone nothing is
/// done, and any other thread is suspended first. `own` is the state of the calling thread, if it runs
/// guest code.
pub fn interrupt_target(own: &mut Option<TlsState>, is_current: bool, is_managed: bool) -> (r:
    InterruptTarget)
    requires
        is_current ==> *old(own) is Some,
    ensures
        r == (if is_current {
            InterruptTarget::Current
        } else if !is_managed {
            InterruptTarget::Gone
        } else {
            InterruptTarget::Other
        }),
        *final(own) == (match *old(own) {
            Some(state) if is_current => Some(TlsState { interrupt: true, ..state }),
            own => own,
        }),
{
    if is_current {
        if let Some(state) = *own {
            *own = Some(TlsState { interrupt: true, ..state });
        }
        InterruptTarget::Current
    } else if !is_managed {
        InterruptTarget::Gone
    } else {
        InterruptTarget::Other
    }
}

/// Sets the mark of a thread that was suspended. The result says whether the thread is in the guest: if
/// so, its registers are read and handed to [`interrupt_guest`]; otherwise it will see its mark before it
/// goes there, and is resumed.
pub fn interrupt(tls: &mut TlsState) -> (r: bool)
    ensures
        r == old(tls).is_in_guest,
        *final(tls) == (TlsState { interrupt: true, ..*old(tls) }),
{
    tls.interrupt = true;
    tls.is_in_guest
}

/// The parts of the program that a thread may be in when it is suspended.
#[derive(Clone, Copy, PartialEq, Eq, Structural, Debug)]
pub struct CodeMap {
    /// The code that goes on in the guest by loading its registers.
    pub switch_code: CodeRange,
    /// The library of the system.
    pub ntdll: CodeRange,
    /// This program.
    pub this: CodeRange,
}

/// Whether a thread that was suspended in the guest jumps to the interrupt, and the registers and the
/// state that it has then.
pub open spec fn interrupt_outcome(
    tls: TlsState,
    context: Context,
    code: CodeMap,
    callback: u64,
) -> (bool, Context, TlsState) {
    let jump = to_interrupt(tls, context, callback);
    if code.switch_code.covers(context.rip) {
        (true, jump, tls)
    } else if code.ntdll.covers(context.rip) || code.this.covers(context.rip) {
        let continue_context = to_interrupt(tls, tls.continue_context, callback);
        (false, context, TlsState { continue_context, ..tls })
    } else {
        (true, jump, TlsState { guest: saved(tls.guest, context), ..tls })
    }
}

/// A thread that was marked while it was in the guest goes to the interrupt, whatever code it was in, and
/// the shim is entered there. If it ran code of the guest, the registers that it had are kept.
pub proof fn law_interrupt_enters_shim(tls: TlsState, context: Context, code: CodeMap, callback: u64)
    requires
        tls.is_in_guest,
        tls.interrupt,
    ensures
        ({
            let (jumps, registers, state) = interrupt_outcome(tls, context, code, callback);
            &&& jumps ==> registers.rip == callback
            &&& !jumps ==> state.continue_context.rip == callback
            &&& state.after_interrupt() is None
            &&& !code.switch_code.covers(context.rip) && !code.ntdll.covers(context.rip)
                && !code.this.covers(context.rip) ==> resumed(state.guest) == context
        }),
{
}

/// Makes a thread that was suspended in the guest, with its mark set, go to the interrupt. There are
/// three cases.
/// - It is about to go on in the guest, and its registers are saved: it jumps.
/// - It is in code that enters or leaves the guest for the system: the registers that it will go on with
///   are made to lead to the interrupt.
/// - It runs code of the guest: its registers are saved, and it jumps.
///
/// The result says whether the thread gets the new registers.
pub fn interrupt_guest(tls: &mut TlsState, context: &mut Context, code: CodeMap, callback: u64) -> (r:
    bool)
    requires
        old(tls).is_in_guest,
        old(tls).interrupt,
    ensures
        (r, *final(context), *final(tls)) == interrupt_outcome(
            *old(tls),
            *old(context),
            code,
            callback,
        ),
{
    let ip: u64 = context.rip;
    let jump = if code.switch_code.contains(ip) {
        true
    } else if is_in_ntdll_or_this(ip, code.ntdll, code.this) {
        let mut next = tls.continue_context;
        set_context_to_interrupt_callback(&*tls, &mut next, callback);
        tls.continue_context = next;
        false
    } else {
        save_guest_context(&mut tls.guest, &*context);
        true
    };
    if jump {
        set_context_to_interrupt_callback(&*tls, context, callback);
    }
    jump
}

/// Registers that lead to the interrupt, on the stack of the host.
pub open spec fn to_interrupt(tls: TlsState, context: Context, callback: u64) -> Context {
    Context { rip: callback, rsp: tls.host_sp, rbp: tls.host_bp, ..context }
}

/// Makes a thread jump to the interrupt, on the stack of the host.
pub fn set_context_to_interrupt_callback(tls: &TlsState, context: &mut Context, callback: u64)
    ensures
        *final(context) == to_interrupt(*tls, *old(context), callback),
{
    context.rip = callback;
    context.rsp = tls.host_sp;
    context.rbp = tls.host_bp;
}

/// The state of a thread that runs guest code: whether it is in the guest, and whether it is to be
/// interrupted; the signals that the host sent it; where the stack of the host is; the registers of the
/// guest; and those that the system was asked to go on with.
#[derive(Clone, Copy, PartialEq, Eq, Structural, Debug)]
pub struct TlsState {
    pub is_in_guest: bool,
    pub interrupt: bool,
    pub pending_host_signals: u32,
    pub host_sp: u64,
    pub host_bp: u64,
    pub guest: PtRegs,
    pub continue_context: Context,
}

/// Registers that all are zero.
pub open spec fn zero_context() -> Context {
    Context {
        rax: 0,
        rcx: 0,
        rdx: 0,
        rbx: 0,
        rsp: 0,
        rbp: 0,
        rsi: 0,
        rdi: 0,
        r8: 0,
        r9: 0,
        r10: 0,
        r11: 0,
        r12: 0,
        r13: 0,
        r14: 0,
        r15: 0,
        rip: 0,
        eflags: 0,
    }
}

impl Default for Context {
    fn default() -> (r: Self)
        ensures
            r == zero_context(),
    {
        Context {
            rax: 0,
            rcx: 0,
            rdx: 0,
            rbx: 0,
            rsp: 0,
            rbp: 0,
            rsi: 0,
            rdi: 0,
            r8: 0,
            r9: 0,
            r10: 0,
            r11: 0,
            r12: 0,
            r13: 0,
            r14: 0,
            r15: 0,
            rip: 0,
            eflags: 0,
        }
    }
}

impl TlsState {
    /// A thread without marks, which will run a guest with the registers.
    pub fn new(guest: PtRegs) -> (r: TlsState)
        ensures
            r == (TlsState {
                is_in_guest: false,
                interrupt: false,
                pending_host_signals: 0,
                host_sp: 0,
                host_bp: 0,
                guest,
                continue_context: zero_context(),
            }),
    {
        TlsState {
            is_in_guest: false,
            interrupt: false,
            pending_host_signals: 0,
            host_sp: 0,
            host_bp: 0,
            guest,
            continue_context: Context::default(),
        }
    }

    /// The host sent a signal that waits.
    pub open spec fn host_signal(self, signal: int) -> bool {
        1 <= signal <= 32 && bit_set(self.pending_host_signals as u64, (signal - 1) as u64)
    }

    /// Takes the mark for an interrupt, before the shim is entered.
    pub fn take_interrupt(&mut self) -> (r: bool)
        ensures
            r == old(self).interrupt,
            *final(self) == (TlsState { interrupt: false, ..*old(self) }),
    {
        let r = self.interrupt;
        self.interrupt = false;
        r
    }

    /// Notes a signal of the host.
    pub fn deliver_signal(&mut self, signal: u32)
        requires
            1 <= signal <= 32,
        ensures
            *final(self) == (TlsState {
                pending_host_signals: final(self).pending_host_signals,
                ..*old(self)
            }),
            forall|n: int| #[trigger]
                final(self).host_signal(n) == (old(self).host_signal(n) || n == signal),
    {
        let before: u32 = self.pending_host_signals;
        let shift: u32 = signal - 1;
        let bit: u32 = 1u32 << shift;
        self.pending_host_signals = before | bit;
        assert forall|n: int| #[trigger] self.host_signal(n) == (old(self).host_signal(n) || n
            == signal) by {
            if 1 <= n <= 32 {
                let i = (n - 1) as u64;
                let s = (signal - 1) as u32;
                assert(i < 32 && s < 32 ==> ((((before | (1u32 << s)) as u64 >> i) & 1 == 1) == (((
                before as u64 >> i) & 1 == 1) || i == s as u64))) by (bit_vector);
            }
        }
    }

    /// Takes the signals of the host that wait.
    pub fn take_pending_signals(&mut self) -> (r: SigSet)
        ensures
            *final(self) == (TlsState { pending_host_signals: 0, ..*old(self) }),
            forall|n: int| #[trigger] r.has(n) == old(self).host_signal(n),
            forall|n: int| !#[trigger] final(self).host_signal(n),
    {
        let bits: u32 = self.pending_host_signals;
        self.pending_host_signals = 0;
        let r = SigSet { bits: bits as u64 };
        assert forall|n: int| #[trigger] r.has(n) == old(self).host_signal(n) by {
            if is_signal(n) {
                let i = (n - 1) as u64;
                assert(32 <= i && i < 64 ==> ((bits as u64 >> i) & 1 == 0)) by (bit_vector);
            }
        }
        assert forall|n: int| !#[trigger] self.host_signal(n) by {
            if 1 <= n <= 32 {
                let i = (n - 1) as u64;
                assert(i < 32 ==> ((0u32 as u64 >> i) & 1 == 0)) by (bit_vector);
            }
        }
        r
    }

    /// The state after the thread has come to the interrupt.
    pub open spec fn handled(self) -> TlsState {
        TlsState { is_in_guest: false, interrupt: false, ..self }
    }

    /// Whether the shim is entered when the thread has come to the interrupt, or the guest goes on.
    pub open spec fn after_interrupt(self) -> Option<ContinueOperation> {
        if self.interrupt {
            None
        } else {
            Some(ContinueOperation::Resume)
        }
    }

    /// What follows an interrupt: the shim is entered if one was asked for; otherwise only the base of
    /// the thread-local storage was to be restored, and the guest goes on.
    pub fn interrupt_handler(&mut self) -> (r: Option<ContinueOperation>)
        ensures
            *final(self) == old(self).handled(),
            r == old(self).after_interrupt(),
    {
        self.is_in_guest = false;
        if self.take_interrupt() {
            None
        } else {
            Some(ContinueOperation::Resume)
        }
    }
}

/// The threads that run guest code, by numbers, in the order in which they started.
pub struct ActiveThreads {
    ids: Vec<u64>,
}

impl View for ActiveThreads {
    type V = Seq<u64>;

    closed spec fn view(&self) -> Seq<u64> {
        self.ids@
    }
}

impl ActiveThreads {
    /// No threads.
    pub fn new() -> (r: ActiveThreads)
        ensures
            r@ == Seq::<u64>::empty(),
    {
        ActiveThreads { ids: Vec::new() }
    }

    /// Adds a thread.
    pub fn register(&mut self, id: u64)
        ensures
            final(self)@ == old(self)@.push(id),
    {
        self.ids.push(id);
    }

    /// Removes a thread.
    pub fn unregister(&mut self, id: u64)
        ensures
            final(self)@ == old(self)@.filter(|x: u64| x != id),
    {
        let ghost pred = |x: u64| x != id;
        let mut kept: Vec<u64> = Vec::new();
        let mut i: usize = 0;
        proof {
            reveal(Seq::filter);
            assert(self.ids@.take(0).filter(pred) =~= Seq::<u64>::empty());
        }
        while i < self.ids.len()
            invariant
                i <= self.ids@.len(),
                pred == (|x: u64| x != id),
                self.ids@ == old(self).ids@,
                kept@ == self.ids@.take(i as int).filter(pred),
            decreases self.ids@.len() - i,
        {
            let x: u64 = self.ids[i];
            proof {
                reveal(Seq::filter);
                assert(self.ids@.take(i + 1).drop_last() =~= self.ids@.take(i as int));
                assert(self.ids@.take(i + 1).last() == x);
            }
            if x != id {
                kept.push(x);
            }
            i = i + 1;
        }
        assert(self.ids@.take(i as int) =~= self.ids@);
        self.ids = kept;
    }

    /// The thread that gets a signal for the process: the oldest one.
    pub fn pick(&self) -> (r: Option<u64>)
        ensures
            r == (if self@.len() > 0 {
                Some(self@[0])
            } else {
                None
            }),
    {
        if self.ids.len() > 0 {
            Some(self.ids[0])
        } else {
            None
        }
    }
}

/// A thread that has left gets no signals, and all others stay as they were.
pub proof fn law_gone_threads_get_no_signals(threads: Seq<u64>, id: u64, other: u64)
    ensures
        !threads.filter(|x: u64| x != id).contains(id),
        other != id ==> threads.filter(|x: u64| x != id).contains(other) == threads.contains(other),
{
    let pred = |x: u64| x != id;
    let kept = threads.filter(pred);
    if kept.contains(id) {
        let k = choose|k: int| 0 <= k < kept.len() && kept[k] == id;
        threads.lemma_filter_pred(pred, k);
    }
    if other != id && threads.contains(other) {
        let k = choose|k: int| 0 <= k < threads.len() && threads[k] == other;
        threads.lemma_filter_contains(pred, k);
    }
    if kept.contains(other) {
        threads.lemma_filter_contains_rev(pred, other);
    }
}

/// The event of a console that asks a program to stop.
pub const CTRL_C_EVENT: u32 = 0;

/// The signal that an event of the console stands for.
pub fn ctrl_c_handler(ctrl_type: u32) -> (r: Option<u32>)
    ensures
        r == (if ctrl_type == CTRL_C_EVENT {
            Some(2u32)
        } else {
            None
        }),
{
    if ctrl_type == CTRL_C_EVENT {
        Some(crate::shim::sigset::SIGINT)
    } else {
        None
    }
}

/// The parameters of the first task. Users and numbers of the host are not passed through.
pub fn init_task() -> (r: TaskParams)
    ensures
        r == (TaskParams { pid: 1000, ppid: 0, uid: 1000, euid: 1000, gid: 1000, egid: 1000 }),
{
    TaskParams { pid: 1000, ppid: 0, uid: 1000, euid: 1000, gid: 1000, egid: 1000 }
}

} // verus!
