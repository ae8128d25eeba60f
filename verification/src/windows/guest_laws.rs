//! What guest code sees on Windows: the permissions of its memory, its registers and its exceptions.
use vstd::prelude::*;

use crate::lvbs::kernel::FixedAddressBehavior;
use crate::lvbs::paging::VmFlags;
use crate::shim::thread::PtRegs;
use crate::time::Duration;
use crate::windows::memory::{
    alloc_start, granule_down, granule_up, piece_len, power_from, protection_of, AllocPhase,
    AllocatePages, MemAction, MemReply, Region, RegionState,
};
use crate::windows::thread::{
    exception_of, exception_outcome, interrupt_outcome, resumed, saved, Callbacks, CodeMap, Context,
    ExceptionPath, Fault, TlsState,
};
use crate::windows::time::{due_value, intervals, DueTime};

verus! {

/// The protection of pages for each set of permissions, as the system numbers it. There is no
/// protection that allows writing or executing without reading.
pub proof fn law_protections(flags: VmFlags)
    ensures
        flags.execute && flags.write ==> protection_of(flags) == 0x40,
        flags.execute && !flags.write ==> protection_of(flags) == 0x20,
        !flags.execute && flags.write ==> protection_of(flags) == 0x04,
        !flags.execute && !flags.write && flags.read ==> protection_of(flags) == 0x02,
        !flags.execute && !flags.write && !flags.read ==> protection_of(flags) == 0x01,
{
}

/// An allocation without an address takes place anywhere. One with an address first looks whether its
/// range is in use, from its beginning; one of no pages is done at once.
pub proof fn law_allocations_start(
    start: u64,
    end: u64,
    protection: u32,
    populate: bool,
    behavior: FixedAddressBehavior,
    granularity: u64,
)
    ensures
        ({
            let m = alloc_start(start, end, protection, populate, behavior, granularity);
            &&& m.start == start && m.end == end && m.protection == protection
            &&& m.populate == populate && m.behavior == behavior && m.granularity == granularity
            &&& start == 0 ==> m.phase is ReserveAnywhere
            &&& 0 < start < end ==> m.phase == (AllocPhase::Probe { at: start })
            &&& start != 0 && start >= end ==> m.phase == (AllocPhase::Done { at: start })
        }),
{
}

/// Pages are put where they were asked for, with the protection that was asked for, and are brought
/// into memory if that was asked for; only then comes the rest of the range.
pub proof fn law_pages_are_committed_as_asked(m: AllocatePages, at: u64, len: u64)
    requires
        m.well_formed(),
        m.phase == (AllocPhase::Commit { at, len }),
    ensures
        ({
            let next = m.spec_advance(MemReply::Done);
            let behind = if m.populate {
                next.spec_advance(MemReply::Done)
            } else {
                next
            };
            &&& m.spec_action() == (MemAction::Commit { addr: at, len, protection: m.protection })
            &&& m.populate ==> next.spec_action() == (MemAction::Prefetch { addr: at, len })
            &&& at + len < m.end ==> behind.spec_action() == (MemAction::Query {
                addr: (at + len) as u64,
            })
            &&& at + len == m.end ==> behind.phase == (AllocPhase::Done { at: m.start })
        }),
{
}

/// A region is prepared for new pages as its state demands: what is in use is given back, what is
/// free is reserved in whole granules, and what is reserved is ready. Only the part of it that lies
/// in the range is touched, but for the granules.
pub proof fn law_regions_are_prepared(m: AllocatePages, at: u64, size: u64, state: RegionState)
    requires
        m.well_formed(),
        m.phase == (AllocPhase::Look { at }),
        size > 0,
    ensures
        ({
            let len = if size <= m.end - at {
                size as int
            } else {
                m.end - at
            };
            let next = m.spec_advance(
                MemReply::Region(Region { size, state }),
            );
            &&& state is Committed ==> next.spec_action() == (MemAction::Decommit {
                addr: at,
                len: len as u64,
            })
            &&& state is Reserved ==> next.spec_action() == (MemAction::Commit {
                addr: at,
                len: len as u64,
                protection: m.protection,
            })
            &&& state is Free ==> (next.spec_action() matches MemAction::Reserve { .. })
            &&& !(state is Reserved) ==> next.spec_advance(MemReply::Done).spec_action() == (
            MemAction::Commit { addr: at, len: len as u64, protection: m.protection })
        }),
{
}

/// Pages anywhere are reserved, put where they were reserved, and brought into memory if that was
/// asked for. The result is where they are.
pub proof fn law_pages_anywhere(m: AllocatePages, at: u64)
    requires
        m.well_formed(),
        m.start <= m.end,
        m.phase is ReserveAnywhere,
    ensures
        ({
            let commit = m.spec_advance(MemReply::At(at));
            let next = commit.spec_advance(MemReply::Done);
            let len = (m.end - m.start) as u64;
            &&& m.spec_action() matches MemAction::Reserve { addr, .. } && addr == 0
            &&& commit.spec_action() == (MemAction::Commit {
                addr: at,
                len,
                protection: m.protection,
            })
            &&& m.populate ==> next.spec_action() == (MemAction::Prefetch { addr: at, len })
            &&& m.populate ==> next.spec_advance(MemReply::Done).phase == (AllocPhase::Done { at })
            &&& !m.populate ==> next.phase == (AllocPhase::Done { at })
        }),
{
}

/// Granules are whole multiples around an address, and a piece of a region ends with the range.
pub proof fn law_granules(x: int, granularity: int, at: u64, end: u64, size: u64)
    requires
        granularity > 0,
        at <= end,
    ensures
        granule_down(x, granularity) % granularity == 0,
        granule_down(x, granularity) <= x < granule_down(x, granularity) + granularity,
        granule_up(x, granularity) % granularity == 0,
        granule_up(x, granularity) - granularity < x <= granule_up(x, granularity),
        piece_len(at, end, size) <= size,
        at + piece_len(at, end, size) <= end,
        piece_len(at, end, size) == size || at + piece_len(at, end, size) == end,
{
    lemma_granule(x, granularity);
    lemma_granule(x + granularity - 1, granularity);
}

/// Whole multiples below an address.
proof fn lemma_granule(x: int, g: int)
    requires
        g > 0,
    ensures
        granule_down(x, g) % g == 0,
        granule_down(x, g) <= x < granule_down(x, g) + g,
{
    vstd::arithmetic::div_mod::lemma_fundamental_div_mod(x, g);
    vstd::arithmetic::div_mod::lemma_mod_multiples_basic(x / g, g);
    assert(granule_down(x, g) == (x / g) * g) by {
        vstd::arithmetic::mul::lemma_mul_is_commutative(x / g, g);
    }
}

/// The size of a block is the next power of two.
pub proof fn law_next_power(n: int, p: int)
    requires
        p > 0,
    ensures
        power_from(n, p) >= n,
        power_from(n, p) >= p,
        power_from(n, p) == p || power_from(n, p) < 2 * n,
    decreases
            if n > p {
                n - p
            } else {
                0
            },
{
    if n > p {
        law_next_power(n, 2 * p);
    }
}

/// Each register of the guest is saved as itself, and is what it was when the guest goes on.
pub proof fn law_registers_keep_their_places(guest: PtRegs, context: Context)
    ensures
        ({
            let kept = saved(guest, context);
            &&& kept.rax == context.rax && kept.orig_rax == context.rax
            &&& kept.rbx == context.rbx && kept.rcx == context.rcx && kept.rdx == context.rdx
            &&& kept.rsi == context.rsi && kept.rdi == context.rdi
            &&& kept.rbp == context.rbp && kept.rsp == context.rsp && kept.rip == context.rip
            &&& kept.r8 == context.r8 && kept.r9 == context.r9 && kept.r10 == context.r10
            &&& kept.r11 == context.r11 && kept.r12 == context.r12 && kept.r13 == context.r13
            &&& kept.r14 == context.r14 && kept.r15 == context.r15
            &&& kept.eflags == context.eflags && kept.cs == guest.cs && kept.ss == guest.ss
        }),
        ({
            let next = resumed(guest);
            &&& next.rax == guest.rax && next.rbx == guest.rbx && next.rcx == guest.rcx
            &&& next.rdx == guest.rdx && next.rsi == guest.rsi && next.rdi == guest.rdi
            &&& next.rbp == guest.rbp && next.rsp == guest.rsp && next.rip == guest.rip
            &&& next.r8 == guest.r8 && next.r9 == guest.r9 && next.r10 == guest.r10
            &&& next.r11 == guest.r11 && next.r12 == guest.r12 && next.r13 == guest.r13
            &&& next.r14 == guest.r14 && next.r15 == guest.r15
            &&& next.eflags == guest.eflags % 0x1_0000_0000
        }),
{
}

/// An access to memory that is not allowed is a page fault of the guest at its address, with the code
/// of a read or a write from user mode; without an address it is a violation of protection. The other
/// exceptions have no address.
pub proof fn law_exceptions_of_the_system(code: u32, flag: u64, address: u64)
    ensures
        ({
            let info = exception_of(code, flag, address);
            &&& !info.kernel_mode
            &&& code == 0xc000_0005 && !(flag == 0 && address == u64::MAX) ==> info.exception == 14
                && info.cr2 == address && info.error_code == if flag == 0 {
                4int
            } else {
                6
            }
            &&& code == 0xc000_0005 && flag == 0 && address == u64::MAX ==> info.exception == 13
            &&& code == 0xc000_001d ==> info.exception == 6
            &&& code == 0x8000_0003 ==> info.exception == 3
            &&& code == 0xc000_0094 ==> info.exception == 0
            &&& info.exception != 14 ==> info.error_code == 0 && info.cr2 == 0
        }),
{
}

/// An exception of the guest leaves it: its registers are saved, and the shim goes on behind the
/// record of the exception, on the stack of the host below that record. If the base of the
/// thread-local storage may have been lost, the shim is interrupted instead.
pub proof fn law_exceptions_leave_the_guest(
    state: TlsState,
    context: Context,
    fault: Fault,
    callbacks: Callbacks,
)
    requires
        state.is_in_guest,
        fault.record_size + 16 <= state.host_sp,
    ensures
        ({
            let (path, registers, left) = exception_outcome(
                Some(state),
                context,
                fault,
                callbacks,
            );
            let lost = fault.code == 0xc000_0005 && fault.fs_base == 0 && fault.stored_fs_base != 0;
            &&& left matches Some(now) && !now.is_in_guest && now.interrupt == state.interrupt
                && now.host_sp == state.host_sp && now.guest == saved(state.guest, context)
            &&& registers.rbp == state.host_bp
            &&& lost ==> path is ContinueExecution && registers.rip == callbacks.interrupt
                && registers.rsp == state.host_sp
            &&& !lost ==> {
                let record = state.host_sp - fault.record_size;
                &&& path matches ExceptionPath::Exception { record: at } && at == record
                &&& registers.rip == callbacks.exception
                &&& registers.rdx == record
                &&& registers.rsp % 16 == 0
                &&& record - 16 < registers.rsp <= record
            }
        }),
{
}

/// Exceptions of the host are left to others, but for accesses that the host has set an address aside
/// for: there it goes on. Nothing else changes.
pub proof fn law_exceptions_of_the_host(
    tls: Option<TlsState>,
    context: Context,
    fault: Fault,
    callbacks: Callbacks,
)
    requires
        tls matches Some(state) ==> !state.is_in_guest,
    ensures
        ({
            let (path, registers, after) = exception_outcome(tls, context, fault, callbacks);
            let fixed = tls is Some && fault.code == 0xc000_0005 && fault.fixup is Some;
            &&& after == tls
            &&& !fixed ==> path is ContinueSearch && registers == context
            &&& fixed ==> path is ContinueExecution && registers.rip == fault.fixup->Some_0
                && registers.rsp == context.rsp && registers.rbp == context.rbp
        }),
{
}

/// A thread that is interrupted in the guest goes on in the shim, on the stack of the host: at once,
/// unless the system or this program is about to enter or leave the guest; then as soon as that is
/// done. Registers are saved only where the guest's are still in use.
pub proof fn law_interrupted_threads_enter_the_shim(
    tls: TlsState,
    context: Context,
    code: CodeMap,
    callback: u64,
)
    ensures
        ({
            let (jumps, registers, state) = interrupt_outcome(tls, context, code, callback);
            let switching = code.switch_code.start <= context.rip < code.switch_code.end;
            let between = code.ntdll.start <= context.rip < code.ntdll.end || code.this.start
                <= context.rip < code.this.end;
            &&& jumps <==> switching || !between
            &&& jumps ==> registers.rip == callback && registers.rsp == tls.host_sp
                && registers.rbp == tls.host_bp && state.continue_context == tls.continue_context
            &&& !jumps ==> registers == context && state.continue_context.rip == callback
                && state.continue_context.rsp == tls.host_sp && state.continue_context.rbp
                == tls.host_bp
            &&& switching || between ==> state.guest == tls.guest
            &&& !switching && !between ==> state.guest == saved(tls.guest, context)
            &&& state.is_in_guest == tls.is_in_guest && state.interrupt == tls.interrupt
        }),
{
}

/// A thread that has handled its interrupt is in the shim and has no mark. One with a mark does not
/// go on in the guest.
pub proof fn law_marks_are_handled(tls: TlsState)
    ensures
        !tls.handled().is_in_guest && !tls.handled().interrupt,
        tls.handled().guest == tls.guest,
        tls.handled().pending_host_signals == tls.pending_host_signals,
        tls.interrupt ==> tls.after_interrupt() is None,
        !tls.interrupt ==> tls.after_interrupt() is Some,
{
}

/// Times of the system count intervals of 100 nanoseconds, and a span from now is a negative number
/// in two halves of 32 bits.
pub proof fn law_intervals(d: Duration, due: DueTime)
    ensures
        100 * intervals(d) <= d.secs * 1_000_000_000 + d.nanos < 100 * (intervals(d) + 1),
        -0x8000_0000_0000_0000 <= due_value(due) < 0x8000_0000_0000_0000,
        due_value(due) % 0x1_0000_0000 == due.low,
        due_value(due) < 0 <==> due.high >= 0x8000_0000,
        due.high < 0x8000_0000 ==> due_value(due) == due.high * 0x1_0000_0000 + due.low,
{
}

} // verus!
