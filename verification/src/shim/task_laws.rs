//! What system calls change of a thread and its process at once, and what the guest sees of them.
use vstd::array::spec_array_fill_for_copy_type;
use vstd::prelude::*;

use crate::errno::Errno;
use crate::shim::limits::ResourceLimits;
use crate::shim::pending::{user_signal, Siginfo};
use crate::shim::process::{ExitStatus, ProcessModel};
use crate::shim::robust::{futex_of, RobustWalk};
use crate::shim::shebang::is_white_space;
use crate::shim::signal::{
    altstack_plan, handler_entered, kernel_signal, sent, Handler, SigAction, SigAltStack, SignalState,
};
use crate::shim::syscall::{
    is_interrupted, pending_after, process_after, return_value, thread_after, SyscallRequest, Task,
};
use crate::shim::task::{comm_of, filled_array, NameReader};
use crate::shim::thread::{
    clone_refused, effective_flags, is_started, program_start, started_context, CloneArgs,
    CloneStart, PtRegs, ThreadInitState,
};

verus! {

/// A request to exit ends the thread that makes it, and no other. The process has then the status that
/// was asked for, as far as one byte with a sign shows it.
pub proof fn law_exit_ends_the_caller(task: Task, process: ProcessModel, status: i32, other: i32)
    requires
        process.running(task.tid),
        other != task.tid,
    ensures
        ({
            let after = process_after(task, process, SyscallRequest::Exit { status });
            &&& !after.running(task.tid)
            &&& after.threads.contains_key(task.tid)
            &&& after.running(other) == process.running(other)
            &&& after.threads.contains_key(other) == process.threads.contains_key(other)
            &&& after.exit_status matches ExitStatus::Exit(code) && (status - code) % 256 == 0
            &&& after.group_exit == process.group_exit
            &&& after.limits == process.limits
            &&& !is_interrupted(task, process, SyscallRequest::Exit { status }, other)
        }),
{
}

/// A request that all threads exit ends each of them, and interrupts each of them.
pub proof fn law_group_exit_ends_all(task: Task, process: ProcessModel, status: i32, other: i32)
    requires
        process.running(task.tid),
    ensures
        ({
            let request = SyscallRequest::ExitGroup { status };
            let after = process_after(task, process, request);
            &&& !after.running(other)
            &&& after.threads.contains_key(other) == process.threads.contains_key(other)
            &&& after.exit_status matches ExitStatus::Exit(code) && (status - code) % 256 == 0
            &&& after.group_exit
            &&& is_interrupted(task, process, request, other) == process.threads.contains_key(other)
        }),
{
}

/// No other request changes the process at once or interrupts its threads, and none does where the
/// thread already exits.
pub proof fn law_other_requests_end_nothing(
    task: Task,
    process: ProcessModel,
    request: SyscallRequest,
    other: i32,
)
    requires
        !(request is Exit) && !(request is ExitGroup) || !process.running(task.tid),
    ensures
        process_after(task, process, request) == process,
        !is_interrupted(task, process, request, other),
{
}

/// A thread keeps the address that is to be cleared when it ends, and the list of its robust futexes,
/// as it last told them. No other request changes what it knows of itself.
pub proof fn law_threads_keep_their_addresses(task: Task, addr: u64, request: SyscallRequest)
    ensures
        ({
            let after = thread_after(task, SyscallRequest::SetTidAddress { tidptr: addr });
            &&& after.clear_child_tid == Some(addr)
            &&& after.robust_list == task.thread.robust_list
            &&& after.init_state == task.thread.init_state
            &&& after.attached_tid == task.thread.attached_tid
        }),
        ({
            let after = thread_after(task, SyscallRequest::SetRobustList { head: addr });
            &&& after.robust_list == Some(addr)
            &&& after.clear_child_tid == task.thread.clear_child_tid
            &&& after.init_state == task.thread.init_state
            &&& after.attached_tid == task.thread.attached_tid
        }),
        !(request is SetTidAddress) && !(request is SetRobustList) ==> thread_after(task, request)
            == task.thread,
{
}

/// A signal that a thread sends to itself or to its process is sent as one of a user process, with the
/// number that was asked for. To others, and with other numbers, none is sent.
pub proof fn law_signals_are_sent_to_the_caller(
    task: Task,
    limits: ResourceLimits,
    handlers: Seq<Handler>,
    pid: i32,
    tid: i32,
    sig: i32,
)
    ensures
        ({
            let waiting = task.signals.pending@;
            let info = Siginfo { signo: sig as u32, errno: 0, code: 0, addr: 0 };
            let more = sent(
                waiting,
                task.signals.blocked,
                handlers,
                limits.sigpending(),
                info,
            );
            let kill = SyscallRequest::Kill { pid, sig };
            let tkill = SyscallRequest::Tkill { tid, sig };
            let tgkill = SyscallRequest::Tgkill { tgid: pid, tid, sig };
            &&& pending_after(task, limits, handlers, kill) == if 1 <= sig <= 64 && pid == task.pid {
                more
            } else {
                waiting
            }
            &&& pending_after(task, limits, handlers, tkill) == if 1 <= sig <= 64 && tid == task.tid {
                more
            } else {
                waiting
            }
            &&& pending_after(task, limits, handlers, tgkill) == if 1 <= sig <= 64 && pid == task.pid
                && tid == task.tid {
                more
            } else {
                waiting
            }
        }),
{
}

/// A signal of the kernel is told from one of a user process by its code; neither has an address.
pub proof fn law_senders_of_signals(signal: u32)
    ensures
        kernel_signal(signal).signo == signal && user_signal(signal).signo == signal,
        kernel_signal(signal).code == 0x80 && user_signal(signal).code == 0,
        kernel_signal(signal).errno == 0 && user_signal(signal).errno == 0,
        kernel_signal(signal).addr == 0 && user_signal(signal).addr == 0,
{
}

/// Errors have the numbers of Linux.
pub proof fn law_error_numbers(e: Errno)
    ensures
        e is EPERM ==> e.number() == 1,
        e is ENOENT ==> e.number() == 2,
        e is ESRCH ==> e.number() == 3,
        e is EINTR ==> e.number() == 4,
        e is EIO ==> e.number() == 5,
        e is E2BIG ==> e.number() == 7,
        e is ENOEXEC ==> e.number() == 8,
        e is EBADF ==> e.number() == 9,
        e is EAGAIN ==> e.number() == 11,
        e is ENOMEM ==> e.number() == 12,
        e is EACCES ==> e.number() == 13,
        e is EFAULT ==> e.number() == 14,
        e is EBUSY ==> e.number() == 16,
        e is EEXIST ==> e.number() == 17,
        e is ENODEV ==> e.number() == 19,
        e is ENOTDIR ==> e.number() == 20,
        e is EINVAL ==> e.number() == 22,
        e is EMFILE ==> e.number() == 24,
        e is ENOTTY ==> e.number() == 25,
        e is ESPIPE ==> e.number() == 29,
        e is ERANGE ==> e.number() == 34,
        e is ENAMETOOLONG ==> e.number() == 36,
        e is ENOSYS ==> e.number() == 38,
        e is ELOOP ==> e.number() == 40,
        e is EOVERFLOW ==> e.number() == 75,
        e is ENOTSUP ==> e.number() == 95,
        e is ETIMEDOUT ==> e.number() == 110,
{
}

/// The guest sees the value of a call, or the negative number of its error.
pub proof fn law_guest_sees_results(result: Result<u64, Errno>)
    ensures
        result matches Ok(value) ==> return_value(result) == value,
        result matches Err(e) ==> return_value(result) == 0x1_0000_0000_0000_0000 - e.number(),
        result matches Err(e) ==> return_value(result) > 0xffff_ffff_ffff_f000,
{
}

/// A new program starts at its entry point, on its stack, in user mode, with all other registers zero.
pub proof fn law_programs_start_clean(entry_point: u64, user_stack_top: u64, ctx: PtRegs)
    ensures
        ({
            let start = started_context(
                ThreadInitState::NewProcess { entry_point, user_stack_top },
                ctx,
            );
            &&& start.rip == entry_point && start.rsp == user_stack_top
            &&& start.cs == 0x33 && start.ss == 0x2b && start.eflags == 0
            &&& start.rax == 0 && start.rbx == 0 && start.rcx == 0 && start.rdx == 0
            &&& start.rsi == 0 && start.rdi == 0 && start.rbp == 0 && start.orig_rax == 0
            &&& start.r8 == 0 && start.r9 == 0 && start.r10 == 0 && start.r11 == 0
            &&& start.r12 == 0 && start.r13 == 0 && start.r14 == 0 && start.r15 == 0
            &&& start == program_start(entry_point, user_stack_top)
        }),
        started_context(ThreadInitState::Started, ctx) == ctx,
{
}

/// The old alternate stack is told if asked for. A thread that runs on it cannot change it.
pub proof fn law_stacks_in_use_stay(altstack: SigAltStack, sp: u64, wants_old: bool, sets: bool)
    ensures
        ({
            let plan = altstack_plan(altstack, sp, wants_old, sets);
            &&& plan.old is Some <==> wants_old
            &&& sets && altstack.covers(sp) ==> plan.set == Err::<bool, Errno>(Errno::EPERM)
            &&& !(sets && altstack.covers(sp)) ==> plan.set == Ok::<bool, Errno>(sets)
        }),
{
}

/// White space of Unicode outside ASCII.
pub proof fn law_white_space_outside_ascii(c: char)
    requires
        c as u32 >= 0x80,
    ensures
        is_white_space(c) <==> {
            let n = c as u32;
            n == 0x85 || n == 0xa0 || n == 0x1680 || 0x2000 <= n <= 0x200a || n == 0x2028 || n
                == 0x2029 || n == 0x202f || n == 0x205f || n == 0x3000
        },
{
}

/// The bytes of an array that was filled.
proof fn lemma_filled(a: [u8; 16], bytes: Seq<u8>, n: nat, i: int)
    requires
        n <= 16,
        0 <= i < n,
    ensures
        filled_array(a, bytes, n)@[i] == bytes[i],
    decreases n,
{
    if i < n - 1 {
        lemma_filled(a, bytes, (n - 1) as nat, i);
    }
}

/// A name is read byte by byte, up to a zero byte or to fifteen bytes, and is followed by zeros.
pub proof fn law_names_are_read(reader: NameReader, byte: u8, i: int)
    requires
        reader.well_formed(),
        reader.reading(),
    ensures
        reader.len < 15 && !reader.ended,
        byte == 0 ==> reader.with_byte(byte).ended && reader.with_byte(byte).len == reader.len
            && reader.with_byte(byte).name == reader.name,
        byte != 0 ==> !reader.with_byte(byte).ended && reader.with_byte(byte).len == reader.len + 1
            && reader.with_byte(byte).name@ == reader.name@.update(reader.len as int, byte),
        0 <= i < 16 ==> reader.spec_comm()@[i] == if i < reader@.0.len() && i < 15 {
            reader@.0[i]
        } else {
            0
        },
{
    if 0 <= i < 16 {
        let bytes = comm_of(reader@.0);
        lemma_filled(spec_array_fill_for_copy_type::<u8, 16>(0), bytes, 16, i);
    }
}

/// The futex of an entry lies at its offset from the entry. A walk along a list ends at its head, or
/// where it may go no further.
pub proof fn law_robust_lists(walk: RobustWalk, entry: u64)
    ensures
        entry + walk.futex_offset <= u64::MAX ==> futex_of(entry, walk.futex_offset) == entry
            + walk.futex_offset,
        walk.at_end() <==> walk.entry == walk.head || walk.limit == 0,
{
}

/// While a handler runs its signal is blocked, unless the action lets it come again, and so are the
/// signals of its mask and those that were blocked before. A stack that disarms itself is disabled, any
/// other stays. No signal is taken from the queue.
pub proof fn law_handlers_block_their_signal(
    before: SignalState,
    signal: u32,
    action: SigAction,
    after: SignalState,
    n: int,
)
    requires
        handler_entered(before, signal, action, after),
    ensures
        before.blocked.has(n) || action.mask.has(n) ==> after.blocked.has(n),
        n == signal && action.flags & 0x4000_0000 == 0 ==> after.blocked.has(n),
        n != signal && !before.blocked.has(n) && !action.mask.has(n) ==> !after.blocked.has(n),
        n == signal && action.flags & 0x4000_0000 != 0 && !before.blocked.has(n)
            && !action.mask.has(n) ==> !after.blocked.has(n),
        before.altstack.flags & 0x8000_0000 == 0 ==> after.altstack == before.altstack,
        before.altstack.flags & 0x8000_0000 != 0 ==> after.altstack.flags == 2,
        after.pending == before.pending,
        after.last_exception == before.last_exception,
{
}

/// A request for a thread that cannot be met changes nothing but the next number of a thread, and that
/// only where the flags of the request were sound. One that can be met adds a running thread with the
/// next number to the process.
pub proof fn law_threads_are_added(
    parent: Task,
    args: CloneArgs,
    clone3: bool,
    before: ProcessModel,
    next: i32,
    after: ProcessModel,
    next_after: i32,
    r: Result<CloneStart, Errno>,
    other: i32,
)
    requires
        is_started(parent, args, clone3, before, next, after, next_after, r),
        next < i32::MAX,
        other != next,
    ensures
        clone_refused(args, clone3) ==> r == Err::<CloneStart, Errno>(Errno::EINVAL) && after
            == before && next_after == next,
        !clone_refused(args, clone3) ==> {
            let flags = effective_flags(args.flags, clone3);
            let ending = before.group_exit || before.killing;
            let bad = (args.stack == 0 && args.stack_size != 0) || (args.stack != 0 && clone3
                && args.stack_size == 0);
            &&& r is Ok && r->Ok_0.tid == next && next_after == next + 1
            &&& r->Ok_0.share_fs <==> flags & 0x200 != 0
            &&& r->Ok_0.set_parent_tid == if flags & 0x10_0000 != 0 && args.parent_tid != 0 {
                Some(args.parent_tid)
            } else {
                None
            }
            &&& bad ==> r->Ok_0.task == Err::<Task, Errno>(Errno::EINVAL)
            &&& !bad && ending ==> r->Ok_0.task == Err::<Task, Errno>(
                Errno::EBUSY,
            )
            &&& bad || ending ==> after == before
            &&& !bad && !ending ==> {
                &&& r->Ok_0.task is Ok
                &&& r->Ok_0.task->Ok_0.tid == next
                &&& r->Ok_0.task->Ok_0.pid == parent.pid
                &&& r->Ok_0.task->Ok_0.credentials == parent.credentials
                &&& r->Ok_0.task->Ok_0.signals.blocked == parent.signals.blocked
                &&& r->Ok_0.task->Ok_0.signals.pending@.len() == 0
                &&& after.running(next)
                &&& after.running(other) == before.running(other)
            }
        },
{
}

} // verus!
