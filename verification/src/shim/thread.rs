//! Threads: how they start, what they keep, and how they end.
use vstd::prelude::*;

use crate::errno::Errno;
use crate::shim::pending::Siginfo;
use crate::shim::process::{Process, ProcessModel};
use crate::shim::signal::{no_altstack, SignalState};
use crate::shim::syscall::Task;

verus! {

/// What a thread starts with.
#[derive(Clone, Copy, PartialEq, Eq, Structural, Debug)]
pub enum ThreadInitState {
    /// With nothing: it runs already.
    Started,
    /// At the entry point of a program that was loaded.
    NewProcess { entry_point: u64, user_stack_top: u64 },
    /// Behind the system call that made it.
    NewThread { stack: Option<u64>, tls: Option<u64>, set_child_tid: Option<u64> },
}

/// The state of a thread within its process.
#[derive(Clone, Copy, PartialEq, Eq, Structural, Debug)]
pub struct ThreadState {
    pub init_state: ThreadInitState,
    /// The number under which the thread belongs to its process.
    pub attached_tid: Option<i32>,
    /// An address to write zero to, and to wake a waiter at, when the thread ends.
    pub clear_child_tid: Option<u64>,
    /// The head of the list of robust futexes.
    pub robust_list: Option<u64>,
}

/// What is to be done when a thread ends, in this order.
#[derive(Clone, Copy, PartialEq, Eq, Structural, Debug)]
pub struct ThreadExit {
    /// Wake those that wait for the number of threads.
    pub notify: bool,
    /// Write zero to this address and wake one waiter there.
    pub clear_child_tid: Option<u64>,
    /// Walk this list of robust futexes.
    pub robust_list: Option<u64>,
}

impl ThreadState {
    /// The first thread of a process.
    pub fn new_process(pid: i32) -> (r: ThreadState)
        ensures
            r == (ThreadState {
                init_state: ThreadInitState::Started,
                attached_tid: Some(pid),
                clear_child_tid: None,
                robust_list: None,
            }),
    {
        ThreadState {
            init_state: ThreadInitState::Started,
            attached_tid: Some(pid),
            clear_child_tid: None,
            robust_list: None,
        }
    }

    /// A further thread of the process, unless the process takes none any more.
    pub fn new_thread(process: &mut Process, tid: i32) -> (r: Option<ThreadState>)
        requires
            old(process).well_formed(),
            !old(process)@.threads.contains_key(tid),
            old(process)@.threads.len() < u32::MAX,
        ensures
            final(process).well_formed(),
            if old(process)@.group_exit || old(process)@.killing {
                r is None && final(process)@ == old(process)@
            } else {
                r == Some(
                    ThreadState {
                        init_state: ThreadInitState::Started,
                        attached_tid: Some(tid),
                        clear_child_tid: None,
                        robust_list: None,
                    },
                ) && final(process)@ == old(process)@.attach(tid)
            },
    {
        if process.attach_thread(tid) {
            Some(ThreadState::new_process(tid))
        } else {
            None
        }
    }

    /// The thread belongs to the process, if it says that it belongs to one.
    pub open spec fn attached_to(self, process: ProcessModel) -> bool {
        self.attached_tid matches Some(tid) ==> process.threads.contains_key(tid)
    }

    /// Leaves the process, unless the thread has left already. The result tells whether someone may
    /// be waiting for this.
    pub fn detach_from_process(&mut self, process: &mut Process) -> (r: bool)
        requires
            old(process).well_formed(),
            old(self).attached_to(old(process)@),
        ensures
            final(process).well_formed(),
            *final(self) == (ThreadState { attached_tid: None, ..*old(self) }),
            match old(self).attached_tid {
                Some(tid) => final(process)@ == old(process)@.detach(tid) && r == ({
                    let left = final(process)@.threads.len();
                    left == 0 || (left == 1 && old(process)@.killing)
                }),
                None => final(process)@ == old(process)@ && !r,
            },
    {
        let tid = self.attached_tid;
        self.attached_tid = None;
        match tid {
            Some(tid) => process.detach_thread(tid),
            None => false,
        }
    }

    /// Ends the thread: it leaves the process, and what it promised to do at its end is handed out,
    /// once.
    pub fn prepare_for_exit(&mut self, process: &mut Process) -> (r: ThreadExit)
        requires
            old(process).well_formed(),
            old(self).attached_to(old(process)@),
        ensures
            final(process).well_formed(),
            *final(self) == (ThreadState {
                attached_tid: None,
                clear_child_tid: None,
                robust_list: None,
                ..*old(self)
            }),
            r.clear_child_tid == old(self).clear_child_tid,
            r.robust_list == old(self).robust_list,
            match old(self).attached_tid {
                Some(tid) => final(process)@ == old(process)@.detach(tid) && r.notify == ({
                    let left = final(process)@.threads.len();
                    left == 0 || (left == 1 && old(process)@.killing)
                }),
                None => final(process)@ == old(process)@ && !r.notify,
            },
    {
        let notify = self.detach_from_process(process);
        let r = ThreadExit {
            notify,
            clear_child_tid: self.clear_child_tid,
            robust_list: self.robust_list,
        };
        self.clear_child_tid = None;
        self.robust_list = None;
        r
    }

    /// Sets the address to clear when the thread ends. The result is the number of the thread.
    pub fn sys_set_tid_address(&mut self, tidptr: u64, tid: i32) -> (r: i32)
        ensures
            *final(self) == (ThreadState { clear_child_tid: Some(tidptr), ..*old(self) }),
            r == tid,
    {
        self.clear_child_tid = Some(tidptr);
        tid
    }

    /// Sets the head of the list of robust futexes.
    pub fn sys_set_robust_list(&mut self, head: u64)
        ensures
            *final(self) == (ThreadState { robust_list: Some(head), ..*old(self) }),
    {
        self.robust_list = Some(head);
    }

    /// The head of the list of robust futexes, zero where there is none.
    pub fn sys_get_robust_list(&self) -> (r: u64)
        ensures
            r == (match self.robust_list {
                Some(head) => head,
                None => 0,
            }),
    {
        match self.robust_list {
            Some(head) => head,
            None => 0,
        }
    }
}

/// The registers of a guest thread.
#[derive(Clone, Copy, PartialEq, Eq, Structural, Debug)]
pub struct PtRegs {
    pub r15: u64,
    pub r14: u64,
    pub r13: u64,
    pub r12: u64,
    pub rbp: u64,
    pub rbx: u64,
    pub r11: u64,
    pub r10: u64,
    pub r9: u64,
    pub r8: u64,
    pub rax: u64,
    pub rcx: u64,
    pub rdx: u64,
    pub rsi: u64,
    pub rdi: u64,
    pub orig_rax: u64,
    pub rip: u64,
    pub cs: u64,
    pub eflags: u64,
    pub rsp: u64,
    pub ss: u64,
}

impl Default for PtRegs {
    fn default() -> (r: Self)
        ensures
            r == (PtRegs {
                r15: 0,
                r14: 0,
                r13: 0,
                r12: 0,
                rbp: 0,
                rbx: 0,
                r11: 0,
                r10: 0,
                r9: 0,
                r8: 0,
                rax: 0,
                rcx: 0,
                rdx: 0,
                rsi: 0,
                rdi: 0,
                orig_rax: 0,
                rip: 0,
                cs: 0,
                eflags: 0,
                rsp: 0,
                ss: 0,
            }),
    {
        PtRegs {
            r15: 0,
            r14: 0,
            r13: 0,
            r12: 0,
            rbp: 0,
            rbx: 0,
            r11: 0,
            r10: 0,
            r9: 0,
            r8: 0,
            rax: 0,
            rcx: 0,
            rdx: 0,
            rsi: 0,
            rdi: 0,
            orig_rax: 0,
            rip: 0,
            cs: 0,
            eflags: 0,
            rsp: 0,
            ss: 0,
        }
    }
}

/// The code segment of user programs.
pub const USER_CS: u64 = 0x33;

/// The data segment of user programs.
pub const USER_DS: u64 = 0x2b;

/// The registers of a program at its start: all zero but for where it runs and where its stack is.
pub open spec fn program_start(entry_point: u64, user_stack_top: u64) -> PtRegs {
    PtRegs {
        r15: 0,
        r14: 0,
        r13: 0,
        r12: 0,
        rbp: 0,
        rbx: 0,
        r11: 0,
        r10: 0,
        r9: 0,
        r8: 0,
        rax: 0,
        rcx: 0,
        rdx: 0,
        rsi: 0,
        rdi: 0,
        orig_rax: 0,
        rip: entry_point,
        cs: USER_CS,
        eflags: 0,
        rsp: user_stack_top,
        ss: USER_DS,
    }
}

/// The registers with which a thread starts.
pub open spec fn started_context(init: ThreadInitState, ctx: PtRegs) -> PtRegs {
    match init {
        ThreadInitState::Started => ctx,
        ThreadInitState::NewProcess { entry_point, user_stack_top } => program_start(
            entry_point,
            user_stack_top,
        ),
        ThreadInitState::NewThread { stack, .. } => PtRegs {
            rsp: match stack {
                Some(sp) => sp,
                None => ctx.rsp,
            },
            rax: 0,
            ..ctx
        },
    }
}

/// What is left to do for a thread that starts.
#[derive(Clone, Copy, PartialEq, Eq, Structural, Debug)]
pub struct ThreadStart {
    /// Set the base of the thread-local storage.
    pub set_fs: Option<u64>,
    /// Write the number of the thread to this address.
    pub set_child_tid: Option<u64>,
}

impl ThreadState {
    /// Sets up the registers of a thread that starts. This happens once: later calls change nothing.
    pub fn init_thread_context(&mut self, ctx: &mut PtRegs) -> (r: ThreadStart)
        ensures
            *final(self) == (ThreadState { init_state: ThreadInitState::Started, ..*old(self) }),
            *final(ctx) == started_context(old(self).init_state, *old(ctx)),
            r == (match old(self).init_state {
                ThreadInitState::NewThread { tls, set_child_tid, .. } => ThreadStart {
                    set_fs: tls,
                    set_child_tid,
                },
                _ => ThreadStart { set_fs: None, set_child_tid: None },
            }),
    {
        let init_state = self.init_state;
        self.init_state = ThreadInitState::Started;
        match init_state {
            ThreadInitState::Started => ThreadStart { set_fs: None, set_child_tid: None },
            ThreadInitState::NewProcess { entry_point, user_stack_top } => {
                *ctx = PtRegs {
                    r15: 0,
                    r14: 0,
                    r13: 0,
                    r12: 0,
                    rbp: 0,
                    rbx: 0,
                    r11: 0,
                    r10: 0,
                    r9: 0,
                    r8: 0,
                    rax: 0,
                    rcx: 0,
                    rdx: 0,
                    rsi: 0,
                    rdi: 0,
                    orig_rax: 0,
                    rip: entry_point,
                    cs: USER_CS,
                    eflags: 0,
                    rsp: user_stack_top,
                    ss: USER_DS,
                };
                ThreadStart { set_fs: None, set_child_tid: None }
            },
            ThreadInitState::NewThread { stack, tls, set_child_tid } => {
                if let Some(sp) = stack {
                    ctx.rsp = sp;
                }
                ctx.rax = 0;
                ThreadStart { set_fs: tls, set_child_tid }
            },
        }
    }
}

pub const CLONE_VM: u64 = 0x100;

pub const CLONE_FS: u64 = 0x200;

pub const CLONE_FILES: u64 = 0x400;

pub const CLONE_SIGHAND: u64 = 0x800;

pub const CLONE_PIDFD: u64 = 0x1000;

pub const CLONE_PARENT: u64 = 0x8000;

pub const CLONE_THREAD: u64 = 0x10000;

pub const CLONE_SYSVSEM: u64 = 0x40000;

pub const CLONE_SETTLS: u64 = 0x80000;

pub const CLONE_PARENT_SETTID: u64 = 0x100000;

pub const CLONE_CHILD_CLEARTID: u64 = 0x200000;

pub const CLONE_DETACHED: u64 = 0x400000;

pub const CLONE_CHILD_SETTID: u64 = 0x1000000;

/// The flags without which nothing is cloned: the new thread shares memory, handlers and files.
pub const CLONE_REQUIRED: u64 = 0x10d00;

/// The flags that are understood.
pub const CLONE_SUPPORTED: u64 = 0x13d8f00;

/// The highest number of a signal.
pub const MAX_SIGNAL_NUMBER: u64 = 64;

/// Arguments of `clone` and `clone3`.
#[derive(Clone, Copy, PartialEq, Eq, Structural, Debug)]
pub struct CloneArgs {
    pub flags: u64,
    pub pidfd: u64,
    pub child_tid: u64,
    pub parent_tid: u64,
    pub exit_signal: u64,
    pub stack: u64,
    pub stack_size: u64,
    pub tls: u64,
    pub set_tid: u64,
    pub set_tid_size: u64,
    pub cgroup: u64,
}

/// The flags that count: `clone` ignores `CLONE_DETACHED` unless `CLONE_PIDFD` comes with it.
pub open spec fn effective_flags(flags: u64, clone3: bool) -> u64 {
    if !clone3 && flags & CLONE_PIDFD == 0 {
        flags & !CLONE_DETACHED
    } else {
        flags
    }
}

/// The arguments cannot be honoured, whatever the state of the process.
pub open spec fn clone_refused(args: CloneArgs, clone3: bool) -> bool {
    let flags = effective_flags(args.flags, clone3);
    ||| flags & !CLONE_SUPPORTED != 0
    ||| flags & CLONE_REQUIRED != CLONE_REQUIRED
    ||| args.cgroup != 0
    ||| args.set_tid != 0
    ||| args.set_tid_size != 0
    ||| args.exit_signal > MAX_SIGNAL_NUMBER
}

/// The stack is given by halves.
pub open spec fn bad_stack(args: CloneArgs, clone3: bool) -> bool {
    (args.stack == 0 && args.stack_size != 0) || (args.stack != 0 && clone3 && args.stack_size == 0)
}

/// The value, if the flag is set and the value is not zero.
pub open spec fn flagged(flags: u64, flag: u64, value: u64) -> Option<u64> {
    if flags & flag != 0 && value != 0 {
        Some(value)
    } else {
        None
    }
}

/// The state of the thread that the arguments ask for.
pub open spec fn cloned_thread(args: CloneArgs, clone3: bool, tid: i32) -> ThreadState {
    let flags = effective_flags(args.flags, clone3);
    ThreadState {
        init_state: ThreadInitState::NewThread {
            stack: if args.stack != 0 {
                Some(((args.stack + args.stack_size) % 0x1_0000_0000_0000_0000) as u64)
            } else {
                None
            },
            tls: if flags & CLONE_SETTLS != 0 {
                Some(args.tls)
            } else {
                None
            },
            set_child_tid: flagged(flags, CLONE_CHILD_SETTID, args.child_tid),
        },
        attached_tid: Some(tid),
        clear_child_tid: flagged(flags, CLONE_CHILD_CLEARTID, args.child_tid),
        robust_list: None,
    }
}

/// A clone that was begun. The number of the thread is spent in any case.
pub struct CloneStart {
    pub tid: i32,
    /// Write the number of the thread to this address of the parent, whatever comes of it.
    pub set_parent_tid: Option<u64>,
    /// Whether the thread shares the state of the file system with its parent.
    pub share_fs: bool,
    /// The task to start, or why there is none.
    pub task: Result<Task, Errno>,
}

/// The task is the one that the arguments ask `parent` for: it belongs to the same process, has the same
/// credentials and the same name, and blocks the same signals; none wait for it, and it has no alternate
/// stack.
pub open spec fn is_clone(task: Task, parent: Task, args: CloneArgs, clone3: bool, tid: i32) -> bool {
    &&& task == (Task {
        tid,
        thread: cloned_thread(args, clone3, tid),
        signals: SignalState {
            pending: task.signals.pending,
            blocked: parent.signals.blocked,
            altstack: no_altstack(),
            last_exception: parent.signals.last_exception,
        },
        ..parent
    })
    &&& task.signals.well_formed()
    &&& task.signals.pending@ == Seq::<Siginfo>::empty()
}

/// What comes of a request for a new thread: the process and the next number of a thread before it, and
/// after it.
pub open spec fn is_started(
    parent: Task,
    args: CloneArgs,
    clone3: bool,
    before: ProcessModel,
    next: i32,
    after: ProcessModel,
    next_after: i32,
    r: Result<CloneStart, Errno>,
) -> bool {
    match r {
        Err(e) => clone_refused(args, clone3) && e == Errno::EINVAL && after == before && next_after
            == next,
        Ok(start) => {
            let flags = effective_flags(args.flags, clone3);
            &&& !clone_refused(args, clone3)
            &&& start.tid == next
            &&& next_after == next + 1
            &&& start.set_parent_tid == flagged(flags, CLONE_PARENT_SETTID, args.parent_tid)
            &&& start.share_fs == (flags & CLONE_FS != 0)
            &&& if bad_stack(args, clone3) {
                start.task == Err::<Task, Errno>(Errno::EINVAL) && after == before
            } else if before.group_exit || before.killing {
                start.task == Err::<Task, Errno>(Errno::EBUSY) && after == before
            } else {
                &&& start.task matches Ok(task) && is_clone(task, parent, args, clone3, next)
                &&& after == before.attach(next)
            }
        },
    }
}

/// Begins to clone a thread. Files and handlers are shared with the parent.
pub fn do_clone(
    parent: &Task,
    process: &mut Process,
    next_thread_id: &mut i32,
    args: &CloneArgs,
    clone3: bool,
) -> (r: Result<CloneStart, Errno>)
    requires
        old(process).well_formed(),
        !old(process)@.threads.contains_key(*old(next_thread_id)),
        old(process)@.threads.len() < u32::MAX,
        0 <= *old(next_thread_id) < i32::MAX,
    ensures
        final(process).well_formed(),
        is_started(
            *parent,
            *args,
            clone3,
            old(process)@,
            *old(next_thread_id),
            final(process)@,
            *final(next_thread_id),
            r,
        ),
{
    let mut flags: u64 = args.flags;
    if !clone3 && flags & CLONE_PIDFD == 0 {
        flags = flags & !CLONE_DETACHED;
    }
    if flags & !CLONE_SUPPORTED != 0 {
        return Err(Errno::EINVAL);
    }
    if flags & CLONE_REQUIRED != CLONE_REQUIRED {
        return Err(Errno::EINVAL);
    }
    if args.cgroup != 0 {
        return Err(Errno::EINVAL);
    }
    if args.set_tid != 0 || args.set_tid_size != 0 {
        return Err(Errno::EINVAL);
    }
    if args.exit_signal > MAX_SIGNAL_NUMBER {
        return Err(Errno::EINVAL);
    }
    let tls = if flags & CLONE_SETTLS != 0 {
        Some(args.tls)
    } else {
        None
    };
    let child_tid = if args.child_tid == 0 {
        None
    } else {
        Some(args.child_tid)
    };
    let set_child_tid = if flags & CLONE_CHILD_SETTID != 0 {
        child_tid
    } else {
        None
    };
    let clear_child_tid = if flags & CLONE_CHILD_CLEARTID != 0 {
        child_tid
    } else {
        None
    };
    let set_parent_tid = if flags & CLONE_PARENT_SETTID != 0 && args.parent_tid != 0 {
        Some(args.parent_tid)
    } else {
        None
    };
    let share_fs = flags & CLONE_FS != 0;
    let tid: i32 = *next_thread_id;
    *next_thread_id = tid + 1;
    if (args.stack == 0 && args.stack_size != 0) || (args.stack != 0 && clone3 && args.stack_size
        == 0) {
        return Ok(CloneStart { tid, set_parent_tid, share_fs, task: Err(Errno::EINVAL) });
    }
    let stack = if args.stack != 0 {
        Some(args.stack.wrapping_add(args.stack_size))
    } else {
        None
    };
    let task = match ThreadState::new_thread(process, tid) {
        Some(mut thread) => {
            thread.init_state = ThreadInitState::NewThread { stack, tls, set_child_tid };
            thread.clear_child_tid = clear_child_tid;
            Ok(
                Task {
                    pid: parent.pid,
                    ppid: parent.ppid,
                    tid,
                    credentials: parent.credentials,
                    comm: parent.comm,
                    thread,
                    signals: parent.signals.clone_for_new_task(),
                },
            )
        },
        None => Err(Errno::EBUSY),
    };
    Ok(CloneStart { tid, set_parent_tid, share_fs, task })
}

/// What `clone` returns for a thread that was begun, given whether the platform started it: a thread
/// that did not start counts as a lack of memory.
pub fn clone_result(start: &CloneStart, spawned: bool) -> (r: Result<u64, Errno>)
    requires
        start.tid >= 0,
    ensures
        r == (match start.task {
            Err(e) => Err(e),
            Ok(_) => if spawned {
                Ok(start.tid as u64)
            } else {
                Err(Errno::ENOMEM)
            },
        }),
{
    match &start.task {
        Err(e) => Err(*e),
        Ok(_) => if spawned {
            Ok(start.tid as u64)
        } else {
            Err(Errno::ENOMEM)
        },
    }
}

/// The flags of every thread that is cloned ask for shared memory, shared handlers and shared files in
/// one thread group.
pub proof fn law_clones_share(args: CloneArgs, clone3: bool)
    requires
        !clone_refused(args, clone3),
    ensures
        args.flags & CLONE_VM != 0,
        args.flags & CLONE_THREAD != 0,
        args.flags & CLONE_SIGHAND != 0,
        args.flags & CLONE_FILES != 0,
{
    let f = args.flags;
    let g = effective_flags(f, clone3);
    assert(g & 0x10d00u64 == 0x10d00u64 && (g == f || g == f & !0x400000u64) ==> f & 0x100u64 != 0
        && f & 0x10000u64 != 0 && f & 0x800u64 != 0 && f & 0x400u64 != 0) by (bit_vector);
}

/// A cloned thread goes on behind the call of its parent with the same registers, but sees zero as the
/// result, and stands at the end of the stack that was given for it, for `clone` as for `clone3`; without
/// one it stays on the stack of its parent.
pub proof fn law_clones_start_at_the_end_of_their_stack(
    task: Task,
    parent: Task,
    args: CloneArgs,
    clone3: bool,
    tid: i32,
    ctx: PtRegs,
)
    requires
        is_clone(task, parent, args, clone3, tid),
    ensures
        ({
            let start = started_context(task.thread.init_state, ctx);
            &&& args.stack != 0 ==> (start.rsp - args.stack_size - args.stack)
                % 0x1_0000_0000_0000_0000 == 0
            &&& args.stack == 0 ==> start.rsp == ctx.rsp
            &&& start.rax == 0
            &&& start == (PtRegs { rsp: start.rsp, rax: 0, ..ctx })
        }),
{
}

/// A cloned thread has its own number and belongs to the process of its parent, with the same credentials,
/// name and blocked signals, but with no signals that wait, no alternate stack and no robust futexes. It
/// gets thread-local storage, and writes and clears its number, just as the flags say.
pub proof fn law_clones_are_as_asked_for(
    task: Task,
    parent: Task,
    args: CloneArgs,
    clone3: bool,
    tid: i32,
)
    requires
        is_clone(task, parent, args, clone3, tid),
    ensures
        task.tid == tid && task.thread.attached_tid == Some(tid),
        task.pid == parent.pid && task.ppid == parent.ppid,
        task.credentials == parent.credentials && task.comm == parent.comm,
        task.signals.blocked == parent.signals.blocked,
        task.signals.pending@.len() == 0,
        task.signals.altstack.flags & 2 != 0,
        task.thread.robust_list is None,
        ({
            &&& task.thread.init_state matches ThreadInitState::NewThread { tls, set_child_tid, .. }
            &&& tls == (if args.flags & 0x80000 != 0 {
                Some(args.tls)
            } else {
                None
            })
            &&& set_child_tid == (if args.flags & 0x100_0000 != 0 && args.child_tid != 0 {
                Some(args.child_tid)
            } else {
                None
            })
        }),
        task.thread.clear_child_tid == (if args.flags & 0x20_0000 != 0 && args.child_tid != 0 {
            Some(args.child_tid)
        } else {
            None
        }),
{
    let f = args.flags;
    assert((f & !0x400000u64) & 0x80000u64 == f & 0x80000u64 && (f & !0x400000u64) & 0x1000000u64 == f
        & 0x1000000u64 && (f & !0x400000u64) & 0x200000u64 == f & 0x200000u64 && 2u32 & 2u32 != 0) by (
    bit_vector);
}

/// A thread is cloned only if it shares memory, file system calls, handlers and the thread group with its
/// parent, asks for nothing that is not known, and names no number, no control group and no signal that does
/// not exist; `clone` may set the obsolete flag for detached threads, `clone3` may not. A stack needs both
/// ends for `clone3`, and a size needs a stack.
pub proof fn law_what_clones_may_ask_for(args: CloneArgs, clone3: bool)
    ensures
        clone_refused(args, clone3) == !({
            &&& args.flags & 0x10d00 == 0x10d00
            &&& args.flags & 0xffff_ffff_fe82_70ff == 0
            &&& args.flags & 0x40_0000 == 0 || !clone3
            &&& args.set_tid == 0 && args.set_tid_size == 0 && args.cgroup == 0
            &&& args.exit_signal <= 64
        }),
        bad_stack(args, clone3) == ((args.stack == 0) != (args.stack_size == 0) && (clone3 || args.stack
            == 0)),
{
    let f = args.flags;
    assert((f & !0x13d8f00u64 == 0) == (f & 0xffff_ffff_fe82_70ffu64 == 0 && f & 0x400000u64 == 0) && ((f
        & !0x400000u64) & !0x13d8f00u64 == 0) == (f & 0xffff_ffff_fe82_70ffu64 == 0) && (f & !0x400000u64)
        & 0x10d00u64 == f & 0x10d00u64 && (f & 0x1000u64 != 0 ==> f & 0xffff_ffff_fe82_70ffu64 != 0)) by (
    bit_vector);
}

} // verus!
