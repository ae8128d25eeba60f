//! Entering the shim, and small decisions of its calls.
use vstd::prelude::*;

use crate::errno::Errno;
use crate::lvbs::kernel::ContinueOperation;
use crate::shim::clock::{duration_since_epoch_to_deadline, time_until, ClockId, Deadline};
use crate::shim::limits::{initial_limit, RlimitResource, RLIMIT_NOFILE_CUR};
use crate::shim::pending::Siginfo;
use crate::shim::process::{ExitStatus, Process, ProcessModel};
use crate::shim::signal::{no_altstack, ExceptionInfo, SignalState, EXCEPTION_PAGE_FAULT};
use crate::shim::sigset::SigSet;
use crate::shim::syscall::Task;
use crate::shim::task::{comm_of, Credentials};
use crate::shim::thread::{ThreadInitState, ThreadState};
use crate::time::Duration;

verus! {

/// The number of the first thread that is not the main thread.
pub const FIRST_THREAD_ID: i32 = 2;

/// Why the shim is entered.
#[derive(Clone, Copy, PartialEq, Eq, Structural, Debug)]
pub enum Entry {
    /// A thread starts.
    Init,
    /// The guest calls.
    Syscall,
    /// The processor raised an exception.
    Exception(ExceptionInfo),
    /// The thread was interrupted.
    Interrupt,
}

/// What is done on an entry.
#[derive(Clone, Copy, PartialEq, Eq, Structural, Debug)]
pub enum EntryPlan {
    /// The page manager deals with the fault, and nothing else is done.
    PageFault { address: u64, error_code: u32 },
    /// The shim is entered; `from_guest` unless the thread has not run guest code yet.
    Enter { from_guest: bool },
}

/// Decides what is done on an entry: page faults in kernel mode are for the page manager alone.
pub fn entry_plan(entry: Entry) -> (r: EntryPlan)
    ensures
        r == (match entry {
            Entry::Exception(info) => if info.kernel_mode && info.exception
                == EXCEPTION_PAGE_FAULT {
                EntryPlan::PageFault { address: info.cr2, error_code: info.error_code }
            } else {
                EntryPlan::Enter { from_guest: true }
            },
            Entry::Init => EntryPlan::Enter { from_guest: false },
            Entry::Syscall | Entry::Interrupt => EntryPlan::Enter { from_guest: true },
        }),
{
    match entry {
        Entry::Exception(info) => {
            if info.kernel_mode && info.exception == EXCEPTION_PAGE_FAULT {
                return EntryPlan::PageFault { address: info.cr2, error_code: info.error_code };
            }
            EntryPlan::Enter { from_guest: true }
        },
        Entry::Init => EntryPlan::Enter { from_guest: false },
        Entry::Syscall | Entry::Interrupt => EntryPlan::Enter { from_guest: true },
    }
}

/// What follows an entry of the shim: the guest goes on if it is ready to, which it is after a page
/// fault that was dealt with.
pub fn enter_shim(ready: bool) -> (r: ContinueOperation)
    ensures
        r == (if ready {
            ContinueOperation::Resume
        } else {
            ContinueOperation::Terminate
        }),
{
    if ready {
        ContinueOperation::Resume
    } else {
        ContinueOperation::Terminate
    }
}

/// The parameters of a task.
#[derive(Clone, Copy, PartialEq, Eq, Structural, Debug)]
pub struct TaskParams {
    pub pid: i32,
    pub ppid: i32,
    pub uid: u32,
    pub euid: u32,
    pub gid: u32,
    pub egid: u32,
}

/// A handle to a process, by which one can wait for its end.
pub struct LinuxShimProcess {
    pub process: Process,
}

impl LinuxShimProcess {
    /// The exit code, once the process has ended: that of its last thread, or 256 and the number of the
    /// signal that ended it.
    pub fn wait(&self) -> (r: Option<i32>)
        requires
            self.process.well_formed(),
            self.process@.exit_status matches ExitStatus::Signal(signal) ==> signal <= 64,
        ensures
            match r {
                Some(code) => self.process@.threads.len() == 0 && code == (match
                    self.process@.exit_status {
                    ExitStatus::Exit(v) => v as int,
                    ExitStatus::Signal(signal) => signal + 256,
                }),
                None => self.process@.threads.len() > 0,
            },
    {
        match self.process.wait_for_exit() {
            Some(status) => Some(status.code()),
            None => None,
        }
    }
}

/// What a program is loaded into: its first task, its process, and the highest descriptor of its files.
pub struct LoadedProgram {
    pub task: Task,
    pub process: LinuxShimProcess,
    pub max_fd: u64,
}

/// The shim: it hands out the numbers of threads.
pub struct LinuxShim {
    pub next_thread_id: i32,
}

impl LinuxShim {
    /// A shim without threads but the main thread.
    pub fn new() -> (r: LinuxShim)
        ensures
            r.next_thread_id == FIRST_THREAD_ID,
    {
        LinuxShim { next_thread_id: FIRST_THREAD_ID }
    }

    /// Makes the process and the first task of a program. `stack_size` is the limit on its stack. The
    /// task gets its name when the program is loaded.
    pub fn load_program(&self, params: TaskParams, stack_size: u64) -> (r: LoadedProgram)
        ensures
            r.process.process.well_formed(),
            r.process.process@ == (ProcessModel {
                threads: map![params.pid => false],
                group_exit: false,
                killing: false,
                exit_status: ExitStatus::Exit(0),
                limits: r.process.process@.limits,
            }),
            forall|resource: RlimitResource| #[trigger]
                r.process.process@.limits.limit(resource) == initial_limit(resource, stack_size),
            r.max_fd == RLIMIT_NOFILE_CUR - 1,
            r.task == (Task {
                pid: params.pid,
                ppid: params.ppid,
                tid: params.pid,
                credentials: Credentials {
                    uid: params.uid,
                    euid: params.euid,
                    gid: params.gid,
                    egid: params.egid,
                },
                comm: r.task.comm,
                thread: ThreadState {
                    init_state: ThreadInitState::Started,
                    attached_tid: Some(params.pid),
                    clear_child_tid: None,
                    robust_list: None,
                },
                signals: r.task.signals,
            }),
            r.task.comm@ == comm_of(Seq::empty()),
            r.task.signals.well_formed(),
            r.task.signals.pending@ == Seq::<Siginfo>::empty(),
            r.task.signals.blocked == (SigSet { bits: 0 }),
            r.task.signals.altstack == no_altstack(),
    {
        let comm: [u8; 16] = [0u8; 16];
        assert(comm@ =~= comm_of(Seq::empty()));
        LoadedProgram {
            task: Task {
                pid: params.pid,
                ppid: params.ppid,
                tid: params.pid,
                credentials: Credentials {
                    uid: params.uid,
                    euid: params.euid,
                    gid: params.gid,
                    egid: params.egid,
                },
                comm,
                thread: ThreadState::new_process(params.pid),
                signals: SignalState::new_process(),
            },
            process: LinuxShimProcess { process: Process::new(params.pid, stack_size) },
            max_fd: RLIMIT_NOFILE_CUR - 1,
        }
    }
}

/// An open descriptor, and its flags where they could be read: whether it is closed when another
/// program is run.
#[derive(Clone, Copy, PartialEq, Eq, Structural, Debug)]
pub struct OpenFd {
    pub fd: u64,
    pub close_on_exec: Option<bool>,
}

/// The descriptors to close when another program is run.
pub open spec fn fds_to_close(fds: Seq<OpenFd>) -> Seq<u64>
    decreases fds.len(),
{
    if fds.len() == 0 {
        Seq::empty()
    } else {
        let rest = fds_to_close(fds.drop_last());
        if fds.last().close_on_exec == Some(true) {
            rest.push(fds.last().fd)
        } else {
            rest
        }
    }
}

/// The descriptors to close when another program is run, in order.
pub fn close_on_exec(fds: &Vec<OpenFd>) -> (r: Vec<u64>)
    ensures
        r@ == fds_to_close(fds@),
{
    let mut r: Vec<u64> = Vec::new();
    let mut i: usize = 0;
    while i < fds.len()
        invariant
            i <= fds@.len(),
            r@ == fds_to_close(fds@.take(i as int)),
        decreases fds@.len() - i,
    {
        let open = fds[i];
        proof {
            assert(fds@.take(i + 1).drop_last() =~= fds@.take(i as int));
        }
        if let Some(close) = open.close_on_exec {
            if close {
                r.push(open.fd);
            }
        }
        i = i + 1;
    }
    assert(fds@.take(i as int) =~= fds@);
    r
}

/// What a descriptor stands for.
#[derive(Clone, Copy, PartialEq, Eq, Structural, Debug)]
pub enum FdKind {
    File,
    Network,
    Pipe,
    Eventfd,
    Epoll,
    Unix,
}

/// The kinds that a number is a descriptor of.
#[derive(Clone, Copy, PartialEq, Eq, Structural, Debug)]
pub struct FdKinds {
    pub file: bool,
    pub network: bool,
    pub pipe: bool,
    pub eventfd: bool,
    pub epoll: bool,
    pub unix: bool,
}

/// The kind by which a descriptor is used: the first that fits.
pub fn run_on_raw_fd(kinds: FdKinds) -> (r: Result<FdKind, Errno>)
    ensures
        r == (if kinds.file {
            Ok(FdKind::File)
        } else if kinds.network {
            Ok(FdKind::Network)
        } else if kinds.pipe {
            Ok(FdKind::Pipe)
        } else if kinds.eventfd {
            Ok(FdKind::Eventfd)
        } else if kinds.epoll {
            Ok(FdKind::Epoll)
        } else if kinds.unix {
            Ok(FdKind::Unix)
        } else {
            Err(Errno::EBADF)
        }),
{
    if kinds.file {
        return Ok(FdKind::File);
    }
    if kinds.network {
        return Ok(FdKind::Network);
    }
    if kinds.pipe {
        return Ok(FdKind::Pipe);
    }
    if kinds.eventfd {
        return Ok(FdKind::Eventfd);
    }
    if kinds.epoll {
        return Ok(FdKind::Epoll);
    }
    if kinds.unix {
        return Ok(FdKind::Unix);
    }
    Err(Errno::EBADF)
}

/// Take the timeout by the clock that counts from the epoch.
pub const FUTEX_CLOCK_REALTIME: u32 = 0x100;

/// A request about a futex. Timeouts are what was read from the caller.
#[derive(Clone, Copy, PartialEq, Eq, Debug)]
pub enum FutexArgs {
    Wake { addr: u64, count: u32 },
    Wait { addr: u64, val: u32, timeout: Result<Option<Duration>, Errno> },
    WaitBitset {
        addr: u64,
        flags: u32,
        val: u32,
        timeout: Result<Option<Duration>, Errno>,
        bitmask: u32,
    },
}

/// What is to be done on such a request.
#[derive(Clone, Copy, PartialEq, Eq, Debug)]
pub enum FutexPlan {
    /// Nothing: the result is zero.
    Nothing,
    /// Wake waiters; their number is the result.
    Wake { addr: u64, count: u32 },
    /// Wait for at most some time.
    WaitFor { addr: u64, val: u32, timeout: Option<Duration> },
    /// Wait until a point in time, for a wake that shares a bit with the mask, where there is one.
    WaitUntil { addr: u64, val: u32, deadline: Option<Deadline>, bitmask: Option<u32> },
}

/// What is to be done on a request about a futex.
pub open spec fn futex_plan(args: FutexArgs, now: Duration) -> Result<FutexPlan, Errno> {
    match args {
        FutexArgs::Wake { addr, count } => Ok(
            if count == 0 {
                FutexPlan::Nothing
            } else {
                FutexPlan::Wake { addr, count }
            },
        ),
        FutexArgs::Wait { addr, val, timeout } => match timeout {
            Ok(timeout) => Ok(FutexPlan::WaitFor { addr, val, timeout }),
            Err(e) => Err(e),
        },
        FutexArgs::WaitBitset { addr, flags, val, timeout, bitmask } => match timeout {
            Err(e) => Err(e),
            Ok(timeout) => Ok(
                FutexPlan::WaitUntil {
                    addr,
                    val,
                    deadline: match timeout {
                        None => None,
                        Some(d) => if flags & FUTEX_CLOCK_REALTIME == 0 {
                            Some(Deadline::FromBoot(d))
                        } else {
                            Some(Deadline::FromNow(time_until(d, now)))
                        },
                    },
                    bitmask: if bitmask == 0 {
                        None
                    } else {
                        Some(bitmask)
                    },
                },
            ),
        },
    }
}

/// Decides what is to be done on a request about a futex. `now` is what the clock shows that counts from
/// the epoch. All futexes count as private.
pub fn sys_futex(args: FutexArgs, now: Duration) -> (r: Result<FutexPlan, Errno>)
    requires
        args matches FutexArgs::WaitBitset { timeout: Ok(Some(d)), .. } ==> d.well_formed(),
        now.well_formed(),
    ensures
        r == futex_plan(args, now),
{
    match args {
        FutexArgs::Wake { addr, count } => {
            if count == 0 {
                return Ok(FutexPlan::Nothing);
            }
            Ok(FutexPlan::Wake { addr, count })
        },
        FutexArgs::Wait { addr, val, timeout } => match timeout {
            Ok(timeout) => Ok(FutexPlan::WaitFor { addr, val, timeout }),
            Err(e) => Err(e),
        },
        FutexArgs::WaitBitset { addr, flags, val, timeout, bitmask } => {
            let deadline = match timeout {
                Ok(Some(timeout)) => {
                    let clock = if flags & FUTEX_CLOCK_REALTIME != 0 {
                        ClockId::RealTime
                    } else {
                        ClockId::Monotonic
                    };
                    match duration_since_epoch_to_deadline(clock, timeout, now) {
                        Ok(deadline) => Some(deadline),
                        Err(e) => return Err(e),
                    }
                },
                Ok(None) => None,
                Err(e) => return Err(e),
            };
            let bitmask = if bitmask == 0 {
                None
            } else {
                Some(bitmask)
            };
            Ok(FutexPlan::WaitUntil { addr, val, deadline, bitmask })
        },
    }
}

/// The result of a request about a futex, given what came of waking, which is the number of threads, or
/// of waiting.
pub open spec fn futex_end(plan: FutexPlan, outcome: Result<u64, Errno>) -> Result<u64, Errno> {
    match plan {
        FutexPlan::Nothing => Ok(0u64),
        FutexPlan::Wake { .. } => outcome,
        _ => match outcome {
            Ok(_) => Ok(0u64),
            Err(e) => Err(e),
        },
    }
}

/// The result of a request about a futex.
pub fn futex_result(plan: &FutexPlan, outcome: Result<u64, Errno>) -> (r: Result<u64, Errno>)
    ensures
        r == futex_end(*plan, outcome),
{
    match *plan {
        FutexPlan::Nothing => Ok(0),
        FutexPlan::Wake { .. } => outcome,
        _ => match outcome {
            Ok(_) => Ok(0),
            Err(e) => Err(e),
        },
    }
}

/// A request about the base of the thread-local storage, or about the shadow stack.
#[derive(Clone, Copy, PartialEq, Eq, Structural, Debug)]
pub enum ArchPrctlArg {
    /// Make this address the base.
    SetFs(u64),
    /// Write the base to this address.
    GetFs(u64),
    CetStatus,
    CetDisable,
    CetLock,
}

/// What the platform is to do for such a request.
#[derive(Clone, Copy, PartialEq, Eq, Structural, Debug)]
pub enum FsAction {
    /// Make the address the base of the thread.
    Write(u64),
    /// Tell the base of the thread, for [`fs_read`].
    Read { to: u64 },
}

/// What the platform is to do for such a request. Shadow stacks are not supported.
pub open spec fn fs_action(arg: ArchPrctlArg) -> Result<FsAction, Errno> {
    match arg {
        ArchPrctlArg::SetFs(addr) => Ok(FsAction::Write(addr)),
        ArchPrctlArg::GetFs(to) => Ok(FsAction::Read { to }),
        ArchPrctlArg::CetStatus | ArchPrctlArg::CetDisable | ArchPrctlArg::CetLock => Err(
            Errno::EINVAL,
        ),
    }
}

/// Decides what the platform is to do for such a request.
pub fn sys_arch_prctl(arg: ArchPrctlArg) -> (r: Result<FsAction, Errno>)
    ensures
        r == fs_action(arg),
{
    match arg {
        ArchPrctlArg::SetFs(addr) => Ok(FsAction::Write(addr)),
        ArchPrctlArg::GetFs(to) => Ok(FsAction::Read { to }),
        ArchPrctlArg::CetStatus | ArchPrctlArg::CetDisable | ArchPrctlArg::CetLock => Err(
            Errno::EINVAL,
        ),
    }
}

/// What is written for the caller once the platform has told the base: the address, and the value.
pub fn fs_read(to: u64, base: Result<u64, Errno>) -> (r: Result<(u64, u64), Errno>)
    ensures
        r == fs_written(to, base),
{
    match base {
        Ok(b) => Ok((to, b)),
        Err(e) => Err(e),
    }
}

/// What is written for the caller once the platform has told the base.
pub open spec fn fs_written(to: u64, base: Result<u64, Errno>) -> Result<(u64, u64), Errno> {
    match base {
        Ok(b) => Ok((to, b)),
        Err(e) => Err(e),
    }
}

/// The base of a thread after the platform has done its part.
pub open spec fn fs_base_after(base: u64, action: FsAction) -> u64 {
    match action {
        FsAction::Write(addr) => addr,
        FsAction::Read { .. } => base,
    }
}

/// A request to read the base, after one that set it, writes the address that was set to where the
/// caller wants it.
pub proof fn law_fs_base_reads_back(base: u64, addr: u64, to: u64)
    ensures
        fs_action(ArchPrctlArg::SetFs(addr)) == Ok::<FsAction, Errno>(FsAction::Write(addr)),
        fs_action(ArchPrctlArg::GetFs(to)) matches Ok(FsAction::Read { to: at }) && fs_written(
            at,
            Ok(fs_base_after(base, fs_action(ArchPrctlArg::SetFs(addr))->Ok_0)),
        ) == Ok::<(u64, u64), Errno>((to, addr)),
{
}

} // verus!
