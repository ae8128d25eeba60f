//! System calls: what is done for each of them, step by step.
//!
//! A call is a machine: it names the next step, whoever runs it performs the step, hands back the
//! outcome, and so on until there is a result. Calls on files, memory and sockets are the work of
//! handlers of their own; what surrounds it, from reading a path to copying data out in pieces, is
//! decided here. Calls that concern the task, its process, its signals and its time are decided here from
//! the first step to the last, with every value that is read from the guest or written to it.
use vstd::prelude::*;

use crate::errno::Errno;
use crate::shim::clock::{
    gettime_as_duration, reading, resolution, sleep_plan, sys_clock_getres, sys_clock_nanosleep,
    sys_gettimeofday, sys_time, timeval, ClockId, SleepEnd, SleepPlan, TimeVal, TimeZone,
    TIMER_ABSTIME,
};
use crate::shim::entry::{
    fs_action, fs_base_after, fs_read, fs_written, futex_end, futex_plan, futex_result, sys_arch_prctl, sys_futex,
    ArchPrctlArg, FsAction, FutexArgs, FutexPlan, FUTEX_CLOCK_REALTIME,
};
use crate::shim::limits::{
    is_supported, limits_after, prlimit_result, sys_getrlimit, sys_prlimit, LimitChange, ResourceLimits,
    Rlimit, RlimitResource,
};
use crate::shim::pending::{user_signal, Siginfo};
use crate::shim::process::{exit_code, truncate_status, ExitStatus, Process, ProcessModel};
use crate::shim::robust::ROBUST_LIST_HEAD_SIZE;
use crate::shim::signal::{
    altstack_request, change_mask, forced, kernel_signal, masked, seen_altstack, sent,
    sigaction_result, Handler, MaskChange, SigAction, SigAltStack, SigmaskHow, SignalHandlers,
    SignalState, SIGSET_BYTES,
};
use crate::shim::sigset::{is_signal, SigSet, SIGKILL, SIGSEGV, SIGSTOP};
use crate::shim::task::{
    affinity_byte, affinity_fits, comm_of, mask_fits, prctl_action, sys_prctl, Credentials, NameReader,
    PrctlAction, PrctlArg, NR_CPUS,
};
use crate::shim::thread::{CloneArgs, PtRegs, ThreadState};
use crate::time::Duration;

verus! {

/// The largest amount that is read or written at once.
pub const MAX_KERNEL_BUF_SIZE: u64 = 0x80_000;

/// A task: one thread of a process.
pub struct Task {
    pub pid: i32,
    pub ppid: i32,
    pub tid: i32,
    pub credentials: Credentials,
    /// Its name.
    pub comm: [u8; 16],
    pub thread: ThreadState,
    pub signals: SignalState,
}

/// A request about a futex, with the address of its timeout where it has one.
#[derive(Clone, Copy, PartialEq, Eq, Structural, Debug)]
pub enum FutexRequest {
    Wake { addr: u64, count: u32 },
    Wait { addr: u64, val: u32, timeout: u64 },
    WaitBitset { addr: u64, flags: u32, val: u32, timeout: u64, bitmask: u32 },
}

/// A request of a guest, with its arguments.
#[derive(Clone, Copy, PartialEq, Eq, Structural, Debug)]
pub enum SyscallRequest {
    Exit { status: i32 },
    ExitGroup { status: i32 },
    Execve { pathname: u64, argv: u64, envp: u64 },
    Read { fd: i32, buf: u64, count: u64 },
    Write { fd: i32, buf: u64, count: u64 },
    Close { fd: i32 },
    Lseek { fd: i32, offset: i64, whence: i32 },
    Mkdir { pathname: u64, mode: u32 },
    Chdir { pathname: u64 },
    RtSigprocmask { how: SigmaskHow, set: Option<u64>, oldset: Option<u64>, sigsetsize: u64 },
    RtSigaction { signum: u32, act: Option<u64>, oldact: Option<u64>, sigsetsize: u64 },
    RtSigreturn,
    Ioctl { fd: i32, cmd: u32, arg: u64 },
    Pread64 { fd: i32, buf: u64, count: u64, offset: i64 },
    Pwrite64 { fd: i32, buf: u64, count: u64, offset: i64 },
    Mmap { addr: u64, length: u64, prot: u32, flags: u32, fd: i32, offset: u64 },
    Mprotect { addr: u64, length: u64, prot: u32 },
    Mremap { old_addr: u64, old_size: u64, new_size: u64, flags: u32, new_addr: u64 },
    Munmap { addr: u64, length: u64 },
    Brk { addr: u64 },
    Readv { fd: i32, iovec: u64, iovcnt: u64 },
    Writev { fd: i32, iovec: u64, iovcnt: u64 },
    Access { pathname: u64, mode: u32 },
    Madvise { addr: u64, length: u64, behavior: i32 },
    Dup { oldfd: i32, newfd: Option<i32>, flags: Option<u32> },
    Socket { domain: i32, type_and_flags: u32, protocol: u32 },
    Socketpair { domain: i32, type_and_flags: u32, protocol: u32, sockvec: u64 },
    Connect { sockfd: i32, sockaddr: u64, addrlen: u64 },
    Accept { sockfd: i32, addr: Option<u64>, addrlen: u64, flags: u32 },
    Sendto { sockfd: i32, buf: u64, len: u64, flags: u32, addr: Option<u64>, addrlen: u64 },
    Sendmsg { sockfd: i32, msg: u64, flags: u32 },
    Recvfrom { sockfd: i32, buf: u64, len: u64, flags: u32, addr: Option<u64>, addrlen: u64 },
    Bind { sockfd: i32, sockaddr: u64, addrlen: u64 },
    Listen { sockfd: i32, backlog: i32 },
    Setsockopt { sockfd: i32, level: u32, optname: u32, optval: u64, optlen: u64 },
    Getsockopt { sockfd: i32, level: u32, optname: u32, optval: u64, optlen: u64 },
    Getsockname { sockfd: i32, addr: u64, addrlen: u64 },
    Getpeername { sockfd: i32, addr: u64, addrlen: u64 },
    Uname { buf: u64 },
    Fcntl { fd: i32, cmd: i32, arg: u64 },
    Getcwd { buf: u64, size: u64 },
    EpollCtl { epfd: i32, op: i32, fd: i32, event: u64 },
    EpollCreate { hint: i32, flags: u32 },
    EpollPwait { epfd: i32, events: u64, maxevents: u32, timeout: i32, sigmask: Option<u64>, sigsetsize: u64 },
    Prctl { arg: PrctlArg },
    ArchPrctl { arg: ArchPrctlArg },
    Readlink { pathname: u64, buf: u64, bufsiz: u64 },
    Ppoll { fds: u64, nfds: u64, timeout: u64, sigmask: Option<u64>, sigsetsize: u64 },
    Pselect {
        nfds: u32,
        readfds: Option<u64>,
        writefds: Option<u64>,
        exceptfds: Option<u64>,
        timeout: u64,
        sigsetpack: Option<u64>,
    },
    Readlinkat { dirfd: i32, pathname: u64, buf: u64, bufsiz: u64 },
    Gettimeofday { tv: Option<u64>, tz: Option<u64> },
    ClockGettime { clockid: i32, tp: u64 },
    ClockGetres { clockid: i32, res: u64 },
    ClockNanosleep { clockid: i32, flags: u32, request: u64, remain: u64 },
    Time { tloc: Option<u64> },
    Openat { dirfd: i32, pathname: u64, flags: u32, mode: u32 },
    Ftruncate { fd: i32, length: u64 },
    Unlinkat { dirfd: i32, pathname: u64, flags: u32 },
    Stat { pathname: u64, buf: u64 },
    Lstat { pathname: u64, buf: u64 },
    Fstat { fd: i32, buf: u64 },
    Newfstatat { dirfd: i32, pathname: u64, buf: u64, flags: u32 },
    Eventfd2 { initval: u32, flags: u32 },
    Pipe2 { pipefd: u64, flags: u32 },
    Clone { args: CloneArgs },
    Clone3 { args: u64 },
    SetThreadArea { user_desc: u64 },
    SetTidAddress { tidptr: u64 },
    Gettid,
    Getrlimit { resource: RlimitResource, rlim: u64 },
    Setrlimit { resource: RlimitResource, rlim: u64 },
    Prlimit { pid: i32, resource: RlimitResource, new_limit: Option<u64>, old_limit: Option<u64> },
    SetRobustList { head: u64 },
    GetRobustList { pid: Option<i32>, head: u64, len: u64 },
    GetRandom { buf: u64, count: u64, flags: u32 },
    Getpid,
    Getppid,
    Getuid,
    Getgid,
    Geteuid,
    Getegid,
    Sysinfo { buf: u64 },
    CapGet { header: u64, data: Option<u64> },
    GetDirent64 { fd: i32, dirp: u64, count: u64 },
    SchedGetAffinity { pid: Option<i32>, len: u64, mask: u64 },
    SchedYield,
    Futex { args: FutexRequest },
    Umask { mask: u32 },
    Kill { pid: i32, sig: i32 },
    Tkill { tid: i32, sig: i32 },
    Tgkill { tgid: i32, tid: i32, sig: i32 },
    /// `sp` is the stack pointer of the caller.
    Sigaltstack { ss: Option<u64>, old_ss: Option<u64>, sp: u64 },
    Alarm { seconds: u32 },
    /// A call that is not known.
    Unsupported,
}

impl SyscallRequest {
    /// The request can be dealt with: it names a signal where it is about one, and no other process
    /// where limits and robust futexes are concerned.
    pub open spec fn supported(self) -> bool {
        match self {
            SyscallRequest::RtSigaction { signum, .. } => is_signal(signum as int),
            SyscallRequest::Prlimit { pid, .. } => pid == 0,
            SyscallRequest::GetRobustList { pid, .. } => pid is None,
            _ => true,
        }
    }
}

/// What is done with the value of a handler.
#[derive(Clone, Copy, PartialEq, Eq, Structural, Debug)]
pub enum After {
    /// It is the result.
    Return,
    /// It is the number of bytes in the buffer: they are copied out, and it is the result.
    CopyTo { addr: u64 },
    /// It is written out; the result is zero.
    WriteTo { addr: u64 },
    /// It is a pair, written out one after the other; the result is zero.
    WritePair { addr: u64 },
}

/// A value in the memory of the guest.
#[derive(Clone, Copy, PartialEq, Eq, Debug)]
pub enum Record {
    Byte(u8),
    Word(u64),
    /// The name of a task.
    Name([u8; 16]),
    Zone(TimeZone),
    Time(TimeVal),
    Limit(Rlimit),
    Mask(SigSet),
    Action(SigAction),
    Stack(SigAltStack),
    Clone(CloneArgs),
}

/// What is read from the guest, and for what.
#[derive(Clone, Copy, PartialEq, Eq, Structural, Debug)]
pub enum Purpose {
    /// A limit, to be set; the one before is then written, where the caller wants it.
    Limit { resource: RlimitResource, old: Option<u64>, error: Errno },
    /// Signals, to be blocked or not; those before are written first, where the caller wants them.
    Mask { how: SigmaskHow, blocked: SigSet, old: Option<u64> },
    /// An action, to be set; the one before is then written, where the caller wants it.
    Action { signal: u32, old: Option<u64> },
    /// An alternate stack, to be set.
    Stack,
    /// The arguments of a clone.
    Clone,
}

/// What follows a write.
#[derive(Clone, Copy, PartialEq, Eq, Debug)]
pub enum Next {
    /// This is the result.
    Finish(u64),
    /// Nothing: the call fails.
    Refuse(Errno),
    /// Another write; the result is then zero.
    Write { addr: u64, record: Record },
    /// The signals are blocked.
    Mask { blocked: SigSet },
    /// A new alternate stack is read.
    Stack { addr: u64 },
}

/// A change of the task, of its process or of its handlers.
#[derive(Clone, Copy, PartialEq, Eq, Debug)]
pub enum Change {
    Name { comm: [u8; 16] },
    Limit { resource: RlimitResource, new: Rlimit, old: Option<u64> },
    Mask { blocked: SigSet },
    Action { signal: u32, action: SigAction, old: Option<u64> },
    Stack { stack: SigAltStack },
    /// The return from a handler, with what its frame kept, if it could be read.
    Return { frame: Option<(SigAltStack, SigSet)> },
}

/// A clock of the platform.
#[derive(Clone, Copy, PartialEq, Eq, Structural, Debug)]
pub enum Since {
    Epoch,
    /// Since the shim was started.
    Boot,
}

/// What a point in time is needed for.
#[derive(Clone, Copy, PartialEq, Eq, Structural, Debug)]
pub enum TimeUse {
    /// The reading of a clock, to be written.
    Clock { clock: ClockId, tp: u64 },
    /// The time of day, and the time zone.
    Day { tv: u64, tz: Option<u64> },
    /// The seconds since the epoch.
    Seconds { tloc: Option<u64> },
    /// A sleep until a clock shows a time.
    Sleep { clock: ClockId, flags: u32, until: Duration, remain: u64 },
    /// A wait until the clock that counts from the epoch shows a time.
    Futex { addr: u64, flags: u32, val: u32, until: Duration, bitmask: u32 },
}

/// What a clock is named for.
#[derive(Clone, Copy, PartialEq, Eq, Structural, Debug)]
pub enum ClockUse {
    Gettime { tp: u64 },
    Getres { res: u64 },
    Sleep { flags: u32, request: u64, remain: u64 },
}

/// What a span of time is read from the guest for.
#[derive(Clone, Copy, PartialEq, Eq, Structural, Debug)]
pub enum SpanUse {
    Sleep { clock: ClockId, flags: u32, remain: u64 },
    Wait { addr: u64, val: u32 },
    WaitBitset { addr: u64, flags: u32, val: u32, bitmask: u32 },
}

/// What a call waits for.
#[derive(Clone, Copy, PartialEq, Eq, Debug)]
pub enum Phase {
    /// The path at an address; without it the call fails with the error. `buffer` is the size of the
    /// buffer that the handler fills.
    Path { request: SyscallRequest, addr: u64, error: Errno, buffer: Option<u64>, after: After },
    /// The bytes at an address, for the handler.
    Bytes { request: SyscallRequest, addr: u64, len: u64 },
    /// Whether the number names a way to seek.
    Convert { request: SyscallRequest, number: i32 },
    /// The handler.
    Call { request: SyscallRequest, buffer: Option<u64>, after: After },
    /// The copy of what is in the buffer.
    Copy { addr: u64, size: u64 },
    /// The write of a value, or of a part of it; `last` if it is the only or the second part, which
    /// stands behind the first.
    WriteOut { addr: u64, last: bool },
    /// The position in a file, before a large read.
    Position { fd: i32, buf: u64, count: u64 },
    /// A piece of a read. `start` is where the file stood, if its position is to be moved.
    Piece { fd: i32, buf: u64, count: u64, offset: i64, done: u64, start: Option<i64> },
    /// The copy of a piece.
    PieceCopy { fd: i32, buf: u64, count: u64, offset: i64, done: u64, start: Option<i64>, size: u64 },
    /// The new position in the file.
    Reposition { fd: i32, position: i64, total: u64 },
    /// The write of a record; without it the call fails with the error.
    Put { addr: u64, record: Record, error: Errno, next: Next },
    /// A record of the guest.
    Fetch { addr: u64, purpose: Purpose },
    /// A byte of a name.
    Name { addr: u64, reader: NameReader },
    /// The frame of a handler that returns.
    Frame,
    /// The registers that the frame kept.
    Restore,
    /// The change of a task.
    Apply { change: Change },
    /// The highest descriptor of files; the limit before is then written, where the caller wants it.
    MaxFd { max_fd: u64, limit: Rlimit, old: Option<u64> },
    /// The base of the thread-local storage, to be set.
    SetFs { addr: u64 },
    /// The base of the thread-local storage, to be told.
    GetFs { to: u64 },
    /// The clock with a number.
    Clock { number: i32, purpose: ClockUse },
    /// The time.
    Now { since: Since, purpose: TimeUse },
    /// A span of time of the guest.
    Span { addr: u64, purpose: SpanUse },
    /// The write of a span of time; `interrupted` if it is what is left of a sleep.
    PutTime { addr: u64, time: Duration, interrupted: bool },
    /// The end of a sleep.
    Sleep { plan: SleepPlan, remain: u64 },
    /// What comes of a futex.
    Futex { plan: FutexPlan },
    /// The new thread.
    Clone { args: CloneArgs, clone3: bool },
    /// Nothing: this is the result.
    Finished { result: Result<u64, Errno> },
}

/// A step to perform.
#[derive(Clone, Copy, PartialEq, Eq, Debug)]
pub enum Step {
    /// Read a path from the guest.
    ReadPath { addr: u64 },
    /// Read bytes from the guest.
    ReadBytes { addr: u64, len: u64 },
    /// Tell whether a number names a way to seek.
    Convert { number: i32 },
    /// Run the handler of the request, with a buffer of this size where it fills one.
    Handle { request: SyscallRequest, buffer: Option<u64> },
    /// Copy the first bytes of the buffer to the guest.
    CopyOut { addr: u64, offset: u64, len: u64 },
    /// Write the value of the handler, or its next part, to the guest.
    WriteOut { addr: u64 },
    /// Tell the position in a file.
    Tell { fd: i32 },
    /// Read a piece of a file into the buffer.
    Pread { fd: i32, len: u64, position: i64 },
    /// Set the position in a file.
    SeekTo { fd: i32, position: i64 },
    /// Write the record to the guest.
    Put { addr: u64, record: Record },
    /// Read the record that the purpose names from the guest.
    Fetch { addr: u64, purpose: Purpose },
    /// Read a byte from the guest.
    ReadByte { addr: u64 },
    /// Read the frame of the handler that returns.
    ReadFrame,
    /// Restore the registers from that frame; the value is what the call returns.
    RestoreContext,
    /// Make the change, see [`apply`].
    Apply { change: Change },
    /// Set the highest descriptor of files.
    SetMaxFd { max_fd: u64 },
    /// Make the address the base of the thread-local storage.
    SetFs { addr: u64 },
    /// Tell the base of the thread-local storage.
    GetFs,
    /// Tell which clock has the number.
    Clock { number: i32 },
    /// Tell the time.
    Now { since: Since },
    /// Read a span of time from the guest.
    ReadTime { addr: u64 },
    /// Write a span of time to the guest.
    WriteTime { addr: u64, time: Duration },
    /// Sleep.
    Sleep { plan: SleepPlan },
    /// Wake threads that wait for a futex, or wait for one.
    Futex { plan: FutexPlan },
    /// Clone the thread.
    Clone { args: CloneArgs, clone3: bool },
    /// There is nothing to do: this is the result.
    Done { result: Result<u64, Errno> },
}

/// The outcome of a step.
#[derive(Clone, Copy, PartialEq, Eq, Debug)]
pub enum Reply {
    /// Of reading, writing, copying and converting: whether it worked.
    Worked(bool),
    /// Of handlers, of reads, of positions, and of the platform.
    Value(Result<u64, Errno>),
    /// Of reading a record.
    Record(Option<Record>),
    /// Of reading a byte.
    Byte(Option<u8>),
    /// Of reading a frame: the alternate stack and the blocked signals that it kept.
    Frame(Option<(SigAltStack, SigSet)>),
    /// Of a change of a limit.
    Limit(Result<LimitChange, Errno>),
    /// Of a change of an action: the action before.
    Action(Result<SigAction, Errno>),
    /// Of other changes.
    Applied(Result<(), Errno>),
    /// Of naming a clock.
    Clock(Option<ClockId>),
    /// Of telling the time.
    Time(Duration),
    /// Of reading a span of time.
    Span(Result<Option<Duration>, Errno>),
    /// Of a sleep: whether it was cut short, and what was left of it.
    Slept { interrupted: bool, remaining: Option<Duration> },
}

/// A signed number of 32 bits, taken as one without sign.
pub open spec fn unsigned(n: i32) -> u64 {
    (n as int % 0x1_0000_0000) as u64
}

/// What a signal that is sent to a process, a thread or both comes to.
pub open spec fn kill_result(task: Task, pid: Option<i32>, tid: Option<i32>, sig: i32) -> Result<
    u64,
    Errno,
> {
    if !is_signal(sig as int) {
        Err(Errno::EINVAL)
    } else if (pid matches Some(p) && p != task.pid) || (tid matches Some(t) && t != task.tid) {
        Err(Errno::ESRCH)
    } else {
        Ok(0)
    }
}

/// The smaller of a size and the largest buffer.
pub open spec fn buffer_size(size: u64) -> u64 {
    if size <= MAX_KERNEL_BUF_SIZE {
        size
    } else {
        MAX_KERNEL_BUF_SIZE
    }
}

/// A call that is done.
pub open spec fn finished(result: Result<u64, Errno>) -> Phase {
    Phase::Finished { result }
}

/// A read in pieces: nothing is read where nothing is asked for.
pub open spec fn pieces(
    fd: i32,
    buf: u64,
    count: u64,
    offset: i64,
    done: u64,
    start: Option<i64>,
) -> Phase {
    if done < count {
        Phase::Piece { fd, buf, count, offset, done, start }
    } else {
        pieces_end(fd, done, start)
    }
}

/// Where the descriptor behind the one at an address stands: addresses wrap around.
pub open spec fn next_descriptor(addr: u64) -> u64 {
    ((addr + 4) % 0x1_0000_0000_0000_0000) as u64
}

/// The end of a read in pieces: the position in the file is moved, where it is to be.
pub open spec fn pieces_end(fd: i32, done: u64, start: Option<i64>) -> Phase {
    match start {
        Some(s) => Phase::Reposition { fd, position: (s + done) as i64, total: done },
        None => finished(Ok(done)),
    }
}

/// What follows a write that worked.
pub open spec fn after_put(next: Next) -> Phase {
    match next {
        Next::Finish(value) => finished(Ok(value)),
        Next::Refuse(e) => finished(Err(e)),
        Next::Write { addr, record } => Phase::Put {
            addr,
            record,
            error: Errno::EFAULT,
            next: Next::Finish(0),
        },
        Next::Mask { blocked } => Phase::Apply { change: Change::Mask { blocked } },
        Next::Stack { addr } => Phase::Fetch { addr, purpose: Purpose::Stack },
    }
}

/// The write of a record, where the caller wants it, and what follows.
pub open spec fn put_wanted(addr: Option<u64>, record: Record, error: Errno, next: Next) -> Phase {
    match addr {
        Some(addr) => Phase::Put { addr, record, error, next },
        None => after_put(next),
    }
}

/// The end of a request about a limit.
pub open spec fn limit_told(old: Option<u64>, limit: Rlimit) -> Phase {
    put_wanted(old, Record::Limit(limit), Errno::EINVAL, Next::Finish(0))
}

/// The end of a request about an action.
pub open spec fn action_told(old: Option<u64>, before: Result<SigAction, Errno>) -> Phase {
    match before {
        Ok(action) => put_wanted(old, Record::Action(action), Errno::EFAULT, Next::Finish(0)),
        Err(e) => finished(Err(e)),
    }
}

/// A sleep that was decided on.
pub open spec fn sleeping(plan: Result<SleepPlan, Errno>, remain: u64) -> Phase {
    match plan {
        Ok(plan) => Phase::Sleep { plan, remain },
        Err(e) => finished(Err(e)),
    }
}

/// What was decided about a futex.
pub open spec fn futex_decided(plan: Result<FutexPlan, Errno>) -> Phase {
    match plan {
        Ok(FutexPlan::Nothing) => finished(Ok(0)),
        Ok(plan) => Phase::Futex { plan },
        Err(e) => finished(Err(e)),
    }
}

/// A name is read byte by byte; when it has been, it becomes that of the task.
pub open spec fn name_next(addr: u64, reader: NameReader) -> Phase {
    if reader.reading() {
        Phase::Name { addr, reader }
    } else {
        Phase::Apply { change: Change::Name { comm: reader.spec_comm() } }
    }
}

/// What is done for a request about the task.
pub open spec fn prctl_phase(action: Result<PrctlAction, Errno>) -> Phase {
    match action {
        Ok(PrctlAction::Write { to, name }) => Phase::Put {
            addr: to,
            record: Record::Name(name),
            error: Errno::EFAULT,
            next: Next::Finish(0),
        },
        Ok(PrctlAction::Read { from }) => Phase::Name { addr: from, reader: NameReader::start() },
        Ok(PrctlAction::Return(value)) => finished(Ok(value)),
        Err(e) => finished(Err(e)),
    }
}

/// What is done for a request about the base of the thread-local storage.
pub open spec fn fs_phase(action: Result<FsAction, Errno>) -> Phase {
    match action {
        Ok(FsAction::Write(addr)) => Phase::SetFs { addr },
        Ok(FsAction::Read { to }) => Phase::GetFs { to },
        Err(e) => finished(Err(e)),
    }
}

/// The head of the list of robust futexes, zero where there is none.
pub open spec fn robust_head(thread: ThreadState) -> u64 {
    match thread.robust_list {
        Some(head) => head,
        None => 0,
    }
}

/// What is done for a request about the alternate stack.
pub open spec fn stack_phase(altstack: SigAltStack, ss: Option<u64>, old_ss: Option<u64>, sp: u64) -> Phase {
    let next = match ss {
        None => Next::Finish(0),
        Some(addr) => if altstack.covers(sp) {
            Next::Refuse(Errno::EPERM)
        } else {
            Next::Stack { addr }
        },
    };
    put_wanted(old_ss, Record::Stack(seen_altstack(altstack, sp)), Errno::EFAULT, next)
}

/// The zone that is written for a caller.
pub open spec fn greenwich() -> TimeZone {
    TimeZone { tz_minuteswest: 0, tz_dsttime: 0 }
}

/// Where a call starts.
pub open spec fn first_phase(
    task: Task,
    limits: ResourceLimits,
    handlers: Seq<Handler>,
    request: SyscallRequest,
) -> Phase {
    match request {
        SyscallRequest::Exit { .. } | SyscallRequest::ExitGroup { .. } => finished(Ok(0)),
        SyscallRequest::Read { fd, buf, count } => if count <= MAX_KERNEL_BUF_SIZE {
            Phase::Call { request, buffer: Some(count), after: After::CopyTo { addr: buf } }
        } else {
            Phase::Position { fd, buf, count }
        },
        SyscallRequest::Write { buf, count, .. } => Phase::Bytes { request, addr: buf, len: count },
        SyscallRequest::Pwrite64 { buf, count, .. } => Phase::Bytes { request, addr: buf, len: count },
        SyscallRequest::Lseek { whence, .. } => Phase::Convert { request, number: whence },
        SyscallRequest::ClockGettime { clockid, tp } => Phase::Clock {
            number: clockid,
            purpose: ClockUse::Gettime { tp },
        },
        SyscallRequest::ClockGetres { clockid, res } => Phase::Clock {
            number: clockid,
            purpose: ClockUse::Getres { res },
        },
        SyscallRequest::ClockNanosleep { clockid, flags, request, remain } => Phase::Clock {
            number: clockid,
            purpose: ClockUse::Sleep { flags, request, remain },
        },
        SyscallRequest::Mkdir { pathname, .. } | SyscallRequest::Chdir { pathname } => Phase::Path {
            request,
            addr: pathname,
            error: Errno::EINVAL,
            buffer: None,
            after: After::Return,
        },
        SyscallRequest::Access { pathname, .. } => Phase::Path {
            request,
            addr: pathname,
            error: Errno::EFAULT,
            buffer: None,
            after: After::Return,
        },
        SyscallRequest::Openat { pathname, .. } => Phase::Path {
            request,
            addr: pathname,
            error: Errno::EFAULT,
            buffer: None,
            after: After::Return,
        },
        SyscallRequest::Unlinkat { pathname, .. } => Phase::Path {
            request,
            addr: pathname,
            error: Errno::EFAULT,
            buffer: None,
            after: After::Return,
        },
        SyscallRequest::Stat { pathname, buf } | SyscallRequest::Lstat { pathname, buf } =>
            Phase::Path {
            request,
            addr: pathname,
            error: Errno::EFAULT,
            buffer: None,
            after: After::WriteTo { addr: buf },
        },
        SyscallRequest::Newfstatat { pathname, buf, .. } => Phase::Path {
            request,
            addr: pathname,
            error: Errno::EFAULT,
            buffer: None,
            after: After::WriteTo { addr: buf },
        },
        SyscallRequest::Readlink { pathname, buf, bufsiz } => Phase::Path {
            request,
            addr: pathname,
            error: Errno::EFAULT,
            buffer: Some(buffer_size(bufsiz)),
            after: After::CopyTo { addr: buf },
        },
        SyscallRequest::Readlinkat { pathname, buf, bufsiz, .. } => Phase::Path {
            request,
            addr: pathname,
            error: Errno::EFAULT,
            buffer: Some(buffer_size(bufsiz)),
            after: After::CopyTo { addr: buf },
        },
        SyscallRequest::Getcwd { buf, size } => Phase::Call {
            request,
            buffer: Some(buffer_size(size)),
            after: After::CopyTo { addr: buf },
        },
        SyscallRequest::Fstat { buf, .. } => Phase::Call {
            request,
            buffer: None,
            after: After::WriteTo { addr: buf },
        },
        SyscallRequest::Sysinfo { buf } => Phase::Call {
            request,
            buffer: None,
            after: After::WriteTo { addr: buf },
        },
        SyscallRequest::Pipe2 { pipefd, .. } => Phase::Call {
            request,
            buffer: None,
            after: After::WritePair { addr: pipefd },
        },
        SyscallRequest::GetRobustList { head, len, .. } => Phase::Put {
            addr: head,
            record: Record::Word(robust_head(task.thread)),
            error: Errno::EFAULT,
            next: Next::Write { addr: len, record: Record::Word(ROBUST_LIST_HEAD_SIZE) },
        },
        SyscallRequest::Prctl { arg } => prctl_phase(prctl_action(task.comm, arg)),
        SyscallRequest::ArchPrctl { arg } => fs_phase(fs_action(arg)),
        SyscallRequest::Gettimeofday { tv, tz } => match tv {
            Some(tv) => Phase::Now { since: Since::Epoch, purpose: TimeUse::Day { tv, tz } },
            None => put_wanted(tz, Record::Zone(greenwich()), Errno::EFAULT, Next::Finish(0)),
        },
        SyscallRequest::Time { tloc } => Phase::Now {
            since: Since::Epoch,
            purpose: TimeUse::Seconds { tloc },
        },
        SyscallRequest::Getrlimit { resource, rlim } => match prlimit_result(
            limits.limit(resource),
            resource,
            None,
        ) {
            Ok(change) => limit_told(Some(rlim), change.old),
            Err(e) => finished(Err(e)),
        },
        SyscallRequest::Setrlimit { resource, rlim } => Phase::Fetch {
            addr: rlim,
            purpose: Purpose::Limit { resource, old: None, error: Errno::EFAULT },
        },
        SyscallRequest::Prlimit { resource, new_limit, old_limit, .. } => match new_limit {
            Some(addr) => Phase::Fetch {
                addr,
                purpose: Purpose::Limit { resource, old: old_limit, error: Errno::EINVAL },
            },
            None => match prlimit_result(limits.limit(resource), resource, None) {
                Ok(change) => limit_told(old_limit, change.old),
                Err(e) => finished(Err(e)),
            },
        },
        SyscallRequest::RtSigprocmask { how, set, oldset, sigsetsize } => if sigsetsize
            != SIGSET_BYTES {
            finished(Err(Errno::EINVAL))
        } else {
            let blocked = task.signals.blocked;
            match set {
                Some(addr) => Phase::Fetch {
                    addr,
                    purpose: Purpose::Mask { how, blocked, old: oldset },
                },
                None => put_wanted(oldset, Record::Mask(blocked), Errno::EFAULT, Next::Finish(0)),
            }
        },
        SyscallRequest::RtSigaction { signum, act, oldact, sigsetsize } => if signum == SIGKILL
            || signum == SIGSTOP || sigsetsize != SIGSET_BYTES {
            finished(Err(Errno::EINVAL))
        } else {
            match act {
                Some(addr) => Phase::Fetch {
                    addr,
                    purpose: Purpose::Action { signal: signum, old: oldact },
                },
                None => action_told(oldact, sigaction_result(handlers, signum as int, None).1),
            }
        },
        SyscallRequest::RtSigreturn => Phase::Frame,
        SyscallRequest::Sigaltstack { ss, old_ss, sp } => stack_phase(
            task.signals.altstack,
            ss,
            old_ss,
            sp,
        ),
        SyscallRequest::Futex { args } => match args {
            FutexRequest::Wake { addr, count } => futex_decided(
                futex_plan(FutexArgs::Wake { addr, count }, Duration { secs: 0, nanos: 0 }),
            ),
            FutexRequest::Wait { addr, val, timeout } => Phase::Span {
                addr: timeout,
                purpose: SpanUse::Wait { addr, val },
            },
            FutexRequest::WaitBitset { addr, flags, val, timeout, bitmask } => Phase::Span {
                addr: timeout,
                purpose: SpanUse::WaitBitset { addr, flags, val, bitmask },
            },
        },
        SyscallRequest::Clone { args } => Phase::Clone { args, clone3: false },
        SyscallRequest::Clone3 { args } => Phase::Fetch { addr: args, purpose: Purpose::Clone },
        SyscallRequest::Pread64 { fd, buf, count, offset } => pieces(
            fd,
            buf,
            count,
            offset,
            0,
            None,
        ),
        SyscallRequest::EpollCreate { hint, .. } => if hint > 0 {
            Phase::Call { request, buffer: None, after: After::Return }
        } else {
            finished(Err(Errno::EINVAL))
        },
        SyscallRequest::SetThreadArea { .. } => finished(Err(Errno::ENOSYS)),
        SyscallRequest::SetTidAddress { .. } | SyscallRequest::Gettid => finished(
            Ok(unsigned(task.tid)),
        ),
        SyscallRequest::SetRobustList { .. } => finished(Ok(0)),
        SyscallRequest::Getpid => finished(Ok(unsigned(task.pid))),
        SyscallRequest::Getppid => finished(Ok(unsigned(task.ppid))),
        SyscallRequest::Getuid => finished(Ok(task.credentials.uid as u64)),
        SyscallRequest::Getgid => finished(Ok(task.credentials.gid as u64)),
        SyscallRequest::Geteuid => finished(Ok(task.credentials.euid as u64)),
        SyscallRequest::Getegid => finished(Ok(task.credentials.egid as u64)),
        SyscallRequest::SchedGetAffinity { len, mask, .. } => if mask_fits(len, NR_CPUS as int) {
            Phase::Put {
                addr: mask,
                record: Record::Byte(3),
                error: Errno::EFAULT,
                next: Next::Finish(1),
            }
        } else {
            finished(Err(Errno::EINVAL))
        },
        SyscallRequest::SchedYield => finished(Ok(0)),
        SyscallRequest::Kill { pid, sig } => finished(kill_result(task, Some(pid), None, sig)),
        SyscallRequest::Tkill { tid, sig } => finished(kill_result(task, None, Some(tid), sig)),
        SyscallRequest::Tgkill { tgid, tid, sig } => finished(
            kill_result(task, Some(tgid), Some(tid), sig),
        ),
        SyscallRequest::Unsupported => finished(Err(Errno::ENOSYS)),
        _ => Phase::Call { request, buffer: None, after: After::Return },
    }
}

impl Phase {
    /// The step to perform.
    pub open spec fn spec_step(self) -> Step {
        match self {
            Phase::Path { addr, .. } => Step::ReadPath { addr },
            Phase::Bytes { addr, len, .. } => Step::ReadBytes { addr, len },
            Phase::Convert { number, .. } => Step::Convert { number },
            Phase::Call { request, buffer, .. } => Step::Handle { request, buffer },
            Phase::Copy { addr, size } => Step::CopyOut { addr, offset: 0, len: size },
            Phase::WriteOut { addr, .. } => Step::WriteOut { addr },
            Phase::Position { fd, .. } => Step::Tell { fd },
            Phase::Piece { fd, count, offset, done, .. } => Step::Pread {
                fd,
                len: buffer_size((count - done) as u64),
                position: (offset + done) as i64,
            },
            Phase::PieceCopy { buf, done, size, .. } => Step::CopyOut {
                addr: buf,
                offset: done,
                len: size,
            },
            Phase::Reposition { fd, position, .. } => Step::SeekTo { fd, position },
            Phase::Put { addr, record, .. } => Step::Put { addr, record },
            Phase::Fetch { addr, purpose } => Step::Fetch { addr, purpose },
            Phase::Name { addr, reader } => Step::ReadByte {
                addr: ((addr + reader.len) % 0x1_0000_0000_0000_0000) as u64,
            },
            Phase::Frame => Step::ReadFrame,
            Phase::Restore => Step::RestoreContext,
            Phase::Apply { change } => Step::Apply { change },
            Phase::MaxFd { max_fd, .. } => Step::SetMaxFd { max_fd },
            Phase::SetFs { addr } => Step::SetFs { addr },
            Phase::GetFs { .. } => Step::GetFs,
            Phase::Clock { number, .. } => Step::Clock { number },
            Phase::Now { since, .. } => Step::Now { since },
            Phase::Span { addr, .. } => Step::ReadTime { addr },
            Phase::PutTime { addr, time, .. } => Step::WriteTime { addr, time },
            Phase::Sleep { plan, .. } => Step::Sleep { plan },
            Phase::Futex { plan } => Step::Futex { plan },
            Phase::Clone { args, clone3 } => Step::Clone { args, clone3 },
            Phase::Finished { result } => Step::Done { result },
        }
    }

    /// The outcome fits the step: a handler fills no more than its buffer, a read gives no more than
    /// was asked for and nothing past the last position that a file can have, a position that was told
    /// can be set again, and the resolution of a clock that is not supported is not asked for.
    pub open spec fn answered_by(self, reply: Reply) -> bool {
        match self {
            Phase::Path { .. } | Phase::Bytes { .. } | Phase::Convert { .. } | Phase::Copy { .. }
            | Phase::WriteOut { .. } | Phase::PieceCopy { .. } | Phase::Put { .. }
            | Phase::MaxFd { .. } => reply is Worked,
            Phase::Call { buffer, after, .. } => match after {
                After::CopyTo { .. } => reply matches Reply::Value(v) && (v matches Ok(n) ==> (
                buffer matches Some(size) ==> n <= size)),
                _ => reply is Value,
            },
            Phase::Position { .. } => reply matches Reply::Value(v) && match v {
                Ok(n) => n <= i64::MAX,
                Err(e) => e == Errno::EBADF,
            },
            Phase::Piece { count, offset, done, .. } => reply matches Reply::Value(v) && (v matches Ok(
                n,
            ) ==> {
                &&& n <= buffer_size((count - done) as u64)
                &&& done + n <= i64::MAX
                &&& offset + done + n <= i64::MAX
            }),
            Phase::Reposition { .. } => reply matches Reply::Value(v) && v is Ok,
            Phase::Fetch { purpose, .. } => reply matches Reply::Record(record) && (record matches Some(
                record,
            ) ==> match purpose {
                Purpose::Limit { .. } => record is Limit,
                Purpose::Mask { .. } => record is Mask,
                Purpose::Action { .. } => record is Action,
                Purpose::Stack => record is Stack,
                Purpose::Clone => record is Clone,
            }),
            Phase::Name { .. } => reply is Byte,
            Phase::Frame => reply is Frame,
            Phase::Apply { change } => match change {
                Change::Limit { .. } => reply is Limit,
                Change::Action { .. } => reply is Action,
                _ => reply is Applied,
            },
            Phase::Restore | Phase::SetFs { .. } | Phase::GetFs { .. } | Phase::PutTime { .. }
            | Phase::Futex { .. } | Phase::Clone { .. } => reply is Value,
            Phase::Clock { purpose, .. } => reply matches Reply::Clock(clock) && (purpose is Getres
                ==> clock != Some(ClockId::Other)),
            Phase::Now { .. } => reply matches Reply::Time(d) && d.well_formed(),
            Phase::Span { .. } => reply matches Reply::Span(span) && (span matches Ok(Some(d))
                ==> d.well_formed()),
            Phase::Sleep { .. } => reply is Slept,
            Phase::Finished { .. } => false,
        }
    }

    /// The positions in a read stay in range, a name is not longer than it may be, actions are for
    /// signals, and spans of time are in order.
    pub open spec fn well_formed(self) -> bool {
        match self {
            Phase::Piece { count, offset, done, start, .. } => {
                &&& done < count
                &&& done <= i64::MAX
                &&& offset + done <= i64::MAX
                &&& start matches Some(s) ==> s == offset && 0 <= s
            },
            Phase::PieceCopy { count, offset, done, start, size, .. } => {
                &&& done < count
                &&& 0 < size <= count - done
                &&& done + size <= i64::MAX
                &&& offset + done + size <= i64::MAX
                &&& start matches Some(s) ==> s == offset && 0 <= s
            },
            Phase::Name { reader, .. } => reader.well_formed() && reader.reading(),
            Phase::Fetch { purpose: Purpose::Action { signal, .. }, .. } => is_signal(signal as int),
            Phase::Apply { change: Change::Action { signal, .. } } => is_signal(signal as int),
            Phase::Now { purpose: TimeUse::Sleep { until, .. }, .. } => until.well_formed(),
            Phase::Now { purpose: TimeUse::Futex { until, .. }, .. } => until.well_formed(),
            _ => true,
        }
    }

    /// What a call that is decided here waits for after the step.
    pub open spec fn own_advance(self, reply: Reply) -> Phase {
        match self {
            Phase::Name { addr, reader } => match reply {
                Reply::Byte(Some(b)) => name_next(addr, reader.with_byte(b)),
                Reply::Byte(None) => finished(Err(Errno::EFAULT)),
                _ => self,
            },
            Phase::Put { error, next, .. } => if reply == Reply::Worked(true) {
                after_put(next)
            } else {
                finished(Err(error))
            },
            Phase::Fetch { purpose, .. } => match reply {
                Reply::Record(record) => match (purpose, record) {
                    (Purpose::Limit { resource, old, .. }, Some(Record::Limit(new))) => Phase::Apply {
                        change: Change::Limit { resource, new, old },
                    },
                    (Purpose::Limit { error, .. }, _) => finished(Err(error)),
                    (Purpose::Mask { how, blocked, old }, Some(Record::Mask(set))) => put_wanted(
                        old,
                        Record::Mask(blocked),
                        Errno::EFAULT,
                        Next::Mask { blocked: masked(how, blocked, set) },
                    ),
                    (Purpose::Action { signal, old }, Some(Record::Action(action))) => Phase::Apply {
                        change: Change::Action { signal, action, old },
                    },
                    (Purpose::Stack, Some(Record::Stack(stack))) => Phase::Apply {
                        change: Change::Stack { stack },
                    },
                    (Purpose::Clone, Some(Record::Clone(args))) => Phase::Clone { args, clone3: true },
                    _ => finished(Err(Errno::EFAULT)),
                },
                _ => self,
            },
            Phase::Frame => match reply {
                Reply::Frame(frame) => Phase::Apply { change: Change::Return { frame } },
                _ => self,
            },
            Phase::Restore => match reply {
                Reply::Value(v) => finished(v),
                _ => self,
            },
            Phase::Apply { change } => match (change, reply) {
                (Change::Limit { old, .. }, Reply::Limit(Ok(done))) => match done.max_fd {
                    Some(max_fd) => Phase::MaxFd { max_fd, limit: done.old, old },
                    None => limit_told(old, done.old),
                },
                (Change::Limit { .. }, Reply::Limit(Err(e))) => finished(Err(e)),
                (Change::Action { old, .. }, Reply::Action(before)) => action_told(old, before),
                (Change::Return { .. }, Reply::Applied(Ok(()))) => Phase::Restore,
                (_, Reply::Applied(Ok(()))) => finished(Ok(0)),
                (_, Reply::Applied(Err(e))) => finished(Err(e)),
                _ => self,
            },
            Phase::MaxFd { limit, old, .. } => limit_told(old, limit),
            Phase::SetFs { .. } => match reply {
                Reply::Value(Ok(_)) => finished(Ok(0)),
                Reply::Value(Err(e)) => finished(Err(e)),
                _ => self,
            },
            Phase::GetFs { to } => match reply {
                Reply::Value(base) => match fs_written(to, base) {
                    Ok((addr, base)) => Phase::Put {
                        addr,
                        record: Record::Word(base),
                        error: Errno::EFAULT,
                        next: Next::Finish(0),
                    },
                    Err(e) => finished(Err(e)),
                },
                _ => self,
            },
            Phase::Clock { purpose, .. } => match reply {
                Reply::Clock(Some(clock)) => match purpose {
                    ClockUse::Gettime { tp } => match clock {
                        ClockId::Other => finished(Err(Errno::EINVAL)),
                        _ => Phase::Now {
                            since: if clock == ClockId::RealTime {
                                Since::Epoch
                            } else {
                                Since::Boot
                            },
                            purpose: TimeUse::Clock { clock, tp },
                        },
                    },
                    ClockUse::Getres { res } => Phase::PutTime {
                        addr: res,
                        time: resolution(clock),
                        interrupted: false,
                    },
                    ClockUse::Sleep { flags, request, remain } => Phase::Span {
                        addr: request,
                        purpose: SpanUse::Sleep { clock, flags, remain },
                    },
                },
                Reply::Clock(None) => finished(Err(Errno::EINVAL)),
                _ => self,
            },
            Phase::Now { purpose, .. } => match reply {
                Reply::Time(now) => match purpose {
                    TimeUse::Clock { clock, tp } => match reading(clock, now, now) {
                        Ok(time) => Phase::PutTime { addr: tp, time, interrupted: false },
                        Err(e) => finished(Err(e)),
                    },
                    TimeUse::Day { tv, tz } => put_wanted(
                        tz,
                        Record::Zone(greenwich()),
                        Errno::EFAULT,
                        Next::Write { addr: tv, record: Record::Time(timeval(now)) },
                    ),
                    TimeUse::Seconds { tloc } => if now.secs > i64::MAX {
                        finished(Err(Errno::EOVERFLOW))
                    } else {
                        put_wanted(
                            tloc,
                            Record::Word(now.secs),
                            Errno::EFAULT,
                            Next::Finish(now.secs),
                        )
                    },
                    TimeUse::Sleep { clock, flags, until, remain } => sleeping(
                        sleep_plan(clock, flags, Ok(Some(until)), now),
                        remain,
                    ),
                    TimeUse::Futex { addr, flags, val, until, bitmask } => futex_decided(
                        futex_plan(
                            FutexArgs::WaitBitset { addr, flags, val, timeout: Ok(Some(until)), bitmask },
                            now,
                        ),
                    ),
                },
                _ => self,
            },
            Phase::Span { purpose, .. } => match reply {
                Reply::Span(span) => {
                    let never = Duration { secs: 0, nanos: 0 };
                    match (purpose, span) {
                        (SpanUse::Sleep { clock, flags, remain }, Ok(Some(until))) if flags
                            == TIMER_ABSTIME && clock == ClockId::RealTime => Phase::Now {
                            since: Since::Epoch,
                            purpose: TimeUse::Sleep { clock, flags, until, remain },
                        },
                        (SpanUse::Sleep { clock, flags, remain }, _) => sleeping(
                            sleep_plan(clock, flags, span, never),
                            remain,
                        ),
                        (SpanUse::Wait { addr, val }, _) => futex_decided(
                            futex_plan(FutexArgs::Wait { addr, val, timeout: span }, never),
                        ),
                        (SpanUse::WaitBitset { addr, flags, val, bitmask }, Ok(Some(until))) if flags
                            & FUTEX_CLOCK_REALTIME != 0 => Phase::Now {
                            since: Since::Epoch,
                            purpose: TimeUse::Futex { addr, flags, val, until, bitmask },
                        },
                        (SpanUse::WaitBitset { addr, flags, val, bitmask }, _) => futex_decided(
                            futex_plan(
                                FutexArgs::WaitBitset { addr, flags, val, timeout: span, bitmask },
                                never,
                            ),
                        ),
                    }
                },
                _ => self,
            },
            Phase::PutTime { interrupted, .. } => match reply {
                Reply::Value(Ok(_)) => if interrupted {
                    finished(Err(Errno::EINTR))
                } else {
                    finished(Ok(0))
                },
                Reply::Value(Err(e)) => finished(Err(e)),
                _ => self,
            },
            Phase::Sleep { plan, remain } => match reply {
                Reply::Slept { interrupted, remaining } => match plan.end(interrupted, remaining) {
                    SleepEnd::Done(Ok(())) => finished(Ok(0)),
                    SleepEnd::Done(Err(e)) => finished(Err(e)),
                    SleepEnd::WriteRemaining(left) => Phase::PutTime {
                        addr: remain,
                        time: left,
                        interrupted: true,
                    },
                },
                _ => self,
            },
            Phase::Futex { plan } => match reply {
                Reply::Value(v) => finished(futex_end(plan, v)),
                _ => self,
            },
            Phase::Clone { .. } => match reply {
                Reply::Value(v) => finished(v),
                _ => self,
            },
            _ => self,
        }
    }

    /// What the call waits for after the step.
    pub open spec fn spec_advance(self, reply: Reply) -> Phase {
        match self {
            Phase::Path { request, error, buffer, after, .. } => if reply == Reply::Worked(true) {
                Phase::Call { request, buffer, after }
            } else {
                finished(Err(error))
            },
            Phase::Bytes { request, .. } => if reply == Reply::Worked(true) {
                Phase::Call { request, buffer: None, after: After::Return }
            } else {
                finished(Err(Errno::EFAULT))
            },
            Phase::Convert { request, .. } => if reply == Reply::Worked(true) {
                Phase::Call { request, buffer: None, after: After::Return }
            } else {
                finished(Err(Errno::EINVAL))
            },
            Phase::Call { after, .. } => match reply {
                Reply::Value(Ok(v)) => match after {
                    After::CopyTo { addr } => Phase::Copy { addr, size: v },
                    After::WriteTo { addr } => Phase::WriteOut { addr, last: true },
                    After::WritePair { addr } => Phase::WriteOut { addr, last: false },
                    _ => finished(Ok(v)),
                },
                Reply::Value(Err(e)) => finished(Err(e)),
                _ => self,
            },
            Phase::Copy { size, .. } => if reply == Reply::Worked(true) {
                finished(Ok(size))
            } else {
                finished(Err(Errno::EFAULT))
            },
            Phase::WriteOut { addr, last } => if reply != Reply::Worked(true) {
                finished(Err(Errno::EFAULT))
            } else if last {
                finished(Ok(0))
            } else {
                Phase::WriteOut { addr: next_descriptor(addr), last: true }
            },
            Phase::Position { fd, buf, count } => match reply {
                Reply::Value(Ok(at)) => pieces(fd, buf, count, at as i64, 0, Some(at as i64)),
                Reply::Value(Err(e)) => finished(Err(e)),
                _ => self,
            },
            Phase::Piece { fd, buf, count, offset, done, start } => match reply {
                Reply::Value(Ok(size)) => if size == 0 {
                    pieces_end(fd, done, start)
                } else {
                    Phase::PieceCopy { fd, buf, count, offset, done, start, size }
                },
                Reply::Value(Err(e)) => finished(Err(e)),
                _ => self,
            },
            Phase::PieceCopy { fd, buf, count, offset, done, start, size } => if reply
                == Reply::Worked(true) {
                pieces(fd, buf, count, offset, (done + size) as u64, start)
            } else {
                finished(Err(Errno::EFAULT))
            },
            Phase::Reposition { total, .. } => finished(Ok(total)),
            _ => self.own_advance(reply),
        }
    }

    /// The step to perform.
    pub fn step(&self) -> (r: Step)
        requires
            self.well_formed(),
        ensures
            r == self.spec_step(),
    {
        match *self {
            Phase::Path { addr, .. } => Step::ReadPath { addr },
            Phase::Bytes { addr, len, .. } => Step::ReadBytes { addr, len },
            Phase::Convert { number, .. } => Step::Convert { number },
            Phase::Call { request, buffer, .. } => Step::Handle { request, buffer },
            Phase::Copy { addr, size } => Step::CopyOut { addr, offset: 0, len: size },
            Phase::WriteOut { addr, .. } => Step::WriteOut { addr },
            Phase::Position { fd, .. } => Step::Tell { fd },
            Phase::Piece { fd, count, offset, done, .. } => Step::Pread {
                fd,
                len: kernel_buffer(count - done),
                position: (offset as i128 + done as i128) as i64,
            },
            Phase::PieceCopy { buf, done, size, .. } => Step::CopyOut {
                addr: buf,
                offset: done,
                len: size,
            },
            Phase::Reposition { fd, position, .. } => Step::SeekTo { fd, position },
            Phase::Put { addr, record, .. } => Step::Put { addr, record },
            Phase::Fetch { addr, purpose } => Step::Fetch { addr, purpose },
            Phase::Name { addr, reader } => Step::ReadByte { addr: addr.wrapping_add(reader.len as u64) },
            Phase::Frame => Step::ReadFrame,
            Phase::Restore => Step::RestoreContext,
            Phase::Apply { change } => Step::Apply { change },
            Phase::MaxFd { max_fd, .. } => Step::SetMaxFd { max_fd },
            Phase::SetFs { addr } => Step::SetFs { addr },
            Phase::GetFs { .. } => Step::GetFs,
            Phase::Clock { number, .. } => Step::Clock { number },
            Phase::Now { since, .. } => Step::Now { since },
            Phase::Span { addr, .. } => Step::ReadTime { addr },
            Phase::PutTime { addr, time, .. } => Step::WriteTime { addr, time },
            Phase::Sleep { plan, .. } => Step::Sleep { plan },
            Phase::Futex { plan } => Step::Futex { plan },
            Phase::Clone { args, clone3 } => Step::Clone { args, clone3 },
            Phase::Finished { result } => Step::Done { result },
        }
    }

    /// Goes on with a call that is decided here.
    #[verifier::rlimit(60)]
    fn advance_own(self, reply: Reply) -> (r: Phase)
        requires
            self.well_formed(),
            self.answered_by(reply),
        ensures
            r.well_formed(),
            r == self.own_advance(reply),
    {
        let phase = self;
        let worked = match reply {
            Reply::Worked(true) => true,
            _ => false,
        };
        match phase {
            Phase::Name { addr, reader } => match reply {
                Reply::Byte(byte) => {
                    let mut reader = reader;
                    match reader.accept(byte) {
                        Ok(()) => read_name(addr, reader),
                        Err(e) => Phase::Finished { result: Err(e) },
                    }
                },
                _ => phase,
            },
            Phase::Put { error, next, .. } => if worked {
                next.phase()
            } else {
                Phase::Finished { result: Err(error) }
            },
            Phase::Fetch { purpose, .. } => match reply {
                Reply::Record(record) => match (purpose, record) {
                    (Purpose::Limit { resource, old, .. }, Some(Record::Limit(new))) => Phase::Apply {
                        change: Change::Limit { resource, new, old },
                    },
                    (Purpose::Limit { error, .. }, _) => Phase::Finished { result: Err(error) },
                    (Purpose::Mask { how, blocked, old }, Some(Record::Mask(set))) => put_record(
                        old,
                        Record::Mask(blocked),
                        Errno::EFAULT,
                        Next::Mask { blocked: change_mask(how, blocked, set) },
                    ),
                    (Purpose::Action { signal, old }, Some(Record::Action(action))) => Phase::Apply {
                        change: Change::Action { signal, action, old },
                    },
                    (Purpose::Stack, Some(Record::Stack(stack))) => Phase::Apply {
                        change: Change::Stack { stack },
                    },
                    (Purpose::Clone, Some(Record::Clone(args))) => Phase::Clone { args, clone3: true },
                    _ => Phase::Finished { result: Err(Errno::EFAULT) },
                },
                _ => phase,
            },
            Phase::Frame => match reply {
                Reply::Frame(frame) => Phase::Apply { change: Change::Return { frame } },
                _ => phase,
            },
            Phase::Restore => match reply {
                Reply::Value(v) => Phase::Finished { result: v },
                _ => phase,
            },
            Phase::Apply { change } => match (change, reply) {
                (Change::Limit { old, .. }, Reply::Limit(Ok(done))) => match done.max_fd {
                    Some(max_fd) => Phase::MaxFd { max_fd, limit: done.old, old },
                    None => tell_limit(old, done.old),
                },
                (Change::Limit { .. }, Reply::Limit(Err(e))) => Phase::Finished { result: Err(e) },
                (Change::Action { old, .. }, Reply::Action(before)) => tell_action(old, before),
                (Change::Return { .. }, Reply::Applied(Ok(()))) => Phase::Restore,
                (_, Reply::Applied(Ok(()))) => Phase::Finished { result: Ok(0) },
                (_, Reply::Applied(Err(e))) => Phase::Finished { result: Err(e) },
                _ => phase,
            },
            Phase::MaxFd { limit, old, .. } => tell_limit(old, limit),
            Phase::SetFs { .. } => match reply {
                Reply::Value(Ok(_)) => Phase::Finished { result: Ok(0) },
                Reply::Value(Err(e)) => Phase::Finished { result: Err(e) },
                _ => phase,
            },
            Phase::GetFs { to } => match reply {
                Reply::Value(base) => match fs_read(to, base) {
                    Ok((addr, base)) => Phase::Put {
                        addr,
                        record: Record::Word(base),
                        error: Errno::EFAULT,
                        next: Next::Finish(0),
                    },
                    Err(e) => Phase::Finished { result: Err(e) },
                },
                _ => phase,
            },
            Phase::Clock { purpose, .. } => match reply {
                Reply::Clock(Some(clock)) => match purpose {
                    ClockUse::Gettime { tp } => match clock {
                        ClockId::Other => Phase::Finished { result: Err(Errno::EINVAL) },
                        _ => Phase::Now {
                            since: if clock == ClockId::RealTime {
                                Since::Epoch
                            } else {
                                Since::Boot
                            },
                            purpose: TimeUse::Clock { clock, tp },
                        },
                    },
                    ClockUse::Getres { res } => Phase::PutTime {
                        addr: res,
                        time: sys_clock_getres(clock),
                        interrupted: false,
                    },
                    ClockUse::Sleep { flags, request, remain } => Phase::Span {
                        addr: request,
                        purpose: SpanUse::Sleep { clock, flags, remain },
                    },
                },
                Reply::Clock(None) => Phase::Finished { result: Err(Errno::EINVAL) },
                _ => phase,
            },
            Phase::Now { purpose, .. } => match reply {
                Reply::Time(now) => match purpose {
                    TimeUse::Clock { clock, tp } => match gettime_as_duration(clock, now, now) {
                        Ok(time) => Phase::PutTime { addr: tp, time, interrupted: false },
                        Err(e) => Phase::Finished { result: Err(e) },
                    },
                    TimeUse::Day { tv, tz } => tell_day(now, tz, tv),
                    TimeUse::Seconds { tloc } => match sys_time(now) {
                        Ok(seconds) => put_record(
                            tloc,
                            Record::Word(seconds as u64),
                            Errno::EFAULT,
                            Next::Finish(seconds as u64),
                        ),
                        Err(e) => Phase::Finished { result: Err(e) },
                    },
                    TimeUse::Sleep { clock, flags, until, remain } => sleep_phase(
                        sys_clock_nanosleep(clock, flags, Ok(Some(until)), now),
                        remain,
                    ),
                    TimeUse::Futex { addr, flags, val, until, bitmask } => futex_phase(
                        sys_futex(
                            FutexArgs::WaitBitset { addr, flags, val, timeout: Ok(Some(until)), bitmask },
                            now,
                        ),
                    ),
                },
                _ => phase,
            },
            Phase::Span { purpose, .. } => match reply {
                Reply::Span(span) => {
                    let never = Duration { secs: 0, nanos: 0 };
                    match (purpose, span) {
                        (SpanUse::Sleep { clock, flags, remain }, Ok(Some(until))) if flags
                            == TIMER_ABSTIME && clock == ClockId::RealTime => Phase::Now {
                            since: Since::Epoch,
                            purpose: TimeUse::Sleep { clock, flags, until, remain },
                        },
                        (SpanUse::Sleep { clock, flags, remain }, _) => sleep_phase(
                            sys_clock_nanosleep(clock, flags, span, never),
                            remain,
                        ),
                        (SpanUse::Wait { addr, val }, _) => futex_phase(
                            sys_futex(FutexArgs::Wait { addr, val, timeout: span }, never),
                        ),
                        (SpanUse::WaitBitset { addr, flags, val, bitmask }, Ok(Some(until))) if flags
                            & FUTEX_CLOCK_REALTIME != 0 => Phase::Now {
                            since: Since::Epoch,
                            purpose: TimeUse::Futex { addr, flags, val, until, bitmask },
                        },
                        (SpanUse::WaitBitset { addr, flags, val, bitmask }, _) => futex_phase(
                            sys_futex(
                                FutexArgs::WaitBitset { addr, flags, val, timeout: span, bitmask },
                                never,
                            ),
                        ),
                    }
                },
                _ => phase,
            },
            Phase::PutTime { interrupted, .. } => match reply {
                Reply::Value(Ok(_)) => if interrupted {
                    Phase::Finished { result: Err(Errno::EINTR) }
                } else {
                    Phase::Finished { result: Ok(0) }
                },
                Reply::Value(Err(e)) => Phase::Finished { result: Err(e) },
                _ => phase,
            },
            Phase::Sleep { plan, remain } => match reply {
                Reply::Slept { interrupted, remaining } => match plan.ended(interrupted, remaining) {
                    SleepEnd::Done(Ok(())) => Phase::Finished { result: Ok(0) },
                    SleepEnd::Done(Err(e)) => Phase::Finished { result: Err(e) },
                    SleepEnd::WriteRemaining(left) => Phase::PutTime {
                        addr: remain,
                        time: left,
                        interrupted: true,
                    },
                },
                _ => phase,
            },
            Phase::Futex { plan } => match reply {
                Reply::Value(v) => Phase::Finished { result: futex_result(&plan, v) },
                _ => phase,
            },
            Phase::Clone { .. } => match reply {
                Reply::Value(v) => Phase::Finished { result: v },
                _ => phase,
            },
            _ => phase,
        }
    }

    /// Goes on with the outcome of the step.
    pub fn advance(&mut self, reply: Reply)
        requires
            old(self).well_formed(),
            old(self).answered_by(reply),
        ensures
            final(self).well_formed(),
            *final(self) == old(self).spec_advance(reply),
    {
        let phase = *self;
        let worked = match reply {
            Reply::Worked(true) => true,
            _ => false,
        };
        *self =
        match phase {
            Phase::Path { request, error, buffer, after, .. } => if worked {
                Phase::Call { request, buffer, after }
            } else {
                Phase::Finished { result: Err(error) }
            },
            Phase::Bytes { request, .. } => if worked {
                Phase::Call { request, buffer: None, after: After::Return }
            } else {
                Phase::Finished { result: Err(Errno::EFAULT) }
            },
            Phase::Convert { request, .. } => if worked {
                Phase::Call { request, buffer: None, after: After::Return }
            } else {
                Phase::Finished { result: Err(Errno::EINVAL) }
            },
            Phase::Call { after, .. } => match reply {
                Reply::Value(Ok(v)) => match after {
                    After::CopyTo { addr } => Phase::Copy { addr, size: v },
                    After::WriteTo { addr } => Phase::WriteOut { addr, last: true },
                    After::WritePair { addr } => Phase::WriteOut { addr, last: false },
                    _ => Phase::Finished { result: Ok(v) },
                },
                Reply::Value(Err(e)) => Phase::Finished { result: Err(e) },
                _ => phase,
            },
            Phase::Copy { size, .. } => if worked {
                Phase::Finished { result: Ok(size) }
            } else {
                Phase::Finished { result: Err(Errno::EFAULT) }
            },
            Phase::WriteOut { addr, last } => if !worked {
                Phase::Finished { result: Err(Errno::EFAULT) }
            } else if last {
                Phase::Finished { result: Ok(0) }
            } else {
                Phase::WriteOut { addr: addr.wrapping_add(4), last: true }
            },
            Phase::Position { fd, buf, count } => match reply {
                Reply::Value(Ok(at)) => pread_with_user_buf(
                    fd,
                    buf,
                    count,
                    at as i64,
                    0,
                    Some(at as i64),
                ),
                Reply::Value(Err(e)) => Phase::Finished { result: Err(e) },
                _ => phase,
            },
            Phase::Piece { fd, buf, count, offset, done, start } => match reply {
                Reply::Value(Ok(size)) => if size == 0 {
                    end_of_pieces(fd, done, start)
                } else {
                    Phase::PieceCopy { fd, buf, count, offset, done, start, size }
                },
                Reply::Value(Err(e)) => Phase::Finished { result: Err(e) },
                _ => phase,
            },
            Phase::PieceCopy { fd, buf, count, offset, done, start, size } => if worked {
                pread_with_user_buf(fd, buf, count, offset, done + size, start)
            } else {
                Phase::Finished { result: Err(Errno::EFAULT) }
            },
            Phase::Reposition { total, .. } => Phase::Finished { result: Ok(total) },
            _ => phase.advance_own(reply),
        };
    }
}

impl Next {
    /// What follows a write that worked.
    fn phase(self) -> (r: Phase)
        ensures
            r == after_put(self),
            r.well_formed(),
    {
        match self {
            Next::Finish(value) => Phase::Finished { result: Ok(value) },
            Next::Refuse(e) => Phase::Finished { result: Err(e) },
            Next::Write { addr, record } => Phase::Put {
                addr,
                record,
                error: Errno::EFAULT,
                next: Next::Finish(0),
            },
            Next::Mask { blocked } => Phase::Apply { change: Change::Mask { blocked } },
            Next::Stack { addr } => Phase::Fetch { addr, purpose: Purpose::Stack },
        }
    }
}

/// The write of a record, where the caller wants it, and what follows.
fn put_record(addr: Option<u64>, record: Record, error: Errno, next: Next) -> (r: Phase)
    ensures
        r == put_wanted(addr, record, error, next),
        r.well_formed(),
{
    match addr {
        Some(addr) => Phase::Put { addr, record, error, next },
        None => next.phase(),
    }
}

/// The end of a request about a limit.
fn tell_limit(old: Option<u64>, limit: Rlimit) -> (r: Phase)
    ensures
        r == limit_told(old, limit),
        r.well_formed(),
{
    put_record(old, Record::Limit(limit), Errno::EINVAL, Next::Finish(0))
}

/// The end of a request about an action.
fn tell_action(old: Option<u64>, before: Result<SigAction, Errno>) -> (r: Phase)
    ensures
        r == action_told(old, before),
        r.well_formed(),
{
    match before {
        Ok(action) => put_record(old, Record::Action(action), Errno::EFAULT, Next::Finish(0)),
        Err(e) => Phase::Finished { result: Err(e) },
    }
}

/// The writes of the time zone, where the caller wants it, and of the time of day.
fn tell_day(now: Duration, tz: Option<u64>, tv: u64) -> (r: Phase)
    requires
        now.well_formed(),
    ensures
        r == put_wanted(
            tz,
            Record::Zone(greenwich()),
            Errno::EFAULT,
            Next::Write { addr: tv, record: Record::Time(timeval(now)) },
        ),
        r.well_formed(),
{
    let (zone, val) = sys_gettimeofday(now, true, true);
    match (zone, val) {
        (Some(zone), Some(val)) => put_record(
            tz,
            Record::Zone(zone),
            Errno::EFAULT,
            Next::Write { addr: tv, record: Record::Time(val) },
        ),
        _ => Phase::Finished { result: Ok(0) },
    }
}

/// A sleep that was decided on.
fn sleep_phase(plan: Result<SleepPlan, Errno>, remain: u64) -> (r: Phase)
    ensures
        r == sleeping(plan, remain),
        r.well_formed(),
{
    match plan {
        Ok(plan) => Phase::Sleep { plan, remain },
        Err(e) => Phase::Finished { result: Err(e) },
    }
}

/// What was decided about a futex.
fn futex_phase(plan: Result<FutexPlan, Errno>) -> (r: Phase)
    ensures
        r == futex_decided(plan),
        r.well_formed(),
{
    match plan {
        Ok(FutexPlan::Nothing) => Phase::Finished { result: Ok(0) },
        Ok(plan) => Phase::Futex { plan },
        Err(e) => Phase::Finished { result: Err(e) },
    }
}

/// The next byte of a name, or its end.
fn read_name(addr: u64, reader: NameReader) -> (r: Phase)
    requires
        reader.well_formed(),
    ensures
        r == name_next(addr, reader),
        r.well_formed(),
{
    match reader.next_offset() {
        Some(_) => Phase::Name { addr, reader },
        None => Phase::Apply { change: Change::Name { comm: reader.comm() } },
    }
}

/// The smaller of a size and the largest buffer.
fn kernel_buffer(size: u64) -> (r: u64)
    ensures
        r == buffer_size(size),
{
    if size <= MAX_KERNEL_BUF_SIZE {
        size
    } else {
        MAX_KERNEL_BUF_SIZE
    }
}

/// A read that copies what was read in pieces, so that it needs no more memory than the largest
/// buffer.
fn pread_with_user_buf(
    fd: i32,
    buf: u64,
    count: u64,
    offset: i64,
    done: u64,
    start: Option<i64>,
) -> (r: Phase)
    requires
        done <= count,
        done <= i64::MAX,
        offset + done <= i64::MAX,
        start matches Some(s) ==> s == offset && 0 <= s,
    ensures
        r == pieces(fd, buf, count, offset, done, start),
        r.well_formed(),
{
    if done < count {
        Phase::Piece { fd, buf, count, offset, done, start }
    } else {
        end_of_pieces(fd, done, start)
    }
}

/// The end of a read in pieces.
fn end_of_pieces(fd: i32, done: u64, start: Option<i64>) -> (r: Phase)
    requires
        start matches Some(s) ==> s + done <= i64::MAX && 0 <= s,
    ensures
        r == pieces_end(fd, done, start),
        r.well_formed(),
{
    match start {
        Some(s) => Phase::Reposition { fd, position: s + done as i64, total: done },
        None => Phase::Finished { result: Ok(done) },
    }
}

/// A signed number of 32 bits, taken as one without sign.
fn as_unsigned(n: i32) -> (r: u64)
    ensures
        r == unsigned(n),
{
    if n >= 0 {
        n as u64
    } else {
        (n as i64 + 0x1_0000_0000) as u64
    }
}

/// A call on its way.
pub struct Syscall {
    pub request: SyscallRequest,
    pub phase: Phase,
    /// Threads to interrupt, since the process ends.
    pub interrupt: Vec<i32>,
}

/// The signal that a request sends.
pub open spec fn signal_sent(request: SyscallRequest) -> i32 {
    match request {
        SyscallRequest::Kill { sig, .. } => sig,
        SyscallRequest::Tkill { sig, .. } => sig,
        SyscallRequest::Tgkill { sig, .. } => sig,
        _ => 0,
    }
}

/// The request asks for a signal.
pub open spec fn sends_signal(request: SyscallRequest) -> bool {
    request is Kill || request is Tkill || request is Tgkill
}

/// The process once a request has started.
pub open spec fn process_after(task: Task, process: ProcessModel, request: SyscallRequest) -> ProcessModel {
    match request {
        SyscallRequest::Exit { status } => process.exit_thread(
            task.tid,
            exit_code(status as int) as i8,
        ),
        SyscallRequest::ExitGroup { status } => process.exit_group(
            task.tid,
            ExitStatus::Exit(exit_code(status as int) as i8),
        ),
        _ => process,
    }
}

/// The thread is to be interrupted once a request has started.
pub open spec fn is_interrupted(
    task: Task,
    process: ProcessModel,
    request: SyscallRequest,
    tid: i32,
) -> bool {
    request is ExitGroup && process.running(task.tid) && process.threads.contains_key(tid)
}

/// What a thread knows of itself once a request has started.
pub open spec fn thread_after(task: Task, request: SyscallRequest) -> ThreadState {
    match request {
        SyscallRequest::SetTidAddress { tidptr } => ThreadState {
            clear_child_tid: Some(tidptr),
            ..task.thread
        },
        SyscallRequest::SetRobustList { head } => ThreadState {
            robust_list: Some(head),
            ..task.thread
        },
        _ => task.thread,
    }
}

/// The signals that wait for a thread once a request has started.
pub open spec fn pending_after(
    task: Task,
    limits: ResourceLimits,
    handlers: Seq<Handler>,
    request: SyscallRequest,
) -> Seq<Siginfo> {
    if sends_signal(request) && first_phase(task, limits, handlers, request) == finished(Ok(0)) {
        sent(
            task.signals.pending@,
            task.signals.blocked,
            handlers,
            limits.sigpending(),
            user_signal(signal_sent(request) as u32),
        )
    } else {
        task.signals.pending@
    }
}

/// Starts a system call. What concerns only the task and its process is done at once.
pub fn do_syscall(
    task: &mut Task,
    process: &mut Process,
    handlers: &SignalHandlers,
    request: SyscallRequest,
) -> (r: Syscall)
    requires
        old(process).well_formed(),
        old(process)@.threads.contains_key(old(task).tid),
        old(task).signals.well_formed(),
        handlers.well_formed(),
        request.supported(),
    ensures
        r.request == request,
        r.phase == first_phase(*old(task), old(process)@.limits, handlers@, request),
        r.phase.well_formed(),
        final(process).well_formed(),
        final(process)@ == process_after(*old(task), old(process)@, request),
        forall|t: i32| #[trigger]
            r.interrupt@.contains(t) == is_interrupted(*old(task), old(process)@, request, t),
        final(task).signals.well_formed(),
        final(task).thread == thread_after(*old(task), request),
        final(task).signals.pending@ == pending_after(
            *old(task),
            old(process)@.limits,
            handlers@,
            request,
        ),
        *final(task) == (Task {
            thread: final(task).thread,
            signals: SignalState {
                pending: final(task).signals.pending,
                ..old(task).signals
            },
            ..*old(task)
        }),
{
    let mut interrupt: Vec<i32> = Vec::new();
    let tid: i32 = task.tid;
    let phase = match request {
        SyscallRequest::Exit { status } => {
            process.exit_thread(tid, truncate_status(status));
            Phase::Finished { result: Ok(0) }
        },
        SyscallRequest::ExitGroup { status } => {
            interrupt = process.exit_group(tid, ExitStatus::Exit(truncate_status(status)));
            Phase::Finished { result: Ok(0) }
        },
        SyscallRequest::Read { fd, buf, count } => if count <= MAX_KERNEL_BUF_SIZE {
            Phase::Call { request, buffer: Some(count), after: After::CopyTo { addr: buf } }
        } else {
            Phase::Position { fd, buf, count }
        },
        SyscallRequest::Write { buf, count, .. } => Phase::Bytes { request, addr: buf, len: count },
        SyscallRequest::Pwrite64 { buf, count, .. } => Phase::Bytes { request, addr: buf, len: count },
        SyscallRequest::Lseek { whence, .. } => Phase::Convert { request, number: whence },
        SyscallRequest::ClockGettime { clockid, tp } => Phase::Clock {
            number: clockid,
            purpose: ClockUse::Gettime { tp },
        },
        SyscallRequest::ClockGetres { clockid, res } => Phase::Clock {
            number: clockid,
            purpose: ClockUse::Getres { res },
        },
        SyscallRequest::ClockNanosleep { clockid, flags, request, remain } => Phase::Clock {
            number: clockid,
            purpose: ClockUse::Sleep { flags, request, remain },
        },
        SyscallRequest::Mkdir { pathname, .. } | SyscallRequest::Chdir { pathname } => Phase::Path {
            request,
            addr: pathname,
            error: Errno::EINVAL,
            buffer: None,
            after: After::Return,
        },
        SyscallRequest::Access { pathname, .. } => Phase::Path {
            request,
            addr: pathname,
            error: Errno::EFAULT,
            buffer: None,
            after: After::Return,
        },
        SyscallRequest::Openat { pathname, .. } => Phase::Path {
            request,
            addr: pathname,
            error: Errno::EFAULT,
            buffer: None,
            after: After::Return,
        },
        SyscallRequest::Unlinkat { pathname, .. } => Phase::Path {
            request,
            addr: pathname,
            error: Errno::EFAULT,
            buffer: None,
            after: After::Return,
        },
        SyscallRequest::Stat { pathname, buf } | SyscallRequest::Lstat { pathname, buf } =>
            Phase::Path {
            request,
            addr: pathname,
            error: Errno::EFAULT,
            buffer: None,
            after: After::WriteTo { addr: buf },
        },
        SyscallRequest::Newfstatat { pathname, buf, .. } => Phase::Path {
            request,
            addr: pathname,
            error: Errno::EFAULT,
            buffer: None,
            after: After::WriteTo { addr: buf },
        },
        SyscallRequest::Readlink { pathname, buf, bufsiz } => Phase::Path {
            request,
            addr: pathname,
            error: Errno::EFAULT,
            buffer: Some(kernel_buffer(bufsiz)),
            after: After::CopyTo { addr: buf },
        },
        SyscallRequest::Readlinkat { pathname, buf, bufsiz, .. } => Phase::Path {
            request,
            addr: pathname,
            error: Errno::EFAULT,
            buffer: Some(kernel_buffer(bufsiz)),
            after: After::CopyTo { addr: buf },
        },
        SyscallRequest::Getcwd { buf, size } => Phase::Call {
            request,
            buffer: Some(kernel_buffer(size)),
            after: After::CopyTo { addr: buf },
        },
        SyscallRequest::Fstat { buf, .. } => Phase::Call {
            request,
            buffer: None,
            after: After::WriteTo { addr: buf },
        },
        SyscallRequest::Sysinfo { buf } => Phase::Call {
            request,
            buffer: None,
            after: After::WriteTo { addr: buf },
        },
        SyscallRequest::Pipe2 { pipefd, .. } => Phase::Call {
            request,
            buffer: None,
            after: After::WritePair { addr: pipefd },
        },
        SyscallRequest::GetRobustList { head, len, .. } => Phase::Put {
            addr: head,
            record: Record::Word(task.thread.sys_get_robust_list()),
            error: Errno::EFAULT,
            next: Next::Write { addr: len, record: Record::Word(ROBUST_LIST_HEAD_SIZE) },
        },
        SyscallRequest::Prctl { arg } => match sys_prctl(&task.comm, arg) {
            Ok(PrctlAction::Write { to, name }) => Phase::Put {
                addr: to,
                record: Record::Name(name),
                error: Errno::EFAULT,
                next: Next::Finish(0),
            },
            Ok(PrctlAction::Read { from }) => Phase::Name { addr: from, reader: NameReader::new() },
            Ok(PrctlAction::Return(value)) => Phase::Finished { result: Ok(value) },
            Err(e) => Phase::Finished { result: Err(e) },
        },
        SyscallRequest::ArchPrctl { arg } => match sys_arch_prctl(arg) {
            Ok(FsAction::Write(addr)) => Phase::SetFs { addr },
            Ok(FsAction::Read { to }) => Phase::GetFs { to },
            Err(e) => Phase::Finished { result: Err(e) },
        },
        SyscallRequest::Gettimeofday { tv, tz } => match tv {
            Some(tv) => Phase::Now { since: Since::Epoch, purpose: TimeUse::Day { tv, tz } },
            None => match sys_gettimeofday(Duration::zero(), true, false).0 {
                Some(zone) => put_record(
                    tz,
                    Record::Zone(zone),
                    Errno::EFAULT,
                    Next::Finish(0),
                ),
                None => Phase::Finished { result: Ok(0) },
            },
        },
        SyscallRequest::Time { tloc } => Phase::Now {
            since: Since::Epoch,
            purpose: TimeUse::Seconds { tloc },
        },
        SyscallRequest::Getrlimit { resource, rlim } => match sys_getrlimit(
            process.limits(),
            resource,
        ) {
            Ok(limit) => tell_limit(Some(rlim), limit),
            Err(e) => Phase::Finished { result: Err(e) },
        },
        SyscallRequest::Setrlimit { resource, rlim } => Phase::Fetch {
            addr: rlim,
            purpose: Purpose::Limit { resource, old: None, error: Errno::EFAULT },
        },
        SyscallRequest::Prlimit { resource, new_limit, old_limit, .. } => match new_limit {
            Some(addr) => Phase::Fetch {
                addr,
                purpose: Purpose::Limit { resource, old: old_limit, error: Errno::EINVAL },
            },
            None => match sys_getrlimit(process.limits(), resource) {
                Ok(limit) => tell_limit(old_limit, limit),
                Err(e) => Phase::Finished { result: Err(e) },
            },
        },
        SyscallRequest::RtSigprocmask { how, set, oldset, sigsetsize } => match
            task.signals.sys_rt_sigprocmask(how, None, sigsetsize) {
            Ok(MaskChange { old: blocked, .. }) => match set {
                Some(addr) => Phase::Fetch {
                    addr,
                    purpose: Purpose::Mask { how, blocked, old: oldset },
                },
                None => put_record(oldset, Record::Mask(blocked), Errno::EFAULT, Next::Finish(0)),
            },
            Err(e) => Phase::Finished { result: Err(e) },
        },
        SyscallRequest::RtSigaction { signum, act, oldact, sigsetsize } => if signum == SIGKILL
            || signum == SIGSTOP || sigsetsize != SIGSET_BYTES {
            Phase::Finished { result: Err(Errno::EINVAL) }
        } else {
            match act {
                Some(addr) => Phase::Fetch {
                    addr,
                    purpose: Purpose::Action { signal: signum, old: oldact },
                },
                None => tell_action(oldact, handlers.read_action(signum)),
            }
        },
        SyscallRequest::RtSigreturn => Phase::Frame,
        SyscallRequest::Sigaltstack { ss, old_ss, sp } => {
            let plan = task.signals.sys_sigaltstack(sp, true, ss.is_some());
            let next = match (plan.set, ss) {
                (Err(e), _) => Next::Refuse(e),
                (Ok(_), Some(addr)) => Next::Stack { addr },
                (Ok(_), None) => Next::Finish(0),
            };
            match plan.old {
                Some(old) => put_record(old_ss, Record::Stack(old), Errno::EFAULT, next),
                None => next.phase(),
            }
        },
        SyscallRequest::Futex { args } => match args {
            FutexRequest::Wake { addr, count } => futex_phase(
                sys_futex(FutexArgs::Wake { addr, count }, Duration::zero()),
            ),
            FutexRequest::Wait { addr, val, timeout } => Phase::Span {
                addr: timeout,
                purpose: SpanUse::Wait { addr, val },
            },
            FutexRequest::WaitBitset { addr, flags, val, timeout, bitmask } => Phase::Span {
                addr: timeout,
                purpose: SpanUse::WaitBitset { addr, flags, val, bitmask },
            },
        },
        SyscallRequest::Clone { args } => Phase::Clone { args, clone3: false },
        SyscallRequest::Clone3 { args } => Phase::Fetch { addr: args, purpose: Purpose::Clone },
        SyscallRequest::Pread64 { fd, buf, count, offset } => pread_with_user_buf(
            fd,
            buf,
            count,
            offset,
            0,
            None,
        ),
        SyscallRequest::EpollCreate { hint, .. } => if hint > 0 {
            Phase::Call { request, buffer: None, after: After::Return }
        } else {
            Phase::Finished { result: Err(Errno::EINVAL) }
        },
        SyscallRequest::SetThreadArea { .. } => Phase::Finished { result: Err(Errno::ENOSYS) },
        SyscallRequest::SetTidAddress { tidptr } => {
            let own = task.thread.sys_set_tid_address(tidptr, tid);
            Phase::Finished { result: Ok(as_unsigned(own)) }
        },
        SyscallRequest::Gettid => Phase::Finished { result: Ok(as_unsigned(tid)) },
        SyscallRequest::SetRobustList { head } => {
            task.thread.sys_set_robust_list(head);
            Phase::Finished { result: Ok(0) }
        },
        SyscallRequest::Getpid => Phase::Finished { result: Ok(as_unsigned(task.pid)) },
        SyscallRequest::Getppid => Phase::Finished { result: Ok(as_unsigned(task.ppid)) },
        SyscallRequest::Getuid => Phase::Finished { result: Ok(task.credentials.uid as u64) },
        SyscallRequest::Getgid => Phase::Finished { result: Ok(task.credentials.gid as u64) },
        SyscallRequest::Geteuid => Phase::Finished { result: Ok(task.credentials.euid as u64) },
        SyscallRequest::Getegid => Phase::Finished { result: Ok(task.credentials.egid as u64) },
        SyscallRequest::SchedGetAffinity { len, mask, .. } => if affinity_fits(len, NR_CPUS as u64) {
            Phase::Put {
                addr: mask,
                record: Record::Byte(affinity_byte()),
                error: Errno::EFAULT,
                next: Next::Finish(1),
            }
        } else {
            Phase::Finished { result: Err(Errno::EINVAL) }
        },
        SyscallRequest::SchedYield => Phase::Finished { result: Ok(0) },
        SyscallRequest::Kill { pid, sig } => kill(task, handlers, process.limits(), Some(pid), None, sig),
        SyscallRequest::Tkill { tid, sig } => kill(task, handlers, process.limits(), None, Some(tid), sig),
        SyscallRequest::Tgkill { tgid, tid, sig } => kill(
            task,
            handlers,
            process.limits(),
            Some(tgid),
            Some(tid),
            sig,
        ),
        SyscallRequest::Unsupported => Phase::Finished { result: Err(Errno::ENOSYS) },
        _ => Phase::Call { request, buffer: None, after: After::Return },
    };
    Syscall { request, phase, interrupt }
}

/// Sends a signal to a process, a thread, or a thread of a process.
fn kill(
    task: &mut Task,
    handlers: &SignalHandlers,
    limits: &ResourceLimits,
    pid: Option<i32>,
    tid: Option<i32>,
    sig: i32,
) -> (r: Phase)
    requires
        limits.well_formed(),
        old(task).signals.well_formed(),
        handlers.well_formed(),
    ensures
        r == finished(kill_result(*old(task), pid, tid, sig)),
        final(task).signals.well_formed(),
        final(task).signals.pending@ == (if r == finished(Ok(0)) {
            sent(
                old(task).signals.pending@,
                old(task).signals.blocked,
                handlers@,
                limits.sigpending(),
                user_signal(sig as u32),
            )
        } else {
            old(task).signals.pending@
        }),
        *final(task) == (Task {
            signals: SignalState {
                pending: final(task).signals.pending,
                ..old(task).signals
            },
            ..*old(task)
        }),
{
    let own_pid = task.pid;
    let own_tid = task.tid;
    match task.signals.do_kill(handlers, limits, own_pid, own_tid, pid, tid, sig) {
        Ok(()) => Phase::Finished { result: Ok(0) },
        Err(e) => Phase::Finished { result: Err(e) },
    }
}

/// What the guest sees of a result: the value, or the negated error number.
pub open spec fn return_value(result: Result<u64, Errno>) -> u64 {
    match result {
        Ok(v) => v,
        Err(e) => (0x1_0000_0000_0000_0000 - e.number()) as u64,
    }
}

/// Hands the result of a call to the guest, in the register for it.
pub fn handle_syscall_request(ctx: &mut PtRegs, result: Result<u64, Errno>)
    ensures
        *final(ctx) == (PtRegs { rax: return_value(result), ..*old(ctx) }),
{
    ctx.rax =
    match result {
        Ok(v) => v,
        Err(e) => (0x1_0000_0000_0000_0000 + e.as_neg() as i128) as u64,
    };
}

/// What a change comes to.
pub open spec fn applied_reply(limits: ResourceLimits, handlers: Seq<Handler>, change: Change) -> Reply {
    match change {
        Change::Limit { resource, new, .. } => Reply::Limit(
            prlimit_result(limits.limit(resource), resource, Some(new)),
        ),
        Change::Action { signal, action, .. } => Reply::Action(
            sigaction_result(handlers, signal as int, Some(action)).1,
        ),
        Change::Stack { stack } => Reply::Applied(
            match altstack_request(stack) {
                Ok(_) => Ok(()),
                Err(e) => Err(e),
            },
        ),
        Change::Return { frame: None } => Reply::Applied(Err(Errno::EFAULT)),
        _ => Reply::Applied(Ok(())),
    }
}

/// A change was made, and nothing else has changed.
pub open spec fn is_applied(
    change: Change,
    task: Task,
    process: ProcessModel,
    handlers: Seq<Handler>,
    task_after: Task,
    process_after: ProcessModel,
    handlers_after: Seq<Handler>,
) -> bool {
    match change {
        Change::Name { comm } => {
            &&& task_after == (Task { comm, ..task })
            &&& process_after == process
            &&& handlers_after == handlers
        },
        Change::Limit { resource, new, .. } => {
            &&& task_after == task
            &&& handlers_after == handlers
            &&& process_after == (ProcessModel { limits: process_after.limits, ..process })
            &&& limits_after(
                process.limits,
                resource,
                if prlimit_result(process.limits.limit(resource), resource, Some(new)) is Ok {
                    Some(new)
                } else {
                    None
                },
                process_after.limits,
            )
        },
        Change::Mask { blocked } => {
            &&& task_after == (Task { signals: SignalState { blocked, ..task.signals }, ..task })
            &&& process_after == process
            &&& handlers_after == handlers
        },
        Change::Action { signal, action, .. } => {
            &&& task_after == task
            &&& process_after == process
            &&& handlers_after == sigaction_result(handlers, signal as int, Some(action)).0
        },
        Change::Stack { stack } => {
            &&& task_after == (match altstack_request(stack) {
                Ok(altstack) => Task { signals: SignalState { altstack, ..task.signals }, ..task },
                Err(_) => task,
            })
            &&& process_after == process
            &&& handlers_after == handlers
        },
        Change::Return { frame } => {
            &&& process_after == process
            &&& task_after == (Task { signals: task_after.signals, ..task })
            &&& match frame {
                Some((stack, mask)) => {
                    &&& task_after.signals == (SignalState {
                        blocked: mask,
                        altstack: match altstack_request(stack) {
                            Ok(altstack) => altstack,
                            Err(_) => task.signals.altstack,
                        },
                        ..task.signals
                    })
                    &&& handlers_after == handlers
                },
                None => forced(
                    task.signals,
                    handlers,
                    process.limits.sigpending(),
                    false,
                    kernel_signal(SIGSEGV),
                    task_after.signals,
                    handlers_after,
                ),
            }
        },
    }
}

/// The change can be made: the limit on the stack cannot be lowered.
pub open spec fn can_apply(change: Change, limits: ResourceLimits) -> bool {
    match change {
        Change::Limit { resource, new, .. } => is_supported(
            limits.limit(resource),
            resource,
            Some(new),
        ),
        Change::Action { signal, .. } => is_signal(signal as int),
        _ => true,
    }
}

/// Makes a change of the task, of its process or of its handlers.
pub fn apply(
    task: &mut Task,
    process: &mut Process,
    handlers: &mut SignalHandlers,
    change: Change,
) -> (r: Reply)
    requires
        old(process).well_formed(),
        old(task).signals.well_formed(),
        old(handlers).well_formed(),
        can_apply(change, old(process)@.limits),
    ensures
        final(process).well_formed(),
        final(task).signals.well_formed(),
        final(handlers).well_formed(),
        r == applied_reply(old(process)@.limits, old(handlers)@, change),
        is_applied(
            change,
            *old(task),
            old(process)@,
            old(handlers)@,
            *final(task),
            final(process)@,
            final(handlers)@,
        ),
{
    match change {
        Change::Name { comm } => {
            task.comm = comm;
            Reply::Applied(Ok(()))
        },
        Change::Limit { resource, new, .. } => {
            let limits = process.limits_mut();
            Reply::Limit(sys_prlimit(limits, 0, resource, Some(Some(new))))
        },
        Change::Mask { blocked } => {
            task.signals.set_signal_mask(blocked);
            Reply::Applied(Ok(()))
        },
        Change::Action { signal, action, .. } => Reply::Action(
            handlers.sys_rt_sigaction(signal, Some(Some(action)), SIGSET_BYTES),
        ),
        Change::Stack { stack } => match task.signals.set_sigaltstack(stack) {
            Ok(()) => Reply::Applied(Ok(())),
            Err(e) => Reply::Applied(Err(e)),
        },
        Change::Return { frame } => {
            let limits = process.limits();
            match task.signals.sys_rt_sigreturn(handlers, limits, frame) {
                Ok(()) => Reply::Applied(Ok(())),
                Err(e) => Reply::Applied(Err(e)),
            }
        },
    }
}

impl Syscall {
    /// The call waits for a step that someone else performs.
    pub open spec fn well_formed(self) -> bool {
        self.phase.well_formed() && !(self.phase is Apply)
    }

    /// Goes on with the outcome of the step, and makes the change of the task that follows, where one
    /// does.
    pub fn advance(
        &mut self,
        task: &mut Task,
        process: &mut Process,
        handlers: &mut SignalHandlers,
        reply: Reply,
    )
        requires
            old(self).well_formed(),
            old(self).phase.answered_by(reply),
            old(process).well_formed(),
            old(task).signals.well_formed(),
            old(handlers).well_formed(),
            old(self).phase.spec_advance(reply) matches Phase::Apply { change } ==> can_apply(
                change,
                old(process)@.limits,
            ),
        ensures
            final(self).well_formed(),
            final(process).well_formed(),
            final(task).signals.well_formed(),
            final(handlers).well_formed(),
            final(self).request == old(self).request,
            final(self).interrupt == old(self).interrupt,
            match old(self).phase.spec_advance(reply) {
                Phase::Apply { change } => {
                    &&& final(self).phase == (Phase::Apply { change }).spec_advance(
                        applied_reply(old(process)@.limits, old(handlers)@, change),
                    )
                    &&& is_applied(
                        change,
                        *old(task),
                        old(process)@,
                        old(handlers)@,
                        *final(task),
                        final(process)@,
                        final(handlers)@,
                    )
                },
                next => {
                    &&& final(self).phase == next
                    &&& *final(task) == *old(task)
                    &&& final(process)@ == old(process)@
                    &&& final(handlers)@ == old(handlers)@
                },
            },
    {
        self.phase.advance(reply);
        if let Phase::Apply { change } = self.phase {
            let outcome = apply(task, process, handlers, change);
            self.phase.advance(outcome);
        }
    }
}

/// A caller that asks for the base of the thread-local storage after having set it gets the address that
/// was set, as long as the platform keeps it.
pub proof fn law_fs_base_is_written(
    task: Task,
    limits: ResourceLimits,
    handlers: Seq<Handler>,
    base: u64,
    addr: u64,
    to: u64,
)
    ensures
        ({
            let set = first_phase(
                task,
                limits,
                handlers,
                SyscallRequest::ArchPrctl { arg: ArchPrctlArg::SetFs(addr) },
            );
            let get = first_phase(
                task,
                limits,
                handlers,
                SyscallRequest::ArchPrctl { arg: ArchPrctlArg::GetFs(to) },
            );
            let kept = fs_base_after(base, FsAction::Write(addr));
            let write = get.spec_advance(Reply::Value(Ok(kept)));
            &&& set.spec_step() == (Step::SetFs { addr })
            &&& set.spec_advance(Reply::Value(Ok(0))) == finished(Ok(0))
            &&& get.spec_step() == Step::GetFs
            &&& write.spec_step() == (Step::Put { addr: to, record: Record::Word(addr) })
            &&& write.spec_advance(Reply::Worked(true)) == finished(Ok(0))
        }),
{
}

/// The descriptors of a pipe are written one after the other: the first part at the address that the
/// caller gave, the second one behind it. A write that fails ends the call with `EFAULT`.
pub proof fn law_pipe_descriptors_are_adjacent(
    task: Task,
    limits: ResourceLimits,
    handlers: Seq<Handler>,
    pipefd: u64,
    flags: u32,
    value: u64,
)
    ensures
        ({
            let request = SyscallRequest::Pipe2 { pipefd, flags };
            let call = first_phase(task, limits, handlers, request);
            let first = call.spec_advance(Reply::Value(Ok(value)));
            let second = first.spec_advance(Reply::Worked(true));
            &&& call.spec_step() == (Step::Handle { request, buffer: None })
            &&& first.spec_step() == (Step::WriteOut { addr: pipefd })
            &&& second.spec_step() == (Step::WriteOut { addr: next_descriptor(pipefd) })
            &&& second.spec_advance(Reply::Worked(true)) == finished(Ok(0))
            &&& first.spec_advance(Reply::Worked(false)) == finished(Err(Errno::EFAULT))
            &&& second.spec_advance(Reply::Worked(false)) == finished(Err(Errno::EFAULT))
        }),
{
}

/// The bytes of a name up to its first zero, and no more than fifteen.
pub open spec fn name_in(bytes: Seq<u8>) -> Seq<u8>
    decreases bytes.len(),
{
    if bytes.len() == 0 || bytes[0] == 0 {
        Seq::empty()
    } else {
        seq![bytes[0]] + name_in(bytes.skip(1))
    }
}

/// Runs the reading of a name from memory that holds `bytes` at the place.
pub open spec fn name_read(phase: Phase, bytes: Seq<u8>, fuel: nat) -> Phase
    decreases fuel,
{
    match phase {
        Phase::Name { reader, .. } => if fuel == 0 {
            phase
        } else {
            name_read(
                phase.spec_advance(Reply::Byte(Some(bytes[reader.len as int]))),
                bytes,
                (fuel - 1) as nat,
            )
        },
        _ => phase,
    }
}

/// A name that is set is the name that is read: the bytes up to the first zero, at most fifteen of them,
/// and zeros behind them, sixteen in all.
pub proof fn law_name_reads_back(
    task: Task,
    after: Task,
    limits: ResourceLimits,
    handlers: Seq<Handler>,
    from: u64,
    to: u64,
    bytes: Seq<u8>,
)
    requires
        bytes.len() >= 15,
        name_read(
            first_phase(
                task,
                limits,
                handlers,
                SyscallRequest::Prctl { arg: PrctlArg::SetName(from) },
            ),
            bytes,
            16,
        ) matches Phase::Apply { change: Change::Name { comm } } ==> after == (Task { comm, ..task }),
    ensures
        name_read(
            first_phase(
                task,
                limits,
                handlers,
                SyscallRequest::Prctl { arg: PrctlArg::SetName(from) },
            ),
            bytes,
            16,
        ) is Apply,
        ({
            let get = first_phase(
                after,
                limits,
                handlers,
                SyscallRequest::Prctl { arg: PrctlArg::GetName(to) },
            );
            &&& get.spec_step() matches Step::Put { addr, record: Record::Name(name) }
            &&& addr == to
            &&& name@ == comm_of(name_in(bytes.take(15)))
            &&& get.spec_advance(Reply::Worked(true)) == finished(Ok(0))
        }),
{
    let reader = NameReader::start();
    assert(reader.name@.take(0) =~= Seq::<u8>::empty());
    assert(bytes.take(15).skip(0) =~= bytes.take(15));
    lemma_name_read(from, reader, bytes, 16);
    assert(Seq::<u8>::empty() + name_in(bytes.take(15)) =~= name_in(bytes.take(15)));
}

proof fn lemma_name_read(addr: u64, reader: NameReader, bytes: Seq<u8>, fuel: nat)
    requires
        reader.well_formed(),
        bytes.len() >= 15,
        fuel > 15 - reader.len,
        !reader.ended,
    ensures
        name_read(name_next(addr, reader), bytes, fuel) matches Phase::Apply {
            change: Change::Name { comm },
        } && comm@ == comm_of(reader@.0 + name_in(bytes.take(15).skip(reader.len as int))),
    decreases 15 - reader.len,
{
    let rest = bytes.take(15).skip(reader.len as int);
    if reader.reading() {
        let b = bytes[reader.len as int];
        let next = reader.with_byte(b);
        assert(rest[0] == b);
        assert(name_next(addr, reader).spec_advance(Reply::Byte(Some(b))) == name_next(addr, next));
        if b == 0 {
            assert(reader@.0 + name_in(rest) =~= next@.0);
            next.lemma_comm();
        } else {
            assert(next@.0 =~= reader@.0.push(b));
            assert(rest.skip(1) =~= bytes.take(15).skip(next.len as int));
            assert(reader@.0 + name_in(rest) =~= next@.0 + name_in(rest.skip(1)));
            lemma_name_read(addr, next, bytes, (fuel - 1) as nat);
        }
    } else {
        assert(rest =~= Seq::<u8>::empty());
        assert(reader@.0 + name_in(rest) =~= reader@.0);
        reader.lemma_comm();
    }
}

/// No step of a call asks for more than the largest buffer, from its start on.
pub open spec fn is_bounded(phase: Phase) -> bool {
    match phase {
        Phase::Path { buffer: Some(size), .. } => size <= MAX_KERNEL_BUF_SIZE,
        Phase::Call { buffer: Some(size), .. } => size <= MAX_KERNEL_BUF_SIZE,
        _ => true,
    }
}

#[verifier::rlimit(60)]
proof fn lemma_starts_bounded(
    task: Task,
    limits: ResourceLimits,
    handlers: Seq<Handler>,
    request: SyscallRequest,
)
    ensures
        is_bounded(first_phase(task, limits, handlers, request)),
{
}

#[verifier::rlimit(60)]
proof fn lemma_stays_bounded(phase: Phase, reply: Reply)
    ensures
        is_bounded(phase) ==> is_bounded(phase.own_advance(reply)),
{
}

/// Buffers that the guest can make the shim allocate for reading are never larger than the largest
/// buffer, however much the guest asks for.
#[verifier::rlimit(60)]
#[verifier::spinoff_prover]
pub proof fn law_buffers_are_bounded(
    task: Task,
    limits: ResourceLimits,
    handlers: Seq<Handler>,
    request: SyscallRequest,
    phase: Phase,
    reply: Reply,
)
    ensures
        is_bounded(first_phase(task, limits, handlers, request)),
        is_bounded(phase) ==> is_bounded(phase.spec_advance(reply)),
        is_bounded(phase) ==> match phase.spec_step() {
            Step::Handle { buffer: Some(size), .. } => size <= MAX_KERNEL_BUF_SIZE,
            Step::Pread { len, .. } => len <= MAX_KERNEL_BUF_SIZE,
            _ => true,
        },
{
    lemma_starts_bounded(task, limits, handlers, request);
    lemma_stays_bounded(phase, reply);
}

/// A file that gives, at each position, some bytes of what is there: at least one, unless nothing is
/// left.
pub struct FileModel {
    pub data: Seq<u8>,
    pub chunk: spec_fn(int, int) -> int,
}

impl FileModel {
    /// How much a read of `len` bytes at `offset` gives.
    pub open spec fn read(self, offset: int, len: int) -> int {
        let there = if offset >= self.data.len() {
            0
        } else {
            self.data.len() - offset
        };
        let most = if len < there {
            len
        } else {
            there
        };
        let chunk = (self.chunk)(offset, len);
        if chunk < 1 || chunk > most {
            most
        } else {
            chunk
        }
    }
}

/// Runs a read in pieces, and gathers what is copied to the guest; every copy works.
pub open spec fn read_out(phase: Phase, file: FileModel, out: Seq<u8>, fuel: nat) -> (
    Result<u64, Errno>,
    Seq<u8>,
)
    decreases fuel,
{
    match phase {
        Phase::Piece { count, offset, done, .. } => if fuel == 0 {
            (Ok(0), out)
        } else {
            let size = file.read(offset + done, buffer_size((count - done) as u64) as int);
            let next = phase.spec_advance(Reply::Value(Ok(size as u64)));
            let more = out + file.data.subrange(offset + done, offset + done + size);
            if next is PieceCopy {
                read_out(next.spec_advance(Reply::Worked(true)), file, more, (fuel - 1) as nat)
            } else {
                read_out(next, file, out, (fuel - 1) as nat)
            }
        },
        Phase::Reposition { total, .. } => (Ok(total), out),
        Phase::Finished { result } => (result, out),
        _ => (Ok(0), out),
    }
}

/// A read in pieces gives the guest exactly what one large read would: the bytes of the file from the
/// offset on, as many as were asked for or as there are.
pub proof fn law_pieces_make_one_read(
    fd: i32,
    buf: u64,
    count: u64,
    offset: i64,
    done: u64,
    start: Option<i64>,
    file: FileModel,
    out: Seq<u8>,
    fuel: nat,
)
    requires
        0 <= offset <= file.data.len(),
        done <= count,
        offset + done <= file.data.len(),
        out == file.data.subrange(offset as int, offset + done),
        fuel > count - done,
        file.data.len() <= i64::MAX,
        start is None || start == Some(offset),
    ensures
        ({
            let there = file.data.len() - offset;
            let n = if count < there {
                count as int
            } else {
                there
            };
            read_out(pieces(fd, buf, count, offset, done, start), file, out, fuel) == (
                Ok::<u64, Errno>(n as u64),
                file.data.subrange(offset as int, offset + n),
            )
        }),
    decreases count - done,
{
    reveal_with_fuel(read_out, 2);
    let phase = pieces(fd, buf, count, offset, done, start);
    if done < count {
        let len = buffer_size((count - done) as u64) as int;
        let size = file.read(offset + done, len);
        let next = phase.spec_advance(Reply::Value(Ok(size as u64)));
        if size > 0 {
            let more = out + file.data.subrange(offset + done, offset + done + size);
            assert(more =~= file.data.subrange(offset as int, offset + done + size));
            assert(next is PieceCopy);
            law_pieces_make_one_read(
                fd,
                buf,
                count,
                offset,
                (done + size) as u64,
                start,
                file,
                more,
                (fuel - 1) as nat,
            );
        }
    }
}

} // verus!
