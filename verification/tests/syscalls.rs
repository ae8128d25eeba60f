use std::collections::BTreeMap;

use litebox::errno::Errno;
use litebox::shim::clock::{ClockId, Deadline, SleepPlan, TimeVal, TimeZone, TIMER_ABSTIME};
use litebox::shim::entry::{ArchPrctlArg, FutexPlan, LinuxShim, TaskParams, FUTEX_CLOCK_REALTIME};
use litebox::shim::execve::{is_released, sys_execve, ExecAction, Execve};
use litebox::shim::limits::{Rlimit, RlimitResource, RLIMIT_NOFILE_CUR};
use litebox::shim::process::Process;
use litebox::shim::signal::{
    SigAction, SigAltStack, SigmaskHow, SignalHandlers, SIGSET_BYTES, SIG_DFL, SIG_IGN,
};
use litebox::shim::sigset::{SigSet, SIGINT, SIGSEGV, SIGUSR1};
use litebox::shim::syscall::{
    do_syscall, handle_syscall_request, FutexRequest, Phase, Purpose, Record, Reply, Since, Step,
    Syscall, SyscallRequest, Task, MAX_KERNEL_BUF_SIZE,
};
use litebox::shim::task::{PrctlArg, VectorCopy, MAX_TOTAL_BYTES, TASK_COMM_LEN};
use litebox::shim::thread::PtRegs;
use litebox::time::Duration;

fn program() -> (Task, Process) {
    let params = TaskParams { pid: 10, ppid: 4, uid: 1, euid: 2, gid: 3, egid: 4 };
    let p = LinuxShim::new().load_program(params, 0x80_0000);
    (p.task, p.process.process)
}

fn start(task: &mut Task, process: &mut Process, request: SyscallRequest) -> Syscall {
    do_syscall(task, process, &SignalHandlers::new(), request)
}

fn result(call: &Syscall) -> Option<Result<u64, Errno>> {
    match call.phase.step() {
        Step::Done { result } => Some(result),
        _ => None,
    }
}

/// The result of a call that is done at once.
fn at_once(request: SyscallRequest) -> Result<u64, Errno> {
    let (mut task, mut process) = program();
    result(&start(&mut task, &mut process, request)).unwrap()
}

#[test]
fn calls_that_are_done_at_once() {
    assert_eq!(at_once(SyscallRequest::Getpid), Ok(10));
    assert_eq!(at_once(SyscallRequest::Getppid), Ok(4));
    assert_eq!(at_once(SyscallRequest::Gettid), Ok(10));
    assert_eq!(at_once(SyscallRequest::Getuid), Ok(1));
    assert_eq!(at_once(SyscallRequest::Geteuid), Ok(2));
    assert_eq!(at_once(SyscallRequest::Getgid), Ok(3));
    assert_eq!(at_once(SyscallRequest::Getegid), Ok(4));
    assert_eq!(at_once(SyscallRequest::SchedYield), Ok(0));
    assert_eq!(at_once(SyscallRequest::SetThreadArea { user_desc: 0 }), Err(Errno::ENOSYS));
    assert_eq!(at_once(SyscallRequest::Unsupported), Err(Errno::ENOSYS));
    assert_eq!(at_once(SyscallRequest::EpollCreate { hint: 0, flags: 0 }), Err(Errno::EINVAL));
    assert_eq!(at_once(SyscallRequest::SchedGetAffinity { pid: None, len: 4, mask: 0 }), Err(Errno::EINVAL));
    assert_eq!(at_once(SyscallRequest::Kill { pid: 10, sig: 65 }), Err(Errno::EINVAL));
    assert_eq!(at_once(SyscallRequest::Kill { pid: 11, sig: 2 }), Err(Errno::ESRCH));
    assert_eq!(at_once(SyscallRequest::Tkill { tid: 11, sig: 2 }), Err(Errno::ESRCH));
    assert_eq!(at_once(SyscallRequest::Pread64 { fd: 3, buf: 0, count: 0, offset: -1 }), Ok(0));
}

#[test]
fn calls_that_change_the_task() {
    let (mut task, mut process) = program();
    let call = start(&mut task, &mut process, SyscallRequest::SetTidAddress { tidptr: 0x77 });
    assert_eq!(result(&call), Some(Ok(10)));
    assert_eq!(task.thread.clear_child_tid, Some(0x77));
    let call = start(&mut task, &mut process, SyscallRequest::SetRobustList { head: 0x88 });
    assert_eq!(result(&call), Some(Ok(0)));
    assert_eq!(task.thread.robust_list, Some(0x88));
    let call = start(&mut task, &mut process, SyscallRequest::Tgkill { tgid: 10, tid: 10, sig: 2 });
    assert_eq!(result(&call), Some(Ok(0)));
    assert!(task.signals.pending.pending_set().contains(SIGINT));
    assert!(process.attach_thread(11));
    let call = start(&mut task, &mut process, SyscallRequest::ExitGroup { status: 257 });
    assert_eq!(call.interrupt.len(), 2);
    assert!(process.is_exiting(11));
    let (mut task, mut process) = program();
    start(&mut task, &mut process, SyscallRequest::Exit { status: 3 });
    assert!(process.is_exiting(10));
}

#[test]
fn results_as_the_guest_sees_them() {
    let mut ctx = PtRegs { rdi: 5, ..PtRegs::default() };
    handle_syscall_request(&mut ctx, Ok(7));
    assert_eq!(ctx, PtRegs { rdi: 5, rax: 7, ..PtRegs::default() });
    handle_syscall_request(&mut ctx, Err(Errno::ENOENT));
    assert_eq!(ctx.rax, u64::MAX - 1);
}

/// Runs a call with the given outcomes, and checks the steps that it asks for.
fn run(request: SyscallRequest, script: &[(Step, Reply)]) -> Result<u64, Errno> {
    let (mut task, mut process) = program();
    let mut call = start(&mut task, &mut process, request);
    let mut handlers = SignalHandlers::new();
    for (step, reply) in script {
        assert_eq!(call.phase.step(), *step);
        call.advance(&mut task, &mut process, &mut handlers, *reply);
    }
    result(&call).unwrap()
}

#[test]
fn calls_with_paths() {
    let open = SyscallRequest::Openat { dirfd: -100, pathname: 0x10, flags: 0, mode: 0 };
    let path = Step::ReadPath { addr: 0x10 };
    assert_eq!(run(open, &[(path, Reply::Worked(false))]), Err(Errno::EFAULT));
    let mkdir = SyscallRequest::Mkdir { pathname: 0x10, mode: 0 };
    assert_eq!(run(mkdir, &[(path, Reply::Worked(false))]), Err(Errno::EINVAL));
    let handle = |request| Step::Handle { request, buffer: None };
    assert_eq!(
        run(open, &[(path, Reply::Worked(true)), (handle(open), Reply::Value(Ok(3)))]),
        Ok(3)
    );
    let stat = SyscallRequest::Stat { pathname: 0x10, buf: 0x20 };
    assert_eq!(
        run(
            stat,
            &[
                (path, Reply::Worked(true)),
                (handle(stat), Reply::Value(Ok(99))),
                (Step::WriteOut { addr: 0x20 }, Reply::Worked(true)),
            ]
        ),
        Ok(0)
    );
    let link = SyscallRequest::Readlink { pathname: 0x10, buf: 0x20, bufsiz: u64::MAX };
    assert_eq!(
        run(
            link,
            &[
                (path, Reply::Worked(true)),
                (
                    Step::Handle { request: link, buffer: Some(MAX_KERNEL_BUF_SIZE) },
                    Reply::Value(Ok(12)),
                ),
                (Step::CopyOut { addr: 0x20, offset: 0, len: 12 }, Reply::Worked(false)),
            ]
        ),
        Err(Errno::EFAULT)
    );
}

#[test]
fn other_calls_with_steps() {
    let handle = |request| Step::Handle { request, buffer: None };
    let pipe = SyscallRequest::Pipe2 { pipefd: 0x40, flags: 0 };
    let made = (handle(pipe), Reply::Value(Ok(1)));
    let write = |addr, worked| (Step::WriteOut { addr }, Reply::Worked(worked));
    assert_eq!(run(pipe, &[made, write(0x40, true), write(0x44, true)]), Ok(0));
    assert_eq!(run(pipe, &[made, write(0x40, false)]), Err(Errno::EFAULT));
    assert_eq!(run(pipe, &[made, write(0x40, true), write(0x44, false)]), Err(Errno::EFAULT));
    let last = SyscallRequest::Pipe2 { pipefd: u64::MAX - 3, flags: 0 };
    assert_eq!(
        run(last, &[(handle(last), Reply::Value(Ok(1))), write(u64::MAX - 3, true), write(0, true)]),
        Ok(0)
    );
    let seek = SyscallRequest::Lseek { fd: 1, offset: 0, whence: 9 };
    assert_eq!(
        run(seek, &[(Step::Convert { number: 9 }, Reply::Worked(false))]),
        Err(Errno::EINVAL)
    );
    let data = SyscallRequest::Write { fd: 1, buf: 0x50, count: 6 };
    let bytes = Step::ReadBytes { addr: 0x50, len: 6 };
    assert_eq!(run(data, &[(bytes, Reply::Worked(false))]), Err(Errno::EFAULT));
    assert_eq!(
        run(data, &[(bytes, Reply::Worked(true)), (handle(data), Reply::Value(Err(Errno::EBADF)))]),
        Err(Errno::EBADF)
    );
    let affinity = SyscallRequest::SchedGetAffinity { pid: Some(3), len: 8, mask: 0x60 };
    let mask = Step::Put { addr: 0x60, record: Record::Byte(0b11) };
    assert_eq!(run(affinity, &[(mask, Reply::Worked(true))]), Ok(1));
    assert_eq!(run(affinity, &[(mask, Reply::Worked(false))]), Err(Errno::EFAULT));
}

/// A thread with a little memory, on a platform that keeps the base of its thread-local storage.
struct Guest {
    task: Task,
    process: Process,
    handlers: SignalHandlers,
    memory: BTreeMap<u64, Record>,
    bytes: BTreeMap<u64, u8>,
    fs_base: u64,
    now: Duration,
    max_fd: Option<u64>,
}

impl Guest {
    fn new() -> Guest {
        let (task, process) = program();
        Guest {
            task,
            process,
            handlers: SignalHandlers::new(),
            memory: BTreeMap::new(),
            bytes: BTreeMap::new(),
            fs_base: 0x1234,
            now: Duration { secs: 1000, nanos: 2_500_000 },
            max_fd: None,
        }
    }

    /// Address zero can be neither read nor written.
    fn call(&mut self, request: SyscallRequest) -> Result<u64, Errno> {
        let mut call = do_syscall(&mut self.task, &mut self.process, &self.handlers, request);
        loop {
            let reply = match call.phase.step() {
                Step::Put { addr, record } => {
                    if addr != 0 {
                        self.memory.insert(addr, record);
                    }
                    Reply::Worked(addr != 0)
                },
                Step::Fetch { addr, .. } => Reply::Record(self.memory.get(&addr).copied()),
                Step::ReadByte { addr } => Reply::Byte(self.bytes.get(&addr).copied()),
                Step::SetFs { addr } => {
                    self.fs_base = addr;
                    Reply::Value(Ok(0))
                },
                Step::GetFs => Reply::Value(Ok(self.fs_base)),
                Step::Now { since: Since::Epoch } => Reply::Time(self.now),
                Step::Now { since: Since::Boot } => Reply::Time(Duration::from_secs(7)),
                Step::SetMaxFd { max_fd } => {
                    self.max_fd = Some(max_fd);
                    Reply::Worked(true)
                },
                Step::Done { result } => return result,
                step => panic!("{step:?}"),
            };
            call.advance(&mut self.task, &mut self.process, &mut self.handlers, reply);
        }
    }

    fn word(&self, addr: u64) -> u64 {
        match self.memory[&addr] {
            Record::Word(word) => word,
            record => panic!("{record:?}"),
        }
    }

    fn store(&mut self, addr: u64, bytes: &[u8]) {
        for (i, byte) in (0u64..).zip(bytes) {
            self.bytes.insert(addr + i, *byte);
        }
    }
}

#[test]
fn test_arch_prctl() {
    let mut guest = Guest::new();
    let get = |to| SyscallRequest::ArchPrctl { arg: ArchPrctlArg::GetFs(to) };
    let set = |addr| SyscallRequest::ArchPrctl { arg: ArchPrctlArg::SetFs(addr) };

    // Save old FS base
    guest.call(get(0x10)).expect("Failed to get FS base");
    let old_fs_base = guest.word(0x10);

    // Set new FS base
    let new_fs_base: [u8; 16] = [0; 16];
    guest.call(set(new_fs_base.as_ptr() as u64)).expect("Failed to set FS base");

    // Verify new FS base
    guest.call(get(0x20)).expect("Failed to get FS base");
    assert_eq!(guest.word(0x20), new_fs_base.as_ptr() as u64);

    // Restore old FS base
    guest.call(set(old_fs_base)).expect("Failed to restore FS base");
    guest.call(get(0x30)).expect("Failed to get FS base");
    assert_eq!(guest.word(0x30), 0x1234);

    assert_eq!(guest.call(get(0)), Err(Errno::EFAULT));
    let refused = SyscallRequest::ArchPrctl { arg: ArchPrctlArg::CetLock };
    assert_eq!(guest.call(refused), Err(Errno::EINVAL));
    let failing = [(Step::SetFs { addr: 5 }, Reply::Value(Err(Errno::EPERM)))];
    assert_eq!(run(set(5), &failing), Err(Errno::EPERM));
}

#[test]
fn test_prctl_set_get_name() {
    let mut guest = Guest::new();
    let get_name = |guest: &mut Guest| {
        let get = SyscallRequest::Prctl { arg: PrctlArg::GetName(0x500) };
        assert_eq!(guest.call(get), Ok(0), "sys_prctl GetName failed");
        match guest.memory[&0x500] {
            Record::Name(name) => name,
            record => panic!("{record:?}"),
        }
    };
    let set = SyscallRequest::Prctl { arg: PrctlArg::SetName(0x100) };

    // Prepare a null-terminated name to set
    let name: &[u8] = b"litebox-test\0";
    guest.store(0x100, name);
    assert_eq!(guest.call(set), Ok(0), "sys_prctl SetName failed");

    let get_buf = get_name(&mut guest);
    assert_eq!(&get_buf[..name.len()], name, "prctl get_name returned unexpected comm");

    // Test too long name
    let long_name = [b'a'; TASK_COMM_LEN + 10];
    guest.store(0x100, &long_name);
    assert_eq!(guest.call(set), Ok(0), "sys_prctl SetName failed");

    // Get the name again
    let get_buf = get_name(&mut guest);
    assert_eq!(get_buf[TASK_COMM_LEN - 1], 0, "prctl get_name did not null-terminate the comm");
    assert_eq!(
        &get_buf[..TASK_COMM_LEN - 1],
        &long_name[..TASK_COMM_LEN - 1],
        "prctl get_name returned unexpected comm for too long name"
    );

    // A name that cannot be read leaves the one before.
    let unreadable = SyscallRequest::Prctl { arg: PrctlArg::SetName(0x9000) };
    assert_eq!(guest.call(unreadable), Err(Errno::EFAULT));
    assert_eq!(get_name(&mut guest), get_buf);
    let unwritable = SyscallRequest::Prctl { arg: PrctlArg::GetName(0) };
    assert_eq!(guest.call(unwritable), Err(Errno::EFAULT));
}

#[test]
fn waiting_signals_are_limited() {
    let mut guest = Guest::new();
    let kill = SyscallRequest::Kill { pid: 10, sig: 40 };
    // A process starts with room for none.
    assert_eq!(guest.call(kill), Ok(0));
    assert!(guest.task.signals.pending.pending_set().is_empty());
    let two = Rlimit { rlim_cur: 2, rlim_max: 2 };
    guest.process.limits_mut().set_rlimit(RlimitResource::SIGPENDING, two);
    for _ in 0..3 {
        assert_eq!(guest.call(kill), Ok(0));
    }
    for _ in 0..2 {
        assert_eq!(guest.task.signals.pending.remove(40).signo, 40);
    }
    assert!(guest.task.signals.pending.pending_set().is_empty());
    // Standard signals of a user are not.
    assert_eq!(guest.call(SyscallRequest::Kill { pid: 10, sig: SIGINT as i32 }), Ok(0));
    assert!(guest.task.signals.pending.pending_set().contains(SIGINT));
}

#[test]
fn limits_are_read_and_written() {
    let mut guest = Guest::new();
    let resource = RlimitResource::NOFILE;
    let low = Rlimit { rlim_cur: 10, rlim_max: 20 };
    guest.memory.insert(0x10, Record::Limit(low));
    let both =
        SyscallRequest::Prlimit { pid: 0, resource, new_limit: Some(0x10), old_limit: Some(0x20) };
    assert_eq!(guest.call(both), Ok(0));
    assert!(matches!(guest.memory[&0x20], Record::Limit(l) if l.rlim_cur == RLIMIT_NOFILE_CUR));
    assert_eq!(guest.max_fd, Some(9));
    assert_eq!(guest.call(SyscallRequest::Getrlimit { resource, rlim: 0x30 }), Ok(0));
    assert_eq!(guest.memory[&0x30], Record::Limit(low));
    assert_eq!(guest.call(SyscallRequest::Getrlimit { resource, rlim: 0 }), Err(Errno::EINVAL));
    assert_eq!(guest.call(SyscallRequest::Setrlimit { resource, rlim: 0x99 }), Err(Errno::EFAULT));
    let unread =
        SyscallRequest::Prlimit { pid: 0, resource, new_limit: Some(0x99), old_limit: None };
    assert_eq!(guest.call(unread), Err(Errno::EINVAL));
    guest.memory.insert(0x10, Record::Limit(Rlimit { rlim_cur: 1, rlim_max: 21 }));
    assert_eq!(guest.call(SyscallRequest::Setrlimit { resource, rlim: 0x10 }), Err(Errno::EPERM));
    let cpu = SyscallRequest::Getrlimit { resource: RlimitResource::CPU, rlim: 0x30 };
    assert_eq!(guest.call(cpu), Err(Errno::EINVAL));
}

#[test]
fn signal_requests_write_what_was_before() {
    let mut guest = Guest::new();
    let set = SigSet::single(SIGINT);
    guest.memory.insert(0x10, Record::Mask(set));
    let block = |set, oldset| SyscallRequest::RtSigprocmask {
        how: SigmaskHow::Block,
        set,
        oldset,
        sigsetsize: SIGSET_BYTES,
    };
    assert_eq!(guest.call(block(Some(0x10), Some(0x20))), Ok(0));
    assert_eq!(guest.memory[&0x20], Record::Mask(SigSet { bits: 0 }));
    assert_eq!(guest.task.signals.blocked, set);
    assert_eq!(guest.call(block(None, Some(0x20))), Ok(0));
    assert_eq!(guest.memory[&0x20], Record::Mask(set));
    guest.memory.insert(0x10, Record::Mask(SigSet::single(SIGUSR1)));
    // Without room for the set before, nothing is blocked.
    assert_eq!(guest.call(block(Some(0x10), Some(0))), Err(Errno::EFAULT));
    assert_eq!(guest.task.signals.blocked, set);

    let action = SigAction { sigaction: 0x4000, restorer: 0, flags: 0, mask: set };
    guest.memory.insert(0x30, Record::Action(action));
    let act = |act, oldact| SyscallRequest::RtSigaction {
        signum: SIGUSR1,
        act,
        oldact,
        sigsetsize: SIGSET_BYTES,
    };
    // The action is set even if the one before cannot be written.
    assert_eq!(guest.call(act(Some(0x30), Some(0))), Err(Errno::EFAULT));
    assert_eq!(guest.call(act(None, Some(0x40))), Ok(0));
    assert_eq!(guest.memory[&0x40], Record::Action(action));
    assert_eq!(guest.call(act(Some(0x99), None)), Err(Errno::EFAULT));

    let stack = SigAltStack { sp: 0x1_0000, flags: 0, size: 0x1000 };
    guest.memory.insert(0x50, Record::Stack(stack));
    let alt = |ss, old_ss, sp| SyscallRequest::Sigaltstack { ss, old_ss, sp };
    assert_eq!(guest.call(alt(Some(0x50), None, 0)), Ok(0));
    assert_eq!(guest.call(alt(None, Some(0x60), 0x1_0800)), Ok(0));
    assert_eq!(guest.memory[&0x60], Record::Stack(SigAltStack { flags: 1, ..stack }));
    assert_eq!(guest.call(alt(Some(0x50), Some(0x60), 0x1_0800)), Err(Errno::EPERM));
    assert_eq!(guest.call(alt(Some(0x50), Some(0), 0)), Err(Errno::EFAULT));
}

#[test]
fn times_are_written() {
    let mut guest = Guest::new();
    let day = |tv, tz| SyscallRequest::Gettimeofday { tv, tz };
    assert_eq!(guest.call(day(Some(0x10), Some(0x20))), Ok(0));
    assert_eq!(guest.memory[&0x10], Record::Time(TimeVal { tv_sec: 1000, tv_usec: 2500 }));
    assert_eq!(
        guest.memory[&0x20],
        Record::Zone(TimeZone { tz_minuteswest: 0, tz_dsttime: 0 })
    );
    assert_eq!(guest.call(day(None, None)), Ok(0));
    assert_eq!(guest.call(day(Some(0x10), Some(0))), Err(Errno::EFAULT));
    assert_eq!(guest.call(day(Some(0), None)), Err(Errno::EFAULT));
    assert_eq!(guest.call(SyscallRequest::Time { tloc: Some(0x30) }), Ok(1000));
    assert_eq!(guest.word(0x30), 1000);
    assert_eq!(guest.call(SyscallRequest::Time { tloc: Some(0) }), Err(Errno::EFAULT));
    guest.now = Duration::from_secs(1 << 63);
    assert_eq!(guest.call(SyscallRequest::Time { tloc: None }), Err(Errno::EOVERFLOW));
    guest.call(SyscallRequest::SetRobustList { head: 0x777 }).unwrap();
    let robust = SyscallRequest::GetRobustList { pid: None, head: 0x40, len: 0x48 };
    assert_eq!(guest.call(robust), Ok(0));
    assert_eq!((guest.word(0x40), guest.word(0x48)), (0x777, 24));
}

#[test]
fn clocks_and_sleeps_step_by_step() {
    let monotonic = Reply::Clock(Some(ClockId::Monotonic));
    let name = |number| Step::Clock { number };
    let get = SyscallRequest::ClockGettime { clockid: 1, tp: 0x10 };
    let time = Duration::from_secs(7);
    let now = (Step::Now { since: Since::Boot }, Reply::Time(time));
    let write = Step::WriteTime { addr: 0x10, time };
    assert_eq!(
        run(get, &[(name(1), monotonic), now, (write, Reply::Value(Ok(0)))]),
        Ok(0)
    );
    assert_eq!(
        run(get, &[(name(1), monotonic), now, (write, Reply::Value(Err(Errno::EFAULT)))]),
        Err(Errno::EFAULT)
    );
    assert_eq!(run(get, &[(name(1), Reply::Clock(None))]), Err(Errno::EINVAL));
    assert_eq!(run(get, &[(name(1), Reply::Clock(Some(ClockId::Other)))]), Err(Errno::EINVAL));
    let res = SyscallRequest::ClockGetres { clockid: 6, res: 0x20 };
    let coarse = Step::WriteTime { addr: 0x20, time: Duration::from_millis(4) };
    assert_eq!(
        run(
            res,
            &[
                (name(6), Reply::Clock(Some(ClockId::MonotonicCoarse))),
                (coarse, Reply::Value(Ok(0))),
            ]
        ),
        Ok(0)
    );
    let sleep = |clockid, flags| SyscallRequest::ClockNanosleep {
        clockid,
        flags,
        request: 0x30,
        remain: 0x40,
    };
    let request = (Step::ReadTime { addr: 0x30 }, Reply::Span(Ok(Some(time))));
    let left = Duration::from_secs(2);
    let cut = Reply::Slept { interrupted: true, remaining: Some(left) };
    assert_eq!(
        run(
            sleep(1, 0),
            &[
                (name(1), monotonic),
                request,
                (Step::Sleep { plan: SleepPlan::For(time) }, cut),
                (Step::WriteTime { addr: 0x40, time: left }, Reply::Value(Ok(0))),
            ]
        ),
        Err(Errno::EINTR)
    );
    let until = SleepPlan::Until(Deadline::FromNow(left));
    assert_eq!(
        run(
            sleep(0, TIMER_ABSTIME),
            &[
                (name(0), Reply::Clock(Some(ClockId::RealTime))),
                request,
                (Step::Now { since: Since::Epoch }, Reply::Time(Duration::from_secs(5))),
                (Step::Sleep { plan: until }, Reply::Slept { interrupted: false, remaining: None }),
            ]
        ),
        Ok(0)
    );
    assert_eq!(run(sleep(1, 2), &[(name(1), monotonic), request]), Err(Errno::EINVAL));
}

#[test]
fn futexes_and_clones_step_by_step() {
    let futex = |args| SyscallRequest::Futex { args };
    assert_eq!(run(futex(FutexRequest::Wake { addr: 4, count: 0 }), &[]), Ok(0));
    let wake = FutexPlan::Wake { addr: 4, count: 2 };
    assert_eq!(
        run(
            futex(FutexRequest::Wake { addr: 4, count: 2 }),
            &[(Step::Futex { plan: wake }, Reply::Value(Ok(1)))]
        ),
        Ok(1)
    );
    let flags = FUTEX_CLOCK_REALTIME;
    let wait = FutexRequest::WaitBitset { addr: 4, flags, val: 1, timeout: 0x50, bitmask: 0 };
    let span = (Step::ReadTime { addr: 0x50 }, Reply::Span(Ok(Some(Duration::from_secs(9)))));
    let plan = FutexPlan::WaitUntil {
        addr: 4,
        val: 1,
        deadline: Some(Deadline::FromNow(Duration::from_secs(4))),
        bitmask: None,
    };
    assert_eq!(
        run(
            futex(wait),
            &[
                span,
                (Step::Now { since: Since::Epoch }, Reply::Time(Duration::from_secs(5))),
                (Step::Futex { plan }, Reply::Value(Err(Errno::ETIMEDOUT))),
            ]
        ),
        Err(Errno::ETIMEDOUT)
    );
    let timeout = (Step::ReadTime { addr: 0x50 }, Reply::Span(Err(Errno::EFAULT)));
    let plain = FutexRequest::Wait { addr: 4, val: 1, timeout: 0x50 };
    assert_eq!(run(futex(plain), &[timeout]), Err(Errno::EFAULT));
    let clone3 = SyscallRequest::Clone3 { args: 0x60 };
    let fetch = Step::Fetch { addr: 0x60, purpose: Purpose::Clone };
    assert_eq!(run(clone3, &[(fetch, Reply::Record(None))]), Err(Errno::EFAULT));
}

#[test]
fn returns_from_handlers() {
    let stack = SigAltStack { sp: 0x1_0000, flags: 0, size: 0x1000 };
    let frame = Reply::Frame(Some((stack, SigSet::single(SIGINT))));
    let restore = (Step::RestoreContext, Reply::Value(Ok(0x55)));
    assert_eq!(run(SyscallRequest::RtSigreturn, &[(Step::ReadFrame, frame), restore]), Ok(0x55));
    let (mut task, mut process) = program();
    let mut handlers = SignalHandlers::new();
    let mut call = start(&mut task, &mut process, SyscallRequest::RtSigreturn);
    call.advance(&mut task, &mut process, &mut handlers, Reply::Frame(None));
    assert_eq!(result(&call), Some(Err(Errno::EFAULT)));
    assert!(task.signals.pending.pending_set().contains(SIGSEGV));
}

/// Reads a file of the given size by a large read, and gathers what the guest gets.
fn large_read(file: &[u8], position: u64, count: u64) -> (Result<u64, Errno>, Vec<u8>, Option<i64>) {
    let (mut task, mut process) = program();
    let mut call = start(&mut task, &mut process, SyscallRequest::Read { fd: 3, buf: 0x1000, count });
    let mut guest = Vec::new();
    let mut seek = None;
    let mut piece: &[u8] = &[];
    loop {
        let reply = match call.phase.step() {
            Step::Tell { fd: 3 } => Reply::Value(Ok(position)),
            Step::Pread { fd: 3, len, position } => {
                assert!(len <= MAX_KERNEL_BUF_SIZE);
                let from = (position as usize).min(file.len());
                let to = (from + len as usize).min(file.len());
                piece = &file[from..to];
                Reply::Value(Ok(piece.len() as u64))
            },
            Step::CopyOut { addr: 0x1000, offset, len } => {
                assert_eq!(offset as usize, guest.len());
                guest.extend_from_slice(&piece[..len as usize]);
                Reply::Worked(true)
            },
            Step::SeekTo { fd: 3, position } => {
                seek = Some(position);
                Reply::Value(Ok(position as u64))
            },
            Step::Done { result } => return (result, guest, seek),
            step => panic!("{step:?}"),
        };
        call.advance(&mut task, &mut process, &mut SignalHandlers::new(), reply);
    }
}

#[test]
fn pieces_make_one_read() {
    let file: Vec<u8> = (0..0x12_3456u32).map(|i| (i * 7) as u8).collect();
    let (r, guest, seek) = large_read(&file, 16, u64::MAX);
    assert_eq!(r, Ok(0x12_3446));
    assert!(guest == file[16..]);
    assert_eq!(seek, Some(0x12_3456));
    let (r, guest, _) = large_read(&file, 5, 0x10_0000);
    assert_eq!(r, Ok(0x10_0000));
    assert!(guest == file[5..0x10_0005]);
}

#[test]
fn failures_of_large_reads() {
    let read = SyscallRequest::Read { fd: 3, buf: 0, count: MAX_KERNEL_BUF_SIZE + 1 };
    assert_eq!(
        run(read, &[(Step::Tell { fd: 3 }, Reply::Value(Err(Errno::EBADF)))]),
        Err(Errno::EBADF)
    );
    let pread = SyscallRequest::Pread64 { fd: 3, buf: 0, count: 10, offset: 4 };
    let piece = Step::Pread { fd: 3, len: 10, position: 4 };
    assert_eq!(run(pread, &[(piece, Reply::Value(Err(Errno::EIO)))]), Err(Errno::EIO));
    assert_eq!(
        run(
            pread,
            &[
                (piece, Reply::Value(Ok(2))),
                (Step::CopyOut { addr: 0, offset: 0, len: 2 }, Reply::Worked(true)),
                (Step::Pread { fd: 3, len: 8, position: 6 }, Reply::Value(Ok(0))),
            ]
        ),
        Ok(2)
    );
    assert_eq!(
        run(
            pread,
            &[
                (piece, Reply::Value(Ok(2))),
                (Step::CopyOut { addr: 0, offset: 0, len: 2 }, Reply::Worked(false)),
            ]
        ),
        Err(Errno::EFAULT)
    );
    let small = SyscallRequest::Read { fd: 3, buf: 8, count: MAX_KERNEL_BUF_SIZE };
    let handle = Step::Handle { request: small, buffer: Some(MAX_KERNEL_BUF_SIZE) };
    assert_eq!(run(small, &[(handle, Reply::Value(Err(Errno::EBADF)))]), Err(Errno::EBADF));
    let (mut task, mut process) = program();
    let call = start(&mut task, &mut process, SyscallRequest::Brk { addr: 0 });
    assert!(matches!(call.phase, Phase::Call { .. }));
}

#[test]
fn vectors_of_strings() {
    let v = VectorCopy::new(0);
    assert!(matches!(v, VectorCopy::Done(ref s) if s.is_empty()));
    let v = VectorCopy::new(0x100).pointer_read(Some(0x500)).text_read(Some(b"ab".to_vec()));
    assert!(matches!(v, VectorCopy::Pointer { base: 0x108, total: 3, .. }));
    let v = v.pointer_read(Some(0));
    assert!(matches!(v, VectorCopy::Done(ref s) if *s == vec![b"ab".to_vec()]));
    let v = VectorCopy::new(0x100).pointer_read(None);
    assert!(matches!(v, VectorCopy::Failed(Errno::EFAULT)));
    let v = VectorCopy::new(0x100).pointer_read(Some(1)).text_read(None);
    assert!(matches!(v, VectorCopy::Failed(Errno::EFAULT)));
    let long = vec![b'x'; MAX_TOTAL_BYTES as usize];
    let v = VectorCopy::new(0x100).pointer_read(Some(1)).text_read(Some(long));
    assert!(matches!(v, VectorCopy::Failed(Errno::E2BIG)));
    let fits = vec![b'x'; MAX_TOTAL_BYTES as usize - 1];
    let v = VectorCopy::new(0x100).pointer_read(Some(1)).text_read(Some(fits));
    assert!(matches!(v, VectorCopy::Pointer { .. }));
    let v = v.pointer_read(Some(1)).text_read(Some(Vec::new()));
    assert!(matches!(v, VectorCopy::Failed(Errno::E2BIG)));
}

#[test]
fn vectors_that_do_not_end() {
    let mut v = VectorCopy::new(u64::MAX - 7);
    let mut n = 0;
    loop {
        v = match v {
            VectorCopy::Pointer { .. } => v.pointer_read(Some(1)),
            VectorCopy::Text { .. } => {
                n += 1;
                v.text_read(Some(Vec::new()))
            },
            VectorCopy::Done(s) => {
                assert_eq!(s.len(), 4096);
                break;
            },
            VectorCopy::Failed(e) => panic!("{e:?}"),
        };
    }
    assert_eq!(n, 4096);
}

/// Brings a call to the point where the program is to be opened: a script with an interpreter.
fn call_of_a_script() -> Execve {
    let mut call = sys_execve(0x100, 0x200);
    loop {
        call = match call.action() {
            ExecAction::ReadPath => call.path_read(Some(b"/run.sh".to_vec())),
            ExecAction::ReadPointer { at } => call.pointer_read(Some(match at {
                0x100 => 0x1000,
                0x108 => 0x1001,
                0x200 => 0x2000,
                _ => 0,
            })),
            ExecAction::ReadText { at } => call.text_read(Some(match at {
                0x1000 => b"run.sh".to_vec(),
                0x1001 => b"-v".to_vec(),
                _ => b"A=1".to_vec(),
            })),
            ExecAction::ReadHeader => {
                let header: &[u8] = match call.path().unwrap() {
                    "/run.sh" => b"#!/bin/sh -e\n",
                    _ => b"\x7fELF",
                };
                call.header_read(Ok(header))
            },
            ExecAction::OpenProgram => return call,
            action => panic!("{action:?}"),
        };
    }
}

#[test]
fn running_another_program() {
    let (mut task, mut process) = program();
    assert!(process.attach_thread(11));
    task.thread.robust_list = Some(0x99);
    task.thread.clear_child_tid = Some(0x98);
    let mut handlers = SignalHandlers::new();
    let action =
        |sigaction| SigAction { sigaction, restorer: 0, flags: 0, mask: SigSet::empty() };
    handlers.sys_rt_sigaction(SIGINT, Some(Some(action(0x1000))), SIGSET_BYTES).unwrap();
    handlers.sys_rt_sigaction(SIGUSR1, Some(Some(action(SIG_IGN))), SIGSET_BYTES).unwrap();

    let call = call_of_a_script();
    assert_eq!(call.path(), Some("/bin/sh"));
    let (call, interrupt) = call.opened(Ok(()), &mut process, 10);
    assert_eq!(interrupt, vec![11]);
    let call = call.thread_left(&mut process);
    assert_eq!(call.action(), ExecAction::WaitForThread);
    process.detach_thread(11);
    let call = call.thread_left(&mut process);
    assert_eq!(call.action(), ExecAction::CloseDescriptors);
    assert!(process.attach_thread(12));
    let call = call.closed(&mut task.thread, &mut task.signals, &mut handlers);
    assert_eq!(call.action(), ExecAction::ReleaseMemory { robust_list: Some(0x99) });
    assert_eq!(task.thread.clear_child_tid, None);
    assert_eq!(handlers.get(SIGINT).action.sigaction, SIG_DFL);
    assert_eq!(handlers.get(SIGUSR1).action.sigaction, SIG_IGN);
    let call = call.released();
    assert_eq!(call.action(), ExecAction::LoadProgram);
    assert_eq!(
        call.arguments().unwrap(),
        &vec![b"/bin/sh".to_vec(), b"-e".to_vec(), b"/run.sh".to_vec(), b"-v".to_vec()]
    );
    assert_eq!(call.environment().unwrap(), &vec![b"A=1".to_vec()]);
    let mut ctx = PtRegs::default();
    let call =
        call.loaded(b"sh", 0x40_0000, 0x7000, &mut task.comm, &mut task.thread, &mut ctx);
    assert_eq!(call.action(), ExecAction::Done { result: Ok(0) });
    assert_eq!(&task.comm[..3], b"sh\0");
    assert_eq!((ctx.rip, ctx.rsp), (0x40_0000, 0x7000));
    assert!(is_released(1) && !is_released(0));
}

#[test]
fn programs_that_cannot_be_run() {
    let done = |call: Execve| match call.action() {
        ExecAction::Done { result } => result,
        action => panic!("{action:?}"),
    };
    assert_eq!(done(sys_execve(0, 0).path_read(None)), Err(Errno::EFAULT));
    assert_eq!(done(sys_execve(0, 0).path_read(Some(vec![0xff]))), Err(Errno::ENOENT));
    let call = sys_execve(0x100, 0).path_read(Some(b"/a".to_vec()));
    assert_eq!(done(call.pointer_read(None)), Err(Errno::EFAULT));
    let call = sys_execve(0, 0x100).path_read(Some(b"/a".to_vec()));
    assert_eq!(done(call.pointer_read(Some(1)).text_read(None)), Err(Errno::EFAULT));
    let call = sys_execve(0, 0).path_read(Some(b"/a".to_vec()));
    assert_eq!(done(call.header_read(Err(Errno::ENOENT))), Err(Errno::ENOENT));
    let (_, mut process) = program();
    let (call, interrupt) = call_of_a_script().opened(Err(Errno::ENOEXEC), &mut process, 10);
    assert!(interrupt.is_empty());
    assert_eq!(done(call), Err(Errno::ENOEXEC));
    // The old program was not touched.
    assert!(process.attach_thread(11));
    process.exit_thread(10, 0);
    let (call, _) = call_of_a_script().opened(Ok(()), &mut process, 10);
    assert_eq!(done(call), Err(Errno::EBUSY));
}
