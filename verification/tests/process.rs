use litebox::errno::Errno;
use litebox::lvbs::kernel::ContinueOperation;
use litebox::shim::entry::{
    close_on_exec, enter_shim, entry_plan, fs_read, futex_result, run_on_raw_fd, sys_arch_prctl, sys_futex,
    ArchPrctlArg, Entry, EntryPlan, FdKind, FdKinds, FsAction, FutexArgs, FutexPlan, LinuxShim, LinuxShimProcess,
    OpenFd, TaskParams, FIRST_THREAD_ID, FUTEX_CLOCK_REALTIME,
};
use litebox::shim::clock::Deadline;
use litebox::shim::limits::{
    sys_getrlimit, sys_prlimit, sys_setrlimit, LimitChange, Rlimit, RlimitResource,
    RLIMIT_NOFILE_MAX, ResourceLimits,
};
use litebox::shim::pending::siginfo_kill;
use litebox::shim::process::{truncate_status, ExitStatus, Process};
use litebox::shim::robust::{fetch_robust_entry, wake_robust_list, RobustListHead, ROBUST_LIST_LIMIT};
use litebox::shim::signal::{ExceptionInfo, EXCEPTION_PAGE_FAULT};
use litebox::shim::sigset::{SigSet, SIGINT};
use litebox::shim::syscall::Task;
use litebox::shim::task::{
    affinity_fits, set_task_comm, sys_prctl, sys_sched_getaffinity, NameReader, PrctlAction, PrctlArg, CAP_LAST,
    NR_CPUS, TASK_COMM_LEN,
};
use litebox::shim::thread::{
    clone_result, do_clone, CloneArgs, PtRegs, ThreadInitState, ThreadState, CLONE_CHILD_CLEARTID,
    CLONE_CHILD_SETTID, CLONE_DETACHED, CLONE_FS, CLONE_PARENT_SETTID, CLONE_PIDFD, CLONE_REQUIRED,
    CLONE_SETTLS, USER_CS, USER_DS,
};
use litebox::time::Duration;

const STACK: u64 = 0x80_0000;

#[test]
fn requests_about_the_base() {
    assert_eq!(sys_arch_prctl(ArchPrctlArg::SetFs(0x10)), Ok(FsAction::Write(0x10)));
    assert_eq!(sys_arch_prctl(ArchPrctlArg::GetFs(0x20)), Ok(FsAction::Read { to: 0x20 }));
    assert_eq!(fs_read(0x20, Ok(0x10)), Ok((0x20, 0x10)));
    assert_eq!(fs_read(0x20, Err(Errno::EPERM)), Err(Errno::EPERM));
    for request in [ArchPrctlArg::CetStatus, ArchPrctlArg::CetDisable, ArchPrctlArg::CetLock] {
        assert_eq!(sys_arch_prctl(request), Err(Errno::EINVAL));
    }
}

#[test]
fn test_sched_getaffinity() {
    let cpuset = sys_sched_getaffinity();
    assert_eq!(cpuset.len(), NR_CPUS);
    let bytes = cpuset.as_bytes();
    for i in 0..NR_CPUS {
        assert!((bytes[i / 8] >> (i % 8)) & 1 == 1);
    }
    let ones: usize = cpuset.as_bytes().iter().map(|b| b.count_ones() as usize).sum();
    assert_eq!(ones, NR_CPUS);
    assert_eq!(bytes, [3u8]);
}

#[test]
fn affinity_masks_are_whole_words() {
    assert!(affinity_fits(8, 2));
    assert!(!affinity_fits(0, 2));
    assert!(!affinity_fits(12, 2));
    assert!(!affinity_fits(8, 65));
    assert!(!affinity_fits(1 << 61, 2));
}

/// Reads a name as far as it is looked at; bytes behind the end of the slice cannot be read.
fn read_name(bytes: &[u8]) -> Result<NameReader, Errno> {
    let mut reader = NameReader::new();
    while let Some(offset) = reader.next_offset() {
        reader.accept(bytes.get(offset).copied())?;
    }
    Ok(reader)
}

#[test]
fn names_that_are_read() {
    assert_eq!(&read_name(b"ab\0cd").unwrap().comm()[..5], b"ab\0\0\0");
    assert_eq!(read_name(&[b'a'; 26]).unwrap().comm(), *b"aaaaaaaaaaaaaaa\0");
    // A name that does not end before memory does.
    assert!(matches!(read_name(b"abc"), Err(Errno::EFAULT)));
    let comm = set_task_comm(b"init");
    assert_eq!(
        sys_prctl(&comm, PrctlArg::GetName(0x30)),
        Ok(PrctlAction::Write { to: 0x30, name: *b"init\0\0\0\0\0\0\0\0\0\0\0\0" })
    );
    assert_eq!(sys_prctl(&comm, PrctlArg::SetName(0x30)), Ok(PrctlAction::Read { from: 0x30 }));
    assert_eq!(sys_prctl(&comm, PrctlArg::CapBSetRead(CAP_LAST)), Ok(PrctlAction::Return(0)));
    assert_eq!(sys_prctl(&comm, PrctlArg::CapBSetRead(CAP_LAST + 1)), Err(Errno::EINVAL));
    // Setting a name twice is setting it once.
    assert_eq!(set_task_comm(&comm), comm);
    assert_eq!(comm.len(), TASK_COMM_LEN);
}

#[test]
fn exit_codes() {
    assert_eq!(truncate_status(0), 0);
    assert_eq!(truncate_status(127), 127);
    assert_eq!(truncate_status(128), -128);
    assert_eq!(truncate_status(256), 0);
    assert_eq!(truncate_status(-1), -1);
    assert_eq!(truncate_status(i32::MIN), 0);
    assert_eq!(ExitStatus::Exit(-3).code(), -3);
    assert_eq!(ExitStatus::Signal(9).code(), 265);
}

#[test]
fn threads_come_and_go() {
    let mut p = Process::new(1, STACK);
    assert_eq!(p.nr_threads(), 1);
    assert_eq!(p.wait_for_exit(), None);
    assert!(p.attach_thread(2));
    assert!(p.attach_thread(3));
    assert_eq!(p.nr_threads(), 3);
    assert!(!p.is_exiting(2));
    p.exit_thread(2, 5);
    assert!(p.is_exiting(2));
    // A thread exits once.
    p.exit_thread(2, 6);
    assert!(!p.detach_thread(2));
    assert!(!p.detach_thread(3));
    p.exit_thread(1, 7);
    assert!(p.detach_thread(1));
    assert_eq!(p.wait_for_exit(), Some(ExitStatus::Exit(7)));
    // Nobody can join a process that has ended.
    assert!(!p.attach_thread(4));
}

#[test]
fn group_exit_is_final() {
    let mut p = Process::new(1, STACK);
    assert!(p.attach_thread(2));
    let mut woken = p.exit_group(2, ExitStatus::Signal(11));
    woken.sort();
    assert_eq!(woken, vec![1, 2]);
    assert!(p.is_exiting(1) && p.is_exiting(2));
    assert!(p.exit_group(1, ExitStatus::Exit(0)).is_empty());
    p.exit_thread(1, 3);
    assert!(!p.attach_thread(3));
    assert_eq!(p.kill_other_threads(1), None);
    p.detach_thread(2);
    let handle = LinuxShimProcess { process: p };
    assert_eq!(handle.wait(), None);
    let mut p = handle.process;
    p.detach_thread(1);
    assert_eq!(LinuxShimProcess { process: p }.wait(), Some(267));
}

#[test]
fn killing_other_threads() {
    let mut p = Process::new(1, STACK);
    assert!(p.attach_thread(2));
    assert!(p.attach_thread(3));
    let mut others = p.kill_other_threads(2).unwrap();
    others.sort();
    assert_eq!(others, vec![1, 3]);
    assert!(!p.is_exiting(2));
    assert!(p.is_exiting(1) && p.is_exiting(3));
    assert!(!p.attach_thread(4));
    assert!(!p.other_threads_gone());
    assert!(!p.detach_thread(1));
    // The last of the others wakes the caller.
    assert!(p.detach_thread(3));
    assert!(p.other_threads_gone());
    assert!(p.attach_thread(4));
}

#[test]
fn limits_only_fall() {
    let mut limits = ResourceLimits::new(STACK);
    assert_eq!(
        limits.get_rlimit(RlimitResource::STACK),
        Rlimit { rlim_cur: STACK, rlim_max: u64::MAX }
    );
    assert_eq!(limits.get_rlimit_cur(RlimitResource::NOFILE), RLIMIT_NOFILE_MAX);
    assert_eq!(limits.get_rlimit_cur(RlimitResource::SIGPENDING), 0);
    let low = Rlimit { rlim_cur: 10, rlim_max: 20 };
    assert_eq!(
        sys_prlimit(&mut limits, 0, RlimitResource::NOFILE, Some(Some(low))),
        Ok(LimitChange {
            old: Rlimit { rlim_cur: RLIMIT_NOFILE_MAX, rlim_max: RLIMIT_NOFILE_MAX },
            max_fd: Some(9),
        })
    );
    assert_eq!(sys_getrlimit(&limits, RlimitResource::NOFILE), Ok(low));
    let higher = Rlimit { rlim_cur: 10, rlim_max: 21 };
    assert_eq!(sys_setrlimit(&mut limits, RlimitResource::NOFILE, Some(higher)), Err(Errno::EPERM));
    let crossed = Rlimit { rlim_cur: 11, rlim_max: 10 };
    assert_eq!(sys_setrlimit(&mut limits, RlimitResource::NOFILE, Some(crossed)), Err(Errno::EINVAL));
    assert_eq!(sys_setrlimit(&mut limits, RlimitResource::NOFILE, None), Err(Errno::EFAULT));
    assert_eq!(sys_prlimit(&mut limits, 0, RlimitResource::NOFILE, Some(None)), Err(Errno::EINVAL));
    assert_eq!(sys_getrlimit(&limits, RlimitResource::NOFILE), Ok(low));
    let none = Rlimit { rlim_cur: 0, rlim_max: 0 };
    assert_eq!(
        sys_setrlimit(&mut limits, RlimitResource::NOFILE, Some(none)),
        Ok(LimitChange { old: low, max_fd: Some(0) })
    );
    let huge = Rlimit { rlim_cur: 1, rlim_max: RLIMIT_NOFILE_MAX + 1 };
    assert_eq!(sys_setrlimit(&mut limits, RlimitResource::NOFILE, Some(huge)), Err(Errno::EPERM));
}

#[test]
fn only_some_limits_are_known() {
    let mut p = Process::new(1, STACK);
    let limits = p.limits_mut();
    assert_eq!(sys_getrlimit(limits, RlimitResource::CPU), Err(Errno::EINVAL));
    assert_eq!(sys_prlimit(limits, 0, RlimitResource::CORE, None), Err(Errno::EINVAL));
    let r = sys_prlimit(limits, 0, RlimitResource::STACK, None).unwrap();
    assert_eq!(r.old.rlim_cur, STACK);
    assert_eq!(r.max_fd, None);
    limits.set_rlimit(RlimitResource::SIGPENDING, Rlimit { rlim_cur: 4, rlim_max: 4 });
    assert_eq!(p.get_rlimit_cur(RlimitResource::SIGPENDING), 4);
}

fn parent() -> (Task, Process) {
    let params = TaskParams { pid: 1, ppid: 7, uid: 1, euid: 2, gid: 3, egid: 4 };
    let p = LinuxShim::new().load_program(params, STACK);
    (p.task, p.process.process)
}

fn clone_args(flags: u64) -> CloneArgs {
    CloneArgs {
        flags,
        pidfd: 0,
        child_tid: 0,
        parent_tid: 0,
        exit_signal: 0,
        stack: 0,
        stack_size: 0,
        tls: 0,
        set_tid: 0,
        set_tid_size: 0,
        cgroup: 0,
    }
}

#[test]
fn clones_start_behind_the_call() {
    let (mut parent, mut p) = parent();
    parent.comm = set_task_comm(b"worker");
    parent.signals.blocked = SigSet::single(SIGINT);
    parent.signals.pending.push(&ResourceLimits::new(STACK), siginfo_kill(SIGINT));
    let mut next = FIRST_THREAD_ID;
    let mut args = clone_args(
        CLONE_REQUIRED | CLONE_FS | CLONE_SETTLS | CLONE_PARENT_SETTID | CLONE_CHILD_SETTID
            | CLONE_CHILD_CLEARTID | CLONE_DETACHED,
    );
    args.stack = 0x7000_0000;
    args.stack_size = 0x1000;
    args.tls = 0x1111;
    args.parent_tid = 0x2222;
    args.child_tid = 0x3333;
    let start = do_clone(&parent, &mut p, &mut next, &args, false).unwrap();
    assert_eq!(start.tid, 2);
    assert_eq!(next, 3);
    assert_eq!(start.set_parent_tid, Some(0x2222));
    assert!(start.share_fs);
    assert_eq!(p.nr_threads(), 2);
    assert_eq!(clone_result(&start, true), Ok(2));
    assert_eq!(clone_result(&start, false), Err(Errno::ENOMEM));
    let child = start.task.unwrap();
    assert_eq!((child.pid, child.ppid, child.tid), (1, 7, 2));
    assert_eq!(child.credentials, parent.credentials);
    assert_eq!(child.comm, parent.comm);
    assert_eq!(child.signals.blocked, parent.signals.blocked);
    assert!(child.signals.pending.pending_set().is_empty());
    assert!(parent.signals.pending.pending_set().contains(SIGINT));
    let mut thread = child.thread;
    assert_eq!(thread.clear_child_tid, Some(0x3333));
    let mut ctx = PtRegs { rax: 56, rip: 0x4000, rsp: 0x100, ..PtRegs::default() };
    let todo = thread.init_thread_context(&mut ctx);
    assert_eq!(ctx, PtRegs { rax: 0, rip: 0x4000, rsp: 0x7000_1000, ..PtRegs::default() });
    assert_eq!(todo.set_fs, Some(0x1111));
    assert_eq!(todo.set_child_tid, Some(0x3333));
    // This happens once.
    let again = thread.init_thread_context(&mut ctx);
    assert_eq!(again.set_fs, None);
    assert_eq!(ctx.rsp, 0x7000_1000);
    let end = thread.prepare_for_exit(&mut p);
    assert_eq!(end.clear_child_tid, Some(0x3333));
    assert_eq!(p.nr_threads(), 1);
    let end = thread.prepare_for_exit(&mut p);
    assert_eq!(end.clear_child_tid, None);
    assert_eq!(p.nr_threads(), 1);
}

#[test]
fn clones_that_are_refused() {
    let (parent, mut p) = parent();
    let mut next = FIRST_THREAD_ID;
    let mut refuse = |args: CloneArgs, clone3: bool| {
        assert!(matches!(do_clone(&parent, &mut p, &mut next, &args, clone3), Err(Errno::EINVAL)));
    };
    refuse(clone_args(0), false);
    refuse(clone_args(CLONE_REQUIRED & !0x100), false);
    refuse(clone_args(CLONE_REQUIRED | 0x4000), false);
    refuse(clone_args(CLONE_REQUIRED | CLONE_DETACHED), true);
    refuse(clone_args(CLONE_REQUIRED | CLONE_PIDFD | CLONE_DETACHED), false);
    refuse(CloneArgs { cgroup: 1, ..clone_args(CLONE_REQUIRED) }, true);
    refuse(CloneArgs { set_tid: 1, ..clone_args(CLONE_REQUIRED) }, true);
    refuse(CloneArgs { set_tid_size: 1, ..clone_args(CLONE_REQUIRED) }, true);
    refuse(CloneArgs { exit_signal: 65, ..clone_args(CLONE_REQUIRED) }, true);
    assert_eq!(next, FIRST_THREAD_ID);
    // A stack that is given by halves spends a number.
    let args = CloneArgs { stack_size: 1, ..clone_args(CLONE_REQUIRED) };
    let start = do_clone(&parent, &mut p, &mut next, &args, false).unwrap();
    assert!(matches!(start.task, Err(Errno::EINVAL)));
    let args = CloneArgs { stack: 0x1000, ..clone_args(CLONE_REQUIRED) };
    let start = do_clone(&parent, &mut p, &mut next, &args, true).unwrap();
    assert!(matches!(start.task, Err(Errno::EINVAL)));
    assert_eq!(next, FIRST_THREAD_ID + 2);
    assert_eq!(p.nr_threads(), 1);
    p.exit_group(1, ExitStatus::Exit(0));
    let start = do_clone(&parent, &mut p, &mut next, &clone_args(CLONE_REQUIRED), false).unwrap();
    assert!(matches!(start.task, Err(Errno::EBUSY)));
    assert_eq!(clone_result(&start, true), Err(Errno::EBUSY));
}

#[test]
fn programs_start_at_their_entry() {
    let mut thread = ThreadState::new_process(1);
    thread.init_state = ThreadInitState::NewProcess { entry_point: 0x40_1000, user_stack_top: 0x7fff_0000 };
    let mut ctx = PtRegs { rax: 1, rbx: 2, ..PtRegs::default() };
    thread.init_thread_context(&mut ctx);
    assert_eq!(
        ctx,
        PtRegs {
            rip: 0x40_1000,
            rsp: 0x7fff_0000,
            cs: USER_CS,
            ss: USER_DS,
            ..PtRegs::default()
        }
    );
    assert_eq!(thread.sys_set_tid_address(0x10, 1), 1);
    assert_eq!(thread.sys_get_robust_list(), 0);
    thread.sys_set_robust_list(0x20);
    assert_eq!(thread.sys_get_robust_list(), 0x20);
}

#[test]
fn a_program_gets_its_first_task() {
    let shim = LinuxShim::new();
    let params = TaskParams { pid: 7, ppid: 3, uid: 1000, euid: 1001, gid: 1002, egid: 1003 };
    let program = shim.load_program(params, STACK);
    assert_eq!(shim.next_thread_id, 2);
    assert_eq!((program.task.pid, program.task.ppid, program.task.tid), (7, 3, 7));
    assert_eq!(program.task.credentials.egid, 1003);
    assert_eq!(program.task.comm, [0u8; 16]);
    assert_eq!(program.max_fd, 1048575);
    assert_eq!(program.process.process.nr_threads(), 1);
    assert!(!program.process.process.is_exiting(7));
    assert_eq!(program.process.wait(), None);
}

#[test]
fn entries_of_the_shim() {
    let fault = ExceptionInfo {
        exception: EXCEPTION_PAGE_FAULT,
        error_code: 6,
        cr2: 0xdead_b000,
        kernel_mode: true,
    };
    assert_eq!(
        entry_plan(Entry::Exception(fault)),
        EntryPlan::PageFault { address: 0xdead_b000, error_code: 6 }
    );
    let user = ExceptionInfo { kernel_mode: false, ..fault };
    assert_eq!(entry_plan(Entry::Exception(user)), EntryPlan::Enter { from_guest: true });
    let other = ExceptionInfo { exception: 13, ..fault };
    assert_eq!(entry_plan(Entry::Exception(other)), EntryPlan::Enter { from_guest: true });
    assert_eq!(entry_plan(Entry::Init), EntryPlan::Enter { from_guest: false });
    assert_eq!(entry_plan(Entry::Syscall), EntryPlan::Enter { from_guest: true });
    assert_eq!(entry_plan(Entry::Interrupt), EntryPlan::Enter { from_guest: true });
    assert!(enter_shim(true) == ContinueOperation::Resume);
    assert!(enter_shim(false) == ContinueOperation::Terminate);
}

#[test]
fn descriptors() {
    let fds = vec![
        OpenFd { fd: 0, close_on_exec: Some(false) },
        OpenFd { fd: 3, close_on_exec: Some(true) },
        OpenFd { fd: 4, close_on_exec: None },
        OpenFd { fd: 9, close_on_exec: Some(true) },
    ];
    assert_eq!(close_on_exec(&fds), vec![3, 9]);
    let none = FdKinds {
        file: false,
        network: false,
        pipe: false,
        eventfd: false,
        epoll: false,
        unix: false,
    };
    assert_eq!(run_on_raw_fd(none), Err(Errno::EBADF));
    assert_eq!(run_on_raw_fd(FdKinds { file: true, ..none }), Ok(FdKind::File));
    assert_eq!(run_on_raw_fd(FdKinds { network: true, pipe: true, ..none }), Ok(FdKind::Network));
    assert_eq!(run_on_raw_fd(FdKinds { pipe: true, ..none }), Ok(FdKind::Pipe));
    assert_eq!(run_on_raw_fd(FdKinds { eventfd: true, ..none }), Ok(FdKind::Eventfd));
    assert_eq!(run_on_raw_fd(FdKinds { epoll: true, ..none }), Ok(FdKind::Epoll));
    assert_eq!(run_on_raw_fd(FdKinds { unix: true, ..none }), Ok(FdKind::Unix));
}

#[test]
fn futex_requests() {
    let now = Duration::from_secs(100);
    let nothing = sys_futex(FutexArgs::Wake { addr: 4, count: 0 }, now).unwrap();
    assert_eq!(nothing, FutexPlan::Nothing);
    assert_eq!(futex_result(&nothing, Err(Errno::EFAULT)), Ok(0));
    let wake = sys_futex(FutexArgs::Wake { addr: 4, count: 3 }, now).unwrap();
    assert_eq!(wake, FutexPlan::Wake { addr: 4, count: 3 });
    assert_eq!(futex_result(&wake, Ok(2)), Ok(2));
    assert_eq!(futex_result(&wake, Err(Errno::EFAULT)), Err(Errno::EFAULT));
    let timeout = Ok(Some(Duration::from_secs(150)));
    let wait = sys_futex(FutexArgs::Wait { addr: 8, val: 1, timeout }, now).unwrap();
    assert_eq!(
        wait,
        FutexPlan::WaitFor { addr: 8, val: 1, timeout: Some(Duration::from_secs(150)) }
    );
    assert_eq!(futex_result(&wait, Ok(0)), Ok(0));
    assert_eq!(futex_result(&wait, Err(Errno::EAGAIN)), Err(Errno::EAGAIN));
    assert_eq!(
        sys_futex(FutexArgs::Wait { addr: 8, val: 1, timeout: Err(Errno::EFAULT) }, now),
        Err(Errno::EFAULT)
    );
    let bitset = |flags, timeout, bitmask| {
        sys_futex(FutexArgs::WaitBitset { addr: 8, flags, val: 1, timeout, bitmask }, now)
    };
    assert_eq!(
        bitset(FUTEX_CLOCK_REALTIME, timeout, 5),
        Ok(FutexPlan::WaitUntil {
            addr: 8,
            val: 1,
            deadline: Some(Deadline::FromNow(Duration::from_secs(50))),
            bitmask: Some(5),
        })
    );
    assert_eq!(
        bitset(0, timeout, 0),
        Ok(FutexPlan::WaitUntil {
            addr: 8,
            val: 1,
            deadline: Some(Deadline::FromBoot(Duration::from_secs(150))),
            bitmask: None,
        })
    );
    assert_eq!(
        bitset(0, Ok(None), 1),
        Ok(FutexPlan::WaitUntil { addr: 8, val: 1, deadline: None, bitmask: Some(1) })
    );
    assert_eq!(bitset(0, Err(Errno::EINVAL), 1), Err(Errno::EINVAL));
}

#[test]
fn robust_lists() {
    assert_eq!(fetch_robust_entry(0x101), (0x100, true));
    assert_eq!(fetch_robust_entry(0x100), (0x100, false));
    assert_eq!(wake_robust_list(0x100, None), Err(Errno::EFAULT));
    let head = RobustListHead { next: 0x201, futex_offset: 2, list_op_pending: 0x200 };
    let mut walk = wake_robust_list(0x100, Some(head)).unwrap();
    assert!(!walk.is_at_end());
    assert_eq!(walk.limit, ROBUST_LIST_LIMIT);
    // The entry that is being taken is skipped.
    assert_eq!(walk.advance(Some(0x100)), Ok(()));
    assert!(walk.is_at_end());
    assert!(walk.finish());
    // A futex that is not aligned ends the walk.
    let head = RobustListHead { next: 0x300, futex_offset: 1, list_op_pending: 0 };
    let mut walk = wake_robust_list(0x100, Some(head)).unwrap();
    assert_eq!(walk.advance(Some(0x100)), Err(Errno::EINVAL));
    assert!(!walk.finish());
    // So does an entry that cannot be read.
    let head = RobustListHead { next: 0x300, futex_offset: 1, list_op_pending: 0x300 };
    let mut walk = wake_robust_list(0x100, Some(head)).unwrap();
    assert_eq!(walk.advance(None), Err(Errno::EFAULT));
}

#[test]
fn robust_lists_that_do_not_end() {
    let head = RobustListHead { next: 0x300, futex_offset: 1, list_op_pending: 0x300 };
    let mut walk = wake_robust_list(0x100, Some(head)).unwrap();
    let mut steps = 0;
    while !walk.is_at_end() {
        assert_eq!(walk.advance(Some(0x300)), Ok(()));
        steps += 1;
    }
    assert_eq!(steps, 2048);
}
