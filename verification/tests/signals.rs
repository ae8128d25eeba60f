use litebox::errno::Errno;
use litebox::shim::clock::{
    gettime_as_duration, duration_since_epoch_to_deadline, sys_clock_getres, sys_clock_nanosleep,
    sys_gettimeofday, sys_time, timeval_of, Alarm, AlarmSet, ClockId, Deadline, SleepEnd, SleepPlan,
    TimeVal, TimeZone, TIMER_ABSTIME,
};
use litebox::shim::delivery::{enter_handler, process_signals};
use litebox::shim::limits::{ResourceLimits, Rlimit, RlimitResource};
use litebox::shim::pending::{siginfo_exception, siginfo_kill, PendingSignals, Siginfo};
use litebox::shim::process::{ExitStatus, Process};
use litebox::shim::signal::{
    action_without_handler, exception_signal, AltStackPlan, DeliverFault, ExceptionInfo, MaskChange,
    SigAction, SigAltStack,
    SigmaskHow, SignalHandlers, SignalState, EXCEPTION_PAGE_FAULT, SA_NODEFER, SA_ONSTACK, SIGSET_BYTES,
    SIG_DFL, SIG_IGN, SS_AUTODISARM, SS_DISABLE, SS_ONSTACK,
};
use litebox::shim::sigset::{
    default_disposition, is_rt_signal, signal_from_i32, SigSet, SignalDisposition, SIGALRM, SIGCHLD,
    SIGCONT, SIGFPE, SIGILL, SIGINT, SIGKILL, SIGQUIT, SIGSEGV, SIGSTOP, SIGTRAP, SIGTTOU, SIGUSR1,
};
use litebox::time::Duration;

const LIMIT: u64 = 16;

/// Limits with one on signals that wait.
fn limits(pending: u64) -> ResourceLimits {
    let mut limits = ResourceLimits::new(0x80_0000);
    limits.set_rlimit(
        RlimitResource::SIGPENDING,
        Rlimit { rlim_cur: pending, rlim_max: pending },
    );
    limits
}
const CALLBACK: u64 = 0x1000;

/// A task whose time is told by the test.
struct TestTask {
    signals: SignalState,
    shared: PendingSignals,
    handlers: SignalHandlers,
    process: Process,
    alarm: Alarm<u64>,
    now: u64,
}

impl TestTask {
    fn new() -> TestTask {
        TestTask {
            signals: SignalState::new_process(),
            shared: PendingSignals::new(),
            handlers: SignalHandlers::new(),
            process: Process::new(1, 0),
            alarm: Alarm::new(),
            now: 5_000,
        }
    }

    /// Sets the alarm, on a platform without timers.
    fn sys_alarm(&mut self, seconds: u32) -> Result<u32, Errno> {
        let now = self.now;
        let left = match self.alarm.deadline {
            Some(t) if t >= now => Some(Duration::from_millis(t - now)),
            _ => None,
        };
        let set = self.alarm.sys_alarm(seconds, left, Some(now + seconds as u64 * 1000), false)?;
        assert!(!set.set_timer);
        Ok(set.remaining)
    }

    /// Sleeps, a millisecond at a time. The second result is the time that was left.
    fn nanosleep(&mut self, request: Duration) -> (Result<(), Errno>, Option<Duration>) {
        let plan = sys_clock_nanosleep(ClockId::Monotonic, 0, Ok(Some(request)), Duration::zero()).unwrap();
        assert_eq!(plan, SleepPlan::For(request));
        let end = self.now + request.secs * 1000 + request.nanos as u64 / 1_000_000;
        loop {
            let reached = match self.alarm.deadline {
                Some(t) => self.now >= t,
                None => false,
            };
            self.alarm.check_alarm_deadline(
                reached,
                &self.signals,
                &mut self.shared,
                &self.handlers,
                &limits(LIMIT),
            );
            let interrupted = self.signals.has_pending_signals(&self.shared);
            if interrupted || self.now >= end {
                let remaining =
                    if self.now < end { Some(Duration::from_millis(end - self.now)) } else { None };
                let outcome = plan.ended(interrupted, remaining);
                let left = match outcome {
                    SleepEnd::WriteRemaining(d) => Some(d),
                    SleepEnd::Done(_) => None,
                };
                return (outcome.result(Ok(())), left);
            }
            self.now += 1;
        }
    }
}

fn handler(sigaction: u64, flags: u64) -> SigAction {
    SigAction { sigaction, restorer: 0, flags, mask: SigSet::empty() }
}

#[test]
fn test_sigint_with_custom_handler() {
    let mut task = TestTask::new();
    let r = task.handlers.sys_rt_sigaction(SIGINT, Some(Some(handler(CALLBACK, 0))), SIGSET_BYTES);
    assert!(r.is_ok());

    // SIGINT comes while the task sleeps.
    assert_eq!(
        task.signals.do_kill(&task.handlers, &limits(LIMIT), 1, 1, Some(1), Some(1), SIGINT as i32),
        Ok(())
    );
    let (result, _) = task.nanosleep(Duration::from_secs(10));
    assert_eq!(
        result,
        Err(Errno::EINTR),
        "nanosleep should be interrupted by SIGINT from background thread"
    );

    let d = process_signals(&mut task.signals, &mut task.shared, &task.handlers, &mut task.process, 1);
    let (info, action) = d.handler.unwrap();
    assert_eq!(info, siginfo_kill(SIGINT));
    assert_eq!(
        action.sigaction, CALLBACK,
        "after processing signals, execution should be redirected to the custom handler"
    );
    assert!(enter_handler(&mut task.signals, &mut task.handlers, &limits(LIMIT), SIGINT, &action, 4096, 3000, true));
    let d = process_signals(&mut task.signals, &mut task.shared, &task.handlers, &mut task.process, 1);
    assert!(d.handler.is_none());
    assert!(task.signals.blocked.contains(SIGINT));
}

#[test]
fn test_alarm_fires_after_deadline() {
    let mut task = TestTask::new();
    // Set a 1-second alarm.
    assert_eq!(task.sys_alarm(1).unwrap(), 0);
    let start = task.now;

    // Block in a nanosleep longer than the alarm
    let (result, remain) = task.nanosleep(Duration { secs: 3, nanos: 0 });
    let elapsed_ms = task.now - start;

    // The nanosleep should have been interrupted by SIGALRM.
    assert_eq!(result, Err(Errno::EINTR), "nanosleep should have been interrupted");
    let remain = remain.unwrap();
    let millis = remain.secs * 1000 + remain.nanos as u64 / 1_000_000;
    assert!((1900..=2100).contains(&millis), "expected ~2s remaining, got {millis:?}");
    assert!(
        (900..=1100).contains(&elapsed_ms),
        "expected alarm after ~1000 ms, got {elapsed_ms} ms"
    );

    // The alarm should be consumed (deadline cleared).
    let remaining = task.sys_alarm(0).unwrap();
    assert_eq!(remaining, 0, "alarm should have been cleared by check");
}

#[test]
fn test_alarm_cancel_prevents_signal() {
    let mut task = TestTask::new();
    assert_eq!(task.sys_alarm(1).unwrap(), 0);
    // Cancel before it fires.
    let remaining = task.sys_alarm(0).unwrap();
    assert!(remaining >= 1, "alarm should still have had time remaining");

    // A short nanosleep past the original deadline should complete normally.
    let (result, _) = task.nanosleep(Duration { secs: 2, nanos: 0 });
    assert_eq!(result, Ok(()), "nanosleep should not have been interrupted");
    assert!(
        !task.signals.has_pending_signals(&task.shared),
        "cancelled alarm should not produce SIGALRM"
    );
}

#[test]
fn test_alarm_with_sigign() {
    let mut task = TestTask::new();
    // Install SIG_IGN for SIGALRM.
    let r = task.handlers.sys_rt_sigaction(SIGALRM, Some(Some(handler(SIG_IGN, 0))), SIGSET_BYTES);
    assert!(r.is_ok());

    // Set a 1-second alarm and block in a short nanosleep.
    assert_eq!(task.sys_alarm(1).unwrap(), 0);
    let (result, _) = task.nanosleep(Duration { secs: 3, nanos: 0 });
    assert_eq!(result, Ok(()), "nanosleep should complete normally when SIGALRM is ignored");
    assert!(
        !task.signals.has_pending_signals(&task.shared),
        "SIG_IGN should cause SIGALRM to be silently dropped"
    );
}

#[test]
fn test_timer_delivers_correct_signal() {
    let mut task = TestTask::new();
    // A timer of the platform goes off with SIGUSR1.
    task.alarm.queue_signals(SIGUSR1, &task.signals, &mut task.shared, &task.handlers, &limits(LIMIT));
    let (result, _) = task.nanosleep(Duration { secs: 5, nanos: 0 });
    assert_eq!(result, Err(Errno::EINTR), "nanosleep should be interrupted by the timer");

    // Verify that SIGUSR1 (not SIGALRM) is the pending signal.
    let pending = task.signals.pending_signal_set(&task.shared);
    assert!(pending.contains(SIGUSR1), "expected SIGUSR1 pending");
    assert!(!pending.contains(SIGALRM), "SIGALRM should NOT be pending");
}

#[test]
fn alarms_with_timers() {
    let mut alarm: Alarm<u64> = Alarm::new();
    assert_eq!(
        alarm.sys_alarm(2, None, Some(2000), true),
        Ok(AlarmSet { remaining: 0, set_timer: true, delay: 2 })
    );
    // The time that is left is rounded up.
    assert_eq!(
        alarm.sys_alarm(5, Some(Duration { secs: 1, nanos: 1 }), Some(5000), true),
        Ok(AlarmSet { remaining: 2, set_timer: true, delay: 5 })
    );
    assert_eq!(alarm.sys_alarm(1, None, None, true), Err(Errno::EINVAL));
    assert_eq!(alarm.deadline, Some(5000));
    let far = Duration { secs: 1 << 40, nanos: 0 };
    assert_eq!(alarm.sys_alarm(0, Some(far), None, true).unwrap().remaining, u32::MAX);
    assert_eq!(alarm.deadline, None);
    // A platform with timers is not asked for the time.
    let task = TestTask::new();
    let mut shared = PendingSignals::new();
    alarm.deadline = Some(1);
    alarm.check_alarm_deadline(true, &task.signals, &mut shared, &task.handlers, &limits(LIMIT));
    assert!(shared.pending_set().is_empty());
    alarm.queue_signals(SIGALRM, &task.signals, &mut shared, &task.handlers, &limits(LIMIT));
    assert_eq!(alarm.deadline, None);
    assert!(shared.pending_set().contains(SIGALRM));
}

#[test]
fn clocks() {
    let epoch = Duration::from_secs(1_700_000_000);
    let boot = Duration::from_millis(1500);
    assert_eq!(gettime_as_duration(ClockId::RealTime, epoch, boot), Ok(epoch));
    assert_eq!(gettime_as_duration(ClockId::Monotonic, epoch, boot), Ok(boot));
    assert_eq!(gettime_as_duration(ClockId::MonotonicCoarse, epoch, boot), Ok(boot));
    assert_eq!(gettime_as_duration(ClockId::Other, epoch, boot), Err(Errno::EINVAL));
    assert_eq!(sys_clock_getres(ClockId::MonotonicCoarse), Duration { secs: 0, nanos: 4_000_000 });
    assert_eq!(sys_clock_getres(ClockId::RealTime), Duration { secs: 0, nanos: 1 });
    assert_eq!(timeval_of(boot), TimeVal { tv_sec: 1, tv_usec: 500_000 });
    assert_eq!(sys_time(epoch), Ok(1_700_000_000));
    assert_eq!(sys_time(Duration::from_secs(1 << 63)), Err(Errno::EOVERFLOW));
    let zone = TimeZone { tz_minuteswest: 0, tz_dsttime: 0 };
    let val = TimeVal { tv_sec: 1, tv_usec: 500_000 };
    assert_eq!(sys_gettimeofday(boot, true, true), (Some(zone), Some(val)));
    assert_eq!(sys_gettimeofday(boot, false, true), (None, Some(val)));
    assert_eq!(sys_gettimeofday(boot, true, false), (Some(zone), None));
    assert_eq!(sys_gettimeofday(boot, false, false), (None, None));
    assert_eq!(
        duration_since_epoch_to_deadline(ClockId::RealTime, epoch, Duration::from_secs(1_700_000_001)),
        Ok(Deadline::FromNow(Duration::zero()))
    );
    assert_eq!(
        duration_since_epoch_to_deadline(ClockId::Other, epoch, epoch),
        Err(Errno::EINVAL)
    );
}

#[test]
fn sleeps() {
    let now = Duration::from_secs(100);
    let d = Duration::from_secs(130);
    let plan = |clock, flags, request| sys_clock_nanosleep(clock, flags, request, now);
    assert_eq!(plan(ClockId::Monotonic, 0, Err(Errno::EINVAL)), Err(Errno::EINVAL));
    assert_eq!(plan(ClockId::Monotonic, 0, Ok(None)), Err(Errno::EFAULT));
    assert_eq!(plan(ClockId::Monotonic, 2, Ok(Some(d))), Err(Errno::EINVAL));
    assert_eq!(plan(ClockId::Other, 0, Ok(Some(d))), Ok(SleepPlan::For(d)));
    assert_eq!(plan(ClockId::Other, TIMER_ABSTIME, Ok(Some(d))), Err(Errno::EINVAL));
    assert_eq!(
        plan(ClockId::Monotonic, TIMER_ABSTIME, Ok(Some(d))),
        Ok(SleepPlan::Until(Deadline::FromBoot(d)))
    );
    let until = plan(ClockId::RealTime, TIMER_ABSTIME, Ok(Some(d))).unwrap();
    assert_eq!(until, SleepPlan::Until(Deadline::FromNow(Duration::from_secs(30))));
    assert_eq!(until.ended(true, Some(d)), SleepEnd::Done(Err(Errno::EINTR)));
    assert_eq!(until.ended(false, None), SleepEnd::Done(Ok(())));
    let end = SleepPlan::For(d).ended(true, Some(now));
    assert_eq!(end, SleepEnd::WriteRemaining(now));
    assert_eq!(end.result(Err(Errno::EFAULT)), Err(Errno::EFAULT));
    // Interrupted when no time was left: no failure.
    assert_eq!(SleepPlan::For(d).ended(true, None).result(Ok(())), Ok(()));
}

#[test]
fn sets_of_signals() {
    let mut set = SigSet::empty();
    assert!(set.is_empty());
    set.add_signal(1);
    set.add_signal(64);
    assert_eq!(set.bits, 0x8000_0000_0000_0001);
    assert!(set.contains(64) && !set.contains(2));
    assert_eq!(set.lowest_set(), Some(1));
    set.remove(1);
    assert_eq!(set.lowest_set(), Some(64));
    let two = SigSet::single(2);
    assert_eq!(set.union(two).bits, 0x8000_0000_0000_0002);
    assert_eq!(set.union(two).difference(set), two);
    assert!(set.intersection(two).is_empty());
    assert_eq!(SigSet::empty().lowest_set(), None);
}

#[test]
fn signals_by_number() {
    assert_eq!(signal_from_i32(1), Ok(1));
    assert_eq!(signal_from_i32(64), Ok(64));
    for n in [0, 65, -1] {
        assert_eq!(signal_from_i32(n), Err(Errno::EINVAL));
    }
    assert!(is_rt_signal(32) && !is_rt_signal(31));
    assert_eq!(default_disposition(SIGCHLD), SignalDisposition::Ignore);
    assert_eq!(default_disposition(SIGCONT), SignalDisposition::Continue);
    assert_eq!(default_disposition(SIGTTOU), SignalDisposition::Stop);
    assert_eq!(default_disposition(SIGQUIT), SignalDisposition::Core);
    assert_eq!(default_disposition(SIGINT), SignalDisposition::Terminate);
    assert_eq!(default_disposition(64), SignalDisposition::Terminate);
    assert_eq!(exception_signal(0), SIGFPE);
    assert_eq!(exception_signal(3), SIGTRAP);
    assert_eq!(exception_signal(6), SIGILL);
    assert_eq!(exception_signal(14), SIGSEGV);
    assert_eq!(exception_signal(13), SIGSEGV);
}

#[test]
fn queues_of_signals() {
    let mut queue = PendingSignals::new();
    assert_eq!(queue.next(SigSet::empty()), None);
    queue.push(&limits(2), siginfo_kill(SIGUSR1));
    // Plain signals wait once.
    queue.push(&limits(2), siginfo_exception(SIGUSR1, 0x55));
    queue.push(&limits(2), siginfo_kill(40));
    // The limit counts for real-time signals, and not for those of users or the kernel.
    queue.push(&limits(2), siginfo_kill(40));
    queue.push(&limits(2), siginfo_exception(SIGSEGV, 0x1234));
    queue.push(&limits(2), siginfo_kill(SIGINT));
    queue.push(&limits(2), Siginfo { signo: 12, errno: 0, code: -1, addr: 0 });
    assert!(!queue.pending_set().contains(12));
    // Exceptions come first, then the lowest.
    assert_eq!(queue.next(SigSet::empty()), Some(SIGSEGV));
    assert_eq!(queue.next(SigSet::single(SIGSEGV)), Some(SIGINT));
    assert_eq!(queue.remove(SIGSEGV), siginfo_exception(SIGSEGV, 0x1234));
    assert_eq!(queue.remove(SIGINT), siginfo_kill(SIGINT));
    assert_eq!(queue.remove(SIGUSR1), siginfo_kill(SIGUSR1));
    assert_eq!(queue.remove(40), siginfo_kill(40));
    assert!(queue.pending_set().is_empty());
    // Real-time signals wait as often as they come, in order.
    queue.push(&limits(9), Siginfo { signo: 40, errno: 0, code: 1, addr: 0 });
    queue.push(&limits(9), Siginfo { signo: 40, errno: 0, code: 2, addr: 0 });
    assert_eq!(queue.remove(40).code, 1);
    assert!(queue.pending_set().contains(40));
    assert_eq!(queue.remove(40).code, 2);
    assert!(!queue.pending_set().contains(40));
}

#[test]
fn actions() {
    let mut handlers = SignalHandlers::new();
    let action = handler(CALLBACK, SA_NODEFER);
    let plain = action_without_handler(SIG_DFL);
    for signal in [SIGKILL, SIGSTOP] {
        assert!(handlers.get(signal).immutable);
        let r = handlers.sys_rt_sigaction(signal, Some(Some(action)), SIGSET_BYTES);
        assert_eq!(r, Err(Errno::EINVAL));
    }
    assert_eq!(handlers.sys_rt_sigaction(SIGINT, Some(Some(action)), 4), Err(Errno::EINVAL));
    assert_eq!(handlers.sys_rt_sigaction(SIGINT, Some(None), SIGSET_BYTES), Err(Errno::EFAULT));
    assert_eq!(handlers.sys_rt_sigaction(SIGINT, Some(Some(action)), SIGSET_BYTES), Ok(plain));
    // What was set is read back, whatever else is set.
    let ignore = handler(SIG_IGN, 0);
    assert!(handlers.sys_rt_sigaction(SIGUSR1, Some(Some(ignore)), SIGSET_BYTES).is_ok());
    assert_eq!(handlers.sys_rt_sigaction(SIGINT, None, SIGSET_BYTES), Ok(action));
    // Another program starts without handlers, but what was ignored stays ignored.
    handlers.reset_for_exec();
    assert_eq!(handlers.get(SIGINT).action, plain);
    assert_eq!(handlers.get(SIGUSR1).action, action_without_handler(SIG_IGN));
    assert!(handlers.get(SIGKILL).immutable);
}

#[test]
fn alternate_stacks() {
    let mut signals = SignalState::new_process();
    let stack = SigAltStack { sp: 0x1_0000, flags: SS_AUTODISARM, size: 0x1000 };
    assert_eq!(
        signals.set_sigaltstack(SigAltStack { flags: 4, ..stack }),
        Err(Errno::EINVAL)
    );
    assert_eq!(
        signals.set_sigaltstack(SigAltStack { sp: u64::MAX, ..stack }),
        Err(Errno::EINVAL)
    );
    assert_eq!(
        signals.set_sigaltstack(SigAltStack { size: 2047, ..stack }),
        Err(Errno::ENOMEM)
    );
    assert_eq!(signals.altstack, SigAltStack { sp: 0, flags: SS_DISABLE, size: 0 });
    assert_eq!(signals.set_sigaltstack(stack), Ok(()));
    assert_eq!(signals.old_altstack(0x1_0800).flags, SS_AUTODISARM | SS_ONSTACK);
    assert_eq!(signals.old_altstack(0x1_1000).flags, SS_AUTODISARM);
    let marked = SigAltStack { flags: SS_AUTODISARM | SS_ONSTACK, ..stack };
    assert_eq!(
        signals.sys_sigaltstack(0x1_0800, true, true),
        AltStackPlan { old: Some(marked), set: Err(Errno::EPERM) }
    );
    assert_eq!(
        signals.sys_sigaltstack(0x1_0800, false, false),
        AltStackPlan { old: None, set: Ok(false) }
    );
    assert_eq!(
        signals.sys_sigaltstack(0, true, true),
        AltStackPlan { old: Some(stack), set: Ok(true) }
    );
    let off = SigAltStack { flags: SS_DISABLE, ..stack };
    assert_eq!(signals.set_sigaltstack(off), Ok(()));
    assert_eq!(signals.altstack.size, 0);
}

#[test]
fn masks() {
    let mut signals = SignalState::new_process();
    let none = signals.blocked;
    let set = SigSet::single(SIGINT).union(SigSet::single(SIGUSR1));
    let r = signals.sys_rt_sigprocmask(SigmaskHow::Block, Some(Some(set)), SIGSET_BYTES);
    assert_eq!(r, Ok(MaskChange { old: none, new: set }));
    signals.set_signal_mask(set);
    let one = SigSet::single(SIGINT);
    let usr = SigSet::single(SIGUSR1);
    let r = signals.sys_rt_sigprocmask(SigmaskHow::Unblock, Some(Some(one)), SIGSET_BYTES);
    assert_eq!(r, Ok(MaskChange { old: set, new: usr }));
    let r = signals.sys_rt_sigprocmask(SigmaskHow::SetMask, Some(None), SIGSET_BYTES);
    assert_eq!(r, Err(Errno::EFAULT));
    let r = signals.sys_rt_sigprocmask(SigmaskHow::SetMask, Some(Some(one)), 16);
    assert_eq!(r, Err(Errno::EINVAL));
    let r = signals.sys_rt_sigprocmask(SigmaskHow::SetMask, Some(Some(one)), SIGSET_BYTES);
    assert_eq!(r, Ok(MaskChange { old: set, new: one }));
    let r = signals.sys_rt_sigprocmask(SigmaskHow::SetMask, None, SIGSET_BYTES);
    assert_eq!(r, Ok(MaskChange { old: set, new: set }));
    let clone = signals.clone_for_new_task();
    assert_eq!(clone.blocked, set);
}

#[test]
fn handlers_run_on_the_alternate_stack() {
    let mut signals = SignalState::new_process();
    let stack = SigAltStack { sp: 0x1_0000, flags: SS_AUTODISARM, size: 0x1000 };
    signals.set_sigaltstack(stack).unwrap();
    let action = SigAction { mask: SigSet::single(SIGQUIT), ..handler(CALLBACK, SA_ONSTACK) };
    assert_eq!(signals.handler_sp(&action, 0x500), 0x1_1000);
    assert_eq!(signals.handler_sp(&handler(CALLBACK, 0), 0x500), 0x500);
    assert_eq!(signals.handler_sp(&action, 0x1_0800), 0x1_0800);
    assert!(signals.accepts_frame(&action, 0x500, 0x1_0f00));
    // The frame does not fit.
    assert_eq!(signals.deliver_signal(SIGINT, &action, 0x500, 0xff00, true), Err(DeliverFault));
    assert_eq!(signals.deliver_signal(SIGINT, &action, 0x500, 0x1_0f00, false), Err(DeliverFault));
    assert!(signals.blocked.is_empty());
    assert_eq!(signals.deliver_signal(SIGINT, &action, 0x500, 0x1_0f00, true), Ok(()));
    assert_eq!(signals.blocked, SigSet::single(SIGINT).union(SigSet::single(SIGQUIT)));
    // It was given up.
    assert_eq!(signals.altstack.flags, SS_DISABLE);
    // The return from the handler brings both back.
    let mut handlers = SignalHandlers::new();
    let r = signals.sys_rt_sigreturn(&mut handlers, &limits(LIMIT), Some((stack, SigSet::empty())));
    assert_eq!(r, Ok(()));
    assert_eq!(signals.altstack, stack);
    assert!(signals.blocked.is_empty());
    let nodefer = handler(CALLBACK, SA_NODEFER);
    assert_eq!(signals.deliver_signal(SIGINT, &nodefer, 0x500, 0x400, true), Ok(()));
    assert!(signals.blocked.is_empty());
}

#[test]
fn blocked_signals_stay() {
    let mut task = TestTask::new();
    task.signals.blocked = SigSet::single(SIGINT);
    task.signals.send_signal(&task.handlers, &limits(LIMIT), siginfo_kill(SIGINT));
    task.signals.send_shared_signal(&mut task.shared, &task.handlers, &limits(LIMIT), siginfo_kill(SIGINT));
    // Ignored by default: this one is dropped.
    task.signals.send_signal(&task.handlers, &limits(LIMIT), siginfo_kill(SIGCHLD));
    assert!(!task.signals.has_pending_signals(&task.shared));
    let d = process_signals(&mut task.signals, &mut task.shared, &task.handlers, &mut task.process, 1);
    assert!(d.handler.is_none() && d.interrupt.is_empty());
    assert!(task.signals.pending.pending_set().contains(SIGINT));
    assert!(task.shared.pending_set().contains(SIGINT));
    assert!(!task.signals.pending.pending_set().contains(SIGCHLD));
    assert!(!task.process.is_exiting(1));
}

#[test]
fn fatal_signals_end_the_process() {
    let mut task = TestTask::new();
    assert!(task.process.attach_thread(2));
    task.signals.send_signal(&task.handlers, &limits(LIMIT), siginfo_kill(SIGTTOU));
    let mut d =
        process_signals(&mut task.signals, &mut task.shared, &task.handlers, &mut task.process, 1);
    d.interrupt.sort();
    assert_eq!(d.interrupt, vec![1, 2]);
    assert!(task.process.is_exiting(1) && task.process.is_exiting(2));
    task.process.detach_thread(1);
    task.process.detach_thread(2);
    assert_eq!(task.process.wait_for_exit(), Some(ExitStatus::Signal(SIGTTOU)));
}

#[test]
fn undeliverable_signals_become_segv() {
    let mut task = TestTask::new();
    let action = handler(CALLBACK, 0);
    assert!(task.handlers.sys_rt_sigaction(SIGSEGV, Some(Some(action)), SIGSET_BYTES).is_ok());
    // The frame of another signal cannot be written: the handler of SIGSEGV is asked for.
    let entered = enter_handler(
        &mut task.signals,
        &mut task.handlers,
        &limits(LIMIT),
        SIGINT,
        &action,
        0x500,
        0x400,
        false,
    );
    assert!(!entered);
    let d = process_signals(&mut task.signals, &mut task.shared, &task.handlers, &mut task.process, 1);
    assert_eq!(d.handler.unwrap().0, siginfo_exception(SIGSEGV, 0));
    // That of SIGSEGV cannot be written either: the process ends.
    let entered = enter_handler(
        &mut task.signals,
        &mut task.handlers,
        &limits(LIMIT),
        SIGSEGV,
        &action,
        0x500,
        0x400,
        false,
    );
    assert!(!entered);
    assert!(task.handlers.get(SIGSEGV).immutable);
    let d = process_signals(&mut task.signals, &mut task.shared, &task.handlers, &mut task.process, 1);
    assert!(d.handler.is_none());
    assert!(task.process.is_exiting(1));
    // An exiting thread gets no more signals.
    task.signals.send_signal(&task.handlers, &limits(LIMIT), siginfo_kill(SIGINT));
    let d = process_signals(&mut task.signals, &mut task.shared, &task.handlers, &mut task.process, 1);
    assert!(d.handler.is_none() && d.interrupt.is_empty());
}

#[test]
fn exceptions_are_forced() {
    let mut task = TestTask::new();
    task.signals.blocked = SigSet::single(SIGSEGV);
    let info = ExceptionInfo {
        exception: EXCEPTION_PAGE_FAULT,
        error_code: 4,
        cr2: 0xabc0,
        kernel_mode: false,
    };
    task.signals.handle_exception_request(&mut task.handlers, &limits(LIMIT), info);
    assert!(!task.signals.blocked.contains(SIGSEGV));
    assert_eq!(task.signals.last_exception, info);
    assert_eq!(task.signals.pending.remove(SIGSEGV), siginfo_exception(SIGSEGV, 0xabc0));
    assert!(task.handlers.get(SIGSEGV).immutable);
    // A frame that cannot be read.
    let r = task.signals.sys_rt_sigreturn(&mut task.handlers, &limits(LIMIT), None);
    assert_eq!(r, Err(Errno::EFAULT));
    assert!(task.signals.pending.pending_set().contains(SIGSEGV));
}

#[test]
fn kill_reaches_only_the_caller() {
    let mut task = TestTask::new();
    let mut kill = |pid, tid, signal| {
        task.signals.do_kill(&task.handlers, &limits(LIMIT), 1, 2, pid, tid, signal)
    };
    assert_eq!(kill(Some(1), None, 0), Err(Errno::EINVAL));
    assert_eq!(kill(Some(3), None, 2), Err(Errno::ESRCH));
    assert_eq!(kill(None, Some(3), 2), Err(Errno::ESRCH));
    assert_eq!(kill(Some(1), Some(2), 2), Ok(()));
    assert!(task.signals.pending.pending_set().contains(SIGINT));
}
