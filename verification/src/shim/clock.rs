//! Clocks, sleeping, and alarms.
use vstd::arithmetic::div_mod::lemma_fundamental_div_mod_converse;
use vstd::prelude::*;

use crate::errno::Errno;
use crate::shim::limits::ResourceLimits;
use crate::shim::pending::{siginfo_kill, user_signal, PendingSignals};
use crate::shim::signal::{sent, SignalHandlers, SignalState};
use crate::shim::sigset::{is_signal, SIGALRM};
use crate::time::Duration;

verus! {

/// A clock.
#[derive(Clone, Copy, PartialEq, Eq, Structural, Debug)]
pub enum ClockId {
    RealTime,
    Monotonic,
    MonotonicCoarse,
    /// A clock that is known but not supported.
    Other,
}

/// What a clock shows, given the time since the epoch and the time since the shim was started.
pub open spec fn reading(clock: ClockId, since_epoch: Duration, since_boot: Duration) -> Result<
    Duration,
    Errno,
> {
    match clock {
        ClockId::RealTime => Ok(since_epoch),
        ClockId::Monotonic | ClockId::MonotonicCoarse => Ok(since_boot),
        ClockId::Other => Err(Errno::EINVAL),
    }
}

/// What a clock shows.
pub fn gettime_as_duration(clock: ClockId, since_epoch: Duration, since_boot: Duration) -> (r: Result<
    Duration,
    Errno,
>)
    ensures
        r == reading(clock, since_epoch, since_boot),
{
    match clock {
        ClockId::RealTime => Ok(since_epoch),
        ClockId::Monotonic | ClockId::MonotonicCoarse => Ok(since_boot),
        ClockId::Other => Err(Errno::EINVAL),
    }
}

/// The resolution of a clock: four milliseconds for the coarse one, a nanosecond for the others.
pub fn sys_clock_getres(clock: ClockId) -> (r: Duration)
    requires
        clock != ClockId::Other,
    ensures
        r == resolution(clock),
{
    match clock {
        ClockId::MonotonicCoarse => Duration { secs: 0, nanos: 4_000_000 },
        _ => Duration { secs: 0, nanos: 1 },
    }
}

/// The resolution of a clock.
pub open spec fn resolution(clock: ClockId) -> Duration {
    if clock == ClockId::MonotonicCoarse {
        Duration { secs: 0, nanos: 4_000_000 }
    } else {
        Duration { secs: 0, nanos: 1 }
    }
}

/// A point in time to wait for.
#[derive(Clone, Copy, PartialEq, Eq, Structural, Debug)]
pub enum Deadline {
    /// This long after the shim was started.
    FromBoot(Duration),
    /// This long from now.
    FromNow(Duration),
}

/// The time until a clock shows a reading: none, if it has passed.
pub open spec fn time_until(reading: Duration, now: Duration) -> Duration {
    let left = reading.as_nanos() - now.as_nanos();
    if left > 0 {
        Duration { secs: (left / 1_000_000_000) as u64, nanos: (left % 1_000_000_000) as u32 }
    } else {
        Duration { secs: 0, nanos: 0 }
    }
}

/// The point in time at which a clock shows a given reading, where the clock that counts from the epoch
/// shows `now`.
pub open spec fn deadline_of(clock: ClockId, duration: Duration, now: Duration) -> Result<
    Deadline,
    Errno,
> {
    match clock {
        ClockId::Monotonic | ClockId::MonotonicCoarse => Ok(Deadline::FromBoot(duration)),
        ClockId::RealTime => Ok(Deadline::FromNow(time_until(duration, now))),
        ClockId::Other => Err(Errno::EINVAL),
    }
}

/// The point in time at which a clock shows a given reading. `now` is what the clock shows, for a
/// clock that counts from the epoch. A reading that has passed means now.
pub fn duration_since_epoch_to_deadline(clock: ClockId, duration: Duration, now: Duration) -> (r:
    Result<Deadline, Errno>)
    requires
        duration.well_formed(),
        now.well_formed(),
    ensures
        r == deadline_of(clock, duration, now),
{
    match clock {
        ClockId::Monotonic | ClockId::MonotonicCoarse => Ok(Deadline::FromBoot(duration)),
        ClockId::RealTime => match duration.checked_sub(now) {
            Some(d) => {
                proof {
                    lemma_fundamental_div_mod_converse(
                        d.as_nanos(),
                        1_000_000_000,
                        d.secs as int,
                        d.nanos as int,
                    );
                }
                Ok(Deadline::FromNow(d))
            },
            None => Ok(Deadline::FromNow(Duration::zero())),
        },
        ClockId::Other => Err(Errno::EINVAL),
    }
}

/// The request names a point in time.
pub const TIMER_ABSTIME: u32 = 1;

/// How long to sleep.
#[derive(Clone, Copy, PartialEq, Eq, Structural, Debug)]
pub enum SleepPlan {
    Until(Deadline),
    For(Duration),
}

/// How long to sleep for a request, or why it is refused.
pub open spec fn sleep_plan(
    clock: ClockId,
    flags: u32,
    request: Result<Option<Duration>, Errno>,
    now: Duration,
) -> Result<SleepPlan, Errno> {
    match request {
        Err(e) => Err(e),
        Ok(None) => Err(Errno::EFAULT),
        Ok(Some(d)) => if flags > TIMER_ABSTIME {
            Err(Errno::EINVAL)
        } else if flags == 0 {
            Ok(SleepPlan::For(d))
        } else {
            match deadline_of(clock, d, now) {
                Ok(deadline) => Ok(SleepPlan::Until(deadline)),
                Err(e) => Err(e),
            }
        },
    }
}

/// Starts a sleep: decides how long to sleep. `request` is what was read from the caller; `now` is what
/// the clock shows, for a clock that counts from the epoch.
pub fn sys_clock_nanosleep(
    clock: ClockId,
    flags: u32,
    request: Result<Option<Duration>, Errno>,
    now: Duration,
) -> (r: Result<SleepPlan, Errno>)
    requires
        request matches Ok(Some(d)) ==> d.well_formed(),
        now.well_formed(),
    ensures
        r == sleep_plan(clock, flags, request, now),
{
    let request = match request {
        Ok(Some(d)) => d,
        Ok(None) => return Err(Errno::EFAULT),
        Err(e) => return Err(e),
    };
    if flags > TIMER_ABSTIME {
        return Err(Errno::EINVAL);
    }
    if flags == TIMER_ABSTIME {
        match duration_since_epoch_to_deadline(clock, request, now) {
            Ok(deadline) => Ok(SleepPlan::Until(deadline)),
            Err(e) => Err(e),
        }
    } else {
        Ok(SleepPlan::For(request))
    }
}

/// What follows a sleep.
#[derive(Clone, Copy, PartialEq, Eq, Debug)]
pub enum SleepEnd {
    /// The result.
    Done(Result<(), Errno>),
    /// The time that is left is to be written for the caller; if that works, the sleep was
    /// interrupted.
    WriteRemaining(Duration),
}

impl SleepPlan {
    /// What follows the sleep.
    pub open spec fn end(self, interrupted: bool, remaining: Option<Duration>) -> SleepEnd {
        if !interrupted {
            SleepEnd::Done(Ok(()))
        } else {
            match self {
                SleepPlan::Until(_) => SleepEnd::Done(Err(Errno::EINTR)),
                SleepPlan::For(_) => match remaining {
                    Some(left) => SleepEnd::WriteRemaining(left),
                    None => SleepEnd::Done(Ok(())),
                },
            }
        }
    }

    /// What follows the sleep. `interrupted` tells whether it was cut short, `remaining` the time that
    /// was left then. A sleep that was interrupted when no time was left has not failed.
    pub fn ended(&self, interrupted: bool, remaining: Option<Duration>) -> (r: SleepEnd)
        ensures
            r == self.end(interrupted, remaining),
    {
        if !interrupted {
            return SleepEnd::Done(Ok(()));
        }
        match *self {
            SleepPlan::Until(_) => SleepEnd::Done(Err(Errno::EINTR)),
            SleepPlan::For(_) => match remaining {
                Some(left) => SleepEnd::WriteRemaining(left),
                None => SleepEnd::Done(Ok(())),
            },
        }
    }
}

impl SleepEnd {
    /// The result, given what came of writing the time that is left.
    pub fn result(&self, written: Result<(), Errno>) -> (r: Result<(), Errno>)
        ensures
            r == (match *self {
                SleepEnd::Done(result) => result,
                SleepEnd::WriteRemaining(_) => match written {
                    Ok(()) => Err(Errno::EINTR),
                    Err(e) => Err(e),
                },
            }),
    {
        match *self {
            SleepEnd::Done(result) => result,
            SleepEnd::WriteRemaining(_) => match written {
                Ok(()) => Err(Errno::EINTR),
                Err(e) => Err(e),
            },
        }
    }
}

/// Seconds and microseconds.
#[derive(Clone, Copy, PartialEq, Eq, Structural, Debug)]
pub struct TimeVal {
    pub tv_sec: u64,
    pub tv_usec: u64,
}

/// A time zone: minutes west of Greenwich, and the kind of summer time.
#[derive(Clone, Copy, PartialEq, Eq, Structural, Debug)]
pub struct TimeZone {
    pub tz_minuteswest: i32,
    pub tz_dsttime: i32,
}

/// A span in seconds and whole microseconds.
pub open spec fn timeval(d: Duration) -> TimeVal {
    TimeVal { tv_sec: d.secs, tv_usec: (d.nanos / 1000) as u64 }
}

/// A span in seconds and whole microseconds.
pub fn timeval_of(d: Duration) -> (r: TimeVal)
    requires
        d.well_formed(),
    ensures
        r == timeval(d),
        r.tv_usec < 1_000_000,
        r.tv_sec * 1_000_000 + r.tv_usec == d.spec_micros(),
{
    TimeVal { tv_sec: d.secs, tv_usec: (d.nanos / 1000) as u64 }
}

/// What `gettimeofday` gives the caller, in the order in which it is written: the time zone, which is
/// always that of Greenwich, and the time; each only where the caller wants it.
pub fn sys_gettimeofday(since_epoch: Duration, wants_tz: bool, wants_tv: bool) -> (r: (
    Option<TimeZone>,
    Option<TimeVal>,
))
    requires
        since_epoch.well_formed(),
    ensures
        r.0 == (if wants_tz {
            Some(TimeZone { tz_minuteswest: 0, tz_dsttime: 0 })
        } else {
            None
        }),
        r.1 == (if wants_tv {
            Some(timeval(since_epoch))
        } else {
            None
        }),
{
    let zone = if wants_tz {
        Some(TimeZone { tz_minuteswest: 0, tz_dsttime: 0 })
    } else {
        None
    };
    let val = if wants_tv {
        Some(timeval_of(since_epoch))
    } else {
        None
    };
    (zone, val)
}

/// The seconds since the epoch as a signed number, for the caller, who may also want them written.
pub fn sys_time(since_epoch: Duration) -> (r: Result<i64, Errno>)
    ensures
        r == (if since_epoch.secs > i64::MAX {
            Err(Errno::EOVERFLOW)
        } else {
            Ok(since_epoch.secs as i64)
        }),
{
    if since_epoch.secs > i64::MAX as u64 {
        return Err(Errno::EOVERFLOW);
    }
    Ok(since_epoch.secs as i64)
}

/// The alarm of a process: whether there is a timer for it, and when it goes off.
#[derive(Debug)]
pub struct Alarm<T> {
    pub has_timer: bool,
    pub deadline: Option<T>,
}

/// The outcome of setting an alarm.
#[derive(Clone, Copy, PartialEq, Eq, Structural, Debug)]
pub struct AlarmSet {
    /// The seconds that were left of the alarm before, rounded up.
    pub remaining: u32,
    /// Whether the timer is to be set, to `delay` seconds; zero stops it.
    pub set_timer: bool,
    pub delay: u32,
}

/// A span in seconds, rounded up, as far as 32 bits can show it.
pub open spec fn rounded_seconds(left: Duration) -> u32 {
    let secs = left.secs + (if left.nanos > 0 {
        1int
    } else {
        0
    });
    if secs <= u32::MAX {
        secs as u32
    } else {
        u32::MAX
    }
}

impl<T: Copy> Alarm<T> {
    /// No alarm.
    pub fn new() -> (r: Alarm<T>)
        ensures
            !r.has_timer,
            r.deadline is None,
    {
        Alarm { has_timer: false, deadline: None }
    }

    /// Sets the alarm to go off in some seconds, or stops it. `left` is the time until the alarm before
    /// goes off, `None` if that has passed; `new_deadline` is the point in time in `seconds` from now,
    /// if the clock can show it; `timers` tells whether the platform has timers.
    pub fn sys_alarm(
        &mut self,
        seconds: u32,
        left: Option<Duration>,
        new_deadline: Option<T>,
        timers: bool,
    ) -> (r: Result<AlarmSet, Errno>)
        requires
            left matches Some(d) ==> d.well_formed() && d.secs < u64::MAX,
        ensures
            if seconds > 0 && new_deadline is None {
                r == Err::<AlarmSet, Errno>(Errno::EINVAL) && *final(self) == *old(self)
            } else {
                &&& final(self).has_timer == (old(self).has_timer || timers)
                &&& final(self).deadline == (if seconds == 0 {
                    None
                } else {
                    new_deadline
                })
                &&& r == Ok::<AlarmSet, Errno>(
                    AlarmSet {
                        remaining: match (old(self).deadline, left) {
                            (Some(_), Some(d)) => rounded_seconds(d),
                            _ => 0,
                        },
                        set_timer: final(self).has_timer,
                        delay: seconds,
                    },
                )
            },
    {
        let remaining: u32 = match self.deadline {
            Some(_) => match left {
                Some(d) => if d.is_zero() {
                    0
                } else {
                    let extra: u64 = if d.nanos > 0 {
                        1
                    } else {
                        0
                    };
                    let secs: u64 = d.secs + extra;
                    if secs <= u32::MAX as u64 {
                        secs as u32
                    } else {
                        u32::MAX
                    }
                },
                None => 0,
            },
            None => 0,
        };
        let deadline = if seconds == 0 {
            None
        } else {
            match new_deadline {
                Some(t) => Some(t),
                None => return Err(Errno::EINVAL),
            }
        };
        if !self.has_timer {
            self.has_timer = timers;
        }
        self.deadline = deadline;
        Ok(AlarmSet { remaining, set_timer: self.has_timer, delay: seconds })
    }

    /// Lets the alarm go off, on a platform without timers: if its point in time has come, as `reached`
    /// tells, `SIGALRM` is sent to the process of the thread.
    pub fn check_alarm_deadline(
        &mut self,
        reached: bool,
        state: &SignalState,
        shared: &mut PendingSignals,
        handlers: &SignalHandlers,
        limits: &ResourceLimits,
    )
        requires
            limits.well_formed(),
            old(shared).well_formed(),
            handlers.well_formed(),
        ensures
            final(shared).well_formed(),
            final(self).has_timer == old(self).has_timer,
            if !old(self).has_timer && old(self).deadline is Some && reached {
                &&& final(self).deadline is None
                &&& final(shared)@ == sent(
                    old(shared)@,
                    state.blocked,
                    handlers@,
                    limits.sigpending(),
                    user_signal(SIGALRM),
                )
            } else {
                final(self).deadline == old(self).deadline && final(shared)@ == old(shared)@
            },
    {
        if self.has_timer {
            return ;
        }
        if self.deadline.is_some() && reached {
            self.deadline = None;
            state.send_shared_signal(shared, handlers, limits, siginfo_kill(SIGALRM));
        }
    }

    /// Sends a signal that comes from the platform to the process of the thread. A timer that went off
    /// leaves no time to wait: its deadline is forgotten.
    pub fn queue_signals(
        &mut self,
        signal: u32,
        state: &SignalState,
        shared: &mut PendingSignals,
        handlers: &SignalHandlers,
        limits: &ResourceLimits,
    )
        requires
            limits.well_formed(),
            old(shared).well_formed(),
            handlers.well_formed(),
            is_signal(signal as int),
        ensures
            final(shared).well_formed(),
            final(shared)@ == sent(
                old(shared)@,
                state.blocked,
                handlers@,
                limits.sigpending(),
                user_signal(signal),
            ),
            final(self).has_timer == old(self).has_timer,
            final(self).deadline == (if signal == SIGALRM {
                None
            } else {
                old(self).deadline
            }),
    {
        if signal == SIGALRM {
            self.deadline = None;
        }
        state.send_shared_signal(shared, handlers, limits, siginfo_kill(signal));
    }
}

/// The seconds that an alarm reports as left cover the time that is left, and no second more.
pub proof fn law_remaining_seconds_cover(left: Duration)
    requires
        left.well_formed(),
        left.secs < u32::MAX,
    ensures
        left.as_nanos() <= rounded_seconds(left) * 1_000_000_000 < left.as_nanos() + 1_000_000_000,
{
}

} // verus!
