//! Time on Windows, which counts in intervals of a hundred nanoseconds.
use vstd::prelude::*;

use crate::time::Duration;

verus! {

/// The number of intervals in a second.
pub const INTERVALS_PER_SECOND: u64 = 10_000_000;

/// The epoch of Unix, in intervals since that of Windows: January 1, 1970 since January 1, 1601.
pub const UNIX_EPOCH: u64 = 116_444_736_000_000_000;

/// A span in whole intervals.
pub open spec fn intervals(d: Duration) -> int {
    d.as_nanos() / 100
}

/// A span in whole intervals, if 64 bits can show it.
fn checked_intervals(d: Duration) -> (r: Option<u64>)
    requires
        d.well_formed(),
    ensures
        r == (if intervals(d) <= u64::MAX {
            Some(intervals(d) as u64)
        } else {
            None
        }),
{
    let n: u128 = d.secs as u128 * 10_000_000 + (d.nanos / 100) as u128;
    assert(n == intervals(d));
    if n <= u64::MAX as u128 {
        Some(n as u64)
    } else {
        None
    }
}

/// A point in time, in intervals.
#[derive(Clone, Copy, PartialEq, Eq, Structural, Debug)]
pub struct Instant {
    pub intervals: u64,
}

impl Instant {
    /// The time since an earlier point.
    pub fn checked_duration_since(&self, earlier: &Instant) -> (r: Option<Duration>)
        requires
            (self.intervals - earlier.intervals) * 100 <= u64::MAX,
        ensures
            match r {
                Some(d) => d.well_formed() && d.as_nanos() == (self.intervals - earlier.intervals)
                    * 100,
                None => self.intervals < earlier.intervals,
            },
    {
        match self.intervals.checked_sub(earlier.intervals) {
            Some(diff) => Some(Duration::from_nanos(diff * 100)),
            None => None,
        }
    }

    /// The point in time after a span, if 64 bits can show it.
    pub fn checked_add(&self, duration: Duration) -> (r: Option<Instant>)
        requires
            duration.well_formed(),
        ensures
            match r {
                Some(t) => t.intervals == self.intervals + intervals(duration),
                None => self.intervals + intervals(duration) > u64::MAX,
            },
    {
        match checked_intervals(duration) {
            Some(n) => match self.intervals.checked_add(n) {
                Some(intervals) => Some(Instant { intervals }),
                None => None,
            },
            None => None,
        }
    }
}

/// The time since a point from which one went on by a span is that span, in whole intervals.
pub proof fn law_added_intervals_have_passed(start: int, d: Duration)
    requires
        d.well_formed(),
    ensures
        ((start + intervals(d)) - start) * 100 <= d.as_nanos(),
        d.as_nanos() < ((start + intervals(d)) - start) * 100 + 100,
{
}

/// The time of day, in intervals since the epoch of Windows.
#[derive(Clone, Copy, PartialEq, Eq, Structural, Debug)]
pub struct SystemTime {
    pub filetime: u64,
}

impl SystemTime {
    /// The epoch of Unix.
    pub fn unix_epoch() -> (r: SystemTime)
        ensures
            r.filetime == UNIX_EPOCH,
    {
        SystemTime { filetime: UNIX_EPOCH }
    }

    /// The time from the two halves in which the system tells it.
    pub fn from_halves(low: u32, high: u32) -> (r: SystemTime)
        ensures
            r.filetime == high * 0x1_0000_0000 + low,
    {
        SystemTime { filetime: high as u64 * 0x1_0000_0000 + low as u64 }
    }

    /// The time since another time, or, as an error, the time until it.
    pub fn duration_since(&self, earlier: &SystemTime) -> (r: Result<Duration, Duration>)
        requires
            (self.filetime - earlier.filetime) * 100 <= u64::MAX,
            (earlier.filetime - self.filetime) * 100 <= u64::MAX,
        ensures
            match r {
                Ok(d) => self.filetime >= earlier.filetime && d.well_formed() && d.as_nanos() == (
                self.filetime - earlier.filetime) * 100,
                Err(d) => self.filetime < earlier.filetime && d.well_formed() && d.as_nanos() == (
                earlier.filetime - self.filetime) * 100,
            },
    {
        if self.filetime >= earlier.filetime {
            Ok(Duration::from_nanos((self.filetime - earlier.filetime) * 100))
        } else {
            Err(Duration::from_nanos((earlier.filetime - self.filetime) * 100))
        }
    }
}

/// When a timer goes off: the two halves of a negative number of intervals, which means a span from
/// now.
#[derive(Clone, Copy, PartialEq, Eq, Structural, Debug)]
pub struct DueTime {
    pub low: u32,
    pub high: u32,
}

/// The number that the two halves make, as one with a sign.
pub open spec fn due_value(due: DueTime) -> int {
    let n = due.high * 0x1_0000_0000 + due.low;
    if n >= 0x8000_0000_0000_0000 {
        n - 0x1_0000_0000_0000_0000
    } else {
        n
    }
}

/// When a timer is to go off; `None` stops it. Spans that 63 bits cannot show are cut.
pub fn set_timer(duration: Duration) -> (r: Option<DueTime>)
    requires
        duration.well_formed(),
    ensures
        match r {
            None => duration.as_nanos() == 0,
            Some(due) => duration.as_nanos() > 0 && due_value(due) == (if intervals(duration)
                <= i64::MAX {
                -intervals(duration)
            } else {
                -(i64::MAX as int)
            }),
        },
{
    if duration.is_zero() {
        return None;
    }
    let n: u64 = match checked_intervals(duration) {
        Some(n) => if n <= i64::MAX as u64 {
            n
        } else {
            i64::MAX as u64
        },
        None => i64::MAX as u64,
    };
    let bits: u64 = if n == 0 {
        0
    } else {
        u64::MAX - (n - 1)
    };
    Some(DueTime { low: (bits % 0x1_0000_0000) as u32, high: (bits / 0x1_0000_0000) as u32 })
}

/// Wait without limit.
pub const INFINITE: u32 = 0xffff_ffff;

/// A timeout in whole milliseconds, as far as the system can take it.
pub fn timeout_millis(timeout: Option<Duration>) -> (r: u32)
    requires
        timeout matches Some(d) ==> d.well_formed(),
    ensures
        match timeout {
            None => r == INFINITE,
            Some(d) => r == (if d.as_nanos() / 1_000_000 < INFINITE {
                d.as_nanos() / 1_000_000
            } else {
                INFINITE - 1
            }),
        },
{
    match timeout {
        None => INFINITE,
        Some(d) => {
            let ms: u128 = d.secs as u128 * 1000 + (d.nanos / 1_000_000) as u128;
            assert(ms == d.as_nanos() / 1_000_000);
            if ms < INFINITE as u128 {
                ms as u32
            } else {
                INFINITE - 1
            }
        },
    }
}

/// How a wait ended.
#[derive(Clone, Copy, PartialEq, Eq, Structural, Debug)]
pub enum UnblockedOrTimedOut {
    Unblocked,
    TimedOut,
}

/// The error of the system for a wait that took too long.
pub const ERROR_TIMEOUT: u32 = 1460;

/// How a wait ended: `woken` tells whether the system says so, `error` is its error otherwise. No other
/// error than that of a timeout is expected.
pub fn block_or_maybe_timeout(woken: bool, error: u32) -> (r: UnblockedOrTimedOut)
    requires
        woken || error == ERROR_TIMEOUT,
    ensures
        r == (if woken {
            UnblockedOrTimedOut::Unblocked
        } else {
            UnblockedOrTimedOut::TimedOut
        }),
{
    if woken {
        UnblockedOrTimedOut::Unblocked
    } else {
        UnblockedOrTimedOut::TimedOut
    }
}

/// How waiters are woken.
#[derive(Clone, Copy, PartialEq, Eq, Structural, Debug)]
pub enum WakePlan {
    /// One after the other, so many times.
    Single(u32),
    /// All at once.
    All,
}

/// Decides how to wake `n` waiters. The number that counts as woken is `n`, since the system does not
/// tell.
pub fn wake_many(n: u64) -> (r: (WakePlan, u64))
    requires
        0 < n <= u32::MAX,
    ensures
        r.1 == n,
        r.0 == (if n >= i32::MAX {
            WakePlan::All
        } else {
            WakePlan::Single(n as u32)
        }),
{
    if n >= i32::MAX as u64 {
        (WakePlan::All, n)
    } else {
        (WakePlan::Single(n as u32), n)
    }
}

} // verus!
