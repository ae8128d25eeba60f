//! Spans of time.
use vstd::arithmetic::div_mod::{lemma_div_multiples_vanish, lemma_fundamental_div_mod_converse};
use vstd::prelude::*;

verus! {

/// A span of time: whole seconds, and nanoseconds below a second.
#[derive(Clone, Copy, PartialEq, Eq, Structural, Debug)]
pub struct Duration {
    pub secs: u64,
    pub nanos: u32,
}

impl Duration {
    /// The nanoseconds are less than a second.
    pub open spec fn well_formed(self) -> bool {
        self.nanos < 1_000_000_000
    }

    /// The length in nanoseconds.
    pub open spec fn as_nanos(self) -> int {
        self.secs * 1_000_000_000 + self.nanos
    }

    /// The length in whole microseconds.
    pub open spec fn spec_micros(self) -> int {
        self.secs * 1_000_000 + self.nanos as int / 1000
    }

    /// No time.
    pub fn zero() -> (r: Duration)
        ensures
            r == (Duration { secs: 0, nanos: 0 }),
    {
        Duration { secs: 0, nanos: 0 }
    }

    /// A number of seconds.
    pub fn from_secs(secs: u64) -> (r: Duration)
        ensures
            r == (Duration { secs, nanos: 0 }),
    {
        Duration { secs, nanos: 0 }
    }

    /// A number of milliseconds.
    pub fn from_millis(millis: u64) -> (r: Duration)
        ensures
            r.well_formed(),
            r.as_nanos() == millis * 1_000_000,
    {
        Duration { secs: millis / 1000, nanos: (millis % 1000) as u32 * 1_000_000 }
    }

    /// A number of microseconds.
    pub fn from_micros(micros: u64) -> (r: Duration)
        ensures
            r.well_formed(),
            r.as_nanos() == micros * 1000,
    {
        Duration { secs: micros / 1_000_000, nanos: (micros % 1_000_000) as u32 * 1000 }
    }

    /// A number of nanoseconds.
    pub fn from_nanos(nanos: u64) -> (r: Duration)
        ensures
            r.well_formed(),
            r.as_nanos() == nanos,
    {
        Duration { secs: nanos / 1_000_000_000, nanos: (nanos % 1_000_000_000) as u32 }
    }

    /// Whether this is no time at all.
    pub fn is_zero(&self) -> (r: bool)
        ensures
            r == (self.as_nanos() == 0),
    {
        self.secs == 0 && self.nanos == 0
    }

    /// The length in whole microseconds.
    pub fn as_micros(&self) -> (r: u128)
        ensures
            r == self.spec_micros(),
    {
        self.secs as u128 * 1_000_000 + (self.nanos / 1000) as u128
    }

    /// The difference, if it is not negative.
    pub fn checked_sub(&self, other: Duration) -> (r: Option<Duration>)
        requires
            self.well_formed(),
            other.well_formed(),
        ensures
            match r {
                Some(d) => d.well_formed() && d.as_nanos() == self.as_nanos() - other.as_nanos(),
                None => self.as_nanos() < other.as_nanos(),
            },
    {
        if self.secs < other.secs {
            return None;
        }
        let secs: u64 = self.secs - other.secs;
        if self.nanos >= other.nanos {
            Some(Duration { secs, nanos: self.nanos - other.nanos })
        } else if secs == 0 {
            None
        } else {
            Some(Duration { secs: secs - 1, nanos: self.nanos + 1_000_000_000 - other.nanos })
        }
    }
}

/// Two spans of the same length are the same.
pub proof fn law_duration_is_its_length(a: Duration, b: Duration)
    requires
        a.well_formed(),
        b.well_formed(),
        a.as_nanos() == b.as_nanos(),
    ensures
        a == b,
{
    lemma_fundamental_div_mod_converse(
        a.as_nanos(),
        1_000_000_000,
        a.secs as int,
        a.nanos as int,
    );
    lemma_fundamental_div_mod_converse(
        b.as_nanos(),
        1_000_000_000,
        b.secs as int,
        b.nanos as int,
    );
}

/// A point in time of a processor that counts cycles.
#[derive(Clone, Copy, PartialEq, Eq, Structural, Debug)]
pub struct TscInstant {
    pub tsc: u64,
}

impl TscInstant {
    /// The time since an earlier point, in whole microseconds. `cpu_mhz` is the number of cycles in a
    /// microsecond.
    pub fn checked_duration_since(&self, earlier: &TscInstant, cpu_mhz: u64) -> (r: Option<Duration>)
        requires
            cpu_mhz > 0,
        ensures
            match r {
                Some(d) => self.tsc >= earlier.tsc && d.well_formed() && d.as_nanos() == (self.tsc
                    - earlier.tsc) / cpu_mhz as int * 1000,
                None => self.tsc < earlier.tsc,
            },
    {
        match self.tsc.checked_sub(earlier.tsc) {
            Some(cycles) => Some(Duration::from_micros(cycles / cpu_mhz)),
            None => None,
        }
    }

    /// The point in time after a span, counted in whole microseconds, if the counter can show it.
    pub fn checked_add(&self, duration: Duration, cpu_mhz: u64) -> (r: Option<TscInstant>)
        ensures
            ({
                let micros = duration.spec_micros();
                match r {
                    Some(t) => micros <= u64::MAX && t.tsc == self.tsc + micros * cpu_mhz,
                    None => micros > u64::MAX || self.tsc + micros * cpu_mhz > u64::MAX,
                }
            }),
    {
        let micros: u128 = duration.as_micros();
        if micros > u64::MAX as u128 {
            return None;
        }
        let micros: u64 = micros as u64;
        match micros.checked_mul(cpu_mhz) {
            Some(cycles) => match self.tsc.checked_add(cycles) {
                Some(tsc) => Some(TscInstant { tsc }),
                None => None,
            },
            None => None,
        }
    }
}

/// The time since a point from which one went on by a span is that span, in whole microseconds.
pub proof fn law_added_time_has_passed(start: u64, micros: int, cpu_mhz: u64)
    requires
        cpu_mhz > 0,
        0 <= micros,
    ensures
        ((start + micros * cpu_mhz) - start) / cpu_mhz as int == micros,
{
    lemma_div_multiples_vanish(micros, cpu_mhz as int);
    assert(micros * cpu_mhz == cpu_mhz * micros) by (nonlinear_arith);
}

} // verus!
