//! Points in time, as the flow tables use them.

use vstd::prelude::*;

verus! {

/// The number of nanoseconds in a millisecond.
pub const NANOS_PER_MILLI: u64 = 1_000_000;

/// The number of milliseconds in a second.
pub const MILLIS_PER_SEC: u64 = 1_000;

/// A point in time: nanoseconds since some fixed origin.
#[derive(Clone, Copy, Debug, PartialEq, Eq, Structural)]
pub struct Moment {
    pub nanos: u64,
}

impl View for Moment {
    type V = u64;

    open spec fn view(&self) -> u64 {
        self.nanos
    }
}

/// `std::time::SystemTime::elapsed` on `std::time::UNIX_EPOCH`: the time that has passed
/// since the Unix epoch, or nothing where the clock of the machine stands before it.
/// Nothing is promised of the value: it is whatever the clock says.
#[verifier::external_body]
fn since_epoch() -> Option<std::time::Duration> {
    match std::time::UNIX_EPOCH.elapsed() {
        Ok(d) => Some(d),
        Err(_) => None,
    }
}

/// `std::time::Duration::as_nanos`: the whole nanoseconds of the duration. Nothing is
/// stated of the number.
pub assume_specification[ std::time::Duration::as_nanos ](d: &std::time::Duration) -> (r: u128);

impl Moment {
    /// The whole milliseconds from `earlier` to this moment; zero where `earlier` is not
    /// earlier.
    pub open spec fn spec_delta_as_millis(self, earlier: Moment) -> u64 {
        if self.nanos >= earlier.nanos {
            ((self.nanos - earlier.nanos) / NANOS_PER_MILLI as int) as u64
        } else {
            0
        }
    }

    /// This moment plus `millis` milliseconds; the latest moment there is where that would
    /// lie beyond it.
    pub open spec fn spec_add_millis(self, millis: u64) -> Moment {
        if millis as int * NANOS_PER_MILLI as int + self.nanos as int <= u64::MAX as int {
            Moment { nanos: (self.nanos + millis * NANOS_PER_MILLI) as u64 }
        } else {
            Moment { nanos: u64::MAX }
        }
    }

    /// This moment plus `secs` seconds; the latest moment there is where that would lie
    /// beyond it.
    pub open spec fn spec_add_secs(self, secs: u64) -> Moment {
        if secs as int * 1_000_000_000 + self.nanos as int <= u64::MAX as int {
            Moment { nanos: (self.nanos + secs * 1_000_000_000) as u64 }
        } else {
            Moment { nanos: u64::MAX }
        }
    }

    /// The moment that lies `elapsed` nanoseconds after the origin: the origin itself where
    /// nothing has elapsed, and the latest moment there is where the number does not fit.
    pub open spec fn spec_from_elapsed(elapsed: Option<u128>) -> Moment {
        match elapsed {
            Some(n) => if n > u64::MAX {
                Moment { nanos: u64::MAX }
            } else {
                Moment { nanos: n as u64 }
            },
            None => Moment { nanos: 0 },
        }
    }

    /// The moment that lies `elapsed` nanoseconds after the origin, as
    /// [`Moment::spec_from_elapsed`] says. `None` stands for a clock that has not reached
    /// the origin yet.
    pub fn from_elapsed(elapsed: Option<u128>) -> (r: Moment)
        ensures
            r == Moment::spec_from_elapsed(elapsed),
    {
        match elapsed {
            Some(n) => {
                if n > 0xffff_ffff_ffff_ffff {
                    Moment { nanos: u64::MAX }
                } else {
                    Moment { nanos: n as u64 }
                }
            },
            None => Moment { nanos: 0 },
        }
    }

    /// The present moment, by the wall clock of the machine: what [`Moment::from_elapsed`]
    /// makes of the nanoseconds since the Unix epoch. Nothing is promised of the moment: it
    /// is whatever the clock says, and a wall clock may be set back. Whoever has a clock
    /// that never runs backwards hands its moments to [`Moment::from_nanos`]; the engine
    /// takes every moment as an argument, and counts no idle time for a flow whose last
    /// hit lies after the moment given.
    pub fn now() -> Moment {
        match since_epoch() {
            Some(d) => Moment::from_elapsed(Some(d.as_nanos())),
            None => Moment::from_elapsed(None),
        }
    }

    /// The moment `nanos` nanoseconds after the origin.
    pub fn from_nanos(nanos: u64) -> (r: Moment)
        ensures
            r@ == nanos,
    {
        Moment { nanos }
    }

    /// The whole milliseconds from `earlier` to this moment; zero where `earlier` is not
    /// earlier.
    pub fn delta_as_millis(&self, earlier: Moment) -> (r: u64)
        ensures
            r == self.spec_delta_as_millis(earlier),
    {
        if self.nanos >= earlier.nanos {
            (self.nanos - earlier.nanos) / NANOS_PER_MILLI
        } else {
            0
        }
    }

    /// This moment plus `millis` milliseconds.
    pub fn add_millis(&self, millis: u64) -> (r: Moment)
        ensures
            r == self.spec_add_millis(millis),
    {
        if millis > (u64::MAX - self.nanos) / NANOS_PER_MILLI {
            Moment { nanos: u64::MAX }
        } else {
            Moment { nanos: self.nanos + millis * NANOS_PER_MILLI }
        }
    }

    /// This moment plus `secs` seconds.
    pub fn add_secs(&self, secs: u64) -> (r: Moment)
        ensures
            r == self.spec_add_secs(secs),
    {
        if secs > (u64::MAX - self.nanos) / 1_000_000_000 {
            Moment { nanos: u64::MAX }
        } else {
            Moment { nanos: self.nanos + secs * 1_000_000_000 }
        }
    }
}

} // verus!
