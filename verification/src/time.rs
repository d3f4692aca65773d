//! Points in time and calendar dates, as plain integers.

use vstd::prelude::*;

verus! {

/// Seconds in one calendar day.
pub const SECONDS_PER_DAY: i64 = 86_400;

/// Seconds in one minute.
pub const SECONDS_PER_MINUTE: u64 = 60;

/// A calendar date: whole days counted from the day on which the epoch falls.
#[derive(Clone, Copy, Debug, PartialEq, Eq, Structural)]
pub struct Date {
    pub days: i64,
}

/// A point in time: whole seconds of local wall-clock time counted from an
/// epoch that the caller chooses. Later points have larger counts.
#[derive(Clone, Copy, Debug, PartialEq, Eq, Structural)]
pub struct Timestamp {
    pub secs: i64,
}

impl Timestamp {
    /// The date on which this point falls: the count of seconds divided by
    /// the length of a day, rounded towards earlier days.
    pub open spec fn spec_date(self) -> Date {
        Date { days: (self.secs as int / SECONDS_PER_DAY as int) as i64 }
    }

    /// Seconds from `earlier` to this point; negative where `earlier` is in
    /// fact the later of the two.
    pub open spec fn spec_seconds_since(self, earlier: Timestamp) -> int {
        self.secs - earlier.secs
    }

    /// The point `secs` seconds after the epoch.
    pub fn new(secs: i64) -> (t: Timestamp)
        ensures
            t.secs == secs,
    {
        Timestamp { secs }
    }

    /// The date on which this point falls.
    pub fn date(&self) -> (d: Date)
        ensures
            d == self.spec_date(),
    {
        let whole: i64 = self.secs / SECONDS_PER_DAY;
        let rest: i64 = self.secs % SECONDS_PER_DAY;
        if rest < 0 {
            Date { days: whole - 1 }
        } else {
            Date { days: whole }
        }
    }

    /// Whether this point is not later than `other`.
    pub fn is_at_or_before(&self, other: &Timestamp) -> (b: bool)
        ensures
            b == (self.secs <= other.secs),
    {
        self.secs <= other.secs
    }

    /// Seconds elapsed from `earlier` to this point.
    pub fn seconds_since(&self, earlier: &Timestamp) -> (s: u64)
        requires
            earlier.secs <= self.secs,
        ensures
            s == self.spec_seconds_since(*earlier),
    {
        let wide: i128 = self.secs as i128 - earlier.secs as i128;
        wide as u64
    }
}

} // verus!
