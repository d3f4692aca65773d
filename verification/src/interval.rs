//! Contiguous spans of time, open or closed, and the time they add up to.

use vstd::prelude::*;
use crate::time::Timestamp;

verus! {

/// One contiguous span of working or of being on break. While `end` is `None`
/// the span is still running.
#[derive(Clone, Copy, Debug, PartialEq, Eq)]
pub struct Interval {
    pub start: Timestamp,
    pub end: Option<Timestamp>,
}

impl Interval {
    /// The span is still running.
    pub open spec fn is_open(self) -> bool {
        self.end is None
    }

    /// A closed span does not end before it starts.
    pub open spec fn ordered(self) -> bool {
        self.end matches Some(e) ==> self.start.secs <= e.secs
    }

    /// The span is closed and is over by `t`.
    pub open spec fn ends_by(self, t: Timestamp) -> bool {
        self.end matches Some(e) && e.secs <= t.secs
    }

    /// The span is closed exactly at `t`.
    pub open spec fn ends_at(self, t: Timestamp) -> bool {
        self.end == Some(t)
    }

    /// The same span, closed at `t`.
    pub open spec fn spec_closed_at(self, t: Timestamp) -> Interval {
        Interval { start: self.start, end: Some(t) }
    }

    /// A span that starts at `t` and is still running.
    pub open spec fn spec_open_at(t: Timestamp) -> Interval {
        Interval { start: t, end: None }
    }

    /// Length of a closed span in seconds; a running span counts as empty.
    pub open spec fn seconds(self) -> int {
        match self.end {
            Some(e) => e.secs - self.start.secs,
            None => 0,
        }
    }

    /// Two spans overlap when some stretch of time lies in both. A span covers
    /// the time from its start up to, not including, its end; a running span
    /// has no end.
    pub open spec fn overlaps(self, other: Interval) -> bool {
        &&& (other.end matches Some(e) ==> self.start.secs < e.secs)
        &&& (self.end matches Some(e) ==> other.start.secs < e.secs)
        &&& (self.end matches Some(e) ==> self.start.secs < e.secs)
        &&& (other.end matches Some(e) ==> other.start.secs < e.secs)
    }

    /// A span that starts at `t` and is still running.
    pub fn open_at(t: Timestamp) -> (iv: Interval)
        ensures
            iv == Interval::spec_open_at(t),
    {
        Interval { start: t, end: None }
    }

    /// The same span, closed at `t`.
    pub fn closed_at(&self, t: Timestamp) -> (iv: Interval)
        ensures
            iv == self.spec_closed_at(t),
    {
        Interval { start: self.start, end: Some(t) }
    }

    /// Whether the span is still running.
    pub fn is_running(&self) -> (b: bool)
        ensures
            b == self.is_open(),
    {
        self.end.is_none()
    }

    /// Whether the span, if closed, ends no earlier than it starts.
    pub fn is_ordered(&self) -> (b: bool)
        ensures
            b == self.ordered(),
    {
        match self.end {
            Some(e) => self.start.secs <= e.secs,
            None => true,
        }
    }

    /// Whether the span is closed and over by `t`.
    pub fn has_ended_by(&self, t: &Timestamp) -> (b: bool)
        ensures
            b == self.ends_by(*t),
    {
        match self.end {
            Some(e) => e.secs <= t.secs,
            None => false,
        }
    }

    /// Length of the span in seconds, `None` while it is running.
    pub fn duration_seconds(&self) -> (d: Option<u64>)
        requires
            self.ordered(),
        ensures
            d is None <==> self.is_open(),
            d matches Some(s) ==> s == self.seconds(),
    {
        match self.end {
            Some(e) => Some(e.seconds_since(&self.start)),
            None => None,
        }
    }
}

/// Seconds covered by the closed spans of `spans`, added up.
pub open spec fn total_seconds(spans: Seq<Interval>) -> int
    decreases spans.len(),
{
    if spans.len() == 0 {
        0
    } else {
        total_seconds(spans.drop_last()) + spans.last().seconds()
    }
}

/// Every span is closed and none ends before it starts or after the next one
/// starts.
pub open spec fn chronological(spans: Seq<Interval>) -> bool {
    &&& forall|i: int| 0 <= i < spans.len() ==> (#[trigger] spans[i]).end is Some
    &&& forall|i: int| 0 <= i < spans.len() ==> (#[trigger] spans[i]).ordered()
    &&& forall|i: int, j: int|
        0 <= i < j < spans.len() ==> (#[trigger] spans[i]).ends_by((#[trigger] spans[j]).start)
}

/// The first `n + 1` spans add up to the first `n` and the one after them.
pub proof fn lemma_total_seconds_take(spans: Seq<Interval>, n: int)
    requires
        0 <= n < spans.len(),
    ensures
        total_seconds(spans.take(n + 1)) == total_seconds(spans.take(n)) + spans[n].seconds(),
{
    assert(spans.take(n + 1).drop_last() =~= spans.take(n));
}

/// Spans in chronological order add up to no more than the time from the
/// start of the first to the end of the last, and to no less than nothing.
pub proof fn lemma_total_seconds_bounded(spans: Seq<Interval>, n: int)
    requires
        chronological(spans),
        0 <= n <= spans.len(),
    ensures
        0 <= total_seconds(spans.take(n)),
        n > 0 ==> total_seconds(spans.take(n)) <= spans[n - 1].end->0.secs - spans[0].start.secs,
    decreases n,
{
    if n > 0 {
        lemma_total_seconds_bounded(spans, n - 1);
        lemma_total_seconds_take(spans, n - 1);
        assert(spans[n - 1].ordered());
        if n > 1 {
            assert(spans[n - 2].ends_by(spans[n - 1].start));
        }
    }
}

/// Adds up the lengths of spans that are all closed and in chronological
/// order. The sum cannot overflow: it is no more than the time from the start
/// of the first span to the end of the last.
pub fn sum_seconds(spans: &Vec<Interval>) -> (total: u64)
    requires
        chronological(spans@),
    ensures
        total == total_seconds(spans@),
{
    let mut total: u64 = 0;
    let mut i: usize = 0;
    while i < spans.len()
        invariant
            i <= spans.len(),
            chronological(spans@),
            total == total_seconds(spans@.take(i as int)),
        decreases spans.len() - i,
    {
        proof {
            lemma_total_seconds_bounded(spans@, i + 1);
            lemma_total_seconds_take(spans@, i as int);
        }
        let span: Interval = spans[i];
        let secs: u64 = match span.end {
            Some(e) => e.seconds_since(&span.start),
            None => 0,
        };
        total = total + secs;
        i += 1;
    }
    proof {
        assert(spans@.take(i as int) =~= spans@);
    }
    total
}

} // verus!
