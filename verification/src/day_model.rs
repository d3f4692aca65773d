//! The mathematical model of a day's record: its spans of work and break, the
//! state it is in, the moves between states, and the sums derived from it.

use vstd::prelude::*;
use crate::error::{DayError, TransitionFault};
use crate::interval::{Interval, total_seconds};
use crate::time::{Date, Timestamp};

verus! {

/// The state of a day. A day starts out `Working`, moves between `Working`
/// and `OnBreak`, and stays `Ended` once it is closed.
#[derive(Clone, Copy, Debug, PartialEq, Eq, Structural)]
pub enum DayState {
    /// The last span of work is running.
    Working,
    /// The last break is running.
    OnBreak,
    /// The day was closed at the time given.
    Ended(Timestamp),
}

/// A note as a plain value.
#[verifier::ext_equal]
pub struct NoteView {
    pub timestamp: Timestamp,
    pub message: Seq<char>,
}

/// A summary entry as a plain value.
#[verifier::ext_equal]
pub struct SummaryEntryView {
    pub category: Seq<char>,
    pub project: Seq<char>,
    pub task: Seq<char>,
    pub description: Seq<char>,
}

/// A day's record as a plain value.
#[verifier::ext_equal]
pub struct DayView {
    /// The calendar date that identifies the record.
    pub date: Date,
    /// The label of the task the day was started with.
    pub start_task: Seq<char>,
    /// The intended length of work for this day, in minutes.
    pub target_minutes: int,
    /// The spans of work, oldest first.
    pub work: Seq<Interval>,
    /// The breaks, oldest first: break `i` lies between work `i` and work `i + 1`.
    pub breaks: Seq<Interval>,
    pub state: DayState,
    pub notes: Seq<NoteView>,
    pub summaries: Seq<SummaryEntryView>,
}

impl DayView {
    /// Work span `i` is closed and over when break `i` starts.
    pub open spec fn work_before_break(self, i: int) -> bool {
        self.work[i].ends_by(self.breaks[i].start)
    }

    /// Break `i` is closed and over when work span `i + 1` starts.
    pub open spec fn break_before_work(self, i: int) -> bool {
        self.breaks[i].ends_by(self.work[i + 1].start)
    }

    /// Break `i` starts at the moment at which work span `i` ends.
    pub open spec fn work_meets_break(self, i: int) -> bool {
        self.work[i].ends_at(self.breaks[i].start)
    }

    /// Work span `i + 1` starts at the moment at which break `i` ends.
    pub open spec fn break_meets_work(self, i: int) -> bool {
        self.breaks[i].ends_at(self.work[i + 1].start)
    }

    /// The span that was started last: a span of work while there is one more
    /// of them than there are breaks, else a break.
    pub open spec fn last_span(self) -> Interval {
        if self.work.len() > self.breaks.len() {
            self.work.last()
        } else {
            self.breaks.last()
        }
    }

    /// The record is consistent. Work and breaks take turns, starting with
    /// work; every span but the last is closed; no span ends before it starts
    /// or after the next one starts; the last span is running exactly while
    /// the day is open, and an ended day ends no earlier than its last span.
    pub open spec fn wf(self) -> bool {
        &&& self.work.len() >= 1
        &&& self.breaks.len() <= self.work.len() <= self.breaks.len() + 1
        &&& 0 <= self.target_minutes <= i64::MAX
        &&& forall|i: int| 0 <= i < self.work.len() ==> (#[trigger] self.work[i]).ordered()
        &&& forall|i: int| 0 <= i < self.breaks.len() ==> (#[trigger] self.breaks[i]).ordered()
        &&& forall|i: int| 0 <= i < self.breaks.len() ==> #[trigger] self.work_before_break(i)
        &&& forall|i: int| 0 <= i < self.work.len() - 1 ==> #[trigger] self.break_before_work(i)
        &&& match self.state {
            DayState::Working => self.work.len() == self.breaks.len() + 1
                && self.work.last().is_open(),
            DayState::OnBreak => self.work.len() == self.breaks.len()
                && self.breaks.last().is_open(),
            DayState::Ended(t) => self.last_span().ends_by(t),
        }
    }

    /// No time between punching in and the end of the last span is left
    /// uncovered: each span starts when the one before it ends, and an ended
    /// day ends with its last span.
    pub open spec fn gapless(self) -> bool {
        &&& forall|i: int| 0 <= i < self.breaks.len() ==> #[trigger] self.work_meets_break(i)
        &&& forall|i: int| 0 <= i < self.work.len() - 1 ==> #[trigger] self.break_meets_work(i)
        &&& (self.state matches DayState::Ended(t) ==> self.last_span().ends_at(t))
    }

    /// No span of work overlaps a break.
    pub open spec fn work_and_breaks_disjoint(self) -> bool {
        forall|i: int, j: int|
            0 <= i < self.work.len() && 0 <= j < self.breaks.len() ==> !(#[trigger] self.work[i]).overlaps(
                #[trigger] self.breaks[j],
            )
    }

    pub open spec fn has_ended(self) -> bool {
        self.state is Ended
    }

    /// The time at which the day was closed, if it was.
    pub open spec fn end_time(self) -> Option<Timestamp> {
        match self.state {
            DayState::Ended(t) => Some(t),
            _ => None,
        }
    }

    /// The time of punching in: the start of the first span of work.
    pub open spec fn day_start(self) -> Timestamp {
        self.work[0].start
    }

    /// The start of the span that is running.
    pub open spec fn open_start(self) -> Timestamp {
        self.last_span().start
    }

    /// The state that a stored record is in: ended if it has an end time,
    /// else working while there are more spans of work than breaks, else on
    /// break.
    pub open spec fn inferred_state(
        work: Seq<Interval>,
        breaks: Seq<Interval>,
        end_time: Option<Timestamp>,
    ) -> DayState {
        match end_time {
            Some(t) => DayState::Ended(t),
            None => if work.len() > breaks.len() {
                DayState::Working
            } else {
                DayState::OnBreak
            },
        }
    }

    /// The record that the stored fields describe.
    pub open spec fn from_parts(
        date: Date,
        start_task: Seq<char>,
        target_minutes: int,
        work: Seq<Interval>,
        breaks: Seq<Interval>,
        end_time: Option<Timestamp>,
        notes: Seq<NoteView>,
        summaries: Seq<SummaryEntryView>,
    ) -> DayView {
        DayView {
            date,
            start_task,
            target_minutes,
            work,
            breaks,
            state: Self::inferred_state(work, breaks, end_time),
            notes,
            summaries,
        }
    }

    /// The record of a day that starts at `now`.
    pub open spec fn started(now: Timestamp, task: Seq<char>, target_minutes: int) -> DayView {
        DayView {
            date: now.spec_date(),
            start_task: task,
            target_minutes,
            work: seq![Interval::spec_open_at(now)],
            breaks: Seq::empty(),
            state: DayState::Working,
            notes: Seq::empty(),
            summaries: Seq::empty(),
        }
    }

    /// Whether a break may start at `t`, and if not, why not: the day must not
    /// have ended, no break may be running, and `t` must not lie before the
    /// start of the running span of work.
    pub open spec fn check_start_break(self, t: Timestamp) -> Result<(), DayError> {
        match self.state {
            DayState::Ended(_) => Err(DayError::AlreadyEnded),
            DayState::OnBreak => Err(DayError::InvalidTransition(TransitionFault::AlreadyOnBreak)),
            DayState::Working => if t.secs < self.open_start().secs {
                Err(DayError::InvalidTransition(TransitionFault::BeforeOpenInterval))
            } else {
                Ok(())
            },
        }
    }

    /// Whether the running break may end at `t`, and if not, why not: the day
    /// must not have ended, a break must be running, and `t` must not lie
    /// before its start.
    pub open spec fn check_end_current_block(self, t: Timestamp) -> Result<(), DayError> {
        match self.state {
            DayState::Ended(_) => Err(DayError::AlreadyEnded),
            DayState::Working => Err(DayError::InvalidTransition(TransitionFault::NotOnBreak)),
            DayState::OnBreak => if t.secs < self.open_start().secs {
                Err(DayError::InvalidTransition(TransitionFault::BeforeOpenInterval))
            } else {
                Ok(())
            },
        }
    }

    /// Whether the day may end at `t`, and if not, why not: it must not have
    /// ended already, and `t` must not lie before the start of the running
    /// span.
    pub open spec fn check_end_day(self, t: Timestamp) -> Result<(), DayError> {
        match self.state {
            DayState::Ended(_) => Err(DayError::AlreadyEnded),
            _ => if t.secs < self.open_start().secs {
                Err(DayError::InvalidTransition(TransitionFault::BeforeOpenInterval))
            } else {
                Ok(())
            },
        }
    }

    /// The record after the running span of work is closed at `t` and a break
    /// is opened at `t`.
    pub open spec fn start_break(self, t: Timestamp) -> DayView {
        DayView {
            work: self.work.update(self.work.len() - 1, self.work.last().spec_closed_at(t)),
            breaks: self.breaks.push(Interval::spec_open_at(t)),
            state: DayState::OnBreak,
            ..self
        }
    }

    /// The record after the running break is closed at `t` and a span of work
    /// is opened at `t`.
    pub open spec fn end_current_block(self, t: Timestamp) -> DayView {
        DayView {
            breaks: self.breaks.update(
                self.breaks.len() - 1,
                self.breaks.last().spec_closed_at(t),
            ),
            work: self.work.push(Interval::spec_open_at(t)),
            state: DayState::Working,
            ..self
        }
    }

    /// The record after the running span is closed at `t` and the day is
    /// closed at `t`.
    pub open spec fn end_day(self, t: Timestamp) -> DayView {
        match self.state {
            DayState::OnBreak => DayView {
                breaks: self.breaks.update(
                    self.breaks.len() - 1,
                    self.breaks.last().spec_closed_at(t),
                ),
                state: DayState::Ended(t),
                ..self
            },
            _ => DayView {
                work: self.work.update(self.work.len() - 1, self.work.last().spec_closed_at(t)),
                state: DayState::Ended(t),
                ..self
            },
        }
    }

    /// The record with one more note at the end.
    pub open spec fn add_note(self, t: Timestamp, message: Seq<char>) -> DayView {
        DayView { notes: self.notes.push(NoteView { timestamp: t, message }), ..self }
    }

    /// The record with one more summary entry at the end.
    pub open spec fn add_summary(self, entry: SummaryEntryView) -> DayView {
        DayView { summaries: self.summaries.push(entry), ..self }
    }

    /// Seconds of work in the closed spans of work.
    pub open spec fn work_seconds(self) -> int {
        total_seconds(self.work)
    }

    /// Seconds of break in the closed breaks.
    pub open spec fn break_seconds(self) -> int {
        total_seconds(self.breaks)
    }

    /// Seconds from punching in to the end of the day; zero while it is open.
    pub open spec fn elapsed_seconds(self) -> int {
        match self.state {
            DayState::Ended(t) => t.secs - self.day_start().secs,
            _ => 0,
        }
    }

    /// Whole minutes of work: the seconds are added up first and the part of
    /// the sum that does not fill a minute is dropped.
    pub open spec fn total_work_minutes(self) -> int {
        self.work_seconds() / 60
    }

    /// Whole minutes of break, rounded as the minutes of work are.
    pub open spec fn total_break_minutes(self) -> int {
        self.break_seconds() / 60
    }

    /// Whole minutes from punching in to the end of the day.
    pub open spec fn elapsed_minutes(self) -> int {
        self.elapsed_seconds() / 60
    }

    /// Minutes done: the minutes of work. Breaks do not count.
    pub open spec fn time_done_minutes(self) -> int {
        self.total_work_minutes()
    }

    /// Minutes still to do to reach the day's target; negative for overtime.
    pub open spec fn time_left_minutes(self) -> int {
        self.target_minutes - self.time_done_minutes()
    }
}

} // verus!
