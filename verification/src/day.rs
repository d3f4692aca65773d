//! A day's record: the executable state machine and the figures derived from
//! it once the day has ended.

use vstd::prelude::*;
use vstd::string::*;
use crate::day_laws::{
    lemma_end_current_block_wf,
    lemma_end_day_wf,
    lemma_ended_chronological,
    lemma_start_break_wf,
    lemma_wf_ignores_remarks,
    lemma_work_and_breaks_disjoint,
};
use crate::day_model::{DayState, DayView, NoteView, SummaryEntryView};
use crate::error::{DayError, TransitionFault};
use crate::interval::{Interval, sum_seconds};
use crate::time::{Date, Timestamp};

verus! {

/// A free-form remark with the time at which it was made.
#[derive(Clone, Debug, PartialEq, Eq)]
pub struct Note {
    pub timestamp: Timestamp,
    pub message: String,
}

impl View for Note {
    type V = NoteView;

    open spec fn view(&self) -> NoteView {
        NoteView { timestamp: self.timestamp, message: self.message@ }
    }
}

/// One line of the day's summary: what was worked on, filed under a category,
/// a project and a task.
#[derive(Clone, Debug, PartialEq, Eq)]
pub struct SummaryEntry {
    pub category: String,
    pub project: String,
    pub task: String,
    pub description: String,
}

impl View for SummaryEntry {
    type V = SummaryEntryView;

    open spec fn view(&self) -> SummaryEntryView {
        SummaryEntryView {
            category: self.category@,
            project: self.project@,
            task: self.task@,
            description: self.description@,
        }
    }
}

/// The notes held in `notes`, as plain values.
pub open spec fn note_views(notes: Seq<Note>) -> Seq<NoteView> {
    notes.map_values(|n: Note| n@)
}

/// The summary entries held in `entries`, as plain values.
pub open spec fn summary_views(entries: Seq<SummaryEntry>) -> Seq<SummaryEntryView> {
    entries.map_values(|e: SummaryEntry| e@)
}

/// The record of one calendar day. It changes only through the operations
/// below, each of which keeps it consistent.
#[derive(Clone, Debug, PartialEq, Eq)]
pub struct Day {
    date: Date,
    start_task: String,
    target_minutes: u64,
    work_intervals: Vec<Interval>,
    break_intervals: Vec<Interval>,
    state: DayState,
    notes: Vec<Note>,
    summary_entries: Vec<SummaryEntry>,
}

impl View for Day {
    type V = DayView;

    closed spec fn view(&self) -> DayView {
        DayView {
            date: self.date,
            start_task: self.start_task@,
            target_minutes: self.target_minutes as int,
            work: self.work_intervals@,
            breaks: self.break_intervals@,
            state: self.state,
            notes: note_views(self.notes@),
            summaries: summary_views(self.summary_entries@),
        }
    }
}

impl Day {
    /// The record is consistent.
    pub open spec fn wf(&self) -> bool {
        self@.wf()
    }

    /// Punches in: the record of a day that starts at `now`, working on
    /// `task`, with `target_minutes` of work to do.
    pub fn new(now: &Timestamp, task: String, target_minutes: u64) -> (day: Day)
        requires
            target_minutes <= i64::MAX,
        ensures
            day@ == DayView::started(*now, task@, target_minutes as int),
            day.wf(),
            day@.gapless(),
            day@.work_and_breaks_disjoint(),
    {
        let mut work_intervals: Vec<Interval> = Vec::new();
        work_intervals.push(Interval::open_at(*now));
        let day = Day {
            date: now.date(),
            start_task: task,
            target_minutes,
            work_intervals,
            break_intervals: Vec::new(),
            state: DayState::Working,
            notes: Vec::new(),
            summary_entries: Vec::new(),
        };
        assert(day@ =~= DayView::started(*now, task@, target_minutes as int));
        proof {
            lemma_work_and_breaks_disjoint(day@);
        }
        day
    }

    /// Builds a record from stored fields, if they describe a consistent one.
    /// The state is not stored: a record with an end time has ended, one
    /// without is working or on break according to which span was opened
    /// last.
    pub fn from_parts(
        date: Date,
        start_task: String,
        target_minutes: u64,
        work_intervals: Vec<Interval>,
        break_intervals: Vec<Interval>,
        end_time: Option<Timestamp>,
        notes: Vec<Note>,
        summary_entries: Vec<SummaryEntry>,
    ) -> (r: Option<Day>)
        ensures
            match r {
                Some(day) => day.wf() && day@ == DayView::from_parts(
                    date,
                    start_task@,
                    target_minutes as int,
                    work_intervals@,
                    break_intervals@,
                    end_time,
                    note_views(notes@),
                    summary_views(summary_entries@),
                ),
                None => !DayView::from_parts(
                    date,
                    start_task@,
                    target_minutes as int,
                    work_intervals@,
                    break_intervals@,
                    end_time,
                    note_views(notes@),
                    summary_views(summary_entries@),
                ).wf(),
            },
    {
        let ghost d = DayView::from_parts(
            date,
            start_task@,
            target_minutes as int,
            work_intervals@,
            break_intervals@,
            end_time,
            note_views(notes@),
            summary_views(summary_entries@),
        );
        let w: usize = work_intervals.len();
        let b: usize = break_intervals.len();
        if w == 0 || b > w || w - b > 1 || target_minutes > i64::MAX as u64 {
            return None;
        }
        let mut i: usize = 0;
        while i < w
            invariant
                i <= w,
                w == work_intervals@.len(),
                b == break_intervals@.len(),
                b <= w <= b + 1,
                d == DayView::from_parts(
                    date,
                    start_task@,
                    target_minutes as int,
                    work_intervals@,
                    break_intervals@,
                    end_time,
                    note_views(notes@),
                    summary_views(summary_entries@),
                ),
                forall|k: int| 0 <= k < i ==> (#[trigger] d.work[k]).ordered(),
                forall|k: int| 0 <= k < i && k < b ==> (#[trigger] d.breaks[k]).ordered(),
                forall|k: int| 0 <= k < i && k < b ==> #[trigger] d.work_before_break(k),
                forall|k: int| 0 <= k < i && k < w - 1 ==> #[trigger] d.break_before_work(k),
            decreases w - i,
        {
            let span: Interval = work_intervals[i];
            if !span.is_ordered() {
                assert(!d.work[i as int].ordered());
                return None;
            }
            if i < b {
                let pause: Interval = break_intervals[i];
                if !pause.is_ordered() {
                    assert(!d.breaks[i as int].ordered());
                    return None;
                }
                if !span.has_ended_by(&pause.start) {
                    assert(!d.work_before_break(i as int));
                    return None;
                }
                if i + 1 < w {
                    let next: Interval = work_intervals[i + 1];
                    if !pause.has_ended_by(&next.start) {
                        assert(!d.break_before_work(i as int));
                        return None;
                    }
                }
            }
            i += 1;
        }
        let last: Interval = if w > b {
            work_intervals[w - 1]
        } else {
            break_intervals[b - 1]
        };
        let state: DayState = match end_time {
            Some(t) => {
                if !last.has_ended_by(&t) {
                    return None;
                }
                DayState::Ended(t)
            },
            None => {
                if !last.is_running() {
                    return None;
                }
                if w > b {
                    DayState::Working
                } else {
                    DayState::OnBreak
                }
            },
        };
        let day = Day {
            date,
            start_task,
            target_minutes,
            work_intervals,
            break_intervals,
            state,
            notes,
            summary_entries,
        };
        assert(day@ =~= d);
        Some(day)
    }

    /// The calendar date that identifies the record.
    pub fn date(&self) -> (d: Date)
        ensures
            d == self@.date,
    {
        self.date
    }

    /// The label of the task the day was started with.
    pub fn start_task(&self) -> (task: &String)
        ensures
            task@ == self@.start_task,
    {
        &self.start_task
    }

    /// The intended length of work for this day, in minutes.
    pub fn target_minutes(&self) -> (minutes: u64)
        ensures
            minutes == self@.target_minutes,
    {
        self.target_minutes
    }

    /// The spans of work, oldest first.
    pub fn work_intervals(&self) -> (spans: &Vec<Interval>)
        ensures
            spans@ == self@.work,
    {
        &self.work_intervals
    }

    /// The breaks, oldest first.
    pub fn break_intervals(&self) -> (spans: &Vec<Interval>)
        ensures
            spans@ == self@.breaks,
    {
        &self.break_intervals
    }

    /// The notes, in the order in which they were added.
    pub fn notes(&self) -> (notes: &Vec<Note>)
        ensures
            note_views(notes@) == self@.notes,
    {
        &self.notes
    }

    /// The summary entries, in the order in which they were added.
    pub fn summary_entries(&self) -> (entries: &Vec<SummaryEntry>)
        ensures
            summary_views(entries@) == self@.summaries,
    {
        &self.summary_entries
    }

    /// The time of punching in.
    pub fn day_start(&self) -> (t: Timestamp)
        requires
            self.wf(),
        ensures
            t == self@.day_start(),
    {
        self.work_intervals[0].start
    }

    /// The time at which the day was closed, if it was.
    pub fn end_time(&self) -> (t: Option<Timestamp>)
        ensures
            t == self@.end_time(),
    {
        match self.state {
            DayState::Ended(t) => Some(t),
            _ => None,
        }
    }

    /// The state the day is in.
    pub fn state(&self) -> (s: DayState)
        ensures
            s == self@.state,
    {
        self.state
    }

    /// Whether the day has been closed.
    pub fn has_ended(&self) -> (b: bool)
        ensures
            b == self@.has_ended(),
    {
        match self.state {
            DayState::Ended(_) => true,
            _ => false,
        }
    }

    /// Starts a break at `now`: closes the running span of work and opens a
    /// break, both at `now`. Refused, with the record left as it is, unless
    /// the day is in the state of working and `now` is not before the start
    /// of the running span.
    pub fn start_break_at(&mut self, now: &Timestamp) -> (r: Result<(), DayError>)
        requires
            old(self).wf(),
        ensures
            final(self).wf(),
            final(self)@.work_and_breaks_disjoint(),
            old(self)@.gapless() ==> final(self)@.gapless(),
            r == old(self)@.check_start_break(*now),
            old(self)@.state is Ended ==> r == Err::<(), DayError>(DayError::AlreadyEnded),
            old(self)@.state is OnBreak ==> r == Err::<(), DayError>(
                DayError::InvalidTransition(TransitionFault::AlreadyOnBreak),
            ),
            r is Ok ==> final(self)@ == old(self)@.start_break(*now),
            r is Err ==> *final(self) == *old(self),
    {
        proof {
            lemma_work_and_breaks_disjoint(self@);
        }
        match self.state {
            DayState::Ended(_) => Err(DayError::AlreadyEnded),
            DayState::OnBreak => Err(DayError::InvalidTransition(TransitionFault::AlreadyOnBreak)),
            DayState::Working => {
                let last: usize = self.work_intervals.len() - 1;
                let running: Interval = self.work_intervals[last];
                if now.secs < running.start.secs {
                    Err(DayError::InvalidTransition(TransitionFault::BeforeOpenInterval))
                } else {
                    proof {
                        lemma_start_break_wf(self@, *now);
                    }
                    self.work_intervals[last] = running.closed_at(*now);
                    self.break_intervals.push(Interval::open_at(*now));
                    self.state = DayState::OnBreak;
                    assert(self@ =~= old(self)@.start_break(*now));
                    proof {
                        lemma_work_and_breaks_disjoint(self@);
                    }
                    Ok(())
                }
            },
        }
    }

    /// Ends the running break at `now` and goes back to work: closes the
    /// break and opens a span of work, both at `now`. Refused, with the record
    /// left as it is, unless a break is running and `now` is not before its
    /// start.
    pub fn end_current_block_at(&mut self, now: &Timestamp) -> (r: Result<(), DayError>)
        requires
            old(self).wf(),
        ensures
            final(self).wf(),
            final(self)@.work_and_breaks_disjoint(),
            old(self)@.gapless() ==> final(self)@.gapless(),
            r == old(self)@.check_end_current_block(*now),
            old(self)@.state is Ended ==> r == Err::<(), DayError>(DayError::AlreadyEnded),
            old(self)@.state is Working ==> r == Err::<(), DayError>(
                DayError::InvalidTransition(TransitionFault::NotOnBreak),
            ),
            r is Ok ==> final(self)@ == old(self)@.end_current_block(*now),
            r is Err ==> *final(self) == *old(self),
    {
        proof {
            lemma_work_and_breaks_disjoint(self@);
        }
        match self.state {
            DayState::Ended(_) => Err(DayError::AlreadyEnded),
            DayState::Working => Err(DayError::InvalidTransition(TransitionFault::NotOnBreak)),
            DayState::OnBreak => {
                let last: usize = self.break_intervals.len() - 1;
                let running: Interval = self.break_intervals[last];
                if now.secs < running.start.secs {
                    Err(DayError::InvalidTransition(TransitionFault::BeforeOpenInterval))
                } else {
                    proof {
                        lemma_end_current_block_wf(self@, *now);
                    }
                    self.break_intervals[last] = running.closed_at(*now);
                    self.work_intervals.push(Interval::open_at(*now));
                    self.state = DayState::Working;
                    assert(self@ =~= old(self)@.end_current_block(*now));
                    proof {
                        lemma_work_and_breaks_disjoint(self@);
                    }
                    Ok(())
                }
            },
        }
    }

    /// Closes the day at `now`: closes the running span, of work or of break,
    /// at `now` and records `now` as the end of the day. Refused, with the
    /// record left as it is, if the day has ended already or `now` is before
    /// the start of the running span.
    pub fn end_day_at(&mut self, now: &Timestamp) -> (r: Result<(), DayError>)
        requires
            old(self).wf(),
        ensures
            final(self).wf(),
            final(self)@.work_and_breaks_disjoint(),
            old(self)@.gapless() ==> final(self)@.gapless(),
            r == old(self)@.check_end_day(*now),
            old(self)@.state is Ended ==> r == Err::<(), DayError>(DayError::AlreadyEnded),
            r is Ok ==> final(self)@ == old(self)@.end_day(*now),
            r is Ok ==> final(self)@.end_time() == Some(*now),
            r is Err ==> *final(self) == *old(self),
    {
        proof {
            lemma_work_and_breaks_disjoint(self@);
        }
        match self.state {
            DayState::Ended(_) => Err(DayError::AlreadyEnded),
            DayState::Working => {
                let last: usize = self.work_intervals.len() - 1;
                let running: Interval = self.work_intervals[last];
                if now.secs < running.start.secs {
                    Err(DayError::InvalidTransition(TransitionFault::BeforeOpenInterval))
                } else {
                    proof {
                        lemma_end_day_wf(self@, *now);
                    }
                    self.work_intervals[last] = running.closed_at(*now);
                    self.state = DayState::Ended(*now);
                    assert(self@ =~= old(self)@.end_day(*now));
                    proof {
                        lemma_work_and_breaks_disjoint(self@);
                    }
                    Ok(())
                }
            },
            DayState::OnBreak => {
                let last: usize = self.break_intervals.len() - 1;
                let running: Interval = self.break_intervals[last];
                if now.secs < running.start.secs {
                    Err(DayError::InvalidTransition(TransitionFault::BeforeOpenInterval))
                } else {
                    proof {
                        lemma_end_day_wf(self@, *now);
                    }
                    self.break_intervals[last] = running.closed_at(*now);
                    self.state = DayState::Ended(*now);
                    assert(self@ =~= old(self)@.end_day(*now));
                    proof {
                        lemma_work_and_breaks_disjoint(self@);
                    }
                    Ok(())
                }
            },
        }
    }

    /// Appends a note made at `now`. Legal in every state.
    pub fn add_note(&mut self, now: &Timestamp, msg: &String)
        ensures
            final(self)@ == old(self)@.add_note(*now, msg@),
            final(self).wf() == old(self).wf(),
            final(self)@.gapless() == old(self)@.gapless(),
    {
        let note = Note { timestamp: *now, message: msg.clone() };
        self.notes.push(note);
        proof {
            lemma_wf_ignores_remarks(old(self)@, self@);
        }
        assert(self@ =~= old(self)@.add_note(*now, msg@)) by {
            assert(note_views(self.notes@) =~= note_views(old(self).notes@).push(note@));
        }
    }

    /// Appends an entry to the day's summary. Legal in every state.
    pub fn add_summary(
        &mut self,
        category: String,
        project: String,
        task: String,
        summary: String,
    )
        ensures
            final(self)@ == old(self)@.add_summary(
                (SummaryEntryView {
                    category: category@,
                    project: project@,
                    task: task@,
                    description: summary@,
                }),
            ),
            final(self).wf() == old(self).wf(),
            final(self)@.gapless() == old(self)@.gapless(),
    {
        let entry = SummaryEntry { category, project, task, description: summary };
        self.summary_entries.push(entry);
        proof {
            lemma_wf_ignores_remarks(old(self)@, self@);
        }
        assert(self@ =~= old(self)@.add_summary(entry@)) by {
            assert(summary_views(self.summary_entries@) =~= summary_views(
                old(self).summary_entries@,
            ).push(entry@));
        }
    }

    /// Minutes of work, once the day has ended.
    pub fn get_total_work_time(&self) -> (r: Result<i64, DayError>)
        requires
            self.wf(),
        ensures
            match r {
                Ok(minutes) => self@.has_ended() && 0 <= minutes == self@.total_work_minutes(),
                Err(e) => !self@.has_ended() && e == DayError::DayNotEnded,
            },
    {
        if !self.has_ended() {
            return Err(DayError::DayNotEnded);
        }
        proof {
            lemma_ended_chronological(self@);
        }
        let seconds: u64 = sum_seconds(&self.work_intervals);
        Ok((seconds / 60) as i64)
    }

    /// Minutes of break, once the day has ended.
    pub fn get_total_break_time(&self) -> (r: Result<i64, DayError>)
        requires
            self.wf(),
        ensures
            match r {
                Ok(minutes) => self@.has_ended() && 0 <= minutes == self@.total_break_minutes(),
                Err(e) => !self@.has_ended() && e == DayError::DayNotEnded,
            },
    {
        if !self.has_ended() {
            return Err(DayError::DayNotEnded);
        }
        proof {
            lemma_ended_chronological(self@);
        }
        let seconds: u64 = sum_seconds(&self.break_intervals);
        Ok((seconds / 60) as i64)
    }

    /// Minutes done, once the day has ended: the minutes of work.
    pub fn get_time_done(&self) -> (r: Result<i64, DayError>)
        requires
            self.wf(),
        ensures
            match r {
                Ok(minutes) => self@.has_ended() && 0 <= minutes == self@.time_done_minutes(),
                Err(e) => !self@.has_ended() && e == DayError::DayNotEnded,
            },
    {
        self.get_total_work_time()
    }

    /// Minutes still to do to reach the target, once the day has ended;
    /// negative for overtime.
    pub fn get_time_left(&self) -> (r: Result<i64, DayError>)
        requires
            self.wf(),
        ensures
            match r {
                Ok(minutes) => self@.has_ended() && minutes == self@.time_left_minutes(),
                Err(e) => !self@.has_ended() && e == DayError::DayNotEnded,
            },
    {
        match self.get_time_done() {
            Ok(done) => Ok(self.target_minutes as i64 - done),
            Err(e) => Err(e),
        }
    }
}

} // verus!
