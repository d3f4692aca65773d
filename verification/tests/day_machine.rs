use punch::day::Day;
use punch::day_model::DayState;
use punch::error::{DayError, TransitionFault};
use punch::interval::Interval;
use punch::time::{Date, Timestamp};

fn at(hour: i64, minute: i64) -> Timestamp {
    Timestamp::new(hour * 3600 + minute * 60)
}

fn closed(start: Timestamp, end: Timestamp) -> Interval {
    Interval { start, end: Some(end) }
}

fn running(start: Timestamp) -> Interval {
    Interval { start, end: None }
}

fn overlap(a: &Interval, b: &Interval) -> bool {
    let a_end = a.end.map(|t| t.secs).unwrap_or(i64::MAX);
    let b_end = b.end.map(|t| t.secs).unwrap_or(i64::MAX);
    a.start.secs < a_end && b.start.secs < b_end && a.start.secs < b_end && b.start.secs < a_end
}

fn no_work_overlaps_a_break(day: &Day) -> bool {
    day.work_intervals()
        .iter()
        .all(|w| day.break_intervals().iter().all(|b| !overlap(w, b)))
}

#[test]
fn new_day_is_working_with_one_open_span() {
    let day = Day::new(&at(9, 0), "write".to_string(), 480);
    assert_eq!(day.state(), DayState::Working);
    assert!(!day.has_ended());
    assert_eq!(day.work_intervals(), &vec![running(at(9, 0))]);
    assert!(day.break_intervals().is_empty());
    assert_eq!(day.end_time(), None);
    assert_eq!(day.day_start(), at(9, 0));
    assert_eq!(day.target_minutes(), 480);
    assert_eq!(day.start_task(), "write");
    assert_eq!(day.date(), Date { days: 0 });
    assert!(day.notes().is_empty());
    assert!(day.summary_entries().is_empty());
}

#[test]
fn start_break_closes_work_and_opens_break() {
    let mut day = Day::new(&at(9, 0), "write".to_string(), 480);
    assert_eq!(day.start_break_at(&at(12, 0)), Ok(()));
    assert_eq!(day.state(), DayState::OnBreak);
    assert_eq!(day.work_intervals(), &vec![closed(at(9, 0), at(12, 0))]);
    assert_eq!(day.break_intervals(), &vec![running(at(12, 0))]);
}

#[test]
fn end_current_block_closes_break_and_opens_work() {
    let mut day = Day::new(&at(9, 0), "write".to_string(), 480);
    day.start_break_at(&at(12, 0)).unwrap();
    assert_eq!(day.end_current_block_at(&at(12, 30)), Ok(()));
    assert_eq!(day.state(), DayState::Working);
    assert_eq!(
        day.work_intervals(),
        &vec![closed(at(9, 0), at(12, 0)), running(at(12, 30))]
    );
    assert_eq!(day.break_intervals(), &vec![closed(at(12, 0), at(12, 30))]);
}

#[test]
fn end_day_while_working_closes_the_work_span() {
    let mut day = Day::new(&at(9, 0), "write".to_string(), 480);
    assert_eq!(day.end_day_at(&at(17, 0)), Ok(()));
    assert_eq!(day.state(), DayState::Ended(at(17, 0)));
    assert!(day.has_ended());
    assert_eq!(day.end_time(), Some(at(17, 0)));
    assert_eq!(day.work_intervals(), &vec![closed(at(9, 0), at(17, 0))]);
}

#[test]
fn end_day_while_on_break_closes_the_break() {
    let mut day = Day::new(&at(9, 0), "write".to_string(), 480);
    day.start_break_at(&at(12, 0)).unwrap();
    assert_eq!(day.end_day_at(&at(13, 0)), Ok(()));
    assert_eq!(day.end_time(), Some(at(13, 0)));
    assert_eq!(day.work_intervals(), &vec![closed(at(9, 0), at(12, 0))]);
    assert_eq!(day.break_intervals(), &vec![closed(at(12, 0), at(13, 0))]);
}

#[test]
fn end_current_block_while_working_is_an_invalid_transition() {
    let mut day = Day::new(&at(9, 0), "write".to_string(), 480);
    let before = day.clone();
    assert_eq!(
        day.end_current_block_at(&at(10, 0)),
        Err(DayError::InvalidTransition(TransitionFault::NotOnBreak))
    );
    assert_eq!(day, before);
}

#[test]
fn start_break_while_on_break_is_an_invalid_transition() {
    let mut day = Day::new(&at(9, 0), "write".to_string(), 480);
    day.start_break_at(&at(10, 0)).unwrap();
    let before = day.clone();
    assert_eq!(
        day.start_break_at(&at(11, 0)),
        Err(DayError::InvalidTransition(TransitionFault::AlreadyOnBreak))
    );
    assert_eq!(day, before);
}

#[test]
fn every_transition_on_an_ended_day_is_refused_as_already_ended() {
    let mut day = Day::new(&at(9, 0), "write".to_string(), 480);
    day.end_day_at(&at(17, 0)).unwrap();
    let before = day.clone();
    assert_eq!(day.start_break_at(&at(18, 0)), Err(DayError::AlreadyEnded));
    assert_eq!(day.end_current_block_at(&at(18, 0)), Err(DayError::AlreadyEnded));
    assert_eq!(day.end_day_at(&at(18, 0)), Err(DayError::AlreadyEnded));
    assert_eq!(day, before);
    assert_eq!(day.end_time(), Some(at(17, 0)));
}

#[test]
fn day_ended_on_break_refuses_transitions_too() {
    let mut day = Day::new(&at(9, 0), "write".to_string(), 480);
    day.start_break_at(&at(12, 0)).unwrap();
    day.end_day_at(&at(12, 15)).unwrap();
    assert_eq!(day.start_break_at(&at(13, 0)), Err(DayError::AlreadyEnded));
    assert_eq!(day.end_current_block_at(&at(13, 0)), Err(DayError::AlreadyEnded));
    assert_eq!(day.end_day_at(&at(13, 0)), Err(DayError::AlreadyEnded));
}

#[test]
fn notes_and_summaries_are_accepted_in_every_state() {
    let mut day = Day::new(&at(9, 0), "write".to_string(), 480);
    day.add_note(&at(9, 5), &"first".to_string());
    day.start_break_at(&at(10, 0)).unwrap();
    day.add_note(&at(10, 5), &"second".to_string());
    day.add_summary("dev".to_string(), "punch".to_string(), "tests".to_string(), "wrote some".to_string());
    day.end_day_at(&at(11, 0)).unwrap();
    day.add_note(&at(12, 0), &"third".to_string());
    day.add_summary("ops".to_string(), "punch".to_string(), "release".to_string(), "shipped".to_string());
    let notes = day.notes();
    assert_eq!(notes.len(), 3);
    assert_eq!(notes[0].timestamp, at(9, 5));
    assert_eq!(notes[0].message, "first");
    assert_eq!(notes[1].message, "second");
    assert_eq!(notes[2].timestamp, at(12, 0));
    assert_eq!(notes[2].message, "third");
    let entries = day.summary_entries();
    assert_eq!(entries.len(), 2);
    assert_eq!(entries[0].category, "dev");
    assert_eq!(entries[0].project, "punch");
    assert_eq!(entries[0].task, "tests");
    assert_eq!(entries[0].description, "wrote some");
    assert_eq!(entries[1].category, "ops");
    assert_eq!(day.end_time(), Some(at(11, 0)));
}

#[test]
fn a_time_before_the_running_span_is_refused() {
    let mut day = Day::new(&at(9, 0), "write".to_string(), 480);
    let fault = Err(DayError::InvalidTransition(TransitionFault::BeforeOpenInterval));
    assert_eq!(day.start_break_at(&at(8, 59)), fault);
    assert_eq!(day.end_day_at(&at(8, 59)), fault);
    day.start_break_at(&at(10, 0)).unwrap();
    assert_eq!(day.end_current_block_at(&at(9, 59)), fault);
    assert_eq!(day.end_day_at(&at(9, 59)), fault);
    assert_eq!(day.state(), DayState::OnBreak);
}

#[test]
fn a_span_may_end_at_the_moment_it_starts() {
    let mut day = Day::new(&at(9, 0), "write".to_string(), 480);
    assert_eq!(day.start_break_at(&at(9, 0)), Ok(()));
    assert_eq!(day.end_current_block_at(&at(9, 0)), Ok(()));
    assert_eq!(day.end_day_at(&at(9, 0)), Ok(()));
    assert_eq!(day.get_total_work_time(), Ok(0));
    assert_eq!(day.get_total_break_time(), Ok(0));
    assert!(no_work_overlaps_a_break(&day));
}

#[test]
fn work_and_breaks_never_overlap_after_any_transition() {
    let mut day = Day::new(&at(9, 0), "write".to_string(), 480);
    assert!(no_work_overlaps_a_break(&day));
    let mut minute = 0;
    for round in 0..6 {
        minute += 7 + round;
        day.start_break_at(&at(9, minute)).unwrap();
        assert!(no_work_overlaps_a_break(&day));
        minute += 3;
        day.end_current_block_at(&at(9, minute)).unwrap();
        assert!(no_work_overlaps_a_break(&day));
    }
    day.end_day_at(&at(17, 0)).unwrap();
    assert!(no_work_overlaps_a_break(&day));
    assert_eq!(day.work_intervals().len(), 7);
    assert_eq!(day.break_intervals().len(), 6);
}

#[test]
fn from_parts_accepts_what_the_transitions_produce() {
    let mut day = Day::new(&at(9, 0), "write".to_string(), 480);
    day.add_note(&at(9, 1), &"hello".to_string());
    day.start_break_at(&at(12, 0)).unwrap();
    let on_break = Day::from_parts(
        day.date(),
        day.start_task().clone(),
        day.target_minutes(),
        day.work_intervals().clone(),
        day.break_intervals().clone(),
        day.end_time(),
        day.notes().clone(),
        day.summary_entries().clone(),
    );
    assert_eq!(on_break, Some(day.clone()));
    day.end_current_block_at(&at(12, 30)).unwrap();
    let working = Day::from_parts(
        day.date(),
        day.start_task().clone(),
        day.target_minutes(),
        day.work_intervals().clone(),
        day.break_intervals().clone(),
        day.end_time(),
        day.notes().clone(),
        day.summary_entries().clone(),
    );
    assert_eq!(working.as_ref().map(|d| d.state()), Some(DayState::Working));
    assert_eq!(working, Some(day.clone()));
    day.end_day_at(&at(17, 0)).unwrap();
    let ended = Day::from_parts(
        day.date(),
        day.start_task().clone(),
        day.target_minutes(),
        day.work_intervals().clone(),
        day.break_intervals().clone(),
        day.end_time(),
        day.notes().clone(),
        day.summary_entries().clone(),
    );
    assert_eq!(ended, Some(day));
}

fn parts(work: Vec<Interval>, breaks: Vec<Interval>, end: Option<Timestamp>) -> Option<Day> {
    Day::from_parts(Date { days: 3 }, "t".to_string(), 480, work, breaks, end, vec![], vec![])
}

#[test]
fn from_parts_tolerates_gaps_between_spans() {
    let day = parts(
        vec![closed(at(9, 0), at(10, 0)), closed(at(11, 0), at(12, 0))],
        vec![closed(at(10, 15), at(10, 45))],
        Some(at(13, 0)),
    )
    .unwrap();
    assert_eq!(day.state(), DayState::Ended(at(13, 0)));
    assert_eq!(day.get_total_work_time(), Ok(120));
    assert_eq!(day.get_total_break_time(), Ok(30));
    assert_eq!(day.date(), Date { days: 3 });
}

#[test]
fn from_parts_rejects_inconsistent_records() {
    // no span of work at all
    assert_eq!(parts(vec![], vec![], None), None);
    // more breaks than spans of work
    assert_eq!(
        parts(vec![closed(at(9, 0), at(10, 0))], vec![closed(at(10, 0), at(11, 0)), running(at(12, 0))], None),
        None
    );
    // two spans of work with no break between them
    assert_eq!(
        parts(vec![closed(at(9, 0), at(10, 0)), closed(at(10, 0), at(11, 0)), running(at(12, 0))], vec![closed(at(11, 0), at(12, 0))], None),
        None
    );
    // a span that ends before it starts
    assert_eq!(parts(vec![closed(at(10, 0), at(9, 0))], vec![], Some(at(11, 0))), None);
    // a break that starts before the work before it is over
    assert_eq!(
        parts(vec![closed(at(9, 0), at(10, 0))], vec![closed(at(9, 30), at(11, 0))], Some(at(11, 0))),
        None
    );
    // work that starts before the break before it is over
    assert_eq!(
        parts(vec![closed(at(9, 0), at(10, 0)), running(at(10, 30))], vec![closed(at(10, 0), at(11, 0))], None),
        None
    );
    // an open span in the middle
    assert_eq!(
        parts(vec![running(at(9, 0)), running(at(10, 30))], vec![closed(at(10, 0), at(10, 30))], None),
        None
    );
    // an open day whose last span is closed
    assert_eq!(parts(vec![closed(at(9, 0), at(10, 0))], vec![], None), None);
    // an ended day whose last span is open
    assert_eq!(parts(vec![running(at(9, 0))], vec![], Some(at(10, 0))), None);
    // an ended day that ends before its last span does
    assert_eq!(parts(vec![closed(at(9, 0), at(10, 0))], vec![], Some(at(9, 59))), None);
    // a target that does not fit
    assert_eq!(
        Day::from_parts(Date { days: 0 }, "t".to_string(), u64::MAX, vec![running(at(9, 0))], vec![], None, vec![], vec![]),
        None
    );
}

#[test]
fn from_parts_infers_the_state() {
    assert_eq!(parts(vec![running(at(9, 0))], vec![], None).unwrap().state(), DayState::Working);
    assert_eq!(
        parts(vec![closed(at(9, 0), at(10, 0))], vec![running(at(10, 0))], None).unwrap().state(),
        DayState::OnBreak
    );
    assert_eq!(
        parts(vec![closed(at(9, 0), at(10, 0))], vec![], Some(at(10, 0))).unwrap().state(),
        DayState::Ended(at(10, 0))
    );
}

#[test]
fn error_messages() {
    assert_eq!(DayError::AlreadyEnded.message(), "day already ended");
    assert_eq!(DayError::DayNotEnded.message(), "day not ended yet");
    assert_eq!(
        DayError::InvalidTransition(TransitionFault::AlreadyOnBreak).message(),
        "already on break"
    );
    assert_eq!(
        DayError::InvalidTransition(TransitionFault::NotOnBreak).message(),
        "not currently on break"
    );
    assert_eq!(
        DayError::InvalidTransition(TransitionFault::BeforeOpenInterval).message(),
        "time given is before the start of the current block"
    );
}
