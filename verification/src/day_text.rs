//! A day's record as text: one `key: value` line for each value, lists with
//! their length in front. What is written for a record, and what record a
//! text stands for.

use vstd::prelude::*;
use vstd::string::*;
use crate::day_model::{DayView, NoteView, SummaryEntryView};
use crate::decimal::{parse_i64, parse_u64, render_int, render_nat};
use crate::escape::{escaped, unescaped};
use crate::field::{field_line, field_value};
use crate::interval::Interval;
use crate::lines::{join_lines, split_lines};
use crate::time::{Date, Timestamp};
use crate::time_text::{
    parse_opt_timestamp,
    parse_timestamp,
    render_opt_timestamp,
    render_timestamp,
};

verus! {

/// The two lines that hold a span: its start and its end.
pub open spec fn span_lines(span: Interval) -> Seq<Seq<char>> {
    seq![
        field_line("start"@, render_timestamp(span.start)),
        field_line("end"@, render_opt_timestamp(span.end)),
    ]
}

/// The lines that hold `spans`, one after the other.
pub open spec fn spans_lines(spans: Seq<Interval>) -> Seq<Seq<char>>
    decreases spans.len(),
{
    if spans.len() == 0 {
        Seq::empty()
    } else {
        span_lines(spans[0]) + spans_lines(spans.drop_first())
    }
}

/// The span that the two lines from place `pos` on hold.
pub open spec fn parse_span(lines: Seq<Seq<char>>, pos: int) -> Option<Interval> {
    if 0 <= pos && pos + 2 <= lines.len() {
        match (field_value("start"@, lines[pos]), field_value("end"@, lines[pos + 1])) {
            (Some(start), Some(end)) => match (parse_timestamp(start), parse_opt_timestamp(end)) {
                (Some(start), Some(end)) => Some(Interval { start, end }),
                _ => None,
            },
            _ => None,
        }
    } else {
        None
    }
}

/// `first` in front of `rest`, where there are both.
pub open spec fn cons<T>(first: Option<T>, rest: Option<Seq<T>>) -> Option<Seq<T>> {
    match (first, rest) {
        (Some(head), Some(tail)) => Some(seq![head] + tail),
        _ => None,
    }
}

/// The `count` spans that the lines from place `pos` on hold.
pub open spec fn parse_spans(lines: Seq<Seq<char>>, pos: int, count: nat) -> Option<Seq<Interval>>
    decreases count,
{
    if count == 0 {
        Some(Seq::empty())
    } else {
        cons(parse_span(lines, pos), parse_spans(lines, pos + 2, (count - 1) as nat))
    }
}

/// The two lines that hold a note: its time and its message.
pub open spec fn note_lines(note: NoteView) -> Seq<Seq<char>> {
    seq![
        field_line("at"@, render_timestamp(note.timestamp)),
        field_line("text"@, escaped(note.message)),
    ]
}

/// The lines that hold `notes`, one after the other.
pub open spec fn notes_lines(notes: Seq<NoteView>) -> Seq<Seq<char>>
    decreases notes.len(),
{
    if notes.len() == 0 {
        Seq::empty()
    } else {
        note_lines(notes[0]) + notes_lines(notes.drop_first())
    }
}

/// The note that the two lines from place `pos` on hold.
pub open spec fn parse_note(lines: Seq<Seq<char>>, pos: int) -> Option<NoteView> {
    if 0 <= pos && pos + 2 <= lines.len() {
        match (field_value("at"@, lines[pos]), field_value("text"@, lines[pos + 1])) {
            (Some(at), Some(text)) => match (parse_timestamp(at), unescaped(text)) {
                (Some(timestamp), Some(message)) => Some(NoteView { timestamp, message }),
                _ => None,
            },
            _ => None,
        }
    } else {
        None
    }
}

/// The `count` notes that the lines from place `pos` on hold.
pub open spec fn parse_notes(lines: Seq<Seq<char>>, pos: int, count: nat) -> Option<Seq<NoteView>>
    decreases count,
{
    if count == 0 {
        Some(Seq::empty())
    } else {
        cons(parse_note(lines, pos), parse_notes(lines, pos + 2, (count - 1) as nat))
    }
}

/// The four lines that hold a summary entry.
pub open spec fn summary_lines(entry: SummaryEntryView) -> Seq<Seq<char>> {
    seq![
        field_line("category"@, escaped(entry.category)),
        field_line("project"@, escaped(entry.project)),
        field_line("task"@, escaped(entry.task)),
        field_line("description"@, escaped(entry.description)),
    ]
}

/// The lines that hold `entries`, one after the other.
pub open spec fn summaries_lines(entries: Seq<SummaryEntryView>) -> Seq<Seq<char>>
    decreases entries.len(),
{
    if entries.len() == 0 {
        Seq::empty()
    } else {
        summary_lines(entries[0]) + summaries_lines(entries.drop_first())
    }
}

/// The text that `line` gives under `key`.
pub open spec fn text_field(key: Seq<char>, line: Seq<char>) -> Option<Seq<char>> {
    match field_value(key, line) {
        Some(value) => unescaped(value),
        None => None,
    }
}

/// The summary entry that the four lines from place `pos` on hold.
pub open spec fn parse_summary(lines: Seq<Seq<char>>, pos: int) -> Option<SummaryEntryView> {
    if 0 <= pos && pos + 4 <= lines.len() {
        match (
            text_field("category"@, lines[pos]),
            text_field("project"@, lines[pos + 1]),
            text_field("task"@, lines[pos + 2]),
            text_field("description"@, lines[pos + 3]),
        ) {
            (Some(category), Some(project), Some(task), Some(description)) => Some(
                SummaryEntryView { category, project, task, description },
            ),
            _ => None,
        }
    } else {
        None
    }
}

/// The `count` summary entries that the lines from place `pos` on hold.
pub open spec fn parse_summaries(lines: Seq<Seq<char>>, pos: int, count: nat) -> Option<
    Seq<SummaryEntryView>,
>
    decreases count,
{
    if count == 0 {
        Some(Seq::empty())
    } else {
        cons(parse_summary(lines, pos), parse_summaries(lines, pos + 4, (count - 1) as nat))
    }
}

/// The number that the line at place `pos` gives under `key`.
pub open spec fn count_field(key: Seq<char>, lines: Seq<Seq<char>>, pos: int) -> Option<u64> {
    if 0 <= pos < lines.len() {
        match field_value(key, lines[pos]) {
            Some(value) => parse_u64(value),
            None => None,
        }
    } else {
        None
    }
}

/// The four lines that a record starts with: its date, the task it was
/// started with, its target, and the time at which it ended, if it has.
pub open spec fn head_lines(d: DayView) -> Seq<Seq<char>> {
    seq![
        field_line("date"@, render_int(d.date.days as int)),
        field_line("task"@, escaped(d.start_task)),
        field_line("target"@, render_nat(d.target_minutes as nat)),
        field_line("ended"@, render_opt_timestamp(d.end_time())),
    ]
}

/// The line that gives the length of a list.
pub open spec fn count_line(key: Seq<char>, count: nat) -> Seq<Seq<char>> {
    seq![field_line(key, render_nat(count))]
}

/// The lines that hold the record `d`.
pub open spec fn day_lines(d: DayView) -> Seq<Seq<char>> {
    head_lines(d) + count_line("work"@, d.work.len()) + spans_lines(d.work) + count_line(
        "breaks"@,
        d.breaks.len(),
    ) + spans_lines(d.breaks) + count_line("notes"@, d.notes.len()) + notes_lines(d.notes)
        + count_line("summaries"@, d.summaries.len()) + summaries_lines(d.summaries)
}

/// The record `d` as text.
pub open spec fn render_day(d: DayView) -> Seq<char> {
    join_lines(day_lines(d))
}

/// What the four lines that a record starts with give: the date, the task,
/// the target and the end time.
pub open spec fn parse_head(lines: Seq<Seq<char>>) -> Option<(i64, Seq<char>, u64, Option<Timestamp>)> {
    if lines.len() < 4 {
        None
    } else {
        match (
            field_value("date"@, lines[0]),
            text_field("task"@, lines[1]),
            field_value("target"@, lines[2]),
            field_value("ended"@, lines[3]),
        ) {
            (Some(date), Some(task), Some(target), Some(ended)) => match (
                parse_i64(date),
                parse_u64(target),
                parse_opt_timestamp(ended),
            ) {
                (Some(days), Some(minutes), Some(end_time)) => Some(
                    (days, task, minutes, end_time),
                ),
                _ => None,
            },
            _ => None,
        }
    }
}

/// The spans that the lines from place `pos` on hold, with their number in
/// front under `key`, and the place after them.
pub open spec fn spans_section(key: Seq<char>, lines: Seq<Seq<char>>, pos: int) -> Option<
    (Seq<Interval>, int),
> {
    match count_field(key, lines, pos) {
        Some(count) => match parse_spans(lines, pos + 1, count as nat) {
            Some(spans) => Some((spans, pos + 1 + 2 * count)),
            None => None,
        },
        None => None,
    }
}

/// The notes that the lines from place `pos` on hold, with their number in
/// front, and the place after them.
pub open spec fn notes_section(lines: Seq<Seq<char>>, pos: int) -> Option<(Seq<NoteView>, int)> {
    match count_field("notes"@, lines, pos) {
        Some(count) => match parse_notes(lines, pos + 1, count as nat) {
            Some(notes) => Some((notes, pos + 1 + 2 * count)),
            None => None,
        },
        None => None,
    }
}

/// The summary entries that the lines from place `pos` on hold, with their
/// number in front, and the place after them.
pub open spec fn summaries_section(lines: Seq<Seq<char>>, pos: int) -> Option<
    (Seq<SummaryEntryView>, int),
> {
    match count_field("summaries"@, lines, pos) {
        Some(count) => match parse_summaries(lines, pos + 1, count as nat) {
            Some(entries) => Some((entries, pos + 1 + 4 * count)),
            None => None,
        },
        None => None,
    }
}

/// The four lists that the lines from the fifth on hold: the spans of work,
/// the breaks, the notes and the summary entries, each with its length in
/// front, and nothing after them.
pub open spec fn parse_lists(lines: Seq<Seq<char>>) -> Option<
    (Seq<Interval>, Seq<Interval>, Seq<NoteView>, Seq<SummaryEntryView>),
> {
    match spans_section("work"@, lines, 4) {
        Some((work, at_breaks)) => match spans_section("breaks"@, lines, at_breaks) {
            Some((breaks, at_notes)) => match notes_section(lines, at_notes) {
                Some((notes, at_summaries)) => match summaries_section(lines, at_summaries) {
                    Some((summaries, end)) => if end == lines.len() {
                        Some((work, breaks, notes, summaries))
                    } else {
                        None
                    },
                    None => None,
                },
                None => None,
            },
            None => None,
        },
        None => None,
    }
}

/// The record that `lines` hold: the four lines of the head, then the four
/// lists. The state is not written: it is the one the fields imply.
pub open spec fn parse_day_lines(lines: Seq<Seq<char>>) -> Option<DayView> {
    match (parse_head(lines), parse_lists(lines)) {
        (Some(head), Some(lists)) => Some(
            DayView::from_parts(
                Date { days: head.0 },
                head.1,
                head.2 as int,
                lists.0,
                lists.1,
                head.3,
                lists.2,
                lists.3,
            ),
        ),
        _ => None,
    }
}

/// The record that `text` holds.
pub open spec fn parse_day(text: Seq<char>) -> Option<DayView> {
    parse_day_lines(split_lines(text))
}

/// The record `d` can be written and read back: its target and the lengths of
/// its lists fit 64 bits, and its state is the one its fields imply.
pub open spec fn storable(d: DayView) -> bool {
    &&& 0 <= d.target_minutes <= u64::MAX
    &&& d.work.len() <= u64::MAX
    &&& d.breaks.len() <= u64::MAX
    &&& d.notes.len() <= u64::MAX
    &&& d.summaries.len() <= u64::MAX
    &&& d.state == DayView::inferred_state(d.work, d.breaks, d.end_time())
}

/// The point in time that `line` gives under `key`.
pub open spec fn time_field(key: Seq<char>, line: Seq<char>) -> Option<Timestamp> {
    match field_value(key, line) {
        Some(value) => parse_timestamp(value),
        None => None,
    }
}

/// The point in time, or none, that `line` gives under `key`.
pub open spec fn opt_time_field(key: Seq<char>, line: Seq<char>) -> Option<Option<Timestamp>> {
    match field_value(key, line) {
        Some(value) => parse_opt_timestamp(value),
        None => None,
    }
}

} // verus!
