//! Writing a day's record as text and reading it back.

use vstd::prelude::*;
use vstd::string::*;
use crate::day::{Day, Note, SummaryEntry, note_views, summary_views};
use crate::day_model::{NoteView, SummaryEntryView};
use crate::day_text::{
    count_field,
    day_lines,
    head_lines,
    note_lines,
    notes_lines,
    notes_section,
    opt_time_field,
    parse_day,
    parse_head,
    parse_lists,
    parse_note,
    parse_notes,
    parse_span,
    parse_spans,
    parse_summaries,
    parse_summary,
    render_day,
    span_lines,
    spans_lines,
    spans_section,
    summaries_lines,
    summaries_section,
    summary_lines,
    text_field,
    time_field,
};
use crate::day_text_laws::{
    lemma_parse_notes_fits,
    lemma_parse_spans_fits,
    lemma_parse_summaries_fits,
};
use crate::decimal::{push_int, push_nat, read_i64_in, read_u64_in, render_int, render_nat};
use crate::escape::{escaped, push_escaped, read_unescaped_from};
use crate::field::{field_line, lemma_field_line_parts, push_key, value_start};
use crate::interval::Interval;
use crate::lines::{join, line_views, split, split_lines};
use crate::text::{to_chars, to_text};
use crate::time::{Date, Timestamp};
use crate::time_text::{
    push_opt_timestamp,
    push_timestamp,
    read_opt_timestamp_from,
    read_timestamp_from,
    render_opt_timestamp,
    render_timestamp,
};

verus! {

/// Adds the line that gives `text` under `key`.
fn push_text_line(lines: &mut Vec<Vec<char>>, key: &str, text: &str)
    ensures
        line_views(final(lines)@) == line_views(old(lines)@).push(
            field_line(key@, escaped(text@)),
        ),
{
    let mut line: Vec<char> = Vec::new();
    push_key(&mut line, key);
    push_escaped(&mut line, text);
    proof {
        lemma_field_line_parts(key@, escaped(text@));
    }
    lines.push(line);
    assert(line_views(lines@) =~= line_views(old(lines)@).push(field_line(key@, escaped(text@))));
}

/// Adds the line that gives the number `n` under `key`.
fn push_count_line(lines: &mut Vec<Vec<char>>, key: &str, n: u64)
    ensures
        line_views(final(lines)@) == line_views(old(lines)@).push(
            field_line(key@, render_nat(n as nat)),
        ),
{
    let mut line: Vec<char> = Vec::new();
    push_key(&mut line, key);
    push_nat(&mut line, n);
    proof {
        lemma_field_line_parts(key@, render_nat(n as nat));
    }
    lines.push(line);
    assert(line_views(lines@) =~= line_views(old(lines)@).push(field_line(key@, render_nat(n as nat))));
}

/// Adds the line that gives the time `t` under `key`.
fn push_time_line(lines: &mut Vec<Vec<char>>, key: &str, t: Timestamp)
    ensures
        line_views(final(lines)@) == line_views(old(lines)@).push(
            field_line(key@, render_timestamp(t)),
        ),
{
    let mut line: Vec<char> = Vec::new();
    push_key(&mut line, key);
    push_timestamp(&mut line, t);
    proof {
        lemma_field_line_parts(key@, render_timestamp(t));
    }
    lines.push(line);
    assert(line_views(lines@) =~= line_views(old(lines)@).push(field_line(key@, render_timestamp(t))));
}

/// Adds the line that gives the time `t`, or none, under `key`.
fn push_opt_time_line(lines: &mut Vec<Vec<char>>, key: &str, t: Option<Timestamp>)
    ensures
        line_views(final(lines)@) == line_views(old(lines)@).push(
            field_line(key@, render_opt_timestamp(t)),
        ),
{
    let mut line: Vec<char> = Vec::new();
    push_key(&mut line, key);
    push_opt_timestamp(&mut line, t);
    proof {
        lemma_field_line_parts(key@, render_opt_timestamp(t));
    }
    lines.push(line);
    assert(line_views(lines@) =~= line_views(old(lines)@).push(field_line(key@, render_opt_timestamp(t))));
}

/// Adds the lines that hold `spans`.
fn push_spans(lines: &mut Vec<Vec<char>>, spans: &Vec<Interval>)
    ensures
        line_views(final(lines)@) == line_views(old(lines)@) + spans_lines(spans@),
{
    let mut i: usize = 0;
    assert(spans@.skip(0) =~= spans@);
    while i < spans.len()
        invariant
            i <= spans.len(),
            line_views(lines@) + spans_lines(spans@.skip(i as int)) == line_views(old(lines)@)
                + spans_lines(spans@),
        decreases spans.len() - i,
    {
        let span: Interval = spans[i];
        let ghost before = line_views(lines@);
        push_time_line(lines, "start", span.start);
        push_opt_time_line(lines, "end", span.end);
        proof {
            assert(spans@.skip(i as int).drop_first() =~= spans@.skip(i + 1));
            assert(spans@.skip(i as int)[0] == span);
            assert(line_views(lines@) =~= before + span_lines(span));
            assert(line_views(lines@) + spans_lines(spans@.skip(i + 1)) =~= before + spans_lines(
                spans@.skip(i as int),
            ));
        }
        i += 1;
    }
    assert(line_views(lines@) =~= line_views(old(lines)@) + spans_lines(spans@));
}

/// Adds the lines that hold `notes`.
fn push_notes(lines: &mut Vec<Vec<char>>, notes: &Vec<Note>)
    ensures
        line_views(final(lines)@) == line_views(old(lines)@) + notes_lines(note_views(notes@)),
{
    let ghost all = note_views(notes@);
    let mut i: usize = 0;
    assert(all.skip(0) =~= all);
    while i < notes.len()
        invariant
            i <= notes.len(),
            all == note_views(notes@),
            line_views(lines@) + notes_lines(all.skip(i as int)) == line_views(old(lines)@)
                + notes_lines(all),
        decreases notes.len() - i,
    {
        let note: &Note = &notes[i];
        let ghost before = line_views(lines@);
        push_time_line(lines, "at", note.timestamp);
        push_text_line(lines, "text", note.message.as_str());
        proof {
            assert(all.skip(i as int).drop_first() =~= all.skip(i + 1));
            assert(all.skip(i as int)[0] == note@);
            assert(line_views(lines@) =~= before + note_lines(note@));
            assert(line_views(lines@) + notes_lines(all.skip(i + 1)) =~= before + notes_lines(
                all.skip(i as int),
            ));
        }
        i += 1;
    }
    assert(line_views(lines@) =~= line_views(old(lines)@) + notes_lines(all));
}

/// Adds the lines that hold `entries`.
fn push_summaries(lines: &mut Vec<Vec<char>>, entries: &Vec<SummaryEntry>)
    ensures
        line_views(final(lines)@) == line_views(old(lines)@) + summaries_lines(
            summary_views(entries@),
        ),
{
    let ghost all = summary_views(entries@);
    let mut i: usize = 0;
    assert(all.skip(0) =~= all);
    while i < entries.len()
        invariant
            i <= entries.len(),
            all == summary_views(entries@),
            line_views(lines@) + summaries_lines(all.skip(i as int)) == line_views(old(lines)@)
                + summaries_lines(all),
        decreases entries.len() - i,
    {
        let entry: &SummaryEntry = &entries[i];
        let ghost before = line_views(lines@);
        push_text_line(lines, "category", entry.category.as_str());
        push_text_line(lines, "project", entry.project.as_str());
        push_text_line(lines, "task", entry.task.as_str());
        push_text_line(lines, "description", entry.description.as_str());
        proof {
            assert(all.skip(i as int).drop_first() =~= all.skip(i + 1));
            assert(all.skip(i as int)[0] == entry@);
            assert(line_views(lines@) =~= before + summary_lines(entry@));
            assert(line_views(lines@) + summaries_lines(all.skip(i + 1)) =~= before
                + summaries_lines(all.skip(i as int)));
        }
        i += 1;
    }
    assert(line_views(lines@) =~= line_views(old(lines)@) + summaries_lines(all));
}

/// Reads the text that the line at place `pos` gives under `key`.
fn read_text_at(lines: &Vec<Vec<char>>, pos: usize, key: &str) -> (r: Option<String>)
    requires
        pos < lines.len(),
    ensures
        match r {
            Some(text) => text_field(key@, line_views(lines@)[pos as int]) == Some(text@),
            None => text_field(key@, line_views(lines@)[pos as int]) is None,
        },
{
    let line: &Vec<char> = &lines[pos];
    assert(line_views(lines@)[pos as int] == line@);
    match value_start(line, key) {
        Some(from) => read_unescaped_from(line, from),
        None => None,
    }
}

/// Reads the number that the line at place `pos` gives under `key`.
fn read_count_at(lines: &Vec<Vec<char>>, pos: usize, key: &str) -> (r: Option<u64>)
    ensures
        r == count_field(key@, line_views(lines@), pos as int),
        r is Some ==> pos < lines.len(),
{
    if pos >= lines.len() {
        return None;
    }
    let line: &Vec<char> = &lines[pos];
    assert(line_views(lines@)[pos as int] == line@);
    match value_start(line, key) {
        Some(from) => {
            assert(line@.subrange(from as int, line@.len() as int) =~= line@.skip(from as int));
            read_u64_in(line, from, line.len())
        },
        None => None,
    }
}

/// Reads the point in time that the line at place `pos` gives under `key`.
fn read_time_at(lines: &Vec<Vec<char>>, pos: usize, key: &str) -> (r: Option<Timestamp>)
    requires
        pos < lines.len(),
    ensures
        r == time_field(key@, line_views(lines@)[pos as int]),
{
    let line: &Vec<char> = &lines[pos];
    assert(line_views(lines@)[pos as int] == line@);
    match value_start(line, key) {
        Some(from) => read_timestamp_from(line, from),
        None => None,
    }
}

/// Reads the point in time, or none, that the line at place `pos` gives under
/// `key`.
fn read_opt_time_at(lines: &Vec<Vec<char>>, pos: usize, key: &str) -> (r: Option<
    Option<Timestamp>,
>)
    requires
        pos < lines.len(),
    ensures
        r == opt_time_field(key@, line_views(lines@)[pos as int]),
{
    let line: &Vec<char> = &lines[pos];
    assert(line_views(lines@)[pos as int] == line@);
    match value_start(line, key) {
        Some(from) => read_opt_timestamp_from(line, from),
        None => None,
    }
}

/// Reads the `count` spans that the lines from place `pos` on hold.
fn read_spans(lines: &Vec<Vec<char>>, pos: usize, count: u64) -> (r: Option<Vec<Interval>>)
    requires
        pos <= lines.len(),
    ensures
        match r {
            Some(spans) => parse_spans(line_views(lines@), pos as int, count as nat) == Some(
                spans@,
            ) && spans@.len() == count && pos + 2 * count <= lines.len(),
            None => parse_spans(line_views(lines@), pos as int, count as nat) is None,
        },
{
    let ghost all = line_views(lines@);
    if count > ((lines.len() - pos) / 2) as u64 {
        proof {
            if parse_spans(all, pos as int, count as nat) is Some {
                lemma_parse_spans_fits(all, pos as int, count as nat);
            }
        }
        return None;
    }
    let n: usize = count as usize;
    let mut spans: Vec<Interval> = Vec::new();
    let mut i: usize = 0;
    while i < n
        invariant
            i <= n,
            n == count,
            pos + 2 * n <= lines.len(),
            all == line_views(lines@),
            spans@.len() == i,
            parse_spans(all, pos as int, count as nat) == match parse_spans(
                all,
                pos + 2 * i,
                (n - i) as nat,
            ) {
                Some(rest) => Some(spans@ + rest),
                None => None,
            },
        decreases n - i,
    {
        let at: usize = pos + 2 * i;
        let ghost before = spans@;
        match (read_time_at(lines, at, "start"), read_opt_time_at(lines, at + 1, "end")) {
            (Some(start), Some(end)) => {
                spans.push(Interval { start, end });
                proof {
                    assert(parse_span(all, at as int) == Some(Interval { start, end }));
                    if parse_spans(all, at + 2, (n - i - 1) as nat) is Some {
                        let rest = parse_spans(all, at + 2, (n - i - 1) as nat)->0;
                        assert(spans@ + rest =~= before + (seq![Interval { start, end }] + rest));
                    }
                }
            },
            _ => {
                assert(parse_span(all, at as int) is None);
                return None;
            },
        }
        i += 1;
    }
    assert(spans@ + Seq::<Interval>::empty() =~= spans@);
    Some(spans)
}

/// Reads the `count` notes that the lines from place `pos` on hold.
fn read_notes(lines: &Vec<Vec<char>>, pos: usize, count: u64) -> (r: Option<Vec<Note>>)
    requires
        pos <= lines.len(),
    ensures
        match r {
            Some(notes) => parse_notes(line_views(lines@), pos as int, count as nat) == Some(
                note_views(notes@),
            ) && notes@.len() == count && pos + 2 * count <= lines.len(),
            None => parse_notes(line_views(lines@), pos as int, count as nat) is None,
        },
{
    let ghost all = line_views(lines@);
    if count > ((lines.len() - pos) / 2) as u64 {
        proof {
            if parse_notes(all, pos as int, count as nat) is Some {
                lemma_parse_notes_fits(all, pos as int, count as nat);
            }
        }
        return None;
    }
    let n: usize = count as usize;
    let mut notes: Vec<Note> = Vec::new();
    let mut i: usize = 0;
    assert(note_views(notes@) =~= Seq::<NoteView>::empty());
    while i < n
        invariant
            i <= n,
            n == count,
            pos + 2 * n <= lines.len(),
            all == line_views(lines@),
            notes@.len() == i,
            parse_notes(all, pos as int, count as nat) == match parse_notes(
                all,
                pos + 2 * i,
                (n - i) as nat,
            ) {
                Some(rest) => Some(note_views(notes@) + rest),
                None => None,
            },
        decreases n - i,
    {
        let at: usize = pos + 2 * i;
        let ghost before = note_views(notes@);
        match (read_time_at(lines, at, "at"), read_text_at(lines, at + 1, "text")) {
            (Some(timestamp), Some(message)) => {
                let note = Note { timestamp, message };
                notes.push(note);
                proof {
                    assert(parse_note(all, at as int) == Some(note@));
                    assert(note_views(notes@) =~= before.push(note@));
                    if parse_notes(all, at + 2, (n - i - 1) as nat) is Some {
                        let rest = parse_notes(all, at + 2, (n - i - 1) as nat)->0;
                        assert(note_views(notes@) + rest =~= before + (seq![note@] + rest));
                    }
                }
            },
            _ => {
                assert(parse_note(all, at as int) is None);
                return None;
            },
        }
        i += 1;
    }
    assert(note_views(notes@) + Seq::<NoteView>::empty() =~= note_views(notes@));
    Some(notes)
}

/// Reads the `count` summary entries that the lines from place `pos` on hold.
fn read_summaries(lines: &Vec<Vec<char>>, pos: usize, count: u64) -> (r: Option<
    Vec<SummaryEntry>,
>)
    requires
        pos <= lines.len(),
    ensures
        match r {
            Some(entries) => parse_summaries(line_views(lines@), pos as int, count as nat)
                == Some(summary_views(entries@)) && entries@.len() == count && pos + 4 * count
                <= lines.len(),
            None => parse_summaries(line_views(lines@), pos as int, count as nat) is None,
        },
{
    let ghost all = line_views(lines@);
    if count > ((lines.len() - pos) / 4) as u64 {
        proof {
            if parse_summaries(all, pos as int, count as nat) is Some {
                lemma_parse_summaries_fits(all, pos as int, count as nat);
            }
        }
        return None;
    }
    let n: usize = count as usize;
    let mut entries: Vec<SummaryEntry> = Vec::new();
    let mut i: usize = 0;
    assert(summary_views(entries@) =~= Seq::<SummaryEntryView>::empty());
    while i < n
        invariant
            i <= n,
            n == count,
            pos + 4 * n <= lines.len(),
            all == line_views(lines@),
            entries@.len() == i,
            parse_summaries(all, pos as int, count as nat) == match parse_summaries(
                all,
                pos + 4 * i,
                (n - i) as nat,
            ) {
                Some(rest) => Some(summary_views(entries@) + rest),
                None => None,
            },
        decreases n - i,
    {
        let at: usize = pos + 4 * i;
        let ghost before = summary_views(entries@);
        match (
            read_text_at(lines, at, "category"),
            read_text_at(lines, at + 1, "project"),
            read_text_at(lines, at + 2, "task"),
            read_text_at(lines, at + 3, "description"),
        ) {
            (Some(category), Some(project), Some(task), Some(description)) => {
                let entry = SummaryEntry { category, project, task, description };
                entries.push(entry);
                proof {
                    assert(parse_summary(all, at as int) == Some(entry@));
                    assert(summary_views(entries@) =~= before.push(entry@));
                    if parse_summaries(all, at + 4, (n - i - 1) as nat) is Some {
                        let rest = parse_summaries(all, at + 4, (n - i - 1) as nat)->0;
                        assert(summary_views(entries@) + rest =~= before + (seq![entry@] + rest));
                    }
                }
            },
            _ => {
                assert(parse_summary(all, at as int) is None);
                return None;
            },
        }
        i += 1;
    }
    assert(summary_views(entries@) + Seq::<SummaryEntryView>::empty() =~= summary_views(
        entries@,
    ));
    Some(entries)
}

/// Reads the four lines that a record starts with.
fn read_head(lines: &Vec<Vec<char>>) -> (r: Option<(i64, String, u64, Option<Timestamp>)>)
    ensures
        match r {
            Some(head) => parse_head(line_views(lines@)) == Some(
                (head.0, head.1@, head.2, head.3),
            ),
            None => parse_head(line_views(lines@)) is None,
        },
{
    let ghost all = line_views(lines@);
    if lines.len() < 4 {
        return None;
    }
    let first: &Vec<char> = &lines[0];
    assert(all[0] == first@);
    let days: Option<i64> = match value_start(first, "date") {
        Some(from) => {
            assert(first@.subrange(from as int, first@.len() as int) =~= first@.skip(from as int));
            read_i64_in(first, from, first.len())
        },
        None => None,
    };
    let task: Option<String> = read_text_at(lines, 1, "task");
    let target: Option<u64> = read_count_at(lines, 2, "target");
    let end_time: Option<Option<Timestamp>> = read_opt_time_at(lines, 3, "ended");
    match (days, task, target, end_time) {
        (Some(days), Some(task), Some(target), Some(end_time)) => Some(
            (days, task, target, end_time),
        ),
        _ => None,
    }
}

/// Reads the spans that the lines from place `pos` on hold, with their number
/// in front under `key`.
fn read_spans_section(lines: &Vec<Vec<char>>, pos: usize, key: &str) -> (r: Option<
    (Vec<Interval>, usize),
>)
    ensures
        match r {
            Some((spans, next)) => next <= lines.len() && spans_section(
                key@,
                line_views(lines@),
                pos as int,
            ) == Some((spans@, next as int)),
            None => spans_section(key@, line_views(lines@), pos as int) is None,
        },
{
    match read_count_at(lines, pos, key) {
        Some(count) => match read_spans(lines, pos + 1, count) {
            Some(spans) => {
                let next: usize = pos + 1 + 2 * spans.len();
                Some((spans, next))
            },
            None => None,
        },
        None => None,
    }
}

/// Reads the notes that the lines from place `pos` on hold, with their number
/// in front.
fn read_notes_section(lines: &Vec<Vec<char>>, pos: usize) -> (r: Option<(Vec<Note>, usize)>)
    ensures
        match r {
            Some((notes, next)) => next <= lines.len() && notes_section(
                line_views(lines@),
                pos as int,
            ) == Some((note_views(notes@), next as int)),
            None => notes_section(line_views(lines@), pos as int) is None,
        },
{
    match read_count_at(lines, pos, "notes") {
        Some(count) => match read_notes(lines, pos + 1, count) {
            Some(notes) => {
                let next: usize = pos + 1 + 2 * notes.len();
                Some((notes, next))
            },
            None => None,
        },
        None => None,
    }
}

/// Reads the summary entries that the lines from place `pos` on hold, with
/// their number in front.
fn read_summaries_section(lines: &Vec<Vec<char>>, pos: usize) -> (r: Option<
    (Vec<SummaryEntry>, usize),
>)
    ensures
        match r {
            Some((entries, next)) => next <= lines.len() && summaries_section(
                line_views(lines@),
                pos as int,
            ) == Some((summary_views(entries@), next as int)),
            None => summaries_section(line_views(lines@), pos as int) is None,
        },
{
    match read_count_at(lines, pos, "summaries") {
        Some(count) => match read_summaries(lines, pos + 1, count) {
            Some(entries) => {
                let next: usize = pos + 1 + 4 * entries.len();
                Some((entries, next))
            },
            None => None,
        },
        None => None,
    }
}

/// Reads the four lists that the lines from the fifth on hold.
fn read_lists(lines: &Vec<Vec<char>>) -> (r: Option<
    (Vec<Interval>, Vec<Interval>, Vec<Note>, Vec<SummaryEntry>),
>)
    ensures
        match r {
            Some(lists) => parse_lists(line_views(lines@)) == Some(
                (lists.0@, lists.1@, note_views(lists.2@), summary_views(lists.3@)),
            ),
            None => parse_lists(line_views(lines@)) is None,
        },
{
    let (work, at_breaks) = match read_spans_section(lines, 4, "work") {
        Some(section) => section,
        None => {
            return None;
        },
    };
    let (breaks, at_notes) = match read_spans_section(lines, at_breaks, "breaks") {
        Some(section) => section,
        None => {
            return None;
        },
    };
    let (notes, at_summaries) = match read_notes_section(lines, at_notes) {
        Some(section) => section,
        None => {
            return None;
        },
    };
    let (entries, end) = match read_summaries_section(lines, at_summaries) {
        Some(section) => section,
        None => {
            return None;
        },
    };
    if end != lines.len() {
        return None;
    }
    Some((work, breaks, notes, entries))
}

impl Day {
    /// The record as text, one `key: value` line for each value.
    pub fn as_string(&self) -> (text: String)
        ensures
            text@ == render_day(self@),
    {
        let mut lines: Vec<Vec<char>> = Vec::new();
        let mut line: Vec<char> = Vec::new();
        push_key(&mut line, "date");
        push_int(&mut line, self.date().days);
        proof {
            lemma_field_line_parts("date"@, render_int(self@.date.days as int));
        }
        lines.push(line);
        push_text_line(&mut lines, "task", self.start_task().as_str());
        push_count_line(&mut lines, "target", self.target_minutes());
        push_opt_time_line(&mut lines, "ended", self.end_time());
        assert(line_views(lines@) =~= head_lines(self@));
        let work = self.work_intervals();
        push_count_line(&mut lines, "work", work.len() as u64);
        push_spans(&mut lines, work);
        let breaks = self.break_intervals();
        push_count_line(&mut lines, "breaks", breaks.len() as u64);
        push_spans(&mut lines, breaks);
        let notes = self.notes();
        push_count_line(&mut lines, "notes", notes.len() as u64);
        push_notes(&mut lines, notes);
        let entries = self.summary_entries();
        push_count_line(&mut lines, "summaries", entries.len() as u64);
        push_summaries(&mut lines, entries);
        assert(line_views(lines@) =~= day_lines(self@));
        to_text(&join(&lines))
    }

    /// Reads a record from text as `as_string` writes it, if the text holds
    /// one and the record is consistent. A last line without its line feed
    /// is accepted.
    pub fn parse(text: &str) -> (r: Option<Day>)
        ensures
            match r {
                Some(day) => day.wf() && parse_day(text@) == Some(day@),
                None => parse_day(text@) matches Some(d) ==> !d.wf(),
            },
    {
        let lines: Vec<Vec<char>> = split(&to_chars(text));
        assert(line_views(lines@) == split_lines(text@));
        let head: (i64, String, u64, Option<Timestamp>) = match read_head(&lines) {
            Some(head) => head,
            None => {
                return None;
            },
        };
        let lists: (Vec<Interval>, Vec<Interval>, Vec<Note>, Vec<SummaryEntry>) =
            match read_lists(&lines) {
            Some(lists) => lists,
            None => {
                return None;
            },
        };
        Day::from_parts(
            Date { days: head.0 },
            head.1,
            head.2,
            lists.0,
            lists.1,
            head.3,
            lists.2,
            lists.3,
        )
    }
}

} // verus!
