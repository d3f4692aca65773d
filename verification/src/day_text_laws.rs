//! A day's record written as text is read back as it was written.

use vstd::prelude::*;
use vstd::string::*;
use crate::day_model::{DayView, NoteView, SummaryEntryView};
use crate::day_text::{
    count_field,
    count_line,
    day_lines,
    head_lines,
    note_lines,
    notes_lines,
    notes_section,
    parse_day,
    parse_day_lines,
    parse_head,
    parse_lists,
    parse_note,
    parse_notes,
    parse_span,
    parse_spans,
    parse_summaries,
    parse_summary,
    render_day,
    span_lines,
    spans_lines,
    spans_section,
    storable,
    summaries_lines,
    summaries_section,
    summary_lines,
    text_field,
};
use crate::decimal::{digit_value, lemma_render_int, lemma_render_nat, render_int, render_nat};
use crate::escape::{escaped, lemma_escaped};
use crate::field::{field_line, lemma_field_line_no_newline, lemma_field_value};
use crate::interval::Interval;
use crate::lines::{are_lines, has_no_newline, lemma_split_join};
use crate::time_text::{
    lemma_render_opt_timestamp,
    lemma_render_timestamp,
    render_opt_timestamp,
    render_timestamp,
};

verus! {

/// The lines of a span hold no line feed and are read back as the span,
/// wherever they stand.
pub proof fn lemma_span_lines(span: Interval)
    ensures
        span_lines(span).len() == 2,
        are_lines(span_lines(span)),
        forall|lines: Seq<Seq<char>>, pos: int|
            0 <= pos && pos + 2 <= lines.len() && #[trigger] lines.subrange(pos, pos + 2)
                == span_lines(span) ==> parse_span(lines, pos) == Some(span),
{
    reveal_strlit("start");
    reveal_strlit("end");
    lemma_render_timestamp(span.start);
    lemma_render_opt_timestamp(span.end);
    lemma_field_line_no_newline("start"@, render_timestamp(span.start));
    lemma_field_line_no_newline("end"@, render_opt_timestamp(span.end));
    lemma_field_value("start"@, render_timestamp(span.start));
    lemma_field_value("end"@, render_opt_timestamp(span.end));
    assert forall|lines: Seq<Seq<char>>, pos: int|
        0 <= pos && pos + 2 <= lines.len() && #[trigger] lines.subrange(pos, pos + 2)
            == span_lines(span) implies parse_span(lines, pos) == Some(span) by {
        let part = lines.subrange(pos, pos + 2);
        assert(lines[pos] == part[0]);
        assert(lines[pos + 1] == part[1]);
    }
}

/// The lines of spans are two for each, and none holds a line feed.
pub proof fn lemma_spans_lines(items: Seq<Interval>)
    ensures
        spans_lines(items).len() == 2 * items.len(),
        are_lines(spans_lines(items)),
    decreases items.len(),
{
    if items.len() > 0 {
        let rest = items.drop_first();
        let block = spans_lines(items);
        lemma_spans_lines(rest);
        lemma_span_lines(items[0]);
        assert forall|i: int| 0 <= i < block.len() implies has_no_newline(#[trigger] block[i]) by {
            if i >= 2 {
                assert(block[i] == spans_lines(rest)[i - 2]);
            } else {
                assert(block[i] == span_lines(items[0])[i]);
            }
        }
    }
}

/// The lines of spans are read back as what they were written from,
/// wherever they stand among other lines.
pub proof fn lemma_parse_spans(items: Seq<Interval>, lines: Seq<Seq<char>>, pos: int)
    requires
        0 <= pos,
        pos + 2 * items.len() <= lines.len(),
        lines.subrange(pos, pos + 2 * items.len()) == spans_lines(items),
    ensures
        parse_spans(lines, pos, items.len()) == Some(items),
    decreases items.len(),
{
    if items.len() > 0 {
        let rest = items.drop_first();
        let part = lines.subrange(pos, pos + 2 * items.len());
        lemma_spans_lines(rest);
        lemma_span_lines(items[0]);
        assert(parse_span(lines, pos) == Some(items[0])) by {
            assert(lines.subrange(pos, pos + 2) =~= span_lines(items[0])) by {
                assert forall|i: int| 0 <= i < 2 implies lines[pos + i] == span_lines(items[0])[i] by {
                    assert(lines[pos + i] == part[i]);
                }
            }
        }
        assert(lines.subrange(pos + 2, pos + 2 + 2 * rest.len()) =~= spans_lines(rest)) by {
            assert forall|i: int| 0 <= i < 2 * rest.len() implies lines[pos + 2 + i]
                == spans_lines(rest)[i] by {
                assert(lines[pos + 2 + i] == part[2 + i]);
            }
        }
        lemma_parse_spans(rest, lines, pos + 2);
        assert(seq![items[0]] + rest =~= items);
    } else {
        assert(items =~= Seq::<Interval>::empty());
    }
}

/// The lines of a note hold no line feed and are read back as the note,
/// wherever they stand.
pub proof fn lemma_note_lines(note: NoteView)
    ensures
        note_lines(note).len() == 2,
        are_lines(note_lines(note)),
        forall|lines: Seq<Seq<char>>, pos: int|
            0 <= pos && pos + 2 <= lines.len() && #[trigger] lines.subrange(pos, pos + 2)
                == note_lines(note) ==> parse_note(lines, pos) == Some(note),
{
    reveal_strlit("at");
    reveal_strlit("text");
    lemma_render_timestamp(note.timestamp);
    lemma_escaped(note.message);
    lemma_field_line_no_newline("at"@, render_timestamp(note.timestamp));
    lemma_field_line_no_newline("text"@, escaped(note.message));
    lemma_field_value("at"@, render_timestamp(note.timestamp));
    lemma_field_value("text"@, escaped(note.message));
    assert forall|lines: Seq<Seq<char>>, pos: int|
        0 <= pos && pos + 2 <= lines.len() && #[trigger] lines.subrange(pos, pos + 2)
            == note_lines(note) implies parse_note(lines, pos) == Some(note) by {
        let part = lines.subrange(pos, pos + 2);
        assert(lines[pos] == part[0]);
        assert(lines[pos + 1] == part[1]);
    }
}

/// The lines of notes are two for each, and none holds a line feed.
pub proof fn lemma_notes_lines(items: Seq<NoteView>)
    ensures
        notes_lines(items).len() == 2 * items.len(),
        are_lines(notes_lines(items)),
    decreases items.len(),
{
    if items.len() > 0 {
        let rest = items.drop_first();
        let block = notes_lines(items);
        lemma_notes_lines(rest);
        lemma_note_lines(items[0]);
        assert forall|i: int| 0 <= i < block.len() implies has_no_newline(#[trigger] block[i]) by {
            if i >= 2 {
                assert(block[i] == notes_lines(rest)[i - 2]);
            } else {
                assert(block[i] == note_lines(items[0])[i]);
            }
        }
    }
}

/// The lines of notes are read back as what they were written from,
/// wherever they stand among other lines.
pub proof fn lemma_parse_notes(items: Seq<NoteView>, lines: Seq<Seq<char>>, pos: int)
    requires
        0 <= pos,
        pos + 2 * items.len() <= lines.len(),
        lines.subrange(pos, pos + 2 * items.len()) == notes_lines(items),
    ensures
        parse_notes(lines, pos, items.len()) == Some(items),
    decreases items.len(),
{
    if items.len() > 0 {
        let rest = items.drop_first();
        let part = lines.subrange(pos, pos + 2 * items.len());
        lemma_notes_lines(rest);
        lemma_note_lines(items[0]);
        assert(parse_note(lines, pos) == Some(items[0])) by {
            assert(lines.subrange(pos, pos + 2) =~= note_lines(items[0])) by {
                assert forall|i: int| 0 <= i < 2 implies lines[pos + i] == note_lines(items[0])[i] by {
                    assert(lines[pos + i] == part[i]);
                }
            }
        }
        assert(lines.subrange(pos + 2, pos + 2 + 2 * rest.len()) =~= notes_lines(rest)) by {
            assert forall|i: int| 0 <= i < 2 * rest.len() implies lines[pos + 2 + i]
                == notes_lines(rest)[i] by {
                assert(lines[pos + 2 + i] == part[2 + i]);
            }
        }
        lemma_parse_notes(rest, lines, pos + 2);
        assert(seq![items[0]] + rest =~= items);
    } else {
        assert(items =~= Seq::<NoteView>::empty());
    }
}

/// A line of text under a key holds no line feed and gives the text back.
pub proof fn lemma_text_field(key: Seq<char>, text: Seq<char>)
    requires
        has_no_newline(key),
    ensures
        has_no_newline(field_line(key, escaped(text))),
        text_field(key, field_line(key, escaped(text))) == Some(text),
{
    lemma_escaped(text);
    lemma_field_line_no_newline(key, escaped(text));
    lemma_field_value(key, escaped(text));
}

/// The lines of a summary entry hold no line feed and are read back as the
/// entry, wherever they stand.
pub proof fn lemma_summary_lines(entry: SummaryEntryView)
    ensures
        summary_lines(entry).len() == 4,
        are_lines(summary_lines(entry)),
        forall|lines: Seq<Seq<char>>, pos: int|
            0 <= pos && pos + 4 <= lines.len() && #[trigger] lines.subrange(pos, pos + 4)
                == summary_lines(entry) ==> parse_summary(lines, pos) == Some(entry),
{
    reveal_strlit("category");
    reveal_strlit("project");
    reveal_strlit("task");
    reveal_strlit("description");
    lemma_text_field("category"@, entry.category);
    lemma_text_field("project"@, entry.project);
    lemma_text_field("task"@, entry.task);
    lemma_text_field("description"@, entry.description);
    assert forall|lines: Seq<Seq<char>>, pos: int|
        0 <= pos && pos + 4 <= lines.len() && #[trigger] lines.subrange(pos, pos + 4)
            == summary_lines(entry) implies parse_summary(lines, pos) == Some(entry) by {
        let part = lines.subrange(pos, pos + 4);
        assert(lines[pos] == part[0]);
        assert(lines[pos + 1] == part[1]);
        assert(lines[pos + 2] == part[2]);
        assert(lines[pos + 3] == part[3]);
    }
}

/// The lines of summary entries are four for each, and none holds a line feed.
pub proof fn lemma_summaries_lines(items: Seq<SummaryEntryView>)
    ensures
        summaries_lines(items).len() == 4 * items.len(),
        are_lines(summaries_lines(items)),
    decreases items.len(),
{
    if items.len() > 0 {
        let rest = items.drop_first();
        let block = summaries_lines(items);
        lemma_summaries_lines(rest);
        lemma_summary_lines(items[0]);
        assert forall|i: int| 0 <= i < block.len() implies has_no_newline(#[trigger] block[i]) by {
            if i >= 4 {
                assert(block[i] == summaries_lines(rest)[i - 4]);
            } else {
                assert(block[i] == summary_lines(items[0])[i]);
            }
        }
    }
}

/// The lines of summary entries are read back as what they were written from,
/// wherever they stand among other lines.
pub proof fn lemma_parse_summaries(items: Seq<SummaryEntryView>, lines: Seq<Seq<char>>, pos: int)
    requires
        0 <= pos,
        pos + 4 * items.len() <= lines.len(),
        lines.subrange(pos, pos + 4 * items.len()) == summaries_lines(items),
    ensures
        parse_summaries(lines, pos, items.len()) == Some(items),
    decreases items.len(),
{
    if items.len() > 0 {
        let rest = items.drop_first();
        let part = lines.subrange(pos, pos + 4 * items.len());
        lemma_summaries_lines(rest);
        lemma_summary_lines(items[0]);
        assert(parse_summary(lines, pos) == Some(items[0])) by {
            assert(lines.subrange(pos, pos + 4) =~= summary_lines(items[0])) by {
                assert forall|i: int| 0 <= i < 4 implies lines[pos + i] == summary_lines(items[0])[i] by {
                    assert(lines[pos + i] == part[i]);
                }
            }
        }
        assert(lines.subrange(pos + 4, pos + 4 + 4 * rest.len()) =~= summaries_lines(rest)) by {
            assert forall|i: int| 0 <= i < 4 * rest.len() implies lines[pos + 4 + i]
                == summaries_lines(rest)[i] by {
                assert(lines[pos + 4 + i] == part[4 + i]);
            }
        }
        lemma_parse_summaries(rest, lines, pos + 4);
        assert(seq![items[0]] + rest =~= items);
    } else {
        assert(items =~= Seq::<SummaryEntryView>::empty());
    }
}

/// The line that gives a list's length holds no line feed and gives the
/// length back.
proof fn lemma_count_line(key: Seq<char>, count: nat, lines: Seq<Seq<char>>, pos: int)
    requires
        has_no_newline(key),
        count <= u64::MAX,
        0 <= pos < lines.len(),
        lines[pos] == count_line(key, count)[0],
    ensures
        has_no_newline(lines[pos]),
        count_field(key, lines, pos) == Some(count as u64),
{
    lemma_render_nat(count);
    lemma_field_value(key, render_nat(count));
    assert(has_no_newline(render_nat(count))) by {
        assert forall|i: int| 0 <= i < render_nat(count).len() implies render_nat(count)[i]
            != '\n' by {
            assert(digit_value(render_nat(count)[i]) is Some);
        }
    }
    lemma_field_line_no_newline(key, render_nat(count));
}

/// The four lines of the head hold no line feed and give back what they were
/// written from.
proof fn lemma_head_lines(d: DayView, lines: Seq<Seq<char>>)
    requires
        0 <= d.target_minutes <= u64::MAX,
        lines.len() >= 4,
        lines.take(4) == head_lines(d),
    ensures
        has_no_newline(lines[0]),
        has_no_newline(lines[1]),
        has_no_newline(lines[2]),
        has_no_newline(lines[3]),
        parse_head(lines) == Some(
            (d.date.days, d.start_task, d.target_minutes as u64, d.end_time()),
        ),
{
    reveal_strlit("date");
    reveal_strlit("task");
    reveal_strlit("target");
    reveal_strlit("ended");
    let head = lines.take(4);
    assert(lines[0] == head[0] && lines[1] == head[1] && lines[2] == head[2] && lines[3]
        == head[3]);
    lemma_render_int(d.date.days as int);
    lemma_field_value("date"@, render_int(d.date.days as int));
    lemma_field_line_no_newline("date"@, render_int(d.date.days as int));
    lemma_text_field("task"@, d.start_task);
    lemma_render_nat(d.target_minutes as nat);
    lemma_field_value("target"@, render_nat(d.target_minutes as nat));
    assert(has_no_newline(render_nat(d.target_minutes as nat))) by {
        let digits = render_nat(d.target_minutes as nat);
        assert forall|i: int| 0 <= i < digits.len() implies digits[i] != '\n' by {
            assert(digit_value(digits[i]) is Some);
        }
    }
    lemma_field_line_no_newline("target"@, render_nat(d.target_minutes as nat));
    lemma_render_opt_timestamp(d.end_time());
    lemma_field_value("ended"@, render_opt_timestamp(d.end_time()));
    lemma_field_line_no_newline("ended"@, render_opt_timestamp(d.end_time()));
}

/// Where each part of nine lies in their concatenation, for parts of the
/// lengths that the parts of a record have.
proof fn lemma_layout(
    head: Seq<Seq<char>>,
    work_count: Seq<Seq<char>>,
    work: Seq<Seq<char>>,
    breaks_count: Seq<Seq<char>>,
    breaks: Seq<Seq<char>>,
    notes_count: Seq<Seq<char>>,
    notes: Seq<Seq<char>>,
    summaries_count: Seq<Seq<char>>,
    summaries: Seq<Seq<char>>,
)
    requires
        head.len() == 4,
        work_count.len() == 1,
        breaks_count.len() == 1,
        notes_count.len() == 1,
        summaries_count.len() == 1,
    ensures
        ({
            let lines = head + work_count + work + breaks_count + breaks + notes_count + notes + summaries_count + summaries;
            let after_work: int = 5 + work.len() as int;
            let after_breaks: int = after_work + 1 + breaks.len();
            let after_notes: int = after_breaks + 1 + notes.len();
            &&& lines.len() == after_notes + 1 + summaries.len()
            &&& lines.take(4) == head
            &&& lines[4] == work_count[0]
            &&& lines.subrange(5, after_work) == work
            &&& lines[after_work] == breaks_count[0]
            &&& lines.subrange(after_work + 1, after_breaks) == breaks
            &&& lines[after_breaks] == notes_count[0]
            &&& lines.subrange(after_breaks + 1, after_notes) == notes
            &&& lines[after_notes] == summaries_count[0]
            &&& lines.subrange(after_notes + 1, after_notes + 1 + summaries.len()) == summaries
        }),
{
    let lines = head + work_count + work + breaks_count + breaks + notes_count + notes + summaries_count + summaries;
    let after_work: int = 5 + work.len() as int;
    let after_breaks: int = after_work + 1 + breaks.len();
    let after_notes: int = after_breaks + 1 + notes.len();
    assert(lines.take(4) =~= head);
    assert(lines.subrange(5, after_work) =~= work);
    assert(lines.subrange(after_work + 1, after_breaks) =~= breaks);
    assert(lines.subrange(after_breaks + 1, after_notes) =~= notes);
    assert(lines.subrange(after_notes + 1, after_notes + 1 + summaries.len()) =~= summaries);
}

/// No line of a record holds a line feed.
proof fn lemma_day_lines_are_lines(d: DayView)
    requires
        storable(d),
    ensures
        are_lines(day_lines(d)),
{
    reveal_strlit("work");
    reveal_strlit("breaks");
    reveal_strlit("notes");
    reveal_strlit("summaries");
    let lines = day_lines(d);
    let w = d.work.len() as int;
    let b = d.breaks.len() as int;
    let n = d.notes.len() as int;
    lemma_layout(
        head_lines(d),
        count_line("work"@, d.work.len()),
        spans_lines(d.work),
        count_line("breaks"@, d.breaks.len()),
        spans_lines(d.breaks),
        count_line("notes"@, d.notes.len()),
        notes_lines(d.notes),
        count_line("summaries"@, d.summaries.len()),
        summaries_lines(d.summaries),
    );
    lemma_spans_lines(d.work);
    lemma_spans_lines(d.breaks);
    lemma_notes_lines(d.notes);
    lemma_summaries_lines(d.summaries);
    lemma_head_lines(d, lines);
    lemma_count_line("work"@, d.work.len(), lines, 4);
    lemma_count_line("breaks"@, d.breaks.len(), lines, 5 + 2 * w);
    lemma_count_line("notes"@, d.notes.len(), lines, 6 + 2 * w + 2 * b);
    lemma_count_line("summaries"@, d.summaries.len(), lines, 7 + 2 * w + 2 * b + 2 * n);
    let work = lines.subrange(5, 5 + 2 * w);
    let breaks = lines.subrange(6 + 2 * w, 6 + 2 * w + 2 * b);
    let notes = lines.subrange(7 + 2 * w + 2 * b, 7 + 2 * w + 2 * b + 2 * n);
    let summaries = lines.subrange(8 + 2 * w + 2 * b + 2 * n, lines.len() as int);
    assert forall|i: int| 0 <= i < lines.len() implies has_no_newline(#[trigger] lines[i]) by {
        if i < 4 {
        } else if i == 4 {
        } else if i < 5 + 2 * w {
            assert(lines[i] == work[i - 5]);
        } else if i == 5 + 2 * w {
        } else if i < 6 + 2 * w + 2 * b {
            assert(lines[i] == breaks[i - 6 - 2 * w]);
        } else if i == 6 + 2 * w + 2 * b {
        } else if i < 7 + 2 * w + 2 * b + 2 * n {
            assert(lines[i] == notes[i - 7 - 2 * w - 2 * b]);
        } else if i == 7 + 2 * w + 2 * b + 2 * n {
        } else {
            assert(lines[i] == summaries[i - 8 - 2 * w - 2 * b - 2 * n]);
        }
    }
}

/// The head of a written record is read back.
proof fn lemma_day_head_read_back(d: DayView)
    requires
        storable(d),
    ensures
        parse_head(day_lines(d)) == Some(
            (d.date.days, d.start_task, d.target_minutes as u64, d.end_time()),
        ),
{
    let lines = day_lines(d);
    lemma_layout(
        head_lines(d),
        count_line("work"@, d.work.len()),
        spans_lines(d.work),
        count_line("breaks"@, d.breaks.len()),
        spans_lines(d.breaks),
        count_line("notes"@, d.notes.len()),
        notes_lines(d.notes),
        count_line("summaries"@, d.summaries.len()),
        summaries_lines(d.summaries),
    );
    lemma_head_lines(d, lines);
}

/// The lists of a written record are read back.
proof fn lemma_day_lists_read_back(d: DayView)
    requires
        storable(d),
    ensures
        parse_lists(day_lines(d)) == Some((d.work, d.breaks, d.notes, d.summaries)),
{
    reveal_strlit("work");
    reveal_strlit("breaks");
    reveal_strlit("notes");
    reveal_strlit("summaries");
    let lines = day_lines(d);
    let w = d.work.len() as int;
    let b = d.breaks.len() as int;
    let n = d.notes.len() as int;
    let s = d.summaries.len() as int;
    lemma_layout(
        head_lines(d),
        count_line("work"@, d.work.len()),
        spans_lines(d.work),
        count_line("breaks"@, d.breaks.len()),
        spans_lines(d.breaks),
        count_line("notes"@, d.notes.len()),
        notes_lines(d.notes),
        count_line("summaries"@, d.summaries.len()),
        summaries_lines(d.summaries),
    );
    lemma_spans_lines(d.work);
    lemma_spans_lines(d.breaks);
    lemma_notes_lines(d.notes);
    lemma_summaries_lines(d.summaries);
    assert(spans_section("work"@, lines, 4) == Some((d.work, 5 + 2 * w))) by {
        lemma_count_line("work"@, d.work.len(), lines, 4);
        lemma_parse_spans(d.work, lines, 5);
    }
    assert(spans_section("breaks"@, lines, 5 + 2 * w) == Some((d.breaks, 6 + 2 * w + 2 * b))) by {
        lemma_count_line("breaks"@, d.breaks.len(), lines, 5 + 2 * w);
        lemma_parse_spans(d.breaks, lines, 6 + 2 * w);
    }
    assert(notes_section(lines, 6 + 2 * w + 2 * b) == Some(
        (d.notes, 7 + 2 * w + 2 * b + 2 * n),
    )) by {
        lemma_count_line("notes"@, d.notes.len(), lines, 6 + 2 * w + 2 * b);
        lemma_parse_notes(d.notes, lines, 7 + 2 * w + 2 * b);
    }
    assert(summaries_section(lines, 7 + 2 * w + 2 * b + 2 * n) == Some(
        (d.summaries, 8 + 2 * w + 2 * b + 2 * n + 4 * s),
    )) by {
        lemma_count_line("summaries"@, d.summaries.len(), lines, 7 + 2 * w + 2 * b + 2 * n);
        lemma_parse_summaries(d.summaries, lines, 8 + 2 * w + 2 * b + 2 * n);
    }
}

/// A record written as lines and read back is the record that was written.
pub proof fn lemma_day_lines_round_trip(d: DayView)
    requires
        storable(d),
    ensures
        are_lines(day_lines(d)),
        parse_day_lines(day_lines(d)) == Some(d),
{
    lemma_day_lines_are_lines(d);
    lemma_day_head_read_back(d);
    lemma_day_lists_read_back(d);
    assert(DayView::from_parts(
        d.date,
        d.start_task,
        d.target_minutes,
        d.work,
        d.breaks,
        d.end_time(),
        d.notes,
        d.summaries,
    ) =~= d);
}

/// A record written as text and read back is the record that was written.
pub proof fn lemma_day_round_trip(d: DayView)
    requires
        storable(d),
    ensures
        parse_day(render_day(d)) == Some(d),
{
    lemma_day_lines_round_trip(d);
    lemma_split_join(day_lines(d));
}

/// Every consistent record whose lists are of lengths that 64 bits can hold
/// is read back from its text as it was written, and so with every invariant
/// it had.
pub proof fn lemma_consistent_day_round_trip(d: DayView)
    requires
        d.wf(),
        d.work.len() <= u64::MAX,
        d.breaks.len() <= u64::MAX,
        d.notes.len() <= u64::MAX,
        d.summaries.len() <= u64::MAX,
    ensures
        storable(d),
        parse_day(render_day(d)) == Some(d),
        parse_day(render_day(d))->0.wf(),
{
    lemma_day_round_trip(d);
}

/// Lines that hold `count` spans from place `pos` on are that many.
pub proof fn lemma_parse_spans_fits(lines: Seq<Seq<char>>, pos: int, count: nat)
    requires
        parse_spans(lines, pos, count) is Some,
        count > 0,
    ensures
        0 <= pos,
        pos + 2 * count <= lines.len(),
    decreases count,
{
    if count > 1 {
        lemma_parse_spans_fits(lines, pos + 2, (count - 1) as nat);
    }
}

/// Lines that hold `count` notes from place `pos` on are that many.
pub proof fn lemma_parse_notes_fits(lines: Seq<Seq<char>>, pos: int, count: nat)
    requires
        parse_notes(lines, pos, count) is Some,
        count > 0,
    ensures
        0 <= pos,
        pos + 2 * count <= lines.len(),
    decreases count,
{
    if count > 1 {
        lemma_parse_notes_fits(lines, pos + 2, (count - 1) as nat);
    }
}

/// Lines that hold `count` summary entries from place `pos` on are that many.
pub proof fn lemma_parse_summaries_fits(lines: Seq<Seq<char>>, pos: int, count: nat)
    requires
        parse_summaries(lines, pos, count) is Some,
        count > 0,
    ensures
        0 <= pos,
        pos + 4 * count <= lines.len(),
    decreases count,
{
    if count > 1 {
        lemma_parse_summaries_fits(lines, pos + 4, (count - 1) as nat);
    }
}

} // verus!
