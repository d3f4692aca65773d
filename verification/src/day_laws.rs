//! What holds of every consistent day's record: the moves keep it consistent,
//! work and breaks never overlap, and the time accounted for adds up.

use vstd::prelude::*;
use crate::day_model::DayView;
use crate::interval::{Interval, chronological, lemma_total_seconds_take, total_seconds};
use crate::time::Timestamp;

verus! {

/// The span at place `p` when work and breaks are laid out in turn: work span
/// `i` at place `2 * i`, break `i` at place `2 * i + 1`.
spec fn span_at(d: DayView, p: int) -> Interval {
    if p % 2 == 0 {
        d.work[p / 2]
    } else {
        d.breaks[p / 2]
    }
}

/// Of two spans of a consistent record, the one that comes first in turn is
/// closed and over when the other starts.
proof fn lemma_turns_in_order(d: DayView, p: int, q: int)
    requires
        d.wf(),
        0 <= p < q < d.work.len() + d.breaks.len(),
    ensures
        span_at(d, p).ends_by(span_at(d, q).start),
    decreases q,
{
    let before = q - 1;
    assert(span_at(d, before).ends_by(span_at(d, q).start)) by {
        if before % 2 == 0 {
            assert(d.work_before_break(before / 2));
        } else {
            assert(d.break_before_work(before / 2));
        }
    }
    if p < before {
        lemma_turns_in_order(d, p, before);
        assert(span_at(d, before).ordered()) by {
            if before % 2 == 0 {
                assert(d.work[before / 2].ordered());
            } else {
                assert(d.breaks[before / 2].ordered());
            }
        }
    }
}

/// In a consistent record no span of work overlaps a break, whatever state
/// the day is in.
pub proof fn lemma_work_and_breaks_disjoint(d: DayView)
    requires
        d.wf(),
    ensures
        d.work_and_breaks_disjoint(),
{
    assert forall|i: int, j: int| 0 <= i < d.work.len() && 0 <= j < d.breaks.len() implies !(
    #[trigger] d.work[i]).overlaps(#[trigger] d.breaks[j]) by {
        assert(span_at(d, 2 * i) == d.work[i]);
        assert(span_at(d, 2 * j + 1) == d.breaks[j]);
        if i <= j {
            lemma_turns_in_order(d, 2 * i, 2 * j + 1);
        } else {
            lemma_turns_in_order(d, 2 * j + 1, 2 * i);
        }
    }
}

/// While a consistent day is open, exactly one span is running: the last
/// span of work while working, the last break while on break. Once it has
/// ended, none is.
pub proof fn lemma_one_span_running(d: DayView)
    requires
        d.wf(),
    ensures
        forall|i: int|
            0 <= i < d.work.len() ==> ((#[trigger] d.work[i]).is_open() <==> d.state is Working
                && i == d.work.len() - 1),
        forall|i: int|
            0 <= i < d.breaks.len() ==> ((#[trigger] d.breaks[i]).is_open() <==> d.state is OnBreak
                && i == d.breaks.len() - 1),
{
    assert forall|i: int| 0 <= i < d.work.len() implies ((#[trigger] d.work[i]).is_open()
        <==> d.state is Working && i == d.work.len() - 1) by {
        if i < d.breaks.len() {
            assert(d.work_before_break(i));
        }
    }
    assert forall|i: int| 0 <= i < d.breaks.len() implies ((#[trigger] d.breaks[i]).is_open()
        <==> d.state is OnBreak && i == d.breaks.len() - 1) by {
        if i < d.work.len() - 1 {
            assert(d.break_before_work(i));
        }
    }
}

/// Once a consistent day has ended, its spans of work are all closed and in
/// chronological order, and so are its breaks.
pub proof fn lemma_ended_chronological(d: DayView)
    requires
        d.wf(),
        d.has_ended(),
    ensures
        chronological(d.work),
        chronological(d.breaks),
{
    assert forall|i: int| 0 <= i < d.work.len() implies (#[trigger] d.work[i]).end is Some by {
        if i < d.breaks.len() {
            assert(d.work_before_break(i));
        }
    }
    assert forall|i: int| 0 <= i < d.breaks.len() implies (#[trigger] d.breaks[i]).end is Some by {
        if i < d.work.len() - 1 {
            assert(d.break_before_work(i));
        }
    }
    assert forall|i: int, j: int| 0 <= i < j < d.work.len() implies (#[trigger] d.work[i]).ends_by(
        (#[trigger] d.work[j]).start,
    ) by {
        assert(span_at(d, 2 * i) == d.work[i]);
        assert(span_at(d, 2 * j) == d.work[j]);
        lemma_turns_in_order(d, 2 * i, 2 * j);
    }
    assert forall|i: int, j: int| 0 <= i < j < d.breaks.len() implies (
    #[trigger] d.breaks[i]).ends_by((#[trigger] d.breaks[j]).start) by {
        assert(span_at(d, 2 * i + 1) == d.breaks[i]);
        assert(span_at(d, 2 * j + 1) == d.breaks[j]);
        lemma_turns_in_order(d, 2 * i + 1, 2 * j + 1);
    }
}

/// A day that has just been started is consistent and has no gaps.
pub proof fn lemma_started_wf(now: Timestamp, task: Seq<char>, target_minutes: int)
    requires
        0 <= target_minutes <= i64::MAX,
    ensures
        DayView::started(now, task, target_minutes).wf(),
        DayView::started(now, task, target_minutes).gapless(),
{
}

/// Starting a break while working, at a time not before the running span of
/// work started, keeps the record consistent, and free of gaps if it was.
pub proof fn lemma_start_break_wf(d: DayView, t: Timestamp)
    requires
        d.wf(),
        d.state is Working,
        d.open_start().secs <= t.secs,
    ensures
        d.start_break(t).wf(),
        d.gapless() ==> d.start_break(t).gapless(),
{
    let n = d.start_break(t);
    let last = d.work.len() - 1;
    assert forall|i: int| 0 <= i < n.breaks.len() implies #[trigger] n.work_before_break(i) by {
        if i < last {
            assert(d.work_before_break(i));
        }
    }
    assert forall|i: int| 0 <= i < n.work.len() - 1 implies #[trigger] n.break_before_work(i) by {
        assert(d.break_before_work(i));
    }
    assert forall|i: int| 0 <= i < n.work.len() implies (#[trigger] n.work[i]).ordered() by {
        if i < last {
            assert(d.work[i].ordered());
        }
    }
    assert forall|i: int| 0 <= i < n.breaks.len() implies (#[trigger] n.breaks[i]).ordered() by {
        if i < last {
            assert(d.breaks[i].ordered());
        }
    }
    if d.gapless() {
        assert forall|i: int| 0 <= i < n.breaks.len() implies #[trigger] n.work_meets_break(i) by {
            if i < last {
                assert(d.work_meets_break(i));
            }
        }
        assert forall|i: int| 0 <= i < n.work.len() - 1 implies #[trigger] n.break_meets_work(
            i,
        ) by {
            assert(d.break_meets_work(i));
        }
    }
}

/// Ending a break, at a time not before it started, keeps the record
/// consistent, and free of gaps if it was.
pub proof fn lemma_end_current_block_wf(d: DayView, t: Timestamp)
    requires
        d.wf(),
        d.state is OnBreak,
        d.open_start().secs <= t.secs,
    ensures
        d.end_current_block(t).wf(),
        d.gapless() ==> d.end_current_block(t).gapless(),
{
    let n = d.end_current_block(t);
    let last = d.breaks.len() - 1;
    assert forall|i: int| 0 <= i < n.breaks.len() implies #[trigger] n.work_before_break(i) by {
        assert(d.work_before_break(i));
    }
    assert forall|i: int| 0 <= i < n.work.len() - 1 implies #[trigger] n.break_before_work(i) by {
        if i < last {
            assert(d.break_before_work(i));
        }
    }
    assert forall|i: int| 0 <= i < n.work.len() implies (#[trigger] n.work[i]).ordered() by {
        if i <= last {
            assert(d.work[i].ordered());
        }
    }
    assert forall|i: int| 0 <= i < n.breaks.len() implies (#[trigger] n.breaks[i]).ordered() by {
        if i < last {
            assert(d.breaks[i].ordered());
        }
    }
    if d.gapless() {
        assert forall|i: int| 0 <= i < n.breaks.len() implies #[trigger] n.work_meets_break(i) by {
            assert(d.work_meets_break(i));
        }
        assert forall|i: int| 0 <= i < n.work.len() - 1 implies #[trigger] n.break_meets_work(
            i,
        ) by {
            if i < last {
                assert(d.break_meets_work(i));
            }
        }
    }
}

/// Ending an open day, at a time not before the running span started, keeps
/// the record consistent, and free of gaps if it was.
pub proof fn lemma_end_day_wf(d: DayView, t: Timestamp)
    requires
        d.wf(),
        !d.has_ended(),
        d.open_start().secs <= t.secs,
    ensures
        d.end_day(t).wf(),
        d.gapless() ==> d.end_day(t).gapless(),
{
    let n = d.end_day(t);
    assert forall|i: int| 0 <= i < n.breaks.len() implies #[trigger] n.work_before_break(i) by {
        assert(d.work_before_break(i));
    }
    assert forall|i: int| 0 <= i < n.work.len() - 1 implies #[trigger] n.break_before_work(i) by {
        assert(d.break_before_work(i));
    }
    assert forall|i: int| 0 <= i < n.work.len() implies (#[trigger] n.work[i]).ordered() by {
        assert(d.work[i].ordered());
    }
    assert forall|i: int| 0 <= i < n.breaks.len() implies (#[trigger] n.breaks[i]).ordered() by {
        assert(d.breaks[i].ordered());
    }
    if d.gapless() {
        assert forall|i: int| 0 <= i < n.breaks.len() implies #[trigger] n.work_meets_break(i) by {
            assert(d.work_meets_break(i));
        }
        assert forall|i: int| 0 <= i < n.work.len() - 1 implies #[trigger] n.break_meets_work(
            i,
        ) by {
            assert(d.break_meets_work(i));
        }
    }
}

/// Notes and summary entries have no part in what makes a record consistent
/// or free of gaps: two records with the same spans, state and target are
/// consistent together.
pub proof fn lemma_wf_ignores_remarks(d: DayView, e: DayView)
    requires
        d.work == e.work,
        d.breaks == e.breaks,
        d.state == e.state,
        d.target_minutes == e.target_minutes,
    ensures
        d.wf() == e.wf(),
        d.gapless() == e.gapless(),
{
    assert forall|i: int| d.work_before_break(i) == e.work_before_break(i) by {}
    assert forall|i: int| d.break_before_work(i) == e.break_before_work(i) by {}
    assert forall|i: int| d.work_meets_break(i) == e.work_meets_break(i) by {}
    assert forall|i: int| d.break_meets_work(i) == e.break_meets_work(i) by {}
}

/// In a record without gaps, the first `k` spans of work and the first `k`
/// breaks together cover the time from punching in to the end of break
/// `k - 1`.
proof fn lemma_turns_cover(d: DayView, k: int)
    requires
        d.wf(),
        d.gapless(),
        0 <= k <= d.breaks.len(),
        k == d.work.len() ==> d.has_ended(),
    ensures
        k > 0 ==> d.breaks[k - 1].end is Some,
        total_seconds(d.work.take(k)) + total_seconds(d.breaks.take(k)) == (if k == 0 {
            0
        } else {
            d.breaks[k - 1].end->0.secs - d.day_start().secs
        }),
    decreases k,
{
    if k > 0 {
        lemma_turns_cover(d, k - 1);
        lemma_total_seconds_take(d.work, k - 1);
        lemma_total_seconds_take(d.breaks, k - 1);
        assert(d.work_meets_break(k - 1));
        if k - 1 < d.work.len() - 1 {
            assert(d.break_before_work(k - 1));
        }
        if k > 1 {
            assert(d.break_meets_work(k - 2));
        }
    }
}

/// Once a day without gaps has ended, its work and its breaks together
/// account for every second from punching in to punching out.
pub proof fn lemma_every_second_accounted(d: DayView)
    requires
        d.wf(),
        d.gapless(),
        d.has_ended(),
    ensures
        d.work_seconds() + d.break_seconds() == d.elapsed_seconds(),
{
    let b = d.breaks.len() as int;
    lemma_turns_cover(d, b);
    assert(d.breaks.take(b) =~= d.breaks);
    if d.work.len() > b {
        lemma_total_seconds_take(d.work, b);
        assert(d.work.take(b + 1) =~= d.work);
        if b > 0 {
            assert(d.break_meets_work(b - 1));
        }
    } else {
        assert(d.work.take(b) =~= d.work);
    }
}

/// Once a day without gaps has ended, the minutes of work and the minutes of
/// break add up to the minutes from punching in to punching out, or to one
/// minute less: each of the two sums drops its own unfinished minute.
pub proof fn lemma_minutes_accounted_within_one(d: DayView)
    requires
        d.wf(),
        d.gapless(),
        d.has_ended(),
    ensures
        d.elapsed_minutes() - 1 <= d.total_work_minutes() + d.total_break_minutes()
            <= d.elapsed_minutes(),
{
    lemma_every_second_accounted(d);
}

/// Once a day without gaps has ended, the minutes of work and the minutes of
/// break add up exactly to the minutes from punching in to punching out,
/// provided the seconds that the two sums drop do not themselves fill a
/// minute.
pub proof fn lemma_minutes_accounted(d: DayView)
    requires
        d.wf(),
        d.gapless(),
        d.has_ended(),
        d.work_seconds() % 60 + d.break_seconds() % 60 < 60,
    ensures
        d.total_work_minutes() + d.total_break_minutes() == d.elapsed_minutes(),
{
    lemma_every_second_accounted(d);
}

/// Taking a break and coming back from it before the day ends leaves the
/// total of work and break what it is without the break: the time from
/// punching in to punching out.
pub proof fn lemma_break_round_trip(d: DayView, t1: Timestamp, t2: Timestamp, t3: Timestamp)
    requires
        d.wf(),
        d.gapless(),
        d.state is Working,
        d.open_start().secs <= t1.secs <= t2.secs <= t3.secs,
    ensures
        ({
            let with_break = d.start_break(t1).end_current_block(t2).end_day(t3);
            let without = d.end_day(t3);
            &&& with_break.wf()
            &&& with_break.gapless()
            &&& with_break.work_seconds() + with_break.break_seconds() == t3.secs
                - d.day_start().secs
            &&& with_break.work_seconds() + with_break.break_seconds() == without.work_seconds()
                + without.break_seconds()
        }),
{
    let on_break = d.start_break(t1);
    lemma_start_break_wf(d, t1);
    let back = on_break.end_current_block(t2);
    lemma_end_current_block_wf(on_break, t2);
    lemma_end_day_wf(back, t3);
    lemma_end_day_wf(d, t3);
    lemma_every_second_accounted(back.end_day(t3));
    lemma_every_second_accounted(d.end_day(t3));
}

} // verus!
