//! Points in time as text: the number of the day, a space, and the time of
//! day as hours, minutes and seconds of two digits each, `19783 09:05:00`.

use vstd::prelude::*;
use crate::decimal::{
    digit_char,
    digit_value,
    lemma_render_int,
    parse_i64,
    push_int,
    read_i64_in,
    render_int,
};
use crate::lines::has_no_newline;
use crate::time::Timestamp;

verus! {

/// `n`, a number under 100, in two digits.
pub open spec fn two_digits(n: int) -> Seq<char> {
    seq![digit_char(n / 10), digit_char(n % 10)]
}

/// The number under 100 that the two digits `tens` and `ones` stand for.
pub open spec fn parse_two_digits(tens: char, ones: char) -> Option<int> {
    match (digit_value(tens), digit_value(ones)) {
        (Some(t), Some(o)) => Some(10 * t + o),
        _ => None,
    }
}

/// The time of day `seconds` after midnight, with a space in front.
#[verifier::opaque]
pub open spec fn render_clock(seconds: int) -> Seq<char> {
    seq![' '] + two_digits(seconds / 3600) + seq![':'] + two_digits((seconds % 3600) / 60) + seq![
        ':',
    ] + two_digits(seconds % 60)
}

/// The seconds after midnight that the nine characters of `clock` stand for:
/// a space, then hours under 24, minutes under 60 and seconds under 60, with
/// colons between them.
#[verifier::opaque]
pub open spec fn parse_clock(clock: Seq<char>) -> Option<int> {
    if clock.len() != 9 || clock[0] != ' ' || clock[3] != ':' || clock[6] != ':' {
        None
    } else {
        match (
            parse_two_digits(clock[1], clock[2]),
            parse_two_digits(clock[4], clock[5]),
            parse_two_digits(clock[7], clock[8]),
        ) {
            (Some(h), Some(m), Some(s)) => if h < 24 && m < 60 && s < 60 {
                Some(3600 * h + 60 * m + s)
            } else {
                None
            },
            _ => None,
        }
    }
}

/// `t` as text.
#[verifier::opaque]
pub open spec fn render_timestamp(t: Timestamp) -> Seq<char> {
    render_int(t.secs as int / 86400) + render_clock(t.secs as int % 86400)
}

/// The point in time that `text` stands for, if it stands for one that can
/// be held.
#[verifier::opaque]
pub open spec fn parse_timestamp(text: Seq<char>) -> Option<Timestamp> {
    if text.len() < 9 {
        None
    } else {
        match (
            parse_i64(text.take(text.len() - 9)),
            parse_clock(text.skip(text.len() - 9)),
        ) {
            (Some(day), Some(seconds)) => if i64::MIN <= 86400 * day + seconds <= i64::MAX {
                Some(Timestamp { secs: (86400 * day + seconds) as i64 })
            } else {
                None
            },
            _ => None,
        }
    }
}

/// A point in time or none as text: none is a hyphen.
pub open spec fn render_opt_timestamp(t: Option<Timestamp>) -> Seq<char> {
    match t {
        Some(at) => render_timestamp(at),
        None => seq!['-'],
    }
}

/// The point in time, or none, that `text` stands for.
pub open spec fn parse_opt_timestamp(text: Seq<char>) -> Option<Option<Timestamp>> {
    if text == seq!['-'] {
        Some(None)
    } else {
        match parse_timestamp(text) {
            Some(at) => Some(Some(at)),
            None => None,
        }
    }
}

/// Two digits stand for the number they were written from, and neither is a
/// line feed.
pub proof fn lemma_two_digits(n: int)
    requires
        0 <= n < 100,
    ensures
        two_digits(n).len() == 2,
        parse_two_digits(two_digits(n)[0], two_digits(n)[1]) == Some(n),
        two_digits(n)[0] != '\n',
        two_digits(n)[1] != '\n',
{
}

/// The text of a time of day is nine characters without a line feed and
/// stands for that time of day.
pub proof fn lemma_render_clock(seconds: int)
    requires
        0 <= seconds < 86400,
    ensures
        render_clock(seconds).len() == 9,
        has_no_newline(render_clock(seconds)),
        parse_clock(render_clock(seconds)) == Some(seconds),
{
    reveal(render_clock);
    reveal(parse_clock);
    let h = seconds / 3600;
    let m = (seconds % 3600) / 60;
    let s = seconds % 60;
    lemma_two_digits(h);
    lemma_two_digits(m);
    lemma_two_digits(s);
    let clock = render_clock(seconds);
    assert(clock =~= seq![
        ' ',
        two_digits(h)[0],
        two_digits(h)[1],
        ':',
        two_digits(m)[0],
        two_digits(m)[1],
        ':',
        two_digits(s)[0],
        two_digits(s)[1],
    ]);
    assert(3600 * h + 60 * m + s == seconds);
}

/// The text of a point in time holds no line feed and stands for that point.
pub proof fn lemma_render_timestamp(t: Timestamp)
    ensures
        has_no_newline(render_timestamp(t)),
        parse_timestamp(render_timestamp(t)) == Some(t),
        render_timestamp(t).len() >= 10,
{
    reveal(render_timestamp);
    reveal(parse_timestamp);
    let day = t.secs as int / 86400;
    let seconds = t.secs as int % 86400;
    let text = render_timestamp(t);
    let clock = render_clock(seconds);
    let digits = render_int(day);
    lemma_render_int(day);
    lemma_render_clock(seconds);
    assert(text.take(text.len() - 9) =~= digits);
    assert(text.skip(text.len() - 9) =~= clock);
    assert(86400 * day + seconds == t.secs);
    assert forall|i: int| 0 <= i < text.len() implies text[i] != '\n' by {
        if i < digits.len() {
            assert(text[i] == digits[i]);
        } else {
            assert(text[i] == clock[i - digits.len()]);
        }
    }
}

/// The text of a point in time or none holds no line feed and stands for what
/// it was written from.
pub proof fn lemma_render_opt_timestamp(t: Option<Timestamp>)
    ensures
        has_no_newline(render_opt_timestamp(t)),
        parse_opt_timestamp(render_opt_timestamp(t)) == Some(t),
{
    match t {
        Some(at) => {
            lemma_render_timestamp(at);
        },
        None => {},
    }
}

/// Appends `n`, a number under 100, in two digits.
fn push_two_digits(out: &mut Vec<char>, n: u8)
    requires
        n < 100,
    ensures
        final(out)@ == old(out)@ + two_digits(n as int),
{
    out.push((48 + n / 10) as char);
    out.push((48 + n % 10) as char);
    assert(out@ =~= old(out)@ + two_digits(n as int));
}

/// Appends `t` as text.
pub fn push_timestamp(out: &mut Vec<char>, t: Timestamp)
    ensures
        final(out)@ == old(out)@ + render_timestamp(t),
{
    proof {
        reveal(render_timestamp);
        reveal(render_clock);
    }
    let day: i64 = t.date().days;
    let seconds: i128 = t.secs as i128 - 86400 * (day as i128);
    push_int(out, day);
    let ghost with_day = out@;
    out.push(' ');
    push_two_digits(out, (seconds / 3600) as u8);
    out.push(':');
    push_two_digits(out, ((seconds % 3600) / 60) as u8);
    out.push(':');
    push_two_digits(out, (seconds % 60) as u8);
    assert(out@ =~= with_day + render_clock(seconds as int));
    assert(out@ =~= old(out)@ + render_timestamp(t));
}

/// Appends `t` as text, a hyphen for none.
pub fn push_opt_timestamp(out: &mut Vec<char>, t: Option<Timestamp>)
    ensures
        final(out)@ == old(out)@ + render_opt_timestamp(t),
{
    match t {
        Some(at) => push_timestamp(out, at),
        None => {
            out.push('-');
            assert(out@ =~= old(out)@ + seq!['-']);
        },
    }
}

/// Reads the two digits at places `at` and `at + 1`.
fn read_two_digits(text: &Vec<char>, at: usize) -> (r: Option<u8>)
    requires
        at + 1 < text.len(),
    ensures
        r matches Some(n) ==> parse_two_digits(text@[at as int], text@[at + 1]) == Some(n as int),
        r is None ==> parse_two_digits(text@[at as int], text@[at + 1]) is None,
{
    let tens: u32 = text[at] as u32;
    let ones: u32 = text[at + 1] as u32;
    if 48 <= tens && tens <= 57 && 48 <= ones && ones <= 57 {
        Some((10 * (tens - 48) + (ones - 48)) as u8)
    } else {
        None
    }
}

/// Reads the point in time that `line` holds from place `from` on.
pub fn read_timestamp_from(line: &Vec<char>, from: usize) -> (r: Option<Timestamp>)
    requires
        from <= line.len(),
    ensures
        r == parse_timestamp(line@.skip(from as int)),
{
    proof {
        reveal(parse_timestamp);
        reveal(parse_clock);
    }
    let ghost text = line@.skip(from as int);
    if line.len() - from < 9 {
        return None;
    }
    let cut: usize = line.len() - 9;
    let ghost clock = text.skip(text.len() - 9);
    proof {
        assert(text.take(text.len() - 9) =~= line@.subrange(from as int, cut as int));
        assert forall|k: int| 0 <= k < 9 implies clock[k] == line@[cut + k] by {}
    }
    let day: Option<i64> = read_i64_in(line, from, cut);
    if line[cut] != ' ' || line[cut + 3] != ':' || line[cut + 6] != ':' {
        return None;
    }
    let hours: Option<u8> = read_two_digits(line, cut + 1);
    let minutes: Option<u8> = read_two_digits(line, cut + 4);
    let seconds: Option<u8> = read_two_digits(line, cut + 7);
    match (day, hours, minutes, seconds) {
        (Some(d), Some(h), Some(m), Some(s)) => {
            if h < 24 && m < 60 && s < 60 {
                let secs: i128 = 86400 * (d as i128) + 3600 * (h as i128) + 60 * (m as i128) + (
                s as i128);
                if i64::MIN as i128 <= secs && secs <= i64::MAX as i128 {
                    Some(Timestamp { secs: secs as i64 })
                } else {
                    None
                }
            } else {
                None
            }
        },
        _ => None,
    }
}

/// Reads the point in time, or none, that `line` holds from place `from` on.
pub fn read_opt_timestamp_from(line: &Vec<char>, from: usize) -> (r: Option<Option<Timestamp>>)
    requires
        from <= line.len(),
    ensures
        r == parse_opt_timestamp(line@.skip(from as int)),
{
    let ghost text = line@.skip(from as int);
    if line.len() - from == 1 && line[from] == '-' {
        assert(text =~= seq!['-']);
        Some(None)
    } else {
        proof {
            if text == seq!['-'] {
                assert(text.len() == 1);
                assert(text[0] == '-');
            }
        }
        match read_timestamp_from(line, from) {
            Some(at) => Some(Some(at)),
            None => None,
        }
    }
}

} // verus!
