//! The ledger as text: three lines, `key: value` each.

use vstd::prelude::*;
use vstd::string::*;
use crate::config::{Config, ConfigView};
use crate::decimal::{
    lemma_render_int,
    lemma_render_nat,
    parse_i64,
    parse_u64,
    push_int,
    push_nat,
    read_i64_in,
    read_u64_in,
    render_int,
    render_nat,
};
use crate::escape::{escaped, lemma_escaped, push_escaped, read_unescaped_from, unescaped};
use crate::field::{field_line, field_value, lemma_field_value, push_key, value_start};
use crate::lines::{are_lines, join_lines, lemma_split_join, split, split_lines};
use crate::text::{to_chars, to_text};

verus! {

/// The lines that hold the ledger `c`.
pub open spec fn config_lines(c: ConfigView) -> Seq<Seq<char>> {
    seq![
        field_line("day-in-minutes"@, render_nat(c.day_in_minutes as nat)),
        field_line("default-punch-in-task"@, escaped(c.default_punch_in_task)),
        field_line("minutes-behind"@, render_int(c.minutes_behind)),
    ]
}

/// The ledger `c` as text.
pub open spec fn render_config(c: ConfigView) -> Seq<char> {
    join_lines(config_lines(c))
}

/// The ledger that `lines` hold: exactly the three lines, in their order,
/// with a target that 32 bits and a count that 64 bits can hold.
pub open spec fn parse_config_lines(lines: Seq<Seq<char>>) -> Option<ConfigView> {
    if lines.len() != 3 {
        None
    } else {
        match (
            field_value("day-in-minutes"@, lines[0]),
            field_value("default-punch-in-task"@, lines[1]),
            field_value("minutes-behind"@, lines[2]),
        ) {
            (Some(day), Some(task), Some(behind)) => match (
                parse_u64(day),
                unescaped(task),
                parse_i64(behind),
            ) {
                (Some(day_in_minutes), Some(default_punch_in_task), Some(minutes_behind)) => if day_in_minutes
                    <= u32::MAX {
                    Some(
                        ConfigView {
                            day_in_minutes: day_in_minutes as int,
                            default_punch_in_task,
                            minutes_behind: minutes_behind as int,
                        },
                    )
                } else {
                    None
                },
                _ => None,
            },
            _ => None,
        }
    }
}

/// The ledger that `text` holds.
pub open spec fn parse_config(text: Seq<char>) -> Option<ConfigView> {
    parse_config_lines(split_lines(text))
}

/// The ledger `c` is one that can be held: its target fits 32 bits, its count
/// 64.
pub open spec fn config_in_range(c: ConfigView) -> bool {
    &&& 0 <= c.day_in_minutes <= u32::MAX
    &&& i64::MIN <= c.minutes_behind <= i64::MAX
}

/// A ledger written as text and read back is the ledger that was written.
pub proof fn lemma_config_round_trip(c: ConfigView)
    requires
        config_in_range(c),
    ensures
        parse_config(render_config(c)) == Some(c),
{
    let lines = config_lines(c);
    lemma_render_nat(c.day_in_minutes as nat);
    lemma_escaped(c.default_punch_in_task);
    lemma_render_int(c.minutes_behind);
    lemma_field_value("day-in-minutes"@, render_nat(c.day_in_minutes as nat));
    lemma_field_value("default-punch-in-task"@, escaped(c.default_punch_in_task));
    lemma_field_value("minutes-behind"@, render_int(c.minutes_behind));
    lemma_config_lines_are_lines(c);
    lemma_split_join(lines);
}

/// No line of a ledger holds a line feed.
pub proof fn lemma_config_lines_are_lines(c: ConfigView)
    ensures
        are_lines(config_lines(c)),
{
    reveal_strlit("day-in-minutes");
    reveal_strlit("default-punch-in-task");
    reveal_strlit("minutes-behind");
    lemma_render_nat(c.day_in_minutes as nat);
    lemma_escaped(c.default_punch_in_task);
    lemma_render_int(c.minutes_behind);
    let lines = config_lines(c);
    crate::field::lemma_field_line_no_newline(
        "day-in-minutes"@,
        render_nat(c.day_in_minutes as nat),
    );
    crate::field::lemma_field_line_no_newline(
        "default-punch-in-task"@,
        escaped(c.default_punch_in_task),
    );
    crate::field::lemma_field_line_no_newline("minutes-behind"@, render_int(c.minutes_behind));
}

impl Config {
    /// The ledger as text, one `key: value` line for each field.
    pub fn as_string(&self) -> (text: String)
        ensures
            text@ == render_config(self@),
    {
        let mut lines: Vec<Vec<char>> = Vec::new();
        let mut line: Vec<char> = Vec::new();
        push_key(&mut line, "day-in-minutes");
        push_nat(&mut line, self.day_in_minutes() as u64);
        lines.push(line);
        let mut line: Vec<char> = Vec::new();
        push_key(&mut line, "default-punch-in-task");
        push_escaped(&mut line, self.default_punch_in_task().as_str());
        lines.push(line);
        let mut line: Vec<char> = Vec::new();
        push_key(&mut line, "minutes-behind");
        push_int(&mut line, self.minutes_behind());
        lines.push(line);
        proof {
            crate::field::lemma_field_line_parts(
                "day-in-minutes"@,
                render_nat(self@.day_in_minutes as nat),
            );
            crate::field::lemma_field_line_parts(
                "default-punch-in-task"@,
                escaped(self@.default_punch_in_task),
            );
            crate::field::lemma_field_line_parts(
                "minutes-behind"@,
                render_int(self@.minutes_behind),
            );
        }
        assert(crate::lines::line_views(lines@) =~= config_lines(self@));
        to_text(&crate::lines::join(&lines))
    }

    /// Reads a ledger from text as `as_string` writes it. A last line
    /// without its line feed is accepted.
    pub fn parse(text: &str) -> (r: Option<Config>)
        ensures
            match r {
                Some(config) => parse_config(text@) == Some(config@),
                None => parse_config(text@) is None,
            },
    {
        let lines: Vec<Vec<char>> = split(&to_chars(text));
        assert(crate::lines::line_views(lines@) == split_lines(text@));
        if lines.len() != 3 {
            return None;
        }
        assert(crate::lines::line_views(lines@)[0] == lines@[0]@);
        assert(crate::lines::line_views(lines@)[1] == lines@[1]@);
        assert(crate::lines::line_views(lines@)[2] == lines@[2]@);
        let day_in_minutes: u64 = match value_start(&lines[0], "day-in-minutes") {
            Some(from) => {
                assert(lines@[0]@.subrange(from as int, lines@[0]@.len() as int) =~= lines@[0]@.skip(
                    from as int,
                ));
                match read_u64_in(&lines[0], from, lines[0].len()) {
                    Some(n) => n,
                    None => {
                        return None;
                    },
                }
            },
            None => {
                return None;
            },
        };
        let task: String = match value_start(&lines[1], "default-punch-in-task") {
            Some(from) => match read_unescaped_from(&lines[1], from) {
                Some(t) => t,
                None => {
                    return None;
                },
            },
            None => {
                return None;
            },
        };
        let minutes_behind: i64 = match value_start(&lines[2], "minutes-behind") {
            Some(from) => {
                assert(lines@[2]@.subrange(from as int, lines@[2]@.len() as int) =~= lines@[2]@.skip(
                    from as int,
                ));
                match read_i64_in(&lines[2], from, lines[2].len()) {
                    Some(n) => n,
                    None => {
                        return None;
                    },
                }
            },
            None => {
                return None;
            },
        };
        if day_in_minutes > u32::MAX as u64 {
            return None;
        }
        Some(Config::new(day_in_minutes as u32, task, minutes_behind))
    }
}

} // verus!
