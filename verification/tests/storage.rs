use punch::config::Config;
use punch::day::Day;
use punch::day_model::DayState;
use punch::decimal::{push_int, push_nat, read_i64_in, read_u64_in};
use punch::escape::{push_escaped, read_unescaped_from};
use punch::field::{push_key, push_str, value_start};
use punch::lines::{join, split};
use punch::text::{to_chars, to_text};
use punch::time::Timestamp;
use punch::time_text::{
    push_opt_timestamp, push_timestamp, read_opt_timestamp_from, read_timestamp_from,
};

fn chars(text: &str) -> Vec<char> {
    text.chars().collect()
}

fn on_day(day: i64, hour: i64, minute: i64, second: i64) -> Timestamp {
    Timestamp::new(day * 86_400 + hour * 3600 + minute * 60 + second)
}

fn sample_day() -> Day {
    let mut day = Day::new(&on_day(19_783, 9, 0, 0), "write the report".to_string(), 480);
    day.add_note(&on_day(19_783, 9, 5, 30), &"two\nlines \\ and a backslash".to_string());
    day.start_break_at(&on_day(19_783, 12, 0, 0)).unwrap();
    day.end_current_block_at(&on_day(19_783, 12, 30, 0)).unwrap();
    day.add_summary(
        "dev".to_string(),
        "punch".to_string(),
        "storage: text".to_string(),
        "".to_string(),
    );
    day
}

#[test]
fn day_as_string_is_one_value_per_line() {
    let day = sample_day();
    let expected = "date: 19783\n\
                    task: write the report\n\
                    target: 480\n\
                    ended: -\n\
                    work: 2\n\
                    start: 19783 09:00:00\n\
                    end: 19783 12:00:00\n\
                    start: 19783 12:30:00\n\
                    end: -\n\
                    breaks: 1\n\
                    start: 19783 12:00:00\n\
                    end: 19783 12:30:00\n\
                    notes: 1\n\
                    at: 19783 09:05:30\n\
                    text: two\\nlines \\\\ and a backslash\n\
                    summaries: 1\n\
                    category: dev\n\
                    project: punch\n\
                    task: storage: text\n\
                    description: \n";
    assert_eq!(day.as_string(), expected);
}

#[test]
fn day_round_trips_through_text_in_every_state() {
    let mut day = sample_day();
    assert_eq!(day.state(), DayState::Working);
    assert_eq!(Day::parse(&day.as_string()), Some(day.clone()));
    day.start_break_at(&on_day(19_783, 15, 0, 1)).unwrap();
    assert_eq!(day.state(), DayState::OnBreak);
    assert_eq!(Day::parse(&day.as_string()), Some(day.clone()));
    day.end_day_at(&on_day(19_783, 17, 0, 59)).unwrap();
    assert_eq!(Day::parse(&day.as_string()), Some(day.clone()));
    let fresh = Day::new(&Timestamp::new(-1), String::new(), 0);
    assert_eq!(Day::parse(&fresh.as_string()), Some(fresh));
    let mut extreme = Day::new(&Timestamp::new(i64::MIN), "x".to_string(), i64::MAX as u64);
    extreme.end_day_at(&Timestamp::new(i64::MAX)).unwrap();
    assert_eq!(Day::parse(&extreme.as_string()), Some(extreme));
}

#[test]
fn day_parse_accepts_a_hand_edit_and_a_missing_last_line_feed() {
    let day = sample_day();
    let text = day.as_string().replace("start: 19783 09:00:00", "start: 19783 08:45:00");
    let edited = Day::parse(text.trim_end_matches('\n')).unwrap();
    assert_eq!(edited.day_start(), on_day(19_783, 8, 45, 0));
    assert_eq!(edited.work_intervals().len(), 2);
    assert_eq!(edited.notes(), day.notes());
}

#[test]
fn day_parse_rejects_what_is_no_consistent_record() {
    let good = sample_day().as_string();
    assert!(Day::parse(&good).is_some());
    // an edit that makes work overlap the break
    assert_eq!(Day::parse(&good.replace("end: 19783 12:00:00", "end: 19783 12:10:00")), None);
    // a length that does not match the list
    assert_eq!(Day::parse(&good.replace("work: 2", "work: 1")), None);
    assert_eq!(Day::parse(&good.replace("notes: 1", "notes: 18446744073709551615")), None);
    // a key that is not the one expected
    assert_eq!(Day::parse(&good.replace("target:", "goal:")), None);
    // a number that is none
    assert_eq!(Day::parse(&good.replace("target: 480", "target: 4x0")), None);
    assert_eq!(Day::parse(&good.replace("target: 480", "target: ")), None);
    // a time of day that does not exist
    assert_eq!(Day::parse(&good.replace("09:05:30", "09:65:30")), None);
    assert_eq!(Day::parse(&good.replace("09:05:30", "24:05:30")), None);
    // a backslash that escapes nothing
    assert_eq!(Day::parse(&good.replace("task: write", "task: wr\\ite")), None);
    // lines after the end, lines missing, nothing at all
    assert_eq!(Day::parse(&format!("{}extra: 1\n", good)), None);
    assert_eq!(Day::parse(&good[..good.len() - 14]), None);
    assert_eq!(Day::parse(""), None);
    // an ended day is marked by its end time alone
    assert_eq!(Day::parse(&good.replace("ended: -", "ended: 19783 13:00:00")), None);
}

#[test]
fn config_as_string_and_back() {
    let config = Config::new(450, "plan\nthe day".to_string(), -25);
    let text = config.as_string();
    assert_eq!(
        text,
        "day-in-minutes: 450\ndefault-punch-in-task: plan\\nthe day\nminutes-behind: -25\n"
    );
    assert_eq!(Config::parse(&text), Some(config));
    for config in [
        Config::default(),
        Config::new(0, String::new(), 0),
        Config::new(u32::MAX, "é ü".to_string(), i64::MAX),
        Config::new(1, "\\".to_string(), i64::MIN),
    ] {
        assert_eq!(Config::parse(&config.as_string()), Some(config));
    }
}

#[test]
fn config_parse_rejects_what_is_no_ledger() {
    let good = Config::default().as_string();
    assert_eq!(Config::parse(good.trim_end()), Some(Config::default()));
    assert_eq!(Config::parse(""), None);
    assert_eq!(Config::parse(&good.replace("480", "4294967296")), None);
    assert_eq!(Config::parse(&good.replace("480", "-1")), None);
    assert_eq!(Config::parse(&good.replace("minutes-behind: 0", "minutes-behind: 9223372036854775808")), None);
    assert_eq!(Config::parse(&good.replace("minutes-behind", "minutes_behind")), None);
    assert_eq!(Config::parse(&format!("{}\n", good)), None);
    assert_eq!(Config::parse(&good.replace(": ", ":")), None);
    let hand_edited = good.replace("minutes-behind: 0", "minutes-behind: -0040");
    assert_eq!(Config::parse(&hand_edited).map(|c| c.minutes_behind()), Some(-40));
}

#[test]
fn lines_split_and_join() {
    let lines = split(&chars("a\n\nbc\n"));
    assert_eq!(lines, vec![chars("a"), chars(""), chars("bc")]);
    assert_eq!(join(&lines), chars("a\n\nbc\n"));
    assert_eq!(split(&chars("a\nb")), vec![chars("a"), chars("b")]);
    assert_eq!(split(&chars("")), Vec::<Vec<char>>::new());
    assert_eq!(split(&chars("\n")), vec![chars("")]);
    assert_eq!(join(&Vec::new()), chars(""));
}

#[test]
fn decimal_text() {
    let mut out = chars("n=");
    push_nat(&mut out, 0);
    push_nat(&mut out, 1_234_567_890);
    push_int(&mut out, -7);
    push_int(&mut out, i64::MIN);
    push_nat(&mut out, u64::MAX);
    assert_eq!(out, chars("n=01234567890-7-922337203685477580818446744073709551615"));
    let text = chars("x18446744073709551615y");
    assert_eq!(read_u64_in(&text, 1, 21), Some(u64::MAX));
    assert_eq!(read_u64_in(&text, 1, 22), None);
    assert_eq!(read_u64_in(&text, 1, 1), None);
    assert_eq!(read_u64_in(&chars("18446744073709551616"), 0, 20), None);
    assert_eq!(read_u64_in(&chars("0042"), 0, 4), Some(42));
    assert_eq!(read_i64_in(&chars("-9223372036854775808"), 0, 20), Some(i64::MIN));
    assert_eq!(read_i64_in(&chars("-9223372036854775809"), 0, 20), None);
    assert_eq!(read_i64_in(&chars("9223372036854775807"), 0, 19), Some(i64::MAX));
    assert_eq!(read_i64_in(&chars("9223372036854775808"), 0, 19), None);
    assert_eq!(read_i64_in(&chars("-"), 0, 1), None);
    assert_eq!(read_i64_in(&chars("+5"), 0, 2), None);
    assert_eq!(read_i64_in(&chars("-0"), 0, 2), Some(0));
}

#[test]
fn escaped_text() {
    let mut out = Vec::new();
    push_escaped(&mut out, "a\\b\nc");
    assert_eq!(out, chars("a\\\\b\\nc"));
    assert_eq!(read_unescaped_from(&out, 0), Some("a\\b\nc".to_string()));
    assert_eq!(read_unescaped_from(&chars("k: a\\n"), 3), Some("a\n".to_string()));
    assert_eq!(read_unescaped_from(&chars("a\\"), 0), None);
    assert_eq!(read_unescaped_from(&chars("a\\t"), 0), None);
    assert_eq!(read_unescaped_from(&chars(""), 0), Some(String::new()));
}

#[test]
fn key_and_value() {
    let mut out = Vec::new();
    push_key(&mut out, "task");
    push_str(&mut out, "déjà vu");
    assert_eq!(out, chars("task: déjà vu"));
    assert_eq!(value_start(&out, "task"), Some(6));
    assert_eq!(value_start(&out, "tas"), None);
    assert_eq!(value_start(&out, "task:"), None);
    assert_eq!(value_start(&chars("task:"), "task"), None);
    assert_eq!(value_start(&chars("task: "), "task"), Some(6));
    assert_eq!(value_start(&chars(": x"), ""), Some(2));
}

#[test]
fn timestamps_as_text() {
    let mut out = Vec::new();
    push_timestamp(&mut out, on_day(19_783, 9, 5, 0));
    assert_eq!(out, chars("19783 09:05:00"));
    assert_eq!(read_timestamp_from(&out, 0), Some(on_day(19_783, 9, 5, 0)));
    let mut out = Vec::new();
    push_timestamp(&mut out, Timestamp::new(-1));
    assert_eq!(out, chars("-1 23:59:59"));
    assert_eq!(read_timestamp_from(&out, 0), Some(Timestamp::new(-1)));
    for secs in [0, 59, 60, 86_399, 86_400, -86_400, -86_401, i64::MAX, i64::MIN] {
        let mut out = chars("at: ");
        push_timestamp(&mut out, Timestamp::new(secs));
        assert_eq!(read_timestamp_from(&out, 4), Some(Timestamp::new(secs)));
        assert_eq!(read_opt_timestamp_from(&out, 4), Some(Some(Timestamp::new(secs))));
    }
    let mut out = Vec::new();
    push_opt_timestamp(&mut out, None);
    assert_eq!(out, chars("-"));
    assert_eq!(read_opt_timestamp_from(&out, 0), Some(None));
    assert_eq!(read_timestamp_from(&out, 0), None);
    assert_eq!(read_timestamp_from(&chars("1 9:05:00"), 0), None);
    assert_eq!(read_timestamp_from(&chars("1 09:05:60"), 0), None);
    assert_eq!(read_timestamp_from(&chars("1 09-05-00"), 0), None);
    assert_eq!(read_timestamp_from(&chars(" 09:05:00"), 0), None);
    assert_eq!(read_timestamp_from(&chars("106751991167301 00:00:00"), 0), None);
    assert_eq!(
        read_timestamp_from(&chars("106751991167300 15:30:07"), 0),
        Some(Timestamp::new(i64::MAX))
    );
}

#[test]
fn text_to_chars_and_back() {
    assert_eq!(to_chars("héllo\n"), chars("héllo\n"));
    assert_eq!(to_chars(""), Vec::<char>::new());
    assert_eq!(to_text(&chars("héllo\n")), "héllo\n");
    assert_eq!(to_text(&Vec::new()), "");
}
