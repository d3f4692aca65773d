use punch::command::{
    add_note_to_today, add_summary_to_today, can_update_time_behind, get_default_day_in_minutes,
    get_default_punch_in_task, get_other_args_for_punch_in, handle_invalid_cmd, punch_in,
    punch_out, resume, run_command, summarise_time, summary, take_break, time_summary,
    update_time_behind, Outcome, SubCommand, TimeSummary,
};
use punch::config::Config;
use punch::day::Day;
use punch::day_model::DayState;
use punch::error::{DayError, TransitionFault};
use punch::time::Timestamp;

fn at(hour: i64, minute: i64) -> Timestamp {
    Timestamp::new(hour * 3600 + minute * 60)
}

fn words(list: &[&str]) -> Vec<String> {
    list.iter().map(|w| w.to_string()).collect()
}

fn ledger(behind: i64) -> Config {
    Config::new(480, "plan".to_string(), behind)
}

fn ended_day(start: Timestamp, end: Timestamp, target: u64) -> Day {
    let mut day = Day::new(&start, "write".to_string(), target);
    day.end_day_at(&end).unwrap();
    day
}

#[test]
fn from_string_knows_every_command() {
    let args = words(&["a", "b"]);
    let parse = |name: &str| SubCommand::from_string(&name.to_string(), args.clone());
    assert_eq!(parse("in"), SubCommand::In(args.clone()));
    assert_eq!(parse("out"), SubCommand::Out(args.clone()));
    assert_eq!(parse("pause"), SubCommand::Pause(args.clone()));
    assert_eq!(parse("resume"), SubCommand::Resume(args.clone()));
    assert_eq!(parse("summary"), SubCommand::Summary(args.clone()));
    assert_eq!(parse("view"), SubCommand::View(args.clone()));
    assert_eq!(parse("edit"), SubCommand::Edit(args.clone()));
    assert_eq!(parse("note"), SubCommand::Note(args.clone()));
    assert_eq!(parse("edit-config"), SubCommand::EditConfig(args.clone()));
    assert_eq!(parse("view-config"), SubCommand::ViewConfig(args.clone()));
    assert_eq!(parse("add-summary"), SubCommand::AddSummary(args.clone()));
}

#[test]
fn from_string_sets_surrounding_space_aside() {
    assert_eq!(SubCommand::from_string(&"  out\n".to_string(), vec![]), SubCommand::Out(vec![]));
    assert_eq!(
        SubCommand::from_string(&"\t\u{a0}pause\u{2003}\u{3000}".to_string(), vec![]),
        SubCommand::Pause(vec![])
    );
}

#[test]
fn from_string_keeps_an_unknown_name_trimmed() {
    assert_eq!(
        SubCommand::from_string(&" lunch ".to_string(), words(&["x"])),
        SubCommand::Invalid("lunch".to_string())
    );
    assert_eq!(
        SubCommand::from_string(&"In".to_string(), vec![]),
        SubCommand::Invalid("In".to_string())
    );
    assert_eq!(
        SubCommand::from_string(&"edit config".to_string(), vec![]),
        SubCommand::Invalid("edit config".to_string())
    );
    assert_eq!(
        SubCommand::from_string(&"   ".to_string(), vec![]),
        SubCommand::Invalid(String::new())
    );
    assert_eq!(SubCommand::from_string(&String::new(), vec![]), SubCommand::Invalid(String::new()));
}

#[test]
fn allowed_strings() {
    assert_eq!(
        SubCommand::get_allowed_strings(),
        words(&[
            "in",
            "out",
            "pause",
            "resume",
            "summary",
            "view",
            "edit",
            "note",
            "edit-config",
            "add-summary"
        ])
    );
}

#[test]
fn defaults_come_from_the_ledger() {
    let config = Config::new(450, "plan the day".to_string(), 12);
    assert_eq!(get_default_day_in_minutes(&config), 450);
    assert_eq!(get_default_punch_in_task(&config), "plan the day");
    assert_eq!(
        get_other_args_for_punch_in(&vec![], &config),
        ("plan the day".to_string(), 450)
    );
    assert_eq!(
        get_other_args_for_punch_in(&words(&["design", "ignored"]), &config),
        ("design".to_string(), 450)
    );
    let largest = Config::new(u32::MAX, String::new(), 0);
    assert_eq!(get_default_day_in_minutes(&largest), 4_294_967_295);
}

#[test]
fn punch_in_starts_a_day_with_the_ledgers_target() {
    let config = Config::new(450, "plan the day".to_string(), 0);
    let expected = Day::new(&at(9, 0), "design".to_string(), 450);
    assert_eq!(
        punch_in(&at(9, 0), false, &words(&["design"]), &config),
        Outcome::ClockedIn { day: expected, used_default_task: false }
    );
    let expected = Day::new(&at(9, 0), "plan the day".to_string(), 450);
    assert_eq!(
        punch_in(&at(9, 0), false, &vec![], &config),
        Outcome::ClockedIn { day: expected, used_default_task: true }
    );
}

#[test]
fn punch_in_twice_is_refused() {
    assert_eq!(punch_in(&at(9, 0), true, &vec![], &ledger(0)), Outcome::AlreadyClockedIn);
}

#[test]
fn invalid_command_lists_the_allowed_names() {
    assert_eq!(
        handle_invalid_cmd(&"lunch".to_string()),
        Outcome::InvalidCommand {
            name: "lunch".to_string(),
            allowed: SubCommand::get_allowed_strings()
        }
    );
}

#[test]
fn summarise_time_folds_the_day_into_the_ledger() {
    let day = ended_day(at(9, 0), at(17, 20), 480);
    let mut config = ledger(-40);
    let summary = summarise_time(&day, &mut config);
    assert_eq!(
        summary,
        TimeSummary {
            time_done: 500,
            break_time: 0,
            time_left: -20,
            minutes_behind: -60,
            minutes_behind_non_neg: 0
        }
    );
    assert_eq!(config, ledger(-60));
}

#[test]
fn update_time_behind_returns_the_ledger_to_store() {
    let mut day = Day::new(&at(9, 0), "write".to_string(), 480);
    day.start_break_at(&at(12, 0)).unwrap();
    day.end_current_block_at(&at(12, 30)).unwrap();
    day.end_day_at(&at(17, 0)).unwrap();
    assert!(can_update_time_behind(&day, &ledger(5)));
    let mut config = ledger(5);
    let summary = update_time_behind(&day, &mut config);
    assert_eq!(config, ledger(35));
    assert_eq!(
        summary,
        Ok(TimeSummary {
            time_done: 450,
            break_time: 30,
            time_left: 30,
            minutes_behind: 35,
            minutes_behind_non_neg: 35
        })
    );
}

#[test]
fn update_time_behind_refuses_an_open_day_and_leaves_the_ledger() {
    let mut day = Day::new(&at(9, 0), "write".to_string(), 480);
    let mut config = ledger(5);
    assert_eq!(update_time_behind(&day, &mut config), Err(DayError::DayNotEnded));
    assert_eq!(config, ledger(5));
    day.start_break_at(&at(12, 0)).unwrap();
    assert_eq!(update_time_behind(&day, &mut config), Err(DayError::DayNotEnded));
    assert_eq!(config, ledger(5));
}

#[test]
fn time_summary_reads_the_ledger_as_it_stands() {
    let day = ended_day(at(9, 0), at(17, 20), 480);
    let config = ledger(-40);
    assert_eq!(
        time_summary(&day, &config),
        TimeSummary {
            time_done: 500,
            break_time: 0,
            time_left: -20,
            minutes_behind: -40,
            minutes_behind_non_neg: 0
        }
    );
    assert_eq!(config, ledger(-40));
}

#[test]
fn can_update_time_behind_needs_an_ended_day_and_room_in_the_count() {
    let open = Day::new(&at(9, 0), "write".to_string(), 480);
    assert!(!can_update_time_behind(&open, &ledger(0)));
    let short = ended_day(at(9, 0), at(10, 0), 480);
    assert!(can_update_time_behind(&short, &ledger(i64::MAX - 420)));
    assert!(!can_update_time_behind(&short, &ledger(i64::MAX - 419)));
}

#[test]
fn punch_out_closes_the_day_and_updates_the_ledger() {
    let mut day = Day::new(&at(9, 0), "write".to_string(), 480);
    day.start_break_at(&at(12, 0)).unwrap();
    day.end_current_block_at(&at(12, 30)).unwrap();
    let mut closed = day.clone();
    closed.end_day_at(&at(17, 0)).unwrap();
    assert_eq!(
        punch_out(&at(17, 0), day, ledger(-40)),
        Outcome::PunchedOut {
            day: closed,
            config: ledger(-10),
            summary: TimeSummary {
                time_done: 450,
                break_time: 30,
                time_left: 30,
                minutes_behind: -10,
                minutes_behind_non_neg: 0
            }
        }
    );
}

#[test]
fn punch_out_twice_is_refused() {
    let day = ended_day(at(9, 0), at(17, 0), 480);
    assert_eq!(
        punch_out(&at(18, 0), day, ledger(0)),
        Outcome::PunchOutRefused { error: DayError::AlreadyEnded }
    );
}

#[test]
fn punch_out_before_the_running_span_started_is_refused() {
    let day = Day::new(&at(9, 0), "write".to_string(), 480);
    assert_eq!(
        punch_out(&at(8, 0), day, ledger(0)),
        Outcome::PunchOutRefused {
            error: DayError::InvalidTransition(TransitionFault::BeforeOpenInterval)
        }
    );
}

#[test]
fn punch_out_reports_a_count_that_cannot_grow() {
    let day = Day::new(&at(9, 0), "write".to_string(), 480);
    let closed = ended_day(at(9, 0), at(10, 0), 480);
    assert_eq!(
        punch_out(&at(10, 0), day, ledger(i64::MAX)),
        Outcome::CounterOverflow { day: closed }
    );
}

#[test]
fn take_break_keeps_the_day_open() {
    let day = Day::new(&at(9, 0), "write".to_string(), 480);
    let mut paused = day.clone();
    paused.start_break_at(&at(12, 0)).unwrap();
    let outcome = take_break(&at(12, 0), day);
    assert_eq!(outcome, Outcome::BreakStarted { day: paused.clone() });
    assert_eq!(paused.state(), DayState::OnBreak);
    assert_eq!(
        take_break(&at(12, 5), paused),
        Outcome::BreakRefused { error: DayError::InvalidTransition(TransitionFault::AlreadyOnBreak) }
    );
    assert_eq!(
        take_break(&at(18, 0), ended_day(at(9, 0), at(17, 0), 480)),
        Outcome::BreakRefused { error: DayError::AlreadyEnded }
    );
}

#[test]
fn resume_keeps_the_day_open() {
    let mut paused = Day::new(&at(9, 0), "write".to_string(), 480);
    paused.start_break_at(&at(12, 0)).unwrap();
    let mut back = paused.clone();
    back.end_current_block_at(&at(12, 30)).unwrap();
    assert_eq!(resume(&at(12, 30), paused), Outcome::Resumed { day: back.clone() });
    assert_eq!(back.state(), DayState::Working);
    assert_eq!(
        resume(&at(12, 40), back),
        Outcome::ResumeRefused { error: DayError::InvalidTransition(TransitionFault::NotOnBreak) }
    );
    assert_eq!(
        resume(&at(18, 0), ended_day(at(9, 0), at(17, 0), 480)),
        Outcome::ResumeRefused { error: DayError::AlreadyEnded }
    );
}

#[test]
fn summary_of_an_open_day_is_taken_as_of_now() {
    let day = Day::new(&at(9, 0), "write".to_string(), 480);
    let closed = ended_day(at(9, 0), at(16, 0), 480);
    assert_eq!(
        summary(&at(16, 0), day, ledger(10)),
        Outcome::Summarised {
            day: closed,
            config: ledger(70),
            summary: TimeSummary {
                time_done: 420,
                break_time: 0,
                time_left: 60,
                minutes_behind: 70,
                minutes_behind_non_neg: 70
            }
        }
    );
}

#[test]
fn summary_of_an_ended_day_folds_nothing() {
    let closed = ended_day(at(9, 0), at(16, 0), 480);
    assert_eq!(
        summary(&at(23, 0), closed.clone(), ledger(0)),
        Outcome::Summarised {
            day: closed,
            config: ledger(0),
            summary: TimeSummary {
                time_done: 420,
                break_time: 0,
                time_left: 60,
                minutes_behind: 0,
                minutes_behind_non_neg: 0
            }
        }
    );
}

#[test]
fn summary_after_punching_out_reports_the_count_as_stored() {
    let day = Day::new(&at(9, 0), "write".to_string(), 480);
    let (closed, stored) = match punch_out(&at(17, 20), day, ledger(0)) {
        Outcome::PunchedOut { day, config, summary } => {
            assert_eq!(summary.time_left, -20);
            assert_eq!(summary.minutes_behind, -20);
            (day, config)
        }
        other => panic!("not punched out: {:?}", other),
    };
    assert_eq!(stored, ledger(-20));
    assert_eq!(closed.end_time(), Some(at(17, 20)));
    for now in [at(17, 20), at(18, 0), at(8, 0)] {
        match summary(&now, closed.clone(), stored.clone()) {
            Outcome::Summarised { day, config, summary } => {
                assert_eq!(day, closed);
                assert_eq!(day.end_time(), Some(at(17, 20)));
                assert_eq!(config, ledger(-20));
                assert_eq!(summary.time_left, -20);
                assert_eq!(summary.minutes_behind, -20);
                assert_eq!(summary.minutes_behind_non_neg, 0);
            }
            other => panic!("not summarised: {:?}", other),
        }
    }
    // a count at its limit is no obstacle: nothing is added
    assert!(matches!(
        summary(&at(18, 0), closed.clone(), ledger(i64::MIN)),
        Outcome::Summarised { .. }
    ));
}

#[test]
fn summary_of_an_open_day_closes_it_once() {
    let mut day = Day::new(&at(9, 0), "write".to_string(), 480);
    day.start_break_at(&at(12, 0)).unwrap();
    let mut closed = day.clone();
    closed.end_day_at(&at(12, 30)).unwrap();
    let first = summary(&at(12, 30), day, ledger(10));
    assert_eq!(
        first,
        Outcome::Summarised {
            day: closed.clone(),
            config: ledger(310),
            summary: TimeSummary {
                time_done: 180,
                break_time: 30,
                time_left: 300,
                minutes_behind: 310,
                minutes_behind_non_neg: 310
            }
        }
    );
    // asked again with what was stored, nothing moves
    assert_eq!(
        summary(&at(13, 0), closed.clone(), ledger(310)),
        Outcome::Summarised {
            day: closed,
            config: ledger(310),
            summary: TimeSummary {
                time_done: 180,
                break_time: 30,
                time_left: 300,
                minutes_behind: 310,
                minutes_behind_non_neg: 310
            }
        }
    );
}

#[test]
fn summary_refused_and_overflow() {
    let day = Day::new(&at(9, 0), "write".to_string(), 480);
    assert_eq!(
        summary(&at(8, 0), day.clone(), ledger(0)),
        Outcome::SummaryRefused {
            error: DayError::InvalidTransition(TransitionFault::BeforeOpenInterval)
        }
    );
    assert_eq!(
        summary(&at(10, 0), day, ledger(i64::MAX)),
        Outcome::CounterOverflow { day: ended_day(at(9, 0), at(10, 0), 480) }
    );
}

#[test]
fn note_takes_exactly_one_argument() {
    let day = Day::new(&at(9, 0), "write".to_string(), 480);
    assert_eq!(add_note_to_today(&at(9, 5), day.clone(), &vec![]), Outcome::NoteWithoutMessage);
    assert_eq!(
        add_note_to_today(&at(9, 5), day.clone(), &words(&["two", "words"])),
        Outcome::NoteWithTooManyArguments
    );
    let mut noted = day.clone();
    noted.add_note(&at(9, 5), &"called Ann".to_string());
    assert_eq!(
        add_note_to_today(&at(9, 5), day, &words(&["called Ann"])),
        Outcome::NoteAdded { day: noted, message: "called Ann".to_string() }
    );
}

#[test]
fn summary_entry_takes_exactly_four_arguments() {
    let day = Day::new(&at(9, 0), "write".to_string(), 480);
    for n in [0usize, 1, 2, 3, 5] {
        let args: Vec<String> = (0..n).map(|i| i.to_string()).collect();
        assert_eq!(add_summary_to_today(day.clone(), &args), Outcome::SummaryNeedsFourArguments);
    }
    let mut summed = day.clone();
    summed.add_summary("dev".to_string(), "punch".to_string(), "tests".to_string(), "more".to_string());
    assert_eq!(
        add_summary_to_today(day, &words(&["dev", "punch", "tests", "more"])),
        Outcome::SummaryAdded { day: summed }
    );
}

#[test]
fn run_command_needs_a_record_for_all_but_in_and_invalid() {
    let now = at(10, 0);
    for name in [
        "out", "pause", "resume", "summary", "view", "edit", "note", "edit-config", "view-config",
        "add-summary",
    ] {
        let command = SubCommand::from_string(&name.to_string(), vec![]);
        assert_eq!(run_command(command, &now, None, ledger(0)), Outcome::NoDay);
    }
    assert_eq!(
        run_command(SubCommand::In(vec![]), &now, None, ledger(0)),
        Outcome::ClockedIn { day: Day::new(&now, "plan".to_string(), 480), used_default_task: true }
    );
    assert_eq!(
        run_command(SubCommand::Invalid("x".to_string()), &now, None, ledger(0)),
        handle_invalid_cmd(&"x".to_string())
    );
}

#[test]
fn run_command_dispatches_with_a_record() {
    let now = at(12, 0);
    let day = Day::new(&at(9, 0), "write".to_string(), 480);
    let config = ledger(3);
    let run = |command: SubCommand| run_command(command, &now, Some(day.clone()), config.clone());
    assert_eq!(run(SubCommand::In(vec![])), Outcome::AlreadyClockedIn);
    assert_eq!(run(SubCommand::Out(vec![])), punch_out(&now, day.clone(), config.clone()));
    assert_eq!(run(SubCommand::Pause(vec![])), take_break(&now, day.clone()));
    assert_eq!(run(SubCommand::Resume(vec![])), resume(&now, day.clone()));
    assert_eq!(run(SubCommand::Summary(vec![])), summary(&now, day.clone(), config.clone()));
    assert_eq!(run(SubCommand::View(vec![])), Outcome::ShowDay { day: day.clone() });
    assert_eq!(run(SubCommand::Edit(vec![])), Outcome::EditDay { day: day.clone() });
    assert_eq!(run(SubCommand::EditConfig(vec![])), Outcome::EditConfig { config: config.clone() });
    assert_eq!(run(SubCommand::ViewConfig(vec![])), Outcome::ShowConfig { config: config.clone() });
    assert_eq!(
        run(SubCommand::Note(words(&["hi"]))),
        add_note_to_today(&now, day.clone(), &words(&["hi"]))
    );
    assert_eq!(
        run(SubCommand::AddSummary(words(&["a", "b", "c", "d"]))),
        add_summary_to_today(day.clone(), &words(&["a", "b", "c", "d"]))
    );
    assert_eq!(
        run(SubCommand::Invalid("lunch".to_string())),
        handle_invalid_cmd(&"lunch".to_string())
    );
    assert!(matches!(run(SubCommand::Out(vec![])), Outcome::PunchedOut { .. }));
    assert!(matches!(run(SubCommand::Pause(vec![])), Outcome::BreakStarted { .. }));
    assert!(matches!(run(SubCommand::Resume(vec![])), Outcome::ResumeRefused { .. }));
}
