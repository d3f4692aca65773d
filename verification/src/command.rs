//! The command layer: what each command decides, given the time, today's
//! record and the ledger. Reading the clock, loading and storing, and showing
//! the outcome are left to the caller.

use vstd::prelude::*;
use vstd::string::*;
use vstd::pervasive::unreached;
use crate::config::{Config, ConfigView};
use crate::day::Day;
use crate::day_model::{DayView, SummaryEntryView};
use crate::error::DayError;
use crate::text::{same_text, trim, trimmed};
use crate::time::Timestamp;

verus! {

/// A command with the arguments that followed its name.
#[derive(Clone, Debug, PartialEq, Eq)]
pub enum SubCommand {
    In(Vec<String>),
    Out(Vec<String>),
    Pause(Vec<String>),
    Resume(Vec<String>),
    Summary(Vec<String>),
    View(Vec<String>),
    Edit(Vec<String>),
    Note(Vec<String>),
    EditConfig(Vec<String>),
    ViewConfig(Vec<String>),
    AddSummary(Vec<String>),
    /// A name that is no command, as it was given but for surrounding space.
    Invalid(String),
}

impl SubCommand {
    /// `command` is what the word `word` with the arguments `args` stands
    /// for.
    pub open spec fn parses_to(word: Seq<char>, args: Vec<String>, command: SubCommand) -> bool {
        if word == "in"@ {
            command == SubCommand::In(args)
        } else if word == "out"@ {
            command == SubCommand::Out(args)
        } else if word == "pause"@ {
            command == SubCommand::Pause(args)
        } else if word == "resume"@ {
            command == SubCommand::Resume(args)
        } else if word == "summary"@ {
            command == SubCommand::Summary(args)
        } else if word == "view"@ {
            command == SubCommand::View(args)
        } else if word == "edit"@ {
            command == SubCommand::Edit(args)
        } else if word == "note"@ {
            command == SubCommand::Note(args)
        } else if word == "edit-config"@ {
            command == SubCommand::EditConfig(args)
        } else if word == "view-config"@ {
            command == SubCommand::ViewConfig(args)
        } else if word == "add-summary"@ {
            command == SubCommand::AddSummary(args)
        } else {
            command matches SubCommand::Invalid(given) && given@ == word
        }
    }

    /// The command names offered to a user who gave none that exists.
    pub open spec fn allowed_words() -> Seq<Seq<char>> {
        seq![
            "in"@,
            "out"@,
            "pause"@,
            "resume"@,
            "summary"@,
            "view"@,
            "edit"@,
            "note"@,
            "edit-config"@,
            "add-summary"@,
        ]
    }

    /// The command that `name` stands for, space around the name set aside,
    /// with `other_args` as its arguments.
    pub fn from_string(name: &String, other_args: Vec<String>) -> (command: SubCommand)
        ensures
            SubCommand::parses_to(trimmed(name@), other_args, command),
    {
        let word: String = String::from_str(trim(name.as_str()));
        if same_text(&word, "in") {
            SubCommand::In(other_args)
        } else if same_text(&word, "out") {
            SubCommand::Out(other_args)
        } else if same_text(&word, "pause") {
            SubCommand::Pause(other_args)
        } else if same_text(&word, "resume") {
            SubCommand::Resume(other_args)
        } else if same_text(&word, "summary") {
            SubCommand::Summary(other_args)
        } else if same_text(&word, "view") {
            SubCommand::View(other_args)
        } else if same_text(&word, "edit") {
            SubCommand::Edit(other_args)
        } else if same_text(&word, "note") {
            SubCommand::Note(other_args)
        } else if same_text(&word, "edit-config") {
            SubCommand::EditConfig(other_args)
        } else if same_text(&word, "view-config") {
            SubCommand::ViewConfig(other_args)
        } else if same_text(&word, "add-summary") {
            SubCommand::AddSummary(other_args)
        } else {
            SubCommand::Invalid(word)
        }
    }

    /// The command names offered to a user who gave none that exists.
    pub fn get_allowed_strings() -> (words: Vec<String>)
        ensures
            words.deep_view() == SubCommand::allowed_words(),
    {
        let mut words: Vec<String> = Vec::new();
        words.push(String::from_str("in"));
        words.push(String::from_str("out"));
        words.push(String::from_str("pause"));
        words.push(String::from_str("resume"));
        words.push(String::from_str("summary"));
        words.push(String::from_str("view"));
        words.push(String::from_str("edit"));
        words.push(String::from_str("note"));
        words.push(String::from_str("edit-config"));
        words.push(String::from_str("add-summary"));
        assert(words.deep_view() =~= SubCommand::allowed_words());
        words
    }
}

/// The figures shown when a day is closed, all in minutes.
#[derive(Clone, Copy, Debug, PartialEq, Eq, Structural)]
pub struct TimeSummary {
    /// Minutes of work done on the day.
    pub time_done: i64,
    /// Minutes spent on break.
    pub break_time: i64,
    /// Minutes left to the day's target; negative for overtime.
    pub time_left: i64,
    /// Minutes behind schedule overall, this day included.
    pub minutes_behind: i64,
    /// The same, read as nothing while ahead of schedule.
    pub minutes_behind_non_neg: i64,
}

impl TimeSummary {
    /// The figures are those of the ended day `day` and of the ledger
    /// `ledger`, which has the day folded in.
    pub open spec fn describes(self, day: DayView, ledger: ConfigView) -> bool {
        &&& self.time_done == day.time_done_minutes()
        &&& self.break_time == day.total_break_minutes()
        &&& self.time_left == day.time_left_minutes()
        &&& self.minutes_behind == ledger.minutes_behind
        &&& self.minutes_behind_non_neg == ledger.minutes_behind_non_neg()
    }
}

/// What a command came to, with everything the caller needs to store and to
/// show.
#[derive(Clone, Debug, PartialEq, Eq)]
pub enum Outcome {
    /// The day was started; `day` is to be stored.
    ClockedIn { day: Day, used_default_task: bool },
    /// There is a record for today already; nothing changes.
    AlreadyClockedIn,
    /// The name given is no command; `allowed` lists the names to offer.
    InvalidCommand { name: String, allowed: Vec<String> },
    /// There is no record for today, and the command needs one.
    NoDay,
    /// The day was closed and folded into the ledger; both are to be stored.
    PunchedOut { day: Day, config: Config, summary: TimeSummary },
    /// The day could not be closed.
    PunchOutRefused { error: DayError },
    /// The day was closed and is to be stored, but the ledger's count cannot
    /// hold the new total: the ledger stays as it is.
    CounterOverflow { day: Day },
    /// A break was started; `day` is to be stored.
    BreakStarted { day: Day },
    /// No break could be started.
    BreakRefused { error: DayError },
    /// Work was taken up again; `day` is to be stored.
    Resumed { day: Day },
    /// There was no break to end.
    ResumeRefused { error: DayError },
    /// The figures of the day. An open day was closed by the command and
    /// folded into the ledger, once; a day that had ended before is as it
    /// was, and so is the ledger. Both are to be stored.
    Summarised { day: Day, config: Config, summary: TimeSummary },
    /// The day is open and cannot be closed at the time given.
    SummaryRefused { error: DayError },
    /// The record is to be shown.
    ShowDay { day: Day },
    /// The record is to be handed to the user for editing.
    EditDay { day: Day },
    /// The ledger is to be shown.
    ShowConfig { config: Config },
    /// The ledger is to be handed to the user for editing.
    EditConfig { config: Config },
    /// A note was added; `day` is to be stored.
    NoteAdded { day: Day, message: String },
    /// A note needs its message.
    NoteWithoutMessage,
    /// A note takes one argument only.
    NoteWithTooManyArguments,
    /// A summary entry was added; `day` is to be stored.
    SummaryAdded { day: Day },
    /// A summary entry takes exactly four arguments.
    SummaryNeedsFourArguments,
}

/// Minutes of work intended for a day, as the ledger has them.
pub fn get_default_day_in_minutes(config: &Config) -> (minutes: u64)
    ensures
        minutes == config@.day_in_minutes,
        minutes <= u32::MAX,
{
    config.day_in_minutes() as u64
}

/// The task label used when punching in names none, as the ledger has it.
pub fn get_default_punch_in_task(config: &Config) -> (task: String)
    ensures
        task@ == config@.default_punch_in_task,
{
    config.default_punch_in_task().clone()
}

/// The task label that punching in with the arguments `args` starts the day
/// with: the first argument, or the ledger's default where there is none.
pub open spec fn punch_in_task(args: Seq<String>, config: ConfigView) -> Seq<char> {
    if args.len() == 0 {
        config.default_punch_in_task
    } else {
        args[0]@
    }
}

/// The task label and the target in minutes for a day that is started with
/// the arguments `other_args`.
pub fn get_other_args_for_punch_in(other_args: &Vec<String>, config: &Config) -> (parsed: (
    String,
    u64,
))
    ensures
        parsed.0@ == punch_in_task(other_args@, config@),
        parsed.1 == config@.day_in_minutes,
        parsed.1 <= u32::MAX,
{
    let default_time_to_do: u64 = get_default_day_in_minutes(config);
    let punch_in_task: String = if other_args.len() == 0 {
        get_default_punch_in_task(config)
    } else {
        other_args[0].clone()
    };
    (punch_in_task, default_time_to_do)
}

/// What punching in at `now` comes to: refused if today has a record
/// already, else a new day that works on the task given, or on the ledger's
/// default, towards the ledger's daily target.
pub open spec fn punch_in_outcome(
    now: Timestamp,
    clocked_in: bool,
    args: Seq<String>,
    config: ConfigView,
    outcome: Outcome,
) -> bool {
    if clocked_in {
        outcome == Outcome::AlreadyClockedIn
    } else {
        &&& outcome matches Outcome::ClockedIn { day, used_default_task }
        &&& day.wf()
        &&& day@ == DayView::started(now, punch_in_task(args, config), config.day_in_minutes)
        &&& used_default_task == (args.len() == 0)
    }
}

/// Punches in at `now`, unless today has a record already.
pub fn punch_in(now: &Timestamp, clocked_in: bool, other_args: &Vec<String>, config: &Config) -> (outcome:
    Outcome)
    ensures
        punch_in_outcome(*now, clocked_in, other_args@, config@, outcome),
{
    if clocked_in {
        Outcome::AlreadyClockedIn
    } else {
        let parsed: (String, u64) = get_other_args_for_punch_in(other_args, config);
        let new_day: Day = Day::new(now, parsed.0, parsed.1);
        Outcome::ClockedIn { day: new_day, used_default_task: other_args.len() == 0 }
    }
}

/// What a name that is no command comes to: the name, and the names to
/// offer in its place.
pub open spec fn invalid_command_outcome(name: Seq<char>, outcome: Outcome) -> bool {
    &&& outcome matches Outcome::InvalidCommand { name: given, allowed }
    &&& given@ == name
    &&& allowed.deep_view() == SubCommand::allowed_words()
}

/// Answers a name that is no command.
pub fn handle_invalid_cmd(command: &String) -> (outcome: Outcome)
    ensures
        invalid_command_outcome(command@, outcome),
{
    Outcome::InvalidCommand { name: command.clone(), allowed: SubCommand::get_allowed_strings() }
}

/// The figures of the ended day, with the ledger as it stands.
pub fn time_summary(day: &Day, config: &Config) -> (summary: TimeSummary)
    requires
        day.wf(),
        day@.has_ended(),
    ensures
        summary.describes(day@, config@),
{
    let time_left: i64 = match day.get_time_left() {
        Ok(minutes) => minutes,
        Err(_) => unreached(),
    };
    let break_time: i64 = match day.get_total_break_time() {
        Ok(minutes) => minutes,
        Err(_) => unreached(),
    };
    let time_done: i64 = match day.get_time_done() {
        Ok(minutes) => minutes,
        Err(_) => unreached(),
    };
    TimeSummary {
        time_done,
        break_time,
        time_left,
        minutes_behind: config.minutes_behind(),
        minutes_behind_non_neg: config.minutes_behind_non_neg(),
    }
}

/// Folds the ended day into the ledger and reports the day's figures.
pub fn summarise_time(day: &Day, config: &mut Config) -> (summary: TimeSummary)
    requires
        day.wf(),
        day@.has_ended(),
        old(config)@.absorbs(day@.time_left_minutes()),
    ensures
        final(config)@ == old(config)@.update_minutes_behind(day@.time_left_minutes()),
        summary.describes(day@, final(config)@),
{
    let time_left: i64 = match day.get_time_left() {
        Ok(minutes) => minutes,
        Err(_) => unreached(),
    };
    config.update_minutes_behind(time_left);
    time_summary(day, config)
}

/// Folds the day into the ledger, if the day has ended; the ledger is then to
/// be stored. An open day has no figures to fold: it is refused and the
/// ledger stays as it is.
pub fn update_time_behind(day: &Day, config: &mut Config) -> (r: Result<TimeSummary, DayError>)
    requires
        day.wf(),
        day@.has_ended() ==> old(config)@.absorbs(day@.time_left_minutes()),
    ensures
        match r {
            Ok(summary) => day@.has_ended() && final(config)@ == old(
                config,
            )@.update_minutes_behind(day@.time_left_minutes()) && summary.describes(
                day@,
                final(config)@,
            ),
            Err(error) => !day@.has_ended() && error == DayError::DayNotEnded && *final(config)
                == *old(config),
        },
{
    if day.has_ended() {
        Ok(summarise_time(day, config))
    } else {
        Err(DayError::DayNotEnded)
    }
}

/// The ledger can take the ended day `day`.
pub fn can_update_time_behind(day: &Day, config: &Config) -> (b: bool)
    requires
        day.wf(),
    ensures
        b == (day@.has_ended() && config@.absorbs(day@.time_left_minutes())),
{
    match day.get_time_left() {
        Ok(minutes) => config.can_absorb(minutes),
        Err(_) => false,
    }
}

/// What punching out at `now` comes to. Refused where the day cannot end at
/// `now`. Else the day ends at `now` and is folded into the ledger, unless
/// the ledger's count cannot hold the new total.
pub open spec fn punch_out_outcome(
    now: Timestamp,
    day: DayView,
    config: ConfigView,
    outcome: Outcome,
) -> bool {
    match day.check_end_day(now) {
        Err(error) => outcome == Outcome::PunchOutRefused { error },
        Ok(_) => closed_day_outcome(day.end_day(now), config, outcome, false),
    }
}

/// What folding the day `closed`, which the command has just ended, into the
/// ledger comes to: the day and the ledger with the day folded in, once, as
/// `Summarised` for the command that asks for the summary and as `PunchedOut`
/// for the one that punches out; or, where the ledger's count cannot hold the
/// new total, the closed day alone.
pub open spec fn closed_day_outcome(
    closed: DayView,
    config: ConfigView,
    outcome: Outcome,
    summarised: bool,
) -> bool {
    if config.absorbs(closed.time_left_minutes()) {
        let updated = config.update_minutes_behind(closed.time_left_minutes());
        if summarised {
            &&& outcome matches Outcome::Summarised { day, config: ledger, summary }
            &&& day.wf()
            &&& day@ == closed
            &&& ledger@ == updated
            &&& summary.describes(closed, updated)
        } else {
            &&& outcome matches Outcome::PunchedOut { day, config: ledger, summary }
            &&& day.wf()
            &&& day@ == closed
            &&& ledger@ == updated
            &&& summary.describes(closed, updated)
        }
    } else {
        &&& outcome matches Outcome::CounterOverflow { day }
        &&& day.wf()
        &&& day@ == closed
    }
}

/// Punches out at `now`.
pub fn punch_out(now: &Timestamp, day: Day, config: Config) -> (outcome: Outcome)
    requires
        day.wf(),
    ensures
        punch_out_outcome(*now, day@, config@, outcome),
{
    let mut day = day;
    match day.end_day_at(now) {
        Ok(_) => {
            if can_update_time_behind(&day, &config) {
                let mut config = config;
                match update_time_behind(&day, &mut config) {
                    Ok(summary) => Outcome::PunchedOut { day, config, summary },
                    Err(_) => unreached(),
                }
            } else {
                Outcome::CounterOverflow { day }
            }
        },
        Err(error) => Outcome::PunchOutRefused { error },
    }
}

/// What taking a break at `now` comes to: the break starts, or the move is
/// refused. The day stays open either way.
pub open spec fn take_break_outcome(now: Timestamp, day: DayView, outcome: Outcome) -> bool {
    match day.check_start_break(now) {
        Err(error) => outcome == Outcome::BreakRefused { error },
        Ok(_) => {
            &&& outcome matches Outcome::BreakStarted { day: paused }
            &&& paused.wf()
            &&& paused@ == day.start_break(now)
        },
    }
}

/// Takes a break at `now`.
pub fn take_break(now: &Timestamp, day: Day) -> (outcome: Outcome)
    requires
        day.wf(),
    ensures
        take_break_outcome(*now, day@, outcome),
{
    let mut day = day;
    match day.start_break_at(now) {
        Ok(_) => Outcome::BreakStarted { day },
        Err(error) => Outcome::BreakRefused { error },
    }
}

/// What going back to work at `now` comes to: the break ends and work goes
/// on, or the move is refused. The day stays open either way.
pub open spec fn resume_outcome(now: Timestamp, day: DayView, outcome: Outcome) -> bool {
    match day.check_end_current_block(now) {
        Err(error) => outcome == Outcome::ResumeRefused { error },
        Ok(_) => {
            &&& outcome matches Outcome::Resumed { day: resumed }
            &&& resumed.wf()
            &&& resumed@ == day.end_current_block(now)
        },
    }
}

/// Goes back to work at `now`.
pub fn resume(now: &Timestamp, day: Day) -> (outcome: Outcome)
    requires
        day.wf(),
    ensures
        resume_outcome(*now, day@, outcome),
{
    let mut day = day;
    match day.end_current_block_at(now) {
        Ok(_) => Outcome::Resumed { day },
        Err(error) => Outcome::ResumeRefused { error },
    }
}

/// What asking for the summary at `now` comes to. An open day is closed at
/// `now` and folded into the ledger, as punching out would, and refused where
/// it cannot end then. A day that had ended before was folded in when it
/// ended: its figures are given with the day and the ledger as they are.
pub open spec fn summary_outcome(
    now: Timestamp,
    day: DayView,
    config: ConfigView,
    outcome: Outcome,
) -> bool {
    match day.check_end_day(now) {
        Err(DayError::AlreadyEnded) => {
            &&& outcome matches Outcome::Summarised { day: same, config: ledger, summary }
            &&& same.wf()
            &&& same@ == day
            &&& ledger@ == config
            &&& summary.describes(day, config)
        },
        Err(error) => outcome == Outcome::SummaryRefused { error },
        Ok(_) => closed_day_outcome(day.end_day(now), config, outcome, true),
    }
}

/// Sums up the day, closing it at `now` if it is open.
pub fn summary(now: &Timestamp, day: Day, config: Config) -> (outcome: Outcome)
    requires
        day.wf(),
    ensures
        summary_outcome(*now, day@, config@, outcome),
{
    let mut day = day;
    match day.end_day_at(now) {
        Err(DayError::AlreadyEnded) => {
            let summary: TimeSummary = time_summary(&day, &config);
            Outcome::Summarised { day, config, summary }
        },
        Err(error) => Outcome::SummaryRefused { error },
        Ok(_) => {
            if can_update_time_behind(&day, &config) {
                let mut config = config;
                let summary: TimeSummary = summarise_time(&day, &mut config);
                Outcome::Summarised { day, config, summary }
            } else {
                Outcome::CounterOverflow { day }
            }
        },
    }
}

/// Asking for the summary of a day that has ended is no second closing: the
/// day and the ledger come back as they are, and the count reported is the
/// ledger's own.
pub proof fn lemma_summary_of_ended_day(
    now: Timestamp,
    day: DayView,
    config: ConfigView,
    outcome: Outcome,
)
    requires
        day.has_ended(),
        summary_outcome(now, day, config, outcome),
    ensures
        outcome matches Outcome::Summarised { day: same, config: ledger, summary } && same@ == day
            && ledger@ == config && summary.minutes_behind == config.minutes_behind,
{
}

/// What adding a note with the arguments `args` comes to: exactly one
/// argument is the note's message.
pub open spec fn add_note_outcome(
    now: Timestamp,
    day: DayView,
    args: Seq<String>,
    outcome: Outcome,
) -> bool {
    if args.len() == 0 {
        outcome == Outcome::NoteWithoutMessage
    } else if args.len() > 1 {
        outcome == Outcome::NoteWithTooManyArguments
    } else {
        &&& outcome matches Outcome::NoteAdded { day: noted, message }
        &&& message@ == args[0]@
        &&& noted@ == day.add_note(now, args[0]@)
        &&& noted.wf() == day.wf()
    }
}

/// Adds a note made at `now` to today's record.
pub fn add_note_to_today(now: &Timestamp, day: Day, other_args: &Vec<String>) -> (outcome: Outcome)
    ensures
        add_note_outcome(*now, day@, other_args@, outcome),
{
    if other_args.len() == 0 {
        Outcome::NoteWithoutMessage
    } else if other_args.len() > 1 {
        Outcome::NoteWithTooManyArguments
    } else {
        let mut day = day;
        let msg: String = other_args[0].clone();
        day.add_note(now, &msg);
        Outcome::NoteAdded { day, message: msg }
    }
}

/// What adding a summary entry with the arguments `args` comes to: exactly
/// four arguments are the entry's category, project, task and description.
pub open spec fn add_summary_outcome(day: DayView, args: Seq<String>, outcome: Outcome) -> bool {
    if args.len() != 4 {
        outcome == Outcome::SummaryNeedsFourArguments
    } else {
        &&& outcome matches Outcome::SummaryAdded { day: summed }
        &&& summed@ == day.add_summary(
            SummaryEntryView {
                category: args[0]@,
                project: args[1]@,
                task: args[2]@,
                description: args[3]@,
            },
        )
        &&& summed.wf() == day.wf()
    }
}

/// Adds a summary entry to today's record.
pub fn add_summary_to_today(day: Day, other_args: &Vec<String>) -> (outcome: Outcome)
    ensures
        add_summary_outcome(day@, other_args@, outcome),
{
    if other_args.len() != 4 {
        Outcome::SummaryNeedsFourArguments
    } else {
        let mut day = day;
        day.add_summary(
            other_args[0].clone(),
            other_args[1].clone(),
            other_args[2].clone(),
            other_args[3].clone(),
        );
        Outcome::SummaryAdded { day }
    }
}

/// What `command` comes to at `now`, with `today` the record stored for
/// today, if there is one. Punching in and a name that is no command need no
/// record; every other command does, and comes to `NoDay` without one.
pub open spec fn run_command_outcome(
    command: SubCommand,
    now: Timestamp,
    today: Option<Day>,
    config: Config,
    outcome: Outcome,
) -> bool {
    match command {
        SubCommand::In(args) => punch_in_outcome(now, today is Some, args@, config@, outcome),
        SubCommand::Invalid(name) => invalid_command_outcome(name@, outcome),
        _ => match today {
            None => outcome == Outcome::NoDay,
            Some(day) => match command {
                SubCommand::Out(_) => punch_out_outcome(now, day@, config@, outcome),
                SubCommand::Pause(_) => take_break_outcome(now, day@, outcome),
                SubCommand::Resume(_) => resume_outcome(now, day@, outcome),
                SubCommand::Summary(_) => summary_outcome(now, day@, config@, outcome),
                SubCommand::View(_) => outcome == Outcome::ShowDay { day },
                SubCommand::Edit(_) => outcome == Outcome::EditDay { day },
                SubCommand::EditConfig(_) => outcome == Outcome::EditConfig { config },
                SubCommand::ViewConfig(_) => outcome == Outcome::ShowConfig { config },
                SubCommand::Note(args) => add_note_outcome(now, day@, args@, outcome),
                SubCommand::AddSummary(args) => add_summary_outcome(day@, args@, outcome),
                SubCommand::In(_) | SubCommand::Invalid(_) => true,
            },
        },
    }
}

/// Decides what `command` comes to at `now`.
pub fn run_command(command: SubCommand, now: &Timestamp, today: Option<Day>, config: Config) -> (outcome:
    Outcome)
    requires
        today matches Some(day) ==> day.wf(),
    ensures
        run_command_outcome(command, *now, today, config, outcome),
{
    match command {
        SubCommand::In(other_args) => punch_in(now, today.is_some(), &other_args, &config),
        SubCommand::Invalid(name) => handle_invalid_cmd(&name),
        command => match today {
            None => Outcome::NoDay,
            Some(day) => match command {
                SubCommand::Out(_) => punch_out(now, day, config),
                SubCommand::Pause(_) => take_break(now, day),
                SubCommand::Resume(_) => resume(now, day),
                SubCommand::Summary(_) => summary(now, day, config),
                SubCommand::View(_) => Outcome::ShowDay { day },
                SubCommand::Edit(_) => Outcome::EditDay { day },
                SubCommand::EditConfig(_) => Outcome::EditConfig { config },
                SubCommand::ViewConfig(_) => Outcome::ShowConfig { config },
                SubCommand::Note(other_args) => add_note_to_today(now, day, &other_args),
                SubCommand::AddSummary(other_args) => add_summary_to_today(day, &other_args),
                SubCommand::In(_) | SubCommand::Invalid(_) => unreached(),
            },
        },
    }
}

} // verus!
