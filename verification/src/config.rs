//! The schedule ledger: the daily target, the default task label, and the
//! running count of minutes behind schedule.

use vstd::prelude::*;
use vstd::string::*;

verus! {

/// The ledger as a plain value.
#[verifier::ext_equal]
pub struct ConfigView {
    /// Minutes of work intended for a day.
    pub day_in_minutes: int,
    /// The task label used when punching in names none.
    pub default_punch_in_task: Seq<char>,
    /// Minutes behind schedule, summed over the days closed so far; negative
    /// when ahead.
    pub minutes_behind: int,
}

impl ConfigView {
    /// The ledger after a day that closed with `time_left` minutes left to
    /// do: the count grows by that many minutes.
    pub open spec fn update_minutes_behind(self, time_left: int) -> ConfigView {
        ConfigView { minutes_behind: self.minutes_behind + time_left, ..self }
    }

    /// The count of minutes behind, read as nothing while ahead of schedule.
    pub open spec fn minutes_behind_non_neg(self) -> int {
        vstd::math::max(0, self.minutes_behind)
    }

    /// The count can take `time_left` more minutes and still be held in 64
    /// bits.
    pub open spec fn absorbs(self, time_left: int) -> bool {
        i64::MIN <= self.minutes_behind + time_left <= i64::MAX
    }

    /// The ledger after the days that closed with `time_left[0]`,
    /// `time_left[1]`, ... minutes left, in that order.
    pub open spec fn accumulate(self, time_left: Seq<int>) -> ConfigView
        decreases time_left.len(),
    {
        if time_left.len() == 0 {
            self
        } else {
            self.accumulate(time_left.drop_last()).update_minutes_behind(time_left.last())
        }
    }
}

/// The numbers of `deltas` added up.
pub open spec fn sum_of(deltas: Seq<int>) -> int
    decreases deltas.len(),
{
    if deltas.len() == 0 {
        0
    } else {
        sum_of(deltas.drop_last()) + deltas.last()
    }
}

/// After any run of closed days, whatever each left over or overshot, the
/// count is the starting count plus everything added, and its non-negative
/// reading is the larger of zero and the count.
pub proof fn lemma_accumulate(start: ConfigView, time_left: Seq<int>)
    ensures
        start.accumulate(time_left).minutes_behind == start.minutes_behind + sum_of(time_left),
        start.accumulate(time_left).day_in_minutes == start.day_in_minutes,
        start.accumulate(time_left).default_punch_in_task == start.default_punch_in_task,
        start.accumulate(time_left).minutes_behind_non_neg() == vstd::math::max(
            0,
            start.minutes_behind + sum_of(time_left),
        ),
        start.accumulate(time_left).minutes_behind_non_neg() >= 0,
    decreases time_left.len(),
{
    if time_left.len() > 0 {
        lemma_accumulate(start, time_left.drop_last());
    }
}

/// Minutes of work intended for a day unless the ledger says otherwise.
pub const DEFAULT_DAY_IN_MINUTES: u32 = 480;

/// The schedule ledger.
#[derive(Clone, Debug, PartialEq, Eq)]
pub struct Config {
    day_in_minutes: u32,
    default_punch_in_task: String,
    minutes_behind: i64,
}

impl View for Config {
    type V = ConfigView;

    closed spec fn view(&self) -> ConfigView {
        ConfigView {
            day_in_minutes: self.day_in_minutes as int,
            default_punch_in_task: self.default_punch_in_task@,
            minutes_behind: self.minutes_behind as int,
        }
    }
}

impl Config {
    /// A ledger with the values given.
    pub fn new(day_in_minutes: u32, default_punch_in_task: String, minutes_behind: i64) -> (config:
        Config)
        ensures
            config@ == (ConfigView {
                day_in_minutes: day_in_minutes as int,
                default_punch_in_task: default_punch_in_task@,
                minutes_behind: minutes_behind as int,
            }),
    {
        Config { day_in_minutes, default_punch_in_task, minutes_behind }
    }

    /// Minutes of work intended for a day.
    pub fn day_in_minutes(&self) -> (minutes: u32)
        ensures
            minutes == self@.day_in_minutes,
    {
        self.day_in_minutes
    }

    /// The task label used when punching in names none.
    pub fn default_punch_in_task(&self) -> (task: &String)
        ensures
            task@ == self@.default_punch_in_task,
    {
        &self.default_punch_in_task
    }

    /// Minutes behind schedule; negative when ahead.
    pub fn minutes_behind(&self) -> (minutes: i64)
        ensures
            minutes == self@.minutes_behind,
    {
        self.minutes_behind
    }

    /// Minutes behind schedule, read as nothing while ahead: the larger of
    /// zero and the count.
    pub fn minutes_behind_non_neg(&self) -> (minutes: i64)
        ensures
            minutes == self@.minutes_behind_non_neg(),
            minutes == vstd::math::max(0, self@.minutes_behind),
    {
        if self.minutes_behind > 0 {
            self.minutes_behind
        } else {
            0
        }
    }

    /// Whether the count can take `time_left` more minutes.
    pub fn can_absorb(&self, time_left: i64) -> (b: bool)
        ensures
            b == self@.absorbs(time_left as int),
    {
        let sum: i128 = self.minutes_behind as i128 + time_left as i128;
        i64::MIN as i128 <= sum && sum <= i64::MAX as i128
    }

    /// Folds a closed day into the ledger: adds the minutes the day left
    /// over, or takes off the minutes it overshot.
    pub fn update_minutes_behind(&mut self, time_left: i64)
        requires
            old(self)@.absorbs(time_left as int),
        ensures
            final(self)@ == old(self)@.update_minutes_behind(time_left as int),
    {
        self.minutes_behind = self.minutes_behind + time_left;
    }
}

impl Default for Config {
    /// The ledger before anything was recorded: eight hours a day, nothing
    /// behind.
    fn default() -> (config: Config)
        ensures
            config@ == (ConfigView {
                day_in_minutes: DEFAULT_DAY_IN_MINUTES as int,
                default_punch_in_task: "work"@,
                minutes_behind: 0,
            }),
    {
        Config {
            day_in_minutes: DEFAULT_DAY_IN_MINUTES,
            default_punch_in_task: String::from_str("work"),
            minutes_behind: 0,
        }
    }
}

} // verus!
