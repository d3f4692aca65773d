//! Why an operation on a day's record was refused.

use vstd::prelude::*;
use vstd::string::*;

verus! {

/// What made a move between working and being on break illegal.
#[derive(Clone, Copy, Debug, PartialEq, Eq, Structural)]
pub enum TransitionFault {
    /// A break was asked for while one is running.
    AlreadyOnBreak,
    /// The end of a break was asked for while none is running.
    NotOnBreak,
    /// The time given lies before the start of the span that is running.
    BeforeOpenInterval,
}

/// Why an operation on a day's record was refused.
#[derive(Clone, Copy, Debug, PartialEq, Eq, Structural)]
pub enum DayError {
    /// The move is not legal from the state the day is in.
    InvalidTransition(TransitionFault),
    /// The day has been closed, and closing is final.
    AlreadyEnded,
    /// A figure was asked for that exists only once the day is closed.
    DayNotEnded,
}

impl DayError {
    /// The sentence shown to the user for this refusal.
    pub open spec fn spec_message(self) -> Seq<char> {
        match self {
            DayError::InvalidTransition(TransitionFault::AlreadyOnBreak) => "already on break"@,
            DayError::InvalidTransition(TransitionFault::NotOnBreak) => "not currently on break"@,
            DayError::InvalidTransition(TransitionFault::BeforeOpenInterval) =>
                "time given is before the start of the current block"@,
            DayError::AlreadyEnded => "day already ended"@,
            DayError::DayNotEnded => "day not ended yet"@,
        }
    }

    /// The sentence shown to the user for this refusal.
    pub fn message(&self) -> (text: String)
        ensures
            text@ == self.spec_message(),
    {
        match self {
            DayError::InvalidTransition(TransitionFault::AlreadyOnBreak) => String::from_str(
                "already on break",
            ),
            DayError::InvalidTransition(TransitionFault::NotOnBreak) => String::from_str(
                "not currently on break",
            ),
            DayError::InvalidTransition(TransitionFault::BeforeOpenInterval) => String::from_str(
                "time given is before the start of the current block",
            ),
            DayError::AlreadyEnded => String::from_str("day already ended"),
            DayError::DayNotEnded => String::from_str("day not ended yet"),
        }
    }
}

} // verus!
