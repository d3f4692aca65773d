//! Workday time tracking: a day's record as a state machine over timestamped
//! intervals, the time accounting derived from it, and the running ledger of
//! minutes behind schedule.
//!
//! - `time`, `interval`: points in time, dates and spans, as plain integers.
//! - `day_model`, `day_laws`: what a day's record is, the moves between its
//!   states, and what holds of every consistent record.
//! - `day`, `error`: the record itself and the refusals of its operations.
//! - `config`: the ledger.
//! - `command`: what each command of the program decides.
//! - `day_text`, `day_text_laws`, `day_store`, `config_text`: records and the
//!   ledger as text that can be edited by hand, and the proof that what is
//!   written is read back unchanged.
//! - `lines`, `field`, `decimal`, `escape`, `time_text`, `text`: the pieces
//!   that the text is made of.
//!
//! The library reads no clock and no file: the caller hands in the time and
//! the text, and stores what comes back.

pub mod command;
pub mod config;
pub mod config_text;
pub mod day;
pub mod day_laws;
pub mod day_model;
pub mod day_store;
pub mod day_text;
pub mod day_text_laws;
pub mod decimal;
pub mod error;
pub mod escape;
pub mod field;
pub mod interval;
pub mod lines;
pub mod text;
pub mod time;
pub mod time_text;
