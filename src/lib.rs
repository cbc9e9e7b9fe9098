//! Core of a speedrun timer: a stopwatch with pre-roll offsets, the run document
//! with personal-best and best-segment ("gold") times, and the attempt state
//! machine that records splits and reconciles them into the run.
//!
//! All durations and timestamps are whole milliseconds held in `i64`. Work on
//! the stored run document is handed back to the caller as `StoreRequest`s.

pub mod clock;
pub mod command;
pub mod config;
pub mod format;
pub mod lemmas;
pub mod session;
pub mod split;
pub mod timer;

pub use command::{parse_command, Command, UICommand};
pub use config::{AppConfig, Colors, Hotkeys, KeyWrapper, Options};
pub use format::{format_clock, format_duration};
pub use session::{AppState, StoreRequest};
pub use split::{AttemptHistoryEntry, Run, SegmentHistoryEntry, Split};
pub use timer::{Timer, TimerState};
