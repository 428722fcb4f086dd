//! A leveled logging core: severity filters with a fallback and per-module
//! overrides, column-aligned rendering of entries, and targets, console or
//! file, each with a filter of its own.
//!
//! The library computes and leaves input and output to its caller: it is
//! handed arguments, environment values and entries, and hands back
//! decisions and the lines to write.

pub mod clock;
pub mod colour;
pub mod filter;
pub mod level;
pub mod log;
pub mod once;
pub mod target;
pub mod text;

pub use colour::EnableColour;
pub use filter::{BadLevelFilter, LevelFilter, LevelFilterContainer};
pub use level::LevelInfo;
pub use log::{ColumnWidthTracker, LogEntry};
pub use once::OnceFlag;
pub use target::{
    BadLogTarget, FileLogTarget, LogTarget, LogTargetsContainer, SingleLogTarget, StderrLogTarget,
};
