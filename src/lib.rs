//! Directory cleanup engine: glob-based target selection with a path
//! containment guard, age filtering, running totals, per-pattern statistics
//! and a deletion plan whose failures are collected rather than fatal.
pub mod constants;
pub mod duration;
pub mod entry;
pub mod error;
pub mod glob;
pub mod job;
pub mod laws;
pub mod path;
pub mod stats;

pub use duration::parse_duration;
pub use error::CleanError;
pub use job::CleaningJob;
