//! Core of a file-integrity daemon: a store of baseline file contents captured
//! at startup, and the decisions that restore a watched file to its baseline
//! whenever a change notification arrives for it.
//!
//! The library performs no I/O itself. The program around it reads files,
//! writes them back, registers watches and receives notifications; the
//! library tells it what to do with each input and proves that those
//! decisions keep every watched file at its baseline.

pub mod cli;
pub mod engine;
pub mod laws;
pub mod store;

pub use cli::config_path_arg;
pub use engine::{initialize_cache, plan_batch, plan_event, CacheOutcome, RestorePlan};
pub use store::{Baseline, SnapshotStore};
