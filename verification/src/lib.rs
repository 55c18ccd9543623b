//! Repeat a command until a condition is met, and summarise the runs.
//!
//! The library holds the decisions of the tool: the command-line
//! configuration and its delay grammar, the per-run record that an
//! execution produces, the statistics that are kept over all runs, and the
//! state machine that decides when to sleep, when to run the command again
//! and when to stop. Spawning processes, timers and printing are left to the
//! program that drives it.
pub mod analyzer;
pub mod config;
pub mod delay;
pub mod text;
pub mod execution;
pub mod runner;
pub mod schedule;

pub use analyzer::AnalysisTracker;
