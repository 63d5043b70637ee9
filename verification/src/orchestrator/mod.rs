//! Decisions of the state-machine driven pipeline executor.
pub mod command;
pub mod engine;
pub mod records;
