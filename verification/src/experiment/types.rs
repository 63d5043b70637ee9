//! Types of the experiment validation engine.
use vstd::prelude::*;

verus! {

/// What experiment to run.
#[derive(Debug, Clone)]
pub struct ExperimentSpec {
    pub title: String,
    /// `python` or `rust`.
    pub language: String,
    pub script_content: String,
    /// The hypothesis the experiment checks.
    pub hypothesis: String,
    pub timeout_secs: u64,
}

/// Where an experiment stands.
#[derive(Debug, Clone, Copy, PartialEq, Eq, Structural)]
pub enum ExperimentStatus {
    Pending,
    Running,
    Success,
    /// The script failed or timed out.
    Failed,
    /// No script could be generated.
    GenerationFailed,
}

} // verus!
