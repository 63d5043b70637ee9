//! Data carried between pipeline steps (the parts without measurements).
use crate::pipeline::state::PipelineStep;
use vstd::prelude::*;

verus! {

/// Outcome record of one executed or skipped step.
#[derive(Debug, Clone)]
pub struct StepResult {
    pub step: PipelineStep,
    pub duration_ms: u64,
    /// `"ok"`, `"error"` or `"skipped"`.
    pub status: String,
    pub error: Option<String>,
}

/// A search hit, web page or patent.
#[derive(Debug, Clone)]
pub struct SearchResult {
    pub id: String,
    pub title: String,
    pub snippet: String,
    pub link: String,
    pub source: String,
}

/// What one reasoning dimension produced.
#[derive(Debug, Clone)]
pub struct DimensionInsight {
    pub dimension: String,
    pub label: String,
    pub reasoning: String,
    pub key_insight: String,
}

/// Result of the multi-dimensional deep reasoning.
#[derive(Debug, Clone)]
pub struct DeepReasoningResult {
    pub dimensions: Vec<DimensionInsight>,
    pub synthesis: String,
    pub novel_directions: Vec<String>,
    pub blind_spots: Vec<String>,
}

/// Status of a step in a progress message.
#[derive(Debug, Clone, Copy, PartialEq, Eq, Structural)]
pub enum StepStatus {
    Running,
    Done,
    Skipped,
    Error,
}

impl StepResult {
    /// The record of a step that quick mode passed over.
    pub fn skipped(step: PipelineStep) -> (r: StepResult)
        ensures
            r.step == step,
            r.duration_ms == 0,
            r.status@ == "skipped"@,
            r.error is None,
    {
        StepResult { step, duration_ms: 0, status: String::from_str("skipped"), error: None }
    }

    /// The record of an executed step: `"ok"` without error, else `"error"` with its message.
    pub fn executed(step: PipelineStep, duration_ms: u64, error: Option<String>) -> (r: StepResult)
        ensures
            r.step == step,
            r.duration_ms == duration_ms,
            r.status@ == (if error is None { "ok"@ } else { "error"@ }),
            r.error == error,
    {
        let status = if error.is_none() {
            String::from_str("ok")
        } else {
            String::from_str("error")
        };
        StepResult { step, duration_ms, status, error }
    }
}

impl DeepReasoningResult {
    /// An empty result (no dimension analysed yet).
    pub fn empty() -> (r: DeepReasoningResult)
        ensures
            r.dimensions@.len() == 0,
            r.synthesis@.len() == 0,
            r.novel_directions@.len() == 0,
            r.blind_spots@.len() == 0,
    {
        DeepReasoningResult {
            dimensions: Vec::new(),
            synthesis: String::new(),
            novel_directions: Vec::new(),
            blind_spots: Vec::new(),
        }
    }
}

} // verus!
