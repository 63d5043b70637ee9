//! Control commands that can be injected into a running pipeline.
use crate::pipeline::state::PipelineStep;
use vstd::prelude::*;

verus! {

/// A control command for the pipeline state machine.
#[derive(Debug, Clone)]
pub enum OrchestratorCommand {
    /// Go on with the next step.
    Continue,
    /// Jump to the given step, clearing what later steps produced.
    Jump(PipelineStep),
    /// Retry the current step.
    Retry { max_attempts: u8 },
    /// Snapshot the context into a new branch and continue there.
    Branch { name: String },
    /// Stop the run.
    Abort { reason: String },
}

} // verus!
