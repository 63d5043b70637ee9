//! Records of idea versions, branches and findings.
use vstd::prelude::*;

verus! {

/// A snapshot of the pipeline state of an idea.
#[derive(Debug, Clone)]
pub struct IdeaVersion {
    pub id: String,
    pub idea_id: String,
    pub version_number: i32,
    pub context_json: String,
    pub current_step: String,
    pub branch_id: String,
    pub created_at: String,
}

/// A branch of the exploration of an idea.
#[derive(Debug, Clone)]
pub struct IdeaBranch {
    pub id: String,
    pub idea_id: String,
    pub name: String,
    pub parent_branch_id: String,
    pub parent_version_id: Option<String>,
    pub status: String,
    pub created_at: String,
}

/// Something learned while validating an idea.
#[derive(Debug, Clone)]
pub struct Finding {
    pub id: String,
    pub idea_id: String,
    /// `discovery`, `dead_end`, `insight` or `experiment_result`.
    pub finding_type: String,
    pub title: String,
    pub content: String,
    pub source_step: String,
    pub branch_id: String,
    pub created_at: String,
}

} // verus!
