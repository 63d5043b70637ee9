//! The records the orchestrator stores: version snapshots, branches and
//! findings.  Identifiers and timestamps come from the caller.
use crate::db::version::{Finding, IdeaBranch, IdeaVersion};
use crate::pipeline::state::{step_description, step_name, PipelineStep};
use crate::text::{decimal, push_str, signed_decimal, signed_decimal_string, take_chars, chars_of, take_n, string_of, decimal_string};
use vstd::prelude::*;

verus! {

/// The number of the next version: one more than the highest stored, 1
/// when there is none.
pub fn next_version_number(highest: Option<i32>) -> (r: i32)
    requires
        highest matches Some(h) ==> h < i32::MAX,
    ensures
        r == match highest {
            Some(h) => h + 1,
            None => 1,
        },
{
    match highest {
        Some(h) => h + 1,
        None => 1,
    }
}

/// A snapshot of the pipeline after `step`.
pub fn version_snapshot(
    id: String,
    idea_id: &str,
    version_number: i32,
    context_json: String,
    step: PipelineStep,
    branch_id: &str,
    created_at: String,
) -> (v: IdeaVersion)
    ensures
        v.id == id,
        v.idea_id@ == idea_id@,
        v.version_number == version_number,
        v.context_json == context_json,
        v.current_step@ == step_name(step),
        v.branch_id@ == branch_id@,
        v.created_at == created_at,
{
    IdeaVersion {
        id,
        idea_id: String::from_str(idea_id),
        version_number,
        context_json,
        current_step: String::from_str(step.name()),
        branch_id: String::from_str(branch_id),
        created_at,
    }
}

/// The dead end recorded when `step` fails: titled `步骤「<description>」失败`,
/// the error as content.
pub fn failure_finding(
    id: String,
    idea_id: &str,
    step: PipelineStep,
    error: &str,
    branch_id: &str,
    created_at: String,
) -> (f: Finding)
    ensures
        f.id == id,
        f.idea_id@ == idea_id@,
        f.finding_type@ == "dead_end"@,
        f.title@ == "步骤「"@ + step_description(step) + "」失败"@,
        f.content@ == error@,
        f.source_step@ == step_name(step),
        f.branch_id@ == branch_id@,
        f.created_at == created_at,
{
    let mut title = String::from_str("步骤「");
    push_str(&mut title, step.description());
    push_str(&mut title, "」失败");
    Finding {
        id,
        idea_id: String::from_str(idea_id),
        finding_type: String::from_str("dead_end"),
        title,
        content: String::from_str(error),
        source_step: String::from_str(step.name()),
        branch_id: String::from_str(branch_id),
        created_at,
    }
}

/// A new active branch grown from the current branch and version.
pub fn new_branch(
    id: String,
    idea_id: &str,
    name: &str,
    parent_branch_id: &str,
    parent_version_id: &str,
    created_at: String,
) -> (b: IdeaBranch)
    ensures
        b.id == id,
        b.idea_id@ == idea_id@,
        b.name@ == name@,
        b.parent_branch_id@ == parent_branch_id@,
        b.parent_version_id matches Some(p) && p@ == parent_version_id@,
        b.status@ == "active"@,
        b.created_at == created_at,
{
    IdeaBranch {
        id,
        idea_id: String::from_str(idea_id),
        name: String::from_str(name),
        parent_branch_id: String::from_str(parent_branch_id),
        parent_version_id: Some(String::from_str(parent_version_id)),
        status: String::from_str("active"),
        created_at,
    }
}

/// A finding of the experiment step.
pub fn experiment_finding(
    id: String,
    idea_id: &str,
    finding_type: &str,
    title: &str,
    content: &str,
    branch_id: &str,
    created_at: String,
) -> (f: Finding)
    ensures
        f.id == id,
        f.idea_id@ == idea_id@,
        f.finding_type@ == finding_type@,
        f.title@ == title@,
        f.content@ == content@,
        f.source_step@ == "ExperimentValidation"@,
        f.branch_id@ == branch_id@,
        f.created_at == created_at,
{
    Finding {
        id,
        idea_id: String::from_str(idea_id),
        finding_type: String::from_str(finding_type),
        title: String::from_str(title),
        content: String::from_str(content),
        source_step: String::from_str("ExperimentValidation"),
        branch_id: String::from_str(branch_id),
        created_at,
    }
}

/// Kind and title of the finding for a finished experiment.
pub open spec fn experiment_outcome_spec(success: bool, exit_code: int, title: Seq<char>) -> (Seq<char>, Seq<char>) {
    if success {
        ("experiment_result"@, "实验成功: "@ + title)
    } else {
        ("dead_end"@, "实验失败 (exit="@ + signed_decimal(exit_code) + "): "@ + title)
    }
}

pub fn experiment_outcome(success: bool, exit_code: i32, title: &str) -> (r: (String, String))
    ensures
        (r.0@, r.1@) == experiment_outcome_spec(success, exit_code as int, title@),
{
    if success {
        let mut t = String::from_str("实验成功: ");
        push_str(&mut t, title);
        (String::from_str("experiment_result"), t)
    } else {
        let mut t = String::from_str("实验失败 (exit=");
        let code = signed_decimal_string(exit_code);
        push_str(&mut t, code.as_str());
        push_str(&mut t, "): ");
        push_str(&mut t, title);
        (String::from_str("dead_end"), t)
    }
}

/// The content of an experiment finding: hypothesis, language, duration,
/// exit code, the metrics as written, and the first 500 characters of the
/// output, one per line.
pub open spec fn experiment_report_spec(
    hypothesis: Seq<char>,
    language: Seq<char>,
    duration_ms: nat,
    exit_code: int,
    metrics: Seq<char>,
    stdout: Seq<char>,
) -> Seq<char> {
    "假设: "@ + hypothesis + "\n语言: "@ + language + "\n耗时: "@ + decimal(duration_ms) + "ms\n退出码: "@
        + signed_decimal(exit_code) + "\n指标: "@ + metrics + "\n输出: "@ + take_chars(stdout, 500)
}

pub fn experiment_report(
    hypothesis: &str,
    language: &str,
    duration_ms: u64,
    exit_code: i32,
    metrics: &str,
    stdout: &str,
) -> (r: String)
    ensures
        r@ == experiment_report_spec(
            hypothesis@,
            language@,
            duration_ms as nat,
            exit_code as int,
            metrics@,
            stdout@,
        ),
{
    let mut r = String::from_str("假设: ");
    push_str(&mut r, hypothesis);
    push_str(&mut r, "\n语言: ");
    push_str(&mut r, language);
    push_str(&mut r, "\n耗时: ");
    let d = decimal_string(duration_ms);
    push_str(&mut r, d.as_str());
    push_str(&mut r, "ms\n退出码: ");
    let c = signed_decimal_string(exit_code);
    push_str(&mut r, c.as_str());
    push_str(&mut r, "\n指标: ");
    push_str(&mut r, metrics);
    push_str(&mut r, "\n输出: ");
    let out = take_n(chars_of(stdout).as_slice(), 500);
    push_str(&mut r, string_of(out.as_slice()).as_str());
    r
}


/// What an abort leaves: the run's error `Pipeline aborted: <reason>` and
/// the dead end recorded for the step the run was at (titled as a failure
/// of that step, the reason as content).
pub fn abort_outcome(
    reason: &str,
    id: String,
    idea_id: &str,
    step: PipelineStep,
    branch_id: &str,
    created_at: String,
) -> (r: (String, Finding))
    ensures
        r.0@ == "Pipeline aborted: "@ + reason@,
        r.1.id == id,
        r.1.idea_id@ == idea_id@,
        r.1.finding_type@ == "dead_end"@,
        r.1.title@ == "步骤「"@ + step_description(step) + "」失败"@,
        r.1.content@ == reason@,
        r.1.source_step@ == step_name(step),
        r.1.branch_id@ == branch_id@,
        r.1.created_at == created_at,
{
    let mut error = String::from_str("Pipeline aborted: ");
    push_str(&mut error, reason);
    (error, failure_finding(id, idea_id, step, reason, branch_id, created_at))
}

} // verus!
