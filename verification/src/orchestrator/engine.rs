//! The orchestrator's decisions: which step runs next, what a jump clears,
//! how an injected command is handled and when a failure stops the run.
//!
//! The executor that performs the steps (network, database, language model)
//! drives these functions: it reports what happened and applies what they
//! decide.
use crate::orchestrator::command::OrchestratorCommand;
use crate::pipeline::context::StepResult;
use crate::pipeline::state::{
    step_index, step_is_critical, step_next, step_skipped_in_quick_mode, PipelineStep,
};
use vstd::prelude::*;

verus! {

/// How many recorded results belong to step `s`.
pub open spec fn count_runs(rs: Seq<StepResult>, s: PipelineStep) -> nat
    decreases rs.len(),
{
    if rs.len() == 0 {
        0
    } else {
        count_runs(rs.drop_last(), s) + (if rs.last().step == s {
            1nat
        } else {
            0nat
        })
    }
}

/// Whether the diversity gate sends the run back to `SearchWeb`.
pub open spec fn fallback_spec(
    quick_mode: bool,
    current: PipelineStep,
    diversity_below_threshold: bool,
    retry_count: u32,
    diversity_gate_runs: nat,
) -> bool {
    !quick_mode && current == PipelineStep::DiversityGate && diversity_below_threshold
        && retry_count < 2 && diversity_gate_runs <= 2
}

/// The step chosen after `current`.
pub open spec fn decide_next_spec(
    quick_mode: bool,
    current: PipelineStep,
    diversity_below_threshold: bool,
    retry_count: u32,
    diversity_gate_runs: nat,
) -> Option<PipelineStep> {
    if fallback_spec(quick_mode, current, diversity_below_threshold, retry_count, diversity_gate_runs) {
        Some(PipelineStep::SearchWeb)
    } else {
        step_next(current)
    }
}

/// Whether the diversity gate falls back to searching again.
///
/// `diversity_below_threshold` says that the measured diversity is under 30%.
/// At most two fallbacks happen: the retry counter must be below 2 and, as a
/// guard when the counter does not grow, the diversity step must have run at most twice.
pub fn should_fallback_diversity(
    quick_mode: bool,
    current: PipelineStep,
    diversity_below_threshold: bool,
    retry_count: u32,
    diversity_gate_runs: usize,
) -> (b: bool)
    ensures
        b == fallback_spec(
            quick_mode,
            current,
            diversity_below_threshold,
            retry_count,
            diversity_gate_runs as nat,
        ),
{
    if quick_mode || current != PipelineStep::DiversityGate || !diversity_below_threshold {
        return false;
    }
    retry_count < 2 && diversity_gate_runs <= 2
}

/// Number of results recorded for step `s`.
pub fn count_step_runs(results: &[StepResult], s: PipelineStep) -> (n: usize)
    ensures
        n == count_runs(results@, s),
{
    let mut n: usize = 0;
    let mut i: usize = 0;
    while i < results.len()
        invariant
            i <= results.len(),
            n == count_runs(results@.take(i as int), s),
            n <= i,
        decreases results.len() - i,
    {
        assert(results@.take(i + 1).drop_last() =~= results@.take(i as int));
        if results[i].step == s {
            n += 1;
        }
        i += 1;
    }
    assert(results@.take(results.len() as int) =~= results@);
    n
}

/// The state machine's choice of the step after `current`: back to
/// `SearchWeb` when the diversity gate falls back, else the next step.
pub fn decide_next(
    quick_mode: bool,
    results: &[StepResult],
    current: PipelineStep,
    diversity_below_threshold: bool,
    retry_count: u32,
) -> (n: Option<PipelineStep>)
    ensures
        n == decide_next_spec(
            quick_mode,
            current,
            diversity_below_threshold,
            retry_count,
            count_runs(results@, PipelineStep::DiversityGate),
        ),
{
    let runs = count_step_runs(results, PipelineStep::DiversityGate);
    if should_fallback_diversity(quick_mode, current, diversity_below_threshold, retry_count, runs) {
        return Some(PipelineStep::SearchWeb);
    }
    current.next()
}

/// The retry counter after the diversity gate ran: one more when the diversity step
/// succeeded with low diversity and fewer than two retries were used.
pub fn retry_count_after_gate(gate_ok: bool, diversity_below_threshold: bool, retry_count: u32) -> (r: u32)
    ensures
        r == (if gate_ok && diversity_below_threshold && retry_count < 2 {
            retry_count + 1
        } else {
            retry_count as int
        }),
{
    if gate_ok && diversity_below_threshold && retry_count < 2 {
        retry_count + 1
    } else {
        retry_count
    }
}

/// Which outputs a jump to a step discards.
#[derive(Debug, Clone, Copy, PartialEq, Eq, Structural)]
pub struct ClearPlan {
    /// Web and patent search results.
    pub search_results: bool,
    /// Similarity scores and the ranked matches.
    pub similarity: bool,
    /// The novelty score and its breakdown.
    pub scores: bool,
    /// The analysis text, the action plan and the deep-reasoning result.
    pub analysis: bool,
}

/// What a jump to `target` discards: every output of `SearchWeb` and later
/// steps that the target will produce again.  Keywords, the technical domain
/// and expanded queries are kept.
pub fn side_effects_to_clear(target: PipelineStep) -> (p: ClearPlan)
    ensures
        p.search_results == (step_index(target) <= step_index(PipelineStep::SearchWeb)),
        p.similarity == (step_index(target) <= step_index(PipelineStep::ComputeSimilarity)),
        p.scores == (step_index(target) <= step_index(PipelineStep::ScoreNovelty)),
        p.analysis == (step_index(target) <= step_index(PipelineStep::AiDeepAnalysis)),
{
    let t = target.index();
    ClearPlan {
        search_results: t <= PipelineStep::SearchWeb.index(),
        similarity: t <= PipelineStep::ComputeSimilarity.index(),
        scores: t <= PipelineStep::ScoreNovelty.index(),
        analysis: t <= PipelineStep::AiDeepAnalysis.index(),
    }
}

/// What the executor does with an injected command.
#[derive(Debug, Clone)]
pub enum CommandEffect {
    /// Run the current step (for `Continue` and `Retry`).
    Proceed,
    /// Clear as planned and make `target` the current step.
    JumpTo { target: PipelineStep, clear: ClearPlan },
    /// Record a new branch with this name and continue there.
    Branch { name: String },
    /// Record the failure and stop with this reason.
    Abort { reason: String },
}

/// The effect of an injected command.
pub fn interpret_command(cmd: OrchestratorCommand) -> (e: CommandEffect)
    ensures
        match cmd {
            OrchestratorCommand::Continue => e is Proceed,
            OrchestratorCommand::Retry { .. } => e is Proceed,
            OrchestratorCommand::Jump(t) => e matches CommandEffect::JumpTo { target, clear }
                && target == t && clear.search_results == (step_index(t) <= 2) && clear.similarity
                == (step_index(t) <= 5) && clear.scores == (step_index(t) <= 9) && clear.analysis
                == (step_index(t) <= 10),
            OrchestratorCommand::Branch { name } => e matches CommandEffect::Branch { name: n }
                && n == name,
            OrchestratorCommand::Abort { reason } => e matches CommandEffect::Abort { reason: r }
                && r == reason,
        },
{
    match cmd {
        OrchestratorCommand::Continue => CommandEffect::Proceed,
        OrchestratorCommand::Retry { .. } => CommandEffect::Proceed,
        OrchestratorCommand::Jump(t) => CommandEffect::JumpTo { target: t, clear: side_effects_to_clear(t) },
        OrchestratorCommand::Branch { name } => CommandEffect::Branch { name },
        OrchestratorCommand::Abort { reason } => CommandEffect::Abort { reason },
    }
}

/// Whether the run stops after `step` finished: only a failed critical step stops it.
pub fn failure_stops_run(step: PipelineStep, step_ok: bool) -> (stop: bool)
    ensures
        stop == (!step_ok && step_is_critical(step)),
{
    !step_ok && step.is_critical()
}

/// Whether the step is passed over in this run (quick mode skips some steps).
pub fn skip_step(quick_mode: bool, step: PipelineStep) -> (skip: bool)
    ensures
        skip == (quick_mode && step_skipped_in_quick_mode(step)),
{
    quick_mode && step.skipped_in_quick_mode()
}

// ───────────────────────── termination ─────────────────────────

/// Fallbacks that are still possible once the diversity step has run `runs` times.
pub open spec fn fallbacks_left(runs: nat) -> nat {
    if runs >= 2 {
        0
    } else {
        (2 - runs) as nat
    }
}

/// A bound on the steps still to run when `current` is next and the
/// diversity gate has run `runs` times.
pub open spec fn remaining_measure(current: PipelineStep, runs: nat) -> nat {
    ((13 - step_index(current)) + 3 * fallbacks_left(runs)) as nat
}

/// Every decision taken without an injected command strictly lowers the
/// measure: the step `current` runs (its result is recorded, so the diversity step's
/// run count grows when it is the diversity step), then the next step is chosen.
/// Hence a run without commands ends, whatever the diversity outcomes.
pub proof fn lemma_decision_decreases_measure(
    quick_mode: bool,
    current: PipelineStep,
    diversity_below_threshold: bool,
    retry_count: u32,
    runs_before: nat,
)
    ensures
        ({
            let runs_after = runs_before + (if current == PipelineStep::DiversityGate {
                1nat
            } else {
                0nat
            });
            decide_next_spec(quick_mode, current, diversity_below_threshold, retry_count, runs_after)
                matches Some(n) ==> remaining_measure(n, runs_after) < remaining_measure(
                current,
                runs_before,
            )
        }),
{
}

/// From the start, with no recorded results, a run without commands executes
/// at most twenty steps: the measure starts at 19 and every step lowers it.
pub proof fn lemma_run_bound_from_start()
    ensures
        remaining_measure(PipelineStep::ParseInput, 0) == 19,
{
}

/// Whatever the diversity outcomes, the diversity step falls back at most twice per run:
/// a third recorded diversity run never falls back.
pub proof fn lemma_at_most_two_fallbacks(
    quick_mode: bool,
    diversity_below_threshold: bool,
    retry_count: u32,
    runs: nat,
)
    requires
        runs >= 3,
    ensures
        !fallback_spec(quick_mode, PipelineStep::DiversityGate, diversity_below_threshold, retry_count, runs),
{
}


/// The step that runs after an injected command is handled: the jump
/// target for `Jump`, the current step for `Continue`, `Retry` and
/// `Branch`; none for `Abort`, which ends the run before any further step.
pub fn step_after_command(current: PipelineStep, cmd: &OrchestratorCommand) -> (r: Option<PipelineStep>)
    ensures
        match cmd {
            OrchestratorCommand::Jump(t) => r == Some(*t),
            OrchestratorCommand::Abort { .. } => r is None,
            _ => r == Some(current),
        },
{
    match cmd {
        OrchestratorCommand::Jump(t) => Some(*t),
        OrchestratorCommand::Abort { .. } => None,
        _ => Some(current),
    }
}

} // verus!
