//! Pipeline steps: a fixed linear sequence of fourteen steps.
use vstd::prelude::*;

verus! {

/// One step of the validation pipeline.
#[derive(Debug, Clone, Copy, PartialEq, Eq, Structural)]
pub enum PipelineStep {
    ParseInput,
    ExpandQuery,
    SearchWeb,
    SearchPatents,
    DiversityGate,
    ComputeSimilarity,
    RankAndFilter,
    PriorArtCluster,
    DetectContradictions,
    ScoreNovelty,
    AiDeepAnalysis,
    AiActionPlan,
    ExperimentValidation,
    Finalize,
}

/// Whether a step runs deterministic code or asks a language model.
#[derive(Debug, Clone, Copy, PartialEq, Eq, Structural)]
pub enum StepType {
    Code,
    Llm,
}

/// Number of steps in the pipeline.
///
/// The step documentation speaks of a fixed sequence of 13 steps; the
/// sequence that `next` walks has 14. Their positions run from 0
/// (`ParseInput`) to 13 (`Finalize`): 13 is the last position, not the
/// count (see `lemma_last_position_thirteen`).
pub const TOTAL_STEPS: usize = 14;

/// Position of a step in the sequence.
pub open spec fn step_index(s: PipelineStep) -> nat {
    match s {
        PipelineStep::ParseInput => 0,
        PipelineStep::ExpandQuery => 1,
        PipelineStep::SearchWeb => 2,
        PipelineStep::SearchPatents => 3,
        PipelineStep::DiversityGate => 4,
        PipelineStep::ComputeSimilarity => 5,
        PipelineStep::RankAndFilter => 6,
        PipelineStep::PriorArtCluster => 7,
        PipelineStep::DetectContradictions => 8,
        PipelineStep::ScoreNovelty => 9,
        PipelineStep::AiDeepAnalysis => 10,
        PipelineStep::AiActionPlan => 11,
        PipelineStep::ExperimentValidation => 12,
        PipelineStep::Finalize => 13,
    }
}

/// The step at position `i`, if any.
pub open spec fn step_at(i: int) -> Option<PipelineStep> {
    if i == 0 {
        Some(PipelineStep::ParseInput)
    } else if i == 1 {
        Some(PipelineStep::ExpandQuery)
    } else if i == 2 {
        Some(PipelineStep::SearchWeb)
    } else if i == 3 {
        Some(PipelineStep::SearchPatents)
    } else if i == 4 {
        Some(PipelineStep::DiversityGate)
    } else if i == 5 {
        Some(PipelineStep::ComputeSimilarity)
    } else if i == 6 {
        Some(PipelineStep::RankAndFilter)
    } else if i == 7 {
        Some(PipelineStep::PriorArtCluster)
    } else if i == 8 {
        Some(PipelineStep::DetectContradictions)
    } else if i == 9 {
        Some(PipelineStep::ScoreNovelty)
    } else if i == 10 {
        Some(PipelineStep::AiDeepAnalysis)
    } else if i == 11 {
        Some(PipelineStep::AiActionPlan)
    } else if i == 12 {
        Some(PipelineStep::ExperimentValidation)
    } else if i == 13 {
        Some(PipelineStep::Finalize)
    } else {
        None
    }
}

/// The step that follows `s`: the one at the next position.
pub open spec fn step_next(s: PipelineStep) -> Option<PipelineStep> {
    step_at(step_index(s) + 1int)
}

pub open spec fn step_is_llm(s: PipelineStep) -> bool {
    s == PipelineStep::ExpandQuery || s == PipelineStep::AiDeepAnalysis || s
        == PipelineStep::AiActionPlan
}

pub open spec fn step_is_critical(s: PipelineStep) -> bool {
    s == PipelineStep::ParseInput || s == PipelineStep::SearchWeb || s
        == PipelineStep::ComputeSimilarity || s == PipelineStep::ScoreNovelty
}

pub open spec fn step_skipped_in_quick_mode(s: PipelineStep) -> bool {
    s == PipelineStep::ExpandQuery || s == PipelineStep::DiversityGate || s
        == PipelineStep::RankAndFilter || s == PipelineStep::PriorArtCluster || s
        == PipelineStep::DetectContradictions || s == PipelineStep::AiDeepAnalysis || s
        == PipelineStep::AiActionPlan || s == PipelineStep::ExperimentValidation
}

pub open spec fn step_description(s: PipelineStep) -> Seq<char> {
    match s {
        PipelineStep::ParseInput => "解析输入，提取关键词"@,
        PipelineStep::ExpandQuery => "AI 扩展搜索词"@,
        PipelineStep::SearchWeb => "网络搜索"@,
        PipelineStep::SearchPatents => "专利搜索"@,
        PipelineStep::DiversityGate => "多样性检查"@,
        PipelineStep::ComputeSimilarity => "相似度计算"@,
        PipelineStep::RankAndFilter => "排序过滤"@,
        PipelineStep::PriorArtCluster => "现有技术聚类 / Prior art clustering"@,
        PipelineStep::DetectContradictions => "矛盾信号检测"@,
        PipelineStep::ScoreNovelty => "新颖性评分"@,
        PipelineStep::AiDeepAnalysis => "AI 深度分析"@,
        PipelineStep::AiActionPlan => "AI 行动方案"@,
        PipelineStep::ExperimentValidation => "实验验证"@,
        PipelineStep::Finalize => "生成报告"@,
    }
}

/// The name of a step as stored with versions and findings (its variant name).
pub open spec fn step_name(s: PipelineStep) -> Seq<char> {
    match s {
        PipelineStep::ParseInput => "ParseInput"@,
        PipelineStep::ExpandQuery => "ExpandQuery"@,
        PipelineStep::SearchWeb => "SearchWeb"@,
        PipelineStep::SearchPatents => "SearchPatents"@,
        PipelineStep::DiversityGate => "DiversityGate"@,
        PipelineStep::ComputeSimilarity => "ComputeSimilarity"@,
        PipelineStep::RankAndFilter => "RankAndFilter"@,
        PipelineStep::PriorArtCluster => "PriorArtCluster"@,
        PipelineStep::DetectContradictions => "DetectContradictions"@,
        PipelineStep::ScoreNovelty => "ScoreNovelty"@,
        PipelineStep::AiDeepAnalysis => "AiDeepAnalysis"@,
        PipelineStep::AiActionPlan => "AiActionPlan"@,
        PipelineStep::ExperimentValidation => "ExperimentValidation"@,
        PipelineStep::Finalize => "Finalize"@,
    }
}

impl PipelineStep {
    /// Language-model steps are query expansion, deep analysis and the action plan.
    pub fn step_type(&self) -> (t: StepType)
        ensures
            (t == StepType::Llm) == step_is_llm(*self),
    {
        match self {
            PipelineStep::ExpandQuery | PipelineStep::AiDeepAnalysis
            | PipelineStep::AiActionPlan => StepType::Llm,
            _ => StepType::Code,
        }
    }

    /// The following step; `None` after `Finalize`.
    pub fn next(&self) -> (n: Option<PipelineStep>)
        ensures
            n == step_next(*self),
    {
        match self {
            PipelineStep::ParseInput => Some(PipelineStep::ExpandQuery),
            PipelineStep::ExpandQuery => Some(PipelineStep::SearchWeb),
            PipelineStep::SearchWeb => Some(PipelineStep::SearchPatents),
            PipelineStep::SearchPatents => Some(PipelineStep::DiversityGate),
            PipelineStep::DiversityGate => Some(PipelineStep::ComputeSimilarity),
            PipelineStep::ComputeSimilarity => Some(PipelineStep::RankAndFilter),
            PipelineStep::RankAndFilter => Some(PipelineStep::PriorArtCluster),
            PipelineStep::PriorArtCluster => Some(PipelineStep::DetectContradictions),
            PipelineStep::DetectContradictions => Some(PipelineStep::ScoreNovelty),
            PipelineStep::ScoreNovelty => Some(PipelineStep::AiDeepAnalysis),
            PipelineStep::AiDeepAnalysis => Some(PipelineStep::AiActionPlan),
            PipelineStep::AiActionPlan => Some(PipelineStep::ExperimentValidation),
            PipelineStep::ExperimentValidation => Some(PipelineStep::Finalize),
            PipelineStep::Finalize => None,
        }
    }

    /// Zero-based position in the sequence.
    pub fn index(&self) -> (i: usize)
        ensures
            i == step_index(*self),
    {
        match self {
            PipelineStep::ParseInput => 0,
            PipelineStep::ExpandQuery => 1,
            PipelineStep::SearchWeb => 2,
            PipelineStep::SearchPatents => 3,
            PipelineStep::DiversityGate => 4,
            PipelineStep::ComputeSimilarity => 5,
            PipelineStep::RankAndFilter => 6,
            PipelineStep::PriorArtCluster => 7,
            PipelineStep::DetectContradictions => 8,
            PipelineStep::ScoreNovelty => 9,
            PipelineStep::AiDeepAnalysis => 10,
            PipelineStep::AiActionPlan => 11,
            PipelineStep::ExperimentValidation => 12,
            PipelineStep::Finalize => 13,
        }
    }

    /// The step's name as stored (`ParseInput`, …).
    pub fn name(&self) -> (n: &'static str)
        ensures
            n@ == step_name(*self),
    {
        match self {
            PipelineStep::ParseInput => "ParseInput",
            PipelineStep::ExpandQuery => "ExpandQuery",
            PipelineStep::SearchWeb => "SearchWeb",
            PipelineStep::SearchPatents => "SearchPatents",
            PipelineStep::DiversityGate => "DiversityGate",
            PipelineStep::ComputeSimilarity => "ComputeSimilarity",
            PipelineStep::RankAndFilter => "RankAndFilter",
            PipelineStep::PriorArtCluster => "PriorArtCluster",
            PipelineStep::DetectContradictions => "DetectContradictions",
            PipelineStep::ScoreNovelty => "ScoreNovelty",
            PipelineStep::AiDeepAnalysis => "AiDeepAnalysis",
            PipelineStep::AiActionPlan => "AiActionPlan",
            PipelineStep::ExperimentValidation => "ExperimentValidation",
            PipelineStep::Finalize => "Finalize",
        }
    }

    /// Human-readable label shown in progress messages.
    pub fn description(&self) -> (d: &'static str)
        ensures
            d@ == step_description(*self),
    {
        match self {
            PipelineStep::ParseInput => "解析输入，提取关键词",
            PipelineStep::ExpandQuery => "AI 扩展搜索词",
            PipelineStep::SearchWeb => "网络搜索",
            PipelineStep::SearchPatents => "专利搜索",
            PipelineStep::DiversityGate => "多样性检查",
            PipelineStep::ComputeSimilarity => "相似度计算",
            PipelineStep::RankAndFilter => "排序过滤",
            PipelineStep::PriorArtCluster => "现有技术聚类 / Prior art clustering",
            PipelineStep::DetectContradictions => "矛盾信号检测",
            PipelineStep::ScoreNovelty => "新颖性评分",
            PipelineStep::AiDeepAnalysis => "AI 深度分析",
            PipelineStep::AiActionPlan => "AI 行动方案",
            PipelineStep::ExperimentValidation => "实验验证",
            PipelineStep::Finalize => "生成报告",
        }
    }

    /// A failure of a critical step stops the pipeline; other steps may be skipped.
    pub fn is_critical(&self) -> (b: bool)
        ensures
            b == step_is_critical(*self),
    {
        match self {
            PipelineStep::ParseInput | PipelineStep::SearchWeb | PipelineStep::ComputeSimilarity
            | PipelineStep::ScoreNovelty => true,
            _ => false,
        }
    }

    /// Steps that quick mode does not run.
    pub fn skipped_in_quick_mode(&self) -> (b: bool)
        ensures
            b == step_skipped_in_quick_mode(*self),
    {
        match self {
            PipelineStep::ExpandQuery | PipelineStep::DiversityGate | PipelineStep::RankAndFilter
            | PipelineStep::PriorArtCluster | PipelineStep::DetectContradictions
            | PipelineStep::AiDeepAnalysis | PipelineStep::AiActionPlan
            | PipelineStep::ExperimentValidation => true,
            _ => false,
        }
    }
}

/// Positions are a bijection between the steps and `0..TOTAL_STEPS`:
/// every step has a position below the total, and the step at a step's
/// position is that step.
pub proof fn lemma_index_bijection(s: PipelineStep, i: int)
    ensures
        step_index(s) < TOTAL_STEPS,
        step_at(step_index(s) as int) == Some(s),
        0 <= i < TOTAL_STEPS ==> (step_at(i) matches Some(t) && step_index(t) == i),
        !(0 <= i < TOTAL_STEPS) ==> step_at(i) is None,
{
}

/// `next` advances the position by exactly one, and only `Finalize` has no successor.
pub proof fn lemma_next_advances(s: PipelineStep)
    ensures
        step_next(s) matches Some(t) ==> step_index(t) == step_index(s) + 1,
        step_next(s) is None <==> s == PipelineStep::Finalize,
{
}

/// The step reached from `ParseInput` after `k` applications of `next`.
pub open spec fn steps_from_start(k: nat) -> Option<PipelineStep>
    decreases k,
{
    if k == 0 {
        Some(PipelineStep::ParseInput)
    } else {
        match steps_from_start((k - 1) as nat) {
            Some(s) => step_next(s),
            None => None,
        }
    }
}

/// Following `next` from `ParseInput` visits every step once, in order of
/// position, and ends at `Finalize` after `TOTAL_STEPS - 1` moves.
pub proof fn lemma_walk_visits_all(k: nat)
    ensures
        k < TOTAL_STEPS ==> steps_from_start(k) == step_at(k as int),
        k >= TOTAL_STEPS ==> steps_from_start(k) is None,
        steps_from_start((TOTAL_STEPS - 1) as nat) == Some(PipelineStep::Finalize),
    decreases k,
{
    if k > 0 {
        lemma_walk_visits_all((k - 1) as nat);
    }
    reveal_with_fuel(steps_from_start, 15);
}

/// Quick mode never runs a language-model step, and never skips a critical step.
pub proof fn lemma_quick_mode_is_code_only(s: PipelineStep)
    ensures
        step_is_llm(s) ==> step_skipped_in_quick_mode(s),
        step_is_critical(s) ==> !step_skipped_in_quick_mode(s),
{
}

/// The last step, `Finalize`, sits at position 13, every step at 13 or
/// before, and the walk from `ParseInput` passes 14 steps.
pub proof fn lemma_last_position_thirteen(s: PipelineStep)
    ensures
        step_index(PipelineStep::Finalize) == 13,
        step_index(s) <= 13,
        step_at(13) == Some(PipelineStep::Finalize),
        TOTAL_STEPS == 14,
        steps_from_start(13) == Some(PipelineStep::Finalize),
{
    lemma_walk_visits_all(13);
}

} // verus!
