//! Analysis steps: the prompts sent to the model, built from the computed
//! figures, and the texts used when the model is unavailable.
use crate::pipeline::steps::contradiction::join_strings;
use crate::pipeline::steps::finalize::{preview_spec, snippet_preview, ReportFigures};
use crate::text::{chars_of, decimal, decimal_string, join, push_str, string_of, take_chars, take_n};
use vstd::prelude::*;

verus! {

/// One of the closest matches, as the analysis prompt lists it.
#[derive(Debug, Clone)]
pub struct PromptMatch {
    pub source_type: String,
    pub title: String,
    /// Similarity in percent with one decimal.
    pub score: String,
    pub snippet: String,
    pub url: String,
}

/// One contradiction, as the analysis prompt lists it.
#[derive(Debug, Clone)]
pub struct PromptContradiction {
    pub dimension: String,
    /// Signal strength in percent, as a whole number.
    pub strength: String,
    pub opportunity: String,
}

pub open spec fn match_entry(m: PromptMatch) -> Seq<char> {
    "- ["@ + m.source_type@ + "] "@ + m.title@ + " (相似度: "@ + m.score@ + "%)\n  "@ + preview_spec(
        m.snippet@,
        150,
    ) + "\n  来源: "@ + m.url@
}

pub open spec fn contradiction_entry(c: PromptContradiction) -> Seq<char> {
    "- 矛盾维度: "@ + c.dimension@ + "\n  信号强度: "@ + c.strength@ + "%\n  机会: "@ + c.opportunity@
}

/// The first ten matches, each as an entry, separated by blank lines.
pub open spec fn matches_summary_spec(ms: Seq<PromptMatch>) -> Seq<char> {
    join(
        ms.take(if ms.len() < 10 { ms.len() as int } else { 10 }).map_values(|m: PromptMatch| match_entry(m)),
        "\n\n"@,
    )
}

/// The contradictions, each as an entry, separated by blank lines; a fixed
/// sentence when there is none.
pub open spec fn contradictions_summary_spec(cs: Seq<PromptContradiction>) -> Seq<char> {
    if cs.len() == 0 {
        "未检测到明显的技术路线矛盾。"@
    } else {
        join(cs.map_values(|c: PromptContradiction| contradiction_entry(c)), "\n\n"@)
    }
}

fn match_entry_text(m: &PromptMatch) -> (r: String)
    ensures
        r@ == match_entry(*m),
{
    let mut r = String::new();
    push_str(&mut r, "- [");
    push_str(&mut r, m.source_type.as_str());
    push_str(&mut r, "] ");
    push_str(&mut r, m.title.as_str());
    push_str(&mut r, " (相似度: ");
    push_str(&mut r, m.score.as_str());
    push_str(&mut r, "%)\n  ");
    let p = snippet_preview(m.snippet.as_str(), 150);
    push_str(&mut r, p.as_str());
    push_str(&mut r, "\n  来源: ");
    push_str(&mut r, m.url.as_str());
    assert(r@ =~= match_entry(*m));
    r
}

pub fn matches_summary(ms: &Vec<PromptMatch>) -> (r: String)
    ensures
        r@ == matches_summary_spec(ms@),
{
    let limit: usize = if ms.len() < 10 {
        ms.len()
    } else {
        10
    };
    let ghost picked = ms@.take(limit as int).map_values(|m: PromptMatch| match_entry(m));
    let mut lines: Vec<String> = Vec::new();
    let mut i: usize = 0;
    while i < limit
        invariant
            i <= limit <= ms@.len(),
            lines.deep_view() =~= picked.take(i as int),
            picked == ms@.take(limit as int).map_values(|m: PromptMatch| match_entry(m)),
        decreases limit - i,
    {
        let e = match_entry_text(&ms[i]);
        let ghost before = lines.deep_view();
        lines.push(e);
        assert(lines.deep_view() =~= before.push(picked[i as int]));
        i += 1;
    }
    assert(picked.len() == limit);
    assert(picked.take(limit as int) =~= picked);
    assert(lines.deep_view() =~= picked);
    let sep = chars_of("\n\n");
    let v = join_strings(&lines, sep.as_slice());
    string_of(v.as_slice())
}

pub fn contradictions_summary(cs: &Vec<PromptContradiction>) -> (r: String)
    ensures
        r@ == contradictions_summary_spec(cs@),
{
    if cs.len() == 0 {
        return "未检测到明显的技术路线矛盾。".to_string();
    }
    let ghost all = cs@.map_values(|c: PromptContradiction| contradiction_entry(c));
    let mut lines: Vec<String> = Vec::new();
    let mut i: usize = 0;
    while i < cs.len()
        invariant
            i <= cs@.len(),
            lines.deep_view() =~= all.take(i as int),
            all == cs@.map_values(|c: PromptContradiction| contradiction_entry(c)),
        decreases cs@.len() - i,
    {
        let c = &cs[i];
        let mut e = String::new();
        push_str(&mut e, "- 矛盾维度: ");
        push_str(&mut e, c.dimension.as_str());
        push_str(&mut e, "\n  信号强度: ");
        push_str(&mut e, c.strength.as_str());
        push_str(&mut e, "%\n  机会: ");
        push_str(&mut e, c.opportunity.as_str());
        assert(e@ =~= contradiction_entry(*c));
        let ghost before = lines.deep_view();
        lines.push(e);
        assert(lines.deep_view() =~= before.push(all[i as int]));
        i += 1;
    }
    assert(all.take(cs@.len() as int) =~= all);
    let sep = chars_of("\n\n");
    let v = join_strings(&lines, sep.as_slice());
    string_of(v.as_slice())
}

/// The idea being validated.
#[derive(Debug, Clone)]
pub struct IdeaText {
    pub title: String,
    pub description: String,
    pub domain: String,
}

pub open spec fn analysis_prompt_spec(
    idea: IdeaText,
    f: ReportFigures,
    ms: Seq<PromptMatch>,
    cs: Seq<PromptContradiction>,
) -> Seq<char> {
    "## 用户的创意\n**标题：** "@ + idea.title@ + "\n**描述：** "@ + idea.description@ + "\n**技术领域：** "@
        + idea.domain@ + "\n\n## 代码计算结果（已验证，请基于此分析）\n\n**新颖性评分："@ + f.novelty@
        + "/100**\n- 最高相似度："@ + f.max_similarity@ + "%（与最相似的现有技术）\n- Top5 平均相似度："@
        + f.avg_top5@ + "%\n- 矛盾信号加分：+"@ + f.contradiction_bonus@ + "\n- 覆盖缺口加分：+"@
        + f.coverage_bonus@ + "\n- 搜索多样性："@ + f.coverage@
        + "%\n\n## 最相关的现有技术（按相似度排序）\n\n"@ + matches_summary_spec(ms)
        + "\n\n## 矛盾信号（不同技术路线 = 创新空间）\n\n"@ + contradictions_summary_spec(cs)
        + "\n\n请基于以上**代码已计算的结构化数据**进行深度分析，用 Markdown 格式返回：\n\n### 1. 新颖性解读\n- 解读评分含义，哪些方面是新颖的，哪些已有先例\n\n### 2. 已有方案分析\n- 对最相关的 3-5 个现有方案进行优缺点分析\n\n### 3. 差异化机会\n- 基于矛盾信号和覆盖缺口，指出最有前景的创新方向\n\n### 4. 风险提示\n- 技术壁垒、知识产权风险、市场竞争风险"@
}

/// The prompt of the single-call analysis: the idea, the computed figures,
/// the closest matches and the contradictions, then the questions.
pub fn analysis_prompt(idea: &IdeaText, f: &ReportFigures, ms: &Vec<PromptMatch>, cs: &Vec<PromptContradiction>) -> (r:
    String)
    ensures
        r@ == analysis_prompt_spec(*idea, *f, ms@, cs@),
{
    let matches = matches_summary(ms);
    let contradictions = contradictions_summary(cs);
    let mut r = String::new();
    push_str(&mut r, "## 用户的创意\n**标题：** ");
    push_str(&mut r, idea.title.as_str());
    push_str(&mut r, "\n**描述：** ");
    push_str(&mut r, idea.description.as_str());
    push_str(&mut r, "\n**技术领域：** ");
    push_str(&mut r, idea.domain.as_str());
    push_str(&mut r, "\n\n## 代码计算结果（已验证，请基于此分析）\n\n**新颖性评分：");
    push_str(&mut r, f.novelty.as_str());
    push_str(&mut r, "/100**\n- 最高相似度：");
    push_str(&mut r, f.max_similarity.as_str());
    push_str(&mut r, "%（与最相似的现有技术）\n- Top5 平均相似度：");
    push_str(&mut r, f.avg_top5.as_str());
    push_str(&mut r, "%\n- 矛盾信号加分：+");
    push_str(&mut r, f.contradiction_bonus.as_str());
    push_str(&mut r, "\n- 覆盖缺口加分：+");
    push_str(&mut r, f.coverage_bonus.as_str());
    push_str(&mut r, "\n- 搜索多样性：");
    push_str(&mut r, f.coverage.as_str());
    push_str(&mut r, "%\n\n## 最相关的现有技术（按相似度排序）\n\n");
    push_str(&mut r, matches.as_str());
    push_str(&mut r, "\n\n## 矛盾信号（不同技术路线 = 创新空间）\n\n");
    push_str(&mut r, contradictions.as_str());
    push_str(
        &mut r,
        "\n\n请基于以上**代码已计算的结构化数据**进行深度分析，用 Markdown 格式返回：\n\n### 1. 新颖性解读\n- 解读评分含义，哪些方面是新颖的，哪些已有先例\n\n### 2. 已有方案分析\n- 对最相关的 3-5 个现有方案进行优缺点分析\n\n### 3. 差异化机会\n- 基于矛盾信号和覆盖缺口，指出最有前景的创新方向\n\n### 4. 风险提示\n- 技术壁垒、知识产权风险、市场竞争风险",
    );
    assert(r@ =~= analysis_prompt_spec(*idea, *f, ms@, cs@));
    r
}

pub open spec fn analysis_unavailable_spec(err: Seq<char>, score: Seq<char>, n_matches: nat, n_contradictions: nat) -> Seq<
    char,
> {
    "AI 分析暂不可用（"@ + err + "）。\n\n基于代码计算的结果：新颖性评分 "@ + score + "/100，找到 "@ + decimal(
        n_matches,
    ) + " 个相关现有技术，"@ + decimal(n_contradictions) + " 个矛盾信号。\n请参考上方的量化数据进行判断。"@
}

/// The analysis text when the model failed with `err`.
pub fn analysis_unavailable(err: &str, score: &str, n_matches: u64, n_contradictions: u64) -> (r: String)
    ensures
        r@ == analysis_unavailable_spec(err@, score@, n_matches as nat, n_contradictions as nat),
{
    let mut r = String::new();
    push_str(&mut r, "AI 分析暂不可用（");
    push_str(&mut r, err);
    push_str(&mut r, "）。\n\n基于代码计算的结果：新颖性评分 ");
    push_str(&mut r, score);
    push_str(&mut r, "/100，找到 ");
    let a = decimal_string(n_matches);
    push_str(&mut r, a.as_str());
    push_str(&mut r, " 个相关现有技术，");
    let b = decimal_string(n_contradictions);
    push_str(&mut r, b.as_str());
    push_str(&mut r, " 个矛盾信号。\n请参考上方的量化数据进行判断。");
    assert(r@ =~= analysis_unavailable_spec(err@, score@, n_matches as nat, n_contradictions as nat));
    r
}

pub open spec fn action_plan_prompt_spec(title: Seq<char>, score: Seq<char>, domain: Seq<char>, n_contradictions: nat, analysis: Seq<char>) -> Seq<
    char,
> {
    "基于以下创意分析结果，生成具体的行动方案：\n\n**创意：** "@ + title + "\n**新颖性评分：** "@ + score
        + "/100\n**技术领域：** "@ + domain + "\n**矛盾信号数量：** "@ + decimal(n_contradictions)
        + "\n\n**AI 分析摘要（前 500 字）：**\n"@ + take_chars(analysis, 500)
        + "\n\n请给出：\n\n### 优化建议\n- 3-5 条具体可执行的技术改进方向\n\n### 推荐行动\n- 短期（1-3个月）应该做什么\n- 中期（3-6个月）应该做什么\n\n### 潜在合作/资源\n- 可以参考或合作的机构/团队\n- 推荐关注的技术社区或会议"@
}

/// The prompt asking for an action plan; the analysis enters with its
/// first 500 characters.
pub fn action_plan_prompt(title: &str, score: &str, domain: &str, n_contradictions: u64, analysis: &str) -> (r: String)
    ensures
        r@ == action_plan_prompt_spec(title@, score@, domain@, n_contradictions as nat, analysis@),
{
    let mut r = String::new();
    push_str(&mut r, "基于以下创意分析结果，生成具体的行动方案：\n\n**创意：** ");
    push_str(&mut r, title);
    push_str(&mut r, "\n**新颖性评分：** ");
    push_str(&mut r, score);
    push_str(&mut r, "/100\n**技术领域：** ");
    push_str(&mut r, domain);
    push_str(&mut r, "\n**矛盾信号数量：** ");
    let n = decimal_string(n_contradictions);
    push_str(&mut r, n.as_str());
    push_str(&mut r, "\n\n**AI 分析摘要（前 500 字）：**\n");
    let head = take_n(chars_of(analysis).as_slice(), 500);
    let hs = string_of(head.as_slice());
    push_str(&mut r, hs.as_str());
    push_str(
        &mut r,
        "\n\n请给出：\n\n### 优化建议\n- 3-5 条具体可执行的技术改进方向\n\n### 推荐行动\n- 短期（1-3个月）应该做什么\n- 中期（3-6个月）应该做什么\n\n### 潜在合作/资源\n- 可以参考或合作的机构/团队\n- 推荐关注的技术社区或会议",
    );
    assert(r@ =~= action_plan_prompt_spec(title@, score@, domain@, n_contradictions as nat, analysis@));
    r
}

/// The action plan text when the model failed with `err`.
pub fn action_plan_unavailable(err: &str) -> (r: String)
    ensures
        r@ == "行动方案生成暂不可用："@ + err@,
{
    let mut r = "行动方案生成暂不可用：".to_string();
    push_str(&mut r, err);
    r
}

} // verus!
