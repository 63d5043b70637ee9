//! Text handling of the multi-dimensional deep reasoning: the key insight of
//! an answer, the directions and blind spots of the synthesis, and the report.
use crate::pipeline::context::{DeepReasoningResult, DimensionInsight};
use crate::pipeline::steps::finalize::{preview_spec, snippet_preview};
use crate::text::{
    decimal, decimal_string,
    byte_len, byte_len_le, chars_of, contains, contains_str, join, join_chars, lines, lines_of,
    push_str, starts_with, starts_with_str, string_of, take_chars, take_n, trim, trim_bullets,
    trim_bullets_chars, trim_chars,
};
use vstd::prelude::*;

verus! {

/// A line counts for the key insight: non-blank, not a heading, not a
/// rule, and more than ten bytes once trimmed.
pub open spec fn insight_line(l: Seq<char>) -> bool {
    let t = trim(l);
    t.len() > 0 && !starts_with(t, "#"@) && !starts_with(t, "---"@) && byte_len(t) > 10
}

pub open spec fn insight_lines(ls: Seq<Seq<char>>) -> Seq<Seq<char>>
    decreases ls.len(),
{
    if ls.len() == 0 {
        Seq::empty()
    } else if insight_line(ls.last()) {
        insight_lines(ls.drop_last()).push(ls.last())
    } else {
        insight_lines(ls.drop_last())
    }
}

/// The key insight: the first two qualifying lines joined by a space, cut to 200 characters.
pub open spec fn key_insight_spec(text: Seq<char>) -> Seq<char> {
    let k = insight_lines(lines(text));
    let two = if k.len() <= 2 { k } else { k.take(2) };
    take_chars(join(two, " "@), 200)
}

fn is_insight_line(l: &Vec<char>) -> (b: bool)
    ensures
        b == insight_line(l@),
{
    let t = trim_chars(l.as_slice());
    t.len() > 0 && !starts_with_str(t.as_slice(), "#") && !starts_with_str(t.as_slice(), "---")
        && !byte_len_le(t.as_slice(), 10)
}

/// The core insight of a dimension's answer.
pub fn extract_key_insight(text: &str) -> (r: String)
    ensures
        r@ == key_insight_spec(text@),
{
    let v = chars_of(text);
    let ls = lines_of(v.as_slice());
    let mut kept: Vec<Vec<char>> = Vec::new();
    let mut i: usize = 0;
    while i < ls.len()
        invariant
            i <= ls.len(),
            kept.deep_view() == insight_lines(ls.deep_view().take(i as int)),
        decreases ls.len() - i,
    {
        assert(ls.deep_view().take(i + 1).drop_last() =~= ls.deep_view().take(i as int));
        assert(ls.deep_view().take(i + 1).last() == ls@[i as int]@);
        if is_insight_line(&ls[i]) {
            let ghost before = kept.deep_view();
            let c = crate::text::slice_range(ls[i].as_slice(), 0, ls[i].len());
            assert(ls@[i as int]@.subrange(0, ls@[i as int]@.len() as int) =~= ls@[i as int]@);
            kept.push(c);
            assert(kept.deep_view() =~~= before.push(ls@[i as int]@));
        }
        i += 1;
    }
    assert(ls.deep_view().take(ls.len() as int) =~= ls.deep_view());
    if kept.len() > 2 {
        let ghost before = kept.deep_view();
        kept.truncate(2);
        assert(kept.deep_view() =~= before.take(2));
    }
    let sp = chars_of(" ");
    let joined = join_chars(&kept, sp.as_slice());
    string_of(take_n(joined.as_slice(), 200).as_slice())
}

/// The section of the synthesis being read.
#[derive(Debug, Clone, Copy, PartialEq, Eq, Structural)]
pub enum SynthesisSection {
    Other,
    Novel,
    Blind,
    Converge,
}

/// Reading state: the section, the directions found and the blind spots found.
pub open spec fn synthesis_step(
    st: (SynthesisSection, Seq<Seq<char>>, Seq<Seq<char>>),
    line: Seq<char>,
) -> (SynthesisSection, Seq<Seq<char>>, Seq<Seq<char>>) {
    let t = trim(line);
    if contains(t, "突破性方向"@) || contains(t, "Top 3"@) {
        (SynthesisSection::Novel, st.1, st.2)
    } else if contains(t, "盲区"@) || contains(t, "盲点"@) {
        (SynthesisSection::Blind, st.1, st.2)
    } else if contains(t, "收敛信号"@) {
        (SynthesisSection::Converge, st.1, st.2)
    } else if starts_with(t, "###"@) {
        (SynthesisSection::Other, st.1, st.2)
    } else {
        let c = trim_bullets(t);
        if byte_len(c) > 10 && st.0 == SynthesisSection::Novel {
            (st.0, st.1.push(c), st.2)
        } else if byte_len(c) > 10 && st.0 == SynthesisSection::Blind {
            (st.0, st.1, st.2.push(c))
        } else {
            st
        }
    }
}

pub open spec fn synthesis_fold(ls: Seq<Seq<char>>) -> (SynthesisSection, Seq<Seq<char>>, Seq<Seq<char>>)
    decreases ls.len(),
{
    if ls.len() == 0 {
        (SynthesisSection::Other, Seq::empty(), Seq::empty())
    } else {
        synthesis_step(synthesis_fold(ls.drop_last()), ls.last())
    }
}

/// Novel directions and blind spots listed under the matching headings of
/// the synthesis: list items longer than ten bytes, markers stripped.
pub fn parse_synthesis(text: &str) -> (r: (Vec<String>, Vec<String>))
    ensures
        r.0.deep_view() == synthesis_fold(lines(text@)).1,
        r.1.deep_view() == synthesis_fold(lines(text@)).2,
{
    let v = chars_of(text);
    let ls = lines_of(v.as_slice());
    let mut novel: Vec<String> = Vec::new();
    let mut blinds: Vec<String> = Vec::new();
    let mut section = SynthesisSection::Other;
    let mut i: usize = 0;
    while i < ls.len()
        invariant
            i <= ls.len(),
            (section, novel.deep_view(), blinds.deep_view()) == synthesis_fold(
                ls.deep_view().take(i as int),
            ),
        decreases ls.len() - i,
    {
        assert(ls.deep_view().take(i + 1).drop_last() =~= ls.deep_view().take(i as int));
        assert(ls.deep_view().take(i + 1).last() == ls@[i as int]@);
        let t = trim_chars(ls[i].as_slice());
        if contains_str(t.as_slice(), "突破性方向") || contains_str(t.as_slice(), "Top 3") {
            section = SynthesisSection::Novel;
        } else if contains_str(t.as_slice(), "盲区") || contains_str(t.as_slice(), "盲点") {
            section = SynthesisSection::Blind;
        } else if contains_str(t.as_slice(), "收敛信号") {
            section = SynthesisSection::Converge;
        } else if starts_with_str(t.as_slice(), "###") {
            section = SynthesisSection::Other;
        } else {
            let c = trim_bullets_chars(t.as_slice());
            if !byte_len_le(c.as_slice(), 10) {
                if section == SynthesisSection::Novel {
                    let ghost before = novel.deep_view();
                    novel.push(string_of(c.as_slice()));
                    assert(novel.deep_view() =~= before.push(c@));
                } else if section == SynthesisSection::Blind {
                    let ghost before = blinds.deep_view();
                    blinds.push(string_of(c.as_slice()));
                    assert(blinds.deep_view() =~= before.push(c@));
                }
            }
        }
        i += 1;
    }
    assert(ls.deep_view().take(ls.len() as int) =~= ls.deep_view());
    (novel, blinds)
}

/// Icon of the `i`-th dimension in the report.
pub open spec fn dimension_icon(i: int) -> Seq<char> {
    if i == 0 {
        "🔬"@
    } else if i == 1 {
        "⚡"@
    } else if i == 2 {
        "🔍"@
    } else if i == 3 {
        "🌊"@
    } else if i == 4 {
        "☯️"@
    } else if i == 5 {
        "🔗"@
    } else {
        "📌"@
    }
}

fn icon(i: usize) -> (r: &'static str)
    ensures
        r@ == dimension_icon(i as int),
{
    if i == 0 {
        "🔬"
    } else if i == 1 {
        "⚡"
    } else if i == 2 {
        "🔍"
    } else if i == 3 {
        "🌊"
    } else if i == 4 {
        "☯️"
    } else if i == 5 {
        "🔗"
    } else {
        "📌"
    }
}

pub open spec fn dimension_section(i: int, d: DimensionInsight) -> Seq<char> {
    "## "@ + dimension_icon(i) + " "@ + d.label@ + " ("@ + d.dimension@ + ")\n\n"@ + d.reasoning@
        + "\n\n---\n\n"@
}

pub open spec fn dimension_sections(ds: Seq<DimensionInsight>) -> Seq<char>
    decreases ds.len(),
{
    if ds.len() == 0 {
        Seq::empty()
    } else {
        dimension_sections(ds.drop_last()) + dimension_section(ds.len() - 1, ds.last())
    }
}

/// The Markdown report: title, the synthesis unless it is empty or a failure
/// note (starting with `（`), then one section per dimension.
pub open spec fn report_spec(r: DeepReasoningResult) -> Seq<char> {
    let head = "# 多维深度推演报告\n\n"@;
    let synth = if r.synthesis@.len() > 0 && r.synthesis@[0] != '（' {
        "## 🔮 跨维度合成\n\n"@ + r.synthesis@ + "\n\n---\n\n"@
    } else {
        Seq::empty()
    };
    head + synth + dimension_sections(r.dimensions@)
}

/// Formats the reasoning result as the Markdown analysis report.
pub fn format_report(result: &DeepReasoningResult) -> (r: String)
    ensures
        r@ == report_spec(*result),
{
    let mut report = String::from_str("# 多维深度推演报告\n\n");
    let sv = chars_of(result.synthesis.as_str());
    if sv.len() > 0 && sv[0] != '（' {
        push_str(&mut report, "## 🔮 跨维度合成\n\n");
        push_str(&mut report, result.synthesis.as_str());
        push_str(&mut report, "\n\n---\n\n");
    }
    let ghost base = report@;
    let mut i: usize = 0;
    while i < result.dimensions.len()
        invariant
            i <= result.dimensions@.len(),
            report@ == base + dimension_sections(result.dimensions@.take(i as int)),
        decreases result.dimensions@.len() - i,
    {
        let d = &result.dimensions[i];
        push_str(&mut report, "## ");
        push_str(&mut report, icon(i));
        push_str(&mut report, " ");
        push_str(&mut report, d.label.as_str());
        push_str(&mut report, " (");
        push_str(&mut report, d.dimension.as_str());
        push_str(&mut report, ")\n\n");
        push_str(&mut report, d.reasoning.as_str());
        push_str(&mut report, "\n\n---\n\n");
        assert(result.dimensions@.take(i + 1).drop_last() =~= result.dimensions@.take(i as int));
        assert(result.dimensions@.take(i + 1).last() == *d);
        assert(report@ =~= base + dimension_sections(result.dimensions@.take(i + 1)));
        i += 1;
    }
    assert(result.dimensions@.take(result.dimensions@.len() as int) =~= result.dimensions@);
    report
}

// ───────────────────────── the reasoning rounds ─────────────────────────

/// Number of reasoning dimensions; a synthesis round follows them.
pub const DIMENSION_COUNT: usize = 6;

/// Rounds of the whole reasoning: one per dimension, then the synthesis.
pub const REASONING_ROUNDS: usize = 7;

pub open spec fn dimension_key_spec(i: int) -> Seq<char> {
    if i == 0 {
        "scientific"@
    } else if i == 1 {
        "dialectical"@
    } else if i == 2 {
        "epistemological"@
    } else if i == 3 {
        "phenomenological"@
    } else if i == 4 {
        "eastern"@
    } else {
        "topological"@
    }
}

/// The key of reasoning dimension `i`.
pub fn dimension_key(i: usize) -> (r: &'static str)
    requires
        i < DIMENSION_COUNT,
    ensures
        r@ == dimension_key_spec(i as int),
{
    if i == 0 {
        "scientific"
    } else if i == 1 {
        "dialectical"
    } else if i == 2 {
        "epistemological"
    } else if i == 3 {
        "phenomenological"
    } else if i == 4 {
        "eastern"
    } else {
        "topological"
    }
}

pub open spec fn dimension_label_spec(i: int) -> Seq<char> {
    if i == 0 {
        "科学推导"@
    } else if i == 1 {
        "辩证批判"@
    } else if i == 2 {
        "知识审计"@
    } else if i == 3 {
        "本质还原"@
    } else if i == 4 {
        "减法思维"@
    } else {
        "跨域映射"@
    }
}

/// The label of reasoning dimension `i`.
pub fn dimension_label(i: usize) -> (r: &'static str)
    requires
        i < DIMENSION_COUNT,
    ensures
        r@ == dimension_label_spec(i as int),
{
    if i == 0 {
        "科学推导"
    } else if i == 1 {
        "辩证批判"
    } else if i == 2 {
        "知识审计"
    } else if i == 3 {
        "本质还原"
    } else if i == 4 {
        "减法思维"
    } else {
        "跨域映射"
    }
}

pub open spec fn dimension_system_spec(i: int) -> Seq<char> {
    if i == 0 {
        "你是一位理论物理学家兼材料科学家。你只从基本定律出发推理，不引用任何现有产品或方案。\n\n你的思维方式：\n1. 识别支配这个问题的基本物理/化学/数学方程\n2. 从这些方程推导出理论极限（不是工程极限，是物理定律允许的极限）\n3. 计算当前实践距离理论极限还有多远（这个差距就是创新空间）\n4. 指出在这个差距中，哪些「自由能」可以被开发\n\n约束：你必须给出至少一个定量推导或公式。不要泛泛而谈。"@
    } else if i == 1 {
        "你是一位辩证法大师。你的任务是攻击问题本身，而不是回答问题。\n\n你的思维方式：\n1. 列出这个问题陈述中包含的所有隐含假设（至少 3 个）\n2. 对每个假设：如果它的反面成立呢？会打开什么新空间？\n3. 找出现有方案之间的矛盾（不是缺点，是相互矛盾的技术路线）\n4. 对每个矛盾：提出一个不做妥协的「合题」——同时满足矛盾双方的路径\n\n约束：你必须产出至少 3 个明确的矛盾及其「合题」解决方案。不要只列缺点。"@
    } else if i == 2 {
        "你是一位认识论学者。你不分析技术，你分析「我们以为自己知道的东西」。\n\n你的思维方式：\n1. 列出这个领域里所有人认为「当然如此」的 5 个核心「事实」\n2. 对每个「事实」追问：证据是什么？最后一次被验证是什么时候？在什么条件下验证的？\n3. 哪些「事实」其实是历史遗留的假设，已经不适用于当前技术条件？\n4. 如果某个「事实」被推翻，会打开什么全新的解决方案空间？\n\n约束：你必须找出至少 1 个被广泛接受但实际上是未经验证的假设。"@
    } else if i == 3 {
        "你是一位现象学思考者。你要剥掉所有技术术语和已知方案，回到最原始的需求。\n\n你的思维方式：\n1. 忘掉目前是怎么做的。用一句话描述最原始的需求（像对 5 岁小孩解释）\n2. 从这个原始需求出发，假装你从未听说过任何现有方案，你会发明什么？\n3. 列出 3-5 个「天真的」方案（不管目前是不是这么做的）\n4. 对每个天真方案检验：它真的不可能吗？还是只是「不是这么做的」？\n5. 找出那些「不是不可能，只是没人做过」的方案\n\n约束：你必须产出至少 1 个看似天真但物理上可行的新方案。"@
    } else if i == 4 {
        "你用「无为」和「减法」思维。最好的方案不是解决问题，而是消除产生问题的条件。\n\n你的思维方式：\n1. 这个问题为什么存在？什么上游条件产生了它？\n2. 如果消除上游条件，问题本身就不需要解决了——怎么消除？\n3. 当前方案中有多少复杂性只是为了补偿早期的错误决策？\n4. 如果把当前方案的组件/步骤/参数减少到 1/10，会怎样？\n5. 什么东西可以直接删掉，系统反而变得更好？\n\n约束：你必须识别出至少 1 个可以完全移除的组件/步骤，并说明移除后为什么更好。"@
    } else {
        "你是一位数学家，你看到的不是具体事物，而是抽象结构和模式。\n\n你的思维方式：\n1. 抽象出这个问题的数学结构（它是什么类型的问题？优化？流动？扩散？拓扑？博弈？）\n2. 在完全不同的领域中找到具有相同数学结构的问题（至少 2 个领域）\n3. 那些领域是怎么解决它们的版本的？\n4. 哪些解法可以直接迁移过来？需要做什么适配？\n5. 这种跨域迁移能带来什么当前领域没有的突破？\n\n约束：你必须给出至少 2 个跨域类比，每个都要指明具体的可迁移技术。"@
    }
}

/// The system message of reasoning dimension `i`: the frame it imposes on the model.
pub fn dimension_system(i: usize) -> (r: &'static str)
    requires
        i < DIMENSION_COUNT,
    ensures
        r@ == dimension_system_spec(i as int),
{
    if i == 0 {
        "你是一位理论物理学家兼材料科学家。你只从基本定律出发推理，不引用任何现有产品或方案。\n\n你的思维方式：\n1. 识别支配这个问题的基本物理/化学/数学方程\n2. 从这些方程推导出理论极限（不是工程极限，是物理定律允许的极限）\n3. 计算当前实践距离理论极限还有多远（这个差距就是创新空间）\n4. 指出在这个差距中，哪些「自由能」可以被开发\n\n约束：你必须给出至少一个定量推导或公式。不要泛泛而谈。"
    } else if i == 1 {
        "你是一位辩证法大师。你的任务是攻击问题本身，而不是回答问题。\n\n你的思维方式：\n1. 列出这个问题陈述中包含的所有隐含假设（至少 3 个）\n2. 对每个假设：如果它的反面成立呢？会打开什么新空间？\n3. 找出现有方案之间的矛盾（不是缺点，是相互矛盾的技术路线）\n4. 对每个矛盾：提出一个不做妥协的「合题」——同时满足矛盾双方的路径\n\n约束：你必须产出至少 3 个明确的矛盾及其「合题」解决方案。不要只列缺点。"
    } else if i == 2 {
        "你是一位认识论学者。你不分析技术，你分析「我们以为自己知道的东西」。\n\n你的思维方式：\n1. 列出这个领域里所有人认为「当然如此」的 5 个核心「事实」\n2. 对每个「事实」追问：证据是什么？最后一次被验证是什么时候？在什么条件下验证的？\n3. 哪些「事实」其实是历史遗留的假设，已经不适用于当前技术条件？\n4. 如果某个「事实」被推翻，会打开什么全新的解决方案空间？\n\n约束：你必须找出至少 1 个被广泛接受但实际上是未经验证的假设。"
    } else if i == 3 {
        "你是一位现象学思考者。你要剥掉所有技术术语和已知方案，回到最原始的需求。\n\n你的思维方式：\n1. 忘掉目前是怎么做的。用一句话描述最原始的需求（像对 5 岁小孩解释）\n2. 从这个原始需求出发，假装你从未听说过任何现有方案，你会发明什么？\n3. 列出 3-5 个「天真的」方案（不管目前是不是这么做的）\n4. 对每个天真方案检验：它真的不可能吗？还是只是「不是这么做的」？\n5. 找出那些「不是不可能，只是没人做过」的方案\n\n约束：你必须产出至少 1 个看似天真但物理上可行的新方案。"
    } else if i == 4 {
        "你用「无为」和「减法」思维。最好的方案不是解决问题，而是消除产生问题的条件。\n\n你的思维方式：\n1. 这个问题为什么存在？什么上游条件产生了它？\n2. 如果消除上游条件，问题本身就不需要解决了——怎么消除？\n3. 当前方案中有多少复杂性只是为了补偿早期的错误决策？\n4. 如果把当前方案的组件/步骤/参数减少到 1/10，会怎样？\n5. 什么东西可以直接删掉，系统反而变得更好？\n\n约束：你必须识别出至少 1 个可以完全移除的组件/步骤，并说明移除后为什么更好。"
    } else {
        "你是一位数学家，你看到的不是具体事物，而是抽象结构和模式。\n\n你的思维方式：\n1. 抽象出这个问题的数学结构（它是什么类型的问题？优化？流动？扩散？拓扑？博弈？）\n2. 在完全不同的领域中找到具有相同数学结构的问题（至少 2 个领域）\n3. 那些领域是怎么解决它们的版本的？\n4. 哪些解法可以直接迁移过来？需要做什么适配？\n5. 这种跨域迁移能带来什么当前领域没有的突破？\n\n约束：你必须给出至少 2 个跨域类比，每个都要指明具体的可迁移技术。"
    }
}

pub open spec fn dimension_temperature_spec(i: int) -> u8 {
    if i == 0 {
        3
    } else if i == 1 {
        8
    } else if i == 2 {
        5
    } else if i == 3 {
        7
    } else if i == 4 {
        6
    } else {
        7
    }
}

/// The sampling temperature of reasoning dimension `i`, in tenths.
pub fn dimension_temperature_tenths(i: usize) -> (r: u8)
    requires
        i < DIMENSION_COUNT,
    ensures
        r == dimension_temperature_spec(i as int),
{
    if i == 0 {
        3
    } else if i == 1 {
        8
    } else if i == 2 {
        5
    } else if i == 3 {
        7
    } else if i == 4 {
        6
    } else {
        7
    }
}

pub open spec fn synthesis_system_spec() -> Seq<char> {
    "你是一位跨学科整合大师。你收到了 6 位不同思维模式专家的分析。\n你的任务不是总结他们说了什么，而是找到他们之间的化学反应——\n单个维度看不到，但两个或多个维度交叉时才会浮现的洞察。\n\n你需要输出：\n\n### 收敛信号\n多个维度独立指向的相同方向（这些是最可信的方向）\n\n### 突破性方向（Top 3）\n跨维度组合产生的全新方案——这些方案在任何单一维度中都不会出现。\n对每个方向：说明它来自哪些维度的交叉，为什么可行，具体怎么做。\n\n### 盲区\n6 个维度都没有覆盖到的领域或可能性（可能是最大的机会）\n\n约束：Top 3 方向必须是**从未在现有文献中出现过**的新方案，不是已有方案的改良。"@
}

/// The system message of the synthesis round.
pub fn synthesis_system() -> (r: &'static str)
    ensures
        r@ == synthesis_system_spec(),
{
    "你是一位跨学科整合大师。你收到了 6 位不同思维模式专家的分析。\n你的任务不是总结他们说了什么，而是找到他们之间的化学反应——\n单个维度看不到，但两个或多个维度交叉时才会浮现的洞察。\n\n你需要输出：\n\n### 收敛信号\n多个维度独立指向的相同方向（这些是最可信的方向）\n\n### 突破性方向（Top 3）\n跨维度组合产生的全新方案——这些方案在任何单一维度中都不会出现。\n对每个方向：说明它来自哪些维度的交叉，为什么可行，具体怎么做。\n\n### 盲区\n6 个维度都没有覆盖到的领域或可能性（可能是最大的机会）\n\n约束：Top 3 方向必须是**从未在现有文献中出现过**的新方案，不是已有方案的改良。"
}

/// `parts.join(sep)` as a string.
fn join_text(parts: &Vec<String>, sep: &str) -> (r: String)
    ensures
        r@ == join(parts.deep_view(), sep@),
{
    let sv = chars_of(sep);
    let v = crate::pipeline::steps::contradiction::join_strings(parts, sv.as_slice());
    string_of(v.as_slice())
}

/// A close match as the reasoning context lists it; the similarity is
/// already written out as a whole percentage.
#[derive(Debug, Clone)]
pub struct ContextMatch {
    pub source_type: String,
    pub title: String,
    pub score: String,
    pub snippet: String,
}

/// A contradiction as the reasoning context lists it; the strength is
/// already written out as a whole percentage.
#[derive(Debug, Clone)]
pub struct ContextContradiction {
    pub dimension: String,
    pub opportunity: String,
    pub strength: String,
}

pub open spec fn context_match_line(m: ContextMatch) -> Seq<char> {
    "- ["@ + m.source_type@ + "] "@ + m.title@ + " (相似度: "@ + m.score@ + "%): "@ + preview_spec(m.snippet@, 120)
}

pub open spec fn context_contradiction_line(c: ContextContradiction) -> Seq<char> {
    "- "@ + c.dimension@ + ": "@ + c.opportunity@ + " (强度 "@ + c.strength@ + "%)"@
}

/// The input every dimension receives: the idea, its score (a whole
/// number), the first eight matches and the contradictions (or 无).
pub open spec fn user_context_spec(
    title: Seq<char>,
    description: Seq<char>,
    domain: Seq<char>,
    score: Seq<char>,
    ms: Seq<ContextMatch>,
    cs: Seq<ContextContradiction>,
) -> Seq<char> {
    let matches = join(
        ms.take(if ms.len() < 8 { ms.len() as int } else { 8 }).map_values(|m: ContextMatch| context_match_line(m)),
        "\n"@,
    );
    let contras = if cs.len() == 0 {
        "无"@
    } else {
        join(cs.map_values(|c: ContextContradiction| context_contradiction_line(c)), "\n"@)
    };
    "## 待分析的创意\n**标题：** "@ + title + "\n**描述：** "@ + description + "\n**技术领域：** "@ + domain
        + "\n**新颖性评分：** "@ + score + "/100\n\n## 已发现的相关现有技术\n"@ + matches
        + "\n\n## 已检测到的技术路线矛盾\n"@ + contras + "\n\n基于以上信息，按你的思维框架进行分析。"@
}

pub fn user_context(
    title: &str,
    description: &str,
    domain: &str,
    score: &str,
    ms: &Vec<ContextMatch>,
    cs: &Vec<ContextContradiction>,
) -> (r: String)
    ensures
        r@ == user_context_spec(title@, description@, domain@, score@, ms@, cs@),
{
    let limit: usize = if ms.len() < 8 {
        ms.len()
    } else {
        8
    };
    let ghost ml = ms@.take(limit as int).map_values(|m: ContextMatch| context_match_line(m));
    let mut lines: Vec<String> = Vec::new();
    let mut i: usize = 0;
    while i < limit
        invariant
            i <= limit <= ms@.len(),
            ml == ms@.take(limit as int).map_values(|m: ContextMatch| context_match_line(m)),
            lines.deep_view() =~= ml.take(i as int),
        decreases limit - i,
    {
        let m = &ms[i];
        let mut s = "- [".to_string();
        push_str(&mut s, m.source_type.as_str());
        push_str(&mut s, "] ");
        push_str(&mut s, m.title.as_str());
        push_str(&mut s, " (相似度: ");
        push_str(&mut s, m.score.as_str());
        push_str(&mut s, "%): ");
        let p = snippet_preview(m.snippet.as_str(), 120);
        push_str(&mut s, p.as_str());
        let ghost before = lines.deep_view();
        lines.push(s);
        assert(lines.deep_view() =~= before.push(ml[i as int]));
        i += 1;
    }
    assert(ml.take(limit as int) =~= ml);
    let matches = join_text(&lines, "\n");
    let contras = if cs.len() == 0 {
        "无".to_string()
    } else {
        let ghost cl = cs@.map_values(|c: ContextContradiction| context_contradiction_line(c));
        let mut cls: Vec<String> = Vec::new();
        let mut j: usize = 0;
        while j < cs.len()
            invariant
                j <= cs@.len(),
                cl == cs@.map_values(|c: ContextContradiction| context_contradiction_line(c)),
                cls.deep_view() =~= cl.take(j as int),
            decreases cs@.len() - j,
        {
            let c = &cs[j];
            let mut s = "- ".to_string();
            push_str(&mut s, c.dimension.as_str());
            push_str(&mut s, ": ");
            push_str(&mut s, c.opportunity.as_str());
            push_str(&mut s, " (强度 ");
            push_str(&mut s, c.strength.as_str());
            push_str(&mut s, "%)");
            let ghost before = cls.deep_view();
            cls.push(s);
            assert(cls.deep_view() =~= before.push(cl[j as int]));
            j += 1;
        }
        assert(cl.take(cs@.len() as int) =~= cl);
        join_text(&cls, "\n")
    };
    let mut r = "## 待分析的创意\n**标题：** ".to_string();
    push_str(&mut r, title);
    push_str(&mut r, "\n**描述：** ");
    push_str(&mut r, description);
    push_str(&mut r, "\n**技术领域：** ");
    push_str(&mut r, domain);
    push_str(&mut r, "\n**新颖性评分：** ");
    push_str(&mut r, score);
    push_str(&mut r, "/100\n\n## 已发现的相关现有技术\n");
    push_str(&mut r, matches.as_str());
    push_str(&mut r, "\n\n## 已检测到的技术路线矛盾\n");
    push_str(&mut r, contras.as_str());
    push_str(&mut r, "\n\n基于以上信息，按你的思维框架进行分析。");
    assert(r@ =~= user_context_spec(title@, description@, domain@, score@, ms@, cs@));
    r
}

/// The reasoning recorded for a dimension whose call failed with `err`.
pub fn dimension_failed(err: &str) -> (r: String)
    ensures
        r@ == "（此维度推演未完成："@ + err@ + "）"@,
{
    let mut r = "（此维度推演未完成：".to_string();
    push_str(&mut r, err);
    push_str(&mut r, "）");
    r
}

/// The synthesis recorded when its call failed with `err`.
pub fn synthesis_failed(err: &str) -> (r: String)
    ensures
        r@ == "（跨维度合成未完成："@ + err@ + "）"@,
{
    let mut r = "（跨维度合成未完成：".to_string();
    push_str(&mut r, err);
    push_str(&mut r, "）");
    r
}

/// The progress message of dimension `i`.
pub fn dimension_progress(i: usize) -> (r: String)
    requires
        i < DIMENSION_COUNT,
    ensures
        r@ == "多维推演："@ + dimension_label_spec(i as int) + " ("@ + decimal((i + 1) as nat) + "/"@ + decimal(
            REASONING_ROUNDS as nat,
        ) + ")"@,
{
    let mut r = "多维推演：".to_string();
    push_str(&mut r, dimension_label(i));
    push_str(&mut r, " (");
    let a = decimal_string((i as u64) + 1);
    push_str(&mut r, a.as_str());
    push_str(&mut r, "/");
    let b = decimal_string(REASONING_ROUNDS as u64);
    push_str(&mut r, b.as_str());
    push_str(&mut r, ")");
    r
}

/// The record of dimension `i` once its reasoning is in: its key and label,
/// the reasoning and its key insight.
pub fn dimension_insight(i: usize, reasoning: String) -> (r: DimensionInsight)
    requires
        i < DIMENSION_COUNT,
    ensures
        r.dimension@ == dimension_key_spec(i as int),
        r.label@ == dimension_label_spec(i as int),
        r.reasoning@ == reasoning@,
        r.key_insight@ == key_insight_spec(reasoning@),
{
    let key_insight = extract_key_insight(reasoning.as_str());
    DimensionInsight {
        dimension: dimension_key(i).to_string(),
        label: dimension_label(i).to_string(),
        reasoning,
        key_insight,
    }
}

pub open spec fn synthesis_input_part(d: DimensionInsight) -> Seq<char> {
    "## ["@ + d.label@ + "] 维度分析\n\n"@ + d.reasoning@ + "\n"@
}

/// The prompt of the synthesis round: the idea and every dimension's
/// reasoning, separated by rules.
pub open spec fn synthesis_prompt_spec(title: Seq<char>, description: Seq<char>, ds: Seq<DimensionInsight>) -> Seq<char> {
    "以下是 6 位不同思维模式专家对同一个创意的分析：\n\n**创意：** "@ + title + "\n**描述：** "@ + description
        + "\n\n---\n\n"@ + join(ds.map_values(|d: DimensionInsight| synthesis_input_part(d)), "\n---\n\n"@)
        + "\n\n---\n\n请进行跨维度合成分析。"@
}

pub fn synthesis_prompt(title: &str, description: &str, ds: &Vec<DimensionInsight>) -> (r: String)
    ensures
        r@ == synthesis_prompt_spec(title@, description@, ds@),
{
    let ghost pl = ds@.map_values(|d: DimensionInsight| synthesis_input_part(d));
    let mut parts: Vec<String> = Vec::new();
    let mut i: usize = 0;
    while i < ds.len()
        invariant
            i <= ds@.len(),
            pl == ds@.map_values(|d: DimensionInsight| synthesis_input_part(d)),
            parts.deep_view() =~= pl.take(i as int),
        decreases ds@.len() - i,
    {
        let d = &ds[i];
        let mut s = "## [".to_string();
        push_str(&mut s, d.label.as_str());
        push_str(&mut s, "] 维度分析\n\n");
        push_str(&mut s, d.reasoning.as_str());
        push_str(&mut s, "\n");
        let ghost before = parts.deep_view();
        parts.push(s);
        assert(parts.deep_view() =~= before.push(pl[i as int]));
        i += 1;
    }
    assert(pl.take(ds@.len() as int) =~= pl);
    let joined = join_text(&parts, "\n---\n\n");
    let mut r = "以下是 6 位不同思维模式专家对同一个创意的分析：\n\n**创意：** ".to_string();
    push_str(&mut r, title);
    push_str(&mut r, "\n**描述：** ");
    push_str(&mut r, description);
    push_str(&mut r, "\n\n---\n\n");
    push_str(&mut r, joined.as_str());
    push_str(&mut r, "\n\n---\n\n请进行跨维度合成分析。");
    assert(r@ =~= synthesis_prompt_spec(title@, description@, ds@));
    r
}

/// Records the synthesis reply: the text, and the directions and blind
/// spots read from it.
pub fn apply_synthesis(result: &mut DeepReasoningResult, text: String)
    ensures
        final(result).dimensions == old(result).dimensions,
        final(result).synthesis@ == text@,
        final(result).novel_directions.deep_view() == synthesis_fold(lines(text@)).1,
        final(result).blind_spots.deep_view() == synthesis_fold(lines(text@)).2,
{
    let (novel, blinds) = parse_synthesis(text.as_str());
    result.synthesis = text;
    result.novel_directions = novel;
    result.blind_spots = blinds;
}


} // verus!
