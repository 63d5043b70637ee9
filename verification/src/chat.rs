//! What is sent to a chat model: the message lists, the prompts of the
//! patent analyses, and the reading of a streamed reply.
use crate::json::{deref_opt, first_of, get, get_member, item_at, str_of, string_value, Json};
use crate::text::{
    chars_of, clip_bytes, decimal, decimal_string, find, find_chars, head_bytes, lemma_find_from_spec, lines, push_str,
    raw_lines, slice_range, starts_with, starts_with_str, string_of, take_chars, take_n, trim, trim_chars, trim_str,
};
use vstd::prelude::*;

verus! {

/// One message of a chat request.
#[derive(Debug, Clone)]
pub struct ChatMessage {
    pub role: String,
    pub content: String,
}

pub open spec fn messages_view(v: Seq<ChatMessage>) -> Seq<(Seq<char>, Seq<char>)> {
    v.map_values(|m: ChatMessage| (m.role@, m.content@))
}

pub open spec fn assistant_system_spec() -> Seq<char> {
    "你是一个专利分析助手。你擅长分析专利文献、解读权利要求、评估专利价值、进行技术趋势分析。请用中文回答，专业术语可以保留英文。"@
}

/// The messages of a general chat request: the assistant's system
/// message, then the reference context as a second system message when
/// there is one, then the user's message.
pub open spec fn chat_messages_spec(user: Seq<char>, context: Option<Seq<char>>) -> Seq<(Seq<char>, Seq<char>)> {
    match context {
        Some(c) => seq![
            ("system"@, assistant_system_spec()),
            ("system"@, "以下是相关专利信息供参考：\n"@ + c),
            ("user"@, user),
        ],
        None => seq![("system"@, assistant_system_spec()), ("user"@, user)],
    }
}

pub fn chat_messages(user: &str, context: Option<&str>) -> (r: Vec<ChatMessage>)
    ensures
        messages_view(r@) == chat_messages_spec(user@, match context {
            Some(c) => Some(c@),
            None => None,
        }),
{
    let mut r: Vec<ChatMessage> = Vec::new();
    r.push(
        ChatMessage {
            role: "system".to_string(),
            content: "你是一个专利分析助手。你擅长分析专利文献、解读权利要求、评估专利价值、进行技术趋势分析。请用中文回答，专业术语可以保留英文。".to_string(),
        },
    );
    match context {
        Some(c) => {
            let mut content = "以下是相关专利信息供参考：\n".to_string();
            push_str(&mut content, c);
            r.push(ChatMessage { role: "system".to_string(), content });
        },
        None => {},
    }
    r.push(ChatMessage { role: "user".to_string(), content: user.to_string() });
    assert(messages_view(r@) =~= chat_messages_spec(user@, match context {
        Some(c) => Some(c@),
        None => None,
    }));
    r
}

/// A request made of a system message and a user message.
pub fn system_and_user(system: String, user: String) -> (r: Vec<ChatMessage>)
    ensures
        messages_view(r@) == seq![("system"@, system@), ("user"@, user@)],
{
    let mut r: Vec<ChatMessage> = Vec::new();
    r.push(ChatMessage { role: "system".to_string(), content: system });
    r.push(ChatMessage { role: "user".to_string(), content: user });
    assert(messages_view(r@) =~= seq![("system"@, system@), ("user"@, user@)]);
    r
}

/// The text asking a vision model to describe an image.
pub fn image_prompt() -> (r: &'static str)
    ensures
        r@ == "请详细描述这张图片中的技术内容。如果包含文字，请提取所有文字。如果是技术图纸、流程图、结构图或专利附图，请详细描述其技术方案和结构特征。"@,
{
    "请详细描述这张图片中的技术内容。如果包含文字，请提取所有文字。如果是技术图纸、流程图、结构图或专利附图，请详细描述其技术方案和结构特征。"
}

// ───────────────────────── streamed replies ─────────────────────────

/// The complete lines of a stream buffer, each trimmed, and what follows
/// the last line break.
pub open spec fn buffer_split_spec(buf: Seq<char>) -> (Seq<Seq<char>>, Seq<char>) {
    let raw = raw_lines(buf);
    (raw.drop_last().map_values(|l: Seq<char>| trim(l)), raw.last())
}

/// Splits the complete lines off a stream buffer (see `buffer_split_spec`).
pub fn split_stream_buffer(buf: &str) -> (r: (Vec<String>, String))
    ensures
        r.0.deep_view() == buffer_split_spec(buf@).0,
        r.1@ == buffer_split_spec(buf@).1,
{
    let v = chars_of(buf);
    let mut out: Vec<String> = Vec::new();
    let mut start: usize = 0;
    let mut i: usize = 0;
    assert(buf@.take(0) =~= Seq::<char>::empty());
    while i < v.len()
        invariant
            v@ == buf@,
            start <= i <= v@.len(),
            raw_lines(buf@.take(i as int)).len() >= 1,
            raw_lines(buf@.take(i as int)).last() == buf@.subrange(start as int, i as int),
            out.deep_view() == raw_lines(buf@.take(i as int)).drop_last().map_values(|l: Seq<char>| trim(l)),
        decreases v@.len() - i,
    {
        assert(buf@.take(i + 1).drop_last() =~= buf@.take(i as int));
        assert(buf@.take(i + 1).last() == v@[i as int]);
        let ghost prev = raw_lines(buf@.take(i as int));
        if v[i] == '\n' {
            let seg = slice_range(v.as_slice(), start, i);
            let t = trim_chars(seg.as_slice());
            let ghost before = out.deep_view();
            out.push(string_of(t.as_slice()));
            assert(raw_lines(buf@.take(i + 1)) == prev.push(Seq::<char>::empty()));
            assert(raw_lines(buf@.take(i + 1)).drop_last() =~= prev);
            assert(prev =~= prev.drop_last().push(prev.last()));
            assert(out.deep_view() =~= before.push(trim(prev.last())));
            assert(out.deep_view() =~= raw_lines(buf@.take(i + 1)).drop_last().map_values(|l: Seq<char>| trim(l)));
            start = i + 1;
            assert(buf@.subrange(start as int, (i + 1) as int) =~= Seq::<char>::empty());
        } else {
            let ghost nl = prev.update(prev.len() - 1, prev.last().push(v@[i as int]));
            assert(raw_lines(buf@.take(i + 1)) == nl);
            assert(nl.drop_last() =~= prev.drop_last());
            assert(buf@.subrange(start as int, (i + 1) as int) =~= buf@.subrange(start as int, i as int).push(
                v@[i as int],
            ));
        }
        i += 1;
    }
    assert(buf@.take(v@.len() as int) =~= buf@);
    let rest = slice_range(v.as_slice(), start, v.len());
    (out, string_of(rest.as_slice()))
}

/// What one line of a streamed reply carries.
#[derive(Debug, Clone)]
pub enum StreamLine {
    /// `data: [DONE]`: the reply is complete.
    Done,
    /// A `data: ` line; its payload, to be read as JSON.
    Data(String),
    /// Anything else.
    Other,
}

pub open spec fn stream_line_spec(line: Seq<char>) -> Option<Option<Seq<char>>> {
    if line == "data: [DONE]"@ {
        None
    } else if starts_with(line, "data: "@) {
        Some(Some(line.skip(6)))
    } else {
        Some(None)
    }
}

/// Classifies one trimmed line of a streamed reply.
pub fn stream_line(line: &str) -> (r: StreamLine)
    ensures
        match r {
            StreamLine::Done => stream_line_spec(line@) is None,
            StreamLine::Data(p) => stream_line_spec(line@) == Some(Some(p@)),
            StreamLine::Other => stream_line_spec(line@) == Some(None::<Seq<char>>),
        },
{
    let v = chars_of(line);
    if crate::routes::query::eq_lit(&v, "data: [DONE]") {
        StreamLine::Done
    } else if starts_with_str(v.as_slice(), "data: ") {
        proof {
            reveal_strlit("data: ");
        }
        let p = slice_range(v.as_slice(), 6, v.len());
        StreamLine::Data(string_of(p.as_slice()))
    } else {
        StreamLine::Other
    }
}

/// The text of one streamed chunk: `choices[0].delta.content` when it is a
/// non-empty string.
pub open spec fn stream_delta_spec(j: Json) -> Option<Seq<char>> {
    match str_of(get(get(first_of(get(Some(j), "choices"@)), "delta"@), "content"@)) {
        Some(c) => if c.len() > 0 {
            Some(c)
        } else {
            None
        },
        None => None,
    }
}

pub fn stream_delta(j: &Json) -> (r: Option<String>)
    ensures
        match r {
            Some(c) => stream_delta_spec(*j) == Some(c@),
            None => stream_delta_spec(*j) is None,
        },
{
    let c = string_value(get_member(get_member(item_at(get_member(Some(j), "choices"), 0), "delta"), "content"));
    match c {
        Some(s) => if s.as_str().is_empty() {
            None
        } else {
            Some(s)
        },
        None => None,
    }
}

// ───────────────────────── patent analysis prompts ─────────────────────────

pub open spec fn summarize_prompt_spec(title: Seq<char>, abstract_text: Seq<char>, claims: Seq<char>) -> Seq<char> {
    "请对以下专利进行全面分析摘要：\n\n标题："@
        + title
        + "\n\n摘要："@
        + abstract_text
        + "\n\n权利要求（前部分）："@
        + head_bytes(claims, 2000)
        + "\n\n请从以下几个方面分析：\n1. 技术领域\n2. 核心技术方案\n3. 创新点\n4. 应用场景\n5. 关键权利要求解读"@
}

/// The prompt asking for a summary of a patent; the claims enter with at
/// most their first 2000 bytes.
pub fn summarize_prompt(title: &str, abstract_text: &str, claims: &str) -> (r: String)
    ensures
        r@ == summarize_prompt_spec(title@, abstract_text@, claims@),
{
    let mut r = String::new();
    push_str(&mut r, "请对以下专利进行全面分析摘要：\n\n标题：");
    push_str(&mut r, title);
    push_str(&mut r, "\n\n摘要：");
    push_str(&mut r, abstract_text);
    push_str(&mut r, "\n\n权利要求（前部分）：");
    let c1 = clip_bytes(claims, 2000);
    push_str(&mut r, c1.as_str());
    push_str(&mut r, "\n\n请从以下几个方面分析：\n1. 技术领域\n2. 核心技术方案\n3. 创新点\n4. 应用场景\n5. 关键权利要求解读");
    assert(r@ =~= summarize_prompt_spec(title@, abstract_text@, claims@));
    r
}

pub open spec fn claims_analysis_prompt_spec(title: Seq<char>, claims: Seq<char>) -> Seq<char> {
    "请对以下专利的权利要求进行深度分析：\n\n专利标题："@
        + title
        + "\n\n权利要求全文：\n"@
        + head_bytes(claims, 4000)
        + "\n\n请按以下格式分析（使用 Markdown 表格）：\n\n### 1. 权利要求结构总览\n列出每条权利要求的编号、类型（独立/从属）、所从属的权利要求号\n\n### 2. 独立权利要求分析\n对每条独立权利要求：\n- 保护范围要素（技术特征列表）\n- 保护范围宽度评估（宽/中/窄）\n- 可能的规避设计方向\n\n### 3. 从属权利要求层级\n用缩进或树形结构展示权利要求之间的从属关系\n\n### 4. 关键技术特征\n提取最核心的限定性技术特征（决定保护范围的关键要素）\n\n### 5. 保护强度评估\n综合评估该专利权利要求的保护强度（强/中/弱），并说明原因"@
}

/// The prompt asking for an analysis of the claims (at most their first
/// 4000 bytes).
pub fn claims_analysis_prompt(title: &str, claims: &str) -> (r: String)
    ensures
        r@ == claims_analysis_prompt_spec(title@, claims@),
{
    let mut r = String::new();
    push_str(&mut r, "请对以下专利的权利要求进行深度分析：\n\n专利标题：");
    push_str(&mut r, title);
    push_str(&mut r, "\n\n权利要求全文：\n");
    let c1 = clip_bytes(claims, 4000);
    push_str(&mut r, c1.as_str());
    push_str(&mut r, "\n\n请按以下格式分析（使用 Markdown 表格）：\n\n### 1. 权利要求结构总览\n列出每条权利要求的编号、类型（独立/从属）、所从属的权利要求号\n\n### 2. 独立权利要求分析\n对每条独立权利要求：\n- 保护范围要素（技术特征列表）\n- 保护范围宽度评估（宽/中/窄）\n- 可能的规避设计方向\n\n### 3. 从属权利要求层级\n用缩进或树形结构展示权利要求之间的从属关系\n\n### 4. 关键技术特征\n提取最核心的限定性技术特征（决定保护范围的关键要素）\n\n### 5. 保护强度评估\n综合评估该专利权利要求的保护强度（强/中/弱），并说明原因");
    assert(r@ =~= claims_analysis_prompt_spec(title@, claims@));
    r
}

pub open spec fn infringement_prompt_spec(product: Seq<char>, patents: Seq<char>) -> Seq<char> {
    "## 待评估的产品/技术方案\n"@
        + head_bytes(product, 2000)
        + "\n\n## 对比专利列表\n"@
        + head_bytes(patents, 4000)
        + "\n\n请对每个专利逐一进行侵权风险评估，按以下格式输出（使用 Markdown 表格）：\n\n### 侵权风险评估矩阵\n| 专利号 | 风险等级 | 关键风险点 | 规避建议 |\n|--------|----------|------------|----------|\n\n风险等级说明：\n- **高风险**: 产品技术方案与专利权利要求高度重合\n- **中风险**: 部分技术特征重合，需进一步分析\n- **低风险**: 技术方案存在明显差异\n- **无风险**: 不在专利保护范围内\n\n### 详细分析\n对每个高/中风险专利，详细说明：\n1. 哪些技术特征与专利权利要求对应\n2. 字面侵权还是等同侵权的可能性\n3. 具体的规避设计建议\n\n### 综合建议\n整体风险评估和应对策略建议"@
}

/// The prompt asking for an infringement risk assessment of a product
/// (at most 2000 bytes) against patents (at most 4000 bytes).
pub fn infringement_prompt(product: &str, patents: &str) -> (r: String)
    ensures
        r@ == infringement_prompt_spec(product@, patents@),
{
    let mut r = String::new();
    push_str(&mut r, "## 待评估的产品/技术方案\n");
    let c1 = clip_bytes(product, 2000);
    push_str(&mut r, c1.as_str());
    push_str(&mut r, "\n\n## 对比专利列表\n");
    let c2 = clip_bytes(patents, 4000);
    push_str(&mut r, c2.as_str());
    push_str(&mut r, "\n\n请对每个专利逐一进行侵权风险评估，按以下格式输出（使用 Markdown 表格）：\n\n### 侵权风险评估矩阵\n| 专利号 | 风险等级 | 关键风险点 | 规避建议 |\n|--------|----------|------------|----------|\n\n风险等级说明：\n- **高风险**: 产品技术方案与专利权利要求高度重合\n- **中风险**: 部分技术特征重合，需进一步分析\n- **低风险**: 技术方案存在明显差异\n- **无风险**: 不在专利保护范围内\n\n### 详细分析\n对每个高/中风险专利，详细说明：\n1. 哪些技术特征与专利权利要求对应\n2. 字面侵权还是等同侵权的可能性\n3. 具体的规避设计建议\n\n### 综合建议\n整体风险评估和应对策略建议");
    assert(r@ =~= infringement_prompt_spec(product@, patents@));
    r
}

pub open spec fn compare_prompt_spec(patents: Seq<char>) -> Seq<char> {
    "请对以下多个专利进行多维度对比分析：\n\n"@
        + head_bytes(patents, 6000)
        + "\n\n请按以下格式输出（使用 Markdown 表格）：\n\n### 1. 基本信息对比\n| 维度 | 专利1 | 专利2 | ... |\n|------|-------|-------|-----|\n| 技术领域 | | | |\n| 核心问题 | | | |\n| 申请人 | | | |\n\n### 2. 技术方案对比\n| 维度 | 专利1 | 专利2 | ... |\n|------|-------|-------|-----|\n| 核心方案 | | | |\n| 创新点 | | | |\n| 技术路线 | | | |\n\n### 3. 优缺点分析\n| 专利 | 优点 | 缺点 | 应用场景 |\n\n### 4. 综合评价\n- 技术演进趋势\n- 最具创新性的方案\n- 互补性分析"@
}

/// The prompt asking for a comparison of several patents (at most 6000
/// bytes of their description).
pub fn compare_prompt(patents: &str) -> (r: String)
    ensures
        r@ == compare_prompt_spec(patents@),
{
    let mut r = String::new();
    push_str(&mut r, "请对以下多个专利进行多维度对比分析：\n\n");
    let c1 = clip_bytes(patents, 6000);
    push_str(&mut r, c1.as_str());
    push_str(&mut r, "\n\n请按以下格式输出（使用 Markdown 表格）：\n\n### 1. 基本信息对比\n| 维度 | 专利1 | 专利2 | ... |\n|------|-------|-------|-----|\n| 技术领域 | | | |\n| 核心问题 | | | |\n| 申请人 | | | |\n\n### 2. 技术方案对比\n| 维度 | 专利1 | 专利2 | ... |\n|------|-------|-------|-----|\n| 核心方案 | | | |\n| 创新点 | | | |\n| 技术路线 | | | |\n\n### 3. 优缺点分析\n| 专利 | 优点 | 缺点 | 应用场景 |\n\n### 4. 综合评价\n- 技术演进趋势\n- 最具创新性的方案\n- 互补性分析");
    assert(r@ =~= compare_prompt_spec(patents@));
    r
}

pub open spec fn inventiveness_prompt_spec(my_patent: Seq<char>, references: Seq<char>) -> Seq<char> {
    "## 我的专利\n"@
        + head_bytes(my_patent, 5000)
        + "\n\n## 对比文件\n"@
        + head_bytes(references, 5000)
        + "\n\n请按照中国专利审查指南的「三步法」，对我的专利的每条独立权利要求逐一进行创造性分析：\n\n### 分析要求\n对每条独立权利要求，依次完成：\n1. **确定最接近的现有技术**：从对比文件中选出最接近的一篇，说明理由\n2. **确定区别技术特征**：列出我的权利要求与最接近现有技术之间的全部区别技术特征\n3. **判断是否显而易见**：\n- 该区别技术特征解决了什么技术问题（重新确定的技术问题）\n- 对比文件中是否给出了将该区别特征应用于最接近现有技术的技术启示\n- 综合判断：显而易见 / 非显而易见\n4. **技术效果分析**：区别技术特征带来的技术效果（预料不到的效果加分）\n5. **答辩建议**：\n- 如果创造性成立：给出答辩要点\n- 如果创造性不足：给出修改建议（如合并从属权利要求）\n\n### 输出格式\n请使用 Markdown，对每条独立权利要求单独成节，使用表格汇总区别特征。\n最后给出「综合答辩策略建议」。"@
}

/// The prompt asking for the three-step inventiveness analysis of a patent
/// (at most 5000 bytes) against references (at most 5000 bytes).
pub fn inventiveness_prompt(my_patent: &str, references: &str) -> (r: String)
    ensures
        r@ == inventiveness_prompt_spec(my_patent@, references@),
{
    let mut r = String::new();
    push_str(&mut r, "## 我的专利\n");
    let c1 = clip_bytes(my_patent, 5000);
    push_str(&mut r, c1.as_str());
    push_str(&mut r, "\n\n## 对比文件\n");
    let c2 = clip_bytes(references, 5000);
    push_str(&mut r, c2.as_str());
    push_str(&mut r, "\n\n请按照中国专利审查指南的「三步法」，对我的专利的每条独立权利要求逐一进行创造性分析：\n\n### 分析要求\n对每条独立权利要求，依次完成：\n1. **确定最接近的现有技术**：从对比文件中选出最接近的一篇，说明理由\n2. **确定区别技术特征**：列出我的权利要求与最接近现有技术之间的全部区别技术特征\n3. **判断是否显而易见**：\n- 该区别技术特征解决了什么技术问题（重新确定的技术问题）\n- 对比文件中是否给出了将该区别特征应用于最接近现有技术的技术启示\n- 综合判断：显而易见 / 非显而易见\n4. **技术效果分析**：区别技术特征带来的技术效果（预料不到的效果加分）\n5. **答辩建议**：\n- 如果创造性成立：给出答辩要点\n- 如果创造性不足：给出修改建议（如合并从属权利要求）\n\n### 输出格式\n请使用 Markdown，对每条独立权利要求单独成节，使用表格汇总区别特征。\n最后给出「综合答辩策略建议」。");
    assert(r@ =~= inventiveness_prompt_spec(my_patent@, references@));
    r
}

pub open spec fn office_action_prompt_spec(my_patent: Seq<char>, office_action: Seq<char>, references: Seq<char>) -> Seq<char> {
    "## 我的专利（权利要求书+说明书）\n"@
        + head_bytes(my_patent, 15000)
        + "\n\n## 审查意见通知书\n"@
        + head_bytes(office_action, 10000)
        + "\n\n## 对比文献\n"@
        + head_bytes(references, 15000)
        + "\n\n请基于以上材料，生成完整的一审答复方案：\n\n## 第一部分：审查意见解析\n- 逐条列出审查员对每项权利要求的驳回理由\n- 识别审查员引用的对比文献和具体段落\n\n## 第二部分：逐项权利要求对比分析\n对每项权利要求：\n- 技术特征分解（逐个技术特征列出）\n- vs 各对比文献公开的内容\n- 真正的区别特征（审查员可能遗漏的）\n\n## 第三部分：反驳要点\n1. 最接近现有技术选择是否合理？\n2. 审查员的区别特征认定是否完整？有无遗漏？\n3. 技术启示论证是否成立？（特别关注不同技术领域的组合动机）\n4. 各特征组合后的协同技术效果是否被忽视？\n5. 对比文献之间是否存在技术矛盾（不宜组合）？\n\n## 第四部分：答复策略建议\n1. 修改权利要求的具体方案（增加哪些限定特征）\n2. 意见陈述的核心论点\n3. 建议的修改后权利要求书\n\n## 第五部分：意见陈述书草稿\n生成可直接提交的意见陈述书，包括：\n- 对审查意见的回应\n- 修改说明\n- 创造性论述"@
}

/// The prompt asking for a response to an office action: the patent (at
/// most 15000 bytes), the office action (10000) and the references (15000).
pub fn office_action_prompt(my_patent: &str, office_action: &str, references: &str) -> (r: String)
    ensures
        r@ == office_action_prompt_spec(my_patent@, office_action@, references@),
{
    let mut r = String::new();
    push_str(&mut r, "## 我的专利（权利要求书+说明书）\n");
    let c1 = clip_bytes(my_patent, 15000);
    push_str(&mut r, c1.as_str());
    push_str(&mut r, "\n\n## 审查意见通知书\n");
    let c2 = clip_bytes(office_action, 10000);
    push_str(&mut r, c2.as_str());
    push_str(&mut r, "\n\n## 对比文献\n");
    let c3 = clip_bytes(references, 15000);
    push_str(&mut r, c3.as_str());
    push_str(&mut r, "\n\n请基于以上材料，生成完整的一审答复方案：\n\n## 第一部分：审查意见解析\n- 逐条列出审查员对每项权利要求的驳回理由\n- 识别审查员引用的对比文献和具体段落\n\n## 第二部分：逐项权利要求对比分析\n对每项权利要求：\n- 技术特征分解（逐个技术特征列出）\n- vs 各对比文献公开的内容\n- 真正的区别特征（审查员可能遗漏的）\n\n## 第三部分：反驳要点\n1. 最接近现有技术选择是否合理？\n2. 审查员的区别特征认定是否完整？有无遗漏？\n3. 技术启示论证是否成立？（特别关注不同技术领域的组合动机）\n4. 各特征组合后的协同技术效果是否被忽视？\n5. 对比文献之间是否存在技术矛盾（不宜组合）？\n\n## 第四部分：答复策略建议\n1. 修改权利要求的具体方案（增加哪些限定特征）\n2. 意见陈述的核心论点\n3. 建议的修改后权利要求书\n\n## 第五部分：意见陈述书草稿\n生成可直接提交的意见陈述书，包括：\n- 对审查意见的回应\n- 修改说明\n- 创造性论述");
    assert(r@ =~= office_action_prompt_spec(my_patent@, office_action@, references@));
    r
}

pub open spec fn brief_summary_prompt_spec(title: Seq<char>, abstract_text: Seq<char>) -> Seq<char> {
    "请用2-3句话简要总结这个专利的核心技术方案：\n标题："@
        + title
        + "\n摘要："@
        + head_bytes(abstract_text, 500)
}

/// The prompt asking for a two-to-three sentence summary of one patent of
/// a batch; the abstract enters with at most 500 bytes.
pub fn brief_summary_prompt(title: &str, abstract_text: &str) -> (r: String)
    ensures
        r@ == brief_summary_prompt_spec(title@, abstract_text@),
{
    let mut r = String::new();
    push_str(&mut r, "请用2-3句话简要总结这个专利的核心技术方案：\n标题：");
    push_str(&mut r, title);
    push_str(&mut r, "\n摘要：");
    let c1 = clip_bytes(abstract_text, 500);
    push_str(&mut r, c1.as_str());
    assert(r@ =~= brief_summary_prompt_spec(title@, abstract_text@));
    r
}

pub open spec fn idea_analysis_prompt_spec(title: Seq<char>, description: Seq<char>, web_findings: Seq<char>, patent_findings: Seq<char>) -> Seq<char> {
    "## 用户的想法\n**标题：** "@
        + title
        + "\n**描述：** "@
        + description
        + "\n\n## 网络上的相关发现\n"@
        + web_findings
        + "\n\n## 相关专利\n"@
        + patent_findings
        + "\n\n请从以下几个方面进行深入分析，用 Markdown 格式返回：\n\n### 1. 新颖性评估\n- 与已有方案的相似度（给出 0-100 的新颖性评分，100=完全原创）\n- 哪些部分是已有的，哪些是创新的\n\n### 2. 已有方案分析\n- 列出最相关的已有方案/产品/专利\n- 分析它们的优缺点\n\n### 3. 差异化方向\n- 与已有方案的关键差异\n- 可以进一步拉开差距的方向\n\n### 4. 优化建议\n- 技术实现路径建议\n- 可以增强竞争力的功能点\n- 潜在的商业化方向\n\n### 5. 风险提示\n- 可能的技术壁垒\n- 潜在的知识产权风险\n- 市场竞争风险\n\n最后请在分析最开头用一行给出新颖性评分，格式严格为：\n**新颖性评分：XX/100**"@
}

/// The prompt asking for an analysis of an idea against what the web and
/// the patent search found.
pub fn idea_analysis_prompt(title: &str, description: &str, web_findings: &str, patent_findings: &str) -> (r: String)
    ensures
        r@ == idea_analysis_prompt_spec(title@, description@, web_findings@, patent_findings@),
{
    let mut r = String::new();
    push_str(&mut r, "## 用户的想法\n**标题：** ");
    push_str(&mut r, title);
    push_str(&mut r, "\n**描述：** ");
    push_str(&mut r, description);
    push_str(&mut r, "\n\n## 网络上的相关发现\n");
    push_str(&mut r, web_findings);
    push_str(&mut r, "\n\n## 相关专利\n");
    push_str(&mut r, patent_findings);
    push_str(&mut r, "\n\n请从以下几个方面进行深入分析，用 Markdown 格式返回：\n\n### 1. 新颖性评估\n- 与已有方案的相似度（给出 0-100 的新颖性评分，100=完全原创）\n- 哪些部分是已有的，哪些是创新的\n\n### 2. 已有方案分析\n- 列出最相关的已有方案/产品/专利\n- 分析它们的优缺点\n\n### 3. 差异化方向\n- 与已有方案的关键差异\n- 可以进一步拉开差距的方向\n\n### 4. 优化建议\n- 技术实现路径建议\n- 可以增强竞争力的功能点\n- 潜在的商业化方向\n\n### 5. 风险提示\n- 可能的技术壁垒\n- 潜在的知识产权风险\n- 市场竞争风险\n\n最后请在分析最开头用一行给出新颖性评分，格式严格为：\n**新颖性评分：XX/100**");
    assert(r@ =~= idea_analysis_prompt_spec(title@, description@, web_findings@, patent_findings@));
    r
}

pub open spec fn claims_analysis_system_spec() -> Seq<char> {
    "你是一位资深专利代理人和知识产权律师。你擅长解读专利权利要求书，分析保护范围，识别关键技术特征。请用专业、严谨的语言分析。"@
}

/// The system message of the claims analysis request.
pub fn claims_analysis_system() -> (r: String)
    ensures
        r@ == claims_analysis_system_spec(),
{
    "你是一位资深专利代理人和知识产权律师。你擅长解读专利权利要求书，分析保护范围，识别关键技术特征。请用专业、严谨的语言分析。".to_string()
}

pub open spec fn infringement_system_spec() -> Seq<char> {
    "你是一位资深知识产权律师和专利侵权分析专家。你擅长评估产品的专利侵权风险，对比技术方案与专利权利要求的对应关系。请客观、专业地分析，并提供可操作的建议。"@
}

/// The system message of the infringement request.
pub fn infringement_system() -> (r: String)
    ensures
        r@ == infringement_system_spec(),
{
    "你是一位资深知识产权律师和专利侵权分析专家。你擅长评估产品的专利侵权风险，对比技术方案与专利权利要求的对应关系。请客观、专业地分析，并提供可操作的建议。".to_string()
}

pub open spec fn compare_system_spec() -> Seq<char> {
    "你是一位专利技术分析专家，擅长对比分析多个专利的技术方案，识别技术演进趋势和创新差异。请用结构化的表格形式呈现分析结果。"@
}

/// The system message of the compare request.
pub fn compare_system() -> (r: String)
    ensures
        r@ == compare_system_spec(),
{
    "你是一位专利技术分析专家，擅长对比分析多个专利的技术方案，识别技术演进趋势和创新差异。请用结构化的表格形式呈现分析结果。".to_string()
}

pub open spec fn inventiveness_system_spec() -> Seq<char> {
    "你是一位资深中国专利代理师（执业15年+），精通中国专利法及审查指南中的创造性判断标准（三步法）。你擅长答复审查意见通知书，尤其是创造性驳回（A22.3）的答辩。请用严谨、专业的语言分析，结论要有理有据。"@
}

/// The system message of the inventiveness request.
pub fn inventiveness_system() -> (r: String)
    ensures
        r@ == inventiveness_system_spec(),
{
    "你是一位资深中国专利代理师（执业15年+），精通中国专利法及审查指南中的创造性判断标准（三步法）。你擅长答复审查意见通知书，尤其是创造性驳回（A22.3）的答辩。请用严谨、专业的语言分析，结论要有理有据。".to_string()
}

pub open spec fn office_action_system_spec() -> Seq<char> {
    "你是一位资深中国专利代理师（执业20年+），精通中国专利法及审查指南。你擅长应对审查意见通知书，尤其是创造性驳回（A22.3）的答辩。你的答复策略注重：\n1. 精确分解技术特征，找出审查员遗漏的区别点\n2. 质疑对比文献组合的合理性（技术启示、技术领域差异、反向教导）\n3. 强调组合后的协同技术效果\n4. 提供可操作的权利要求修改方案\n请用严谨、专业的语言，结论要有理有据，可直接用于提交。"@
}

/// The system message of the office action request.
pub fn office_action_system() -> (r: String)
    ensures
        r@ == office_action_system_spec(),
{
    "你是一位资深中国专利代理师（执业20年+），精通中国专利法及审查指南。你擅长应对审查意见通知书，尤其是创造性驳回（A22.3）的答辩。你的答复策略注重：\n1. 精确分解技术特征，找出审查员遗漏的区别点\n2. 质疑对比文献组合的合理性（技术启示、技术领域差异、反向教导）\n3. 强调组合后的协同技术效果\n4. 提供可操作的权利要求修改方案\n请用严谨、专业的语言，结论要有理有据，可直接用于提交。".to_string()
}

pub open spec fn idea_analysis_system_spec() -> Seq<char> {
    "你是一个专业的创新分析师和技术顾问。你会客观地评估用户想法的新颖性，对比已有方案，并提供建设性的改进建议。回答要全面、有深度、实用。"@
}

/// The system message of the idea analysis request.
pub fn idea_analysis_system() -> (r: String)
    ensures
        r@ == idea_analysis_system_spec(),
{
    "你是一个专业的创新分析师和技术顾问。你会客观地评估用户想法的新颖性，对比已有方案，并提供建设性的改进建议。回答要全面、有深度、实用。".to_string()
}

pub open spec fn patent_context_spec(number: Seq<char>, title: Seq<char>, abstract_text: Seq<char>, claims: Seq<char>) -> Seq<char> {
    "Patent: "@
        + number
        + "\nTitle: "@
        + title
        + "\nAbstract: "@
        + abstract_text
        + "\nClaims: "@
        + take_chars(claims, 3000)
}

/// The reference text of a patent for a chat: its number, title and
/// abstract, and the first 3000 characters of its claims.
pub fn patent_context(number: &str, title: &str, abstract_text: &str, claims: &str) -> (r: String)
    ensures
        r@ == patent_context_spec(number@, title@, abstract_text@, claims@),
{
    let mut r = String::new();
    push_str(&mut r, "Patent: ");
    push_str(&mut r, number);
    push_str(&mut r, "\nTitle: ");
    push_str(&mut r, title);
    push_str(&mut r, "\nAbstract: ");
    push_str(&mut r, abstract_text);
    push_str(&mut r, "\nClaims: ");
    let tk1 = take_n(chars_of(claims).as_slice(), 3000);
    let sk1 = string_of(tk1.as_slice());
    push_str(&mut r, sk1.as_str());
    assert(r@ =~= patent_context_spec(number@, title@, abstract_text@, claims@));
    r
}

pub open spec fn pair_compare_prompt_spec(n1: Seq<char>, t1: Seq<char>, a1: Seq<char>, abs1: Seq<char>, c1: Seq<char>, n2: Seq<char>, t2: Seq<char>, a2: Seq<char>, abs2: Seq<char>, c2: Seq<char>) -> Seq<char> {
    "请对比分析以下两个专利的异同：\n\n【专利1】\n专利号："@
        + n1
        + "\n标题："@
        + t1
        + "\n申请人："@
        + a1
        + "\n摘要："@
        + take_chars(abs1, 500)
        + "\n权利要求（前部分）："@
        + take_chars(c1, 1000)
        + "\n\n【专利2】\n专利号："@
        + n2
        + "\n标题："@
        + t2
        + "\n申请人："@
        + a2
        + "\n摘要："@
        + take_chars(abs2, 500)
        + "\n权利要求（前部分）："@
        + take_chars(c2, 1000)
        + "\n\n请从以下方面对比：\n1. 技术领域是否相同\n2. 解决的技术问题对比\n3. 技术方案的异同点\n4. 创新点对比\n5. 保护范围对比\n6. 是否存在侵权风险（初步判断）"@
}

/// The prompt comparing two stored patents: number, title and applicant of
/// each, the first 500 characters of its abstract and 1000 of its claims.
pub fn pair_compare_prompt(n1: &str, t1: &str, a1: &str, abs1: &str, c1: &str, n2: &str, t2: &str, a2: &str, abs2: &str, c2: &str) -> (r: String)
    ensures
        r@ == pair_compare_prompt_spec(n1@, t1@, a1@, abs1@, c1@, n2@, t2@, a2@, abs2@, c2@),
{
    let mut r = String::new();
    push_str(&mut r, "请对比分析以下两个专利的异同：\n\n【专利1】\n专利号：");
    push_str(&mut r, n1);
    push_str(&mut r, "\n标题：");
    push_str(&mut r, t1);
    push_str(&mut r, "\n申请人：");
    push_str(&mut r, a1);
    push_str(&mut r, "\n摘要：");
    let tk1 = take_n(chars_of(abs1).as_slice(), 500);
    let sk1 = string_of(tk1.as_slice());
    push_str(&mut r, sk1.as_str());
    push_str(&mut r, "\n权利要求（前部分）：");
    let tk2 = take_n(chars_of(c1).as_slice(), 1000);
    let sk2 = string_of(tk2.as_slice());
    push_str(&mut r, sk2.as_str());
    push_str(&mut r, "\n\n【专利2】\n专利号：");
    push_str(&mut r, n2);
    push_str(&mut r, "\n标题：");
    push_str(&mut r, t2);
    push_str(&mut r, "\n申请人：");
    push_str(&mut r, a2);
    push_str(&mut r, "\n摘要：");
    let tk3 = take_n(chars_of(abs2).as_slice(), 500);
    let sk3 = string_of(tk3.as_slice());
    push_str(&mut r, sk3.as_str());
    push_str(&mut r, "\n权利要求（前部分）：");
    let tk4 = take_n(chars_of(c2).as_slice(), 1000);
    let sk4 = string_of(tk4.as_slice());
    push_str(&mut r, sk4.as_str());
    push_str(&mut r, "\n\n请从以下方面对比：\n1. 技术领域是否相同\n2. 解决的技术问题对比\n3. 技术方案的异同点\n4. 创新点对比\n5. 保护范围对比\n6. 是否存在侵权风险（初步判断）");
    assert(r@ =~= pair_compare_prompt_spec(n1@, t1@, a1@, abs1@, c1@, n2@, t2@, a2@, abs2@, c2@));
    r
}

pub open spec fn default_assistant_spec() -> Seq<char> {
    "你是一个技术研发助手，擅长专利分析、技术方案评估和可行性验证。请用中文回答。"@
}

/// The system message of a chat with history: the patent context, or a
/// general assistant description, followed by the web search results when
/// there are any.
pub open spec fn history_system_spec(context: Option<Seq<char>>, web: Option<Seq<char>>) -> Seq<char> {
    let base = match context {
        Some(c) => c,
        None => default_assistant_spec(),
    };
    match web {
        Some(w) => base + "\n\n以下是联网搜索到的最新资料，请结合这些信息回答用户问题：\n"@ + w,
        None => base,
    }
}

pub open spec fn opt_str_view(o: Option<&str>) -> Option<Seq<char>> {
    match o {
        Some(s) => Some(s@),
        None => None,
    }
}

pub fn history_system(context: Option<&str>, web: Option<&str>) -> (r: String)
    ensures
        r@ == history_system_spec(opt_str_view(context), opt_str_view(web)),
{
    let mut r = match context {
        Some(c) => c.to_string(),
        None => "你是一个技术研发助手，擅长专利分析、技术方案评估和可行性验证。请用中文回答。".to_string(),
    };
    match web {
        Some(w) => {
            push_str(&mut r, "\n\n以下是联网搜索到的最新资料，请结合这些信息回答用户问题：\n");
            push_str(&mut r, w);
        },
        None => {},
    }
    r
}

/// The reference context of a single-turn chat: with web results, the
/// patent context (or nothing) and the results on the next line;
/// otherwise the patent context alone.
pub open spec fn single_context_spec(context: Option<Seq<char>>, web: Option<Seq<char>>) -> Option<Seq<char>> {
    match web {
        Some(w) => Some(
            match context {
                Some(c) => c,
                None => Seq::empty(),
            } + "\n"@ + w,
        ),
        None => context,
    }
}

pub fn single_context(context: Option<&str>, web: Option<&str>) -> (r: Option<String>)
    ensures
        match r {
            Some(s) => single_context_spec(opt_str_view(context), opt_str_view(web)) == Some(s@),
            None => single_context_spec(opt_str_view(context), opt_str_view(web)) is None,
        },
{
    match web {
        Some(w) => {
            let mut r = match context {
                Some(c) => c.to_string(),
                None => String::new(),
            };
            push_str(&mut r, "\n");
            push_str(&mut r, w);
            Some(r)
        },
        None => match context {
            Some(c) => Some(c.to_string()),
            None => None,
        },
    }
}

/// The answer when a patent of a comparison is not stored (`which` is 1 or
/// 2).
pub fn pair_missing(which: u64, id: &str) -> (r: String)
    ensures
        r@ == "专利"@ + decimal(which as nat) + "「"@ + id@ + "」未找到。请确认该专利已通过搜索页收录到本地库。"@,
{
    let mut r = "专利".to_string();
    let n = decimal_string(which);
    push_str(&mut r, n.as_str());
    push_str(&mut r, "「");
    push_str(&mut r, id);
    push_str(&mut r, "」未找到。请确认该专利已通过搜索页收录到本地库。");
    r
}


pub open spec fn risk_patent_block_spec(index: Seq<char>, title: Seq<char>, number: Seq<char>, applicant: Seq<char>, abstract_text: Seq<char>, claims: Seq<char>) -> Seq<char> {
    "### 专利 "@
        + index
        + " - "@
        + title
        + "\n专利号："@
        + number
        + "\n申请人："@
        + applicant
        + "\n摘要："@
        + abstract_text
        + "\n权利要求："@
        + take_chars(claims, 800)
        + "\n\n"@
}

/// One patent of an infringement assessment, numbered `index`; the claims
/// enter with their first 800 characters.
pub fn risk_patent_block(index: &str, title: &str, number: &str, applicant: &str, abstract_text: &str, claims: &str) -> (r: String)
    ensures
        r@ == risk_patent_block_spec(index@, title@, number@, applicant@, abstract_text@, claims@),
{
    let mut r = String::new();
    push_str(&mut r, "### 专利 ");
    push_str(&mut r, index);
    push_str(&mut r, " - ");
    push_str(&mut r, title);
    push_str(&mut r, "\n专利号：");
    push_str(&mut r, number);
    push_str(&mut r, "\n申请人：");
    push_str(&mut r, applicant);
    push_str(&mut r, "\n摘要：");
    push_str(&mut r, abstract_text);
    push_str(&mut r, "\n权利要求：");
    let tk1 = take_n(chars_of(claims).as_slice(), 800);
    let sk1 = string_of(tk1.as_slice());
    push_str(&mut r, sk1.as_str());
    push_str(&mut r, "\n\n");
    assert(r@ =~= risk_patent_block_spec(index@, title@, number@, applicant@, abstract_text@, claims@));
    r
}

pub open spec fn matrix_patent_block_spec(index: Seq<char>, number: Seq<char>, title: Seq<char>, applicant: Seq<char>, abstract_text: Seq<char>, claims: Seq<char>) -> Seq<char> {
    "### 专利 "@
        + index
        + "\n专利号："@
        + number
        + "\n标题："@
        + title
        + "\n申请人："@
        + applicant
        + "\n摘要："@
        + abstract_text
        + "\n权利要求："@
        + take_chars(claims, 600)
        + "\n\n"@
}

/// One patent of a comparison matrix, numbered `index`; the claims enter
/// with their first 600 characters.
pub fn matrix_patent_block(index: &str, number: &str, title: &str, applicant: &str, abstract_text: &str, claims: &str) -> (r: String)
    ensures
        r@ == matrix_patent_block_spec(index@, number@, title@, applicant@, abstract_text@, claims@),
{
    let mut r = String::new();
    push_str(&mut r, "### 专利 ");
    push_str(&mut r, index);
    push_str(&mut r, "\n专利号：");
    push_str(&mut r, number);
    push_str(&mut r, "\n标题：");
    push_str(&mut r, title);
    push_str(&mut r, "\n申请人：");
    push_str(&mut r, applicant);
    push_str(&mut r, "\n摘要：");
    push_str(&mut r, abstract_text);
    push_str(&mut r, "\n权利要求：");
    let tk1 = take_n(chars_of(claims).as_slice(), 600);
    let sk1 = string_of(tk1.as_slice());
    push_str(&mut r, sk1.as_str());
    push_str(&mut r, "\n\n");
    assert(r@ =~= matrix_patent_block_spec(index@, number@, title@, applicant@, abstract_text@, claims@));
    r
}

pub open spec fn results_entry_spec(index: Seq<char>, title: Seq<char>, applicant: Seq<char>, abstract_text: Seq<char>) -> Seq<char> {
    index
        + ". 标题："@
        + title
        + "\n   申请人："@
        + applicant
        + "\n   摘要："@
        + take_chars(abstract_text, 100)
        + "\n\n"@
}

/// One search result listed for the trend analysis, numbered `index`; the
/// abstract enters with its first 100 characters.
pub fn results_entry(index: &str, title: &str, applicant: &str, abstract_text: &str) -> (r: String)
    ensures
        r@ == results_entry_spec(index@, title@, applicant@, abstract_text@),
{
    let mut r = String::new();
    push_str(&mut r, index);
    push_str(&mut r, ". 标题：");
    push_str(&mut r, title);
    push_str(&mut r, "\n   申请人：");
    push_str(&mut r, applicant);
    push_str(&mut r, "\n   摘要：");
    let tk1 = take_n(chars_of(abstract_text).as_slice(), 100);
    let sk1 = string_of(tk1.as_slice());
    push_str(&mut r, sk1.as_str());
    push_str(&mut r, "\n\n");
    assert(r@ =~= results_entry_spec(index@, title@, applicant@, abstract_text@));
    r
}

pub open spec fn results_analysis_prompt_spec(query: Seq<char>, patent_list: Seq<char>) -> Seq<char> {
    "你是一个专利分析专家和研发创新顾问。用户正在研究「"@
        + query
        + "」方向。\n\n以下是搜索到的相关专利列表：\n"@
        + patent_list
        + "\n\n请完成以下分析（用JSON格式返回）：\n\n1. **语义相关性评分**：对每条专利给出0-100的语义相关性评分\n2. **技术趋势**：这些专利反映了什么技术发展趋势\n3. **技术空白**：哪些方向还没有被充分覆盖\n4. **创新建议**：针对用户的研究方向，给出2-3个具体的创新切入点\n\n请严格按以下JSON格式返回（不要包含其他文字）：\n{\n\"scores\": [{\"index\": 1, \"score\": 85, \"reason\": \"简短原因\"}, ...],\n\"trend\": \"技术趋势分析文字\",\n\"gaps\": \"技术空白分析文字\",\n\"suggestions\": [\"建议1\", \"建议2\", \"建议3\"]\n}"@
}

/// The prompt asking for an analysis of search results for a research
/// direction, answered as JSON.
pub fn results_analysis_prompt(query: &str, patent_list: &str) -> (r: String)
    ensures
        r@ == results_analysis_prompt_spec(query@, patent_list@),
{
    let mut r = String::new();
    push_str(&mut r, "你是一个专利分析专家和研发创新顾问。用户正在研究「");
    push_str(&mut r, query);
    push_str(&mut r, "」方向。\n\n以下是搜索到的相关专利列表：\n");
    push_str(&mut r, patent_list);
    push_str(&mut r, "\n\n请完成以下分析（用JSON格式返回）：\n\n1. **语义相关性评分**：对每条专利给出0-100的语义相关性评分\n2. **技术趋势**：这些专利反映了什么技术发展趋势\n3. **技术空白**：哪些方向还没有被充分覆盖\n4. **创新建议**：针对用户的研究方向，给出2-3个具体的创新切入点\n\n请严格按以下JSON格式返回（不要包含其他文字）：\n{\n\"scores\": [{\"index\": 1, \"score\": 85, \"reason\": \"简短原因\"}, ...],\n\"trend\": \"技术趋势分析文字\",\n\"gaps\": \"技术空白分析文字\",\n\"suggestions\": [\"建议1\", \"建议2\", \"建议3\"]\n}");
    assert(r@ =~= results_analysis_prompt_spec(query@, patent_list@));
    r
}

/// The JSON object in a model reply: from its first `{` to its last `}`
/// when both are present, else the trimmed reply.
pub open spec fn json_span_spec(reply: Seq<char>) -> Seq<char> {
    let t = trim(reply);
    match find(t, "{"@) {
        Some(a) => match last_index_of(t, '}') {
            Some(b) => if a <= b {
                t.subrange(a, b + 1)
            } else {
                Seq::empty()
            },
            None => t,
        },
        None => t,
    }
}

/// The last position of `c` in `s`.
pub open spec fn last_index_of(s: Seq<char>, c: char) -> Option<int>
    decreases s.len(),
{
    if s.len() == 0 {
        None
    } else if s.last() == c {
        Some(s.len() - 1)
    } else {
        last_index_of(s.drop_last(), c)
    }
}

pub fn json_span(reply: &str) -> (r: String)
    ensures
        r@ == json_span_spec(reply@),
{
    let t = trim_str(reply);
    proof {
        reveal_strlit("{");
        lemma_find_from_spec(t@, "{"@, 0);
    }
    let open = chars_of("{");
    match find_chars(t.as_slice(), open.as_slice()) {
        Some(a) => {
            let mut j: usize = t.len();
            assert(t@.take(j as int) =~= t@);
            while j > 0 && t[j - 1] != '}'
                invariant
                    j <= t@.len(),
                    last_index_of(t@, '}') == last_index_of(t@.take(j as int), '}'),
                decreases j,
            {
                assert(t@.take(j as int).drop_last() =~= t@.take(j - 1));
                j -= 1;
            }
            proof {
                if j == t@.len() {
                    assert(t@.take(j as int) =~= t@);
                }
            }
            if j == 0 {
                assert(t@.take(0) =~= Seq::<char>::empty());
                string_of(t.as_slice())
            } else {
                assert(t@.take(j as int).last() == '}');
                assert(last_index_of(t@, '}') == Some(j - 1));
                if a <= j - 1 {
                    let span = slice_range(t.as_slice(), a, j);
                    string_of(span.as_slice())
                } else {
                    String::new()
                }
            }
        },
        None => string_of(t.as_slice()),
    }
}


} // verus!
