//! Idea discussions and comparisons: message checks, the context given to
//! the model, when to compress a long discussion, and trigram similarity.
use crate::pipeline::steps::tokens::{dedup, distinct, inter_count, overlap, union_count, lemma_dedup_len};
use crate::text::{
    slice_range, chars_of, contains, contains_str, lines, lines_of, push_str, starts_with, starts_with_str,
    string_of, take_chars, take_n, trim, trim_chars, trim_str, join,
};
use crate::pipeline::steps::contradiction::join_strings;
use vstd::prelude::*;
use vstd::utf8::encode_utf8;
use vstd::string::StringSliceAdditionalSpecFns;

verus! {

// ───────────────────────── trigrams ─────────────────────────

/// The three-character windows of `s`, in order.
pub open spec fn windows3(s: Seq<char>) -> Seq<Seq<char>>
    decreases s.len(),
{
    if s.len() < 3 {
        Seq::empty()
    } else {
        windows3(s.drop_last()).push(s.subrange(s.len() - 3, s.len() as int))
    }
}

/// The distinct character trigrams of a text.
pub fn char_trigrams(text: &str) -> (r: Vec<String>)
    ensures
        r.deep_view() == dedup(windows3(text@)),
        r@.len() <= text@.len(),
{
    let v = chars_of(text);
    let mut all: Vec<String> = Vec::new();
    if v.len() < 3 {
        assert(all.deep_view() =~= Seq::<Seq<char>>::empty());
        assert(windows3(v@) =~= Seq::<Seq<char>>::empty());
        assert(dedup(Seq::<Seq<char>>::empty()) =~= Seq::<Seq<char>>::empty());
        return all;
    }
    let n = v.len();
    let last = n - 3;
    let mut k: usize = 0;
    assert(windows3(v@.take(2)) =~= Seq::<Seq<char>>::empty());
    while k <= last
        invariant
            last + 3 == n,
            n == v@.len(),
            k <= last + 1,
            v@ == text@,
            all.deep_view() == windows3(v@.take(k + 2)),
            all@.len() == k,
        decreases last + 1 - k,
    {
        let w = slice_range(v.as_slice(), k, k + 3);
        let ghost before = all.deep_view();
        all.push(string_of(w.as_slice()));
        proof {
            assert(v@.take(k + 3).drop_last() =~= v@.take(k + 2));
            assert(v@.take(k + 3).subrange(k as int, k + 3) =~= w@);
            assert(all.deep_view() =~= before.push(w@));
        }
        k += 1;
    }
    assert(v@.take(last + 3) =~= v@);
    proof {
        lemma_dedup_len(all.deep_view());
    }
    distinct(&all)
}

/// Trigram overlap of two texts: shared and total distinct trigrams (the
/// similarity is their ratio, 1 when both have none).
pub fn trigram_overlap(a: &str, b: &str) -> (r: (usize, usize))
    requires
        a@.len() + b@.len() <= usize::MAX,
    ensures
        r.0 == inter_count(dedup(windows3(a@)), dedup(windows3(b@))),
        r.1 == union_count(dedup(windows3(a@)), dedup(windows3(b@))),
{
    let ta = char_trigrams(a);
    let tb = char_trigrams(b);
    overlap(&ta, &tb)
}

/// Checks a comparison request: between two and ten ideas.
pub fn batch_compare_error(count: usize) -> (r: Option<&'static str>)
    ensures
        count < 2 ==> (r matches Some(e) && e@ == "至少需要 2 个创意进行对比"@),
        count > 10 ==> (r matches Some(e) && e@ == "最多支持 10 个创意同时对比"@),
        2 <= count <= 10 ==> r is None,
{
    if count < 2 {
        Some("至少需要 2 个创意进行对比")
    } else if count > 10 {
        Some("最多支持 10 个创意同时对比")
    } else {
        None
    }
}

// ───────────────────────── discussion ─────────────────────────

/// A discussion message: trimmed, not empty, at most 5000 bytes.
pub open spec fn chat_message_spec(raw: Seq<char>) -> Result<Seq<char>, Seq<char>> {
    let m = trim(raw);
    if m.len() == 0 {
        Err("消息不能为空"@)
    } else if encode_utf8(m).len() > 5000 {
        Err("消息过长（最多5000字符）"@)
    } else {
        Ok(m)
    }
}

pub fn check_chat_message(raw: &str) -> (r: Result<String, String>)
    ensures
        match chat_message_spec(raw@) {
            Ok(m) => r matches Ok(s) && s@ == m,
            Err(e) => r matches Err(s) && s@ == e,
        },
{
    let m = string_of(trim_str(raw).as_slice());
    if m.as_str().is_empty() {
        return Err(String::from_str("消息不能为空"));
    }
    if m.as_str().as_bytes().len() > 5000 {
        return Err(String::from_str("消息过长（最多5000字符）"));
    }
    Ok(m)
}

/// How a speaker is named in a discussion transcript.
pub open spec fn speaker(role: Seq<char>) -> Seq<char> {
    if role == "user"@ {
        "用户"@
    } else {
        "AI"@
    }
}

pub open spec fn messages_view(v: Seq<(String, String)>) -> Seq<(Seq<char>, Seq<char>)> {
    v.map_values(|m: (String, String)| (m.0@, m.1@))
}

/// `<speaker>：<content>` for each message, followed by a blank line.
pub open spec fn transcript(h: Seq<(Seq<char>, Seq<char>)>) -> Seq<char>
    decreases h.len(),
{
    if h.len() == 0 {
        Seq::empty()
    } else {
        transcript(h.drop_last()) + speaker(h.last().0) + "："@ + h.last().1 + "\n\n"@
    }
}

fn speaker_of(role: &String) -> (r: &'static str)
    ensures
        r@ == speaker(role@),
{
    let v = chars_of(role.as_str());
    if crate::routes::query::eq_lit(&v, "user") {
        "用户"
    } else {
        "AI"
    }
}

/// The discussion older than the last six messages is compressed once the
/// discussion has more than eight messages and no summary: the prompt for
/// it, or none.
pub open spec fn compression_prompt_spec(title: Seq<char>, h: Seq<(Seq<char>, Seq<char>)>, has_summary: bool) -> Option<
    Seq<char>,
> {
    if h.len() > 8 && !has_summary {
        Some(
            "请将以下关于「"@ + title + "」的研发讨论对话压缩为一段简洁的摘要，保留所有关键技术结论、决策和未解决的问题：\n\n"@
                + transcript(h.take(h.len() - 6)),
        )
    } else {
        None
    }
}

pub fn compression_prompt(title: &str, history: &Vec<(String, String)>, has_summary: bool) -> (r: Option<String>)
    ensures
        match compression_prompt_spec(title@, messages_view(history@), has_summary) {
            Some(p) => r matches Some(s) && s@ == p,
            None => r is None,
        },
{
    if history.len() <= 8 || has_summary {
        return None;
    }
    let old = history.len() - 6;
    let ghost hv = messages_view(history@);
    let mut text = String::new();
    let mut i: usize = 0;
    while i < old
        invariant
            hv == messages_view(history@),
            old <= history@.len(),
            i <= old,
            text@ == transcript(hv.take(i as int)),
        decreases old - i,
    {
        assert(hv.take(i + 1).drop_last() =~= hv.take(i as int));
        assert(hv.take(i + 1).last() == (history@[i as int].0@, history@[i as int].1@));
        push_str(&mut text, speaker_of(&history[i].0));
        push_str(&mut text, "：");
        push_str(&mut text, history[i].1.as_str());
        push_str(&mut text, "\n\n");
        i += 1;
    }
    let mut p = String::from_str("请将以下关于「");
    push_str(&mut p, title);
    push_str(&mut p, "」的研发讨论对话压缩为一段简洁的摘要，保留所有关键技术结论、决策和未解决的问题：\n\n");
    push_str(&mut p, text.as_str());
    Some(p)
}

/// A line of an analysis worth keeping in the model's context: not blank,
/// and a heading, a list item, or a line about scores, conclusions, risks,
/// suggestions, differences or innovation.
pub open spec fn key_line(l: Seq<char>) -> bool {
    let t = trim(l);
    t.len() > 0 && (starts_with(t, "#"@) || starts_with(t, "*"@) || starts_with(t, "-"@) || contains(
        t,
        "评分"@,
    ) || contains(t, "结论"@) || contains(t, "风险"@) || contains(t, "建议"@) || contains(t, "差异"@)
        || contains(t, "创新"@) || contains(t, "score"@) || contains(t, "novel"@) || contains(t, "risk"@))
}

pub open spec fn key_lines(ls: Seq<Seq<char>>) -> Seq<Seq<char>>
    decreases ls.len(),
{
    if ls.len() == 0 {
        Seq::empty()
    } else {
        let r = key_lines(ls.drop_last());
        if key_line(ls.last()) {
            r.push(ls.last())
        } else {
            r
        }
    }
}

/// The first thirty key lines of an analysis.
pub open spec fn analysis_digest(analysis: Seq<char>) -> Seq<Seq<char>> {
    let k = key_lines(lines(analysis));
    if k.len() > 30 {
        k.take(30)
    } else {
        k
    }
}

fn is_key_line(l: &[char]) -> (r: bool)
    ensures
        r == key_line(l@),
{
    let t = trim_chars(l);
    t.len() > 0 && (starts_with_str(t.as_slice(), "#") || starts_with_str(t.as_slice(), "*")
        || starts_with_str(t.as_slice(), "-") || contains_str(t.as_slice(), "评分") || contains_str(
        t.as_slice(),
        "结论",
    ) || contains_str(t.as_slice(), "风险") || contains_str(t.as_slice(), "建议") || contains_str(
        t.as_slice(),
        "差异",
    ) || contains_str(t.as_slice(), "创新") || contains_str(t.as_slice(), "score") || contains_str(
        t.as_slice(),
        "novel",
    ) || contains_str(t.as_slice(), "risk"))
}

pub fn key_analysis_lines(analysis: &str) -> (r: Vec<String>)
    ensures
        r.deep_view() == analysis_digest(analysis@),
{
    let ls = lines_of(chars_of(analysis).as_slice());
    let ghost lv = ls.deep_view();
    let mut r: Vec<String> = Vec::new();
    let mut i: usize = 0;
    while i < ls.len()
        invariant
            lv == ls.deep_view(),
            lv == lines(analysis@),
            i <= lv.len(),
            r.deep_view() == key_lines(lv.take(i as int)),
        decreases lv.len() - i,
    {
        assert(lv.take(i + 1).drop_last() =~= lv.take(i as int));
        assert(lv.take(i + 1).last() == ls[i as int]@);
        if is_key_line(ls[i].as_slice()) {
            let ghost before = r.deep_view();
            r.push(string_of(ls[i].as_slice()));
            assert(r.deep_view() =~= before.push(ls[i as int]@));
        }
        i += 1;
    }
    assert(lv.take(lv.len() as int) =~= lv);
    if r.len() > 30 {
        r.truncate(30);
    }
    r
}

pub open spec fn toolbox() -> Seq<char> {
    "\n## 你的思维工具箱（按场景灵活运用，不要每次都用全部）\n- **第一性原理**：遇到复杂方案时，回到物理/化学/数学基本原理验证可行性\n- **TRIZ 矛盾分析**：发现技术矛盾时（如强度 vs 重量），用 TRIZ 思路提出解决方向\n- **逆向工程思维**：从期望结果倒推，找出实现路径上的关键瓶颈\n- **类比迁移**：从其他行业/领域找到类似问题的已有解决方案\n- **边界探测**：主动测试方案的极端情况和失效条件\n\n## 你的行为准则\n1. **精准追问**：不问泛泛的问题，每个问题都指向具体的技术决策点\n2. **假设-验证链**：先明确假设，再给出验证路径，最后给结论\n3. **盲点发现**：主动指出用户可能忽略的技术风险或竞争威胁\n4. **证据优先**：引用物理定律、已知材料参数、行业标准等硬证据\n5. **风险分级**：区分「致命缺陷」「需要验证」「可接受风险」三个级别\n6. **每轮推进**：回答末尾提出 1-2 个精准的引导性问题，推动研发进入下一层\n7. **简洁有力**：不说废话，每句话都有信息量\n"@
}

/// The system context of an idea discussion: the idea, the key lines of its
/// analysis, its novelty score (already written), the discussion summary,
/// and the advisor's method.
pub open spec fn idea_context_spec(
    title: Seq<char>,
    description: Seq<char>,
    status: Seq<char>,
    analysis: Seq<char>,
    score: Option<Seq<char>>,
    summary: Seq<char>,
) -> Seq<char> {
    let d = analysis_digest(analysis);
    "你是一位资深研发创新顾问，拥有专利分析、技术路线规划和创新方法论（TRIZ、第一性原理）的深厚经验。\n你正在与研发人员深入讨论一个创新想法。\n\n## 创意信息\n**标题：** "@
        + title + "\n**描述：** "@ + description + "\n**状态：** "@ + status + "\n"@ + (if d.len() > 0 {
        "\n## 验证分析结果（关键结论）\n"@ + join(d, "\n"@) + "\n"@
    } else {
        Seq::empty()
    }) + (match score {
        Some(s) => "\n**新颖性评分：** "@ + s + "/100\n"@,
        None => Seq::empty(),
    }) + (if summary.len() > 0 {
        "\n## 之前的讨论记忆（已压缩）\n"@ + summary + "\n（以上是之前多轮讨论的精华总结，请基于此继续深入）\n"@
    } else {
        Seq::empty()
    }) + toolbox()
}

pub fn idea_context(
    title: &str,
    description: &str,
    status: &str,
    analysis: &str,
    score: Option<&str>,
    summary: &str,
) -> (r: String)
    ensures
        r@ == idea_context_spec(
            title@,
            description@,
            status@,
            analysis@,
            crate::routes::query::opt_view(score),
            summary@,
        ),
{
    let mut r = String::from_str(
        "你是一位资深研发创新顾问，拥有专利分析、技术路线规划和创新方法论（TRIZ、第一性原理）的深厚经验。\n你正在与研发人员深入讨论一个创新想法。\n\n## 创意信息\n**标题：** ",
    );
    push_str(&mut r, title);
    push_str(&mut r, "\n**描述：** ");
    push_str(&mut r, description);
    push_str(&mut r, "\n**状态：** ");
    push_str(&mut r, status);
    push_str(&mut r, "\n");
    let ghost head = r@;
    let d = key_analysis_lines(analysis);
    if d.len() > 0 {
        push_str(&mut r, "\n## 验证分析结果（关键结论）\n");
        let nl = chars_of("\n");
        let j = string_of(join_strings(&d, nl.as_slice()).as_slice());
        push_str(&mut r, j.as_str());
        push_str(&mut r, "\n");
    } else {
        assert(r@ =~= head + Seq::<char>::empty());
    }
    let ghost mid = r@;
    match score {
        Some(s) => {
            push_str(&mut r, "\n**新颖性评分：** ");
            push_str(&mut r, s);
            push_str(&mut r, "/100\n");
        },
        None => {
            assert(r@ =~= mid + Seq::<char>::empty());
        },
    }
    let ghost mid2 = r@;
    if !summary.is_empty() {
        push_str(&mut r, "\n## 之前的讨论记忆（已压缩）\n");
        push_str(&mut r, summary);
        push_str(&mut r, "\n（以上是之前多轮讨论的精华总结，请基于此继续深入）\n");
    } else {
        assert(r@ =~= mid2 + Seq::<char>::empty());
    }
    push_str(
        &mut r,
        "\n## 你的思维工具箱（按场景灵活运用，不要每次都用全部）\n- **第一性原理**：遇到复杂方案时，回到物理/化学/数学基本原理验证可行性\n- **TRIZ 矛盾分析**：发现技术矛盾时（如强度 vs 重量），用 TRIZ 思路提出解决方向\n- **逆向工程思维**：从期望结果倒推，找出实现路径上的关键瓶颈\n- **类比迁移**：从其他行业/领域找到类似问题的已有解决方案\n- **边界探测**：主动测试方案的极端情况和失效条件\n\n## 你的行为准则\n1. **精准追问**：不问泛泛的问题，每个问题都指向具体的技术决策点\n2. **假设-验证链**：先明确假设，再给出验证路径，最后给结论\n3. **盲点发现**：主动指出用户可能忽略的技术风险或竞争威胁\n4. **证据优先**：引用物理定律、已知材料参数、行业标准等硬证据\n5. **风险分级**：区分「致命缺陷」「需要验证」「可接受风险」三个级别\n6. **每轮推进**：回答末尾提出 1-2 个精准的引导性问题，推动研发进入下一层\n7. **简洁有力**：不说废话，每句话都有信息量\n",
    );
    r
}

/// The messages sent with a new one: the last six of the discussion, then
/// the new message from the user.
pub open spec fn chat_window_spec(h: Seq<(Seq<char>, Seq<char>)>, msg: Seq<char>) -> Seq<(Seq<char>, Seq<char>)> {
    (if h.len() > 6 {
        h.skip(h.len() - 6)
    } else {
        h
    }).push(("user"@, msg))
}

pub fn chat_window(history: &Vec<(String, String)>, msg: &str) -> (r: Vec<(String, String)>)
    ensures
        messages_view(r@) == chat_window_spec(messages_view(history@), msg@),
{
    let start = if history.len() > 6 {
        history.len() - 6
    } else {
        0
    };
    let ghost hv = messages_view(history@);
    let mut r: Vec<(String, String)> = Vec::new();
    let mut i: usize = start;
    while i < history.len()
        invariant
            hv == messages_view(history@),
            start <= i <= history@.len(),
            start == (if history@.len() > 6 { history@.len() - 6 } else { 0 }),
            messages_view(r@) == hv.subrange(start as int, i as int),
        decreases history@.len() - i,
    {
        let ghost before = messages_view(r@);
        r.push((history[i].0.clone(), history[i].1.clone()));
        assert(messages_view(r@) =~= before.push(hv[i as int]));
        assert(hv.subrange(start as int, i + 1) =~= hv.subrange(start as int, i as int).push(hv[i as int]));
        i += 1;
    }
    let ghost before = messages_view(r@);
    r.push((String::from_str("user"), String::from_str(msg)));
    proof {
        assert(messages_view(r@) =~= before.push(("user"@, msg@)));
        if hv.len() > 6 {
            assert(hv.subrange(start as int, hv.len() as int) =~= hv.skip(hv.len() - 6));
        } else {
            assert(hv.subrange(0, hv.len() as int) =~= hv);
        }
    }
    r
}

/// The prompt that summarizes a whole discussion: title, description and
/// each message (its first 500 characters) under `【<speaker>】`, the first
/// 4000 characters of that, then what the summary must cover.
pub open spec fn discussion_text(h: Seq<(Seq<char>, Seq<char>)>) -> Seq<char>
    decreases h.len(),
{
    if h.len() == 0 {
        Seq::empty()
    } else {
        discussion_text(h.drop_last()) + "\n【"@ + speaker(h.last().0) + "】"@ + take_chars(h.last().1, 500)
            + "\n"@
    }
}

pub open spec fn summary_prompt_spec(title: Seq<char>, description: Seq<char>, h: Seq<(Seq<char>, Seq<char>)>) -> Option<
    Seq<char>,
> {
    if h.len() == 0 {
        None
    } else {
        let conv = "创意标题："@ + title + "\n创意描述："@ + description + "\n\n讨论记录：\n"@ + discussion_text(h);
        Some(
            take_chars(conv, 4000)
                + "\n\n请对以上讨论进行总结，包括：\n1. **核心讨论点**：讨论了哪些关键问题\n2. **达成的共识**：确定了哪些方向或方案\n3. **待解决问题**：还有哪些未决问题\n4. **行动建议**：下一步应该做什么\n\n总结要简洁，重点突出。"@,
        )
    }
}

pub fn summary_prompt(title: &str, description: &str, history: &Vec<(String, String)>) -> (r: Option<String>)
    ensures
        match summary_prompt_spec(title@, description@, messages_view(history@)) {
            Some(p) => r matches Some(s) && s@ == p,
            None => r is None,
        },
{
    if history.len() == 0 {
        return None;
    }
    let ghost hv = messages_view(history@);
    let mut conv = String::from_str("创意标题：");
    push_str(&mut conv, title);
    push_str(&mut conv, "\n创意描述：");
    push_str(&mut conv, description);
    push_str(&mut conv, "\n\n讨论记录：\n");
    let ghost head = conv@;
    let mut i: usize = 0;
    while i < history.len()
        invariant
            hv == messages_view(history@),
            i <= history@.len(),
            conv@ == head + discussion_text(hv.take(i as int)),
        decreases history@.len() - i,
    {
        assert(hv.take(i + 1).drop_last() =~= hv.take(i as int));
        assert(hv.take(i + 1).last() == (history@[i as int].0@, history@[i as int].1@));
        push_str(&mut conv, "\n【");
        push_str(&mut conv, speaker_of(&history[i].0));
        push_str(&mut conv, "】");
        let preview = take_n(chars_of(history[i].1.as_str()).as_slice(), 500);
        push_str(&mut conv, string_of(preview.as_slice()).as_str());
        push_str(&mut conv, "\n");
        assert(conv@ =~= head + discussion_text(hv.take(i + 1)));
        i += 1;
    }
    assert(hv.take(hv.len() as int) =~= hv);
    let cut = take_n(chars_of(conv.as_str()).as_slice(), 4000);
    let mut p = string_of(cut.as_slice());
    push_str(
        &mut p,
        "\n\n请对以上讨论进行总结，包括：\n1. **核心讨论点**：讨论了哪些关键问题\n2. **达成的共识**：确定了哪些方向或方案\n3. **待解决问题**：还有哪些未决问题\n4. **行动建议**：下一步应该做什么\n\n总结要简洁，重点突出。",
    );
    Some(p)
}


// ───────────────────────── submission ─────────────────────────

/// Why a submitted idea is refused.
#[derive(Debug, Clone, Copy, PartialEq, Eq, Structural)]
pub enum SubmitError {
    EmptyTitle,
    TitleTooLong,
    EmptyDescription,
    DescriptionTooLong,
}

impl SubmitError {
    /// The message shown for the refusal.
    pub fn message(&self) -> (m: &'static str)
        ensures
            m@ == match self {
                SubmitError::EmptyTitle => "标题不能为空"@,
                SubmitError::TitleTooLong => "标题不能超过200字"@,
                SubmitError::EmptyDescription => "描述不能为空"@,
                SubmitError::DescriptionTooLong => "描述不能超过10000字"@,
            },
    {
        match self {
            SubmitError::EmptyTitle => "标题不能为空",
            SubmitError::TitleTooLong => "标题不能超过200字",
            SubmitError::EmptyDescription => "描述不能为空",
            SubmitError::DescriptionTooLong => "描述不能超过10000字",
        }
    }
}

/// A submitted idea: title and description trimmed; the title must hold
/// 1 to 200 characters and the description 1 to 10000, checked in that
/// order.
pub open spec fn submission_spec(title: Seq<char>, description: Seq<char>) -> Result<(Seq<char>, Seq<char>), SubmitError> {
    let t = trim(title);
    let d = trim(description);
    if t.len() == 0 {
        Err(SubmitError::EmptyTitle)
    } else if t.len() > 200 {
        Err(SubmitError::TitleTooLong)
    } else if d.len() == 0 {
        Err(SubmitError::EmptyDescription)
    } else if d.len() > 10000 {
        Err(SubmitError::DescriptionTooLong)
    } else {
        Ok((t, d))
    }
}

pub fn check_submission(title: &str, description: &str) -> (r: Result<(String, String), SubmitError>)
    ensures
        match submission_spec(title@, description@) {
            Ok((t, d)) => r matches Ok((a, b)) && a@ == t && b@ == d,
            Err(e) => r == Err::<(String, String), SubmitError>(e),
        },
{
    let t = trim_str(title);
    let d = trim_str(description);
    if t.len() == 0 {
        return Err(SubmitError::EmptyTitle);
    }
    if t.len() > 200 {
        return Err(SubmitError::TitleTooLong);
    }
    if d.len() == 0 {
        return Err(SubmitError::EmptyDescription);
    }
    if d.len() > 10000 {
        return Err(SubmitError::DescriptionTooLong);
    }
    Ok((string_of(t.as_slice()), string_of(d.as_slice())))
}

/// The kind of input of an idea: `text` unless one is given.
pub fn input_type_or_text(input_type: &str) -> (r: String)
    ensures
        r@ == (if input_type@.len() == 0 { "text"@ } else { input_type@ }),
{
    if input_type.is_empty() {
        "text".to_string()
    } else {
        input_type.to_string()
    }
}

} // verus!
