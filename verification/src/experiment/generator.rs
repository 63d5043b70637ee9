//! The experiment specification built from a generated script.
use crate::experiment::types::ExperimentSpec;
use crate::text::{
    chars_of, ends_with, ends_with_str, push_str, slice_range, starts_with, starts_with_str,
    string_of, take_chars, take_n, trim, trim_chars, trim_str,
};
use vstd::prelude::*;

verus! {

/// `s` with every leading repetition of `p` removed (`trim_start_matches`).
pub open spec fn trim_start_matches(s: Seq<char>, p: Seq<char>) -> Seq<char>
    decreases s.len(),
{
    if p.len() > 0 && starts_with(s, p) {
        trim_start_matches(s.skip(p.len() as int), p)
    } else {
        s
    }
}

/// `s` with every trailing repetition of `p` removed (`trim_end_matches`).
pub open spec fn trim_end_matches(s: Seq<char>, p: Seq<char>) -> Seq<char>
    decreases s.len(),
{
    if p.len() > 0 && ends_with(s, p) {
        trim_end_matches(s.take(s.len() - p.len()), p)
    } else {
        s
    }
}

/// The script in a model reply: trimmed, with the Markdown fences
/// ```` ```python ````, ```` ```py ````, ```` ``` ```` removed at the start and
/// ```` ``` ```` at the end, trimmed again.
pub open spec fn clean_script_spec(reply: Seq<char>) -> Seq<char> {
    trim(
        trim_end_matches(
            trim_start_matches(
                trim_start_matches(trim_start_matches(trim(reply), "```python"@), "```py"@),
                "```"@,
            ),
            "```"@,
        ),
    )
}

pub(crate) fn strip_start(s: Vec<char>, p: &str) -> (r: Vec<char>)
    ensures
        r@ == trim_start_matches(s@, p@),
{
    let pv = chars_of(p);
    let mut cur = s;
    if pv.len() == 0 {
        return cur;
    }
    while starts_with_str(cur.as_slice(), p)
        invariant
            pv@ == p@,
            pv@.len() > 0,
            trim_start_matches(cur@, p@) == trim_start_matches(s@, p@),
        decreases cur@.len(),
    {
        let n = cur.len();
        let next = slice_range(cur.as_slice(), pv.len(), n);
        assert(next@ =~= cur@.skip(p@.len() as int));
        cur = next;
    }
    cur
}

pub(crate) fn strip_end(s: Vec<char>, p: &str) -> (r: Vec<char>)
    ensures
        r@ == trim_end_matches(s@, p@),
{
    let pv = chars_of(p);
    let mut cur = s;
    if pv.len() == 0 {
        return cur;
    }
    while ends_with_str(cur.as_slice(), p)
        invariant
            pv@ == p@,
            pv@.len() > 0,
            trim_end_matches(cur@, p@) == trim_end_matches(s@, p@),
        decreases cur@.len(),
    {
        let n = cur.len();
        let next = slice_range(cur.as_slice(), 0, n - pv.len());
        assert(next@ =~= cur@.take(cur@.len() - p@.len()));
        cur = next;
    }
    cur
}

/// Extracts the script from a model reply (see `clean_script_spec`).
pub fn clean_script(reply: &str) -> (r: String)
    ensures
        r@ == clean_script_spec(reply@),
{
    let t = trim_str(reply);
    let a = strip_start(t, "```python");
    let b = strip_start(a, "```py");
    let c = strip_start(b, "```");
    let d = strip_end(c, "```");
    let e = trim_chars(d.as_slice());
    string_of(e.as_slice())
}

/// The experiment for an idea: titled `验证: <title>`, a Python script, the
/// current hypothesis, thirty seconds allowed.
pub fn experiment_for_idea(idea_title: &str, hypothesis: &str, script: String) -> (r: ExperimentSpec)
    ensures
        r.title@ == "验证: "@ + idea_title@,
        r.language@ == "python"@,
        r.script_content == script,
        r.hypothesis@ == hypothesis@,
        r.timeout_secs == 30,
{
    let mut title = String::from_str("验证: ");
    push_str(&mut title, idea_title);
    ExperimentSpec {
        title,
        language: String::from_str("python"),
        script_content: script,
        hypothesis: String::from_str(hypothesis),
        timeout_secs: 30,
    }
}

pub open spec fn experiment_prompt_spec(title: Seq<char>, description: Seq<char>, domain: Seq<char>, score: Seq<char>, analysis: Seq<char>) -> Seq<char> {
    "你是一名研发工程师。根据以下创意和分析结果，生成一个 Python 验证脚本。\n\n脚本要求：\n1. 用 Python 3 编写，只使用标准库\n2. 验证创意中描述的核心技术可行性\n3. 输出结构化指标，格式为 JSON 行：{\"metric_name\": value}\n4. 脚本末尾打印 EXPERIMENT_DONE 标记\n5. 不要使用任何网络请求\n\n创意标题："@
        + title
        + "\n创意描述："@
        + description
        + "\n技术领域："@
        + domain
        + "\n新颖性评分："@
        + score
        + "/100\nAI 分析："@
        + take_chars(analysis, 500)
        + "\n\n请只输出 Python 代码，不要包含 markdown 标记或说明文字。"@
}

/// The prompt asking for a verification script: the idea, its novelty
/// score (one decimal) and the first 500 characters of the analysis.
pub fn experiment_prompt(title: &str, description: &str, domain: &str, score: &str, analysis: &str) -> (r: String)
    ensures
        r@ == experiment_prompt_spec(title@, description@, domain@, score@, analysis@),
{
    let mut r = String::new();
    push_str(&mut r, "你是一名研发工程师。根据以下创意和分析结果，生成一个 Python 验证脚本。\n\n脚本要求：\n1. 用 Python 3 编写，只使用标准库\n2. 验证创意中描述的核心技术可行性\n3. 输出结构化指标，格式为 JSON 行：{\"metric_name\": value}\n4. 脚本末尾打印 EXPERIMENT_DONE 标记\n5. 不要使用任何网络请求\n\n创意标题：");
    push_str(&mut r, title);
    push_str(&mut r, "\n创意描述：");
    push_str(&mut r, description);
    push_str(&mut r, "\n技术领域：");
    push_str(&mut r, domain);
    push_str(&mut r, "\n新颖性评分：");
    push_str(&mut r, score);
    push_str(&mut r, "/100\nAI 分析：");
    let head = take_n(chars_of(analysis).as_slice(), 500);
    let hs = string_of(head.as_slice());
    push_str(&mut r, hs.as_str());
    push_str(&mut r, "\n\n请只输出 Python 代码，不要包含 markdown 标记或说明文字。");
    assert(r@ =~= experiment_prompt_spec(title@, description@, domain@, score@, analysis@));
    r
}

} // verus!
