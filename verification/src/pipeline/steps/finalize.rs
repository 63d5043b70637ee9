//! Final step: the report written from the computed figures alone, for
//! when no model analysis is available.
use crate::text::{byte_len, byte_len_le, chars_of, decimal, decimal_string, push_str, string_of, take_chars, take_n};
use vstd::prelude::*;

verus! {

/// The verdict for a novelty score (the whole-number part of a score
/// between 0 and 100).
pub open spec fn level_spec(score: u32) -> Seq<char> {
    if 80 <= score && score <= 100 {
        "高度新颖 — 未找到高度相似的现有方案"@
    } else if 60 <= score && score <= 79 {
        "较为新颖 — 存在部分相关方案但有明显差异"@
    } else if 40 <= score && score <= 59 {
        "中等新颖 — 存在较多相似方案，需要差异化"@
    } else if 20 <= score && score <= 39 {
        "新颖性较低 — 已有多个类似方案"@
    } else {
        "新颖性很低 — 与现有方案高度重合"@
    }
}

pub fn novelty_level(score: u32) -> (r: &'static str)
    ensures
        r@ == level_spec(score),
{
    if 80 <= score && score <= 100 {
        "高度新颖 — 未找到高度相似的现有方案"
    } else if 60 <= score && score <= 79 {
        "较为新颖 — 存在部分相关方案但有明显差异"
    } else if 40 <= score && score <= 59 {
        "中等新颖 — 存在较多相似方案，需要差异化"
    } else if 20 <= score && score <= 39 {
        "新颖性较低 — 已有多个类似方案"
    } else {
        "新颖性很低 — 与现有方案高度重合"
    }
}

/// A snippet shortened to `n`: when its UTF-8 encoding is longer than `n`
/// bytes, its first `n` characters followed by `...`.
pub open spec fn preview_spec(s: Seq<char>, n: nat) -> Seq<char> {
    if byte_len(s) > n {
        take_chars(s, n) + "..."@
    } else {
        s
    }
}

pub fn snippet_preview(s: &str, n: usize) -> (r: String)
    requires
        n <= usize::MAX - 4,
    ensures
        r@ == preview_spec(s@, n as nat),
{
    let v = chars_of(s);
    if byte_len_le(v.as_slice(), n) {
        string_of(v.as_slice())
    } else {
        let t = take_n(v.as_slice(), n);
        let mut r = string_of(t.as_slice());
        push_str(&mut r, "...");
        r
    }
}

/// The figures of the report, each number already written out as the
/// report shows it.
#[derive(Debug, Clone)]
pub struct ReportFigures {
    /// The novelty score, as a whole number.
    pub novelty: String,
    /// The whole-number part of the novelty score, which picks the verdict.
    pub level_score: u32,
    /// Highest similarity, in percent with one decimal.
    pub max_similarity: String,
    /// Mean similarity of the top five, in percent with one decimal.
    pub avg_top5: String,
    /// Bonus for contradiction signals, as a whole number.
    pub contradiction_bonus: String,
    /// Number of contradictions detected.
    pub contradictions: u64,
    /// Bonus for the coverage gap, as a whole number.
    pub coverage_bonus: String,
    /// Search coverage, in percent as a whole number.
    pub coverage: String,
}

/// One of the closest matches, as the report lists it.
#[derive(Debug, Clone)]
pub struct ReportMatch {
    pub rank: u64,
    pub title: String,
    /// Similarity in percent with one decimal.
    pub score: String,
    pub snippet: String,
}

pub open spec fn header_spec(f: ReportFigures) -> Seq<char> {
    "## 创新验证报告（数据驱动）\n\n"@ + "**新颖性评分："@ + f.novelty@ + "/100**\n\n"@ + "**评估等级：** "@
        + level_spec(f.level_score) + "\n\n"@ + "### 评分构成\n\n"@
        + "| 指标 | 数值 | 说明 |\n|------|------|------|\n| 最高相似度 | "@ + f.max_similarity@
        + "% | 与最相似现有技术的匹配度 |\n| Top5 平均相似度 | "@ + f.avg_top5@
        + "% | 前 5 个最相似方案的平均值 |\n| 矛盾信号加分 | +"@ + f.contradiction_bonus@ + " | 检测到 "@
        + decimal(f.contradictions as nat) + " 个技术路线矛盾 |\n| 覆盖缺口加分 | +"@ + f.coverage_bonus@
        + " | 搜索覆盖度 "@ + f.coverage@ + "% |\n\n"@
}

pub open spec fn match_line(m: ReportMatch) -> Seq<char> {
    decimal(m.rank as nat) + ". **"@ + m.title@ + "** (相似度 "@ + m.score@ + "%)\n   "@ + preview_spec(
        m.snippet@,
        100,
    ) + "\n\n"@
}

pub open spec fn match_lines(ms: Seq<ReportMatch>) -> Seq<char>
    decreases ms.len(),
{
    if ms.len() == 0 {
        Seq::empty()
    } else {
        match_lines(ms.drop_last()) + match_line(ms.last())
    }
}

pub open spec fn contradiction_lines(cs: Seq<(String, String)>) -> Seq<char>
    decreases cs.len(),
{
    if cs.len() == 0 {
        Seq::empty()
    } else {
        contradiction_lines(cs.drop_last()) + "- **"@ + cs.last().0@ + "**\n  "@ + cs.last().1@ + "\n\n"@
    }
}

/// The report: the header with the score, its verdict and its parts; the
/// first five matches when there are any; the contradictions (dimension and
/// opportunity) when there are any.
pub open spec fn report_spec(f: ReportFigures, ms: Seq<ReportMatch>, cs: Seq<(String, String)>) -> Seq<char> {
    header_spec(f) + (if ms.len() > 0 {
        "### 最相关的现有技术\n\n"@ + match_lines(ms.take(if ms.len() < 5 { ms.len() as int } else { 5 }))
    } else {
        Seq::empty()
    }) + (if cs.len() > 0 {
        "### 矛盾信号（创新机会）\n\n"@ + contradiction_lines(cs)
    } else {
        Seq::empty()
    })
}

fn push_header(r: &mut String, f: &ReportFigures)
    ensures
        final(r)@ == old(r)@ + header_spec(*f),
{
    let ghost start = r@;
    push_str(r, "## 创新验证报告（数据驱动）\n\n");
    push_str(r, "**新颖性评分：");
    push_str(r, f.novelty.as_str());
    push_str(r, "/100**\n\n");
    push_str(r, "**评估等级：** ");
    push_str(r, novelty_level(f.level_score));
    push_str(r, "\n\n");
    push_str(r, "### 评分构成\n\n");
    push_str(r, "| 指标 | 数值 | 说明 |\n|------|------|------|\n| 最高相似度 | ");
    push_str(r, f.max_similarity.as_str());
    push_str(r, "% | 与最相似现有技术的匹配度 |\n| Top5 平均相似度 | ");
    push_str(r, f.avg_top5.as_str());
    push_str(r, "% | 前 5 个最相似方案的平均值 |\n| 矛盾信号加分 | +");
    push_str(r, f.contradiction_bonus.as_str());
    push_str(r, " | 检测到 ");
    let n = decimal_string(f.contradictions);
    push_str(r, n.as_str());
    push_str(r, " 个技术路线矛盾 |\n| 覆盖缺口加分 | +");
    push_str(r, f.coverage_bonus.as_str());
    push_str(r, " | 搜索覆盖度 ");
    push_str(r, f.coverage.as_str());
    push_str(r, "% |\n\n");
    assert(r@ =~= start + header_spec(*f));
}

fn push_match(r: &mut String, m: &ReportMatch)
    ensures
        final(r)@ == old(r)@ + match_line(*m),
{
    let ghost start = r@;
    let n = decimal_string(m.rank);
    push_str(r, n.as_str());
    push_str(r, ". **");
    push_str(r, m.title.as_str());
    push_str(r, "** (相似度 ");
    push_str(r, m.score.as_str());
    push_str(r, "%)\n   ");
    let p = snippet_preview(m.snippet.as_str(), 100);
    push_str(r, p.as_str());
    push_str(r, "\n\n");
    assert(r@ =~= start + match_line(*m));
}

/// The report written from the figures alone (see `report_spec`).
pub fn code_only_report(f: &ReportFigures, matches: &Vec<ReportMatch>, contradictions: &Vec<(String, String)>) -> (r:
    String)
    ensures
        r@ == report_spec(*f, matches@, contradictions@),
{
    let mut r = String::new();
    push_header(&mut r, f);
    let ghost after_header = r@;
    if matches.len() > 0 {
        push_str(&mut r, "### 最相关的现有技术\n\n");
        let ghost base = r@;
        let limit: usize = if matches.len() < 5 {
            matches.len()
        } else {
            5
        };
        let mut i: usize = 0;
        while i < limit
            invariant
                i <= limit <= matches@.len(),
                r@ == base + match_lines(matches@.take(i as int)),
            decreases limit - i,
        {
            assert(matches@.take(i + 1).drop_last() =~= matches@.take(i as int));
            assert(matches@.take(i + 1).last() == matches@[i as int]);
            push_match(&mut r, &matches[i]);
            i += 1;
        }
        assert(r@ =~= after_header + ("### 最相关的现有技术\n\n"@ + match_lines(
            matches@.take(limit as int),
        )));
    } else {
        assert(r@ =~= after_header + Seq::<char>::empty());
    }
    let ghost after_matches = r@;
    if contradictions.len() > 0 {
        push_str(&mut r, "### 矛盾信号（创新机会）\n\n");
        let ghost base = r@;
        let mut i: usize = 0;
        while i < contradictions.len()
            invariant
                i <= contradictions@.len(),
                r@ == base + contradiction_lines(contradictions@.take(i as int)),
            decreases contradictions@.len() - i,
        {
            assert(contradictions@.take(i + 1).drop_last() =~= contradictions@.take(i as int));
            assert(contradictions@.take(i + 1).last() == contradictions@[i as int]);
            let ghost before = r@;
            push_str(&mut r, "- **");
            push_str(&mut r, contradictions[i].0.as_str());
            push_str(&mut r, "**\n  ");
            push_str(&mut r, contradictions[i].1.as_str());
            push_str(&mut r, "\n\n");
            assert(r@ =~= base + contradiction_lines(contradictions@.take(i + 1)));
            i += 1;
        }
        assert(contradictions@.take(contradictions@.len() as int) =~= contradictions@);
        assert(r@ =~= after_matches + ("### 矛盾信号（创新机会）\n\n"@ + contradiction_lines(contradictions@)));
    } else {
        assert(r@ =~= after_matches + Seq::<char>::empty());
    }
    assert(r@ =~= report_spec(*f, matches@, contradictions@));
    r
}

} // verus!
