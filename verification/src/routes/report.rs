//! The printable report of an idea: an HTML page with its score, the
//! analysis and its feature cards.
use crate::routes::escape::{html_escape, html_escape_spec};
use crate::text::{decimal, decimal_string, push_str};
use vstd::prelude::*;

verus! {

/// A feature card as the report shows it; the score is already written out
/// (a whole number, or `N/A`).
#[derive(Debug, Clone)]
pub struct ReportCard {
    pub title: String,
    pub description: String,
    pub score: String,
}

pub open spec fn card_view(c: ReportCard) -> (Seq<char>, Seq<char>, Seq<char>) {
    (c.title@, c.description@, c.score@)
}

pub open spec fn analysis_html_spec(a: Seq<char>) -> Seq<char> {
    if a.len() == 0 {
        "分析尚未完成"@
    } else {
        html_escape_spec(a)
    }
}

pub open spec fn card_html(c: (Seq<char>, Seq<char>, Seq<char>)) -> Seq<char> {
    "<div class='card'><h4>"@ + html_escape_spec(c.0) + "</h4><p>"@ + html_escape_spec(c.1)
        + "</p><span class='score'>新颖性: "@ + c.2 + "</span></div>"@
}

pub open spec fn cards_concat(cs: Seq<(Seq<char>, Seq<char>, Seq<char>)>) -> Seq<char>
    decreases cs.len(),
{
    if cs.len() == 0 {
        Seq::empty()
    } else {
        cards_concat(cs.drop_last()) + card_html(cs.last())
    }
}

/// The cards section: each card's title, description and score, or a
/// placeholder when there is none.
pub open spec fn cards_html_spec(cs: Seq<(Seq<char>, Seq<char>, Seq<char>)>) -> Seq<char> {
    if cs.len() == 0 {
        "<p>暂无特征卡片</p>"@
    } else {
        cards_concat(cs)
    }
}

fn cards_html(cards: &Vec<ReportCard>) -> (r: String)
    ensures
        r@ == cards_html_spec(cards@.map_values(|c: ReportCard| card_view(c))),
{
    let ghost cv = cards@.map_values(|c: ReportCard| card_view(c));
    if cards.len() == 0 {
        return "<p>暂无特征卡片</p>".to_string();
    }
    let mut r = String::new();
    let mut i: usize = 0;
    while i < cards.len()
        invariant
            i <= cards@.len(),
            cv == cards@.map_values(|c: ReportCard| card_view(c)),
            r@ == cards_concat(cv.take(i as int)),
        decreases cards@.len() - i,
    {
        assert(cv.take(i + 1).drop_last() =~= cv.take(i as int));
        assert(cv.take(i + 1).last() == card_view(cards@[i as int]));
        let c = &cards[i];
        let ghost before = r@;
        push_str(&mut r, "<div class='card'><h4>");
        let t = html_escape(c.title.as_str());
        push_str(&mut r, t.as_str());
        push_str(&mut r, "</h4><p>");
        let d = html_escape(c.description.as_str());
        push_str(&mut r, d.as_str());
        push_str(&mut r, "</p><span class='score'>新颖性: ");
        push_str(&mut r, c.score.as_str());
        push_str(&mut r, "</span></div>");
        assert(r@ =~= before + card_html(card_view(*c)));
        i += 1;
    }
    assert(cv.take(cards@.len() as int) =~= cv);
    r
}

pub open spec fn report_html_spec(title: Seq<char>, description: Seq<char>, status: Seq<char>, created_at: Seq<char>, score: Seq<char>, analysis: Seq<char>, cards: Seq<(Seq<char>, Seq<char>, Seq<char>)>) -> Seq<char> {
    "<!DOCTYPE html>\n<html lang=\"zh\">\n<head>\n<meta charset=\"UTF-8\">\n<title>创新验证报告 — "@
        + html_escape_spec(title)
        + "</title>\n<style>\n  @media print { @page { margin: 1.5cm; } }\n  body { font-family: -apple-system, \"Microsoft YaHei\", sans-serif; max-width: 800px; margin: 0 auto; padding: 20px; color: #333; line-height: 1.6; }\n  h1 { border-bottom: 2px solid #2563eb; padding-bottom: 8px; }\n  .meta { color: #666; margin-bottom: 20px; }\n  .score-box { background: #eff6ff; border: 1px solid #bfdbfe; border-radius: 8px; padding: 16px; text-align: center; margin: 20px 0; }\n  .score-box .score { font-size: 2em; font-weight: bold; color: #2563eb; }\n  .card { border: 1px solid #e5e7eb; border-radius: 6px; padding: 12px; margin: 8px 0; }\n  .card h4 { margin: 0 0 4px 0; }\n  .card .score { font-size: 0.85em; color: #059669; }\n  .section { margin-top: 24px; }\n  .section h2 { color: #1e40af; }\n  .analysis { white-space: pre-wrap; background: #f9fafb; padding: 16px; border-radius: 8px; }\n  .print-btn { background: #2563eb; color: #fff; border: none; padding: 10px 24px; border-radius: 6px; cursor: pointer; font-size: 16px; }\n  @media print { .no-print { display: none; } }\n</style>\n</head>\n<body>\n<div class=\"no-print\" style=\"text-align:right;margin-bottom:16px;\">\n  <button class=\"print-btn\" onclick=\"window.print()\">导出 PDF / 打印</button>\n</div>\n<h1>创新验证报告</h1>\n<div class=\"meta\">\n  <strong>创意：</strong>"@
        + html_escape_spec(title)
        + "<br>\n  <strong>描述：</strong>"@
        + html_escape_spec(description)
        + "<br>\n  <strong>状态：</strong>"@
        + html_escape_spec(status)
        + "<br>\n  <strong>创建时间：</strong>"@
        + html_escape_spec(created_at)
        + "\n</div>\n\n<div class=\"score-box\">\n  <div>新颖性评分</div>\n  <div class=\"score\">"@
        + score
        + "</div>\n</div>\n\n<div class=\"section\">\n  <h2>AI 深度分析</h2>\n  <div class=\"analysis\">"@
        + analysis_html_spec(analysis)
        + "</div>\n</div>\n\n<div class=\"section\">\n  <h2>特征卡片 ("@
        + decimal(cards.len())
        + " 张)</h2>\n  "@
        + cards_html_spec(cards)
        + "\n</div>\n\n<div class=\"section\" style=\"color:#999;font-size:0.85em;margin-top:40px;border-top:1px solid #eee;padding-top:8px;\">\n  Patent Hub 创新验证报告 · "@
        + html_escape_spec(created_at)
        + "\n</div>\n</body>\n</html>"@
}

/// The printable report page of an idea: its title, description, status
/// and creation time (escaped), its score as written out, its analysis
/// (escaped, or a placeholder while there is none) and its feature cards.
pub fn report_html(
    title: &str,
    description: &str,
    status: &str,
    created_at: &str,
    score: &str,
    analysis: &str,
    cards: &Vec<ReportCard>,
) -> (r: String)
    ensures
        r@ == report_html_spec(title@, description@, status@, created_at@, score@, analysis@, cards@.map_values(|c: ReportCard| card_view(c))),
{
    let et = html_escape(title);
    let ed = html_escape(description);
    let es = html_escape(status);
    let ec = html_escape(created_at);
    let ea = if analysis.is_empty() {
        "分析尚未完成".to_string()
    } else {
        html_escape(analysis)
    };
    let cn = decimal_string(cards.len() as u64);
    let ch = cards_html(cards);
    let mut r = String::new();
    push_str(&mut r, "<!DOCTYPE html>\n<html lang=\"zh\">\n<head>\n<meta charset=\"UTF-8\">\n<title>创新验证报告 — ");
    push_str(&mut r, et.as_str());
    push_str(&mut r, "</title>\n<style>\n  @media print { @page { margin: 1.5cm; } }\n  body { font-family: -apple-system, \"Microsoft YaHei\", sans-serif; max-width: 800px; margin: 0 auto; padding: 20px; color: #333; line-height: 1.6; }\n  h1 { border-bottom: 2px solid #2563eb; padding-bottom: 8px; }\n  .meta { color: #666; margin-bottom: 20px; }\n  .score-box { background: #eff6ff; border: 1px solid #bfdbfe; border-radius: 8px; padding: 16px; text-align: center; margin: 20px 0; }\n  .score-box .score { font-size: 2em; font-weight: bold; color: #2563eb; }\n  .card { border: 1px solid #e5e7eb; border-radius: 6px; padding: 12px; margin: 8px 0; }\n  .card h4 { margin: 0 0 4px 0; }\n  .card .score { font-size: 0.85em; color: #059669; }\n  .section { margin-top: 24px; }\n  .section h2 { color: #1e40af; }\n  .analysis { white-space: pre-wrap; background: #f9fafb; padding: 16px; border-radius: 8px; }\n  .print-btn { background: #2563eb; color: #fff; border: none; padding: 10px 24px; border-radius: 6px; cursor: pointer; font-size: 16px; }\n  @media print { .no-print { display: none; } }\n</style>\n</head>\n<body>\n<div class=\"no-print\" style=\"text-align:right;margin-bottom:16px;\">\n  <button class=\"print-btn\" onclick=\"window.print()\">导出 PDF / 打印</button>\n</div>\n<h1>创新验证报告</h1>\n<div class=\"meta\">\n  <strong>创意：</strong>");
    push_str(&mut r, et.as_str());
    push_str(&mut r, "<br>\n  <strong>描述：</strong>");
    push_str(&mut r, ed.as_str());
    push_str(&mut r, "<br>\n  <strong>状态：</strong>");
    push_str(&mut r, es.as_str());
    push_str(&mut r, "<br>\n  <strong>创建时间：</strong>");
    push_str(&mut r, ec.as_str());
    push_str(&mut r, "\n</div>\n\n<div class=\"score-box\">\n  <div>新颖性评分</div>\n  <div class=\"score\">");
    push_str(&mut r, score);
    push_str(&mut r, "</div>\n</div>\n\n<div class=\"section\">\n  <h2>AI 深度分析</h2>\n  <div class=\"analysis\">");
    push_str(&mut r, ea.as_str());
    push_str(&mut r, "</div>\n</div>\n\n<div class=\"section\">\n  <h2>特征卡片 (");
    push_str(&mut r, cn.as_str());
    push_str(&mut r, " 张)</h2>\n  ");
    push_str(&mut r, ch.as_str());
    push_str(&mut r, "\n</div>\n\n<div class=\"section\" style=\"color:#999;font-size:0.85em;margin-top:40px;border-top:1px solid #eee;padding-top:8px;\">\n  Patent Hub 创新验证报告 · ");
    push_str(&mut r, ec.as_str());
    push_str(&mut r, "\n</div>\n</body>\n</html>");
    assert(r@ =~= report_html_spec(title@, description@, status@, created_at@, score@, analysis@, cards@.map_values(|c: ReportCard| card_view(c))));
    r
}

} // verus!
