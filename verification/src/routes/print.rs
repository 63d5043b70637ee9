//! The printable page of a patent: its bibliographic data, abstract,
//! claims, description and drawings, for the browser's print dialog.
use crate::patent::Patent;
use crate::routes::online::{percent_encode, url_component};
use crate::text::{chars_of, decimal, decimal_string, push_str, replace_char, replace_char_chars, string_of};
use vstd::prelude::*;

verus! {

/// Escaping for the printable page: `&`, `<`, `>` and `"` replaced by
/// entities, `&` first.
pub open spec fn print_escape_spec(s: Seq<char>) -> Seq<char> {
    replace_char(
        replace_char(replace_char(replace_char(s, '&', "&amp;"@), '<', "&lt;"@), '>', "&gt;"@),
        '"',
        "&quot;"@,
    )
}

pub fn print_escape(s: &str) -> (r: String)
    ensures
        r@ == print_escape_spec(s@),
{
    let v = chars_of(s);
    let amp = chars_of("&amp;");
    let lt = chars_of("&lt;");
    let gt = chars_of("&gt;");
    let quot = chars_of("&quot;");
    let a = replace_char_chars(v.as_slice(), '&', amp.as_slice());
    let b = replace_char_chars(a.as_slice(), '<', lt.as_slice());
    let c = replace_char_chars(b.as_slice(), '>', gt.as_slice());
    let d = replace_char_chars(c.as_slice(), '"', quot.as_slice());
    string_of(d.as_slice())
}

/// A block of preformatted text, or a note when the text is missing.
pub open spec fn text_block_spec(t: Seq<char>, missing: Seq<char>) -> Seq<char> {
    if t.len() == 0 {
        missing
    } else {
        "<pre style='white-space:pre-wrap;font-family:SimSun,serif;line-height:1.8;'>"@
            + print_escape_spec(t) + "</pre>"@
    }
}

pub open spec fn claims_block_spec(t: Seq<char>) -> Seq<char> {
    text_block_spec(t, "<p style='color:#999;'>权利要求内容未加载。</p>"@)
}

pub open spec fn description_block_spec(t: Seq<char>) -> Seq<char> {
    text_block_spec(t, "<p style='color:#999;'>说明书内容未加载。请先在详情页点击「加载全文」后再导出。</p>"@)
}

fn text_block(t: &str, missing: &str) -> (r: String)
    ensures
        r@ == text_block_spec(t@, missing@),
{
    if t.is_empty() {
        missing.to_string()
    } else {
        let mut r = String::new();
        push_str(&mut r, "<pre style='white-space:pre-wrap;font-family:SimSun,serif;line-height:1.8;'>");
        let e = print_escape(t);
        push_str(&mut r, e.as_str());
        push_str(&mut r, "</pre>");
        r
    }
}

/// One drawing, numbered from 1, shown through the image proxy.
pub open spec fn figure_html(url: Seq<char>, n: nat) -> Seq<char> {
    "<div style='text-align:center;margin:20px 0;page-break-inside:avoid;'><img src='"@
        + "/api/patent/image-proxy?url="@ + url_component(url) + "' alt='图 "@ + decimal(n)
        + "' style='max-width:100%;max-height:700px;'><p style='color:#666;font-size:12px;'>图 "@
        + decimal(n) + "</p></div>\n"@
}

pub open spec fn figures_concat(urls: Seq<Seq<char>>) -> Seq<char>
    decreases urls.len(),
{
    if urls.len() == 0 {
        Seq::empty()
    } else {
        figures_concat(urls.drop_last()) + figure_html(urls.last(), urls.len())
    }
}

/// The drawings section: a heading and each drawing, or nothing when the
/// patent has none.
pub open spec fn images_block_spec(urls: Seq<Seq<char>>) -> Seq<char> {
    if urls.len() == 0 {
        Seq::empty()
    } else {
        "<h2>附图</h2>\n"@ + figures_concat(urls)
    }
}

fn images_block(urls: &Vec<String>) -> (r: String)
    ensures
        r@ == images_block_spec(urls.deep_view()),
{
    if urls.len() == 0 {
        return String::new();
    }
    let mut r = String::new();
    push_str(&mut r, "<h2>附图</h2>\n");
    let ghost dv = urls.deep_view();
    let mut i: usize = 0;
    while i < urls.len()
        invariant
            i <= urls@.len(),
            dv == urls.deep_view(),
            dv.len() > 0,
            r@ == "<h2>附图</h2>\n"@ + figures_concat(dv.take(i as int)),
        decreases urls@.len() - i,
    {
        assert(dv.take(i + 1).drop_last() =~= dv.take(i as int));
        assert(dv.take(i + 1).last() == urls@[i as int]@);
        let ghost before = r@;
        let n = decimal_string((i + 1) as u64);
        push_str(&mut r, "<div style='text-align:center;margin:20px 0;page-break-inside:avoid;'><img src='");
        push_str(&mut r, "/api/patent/image-proxy?url=");
        let enc = percent_encode(urls[i].as_str());
        push_str(&mut r, enc.as_str());
        push_str(&mut r, "' alt='图 ");
        push_str(&mut r, n.as_str());
        push_str(&mut r, "' style='max-width:100%;max-height:700px;'><p style='color:#666;font-size:12px;'>图 ");
        push_str(&mut r, n.as_str());
        push_str(&mut r, "</p></div>\n");
        assert(r@ =~= before + figure_html(urls@[i as int]@, (i + 1) as nat));
        i += 1;
    }
    assert(dv.take(urls@.len() as int) =~= dv);
    r
}

/// The printable page of a patent; `images` are the URLs of its drawings.
pub open spec fn print_page_spec(p: Patent, images: Seq<Seq<char>>) -> Seq<char> {
    "<!DOCTYPE html>\n<html lang=\"zh-CN\">\n<head>\n<meta charset=\"UTF-8\">\n<title>"@
        + print_escape_spec(p.title@)
        + " - "@
        + print_escape_spec(p.patent_number@)
        + "</title>\n<style>\n@media print {\n    body { margin: 15mm; }\n    .no-print { display: none !important; }\n    h1 { font-size: 18pt; }\n    h2 { font-size: 14pt; page-break-before: always; }\n    h2:first-of-type { page-break-before: avoid; }\n}\nbody { font-family: SimSun, 'Times New Roman', serif; max-width: 800px; margin: 0 auto; padding: 20px; color: #222; line-height: 1.6; }\nh1 { text-align: center; border-bottom: 2px solid #333; padding-bottom: 10px; }\n.meta-table { width: 100%; border-collapse: collapse; margin: 20px 0; }\n.meta-table td { border: 1px solid #ccc; padding: 6px 12px; }\n.meta-table td:first-child { background: #f5f5f5; font-weight: bold; width: 120px; }\nh2 { color: #1a5276; border-bottom: 1px solid #ccc; padding-bottom: 5px; margin-top: 30px; }\n.btn-print { display: inline-block; padding: 10px 30px; background: #238636; color: white; border: none; border-radius: 6px; font-size: 16px; cursor: pointer; margin: 20px auto; }\n.btn-print:hover { background: #2ea043; }\n.top-actions { text-align: center; margin-bottom: 20px; }\n</style>\n</head>\n<body>\n<div class=\"no-print top-actions\">\n    <button class=\"btn-print\" onclick=\"window.print()\">🖨️ 打印 / 保存为 PDF</button>\n    <button class=\"btn-print\" style=\"background:#555;\" onclick=\"window.close()\">关闭</button>\n</div>\n<h1>"@
        + print_escape_spec(p.title@)
        + "</h1>\n<p style=\"text-align:center;color:#666;font-size:14px;\">专利号: "@
        + print_escape_spec(p.patent_number@)
        + "</p>\n<table class=\"meta-table\">\n<tr><td>申请人</td><td>"@
        + print_escape_spec(p.applicant@)
        + "</td></tr>\n<tr><td>发明人</td><td>"@
        + print_escape_spec(p.inventor@)
        + "</td></tr>\n<tr><td>申请日</td><td>"@
        + print_escape_spec(p.filing_date@)
        + "</td></tr>\n<tr><td>公开日</td><td>"@
        + print_escape_spec(p.publication_date@)
        + "</td></tr>\n<tr><td>国家/地区</td><td>"@
        + print_escape_spec(p.country@)
        + "</td></tr>\n<tr><td>IPC 分类</td><td>"@
        + print_escape_spec(p.ipc_codes@)
        + "</td></tr>\n<tr><td>法律状态</td><td>"@
        + print_escape_spec(p.legal_status@)
        + "</td></tr>\n</table>\n\n<h2>摘要</h2>\n<p>"@
        + print_escape_spec(p.abstract_text@)
        + "</p>\n\n<h2>权利要求书</h2>\n"@
        + claims_block_spec(p.claims@)
        + "\n\n<h2>说明书</h2>\n"@
        + description_block_spec(p.description@)
        + "\n\n"@
        + images_block_spec(images)
        + "\n\n<div class=\"no-print top-actions\" style=\"margin-top:40px;\">\n    <button class=\"btn-print\" onclick=\"window.print()\">🖨️ 打印 / 保存为 PDF</button>\n</div>\n</body>\n</html>"@
}

/// Writes the printable page of a patent; `images` are the URLs of its
/// drawings (the stored JSON list, read by the caller).
pub fn print_page(p: &Patent, images: &Vec<String>) -> (r: String)
    ensures
        r@ == print_page_spec(*p, images.deep_view()),
{
    let claims = text_block(p.claims.as_str(), "<p style='color:#999;'>权利要求内容未加载。</p>");
    let desc = text_block(p.description.as_str(), "<p style='color:#999;'>说明书内容未加载。请先在详情页点击「加载全文」后再导出。</p>");
    let imgs = images_block(images);
    let mut r = String::new();
    push_str(&mut r, "<!DOCTYPE html>\n<html lang=\"zh-CN\">\n<head>\n<meta charset=\"UTF-8\">\n<title>");
    let e = print_escape(p.title.as_str());
    push_str(&mut r, e.as_str());
    push_str(&mut r, " - ");
    let e = print_escape(p.patent_number.as_str());
    push_str(&mut r, e.as_str());
    push_str(&mut r, "</title>\n<style>\n@media print {\n    body { margin: 15mm; }\n    .no-print { display: none !important; }\n    h1 { font-size: 18pt; }\n    h2 { font-size: 14pt; page-break-before: always; }\n    h2:first-of-type { page-break-before: avoid; }\n}\nbody { font-family: SimSun, 'Times New Roman', serif; max-width: 800px; margin: 0 auto; padding: 20px; color: #222; line-height: 1.6; }\nh1 { text-align: center; border-bottom: 2px solid #333; padding-bottom: 10px; }\n.meta-table { width: 100%; border-collapse: collapse; margin: 20px 0; }\n.meta-table td { border: 1px solid #ccc; padding: 6px 12px; }\n.meta-table td:first-child { background: #f5f5f5; font-weight: bold; width: 120px; }\nh2 { color: #1a5276; border-bottom: 1px solid #ccc; padding-bottom: 5px; margin-top: 30px; }\n.btn-print { display: inline-block; padding: 10px 30px; background: #238636; color: white; border: none; border-radius: 6px; font-size: 16px; cursor: pointer; margin: 20px auto; }\n.btn-print:hover { background: #2ea043; }\n.top-actions { text-align: center; margin-bottom: 20px; }\n</style>\n</head>\n<body>\n<div class=\"no-print top-actions\">\n    <button class=\"btn-print\" onclick=\"window.print()\">🖨️ 打印 / 保存为 PDF</button>\n    <button class=\"btn-print\" style=\"background:#555;\" onclick=\"window.close()\">关闭</button>\n</div>\n<h1>");
    let e = print_escape(p.title.as_str());
    push_str(&mut r, e.as_str());
    push_str(&mut r, "</h1>\n<p style=\"text-align:center;color:#666;font-size:14px;\">专利号: ");
    let e = print_escape(p.patent_number.as_str());
    push_str(&mut r, e.as_str());
    push_str(&mut r, "</p>\n<table class=\"meta-table\">\n<tr><td>申请人</td><td>");
    let e = print_escape(p.applicant.as_str());
    push_str(&mut r, e.as_str());
    push_str(&mut r, "</td></tr>\n<tr><td>发明人</td><td>");
    let e = print_escape(p.inventor.as_str());
    push_str(&mut r, e.as_str());
    push_str(&mut r, "</td></tr>\n<tr><td>申请日</td><td>");
    let e = print_escape(p.filing_date.as_str());
    push_str(&mut r, e.as_str());
    push_str(&mut r, "</td></tr>\n<tr><td>公开日</td><td>");
    let e = print_escape(p.publication_date.as_str());
    push_str(&mut r, e.as_str());
    push_str(&mut r, "</td></tr>\n<tr><td>国家/地区</td><td>");
    let e = print_escape(p.country.as_str());
    push_str(&mut r, e.as_str());
    push_str(&mut r, "</td></tr>\n<tr><td>IPC 分类</td><td>");
    let e = print_escape(p.ipc_codes.as_str());
    push_str(&mut r, e.as_str());
    push_str(&mut r, "</td></tr>\n<tr><td>法律状态</td><td>");
    let e = print_escape(p.legal_status.as_str());
    push_str(&mut r, e.as_str());
    push_str(&mut r, "</td></tr>\n</table>\n\n<h2>摘要</h2>\n<p>");
    let e = print_escape(p.abstract_text.as_str());
    push_str(&mut r, e.as_str());
    push_str(&mut r, "</p>\n\n<h2>权利要求书</h2>\n");
    push_str(&mut r, claims.as_str());
    push_str(&mut r, "\n\n<h2>说明书</h2>\n");
    push_str(&mut r, desc.as_str());
    push_str(&mut r, "\n\n");
    push_str(&mut r, imgs.as_str());
    push_str(&mut r, "\n\n<div class=\"no-print top-actions\" style=\"margin-top:40px;\">\n    <button class=\"btn-print\" onclick=\"window.print()\">🖨️ 打印 / 保存为 PDF</button>\n</div>\n</body>\n</html>");
    assert(r@ =~= print_page_spec(*p, images.deep_view()));
    r
}

} // verus!
