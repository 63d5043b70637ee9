//! Results of the Sogou web search, read out of its HTML page.
use crate::routes::online::{percent_encode, url_component};
use crate::routes::patent_page::{strip_html_tags, strip_tags_spec};
use crate::routes::search_text::{capture_view, captures_with_rest, regex_captures_rest};
use crate::json::{array_items, get, get_member, items_of, string_value, Json};
use crate::pipeline::steps::claims::{min_len, str_or};
use crate::text::{
    byte_len, byte_len_le, chars_of, clip_bytes, contains, contains_str, decimal, decimal_string, find, find_chars,
    head_bytes, lemma_find_from_spec, push_str, replace_all, replace_all_chars, slice_range, split_chars, split_on,
    starts_with, starts_with_str, string_of, take_chars, take_n, trim, trim_chars, trim_str,
};
use vstd::prelude::*;

verus! {

/// How many hits are read from one result page.
pub const MAX_SOGOU_HITS: usize = 10;

/// The search page for `query`.
pub open spec fn sogou_url_spec(query: Seq<char>) -> Seq<char> {
    "https://www.sogou.com/web?query="@ + url_component(query) + "&num=10"@
}

pub fn sogou_search_url(query: &str) -> (r: String)
    ensures
        r@ == sogou_url_spec(query@),
{
    let mut r = "https://www.sogou.com/web?query=".to_string();
    let q = percent_encode(query);
    push_str(&mut r, q.as_str());
    push_str(&mut r, "&num=10");
    r
}

/// Whether the page is a verification page rather than results: it
/// mentions 安全验证 (or, when `captcha` is set, `captcha`), or is shorter
/// than 5000 bytes.
pub open spec fn sogou_blocked_spec(html: Seq<char>, captcha: bool) -> bool {
    contains(html, "安全验证"@) || (captcha && contains(html, "captcha"@)) || byte_len(html) < 5000
}

pub fn sogou_blocked(html: &str, captcha: bool) -> (r: bool)
    ensures
        r == sogou_blocked_spec(html@, captcha),
{
    let v = chars_of(html);
    contains_str(v.as_slice(), "安全验证") || (captcha && contains_str(v.as_slice(), "captcha"))
        || byte_len_le(v.as_slice(), 4999)
}

pub open spec fn title_pattern() -> Seq<char> {
    "<h3[^>]*>.*?<a[^>]+href=\"([^\"]+)\"[^>]*>(.*?)</a>.*?</h3>"@
}

pub open spec fn snippet_pattern() -> Seq<char> {
    "<p[^>]*>(.*?)</p>"@
}

/// Group `i` of a match, empty when it took no part.
pub open spec fn group(g: Seq<Option<Seq<char>>>, i: int) -> Seq<char> {
    if 0 <= i < g.len() {
        match g[i] {
            Some(s) => s,
            None => Seq::empty(),
        }
    } else {
        Seq::empty()
    }
}

/// The link of a hit: Sogou's relative redirect links are made absolute.
pub open spec fn hit_url(raw: Seq<char>) -> Seq<char> {
    if starts_with(raw, "/link?"@) {
        "https://www.sogou.com"@ + raw
    } else {
        raw
    }
}

/// The snippet of a hit: the first paragraph within the 2000 bytes after
/// its title, tags removed, trimmed, at most 200 characters; empty when
/// there is none.
pub open spec fn hit_snippet(after: Seq<char>) -> Seq<char> {
    match captures_with_rest(snippet_pattern(), head_bytes(after, 2000)) {
        Some(cs) => if cs.len() > 0 {
            take_chars(trim(strip_tags_spec(group(cs[0].0, 1))), 200)
        } else {
            Seq::empty()
        },
        None => Seq::empty(),
    }
}

/// The hit of one title match: its title without tags and trimmed (no hit
/// when that is empty), its snippet and its link.
pub open spec fn hit_of(c: (Seq<Option<Seq<char>>>, Seq<char>)) -> Option<(Seq<char>, Seq<char>, Seq<char>)> {
    let title = trim(strip_tags_spec(group(c.0, 2)));
    if title.len() == 0 {
        None
    } else {
        Some((title, hit_snippet(c.1), hit_url(group(c.0, 1))))
    }
}

/// The hits of the first `n` title matches, at most ten.
pub open spec fn hits_upto(caps: Seq<(Seq<Option<Seq<char>>>, Seq<char>)>, n: nat) -> Seq<(Seq<char>, Seq<char>, Seq<char>)>
    decreases n,
{
    if n == 0 {
        Seq::empty()
    } else {
        let prev = hits_upto(caps, (n - 1) as nat);
        if prev.len() >= MAX_SOGOU_HITS {
            prev
        } else {
            match hit_of(caps[n - 1]) {
                Some(h) => prev.push(h),
                None => prev,
            }
        }
    }
}

/// Law: a result page gives at most `MAX_SOGOU_HITS` hits.
pub proof fn lemma_hits_bounded(caps: Seq<(Seq<Option<Seq<char>>>, Seq<char>)>, n: nat)
    ensures
        hits_upto(caps, n).len() <= MAX_SOGOU_HITS,
    decreases n,
{
    if n > 0 {
        lemma_hits_bounded(caps, (n - 1) as nat);
    }
}

/// A hit as title, snippet and link.
#[derive(Debug, Clone)]
pub struct SogouHit {
    pub title: String,
    pub snippet: String,
    pub url: String,
}

pub open spec fn hit_view(h: SogouHit) -> (Seq<char>, Seq<char>, Seq<char>) {
    (h.title@, h.snippet@, h.url@)
}

fn group_text(g: &Vec<Option<String>>, i: usize) -> (r: String)
    ensures
        r@ == group(g@.map_values(|x: Option<String>| match x {
            Some(s) => Some(s@),
            None => None,
        }), i as int),
{
    if i < g.len() {
        match &g[i] {
            Some(s) => s.clone(),
            None => String::new(),
        }
    } else {
        String::new()
    }
}

fn snippet_after(after: &str) -> (r: String)
    ensures
        r@ == hit_snippet(after@),
{
    let rest = clip_bytes(after, 2000);
    match regex_captures_rest("<p[^>]*>(.*?)</p>", rest.as_str()) {
        Some(cs) => if cs.len() > 0 {
            let g = group_text(&cs[0].0, 1);
            let s = strip_html_tags(g.as_str());
            let t = trim_str(s.as_str());
            let h = take_n(t.as_slice(), 200);
            string_of(h.as_slice())
        } else {
            String::new()
        },
        None => String::new(),
    }
}

/// The hits of a result page: the title matches in page order, each made a
/// hit as `hit_of` says, until ten are found; `None` when the title
/// pattern does not compile.
pub fn sogou_hits(html: &str) -> (r: Option<Vec<SogouHit>>)
    ensures
        match captures_with_rest(title_pattern(), html@) {
            Some(caps) => r matches Some(v) && v@.map_values(|h: SogouHit| hit_view(h)) == hits_upto(
                caps,
                caps.len(),
            ),
            None => r is None,
        },
{
    let caps = match regex_captures_rest("<h3[^>]*>.*?<a[^>]+href=\"([^\"]+)\"[^>]*>(.*?)</a>.*?</h3>", html) {
        Some(c) => c,
        None => {
            return None;
        },
    };
    let ghost cv = caps@.map_values(|c: (Vec<Option<String>>, String)| capture_view(c));
    let mut out: Vec<SogouHit> = Vec::new();
    let mut i: usize = 0;
    while i < caps.len()
        invariant
            i <= caps@.len(),
            cv == caps@.map_values(|c: (Vec<Option<String>>, String)| capture_view(c)),
            out@.map_values(|h: SogouHit| hit_view(h)) == hits_upto(cv, i as nat),
        decreases caps@.len() - i,
    {
        if out.len() < MAX_SOGOU_HITS {
            let c = &caps[i];
            assert(cv[i as int] == capture_view(*c));
            let raw_title = group_text(&c.0, 2);
            let stripped = strip_html_tags(raw_title.as_str());
            let t = trim_str(stripped.as_str());
            if t.len() > 0 {
                let raw_url = group_text(&c.0, 1);
                let uv = chars_of(raw_url.as_str());
                let url = if starts_with_str(uv.as_slice(), "/link?") {
                    let mut u = "https://www.sogou.com".to_string();
                    push_str(&mut u, raw_url.as_str());
                    u
                } else {
                    raw_url
                };
                let snippet = snippet_after(c.1.as_str());
                let ghost before = out@;
                out.push(SogouHit { title: string_of(t.as_slice()), snippet, url });
                assert(out@.map_values(|h: SogouHit| hit_view(h)) =~= before.map_values(|h: SogouHit| hit_view(h)).push(
                    hit_of(cv[i as int])->0,
                ));
            }
        }
        i += 1;
    }
    Some(out)
}

// ───────────────────────── quick search for the chat ─────────────────────────

/// How many hits the chat's quick search keeps.
pub const QUICK_HITS: usize = 5;

pub open spec fn unmark(s: Seq<char>) -> Seq<char> {
    replace_all(replace_all(s, "<em>"@, ""@), "</em>"@, ""@)
}

/// The abstract of a result block: the text between the first `>` after
/// `strAbstract` and the next `</`, highlight tags removed, trimmed; empty
/// when any of these is missing.
pub open spec fn vr_snippet(block: Seq<char>) -> Seq<char> {
    match find(block, "strAbstract"@) {
        Some(a) => {
            let abs = block.skip(a);
            match find(abs, ">"@) {
                Some(s) => {
                    let rest = abs.skip(s + 1);
                    match find(rest, "</"@) {
                        Some(e) => trim(unmark(rest.take(e))),
                        None => Seq::empty(),
                    }
                },
                None => Seq::empty(),
            }
        },
        None => Seq::empty(),
    }
}

/// The hit of one result block (the text after a `vrTitle` marker): the
/// title between the first `>` and the next `</`, highlight and comment
/// marks removed, trimmed, with the block's abstract and no link; no hit
/// when the title is missing or empty.
pub open spec fn vr_hit(block: Seq<char>) -> Option<(Seq<char>, Seq<char>, Seq<char>)> {
    match find(block, ">"@) {
        Some(t) => {
            let after = block.skip(t + 1);
            match find(after, "</"@) {
                Some(e) => {
                    let title = trim(
                        replace_all(replace_all(unmark(after.take(e)), "<!--"@, ""@), "-->"@, ""@),
                    );
                    if title.len() == 0 {
                        None
                    } else {
                        Some((title, vr_snippet(block), Seq::empty()))
                    }
                },
                None => None,
            }
        },
        None => None,
    }
}

pub open spec fn vr_hits_of(blocks: Seq<Seq<char>>) -> Seq<(Seq<char>, Seq<char>, Seq<char>)>
    decreases blocks.len(),
{
    if blocks.len() == 0 {
        Seq::empty()
    } else {
        let prev = vr_hits_of(blocks.drop_last());
        match vr_hit(blocks.last()) {
            Some(h) => prev.push(h),
            None => prev,
        }
    }
}

/// The hits of a result page read by its `vrTitle` markers: the blocks
/// after the first five markers.
pub open spec fn vr_hits_spec(html: Seq<char>) -> Seq<(Seq<char>, Seq<char>, Seq<char>)> {
    let blocks = split_on(html, "vrTitle"@).skip(1);
    vr_hits_of(blocks.take(if blocks.len() < 5 { blocks.len() as int } else { 5 }))
}

fn find_text(s: &[char], p: &str) -> (r: Option<usize>)
    ensures
        r matches Some(k) ==> find(s@, p@) == Some(k as int) && 0 <= k && k + p@.len() <= s@.len(),
        r is None ==> find(s@, p@) is None,
{
    let pv = chars_of(p);
    proof {
        lemma_find_from_spec(s@, p@, 0);
    }
    find_chars(s, pv.as_slice())
}

fn unmark_chars(s: &[char]) -> (r: Vec<char>)
    ensures
        r@ == unmark(s@),
{
    proof {
        reveal_strlit("<em>");
        reveal_strlit("</em>");
    }
    let a = chars_of("<em>");
    let b = chars_of("</em>");
    let none = chars_of("");
    let x = replace_all_chars(s, a.as_slice(), none.as_slice());
    replace_all_chars(x.as_slice(), b.as_slice(), none.as_slice())
}

fn vr_snippet_of(block: &[char]) -> (r: Vec<char>)
    ensures
        r@ == vr_snippet(block@),
{
    proof {
        reveal_strlit(">");
    }
    match find_text(block, "strAbstract") {
        Some(a) => {
            let abs = slice_range(block, a, block.len());
            assert(abs@ =~= block@.skip(a as int));
            match find_text(abs.as_slice(), ">") {
                Some(s) => {
                    let rest = slice_range(abs.as_slice(), s + 1, abs.len());
                    assert(rest@ =~= abs@.skip(s + 1));
                    match find_text(rest.as_slice(), "</") {
                        Some(e) => {
                            let head = slice_range(rest.as_slice(), 0, e);
                            assert(head@ =~= rest@.take(e as int));
                            let u = unmark_chars(head.as_slice());
                            trim_chars(u.as_slice())
                        },
                        None => Vec::new(),
                    }
                },
                None => Vec::new(),
            }
        },
        None => Vec::new(),
    }
}

fn vr_hit_of(block: &[char]) -> (r: Option<SogouHit>)
    ensures
        match r {
            Some(h) => vr_hit(block@) == Some(hit_view(h)),
            None => vr_hit(block@) is None,
        },
{
    proof {
        reveal_strlit(">");
        reveal_strlit("<!--");
        reveal_strlit("-->");
    }
    let blen = block.len();
    match find_text(block, ">") {
        Some(t) => {
            let after = slice_range(block, t + 1, block.len());
            assert(after@ =~= block@.skip(t + 1));
            match find_text(after.as_slice(), "</") {
                Some(e) => {
                    let head = slice_range(after.as_slice(), 0, e);
                    assert(head@ =~= after@.take(e as int));
                    let u = unmark_chars(head.as_slice());
                    let c1 = chars_of("<!--");
                    let c2 = chars_of("-->");
                    let none = chars_of("");
                    let x = replace_all_chars(u.as_slice(), c1.as_slice(), none.as_slice());
                    let y = replace_all_chars(x.as_slice(), c2.as_slice(), none.as_slice());
                    let title = trim_chars(y.as_slice());
                    if title.len() == 0 {
                        None
                    } else {
                        let snippet = vr_snippet_of(block);
                        Some(
                            SogouHit {
                                title: string_of(title.as_slice()),
                                snippet: string_of(snippet.as_slice()),
                                url: String::new(),
                            },
                        )
                    }
                },
                None => None,
            }
        },
        None => None,
    }
}

/// The quick-search hits of a Sogou page (see `vr_hits_spec`).
pub fn vr_hits(html: &str) -> (r: Vec<SogouHit>)
    ensures
        r@.map_values(|h: SogouHit| hit_view(h)) == vr_hits_spec(html@),
{
    proof {
        reveal_strlit("vrTitle");
    }
    let v = chars_of(html);
    let marker = chars_of("vrTitle");
    let parts = split_chars(v.as_slice(), marker.as_slice());
    let ghost blocks = split_on(html@, "vrTitle"@).skip(1);
    let ghost limit: int = if blocks.len() < 5 { blocks.len() as int } else { 5 };
    let mut out: Vec<SogouHit> = Vec::new();
    let mut i: usize = 1;
    while i < parts.len() && i <= QUICK_HITS
        invariant
            parts.deep_view() == split_on(html@, "vrTitle"@),
            blocks == split_on(html@, "vrTitle"@).skip(1),
            limit == if blocks.len() < 5 { blocks.len() as int } else { 5 },
            1 <= i <= parts@.len() + 1,
            i <= QUICK_HITS + 1,
            parts@.len() >= 1 ==> i <= parts@.len(),
            out@.map_values(|h: SogouHit| hit_view(h)) == vr_hits_of(blocks.take(i - 1)),
        decreases parts@.len() + 1 - i,
    {
        assert(parts.deep_view()[i as int] == parts@[i as int]@);
        assert(blocks.take(i as int).drop_last() =~= blocks.take(i - 1));
        assert(blocks.take(i as int).last() == blocks[i - 1]);
        let ghost before = out@;
        match vr_hit_of(parts[i].as_slice()) {
            Some(h) => {
                out.push(h);
                assert(out@.map_values(|h: SogouHit| hit_view(h)) =~= before.map_values(|h: SogouHit| hit_view(h)).push(
                    vr_hit(blocks[i - 1])->0,
                ));
            },
            None => {},
        }
        i += 1;
    }
    proof {
        if parts@.len() == 0 {
            assert(blocks.len() == 0);
        }
        assert(blocks.take(i - 1) =~= blocks.take(limit));
    }
    out
}

/// Hits from a SerpAPI web search reply: the first five `organic_results`,
/// each with title, snippet and link (empty when absent).
pub open spec fn organic_hit(j: Json) -> (Seq<char>, Seq<char>, Seq<char>) {
    (
        str_or(get(Some(j), "title"@), ""@),
        str_or(get(Some(j), "snippet"@), ""@),
        str_or(get(Some(j), "link"@), ""@),
    )
}

pub fn organic_hits(reply: &Json) -> (r: Vec<SogouHit>)
    ensures
        match items_of(get(Some(*reply), "organic_results"@)) {
            Some(xs) => r@.len() == min_len(xs.len(), QUICK_HITS as nat) && forall|i: int|
                0 <= i < r@.len() ==> hit_view(#[trigger] r@[i]) == organic_hit(xs[i]),
            None => r@.len() == 0,
        },
{
    let mut out: Vec<SogouHit> = Vec::new();
    match array_items(get_member(Some(reply), "organic_results")) {
        Some(xs) => {
            let mut i: usize = 0;
            while i < xs.len() && i < QUICK_HITS
                invariant
                    i <= xs@.len(),
                    i <= QUICK_HITS,
                    out@.len() == i,
                    forall|k: int| 0 <= k < i ==> hit_view(#[trigger] out@[k]) == organic_hit(xs@[k]),
                decreases xs@.len() - i,
            {
                let j = &xs[i];
                out.push(
                    SogouHit {
                        title: text_or_empty(j, "title"),
                        snippet: text_or_empty(j, "snippet"),
                        url: text_or_empty(j, "link"),
                    },
                );
                i += 1;
            }
        },
        None => {},
    }
    out
}

fn text_or_empty(j: &Json, k: &str) -> (r: String)
    ensures
        r@ == str_or(get(Some(*j), k@), ""@),
{
    match string_value(get_member(Some(j), k)) {
        Some(s) => s,
        None => "".to_string(),
    }
}

pub open spec fn context_lines(hs: Seq<(Seq<char>, Seq<char>, Seq<char>)>) -> Seq<char>
    decreases hs.len(),
{
    if hs.len() == 0 {
        Seq::empty()
    } else {
        let h = hs.last();
        context_lines(hs.drop_last()) + decimal(hs.len()) + ". "@ + h.0 + "\n"@ + (if h.1.len() > 0 {
            "   "@ + h.1 + "\n"@
        } else {
            Seq::empty()
        }) + (if h.2.len() > 0 {
            "   "@ + h.2 + "\n"@
        } else {
            Seq::empty()
        })
    }
}

/// The search context handed to the chat: numbered titles, each followed
/// by its snippet and its link when present; `None` without hits.
pub open spec fn web_context_spec(hs: Seq<(Seq<char>, Seq<char>, Seq<char>)>) -> Option<Seq<char>> {
    if hs.len() == 0 {
        None
    } else {
        Some("【联网搜索结果】\n"@ + context_lines(hs))
    }
}

pub fn web_context(hits: &Vec<SogouHit>) -> (r: Option<String>)
    ensures
        match r {
            Some(c) => web_context_spec(hits@.map_values(|h: SogouHit| hit_view(h))) == Some(c@),
            None => web_context_spec(hits@.map_values(|h: SogouHit| hit_view(h))) is None,
        },
{
    let ghost hv = hits@.map_values(|h: SogouHit| hit_view(h));
    if hits.len() == 0 {
        return None;
    }
    let mut r = "【联网搜索结果】\n".to_string();
    let ghost base = r@;
    let mut i: usize = 0;
    while i < hits.len()
        invariant
            i <= hits@.len(),
            hv == hits@.map_values(|h: SogouHit| hit_view(h)),
            r@ == base + context_lines(hv.take(i as int)),
        decreases hits@.len() - i,
    {
        assert(hv.take(i + 1).drop_last() =~= hv.take(i as int));
        assert(hv.take(i + 1).last() == hit_view(hits@[i as int]));
        let h = &hits[i];
        let ghost before = r@;
        let n = decimal_string((i as u64) + 1);
        push_str(&mut r, n.as_str());
        push_str(&mut r, ". ");
        push_str(&mut r, h.title.as_str());
        push_str(&mut r, "\n");
        let ghost mid = r@;
        if !h.snippet.as_str().is_empty() {
            push_str(&mut r, "   ");
            push_str(&mut r, h.snippet.as_str());
            push_str(&mut r, "\n");
        } else {
            assert(r@ =~= mid + Seq::<char>::empty());
        }
        let ghost mid2 = r@;
        if !h.url.as_str().is_empty() {
            push_str(&mut r, "   ");
            push_str(&mut r, h.url.as_str());
            push_str(&mut r, "\n");
        } else {
            assert(r@ =~= mid2 + Seq::<char>::empty());
        }
        assert(r@ =~= base + context_lines(hv.take(i + 1)));
        i += 1;
    }
    assert(hv.take(hits@.len() as int) =~= hv);
    Some(r)
}


} // verus!
