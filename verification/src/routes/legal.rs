//! Legal status of a patent: the events read from each source, and the
//! line kept with the patent.
use crate::json::{array_items, first_of, get, get_member, items_of, str_of, string_value, Json};
use crate::patent::{LegalEvent, LegalStatusResult};
use crate::routes::patent_page::{current_status_spec, infer_current_status};
use crate::pipeline::steps::claims::str_or;
use crate::routes::search_text::{regex_replace_all, regex_replaced};
use crate::text::{
    char_is_ws, chars_of, count_where, find, find_chars, is_ws, join, lemma_find_from_spec, push_str, seq_eq, slice_range, starts_with, starts_with_str,
    string_of, trim, trim_chars,
};
use vstd::prelude::*;

verus! {

pub open spec fn event_view(e: LegalEvent) -> (Seq<char>, Seq<char>, Seq<char>) {
    (e.date@, e.title@, e.description@)
}

pub open spec fn events_view(v: Seq<LegalEvent>) -> Seq<(Seq<char>, Seq<char>, Seq<char>)> {
    v.map_values(|e: LegalEvent| event_view(e))
}

fn member_or_empty(j: &Json, k: &str) -> (r: String)
    ensures
        r@ == str_or(get(Some(*j), k@), ""@),
{
    match string_value(get_member(Some(j), k)) {
        Some(s) => s,
        None => "".to_string(),
    }
}

/// The event of one entry of `legal_events`: date, title and description
/// (empty when absent); none when the title is empty.
pub open spec fn google_event(j: Json) -> Option<(Seq<char>, Seq<char>, Seq<char>)> {
    let title = str_or(get(Some(j), "title"@), ""@);
    if title.len() == 0 {
        None
    } else {
        Some((str_or(get(Some(j), "date"@), ""@), title, str_or(get(Some(j), "description"@), ""@)))
    }
}

pub open spec fn google_events_of(xs: Seq<Json>) -> Seq<(Seq<char>, Seq<char>, Seq<char>)>
    decreases xs.len(),
{
    if xs.len() == 0 {
        Seq::empty()
    } else {
        match google_event(xs.last()) {
            Some(e) => google_events_of(xs.drop_last()).push(e),
            None => google_events_of(xs.drop_last()),
        }
    }
}

/// The events of a Google Patents details reply, in its order.
pub open spec fn google_events_spec(reply: Json) -> Seq<(Seq<char>, Seq<char>, Seq<char>)> {
    match items_of(get(Some(reply), "legal_events"@)) {
        Some(xs) => google_events_of(xs),
        None => Seq::empty(),
    }
}

pub fn google_legal_events(reply: &Json) -> (r: Vec<LegalEvent>)
    ensures
        events_view(r@) == google_events_spec(*reply),
{
    let mut out: Vec<LegalEvent> = Vec::new();
    match array_items(get_member(Some(reply), "legal_events")) {
        Some(xs) => {
            let mut i: usize = 0;
            while i < xs.len()
                invariant
                    i <= xs@.len(),
                    events_view(out@) == google_events_of(xs@.take(i as int)),
                decreases xs@.len() - i,
            {
                assert(xs@.take(i + 1).drop_last() =~= xs@.take(i as int));
                assert(xs@.take(i + 1).last() == xs@[i as int]);
                let e = &xs[i];
                let title = member_or_empty(e, "title");
                if !title.as_str().is_empty() {
                    let date = member_or_empty(e, "date");
                    let description = member_or_empty(e, "description");
                    let ghost before = out@;
                    out.push(LegalEvent { date, title, description });
                    assert(events_view(out@) =~= events_view(before).push(google_event(xs@[i as int])->0));
                }
                i += 1;
            }
            assert(xs@.take(xs@.len() as int) =~= xs@);
        },
        None => {
            assert(events_view(out@) =~= Seq::<(Seq<char>, Seq<char>, Seq<char>)>::empty());
        },
    }
    out
}

/// The events of a Lens.org reply: the patent status of its first record,
/// dated `now`, if it has one.
pub open spec fn lens_events_spec(reply: Json, now: Seq<char>) -> Seq<(Seq<char>, Seq<char>, Seq<char>)> {
    match str_of(get(get(first_of(get(Some(reply), "data"@)), "legal_status"@), "patent_status"@)) {
        Some(s) => seq![(now, s, Seq::empty())],
        None => Seq::empty(),
    }
}

pub fn lens_legal_events(reply: &Json, now: &str) -> (r: Vec<LegalEvent>)
    ensures
        events_view(r@) == lens_events_spec(*reply, now@),
{
    let mut out: Vec<LegalEvent> = Vec::new();
    let data = crate::json::item_at(get_member(Some(reply), "data"), 0);
    match string_value(get_member(get_member(data, "legal_status"), "patent_status")) {
        Some(s) => {
            out.push(LegalEvent { date: now.to_string(), title: s, description: String::new() });
        },
        None => {},
    }
    assert(events_view(out@) =~= lens_events_spec(*reply, now@));
    out
}

/// The status Lens.org gives: the title of its event, else 未知.
pub fn lens_status(events: &Vec<LegalEvent>) -> (r: String)
    ensures
        r@ == if events@.len() == 0 {
            "未知"@
        } else {
            events@[0].title@
        },
{
    if events.len() == 0 {
        "未知".to_string()
    } else {
        events[0].title.clone()
    }
}

// ───────────────────────── status words in a result page ─────────────────────────

/// How many status words are looked for.
pub const LEGAL_KEYWORDS: usize = 18;

/// The status words looked for in a result page, in order.
pub open spec fn legal_keyword_spec(i: int) -> Seq<char> {
    if i == 0 {
        "授权"@
    } else if i == 1 {
        "有效"@
    } else if i == 2 {
        "无效"@
    } else if i == 3 {
        "驳回"@
    } else if i == 4 {
        "撤回"@
    } else if i == 5 {
        "实审"@
    } else if i == 6 {
        "公开"@
    } else if i == 7 {
        "审查中"@
    } else if i == 8 {
        "失效"@
    } else if i == 9 {
        "届满"@
    } else if i == 10 {
        "缴费"@
    } else if i == 11 {
        "转让"@
    } else if i == 12 {
        "许可"@
    } else if i == 13 {
        "Grant"@
    } else if i == 14 {
        "Active"@
    } else if i == 15 {
        "Expired"@
    } else if i == 16 {
        "Rejected"@
    } else {
        "Withdrawn"@
    }
}

fn legal_keyword(i: usize) -> (r: &'static str)
    ensures
        r@ == legal_keyword_spec(i as int),
{
    if i == 0 {
        "授权"
    } else if i == 1 {
        "有效"
    } else if i == 2 {
        "无效"
    } else if i == 3 {
        "驳回"
    } else if i == 4 {
        "撤回"
    } else if i == 5 {
        "实审"
    } else if i == 6 {
        "公开"
    } else if i == 7 {
        "审查中"
    } else if i == 8 {
        "失效"
    } else if i == 9 {
        "届满"
    } else if i == 10 {
        "缴费"
    } else if i == 11 {
        "转让"
    } else if i == 12 {
        "许可"
    } else if i == 13 {
        "Grant"
    } else if i == 14 {
        "Active"
    } else if i == 15 {
        "Expired"
    } else if i == 16 {
        "Rejected"
    } else {
        "Withdrawn"
    }
}

pub open spec fn is_han(c: char) -> bool {
    '\u{4e00}' <= c && c <= '\u{9fff}'
}

/// The text around position `p` of `clean`: from 30 characters before it
/// to 30 after it (within the text), trimmed.
pub open spec fn around(clean: Seq<char>, p: int) -> Seq<char> {
    let lo = if p >= 30 { p - 30 } else { 0 };
    let hi = if p + 30 < clean.len() - 1 { p + 30 } else { clean.len() - 1 };
    trim(clean.subrange(lo, hi + 1))
}

/// Whether a context is mostly not Chinese: fewer than 30% of its
/// non-space characters are CJK ideographs.
pub open spec fn mostly_foreign(ctx: Seq<char>) -> bool {
    let solid = count_where(ctx, |c: char| !is_ws(c));
    let han = count_where(ctx, |c: char| is_han(c));
    solid > 0 && 10 * han < 3 * solid
}

/// The event for the status word `kw`: the word and the text around its
/// first occurrence, unless it is absent or the text is mostly not
/// Chinese.
pub open spec fn keyword_event(clean: Seq<char>, kw: Seq<char>) -> Option<(Seq<char>, Seq<char>)> {
    match find(clean, kw) {
        Some(p) => if mostly_foreign(around(clean, p)) {
            None
        } else {
            Some((kw, around(clean, p)))
        },
        None => None,
    }
}

pub open spec fn keyword_events_upto(clean: Seq<char>, now: Seq<char>, n: nat) -> Seq<(Seq<char>, Seq<char>, Seq<char>)>
    decreases n,
{
    if n == 0 {
        Seq::empty()
    } else {
        let prev = keyword_events_upto(clean, now, (n - 1) as nat);
        match keyword_event(clean, legal_keyword_spec(n - 1)) {
            Some((t, d)) => prev.push((now, t, d)),
            None => prev,
        }
    }
}

fn counts(ctx: &Vec<char>) -> (r: (u64, u64))
    ensures
        r.0 == count_where(ctx@, |c: char| !is_ws(c)),
        r.1 == count_where(ctx@, |c: char| is_han(c)),
{
    let mut solid: u64 = 0;
    let mut han: u64 = 0;
    let mut i: usize = 0;
    while i < ctx.len()
        invariant
            i <= ctx@.len(),
            solid == count_where(ctx@.take(i as int), |c: char| !is_ws(c)),
            han == count_where(ctx@.take(i as int), |c: char| is_han(c)),
            solid <= i,
            han <= i,
        decreases ctx@.len() - i,
    {
        assert(ctx@.take(i + 1).drop_last() =~= ctx@.take(i as int));
        assert(ctx@.take(i + 1).last() == ctx@[i as int]);
        let c = ctx[i];
        if !char_is_ws(c) {
            solid = solid + 1;
        }
        if '\u{4e00}' <= c && c <= '\u{9fff}' {
            han = han + 1;
        }
        i += 1;
    }
    assert(ctx@.take(ctx@.len() as int) =~= ctx@);
    (solid, han)
}

/// The status events of a cleaned result page, dated `now`: one for each
/// status word found, in the order of the words.
pub fn keyword_events(clean: &str, now: &str) -> (r: Vec<LegalEvent>)
    ensures
        events_view(r@) == keyword_events_upto(clean@, now@, LEGAL_KEYWORDS as nat),
{
    let v = chars_of(clean);
    let n = v.len();
    let mut out: Vec<LegalEvent> = Vec::new();
    let mut i: usize = 0;
    while i < LEGAL_KEYWORDS
        invariant
            i <= LEGAL_KEYWORDS,
            v@ == clean@,
            n == v@.len(),
            events_view(out@) == keyword_events_upto(clean@, now@, i as nat),
        decreases LEGAL_KEYWORDS - i,
    {
        let kw = legal_keyword(i);
        let kv = chars_of(kw);
        proof {
            lemma_find_from_spec(v@, kv@, 0);
        }
        match find_chars(v.as_slice(), kv.as_slice()) {
            Some(p) => {
                assert(p < n || kv@.len() == 0);
                if n > 0 {
                    let lo: usize = if p >= 30 {
                        p - 30
                    } else {
                        0
                    };
                    let hi: usize = if p < n - 1 && n - 1 - p > 30 {
                        p + 30
                    } else {
                        n - 1
                    };
                    let seg = slice_range(v.as_slice(), lo, hi + 1);
                    let ctx = trim_chars(seg.as_slice());
                    proof {
                        let q = p as int;
                        let ghost hs: int = if q + 30 < n - 1 { q + 30 } else { n - 1 };
                        assert(hi == hs);
                        assert(ctx@ == around(clean@, q));
                    }
                    let (solid, han) = counts(&ctx);
                    if !(solid > 0 && 10 * (han as u128) < 3 * (solid as u128)) {
                        let ghost before = out@;
                        out.push(LegalEvent { date: now.to_string(), title: kw.to_string(), description: string_of(ctx.as_slice()) });
                        assert(events_view(out@) =~= events_view(before).push((now@, kw@, ctx@)));
                    }
                } else {
                    proof {
                        assert(false) by {
                            lemma_keyword_nonempty(i as int);
                        }
                    }
                }
            },
            None => {},
        }
        i += 1;
    }
    out
}

proof fn lemma_keyword_nonempty(i: int)
    ensures
        legal_keyword_spec(i).len() > 0,
{
    reveal_strlit("授权");
    reveal_strlit("有效");
    reveal_strlit("无效");
    reveal_strlit("驳回");
    reveal_strlit("撤回");
    reveal_strlit("实审");
    reveal_strlit("公开");
    reveal_strlit("审查中");
    reveal_strlit("失效");
    reveal_strlit("届满");
    reveal_strlit("缴费");
    reveal_strlit("转让");
    reveal_strlit("许可");
    reveal_strlit("Grant");
    reveal_strlit("Active");
    reveal_strlit("Expired");
    reveal_strlit("Rejected");
    reveal_strlit("Withdrawn");
}

pub open spec fn script_pattern() -> Seq<char> {
    "(?is)<script[^>]*>.*?</script>"@
}

pub open spec fn style_pattern() -> Seq<char> {
    "(?is)<style[^>]*>.*?</style>"@
}

/// The text of a result page: scripts, then styles, then every tag
/// replaced by a space; `None` when a pattern does not compile.
pub open spec fn page_text_spec(html: Seq<char>) -> Option<Seq<char>> {
    match regex_replaced(script_pattern(), html, " "@) {
        Some(a) => match regex_replaced(style_pattern(), a, " "@) {
            Some(b) => regex_replaced("<[^>]+>"@, b, " "@),
            None => None,
        },
        None => None,
    }
}

pub fn page_text(html: &str) -> (r: Option<String>)
    ensures
        match r {
            Some(t) => page_text_spec(html@) == Some(t@),
            None => page_text_spec(html@) is None,
        },
{
    let a = regex_replace_all("(?is)<script[^>]*>.*?</script>", html, " ")?;
    let b = regex_replace_all("(?is)<style[^>]*>.*?</style>", a.as_str(), " ")?;
    regex_replace_all("<[^>]+>", b.as_str(), " ")
}

/// The line kept with a patent: its first five events as `title (date)`,
/// separated by `; `.
pub open spec fn status_line_spec(events: Seq<LegalEvent>) -> Seq<char> {
    join(
        events.take(if events.len() < 5 { events.len() as int } else { 5 }).map_values(
            |e: LegalEvent| e.title@ + " ("@ + e.date@ + ")"@,
        ),
        "; "@,
    )
}

pub fn status_line(events: &Vec<LegalEvent>) -> (r: String)
    ensures
        r@ == status_line_spec(events@),
{
    let limit: usize = if events.len() < 5 {
        events.len()
    } else {
        5
    };
    let ghost parts = events@.take(limit as int).map_values(|e: LegalEvent| e.title@ + " ("@ + e.date@ + ")"@);
    let mut lines: Vec<String> = Vec::new();
    let mut i: usize = 0;
    while i < limit
        invariant
            i <= limit <= events@.len(),
            parts == events@.take(limit as int).map_values(|e: LegalEvent| e.title@ + " ("@ + e.date@ + ")"@),
            lines.deep_view() =~= parts.take(i as int),
        decreases limit - i,
    {
        let e = &events[i];
        let mut s = e.title.clone();
        push_str(&mut s, " (");
        push_str(&mut s, e.date.as_str());
        push_str(&mut s, ")");
        let ghost before = lines.deep_view();
        lines.push(s);
        assert(lines.deep_view() =~= before.push(parts[i as int]));
        i += 1;
    }
    assert(parts.take(limit as int) =~= parts);
    let sep = chars_of("; ");
    let v = crate::pipeline::steps::contradiction::join_strings(&lines, sep.as_slice());
    string_of(v.as_slice())
}


// ───────────────────────── the lookup chain ─────────────────────────

/// The sources of legal status, asked in this order.
#[derive(Debug, Clone, Copy, PartialEq, Eq, Structural)]
pub enum LegalSource {
    GooglePatents,
    Lens,
    Sogou,
}

impl LegalSource {
    /// The name the result carries.
    pub fn name(&self) -> (r: &'static str)
        ensures
            r@ == match self {
                LegalSource::GooglePatents => "google_patents"@,
                LegalSource::Lens => "lens"@,
                LegalSource::Sogou => "sogou"@,
            },
    {
        match self {
            LegalSource::GooglePatents => "google_patents",
            LegalSource::Lens => "lens",
            LegalSource::Sogou => "sogou",
        }
    }
}

/// What the lookup does after asking a source.
#[derive(Debug, Clone, Copy, PartialEq, Eq, Structural)]
pub enum LegalStep {
    /// Keep the answer of the source just asked.
    Accept,
    /// Ask this source next.
    Ask(LegalSource),
    /// Every source failed or found nothing: the status is unknown.
    Unknown,
}

/// The step after asking `asked`: an answer with events is kept; a failure
/// (`None`) or an answer without events passes on to the next source, and
/// after the last one the status is unknown.
pub open spec fn legal_step_spec(asked: LegalSource, found: Option<nat>) -> LegalStep {
    match found {
        Some(n) if n > 0 => LegalStep::Accept,
        _ => match asked {
            LegalSource::GooglePatents => LegalStep::Ask(LegalSource::Lens),
            LegalSource::Lens => LegalStep::Ask(LegalSource::Sogou),
            LegalSource::Sogou => LegalStep::Unknown,
        },
    }
}

/// Decides the next step of the lookup; `found` is the answer of the
/// source asked, `None` when the request failed.
pub fn legal_step(asked: LegalSource, found: Option<&LegalStatusResult>) -> (r: LegalStep)
    ensures
        r == legal_step_spec(asked, match found {
            Some(res) => Some(res.events@.len()),
            None => None,
        }),
{
    match found {
        Some(res) if res.events.len() > 0 => LegalStep::Accept,
        _ => match asked {
            LegalSource::GooglePatents => LegalStep::Ask(LegalSource::Lens),
            LegalSource::Lens => LegalStep::Ask(LegalSource::Sogou),
            LegalSource::Sogou => LegalStep::Unknown,
        },
    }
}

/// Law: the lookup asks each source at most once, in the fixed order, and
/// ends after at most three answers.
pub proof fn lemma_legal_chain_ends(a: Option<nat>, b: Option<nat>, c: Option<nat>)
    ensures
        legal_step_spec(LegalSource::GooglePatents, a) is Accept
            || legal_step_spec(LegalSource::GooglePatents, a) == LegalStep::Ask(LegalSource::Lens),
        legal_step_spec(LegalSource::Lens, b) is Accept
            || legal_step_spec(LegalSource::Lens, b) == LegalStep::Ask(LegalSource::Sogou),
        legal_step_spec(LegalSource::Sogou, c) is Accept || legal_step_spec(LegalSource::Sogou, c) is Unknown,
{
}

/// The answer of one source: its events, with the status Lens.org states
/// or the status inferred from the events for the other sources.
pub fn legal_result(number: &str, source: LegalSource, events: Vec<LegalEvent>, now: String) -> (r: LegalStatusResult)
    ensures
        r.patent_number@ == number@,
        r.events@ == events@,
        r.source@ == match source {
            LegalSource::GooglePatents => "google_patents"@,
            LegalSource::Lens => "lens"@,
            LegalSource::Sogou => "sogou"@,
        },
        r.updated_at@ == now@,
        r.current_status@ == match source {
            LegalSource::Lens => if events@.len() == 0 { "未知"@ } else { events@[0].title@ },
            _ => current_status_spec(events@),
        },
{
    let status = match source {
        LegalSource::Lens => lens_status(&events),
        _ => infer_current_status(events.as_slice()),
    };
    LegalStatusResult {
        patent_number: number.to_string(),
        current_status: status,
        events,
        source: source.name().to_string(),
        updated_at: now,
    }
}

/// The answer when no source knows the patent: status 未知, no events,
/// source `none`.
pub fn unknown_legal_status(number: &str, now: String) -> (r: LegalStatusResult)
    ensures
        r.patent_number@ == number@,
        r.current_status@ == "未知"@,
        r.events@.len() == 0,
        r.source@ == "none"@,
        r.updated_at@ == now@,
{
    LegalStatusResult {
        patent_number: number.to_string(),
        current_status: "未知".to_string(),
        events: Vec::new(),
        source: "none".to_string(),
        updated_at: now,
    }
}

// ───────────────────────── the image proxy ─────────────────────────

/// The host of an `https://` address: what follows the scheme up to the
/// first `/`.
pub open spec fn https_host(url: Seq<char>) -> Option<Seq<char>> {
    if starts_with(url, "https://"@) {
        let rest = url.skip(8);
        match find(rest, "/"@) {
            Some(k) => Some(rest.take(k)),
            None => Some(rest),
        }
    } else {
        None
    }
}

/// The image hosts the proxy fetches from.
pub open spec fn image_host_allowed(h: Seq<char>) -> bool {
    h == "patentimages.storage.googleapis.com"@ || h == "worldwide.espacenet.com"@
        || h == "image.patent.k.sogou.com"@
}

/// Whether the proxy may fetch `url`: an `https://` address on one of the
/// patent image hosts.
pub fn image_proxy_allowed(url: &str) -> (r: bool)
    ensures
        r == match https_host(url@) {
            Some(h) => image_host_allowed(h),
            None => false,
        },
{
    proof {
        reveal_strlit("https://");
    }
    let u = chars_of(url);
    if !starts_with_str(u.as_slice(), "https://") {
        return false;
    }
    let rest = slice_range(u.as_slice(), 8, u.len());
    assert(rest@ =~= u@.skip(8));
    let slash = chars_of("/");
    let host = match find_chars(rest.as_slice(), slash.as_slice()) {
        Some(k) => {
            proof {
                lemma_find_from_spec(rest@, slash@, 0);
            }
            slice_range(rest.as_slice(), 0, k)
        },
        None => rest.clone(),
    };
    let a = chars_of("patentimages.storage.googleapis.com");
    let b = chars_of("worldwide.espacenet.com");
    let c = chars_of("image.patent.k.sogou.com");
    seq_eq(host.as_slice(), a.as_slice()) || seq_eq(host.as_slice(), b.as_slice()) || seq_eq(host.as_slice(), c.as_slice())
}


/// The web search that finds the legal status of a patent.
pub fn legal_query(number: &str) -> (r: String)
    ensures
        r@ == number@ + " 法律状态 专利"@,
{
    let mut r = number.to_string();
    push_str(&mut r, " 法律状态 专利");
    r
}

} // verus!
