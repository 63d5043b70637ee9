//! Decisions of the online patent search: the region a query targets, the
//! request URLs of each source, and which web results are kept as patents.
use crate::db::search::{all_digits_or_dots, count_digits, digit_count};
use crate::routes::escape::hex_digit;
use crate::routes::query::opt_view;
use crate::routes::search_text::{
    clean_html_tags, clean_tags_spec, cn_number_spec, extract_cn_patent_number,
};
use crate::db::relevance::{normalize, normalized};
use crate::text::{
    byte_len, byte_len_le, find, find_chars, has_char, lemma_find_from_spec, seq_eq, slice_range,
    string_of, take_chars, take_n, words, words_of,
    chars_of, contains, contains_chars, contains_str, decimal, decimal_string, is_digit, push_str,
    remove_char, replace_char_chars, starts_with, starts_with_str, trim, trim_str,
};
use vstd::prelude::*;
use vstd::utf8::encode_utf8;

verus! {

// ───────────────────────── percent-encoding ─────────────────────────

/// Bytes that `urlencoding::encode` leaves as they are.
pub open spec fn percent_safe(b: u8) -> bool {
    (48 <= b && b <= 57) || (65 <= b && b <= 90) || (97 <= b && b <= 122) || b == 45 || b == 46
        || b == 95 || b == 126
}

pub open spec fn percent_byte(b: u8) -> Seq<char> {
    if percent_safe(b) {
        seq![b as char]
    } else {
        seq!['%', hex_digit(b / 16), hex_digit(b % 16)]
    }
}

/// Percent-encoding of a byte string.
pub open spec fn percent_bytes(bytes: Seq<u8>) -> Seq<char>
    decreases bytes.len(),
{
    if bytes.len() == 0 {
        Seq::empty()
    } else {
        percent_bytes(bytes.drop_last()) + percent_byte(bytes.last())
    }
}

/// Percent-encoding of the UTF-8 form of a text.
pub open spec fn url_component(s: Seq<char>) -> Seq<char> {
    percent_bytes(encode_utf8(s))
}

/// `urlencoding::encode`: every byte of the UTF-8 text becomes `%XX`
/// (upper-case hexadecimal) except ASCII letters, digits, `-`, `.`, `_`
/// and `~`, which stay as they are.
#[verifier::external_body]
pub(crate) fn percent_encode(s: &str) -> (r: String)
    ensures
        r@ == url_component(s@),
{
    urlencoding::encode(s).into_owned()
}

// ───────────────────────── region ─────────────────────────

/// A CJK unified ideograph (U+4E00 to U+9FFF).
pub open spec fn is_cjk(c: char) -> bool {
    '\u{4e00}' <= c && c <= '\u{9fff}'
}

/// Ten to fifteen digits and nothing but digits and dots: a Chinese
/// application number.
pub open spec fn cn_application_like(q: Seq<char>) -> bool {
    10 <= digit_count(q) && digit_count(q) <= 15 && forall|i: int|
        0 <= i < q.len() ==> is_digit(#[trigger] q[i]) || q[i] == '.'
}

/// Whether a trimmed query looks Chinese: country `CN` asked for, a `CN` or
/// `ZL` prefix, an application number, or a CJK character.
pub open spec fn auto_cn_spec(q: Seq<char>, country: Option<Seq<char>>) -> bool {
    country == Some("CN"@) || starts_with(q, "CN"@) || starts_with(q, "ZL"@) || cn_application_like(
        q,
    ) || exists|i: int| 0 <= i < q.len() && is_cjk(#[trigger] q[i])
}

/// `(domestic, international)`: an explicit region `cn` or `intl` decides,
/// else the query's look.
pub open spec fn region_spec(
    query: Seq<char>,
    country: Option<Seq<char>>,
    region: Option<Seq<char>>,
) -> (bool, bool) {
    let auto = auto_cn_spec(trim(query), country);
    if region == Some("cn"@) {
        (true, false)
    } else if region == Some("intl"@) {
        (false, true)
    } else {
        (auto, !auto)
    }
}

/// Whether an optional text is the literal `lit`.
pub fn opt_is(o: Option<&str>, lit: &str) -> (r: bool)
    ensures
        r == (opt_view(o) == Some(lit@)),
{
    match o {
        Some(s) => {
            let v = chars_of(s);
            crate::routes::query::eq_lit(&v, lit)
        },
        None => false,
    }
}

fn has_cjk(q: &[char]) -> (r: bool)
    ensures
        r == exists|i: int| 0 <= i < q@.len() && is_cjk(#[trigger] q@[i]),
{
    let mut i: usize = 0;
    while i < q.len()
        invariant
            i <= q.len(),
            forall|k: int| 0 <= k < i ==> !is_cjk(#[trigger] q@[k]),
        decreases q.len() - i,
    {
        if '\u{4e00}' <= q[i] && q[i] <= '\u{9fff}' {
            return true;
        }
        i += 1;
    }
    false
}

/// Which patent offices an online search should ask: `(domestic,
/// international)`.
pub fn resolve_region(query: &str, country: Option<&str>, region: Option<&str>) -> (r: (
    bool,
    bool,
))
    ensures
        r == region_spec(query@, opt_view(country), opt_view(region)),
{
    if opt_is(region, "cn") {
        return (true, false);
    }
    if opt_is(region, "intl") {
        return (false, true);
    }
    let q = trim_str(query);
    let d = count_digits(q.as_slice());
    let app_like = 10 <= d && d <= 15 && all_digits_or_dots(q.as_slice());
    let auto = opt_is(country, "CN") || starts_with_str(q.as_slice(), "CN") || starts_with_str(
        q.as_slice(),
        "ZL",
    ) || app_like || has_cjk(q.as_slice());
    (auto, !auto)
}

// ───────────────────────── request URLs ─────────────────────────

/// `&country=<c>` for a non-empty country.
pub open spec fn country_param(country: Option<Seq<char>>) -> Seq<char> {
    match country {
        Some(c) => if c.len() > 0 {
            "&country="@ + c
        } else {
            Seq::empty()
        },
        None => Seq::empty(),
    }
}

/// `&sort=new` or `&sort=old` when that order is asked for.
pub open spec fn sort_param(sort_by: Option<Seq<char>>) -> Seq<char> {
    if sort_by == Some("new"@) {
        "&sort=new"@
    } else if sort_by == Some("old"@) {
        "&sort=old"@
    } else {
        Seq::empty()
    }
}

/// Pages count from 1; page 0 asks for the first.
pub open spec fn serp_page(page: nat) -> nat {
    if page < 1 {
        1
    } else {
        page
    }
}

/// The SerpAPI Google Patents request for a built query.
pub open spec fn serpapi_patents_url_spec(
    search_query: Seq<char>,
    page: nat,
    country: Option<Seq<char>>,
    sort_by: Option<Seq<char>>,
    domestic: bool,
    api_key: Seq<char>,
) -> Seq<char> {
    "https://serpapi.com/search.json?engine=google_patents&q="@ + url_component(search_query)
        + "&page="@ + decimal(serp_page(page)) + country_param(country) + sort_param(sort_by) + (
    if domestic {
        "&hl=zh-cn"@
    } else {
        Seq::empty()
    }) + "&api_key="@ + api_key
}

fn push_opt_param(out: &mut String, o: Option<&str>, prefix: &str)
    ensures
        final(out)@ == old(out)@ + match opt_view(o) {
            Some(c) => if c.len() > 0 {
                prefix@ + c
            } else {
                Seq::empty()
            },
            None => Seq::empty(),
        },
{
    match o {
        Some(c) => {
            let v = chars_of(c);
            if v.len() > 0 {
                push_str(out, prefix);
                push_str(out, c);
            } else {
                assert(old(out)@ + Seq::<char>::empty() =~= old(out)@);
            }
        },
        None => {
            assert(old(out)@ + Seq::<char>::empty() =~= old(out)@);
        },
    }
}

/// Builds the SerpAPI Google Patents URL: the encoded query, the page (at
/// least 1), the optional country and sort order, Chinese results for a
/// domestic search, and the key.
pub fn serpapi_patents_url(
    search_query: &str,
    page: usize,
    country: Option<&str>,
    sort_by: Option<&str>,
    domestic: bool,
    api_key: &str,
) -> (r: String)
    ensures
        r@ == serpapi_patents_url_spec(
            search_query@,
            page as nat,
            opt_view(country),
            opt_view(sort_by),
            domestic,
            api_key@,
        ),
{
    let mut out = String::new();
    push_str(&mut out, "https://serpapi.com/search.json?engine=google_patents&q=");
    let enc = percent_encode(search_query);
    push_str(&mut out, enc.as_str());
    push_str(&mut out, "&page=");
    let p: u64 = if page < 1 {
        1
    } else {
        page as u64
    };
    let ps = decimal_string(p);
    push_str(&mut out, ps.as_str());
    push_opt_param(&mut out, country, "&country=");
    let ghost before_sort = out@;
    if opt_is(sort_by, "new") {
        push_str(&mut out, "&sort=new");
    } else if opt_is(sort_by, "old") {
        push_str(&mut out, "&sort=old");
    } else {
        assert(out@ =~= before_sort + sort_param(opt_view(sort_by)));
    }
    let ghost before_lang = out@;
    if domestic {
        push_str(&mut out, "&hl=zh-cn");
    } else {
        assert(out@ =~= before_lang + Seq::<char>::empty());
    }
    push_str(&mut out, "&api_key=");
    push_str(&mut out, api_key);
    out
}

/// The SerpAPI Baidu request for `<query> 专利`, twenty results.
pub open spec fn baidu_url_spec(query: Seq<char>, api_key: Seq<char>) -> Seq<char> {
    "https://serpapi.com/search.json?engine=baidu&q="@ + url_component(query + " 专利"@)
        + "&api_key="@ + api_key + "&rn=20"@
}

pub fn baidu_url(query: &str, api_key: &str) -> (r: String)
    ensures
        r@ == baidu_url_spec(query@, api_key@),
{
    let mut q = String::from_str(query);
    push_str(&mut q, " 专利");
    let mut out = String::new();
    push_str(&mut out, "https://serpapi.com/search.json?engine=baidu&q=");
    let enc = percent_encode(q.as_str());
    push_str(&mut out, enc.as_str());
    push_str(&mut out, "&api_key=");
    push_str(&mut out, api_key);
    push_str(&mut out, "&rn=20");
    out
}

/// The Google Patents page suggested when no source found anything.
pub open spec fn google_search_url_spec(query: Seq<char>) -> Seq<char> {
    "https://patents.google.com/?q="@ + url_component(query) + "&oq="@ + url_component(query)
}

pub fn google_search_url(query: &str) -> (r: String)
    ensures
        r@ == google_search_url_spec(query@),
{
    let enc = percent_encode(query);
    let mut out = String::new();
    push_str(&mut out, "https://patents.google.com/?q=");
    push_str(&mut out, enc.as_str());
    push_str(&mut out, "&oq=");
    push_str(&mut out, enc.as_str());
    out
}

/// The free Google Patents query endpoint: the query with ` country:<c>`
/// for a non-empty country, ten results, pages counted from 0.
pub open spec fn google_direct_url_spec(
    search_query: Seq<char>,
    country: Option<Seq<char>>,
    page: nat,
) -> Seq<char> {
    let full = search_query + match country {
        Some(c) => if c.len() > 0 {
            " country:"@ + c
        } else {
            Seq::empty()
        },
        None => Seq::empty(),
    };
    "https://patents.google.com/xhr/query?url=q%3D"@ + url_component(full) + "&exp=&num=10&page="@
        + decimal(if page >= 1 {
        (page - 1) as nat
    } else {
        0
    })
}

pub fn google_direct_url(search_query: &str, country: Option<&str>, page: usize) -> (r: String)
    ensures
        r@ == google_direct_url_spec(search_query@, opt_view(country), page as nat),
{
    let mut full = String::from_str(search_query);
    push_opt_param(&mut full, country, " country:");
    let mut out = String::new();
    push_str(&mut out, "https://patents.google.com/xhr/query?url=q%3D");
    let enc = percent_encode(full.as_str());
    push_str(&mut out, enc.as_str());
    push_str(&mut out, "&exp=&num=10&page=");
    let p: u64 = if page >= 1 {
        (page - 1) as u64
    } else {
        0
    };
    let ps = decimal_string(p);
    push_str(&mut out, ps.as_str());
    out
}

/// Whether a SerpAPI key is set and is not the sample placeholder.
pub open spec fn serpapi_usable_spec(key: Seq<char>) -> bool {
    key.len() > 0 && key != "your-serpapi-key-here"@
}

pub fn serpapi_usable(key: &str) -> (r: bool)
    ensures
        r == serpapi_usable_spec(key@),
{
    let v = chars_of(key);
    v.len() > 0 && !crate::routes::query::eq_lit(&v, "your-serpapi-key-here")
}

/// The notice shown with results of the free Sogou search.
pub open spec fn sogou_hint_spec(domestic: bool, has_cnipr: bool) -> Seq<char> {
    if domestic && has_cnipr {
        "CNIPR 国知局授权已失效，当前降级为搜狗搜索。请到 open.cnipr.com 检查应用授权。"@
    } else if domestic {
        "未配置 CNIPR 国知局。到「设置」配置可获得更完整的中国专利搜索。"@
    } else {
        "当前使用搜狗免费搜索。到「设置」配置 SerpAPI Key 可获得更专业的专利搜索。"@
    }
}

pub fn sogou_hint(domestic: bool, has_cnipr: bool) -> (r: String)
    ensures
        r@ == sogou_hint_spec(domestic, has_cnipr),
{
    if domestic && has_cnipr {
        String::from_str(
            "CNIPR 国知局授权已失效，当前降级为搜狗搜索。请到 open.cnipr.com 检查应用授权。",
        )
    } else if domestic {
        String::from_str("未配置 CNIPR 国知局。到「设置」配置可获得更完整的中国专利搜索。")
    } else {
        String::from_str("当前使用搜狗免费搜索。到「设置」配置 SerpAPI Key 可获得更专业的专利搜索。")
    }
}

// ───────────────────────── web results ─────────────────────────

/// One organic result of a web search.
pub struct WebHit {
    pub title: String,
    pub snippet: String,
    pub link: String,
}

/// Sites whose pages are taken for patent pages.
pub open spec fn patent_domains() -> Seq<Seq<char>> {
    seq![
        "tianyancha.com"@,
        "soopat.com"@,
        "patents.google.com"@,
        "cnipa.gov.cn"@,
        "baiten.cn"@,
        "patent9.com"@,
        "xueshu.baidu.com"@,
        "epub.cnipa.gov.cn"@,
        "pss-system.cponline.cnipa.gov.cn"@,
        "zhuanli."@,
        "patent"@,
    ]
}

/// The query without `.` and `-` (an application number as sites print it).
pub open spec fn query_clean(q: Seq<char>) -> Seq<char> {
    remove_char(remove_char(q, '.'), '-')
}

/// A result is kept when its link is on a patent site, when its text holds
/// the query (as typed or cleaned), or when its title says patent.
pub open spec fn hit_kept(h: WebHit, q: Seq<char>) -> bool {
    let all = h.link@ + " "@ + h.title@ + " "@ + h.snippet@;
    (exists|i: int| 0 <= i < patent_domains().len() && contains(h.link@, #[trigger] patent_domains()[i]))
        || contains(all, q) || contains(all, query_clean(q)) || contains(h.title@, "专利"@)
        || contains(h.title@, "patent"@)
}

/// Whether the text of a result holds the query exactly.
pub open spec fn hit_exact(h: WebHit, q: Seq<char>) -> bool {
    let all = h.title@ + " "@ + h.snippet@ + " "@ + h.link@;
    contains(all, q) || contains(all, query_clean(q))
}

/// Indices below `n` of the kept results, in order.
pub open spec fn kept_indices(hs: Seq<WebHit>, q: Seq<char>, n: int) -> Seq<usize>
    decreases n,
{
    if n <= 0 {
        Seq::empty()
    } else {
        let r = kept_indices(hs, q, n - 1);
        if hit_kept(hs[n - 1], q) {
            r.push((n - 1) as usize)
        } else {
            r
        }
    }
}

/// The results used: the kept ones, or all when none is kept; at most 15.
pub open spec fn pool_indices(hs: Seq<WebHit>, q: Seq<char>) -> Seq<usize> {
    let k = kept_indices(hs, q, hs.len() as int);
    let s = if k.len() == 0 {
        Seq::new(hs.len(), |i: int| i as usize)
    } else {
        k
    };
    if s.len() > 15 {
        s.take(15)
    } else {
        s
    }
}

/// The indices of `idx` whose result is (or is not) an exact match.
pub open spec fn exact_indices(hs: Seq<WebHit>, q: Seq<char>, idx: Seq<usize>, exact: bool) -> Seq<
    usize,
>
    decreases idx.len(),
{
    if idx.len() == 0 {
        Seq::empty()
    } else {
        let r = exact_indices(hs, q, idx.drop_last(), exact);
        if hit_exact(hs[idx.last() as int], q) == exact {
            r.push(idx.last())
        } else {
            r
        }
    }
}

/// The order of the results: exact matches first, each group in its order.
pub open spec fn baidu_order(hs: Seq<WebHit>, q: Seq<char>) -> Seq<usize> {
    let p = pool_indices(hs, q);
    exact_indices(hs, q, p, true) + exact_indices(hs, q, p, false)
}

/// A web result read as a patent.
pub struct WebPatent {
    pub patent_number: String,
    pub title: String,
    pub abstract_text: String,
    pub exact_match: bool,
}

/// `b` is what the result `h` turns into.
pub open spec fn web_patent_of(b: WebPatent, h: WebHit, q: Seq<char>) -> bool {
    &&& b.patent_number@ == cn_number_spec(h.title@, h.snippet@, h.link@)
    &&& b.title@ == clean_tags_spec(h.title@)
    &&& b.abstract_text@ == clean_tags_spec(h.snippet@)
    &&& b.exact_match == hit_exact(h, q)
}

fn on_patent_site(link: &[char]) -> (r: bool)
    ensures
        r == exists|i: int|
            0 <= i < patent_domains().len() && contains(link@, #[trigger] patent_domains()[i]),
{
    let ghost d = patent_domains();
    let mut i: usize = 0;
    let names: [&str; 11] = [
        "tianyancha.com",
        "soopat.com",
        "patents.google.com",
        "cnipa.gov.cn",
        "baiten.cn",
        "patent9.com",
        "xueshu.baidu.com",
        "epub.cnipa.gov.cn",
        "pss-system.cponline.cnipa.gov.cn",
        "zhuanli.",
        "patent",
    ];
    assert(forall|k: int| 0 <= k < 11 ==> (#[trigger] names@[k])@ == d[k]);
    while i < 11
        invariant
            i <= 11,
            names@.len() == 11,
            d == patent_domains(),
            forall|k: int| 0 <= k < 11 ==> (#[trigger] names@[k])@ == d[k],
            forall|k: int| 0 <= k < i ==> !contains(link@, #[trigger] d[k]),
        decreases 11 - i,
    {
        if contains_str(link, names[i]) {
            assert(contains(link@, d[i as int]));
            return true;
        }
        i += 1;
    }
    false
}

fn keep_hit(h: &WebHit, q: &Vec<char>, qc: &Vec<char>) -> (r: bool)
    requires
        qc@ == query_clean(q@),
    ensures
        r == hit_kept(*h, q@),
{
    let link = chars_of(h.link.as_str());
    let title = chars_of(h.title.as_str());
    let mut all = String::from_str(h.link.as_str());
    push_str(&mut all, " ");
    push_str(&mut all, h.title.as_str());
    push_str(&mut all, " ");
    push_str(&mut all, h.snippet.as_str());
    let av = chars_of(all.as_str());
    on_patent_site(link.as_slice()) || contains_chars(av.as_slice(), q.as_slice())
        || contains_chars(av.as_slice(), qc.as_slice()) || contains_str(title.as_slice(), "专利")
        || contains_str(title.as_slice(), "patent")
}

fn web_patent(h: &WebHit, q: &Vec<char>, qc: &Vec<char>) -> (b: WebPatent)
    requires
        qc@ == query_clean(q@),
    ensures
        web_patent_of(b, *h, q@),
{
    let mut all = String::from_str(h.title.as_str());
    push_str(&mut all, " ");
    push_str(&mut all, h.snippet.as_str());
    push_str(&mut all, " ");
    push_str(&mut all, h.link.as_str());
    let av = chars_of(all.as_str());
    let exact = contains_chars(av.as_slice(), q.as_slice()) || contains_chars(
        av.as_slice(),
        qc.as_slice(),
    );
    WebPatent {
        patent_number: extract_cn_patent_number(
            h.title.as_str(),
            h.snippet.as_str(),
            h.link.as_str(),
        ),
        title: clean_html_tags(h.title.as_str()),
        abstract_text: clean_html_tags(h.snippet.as_str()),
        exact_match: exact,
    }
}

fn pool_of(hits: &Vec<WebHit>, q: &Vec<char>, qc: &Vec<char>) -> (p: Vec<usize>)
    requires
        qc@ == query_clean(q@),
    ensures
        p@ == pool_indices(hits@, q@),
        forall|k: int| 0 <= k < p@.len() ==> p@[k] < hits@.len(),
{
    let n = hits.len();
    let mut kept: Vec<usize> = Vec::new();
    let mut i: usize = 0;
    while i < n
        invariant
            n == hits@.len(),
            i <= n,
            qc@ == query_clean(q@),
            kept@ == kept_indices(hits@, q@, i as int),
            forall|k: int| 0 <= k < kept@.len() ==> kept@[k] < i,
        decreases n - i,
    {
        if keep_hit(&hits[i], q, qc) {
            kept.push(i);
        }
        i += 1;
    }
    let mut src: Vec<usize> = Vec::new();
    if kept.len() == 0 {
        let mut j: usize = 0;
        while j < n
            invariant
                n == hits@.len(),
                j <= n,
                src@ =~= Seq::new(j as nat, |k: int| k as usize),
            decreases n - j,
        {
            src.push(j);
            j += 1;
        }
    } else {
        src = kept;
    }
    let ghost s = src@;
    assert(s == (if kept_indices(hits@, q@, n as int).len() == 0 {
        Seq::new(hits@.len(), |k: int| k as usize)
    } else {
        kept_indices(hits@, q@, n as int)
    }));
    let mut p: Vec<usize> = Vec::new();
    let m = if src.len() > 15 {
        15
    } else {
        src.len()
    };
    let mut j: usize = 0;
    while j < m
        invariant
            m <= src@.len(),
            src@ == s,
            j <= m,
            p@ == s.take(j as int),
            forall|k: int| 0 <= k < s.len() ==> s[k] < n,
            n == hits@.len(),
        decreases m - j,
    {
        p.push(src[j]);
        assert(s.take(j as int).push(s[j as int]) =~= s.take(j + 1));
        j += 1;
    }
    proof {
        if s.len() <= 15 {
            assert(s.take(s.len() as int) =~= s);
        }
    }
    p
}

/// Chooses and orders the results of a Baidu search for patent query `q`:
/// the results on patent sites or mentioning the query or a patent (all
/// results when none does), at most fifteen, exact matches of the query
/// first; each read as a patent with its number and tag-free text.
pub fn baidu_candidates(hits: &Vec<WebHit>, query: &str) -> (r: Vec<WebPatent>)
    ensures
        r@.len() == baidu_order(hits@, query@).len(),
        forall|k: int|
            0 <= k < r@.len() ==> web_patent_of(
                #[trigger] r@[k],
                hits@[baidu_order(hits@, query@)[k] as int],
                query@,
            ),
{
    let q = chars_of(query);
    let empty: Vec<char> = Vec::new();
    let q1 = replace_char_chars(q.as_slice(), '.', empty.as_slice());
    let qc = replace_char_chars(q1.as_slice(), '-', empty.as_slice());
    assert(empty@ =~= Seq::<char>::empty());
    let pool = pool_of(hits, &q, &qc);
    let ghost hs = hits@;
    let mut exact: Vec<WebPatent> = Vec::new();
    let mut loose: Vec<WebPatent> = Vec::new();
    let mut j: usize = 0;
    while j < pool.len()
        invariant
            hs == hits@,
            qc@ == query_clean(q@),
            q@ == query@,
            pool@ == pool_indices(hs, q@),
            forall|k: int| 0 <= k < pool@.len() ==> pool@[k] < hs.len(),
            j <= pool@.len(),
            exact@.len() == exact_indices(hs, q@, pool@.take(j as int), true).len(),
            loose@.len() == exact_indices(hs, q@, pool@.take(j as int), false).len(),
            forall|k: int|
                0 <= k < exact@.len() ==> web_patent_of(
                    #[trigger] exact@[k],
                    hs[exact_indices(hs, q@, pool@.take(j as int), true)[k] as int],
                    q@,
                ),
            forall|k: int|
                0 <= k < loose@.len() ==> web_patent_of(
                    #[trigger] loose@[k],
                    hs[exact_indices(hs, q@, pool@.take(j as int), false)[k] as int],
                    q@,
                ),
        decreases pool@.len() - j,
    {
        let idx = pool[j];
        assert(pool@.take(j + 1).drop_last() =~= pool@.take(j as int));
        assert(pool@.take(j + 1).last() == pool@[j as int]);
        let b = web_patent(&hits[idx], &q, &qc);
        if b.exact_match {
            exact.push(b);
        } else {
            loose.push(b);
        }
        j += 1;
    }
    assert(pool@.take(pool@.len() as int) =~= pool@);
    let ghost e = exact@;
    let ghost l = loose@;
    exact.append(&mut loose);
    assert(exact@ =~= e + l);
    exact
}

// ───────────────────────── result fields ─────────────────────────

/// The second `/`-separated part of a result id (`patent/CN113557390B/zh`
/// gives `CN113557390B`), or the whole id when it has no `/`.
pub open spec fn id_patent_number(id: Seq<char>) -> Seq<char> {
    match find(id, "/"@) {
        None => id,
        Some(k) => {
            let rest = id.skip(k + 1);
            match find(rest, "/"@) {
                None => rest,
                Some(j) => rest.take(j),
            }
        },
    }
}

/// The patent number inside a Google Patents result id.
pub fn patent_number_of_id(id: &str) -> (r: String)
    ensures
        r@ == id_patent_number(id@),
{
    let v = chars_of(id);
    let slash = chars_of("/");
    proof {
        reveal_strlit("/");
        assert(slash@.len() == 1);
    }
    match find_chars(v.as_slice(), slash.as_slice()) {
        None => string_of(v.as_slice()),
        Some(k) => {
            proof {
                lemma_find_from_spec(v@, slash@, 0);
            }
            assert(k < v.len());
            let rest = slice_range(v.as_slice(), k + 1, v.len());
            assert(rest@ =~= v@.skip(k + 1));
            match find_chars(rest.as_slice(), slash.as_slice()) {
                None => string_of(rest.as_slice()),
                Some(j) => {
                    proof {
                        lemma_find_from_spec(rest@, slash@, 0);
                    }
                    let part = slice_range(rest.as_slice(), 0, j);
                    assert(part@ =~= rest@.take(j as int));
                    string_of(part.as_slice())
                },
            }
        },
    }
}

/// The first two characters of a publication number: its country code.
pub fn country_prefix(number: &str) -> (r: String)
    ensures
        r@ == take_chars(number@, 2),
{
    let v = chars_of(number);
    let t = take_n(v.as_slice(), 2);
    string_of(t.as_slice())
}

// ───────────────────────── content match ─────────────────────────

/// The words of more than one byte.
pub open spec fn long_words(ws: Seq<Seq<char>>) -> Seq<Seq<char>>
    decreases ws.len(),
{
    if ws.len() == 0 {
        Seq::empty()
    } else {
        let r = long_words(ws.drop_last());
        if byte_len(ws.last()) > 1 {
            r.push(ws.last())
        } else {
            r
        }
    }
}

/// How many of the words occur in `t`.
pub open spec fn words_in(ws: Seq<Seq<char>>, t: Seq<char>) -> nat
    decreases ws.len(),
{
    if ws.len() == 0 {
        0
    } else {
        words_in(ws.drop_last(), t) + (if contains(t, ws.last()) {
            1nat
        } else {
            0nat
        })
    }
}

/// A Han character strictly between U+4E00 and U+9FFF.
pub open spec fn is_inner_han(c: char) -> bool {
    c > '\u{4E00}' && c < '\u{9FFF}'
}

/// The characters of `s` that are `is_inner_han`, in order.
pub open spec fn han_chars(s: Seq<char>) -> Seq<char>
    decreases s.len(),
{
    if s.len() == 0 {
        Seq::empty()
    } else if is_inner_han(s.last()) {
        han_chars(s.drop_last()).push(s.last())
    } else {
        han_chars(s.drop_last())
    }
}

/// How many of the characters `cs` occur in `t`.
pub open spec fn chars_in(cs: Seq<char>, t: Seq<char>) -> nat
    decreases cs.len(),
{
    if cs.len() == 0 {
        0
    } else {
        chars_in(cs.drop_last(), t) + (if t.contains(cs.last()) {
            1nat
        } else {
            0nat
        })
    }
}

/// How a search result's title matches the query.
#[derive(Debug, Clone, Copy, PartialEq, Eq, Structural)]
pub enum TitleMatch {
    Equal,
    Contains,
    /// `word_hits` of `words` query words and `char_hits` of `chars` Han
    /// characters of the query occur in the title.
    Partial { word_hits: usize, words: usize, char_hits: usize, chars: usize },
}

/// How a search result's abstract matches the query.
#[derive(Debug, Clone, Copy, PartialEq, Eq, Structural)]
pub enum AbstractMatch {
    Contains,
    /// `word_hits` of `words` query words occur in the abstract.
    Partial { word_hits: usize, words: usize },
}

/// The content match of an online result: title, abstract, and whether the
/// applicant contains the query.  The score built from it is 30, plus 50,
/// 35, or 30 times the word ratio and 25 times the character ratio for the
/// title, plus 15 or 10 times the word ratio for the abstract, plus 5 for
/// the applicant, at most 100.
#[derive(Debug, Clone, Copy, PartialEq, Eq, Structural)]
pub struct OnlineMatch {
    pub title: TitleMatch,
    pub abstract_match: AbstractMatch,
    pub applicant: bool,
}

pub open spec fn title_match_spec(q: Seq<char>, t: Seq<char>) -> TitleMatch {
    let ws = long_words(words(q));
    let cs = han_chars(q);
    if t == q {
        TitleMatch::Equal
    } else if contains(t, q) {
        TitleMatch::Contains
    } else {
        TitleMatch::Partial {
            word_hits: words_in(ws, t) as usize,
            words: ws.len() as usize,
            char_hits: chars_in(cs, t) as usize,
            chars: cs.len() as usize,
        }
    }
}

pub open spec fn abstract_match_spec(q: Seq<char>, a: Seq<char>) -> AbstractMatch {
    let ws = long_words(words(q));
    if contains(a, q) {
        AbstractMatch::Contains
    } else {
        AbstractMatch::Partial { word_hits: words_in(ws, a) as usize, words: ws.len() as usize }
    }
}

/// The match of query against title, abstract and applicant, all compared
/// trimmed and lower-cased.
pub open spec fn online_match_spec(
    query: Seq<char>,
    title: Seq<char>,
    abstract_text: Seq<char>,
    applicant: Seq<char>,
) -> OnlineMatch {
    let q = normalized(query);
    OnlineMatch {
        title: title_match_spec(q, normalized(title)),
        abstract_match: abstract_match_spec(q, normalized(abstract_text)),
        applicant: contains(normalized(applicant), q),
    }
}

proof fn lemma_long_words_len(ws: Seq<Seq<char>>)
    ensures
        long_words(ws).len() <= ws.len(),
    decreases ws.len(),
{
    if ws.len() > 0 {
        lemma_long_words_len(ws.drop_last());
    }
}

fn long_words_of(q: &[char]) -> (r: Vec<Vec<char>>)
    ensures
        r.deep_view() == long_words(words(q@)),
{
    let ws = words_of(q);
    let ghost wv = ws.deep_view();
    let mut r: Vec<Vec<char>> = Vec::new();
    let mut i: usize = 0;
    while i < ws.len()
        invariant
            wv == ws.deep_view(),
            wv == words(q@),
            i <= ws.len(),
            r.deep_view() == long_words(wv.take(i as int)),
        decreases ws.len() - i,
    {
        assert(wv.take(i + 1).drop_last() =~= wv.take(i as int));
        assert(wv.take(i + 1).last() == ws[i as int]@);
        if !byte_len_le(ws[i].as_slice(), 1) {
            let w = slice_range(ws[i].as_slice(), 0, ws[i].len());
            assert(w@ =~= ws[i as int]@);
            r.push(w);
            assert(r.deep_view() =~= long_words(wv.take(i as int)).push(ws[i as int]@));
        }
        i += 1;
    }
    assert(wv.take(ws.len() as int) =~= wv);
    r
}

fn count_words_in(ws: &Vec<Vec<char>>, t: &[char]) -> (n: usize)
    ensures
        n == words_in(ws.deep_view(), t@),
{
    let ghost wv = ws.deep_view();
    let mut n: usize = 0;
    let mut i: usize = 0;
    while i < ws.len()
        invariant
            wv == ws.deep_view(),
            i <= ws.len(),
            n <= i,
            n == words_in(wv.take(i as int), t@),
        decreases ws.len() - i,
    {
        assert(wv.take(i + 1).drop_last() =~= wv.take(i as int));
        assert(wv.take(i + 1).last() == ws[i as int]@);
        if contains_chars(t, ws[i].as_slice()) {
            n += 1;
        }
        i += 1;
    }
    assert(wv.take(ws.len() as int) =~= wv);
    n
}

fn han_chars_of(s: &[char]) -> (r: Vec<char>)
    ensures
        r@ == han_chars(s@),
{
    let mut r: Vec<char> = Vec::new();
    let mut i: usize = 0;
    while i < s.len()
        invariant
            i <= s.len(),
            r@ == han_chars(s@.take(i as int)),
        decreases s.len() - i,
    {
        assert(s@.take(i + 1).drop_last() =~= s@.take(i as int));
        let c = s[i];
        if c > '\u{4E00}' && '\u{9FFF}' > c {
            r.push(c);
        }
        i += 1;
    }
    assert(s@.take(s.len() as int) =~= s@);
    r
}

fn count_chars_in(cs: &[char], t: &[char]) -> (n: usize)
    ensures
        n == chars_in(cs@, t@),
{
    let mut n: usize = 0;
    let mut i: usize = 0;
    while i < cs.len()
        invariant
            i <= cs.len(),
            n <= i,
            n == chars_in(cs@.take(i as int), t@),
        decreases cs.len() - i,
    {
        assert(cs@.take(i + 1).drop_last() =~= cs@.take(i as int));
        if has_char(t, cs[i]) {
            n += 1;
        }
        i += 1;
    }
    assert(cs@.take(cs.len() as int) =~= cs@);
    n
}

/// How an online search result matches the query (the content part of its
/// relevance).
pub fn online_match(query: &str, title: &str, abstract_text: &str, applicant: &str) -> (r:
    OnlineMatch)
    ensures
        r == online_match_spec(query@, title@, abstract_text@, applicant@),
{
    let q = normalize(query);
    let t = normalize(title);
    let a = normalize(abstract_text);
    let app = normalize(applicant);
    let ws = long_words_of(q.as_slice());
    let cs = han_chars_of(q.as_slice());
    proof {
        lemma_long_words_len(words(q@));
    }
    let tm = if seq_eq(t.as_slice(), q.as_slice()) {
        TitleMatch::Equal
    } else if contains_chars(t.as_slice(), q.as_slice()) {
        TitleMatch::Contains
    } else {
        TitleMatch::Partial {
            word_hits: count_words_in(&ws, t.as_slice()),
            words: ws.len(),
            char_hits: count_chars_in(cs.as_slice(), t.as_slice()),
            chars: cs.len(),
        }
    };
    let am = if contains_chars(a.as_slice(), q.as_slice()) {
        AbstractMatch::Contains
    } else {
        AbstractMatch::Partial { word_hits: count_words_in(&ws, a.as_slice()), words: ws.len() }
    };
    OnlineMatch {
        title: tm,
        abstract_match: am,
        applicant: contains_chars(app.as_slice(), q.as_slice()),
    }
}


/// The web results of a SerpAPI reply: every `organic_results` entry with
/// its title, snippet and link (each empty when absent or not a string).
pub open spec fn web_hit_fields(j: crate::json::Json) -> (Seq<char>, Seq<char>, Seq<char>) {
    (
        crate::pipeline::steps::claims::str_or(crate::json::get(Some(j), "title"@), ""@),
        crate::pipeline::steps::claims::str_or(crate::json::get(Some(j), "snippet"@), ""@),
        crate::pipeline::steps::claims::str_or(crate::json::get(Some(j), "link"@), ""@),
    )
}

fn member_text(j: &crate::json::Json, k: &str) -> (r: String)
    ensures
        r@ == crate::pipeline::steps::claims::str_or(crate::json::get(Some(*j), k@), ""@),
{
    match crate::json::string_value(crate::json::get_member(Some(j), k)) {
        Some(s) => s,
        None => "".to_string(),
    }
}

pub fn web_hits(reply: &crate::json::Json) -> (r: Vec<WebHit>)
    ensures
        r@.len() == crate::routes::sources::list_of(crate::json::get(Some(*reply), "organic_results"@)).len(),
        forall|i: int|
            0 <= i < r@.len() ==> {
                let f = web_hit_fields(crate::routes::sources::list_of(crate::json::get(Some(*reply), "organic_results"@))[i]);
                &&& (#[trigger] r@[i]).title@ == f.0
                &&& r@[i].snippet@ == f.1
                &&& r@[i].link@ == f.2
            },
{
    let mut out: Vec<WebHit> = Vec::new();
    match crate::json::array_items(crate::json::get_member(Some(reply), "organic_results")) {
        Some(xs) => {
            let ghost xv = xs@;
            assert(crate::routes::sources::list_of(crate::json::get(Some(*reply), "organic_results"@)) == xv);
            let mut i: usize = 0;
            while i < xs.len()
                invariant
                    xv == xs@,
                    i <= xv.len(),
                    out@.len() == i,
                    forall|k: int|
                        0 <= k < i ==> {
                            let f = web_hit_fields(xv[k]);
                            &&& (#[trigger] out@[k]).title@ == f.0
                            &&& out@[k].snippet@ == f.1
                            &&& out@[k].link@ == f.2
                        },
                decreases xv.len() - i,
            {
                let x = &xs[i];
                out.push(WebHit {
                    title: member_text(x, "title"),
                    snippet: member_text(x, "snippet"),
                    link: member_text(x, "link"),
                });
                i += 1;
            }
        },
        None => {},
    }
    out
}

} // verus!
