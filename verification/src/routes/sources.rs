//! Reading the replies of the online patent sources (SerpAPI, Google
//! Patents, Lens.org, CNIPR) into patents.
use crate::json::{
    member, array_items, at, deref_opt, first_of, get, get_member, item_at, items_of, str_of, string_value,
    text_of, text_value, u64_of, u64_value, zero_value, is_zero, Json,
};
use crate::patent::Patent;
use crate::routes::online::{country_prefix, id_patent_number, patent_number_of_id};
use crate::routes::patent_page::{strip_html_tags, strip_tags_spec};
use crate::routes::search_text::{clean_html_tags, clean_tags_spec};
use crate::db::search::{all_digits_or_dots, digits, digits_of};
use crate::pipeline::steps::contradiction::join_strings;
use crate::routes::online::{percent_encode, url_component};
use crate::text::{
    char_is_digit, chars_of, contains, contains_str, is_digit, join, push_str, remove_char,
    replace_all, replace_all_chars, replace_char_chars, seq_eq, slice_range,
    starts_with, starts_with_str, string_of, take_chars, to_upper, trim, trim_str, uppercase,
    decimal, decimal_string,
};
use vstd::prelude::*;
use vstd::utf8::encode_utf8;

verus! {

/// A patent found by an online source, before it is scored.
#[derive(Debug, Clone)]
pub struct PatentHit {
    pub patent_number: String,
    pub title: String,
    pub abstract_text: String,
    pub applicant: String,
    pub inventor: String,
    pub filing_date: String,
    pub country: String,
}

/// The fields of a hit: number, title, abstract, applicant, inventor,
/// filing date, country.
pub type HitFields = (Seq<char>, Seq<char>, Seq<char>, Seq<char>, Seq<char>, Seq<char>, Seq<char>);

pub open spec fn hit_view(h: PatentHit) -> HitFields {
    (h.patent_number@, h.title@, h.abstract_text@, h.applicant@, h.inventor@, h.filing_date@, h.country@)
}

pub open spec fn hits_view(v: Seq<PatentHit>) -> Seq<HitFields> {
    v.map_values(|h: PatentHit| hit_view(h))
}

// ───────────────────────── localized texts ─────────────────────────

/// The first entry whose `lang` is `zh`.
pub open spec fn first_zh(xs: Seq<Json>) -> Option<Json>
    decreases xs.len(),
{
    if xs.len() == 0 {
        None
    } else if str_of(get(Some(xs[0]), "lang"@)) == Some("zh"@) {
        Some(xs[0])
    } else {
        first_zh(xs.drop_first())
    }
}

/// The `text` of a list of localized texts: the Chinese entry's, else the
/// first entry's, else empty.
pub open spec fn localized_text(j: Option<Json>) -> Seq<char> {
    match items_of(j) {
        Some(xs) => match first_zh(xs) {
            Some(t) => text_of(get(Some(t), "text"@)),
            None => text_of(get(first_of(j), "text"@)),
        },
        None => Seq::empty(),
    }
}

fn localized(j: Option<&Json>) -> (r: String)
    ensures
        r@ == localized_text(deref_opt(j)),
{
    match array_items(j) {
        Some(xs) => {
            let ghost xv = xs@;
            assert(xv.skip(0) =~= xv);
            let mut i: usize = 0;
            while i < xs.len()
                invariant
                    xv == xs@,
                    items_of(deref_opt(j)) == Some(xv),
                    i <= xv.len(),
                    first_zh(xv) == first_zh(xv.skip(i as int)),
                decreases xv.len() - i,
            {
                assert(xv.skip(i as int)[0] == xv[i as int]);
                assert(xv.skip(i as int).drop_first() =~= xv.skip(i + 1));
                let lang = string_value(get_member(Some(&xs[i]), "lang"));
                let is_zh = match &lang {
                    Some(l) => {
                        let lv = chars_of(l.as_str());
                        crate::routes::query::eq_lit(&lv, "zh")
                    },
                    None => false,
                };
                if is_zh {
                    assert(str_of(get(Some(xv[i as int]), "lang"@)) == Some("zh"@));
                    assert(first_zh(xv.skip(i as int)) == Some(xv[i as int]));
                    return text_value(get_member(Some(&xs[i]), "text"));
                }
                i += 1;
            }
            assert(xv.skip(i as int).len() == 0);
            text_value(get_member(item_at(j, 0), "text"))
        },
        None => String::new(),
    }
}

// ───────────────────────── Lens.org ─────────────────────────

pub open spec fn lens_reference(item: Json) -> Option<Json> {
    get(get(Some(item), "biblio"@), "publication_reference"@)
}

/// Jurisdiction, document number and kind; the Lens id when there is no
/// document number.
pub open spec fn lens_number(item: Json) -> Seq<char> {
    let pr = lens_reference(item);
    let doc = text_of(get(pr, "doc_number"@));
    if doc.len() == 0 {
        text_of(get(Some(item), "lens_id"@))
    } else {
        uppercase(text_of(get(pr, "jurisdiction"@))) + doc + text_of(get(pr, "kind"@))
    }
}

/// The extracted name of the first applicant or inventor.
pub open spec fn party_name(item: Json, role: Seq<char>) -> Seq<char> {
    text_of(
        get(
            get(first_of(get(get(get(Some(item), "biblio"@), "parties"@), role)), "extracted_name"@),
            "value"@,
        ),
    )
}

/// A Lens.org search item as a hit; none without title and number.
pub open spec fn lens_hit_spec(item: Json) -> Option<HitFields> {
    let number = lens_number(item);
    let title = localized_text(get(Some(item), "title"@));
    if title.len() == 0 && number.len() == 0 {
        None
    } else {
        Some(
            (
                number,
                title,
                localized_text(get(Some(item), "abstract"@)),
                party_name(item, "applicants"@),
                party_name(item, "inventors"@),
                text_of(get(Some(item), "date_published"@)),
                uppercase(text_of(get(lens_reference(item), "jurisdiction"@))),
            ),
        )
    }
}

pub open spec fn lens_hits_spec(items: Seq<Json>) -> Seq<HitFields>
    decreases items.len(),
{
    if items.len() == 0 {
        Seq::empty()
    } else {
        let r = lens_hits_spec(items.drop_last());
        match lens_hit_spec(items.last()) {
            Some(h) => r.push(h),
            None => r,
        }
    }
}

pub open spec fn total_of(body: Json, k: Seq<char>) -> nat {
    match u64_of(get(Some(body), k)) {
        Some(n) => n,
        None => 0,
    }
}

pub open spec fn list_of(j: Option<Json>) -> Seq<Json> {
    match items_of(j) {
        Some(xs) => xs,
        None => Seq::empty(),
    }
}

fn party(item: &Json, role: &str) -> (r: String)
    ensures
        r@ == party_name(*item, role@),
{
    text_value(
        get_member(
            get_member(
                item_at(get_member(get_member(get_member(Some(item), "biblio"), "parties"), role), 0),
                "extracted_name",
            ),
            "value",
        ),
    )
}

fn lens_hit(item: &Json) -> (r: Option<PatentHit>)
    ensures
        match lens_hit_spec(*item) {
            Some(h) => r matches Some(x) && hit_view(x) == h,
            None => r is None,
        },
{
    let pr = get_member(get_member(Some(item), "biblio"), "publication_reference");
    let jurisdiction = to_upper(text_value(get_member(pr, "jurisdiction")).as_str());
    let doc = text_value(get_member(pr, "doc_number"));
    let number = if doc.as_str().is_empty() {
        text_value(get_member(Some(item), "lens_id"))
    } else {
        let mut n = jurisdiction.clone();
        push_str(&mut n, doc.as_str());
        let kind = text_value(get_member(pr, "kind"));
        push_str(&mut n, kind.as_str());
        n
    };
    let title = localized(get_member(Some(item), "title"));
    if title.as_str().is_empty() && number.as_str().is_empty() {
        return None;
    }
    Some(PatentHit {
        patent_number: number,
        title,
        abstract_text: localized(get_member(Some(item), "abstract")),
        applicant: party(item, "applicants"),
        inventor: party(item, "inventors"),
        filing_date: text_value(get_member(Some(item), "date_published")),
        country: jurisdiction,
    })
}

// ───────────────────────── a Lens.org request ─────────────────────────

/// `value` as a list of strings (`None` unless every item is a string).
pub open spec fn str_list(j: Option<Json>) -> Option<Seq<Seq<char>>> {
    match j {
        Some(Json::Array(xs)) => if forall|i: int| 0 <= i < xs@.len() ==> #[trigger] xs@[i] is Str {
            Some(xs@.map_values(|x: Json| match x {
                Json::Str(t) => t@,
                _ => Seq::<char>::empty(),
            }))
        } else {
            None
        },
        _ => None,
    }
}

/// The text of a JSON number.
pub open spec fn number_text(j: Option<Json>) -> Option<Seq<char>> {
    match j {
        Some(Json::Number(t)) => Some(t@),
        _ => None,
    }
}

/// The fields that a Lens.org search asks back.
pub open spec fn lens_returned_spec() -> Seq<Seq<char>> {
    seq![
        "lens_id"@,
        "title"@,
        "abstract"@,
        "date_published"@,
        "biblio.publication_reference"@,
        "biblio.parties.applicants"@,
        "biblio.parties.inventors"@,
    ]
}

/// The fields that a Lens.org search asks back, as a JSON list.
pub fn lens_returned_fields() -> (r: Json)
    ensures
        str_list(Some(r)) == Some(lens_returned_spec()),
{
    let r = str_items(
        &[
            "lens_id",
            "title",
            "abstract",
            "date_published",
            "biblio.publication_reference",
            "biblio.parties.applicants",
            "biblio.parties.inventors",
        ],
    );
    r
}

/// A Lens.org search request: an object of three members, the query
/// string searched in title, abstract and claims, and ten results from
/// `from`.
pub open spec fn lens_request_spec(r: Json, query: Seq<char>, from: nat) -> bool {
    let qs = get(get(Some(r), "query"@), "query_string"@);
    &&& r matches Json::Object(es) && es@.len() == 3
    &&& get(Some(r), "query"@) matches Some(Json::Object(q)) && q@.len() == 1
    &&& qs matches Some(Json::Object(f)) && f@.len() == 2
    &&& str_of(get(qs, "query"@)) == Some(query)
    &&& str_list(get(qs, "fields"@)) == Some(seq!["title"@, "abstract"@, "claims"@])
    &&& number_text(get(Some(r), "size"@)) == Some("10"@)
    &&& number_text(get(Some(r), "from"@)) == Some(decimal(from))
}

fn str_items(items: &[&str]) -> (r: Json)
    ensures
        r matches Json::Array(xs) && xs@.len() == items@.len() && forall|i: int|
            0 <= i < items@.len() ==> (#[trigger] xs@[i] matches Json::Str(t) && t@ == items@[i]@),
        str_list(Some(r)) == Some(items@.map_values(|t: &str| t@)),
{
    let mut xs: Vec<Json> = Vec::new();
    let mut i: usize = 0;
    while i < items.len()
        invariant
            i <= items@.len(),
            xs@.len() == i,
            forall|k: int| 0 <= k < i ==> (#[trigger] xs@[k] matches Json::Str(t) && t@ == items@[k]@),
        decreases items@.len() - i,
    {
        xs.push(Json::Str(String::from_str(items[i])));
        i += 1;
    }
    let r = Json::Array(xs);
    assert(str_list(Some(r)) =~= Some(items@.map_values(|t: &str| t@))) by {
        assert(xs@.map_values(|x: Json| match x {
            Json::Str(t) => t@,
            _ => Seq::<char>::empty(),
        }) =~= items@.map_values(|t: &str| t@));
    }
    r
}

/// The body of a Lens.org search for `query` on `page` (ten results a
/// page, page 0 read as page 1); the list of fields asked back
/// (`lens_returned_fields`) goes beside it.
pub fn lens_request(query: &str, page: usize) -> (r: Json)
    requires
        page <= 1 || (page - 1) * 10 <= usize::MAX,
    ensures
        lens_request_spec(r, query@, if page > 1 { ((page - 1) * 10) as nat } else { 0 }),
{
    let from = cnipr_offset(page);
    let names = ["title", "abstract", "claims"];
    let fields = str_items(&names);
    let inner = vec![
        (String::from_str("query"), Json::Str(String::from_str(query))),
        (String::from_str("fields"), fields),
    ];
    let ghost fs = inner@;
    let qs = Json::Object(inner);
    let q = Json::Object(vec![(String::from_str("query_string"), qs)]);
    let members = vec![
        (String::from_str("query"), q),
        (String::from_str("size"), Json::Number(String::from_str("10"))),
        (String::from_str("from"), Json::Number(decimal_string(from as u64))),
    ];
    let ghost es = members@;
    let r = Json::Object(members);
    proof {
        reveal_strlit("query");
        reveal_strlit("query_string");
        reveal_strlit("fields");
        reveal_strlit("size");
        reveal_strlit("from");
        reveal_strlit("title");
        reveal_strlit("abstract");
        reveal_strlit("claims");
        reveal_strlit("10");
        reveal_with_fuel(member, 3);
        assert(names@.map_values(|t: &str| t@) =~= seq!["title"@, "abstract"@, "claims"@]);
        assert(es.drop_first().drop_first()[0] == es[2]);
        assert(fs.drop_first()[0] == fs[1]);
        assert("size"@[0] != "from"@[0]);
        assert(member(es, "size"@) == Some(es[1].1));
        assert(member(es, "from"@) == Some(es[2].1));
        assert(fs[0].0@ == "query"@);
        assert(fs[0].0@ != "fields"@);
        assert(member(fs, "fields"@) == Some(fs[1].1));
        assert(str_list(Some(fs[1].1)) == Some(names@.map_values(|t: &str| t@)));
    }
    r
}

/// Reads a Lens.org search reply: the reported total (0 when absent) and
/// a hit per item that has a title or a number.
pub fn lens_hits(body: &Json) -> (r: (u64, Vec<PatentHit>))
    ensures
        r.0 == total_of(*body, "total"@),
        hits_view(r.1@) == lens_hits_spec(list_of(get(Some(*body), "data"@))),
{
    let total = match u64_value(get_member(Some(body), "total")) {
        Some(n) => n,
        None => 0,
    };
    let mut hits: Vec<PatentHit> = Vec::new();
    match array_items(get_member(Some(body), "data")) {
        Some(items) => {
            let ghost iv = items@;
            let mut i: usize = 0;
            while i < items.len()
                invariant
                    iv == items@,
                    iv == list_of(get(Some(*body), "data"@)),
                    i <= iv.len(),
                    hits_view(hits@) == lens_hits_spec(iv.take(i as int)),
                decreases iv.len() - i,
            {
                assert(iv.take(i + 1).drop_last() =~= iv.take(i as int));
                let ghost before = hits_view(hits@);
                match lens_hit(&items[i]) {
                    Some(h) => {
                        hits.push(h);
                        assert(hits_view(hits@) =~= before.push(hit_view(hits@.last())));
                    },
                    None => {},
                }
                i += 1;
            }
            assert(iv.take(iv.len() as int) =~= iv);
        },
        None => {
            assert(hits_view(hits@) =~= Seq::<HitFields>::empty());
        },
    }
    (total, hits)
}

// ───────────────────────── Google Patents ─────────────────────────

/// The `value` of the first localized assignee or inventor.
pub open spec fn first_localized(pat: Option<Json>, field: Seq<char>) -> Seq<char> {
    text_of(get(first_of(get(pat, field)), "value"@))
}

/// A Google Patents query result as a hit (tags removed from title and
/// snippet); none without a title.
pub open spec fn google_hit_spec(r: Json) -> Option<HitFields> {
    let pat = get(Some(r), "patent"@);
    let number = id_patent_number(text_of(get(Some(r), "id"@)));
    let title = strip_tags_spec(text_of(get(pat, "title"@)));
    if title.len() == 0 {
        None
    } else {
        Some(
            (
                number,
                title,
                strip_tags_spec(text_of(get(pat, "snippet"@))),
                first_localized(pat, "assignee_localized"@),
                first_localized(pat, "inventor_localized"@),
                text_of(get(pat, "filing_date"@)),
                take_chars(number, 2),
            ),
        )
    }
}

pub open spec fn google_result_hits(rs: Seq<Json>) -> Seq<HitFields>
    decreases rs.len(),
{
    if rs.len() == 0 {
        Seq::empty()
    } else {
        let h = google_result_hits(rs.drop_last());
        match google_hit_spec(rs.last()) {
            Some(x) => h.push(x),
            None => h,
        }
    }
}

/// The hits of every cluster, in order.
pub open spec fn google_hits_spec(clusters: Seq<Json>) -> Seq<HitFields>
    decreases clusters.len(),
{
    if clusters.len() == 0 {
        Seq::empty()
    } else {
        google_hits_spec(clusters.drop_last()) + google_result_hits(
            list_of(get(Some(clusters.last()), "result"@)),
        )
    }
}

fn google_hit(r: &Json) -> (h: Option<PatentHit>)
    ensures
        match google_hit_spec(*r) {
            Some(x) => h matches Some(y) && hit_view(y) == x,
            None => h is None,
        },
{
    let pat = get_member(Some(r), "patent");
    let id = text_value(get_member(Some(r), "id"));
    let number = patent_number_of_id(id.as_str());
    let title = strip_html_tags(text_value(get_member(pat, "title")).as_str());
    if title.as_str().is_empty() {
        return None;
    }
    let country = country_prefix(number.as_str());
    Some(PatentHit {
        patent_number: number,
        title,
        abstract_text: strip_html_tags(text_value(get_member(pat, "snippet")).as_str()),
        applicant: text_value(get_member(item_at(get_member(pat, "assignee_localized"), 0), "value")),
        inventor: text_value(get_member(item_at(get_member(pat, "inventor_localized"), 0), "value")),
        filing_date: text_value(get_member(pat, "filing_date")),
        country,
    })
}

fn push_google_hits(hits: &mut Vec<PatentHit>, cluster: &Json)
    ensures
        hits_view(final(hits)@) == hits_view(old(hits)@) + google_result_hits(
            list_of(get(Some(*cluster), "result"@)),
        ),
{
    let ghost start = hits_view(hits@);
    match array_items(get_member(Some(cluster), "result")) {
        Some(rs) => {
            let ghost rv = rs@;
            let mut i: usize = 0;
            while i < rs.len()
                invariant
                    rv == rs@,
                    i <= rv.len(),
                    hits_view(hits@) == start + google_result_hits(rv.take(i as int)),
                decreases rv.len() - i,
            {
                assert(rv.take(i + 1).drop_last() =~= rv.take(i as int));
                let ghost before = hits_view(hits@);
                match google_hit(&rs[i]) {
                    Some(h) => {
                        hits.push(h);
                        assert(hits_view(hits@) =~= before.push(hit_view(hits@.last())));
                    },
                    None => {},
                }
                i += 1;
            }
            assert(rv.take(rv.len() as int) =~= rv);
        },
        None => {
            assert(start + Seq::<HitFields>::empty() =~= start);
        },
    }
}

/// Reads a Google Patents query reply: `results.total_num_results` (0 when
/// absent) and the hits of all result clusters.
pub fn google_hits(body: &Json) -> (r: (u64, Vec<PatentHit>))
    ensures
        r.0 == (match u64_of(get(get(Some(*body), "results"@), "total_num_results"@)) {
            Some(n) => n,
            None => 0,
        }),
        hits_view(r.1@) == google_hits_spec(list_of(get(get(Some(*body), "results"@), "cluster"@))),
{
    let results = get_member(Some(body), "results");
    let total = match u64_value(get_member(results, "total_num_results")) {
        Some(n) => n,
        None => 0,
    };
    let mut hits: Vec<PatentHit> = Vec::new();
    assert(hits_view(hits@) =~= Seq::<HitFields>::empty());
    match array_items(get_member(results, "cluster")) {
        Some(cs) => {
            let ghost cv = cs@;
            let mut i: usize = 0;
            while i < cs.len()
                invariant
                    cv == cs@,
                    i <= cv.len(),
                    hits_view(hits@) == google_hits_spec(cv.take(i as int)),
                decreases cv.len() - i,
            {
                assert(cv.take(i + 1).drop_last() =~= cv.take(i as int));
                push_google_hits(&mut hits, &cs[i]);
                i += 1;
            }
            assert(cv.take(cv.len() as int) =~= cv);
        },
        None => {},
    }
    (total, hits)
}

// ───────────────────────── SerpAPI ─────────────────────────

/// A SerpAPI Google Patents organic result as a stored patent; the id, the
/// time and the raw JSON text come from the caller.
pub open spec fn serp_patent_spec(r: Json, p: Patent, id: Seq<char>, created_at: Seq<char>, raw: Seq<char>) -> bool {
    let number = text_of(get(Some(r), "publication_number"@));
    &&& p.id@ == id
    &&& p.patent_number@ == number
    &&& p.title@ == text_of(get(Some(r), "title"@))
    &&& p.abstract_text@ == text_of(get(Some(r), "snippet"@))
    &&& p.description@ == Seq::<char>::empty()
    &&& p.claims@ == Seq::<char>::empty()
    &&& p.applicant@ == text_of(get(Some(r), "assignee"@))
    &&& p.inventor@ == text_of(get(Some(r), "inventor"@))
    &&& p.filing_date@ == text_of(get(Some(r), "filing_date"@))
    &&& p.publication_date@ == text_of(get(Some(r), "publication_date"@))
    &&& (match str_of(get(Some(r), "grant_date"@)) {
        Some(g) => p.grant_date matches Some(x) && x@ == g,
        None => p.grant_date is None,
    })
    &&& p.ipc_codes@ == Seq::<char>::empty()
    &&& p.cpc_codes@ == Seq::<char>::empty()
    &&& p.priority_date@ == text_of(get(Some(r), "priority_date"@))
    &&& p.country@ == take_chars(number, 2)
    &&& p.kind_code@ == Seq::<char>::empty()
    &&& p.family_id is None
    &&& p.legal_status@ == Seq::<char>::empty()
    &&& p.citations@ == "[]"@
    &&& p.cited_by@ == "[]"@
    &&& p.source@ == "serpapi"@
    &&& p.raw_json@ == raw
    &&& p.created_at@ == created_at
    &&& p.images@ == "[]"@
    &&& p.pdf_url@ == Seq::<char>::empty()
}

pub fn serp_to_patent(r: &Json, id: String, created_at: String, raw_json: String) -> (p: Patent)
    ensures
        serp_patent_spec(*r, p, id@, created_at@, raw_json@),
{
    let number = text_value(get_member(Some(r), "publication_number"));
    let country = country_prefix(number.as_str());
    Patent {
        id,
        patent_number: number,
        title: text_value(get_member(Some(r), "title")),
        abstract_text: text_value(get_member(Some(r), "snippet")),
        description: String::new(),
        claims: String::new(),
        applicant: text_value(get_member(Some(r), "assignee")),
        inventor: text_value(get_member(Some(r), "inventor")),
        filing_date: text_value(get_member(Some(r), "filing_date")),
        publication_date: text_value(get_member(Some(r), "publication_date")),
        grant_date: string_value(get_member(Some(r), "grant_date")),
        ipc_codes: String::new(),
        cpc_codes: String::new(),
        priority_date: text_value(get_member(Some(r), "priority_date")),
        country,
        kind_code: String::new(),
        family_id: None,
        legal_status: String::new(),
        citations: String::from_str("[]"),
        cited_by: String::from_str("[]"),
        source: String::from_str("serpapi"),
        raw_json,
        created_at,
        images: String::from_str("[]"),
        pdf_url: String::new(),
    }
}

// ───────────────────────── CNIPR ─────────────────────────

/// Whether every character is an ASCII digit.
pub open spec fn all_digits(s: Seq<char>) -> bool {
    forall|i: int| 0 <= i < s.len() ==> is_digit(#[trigger] s[i])
}

/// The CNIPR search expression: for a patent number (a `CN`/`ZL` prefix,
/// or digits once dots are dropped) the publication number as typed and
/// with a `CN` prefix, and the application number with and without dots;
/// else a title-and-abstract search.
pub open spec fn cnipr_expression_spec(query: Seq<char>) -> Seq<char> {
    let t = trim(query);
    let clean = remove_char(t, '.');
    if starts_with(query, "CN"@) || starts_with(query, "ZL"@) || all_digits(clean) {
        let d = digits_of(query);
        let cn = if !starts_with(t, "CN"@) {
            "CN"@ + d
        } else {
            t
        };
        let app = if t != d {
            "申请号='"@ + t + "' OR 申请号='"@ + d + "'"@
        } else {
            "申请号='"@ + d + "'"@
        };
        "公开（公告）号='"@ + t + "' OR 公开（公告）号='"@ + cn + "' OR "@ + app
    } else {
        "名称+摘要=("@ + query + ")"@
    }
}

fn all_digit_chars(s: &[char]) -> (r: bool)
    ensures
        r == all_digits(s@),
{
    let mut i: usize = 0;
    while i < s.len()
        invariant
            i <= s.len(),
            forall|k: int| 0 <= k < i ==> is_digit(#[trigger] s@[k]),
        decreases s.len() - i,
    {
        if !char_is_digit(s[i]) {
            return false;
        }
        i += 1;
    }
    true
}

pub fn cnipr_expression(query: &str) -> (r: String)
    ensures
        r@ == cnipr_expression_spec(query@),
{
    let q = chars_of(query);
    let t = trim_str(query);
    let empty: Vec<char> = Vec::new();
    let clean = replace_char_chars(t.as_slice(), '.', empty.as_slice());
    assert(empty@ =~= Seq::<char>::empty());
    if starts_with_str(q.as_slice(), "CN") || starts_with_str(q.as_slice(), "ZL") || all_digit_chars(
        clean.as_slice(),
    ) {
        let d = digits(q.as_slice());
        let ts = string_of(t.as_slice());
        let ds = string_of(d.as_slice());
        let cn = if !starts_with_str(t.as_slice(), "CN") {
            let mut c = String::from_str("CN");
            push_str(&mut c, ds.as_str());
            c
        } else {
            ts.clone()
        };
        let mut app = String::from_str("申请号='");
        if !seq_eq(t.as_slice(), d.as_slice()) {
            push_str(&mut app, ts.as_str());
            push_str(&mut app, "' OR 申请号='");
        }
        push_str(&mut app, ds.as_str());
        push_str(&mut app, "'");
        let mut r = String::from_str("公开（公告）号='");
        push_str(&mut r, ts.as_str());
        push_str(&mut r, "' OR 公开（公告）号='");
        push_str(&mut r, cn.as_str());
        push_str(&mut r, "' OR ");
        push_str(&mut r, app.as_str());
        r
    } else {
        let mut r = String::from_str("名称+摘要=(");
        push_str(&mut r, query);
        push_str(&mut r, ")");
        r
    }
}

/// The result offset of a CNIPR page (ten results per page).
pub fn cnipr_offset(page: usize) -> (r: usize)
    requires
        page <= 1 || (page - 1) * 10 <= usize::MAX,
    ensures
        r == if page > 1 {
            (page - 1) * 10
        } else {
            0
        },
{
    if page > 1 {
        (page - 1) * 10
    } else {
        0
    }
}

/// Whether a cached access token is still usable a minute from now.
pub fn cnipr_token_usable(token: &str, expires_at: u64, now: u64) -> (r: bool)
    requires
        now <= u64::MAX - 60,
    ensures
        r == (token@.len() > 0 && expires_at > now + 60),
{
    !token.is_empty() && expires_at > now + 60
}

/// A login reply: the access token, the open id and the validity in
/// seconds (30 days when not given), when the status is 0 and both ids are
/// there.
pub open spec fn cnipr_login_spec(body: Json) -> Option<(Seq<char>, Seq<char>, nat)> {
    if !is_zero(get(Some(body), "status"@)) {
        None
    } else {
        match (str_of(get(Some(body), "access_token"@)), str_of(get(Some(body), "open_id"@))) {
            (Some(t), Some(o)) => Some(
                (
                    t,
                    o,
                    match u64_of(get(Some(body), "expires_in"@)) {
                        Some(n) => n,
                        None => 2592000,
                    },
                ),
            ),
            _ => None,
        }
    }
}

pub fn cnipr_login_reply(body: &Json) -> (r: Option<(String, String, u64)>)
    ensures
        match cnipr_login_spec(*body) {
            Some(x) => r matches Some(y) && y.0@ == x.0 && y.1@ == x.1 && y.2 == x.2,
            None => r is None,
        },
{
    if !zero_value(get_member(Some(body), "status")) {
        return None;
    }
    let token = match string_value(get_member(Some(body), "access_token")) {
        Some(t) => t,
        None => {
            return None;
        },
    };
    let open_id = match string_value(get_member(Some(body), "open_id")) {
        Some(o) => o,
        None => {
            return None;
        },
    };
    let expires = match u64_value(get_member(Some(body), "expires_in")) {
        Some(n) => n,
        None => 2592000,
    };
    Some((token, open_id, expires))
}

/// A field under its English name, else under its Chinese name.
pub open spec fn either_text(r: Json, a: Seq<char>, b: Seq<char>) -> Seq<char> {
    match str_of(get(Some(r), a)) {
        Some(s) => s,
        None => text_of(get(Some(r), b)),
    }
}

/// The first element of a list field, else the Chinese-named field.
pub open spec fn either_first(r: Json, a: Seq<char>, b: Seq<char>) -> Seq<char> {
    match str_of(first_of(get(Some(r), a))) {
        Some(s) => s,
        None => text_of(get(Some(r), b)),
    }
}

/// A CNIPR result: the hit shown (legal status in brackets before the
/// abstract) and the plain abstract used for matching.
pub struct CniprHit {
    pub hit: PatentHit,
    pub plain_abstract: String,
}

pub open spec fn cnipr_hit_spec(r: Json) -> (HitFields, Seq<char>) {
    let abs = either_text(r, "abs"@, "摘要"@);
    let legal = either_text(r, "lprs"@, "法律状态"@);
    (
        (
            either_first(r, "pubNumber"@, "公开（公告）号"@),
            either_text(r, "title"@, "名称"@),
            if legal.len() > 0 {
                "["@ + legal + "] "@ + abs
            } else {
                abs
            },
            either_first(r, "applicantName"@, "申请（专利权）人"@),
            either_first(r, "inventorName"@, "发明（设计）人"@),
            either_text(r, "appDate"@, "申请日"@),
            "CN"@,
        ),
        abs,
    )
}

pub open spec fn cnipr_view(h: CniprHit) -> (HitFields, Seq<char>) {
    (hit_view(h.hit), h.plain_abstract@)
}

fn either(r: &Json, a: &str, b: &str) -> (s: String)
    ensures
        s@ == either_text(*r, a@, b@),
{
    match string_value(get_member(Some(r), a)) {
        Some(s) => s,
        None => text_value(get_member(Some(r), b)),
    }
}

fn either_head(r: &Json, a: &str, b: &str) -> (s: String)
    ensures
        s@ == either_first(*r, a@, b@),
{
    match string_value(item_at(get_member(Some(r), a), 0)) {
        Some(s) => s,
        None => text_value(get_member(Some(r), b)),
    }
}

fn cnipr_hit(r: &Json) -> (h: CniprHit)
    ensures
        cnipr_view(h) == cnipr_hit_spec(*r),
{
    let abs = either(r, "abs", "摘要");
    let legal = either(r, "lprs", "法律状态");
    let shown = if legal.as_str().is_empty() {
        abs.clone()
    } else {
        let mut s = String::from_str("[");
        push_str(&mut s, legal.as_str());
        push_str(&mut s, "] ");
        push_str(&mut s, abs.as_str());
        s
    };
    CniprHit {
        hit: PatentHit {
            patent_number: either_head(r, "pubNumber", "公开（公告）号"),
            title: either(r, "title", "名称"),
            abstract_text: shown,
            applicant: either_head(r, "applicantName", "申请（专利权）人"),
            inventor: either_head(r, "inventorName", "发明（设计）人"),
            filing_date: either(r, "appDate", "申请日"),
            country: String::from_str("CN"),
        },
        plain_abstract: abs,
    }
}

/// Reads a CNIPR search reply: an error `CNIPR: <message>` unless the
/// status is 0, else the total (0 when absent) and a hit per result.
pub fn cnipr_hits(body: &Json) -> (r: Result<(u64, Vec<CniprHit>), String>)
    ensures
        !is_zero(get(Some(*body), "status"@)) ==> (r matches Err(e) && e@ == "CNIPR: "@ + (match str_of(
            get(Some(*body), "message"@),
        ) {
            Some(m) => m,
            None => "unknown error"@,
        })),
        is_zero(get(Some(*body), "status"@)) ==> (r matches Ok((n, v)) && n == total_of(*body, "total"@)
            && v@.map_values(|h: CniprHit| cnipr_view(h)) == list_of(get(Some(*body), "results"@)).map_values(
            |x: Json| cnipr_hit_spec(x),
        )),
{
    if !zero_value(get_member(Some(body), "status")) {
        let mut e = String::from_str("CNIPR: ");
        match string_value(get_member(Some(body), "message")) {
            Some(m) => push_str(&mut e, m.as_str()),
            None => push_str(&mut e, "unknown error"),
        }
        return Err(e);
    }
    let total = match u64_value(get_member(Some(body), "total")) {
        Some(n) => n,
        None => 0,
    };
    let mut hits: Vec<CniprHit> = Vec::new();
    match array_items(get_member(Some(body), "results")) {
        Some(rs) => {
            let ghost rv = rs@;
            let mut i: usize = 0;
            while i < rs.len()
                invariant
                    rv == rs@,
                    i <= rv.len(),
                    hits@.map_values(|h: CniprHit| cnipr_view(h)) == rv.take(i as int).map_values(
                        |x: Json| cnipr_hit_spec(x),
                    ),
                decreases rv.len() - i,
            {
                let h = cnipr_hit(&rs[i]);
                let ghost before = hits@.map_values(|h: CniprHit| cnipr_view(h));
                hits.push(h);
                assert(hits@.map_values(|h: CniprHit| cnipr_view(h)) =~= before.push(
                    cnipr_hit_spec(rv[i as int]),
                ));
                assert(rv.take(i + 1).map_values(|x: Json| cnipr_hit_spec(x)) =~= rv.take(
                    i as int,
                ).map_values(|x: Json| cnipr_hit_spec(x)).push(cnipr_hit_spec(rv[i as int])));
                i += 1;
            }
            assert(rv.take(rv.len() as int) =~= rv);
        },
        None => {
            assert(hits@.map_values(|h: CniprHit| cnipr_view(h)) =~= Seq::<(HitFields, Seq<char>)>::empty());
        },
    }
    Ok((total, hits))
}

// ───────────────────────── patent details ─────────────────────────

/// The SerpAPI request for the details of a patent id (`patent/<n>/<lang>`).
pub open spec fn details_url_spec(patent_id: Seq<char>, api_key: Seq<char>) -> Seq<char> {
    "https://serpapi.com/search.json?engine=google_patents_details&patent_id="@ + url_component(
        patent_id,
    ) + "&api_key="@ + api_key
}

pub fn details_url(patent_id: &str, api_key: &str) -> (r: String)
    ensures
        r@ == details_url_spec(patent_id@, api_key@),
{
    let mut r = String::from_str("https://serpapi.com/search.json?engine=google_patents_details&patent_id=");
    let enc = percent_encode(patent_id);
    push_str(&mut r, enc.as_str());
    push_str(&mut r, "&api_key=");
    push_str(&mut r, api_key);
    r
}

/// The id `patent/<number>/<lang>` of the details request.
pub fn patent_id_param(number: &str, lang: &str) -> (r: String)
    ensures
        r@ == "patent/"@ + number@ + "/"@ + lang@,
{
    let mut r = String::from_str("patent/");
    push_str(&mut r, number);
    push_str(&mut r, "/");
    push_str(&mut r, lang);
    r
}

/// The SerpAPI keyword search used to find the publication of a bare
/// application number.
pub open spec fn number_search_url_spec(core: Seq<char>, api_key: Seq<char>) -> Seq<char> {
    "https://serpapi.com/search.json?engine=google_patents&q="@ + url_component(core)
        + "&page=1&api_key="@ + api_key
}

pub fn number_search_url(core: &str, api_key: &str) -> (r: String)
    ensures
        r@ == number_search_url_spec(core@, api_key@),
{
    let mut r = String::from_str("https://serpapi.com/search.json?engine=google_patents&q=");
    let enc = percent_encode(core);
    push_str(&mut r, enc.as_str());
    push_str(&mut r, "&page=1&api_key=");
    push_str(&mut r, api_key);
    r
}

/// How an exact patent-number lookup starts.
#[derive(Debug)]
pub enum ExactLookup {
    /// Ask for the details of this patent id at once.
    Details(String),
    /// Search these digits first to find the publication number.
    SearchFirst(String),
}

pub open spec fn office_prefixed(q: Seq<char>) -> bool {
    starts_with(q, "CN"@) || starts_with(q, "US"@) || starts_with(q, "EP"@) || starts_with(q, "WO"@)
        || starts_with(q, "JP"@) || starts_with(q, "KR"@)
}

/// A number with an office prefix is looked up directly (dots dropped; in
/// Chinese for `CN`); a bare Chinese application number (10 to 15 digits
/// and dots) is searched first without its check digit (when it has 13 or
/// more digits); anything else is looked up directly in English.
pub open spec fn exact_lookup_spec(query: Seq<char>) -> (bool, Seq<char>) {
    let q = trim(query);
    let d = digits_of(q);
    if office_prefixed(q) {
        (
            true,
            "patent/"@ + remove_char(q, '.') + "/"@ + if starts_with(q, "CN"@) {
                "zh"@
            } else {
                "en"@
            },
        )
    } else if 10 <= d.len() && d.len() <= 15 && (forall|i: int|
        0 <= i < q.len() ==> is_digit(#[trigger] q[i]) || q[i] == '.') {
        (
            false,
            if d.len() >= 13 {
                d.take(d.len() - 1)
            } else {
                d
            },
        )
    } else {
        (true, "patent/"@ + q + "/"@ + "en"@)
    }
}

pub open spec fn lookup_view(l: ExactLookup) -> (bool, Seq<char>) {
    match l {
        ExactLookup::Details(s) => (true, s@),
        ExactLookup::SearchFirst(s) => (false, s@),
    }
}

pub fn exact_lookup_plan(query: &str) -> (r: ExactLookup)
    ensures
        lookup_view(r) == exact_lookup_spec(query@),
{
    let q = trim_str(query);
    let qs = string_of(q.as_slice());
    let d = digits(q.as_slice());
    if starts_with_str(q.as_slice(), "CN") || starts_with_str(q.as_slice(), "US") || starts_with_str(
        q.as_slice(),
        "EP",
    ) || starts_with_str(q.as_slice(), "WO") || starts_with_str(q.as_slice(), "JP")
        || starts_with_str(q.as_slice(), "KR") {
        let empty: Vec<char> = Vec::new();
        let no_dot = replace_char_chars(q.as_slice(), '.', empty.as_slice());
        assert(empty@ =~= Seq::<char>::empty());
        let lang = if starts_with_str(q.as_slice(), "CN") {
            "zh"
        } else {
            "en"
        };
        ExactLookup::Details(patent_id_param(string_of(no_dot.as_slice()).as_str(), lang))
    } else if 10 <= d.len() && d.len() <= 15 && all_digits_or_dots(q.as_slice()) {
        if d.len() >= 13 {
            let core = slice_range(d.as_slice(), 0, d.len() - 1);
            assert(core@ =~= d@.take(d@.len() - 1));
            ExactLookup::SearchFirst(string_of(core.as_slice()))
        } else {
            ExactLookup::SearchFirst(string_of(d.as_slice()))
        }
    } else {
        ExactLookup::Details(patent_id_param(qs.as_str(), "en"))
    }
}

/// The `patent_id` of the first organic result of a search reply.
pub open spec fn first_result_id(body: Json) -> Option<Seq<char>> {
    str_of(get(first_of(get(Some(body), "organic_results"@)), "patent_id"@))
}

/// The patent id found by the search; a Chinese one is asked for in Chinese
/// (every `/en` becomes `/zh`).
pub open spec fn found_id_spec(body: Json) -> Option<Seq<char>> {
    match first_result_id(body) {
        Some(id) => Some(
            if contains(id, "/CN"@) {
                replace_all(id, "/en"@, "/zh"@)
            } else {
                id
            },
        ),
        None => None,
    }
}

pub fn found_patent_id(body: &Json) -> (r: Option<String>)
    ensures
        match found_id_spec(*body) {
            Some(x) => r matches Some(s) && s@ == x,
            None => r is None,
        },
{
    match string_value(get_member(item_at(get_member(Some(body), "organic_results"), 0), "patent_id")) {
        Some(id) => {
            let v = chars_of(id.as_str());
            if contains_str(v.as_slice(), "/CN") {
                let from = chars_of("/en");
                let to = chars_of("/zh");
                proof {
                    reveal_strlit("/en");
                }
                let r = replace_all_chars(v.as_slice(), from.as_slice(), to.as_slice());
                Some(string_of(r.as_slice()))
            } else {
                Some(id)
            }
        },
        None => None,
    }
}

/// The string elements of a list (others skipped).
pub open spec fn string_items(xs: Seq<Json>) -> Seq<Seq<char>>
    decreases xs.len(),
{
    if xs.len() == 0 {
        Seq::empty()
    } else {
        let r = string_items(xs.drop_last());
        match str_of(Some(xs.last())) {
            Some(s) => r.push(s),
            None => r,
        }
    }
}

fn strings_of(xs: &Vec<Json>) -> (r: Vec<String>)
    ensures
        r.deep_view() == string_items(xs@),
{
    let mut r: Vec<String> = Vec::new();
    let mut i: usize = 0;
    while i < xs.len()
        invariant
            i <= xs@.len(),
            r.deep_view() == string_items(xs@.take(i as int)),
        decreases xs@.len() - i,
    {
        assert(xs@.take(i + 1).drop_last() =~= xs@.take(i as int));
        match string_value(Some(&xs[i])) {
            Some(s) => {
                let ghost before = r.deep_view();
                r.push(s);
                assert(r.deep_view() =~= before.push(r@.last()@));
            },
            None => {},
        }
        i += 1;
    }
    assert(xs@.take(xs@.len() as int) =~= xs@);
    r
}

/// The string elements of a list field joined by `sep`, empty when the
/// field is not a list.
pub open spec fn joined_field(j: Option<Json>, sep: Seq<char>) -> Seq<char> {
    join(string_items(list_of(j)), sep)
}

fn joined(j: Option<&Json>, sep: &str) -> (r: String)
    ensures
        r@ == joined_field(deref_opt(j), sep@),
{
    let items = match array_items(j) {
        Some(xs) => strings_of(xs),
        None => Vec::new(),
    };
    proof {
        if items_of(deref_opt(j)) is None {
            assert(items.deep_view() =~= Seq::<Seq<char>>::empty());
            assert(string_items(Seq::<Json>::empty()) =~= Seq::<Seq<char>>::empty());
        }
    }
    let sv = chars_of(sep);
    string_of(join_strings(&items, sv.as_slice()).as_slice())
}

/// The names of a list of people objects (`name` fields).
pub open spec fn name_items(xs: Seq<Json>) -> Seq<Seq<char>>
    decreases xs.len(),
{
    if xs.len() == 0 {
        Seq::empty()
    } else {
        let r = name_items(xs.drop_last());
        match str_of(get(Some(xs.last()), "name"@)) {
            Some(s) => r.push(s),
            None => r,
        }
    }
}

fn names_of(xs: &Vec<Json>) -> (r: Vec<String>)
    ensures
        r.deep_view() == name_items(xs@),
{
    let mut r: Vec<String> = Vec::new();
    let mut i: usize = 0;
    while i < xs.len()
        invariant
            i <= xs@.len(),
            r.deep_view() == name_items(xs@.take(i as int)),
        decreases xs@.len() - i,
    {
        assert(xs@.take(i + 1).drop_last() =~= xs@.take(i as int));
        match string_value(get_member(Some(&xs[i]), "name")) {
            Some(s) => {
                let ghost before = r.deep_view();
                r.push(s);
                assert(r.deep_view() =~= before.push(r@.last()@));
            },
            None => {},
        }
        i += 1;
    }
    assert(xs@.take(xs@.len() as int) =~= xs@);
    r
}

/// The patent of an exact lookup from a details reply: none on an error
/// reply or without a title; the number is the publication number, else
/// the trimmed query.
pub open spec fn detail_patent_spec(
    body: Json,
    query: Seq<char>,
    p: Patent,
    id: Seq<char>,
    created_at: Seq<char>,
    raw: Seq<char>,
) -> bool {
    let number = match str_of(get(Some(body), "publication_number"@)) {
        Some(n) => n,
        None => trim(query),
    };
    &&& p.id@ == id
    &&& p.patent_number@ == number
    &&& p.title@ == text_of(get(Some(body), "title"@))
    &&& p.abstract_text@ == text_of(get(Some(body), "abstract"@))
    &&& p.description@ == text_of(get(Some(body), "description"@))
    &&& p.claims@ == joined_field(get(Some(body), "claims"@), "\n\n"@)
    &&& p.applicant@ == joined_field(get(Some(body), "assignees"@), "; "@)
    &&& p.inventor@ == join(name_items(list_of(get(Some(body), "inventors"@))), "; "@)
    &&& p.filing_date@ == text_of(get(Some(body), "filing_date"@))
    &&& p.publication_date@ == text_of(get(Some(body), "publication_date"@))
    &&& (match str_of(get(Some(body), "grant_date"@)) {
        Some(g) => p.grant_date matches Some(x) && x@ == g,
        None => p.grant_date is None,
    })
    &&& p.ipc_codes@ == Seq::<char>::empty()
    &&& p.cpc_codes@ == Seq::<char>::empty()
    &&& p.priority_date@ == text_of(get(Some(body), "priority_date"@))
    &&& p.country@ == take_chars(number, 2)
    &&& p.kind_code@ == Seq::<char>::empty()
    &&& p.family_id is None
    &&& p.legal_status@ == Seq::<char>::empty()
    &&& p.citations@ == "[]"@
    &&& p.cited_by@ == "[]"@
    &&& p.source@ == "serpapi_exact"@
    &&& p.raw_json@ == raw
    &&& p.created_at@ == created_at
    &&& p.images@ == "[]"@
    &&& p.pdf_url@ == text_of(get(Some(body), "pdf"@))
}

/// Reads a details reply of an exact lookup (see `detail_patent_spec`).
pub fn detail_patent(body: &Json, query: &str, id: String, created_at: String, raw_json: String) -> (r: Option<Patent>)
    ensures
        get(Some(*body), "error"@) is Some ==> r is None,
        get(Some(*body), "error"@) is None && text_of(get(Some(*body), "title"@)).len() == 0 ==> r is None,
        get(Some(*body), "error"@) is None && text_of(get(Some(*body), "title"@)).len() > 0 ==> (r matches Some(p)
            && detail_patent_spec(*body, query@, p, id@, created_at@, raw_json@)),
{
    if get_member(Some(body), "error").is_some() {
        return None;
    }
    let title = text_value(get_member(Some(body), "title"));
    if title.as_str().is_empty() {
        return None;
    }
    let number = match string_value(get_member(Some(body), "publication_number")) {
        Some(n) => n,
        None => string_of(trim_str(query).as_slice()),
    };
    let inventors = match array_items(get_member(Some(body), "inventors")) {
        Some(xs) => names_of(xs),
        None => Vec::new(),
    };
    proof {
        if items_of(get(Some(*body), "inventors"@)) is None {
            assert(inventors.deep_view() =~= Seq::<Seq<char>>::empty());
            assert(name_items(Seq::<Json>::empty()) =~= Seq::<Seq<char>>::empty());
        }
    }
    let semi = chars_of("; ");
    let inventor = string_of(join_strings(&inventors, semi.as_slice()).as_slice());
    let country = country_prefix(number.as_str());
    Some(Patent {
        id,
        patent_number: number,
        title,
        abstract_text: text_value(get_member(Some(body), "abstract")),
        description: text_value(get_member(Some(body), "description")),
        claims: joined(get_member(Some(body), "claims"), "\n\n"),
        applicant: joined(get_member(Some(body), "assignees"), "; "),
        inventor,
        filing_date: text_value(get_member(Some(body), "filing_date")),
        publication_date: text_value(get_member(Some(body), "publication_date")),
        grant_date: string_value(get_member(Some(body), "grant_date")),
        ipc_codes: String::new(),
        cpc_codes: String::new(),
        priority_date: text_value(get_member(Some(body), "priority_date")),
        country,
        kind_code: String::new(),
        family_id: None,
        legal_status: String::new(),
        citations: String::from_str("[]"),
        cited_by: String::from_str("[]"),
        source: String::from_str("serpapi_exact"),
        raw_json,
        created_at,
        images: String::from_str("[]"),
        pdf_url: text_value(get_member(Some(body), "pdf")),
    })
}

// ───────────────────────── JSON text of string lists ─────────────────────────

/// Lower-case hexadecimal digit of `n` (below 16).
pub open spec fn lower_hex(n: u32) -> char {
    if n < 10 {
        (n + 48) as char
    } else {
        (n + 87) as char
    }
}

/// How `serde_json` writes a character inside a string.
pub open spec fn json_char(c: char) -> Seq<char> {
    if c == '"' {
        seq!['\\', '"']
    } else if c == '\\' {
        seq!['\\', '\\']
    } else if c == '\u{8}' {
        seq!['\\', 'b']
    } else if c == '\u{c}' {
        seq!['\\', 'f']
    } else if c == '\n' {
        seq!['\\', 'n']
    } else if c == '\r' {
        seq!['\\', 'r']
    } else if c == '\t' {
        seq!['\\', 't']
    } else if (c as u32) < 0x20 {
        seq!['\\', 'u', '0', '0', lower_hex((c as u32) / 16), lower_hex((c as u32) % 16)]
    } else {
        seq![c]
    }
}

pub open spec fn json_chars(s: Seq<char>) -> Seq<char>
    decreases s.len(),
{
    if s.len() == 0 {
        Seq::empty()
    } else {
        json_chars(s.drop_last()) + json_char(s.last())
    }
}

/// A JSON string literal.
pub open spec fn json_string(s: Seq<char>) -> Seq<char> {
    seq!['"'] + json_chars(s) + seq!['"']
}

/// The compact JSON text of a list of strings.
pub open spec fn json_string_list(items: Seq<Seq<char>>) -> Seq<char> {
    seq!['['] + join(items.map_values(|s: Seq<char>| json_string(s)), seq![',']) + seq![']']
}

/// `serde_json::to_string` of a list of strings: `[`, the string literals
/// separated by `,`, `]`, with `"` and `\` escaped, `\b \f \n \r \t` for
/// those controls, `\u00xx` (lower-case hex) for the other characters
/// below U+0020, and every other character as it is.
#[verifier::external_body]
fn to_json_array(items: &Vec<String>) -> (r: String)
    ensures
        r@ == json_string_list(items.deep_view()),
{
    serde_json::to_string(items).unwrap_or_default()
}

// ───────────────────────── filling in a stored patent ─────────────────────────

/// Whether a stored patent has its claims and images already.
pub open spec fn already_enriched_spec(p: Patent) -> bool {
    encode_utf8(p.claims@).len() > 50 && encode_utf8(p.images@).len() > 5
}

pub fn already_enriched(p: &Patent) -> (r: bool)
    ensures
        r == already_enriched_spec(*p),
{
    p.claims.as_str().as_bytes().len() > 50 && p.images.as_str().as_bytes().len() > 5
}

/// The description page to fetch: the `description_link` of a reply that
/// has no description text.
pub open spec fn description_link_spec(body: Json) -> Option<Seq<char>> {
    if text_of(get(Some(body), "description"@)).len() == 0 {
        str_of(get(Some(body), "description_link"@))
    } else {
        None
    }
}

pub fn description_link(body: &Json) -> (r: Option<String>)
    ensures
        match description_link_spec(*body) {
            Some(l) => r matches Some(s) && s@ == l,
            None => r is None,
        },
{
    if text_value(get_member(Some(body), "description")).as_str().is_empty() {
        string_value(get_member(Some(body), "description_link"))
    } else {
        None
    }
}

/// The text of a fetched description page: line breaks and paragraphs
/// as newlines, other tags removed, trimmed.
pub open spec fn clean_description_spec(html: Seq<char>) -> Seq<char> {
    let a = replace_all(html, "<br>"@, "\n"@);
    let b = replace_all(a, "<br/>"@, "\n"@);
    let c = replace_all(b, "<p>"@, "\n"@);
    let d = replace_all(c, "</p>"@, "\n"@);
    trim(clean_tags_spec(d))
}

fn replace_text(s: &str, from: &str, to: &str) -> (r: String)
    requires
        from@.len() > 0,
    ensures
        r@ == replace_all(s@, from@, to@),
{
    let v = chars_of(s);
    let f = chars_of(from);
    let t = chars_of(to);
    string_of(replace_all_chars(v.as_slice(), f.as_slice(), t.as_slice()).as_slice())
}

pub fn clean_description(html: &str) -> (r: String)
    ensures
        r@ == clean_description_spec(html@),
{
    proof {
        reveal_strlit("<br>");
        reveal_strlit("<br/>");
        reveal_strlit("<p>");
        reveal_strlit("</p>");
    }
    let a = replace_text(html, "<br>", "\n");
    let b = replace_text(a.as_str(), "<br/>", "\n");
    let c = replace_text(b.as_str(), "<p>", "\n");
    let d = replace_text(c.as_str(), "</p>", "\n");
    let e = clean_html_tags(d.as_str());
    string_of(trim_str(e.as_str()).as_slice())
}

/// A classification: the element itself when text, else its `code`.
pub open spec fn class_items(xs: Seq<Json>) -> Seq<Seq<char>>
    decreases xs.len(),
{
    if xs.len() == 0 {
        Seq::empty()
    } else {
        let r = class_items(xs.drop_last());
        match str_of(Some(xs.last())) {
            Some(s) => r.push(s),
            None => match str_of(get(Some(xs.last()), "code"@)) {
                Some(c) => r.push(c),
                None => r,
            },
        }
    }
}

/// `title (date)` for each event with a title.
pub open spec fn legal_parts(xs: Seq<Json>) -> Seq<Seq<char>>
    decreases xs.len(),
{
    if xs.len() == 0 {
        Seq::empty()
    } else {
        let r = legal_parts(xs.drop_last());
        let t = text_of(get(Some(xs.last()), "title"@));
        if t.len() > 0 {
            r.push(t + " ("@ + text_of(get(Some(xs.last()), "date"@)) + ")"@)
        } else {
            r
        }
    }
}

pub open spec fn first_three(xs: Seq<Json>) -> Seq<Json> {
    if xs.len() > 3 {
        xs.take(3)
    } else {
        xs
    }
}

/// The description to store: the reply's, else the cleaned fetched page.
pub open spec fn new_description(body: Json, fetched: Option<Seq<char>>) -> Seq<char> {
    let d = text_of(get(Some(body), "description"@));
    if d.len() > 0 {
        d
    } else {
        match fetched {
            Some(h) => clean_description_spec(h),
            None => Seq::empty(),
        }
    }
}

/// `p` filled in from a details reply: each of abstract, claims,
/// description, classifications, legal status (the first three events),
/// images and PDF link replaced when the reply has one; family id when
/// given; the rest unchanged.
pub open spec fn enriched_spec(p: Patent, body: Json, fetched: Option<Seq<char>>, r: Patent) -> bool {
    let abs = text_of(get(Some(body), "abstract"@));
    let claims = joined_field(get(Some(body), "claims"@), "\n\n"@);
    let desc = new_description(body, fetched);
    let ipc = join(class_items(list_of(get(Some(body), "classifications"@))), ", "@);
    let legal = join(legal_parts(first_three(list_of(get(Some(body), "legal_events"@)))), "; "@);
    let images = string_items(list_of(get(Some(body), "images"@)));
    &&& r.abstract_text@ == (if abs.len() > 0 { abs } else { p.abstract_text@ })
    &&& r.claims@ == (if claims.len() > 0 { claims } else { p.claims@ })
    &&& r.description@ == (if desc.len() > 0 { desc } else { p.description@ })
    &&& r.ipc_codes@ == (if ipc.len() > 0 { ipc } else { p.ipc_codes@ })
    &&& (match str_of(get(Some(body), "family_id"@)) {
        Some(f) => r.family_id matches Some(x) && x@ == f,
        None => r.family_id == p.family_id,
    })
    &&& r.legal_status@ == (if legal.len() > 0 { legal } else { p.legal_status@ })
    &&& r.images@ == (if images.len() > 0 { json_string_list(images) } else { p.images@ })
    &&& r.pdf_url@ == (match str_of(get(Some(body), "pdf"@)) {
        Some(u) => u,
        None => p.pdf_url@,
    })
    &&& r.id == p.id && r.patent_number == p.patent_number && r.title == p.title
    &&& r.applicant == p.applicant && r.inventor == p.inventor && r.filing_date == p.filing_date
    &&& r.publication_date == p.publication_date && r.grant_date == p.grant_date
    &&& r.cpc_codes == p.cpc_codes && r.priority_date == p.priority_date && r.country == p.country
    &&& r.kind_code == p.kind_code && r.citations == p.citations && r.cited_by == p.cited_by
    &&& r.source == p.source && r.raw_json == p.raw_json && r.created_at == p.created_at
}

fn class_strings(xs: &Vec<Json>) -> (r: Vec<String>)
    ensures
        r.deep_view() == class_items(xs@),
{
    let mut r: Vec<String> = Vec::new();
    let mut i: usize = 0;
    while i < xs.len()
        invariant
            i <= xs@.len(),
            r.deep_view() == class_items(xs@.take(i as int)),
        decreases xs@.len() - i,
    {
        assert(xs@.take(i + 1).drop_last() =~= xs@.take(i as int));
        let ghost before = r.deep_view();
        match string_value(Some(&xs[i])) {
            Some(s) => {
                r.push(s);
                assert(r.deep_view() =~= before.push(r@.last()@));
            },
            None => match string_value(get_member(Some(&xs[i]), "code")) {
                Some(c) => {
                    r.push(c);
                    assert(r.deep_view() =~= before.push(r@.last()@));
                },
                None => {},
            },
        }
        i += 1;
    }
    assert(xs@.take(xs@.len() as int) =~= xs@);
    r
}

fn legal_strings(xs: &Vec<Json>) -> (r: Vec<String>)
    ensures
        r.deep_view() == legal_parts(first_three(xs@)),
{
    let n: usize = if xs.len() > 3 {
        3
    } else {
        xs.len()
    };
    let ghost f = first_three(xs@);
    let mut r: Vec<String> = Vec::new();
    let mut i: usize = 0;
    while i < n
        invariant
            n <= xs@.len(),
            f == first_three(xs@),
            n == f.len(),
            i <= n,
            r.deep_view() == legal_parts(f.take(i as int)),
        decreases n - i,
    {
        assert(f.take(i + 1).drop_last() =~= f.take(i as int));
        assert(f.take(i + 1).last() == xs@[i as int]);
        let t = text_value(get_member(Some(&xs[i]), "title"));
        if !t.as_str().is_empty() {
            let mut s = t;
            push_str(&mut s, " (");
            let d = text_value(get_member(Some(&xs[i]), "date"));
            push_str(&mut s, d.as_str());
            push_str(&mut s, ")");
            let ghost before = r.deep_view();
            r.push(s);
            assert(r.deep_view() =~= before.push(r@.last()@));
        }
        i += 1;
    }
    assert(f.take(n as int) =~= f);
    r
}

fn list_strings(j: Option<&Json>) -> (r: Vec<String>)
    ensures
        r.deep_view() == string_items(list_of(deref_opt(j))),
{
    match array_items(j) {
        Some(xs) => strings_of(xs),
        None => {
            let r: Vec<String> = Vec::new();
            assert(r.deep_view() =~= Seq::<Seq<char>>::empty());
            assert(string_items(Seq::<Json>::empty()) =~= Seq::<Seq<char>>::empty());
            r
        },
    }
}

/// Fills in a stored patent from a details reply (see `enriched_spec`);
/// `fetched` is the description page, when one was fetched.
pub fn enrich_patent(p: Patent, body: &Json, fetched: Option<String>) -> (r: Patent)
    ensures
        enriched_spec(p, *body, match fetched {
            Some(h) => Some(h@),
            None => None,
        }, r),
{
    let mut r = p;
    let abs = text_value(get_member(Some(body), "abstract"));
    if !abs.as_str().is_empty() {
        r.abstract_text = abs;
    }
    let claims = joined(get_member(Some(body), "claims"), "\n\n");
    if !claims.as_str().is_empty() {
        r.claims = claims;
    }
    let d = text_value(get_member(Some(body), "description"));
    let desc = if !d.as_str().is_empty() {
        d
    } else {
        match &fetched {
            Some(h) => clean_description(h.as_str()),
            None => String::new(),
        }
    };
    if !desc.as_str().is_empty() {
        r.description = desc;
    }
    let classes = match array_items(get_member(Some(body), "classifications")) {
        Some(xs) => class_strings(xs),
        None => {
            let e: Vec<String> = Vec::new();
            assert(e.deep_view() =~= Seq::<Seq<char>>::empty());
            assert(class_items(Seq::<Json>::empty()) =~= Seq::<Seq<char>>::empty());
            e
        },
    };
    let comma = chars_of(", ");
    let ipc = string_of(join_strings(&classes, comma.as_slice()).as_slice());
    if !ipc.as_str().is_empty() {
        r.ipc_codes = ipc;
    }
    match string_value(get_member(Some(body), "family_id")) {
        Some(f) => {
            r.family_id = Some(f);
        },
        None => {},
    }
    let parts = match array_items(get_member(Some(body), "legal_events")) {
        Some(xs) => legal_strings(xs),
        None => {
            let e: Vec<String> = Vec::new();
            assert(e.deep_view() =~= Seq::<Seq<char>>::empty());
            assert(first_three(Seq::<Json>::empty()) =~= Seq::<Json>::empty());
            assert(legal_parts(Seq::<Json>::empty()) =~= Seq::<Seq<char>>::empty());
            e
        },
    };
    let semi = chars_of("; ");
    let legal = string_of(join_strings(&parts, semi.as_slice()).as_slice());
    if !legal.as_str().is_empty() {
        r.legal_status = legal;
    }
    let images = list_strings(get_member(Some(body), "images"));
    if images.len() > 0 {
        r.images = to_json_array(&images);
    }
    match string_value(get_member(Some(body), "pdf")) {
        Some(u) => {
            r.pdf_url = u;
        },
        None => {},
    }
    r
}

/// Whether a patent lacks the full text needed for printing.
pub open spec fn needs_full_text_spec(p: Patent) -> bool {
    encode_utf8(p.description@).len() < 50 || encode_utf8(p.claims@).len() < 50
}

pub fn needs_full_text(p: &Patent) -> (r: bool)
    ensures
        r == needs_full_text_spec(*p),
{
    p.description.as_str().as_bytes().len() < 50 || p.claims.as_str().as_bytes().len() < 50
}

/// The language of the details to ask for: Chinese for a Chinese patent.
pub fn details_language(p: &Patent) -> (r: &'static str)
    ensures
        r@ == (if p.country@ == "CN"@ || starts_with(p.patent_number@, "CN"@) {
            "zh"@
        } else {
            "en"@
        }),
{
    let c = chars_of(p.country.as_str());
    let n = chars_of(p.patent_number.as_str());
    if crate::routes::query::eq_lit(&c, "CN") || starts_with_str(n.as_slice(), "CN") {
        "zh"
    } else {
        "en"
    }
}

/// `p` completed for printing from a details reply: description, claims,
/// images and PDF link replaced when the reply has them, the abstract only
/// when `p` has none; the rest unchanged.
pub open spec fn completed_spec(p: Patent, body: Json, r: Patent) -> bool {
    let desc = text_of(get(Some(body), "description"@));
    let abs = text_of(get(Some(body), "abstract"@));
    let claims = joined_field(get(Some(body), "claims"@), "\n\n"@);
    let images = string_items(list_of(get(Some(body), "images"@)));
    &&& r.description@ == (if desc.len() > 0 { desc } else { p.description@ })
    &&& r.abstract_text@ == (if abs.len() > 0 && p.abstract_text@.len() == 0 { abs } else { p.abstract_text@ })
    &&& r.claims@ == (if claims.len() > 0 { claims } else { p.claims@ })
    &&& r.images@ == (if images.len() > 0 { json_string_list(images) } else { p.images@ })
    &&& r.pdf_url@ == (match str_of(get(Some(body), "pdf"@)) {
        Some(u) => u,
        None => p.pdf_url@,
    })
    &&& r.id == p.id && r.patent_number == p.patent_number && r.title == p.title
    &&& r.applicant == p.applicant && r.inventor == p.inventor && r.filing_date == p.filing_date
    &&& r.publication_date == p.publication_date && r.grant_date == p.grant_date
    &&& r.ipc_codes == p.ipc_codes && r.cpc_codes == p.cpc_codes && r.priority_date == p.priority_date
    &&& r.country == p.country && r.kind_code == p.kind_code && r.family_id == p.family_id
    &&& r.legal_status == p.legal_status && r.citations == p.citations && r.cited_by == p.cited_by
    &&& r.source == p.source && r.raw_json == p.raw_json && r.created_at == p.created_at
}

pub fn complete_for_print(p: Patent, body: &Json) -> (r: Patent)
    ensures
        completed_spec(p, *body, r),
{
    let mut r = p;
    let desc = text_value(get_member(Some(body), "description"));
    if !desc.as_str().is_empty() {
        r.description = desc;
    }
    let abs = text_value(get_member(Some(body), "abstract"));
    if !abs.as_str().is_empty() && r.abstract_text.as_str().is_empty() {
        r.abstract_text = abs;
    }
    let claims = joined(get_member(Some(body), "claims"), "\n\n");
    if !claims.as_str().is_empty() {
        r.claims = claims;
    }
    let images = list_strings(get_member(Some(body), "images"));
    if images.len() > 0 {
        r.images = to_json_array(&images);
    }
    match string_value(get_member(Some(body), "pdf")) {
        Some(u) => {
            r.pdf_url = u;
        },
        None => {},
    }
    r
}


/// The text of an optional section, empty when it is absent.
pub open spec fn opt_text(s: Option<Seq<char>>) -> Seq<char> {
    match s {
        Some(t) => t,
        None => Seq::empty(),
    }
}

/// A stored patent completed from the sections read off its Google
/// Patents page: a missing abstract, claims or description shorter than
/// 50 bytes, and missing classification codes are taken from the page
/// where it has them; every other field stays.
pub open spec fn page_filled_spec(
    p: Patent,
    abs: Option<Seq<char>>,
    claims: Option<Seq<char>>,
    desc: Option<Seq<char>>,
    ipc: Option<Seq<char>>,
    r: Patent,
) -> bool {
    &&& r.abstract_text@ == (if p.abstract_text@.len() == 0 && abs is Some { opt_text(abs) } else { p.abstract_text@ })
    &&& r.claims@ == (if encode_utf8(p.claims@).len() < 50 && claims is Some { opt_text(claims) } else { p.claims@ })
    &&& r.description@ == (if encode_utf8(p.description@).len() < 50 && desc is Some { opt_text(desc) } else { p.description@ })
    &&& r.ipc_codes@ == (if p.ipc_codes@.len() == 0 && ipc is Some { opt_text(ipc) } else { p.ipc_codes@ })
    &&& r.id == p.id && r.patent_number == p.patent_number && r.title == p.title
    &&& r.applicant == p.applicant && r.inventor == p.inventor && r.filing_date == p.filing_date
    &&& r.publication_date == p.publication_date && r.grant_date == p.grant_date
    &&& r.cpc_codes == p.cpc_codes && r.priority_date == p.priority_date
    &&& r.country == p.country && r.kind_code == p.kind_code && r.family_id == p.family_id
    &&& r.legal_status == p.legal_status && r.citations == p.citations && r.cited_by == p.cited_by
    &&& r.source == p.source && r.raw_json == p.raw_json && r.created_at == p.created_at
    &&& r.images == p.images && r.pdf_url == p.pdf_url
}


/// Completes a stored patent from the sections of its page (see
/// `page_filled_spec`).
pub fn fill_from_page(
    p: Patent,
    abs: Option<String>,
    claims: Option<String>,
    desc: Option<String>,
    ipc: Option<String>,
) -> (r: Patent)
    ensures
        page_filled_spec(
            p,
            match abs { Some(t) => Some(t@), None => None },
            match claims { Some(t) => Some(t@), None => None },
            match desc { Some(t) => Some(t@), None => None },
            match ipc { Some(t) => Some(t@), None => None },
            r,
        ),
{
    let mut r = p;
    if r.abstract_text.as_str().is_empty() {
        match abs {
            Some(t) => { r.abstract_text = t; },
            None => {},
        }
    }
    if r.claims.as_str().as_bytes().len() < 50 {
        match claims {
            Some(t) => { r.claims = t; },
            None => {},
        }
    }
    if r.description.as_str().as_bytes().len() < 50 {
        match desc {
            Some(t) => { r.description = t; },
            None => {},
        }
    }
    if r.ipc_codes.as_str().is_empty() {
        match ipc {
            Some(t) => { r.ipc_codes = t; },
            None => {},
        }
    }
    r
}


// ───────────────────────── PatentsView (USPTO) ─────────────────────────

/// The patent number as PatentsView takes it: `US` and dashes removed.
pub open spec fn uspto_number_spec(num: Seq<char>) -> Seq<char> {
    remove_char(replace_all(num, "US"@, Seq::empty()), '-')
}

pub fn uspto_number(num: &str) -> (r: String)
    ensures
        r@ == uspto_number_spec(num@),
{
    proof {
        reveal_strlit("US");
    }
    let v = chars_of(num);
    let us = chars_of("US");
    let none: Vec<char> = Vec::new();
    let a = replace_all_chars(v.as_slice(), us.as_slice(), none.as_slice());
    let b = replace_char_chars(a.as_slice(), '-', none.as_slice());
    string_of(b.as_slice())
}

/// The first patent of a PatentsView reply as a stored patent; the number
/// is the one asked for, and the id, the time and the raw JSON text come
/// from the caller. Fields the reply lacks are empty.
pub open spec fn uspto_patent_spec(body: Json, num: Seq<char>, p: Patent, id: Seq<char>, created_at: Seq<char>, raw: Seq<char>) -> bool {
    let first = first_of(get(Some(body), "patents"@));
    &&& p.id@ == id
    &&& p.patent_number@ == num
    &&& p.title@ == text_of(get(first, "patent_title"@))
    &&& p.abstract_text@ == text_of(get(first, "patent_abstract"@))
    &&& p.description@ == Seq::<char>::empty()
    &&& p.claims@ == Seq::<char>::empty()
    &&& p.applicant@ == text_of(get(first, "assignee_organization"@))
    &&& p.inventor@ == Seq::<char>::empty()
    &&& p.filing_date@ == text_of(get(first, "patent_date"@))
    &&& p.publication_date@ == Seq::<char>::empty()
    &&& p.grant_date is None
    &&& p.ipc_codes@ == Seq::<char>::empty()
    &&& p.cpc_codes@ == Seq::<char>::empty()
    &&& p.priority_date@ == Seq::<char>::empty()
    &&& p.country@ == "US"@
    &&& p.kind_code@ == Seq::<char>::empty()
    &&& p.family_id is None
    &&& p.legal_status@ == Seq::<char>::empty()
    &&& p.citations@ == "[]"@
    &&& p.cited_by@ == "[]"@
    &&& p.source@ == "uspto"@
    &&& p.raw_json@ == raw
    &&& p.created_at@ == created_at
    &&& p.images@ == "[]"@
    &&& p.pdf_url@ == Seq::<char>::empty()
}

pub fn uspto_patent(body: &Json, num: &str, id: String, created_at: String, raw_json: String) -> (p: Patent)
    ensures
        uspto_patent_spec(*body, num@, p, id@, created_at@, raw_json@),
{
    let first = item_at(get_member(Some(body), "patents"), 0);
    Patent {
        id,
        patent_number: num.to_string(),
        title: text_value(get_member(first, "patent_title")),
        abstract_text: text_value(get_member(first, "patent_abstract")),
        description: String::new(),
        claims: String::new(),
        applicant: text_value(get_member(first, "assignee_organization")),
        inventor: String::new(),
        filing_date: text_value(get_member(first, "patent_date")),
        publication_date: String::new(),
        grant_date: None,
        ipc_codes: String::new(),
        cpc_codes: String::new(),
        priority_date: String::new(),
        country: String::from_str("US"),
        kind_code: String::new(),
        family_id: None,
        legal_status: String::new(),
        citations: String::from_str("[]"),
        cited_by: String::from_str("[]"),
        source: String::from_str("uspto"),
        raw_json,
        created_at,
        images: String::from_str("[]"),
        pdf_url: String::new(),
    }
}


/// The title, the abstract (each the Chinese text, else the first) and the
/// Lens id of one item of a Lens.org reply.
pub fn lens_item_texts(item: &Json) -> (r: (String, String, String))
    ensures
        r.0@ == localized_text(get(Some(*item), "title"@)),
        r.1@ == localized_text(get(Some(*item), "abstract"@)),
        r.2@ == text_of(get(Some(*item), "lens_id"@)),
{
    (
        localized(get_member(Some(item), "title")),
        localized(get_member(Some(item), "abstract")),
        text_value(get_member(Some(item), "lens_id")),
    )
}

} // verus!
