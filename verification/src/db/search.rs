//! Query classification and the plan of the database queries for a search.
use crate::db::relevance::{is_likely_name, likely_name_spec};
use crate::patent::SearchType;
use crate::routes::query::opt_view;
use crate::text::{
    append_chars, chars_of, char_is_digit, contains, contains_chars, byte_len, byte_len_le,
    is_digit, join, join_chars, lowercase, match_at, remove_char, replace_char_chars, starts_with,
    string_of, to_lower, to_upper, trim, trim_str, uppercase, words, words_of,
};
use vstd::prelude::*;

verus! {

/// Prefixes that mark a patent number (country codes and `ZL`).
pub open spec fn country_codes() -> Seq<Seq<char>> {
    seq!["CN"@, "US"@, "EP"@, "JP"@, "KR"@, "TW"@, "HK"@, "WO"@, "PCT"@, "ZL"@]
}

/// Words that mark a company name.
pub open spec fn company_keywords() -> Seq<Seq<char>> {
    seq![
        "公司"@, "集团"@, "股份"@, "有限"@, "责任"@, "corporation"@, "corp"@, "inc"@, "ltd"@,
        "gmbh"@, "co."@, "co,"@, "company"@, "tech"@, "technologies"@, "systems"@, "global"@,
        "group"@, "energy"@, "electronics"@, "motors"@, "pharma"@, "lab"@, "labs"@,
    ]
}

fn country_code(i: usize) -> (r: &'static str)
    requires
        i < 10,
    ensures
        r@ == country_codes()[i as int],
{
    match i {
        0 => "CN",
        1 => "US",
        2 => "EP",
        3 => "JP",
        4 => "KR",
        5 => "TW",
        6 => "HK",
        7 => "WO",
        8 => "PCT",
        _ => "ZL",
    }
}

fn company_keyword(i: usize) -> (r: &'static str)
    requires
        i < 24,
    ensures
        r@ == company_keywords()[i as int],
{
    match i {
        0 => "公司",
        1 => "集团",
        2 => "股份",
        3 => "有限",
        4 => "责任",
        5 => "corporation",
        6 => "corp",
        7 => "inc",
        8 => "ltd",
        9 => "gmbh",
        10 => "co.",
        11 => "co,",
        12 => "company",
        13 => "tech",
        14 => "technologies",
        15 => "systems",
        16 => "global",
        17 => "group",
        18 => "energy",
        19 => "electronics",
        20 => "motors",
        21 => "pharma",
        22 => "lab",
        _ => "labs",
    }
}

/// Number of ASCII digits in `s`.
pub open spec fn digit_count(s: Seq<char>) -> nat
    decreases s.len(),
{
    if s.len() == 0 {
        0
    } else {
        digit_count(s.drop_last()) + (if is_digit(s.last()) {
            1nat
        } else {
            0nat
        })
    }
}

/// The ASCII digits of `s`, in order.
pub open spec fn digits_of(s: Seq<char>) -> Seq<char>
    decreases s.len(),
{
    if s.len() == 0 {
        Seq::empty()
    } else if is_digit(s.last()) {
        digits_of(s.drop_last()).push(s.last())
    } else {
        digits_of(s.drop_last())
    }
}

/// Whether a trimmed query has the shape of a patent or application number.
pub open spec fn looks_like_number(q: Seq<char>) -> bool {
    6 <= byte_len(q) <= 25 && ((exists|i: int|
        0 <= i < 10 && starts_with(uppercase(q), #[trigger] country_codes()[i])) || (digit_count(q)
        >= 7 && forall|i: int| 0 <= i < q.len() ==> is_digit(#[trigger] q[i]) || q[i] == '.'))
}

/// The search type a query suggests.
pub open spec fn detect_search_type_spec(query: Seq<char>) -> SearchType {
    let q = trim(query);
    if looks_like_number(q) {
        SearchType::PatentNumber
    } else if exists|i: int| 0 <= i < 24 && contains(lowercase(q), #[trigger] company_keywords()[i]) {
        SearchType::Applicant
    } else if likely_name_spec(q) {
        SearchType::Inventor
    } else {
        SearchType::Mixed
    }
}

pub fn count_digits(s: &[char]) -> (n: usize)
    ensures
        n == digit_count(s@),
        n <= s.len(),
{
    let mut n: usize = 0;
    let mut i: usize = 0;
    while i < s.len()
        invariant
            i <= s.len(),
            n == digit_count(s@.take(i as int)),
            n <= i,
        decreases s.len() - i,
    {
        assert(s@.take(i + 1).drop_last() =~= s@.take(i as int));
        if char_is_digit(s[i]) {
            n += 1;
        }
        i += 1;
    }
    assert(s@.take(s.len() as int) =~= s@);
    n
}

/// The ASCII digits of `s`.
pub fn digits(s: &[char]) -> (r: Vec<char>)
    ensures
        r@ == digits_of(s@),
{
    let mut r: Vec<char> = Vec::new();
    let mut i: usize = 0;
    while i < s.len()
        invariant
            i <= s.len(),
            r@ == digits_of(s@.take(i as int)),
        decreases s.len() - i,
    {
        assert(s@.take(i + 1).drop_last() =~= s@.take(i as int));
        if char_is_digit(s[i]) {
            r.push(s[i]);
        }
        i += 1;
    }
    assert(s@.take(s.len() as int) =~= s@);
    r
}

pub fn all_digits_or_dots(s: &[char]) -> (b: bool)
    ensures
        b == forall|i: int| 0 <= i < s@.len() ==> is_digit(#[trigger] s@[i]) || s@[i] == '.',
{
    let mut i: usize = 0;
    while i < s.len()
        invariant
            i <= s.len(),
            forall|k: int| 0 <= k < i ==> is_digit(#[trigger] s@[k]) || s@[k] == '.',
        decreases s.len() - i,
    {
        if !(char_is_digit(s[i]) || s[i] == '.') {
            return false;
        }
        i += 1;
    }
    true
}

fn has_country_prefix(upper: &Vec<char>) -> (b: bool)
    ensures
        b == exists|i: int| 0 <= i < 10 && starts_with(upper@, #[trigger] country_codes()[i]),
{
    let mut i: usize = 0;
    while i < 10
        invariant
            i <= 10,
            forall|k: int| 0 <= k < i ==> !starts_with(upper@, #[trigger] country_codes()[k]),
        decreases 10 - i,
    {
        let code = chars_of(country_code(i));
        if match_at(upper.as_slice(), code.as_slice(), 0) {
            return true;
        }
        i += 1;
    }
    false
}

fn has_company_keyword(lower: &Vec<char>) -> (b: bool)
    ensures
        b == exists|i: int| 0 <= i < 24 && contains(lower@, #[trigger] company_keywords()[i]),
{
    let mut i: usize = 0;
    while i < 24
        invariant
            i <= 24,
            forall|k: int| 0 <= k < i ==> !contains(lower@, #[trigger] company_keywords()[k]),
        decreases 24 - i,
    {
        let kw = chars_of(company_keyword(i));
        if contains_chars(lower.as_slice(), kw.as_slice()) {
            return true;
        }
        i += 1;
    }
    false
}

/// Classifies a query: a patent number (6 to 25 bytes with a country prefix,
/// or at least seven digits and only digits and dots), an applicant (a
/// company word), an inventor (a person's name), else mixed.
pub fn detect_search_type(query: &str) -> (t: SearchType)
    ensures
        t == detect_search_type_spec(query@),
{
    let q = trim_str(query);
    let qs = string_of(q.as_slice());
    if byte_len_le(q.as_slice(), 25) && !byte_len_le(q.as_slice(), 5) {
        let upper = chars_of(to_upper(qs.as_str()).as_str());
        if has_country_prefix(&upper) {
            return SearchType::PatentNumber;
        }
        if count_digits(q.as_slice()) >= 7 && all_digits_or_dots(q.as_slice()) {
            return SearchType::PatentNumber;
        }
    }
    let lower = chars_of(to_lower(qs.as_str()).as_str());
    if has_company_keyword(&lower) {
        return SearchType::Applicant;
    }
    if is_likely_name(qs.as_str()) {
        proof {
            crate::text::lemma_trim_idempotent(query@);
        }
        return SearchType::Inventor;
    }
    proof {
        crate::text::lemma_trim_idempotent(query@);
    }
    SearchType::Mixed
}

// ───────────────────────── full-text query ─────────────────────────

/// The quoted terms of a full-text query: each word without double quotes,
/// empty ones dropped, wrapped in double quotes.
pub open spec fn fts_terms(ws: Seq<Seq<char>>) -> Seq<Seq<char>>
    decreases ws.len(),
{
    if ws.len() == 0 {
        Seq::empty()
    } else {
        let c = remove_char(ws.last(), '"');
        if c.len() == 0 {
            fts_terms(ws.drop_last())
        } else {
            fts_terms(ws.drop_last()).push("\""@ + c + "\""@)
        }
    }
}

pub open spec fn sanitize_fts_spec(query: Seq<char>) -> Seq<char> {
    join(fts_terms(words(query)), " "@)
}

/// Makes user input safe for an FTS5 `MATCH`: every word quoted, quotes removed.
pub fn sanitize_fts_query(query: &str) -> (r: String)
    ensures
        r@ == sanitize_fts_spec(query@),
{
    let v = chars_of(query);
    let ws = words_of(v.as_slice());
    let mut terms: Vec<Vec<char>> = Vec::new();
    let empty: Vec<char> = Vec::new();
    let quote = chars_of("\"");
    assert(empty@ =~= Seq::<char>::empty());
    let mut i: usize = 0;
    while i < ws.len()
        invariant
            i <= ws.len(),
            empty@ == Seq::<char>::empty(),
            quote@ == "\""@,
            terms.deep_view() == fts_terms(ws.deep_view().take(i as int)),
        decreases ws.len() - i,
    {
        assert(ws.deep_view().take(i + 1).drop_last() =~= ws.deep_view().take(i as int));
        assert(ws.deep_view()[i as int] == ws[i as int]@);
        let c = replace_char_chars(ws[i].as_slice(), '"', empty.as_slice());
        if c.len() > 0 {
            let ghost before = terms.deep_view();
            let mut t: Vec<char> = Vec::new();
            append_chars(&mut t, quote.as_slice());
            append_chars(&mut t, c.as_slice());
            append_chars(&mut t, quote.as_slice());
            terms.push(t);
            assert(terms.deep_view() =~~= before.push("\""@ + c@ + "\""@));
        }
        i += 1;
    }
    assert(ws.deep_view().take(ws.len() as int) =~= ws.deep_view());
    let sep = chars_of(" ");
    let joined = join_chars(&terms, sep.as_slice());
    string_of(joined.as_slice())
}

// ───────────────────────── search plan ─────────────────────────

/// The column that a field search matches.
#[derive(Debug, Clone, Copy, PartialEq, Eq, Structural)]
pub enum SearchField {
    Applicant,
    Inventor,
}

/// The database queries a search runs (`LIKE` patterns carry their `%`).
#[derive(Debug, Clone)]
pub enum SearchPlan {
    /// Match the number with spaces and dots removed against either pattern.
    PatentNumber {
        with_prefix: String,
        digits: String,
        date_from: String,
        date_to: String,
        limit: usize,
        offset: usize,
    },
    /// Match one column, optionally within one country.
    Field {
        field: SearchField,
        pattern: String,
        country: Option<String>,
        date_from: String,
        date_to: String,
        limit: usize,
        offset: usize,
    },
    /// Full-text search; no query means no results.
    FullText { query: Option<String>, limit: usize, offset: usize },
    /// Match title, abstract, applicant, inventor and number, optionally within one country.
    Like {
        pattern: String,
        country: Option<String>,
        date_from: String,
        date_to: String,
        limit: usize,
        offset: usize,
    },
}

pub open spec fn nonempty_opt(o: Option<Seq<char>>) -> Option<Seq<char>> {
    match o {
        Some(s) => if s.len() > 0 {
            Some(s)
        } else {
            None
        },
        None => None,
    }
}

pub open spec fn or_empty(o: Option<Seq<char>>) -> Seq<char> {
    match o {
        Some(s) => s,
        None => Seq::empty(),
    }
}

pub open spec fn page_offset(page: usize, page_size: usize) -> int {
    (if page >= 1 {
        page - 1
    } else {
        0
    }) * page_size
}

pub open spec fn like_pattern(s: Seq<char>) -> Seq<char> {
    "%"@ + s + "%"@
}

pub open spec fn opt_string_view(o: Option<String>) -> Option<Seq<char>> {
    match o {
        Some(s) => Some(s@),
        None => None,
    }
}

/// The type a search runs as: the requested one, else the detected one.
pub open spec fn effective_type(query: Seq<char>, requested: Option<SearchType>) -> SearchType {
    match requested {
        Some(t) => t,
        None => detect_search_type_spec(query),
    }
}

/// What the plan of a search must be.
pub open spec fn plan_matches(
    p: SearchPlan,
    query: Seq<char>,
    st: SearchType,
    country: Option<Seq<char>>,
    date_from: Option<Seq<char>>,
    date_to: Option<Seq<char>>,
    limit: usize,
    offset: int,
) -> bool {
    let df = or_empty(date_from);
    let dt = or_empty(date_to);
    let c = nonempty_opt(country);
    match st {
        SearchType::PatentNumber => p matches SearchPlan::PatentNumber {
            with_prefix,
            digits,
            date_from: f,
            date_to: t,
            limit: l,
            offset: o,
        } && with_prefix@ == like_pattern(remove_char(query, ' ')) && digits@ == like_pattern(
            digits_of(query),
        ) && f@ == df && t@ == dt && l == limit && o == offset,
        SearchType::Applicant | SearchType::Inventor => p matches SearchPlan::Field {
            field,
            pattern,
            country: pc,
            date_from: f,
            date_to: t,
            limit: l,
            offset: o,
        } && field == (if st == SearchType::Applicant {
            SearchField::Applicant
        } else {
            SearchField::Inventor
        }) && pattern@ == like_pattern(query) && opt_string_view(pc) == c && f@ == df && t@ == dt
            && l == limit && o == offset,
        SearchType::Keyword => if c is Some || nonempty_opt(date_from) is Some || nonempty_opt(
            date_to,
        ) is Some {
            p matches SearchPlan::Like {
                pattern,
                country: pc,
                date_from: f,
                date_to: t,
                limit: l,
                offset: o,
            } && pattern@ == like_pattern(query) && opt_string_view(pc) == c && f@ == df && t@
                == dt && l == limit && o == offset
        } else {
            p matches SearchPlan::FullText { query: fq, limit: l, offset: o } && (
            if sanitize_fts_spec(query).len() == 0 {
                fq is None
            } else {
                fq matches Some(x) && x@ == sanitize_fts_spec(query)
            }) && l == limit && o == offset
        },
        SearchType::Mixed => p matches SearchPlan::Like {
            pattern,
            country: pc,
            date_from: f,
            date_to: t,
            limit: l,
            offset: o,
        } && pattern@ == like_pattern(query) && opt_string_view(pc) == c && f@ == df && t@ == dt
            && l == limit && o == offset,
    }
}

fn lit_string(s: &str) -> (r: String)
    ensures
        r@ == s@,
{
    String::from_str(s)
}

fn opt_nonempty(o: Option<&str>) -> (r: Option<String>)
    ensures
        opt_string_view(r) == nonempty_opt(opt_view(o)),
{
    match o {
        Some(s) => {
            let v = chars_of(s);
            if v.len() > 0 {
                Some(string_of(v.as_slice()))
            } else {
                None
            }
        },
        None => None,
    }
}

fn opt_or_empty(o: Option<&str>) -> (r: String)
    ensures
        r@ == or_empty(opt_view(o)),
{
    match o {
        Some(s) => lit_string(s),
        None => String::new(),
    }
}

fn like_of(v: &[char]) -> (r: String)
    ensures
        r@ == like_pattern(v@),
{
    let mut r = String::new();
    crate::text::push_str(&mut r, "%");
    crate::text::push_chars(&mut r, v);
    crate::text::push_str(&mut r, "%");
    r
}

pub open spec fn opt_type_view(o: Option<&SearchType>) -> Option<SearchType> {
    match o {
        Some(t) => Some(*t),
        None => None,
    }
}

/// Plans a search: the requested type or the detected one chooses the
/// queries (number patterns, one column, full text when a keyword search
/// has no filter, else a search over all columns), with page `page` of
/// `page_size` rows.
pub fn search_smart_plan(
    query: &str,
    search_type: Option<&SearchType>,
    country: Option<&str>,
    date_from: Option<&str>,
    date_to: Option<&str>,
    page: usize,
    page_size: usize,
) -> (r: (SearchPlan, SearchType))
    requires
        page_offset(page, page_size) <= usize::MAX,
    ensures
        r.1 == effective_type(query@, opt_type_view(search_type)),
        plan_matches(
            r.0,
            query@,
            r.1,
            opt_view(country),
            opt_view(date_from),
            opt_view(date_to),
            page_size,
            page_offset(page, page_size),
        ),
{
    let st = match search_type {
        Some(t) => *t,
        None => detect_search_type(query),
    };
    let offset: usize = (if page >= 1 { page - 1 } else { 0 }) * page_size;
    let df = opt_or_empty(date_from);
    let dt = opt_or_empty(date_to);
    let c = opt_nonempty(country);
    let qv = chars_of(query);
    match st {
        SearchType::PatentNumber => {
            let empty: Vec<char> = Vec::new();
            assert(empty@ =~= Seq::<char>::empty());
            let nospace = replace_char_chars(qv.as_slice(), ' ', empty.as_slice());
            let d = digits(qv.as_slice());
            let plan = SearchPlan::PatentNumber {
                with_prefix: like_of(nospace.as_slice()),
                digits: like_of(d.as_slice()),
                date_from: df,
                date_to: dt,
                limit: page_size,
                offset,
            };
            (plan, st)
        },
        SearchType::Applicant | SearchType::Inventor => {
            let field = if st == SearchType::Applicant {
                SearchField::Applicant
            } else {
                SearchField::Inventor
            };
            let plan = SearchPlan::Field {
                field,
                pattern: like_of(qv.as_slice()),
                country: c,
                date_from: df,
                date_to: dt,
                limit: page_size,
                offset,
            };
            (plan, st)
        },
        SearchType::Keyword => {
            let has_filters = c.is_some() || opt_nonempty(date_from).is_some() || opt_nonempty(
                date_to,
            ).is_some();
            if has_filters {
                let plan = SearchPlan::Like {
                    pattern: like_of(qv.as_slice()),
                    country: c,
                    date_from: df,
                    date_to: dt,
                    limit: page_size,
                    offset,
                };
                (plan, st)
            } else {
                let s = sanitize_fts_query(query);
                let fq = if crate::text::chars_of(s.as_str()).len() == 0 {
                    None
                } else {
                    Some(s)
                };
                (SearchPlan::FullText { query: fq, limit: page_size, offset }, st)
            }
        },
        SearchType::Mixed => {
            let plan = SearchPlan::Like {
                pattern: like_of(qv.as_slice()),
                country: c,
                date_from: df,
                date_to: dt,
                limit: page_size,
                offset,
            };
            (plan, st)
        },
    }
}


/// Law: the order of the search-type decision. A trimmed query shaped like
/// a patent number is a number search; otherwise a query whose lower-case
/// form holds one of the company keywords is an applicant search, even
/// when it also looks like a person's name; an inventor search never holds
/// a company keyword.
pub proof fn lemma_company_keyword_is_applicant(query: Seq<char>, i: int)
    requires
        0 <= i < company_keywords().len(),
    ensures
        looks_like_number(trim(query)) ==> detect_search_type_spec(query) == SearchType::PatentNumber,
        !looks_like_number(trim(query)) && contains(lowercase(trim(query)), company_keywords()[i])
            ==> detect_search_type_spec(query) == SearchType::Applicant,
        detect_search_type_spec(query) == SearchType::Inventor ==> !contains(
            lowercase(trim(query)),
            company_keywords()[i],
        ),
{
}

} // verus!
