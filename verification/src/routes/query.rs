//! Search-type parsing and online query construction.
use crate::patent::SearchType;
use crate::text::{
    chars_of, push_chars, push_str, remove_char, replace_char_chars, trim, trim_str,
};
use vstd::prelude::*;

verus! {

/// The search type named by a request field.
pub open spec fn parse_search_type_spec(t: Option<Seq<char>>) -> Option<SearchType> {
    match t {
        None => None,
        Some(s) => Some(
            if s == "applicant"@ {
                SearchType::Applicant
            } else if s == "inventor"@ {
                SearchType::Inventor
            } else if s == "patent_number"@ {
                SearchType::PatentNumber
            } else if s == "keyword"@ {
                SearchType::Keyword
            } else {
                SearchType::Mixed
            },
        ),
    }
}

pub open spec fn opt_view(o: Option<&str>) -> Option<Seq<char>> {
    match o {
        Some(s) => Some(s@),
        None => None,
    }
}

/// Reads the `search_type` field; unknown names mean a mixed search.
pub fn parse_search_type(search_type: Option<&str>) -> (r: Option<SearchType>)
    ensures
        r == parse_search_type_spec(opt_view(search_type)),
{
    match search_type {
        None => None,
        Some(t) => {
            let v = chars_of(t);
            let st = if eq_lit(&v, "applicant") {
                SearchType::Applicant
            } else if eq_lit(&v, "inventor") {
                SearchType::Inventor
            } else if eq_lit(&v, "patent_number") {
                SearchType::PatentNumber
            } else if eq_lit(&v, "keyword") {
                SearchType::Keyword
            } else {
                SearchType::Mixed
            };
            Some(st)
        },
    }
}

/// Whether the characters `v` spell the literal `lit`.
pub fn eq_lit(v: &Vec<char>, lit: &str) -> (r: bool)
    ensures
        r == (v@ == lit@),
{
    let l = chars_of(lit);
    crate::text::seq_eq(v.as_slice(), l.as_slice())
}

/// A date clause: `prefix` and the date, when the date is given and non-empty.
pub open spec fn date_clause(prefix: Seq<char>, d: Option<Seq<char>>) -> Seq<char> {
    match d {
        Some(x) => if x.len() > 0 {
            prefix + x
        } else {
            Seq::empty()
        },
        None => Seq::empty(),
    }
}

/// The Google-Patents style query for a search.
pub open spec fn online_query_spec(
    query: Seq<char>,
    search_type: Option<SearchType>,
    date_from: Option<Seq<char>>,
    date_to: Option<Seq<char>>,
) -> Seq<char> {
    let q = remove_char(trim(query), '"');
    let scoped = match search_type {
        Some(SearchType::Applicant) => "assignee:\""@ + q + "\""@,
        Some(SearchType::Inventor) => "inventor:\""@ + q + "\""@,
        Some(SearchType::PatentNumber) => "\""@ + q + "\""@,
        _ => q,
    };
    scoped + date_clause(" after:"@, date_from) + date_clause(" before:"@, date_to)
}

pub open spec fn opt_type_view(o: Option<&SearchType>) -> Option<SearchType> {
    match o {
        Some(t) => Some(*t),
        None => None,
    }
}

/// Builds the online query: the trimmed query without double quotes, scoped
/// by `assignee:"…"`, `inventor:"…"` or quoted for a patent number, then
/// ` after:<from>` and ` before:<to>` for the non-empty dates.
pub fn build_online_query(
    query: &str,
    search_type: Option<&SearchType>,
    date_from: Option<&str>,
    date_to: Option<&str>,
) -> (r: String)
    ensures
        r@ == online_query_spec(query@, opt_type_view(search_type), opt_view(date_from), opt_view(date_to)),
{
    let t = trim_str(query);
    let empty: Vec<char> = Vec::new();
    let q = replace_char_chars(t.as_slice(), '"', empty.as_slice());
    assert(empty@ =~= Seq::<char>::empty());
    let mut out = String::new();
    match search_type {
        Some(SearchType::Applicant) => {
            push_str(&mut out, "assignee:\"");
            push_chars(&mut out, q.as_slice());
            push_str(&mut out, "\"");
        },
        Some(SearchType::Inventor) => {
            push_str(&mut out, "inventor:\"");
            push_chars(&mut out, q.as_slice());
            push_str(&mut out, "\"");
        },
        Some(SearchType::PatentNumber) => {
            push_str(&mut out, "\"");
            push_chars(&mut out, q.as_slice());
            push_str(&mut out, "\"");
        },
        _ => {
            push_chars(&mut out, q.as_slice());
        },
    }
    let ghost scoped = out@;
    if let Some(from) = date_from {
        let f = chars_of(from);
        if f.len() > 0 {
            push_str(&mut out, " after:");
            push_chars(&mut out, f.as_slice());
        }
    }
    let ghost with_from = out@;
    assert(with_from == scoped + date_clause(" after:"@, opt_view(date_from)));
    if let Some(to) = date_to {
        let d = chars_of(to);
        if d.len() > 0 {
            push_str(&mut out, " before:");
            push_chars(&mut out, d.as_slice());
        }
    }
    out
}

} // verus!
