//! Text helpers of the online search: patent numbers in snippets.
use crate::text::{chars_of, contains, push_str, rest_after, rest_from_byte, string_of};
use vstd::prelude::*;

verus! {

/// The leftmost match of the regular expression `pattern` in `text`, as the
/// `regex` crate finds it (`None` also when the pattern does not compile).
pub uninterp spec fn regex_first_match(pattern: Seq<char>, text: Seq<char>) -> Option<Seq<char>>;

/// `regex::Regex::new(pattern)` then `Regex::find(text)`: the text of the
/// leftmost-first match.  The match is a substring of `text`.
#[verifier::external_body]
fn regex_find(pattern: &str, text: &str) -> (r: Option<String>)
    ensures
        match r {
            Some(m) => regex_first_match(pattern@, text@) == Some(m@) && contains(text@, m@),
            None => regex_first_match(pattern@, text@) is None,
        },
{
    regex::Regex::new(pattern).ok().and_then(|re| re.find(text)).map(|m| m.as_str().to_string())
}

pub open spec fn cn_number_pattern() -> Seq<char> {
    "CN\\d{6,}[A-Z]?"@
}

pub open spec fn application_number_pattern() -> Seq<char> {
    "\\d{12,13}\\.\\d"@
}

/// The first Chinese publication number (`CN` and six or more digits, with
/// an optional kind letter) in title, snippet and link, else the first
/// application number (12–13 digits, a dot, a digit), else empty.
pub open spec fn cn_number_spec(title: Seq<char>, snippet: Seq<char>, link: Seq<char>) -> Seq<char> {
    let all = title + " "@ + snippet + " "@ + link;
    match regex_first_match(cn_number_pattern(), all) {
        Some(m) => m,
        None => match regex_first_match(application_number_pattern(), all) {
            Some(m) => m,
            None => Seq::empty(),
        },
    }
}

/// Extracts a Chinese patent number from a search hit.
pub fn extract_cn_patent_number(title: &str, snippet: &str, link: &str) -> (r: String)
    ensures
        r@ == cn_number_spec(title@, snippet@, link@),
{
    let mut all = String::from_str(title);
    push_str(&mut all, " ");
    push_str(&mut all, snippet);
    push_str(&mut all, " ");
    push_str(&mut all, link);
    match regex_find("CN\\d{6,}[A-Z]?", all.as_str()) {
        Some(m) => m,
        None => match regex_find("\\d{12,13}\\.\\d", all.as_str()) {
            Some(m) => m,
            None => String::new(),
        },
    }
}

/// What `regex::Regex::new(pattern)` then `Regex::replace_all(text, rep)`
/// gives: every leftmost-first match replaced (`None` when the pattern does
/// not compile).
pub uninterp spec fn regex_replaced(pattern: Seq<char>, text: Seq<char>, rep: Seq<char>) -> Option<
    Seq<char>,
>;

/// `regex::Regex::new(pattern)`, then `Regex::replace_all(text, rep)`.
#[verifier::external_body]
pub(crate) fn regex_replace_all(pattern: &str, text: &str, rep: &str) -> (r: Option<String>)
    ensures
        match r {
            Some(t) => regex_replaced(pattern@, text@, rep@) == Some(t@),
            None => regex_replaced(pattern@, text@, rep@) is None,
        },
{
    regex::Regex::new(pattern).ok().map(|re| re.replace_all(text, rep).into_owned())
}

pub open spec fn tag_pattern() -> Seq<char> {
    "<[^>]+>"@
}

/// The text with every `<…>` tag (at least one character between the
/// brackets) removed by the regular expression `<[^>]+>`.
pub open spec fn clean_tags_spec(s: Seq<char>) -> Seq<char> {
    match regex_replaced(tag_pattern(), s, Seq::empty()) {
        Some(t) => t,
        None => s,
    }
}

/// Removes the HTML tags (`<em>` and the like) of a web search snippet.
/// The pattern is a valid one, so the text is returned unchanged only in the
/// `None` case that cannot occur.
pub fn clean_html_tags(s: &str) -> (r: String)
    ensures
        r@ == clean_tags_spec(s@),
{
    let pat = "<[^>]+>";
    let empty = "";
    proof {
        reveal_strlit("");
        assert(empty@ == Seq::<char>::empty());
        assert(pat@ == tag_pattern());
    }
    match regex_replace_all(pat, s, empty) {
        Some(t) => t,
        None => String::from_str(s),
    }
}

/// The groups of a match, `None` for a group that took no part.
pub open spec fn groups_view(g: Vec<Option<String>>) -> Seq<Option<Seq<char>>> {
    g@.map_values(
        |x: Option<String>|
            match x {
                Some(s) => Some(s@),
                None => None,
            },
    )
}

/// One match as the library reads it: its groups and the text that follows
/// the match.
pub open spec fn capture_view(c: (Vec<Option<String>>, String)) -> (Seq<Option<Seq<char>>>, Seq<char>) {
    (groups_view(c.0), c.1@)
}

/// Every match of the regular expression `pattern` in `text`, left to
/// right, as the `regex` crate's `captures_iter` finds them, each with its
/// groups (group 0 is the whole match) and the byte offset where the match
/// ends; `None` when the pattern does not compile.
pub uninterp spec fn regex_all_captures(pattern: Seq<char>, text: Seq<char>) -> Option<
    Seq<(Seq<Option<Seq<char>>>, nat)>,
>;

/// Every match with its groups and the text after it. A match of the
/// `regex` crate ends on a character boundary, so the text after it is
/// `rest_after` of its end offset.
pub open spec fn captures_with_rest(pattern: Seq<char>, text: Seq<char>) -> Option<
    Seq<(Seq<Option<Seq<char>>>, Seq<char>)>,
> {
    match regex_all_captures(pattern, text) {
        Some(cs) => Some(
            cs.map_values(|c: (Seq<Option<Seq<char>>>, nat)| (c.0, rest_after(text, c.1))),
        ),
        None => None,
    }
}

/// `regex::Regex::new(pattern)` then `Regex::captures_iter(text)`, each
/// match converted to its groups and the end of group 0 (the whole match,
/// always present).
#[verifier::external_body]
fn regex_captures(pattern: &str, text: &str) -> (r: Option<Vec<(Vec<Option<String>>, usize)>>)
    ensures
        match r {
            Some(v) => regex_all_captures(pattern@, text@) == Some(
                v@.map_values(|c: (Vec<Option<String>>, usize)| (groups_view(c.0), c.1 as nat)),
            ),
            None => regex_all_captures(pattern@, text@) is None,
        },
{
    let re = regex::Regex::new(pattern).ok()?;
    Some(
        re.captures_iter(text).map(|c| {
            let groups = c.iter().map(|g| g.map(|m| m.as_str().to_string())).collect();
            (groups, c.get(0).map(|m| m.end()).unwrap_or(0))
        }).collect(),
    )
}

/// Every match of `pattern` in `text` with its groups and the text after
/// it (see `captures_with_rest`); `None` when the pattern does not compile.
pub(crate) fn regex_captures_rest(pattern: &str, text: &str) -> (r: Option<Vec<(Vec<Option<String>>, String)>>)
    ensures
        match r {
            Some(v) => captures_with_rest(pattern@, text@) == Some(v@.map_values(|c| capture_view(c))),
            None => captures_with_rest(pattern@, text@) is None,
        },
{
    let caps = match regex_captures(pattern, text) {
        Some(c) => c,
        None => {
            return None;
        },
    };
    let ghost cv = caps@.map_values(|c: (Vec<Option<String>>, usize)| (groups_view(c.0), c.1 as nat));
    let mut out: Vec<(Vec<Option<String>>, String)> = Vec::new();
    let mut i: usize = 0;
    while i < caps.len()
        invariant
            i <= caps@.len(),
            cv == caps@.map_values(|c: (Vec<Option<String>>, usize)| (groups_view(c.0), c.1 as nat)),
            out@.len() == i,
            forall|j: int|
                0 <= j < i ==> #[trigger] capture_view(out@[j]) == (cv[j].0, rest_after(text@, cv[j].1)),
        decreases caps@.len() - i,
    {
        let rest = rest_from_byte(text, caps[i].1);
        out.push((caps[i].0.clone(), rest));
        proof {
            assert(groups_view(out@[i as int].0) =~= groups_view(caps@[i as int].0));
        }
        i += 1;
    }
    assert(out@.map_values(|c| capture_view(c)) =~= cv.map_values(
        |c: (Seq<Option<Seq<char>>>, nat)| (c.0, rest_after(text@, c.1)),
    ));
    Some(out)
}

} // verus!
