//! How well a query matches a field.
//!
//! A match score is a number; here each function decides which kind of
//! match it is, and the conversion to a score is left to the caller that
//! works with measurements.
use crate::text::{
    byte_len, byte_len_le, char_is_ws, chars_of, contains, contains_chars, count_where, has_char,
    is_non_ascii, is_ws, lowercase, non_ascii_chars, non_ascii_of, remove_char, replace_char_chars,
    seq_eq, split_runs, split_runs_chars, starts_with, string_of, to_lower, trim, trim_str, words,
    words_of, char_is_uppercase, is_upper,
};
use vstd::prelude::*;

verus! {

/// The kind of match between a query and a field value.
#[derive(Debug, Clone, Copy, PartialEq, Eq, Structural)]
pub enum FieldMatch {
    /// Equal, or equal once spaces are removed.
    Exact,
    /// The field starts with the query (applicants only).
    Prefix,
    /// The field contains the query.
    Contains,
    /// Same leading CJK character and one of the names is short (inventors only).
    Surname,
    /// Every CJK character of the query occurs in the field (inventors only).
    NameContains,
    /// `matched` of the `total` query words meet a field word (one contains the other).
    Words { matched: usize, total: usize },
    /// Nothing better.
    Fuzzy,
}

/// Lower-cased, trimmed text.
pub open spec fn normalized(s: Seq<char>) -> Seq<char> {
    lowercase(trim(s))
}

/// Whether some word of `fws` contains `qw` or is contained in it.
pub open spec fn word_meets(qw: Seq<char>, fws: Seq<Seq<char>>) -> bool {
    exists|j: int| 0 <= j < fws.len() && (contains(fws[j], qw) || contains(qw, fws[j]))
}

/// How many words of `qws` meet a word of `fws`.
pub open spec fn word_hits(qws: Seq<Seq<char>>, fws: Seq<Seq<char>>) -> nat
    decreases qws.len(),
{
    if qws.len() == 0 {
        0
    } else {
        word_hits(qws.drop_last(), fws) + (if word_meets(qws.last(), fws) {
            1nat
        } else {
            0nat
        })
    }
}

/// The match kind for normalized query `q` and field `f`.
pub open spec fn field_match_spec(q: Seq<char>, f: Seq<char>, field_name: Seq<char>) -> FieldMatch {
    let qc = non_ascii_chars(q);
    let fc = non_ascii_chars(f);
    let qws = split_runs(q, true);
    let fws = split_runs(f, true);
    if q == f || remove_char(q, ' ') == remove_char(f, ' ') {
        FieldMatch::Exact
    } else if field_name == "applicant"@ && starts_with(f, q) {
        FieldMatch::Prefix
    } else if contains(f, q) {
        FieldMatch::Contains
    } else if field_name == "inventor"@ && qc.len() > 0 && fc.len() > 0 && qc[0] == fc[0] && (
    qc.len() <= 2 || fc.len() <= 2) {
        FieldMatch::Surname
    } else if field_name == "inventor"@ && qc.len() > 0 && fc.len() > 0 && (forall|i: int|
        0 <= i < qc.len() ==> fc.contains(#[trigger] qc[i])) {
        FieldMatch::NameContains
    } else if qws.len() > 0 && word_hits(qws, fws) > 0 {
        FieldMatch::Words { matched: word_hits(qws, fws) as usize, total: qws.len() as usize }
    } else {
        FieldMatch::Fuzzy
    }
}

/// Lower-cased, trimmed characters of `s`.
pub fn normalize(s: &str) -> (r: Vec<char>)
    ensures
        r@ == normalized(s@),
{
    let t = trim_str(s);
    let ts = string_of(t.as_slice());
    let l = to_lower(ts.as_str());
    chars_of(l.as_str())
}

fn without_spaces(s: &[char]) -> (r: Vec<char>)
    ensures
        r@ == remove_char(s@, ' '),
{
    let empty: Vec<char> = Vec::new();
    let r = replace_char_chars(s, ' ', empty.as_slice());
    assert(empty@ =~= Seq::<char>::empty());
    r
}

fn meets_any(qw: &Vec<char>, fws: &Vec<Vec<char>>) -> (r: bool)
    ensures
        r == word_meets(qw@, fws.deep_view()),
{
    let mut j: usize = 0;
    while j < fws.len()
        invariant
            j <= fws.len(),
            forall|k: int|
                0 <= k < j ==> !(contains(fws.deep_view()[k], qw@) || contains(
                    qw@,
                    fws.deep_view()[k],
                )),
        decreases fws.len() - j,
    {
        assert(fws.deep_view()[j as int] == fws[j as int]@);
        if contains_chars(fws[j].as_slice(), qw.as_slice()) || contains_chars(
            qw.as_slice(),
            fws[j].as_slice(),
        ) {
            return true;
        }
        j += 1;
    }
    false
}

fn count_word_hits(qws: &Vec<Vec<char>>, fws: &Vec<Vec<char>>) -> (n: usize)
    ensures
        n == word_hits(qws.deep_view(), fws.deep_view()),
{
    let mut n: usize = 0;
    let mut i: usize = 0;
    while i < qws.len()
        invariant
            i <= qws.len(),
            n == word_hits(qws.deep_view().take(i as int), fws.deep_view()),
            n <= i,
        decreases qws.len() - i,
    {
        assert(qws.deep_view().take(i + 1).drop_last() =~= qws.deep_view().take(i as int));
        assert(qws.deep_view()[i as int] == qws[i as int]@);
        if meets_any(&qws[i], fws) {
            n += 1;
        }
        i += 1;
    }
    assert(qws.deep_view().take(qws.len() as int) =~= qws.deep_view());
    n
}

fn all_chars_in(qc: &Vec<char>, fc: &Vec<char>) -> (r: bool)
    ensures
        r == (forall|i: int| 0 <= i < qc@.len() ==> fc@.contains(#[trigger] qc@[i])),
{
    let mut i: usize = 0;
    while i < qc.len()
        invariant
            i <= qc.len(),
            forall|k: int| 0 <= k < i ==> fc@.contains(#[trigger] qc@[k]),
        decreases qc.len() - i,
    {
        if !has_char(fc.as_slice(), qc[i]) {
            return false;
        }
        i += 1;
    }
    true
}

/// Classifies the match of `query` against one field (`"applicant"` or
/// `"inventor"`), both lower-cased and trimmed: exact (ignoring spaces),
/// prefix (applicants), containment, CJK surname or character containment
/// (inventors), word overlap, or fuzzy.
pub fn calculate_field_match(query: &str, field_value: &str, field_name: &str) -> (m: FieldMatch)
    ensures
        m == field_match_spec(normalized(query@), normalized(field_value@), field_name@),
{
    let q = normalize(query);
    let f = normalize(field_value);
    let name = chars_of(field_name);
    let qs = without_spaces(q.as_slice());
    let fs = without_spaces(f.as_slice());
    if seq_eq(q.as_slice(), f.as_slice()) || seq_eq(qs.as_slice(), fs.as_slice()) {
        return FieldMatch::Exact;
    }
    let is_applicant = crate::routes::query::eq_lit(&name, "applicant");
    if is_applicant && crate::text::match_at(f.as_slice(), q.as_slice(), 0) {
        return FieldMatch::Prefix;
    }
    if contains_chars(f.as_slice(), q.as_slice()) {
        return FieldMatch::Contains;
    }
    let is_inventor = crate::routes::query::eq_lit(&name, "inventor");
    let qc = non_ascii_of(q.as_slice());
    let fc = non_ascii_of(f.as_slice());
    if is_inventor && qc.len() > 0 && fc.len() > 0 {
        if qc[0] == fc[0] && (qc.len() <= 2 || fc.len() <= 2) {
            return FieldMatch::Surname;
        }
        if all_chars_in(&qc, &fc) {
            return FieldMatch::NameContains;
        }
    }
    let qws = split_runs_chars(q.as_slice(), true);
    let fws = split_runs_chars(f.as_slice(), true);
    if qws.len() > 0 {
        let hits = count_word_hits(&qws, &fws);
        if hits > 0 {
            return FieldMatch::Words { matched: hits, total: qws.len() };
        }
    }
    FieldMatch::Fuzzy
}

/// Whether a field match scores at least 90 of 100 (exact, prefix,
/// containment, or every query word matched).
pub open spec fn strong_match(m: FieldMatch) -> bool {
    match m {
        FieldMatch::Exact | FieldMatch::Prefix | FieldMatch::Contains => true,
        FieldMatch::Words { matched, total } => matched == total,
        _ => false,
    }
}

/// What decides the relevance of a row in a mixed search.
#[derive(Debug, Clone, Copy, PartialEq, Eq, Structural)]
pub enum MixedMatch {
    /// A strong applicant match; its score is the result.
    Applicant(FieldMatch),
    /// A strong inventor match; its score is the result.
    Inventor(FieldMatch),
    /// The title equals the query.
    TitleExact,
    /// The title starts with the query.
    TitlePrefix,
    /// The title contains the query.
    TitleContains,
    /// The better of the two field scores, and at least 40.
    Best { applicant: FieldMatch, inventor: FieldMatch },
}

pub open spec fn mixed_match_spec(
    query: Seq<char>,
    applicant: Seq<char>,
    inventor: Seq<char>,
    title: Seq<char>,
) -> MixedMatch {
    let q = normalized(query);
    let a = field_match_spec(q, normalized(applicant), "applicant"@);
    let i = field_match_spec(q, normalized(inventor), "inventor"@);
    let t = normalized(title);
    if strong_match(a) {
        MixedMatch::Applicant(a)
    } else if strong_match(i) {
        MixedMatch::Inventor(i)
    } else if t == q {
        MixedMatch::TitleExact
    } else if starts_with(t, q) {
        MixedMatch::TitlePrefix
    } else if contains(t, q) {
        MixedMatch::TitleContains
    } else {
        MixedMatch::Best { applicant: a, inventor: i }
    }
}

fn is_strong(m: FieldMatch) -> (b: bool)
    ensures
        b == strong_match(m),
{
    match m {
        FieldMatch::Exact | FieldMatch::Prefix | FieldMatch::Contains => true,
        FieldMatch::Words { matched, total } => matched == total,
        _ => false,
    }
}

/// Decides the relevance of a row of a mixed search: a strong applicant or
/// inventor match first, then the title (equal, prefix, contained), else the
/// better field match.
pub fn calculate_mixed_match(query: &str, applicant: &str, inventor: &str, title: &str) -> (m:
    MixedMatch)
    ensures
        m == mixed_match_spec(query@, applicant@, inventor@, title@),
{
    let a = calculate_field_match(query, applicant, "applicant");
    proof {
        reveal_strlit("applicant");
    }
    if is_strong(a) {
        return MixedMatch::Applicant(a);
    }
    let i = calculate_field_match(query, inventor, "inventor");
    if is_strong(i) {
        return MixedMatch::Inventor(i);
    }
    let q = normalize(query);
    let t = normalize(title);
    if seq_eq(t.as_slice(), q.as_slice()) {
        return MixedMatch::TitleExact;
    }
    if crate::text::match_at(t.as_slice(), q.as_slice(), 0) {
        return MixedMatch::TitlePrefix;
    }
    if contains_chars(t.as_slice(), q.as_slice()) {
        return MixedMatch::TitleContains;
    }
    MixedMatch::Best { applicant: a, inventor: i }
}

// ───────────────────────── person names ─────────────────────────

pub open spec fn chinese_name_spec(q: Seq<char>) -> bool {
    let t = trim(q);
    let cjk = count_where(t, |c: char| is_non_ascii(c));
    2 <= byte_len(t) <= 6 && t.len() > 0 && 5 * cjk >= 4 * t.len() && !t.contains(' ')
}

/// Capitalized words of a sequence of words.
pub open spec fn capitalized_count(ws: Seq<Seq<char>>) -> nat
    decreases ws.len(),
{
    if ws.len() == 0 {
        0
    } else {
        capitalized_count(ws.drop_last()) + (if ws.last().len() > 0 && char_is_uppercase(
            ws.last()[0],
        ) {
            1nat
        } else {
            0nat
        })
    }
}

pub open spec fn english_name_spec(q: Seq<char>) -> bool {
    let ws = words(q);
    2 <= ws.len() <= 5 && capitalized_count(ws) + 1 >= ws.len()
}

pub open spec fn likely_name_spec(q: Seq<char>) -> bool {
    let t = trim(q);
    t.len() > 0 && 2 <= byte_len(t) <= 50 && (chinese_name_spec(t) || english_name_spec(t))
}

fn count_non_ascii(s: &[char]) -> (n: usize)
    ensures
        n == count_where(s@, |c: char| is_non_ascii(c)),
        n <= s.len(),
{
    let mut n: usize = 0;
    let mut i: usize = 0;
    while i < s.len()
        invariant
            i <= s.len(),
            n == count_where(s@.take(i as int), |c: char| is_non_ascii(c)),
            n <= i,
        decreases s.len() - i,
    {
        assert(s@.take(i + 1).drop_last() =~= s@.take(i as int));
        if s[i] > '\u{7f}' {
            n += 1;
        }
        i += 1;
    }
    assert(s@.take(s.len() as int) =~= s@);
    n
}

/// Whether the trimmed text is 2 to 6 bytes long, mostly (at least four
/// fifths) non-ASCII and without spaces.  (The share is compared exactly;
/// with at most six characters this agrees with the floating comparison.)
pub fn is_chinese_name(query: &str) -> (b: bool)
    ensures
        b == chinese_name_spec(query@),
{
    let t = trim_str(query);
    if !byte_len_le(t.as_slice(), 6) || byte_len_le(t.as_slice(), 1) {
        return false;
    }
    let cjk = count_non_ascii(t.as_slice());
    let total = t.len();
    if total == 0 {
        return false;
    }
    proof {
        crate::text::lemma_byte_len_ge_len(t@);
    }
    total > 0 && 5 * cjk >= 4 * total && !has_char(t.as_slice(), ' ')
}

/// Whether the text has two to five words of which all but at most one
/// start with an upper-case letter.
pub fn is_english_name(query: &str) -> (b: bool)
    ensures
        b == english_name_spec(query@),
{
    let v = chars_of(query);
    let ws = words_of(v.as_slice());
    if ws.len() < 2 || ws.len() > 5 {
        return false;
    }
    let mut cap: usize = 0;
    let mut i: usize = 0;
    while i < ws.len()
        invariant
            i <= ws.len(),
            ws.len() <= 5,
            cap == capitalized_count(ws.deep_view().take(i as int)),
            cap <= i,
        decreases ws.len() - i,
    {
        assert(ws.deep_view().take(i + 1).drop_last() =~= ws.deep_view().take(i as int));
        assert(ws.deep_view()[i as int] == ws[i as int]@);
        if ws[i].len() > 0 && is_upper(ws[i][0]) {
            cap += 1;
        }
        i += 1;
    }
    assert(ws.deep_view().take(ws.len() as int) =~= ws.deep_view());
    cap + 1 >= ws.len()
}

/// Whether the query looks like a person's name: non-empty, 2 to 50 bytes,
/// and a Chinese-style or an English-style name.
pub fn is_likely_name(query: &str) -> (b: bool)
    ensures
        b == likely_name_spec(query@),
{
    let t = trim_str(query);
    if t.len() == 0 || byte_len_le(t.as_slice(), 1) || !byte_len_le(t.as_slice(), 50) {
        return false;
    }
    let ts = string_of(t.as_slice());
    proof {
        crate::text::lemma_trim_idempotent(query@);
    }
    is_chinese_name(ts.as_str()) || is_english_name(ts.as_str())
}


/// Law: a surname match is only reported for the inventor field, and only
/// when the first CJK characters of the (normalized) query and field are
/// the same and one of the two names has at most two CJK characters. Two
/// names whose first CJK characters differ never match by surname.
pub proof fn lemma_surname_needs_same_first_char(query: Seq<char>, field: Seq<char>, field_name: Seq<char>)
    ensures
        field_match_spec(normalized(query), normalized(field), field_name) == FieldMatch::Surname ==> {
            let qc = non_ascii_chars(normalized(query));
            let fc = non_ascii_chars(normalized(field));
            &&& field_name == "inventor"@
            &&& qc.len() > 0
            &&& fc.len() > 0
            &&& qc[0] == fc[0]
            &&& (qc.len() <= 2 || fc.len() <= 2)
        },
{
}

} // verus!
