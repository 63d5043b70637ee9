//! Character-sequence toolkit shared by the library.
//!
//! Text is modelled as `Seq<char>` (the view of `String` and `&str`).  The
//! exec functions here work on `Vec<char>` and are proved against small
//! recursive spec functions, so that callers can state their contracts in
//! terms of trimming, searching and replacing.
use vstd::prelude::*;
use vstd::utf8::encode_utf8;

verus! {

// ───────────────────────── specifications ─────────────────────────

/// Unicode `White_Space`, the set that `char::is_whitespace` tests.
pub open spec fn is_ws(c: char) -> bool {
    ||| ('\u{9}' <= c && c <= '\u{d}')
    ||| c == ' '
    ||| c == '\u{85}'
    ||| c == '\u{a0}'
    ||| c == '\u{1680}'
    ||| ('\u{2000}' <= c && c <= '\u{200a}')
    ||| c == '\u{2028}'
    ||| c == '\u{2029}'
    ||| c == '\u{202f}'
    ||| c == '\u{205f}'
    ||| c == '\u{3000}'
}

pub open spec fn is_digit(c: char) -> bool {
    '0' <= c && c <= '9'
}

pub open spec fn is_alpha(c: char) -> bool {
    ('a' <= c && c <= 'z') || ('A' <= c && c <= 'Z')
}

pub open spec fn is_non_ascii(c: char) -> bool {
    c > '\u{7f}'
}

/// `s` with its leading whitespace removed (`str::trim_start`).
pub open spec fn trim_start(s: Seq<char>) -> Seq<char>
    decreases s.len(),
{
    if s.len() > 0 && is_ws(s[0]) {
        trim_start(s.drop_first())
    } else {
        s
    }
}

/// `s` with its trailing whitespace removed (`str::trim_end`).
pub open spec fn trim_end(s: Seq<char>) -> Seq<char>
    decreases s.len(),
{
    if s.len() > 0 && is_ws(s.last()) {
        trim_end(s.drop_last())
    } else {
        s
    }
}

/// `str::trim`.
pub open spec fn trim(s: Seq<char>) -> Seq<char> {
    trim_end(trim_start(s))
}

/// `p` occurs in `s` starting at position `i`.
pub open spec fn matches_at(s: Seq<char>, p: Seq<char>, i: int) -> bool {
    0 <= i && i + p.len() <= s.len() && s.subrange(i, i + p.len()) == p
}

/// First position at or after `i` where `p` occurs in `s`.
pub open spec fn find_from(s: Seq<char>, p: Seq<char>, i: int) -> Option<int>
    decreases s.len() + 1 - i,
{
    if i < 0 || i + p.len() > s.len() {
        None
    } else if matches_at(s, p, i) {
        Some(i)
    } else {
        find_from(s, p, i + 1)
    }
}

/// `str::find`, counted in characters.
pub open spec fn find(s: Seq<char>, p: Seq<char>) -> Option<int> {
    find_from(s, p, 0)
}

/// `str::contains`.
pub open spec fn contains(s: Seq<char>, p: Seq<char>) -> bool {
    find(s, p) is Some
}

pub open spec fn starts_with(s: Seq<char>, p: Seq<char>) -> bool {
    matches_at(s, p, 0)
}

pub open spec fn ends_with(s: Seq<char>, p: Seq<char>) -> bool {
    p.len() <= s.len() && matches_at(s, p, s.len() - p.len())
}

/// Every occurrence of `c` in `s` replaced by `r` (`str::replace` with a char pattern).
pub open spec fn replace_char(s: Seq<char>, c: char, r: Seq<char>) -> Seq<char>
    decreases s.len(),
{
    if s.len() == 0 {
        s
    } else {
        replace_char(s.drop_last(), c, r) + (if s.last() == c { r } else { seq![s.last()] })
    }
}

/// Replacing `c` by `r` leaves no `x` behind when `x` is `c` itself or
/// absent from the text, and absent from `r`.
pub proof fn lemma_replace_char_absent(s: Seq<char>, c: char, r: Seq<char>, x: char)
    requires
        x == c || !s.contains(x),
        !r.contains(x),
    ensures
        !replace_char(s, c, r).contains(x),
    decreases s.len(),
{
    if s.len() > 0 {
        let p = s.drop_last();
        if !s.contains(x) {
            assert forall|i: int| 0 <= i < p.len() implies p[i] != x by {
                assert(s[i] == p[i]);
            }
        }
        lemma_replace_char_absent(p, c, r, x);
        let tail = if s.last() == c { r } else { seq![s.last()] };
        let whole = replace_char(p, c, r) + tail;
        assert(replace_char(s, c, r) == whole);
        assert forall|i: int| 0 <= i < whole.len() implies whole[i] != x by {
            if i < replace_char(p, c, r).len() {
                assert(whole[i] == replace_char(p, c, r)[i]);
            } else {
                assert(whole[i] == tail[i - replace_char(p, c, r).len()]);
                if s.last() != c {
                    assert(s[s.len() - 1] == s.last());
                }
            }
        }
    }
}

/// `s` without any occurrence of `c`.
pub open spec fn remove_char(s: Seq<char>, c: char) -> Seq<char> {
    replace_char(s, c, Seq::empty())
}

/// Bytes that `c` takes in UTF-8.
pub open spec fn utf8_width(c: char) -> nat {
    if (c as u32) < 0x80 {
        1
    } else if (c as u32) < 0x800 {
        2
    } else if (c as u32) < 0x10000 {
        3
    } else {
        4
    }
}

/// Length in bytes of the UTF-8 encoding of `s` (`str::len`).
pub open spec fn byte_len(s: Seq<char>) -> nat
    decreases s.len(),
{
    if s.len() == 0 {
        0
    } else {
        byte_len(s.drop_last()) + utf8_width(s.last())
    }
}

/// Number of leading characters of `s` whose encoding fits in `max` bytes.
pub open spec fn chars_within_bytes(s: Seq<char>, max: nat) -> nat
    decreases s.len(),
{
    if s.len() == 0 {
        0
    } else if byte_len(s) <= max {
        s.len()
    } else {
        chars_within_bytes(s.drop_last(), max)
    }
}

/// The characters of `s` whose encoding lies within its first `n` bytes
/// (`&s[..n]` when byte `n` starts a character).
pub open spec fn head_bytes(s: Seq<char>, n: nat) -> Seq<char> {
    s.take(chars_within_bytes(s, n) as int)
}

/// The first `n` characters of `s`, or all of it (`chars().take(n)`).
pub open spec fn take_chars(s: Seq<char>, n: nat) -> Seq<char> {
    if n <= s.len() {
        s.take(n as int)
    } else {
        s
    }
}

/// Join `parts` with `sep` between consecutive parts (`slice::join`).
pub open spec fn join(parts: Seq<Seq<char>>, sep: Seq<char>) -> Seq<char>
    decreases parts.len(),
{
    if parts.len() == 0 {
        Seq::empty()
    } else if parts.len() == 1 {
        parts[0]
    } else {
        join(parts.drop_last(), sep) + sep + parts.last()
    }
}

/// A separator between pieces: whitespace, and with `punct` also `,` and `.`.
pub open spec fn is_sep(c: char, punct: bool) -> bool {
    is_ws(c) || (punct && (c == ',' || c == '.'))
}

/// The maximal runs of non-separator characters of `s`, in order (the
/// non-empty pieces of a split at separators).
pub open spec fn split_runs(s: Seq<char>, punct: bool) -> Seq<Seq<char>>
    decreases s.len(),
{
    if s.len() == 0 {
        Seq::empty()
    } else if is_sep(s.last(), punct) {
        split_runs(s.drop_last(), punct)
    } else if s.len() >= 2 && !is_sep(s[s.len() - 2], punct) {
        let w = split_runs(s.drop_last(), punct);
        w.update(w.len() - 1, w.last().push(s.last()))
    } else {
        split_runs(s.drop_last(), punct).push(seq![s.last()])
    }
}

/// `str::split_whitespace`.
pub open spec fn words(s: Seq<char>) -> Seq<Seq<char>> {
    split_runs(s, false)
}

/// The characters of `s` above U+007F, in order.
pub open spec fn non_ascii_chars(s: Seq<char>) -> Seq<char>
    decreases s.len(),
{
    if s.len() == 0 {
        Seq::empty()
    } else if is_non_ascii(s.last()) {
        non_ascii_chars(s.drop_last()).push(s.last())
    } else {
        non_ascii_chars(s.drop_last())
    }
}

/// How many characters of `s` satisfy `p`.
pub open spec fn count_where(s: Seq<char>, p: spec_fn(char) -> bool) -> nat
    decreases s.len(),
{
    if s.len() == 0 {
        0
    } else {
        count_where(s.drop_last(), p) + (if p(s.last()) {
            1nat
        } else {
            0nat
        })
    }
}

/// The lines of `s` (`str::lines`): split at `'\n'`, a trailing `'\r'` dropped
/// from each line, and no final empty line after a terminating `'\n'`.
pub open spec fn raw_lines(s: Seq<char>) -> Seq<Seq<char>>
    decreases s.len(),
{
    if s.len() == 0 {
        seq![Seq::empty()]
    } else {
        let prev = raw_lines(s.drop_last());
        if s.last() == '\n' {
            prev.push(Seq::empty())
        } else {
            prev.update(prev.len() - 1, prev.last().push(s.last()))
        }
    }
}

pub open spec fn strip_cr(l: Seq<char>) -> Seq<char> {
    if l.len() > 0 && l.last() == '\r' {
        l.drop_last()
    } else {
        l
    }
}

/// `str::lines`: lines ended by `'\n'` lose a preceding `'\r'`; a last line
/// without terminator is kept as it is; nothing follows a final `'\n'`.
pub open spec fn lines(s: Seq<char>) -> Seq<Seq<char>> {
    let raw = raw_lines(s);
    let ended = raw.drop_last().map_values(|l: Seq<char>| strip_cr(l));
    if raw.last().len() == 0 {
        ended
    } else {
        ended.push(raw.last())
    }
}

/// The result of `str::to_lowercase` on `s`.
pub uninterp spec fn lowercase(s: Seq<char>) -> Seq<char>;

/// The result of `str::to_uppercase` on `s`.
pub uninterp spec fn uppercase(s: Seq<char>) -> Seq<char>;

/// The result of `char::is_uppercase` on `c`.
pub uninterp spec fn char_is_uppercase(c: char) -> bool;

/// The result of `char::is_alphanumeric` on `c`.
pub uninterp spec fn char_is_alphanumeric(c: char) -> bool;

// ───────────────────────── std wrappers ─────────────────────────

/// `String::push`: appends one character.
#[verifier::external_body]
pub fn push_char(s: &mut String, c: char)
    ensures
        final(s)@ == old(s)@.push(c),
{
    s.push(c);
}

/// `str::to_lowercase`; the result is named by `lowercase`.
#[verifier::external_body]
pub fn to_lower(s: &str) -> (r: String)
    ensures
        r@ == lowercase(s@),
{
    s.to_lowercase()
}

/// `str::to_uppercase`; the result is named by `uppercase`.
#[verifier::external_body]
pub fn to_upper(s: &str) -> (r: String)
    ensures
        r@ == uppercase(s@),
{
    s.to_uppercase()
}

/// `char::is_uppercase`; the result is named by `char_is_uppercase`.
#[verifier::external_body]
pub fn is_upper(c: char) -> (r: bool)
    ensures
        r == char_is_uppercase(c),
{
    c.is_uppercase()
}

/// `char::is_alphanumeric`; the result is named by `char_is_alphanumeric`.
#[verifier::external_body]
pub fn is_alphanumeric(c: char) -> (r: bool)
    ensures
        r == char_is_alphanumeric(c),
{
    c.is_alphanumeric()
}

// ───────────────────────── conversions ─────────────────────────

pub fn chars_of(s: &str) -> (v: Vec<char>)
    ensures
        v@ == s@,
{
    let mut v: Vec<char> = Vec::new();
    for c in it: s.chars()
        invariant
            v@ == it.seq().take(it.index() as int),
            it.seq() == s@,
    {
        v.push(c);
    }
    v
}

pub fn string_of(v: &[char]) -> (s: String)
    ensures
        s@ == v@,
{
    let mut s = String::new();
    let mut i: usize = 0;
    while i < v.len()
        invariant
            i <= v.len(),
            s@ == v@.take(i as int),
        decreases v.len() - i,
    {
        push_char(&mut s, v[i]);
        assert(v@.take(i as int).push(v@[i as int]) =~= v@.take(i + 1));
        i += 1;
    }
    assert(v@.take(v.len() as int) =~= v@);
    s
}

/// Appends the characters of `v` to `s`.
pub fn push_chars(s: &mut String, v: &[char])
    ensures
        final(s)@ == old(s)@ + v@,
{
    let mut i: usize = 0;
    while i < v.len()
        invariant
            i <= v.len(),
            s@ == old(s)@ + v@.take(i as int),
        decreases v.len() - i,
    {
        push_char(s, v[i]);
        assert(old(s)@ + v@.take(i as int).push(v@[i as int]) =~= old(s)@ + v@.take(i + 1));
        i += 1;
    }
    assert(v@.take(v.len() as int) =~= v@);
}

/// Appends the text of `t` to `s`.
pub fn push_str(s: &mut String, t: &str)
    ensures
        final(s)@ == old(s)@ + t@,
{
    let v = chars_of(t);
    push_chars(s, v.as_slice());
}

pub fn seq_eq(a: &[char], b: &[char]) -> (r: bool)
    ensures
        r == (a@ == b@),
{
    if a.len() != b.len() {
        return false;
    }
    let mut i: usize = 0;
    while i < a.len()
        invariant
            a.len() == b.len(),
            i <= a.len(),
            forall|k: int| 0 <= k < i ==> a@[k] == b@[k],
        decreases a.len() - i,
    {
        if a[i] != b[i] {
            return false;
        }
        i += 1;
    }
    assert(a@ =~= b@);
    true
}

// ───────────────────────── classification ─────────────────────────

pub fn char_is_ws(c: char) -> (r: bool)
    ensures
        r == is_ws(c),
{
    ('\u{9}' <= c && c <= '\u{d}') || c == ' ' || c == '\u{85}' || c == '\u{a0}' || c
        == '\u{1680}' || ('\u{2000}' <= c && c <= '\u{200a}') || c == '\u{2028}' || c
        == '\u{2029}' || c == '\u{202f}' || c == '\u{205f}' || c == '\u{3000}'
}

pub fn char_is_digit(c: char) -> (r: bool)
    ensures
        r == is_digit(c),
{
    '0' <= c && c <= '9'
}

pub fn char_is_alpha(c: char) -> (r: bool)
    ensures
        r == is_alpha(c),
{
    ('a' <= c && c <= 'z') || ('A' <= c && c <= 'Z')
}

pub fn char_width(c: char) -> (w: usize)
    ensures
        w == utf8_width(c),
{
    if '\u{80}' > c {
        1
    } else if '\u{800}' > c {
        2
    } else if '\u{10000}' > c {
        3
    } else {
        4
    }
}


// ───────────────────────── trimming ─────────────────────────

proof fn lemma_trim_start_skip(s: Seq<char>, i: int)
    requires
        0 <= i < s.len(),
        is_ws(s[i]),
    ensures
        trim_start(s.subrange(i, s.len() as int)) == trim_start(s.subrange(i + 1, s.len() as int)),
{
    let t = s.subrange(i, s.len() as int);
    assert(t.drop_first() =~= s.subrange(i + 1, s.len() as int));
}

proof fn lemma_trim_end_skip(s: Seq<char>, j: int)
    requires
        0 < j <= s.len(),
        is_ws(s[j - 1]),
    ensures
        trim_end(s.subrange(0, j)) == trim_end(s.subrange(0, j - 1)),
{
    let t = s.subrange(0, j);
    assert(t.drop_last() =~= s.subrange(0, j - 1));
}

/// Index range `[lo, hi)` of `trim(s)` within `s`.
pub fn trim_bounds(s: &[char]) -> (r: (usize, usize))
    ensures
        r.0 <= r.1 <= s.len(),
        s@.subrange(r.0 as int, r.1 as int) == trim(s@),
{
    let mut lo: usize = 0;
    assert(s@.subrange(0, s.len() as int) =~= s@);
    while lo < s.len() && char_is_ws(s[lo])
        invariant
            lo <= s.len(),
            trim_start(s@) == trim_start(s@.subrange(lo as int, s.len() as int)),
        decreases s.len() - lo,
    {
        proof {
            lemma_trim_start_skip(s@, lo as int);
        }
        lo += 1;
    }
    let ghost t = s@.subrange(lo as int, s.len() as int);
    assert(trim_start(t) == t);
    assert(trim_start(s@) == t);
    let mut hi: usize = s.len();
    while hi > lo && char_is_ws(s[hi - 1])
        invariant
            lo <= hi <= s.len(),
            t == s@.subrange(lo as int, s.len() as int),
            trim_end(t) == trim_end(s@.subrange(lo as int, hi as int)),
        decreases hi,
    {
        proof {
            let u = s@.subrange(lo as int, hi as int);
            assert(u.drop_last() =~= s@.subrange(lo as int, hi - 1));
        }
        hi -= 1;
    }
    let ghost u = s@.subrange(lo as int, hi as int);
    assert(trim_end(u) == u);
    (lo, hi)
}

/// `str::trim` on characters.
pub fn trim_chars(s: &[char]) -> (r: Vec<char>)
    ensures
        r@ == trim(s@),
{
    let (lo, hi) = trim_bounds(s);
    slice_range(s, lo, hi)
}

/// `str::trim`.
pub fn trim_str(s: &str) -> (r: Vec<char>)
    ensures
        r@ == trim(s@),
{
    let v = chars_of(s);
    trim_chars(v.as_slice())
}

/// Copy of `s[lo..hi]`.
pub fn slice_range(s: &[char], lo: usize, hi: usize) -> (r: Vec<char>)
    requires
        lo <= hi <= s.len(),
    ensures
        r@ == s@.subrange(lo as int, hi as int),
{
    let mut r: Vec<char> = Vec::new();
    let mut i: usize = lo;
    while i < hi
        invariant
            lo <= i <= hi <= s.len(),
            r@ == s@.subrange(lo as int, i as int),
        decreases hi - i,
    {
        r.push(s[i]);
        assert(s@.subrange(lo as int, i as int).push(s@[i as int]) =~= s@.subrange(lo as int, i + 1));
        i += 1;
    }
    r
}

/// `chars().take(n)`.
pub fn take_n(s: &[char], n: usize) -> (r: Vec<char>)
    ensures
        r@ == take_chars(s@, n as nat),
{
    if n <= s.len() {
        slice_range(s, 0, n)
    } else {
        let r = slice_range(s, 0, s.len());
        assert(r@ =~= s@);
        r
    }
}

// ───────────────────────── searching ─────────────────────────

/// Whether `p` occurs in `s` at `i`.
pub fn match_at(s: &[char], p: &[char], i: usize) -> (r: bool)
    ensures
        r == matches_at(s@, p@, i as int),
{
    if i > s.len() || p.len() > s.len() - i {
        return false;
    }
    let mut k: usize = 0;
    while k < p.len()
        invariant
            i + p.len() <= s.len(),
            k <= p.len(),
            forall|j: int| 0 <= j < k ==> s@[i + j] == p@[j],
        decreases p.len() - k,
    {
        if s[i + k] != p[k] {
            assert(s@.subrange(i as int, i + p.len())[k as int] != p@[k as int]);
            return false;
        }
        k += 1;
    }
    assert(s@.subrange(i as int, i + p.len()) =~= p@);
    true
}

proof fn lemma_find_from_none_past(s: Seq<char>, p: Seq<char>, i: int)
    requires
        i >= 0,
        i + p.len() > s.len(),
    ensures
        find_from(s, p, i) is None,
{
}

/// `find_from(s, p, i)` is the least match position at or after `i`.
pub proof fn lemma_find_from_spec(s: Seq<char>, p: Seq<char>, i: int)
    requires
        0 <= i,
    ensures
        find_from(s, p, i) matches Some(k) ==> i <= k && matches_at(s, p, k) && forall|j: int|
            i <= j < k ==> !matches_at(s, p, j),
        find_from(s, p, i) is None ==> forall|j: int| i <= j ==> !matches_at(s, p, j),
    decreases s.len() + 1 - i,
{
    if i + p.len() > s.len() {
    } else if matches_at(s, p, i) {
    } else {
        lemma_find_from_spec(s, p, i + 1);
    }
}

/// First occurrence of `p` in `s` at or after `from`.
pub fn find_chars_from(s: &[char], p: &[char], from: usize) -> (r: Option<usize>)
    ensures
        r matches Some(k) ==> find_from(s@, p@, from as int) == Some(k as int),
        r is None ==> find_from(s@, p@, from as int) is None,
{
    if p.len() == 0 {
        if from <= s.len() {
            assert(s@.subrange(from as int, from as int) =~= p@);
            return Some(from);
        }
        return None;
    }
    let mut i: usize = from;
    while i < s.len() && p.len() <= s.len() - i
        invariant
            from <= i,
            p.len() > 0,
            find_from(s@, p@, from as int) == find_from(s@, p@, i as int),
        decreases s.len() - i,
    {
        if match_at(s, p, i) {
            return Some(i);
        }
        i += 1;
    }
    None
}

/// `str::find` on characters.
pub fn find_chars(s: &[char], p: &[char]) -> (r: Option<usize>)
    ensures
        r matches Some(k) ==> find(s@, p@) == Some(k as int),
        r is None ==> find(s@, p@) is None,
{
    find_chars_from(s, p, 0)
}

/// `str::contains` on characters.
pub fn contains_chars(s: &[char], p: &[char]) -> (r: bool)
    ensures
        r == contains(s@, p@),
{
    find_chars(s, p).is_some()
}

/// `str::contains` with a `&str` pattern.
pub fn contains_str(s: &[char], p: &str) -> (r: bool)
    ensures
        r == contains(s@, p@),
{
    let pv = chars_of(p);
    contains_chars(s, pv.as_slice())
}

/// `str::starts_with` with a `&str` pattern.
pub fn starts_with_str(s: &[char], p: &str) -> (r: bool)
    ensures
        r == starts_with(s@, p@),
{
    let pv = chars_of(p);
    match_at(s, pv.as_slice(), 0)
}

/// `str::ends_with` with a `&str` pattern.
pub fn ends_with_str(s: &[char], p: &str) -> (r: bool)
    ensures
        r == ends_with(s@, p@),
{
    let pv = chars_of(p);
    if pv.len() > s.len() {
        false
    } else {
        match_at(s, pv.as_slice(), s.len() - pv.len())
    }
}

/// Whether the character `c` occurs in `s`.
pub fn has_char(s: &[char], c: char) -> (r: bool)
    ensures
        r == s@.contains(c),
{
    let mut i: usize = 0;
    while i < s.len()
        invariant
            i <= s.len(),
            forall|k: int| 0 <= k < i ==> s@[k] != c,
        decreases s.len() - i,
    {
        if s[i] == c {
            return true;
        }
        i += 1;
    }
    false
}

// ───────────────────────── rewriting ─────────────────────────

/// `str::replace(c, r)` with a char pattern.
pub fn replace_char_chars(s: &[char], c: char, r: &[char]) -> (out: Vec<char>)
    ensures
        out@ == replace_char(s@, c, r@),
{
    let mut out: Vec<char> = Vec::new();
    let mut i: usize = 0;
    while i < s.len()
        invariant
            i <= s.len(),
            out@ == replace_char(s@.take(i as int), c, r@),
        decreases s.len() - i,
    {
        let ghost prev = out@;
        if s[i] == c {
            let mut k: usize = 0;
            while k < r.len()
                invariant
                    k <= r.len(),
                    out@ == prev + r@.take(k as int),
                decreases r.len() - k,
            {
                out.push(r[k]);
                assert(prev + r@.take(k as int).push(r@[k as int]) =~= prev + r@.take(k + 1));
                k += 1;
            }
            assert(r@.take(r.len() as int) =~= r@);
        } else {
            out.push(s[i]);
        }
        assert(s@.take(i + 1).drop_last() =~= s@.take(i as int));
        i += 1;
    }
    assert(s@.take(s.len() as int) =~= s@);
    out
}

/// Byte length of the UTF-8 encoding of `s` (`str::len`).
pub fn byte_len_chars(s: &[char]) -> (n: usize)
    requires
        byte_len(s@) <= usize::MAX,
    ensures
        n == byte_len(s@),
{
    let mut n: usize = 0;
    let mut i: usize = 0;
    while i < s.len()
        invariant
            i <= s.len(),
            n == byte_len(s@.take(i as int)),
            byte_len(s@) <= usize::MAX,
        decreases s.len() - i,
    {
        proof {
            assert(s@.take(i + 1).drop_last() =~= s@.take(i as int));
            lemma_byte_len_prefix(s@, i + 1);
        }
        n = n + char_width(s[i]);
        i += 1;
    }
    assert(s@.take(s.len() as int) =~= s@);
    n
}

/// The byte length of a prefix is at most that of the whole.
pub proof fn lemma_byte_len_prefix(s: Seq<char>, k: int)
    requires
        0 <= k <= s.len(),
    ensures
        byte_len(s.take(k)) <= byte_len(s),
    decreases s.len() - k,
{
    if k < s.len() {
        lemma_byte_len_prefix(s, k + 1);
        assert(s.take(k + 1).drop_last() =~= s.take(k));
    } else {
        assert(s.take(k) =~= s);
    }
}

/// Byte length never falls below the number of characters.
pub proof fn lemma_byte_len_ge_len(s: Seq<char>)
    ensures
        byte_len(s) >= s.len(),
    decreases s.len(),
{
    if s.len() > 0 {
        lemma_byte_len_ge_len(s.drop_last());
    }
}


// ───────────────────────── splitting and joining ─────────────────────────

proof fn lemma_split_runs_nonempty(s: Seq<char>, punct: bool)
    requires
        s.len() > 0,
        !is_sep(s.last(), punct),
    ensures
        split_runs(s, punct).len() > 0,
    decreases s.len(),
{
    if s.len() >= 2 && !is_sep(s[s.len() - 2], punct) {
        lemma_split_runs_nonempty(s.drop_last(), punct);
    }
}

pub fn char_is_sep(c: char, punct: bool) -> (r: bool)
    ensures
        r == is_sep(c, punct),
{
    char_is_ws(c) || (punct && (c == ',' || c == '.'))
}

/// The pieces of `s` between separators, empty pieces dropped.
pub fn split_runs_chars(s: &[char], punct: bool) -> (out: Vec<Vec<char>>)
    ensures
        out.deep_view() == split_runs(s@, punct),
{
    let mut out: Vec<Vec<char>> = Vec::new();
    let mut i: usize = 0;
    while i < s.len()
        invariant
            i <= s.len(),
            out.deep_view() == split_runs(s@.take(i as int), punct),
        decreases s.len() - i,
    {
        let c = s[i];
        let ghost pre = s@.take(i as int);
        assert(s@.take(i + 1).drop_last() =~= pre);
        assert(s@.take(i + 1).last() == c);
        if char_is_sep(c, punct) {
        } else if i >= 1 && !char_is_sep(s[i - 1], punct) {
            proof {
                assert(s@.take(i + 1)[i - 1] == s@[i - 1]);
                assert(pre.last() == s@[i - 1]);
                lemma_split_runs_nonempty(pre, punct);
            }
            let ghost before = out.deep_view();
            let mut w = out.pop().unwrap();
            w.push(c);
            out.push(w);
            assert(out.deep_view() =~~= before.update(before.len() - 1, before.last().push(c)));
        } else {
            let ghost before = out.deep_view();
            let mut w: Vec<char> = Vec::new();
            w.push(c);
            out.push(w);
            assert(out.deep_view() =~~= before.push(seq![c]));
        }
        i += 1;
    }
    assert(s@.take(s.len() as int) =~= s@);
    out
}

/// `str::split_whitespace`.
pub fn words_of(s: &[char]) -> (out: Vec<Vec<char>>)
    ensures
        out.deep_view() == words(s@),
{
    split_runs_chars(s, false)
}

/// `parts.join(sep)`.
pub fn join_chars(parts: &Vec<Vec<char>>, sep: &[char]) -> (r: Vec<char>)
    ensures
        r@ == join(parts.deep_view(), sep@),
{
    let mut r: Vec<char> = Vec::new();
    let mut i: usize = 0;
    while i < parts.len()
        invariant
            i <= parts.len(),
            r@ == join(parts.deep_view().take(i as int), sep@),
        decreases parts.len() - i,
    {
        let ghost pre = parts.deep_view().take(i as int);
        assert(parts.deep_view().take(i + 1).drop_last() =~= pre);
        if i > 0 {
            append_chars(&mut r, sep);
        }
        append_chars(&mut r, parts[i].as_slice());
        proof {
            if i == 0 {
                assert(r@ =~= parts.deep_view().take(1)[0]);
            }
        }
        i += 1;
    }
    assert(parts.deep_view().take(parts.len() as int) =~= parts.deep_view());
    r
}

/// Appends `v` to the character vector `r`.
pub fn append_chars(r: &mut Vec<char>, v: &[char])
    ensures
        final(r)@ == old(r)@ + v@,
{
    let mut k: usize = 0;
    while k < v.len()
        invariant
            k <= v.len(),
            r@ == old(r)@ + v@.take(k as int),
        decreases v.len() - k,
    {
        r.push(v[k]);
        assert(old(r)@ + v@.take(k as int).push(v@[k as int]) =~= old(r)@ + v@.take(k + 1));
        k += 1;
    }
    assert(v@.take(v.len() as int) =~= v@);
}

/// The characters above U+007F.
pub fn non_ascii_of(s: &[char]) -> (r: Vec<char>)
    ensures
        r@ == non_ascii_chars(s@),
{
    let mut r: Vec<char> = Vec::new();
    let mut i: usize = 0;
    while i < s.len()
        invariant
            i <= s.len(),
            r@ == non_ascii_chars(s@.take(i as int)),
        decreases s.len() - i,
    {
        assert(s@.take(i + 1).drop_last() =~= s@.take(i as int));
        if s[i] > '\u{7f}' {
            r.push(s[i]);
        }
        i += 1;
    }
    assert(s@.take(s.len() as int) =~= s@);
    r
}

/// Whether the UTF-8 encoding of `s` takes at most `max` bytes.
pub fn byte_len_le(s: &[char], max: usize) -> (r: bool)
    ensures
        r == (byte_len(s@) <= max),
{
    let mut n: usize = 0;
    let mut i: usize = 0;
    while i < s.len()
        invariant
            i <= s.len(),
            n == byte_len(s@.take(i as int)),
            n <= max,
        decreases s.len() - i,
    {
        assert(s@.take(i + 1).drop_last() =~= s@.take(i as int));
        let w = char_width(s[i]);
        if w > max - n {
            proof {
                lemma_byte_len_prefix(s@, i + 1);
            }
            return false;
        }
        n = n + w;
        i += 1;
    }
    assert(s@.take(s.len() as int) =~= s@);
    true
}


proof fn lemma_trim_start_head(s: Seq<char>)
    ensures
        trim_start(s).len() > 0 ==> !is_ws(trim_start(s)[0]),
    decreases s.len(),
{
    if s.len() > 0 && is_ws(s[0]) {
        lemma_trim_start_head(s.drop_first());
    }
}

proof fn lemma_trim_end_prefix(s: Seq<char>)
    ensures
        trim_end(s).len() <= s.len(),
        trim_end(s) =~= s.subrange(0, trim_end(s).len() as int),
        trim_end(s).len() > 0 ==> !is_ws(trim_end(s).last()),
    decreases s.len(),
{
    if s.len() > 0 && is_ws(s.last()) {
        lemma_trim_end_prefix(s.drop_last());
    }
}

/// `trim` is idempotent: the trimmed text has no whitespace at either end.
pub proof fn lemma_trim_idempotent(s: Seq<char>)
    ensures
        trim(trim(s)) == trim(s),
{
    let a = trim_start(s);
    let t = trim_end(a);
    lemma_trim_start_head(s);
    lemma_trim_end_prefix(a);
    if t.len() > 0 {
        assert(t[0] == a[0]);
        assert(trim_start(t) == t);
        assert(trim_end(t) == t);
    } else {
        assert(trim_start(t) == t);
    }
}


// ───────────────────────── lines ─────────────────────────

proof fn lemma_raw_lines_nonempty(s: Seq<char>)
    ensures
        raw_lines(s).len() >= 1,
    decreases s.len(),
{
    if s.len() > 0 {
        lemma_raw_lines_nonempty(s.drop_last());
    }
}

/// `str::lines`.
pub fn lines_of(s: &[char]) -> (out: Vec<Vec<char>>)
    ensures
        out.deep_view() == lines(s@),
{
    let mut raw: Vec<Vec<char>> = Vec::new();
    raw.push(Vec::new());
    let mut i: usize = 0;
    assert(raw.deep_view() =~~= seq![Seq::<char>::empty()]);
    assert(s@.take(0) =~= Seq::<char>::empty());
    while i < s.len()
        invariant
            i <= s.len(),
            raw.deep_view() == raw_lines(s@.take(i as int)),
            raw@.len() >= 1,
        decreases s.len() - i,
    {
        assert(s@.take(i + 1).drop_last() =~= s@.take(i as int));
        assert(s@.take(i + 1).last() == s@[i as int]);
        let ghost before = raw.deep_view();
        if s[i] == '\n' {
            raw.push(Vec::new());
            assert(raw.deep_view() =~~= before.push(Seq::<char>::empty()));
        } else {
            let mut last = raw.pop().unwrap();
            last.push(s[i]);
            raw.push(last);
            assert(raw.deep_view() =~~= before.update(before.len() - 1, before.last().push(s@[i as int])));
        }
        i += 1;
    }
    assert(s@.take(s.len() as int) =~= s@);
    proof {
        lemma_raw_lines_nonempty(s@);
    }
    let ghost rv = raw.deep_view();
    let last = raw.pop().unwrap();
    let mut out: Vec<Vec<char>> = Vec::new();
    let mut k: usize = 0;
    while k < raw.len()
        invariant
            k <= raw@.len(),
            raw@.len() + 1 == rv.len(),
            forall|q: int| 0 <= q < raw@.len() ==> raw@[q]@ == rv[q],
            out.deep_view() =~= rv.drop_last().map_values(|l: Seq<char>| strip_cr(l)).take(k as int),
        decreases raw@.len() - k,
    {
        let l = &raw[k];
        let stripped = if l.len() > 0 && l[l.len() - 1] == '\r' {
            slice_range(l.as_slice(), 0, l.len() - 1)
        } else {
            slice_range(l.as_slice(), 0, l.len())
        };
        assert(l@.subrange(0, l@.len() as int) =~= l@);
        assert(l@.subrange(0, l@.len() - 1) =~= l@.drop_last());
        let ghost before = out.deep_view();
        out.push(stripped);
        assert(out.deep_view() =~~= before.push(strip_cr(rv[k as int])));
        k += 1;
    }
    assert(rv.drop_last().map_values(|l: Seq<char>| strip_cr(l)).take(raw@.len() as int) =~= rv.drop_last().map_values(|l: Seq<char>| strip_cr(l)));
    if last.len() > 0 {
        let ghost before = out.deep_view();
        out.push(last);
        assert(out.deep_view() =~~= before.push(rv.last()));
    }
    out
}

/// Leading characters removed while they are `-`, `*`, ASCII digits, `.` or spaces.
pub open spec fn is_bullet(c: char) -> bool {
    c == '-' || c == '*' || is_digit(c) || c == '.' || c == ' '
}

pub open spec fn trim_bullets(s: Seq<char>) -> Seq<char>
    decreases s.len(),
{
    if s.len() > 0 && is_bullet(s[0]) {
        trim_bullets(s.drop_first())
    } else {
        s
    }
}

/// Strips leading list markers (`-`, `*`, digits, `.`, spaces).
pub fn trim_bullets_chars(s: &[char]) -> (r: Vec<char>)
    ensures
        r@ == trim_bullets(s@),
{
    let mut lo: usize = 0;
    assert(s@.subrange(0, s.len() as int) =~= s@);
    while lo < s.len() && (s[lo] == '-' || s[lo] == '*' || char_is_digit(s[lo]) || s[lo] == '.'
        || s[lo] == ' ')
        invariant
            lo <= s.len(),
            trim_bullets(s@) == trim_bullets(s@.subrange(lo as int, s.len() as int)),
        decreases s.len() - lo,
    {
        assert(s@.subrange(lo as int, s.len() as int).drop_first() =~= s@.subrange(lo + 1, s.len() as int));
        lo += 1;
    }
    slice_range(s, lo, s.len())
}


/// Index (in characters) of the prefix of `s` that takes exactly `max`
/// bytes, if the encoding of `s` is longer than that.
pub fn byte_prefix(s: &Vec<char>, max: usize) -> (k: usize)
    requires
        byte_len(s@) > max,
    ensures
        k as nat == chars_within_bytes(s@, max as nat),
        k <= s@.len(),
{
    let mut k: usize = s.len();
    proof {
        assert(s@.take(k as int) =~= s@);
    }
    while k > 0 && !byte_len_le(slice_range(s.as_slice(), 0, k).as_slice(), max)
        invariant
            k <= s@.len(),
            chars_within_bytes(s@, max as nat) == chars_within_bytes(s@.take(k as int), max as nat),
        decreases k,
    {
        assert(s@.take(k as int).drop_last() =~= s@.take(k - 1));
        k -= 1;
    }
    if k > 0 {
        assert(s@.subrange(0, k as int) =~= s@.take(k as int));
    } else {
        assert(s@.take(0) =~= Seq::<char>::empty());
    }
    k
}



/// The longest prefix of `s` whose encoding fits in `n` bytes, so that no
/// character is split.
pub fn clip_bytes(s: &str, n: usize) -> (r: String)
    requires
        n <= usize::MAX - 4,
    ensures
        r@ == head_bytes(s@, n as nat),
{
    let v = chars_of(s);
    if byte_len_le(v.as_slice(), n) {
        assert(chars_within_bytes(s@, n as nat) == s@.len());
        assert(s@.take(s@.len() as int) =~= s@);
        string_of(v.as_slice())
    } else {
        let k = byte_prefix(&v, n);
        let t = slice_range(v.as_slice(), 0, k);
        assert(t@ =~= head_bytes(s@, n as nat));
        string_of(t.as_slice())
    }
}

/// `str::split(p)` for a non-empty `p`, from position `start`: the pieces
/// between successive occurrences.
pub open spec fn split_from(s: Seq<char>, p: Seq<char>, start: int) -> Seq<Seq<char>>
    decreases s.len() - start,
{
    if start < 0 || start > s.len() || p.len() == 0 {
        seq![s.skip(start)]
    } else {
        match find_from(s, p, start) {
            Some(i) => if start <= i && i + p.len() <= s.len() {
                seq![s.subrange(start, i)] + split_from(s, p, i + p.len())
            } else {
                seq![s.skip(start)]
            },
            None => seq![s.skip(start)],
        }
    }
}

/// `str::split(p)`.
pub open spec fn split_on(s: Seq<char>, p: Seq<char>) -> Seq<Seq<char>> {
    split_from(s, p, 0)
}

/// `s.split(p)` for a non-empty `p`.
pub fn split_chars(s: &[char], p: &[char]) -> (r: Vec<Vec<char>>)
    requires
        p@.len() > 0,
    ensures
        r.deep_view() == split_on(s@, p@),
{
    let mut out: Vec<Vec<char>> = Vec::new();
    let mut start: usize = 0;
    let slen = s.len();
    loop
        invariant
            slen == s@.len(),
            p@.len() > 0,
            start <= s@.len(),
            split_on(s@, p@) == out.deep_view() + split_from(s@, p@, start as int),
        decreases s@.len() - start,
    {
        proof {
            lemma_find_from_spec(s@, p@, start as int);
        }
        match find_chars_from(s, p, start) {
            Some(i) => {
                assert(matches_at(s@, p@, i as int));
                assert(i + p@.len() <= s@.len());
                let piece = slice_range(s, start, i);
                let ghost before = out.deep_view();
                out.push(piece);
                assert(out.deep_view() =~~= before.push(s@.subrange(start as int, i as int)));
                assert(split_from(s@, p@, start as int) =~= seq![s@.subrange(start as int, i as int)] + split_from(
                    s@,
                    p@,
                    i + p@.len(),
                ));
                assert(before + split_from(s@, p@, start as int) =~= out.deep_view() + split_from(
                    s@,
                    p@,
                    i + p@.len(),
                ));
                start = i + p.len();
            },
            None => {
                let piece = slice_range(s, start, s.len());
                let ghost before = out.deep_view();
                out.push(piece);
                assert(out.deep_view() =~~= before.push(s@.skip(start as int)));
                assert(split_on(s@, p@) =~= out.deep_view());
                return out;
            },
        }
    }
}


// ───────────────────────── numbers ─────────────────────────

/// The ASCII digit for `d` (below 10).
pub open spec fn digit_char(d: int) -> char {
    (d + 48) as char
}

/// Decimal representation of `n`, without leading zeros.
pub open spec fn decimal(n: nat) -> Seq<char>
    decreases n,
{
    if n < 10 {
        seq![digit_char(n as int)]
    } else {
        decimal(n / 10).push(digit_char((n % 10) as int))
    }
}

fn digit_of(d: u64) -> (c: char)
    requires
        d < 10,
    ensures
        c == digit_char(d as int),
{
    let b: u8 = d as u8;
    (b + 48) as char
}

/// `n.to_string()` for an unsigned integer.
pub fn decimal_string(n: u64) -> (s: String)
    ensures
        s@ == decimal(n as nat),
    decreases n,
{
    if n < 10 {
        let mut s = String::new();
        push_char(&mut s, digit_of(n));
        s
    } else {
        let mut s = decimal_string(n / 10);
        push_char(&mut s, digit_of(n % 10));
        s
    }
}

// ───────────────────────── UTF-8 ─────────────────────────

/// The encoding of a concatenation is the concatenation of the encodings.
pub proof fn lemma_encode_concat(a: Seq<char>, b: Seq<char>)
    ensures
        encode_utf8(a + b) =~= encode_utf8(a) + encode_utf8(b),
    decreases a.len(),
{
    if a.len() == 0 {
        assert(a + b =~= b);
    } else {
        lemma_encode_concat(a.drop_first(), b);
        assert((a + b).drop_first() =~= a.drop_first() + b);
        assert((a + b)[0] == a[0]);
    }
}

/// `byte_len` is the length of the UTF-8 encoding.
pub proof fn lemma_byte_len_encoding(s: Seq<char>)
    ensures
        byte_len(s) == encode_utf8(s).len(),
    decreases s.len(),
{
    if s.len() > 0 {
        lemma_byte_len_encoding(s.drop_last());
        lemma_encode_concat(s.drop_last(), seq![s.last()]);
        assert(s.drop_last() + seq![s.last()] =~= s);
        let c = s.last();
        let one = seq![c];
        assert(one.drop_first() =~= Seq::<char>::empty());
        assert(encode_utf8(one.drop_first()) =~= Seq::<u8>::empty());
        vstd::utf8::char_is_scalar(c);
        assert(encode_utf8(one) == vstd::utf8::encode_scalar(one[0] as u32) + encode_utf8(one.drop_first()));
        assert(vstd::utf8::encode_scalar(c as u32).len() == utf8_width(c));
    }
}


/// Decimal representation of a signed integer.
pub open spec fn signed_decimal(n: int) -> Seq<char> {
    if n < 0 {
        seq!['-'] + decimal((-n) as nat)
    } else {
        decimal(n as nat)
    }
}

/// `n.to_string()` for an `i32`.
pub fn signed_decimal_string(n: i32) -> (s: String)
    ensures
        s@ == signed_decimal(n as int),
{
    if n < 0 {
        let m: i64 = -(n as i64);
        let mut s = String::new();
        push_char(&mut s, '-');
        let d = decimal_string(m as u64);
        push_str(&mut s, d.as_str());
        s
    } else {
        decimal_string(n as u64)
    }
}


/// `str::replace` with a text pattern: every occurrence of `from` (not
/// empty), left to right and not overlapping, replaced by `to`.
pub open spec fn replace_all(s: Seq<char>, from: Seq<char>, to: Seq<char>) -> Seq<char>
    decreases s.len(),
{
    if from.len() == 0 {
        s
    } else {
        match find(s, from) {
            None => s,
            Some(k) => {
                proof {
                    lemma_find_from_spec(s, from, 0);
                }
                s.take(k) + to + replace_all(s.skip(k + from.len()), from, to)
            },
        }
    }
}

pub fn replace_all_chars(s: &[char], from: &[char], to: &[char]) -> (r: Vec<char>)
    requires
        from@.len() > 0,
    ensures
        r@ == replace_all(s@, from@, to@),
{
    let mut out: Vec<char> = Vec::new();
    let mut rest = slice_range(s, 0, s.len());
    assert(rest@ =~= s@);
    loop
        invariant
            from@.len() > 0,
            out@ + replace_all(rest@, from@, to@) == replace_all(s@, from@, to@),
        decreases rest@.len(),
    {
        match find_chars(rest.as_slice(), from) {
            None => {
                let ghost o = out@;
                append_chars(&mut out, rest.as_slice());
                return out;
            },
            Some(k) => {
                proof {
                    lemma_find_from_spec(rest@, from@, 0);
                }
                let flen = from.len();
                let rl = rest.len();
                assert(k + flen <= rl);
                let end: usize = k + flen;
                let head = slice_range(rest.as_slice(), 0, k);
                let ghost o = out@;
                append_chars(&mut out, head.as_slice());
                append_chars(&mut out, to);
                let next = slice_range(rest.as_slice(), end, rest.len());
                assert(head@ =~= rest@.take(k as int));
                assert(next@ =~= rest@.skip(k + from@.len()));
                assert(out@ =~= o + rest@.take(k as int) + to@);
                rest = next;
            },
        }
    }
}


/// The characters after those within the first `end` bytes of `s`
/// (`&s[end..]` when byte `end` starts a character or ends the text).
pub open spec fn rest_after(s: Seq<char>, end: nat) -> Seq<char> {
    s.skip(chars_within_bytes(s, end) as int)
}

/// `&s[end..]` for a byte offset `end` (see `rest_after`).
pub fn rest_from_byte(s: &str, end: usize) -> (r: String)
    ensures
        r@ == rest_after(s@, end as nat),
{
    let v = chars_of(s);
    if byte_len_le(v.as_slice(), end) {
        assert(chars_within_bytes(v@, end as nat) == v@.len());
        assert(v@.skip(v@.len() as int) =~= Seq::<char>::empty());
        String::new()
    } else {
        let k = byte_prefix(&v, end);
        let t = slice_range(v.as_slice(), k, v.len());
        assert(t@ =~= rest_after(s@, end as nat));
        string_of(t.as_slice())
    }
}

} // verus!
