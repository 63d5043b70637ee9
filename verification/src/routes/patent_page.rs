//! Reading patent pages: sections, classification codes, legal status,
//! number normalization and tag stripping.
use crate::patent::LegalEvent;
use crate::text::{
    byte_len, byte_len_le, char_is_alpha, char_is_digit, chars_of, contains, contains_str,
    find, find_chars, find_chars_from, find_from, is_alpha, is_digit, join, join_chars,
    slice_range, starts_with, starts_with_str, string_of, to_upper, trim, trim_chars, trim_str,
    uppercase,
};
use vstd::prelude::*;

verus! {

// ───────────────────────── tags ─────────────────────────

/// Text outside `<…>` tags: characters from `<` through the next `>` dropped.
pub open spec fn strip_tags_state(s: Seq<char>) -> (Seq<char>, bool)
    decreases s.len(),
{
    if s.len() == 0 {
        (Seq::empty(), false)
    } else {
        let (out, in_tag) = strip_tags_state(s.drop_last());
        let c = s.last();
        if c == '<' {
            (out, true)
        } else if c == '>' {
            (out, false)
        } else if !in_tag {
            (out.push(c), in_tag)
        } else {
            (out, in_tag)
        }
    }
}

pub open spec fn strip_tags_spec(s: Seq<char>) -> Seq<char> {
    strip_tags_state(s).0
}

/// Removes HTML tags: everything from `<` to the following `>`.
pub fn strip_html_tags(s: &str) -> (r: String)
    ensures
        r@ == strip_tags_spec(s@),
{
    let v = chars_of(s);
    let mut out = String::new();
    let mut in_tag = false;
    let mut i: usize = 0;
    while i < v.len()
        invariant
            i <= v.len(),
            (out@, in_tag) == strip_tags_state(v@.take(i as int)),
        decreases v.len() - i,
    {
        assert(v@.take(i + 1).drop_last() =~= v@.take(i as int));
        assert(v@.take(i + 1).last() == v@[i as int]);
        let c = v[i];
        if c == '<' {
            in_tag = true;
        } else if c == '>' {
            in_tag = false;
        } else if !in_tag {
            crate::text::push_char(&mut out, c);
        }
        i += 1;
    }
    assert(v@.take(v.len() as int) =~= v@);
    out
}

/// Same as `strip_html_tags` (used for search snippets).
pub fn strip_html(s: &str) -> (r: String)
    ensures
        r@ == strip_tags_spec(s@),
{
    strip_html_tags(s)
}

// ───────────────────────── patent numbers ─────────────────────────

/// A patent number without its kind code: upper-cased and trimmed, then a
/// final letter+digit (`A1`) or a letter after a digit (`…0B`) removed.
pub open spec fn normalize_number_spec(num: Seq<char>) -> Seq<char> {
    let u = uppercase(trim(num));
    if byte_len(u) > 2 && u.len() >= 2 && is_digit(u.last()) && is_alpha(u[u.len() - 2]) {
        u.take(u.len() - 2)
    } else if byte_len(u) > 2 && u.len() >= 2 && is_alpha(u.last()) && is_digit(u[u.len() - 2]) {
        u.take(u.len() - 1)
    } else {
        u
    }
}

/// Base number used to recognize versions of one patent (`CN123456A`,
/// `CN123456B` → `CN123456`).
pub fn normalize_patent_number(num: &str) -> (r: String)
    ensures
        r@ == normalize_number_spec(num@),
{
    let t = trim_str(num);
    let ts = string_of(t.as_slice());
    let u = chars_of(to_upper(ts.as_str()).as_str());
    let n = u.len();
    if !byte_len_le(u.as_slice(), 2) && n >= 2 {
        if char_is_digit(u[n - 1]) && char_is_alpha(u[n - 2]) {
            return string_of(slice_range(u.as_slice(), 0, n - 2).as_slice());
        } else if char_is_alpha(u[n - 1]) && char_is_digit(u[n - 2]) {
            return string_of(slice_range(u.as_slice(), 0, n - 1).as_slice());
        }
    }
    string_of(u.as_slice())
}

// ───────────────────────── legal status ─────────────────────────

/// Status implied by one event title, if any keyword matches.
pub open spec fn event_status(t: Seq<char>) -> Option<Seq<char>> {
    if contains(t, "无效"@) || contains(t, "Expired"@) || contains(t, "失效"@) {
        Some("无效"@)
    } else if contains(t, "驳回"@) || contains(t, "Rejected"@) {
        Some("驳回"@)
    } else if contains(t, "撤回"@) || contains(t, "Withdrawn"@) {
        Some("撤回"@)
    } else if contains(t, "授权"@) || contains(t, "Grant"@) || contains(t, "Active"@) {
        Some("有效"@)
    } else if contains(t, "实审"@) || contains(t, "审查"@) {
        Some("审查中"@)
    } else if contains(t, "公开"@) {
        Some("公开"@)
    } else {
        None
    }
}

/// The status given by the first event whose title names one, else `未知`.
pub open spec fn current_status_spec(events: Seq<LegalEvent>) -> Seq<char>
    decreases events.len(),
{
    if events.len() == 0 {
        "未知"@
    } else {
        match event_status(events[0].title@) {
            Some(s) => s,
            None => current_status_spec(events.drop_first()),
        }
    }
}

fn status_of_title(t: &Vec<char>) -> (r: Option<&'static str>)
    ensures
        match r {
            Some(s) => event_status(t@) == Some(s@),
            None => event_status(t@) is None,
        },
{
    let t = t.as_slice();
    if contains_str(t, "无效") || contains_str(t, "Expired") || contains_str(t, "失效") {
        Some("无效")
    } else if contains_str(t, "驳回") || contains_str(t, "Rejected") {
        Some("驳回")
    } else if contains_str(t, "撤回") || contains_str(t, "Withdrawn") {
        Some("撤回")
    } else if contains_str(t, "授权") || contains_str(t, "Grant") || contains_str(t, "Active") {
        Some("有效")
    } else if contains_str(t, "实审") || contains_str(t, "审查") {
        Some("审查中")
    } else if contains_str(t, "公开") {
        Some("公开")
    } else {
        None
    }
}

/// Infers the current legal status from the events, most recent first.
pub fn infer_current_status(events: &[LegalEvent]) -> (r: String)
    ensures
        r@ == current_status_spec(events@),
{
    let mut i: usize = 0;
    assert(events@.skip(0) =~= events@);
    while i < events.len()
        invariant
            i <= events.len(),
            current_status_spec(events@) == current_status_spec(events@.skip(i as int)),
        decreases events.len() - i,
    {
        let t = chars_of(events[i].title.as_str());
        assert(events@.skip(i as int)[0] == events@[i as int]);
        match status_of_title(&t) {
            Some(s) => {
                return String::from_str(s);
            },
            None => {},
        }
        assert(events@.skip(i as int).drop_first() =~= events@.skip(i + 1));
        i += 1;
    }
    assert(events@.skip(i as int) =~= Seq::<LegalEvent>::empty());
    String::from_str("未知")
}

// ───────────────────────── page sections ─────────────────────────

/// A text fragment worth keeping: more than one byte once trimmed, and not
/// an attribute (`class=`, `itemprop=`, anything with `data-`).
pub open spec fn keep_fragment(t: Seq<char>) -> bool {
    t.len() > 0 && byte_len(t) > 1 && !starts_with(t, "class="@) && !starts_with(t, "itemprop="@)
        && !contains(t, "data-"@)
}

/// The trimmed fragment, if kept.
pub open spec fn emit(t: Seq<char>) -> Seq<Seq<char>> {
    if keep_fragment(trim(t)) {
        seq![trim(t)]
    } else {
        Seq::empty()
    }
}

/// Kept text fragments of `c` from `pos` on: a fragment runs from just after
/// a `>` up to the next `<` or the end; `start` is the start of the fragment
/// being read, if any.
pub open spec fn fragments(c: Seq<char>, pos: int, start: Option<int>) -> Seq<Seq<char>>
    decreases c.len() - pos,
{
    if pos >= c.len() {
        match start {
            Some(s) => emit(c.subrange(s, c.len() as int)),
            None => Seq::empty(),
        }
    } else {
        match start {
            None => if c[pos] == '>' {
                fragments(c, pos + 1, Some(pos + 1))
            } else {
                fragments(c, pos + 1, None)
            },
            Some(s) => if c[pos] == '<' {
                emit(c.subrange(s, pos)) + fragments(c, pos + 1, None)
            } else {
                fragments(c, pos + 1, Some(s))
            },
        }
    }
}

/// The section body after the marker: up to `</section>`, else the rest
/// (at most 200000 bytes).
pub open spec fn section_body(rest: Seq<char>) -> Seq<char> {
    match find(rest, "</section>"@) {
        Some(e) => rest.take(e),
        None => if byte_len(rest) <= 200000 {
            rest
        } else {
            rest.take(crate::text::chars_within_bytes(rest, 200000) as int)
        },
    }
}

/// The text of a `itemprop="<section>"` element of a Google Patents page,
/// fragments separated by blank lines; `None` when nothing (or less than
/// ten bytes) is found.
pub open spec fn extract_section_spec(html: Seq<char>, section: Seq<char>) -> Option<Seq<char>> {
    let marker = "itemprop=\""@ + section + "\""@;
    match find(html, marker) {
        None => None,
        Some(start) => {
            let body = section_body(html.skip(start));
            let parts = fragments(body, 0, None);
            let joined = join(parts, "\n\n"@);
            if parts.len() == 0 || byte_len(joined) < 10 {
                None
            } else {
                Some(joined)
            }
        },
    }
}


fn is_kept_fragment(t: &Vec<char>) -> (b: bool)
    ensures
        b == keep_fragment(t@),
{
    t.len() > 0 && !byte_len_le(t.as_slice(), 1) && !starts_with_str(t.as_slice(), "class=")
        && !starts_with_str(t.as_slice(), "itemprop=") && !contains_str(t.as_slice(), "data-")
}

fn emit_into(parts: &mut Vec<Vec<char>>, c: &Vec<char>, lo: usize, hi: usize)
    requires
        lo <= hi <= c@.len(),
    ensures
        final(parts).deep_view() == old(parts).deep_view() + emit(c@.subrange(lo as int, hi as int)),
{
    let seg = slice_range(c.as_slice(), lo, hi);
    let t = trim_chars(seg.as_slice());
    if is_kept_fragment(&t) {
        let ghost before = parts.deep_view();
        parts.push(t);
        assert(parts.deep_view() =~~= before + seq![t@]);
    } else {
        assert(parts.deep_view() =~= parts.deep_view() + Seq::<Seq<char>>::empty());
    }
}

/// The kept fragments of `c`.
fn fragments_of(c: &Vec<char>) -> (r: Vec<Vec<char>>)
    ensures
        r.deep_view() == fragments(c@, 0, None),
{
    let mut parts: Vec<Vec<char>> = Vec::new();
    let mut start: Option<usize> = None;
    let mut pos: usize = 0;
    assert(parts.deep_view() + fragments(c@, 0, None) =~= fragments(c@, 0, None));
    while pos < c.len()
        invariant
            pos <= c@.len(),
            start matches Some(s) ==> s <= pos,
            parts.deep_view() + fragments(
                c@,
                pos as int,
                match start {
                    Some(s) => Some(s as int),
                    None => None,
                },
            ) == fragments(c@, 0, None),
        decreases c@.len() - pos,
    {
        let ghost before = parts.deep_view();
        match start {
            None => {
                if c[pos] == '>' {
                    start = Some(pos + 1);
                }
            },
            Some(s) => {
                if c[pos] == '<' {
                    emit_into(&mut parts, c, s, pos);
                    assert(before + (emit(c@.subrange(s as int, pos as int)) + fragments(c@, pos + 1, None)) =~= parts.deep_view() + fragments(c@, pos + 1, None));
                    start = None;
                }
            },
        }
        pos += 1;
    }
    let ghost before = parts.deep_view();
    match start {
        Some(s) => {
            emit_into(&mut parts, c, s, c.len());
        },
        None => {},
    }
    assert(parts.deep_view() =~= before + fragments(c@, pos as int, match start { Some(s) => Some(s as int), None => None }));
    parts
}

/// The text of the `itemprop="<section>"` part of a Google Patents page.
pub fn extract_section(html: &str, section: &str) -> (r: Option<String>)
    requires
        // A section without a closing tag is cut at byte 200000, which
        // must then fall on a character boundary.
        ({
            let marker = "itemprop=\""@ + section@ + "\""@;
            match find(html@, marker) {
                Some(start) => {
                    let rest = html@.skip(start);
                    find(rest, "</section>"@) is None && byte_len(rest) > 200000 ==> byte_len(
                        rest.take(crate::text::chars_within_bytes(rest, 200000) as int),
                    ) == 200000
                },
                None => true,
            }
        }),
    ensures
        match r {
            Some(t) => extract_section_spec(html@, section@) == Some(t@),
            None => extract_section_spec(html@, section@) is None,
        },
{
    let h = chars_of(html);
    let mut marker = String::from_str("itemprop=\"");
    crate::text::push_str(&mut marker, section);
    crate::text::push_str(&mut marker, "\"");
    let mv = chars_of(marker.as_str());
    let start = match find_chars(h.as_slice(), mv.as_slice()) {
        Some(st) => st,
        None => {
            return None;
        },
    };
    proof {
        crate::text::lemma_find_from_spec(h@, mv@, 0);
    }
    let rest = slice_range(h.as_slice(), start, h.len());
    assert(rest@ =~= h@.skip(start as int));
    let close = chars_of("</section>");
    let body = match find_chars(rest.as_slice(), close.as_slice()) {
        Some(e) => {
            proof {
                crate::text::lemma_find_from_spec(rest@, close@, 0);
            }
            let b = slice_range(rest.as_slice(), 0, e);
            assert(b@ =~= rest@.take(e as int));
            b
        },
        None => {
            if byte_len_le(rest.as_slice(), 200000) {
                rest
            } else {
                let k = crate::text::byte_prefix(&rest, 200000);
                let b = slice_range(rest.as_slice(), 0, k);
                assert(b@ =~= rest@.take(k as int));
                b
            }
        },
    };
    let parts = fragments_of(&body);
    if parts.len() == 0 {
        return None;
    }
    let sep = chars_of("\n\n");
    let joined = join_chars(&parts, sep.as_slice());
    if byte_len_le(joined.as_slice(), 9) {
        return None;
    }
    Some(string_of(joined.as_slice()))
}


// ───────────────────────── classification codes ─────────────────────────

/// A classification code worth keeping: at least three bytes, not a
/// boolean, with an ASCII letter and an ASCII digit (like `F02K7/06`).
pub open spec fn valid_code(c: Seq<char>) -> bool {
    c.len() > 0 && byte_len(c) >= 3 && c != "true"@ && c != "false"@ && (exists|i: int|
        0 <= i < c.len() && is_alpha(#[trigger] c[i])) && (exists|i: int|
        0 <= i < c.len() && is_digit(#[trigger] c[i]))
}

pub open spec fn code_marker() -> Seq<char> {
    "itemprop=\"Code\""@
}

/// The code read after a marker found at `abs`: the value of the next
/// `content="…"` attribute, if any.
pub open spec fn code_after(h: Seq<char>, abs: int) -> Option<Seq<char>> {
    match find_from(h, "content=\""@, abs) {
        None => None,
        Some(cp) => match find_from(h, seq!['"'], cp + 9) {
            None => None,
            Some(ve) => Some(h.subrange(cp + 9, ve)),
        },
    }
}

/// Codes collected from `start` on, given those already found: each
/// marker contributes its code when valid and new; at most twenty.
pub open spec fn code_scan(h: Seq<char>, start: int, codes: Seq<Seq<char>>) -> Seq<Seq<char>>
    decreases h.len() + 1 - start,
{
    if start < 0 {
        codes
    } else {
        match find_from(h, code_marker(), start) {
            None => codes,
            Some(abs) => {
                let codes2 = match code_after(h, abs) {
                    Some(c) => if valid_code(c) && !codes.contains(c) {
                        codes.push(c)
                    } else {
                        codes
                    },
                    None => codes,
                };
                if codes2.len() >= 20 || abs < start || abs + 15 > h.len() {
                    codes2
                } else {
                    code_scan(h, abs + 15, codes2)
                }
            },
        }
    }
}

/// IPC/CPC codes of a Google Patents page, comma separated; `None` when there is none.
pub open spec fn extract_classifications_spec(html: Seq<char>) -> Option<Seq<char>> {
    let codes = code_scan(html, 0, Seq::empty());
    if codes.len() == 0 {
        None
    } else {
        Some(join(codes, ", "@))
    }
}

fn is_valid_code(c: &Vec<char>) -> (b: bool)
    ensures
        b == valid_code(c@),
{
    if c.len() == 0 || byte_len_le(c.as_slice(), 2) {
        return false;
    }
    if crate::routes::query::eq_lit(c, "true") || crate::routes::query::eq_lit(c, "false") {
        return false;
    }
    let mut has_alpha = false;
    let mut has_digit = false;
    let mut i: usize = 0;
    while i < c.len()
        invariant
            i <= c@.len(),
            has_alpha == exists|k: int| 0 <= k < i && is_alpha(#[trigger] c@[k]),
            has_digit == exists|k: int| 0 <= k < i && is_digit(#[trigger] c@[k]),
        decreases c@.len() - i,
    {
        if char_is_alpha(c[i]) {
            has_alpha = true;
        }
        if char_is_digit(c[i]) {
            has_digit = true;
        }
        i += 1;
    }
    has_alpha && has_digit
}

fn vec_contains_chars(v: &Vec<Vec<char>>, c: &Vec<char>) -> (b: bool)
    ensures
        b == v.deep_view().contains(c@),
{
    let mut i: usize = 0;
    while i < v.len()
        invariant
            i <= v.len(),
            forall|k: int| 0 <= k < i ==> v.deep_view()[k] != c@,
        decreases v.len() - i,
    {
        assert(v.deep_view()[i as int] == v@[i as int]@);
        if crate::text::seq_eq(v[i].as_slice(), c.as_slice()) {
            return true;
        }
        i += 1;
    }
    false
}

/// The classification codes listed on a patent page.
pub fn extract_classifications(html: &str) -> (r: Option<String>)
    ensures
        match r {
            Some(t) => extract_classifications_spec(html@) == Some(t@),
            None => extract_classifications_spec(html@) is None,
        },
{
    let h = chars_of(html);
    let marker = chars_of("itemprop=\"Code\"");
    let cm = chars_of("content=\"");
    let mut quote: Vec<char> = Vec::new();
    quote.push('"');
    let mut codes: Vec<Vec<char>> = Vec::new();
    let mut start: usize = 0;
    assert(codes.deep_view() =~= Seq::<Seq<char>>::empty());
    let hlen = h.len();
    proof {
        reveal_strlit("content=\"");
        reveal_strlit("itemprop=\"Code\"");
    }
    loop
        invariant_except_break
            code_scan(h@, 0, Seq::empty()) == code_scan(h@, start as int, codes.deep_view()),
        invariant
            start <= h@.len() + 15,
            hlen == h@.len(),
            h@ == html@,
            marker@ == code_marker(),
            marker@.len() == 15,
            cm@ == "content=\""@,
            cm@.len() == 9,
            quote@ == seq!['"'],
        ensures
            code_scan(h@, 0, Seq::empty()) == codes.deep_view(),
        decreases h@.len() + 1 - start,
    {
        let abs = match find_chars_from(h.as_slice(), marker.as_slice(), start) {
            None => {
                return finish_codes(&codes, html);
            },
            Some(a) => a,
        };
        proof {
            crate::text::lemma_find_from_spec(h@, marker@, start as int);
            assert(crate::text::matches_at(h@, marker@, abs as int));
            assert(abs + 15 <= h@.len());
        }
        let ghost before = codes.deep_view();
        if let Some(cp) = find_chars_from(h.as_slice(), cm.as_slice(), abs) {
            proof {
                crate::text::lemma_find_from_spec(h@, cm@, abs as int);
                assert(crate::text::matches_at(h@, cm@, cp as int));
                assert(cp + 9 <= h@.len());
            }
            if let Some(ve) = find_chars_from(h.as_slice(), quote.as_slice(), cp + 9) {
                proof {
                    crate::text::lemma_find_from_spec(h@, quote@, cp + 9);
                }
                let code = slice_range(h.as_slice(), cp + 9, ve);
                if is_valid_code(&code) && !vec_contains_chars(&codes, &code) {
                    codes.push(code);
                    assert(codes.deep_view() =~~= before.push(h@.subrange(cp + 9, ve as int)));
                }
            }
        }
        if codes.len() >= 20 {
            break;
        }
        start = abs + 15;
    }
    finish_codes(&codes, html)
}

fn finish_codes(codes: &Vec<Vec<char>>, html: &str) -> (r: Option<String>)
    requires
        code_scan(html@, 0, Seq::empty()) == codes.deep_view(),
    ensures
        match r {
            Some(t) => extract_classifications_spec(html@) == Some(t@),
            None => extract_classifications_spec(html@) is None,
        },
{
    if codes.len() == 0 {
        None
    } else {
        let sep = chars_of(", ");
        let j = join_chars(codes, sep.as_slice());
        Some(string_of(j.as_slice()))
    }
}


/// Whether `code` is a kind code after the base number `base`: a letter and
/// a digit (`A1`, `B2`), or a single letter after a base ending in a digit
/// (`…0B`).
pub open spec fn is_kind_code(base: Seq<char>, code: Seq<char>) -> bool {
    ||| code.len() == 2 && is_alpha(code[0]) && is_digit(code[1])
    ||| code.len() == 1 && is_alpha(code[0]) && base.len() > 0 && is_digit(base.last())
}

/// Law: the kind code is exactly what `normalize_patent_number` removes.
/// When the upper-cased, trimmed number (more than two bytes) is a base
/// followed by a kind code, the result is the base.
pub proof fn lemma_kind_code_removed(num: Seq<char>, base: Seq<char>, code: Seq<char>)
    requires
        uppercase(trim(num)) == base + code,
        byte_len(base + code) > 2,
        is_kind_code(base, code),
    ensures
        normalize_number_spec(num) == base,
{
    let u = base + code;
    if code.len() == 2 {
        assert(u.last() == code[1]);
        assert(u[u.len() - 2] == code[0]);
        assert(u.take(u.len() - 2) =~= base);
    } else {
        assert(u.last() == code[0]);
        assert(u[u.len() - 2] == base.last());
        assert(u.take(u.len() - 1) =~= base);
    }
}

/// Law: two versions of one patent (the same base with kind codes, such as
/// `US20110265482A1` and `US20110265482B2`) have the same base number, so
/// deduplication merges them.
pub proof fn lemma_versions_share_base(
    first: Seq<char>,
    second: Seq<char>,
    base: Seq<char>,
    code1: Seq<char>,
    code2: Seq<char>,
)
    requires
        uppercase(trim(first)) == base + code1,
        uppercase(trim(second)) == base + code2,
        byte_len(base + code1) > 2,
        byte_len(base + code2) > 2,
        is_kind_code(base, code1),
        is_kind_code(base, code2),
    ensures
        normalize_number_spec(first) == normalize_number_spec(second),
        normalize_number_spec(first) == base,
{
    lemma_kind_code_removed(first, base, code1);
    lemma_kind_code_removed(second, base, code2);
}

/// Law: the current status is the one named by the first event (in the
/// order the source lists them) whose title names a status; later events
/// do not change it. When no event names one, it is `未知`.
pub proof fn lemma_first_named_status_wins(events: Seq<LegalEvent>, k: int)
    requires
        0 <= k < events.len(),
        event_status(events[k].title@) is Some,
        forall|j: int| 0 <= j < k ==> event_status(#[trigger] events[j].title@) is None,
    ensures
        current_status_spec(events) == event_status(events[k].title@).unwrap(),
    decreases k,
{
    if k > 0 {
        let rest = events.drop_first();
        assert forall|j: int| 0 <= j < k - 1 implies event_status(#[trigger] rest[j].title@) is None by {
            assert(rest[j] == events[j + 1]);
        }
        assert(event_status(events[0].title@) is None);
        lemma_first_named_status_wins(rest, k - 1);
    }
}

/// Law: when no event names a status, the current status is `未知`.
pub proof fn lemma_no_named_status_unknown(events: Seq<LegalEvent>)
    requires
        forall|j: int| 0 <= j < events.len() ==> event_status(#[trigger] events[j].title@) is None,
    ensures
        current_status_spec(events) == "未知"@,
    decreases events.len(),
{
    if events.len() > 0 {
        let rest = events.drop_first();
        assert forall|j: int| 0 <= j < rest.len() implies event_status(#[trigger] rest[j].title@) is None by {
            assert(rest[j] == events[j + 1]);
        }
        assert(event_status(events[0].title@) is None);
        lemma_no_named_status_unknown(rest);
    }
}

} // verus!
