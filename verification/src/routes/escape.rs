//! Escaping for HTML, CSV and URLs.
use crate::text::{
    chars_of, has_char, lemma_replace_char_absent, push_chars, push_str, replace_char, replace_char_chars,
    string_of,
};
use vstd::prelude::*;
use vstd::string::StringSliceAdditionalSpecFns;

verus! {

/// HTML escaping: `&`, `<`, `>`, `"` and `'` replaced by entities, `&` first.
pub open spec fn html_escape_spec(s: Seq<char>) -> Seq<char> {
    replace_char(
        replace_char(
            replace_char(replace_char(replace_char(s, '&', "&amp;"@), '<', "&lt;"@), '>', "&gt;"@),
            '"',
            "&quot;"@,
        ),
        '\'',
        "&#x27;"@,
    )
}

/// Law: escaped text holds none of the characters that could open or
/// close markup or an attribute: `<`, `>`, `"` and `'`.
pub proof fn lemma_html_escape_safe(s: Seq<char>)
    ensures
        !html_escape_spec(s).contains('<'),
        !html_escape_spec(s).contains('>'),
        !html_escape_spec(s).contains('"'),
        !html_escape_spec(s).contains('\''),
{
    reveal_strlit("&amp;");
    reveal_strlit("&lt;");
    reveal_strlit("&gt;");
    reveal_strlit("&quot;");
    reveal_strlit("&#x27;");
    let a = replace_char(s, '&', "&amp;"@);
    let b = replace_char(a, '<', "&lt;"@);
    let c = replace_char(b, '>', "&gt;"@);
    let d = replace_char(c, '"', "&quot;"@);
    lemma_replace_char_absent(a, '<', "&lt;"@, '<');
    lemma_replace_char_absent(b, '>', "&gt;"@, '<');
    lemma_replace_char_absent(b, '>', "&gt;"@, '>');
    lemma_replace_char_absent(c, '"', "&quot;"@, '<');
    lemma_replace_char_absent(c, '"', "&quot;"@, '>');
    lemma_replace_char_absent(c, '"', "&quot;"@, '"');
    lemma_replace_char_absent(d, '\'', "&#x27;"@, '<');
    lemma_replace_char_absent(d, '\'', "&#x27;"@, '>');
    lemma_replace_char_absent(d, '\'', "&#x27;"@, '"');
    lemma_replace_char_absent(d, '\'', "&#x27;"@, '\'');
}

/// HTML-escapes text for interpolation into a page.
pub fn html_escape(s: &str) -> (r: String)
    ensures
        r@ == html_escape_spec(s@),
{
    let v = chars_of(s);
    let amp = chars_of("&amp;");
    let lt = chars_of("&lt;");
    let gt = chars_of("&gt;");
    let quot = chars_of("&quot;");
    let apos = chars_of("&#x27;");
    let a = replace_char_chars(v.as_slice(), '&', amp.as_slice());
    let b = replace_char_chars(a.as_slice(), '<', lt.as_slice());
    let c = replace_char_chars(b.as_slice(), '>', gt.as_slice());
    let d = replace_char_chars(c.as_slice(), '"', quot.as_slice());
    let e = replace_char_chars(d.as_slice(), '\'', apos.as_slice());
    string_of(e.as_slice())
}

/// A CSV field: quoted, with inner quotes doubled, when it holds a comma,
/// a double quote or a newline; unchanged otherwise.
pub open spec fn escape_csv_spec(s: Seq<char>) -> Seq<char> {
    if s.contains(',') || s.contains('"') || s.contains('\n') {
        "\""@ + replace_char(s, '"', "\"\""@) + "\""@
    } else {
        s
    }
}

/// Escapes one CSV field.
pub fn escape_csv(s: &str) -> (r: String)
    ensures
        r@ == escape_csv_spec(s@),
{
    let v = chars_of(s);
    if has_char(v.as_slice(), ',') || has_char(v.as_slice(), '"') || has_char(v.as_slice(), '\n') {
        let dq = chars_of("\"\"");
        let inner = replace_char_chars(v.as_slice(), '"', dq.as_slice());
        let mut out = String::new();
        push_str(&mut out, "\"");
        push_chars(&mut out, inner.as_slice());
        push_str(&mut out, "\"");
        out
    } else {
        string_of(v.as_slice())
    }
}

/// Upper-case hexadecimal digit of `n` (below 16).
pub open spec fn hex_digit(n: u8) -> char {
    if n < 10 {
        (n + 48) as char
    } else {
        (n + 55) as char
    }
}

/// A byte that passes through URL encoding unchanged.
pub open spec fn url_unreserved(b: u8) -> bool {
    (65 <= b && b <= 90) || (97 <= b && b <= 122) || (48 <= b && b <= 57) || b == 45 || b == 95
        || b == 46
}

/// The encoding of one byte.
pub open spec fn url_encode_byte(b: u8) -> Seq<char> {
    if url_unreserved(b) {
        seq![b as char]
    } else if b == 32 {
        "%20"@
    } else {
        seq!['%', hex_digit(b / 16), hex_digit(b % 16)]
    }
}

/// Percent-encoding of a byte string: letters, digits, `-`, `_` and `.`
/// kept, a space as `%20`, every other byte as `%XX`.
pub open spec fn url_encode_spec(bytes: Seq<u8>) -> Seq<char>
    decreases bytes.len(),
{
    if bytes.len() == 0 {
        Seq::empty()
    } else {
        url_encode_spec(bytes.drop_last()) + url_encode_byte(bytes.last())
    }
}

fn hex_char(n: u8) -> (c: char)
    requires
        n < 16,
    ensures
        c == hex_digit(n),
{
    if n < 10 {
        (n + 48) as char
    } else {
        (n + 55) as char
    }
}

/// Percent-encodes the UTF-8 bytes of `s`.
pub fn urlencoded(s: &str) -> (r: String)
    ensures
        r@ == url_encode_spec(s.spec_bytes()),
{
    let bytes = s.as_bytes();
    let mut out = String::new();
    let mut i: usize = 0;
    while i < bytes.len()
        invariant
            i <= bytes@.len(),
            bytes@ == s.spec_bytes(),
            out@ == url_encode_spec(bytes@.take(i as int)),
        decreases bytes.len() - i,
    {
        let b = bytes[i];
        assert(bytes@.take(i + 1).drop_last() =~= bytes@.take(i as int));
        if (65 <= b && b <= 90) || (97 <= b && b <= 122) || (48 <= b && b <= 57) || b == 45 || b
            == 95 || b == 46 {
            crate::text::push_char(&mut out, b as char);
        } else if b == 32 {
            push_str(&mut out, "%20");
        } else {
            let mut enc: Vec<char> = Vec::new();
            enc.push('%');
            enc.push(hex_char(b / 16));
            enc.push(hex_char(b % 16));
            push_chars(&mut out, enc.as_slice());
            assert(enc@ =~= seq!['%', hex_digit(b / 16), hex_digit(b % 16)]);
        }
        i += 1;
    }
    assert(bytes@.take(bytes@.len() as int) =~= bytes@);
    out
}

} // verus!
