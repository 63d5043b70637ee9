//! Uploaded files: what kind of file a name says, how its text is read,
//! and the prompt comparing it with a patent.
use crate::text::{chars_of, lowercase, push_str, string_of, take_chars, take_n, to_lower};
use base64::Engine;
use vstd::prelude::*;
use vstd::utf8::{decode_utf8, valid_utf8};

verus! {

/// The largest file accepted for comparison or extraction: 10 MiB.
pub const MAX_FILE_SIZE: usize = 10485760;

/// The largest PDF accepted for storage: 20 MiB.
pub const MAX_PDF_STORE_SIZE: usize = 20971520;

/// What follows the last `.` of a name (the whole name when it has none).
pub open spec fn after_last_dot(name: Seq<char>) -> Seq<char>
    decreases name.len(),
{
    if name.len() == 0 {
        Seq::empty()
    } else if name.last() == '.' {
        Seq::empty()
    } else {
        after_last_dot(name.drop_last()).push(name.last())
    }
}

/// The extension of a file name, lower-cased.
pub fn file_extension(name: &str) -> (r: String)
    ensures
        r@ == lowercase(after_last_dot(name@)),
{
    let v = chars_of(name);
    let mut start: usize = v.len();
    assert(v@.take(v@.len() as int) =~= v@);
    assert(v@.skip(v@.len() as int) =~= Seq::<char>::empty());
    while start > 0 && v[start - 1] != '.'
        invariant
            start <= v@.len(),
            after_last_dot(v@) == after_last_dot(v@.take(start as int)) + v@.skip(start as int),
        decreases start,
    {
        let ghost before = v@.take(start as int);
        assert(before.drop_last() =~= v@.take(start - 1));
        assert(v@.skip(start - 1) =~= seq![v@[start - 1]] + v@.skip(start as int));
        assert(after_last_dot(before) == after_last_dot(before.drop_last()).push(before.last()));
        assert(after_last_dot(v@.take(start - 1)) + v@.skip(start - 1) =~= after_last_dot(v@.take(start - 1)).push(v@[start - 1]) + v@.skip(start as int));
        start -= 1;
    }
    if start > 0 {
        assert(v@.take(start as int).last() == '.');
        assert(after_last_dot(v@.take(start as int)) =~= Seq::<char>::empty());
    } else {
        assert(v@.take(0) =~= Seq::<char>::empty());
    }
    assert(after_last_dot(v@) =~= v@.skip(start as int));
    let mut tail = String::new();
    let mut i: usize = start;
    while i < v.len()
        invariant
            start <= i <= v@.len(),
            tail@ == v@.subrange(start as int, i as int),
        decreases v@.len() - i,
    {
        crate::text::push_char(&mut tail, v[i]);
        assert(tail@ =~= v@.subrange(start as int, i + 1));
        i += 1;
    }
    assert(v@.subrange(start as int, v@.len() as int) =~= v@.skip(start as int));
    to_lower(tail.as_str())
}

/// How an uploaded file is read.
#[derive(Debug, Clone, Copy, PartialEq, Eq, Structural)]
pub enum UploadKind {
    /// An image, described by a vision model.
    Image,
    Pdf,
    Docx,
    /// The old Word format, which is refused.
    Doc,
    /// Anything else, read as text.
    Text,
}

pub open spec fn upload_kind_spec(ext: Seq<char>) -> UploadKind {
    if ext == "png"@ || ext == "jpg"@ || ext == "jpeg"@ || ext == "gif"@ || ext == "bmp"@ || ext == "webp"@ {
        UploadKind::Image
    } else if ext == "pdf"@ {
        UploadKind::Pdf
    } else if ext == "docx"@ {
        UploadKind::Docx
    } else if ext == "doc"@ {
        UploadKind::Doc
    } else {
        UploadKind::Text
    }
}

/// The kind of a file by its extension.
pub fn upload_kind(ext: &str) -> (r: UploadKind)
    ensures
        r == upload_kind_spec(ext@),
{
    let e = chars_of(ext);
    if crate::routes::query::eq_lit(&e, "png") || crate::routes::query::eq_lit(&e, "jpg")
        || crate::routes::query::eq_lit(&e, "jpeg") || crate::routes::query::eq_lit(&e, "gif")
        || crate::routes::query::eq_lit(&e, "bmp") || crate::routes::query::eq_lit(&e, "webp") {
        UploadKind::Image
    } else if crate::routes::query::eq_lit(&e, "pdf") {
        UploadKind::Pdf
    } else if crate::routes::query::eq_lit(&e, "docx") {
        UploadKind::Docx
    } else if crate::routes::query::eq_lit(&e, "doc") {
        UploadKind::Doc
    } else {
        UploadKind::Text
    }
}

pub open spec fn image_mime_spec(ext: Seq<char>) -> Seq<char> {
    if ext == "png"@ {
        "image/png"@
    } else if ext == "gif"@ {
        "image/gif"@
    } else if ext == "bmp"@ {
        "image/bmp"@
    } else if ext == "webp"@ {
        "image/webp"@
    } else {
        "image/jpeg"@
    }
}

/// The media type of an image by its extension (JPEG unless another is
/// named).
pub fn image_mime(ext: &str) -> (r: &'static str)
    ensures
        r@ == image_mime_spec(ext@),
{
    let e = chars_of(ext);
    if crate::routes::query::eq_lit(&e, "png") {
        "image/png"
    } else if crate::routes::query::eq_lit(&e, "gif") {
        "image/gif"
    } else if crate::routes::query::eq_lit(&e, "bmp") {
        "image/bmp"
    } else if crate::routes::query::eq_lit(&e, "webp") {
        "image/webp"
    } else {
        "image/jpeg"
    }
}

/// The digit of a six-bit value in the standard base64 alphabet: `A`–`Z`,
/// `a`–`z`, `0`–`9`, `+`, `/`.
pub open spec fn base64_digit(n: int) -> char {
    if n < 26 {
        (n + 65) as char
    } else if n < 52 {
        (n - 26 + 97) as char
    } else if n < 62 {
        (n - 52 + 48) as char
    } else if n == 62 {
        '+'
    } else {
        '/'
    }
}

/// Standard base64 with padding (RFC 4648): each group of three bytes
/// becomes four digits; a last group of one or two bytes becomes two or
/// three digits followed by `=` padding to four.
pub open spec fn base64_standard(bytes: Seq<u8>) -> Seq<char>
    decreases bytes.len(),
{
    if bytes.len() == 0 {
        Seq::empty()
    } else if bytes.len() == 1 {
        let b0 = bytes[0] as int;
        seq![base64_digit(b0 / 4), base64_digit((b0 % 4) * 16), '=', '=']
    } else if bytes.len() == 2 {
        let (b0, b1) = (bytes[0] as int, bytes[1] as int);
        seq![base64_digit(b0 / 4), base64_digit((b0 % 4) * 16 + b1 / 16), base64_digit((b1 % 16) * 4), '=']
    } else {
        let (b0, b1, b2) = (bytes[0] as int, bytes[1] as int, bytes[2] as int);
        seq![
            base64_digit(b0 / 4),
            base64_digit((b0 % 4) * 16 + b1 / 16),
            base64_digit((b1 % 16) * 4 + b2 / 64),
            base64_digit(b2 % 64),
        ] + base64_standard(bytes.skip(3))
    }
}

/// `base64::engine::general_purpose::STANDARD.encode`: standard base64 with
/// padding, as `base64_standard` states it. The crate panics only when the
/// length of the encoding overflows `usize`, which the bound rules out.
#[verifier::external_body]
fn base64_encode(bytes: &[u8]) -> (r: String)
    requires
        bytes@.len() <= usize::MAX / 2,
    ensures
        r@ == base64_standard(bytes@),
{
    base64::engine::general_purpose::STANDARD.encode(bytes)
}

/// The data URL of an image: its media type and its bytes in base64.
pub fn image_data_url(ext: &str, bytes: &[u8]) -> (r: String)
    requires
        bytes@.len() <= usize::MAX / 2,
    ensures
        r@ == "data:"@ + image_mime_spec(ext@) + ";base64,"@ + base64_standard(bytes@),
{
    let mut r = "data:".to_string();
    push_str(&mut r, image_mime(ext));
    push_str(&mut r, ";base64,");
    let b = base64_encode(bytes);
    push_str(&mut r, b.as_str());
    r
}

/// `String::from_utf8`: the text when the bytes are valid UTF-8.
#[verifier::external_body]
fn utf8_string(bytes: &[u8]) -> (r: Option<String>)
    ensures
        r is Some <==> valid_utf8(bytes@),
        r matches Some(s) ==> s@ == decode_utf8(bytes@),
{
    String::from_utf8(bytes.to_vec()).ok()
}

/// What `encoding_rs::GBK.decode` makes of the bytes: the text (malformed
/// sequences replaced by U+FFFD, a byte order mark obeyed) and whether any
/// sequence was malformed.
pub uninterp spec fn gbk_decoding(bytes: Seq<u8>) -> (Seq<char>, bool);

/// `encoding_rs::GBK.decode`; its result is named by `gbk_decoding`. The
/// crate panics only when the size of its buffer overflows `usize`, which
/// the bound rules out.
#[verifier::external_body]
fn gbk_decode(bytes: &[u8]) -> (r: (String, bool))
    requires
        bytes@.len() <= usize::MAX / 4,
    ensures
        (r.0@, r.1) == gbk_decoding(bytes@),
{
    let (text, _encoding, had_errors) = encoding_rs::GBK.decode(bytes);
    (text.into_owned(), had_errors)
}

/// The text of an uploaded text file: UTF-8 when the bytes are valid
/// UTF-8, else GBK when that decodes without error; `None` otherwise.
pub open spec fn decode_text_spec(bytes: Seq<u8>) -> Option<Seq<char>> {
    if valid_utf8(bytes) {
        Some(decode_utf8(bytes))
    } else if !gbk_decoding(bytes).1 {
        Some(gbk_decoding(bytes).0)
    } else {
        None
    }
}

pub fn decode_text(bytes: &[u8]) -> (r: Option<String>)
    requires
        bytes@.len() <= usize::MAX / 4,
    ensures
        match decode_text_spec(bytes@) {
            Some(t) => r matches Some(s) && s@ == t,
            None => r is None,
        },
{
    match utf8_string(bytes) {
        Some(s) => Some(s),
        None => {
            let (t, bad) = gbk_decode(bytes);
            if bad {
                None
            } else {
                Some(t)
            }
        },
    }
}

/// The prompt comparing an uploaded document (or the description of an
/// uploaded image) with a patent: its title, abstract and first 2000
/// characters of claims, then the first 3000 characters of the document.
pub open spec fn compare_prompt_spec(
    title: Seq<char>,
    abstract_text: Seq<char>,
    claims: Seq<char>,
    is_image: bool,
    content: Seq<char>,
) -> Seq<char> {
    "请对比以下两份技术文档，分析它们的相似性和差异：\n\n【专利文档】\n标题："@ + title + "\n摘要："@ + abstract_text
        + "\n权利要求："@ + take_chars(claims, 2000) + "\n\n【"@ + (if is_image {
        "图片识别内容"@
    } else {
        "上传文档"@
    }) + "】\n"@ + take_chars(content, 3000)
        + "\n\n请从以下方面分析：\n1. 技术领域是否相同\n2. 解决的技术问题是否相似\n3. 技术方案的相似度（百分比）\n4. 是否存在侵权风险\n5. 主要差异点"@
}

pub fn upload_compare_prompt(title: &str, abstract_text: &str, claims: &str, is_image: bool, content: &str) -> (r: String)
    ensures
        r@ == compare_prompt_spec(title@, abstract_text@, claims@, is_image, content@),
{
    let mut r = "请对比以下两份技术文档，分析它们的相似性和差异：\n\n【专利文档】\n标题：".to_string();
    push_str(&mut r, title);
    push_str(&mut r, "\n摘要：");
    push_str(&mut r, abstract_text);
    push_str(&mut r, "\n权利要求：");
    let c = string_of(take_n(chars_of(claims).as_slice(), 2000).as_slice());
    push_str(&mut r, c.as_str());
    push_str(&mut r, "\n\n【");
    push_str(&mut r, if is_image { "图片识别内容" } else { "上传文档" });
    push_str(&mut r, "】\n");
    let d = string_of(take_n(chars_of(content).as_slice(), 3000).as_slice());
    push_str(&mut r, d.as_str());
    push_str(&mut r, "\n\n请从以下方面分析：\n1. 技术领域是否相同\n2. 解决的技术问题是否相似\n3. 技术方案的相似度（百分比）\n4. 是否存在侵权风险\n5. 主要差异点");
    r
}

/// The text returned by extraction: its first 50000 characters.
pub fn extracted_text(text: &str) -> (r: String)
    ensures
        r@ == take_chars(text@, 50000),
{
    string_of(take_n(chars_of(text).as_slice(), 50000).as_slice())
}

} // verus!
