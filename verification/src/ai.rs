//! Reading replies of AI providers and budgeting conversation history.
use crate::json::{at, get, get_member, item_at, str_of, string_value, Json};
use crate::text::{byte_len, chars_of, lemma_byte_len_encoding, push_str, string_of, take_chars, take_n};
use vstd::prelude::*;
use vstd::string::StringSliceAdditionalSpecFns;
use vstd::utf8::is_char_boundary;

verus! {

// ───────────────────────── reply content ─────────────────────────

/// The content of one choice: its message's content, else its delta's.
pub open spec fn choice_content(c: Json) -> Option<Seq<char>> {
    match str_of(get(get(Some(c), "message"@), "content"@)) {
        Some(s) => Some(s),
        None => str_of(get(get(Some(c), "delta"@), "content"@)),
    }
}

/// The first choice with content.
pub open spec fn first_choice_content(cs: Seq<Json>) -> Option<Seq<char>>
    decreases cs.len(),
{
    if cs.len() == 0 {
        None
    } else {
        match choice_content(cs[0]) {
            Some(s) => Some(s),
            None => first_choice_content(cs.drop_first()),
        }
    }
}

/// The text of a reply body: the first choice with content, else
/// `data.content`, else `data.choices[0].message.content`.
pub open spec fn data_content(d: Json) -> Option<Seq<char>> {
    let from_choices = match get(Some(d), "choices"@) {
        Some(Json::Array(cs)) => first_choice_content(cs@),
        _ => None,
    };
    match from_choices {
        Some(s) => Some(s),
        None => match str_of(get(get(Some(d), "data"@), "content"@)) {
            Some(s) => Some(s),
            None => str_of(
                get(get(at(get(get(Some(d), "data"@), "choices"@), 0), "message"@), "content"@),
            ),
        },
    }
}

fn content_of_choice(c: &Json) -> (r: Option<String>)
    ensures
        match choice_content(*c) {
            Some(s) => r matches Some(t) && t@ == s,
            None => r is None,
        },
{
    match string_value(get_member(get_member(Some(c), "message"), "content")) {
        Some(s) => Some(s),
        None => string_value(get_member(get_member(Some(c), "delta"), "content")),
    }
}

/// Extracts the text of a reply body (see `data_content`).
pub fn extract_content_from_data(d: &Json) -> (r: Option<String>)
    ensures
        match data_content(*d) {
            Some(s) => r matches Some(t) && t@ == s,
            None => r is None,
        },
{
    match get_member(Some(d), "choices") {
        Some(Json::Array(cs)) => {
            let ghost cv = cs@;
            assert(cv.skip(0) =~= cv);
            let mut i: usize = 0;
            while i < cs.len()
                invariant
                    cv == cs@,
                    i <= cv.len(),
                    get(Some(*d), "choices"@) matches Some(Json::Array(x)) && x@ == cv,
                    first_choice_content(cv) == first_choice_content(cv.skip(i as int)),
                decreases cv.len() - i,
            {
                assert(cv.skip(i as int)[0] == cv[i as int]);
                assert(cv.skip(i as int).drop_first() =~= cv.skip(i + 1));
                match content_of_choice(&cs[i]) {
                    Some(s) => {
                        assert(first_choice_content(cv.skip(i as int)) == choice_content(cv[i as int]));
                        return Some(s);
                    },
                    None => {},
                }
                i += 1;
            }
        },
        _ => {},
    }
    match string_value(get_member(get_member(Some(d), "data"), "content")) {
        Some(s) => Some(s),
        None => string_value(
            get_member(
                get_member(item_at(get_member(get_member(Some(d), "data"), "choices"), 0), "message"),
                "content",
            ),
        ),
    }
}

/// A message of a chat reply, as the typed reading of the reply holds it.
#[derive(Debug, Clone)]
pub struct ReplyMessage {
    pub content: Option<String>,
}

/// A choice of a chat reply (`delta` in streamed replies).
#[derive(Debug, Clone)]
pub struct ReplyChoice {
    pub message: Option<ReplyMessage>,
    pub delta: Option<ReplyMessage>,
}

/// A chat reply read with the fields the providers use: OpenAI-style
/// `choices`, Zhipu-style `data`, or a plain `result`.
#[derive(Debug)]
pub struct ChatReply {
    pub choices: Option<Vec<ReplyChoice>>,
    pub data: Option<Json>,
    pub result: Option<String>,
}

pub open spec fn message_content(m: Option<ReplyMessage>) -> Option<Seq<char>> {
    match m {
        Some(x) => match x.content {
            Some(s) => Some(s@),
            None => None,
        },
        None => None,
    }
}

pub open spec fn reply_choice_content(c: ReplyChoice) -> Option<Seq<char>> {
    match message_content(c.message) {
        Some(s) => Some(s),
        None => message_content(c.delta),
    }
}

pub open spec fn first_reply_content(cs: Seq<ReplyChoice>) -> Option<Seq<char>>
    decreases cs.len(),
{
    if cs.len() == 0 {
        None
    } else {
        match reply_choice_content(cs[0]) {
            Some(s) => Some(s),
            None => first_reply_content(cs.drop_first()),
        }
    }
}

/// The text of a typed reply: a choice's content, the content in `data`,
/// or `result`.
pub open spec fn typed_content(r: ChatReply) -> Option<Seq<char>> {
    let a = match r.choices {
        Some(cs) => first_reply_content(cs@),
        None => None,
    };
    match a {
        Some(s) => Some(s),
        None => {
            let b = match r.data {
                Some(d) => data_content(d),
                None => None,
            };
            match b {
                Some(s) => Some(s),
                None => match r.result {
                    Some(s) => Some(s@),
                    None => None,
                },
            }
        },
    }
}

/// The text of a reply read as plain JSON: its content, else the provider's
/// error message (`error.message` or `msg`) marked as an error.
pub open spec fn generic_content(j: Json) -> Option<Seq<char>> {
    match data_content(j) {
        Some(s) => Some(s),
        None => match str_of(get(get(Some(j), "error"@), "message"@)) {
            Some(e) => Some("AI 错误："@ + e),
            None => match str_of(get(Some(j), "msg"@)) {
                Some(m) => Some("AI 错误："@ + m),
                None => None,
            },
        },
    }
}

/// The text shown for a reply: the typed reading's content, else the plain
/// JSON reading's, else a parse-failure notice with the first 200
/// characters of the raw reply.
pub open spec fn chat_content_spec(typed: Option<ChatReply>, generic: Option<Json>, raw: Seq<char>) -> Seq<
    char,
> {
    let t = match typed {
        Some(r) => typed_content(r),
        None => None,
    };
    match t {
        Some(s) => s,
        None => {
            let g = match generic {
                Some(j) => generic_content(j),
                None => None,
            };
            match g {
                Some(s) => s,
                None => "AI 响应解析失败，原始响应："@ + take_chars(raw, 200),
            }
        },
    }
}

fn message_text(m: &Option<ReplyMessage>) -> (r: Option<String>)
    ensures
        match message_content(*m) {
            Some(s) => r matches Some(t) && t@ == s,
            None => r is None,
        },
{
    match m {
        Some(x) => match &x.content {
            Some(s) => Some(s.clone()),
            None => None,
        },
        None => None,
    }
}

fn typed_reply_content(r: &ChatReply) -> (out: Option<String>)
    ensures
        match typed_content(*r) {
            Some(s) => out matches Some(t) && t@ == s,
            None => out is None,
        },
{
    match &r.choices {
        Some(cs) => {
            let ghost cv = cs@;
            assert(cv.skip(0) =~= cv);
            let mut i: usize = 0;
            while i < cs.len()
                invariant
                    cv == cs@,
                    i <= cv.len(),
                    r.choices matches Some(x) && x@ == cv,
                    first_reply_content(cv) == first_reply_content(cv.skip(i as int)),
                decreases cv.len() - i,
            {
                assert(cv.skip(i as int)[0] == cv[i as int]);
                assert(cv.skip(i as int).drop_first() =~= cv.skip(i + 1));
                match message_text(&cs[i].message) {
                    Some(s) => {
                        assert(reply_choice_content(cv[i as int]) == message_content(cv[i as int].message));
                        assert(first_reply_content(cv.skip(i as int)) == reply_choice_content(cv[i as int]));
                        return Some(s);
                    },
                    None => {},
                }
                match message_text(&cs[i].delta) {
                    Some(s) => {
                        assert(reply_choice_content(cv[i as int]) == message_content(cv[i as int].delta));
                        assert(first_reply_content(cv.skip(i as int)) == reply_choice_content(cv[i as int]));
                        return Some(s);
                    },
                    None => {},
                }
                i += 1;
            }
        },
        None => {},
    }
    match &r.data {
        Some(d) => match extract_content_from_data(d) {
            Some(s) => {
                return Some(s);
            },
            None => {},
        },
        None => {},
    }
    match &r.result {
        Some(s) => Some(s.clone()),
        None => None,
    }
}

fn generic_reply_content(j: &Json) -> (out: Option<String>)
    ensures
        match generic_content(*j) {
            Some(s) => out matches Some(t) && t@ == s,
            None => out is None,
        },
{
    match extract_content_from_data(j) {
        Some(s) => Some(s),
        None => match string_value(get_member(get_member(Some(j), "error"), "message")) {
            Some(e) => {
                let mut t = String::from_str("AI 错误：");
                push_str(&mut t, e.as_str());
                Some(t)
            },
            None => match string_value(get_member(Some(j), "msg")) {
                Some(m) => {
                    let mut t = String::from_str("AI 错误：");
                    push_str(&mut t, m.as_str());
                    Some(t)
                },
                None => None,
            },
        },
    }
}

/// The text of a provider's reply, from its typed reading (`None` when the
/// body did not fit the reply shape) and its plain JSON reading (`None`
/// when the body is not JSON); see `chat_content_spec`.
pub fn extract_chat_content(typed: Option<ChatReply>, generic: Option<Json>, raw_text: &str) -> (r:
    String)
    ensures
        r@ == chat_content_spec(typed, generic, raw_text@),
{
    match &typed {
        Some(t) => match typed_reply_content(t) {
            Some(s) => {
                return s;
            },
            None => {},
        },
        None => {},
    }
    match &generic {
        Some(j) => match generic_reply_content(j) {
            Some(s) => {
                return s;
            },
            None => {},
        },
        None => {},
    }
    let mut t = String::from_str("AI 响应解析失败，原始响应：");
    let head = take_n(chars_of(raw_text).as_slice(), 200);
    push_str(&mut t, string_of(head.as_slice()).as_str());
    t
}

// ───────────────────────── byte budgets ─────────────────────────

/// The largest character boundary of `bytes` at or below `m`.
pub open spec fn boundary_at_most(bytes: Seq<u8>, m: int) -> int
    decreases m,
{
    if m <= 0 {
        0
    } else if is_char_boundary(bytes, m) {
        m
    } else {
        boundary_at_most(bytes, m - 1)
    }
}

/// The longest prefix of `s` of at most `max_bytes` bytes that does not
/// split a character.
pub fn safe_truncate(s: &str, max_bytes: usize) -> (r: &str)
    ensures
        s.spec_bytes().len() <= max_bytes ==> r@ == s@,
        s.spec_bytes().len() > max_bytes ==> r.spec_bytes() == s.spec_bytes().take(
            boundary_at_most(s.spec_bytes(), max_bytes as int),
        ),
{
    let bytes = s.as_bytes();
    if bytes.len() <= max_bytes {
        return s;
    }
    let mut end = max_bytes;
    while !s.is_char_boundary(end) && end > 0
        invariant
            end <= max_bytes,
            boundary_at_most(s.spec_bytes(), max_bytes as int) == boundary_at_most(s.spec_bytes(), end as int),
        decreases end,
    {
        end -= 1;
    }
    proof {
        vstd::utf8::encode_utf8_valid_utf8(s@);
    }
    let (head, _rest) = s.split_at(end);
    head
}

// ───────────────────────── conversation budget ─────────────────────────

/// The weight of a character in quarter tokens: 6 (one and a half tokens)
/// for CJK and other characters past U+2E80, 1 (a quarter token) for the
/// others.
pub open spec fn char_weight(c: char) -> nat {
    if (c as u32) > 0x2E80 {
        6
    } else {
        1
    }
}

pub open spec fn weight(s: Seq<char>) -> nat
    decreases s.len(),
{
    if s.len() == 0 {
        0
    } else {
        weight(s.drop_last()) + char_weight(s.last())
    }
}

/// The estimated token count of a text: about 1.5 tokens per CJK
/// character and 0.25 per other character (a quarter of its weight,
/// rounded down), plus one.
pub open spec fn tokens_spec(s: Seq<char>) -> nat {
    weight(s) / 4 + 1
}

proof fn lemma_weight_le_bytes(s: Seq<char>)
    ensures
        weight(s) <= 2 * byte_len(s),
    decreases s.len(),
{
    if s.len() > 0 {
        lemma_weight_le_bytes(s.drop_last());
    }
}

/// Estimates the number of tokens of a text.
pub fn estimate_tokens(s: &str) -> (r: usize)
    ensures
        r == tokens_spec(s@),
{
    proof {
        lemma_weight_le_bytes(s@);
        lemma_byte_len_encoding(s@);
    }
    let n = s.as_bytes().len();
    let v = chars_of(s);
    let mut t: u128 = 0;
    let mut i: usize = 0;
    while i < v.len()
        invariant
            i <= v@.len(),
            v@ == s@,
            t == weight(v@.take(i as int)),
            weight(v@) <= 2 * n,
        decreases v@.len() - i,
    {
        assert(v@.take(i + 1).drop_last() =~= v@.take(i as int));
        proof {
            lemma_weight_prefix(v@, i + 1);
        }
        if (v[i] as u32) > 0x2E80 {
            t += 6;
        } else {
            t += 1;
        }
        i += 1;
    }
    assert(v@.take(v@.len() as int) =~= v@);
    (t / 4) as usize + 1
}

proof fn lemma_weight_prefix(s: Seq<char>, k: int)
    requires
        0 <= k <= s.len(),
    ensures
        weight(s.take(k)) <= weight(s),
    decreases s.len() - k,
{
    if k < s.len() {
        assert(s.take(k + 1).drop_last() =~= s.take(k));
        lemma_weight_prefix(s, k + 1);
    } else {
        assert(s.take(k) =~= s);
    }
}

pub open spec fn history_tokens(h: Seq<(Seq<char>, Seq<char>)>) -> nat
    decreases h.len(),
{
    if h.len() == 0 {
        0
    } else {
        history_tokens(h.drop_last()) + tokens_spec(h.last().1)
    }
}

pub open spec fn history_view(v: Seq<(String, String)>) -> Seq<(Seq<char>, Seq<char>)> {
    v.map_values(|m: (String, String)| (m.0@, m.1@))
}

/// `<用户|助手>：<content>` per message.
pub open spec fn history_text(h: Seq<(Seq<char>, Seq<char>)>) -> Seq<char>
    decreases h.len(),
{
    if h.len() == 0 {
        Seq::empty()
    } else {
        history_text(h.drop_last()) + (if h.last().0 == "user"@ {
            "用户"@
        } else {
            "助手"@
        }) + "："@ + h.last().1 + "\n"@
    }
}

/// A long conversation (more than `max_tokens` estimated tokens and more
/// than ten messages) has all but its last eight messages summarized: the
/// prompt asking for that summary, or none.
pub open spec fn compression_plan_spec(h: Seq<(Seq<char>, Seq<char>)>, max_tokens: nat) -> Option<Seq<char>> {
    if history_tokens(h) <= max_tokens || h.len() <= 10 {
        None
    } else {
        Some(
            "请将以下对话历史压缩为一段简洁的摘要（保留所有关键信息、结论、数据和用户偏好，不超过500字）：\n\n"@
                + history_text(h.take(h.len() - 8)),
        )
    }
}

pub fn compression_plan(history: &Vec<(String, String)>, max_tokens: usize) -> (r: Option<String>)
    ensures
        match compression_plan_spec(history_view(history@), max_tokens as nat) {
            Some(p) => r matches Some(s) && s@ == p,
            None => r is None,
        },
{
    let ghost hv = history_view(history@);
    let mut total: u128 = 0;
    let mut i: usize = 0;
    while i < history.len()
        invariant
            hv == history_view(history@),
            i <= history@.len(),
            total == history_tokens(hv.take(i as int)),
            total <= i * (usize::MAX as nat + 1),
        decreases history@.len() - i,
    {
        assert(hv.take(i + 1).drop_last() =~= hv.take(i as int));
        assert(hv.take(i + 1).last() == (history@[i as int].0@, history@[i as int].1@));
        let t = estimate_tokens(history[i].1.as_str());
        proof {
            assert(i * (usize::MAX as nat + 1) + (usize::MAX as nat + 1) == (i + 1) * (usize::MAX as nat + 1))
                by (nonlinear_arith);
            assert((i + 1) * (usize::MAX as nat + 1) <= u128::MAX) by (nonlinear_arith)
                requires i < usize::MAX;
        }
        total = total + t as u128;
        i += 1;
    }
    assert(hv.take(hv.len() as int) =~= hv);
    if total <= max_tokens as u128 || history.len() <= 10 {
        return None;
    }
    let keep_from = history.len() - 8;
    let mut text = String::new();
    let mut k: usize = 0;
    while k < keep_from
        invariant
            hv == history_view(history@),
            keep_from <= history@.len(),
            k <= keep_from,
            text@ == history_text(hv.take(k as int)),
        decreases keep_from - k,
    {
        assert(hv.take(k + 1).drop_last() =~= hv.take(k as int));
        assert(hv.take(k + 1).last() == (history@[k as int].0@, history@[k as int].1@));
        let role = chars_of(history[k].0.as_str());
        if crate::routes::query::eq_lit(&role, "user") {
            push_str(&mut text, "用户");
        } else {
            push_str(&mut text, "助手");
        }
        push_str(&mut text, "：");
        push_str(&mut text, history[k].1.as_str());
        push_str(&mut text, "\n");
        k += 1;
    }
    let mut p = String::from_str(
        "请将以下对话历史压缩为一段简洁的摘要（保留所有关键信息、结论、数据和用户偏好，不超过500字）：\n\n",
    );
    push_str(&mut p, text.as_str());
    Some(p)
}

/// How many recent messages a summarized conversation keeps: eight, or all
/// of a shorter one.
pub open spec fn kept_recent(len: nat) -> nat {
    if len < 8 {
        len
    } else {
        8
    }
}

/// The conversation after summarizing: the summary as a system message
/// (`【前期对话摘要】` first), then the last eight messages (all of them
/// when there are fewer).
pub open spec fn compressed_spec(h: Seq<(Seq<char>, Seq<char>)>, summary: Seq<char>) -> Seq<(Seq<char>, Seq<char>)> {
    seq![("system"@, "【前期对话摘要】"@ + summary)] + h.skip(h.len() - kept_recent(h.len()))
}

pub fn compressed_history(history: &Vec<(String, String)>, summary: &str) -> (r: Vec<(String, String)>)
    ensures
        history_view(r@) == compressed_spec(history_view(history@), summary@),
{
    let ghost hv = history_view(history@);
    let mut s = String::from_str("【前期对话摘要】");
    push_str(&mut s, summary);
    let mut r: Vec<(String, String)> = Vec::new();
    r.push((String::from_str("system"), s));
    let keep: usize = if history.len() < 8 {
        history.len()
    } else {
        8
    };
    let start = history.len() - keep;
    let mut i: usize = start;
    while i < history.len()
        invariant
            hv == history_view(history@),
            start + kept_recent(history@.len()) == history@.len(),
            start <= i <= history@.len(),
            history_view(r@) == seq![("system"@, "【前期对话摘要】"@ + summary@)] + hv.subrange(start as int, i as int),
        decreases history@.len() - i,
    {
        let ghost before = history_view(r@);
        r.push((history[i].0.clone(), history[i].1.clone()));
        assert(history_view(r@) =~= before.push(hv[i as int]));
        assert(hv.subrange(start as int, i + 1) =~= hv.subrange(start as int, i as int).push(hv[i as int]));
        i += 1;
    }
    assert(hv.subrange(start as int, hv.len() as int) =~= hv.skip(hv.len() - kept_recent(hv.len())));
    r
}


/// The conversation sent after the compression step, and whether a
/// summary was applied: when the conversation needs compressing (see
/// `compression_plan_spec`) and the model's summary `reply` came back, the
/// summary and the last eight messages; otherwise the conversation as it
/// was.
pub open spec fn condensed_spec(
    h: Seq<(Seq<char>, Seq<char>)>,
    max_tokens: nat,
    reply: Option<Seq<char>>,
) -> (Seq<(Seq<char>, Seq<char>)>, bool) {
    match (compression_plan_spec(h, max_tokens), reply) {
        (Some(_), Some(s)) => (compressed_spec(h, s), true),
        _ => (h, false),
    }
}

pub fn condensed_history(history: Vec<(String, String)>, max_tokens: usize, reply: Option<&str>) -> (r: (
    Vec<(String, String)>,
    bool,
))
    ensures
        (history_view(r.0@), r.1) == condensed_spec(history_view(history@), max_tokens as nat, match reply {
            Some(s) => Some(s@),
            None => None,
        }),
{
    match (compression_plan(&history, max_tokens), reply) {
        (Some(_), Some(s)) => (compressed_history(&history, s), true),
        _ => (history, false),
    }
}

} // verus!
