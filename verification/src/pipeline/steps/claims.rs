//! Claim-tree step: the claim structure a model drafted, read out of its
//! JSON reply as rows ready to be stored.
use crate::experiment::generator::{strip_end, strip_start, trim_end_matches, trim_start_matches};
use crate::json::{
    array_items, bool_of, bool_value, deref_opt, get, get_member, items_of, str_of, string_value,
    u64_of, u64_value, Json,
};
use crate::text::{chars_of, push_str, string_of, take_chars, take_n, trim, trim_chars, trim_str};
use vstd::prelude::*;

verus! {

/// How many claims, and how many features per claim, are kept.
pub const MAX_CLAIM_ITEMS: usize = 10;

/// The JSON text in a model reply: trimmed, with a leading ```` ```json ````
/// or ```` ``` ```` fence and a trailing ```` ``` ```` fence removed, trimmed
/// again.
pub open spec fn claims_json_spec(reply: Seq<char>) -> Seq<char> {
    trim(
        trim_end_matches(
            trim_start_matches(trim_start_matches(trim(reply), "```json"@), "```"@),
            "```"@,
        ),
    )
}

/// Extracts the JSON text from a model reply (see `claims_json_spec`).
pub fn claims_json_text(reply: &str) -> (r: String)
    ensures
        r@ == claims_json_spec(reply@),
{
    let t = trim_str(reply);
    let a = strip_start(t, "```json");
    let b = strip_start(a, "```");
    let c = strip_end(b, "```");
    let d = trim_chars(c.as_slice());
    string_of(d.as_slice())
}

/// One technical feature of a claim.
#[derive(Debug, Clone)]
pub struct FeatureRow {
    pub description: String,
    pub novelty: bool,
}

/// One drafted claim.
#[derive(Debug, Clone)]
pub struct ClaimRow {
    pub claim_number: u32,
    pub claim_type: String,
    pub content: String,
    pub features: Vec<FeatureRow>,
}

/// A string member, or `d` when it is absent or not a string.
pub open spec fn str_or(j: Option<Json>, d: Seq<char>) -> Seq<char> {
    match str_of(j) {
        Some(s) => s,
        None => d,
    }
}

fn str_or_value(j: Option<&Json>, d: &str) -> (r: String)
    ensures
        r@ == str_or(deref_opt(j), d@),
{
    match string_value(j) {
        Some(s) => s,
        None => d.to_string(),
    }
}

pub open spec fn min_len(n: nat, m: nat) -> nat {
    if n < m {
        n
    } else {
        m
    }
}

/// The claim number: a non-negative integer member taken modulo 2^32, or 0.
pub open spec fn claim_number_spec(c: Json) -> u32 {
    match u64_of(get(Some(c), "claim_number"@)) {
        Some(n) => (n % 4294967296) as u32,
        None => 0,
    }
}

pub open spec fn feature_ok(f: FeatureRow, j: Json) -> bool {
    &&& f.description@ == str_or(get(Some(j), "description"@), ""@)
    &&& f.novelty == match bool_of(get(Some(j), "novelty_flag"@)) {
        Some(b) => b,
        None => false,
    }
}

pub open spec fn claim_ok(c: ClaimRow, j: Json) -> bool {
    &&& c.claim_number == claim_number_spec(j)
    &&& c.claim_type@ == str_or(get(Some(j), "claim_type"@), "independent"@)
    &&& c.content@ == str_or(get(Some(j), "content"@), ""@)
    &&& match items_of(get(Some(j), "features"@)) {
        Some(fs) => c.features@.len() == min_len(fs.len(), MAX_CLAIM_ITEMS as nat) && forall|i: int|
            0 <= i < c.features@.len() ==> feature_ok(#[trigger] c.features@[i], fs[i]),
        None => c.features@.len() == 0,
    }
}

fn feature_rows(fs: &Vec<Json>) -> (r: Vec<FeatureRow>)
    ensures
        r@.len() == min_len(fs@.len(), MAX_CLAIM_ITEMS as nat),
        forall|i: int| 0 <= i < r@.len() ==> feature_ok(#[trigger] r@[i], fs@[i]),
{
    let mut out: Vec<FeatureRow> = Vec::new();
    let mut i: usize = 0;
    while i < fs.len() && i < MAX_CLAIM_ITEMS
        invariant
            i <= fs@.len(),
            i <= MAX_CLAIM_ITEMS,
            out@.len() == i,
            forall|k: int| 0 <= k < i ==> feature_ok(#[trigger] out@[k], fs@[k]),
        decreases fs@.len() - i,
    {
        let f = &fs[i];
        let description = str_or_value(get_member(Some(f), "description"), "");
        let novelty = match bool_value(get_member(Some(f), "novelty_flag")) {
            Some(b) => b,
            None => false,
        };
        out.push(FeatureRow { description, novelty });
        i += 1;
    }
    out
}

fn claim_row(c: &Json) -> (r: ClaimRow)
    ensures
        claim_ok(r, *c),
{
    let claim_number: u32 = match u64_value(get_member(Some(c), "claim_number")) {
        Some(n) => (n % 4294967296) as u32,
        None => 0,
    };
    let claim_type = str_or_value(get_member(Some(c), "claim_type"), "independent");
    let content = str_or_value(get_member(Some(c), "content"), "");
    let features = match array_items(get_member(Some(c), "features")) {
        Some(fs) => feature_rows(fs),
        None => Vec::new(),
    };
    ClaimRow { claim_number, claim_type, content, features }
}

/// The claims of a parsed reply: the first ten members of its `claims`
/// array, each with at most ten features; `None` when there is no such
/// array.
pub fn claim_rows(parsed: &Json) -> (r: Option<Vec<ClaimRow>>)
    ensures
        match items_of(get(Some(*parsed), "claims"@)) {
            None => r is None,
            Some(cs) => r matches Some(v) && v@.len() == min_len(cs.len(), MAX_CLAIM_ITEMS as nat)
                && forall|i: int| 0 <= i < v@.len() ==> claim_ok(#[trigger] v@[i], cs[i]),
        },
{
    let cs = match array_items(get_member(Some(parsed), "claims")) {
        Some(cs) => cs,
        None => {
            return None;
        },
    };
    let mut out: Vec<ClaimRow> = Vec::new();
    let mut i: usize = 0;
    while i < cs.len() && i < MAX_CLAIM_ITEMS
        invariant
            i <= cs@.len(),
            i <= MAX_CLAIM_ITEMS,
            out@.len() == i,
            forall|k: int| 0 <= k < i ==> claim_ok(#[trigger] out@[k], cs@[k]),
        decreases cs@.len() - i,
    {
        let row = claim_row(&cs[i]);
        out.push(row);
        i += 1;
    }
    Some(out)
}

pub open spec fn claim_prompt_spec(title: Seq<char>, description: Seq<char>, domain: Seq<char>, score: Seq<char>, analysis: Seq<char>) -> Seq<char> {
    "你是专利代理人。根据以下创意和分析结果，草拟权利要求书结构。\n输出 JSON，格式如下（不要 markdown 标记）：\n{\"claims\":[{\"claim_number\":1,\"claim_type\":\"independent\",\"content\":\"一种...\",\"features\":[{\"description\":\"特征描述\",\"novelty_flag\":true}]}]}\n\n要求：至少1条独立权利要求，每条包含2-5个必要技术特征，标注哪些是新颖性特征。\n\n创意："@
        + title + "\n描述："@ + description + "\n技术领域："@ + domain + "\n新颖性评分："@ + score + "/100\n分析："@
        + take_chars(analysis, 800)
}

/// The prompt asking for a claim structure: the idea, its novelty score
/// (one decimal) and the first 800 characters of the analysis.
pub fn claim_prompt(title: &str, description: &str, domain: &str, score: &str, analysis: &str) -> (r: String)
    ensures
        r@ == claim_prompt_spec(title@, description@, domain@, score@, analysis@),
{
    let mut r = "你是专利代理人。根据以下创意和分析结果，草拟权利要求书结构。\n输出 JSON，格式如下（不要 markdown 标记）：\n{\"claims\":[{\"claim_number\":1,\"claim_type\":\"independent\",\"content\":\"一种...\",\"features\":[{\"description\":\"特征描述\",\"novelty_flag\":true}]}]}\n\n要求：至少1条独立权利要求，每条包含2-5个必要技术特征，标注哪些是新颖性特征。\n\n创意：".to_string();
    push_str(&mut r, title);
    push_str(&mut r, "\n描述：");
    push_str(&mut r, description);
    push_str(&mut r, "\n技术领域：");
    push_str(&mut r, domain);
    push_str(&mut r, "\n新颖性评分：");
    push_str(&mut r, score);
    push_str(&mut r, "/100\n分析：");
    let head = take_n(chars_of(analysis).as_slice(), 800);
    let hs = string_of(head.as_slice());
    push_str(&mut r, hs.as_str());
    assert(r@ =~= claim_prompt_spec(title@, description@, domain@, score@, analysis@));
    r
}

} // verus!
