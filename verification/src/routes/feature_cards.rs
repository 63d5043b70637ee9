//! Feature cards: how they are drafted from the matches, the contradictions
//! and a model reply, how a new card's title is checked, and how two cards
//! are compared field by field.
use crate::json::{array_items, deref_opt, get, get_member, items_of, str_of, string_value, Json};
use crate::pipeline::steps::claims::{min_len, str_or};
use crate::pipeline::steps::contradiction::join_strings;
use crate::routes::diff::{diff_strings, diff_spec, CardFeatures, DiffOp, ops_view};
use crate::text::{chars_of, decimal, decimal_string, join, push_str, string_of, take_chars, take_n, trim, trim_str};
use vstd::prelude::*;

verus! {

/// The text of a feature card; the novelty score and the creation time are
/// added where the card is stored.
#[derive(Debug, Clone)]
pub struct CardDraft {
    pub id: String,
    pub idea_id: String,
    pub title: String,
    pub description: String,
    pub technical_problem: String,
    pub core_structure: String,
    pub key_relations: String,
    pub process_steps: String,
    pub application_scenarios: String,
}

/// How many matches, and how many model-drafted cards, become cards.
pub const MAX_AUTO_CARDS: usize = 5;

/// `s` shortened to `n` characters with `...` appended when it has more.
pub open spec fn clip_chars(s: Seq<char>, n: nat) -> Seq<char> {
    if s.len() > n {
        s.take(n as int) + "..."@
    } else {
        s
    }
}

fn clip_text(s: &str, n: usize) -> (r: String)
    ensures
        r@ == clip_chars(s@, n as nat),
{
    let v = chars_of(s);
    if v.len() > n {
        let t = take_n(v.as_slice(), n);
        let mut r = string_of(t.as_slice());
        push_str(&mut r, "...");
        r
    } else {
        string_of(v.as_slice())
    }
}

/// The card drawn from the match at position `i` (from 0) of the ranking.
pub open spec fn match_card_spec(
    idea_id: Seq<char>,
    i: nat,
    source_type: Seq<char>,
    source_title: Seq<char>,
    snippet: Seq<char>,
    tokens: Seq<Seq<char>>,
    idea_title: Seq<char>,
    domain: Seq<char>,
    c: CardDraft,
) -> bool {
    &&& c.id@ == idea_id + "-fc-"@ + decimal(i + 1)
    &&& c.idea_id@ == idea_id
    &&& c.title@ == "["@ + source_type + "] "@ + source_title
    &&& c.description@ == clip_chars(snippet, 300)
    &&& c.technical_problem@ == "与「"@ + idea_title + "」相关的技术问题"@
    &&& c.core_structure@ == take_chars(snippet, 200)
    &&& c.key_relations@ == join(tokens, ", "@)
    &&& c.process_steps@ == Seq::<char>::empty()
    &&& c.application_scenarios@ == domain
}

/// The card for a close match: its source and title, its snippet as the
/// description (at most 300 characters) and as the core structure (the
/// first 200), its tokens as the key relations.
pub fn match_card(
    idea_id: &str,
    i: u64,
    source_type: &str,
    source_title: &str,
    snippet: &str,
    tokens: &Vec<String>,
    idea_title: &str,
    domain: &str,
) -> (c: CardDraft)
    requires
        i < u64::MAX,
    ensures
        match_card_spec(
            idea_id@,
            i as nat,
            source_type@,
            source_title@,
            snippet@,
            tokens.deep_view(),
            idea_title@,
            domain@,
            c,
        ),
{
    let mut id = idea_id.to_string();
    push_str(&mut id, "-fc-");
    let n = decimal_string(i + 1);
    push_str(&mut id, n.as_str());
    let mut title = "[".to_string();
    push_str(&mut title, source_type);
    push_str(&mut title, "] ");
    push_str(&mut title, source_title);
    let mut problem = "与「".to_string();
    push_str(&mut problem, idea_title);
    push_str(&mut problem, "」相关的技术问题");
    let core = take_n(chars_of(snippet).as_slice(), 200);
    let sep = chars_of(", ");
    let rel = join_strings(tokens, sep.as_slice());
    CardDraft {
        id,
        idea_id: idea_id.to_string(),
        title,
        description: clip_text(snippet, 300),
        technical_problem: problem,
        core_structure: string_of(core.as_slice()),
        key_relations: string_of(rel.as_slice()),
        process_steps: String::new(),
        application_scenarios: domain.to_string(),
    }
}

/// The card for the contradiction at position `i` (from 0): an
/// opportunity between two sources along one dimension.
pub open spec fn opportunity_card_spec(
    idea_id: Seq<char>,
    i: nat,
    dimension: Seq<char>,
    opportunity: Seq<char>,
    source_a: Seq<char>,
    source_b: Seq<char>,
    domain: Seq<char>,
    c: CardDraft,
) -> bool {
    &&& c.id@ == idea_id + "-fc-opp-"@ + decimal(i + 1)
    &&& c.idea_id@ == idea_id
    &&& c.title@ == "创新机会: "@ + dimension
    &&& c.description@ == opportunity
    &&& c.technical_problem@ == source_a + "与"@ + source_b + "在"@ + dimension + "维度的矛盾"@
    &&& c.core_structure@ == opportunity
    &&& c.key_relations@ == source_a + " ↔ "@ + source_b
    &&& c.process_steps@ == Seq::<char>::empty()
    &&& c.application_scenarios@ == domain
}

pub fn opportunity_card(
    idea_id: &str,
    i: u64,
    dimension: &str,
    opportunity: &str,
    source_a: &str,
    source_b: &str,
    domain: &str,
) -> (c: CardDraft)
    requires
        i < u64::MAX,
    ensures
        opportunity_card_spec(idea_id@, i as nat, dimension@, opportunity@, source_a@, source_b@, domain@, c),
{
    let mut id = idea_id.to_string();
    push_str(&mut id, "-fc-opp-");
    let n = decimal_string(i + 1);
    push_str(&mut id, n.as_str());
    let mut title = "创新机会: ".to_string();
    push_str(&mut title, dimension);
    let mut problem = source_a.to_string();
    push_str(&mut problem, "与");
    push_str(&mut problem, source_b);
    push_str(&mut problem, "在");
    push_str(&mut problem, dimension);
    push_str(&mut problem, "维度的矛盾");
    let mut rel = source_a.to_string();
    push_str(&mut rel, " ↔ ");
    push_str(&mut rel, source_b);
    CardDraft {
        id,
        idea_id: idea_id.to_string(),
        title,
        description: opportunity.to_string(),
        technical_problem: problem,
        core_structure: opportunity.to_string(),
        key_relations: rel,
        process_steps: String::new(),
        application_scenarios: domain.to_string(),
    }
}

/// The five dimensions and the title a model drafted for one card.
#[derive(Debug, Clone)]
pub struct DraftedFields {
    pub title: String,
    pub technical_problem: String,
    pub core_structure: String,
    pub key_relations: String,
    pub process_steps: String,
    pub application_scenarios: String,
}

pub open spec fn drafted_ok(d: DraftedFields, j: Json) -> bool {
    &&& d.title@ == str_or(get(Some(j), "title"@), "AI提取特征"@)
    &&& d.technical_problem@ == str_or(get(Some(j), "technical_problem"@), ""@)
    &&& d.core_structure@ == str_or(get(Some(j), "core_structure"@), ""@)
    &&& d.key_relations@ == str_or(get(Some(j), "key_relations"@), ""@)
    &&& d.process_steps@ == str_or(get(Some(j), "process_steps"@), ""@)
    &&& d.application_scenarios@ == str_or(get(Some(j), "application_scenarios"@), ""@)
}

fn field_or(j: &Json, k: &str, d: &str) -> (r: String)
    ensures
        r@ == str_or(get(Some(*j), k@), d@),
{
    match string_value(get_member(Some(j), k)) {
        Some(s) => s,
        None => d.to_string(),
    }
}

/// The cards of a model reply parsed as JSON: the first five elements of
/// the top-level array; `None` when the reply is not an array.
pub fn drafted_cards(parsed: &Json) -> (r: Option<Vec<DraftedFields>>)
    ensures
        match parsed {
            Json::Array(xs) => r matches Some(v) && v@.len() == min_len(xs@.len(), MAX_AUTO_CARDS as nat)
                && forall|i: int| 0 <= i < v@.len() ==> drafted_ok(#[trigger] v@[i], xs@[i]),
            _ => r is None,
        },
{
    match parsed {
        Json::Array(xs) => {
            let mut out: Vec<DraftedFields> = Vec::new();
            let mut i: usize = 0;
            while i < xs.len() && i < MAX_AUTO_CARDS
                invariant
                    i <= xs@.len(),
                    i <= MAX_AUTO_CARDS,
                    out@.len() == i,
                    forall|k: int| 0 <= k < i ==> drafted_ok(#[trigger] out@[k], xs@[k]),
                decreases xs@.len() - i,
            {
                let j = &xs[i];
                out.push(
                    DraftedFields {
                        title: field_or(j, "title", "AI提取特征"),
                        technical_problem: field_or(j, "technical_problem", ""),
                        core_structure: field_or(j, "core_structure", ""),
                        key_relations: field_or(j, "key_relations", ""),
                        process_steps: field_or(j, "process_steps", ""),
                        application_scenarios: field_or(j, "application_scenarios", ""),
                    },
                );
                i += 1;
            }
            Some(out)
        },
        _ => None,
    }
}

/// Why a new card's title is refused.
#[derive(Debug, Clone, Copy, PartialEq, Eq)]
pub enum TitleError {
    /// The title is empty once trimmed.
    Missing,
    /// The trimmed title has more than 500 characters.
    TooLong,
}

impl TitleError {
    pub fn message(&self) -> (m: &'static str)
        ensures
            m@ == match self {
                TitleError::Missing => "title is required"@,
                TitleError::TooLong => "title too long (max 500 chars)"@,
            },
    {
        match self {
            TitleError::Missing => "title is required",
            TitleError::TooLong => "title too long (max 500 chars)",
        }
    }
}

/// The title of a new card, trimmed: refused when empty, or longer than
/// 500 characters.
pub fn check_card_title(title: &str) -> (r: Result<String, TitleError>)
    ensures
        trim(title@).len() == 0 ==> r == Err::<String, TitleError>(TitleError::Missing),
        trim(title@).len() > 500 ==> r == Err::<String, TitleError>(TitleError::TooLong),
        0 < trim(title@).len() <= 500 ==> (r matches Ok(t) && t@ == trim(title@)),
{
    let t = trim_str(title);
    if t.len() == 0 {
        Err(TitleError::Missing)
    } else if t.len() > 500 {
        Err(TitleError::TooLong)
    } else {
        Ok(string_of(t.as_slice()))
    }
}

/// The field-by-field differences between two cards (the novelty scores
/// are compared where they are stored).
#[derive(Debug, Clone)]
pub struct CardDiff {
    pub title: Vec<DiffOp>,
    pub description: Vec<DiffOp>,
    pub technical_problem: Vec<DiffOp>,
    pub core_structure: Vec<DiffOp>,
    pub key_relations: Vec<DiffOp>,
    pub process_steps: Vec<DiffOp>,
    pub application_scenarios: Vec<DiffOp>,
}

/// Compares two cards field by field with the character-level diff.
pub fn card_diff(a: &CardDraft, b: &CardDraft) -> (r: CardDiff)
    ensures
        ops_view(r.title@) == diff_spec(a.title@, b.title@),
        ops_view(r.description@) == diff_spec(a.description@, b.description@),
        ops_view(r.technical_problem@) == diff_spec(a.technical_problem@, b.technical_problem@),
        ops_view(r.core_structure@) == diff_spec(a.core_structure@, b.core_structure@),
        ops_view(r.key_relations@) == diff_spec(a.key_relations@, b.key_relations@),
        ops_view(r.process_steps@) == diff_spec(a.process_steps@, b.process_steps@),
        ops_view(r.application_scenarios@) == diff_spec(a.application_scenarios@, b.application_scenarios@),
{
    CardDiff {
        title: diff_strings(a.title.as_str(), b.title.as_str()),
        description: diff_strings(a.description.as_str(), b.description.as_str()),
        technical_problem: diff_strings(a.technical_problem.as_str(), b.technical_problem.as_str()),
        core_structure: diff_strings(a.core_structure.as_str(), b.core_structure.as_str()),
        key_relations: diff_strings(a.key_relations.as_str(), b.key_relations.as_str()),
        process_steps: diff_strings(a.process_steps.as_str(), b.process_steps.as_str()),
        application_scenarios: diff_strings(
            a.application_scenarios.as_str(),
            b.application_scenarios.as_str(),
        ),
    }
}

/// The five descriptive dimensions of a card.
pub fn card_features(c: &CardDraft) -> (r: CardFeatures)
    ensures
        r.technical_problem@ == c.technical_problem@,
        r.core_structure@ == c.core_structure@,
        r.key_relations@ == c.key_relations@,
        r.process_steps@ == c.process_steps@,
        r.application_scenarios@ == c.application_scenarios@,
{
    CardFeatures {
        technical_problem: c.technical_problem.clone(),
        core_structure: c.core_structure.clone(),
        key_relations: c.key_relations.clone(),
        process_steps: c.process_steps.clone(),
        application_scenarios: c.application_scenarios.clone(),
    }
}

pub open spec fn card_prompt_spec(title: Seq<char>, description: Seq<char>, analysis: Seq<char>) -> Seq<char> {
    "从以下创意描述和分析结果中提取技术特征卡片。\n请输出 JSON 数组，每个元素包含以下字段：\n- title: 特征标题\n- technical_problem: 解决什么技术问题\n- core_structure: 核心技术结构/方案\n- key_relations: 关键技术关系/连接\n- process_steps: 工艺/实施步骤\n- application_scenarios: 应用场景/领域\n\n创意标题："@
        + title + "\n创意描述："@ + description + "\n\n分析结果："@ + take_chars(analysis, 2000)
        + "\n\n请直接输出 JSON 数组，不要包含 markdown 标记。"@
}

/// The prompt asking a model for feature cards; the analysis enters with
/// its first 2000 characters.
pub fn card_prompt(title: &str, description: &str, analysis: &str) -> (r: String)
    ensures
        r@ == card_prompt_spec(title@, description@, analysis@),
{
    let mut r = "从以下创意描述和分析结果中提取技术特征卡片。\n请输出 JSON 数组，每个元素包含以下字段：\n- title: 特征标题\n- technical_problem: 解决什么技术问题\n- core_structure: 核心技术结构/方案\n- key_relations: 关键技术关系/连接\n- process_steps: 工艺/实施步骤\n- application_scenarios: 应用场景/领域\n\n创意标题：".to_string();
    push_str(&mut r, title);
    push_str(&mut r, "\n创意描述：");
    push_str(&mut r, description);
    push_str(&mut r, "\n\n分析结果：");
    let head = take_n(chars_of(analysis).as_slice(), 2000);
    let hs = string_of(head.as_slice());
    push_str(&mut r, hs.as_str());
    push_str(&mut r, "\n\n请直接输出 JSON 数组，不要包含 markdown 标记。");
    assert(r@ =~= card_prompt_spec(title@, description@, analysis@));
    r
}

} // verus!
