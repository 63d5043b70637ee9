//! Patent records and the request types of the search service.
use vstd::prelude::*;

verus! {

/// A patent document as stored and exchanged.
#[derive(Debug, Clone)]
pub struct Patent {
    pub id: String,
    pub patent_number: String,
    pub title: String,
    pub abstract_text: String,
    pub description: String,
    pub claims: String,
    pub applicant: String,
    pub inventor: String,
    pub filing_date: String,
    pub publication_date: String,
    pub grant_date: Option<String>,
    pub ipc_codes: String,
    pub cpc_codes: String,
    pub priority_date: String,
    pub country: String,
    pub kind_code: String,
    pub family_id: Option<String>,
    pub legal_status: String,
    pub citations: String,
    pub cited_by: String,
    pub source: String,
    pub raw_json: String,
    pub created_at: String,
    /// JSON array of drawing URLs.
    pub images: String,
    /// PDF download URL.
    pub pdf_url: String,
}

/// How a query is interpreted.
#[derive(Debug, Clone, Copy, PartialEq, Eq, Structural)]
pub enum SearchType {
    /// By applicant (assignee).
    Applicant,
    /// By inventor.
    Inventor,
    /// By publication or application number.
    PatentNumber,
    /// Keywords in title and abstract.
    Keyword,
    /// All fields.
    Mixed,
}

/// A search request.
#[derive(Debug, Clone)]
pub struct SearchRequest {
    pub query: String,
    pub page: usize,
    pub page_size: usize,
    pub country: Option<String>,
    pub date_from: Option<String>,
    pub date_to: Option<String>,
    /// `"applicant"`, `"inventor"`, `"keyword"`, `"mixed"`, ...
    pub search_type: Option<String>,
    /// `"relevance"`, `"new"` or `"old"`.
    pub sort_by: Option<String>,
    /// IPC classification filter (substring match).
    pub ipc: Option<String>,
    /// CPC classification filter (substring match).
    pub cpc: Option<String>,
}

/// A group of results with its size (by applicant, by country).
#[derive(Debug, Clone)]
pub struct CategoryGroup {
    pub label: String,
    pub count: usize,
}

#[derive(Debug, Clone)]
pub struct AiChatRequest {
    pub message: String,
    pub patent_id: Option<String>,
}

#[derive(Debug, Clone)]
pub struct AiResponse {
    pub content: String,
}

#[derive(Debug, Clone)]
pub struct FetchPatentRequest {
    pub patent_number: String,
    pub source: Option<String>,
}

#[derive(Debug, Clone)]
pub struct ImportRequest {
    pub patents: Vec<Patent>,
}

/// A new idea to validate.
#[derive(Debug, Clone)]
pub struct IdeaSubmitRequest {
    pub title: String,
    pub description: String,
    pub input_type: String,
}

/// Default page number of a search request.
pub fn d1() -> (r: usize)
    ensures
        r == 1,
{
    1
}

/// Default page size of a search request.
pub fn d20() -> (r: usize)
    ensures
        r == 20,
{
    20
}

/// Default input type of a submitted idea.
pub fn default_text() -> (r: String)
    ensures
        r@ == "text"@,
{
    String::from_str("text")
}

} // verus!

verus! {

/// One event of a patent's legal history.
#[derive(Debug, Clone)]
pub struct LegalEvent {
    pub date: String,
    pub title: String,
    pub description: String,
}

/// Legal status of a patent with its events.
#[derive(Debug, Clone)]
pub struct LegalStatusResult {
    pub patent_number: String,
    pub current_status: String,
    pub events: Vec<LegalEvent>,
    pub source: String,
    pub updated_at: String,
}

} // verus!
