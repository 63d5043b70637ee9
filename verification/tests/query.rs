use patent_hub::patent::SearchType;
use patent_hub::routes::escape::{escape_csv, html_escape, urlencoded};
use patent_hub::routes::query::{build_online_query, parse_search_type};

#[test]
fn online_query_uses_applicant_scope() {
    let q = build_online_query("Alice Zhang", Some(&SearchType::Applicant), None, None);
    assert_eq!(q, "assignee:\"Alice Zhang\"");
}

#[test]
fn online_query_uses_inventor_scope_and_dates() {
    let q = build_online_query(
        "Alice Zhang",
        Some(&SearchType::Inventor),
        Some("2024-01-01"),
        Some("2024-12-31"),
    );
    assert_eq!(q, "inventor:\"Alice Zhang\" after:2024-01-01 before:2024-12-31");
}

#[test]
fn online_query_quotes_patent_numbers_and_drops_inner_quotes() {
    let q = build_online_query("  CN1\"23 ", Some(&SearchType::PatentNumber), Some(""), None);
    assert_eq!(q, "\"CN123\"");
    let q = build_online_query("battery", None, None, Some("2020-01-01"));
    assert_eq!(q, "battery before:2020-01-01");
}

#[test]
fn search_type_names() {
    assert_eq!(parse_search_type(Some("applicant")), Some(SearchType::Applicant));
    assert_eq!(parse_search_type(Some("inventor")), Some(SearchType::Inventor));
    assert_eq!(parse_search_type(Some("patent_number")), Some(SearchType::PatentNumber));
    assert_eq!(parse_search_type(Some("keyword")), Some(SearchType::Keyword));
    assert_eq!(parse_search_type(Some("whatever")), Some(SearchType::Mixed));
    assert_eq!(parse_search_type(None), None);
}

#[test]
fn escaping() {
    assert_eq!(html_escape("<a href=\"x\">&'</a>"), "&lt;a href=&quot;x&quot;&gt;&amp;&#x27;&lt;/a&gt;");
    assert_eq!(escape_csv("plain"), "plain");
    assert_eq!(escape_csv("a,b"), "\"a,b\"");
    assert_eq!(escape_csv("say \"hi\""), "\"say \"\"hi\"\"\"");
    assert_eq!(urlencoded("a b-c_d.e/f"), "a%20b-c_d.e%2Ff");
    assert_eq!(urlencoded("专"), "%E4%B8%93");
}
