use patent_hub::routes::online::{
    baidu_candidates, baidu_url, country_prefix, google_direct_url, google_search_url,
    online_match, patent_number_of_id, resolve_region, serpapi_patents_url, serpapi_usable,
    sogou_hint, AbstractMatch, OnlineMatch, TitleMatch, WebHit,
};
use patent_hub::routes::search_text::{clean_html_tags, extract_cn_patent_number};

#[test]
fn region_follows_explicit_choice_then_query() {
    assert_eq!(resolve_region("一种电池", None, None), (true, false));
    assert_eq!(resolve_region("battery", None, None), (false, true));
    assert_eq!(resolve_region("battery", Some("CN"), None), (true, false));
    assert_eq!(resolve_region("CN1234", None, Some("intl")), (false, true));
    assert_eq!(resolve_region("battery", None, Some("cn")), (true, false));
    assert_eq!(resolve_region(" 202210835143.9 ", None, None), (true, false));
    assert_eq!(resolve_region("ZL2022", None, None), (true, false));
    assert_eq!(resolve_region("123456789", None, None), (false, true));
}

#[test]
fn serpapi_url_carries_page_country_sort_and_language() {
    assert_eq!(
        serpapi_patents_url("a b", 0, Some("US"), Some("new"), true, "KEY"),
        "https://serpapi.com/search.json?engine=google_patents&q=a%20b&page=1&country=US&sort=new&hl=zh-cn&api_key=KEY"
    );
    assert_eq!(
        serpapi_patents_url("x~y", 3, Some(""), Some("relevance"), false, "K"),
        "https://serpapi.com/search.json?engine=google_patents&q=x~y&page=3&api_key=K"
    );
    assert_eq!(
        serpapi_patents_url("q", 12, None, Some("old"), false, "K"),
        "https://serpapi.com/search.json?engine=google_patents&q=q&page=12&sort=old&api_key=K"
    );
}

#[test]
fn other_source_urls() {
    assert_eq!(
        baidu_url("CN1", "K"),
        "https://serpapi.com/search.json?engine=baidu&q=CN1%20%E4%B8%93%E5%88%A9&api_key=K&rn=20"
    );
    assert_eq!(google_search_url("a&b"), "https://patents.google.com/?q=a%26b&oq=a%26b");
    assert_eq!(
        google_direct_url("q", Some("CN"), 1),
        "https://patents.google.com/xhr/query?url=q%3Dq%20country%3ACN&exp=&num=10&page=0"
    );
    assert_eq!(
        google_direct_url("q", None, 4),
        "https://patents.google.com/xhr/query?url=q%3Dq&exp=&num=10&page=3"
    );
}

#[test]
fn serpapi_key_placeholder_is_not_usable() {
    assert!(!serpapi_usable(""));
    assert!(!serpapi_usable("your-serpapi-key-here"));
    assert!(serpapi_usable("abc"));
}

#[test]
fn sogou_hints() {
    assert!(sogou_hint(true, true).starts_with("CNIPR 国知局授权已失效"));
    assert!(sogou_hint(true, false).starts_with("未配置 CNIPR"));
    assert!(sogou_hint(false, true).starts_with("当前使用搜狗免费搜索"));
}

#[test]
fn result_ids_and_countries() {
    assert_eq!(patent_number_of_id("patent/CN113557390B/zh"), "CN113557390B");
    assert_eq!(patent_number_of_id("CN1"), "CN1");
    assert_eq!(patent_number_of_id("patent/US1"), "US1");
    assert_eq!(country_prefix("CN123"), "CN");
    assert_eq!(country_prefix("C"), "C");
}

#[test]
fn content_match_of_online_results() {
    let m = online_match("Battery pack", "Battery Pack", "", "");
    assert_eq!(
        m,
        OnlineMatch {
            title: TitleMatch::Equal,
            abstract_match: AbstractMatch::Partial { word_hits: 0, words: 2 },
            applicant: false,
        }
    );
    let m = online_match("电池 cooling", "新型电池结构", "cooling system", "");
    assert_eq!(
        m,
        OnlineMatch {
            title: TitleMatch::Partial { word_hits: 1, words: 2, char_hits: 2, chars: 2 },
            abstract_match: AbstractMatch::Partial { word_hits: 1, words: 2 },
            applicant: false,
        }
    );
    let m = online_match("acme", "Acme battery", "An ACME cell", "ACME Corp");
    assert_eq!(
        m,
        OnlineMatch { title: TitleMatch::Contains, abstract_match: AbstractMatch::Contains, applicant: true }
    );
}

fn hit(title: &str, snippet: &str, link: &str) -> WebHit {
    WebHit { title: title.to_string(), snippet: snippet.to_string(), link: link.to_string() }
}

#[test]
fn baidu_results_keep_patent_pages_exact_first() {
    let hits = vec![
        hit("无关网页", "xx", "https://example.com"),
        hit("电池专利", "no", "https://x.com"),
        hit("<em>CN116401354A</em> 一种电池", "摘要", "https://patents.google.com/patent/CN116401354A"),
    ];
    let r = baidu_candidates(&hits, "CN116401354A");
    assert_eq!(r.len(), 2);
    assert_eq!(r[0].patent_number, "CN116401354A");
    assert_eq!(r[0].title, "CN116401354A 一种电池");
    assert_eq!(r[0].abstract_text, "摘要");
    assert!(r[0].exact_match);
    assert_eq!(r[1].patent_number, "");
    assert_eq!(r[1].title, "电池专利");
    assert!(!r[1].exact_match);
}

#[test]
fn baidu_results_fall_back_to_all_and_at_most_fifteen() {
    let hits: Vec<WebHit> = (0..20).map(|i| hit(&format!("page {}", i), "", "https://e.com")).collect();
    let r = baidu_candidates(&hits, "zzz");
    assert_eq!(r.len(), 15);
    assert_eq!(r[0].title, "page 0");
    assert_eq!(r[14].title, "page 14");
}

#[test]
fn cn_numbers_in_snippets() {
    assert_eq!(extract_cn_patent_number("见 CN116401354A", "", ""), "CN116401354A");
    assert_eq!(extract_cn_patent_number("申请号 202210835143.9", "", ""), "202210835143.9");
    assert_eq!(extract_cn_patent_number("none", "", ""), "");
}

#[test]
fn tags_removed_from_snippets() {
    assert_eq!(clean_html_tags("<em>电池</em> a<>b"), "电池 a<>b");
}
