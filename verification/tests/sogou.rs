use patent_hub::text::rest_from_byte;
use patent_hub::json::Json;
use patent_hub::routes::sogou::{
    organic_hits, sogou_blocked, sogou_hits, sogou_search_url, vr_hits, web_context, SogouHit,
};

fn s(x: &str) -> Json {
    Json::Str(x.to_string())
}

fn obj(v: Vec<(&str, Json)>) -> Json {
    Json::Object(v.into_iter().map(|(k, x)| (k.to_string(), x)).collect())
}

#[test]
fn search_url_encodes_query() {
    assert_eq!(sogou_search_url("智能 停车"), "https://www.sogou.com/web?query=%E6%99%BA%E8%83%BD%20%E5%81%9C%E8%BD%A6&num=10");
}

#[test]
fn verification_pages_are_detected() {
    let big = "x".repeat(6000);
    assert!(!sogou_blocked(&big, true));
    assert!(sogou_blocked("short page", false));
    assert!(sogou_blocked(&format!("{}安全验证", big), false));
    assert!(sogou_blocked(&format!("{}captcha", big), true));
    assert!(!sogou_blocked(&format!("{}captcha", big), false));
}

#[test]
fn result_page_hits_are_read() {
    let html = [
        "<h3 class=\"t\"><a href=\"/link?url=abc\" id=\"x\">智能<em>停车</em>系统</a></h3>",
        "<div><p class=\"s\">一种<em>停车</em>场管理方法</p></div>",
        "<h3><a href=\"https://example.com/p\">  </a></h3>",
        "<h3><a href=\"https://example.com/q\">Second</a></h3>",
    ]
    .join("");
    let hits = sogou_hits(&html).unwrap();
    assert_eq!(hits.len(), 2);
    assert_eq!(hits[0].title, "智能停车系统");
    assert_eq!(hits[0].url, "https://www.sogou.com/link?url=abc");
    assert_eq!(hits[0].snippet, "一种停车场管理方法");
    assert_eq!(hits[1].title, "Second");
    assert_eq!(hits[1].url, "https://example.com/q");
    assert_eq!(hits[1].snippet, "");
}

#[test]
fn quick_search_blocks_are_read() {
    let html = "head vrTitle x>传感<!--c-->器</a> strAbstract\">一种<em>量子</em>方法</p> vrTitle no title here vrTitle >Third</h3>";
    let hits = vr_hits(html);
    assert_eq!(hits.len(), 2);
    assert_eq!(hits[0].title, "传感c器");
    assert_eq!(hits[0].snippet, "一种量子");
    assert_eq!(hits[0].url, "");
    assert_eq!(hits[1].title, "Third");
    assert_eq!(hits[1].snippet, "");
}

#[test]
fn organic_results_and_context() {
    let reply = obj(vec![(
        "organic_results",
        Json::Array(vec![
            obj(vec![("title", s("A")), ("snippet", s("sa")), ("link", s("https://a"))]),
            obj(vec![("title", s("B"))]),
        ]),
    )]);
    let hits = organic_hits(&reply);
    assert_eq!(hits.len(), 2);
    assert_eq!(hits[1].snippet, "");
    assert_eq!(
        web_context(&hits),
        Some("【联网搜索结果】\n1. A\n   sa\n   https://a\n2. B\n".to_string())
    );
    assert_eq!(web_context(&Vec::<SogouHit>::new()), None);
    assert!(organic_hits(&obj(vec![])).is_empty());
}

#[test]
fn text_after_a_byte_offset() {
    assert_eq!(rest_from_byte("专利abc", 6), "abc");
    assert_eq!(rest_from_byte("专利abc", 7), "bc");
    assert_eq!(rest_from_byte("专利abc", 0), "专利abc");
    assert_eq!(rest_from_byte("专利abc", 9), "");
    assert_eq!(rest_from_byte("专利abc", 100), "");
}
