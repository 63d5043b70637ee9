use patent_hub::json::Json;
use patent_hub::patent::LegalEvent;
use patent_hub::routes::legal::{
    google_legal_events, keyword_events, lens_legal_events, lens_status, page_text, status_line,
};

fn s(x: &str) -> Json {
    Json::Str(x.to_string())
}

fn obj(v: Vec<(&str, Json)>) -> Json {
    Json::Object(v.into_iter().map(|(k, x)| (k.to_string(), x)).collect())
}

#[test]
fn google_events_skip_untitled_entries() {
    let reply = obj(vec![(
        "legal_events",
        Json::Array(vec![
            obj(vec![("title", s("Application granted")), ("date", s("2024-01-02"))]),
            obj(vec![("date", s("2023-01-01"))]),
        ]),
    )]);
    let ev = google_legal_events(&reply);
    assert_eq!(ev.len(), 1);
    assert_eq!(ev[0].title, "Application granted");
    assert_eq!(ev[0].date, "2024-01-02");
    assert_eq!(ev[0].description, "");
}

#[test]
fn lens_event_and_status() {
    let reply = obj(vec![(
        "data",
        Json::Array(vec![obj(vec![("legal_status", obj(vec![("patent_status", s("ACTIVE"))]))])]),
    )]);
    let ev = lens_legal_events(&reply, "now");
    assert_eq!(ev.len(), 1);
    assert_eq!(ev[0].date, "now");
    assert_eq!(lens_status(&ev), "ACTIVE");
    assert_eq!(lens_status(&lens_legal_events(&obj(vec![]), "now")), "未知");
}

#[test]
fn page_text_drops_scripts_styles_and_tags() {
    let t = page_text("<p>授权</p><script>var x = '<b>';</script><STYLE>p{}</STYLE>公告").unwrap();
    assert_eq!(t, " 授权   公告");
}

#[test]
fn status_words_give_events_in_word_order() {
    let clean = "该专利已于近日获得授权公告，目前专利权有效。Rejected is only english noise here";
    let ev = keyword_events(clean, "t");
    let titles: Vec<&str> = ev.iter().map(|e| e.title.as_str()).collect();
    assert_eq!(titles, vec!["授权", "有效", "Rejected"]);
    assert!(ev[0].description.contains("授权"));
    // A word whose surroundings are mostly not Chinese is skipped.
    let noisy = "xxxxxxxxxxxxxxxxxxxxxxxxxxxxxx Grant yyyyyyyyyyyyyyyyyyyyyyyyyyyyyy";
    assert!(keyword_events(noisy, "t").is_empty());
}

#[test]
fn status_line_keeps_five_events() {
    let ev: Vec<LegalEvent> = (1..=6)
        .map(|i| LegalEvent { date: format!("d{}", i), title: format!("t{}", i), description: String::new() })
        .collect();
    assert_eq!(status_line(&ev), "t1 (d1); t2 (d2); t3 (d3); t4 (d4); t5 (d5)");
    assert_eq!(status_line(&vec![]), "");
}
