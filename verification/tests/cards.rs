use patent_hub::json::Json;
use patent_hub::pipeline::context::SearchResult;
use patent_hub::pipeline::steps::rank::{select_top, source_link};
use patent_hub::routes::feature_cards::{
    card_diff, check_card_title, drafted_cards, match_card, opportunity_card, CardDraft, TitleError,
};
use patent_hub::routes::report::{report_html, ReportCard};

fn s(x: &str) -> Json {
    Json::Str(x.to_string())
}

fn obj(v: Vec<(&str, Json)>) -> Json {
    Json::Object(v.into_iter().map(|(k, x)| (k.to_string(), x)).collect())
}

#[test]
fn match_card_fields() {
    let snippet = "甲".repeat(350);
    let c = match_card("idea", 0, "patent", "标题", &snippet, &vec!["a".to_string(), "b".to_string()], "创意", "领域");
    assert_eq!(c.id, "idea-fc-1");
    assert_eq!(c.title, "[patent] 标题");
    assert_eq!(c.description, format!("{}...", "甲".repeat(300)));
    assert_eq!(c.core_structure, "甲".repeat(200));
    assert_eq!(c.technical_problem, "与「创意」相关的技术问题");
    assert_eq!(c.key_relations, "a, b");
    assert_eq!(c.application_scenarios, "领域");
    let short = match_card("i", 4, "web", "t", "abc", &vec![], "x", "d");
    assert_eq!(short.id, "i-fc-5");
    assert_eq!(short.description, "abc");
    assert_eq!(short.key_relations, "");
}

#[test]
fn opportunity_card_fields() {
    let c = opportunity_card("idea", 1, "材料", "换用陶瓷", "A", "B", "领域");
    assert_eq!(c.id, "idea-fc-opp-2");
    assert_eq!(c.title, "创新机会: 材料");
    assert_eq!(c.technical_problem, "A与B在材料维度的矛盾");
    assert_eq!(c.key_relations, "A ↔ B");
    assert_eq!(c.core_structure, "换用陶瓷");
}

#[test]
fn drafted_cards_take_five_with_defaults() {
    let reply = Json::Array(
        (0..7)
            .map(|i| if i == 0 { obj(vec![("technical_problem", s("问题"))]) } else { obj(vec![("title", s("T"))]) })
            .collect(),
    );
    let cards = drafted_cards(&reply).unwrap();
    assert_eq!(cards.len(), 5);
    assert_eq!(cards[0].title, "AI提取特征");
    assert_eq!(cards[0].technical_problem, "问题");
    assert_eq!(cards[1].title, "T");
    assert!(drafted_cards(&obj(vec![])).is_none());
}

#[test]
fn card_titles_are_checked() {
    assert_eq!(check_card_title("   "), Err(TitleError::Missing));
    assert_eq!(check_card_title(&"字".repeat(501)), Err(TitleError::TooLong));
    assert_eq!(check_card_title(&"字".repeat(500)), Ok("字".repeat(500)));
    assert_eq!(check_card_title("  卡片 "), Ok("卡片".to_string()));
    assert_eq!(TitleError::Missing.message(), "title is required");
}

fn card(title: &str, core: &str) -> CardDraft {
    CardDraft {
        id: "x".to_string(),
        idea_id: "i".to_string(),
        title: title.to_string(),
        description: String::new(),
        technical_problem: String::new(),
        core_structure: core.to_string(),
        key_relations: String::new(),
        process_steps: String::new(),
        application_scenarios: String::new(),
    }
}

#[test]
fn card_diff_compares_each_field() {
    let d = card_diff(&card("abc", "same"), &card("abd", "same"));
    assert_eq!(d.core_structure.len(), 1);
    assert!(d.title.len() >= 2);
}

#[test]
fn ranking_keeps_first_title_per_key() {
    let titles: Vec<String> = vec![
        "Smart Parking System".to_string(),
        "smart parking system".to_string(),
        "Other".to_string(),
    ];
    assert_eq!(select_top(&titles), vec![0, 2]);
    let many: Vec<String> = (0..20).map(|i| format!("t{}", i)).collect();
    assert_eq!(select_top(&many), (0..15).collect::<Vec<usize>>());
    // Titles agreeing in their first 30 characters count as one.
    let long: Vec<String> = vec![format!("{}A", "x".repeat(30)), format!("{}B", "x".repeat(30))];
    assert_eq!(select_top(&long), vec![0]);
}

fn result(id: &str, link: &str) -> SearchResult {
    SearchResult {
        id: id.to_string(),
        title: String::new(),
        snippet: format!("s-{}", link),
        link: link.to_string(),
        source: String::new(),
    }
}

#[test]
fn source_link_prefers_patents_and_later_entries() {
    let web = vec![result("a", "w1"), result("b", "w2"), result("b", "w3")];
    let patents = vec![result("a", "p1")];
    assert_eq!(source_link(&web, &patents, "a"), ("p1".to_string(), "s-p1".to_string()));
    assert_eq!(source_link(&web, &patents, "b"), ("w3".to_string(), "s-w3".to_string()));
    assert_eq!(source_link(&web, &patents, "z"), (String::new(), String::new()));
}

#[test]
fn report_page_escapes_and_lists_cards() {
    let cards = vec![ReportCard { title: "<卡>".to_string(), description: "d".to_string(), score: "N/A".to_string() }];
    let html = report_html("T&1", "D", "done", "2024", "80/100", "", &cards);
    assert!(html.starts_with("<!DOCTYPE html>\n<html lang=\"zh\">"));
    assert!(html.contains("<title>创新验证报告 — T&amp;1</title>"));
    assert!(html.contains("<div class=\"analysis\">分析尚未完成</div>"));
    assert!(html.contains("<h2>特征卡片 (1 张)</h2>\n  <div class='card'><h4>&lt;卡&gt;</h4><p>d</p><span class='score'>新颖性: N/A</span></div>"));
    assert!(html.contains("<div class=\"score\">80/100</div>"));
    let empty = report_html("T", "D", "s", "c", "N/A", "a<b", &vec![]);
    assert!(empty.contains("<p>暂无特征卡片</p>"));
    assert!(empty.contains("a&lt;b"));
}
