use patent_hub::routes::upload::{
    decode_text, extracted_text, file_extension, image_data_url, upload_compare_prompt, upload_kind, UploadKind,
};
use patent_hub::routes::cascade::{next_online_source, OnlineSource, SearchSetup};
use patent_hub::json::Json;
use patent_hub::patent::{LegalEvent, LegalStatusResult, Patent};
use patent_hub::pipeline::steps::search::PatentResults;
use patent_hub::pipeline::steps::tokens::tokenize;
use patent_hub::routes::collections::{collection_name, tag_name};
use patent_hub::routes::epo::{epo_value, field_text};
use patent_hub::routes::idea::{check_submission, input_type_or_text, SubmitError};
use patent_hub::routes::legal::{
    image_proxy_allowed, legal_query, legal_result, legal_step, unknown_legal_status, LegalSource, LegalStep,
};
use patent_hub::routes::online::web_hits;
use patent_hub::routes::print::{print_escape, print_page};
use patent_hub::routes::sources::{
    fill_from_page, lens_item_texts, lens_request, lens_returned_fields, uspto_number, uspto_patent,
};
use patent_hub::json::get_member;
use patent_hub::orchestrator::command::OrchestratorCommand;
use patent_hub::orchestrator::engine::step_after_command;
use patent_hub::orchestrator::records::abort_outcome;
use patent_hub::pipeline::state::PipelineStep;

fn s(x: &str) -> Json {
    Json::Str(x.to_string())
}

fn obj(v: Vec<(&str, Json)>) -> Json {
    Json::Object(v.into_iter().map(|(k, x)| (k.to_string(), x)).collect())
}

fn patent() -> Patent {
    Patent {
        id: "id1".into(),
        patent_number: "CN1234567A".into(),
        title: "Title <A>".into(),
        abstract_text: String::new(),
        description: "short".into(),
        claims: "x".repeat(60),
        applicant: "Acme & Co".into(),
        inventor: "Li".into(),
        filing_date: "2020-01-01".into(),
        publication_date: "2021-01-01".into(),
        grant_date: None,
        ipc_codes: String::new(),
        cpc_codes: String::new(),
        priority_date: String::new(),
        country: "CN".into(),
        kind_code: String::new(),
        family_id: None,
        legal_status: String::new(),
        citations: "[]".into(),
        cited_by: "[]".into(),
        source: "test".into(),
        raw_json: String::new(),
        created_at: "now".into(),
        images: "[]".into(),
        pdf_url: String::new(),
    }
}

#[test]
fn page_sections_fill_only_missing_fields() {
    let p = fill_from_page(
        patent(),
        Some("abs".into()),
        Some("new claims".into()),
        Some("long description".into()),
        Some("G06F".into()),
    );
    assert_eq!(p.abstract_text, "abs");
    assert_eq!(p.claims, "x".repeat(60));
    assert_eq!(p.description, "long description");
    assert_eq!(p.ipc_codes, "G06F");
    assert_eq!(p.title, "Title <A>");
}

#[test]
fn page_sections_absent_keep_fields() {
    let p = fill_from_page(patent(), None, None, None, None);
    assert_eq!(p.abstract_text, "");
    assert_eq!(p.description, "short");
}

#[test]
fn uspto_number_drops_prefix_and_dashes() {
    assert_eq!(uspto_number("US-10,123-456"), "10,123456");
    assert_eq!(uspto_number("US9876543"), "9876543");
}

#[test]
fn uspto_reply_reads_first_patent() {
    let body = obj(vec![(
        "patents",
        Json::Array(vec![obj(vec![
            ("patent_title", s("Widget")),
            ("patent_abstract", s("A widget.")),
            ("patent_date", s("2019-05-01")),
            ("assignee_organization", s("Acme")),
        ])]),
    )]);
    let p = uspto_patent(&body, "US123", "i".into(), "t".into(), "raw".into());
    assert_eq!(p.title, "Widget");
    assert_eq!(p.abstract_text, "A widget.");
    assert_eq!(p.applicant, "Acme");
    assert_eq!(p.filing_date, "2019-05-01");
    assert_eq!(p.country, "US");
    assert_eq!(p.source, "uspto");
    let empty = uspto_patent(&Json::Null, "US1", "i".into(), "t".into(), "raw".into());
    assert_eq!(empty.title, "");
    assert_eq!(empty.patent_number, "US1");
}

#[test]
fn epo_field_found_depth_first() {
    let doc = obj(vec![
        ("meta", obj(vec![("x", s("1"))])),
        (
            "biblio",
            obj(vec![
                ("invention-title", Json::Array(vec![obj(vec![("$", s("Engine"))]), s("Motor")])),
                ("applicant", s("Acme")),
            ]),
        ),
    ]);
    let v = epo_value(&doc, "invention-title").expect("found");
    assert_eq!(field_text(v).as_deref(), Some("Engine, Motor"));
    assert_eq!(field_text(epo_value(&doc, "applicant").unwrap()).as_deref(), Some("Acme"));
    assert!(epo_value(&doc, "abstract").is_none());
}

#[test]
fn epo_empty_match_ends_only_its_object() {
    let doc = Json::Array(vec![
        obj(vec![("abstract", s("")), ("other", obj(vec![("abstract", s("inner"))]))]),
        obj(vec![("abstract", Json::Number("7".into()))]),
    ]);
    let v = epo_value(&doc, "abstract").expect("found");
    assert!(field_text(v).is_none());
    assert!(matches!(v, Json::Number(n) if n == "7"));
}

#[test]
fn legal_chain_order() {
    let empty = LegalStatusResult {
        patent_number: "X".into(),
        current_status: "未知".into(),
        events: vec![],
        source: "google_patents".into(),
        updated_at: "t".into(),
    };
    assert_eq!(legal_step(LegalSource::GooglePatents, None), LegalStep::Ask(LegalSource::Lens));
    assert_eq!(legal_step(LegalSource::GooglePatents, Some(&empty)), LegalStep::Ask(LegalSource::Lens));
    assert_eq!(legal_step(LegalSource::Lens, None), LegalStep::Ask(LegalSource::Sogou));
    assert_eq!(legal_step(LegalSource::Sogou, Some(&empty)), LegalStep::Unknown);
    let found = legal_result(
        "X",
        LegalSource::Sogou,
        vec![LegalEvent { date: "d".into(), title: "授权".into(), description: String::new() }],
        "t".into(),
    );
    assert_eq!(found.current_status, "有效");
    assert_eq!(found.source, "sogou");
    assert_eq!(legal_step(LegalSource::Sogou, Some(&found)), LegalStep::Accept);
}

#[test]
fn legal_result_lens_uses_first_title() {
    let r = legal_result(
        "X",
        LegalSource::Lens,
        vec![LegalEvent { date: "d".into(), title: "ACTIVE".into(), description: String::new() }],
        "t".into(),
    );
    assert_eq!(r.current_status, "ACTIVE");
    assert_eq!(r.source, "lens");
    let u = unknown_legal_status("X", "t".into());
    assert_eq!(u.current_status, "未知");
    assert_eq!(u.source, "none");
    assert!(u.events.is_empty());
}

#[test]
fn legal_query_text() {
    assert_eq!(legal_query("CN1"), "CN1 法律状态 专利");
}

#[test]
fn image_proxy_hosts() {
    assert!(image_proxy_allowed("https://patentimages.storage.googleapis.com/a/b.png"));
    assert!(image_proxy_allowed("https://worldwide.espacenet.com"));
    assert!(!image_proxy_allowed("http://patentimages.storage.googleapis.com/a.png"));
    assert!(!image_proxy_allowed("https://evil.com/patentimages.storage.googleapis.com"));
    assert!(!image_proxy_allowed("https://image.patent.k.sogou.com.evil.com/x"));
}

#[test]
fn print_page_escapes_and_numbers_figures() {
    assert_eq!(print_escape("a<b>&\"c'"), "a&lt;b&gt;&amp;&quot;c'");
    let html = print_page(&patent(), &vec!["https://x/1.png".to_string(), "https://x/2 b.png".to_string()]);
    assert!(html.contains("<h1>Title &lt;A&gt;</h1>"));
    assert!(html.contains("<td>Acme &amp; Co</td>"));
    assert!(html.contains("/api/patent/image-proxy?url=https%3A%2F%2Fx%2F2%20b.png"));
    assert!(html.contains("图 2</p>"));
    assert!(html.contains("<h2>附图</h2>"));
    let bare = print_page(&Patent { claims: String::new(), ..patent() }, &vec![]);
    assert!(bare.contains("权利要求内容未加载。"));
    assert!(!bare.contains("附图"));
}

#[test]
fn tokens_lowercase_and_split() {
    assert_eq!(tokenize("Solar Panel, cooling. fan"), vec!["solar", "panel", "cooling", "fan"]);
    assert!(tokenize("  ").is_empty());
}

#[test]
fn submission_checks() {
    assert_eq!(check_submission("  t ", " d "), Ok(("t".to_string(), "d".to_string())));
    assert_eq!(check_submission(" ", "d"), Err(SubmitError::EmptyTitle));
    assert_eq!(check_submission(&"字".repeat(201), "d"), Err(SubmitError::TitleTooLong));
    assert_eq!(check_submission(&"字".repeat(200), "d").map(|x| x.0.chars().count()), Ok(200));
    assert_eq!(check_submission("t", ""), Err(SubmitError::EmptyDescription));
    assert_eq!(check_submission("t", &"x".repeat(10001)), Err(SubmitError::DescriptionTooLong));
    assert_eq!(SubmitError::TitleTooLong.message(), "标题不能超过200字");
    assert_eq!(input_type_or_text(""), "text");
    assert_eq!(input_type_or_text("image"), "image");
}

#[test]
fn collection_and_tag_names() {
    assert_eq!(collection_name("  mine "), Some("mine".to_string()));
    assert_eq!(collection_name("   "), None);
    assert_eq!(collection_name(&"a".repeat(101)), None);
    assert_eq!(tag_name(&"a".repeat(50)), Some("a".repeat(50)));
    assert_eq!(tag_name(&"字".repeat(17)), None);
}

#[test]
fn web_hits_read_every_result() {
    let reply = obj(vec![(
        "organic_results",
        Json::Array(vec![obj(vec![("title", s("T")), ("link", s("L"))]), obj(vec![("snippet", s("S"))])]),
    )]);
    let hits = web_hits(&reply);
    assert_eq!(hits.len(), 2);
    assert_eq!(hits[0].title, "T");
    assert_eq!(hits[0].snippet, "");
    assert_eq!(hits[0].link, "L");
    assert_eq!(hits[1].snippet, "S");
}

#[test]
fn lens_item_prefers_chinese_text() {
    let item = obj(vec![
        (
            "title",
            Json::Array(vec![
                obj(vec![("lang", s("en")), ("text", s("Fan"))]),
                obj(vec![("lang", s("zh")), ("text", s("风扇"))]),
            ]),
        ),
        ("abstract", Json::Array(vec![obj(vec![("lang", s("en")), ("text", s("A fan"))])])),
        ("lens_id", s("000-111")),
    ]);
    let (t, a, id) = lens_item_texts(&item);
    assert_eq!(t, "风扇");
    assert_eq!(a, "A fan");
    assert_eq!(id, "000-111");
}

#[test]
fn patent_results_from_replies() {
    let mut r = PatentResults::new();
    r.add_serp_reply(&obj(vec![(
        "organic_results",
        Json::Array(vec![
            obj(vec![("title", s("Fan blade")), ("snippet", s("s")), ("patent_id", s("patent/US1/en"))]),
            obj(vec![("title", s("FAN BLADE")), ("snippet", s("dup"))]),
        ]),
    )]));
    assert_eq!(r.len(), 1);
    r.add_lens_reply(&obj(vec![(
        "data",
        Json::Array(vec![
            obj(vec![("title", Json::Array(vec![obj(vec![("text", s("Heat sink"))])])), ("lens_id", s("9"))]),
            obj(vec![("lens_id", s("10"))]),
        ]),
    )]));
    let out = r.into_results();
    assert_eq!(out.len(), 2);
    assert_eq!(out[0].id, "patent_online_0");
    assert_eq!(out[0].link, "https://patents.google.com/patent/patent/US1/en");
    assert_eq!(out[1].id, "patent_lens_1");
    assert_eq!(out[1].link, "https://www.lens.org/lens/patent/9");
    assert_eq!(out[1].source, "lens_org");
}

#[test]
fn online_cascade_order() {
    let order = |serp: bool, lens: bool, cnipr: bool, number_query: bool, domestic: bool| {
        let c = SearchSetup { serp, lens, cnipr, number_query, domestic };
        let mut out = Vec::new();
        let mut next = next_online_source(None, c);
        while let Some(s) = next {
            out.push(s);
            next = next_online_source(Some(s), c);
        }
        out
    };
    assert_eq!(
        order(false, false, false, false, false),
        vec![OnlineSource::GoogleDirect, OnlineSource::Sogou, OnlineSource::Local]
    );
    assert_eq!(
        order(true, false, false, true, false),
        vec![
            OnlineSource::ExactLookup,
            OnlineSource::SerpApi,
            OnlineSource::GoogleDirect,
            OnlineSource::Baidu,
            OnlineSource::Sogou,
            OnlineSource::Local
        ]
    );
    assert_eq!(
        order(false, true, false, true, false),
        vec![OnlineSource::GoogleDirect, OnlineSource::Lens, OnlineSource::Sogou, OnlineSource::Local]
    );
    assert_eq!(
        order(true, false, true, false, true),
        vec![
            OnlineSource::Cnipr,
            OnlineSource::SerpApi,
            OnlineSource::GoogleDirect,
            OnlineSource::Baidu,
            OnlineSource::Sogou,
            OnlineSource::Local
        ]
    );
    // Configured CNIPR is not asked for a query on foreign patents.
    assert_eq!(
        order(false, false, true, false, false),
        vec![OnlineSource::GoogleDirect, OnlineSource::Sogou, OnlineSource::Local]
    );
    // A Chinese query without CNIPR configured starts later.
    assert_eq!(
        order(false, false, false, false, true),
        vec![OnlineSource::GoogleDirect, OnlineSource::Sogou, OnlineSource::Local]
    );
}

#[test]
fn upload_kinds_and_text() {
    assert_eq!(file_extension("report.v2.PDF"), "pdf");
    assert_eq!(file_extension("noext"), "noext");
    assert_eq!(file_extension("a."), "");
    assert_eq!(upload_kind("jpeg"), UploadKind::Image);
    assert_eq!(upload_kind("docx"), UploadKind::Docx);
    assert_eq!(upload_kind("doc"), UploadKind::Doc);
    assert_eq!(upload_kind("txt"), UploadKind::Text);
    assert_eq!(image_data_url("png", b"abc"), "data:image/png;base64,YWJj");
    assert_eq!(image_data_url("tiff", b"ab"), "data:image/jpeg;base64,YWI=");
    assert_eq!(decode_text("中文".as_bytes()), Some("中文".to_string()));
    assert_eq!(decode_text(&[0xd6, 0xd0, 0xce, 0xc4]), Some("中文".to_string()));
    assert_eq!(decode_text(&[0x81]), None);
    let p = upload_compare_prompt("T", "A", &"c".repeat(2500), true, "body");
    assert!(p.contains(&format!("权利要求：{}\n\n【图片识别内容】\nbody", "c".repeat(2000))));
    assert_eq!(extracted_text(&"x".repeat(60000)).len(), 50000);
}

fn text_at<'a>(j: Option<&'a Json>) -> &'a str {
    match j {
        Some(Json::Str(t)) | Some(Json::Number(t)) => t.as_str(),
        _ => "",
    }
}

fn texts(j: &Json) -> Vec<String> {
    match j {
        Json::Array(xs) => xs.iter().map(|x| text_at(Some(x)).to_string()).collect(),
        _ => Vec::new(),
    }
}

#[test]
fn lens_request_body() {
    let r = lens_request("solid electrolyte", 3);
    assert!(matches!(&r, Json::Object(es) if es.len() == 3));
    let qs = get_member(get_member(Some(&r), "query"), "query_string");
    assert_eq!(text_at(get_member(qs, "query")), "solid electrolyte");
    assert_eq!(texts(get_member(qs, "fields").unwrap()), vec!["title", "abstract", "claims"]);
    assert_eq!(text_at(get_member(Some(&r), "size")), "10");
    assert_eq!(text_at(get_member(Some(&r), "from")), "20");
    let first = lens_request("x", 0);
    assert_eq!(text_at(get_member(Some(&first), "from")), "0");
    assert_eq!(text_at(get_member(Some(&lens_request("x", 1)), "from")), "0");
    let fields = texts(&lens_returned_fields());
    assert_eq!(fields.len(), 7);
    assert_eq!(fields[0], "lens_id");
    assert_eq!(fields[6], "biblio.parties.inventors");
}

#[test]
fn abort_stops_the_run() {
    let abort = OrchestratorCommand::Abort { reason: "stop".to_string() };
    assert_eq!(step_after_command(PipelineStep::ScoreNovelty, &abort), None);
    assert_eq!(
        step_after_command(PipelineStep::ScoreNovelty, &OrchestratorCommand::Jump(PipelineStep::ParseInput)),
        Some(PipelineStep::ParseInput)
    );
    assert_eq!(
        step_after_command(PipelineStep::ScoreNovelty, &OrchestratorCommand::Continue),
        Some(PipelineStep::ScoreNovelty)
    );
    let (error, finding) = abort_outcome("stop", "f1".to_string(), "idea", PipelineStep::ScoreNovelty, "main", "t".to_string());
    assert_eq!(error, "Pipeline aborted: stop");
    assert_eq!(finding.finding_type, "dead_end");
    assert_eq!(finding.content, "stop");
    assert_eq!(finding.title, "步骤「新颖性评分」失败");
    assert_eq!(finding.source_step, "ScoreNovelty");
    assert_eq!(finding.idea_id, "idea");
    assert_eq!(finding.branch_id, "main");
}
