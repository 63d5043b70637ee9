use patent_hub::json::Json;
use patent_hub::patent::Patent;
use patent_hub::routes::sources::{
    already_enriched, clean_description, cnipr_expression, cnipr_hits, cnipr_login_reply,
    cnipr_offset, cnipr_token_usable, complete_for_print, description_link, detail_patent,
    details_language, details_url, enrich_patent, exact_lookup_plan, found_patent_id, google_hits,
    lens_hits, needs_full_text, number_search_url, serp_to_patent, ExactLookup,
};

fn s(x: &str) -> Json {
    Json::Str(x.to_string())
}

fn n(x: &str) -> Json {
    Json::Number(x.to_string())
}

fn obj(v: Vec<(&str, Json)>) -> Json {
    Json::Object(v.into_iter().map(|(k, x)| (k.to_string(), x)).collect())
}

fn arr(v: Vec<Json>) -> Json {
    Json::Array(v)
}

#[test]
fn lens_items_become_hits() {
    let item1 = obj(vec![
        ("lens_id", s("L1")),
        ("title", arr(vec![obj(vec![("lang", s("en")), ("text", s("Battery"))]), obj(vec![("lang", s("zh")), ("text", s("电池"))])])),
        ("abstract", arr(vec![obj(vec![("lang", s("en")), ("text", s("Abs"))])])),
        (
            "biblio",
            obj(vec![
                ("publication_reference", obj(vec![("jurisdiction", s("cn")), ("doc_number", s("123")), ("kind", s("A"))])),
                (
                    "parties",
                    obj(vec![
                        ("applicants", arr(vec![obj(vec![("extracted_name", obj(vec![("value", s("ACME"))]))])])),
                        ("inventors", arr(vec![obj(vec![("extracted_name", obj(vec![("value", s("Li"))]))])])),
                    ]),
                ),
            ]),
        ),
        ("date_published", s("2020-01-01")),
    ]);
    let item2 = obj(vec![("lens_id", s("L2"))]);
    let item3 = obj(vec![("lens_id", s(""))]);
    let body = obj(vec![("total", n("2")), ("data", arr(vec![item1, item2, item3]))]);
    let (total, hits) = lens_hits(&body);
    assert_eq!(total, 2);
    assert_eq!(hits.len(), 2);
    assert_eq!(hits[0].patent_number, "CN123A");
    assert_eq!(hits[0].title, "电池");
    assert_eq!(hits[0].abstract_text, "Abs");
    assert_eq!(hits[0].applicant, "ACME");
    assert_eq!(hits[0].inventor, "Li");
    assert_eq!(hits[0].filing_date, "2020-01-01");
    assert_eq!(hits[0].country, "CN");
    assert_eq!(hits[1].patent_number, "L2");
    assert_eq!(hits[1].title, "");
}

#[test]
fn google_results_become_hits() {
    let r1 = obj(vec![
        ("id", s("patent/CN113557390B/zh")),
        (
            "patent",
            obj(vec![
                ("title", s("<b>电池</b>")),
                ("snippet", s("s<i>x</i>")),
                ("filing_date", s("2020")),
                ("assignee_localized", arr(vec![obj(vec![("value", s("华为"))])])),
                ("inventor_localized", arr(vec![obj(vec![("value", s("张三"))])])),
            ]),
        ),
    ]);
    let r2 = obj(vec![("id", s("patent/US1/en")), ("patent", obj(vec![("title", s(""))]))]);
    let body = obj(vec![(
        "results",
        obj(vec![("total_num_results", n("5")), ("cluster", arr(vec![obj(vec![("result", arr(vec![r1, r2]))])]))]),
    )]);
    let (total, hits) = google_hits(&body);
    assert_eq!(total, 5);
    assert_eq!(hits.len(), 1);
    assert_eq!(hits[0].patent_number, "CN113557390B");
    assert_eq!(hits[0].title, "电池");
    assert_eq!(hits[0].abstract_text, "sx");
    assert_eq!(hits[0].applicant, "华为");
    assert_eq!(hits[0].inventor, "张三");
    assert_eq!(hits[0].country, "CN");
    let (total, hits) = google_hits(&obj(vec![]));
    assert_eq!(total, 0);
    assert!(hits.is_empty());
}

#[test]
fn serpapi_result_becomes_patent() {
    let r = obj(vec![
        ("publication_number", s("US123B2")),
        ("title", s("T")),
        ("snippet", s("S")),
        ("assignee", s("A")),
        ("inventor", s("I")),
        ("filing_date", s("F")),
        ("grant_date", s("G")),
    ]);
    let p = serp_to_patent(&r, "id1".to_string(), "now".to_string(), "{}".to_string());
    assert_eq!(p.id, "id1");
    assert_eq!(p.patent_number, "US123B2");
    assert_eq!(p.country, "US");
    assert_eq!(p.abstract_text, "S");
    assert_eq!(p.grant_date, Some("G".to_string()));
    assert_eq!(p.publication_date, "");
    assert_eq!(p.source, "serpapi");
    assert_eq!(p.images, "[]");
    assert_eq!(p.citations, "[]");
}

#[test]
fn cnipr_expressions() {
    assert_eq!(
        cnipr_expression("CN116401354A"),
        "公开（公告）号='CN116401354A' OR 公开（公告）号='CN116401354A' OR 申请号='CN116401354A' OR 申请号='116401354'"
    );
    assert_eq!(
        cnipr_expression("2023101234567"),
        "公开（公告）号='2023101234567' OR 公开（公告）号='CN2023101234567' OR 申请号='2023101234567'"
    );
    assert_eq!(cnipr_expression("电池"), "名称+摘要=(电池)");
    assert_eq!(cnipr_offset(0), 0);
    assert_eq!(cnipr_offset(1), 0);
    assert_eq!(cnipr_offset(3), 20);
    assert!(cnipr_token_usable("t", 200, 100));
    assert!(!cnipr_token_usable("t", 160, 100));
    assert!(!cnipr_token_usable("", 1000, 100));
}

#[test]
fn cnipr_replies() {
    let bad = obj(vec![("status", n("1")), ("message", s("bad"))]);
    assert_eq!(cnipr_hits(&bad).err().unwrap(), "CNIPR: bad");
    let bad = obj(vec![("status", n("1"))]);
    assert_eq!(cnipr_hits(&bad).err().unwrap(), "CNIPR: unknown error");
    let good = obj(vec![
        ("status", n("0")),
        ("total", n("1")),
        (
            "results",
            arr(vec![obj(vec![
                ("title", s("T")),
                ("abs", s("A")),
                ("pubNumber", arr(vec![s("CN1")])),
                ("appDate", s("2020")),
                ("applicantName", arr(vec![s("X")])),
                ("发明（设计）人", s("Y")),
                ("lprs", s("有效")),
            ])]),
        ),
    ]);
    let (total, hits) = cnipr_hits(&good).unwrap();
    assert_eq!(total, 1);
    assert_eq!(hits[0].hit.patent_number, "CN1");
    assert_eq!(hits[0].hit.abstract_text, "[有效] A");
    assert_eq!(hits[0].hit.inventor, "Y");
    assert_eq!(hits[0].hit.country, "CN");
    assert_eq!(hits[0].plain_abstract, "A");
    let login = obj(vec![("status", n("0")), ("access_token", s("t")), ("open_id", s("o"))]);
    assert_eq!(cnipr_login_reply(&login), Some(("t".to_string(), "o".to_string(), 2592000)));
    let login = obj(vec![("status", n("0")), ("access_token", s("t"))]);
    assert_eq!(cnipr_login_reply(&login), None);
}

#[test]
fn exact_lookup_plans() {
    match exact_lookup_plan("CN116401354A") {
        ExactLookup::Details(id) => assert_eq!(id, "patent/CN116401354A/zh"),
        _ => panic!("expected details"),
    }
    match exact_lookup_plan("US1.2") {
        ExactLookup::Details(id) => assert_eq!(id, "patent/US12/en"),
        _ => panic!("expected details"),
    }
    match exact_lookup_plan(" 202210835143.9 ") {
        ExactLookup::SearchFirst(core) => assert_eq!(core, "202210835143"),
        _ => panic!("expected a search"),
    }
    match exact_lookup_plan("12345") {
        ExactLookup::Details(id) => assert_eq!(id, "patent/12345/en"),
        _ => panic!("expected details"),
    }
    let body = obj(vec![("organic_results", arr(vec![obj(vec![("patent_id", s("patent/CN1/en"))])]))]);
    assert_eq!(found_patent_id(&body), Some("patent/CN1/zh".to_string()));
    let body = obj(vec![("organic_results", arr(vec![obj(vec![("patent_id", s("patent/US1/en"))])]))]);
    assert_eq!(found_patent_id(&body), Some("patent/US1/en".to_string()));
    assert_eq!(
        details_url("patent/CN1/zh", "K"),
        "https://serpapi.com/search.json?engine=google_patents_details&patent_id=patent%2FCN1%2Fzh&api_key=K"
    );
    assert_eq!(
        number_search_url("202210835143", "K"),
        "https://serpapi.com/search.json?engine=google_patents&q=202210835143&page=1&api_key=K"
    );
}

#[test]
fn details_reply_becomes_patent() {
    let body = obj(vec![
        ("title", s("T")),
        ("claims", arr(vec![s("c1"), n("5"), s("c2")])),
        ("inventors", arr(vec![obj(vec![("name", s("A"))]), obj(vec![("name", s("B"))])])),
        ("assignees", arr(vec![s("X"), s("Y")])),
        ("pdf", s("P")),
    ]);
    let p = detail_patent(&body, " CN9 ", "i".to_string(), "t".to_string(), "raw".to_string()).unwrap();
    assert_eq!(p.patent_number, "CN9");
    assert_eq!(p.country, "CN");
    assert_eq!(p.claims, "c1\n\nc2");
    assert_eq!(p.inventor, "A; B");
    assert_eq!(p.applicant, "X; Y");
    assert_eq!(p.pdf_url, "P");
    assert_eq!(p.source, "serpapi_exact");
    let err = obj(vec![("error", s("x")), ("title", s("T"))]);
    assert!(detail_patent(&err, "q", "i".to_string(), "t".to_string(), "r".to_string()).is_none());
    let untitled = obj(vec![("title", s(""))]);
    assert!(detail_patent(&untitled, "q", "i".to_string(), "t".to_string(), "r".to_string()).is_none());
}

fn base_patent() -> Patent {
    let r = obj(vec![("publication_number", s("CN5A")), ("title", s("T")), ("snippet", s("old"))]);
    serp_to_patent(&r, "id".to_string(), "now".to_string(), "{}".to_string())
}

#[test]
fn enrichment_fills_what_the_reply_has() {
    let body = obj(vec![
        ("abstract", s("new abs")),
        ("claims", arr(vec![s("a")])),
        ("description", s("")),
        ("description_link", s("http://d")),
        ("classifications", arr(vec![s("G06F"), obj(vec![("code", s("H04L"))])])),
        ("family_id", s("F1")),
        (
            "legal_events",
            arr(vec![
                obj(vec![("title", s("Grant")), ("date", s("2020"))]),
                obj(vec![("title", s("")), ("date", s("x"))]),
                obj(vec![("title", s("Expire")), ("date", s("2030"))]),
                obj(vec![("title", s("Late")), ("date", s("2040"))]),
            ]),
        ),
        ("images", arr(vec![s("u1"), s("u\"2")])),
        ("pdf", s("pdf")),
    ]);
    assert_eq!(description_link(&body), Some("http://d".to_string()));
    let p = base_patent();
    assert!(needs_full_text(&p));
    assert!(!already_enriched(&p));
    assert_eq!(details_language(&p), "zh");
    let r = enrich_patent(p, &body, Some("<p>Hello</p><br>World <b>x</b>".to_string()));
    assert_eq!(r.abstract_text, "new abs");
    assert_eq!(r.claims, "a");
    assert_eq!(r.description, "Hello\n\nWorld x");
    assert_eq!(r.ipc_codes, "G06F, H04L");
    assert_eq!(r.family_id, Some("F1".to_string()));
    assert_eq!(r.legal_status, "Grant (2020); Expire (2030)");
    assert_eq!(r.images, "[\"u1\",\"u\\\"2\"]");
    assert_eq!(r.pdf_url, "pdf");
    assert_eq!(r.title, "T");
    let unchanged = enrich_patent(base_patent(), &obj(vec![]), None);
    assert_eq!(unchanged.abstract_text, "old");
    assert_eq!(unchanged.images, "[]");
}

#[test]
fn description_pages_are_cleaned() {
    assert_eq!(clean_description("<p>Hello</p><br>World <b>x</b>"), "Hello\n\nWorld x");
    assert_eq!(clean_description(" a<br/>b "), "a\nb");
}

#[test]
fn printing_completes_missing_text() {
    let body = obj(vec![
        ("description", s("D")),
        ("abstract", s("A2")),
        ("claims", arr(vec![s("c")])),
        ("images", arr(vec![s("i")])),
    ]);
    let r = complete_for_print(base_patent(), &body);
    assert_eq!(r.description, "D");
    assert_eq!(r.abstract_text, "old");
    assert_eq!(r.claims, "c");
    assert_eq!(r.images, "[\"i\"]");
    assert_eq!(r.pdf_url, "");
}
