use patent_hub::patent::SearchType;
use patent_hub::routes::results::{
    category_groups, class_filter, class_matches, dedup_by_base_number, export_csv, export_table,
    final_total, order_by_date, rank_by_count, removed_count, search_stats, search_type_label,
    ExportRecord,
};

fn strings(v: &[&str]) -> Vec<String> {
    v.iter().map(|s| s.to_string()).collect()
}

#[test]
fn versions_of_one_patent_are_merged() {
    let keep = dedup_by_base_number(&strings(&["CN123456A", "cn123456b", "US999B2", "CN123456"]));
    assert_eq!(keep, vec![true, false, true, false]);
    assert_eq!(removed_count(&keep), 2);
}

#[test]
fn keys_ranked_by_count_then_first_appearance() {
    let r = rank_by_count(&strings(&["b", "a", "b", "c", "a", "b"]));
    assert_eq!(r, vec![("b".to_string(), 3), ("a".to_string(), 2), ("c".to_string(), 1)]);
}

#[test]
fn category_groups_for_large_pages() {
    let apps = strings(&["华为技术有限公司", "华为技术有限公司", "", "A", "华为技术有限公司", "C", "", "B", "华为技术有限公司", "C"]);
    let countries = strings(&["CN", "US", "CN", "", "CN", "US", "CN", "CN", "US", "CN"]);
    let g = category_groups(&apps, &countries).unwrap();
    let got: Vec<(String, usize)> = g.into_iter().map(|x| (x.label, x.count)).collect();
    assert_eq!(
        got,
        vec![
            ("申请人: 华为技术有限公司".to_string(), 4),
            ("申请人: 未知".to_string(), 2),
            ("申请人: C".to_string(), 2),
            ("国家: CN".to_string(), 6),
            ("国家: US".to_string(), 3),
            ("国家: 未知".to_string(), 1),
        ]
    );
    assert!(category_groups(&apps[..9].to_vec(), &countries[..9].to_vec()).is_none());
}

#[test]
fn applicant_groups_use_twenty_characters() {
    let long = "一二三四五六七八九十一二三四五六七八九十多余";
    let apps: Vec<String> = (0..10).map(|_| long.to_string()).collect();
    let countries: Vec<String> = (0..10).map(|_| "CN".to_string()).collect();
    let g = category_groups(&apps, &countries).unwrap();
    assert_eq!(g[0].label, "申请人: 一二三四五六七八九十一二三四五六七八九十");
    assert_eq!(g[0].count, 10);
}

#[test]
fn statistics_of_results() {
    let s = search_stats(
        &strings(&["X", "", "X"]),
        &strings(&["CN", "CN", "US"]),
        &strings(&["2021-05-01", "2020", "20"]),
    );
    assert_eq!(s.total, 3);
    assert_eq!(s.applicants, vec![("X".to_string(), 2), ("未知".to_string(), 1)]);
    assert_eq!(s.countries, vec![("CN".to_string(), 2), ("US".to_string(), 1)]);
    assert_eq!(s.years, vec![("2020".to_string(), 1), ("2021".to_string(), 1)]);
}

fn record(abstract_text: &str) -> ExportRecord {
    ExportRecord {
        patent_number: "CN1".to_string(),
        title: "a,b".to_string(),
        applicant: "X".to_string(),
        inventor: "Y".to_string(),
        filing_date: "2020-01-01".to_string(),
        country: "CN".to_string(),
        abstract_text: abstract_text.to_string(),
    }
}

#[test]
fn csv_export() {
    assert!(export_csv(&vec![]).is_none());
    let long = "x".repeat(200);
    let csv = export_csv(&vec![record(&long)]).unwrap();
    let expected = format!(
        "\u{FEFF}专利号,标题,申请人,发明人,申请日,公开日,国家/地区,摘要\nCN1,\"a,b\",X,Y,2020-01-01,2020-01-01,CN,{}\n",
        "x".repeat(150)
    );
    assert_eq!(csv, expected);
}

#[test]
fn spreadsheet_table() {
    let long = "y".repeat(300);
    let t = export_table(&vec![record(&long)]);
    assert_eq!(t.len(), 2);
    assert_eq!(t[0], strings(&["Patent No.", "Title", "Applicant", "Inventor", "Filing Date", "Country", "Abstract"]));
    assert_eq!(t[1][1], "a,b");
    assert_eq!(t[1][6], "y".repeat(200));
}

#[test]
fn date_order_is_stable() {
    let d = strings(&["2020-01-01", "2022-05-05", "2021-03-03", "2022-05-05"]);
    assert_eq!(order_by_date(&d, true), vec![1, 3, 2, 0]);
    assert_eq!(order_by_date(&d, false), vec![0, 2, 1, 3]);
}

#[test]
fn totals_and_labels() {
    assert_eq!(final_total(true, 3, 100, 7), 7);
    assert_eq!(final_total(false, 3, 100, 7), 97);
    assert_eq!(final_total(false, 5, 2, 0), 0);
    assert_eq!(final_total(false, 0, 50, 7), 50);
    assert_eq!(search_type_label(SearchType::PatentNumber), "patent_number");
    assert_eq!(search_type_label(SearchType::Mixed), "mixed");
}

#[test]
fn classification_filters() {
    assert_eq!(class_filter(Some("  G06F ")), "g06f");
    assert_eq!(class_filter(None), "");
    assert!(class_matches("g06f", Some("G06F 17/30")));
    assert!(!class_matches("g06f", None));
    assert!(!class_matches("h04l", Some("G06F")));
    assert!(class_matches("", None));
}
