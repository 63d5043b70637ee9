use patent_hub::json::Json;
use patent_hub::orchestrator::engine::should_fallback_diversity;
use patent_hub::pipeline::state::{PipelineStep, TOTAL_STEPS};
use patent_hub::pipeline::steps::prior_art_cluster::{prior_art_clusters, ClusterCore};
use patent_hub::pipeline::steps::search::{
    cached_queries, hash_key, lens_supplements, query_hash, title_key_of, web_query, PatentResults,
    WebResults,
};

fn cluster(items: &[(&str, Vec<&str>)]) -> Vec<ClusterCore> {
    let titles: Vec<String> = items.iter().map(|(t, _)| t.to_string()).collect();
    let tokens: Vec<Vec<String>> =
        items.iter().map(|(_, ts)| ts.iter().map(|s| s.to_string()).collect()).collect();
    prior_art_clusters(&titles, &tokens)
}

#[test]
fn diversity_fallback_first_two_rounds_allowed() {
    assert!(should_fallback_diversity(false, PipelineStep::DiversityGate, 0.0 < 0.3, 0, 1));
    assert!(should_fallback_diversity(false, PipelineStep::DiversityGate, 0.1 < 0.3, 1, 2));
}

#[test]
fn diversity_fallback_stops_after_limit() {
    assert!(!should_fallback_diversity(false, PipelineStep::DiversityGate, 0.0 < 0.3, 2, 3));
}

#[test]
fn diversity_fallback_has_hard_guard_when_retry_counter_stuck() {
    assert!(!should_fallback_diversity(false, PipelineStep::DiversityGate, 0.0 < 0.3, 0, 3));
}

#[test]
fn test_clustering_groups_similar_items() {
    let c = cluster(&[
        ("Neural network image recognition", vec!["neural", "network", "image", "recognition", "deep", "learning", "cnn"]),
        ("Deep learning image classification", vec!["deep", "learning", "image", "classification", "convolutional", "neural", "net"]),
        ("Blockchain supply chain tracking", vec!["blockchain", "supply", "chain", "tracking", "distributed", "ledger"]),
    ]);
    assert_eq!(c.len(), 2);
    assert_eq!(c[0].patent_indices.len(), 2);
    assert!(c[0].patent_indices.contains(&0));
    assert!(c[0].patent_indices.contains(&1));
    assert_eq!(c[1].patent_indices.len(), 1);
    assert!(c[1].patent_indices.contains(&2));
}

#[test]
fn test_empty_input() {
    assert!(cluster(&[]).is_empty());
}

#[test]
fn test_single_item() {
    let scores = [0.9f64];
    let c = cluster(&[("Quantum computing error correction", vec!["quantum", "computing", "error", "correction"])]);
    assert_eq!(c.len(), 1);
    assert_eq!(c[0].patent_indices, vec![0]);
    // A cluster's average similarity is the mean of its members' float
    // scores, taken by the server over the indices the library returns.
    let avg = c[0].patent_indices.iter().map(|i| scores[*i]).sum::<f64>() / c[0].patent_indices.len() as f64;
    assert!((avg - 0.9).abs() < f64::EPSILON);
}

#[test]
fn test_all_dissimilar_items() {
    let c = cluster(&[("A", vec!["alpha", "beta"]), ("B", vec!["gamma", "delta"]), ("C", vec!["epsilon", "zeta"])]);
    assert_eq!(c.len(), 3);
}

#[test]
fn test_topic_derivation() {
    let c = cluster(&[
        ("专利分析系统", vec!["专利", "分析", "系统", "自然语言", "处理"]),
        ("专利检索与分析平台", vec!["专利", "检索", "分析", "平台", "文本", "挖掘"]),
    ]);
    assert_eq!(c.len(), 2);
}

#[test]
fn test_chinese_text_clustering() {
    let c = cluster(&[
        ("智能停车系统", vec!["智能", "停车", "系统", "自动", "泊车"]),
        ("智能停车场管理", vec!["智能", "停车", "场", "管理", "车位", "检测"]),
        ("自动泊车辅助系统", vec!["自动", "泊车", "辅助", "系统", "智能", "停车"]),
    ]);
    assert_eq!(c.len(), 2);
    assert!(c[0].patent_indices.contains(&0));
    assert!(c[0].patent_indices.contains(&2));
}

#[test]
fn cluster_members_partition_the_matches() {
    let c = cluster(&[
        ("a", vec!["x", "y"]),
        ("b", vec!["x", "y", "z"]),
        ("c", vec!["p"]),
        ("d", vec!["p", "q"]),
    ]);
    let mut all: Vec<usize> = c.iter().flat_map(|k| k.patent_indices.clone()).collect();
    all.sort();
    assert_eq!(all, vec![0, 1, 2, 3]);
    assert_eq!(c[0].representative_title, "a");
    assert_eq!(c[1].representative_title, "c");
}

#[test]
fn cache_keys() {
    assert_eq!(hash_key(0), "0000000000000000");
    assert_eq!(hash_key(0xdeadbeef), "00000000deadbeef");
    assert_eq!(hash_key(u64::MAX), "ffffffffffffffff");
    let k = query_hash("q", "web");
    assert_eq!(k.len(), 16);
    assert_eq!(k, query_hash("q", "web"));
    assert!(k.chars().all(|c| c.is_ascii_digit() || ('a'..='f').contains(&c)));
    assert_ne!(k, query_hash("r", "web"));
    assert_ne!(k, query_hash("q", "patent"));
    assert_ne!(k, hash_key(0));
    let (qs, text) = cached_queries(&vec!["a".to_string(), "b".to_string(), "c".to_string(), "d".to_string()], 3);
    assert_eq!(qs, vec!["a".to_string(), "b".to_string(), "c".to_string()]);
    assert_eq!(text, "a|b|c");
}

fn s(x: &str) -> Json {
    Json::Str(x.to_string())
}

fn obj(v: Vec<(&str, Json)>) -> Json {
    Json::Object(v.into_iter().map(|(k, x)| (k.to_string(), x)).collect())
}

#[test]
fn web_results_are_distinct_by_link() {
    let mut w = WebResults::new();
    assert!(w.add("t1".to_string(), "s1".to_string(), "https://a".to_string(), "serpapi"));
    assert!(!w.add("t2".to_string(), "s2".to_string(), "https://a".to_string(), "serpapi"));
    assert!(!w.add("t3".to_string(), "s3".to_string(), "".to_string(), "serpapi"));
    let body = obj(vec![(
        "webPages",
        obj(vec![(
            "value",
            Json::Array(vec![
                obj(vec![("name", s("b")), ("snippet", s("sb")), ("url", s("https://b"))]),
                obj(vec![("name", s("a again")), ("url", s("https://a"))]),
            ]),
        )]),
    )]);
    w.add_reply(&body, true);
    assert_eq!(w.len(), 2);
    let r = w.into_results();
    assert_eq!(r[0].id, "web_0");
    assert_eq!(r[1].id, "web_1");
    assert_eq!(r[1].title, "b");
    assert_eq!(r[1].link, "https://b");
    assert_eq!(r[1].source, "bing");
}

#[test]
fn patent_results_are_distinct_by_title_key() {
    let mut p = PatentResults::new();
    assert!(p.add_local("CN1", "Battery Pack Cooling System For Vehicles".to_string(), "abs".to_string()));
    assert!(!p.add_online("battery pack cooling system for trucks".to_string(), "s".to_string(), None));
    assert!(p.add_online("Solar cell".to_string(), "s".to_string(), Some("patent/US9".to_string())));
    assert!(!p.add_lens("".to_string(), "x", "L0"));
    let long = "z".repeat(400);
    assert!(p.add_lens("Lens title".to_string(), &long, "L1"));
    let r = p.into_results();
    assert_eq!(r.len(), 3);
    assert_eq!(r[0].id, "patent_local_CN1");
    assert_eq!(r[0].link, "https://patents.google.com/patent/CN1");
    assert_eq!(r[1].id, "patent_online_1");
    assert_eq!(r[1].link, "https://patents.google.com/patent/patent/US9");
    assert_eq!(r[2].id, "patent_lens_2");
    assert_eq!(r[2].snippet.chars().count(), 300);
    assert_eq!(r[2].link, "https://www.lens.org/lens/patent/L1");
    assert_eq!(title_key_of("ABCDEFGHIJKLMNOPQRSTUVWXYZ"), "abcdefghijklmnopqrst");
}

#[test]
fn search_step_queries() {
    assert_eq!(web_query("q", "serpapi"), "q site:patents.google.com OR technology OR patent");
    assert_eq!(web_query("q", "bing"), "q patent technology");
    assert_eq!(web_query("q", "sogou"), "q 专利");
    assert!(lens_supplements("k", 4));
    assert!(!lens_supplements("k", 5));
    assert!(!lens_supplements("", 0));
}

#[test]
fn walk_has_fourteen_steps_ending_at_position_thirteen() {
    let mut step = PipelineStep::ParseInput;
    let mut count = 1;
    while let Some(n) = step.next() {
        step = n;
        count += 1;
    }
    assert_eq!(step, PipelineStep::Finalize);
    assert_eq!(count, TOTAL_STEPS);
    assert_eq!(TOTAL_STEPS, 14);
    assert_eq!(PipelineStep::Finalize.index(), 13);
    assert_eq!(PipelineStep::ExperimentValidation.next(), Some(PipelineStep::Finalize));
}
