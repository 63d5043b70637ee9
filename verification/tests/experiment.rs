use patent_hub::experiment::generator::{clean_script, experiment_for_idea};
use patent_hub::experiment::sandbox::{extract_json_metrics, metric_lines, truncate};
use patent_hub::orchestrator::records::{experiment_outcome, experiment_report};

fn value_of(m: &[(String, String)], k: &str) -> f64 {
    m.iter().find(|(key, _)| key == k).map(|(_, v)| v.parse::<f64>().unwrap()).unwrap()
}

#[test]
fn test_extract_json_metrics() {
    let stdout = "Starting...\n{\"accuracy\": 0.95}\n{\"latency_ms\": 12.3}\nDone\n";
    let metrics = extract_json_metrics(stdout).unwrap();
    assert_eq!(value_of(&metrics, "accuracy"), 0.95);
    assert_eq!(value_of(&metrics, "latency_ms"), 12.3);
}

#[test]
fn test_extract_no_metrics() {
    let stdout = "Hello world\nNo JSON here\n";
    let metrics = extract_json_metrics(stdout);
    assert!(metrics.is_none());
}

#[test]
fn later_metrics_replace_earlier_ones() {
    let m = extract_json_metrics("  {\"a\": 1, \"b\": 2}  \n{not json}\n{\"a\": 3}\n").unwrap();
    assert_eq!(m, vec![("a".to_string(), "3".to_string()), ("b".to_string(), "2".to_string())]);
    assert_eq!(metric_lines("x\n {\"a\":1} \r\n{b"), vec!["{\"a\":1}".to_string()]);
}

#[test]
fn output_truncation() {
    assert_eq!(truncate("short", 10), "short");
    assert_eq!(truncate("abcdef", 3), "abc...(truncated)");
    assert_eq!(truncate("专利abc", 3), "专...(truncated)");
}

#[test]
fn generated_scripts_lose_their_fences() {
    assert_eq!(clean_script("```python\nprint(1)\n```"), "print(1)");
    assert_eq!(clean_script("  ```py\nx = 1\n```  "), "x = 1");
    assert_eq!(clean_script("plain"), "plain");
    let spec = experiment_for_idea("Idea", "H", "code".to_string());
    assert_eq!(spec.title, "验证: Idea");
    assert_eq!(spec.language, "python");
    assert_eq!(spec.timeout_secs, 30);
}

#[test]
fn experiment_findings() {
    assert_eq!(
        experiment_outcome(true, 0, "T"),
        ("experiment_result".to_string(), "实验成功: T".to_string())
    );
    assert_eq!(
        experiment_outcome(false, -1, "T"),
        ("dead_end".to_string(), "实验失败 (exit=-1): T".to_string())
    );
    let r = experiment_report("H", "python", 42, 0, "{}", &"o".repeat(600));
    assert_eq!(r, format!("假设: H\n语言: python\n耗时: 42ms\n退出码: 0\n指标: {{}}\n输出: {}", "o".repeat(500)));
}
