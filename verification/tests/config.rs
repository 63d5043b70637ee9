use patent_hub::db::version::Finding;
use patent_hub::orchestrator::records::{failure_finding, new_branch, next_version_number, version_snapshot};
use patent_hub::pipeline::state::PipelineStep;
use patent_hub::routes::config::AppConfig;

fn pairs(v: &[(&str, &str)]) -> Vec<(String, String)> {
    v.iter().map(|(a, b)| (a.to_string(), b.to_string())).collect()
}

#[test]
fn settings_come_from_store_then_environment_then_defaults() {
    let db = pairs(&[("SERPAPI_KEY", "db-key"), ("AI_MODEL", ""), ("FALLBACK_AI_2_URL", "u2"), ("FALLBACK_AI_2_KEY", "k2")]);
    let env = pairs(&[("AI_MODEL", "env-model"), ("SERPAPI_KEY", "env-key"), ("FALLBACK_AI_2_MODEL", "m2"), ("FALLBACK_AI_1_URL", "u1")]);
    let c = AppConfig::from_db_and_env(&db, &env);
    assert_eq!(c.serpapi_key, "db-key");
    assert_eq!(c.ai_model, "env-model");
    assert_eq!(c.ai_base_url, "http://localhost:11434/v1");
    assert_eq!(c.ai_api_key, "ollama");
    assert_eq!(c.ai_fallbacks.len(), 1);
    assert_eq!(c.ai_fallbacks[0].name, "Fallback-2");
    assert_eq!(c.ai_fallbacks[0].base_url, "u2");
    assert_eq!(c.ai_fallbacks[0].model, "m2");
    assert!(c.has_serpapi());
    assert!(!c.has_bing());
    assert!(!c.has_lens());
    let e = AppConfig::from_env(&pairs(&[("SERPAPI_KEY", "your-serpapi-key-here"), ("LENS_API_KEY", "L")]));
    assert!(!e.has_serpapi());
    assert!(e.has_lens());
    let keys = AppConfig::config_keys();
    assert_eq!(keys.len(), 30);
    assert_eq!(keys[6], "FALLBACK_AI_1_URL");
    assert_eq!(keys[25], "FALLBACK_AI_5_NAME");
    assert_eq!(keys[26], "CNIPR_CLIENT_ID");
    assert_eq!(keys[29], "CNIPR_PASSWORD");
    assert!(!e.has_cnipr());
    let n = AppConfig::from_env(&pairs(&[("CNIPR_CLIENT_ID", "id"), ("CNIPR_USER", "u"), ("CNIPR_PASSWORD", "p")]));
    assert!(n.has_cnipr());
    assert_eq!(n.cnipr_client_id, "id");
    assert_eq!(n.cnipr_client_secret, "");
    assert_eq!(n.cnipr_token_expires, 0);
    let m = AppConfig::from_env(&pairs(&[("CNIPR_CLIENT_ID", "id"), ("CNIPR_USER", "u")]));
    assert!(!m.has_cnipr());
}

#[test]
fn stored_records() {
    assert_eq!(next_version_number(None), 1);
    assert_eq!(next_version_number(Some(4)), 5);
    let v = version_snapshot("v".to_string(), "idea", 2, "{}".to_string(), PipelineStep::ScoreNovelty, "main", "t".to_string());
    assert_eq!(v.current_step, "ScoreNovelty");
    let f: Finding = failure_finding("f".to_string(), "idea", PipelineStep::SearchWeb, "boom", "main", "t".to_string());
    assert_eq!(f.title, "步骤「网络搜索」失败");
    assert_eq!(f.finding_type, "dead_end");
    assert_eq!(f.source_step, "SearchWeb");
    let b = new_branch("b".to_string(), "idea", "alt", "main", "v1", "t".to_string());
    assert_eq!(b.status, "active");
    assert_eq!(b.parent_version_id, Some("v1".to_string()));
}
