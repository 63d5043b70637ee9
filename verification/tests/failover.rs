use patent_hub::failover::{
    attempt_step, failover_step, AiClient, AttemptReply, AttemptStep, FailoverStep, ProviderError, MAX_ATTEMPTS,
};
use patent_hub::routes::config::{AiFallback, AppConfig};

fn response(status: u16, content: Option<&str>) -> AttemptReply {
    AttemptReply::Response { status, content: content.map(|c| c.to_string()) }
}

fn finished_ok(s: AttemptStep) -> String {
    match s {
        AttemptStep::Finish(Ok(c)) => c,
        other => panic!("expected an answer, got {:?}", other),
    }
}

fn finished_err(s: AttemptStep) -> ProviderError {
    match s {
        AttemptStep::Finish(Err(e)) => e,
        other => panic!("expected a failure, got {:?}", other),
    }
}

#[test]
fn client_keeps_primary_then_fallbacks_in_order() {
    let mut c = AiClient::with_config("https://a.example/v1", "k1", "m1");
    assert_eq!(c.primary.name, "primary");
    assert_eq!(c.provider_count(), 1);
    c.add_fallback("https://b.example/v1", "k2", "m2", "second");
    c.add_fallback("https://c.example/v1", "k3", "m3", "third");
    assert_eq!(c.provider_count(), 3);
    assert_eq!(c.provider_at(0).base_url, "https://a.example/v1");
    assert_eq!(c.provider_at(1).name, "second");
    assert_eq!(c.provider_at(2).model, "m3");
}

#[test]
fn config_builds_client_with_its_fallbacks() {
    let config = AppConfig {
        serpapi_key: String::new(),
        bing_api_key: String::new(),
        lens_api_key: String::new(),
        ai_base_url: "https://open.bigmodel.cn/api/paas/v4".to_string(),
        ai_api_key: "key".to_string(),
        ai_model: "glm-4.7-flash".to_string(),
        ai_fallbacks: vec![AiFallback {
            name: "DeepSeek".to_string(),
            base_url: "https://api.deepseek.com/v1".to_string(),
            api_key: "dk".to_string(),
            model: "deepseek-chat".to_string(),
        }],
        cnipr_client_id: String::new(),
        cnipr_client_secret: String::new(),
        cnipr_user: String::new(),
        cnipr_password: String::new(),
        cnipr_access_token: String::new(),
        cnipr_open_id: String::new(),
        cnipr_token_expires: 0,
    };
    let c = config.ai_client();
    assert_eq!(c.primary.model, "glm-4.7-flash");
    assert_eq!(c.fallbacks.len(), 1);
    assert_eq!(c.fallbacks[0].name, "DeepSeek");
    assert_eq!(c.fallbacks[0].base_url, "https://api.deepseek.com/v1");
}

#[test]
fn rate_limit_and_auth_errors_stop_at_once() {
    let e = finished_err(attempt_step(0, MAX_ATTEMPTS, response(429, Some("x")), "https://a"));
    assert_eq!(e, ProviderError::RateLimited);
    let e = finished_err(attempt_step(0, MAX_ATTEMPTS, response(401, None), "https://a"));
    assert_eq!(e, ProviderError::AuthRejected);
    let e = finished_err(attempt_step(0, MAX_ATTEMPTS, response(403, Some("y")), "https://a"));
    assert_eq!(e, ProviderError::AuthRejected);
    assert_eq!(e.message(), "AI API Key 无效或已过期。请到「设置」页面检查 API Key 配置。");
    assert_eq!(ProviderError::RateLimited.message(), "AI 频率限制，请稍后再试");
}

#[test]
fn server_error_retries_then_answers() {
    assert!(matches!(attempt_step(0, 2, response(502, Some("gateway")), "https://a"), AttemptStep::Retry));
    assert_eq!(finished_ok(attempt_step(1, 2, response(502, Some("gateway")), "https://a")), "gateway");
    assert_eq!(finished_ok(attempt_step(0, 2, response(200, Some("hello")), "https://a")), "hello");
}

#[test]
fn provider_error_text_retries_once() {
    let reply = "AI 错误：bad request";
    assert!(matches!(attempt_step(0, 2, response(200, Some(reply)), "https://a"), AttemptStep::Retry));
    assert_eq!(finished_ok(attempt_step(1, 2, response(200, Some(reply)), "https://a")), reply);
}

#[test]
fn unreadable_body_retries_then_fails() {
    assert!(matches!(attempt_step(0, 2, response(200, None), "https://a"), AttemptStep::Retry));
    let e = finished_err(attempt_step(1, 2, response(200, None), "https://a"));
    assert_eq!(e, ProviderError::ReadInterrupted);
    assert!(e.message().starts_with("AI 响应读取失败"));
}

#[test]
fn refused_local_endpoint_means_not_configured() {
    let reply = AttemptReply::SendFailed { connect: true, timeout: false, message: "refused".to_string() };
    let e = finished_err(attempt_step(0, 2, reply, "http://localhost:11434/v1"));
    assert_eq!(e, ProviderError::LocalNotConfigured);
}

#[test]
fn transport_failures_retry_then_report() {
    let timeout = || AttemptReply::SendFailed { connect: false, timeout: true, message: "timed out".to_string() };
    assert!(matches!(attempt_step(0, 2, timeout(), "https://a"), AttemptStep::Retry));
    let e = finished_err(attempt_step(1, 2, timeout(), "https://a"));
    assert_eq!(e, ProviderError::Transport("timed out".to_string()));
    assert_eq!(e.message(), "timed out");
    let other = AttemptReply::SendFailed { connect: false, timeout: false, message: "tls".to_string() };
    assert_eq!(finished_err(attempt_step(0, 2, other, "https://a")), ProviderError::Transport("tls".to_string()));
}

#[test]
fn failover_moves_to_next_provider() {
    match failover_step(0, 2, Err(ProviderError::RateLimited)) {
        FailoverStep::Try(j) => assert_eq!(j, 1),
        other => panic!("{:?}", other),
    }
    match failover_step(1, 2, Ok("answer".to_string())) {
        FailoverStep::Finish(Ok(c)) => assert_eq!(c, "answer"),
        other => panic!("{:?}", other),
    }
    match failover_step(2, 2, Err(ProviderError::AuthRejected)) {
        FailoverStep::Finish(Err(e)) => assert_eq!(e, ProviderError::AuthRejected),
        other => panic!("{:?}", other),
    }
    match failover_step(0, 0, Err(ProviderError::ReadInterrupted)) {
        FailoverStep::Finish(Err(e)) => assert_eq!(e, ProviderError::ReadInterrupted),
        other => panic!("{:?}", other),
    }
}

/// Drives the failover decisions over fixed outcomes, as the client does.
fn run(outcomes: Vec<Result<String, ProviderError>>) -> (Result<String, ProviderError>, usize) {
    let n_fallbacks = outcomes.len() - 1;
    let mut index = 0;
    let mut asked = 0;
    loop {
        asked += 1;
        match failover_step(index, n_fallbacks, outcomes[index].clone()) {
            FailoverStep::Try(j) => index = j,
            FailoverStep::Finish(r) => return (r, asked),
        }
    }
}

#[test]
fn first_success_wins_after_failures() {
    let (r, asked) = run(vec![
        Err(ProviderError::RateLimited),
        Err(ProviderError::AuthRejected),
        Ok("third".to_string()),
        Ok("fourth".to_string()),
    ]);
    assert_eq!(r, Ok("third".to_string()));
    assert_eq!(asked, 3);
}

#[test]
fn all_failing_returns_last_error() {
    let (r, asked) = run(vec![Err(ProviderError::RateLimited), Err(ProviderError::ReadInterrupted)]);
    assert_eq!(r, Err(ProviderError::ReadInterrupted));
    assert_eq!(asked, 2);
}
