use patent_hub::ai::{
    compressed_history, compression_plan, condensed_history, estimate_tokens, extract_chat_content,
    extract_content_from_data, safe_truncate, ChatReply, ReplyChoice, ReplyMessage,
};
use patent_hub::json::Json;

fn s(x: &str) -> Json {
    Json::Str(x.to_string())
}

fn obj(v: Vec<(&str, Json)>) -> Json {
    Json::Object(v.into_iter().map(|(k, x)| (k.to_string(), x)).collect())
}

fn empty_reply() -> ChatReply {
    ChatReply { choices: None, data: None, result: None }
}

#[test]
fn extracts_openai_message_content() {
    let raw = r#"{"choices":[{"message":{"role":"assistant","content":"hello"}}]}"#;
    let typed = ChatReply {
        choices: Some(vec![ReplyChoice {
            message: Some(ReplyMessage { content: Some("hello".to_string()) }),
            delta: None,
        }]),
        data: None,
        result: None,
    };
    let generic = obj(vec![(
        "choices",
        Json::Array(vec![obj(vec![("message", obj(vec![("role", s("assistant")), ("content", s("hello"))]))])]),
    )]);
    assert_eq!(extract_chat_content(Some(typed), Some(generic), raw), "hello");
}

#[test]
fn extracts_provider_result_field() {
    let raw = r#"{"result":"provider text"}"#;
    let typed = ChatReply { choices: None, data: None, result: Some("provider text".to_string()) };
    let generic = obj(vec![("result", s("provider text"))]);
    assert_eq!(extract_chat_content(Some(typed), Some(generic), raw), "provider text");
}

#[test]
fn formats_provider_error_message() {
    let raw = r#"{"error":{"message":"bad request"}}"#;
    let generic = obj(vec![("error", obj(vec![("message", s("bad request"))]))]);
    assert_eq!(extract_chat_content(Some(empty_reply()), Some(generic), raw), "AI 错误：bad request");
}

#[test]
fn reply_content_fallbacks() {
    let typed = ChatReply {
        choices: Some(vec![ReplyChoice { message: None, delta: Some(ReplyMessage { content: Some("streamed".to_string()) }) }]),
        data: None,
        result: Some("later".to_string()),
    };
    assert_eq!(extract_chat_content(Some(typed), None, "x"), "streamed");
    let zhipu = obj(vec![("data", obj(vec![("content", s("zhipu"))]))]);
    let typed = ChatReply { choices: None, data: Some(zhipu), result: None };
    assert_eq!(extract_chat_content(Some(typed), None, "x"), "zhipu");
    let generic = obj(vec![("msg", s("quota"))]);
    assert_eq!(extract_chat_content(None, Some(generic), "x"), "AI 错误：quota");
    let raw = "n".repeat(250);
    assert_eq!(extract_chat_content(None, None, &raw), format!("AI 响应解析失败，原始响应：{}", "n".repeat(200)));
}

#[test]
fn content_from_nested_data() {
    let d = obj(vec![(
        "data",
        obj(vec![("choices", Json::Array(vec![obj(vec![("message", obj(vec![("content", s("deep"))]))])]))]),
    )]);
    assert_eq!(extract_content_from_data(&d), Some("deep".to_string()));
    assert_eq!(extract_content_from_data(&obj(vec![])), None);
}

#[test]
fn token_estimates() {
    assert_eq!(estimate_tokens(""), 1);
    assert_eq!(estimate_tokens("abcd"), 2);
    assert_eq!(estimate_tokens("专利"), 4);
    assert_eq!(estimate_tokens(&"a".repeat(400)), 101);
}

#[test]
fn truncation_keeps_characters_whole() {
    assert_eq!(safe_truncate("hello", 10), "hello");
    assert_eq!(safe_truncate("hello", 3), "hel");
    assert_eq!(safe_truncate("专利", 4), "专");
    assert_eq!(safe_truncate("专利", 2), "");
}

fn history(n: usize, len: usize) -> Vec<(String, String)> {
    (0..n)
        .map(|i| (if i % 2 == 0 { "user" } else { "assistant" }.to_string(), "x".repeat(len)))
        .collect()
}

#[test]
fn long_histories_are_compressed() {
    assert!(compression_plan(&history(12, 10), 8000).is_none());
    assert!(compression_plan(&history(10, 40000), 8000).is_none());
    assert!(compression_plan(&history(12, 2000), 8000).is_none());
    let h = history(12, 4000);
    let p = compression_plan(&h, 8000).unwrap();
    assert!(p.starts_with("请将以下对话历史压缩为一段简洁的摘要"));
    assert_eq!(p.matches("用户：").count(), 2);
    assert_eq!(p.matches("助手：").count(), 2);
    let c = compressed_history(&h, "S");
    assert_eq!(c.len(), 9);
    assert_eq!(c[0], ("system".to_string(), "【前期对话摘要】S".to_string()));
    assert_eq!(c[1], h[4]);
    let few = history(3, 5);
    let c = compressed_history(&few, "S");
    assert_eq!(c.len(), 4);
    assert_eq!(c[1], few[0]);
    assert_eq!(c[3], few[2]);
    let (kept, applied) = condensed_history(h.clone(), 8000, None);
    assert_eq!((kept.len(), applied), (12, false));
    let (short, applied) = condensed_history(h.clone(), 8000, Some("S"));
    assert_eq!((short.len(), applied), (9, true));
    let (small, applied) = condensed_history(history(12, 10), 8000, Some("S"));
    assert_eq!((small.len(), applied), (12, false));
}
