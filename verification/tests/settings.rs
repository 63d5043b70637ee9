use patent_hub::json::Json;
use patent_hub::routes::config::{env_file_update, mask_api_key};
use patent_hub::routes::settings::{
    check_ai_settings, check_serpapi_key, slot_key_of, submitted_fallbacks, SettingsError,
};

fn s(x: &str) -> Json {
    Json::Str(x.to_string())
}

fn obj(v: Vec<(&str, Json)>) -> Json {
    Json::Object(v.into_iter().map(|(k, x)| (k.to_string(), x)).collect())
}

#[test]
fn api_keys_are_masked() {
    assert_eq!(mask_api_key(""), "");
    assert_eq!(mask_api_key("your-serpapi-key-here"), "");
    assert_eq!(mask_api_key("abcdefgh"), "****");
    assert_eq!(mask_api_key("abcd1234wxyz"), "abcd****wxyz");
    assert_eq!(mask_api_key("sk-1234567890abcdef"), "sk-1****cdef");
}

#[test]
fn env_file_replaces_first_setting_or_appends() {
    assert_eq!(env_file_update("A=1\nB=2\nA=3\n", "A", "9"), "A=9\nB=2\nA=3");
    assert_eq!(env_file_update("A=1\r\nB=2", "C", "x"), "A=1\nB=2\nC=x");
    assert_eq!(env_file_update("", "K", "v"), "K=v");
    assert_eq!(env_file_update("AB=1", "A", "2"), "AB=1\nA=2");
}

#[test]
fn serpapi_key_checks() {
    assert_eq!(check_serpapi_key("   "), Err(SettingsError::KeyRequired));
    assert_eq!(check_serpapi_key("short"), Err(SettingsError::KeyFormat));
    assert_eq!(check_serpapi_key(&"a".repeat(201)), Err(SettingsError::KeyFormat));
    assert_eq!(check_serpapi_key("abcdefghij abcdefghij"), Err(SettingsError::KeyCharacters));
    assert_eq!(check_serpapi_key(" abcdefghij-abcdefghij_0.9 "), Ok("abcdefghij-abcdefghij_0.9".to_string()));
    assert_eq!(SettingsError::KeyFormat.message(), "Invalid API key format");
}

#[test]
fn ai_settings_checks() {
    assert_eq!(check_ai_settings("", "k", "m"), Err(SettingsError::FieldsRequired));
    assert_eq!(check_ai_settings("ftp://x", "12345678", "glm"), Err(SettingsError::UrlProtocol));
    assert_eq!(check_ai_settings("https://x", "1234567", "glm"), Err(SettingsError::KeyLength));
    assert_eq!(check_ai_settings("https://x", "12345678", "g"), Err(SettingsError::ModelLength));
    assert_eq!(check_ai_settings("https://x", "12345678", "glm 4"), Err(SettingsError::ModelCharacters));
    assert_eq!(
        check_ai_settings(" http://localhost:11434/v1 ", "ollama-key", "qwen2.5:7b"),
        Ok(("http://localhost:11434/v1".to_string(), "ollama-key".to_string(), "qwen2.5:7b".to_string()))
    );
    assert_eq!(SettingsError::UrlProtocol.message(), "URL must use HTTP or HTTPS protocol");
}

#[test]
fn fallbacks_keep_slot_positions() {
    let req = obj(vec![(
        "fallbacks",
        Json::Array(vec![
            obj(vec![("name", s("a")), ("url", s("https://a")), ("key", s("ka")), ("model", s("ma"))]),
            obj(vec![("name", s("b")), ("url", s("")), ("key", s("kb"))]),
            obj(vec![("url", s("https://c")), ("key", s("kc"))]),
        ]),
    )]);
    let (kept, submitted) = submitted_fallbacks(&req).unwrap();
    assert_eq!(submitted, 3);
    assert_eq!(kept.len(), 2);
    assert_eq!(kept[0].slot, 1);
    assert_eq!(kept[0].fallback.model, "ma");
    assert_eq!(kept[1].slot, 3);
    assert_eq!(kept[1].fallback.name, "");
    assert_eq!(kept[1].fallback.base_url, "https://c");
    assert_eq!(submitted_fallbacks(&obj(vec![])).err(), Some(SettingsError::FallbacksMissing));
    assert_eq!(slot_key_of(3, "URL"), "FALLBACK_AI_3_URL");
}
