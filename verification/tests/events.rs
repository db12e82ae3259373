use game_runtime::events::{bounded_event_text, is_sensitive_event_key, sanitize_task_event_payload, JsonValue};

fn s(v: &str) -> JsonValue {
    JsonValue::String(v.to_string())
}

#[test]
fn short_texts_are_kept_and_long_ones_cut_at_a_character() {
    assert_eq!(bounded_event_text("hello", 5), "hello");
    assert_eq!(bounded_event_text("hello world, again", 15), "hel\n[truncated]");
    assert_eq!(bounded_event_text("ab", 1), "\n[truncated]");
    assert_eq!(bounded_event_text("一二三四五六七", 18), "一二\n[truncated]");
    assert!(bounded_event_text(&"x".repeat(10_000), 8192).len() <= 8192);
}

#[test]
fn credential_keys_are_recognised_in_any_case() {
    for key in ["token", "API_KEY", "Authorization", "db_secret", "refreshToken", "apikey"] {
        assert!(is_sensitive_event_key(key), "{key}");
    }
    for key in ["tokens", "secretary", "path", "_secre"] {
        assert!(!is_sensitive_event_key(key), "{key}");
    }
}

#[test]
fn payloads_lose_credentials_and_inline_images() {
    let payload = JsonValue::Object(vec![
        ("api_key".to_string(), s("secret-value")),
        ("result".to_string(), s("data:image/png;base64,aGVsbG8=")),
        ("attemptId".to_string(), s("attempt-1")),
        ("count".to_string(), JsonValue::Number("3".to_string())),
        (
            "items".to_string(),
            JsonValue::Array(vec![JsonValue::Bool(true), JsonValue::Null]),
        ),
    ]);
    let sanitized = sanitize_task_event_payload(&payload, None);
    assert_eq!(
        sanitized,
        JsonValue::Object(vec![
            ("api_key".to_string(), s("[redacted]")),
            ("result".to_string(), s("[data URL omitted]")),
            ("attemptId".to_string(), s("attempt-1")),
            ("count".to_string(), JsonValue::Number("3".to_string())),
            (
                "items".to_string(),
                JsonValue::Array(vec![JsonValue::Bool(true), JsonValue::Null]),
            ),
        ])
    );
    assert_eq!(sanitize_task_event_payload(&JsonValue::Null, Some("password")), s("[redacted]"));
}

#[test]
fn arrays_keep_their_first_items() {
    let long = JsonValue::Array((0..70).map(|i| JsonValue::Number(i.to_string())).collect());
    match sanitize_task_event_payload(&long, None) {
        JsonValue::Array(items) => {
            assert_eq!(items.len(), 64);
            assert_eq!(items[63], JsonValue::Number("63".to_string()));
        }
        other => panic!("unexpected {other:?}"),
    }
}
