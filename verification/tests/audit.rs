use std::path::PathBuf;
use game_runtime::audit::{
    audit_file_name, code_block, completion_record, content_hash, conversation_audit_enabled,
    model3d_audit_file_name, model3d_audit_header, model3d_call_record, redact_data_urls,
    request_record, response_headers_record, start_error_record, stream_operation_record,
    stream_response_record, truncate_chars, Model3dAuditFile, TurnAuditCompletion,
    TurnAuditContext, TurnAuditUsage,
};
use game_runtime::events::JsonValue;
use game_runtime::routing::RouteDecision;

fn context() -> TurnAuditContext {
    TurnAuditContext {
        project_root: PathBuf::from("/tmp/p"),
        target_dir: PathBuf::from("/tmp/p"),
        conversation_id: "conversation-1".to_string(),
        turn: 2,
        target: "project".to_string(),
        agent_code: "director/x".to_string(),
        attempt_id: "attempt-1".to_string(),
    }
}

fn route() -> RouteDecision {
    RouteDecision {
        account_id: "account-1".to_string(),
        provider: "provider-1".to_string(),
        model: "model-1".to_string(),
    }
}

#[test]
fn content_hash_is_lowercase_sha256_hex() {
    assert_eq!(
        content_hash("hello"),
        "2cf24dba5fb0a30e26e83b2ac5b9e29e1b161e5c1fa7425e73043362938b9824"
    );
    assert_eq!(content_hash("").len(), 64);
}

#[test]
fn request_and_completion_records_hold_route_usage_and_timing() {
    let request = request_record(&context(), &route(), "inspect data:image/png;base64,aGVsbG8=", 1000);
    assert!(request.starts_with("# LLM 对话审计\n\n- 会话：conversation-1\n- 轮次：2\n- 时间：1000\n"));
    assert!(request.contains("Provider：provider-1"));
    assert!(request.contains("Model：model-1"));
    assert!(request.contains("[data URL omitted: mime=image/png, encoded_chars=8, sha256="));
    assert!(!request.contains("aGVsbG8="));
    let unnamed = RouteDecision {
        account_id: String::new(),
        provider: String::new(),
        model: String::new(),
    };
    assert!(request_record(&context(), &unnamed, "x", 0).contains("- Provider：configured\n- Model：configured"));

    let completion = completion_record(&TurnAuditCompletion {
        response: Some("done".to_string()),
        error: None,
        usage: Some(TurnAuditUsage {
            input_tokens: 10,
            cached_input_tokens: 2,
            output_tokens: 3,
            reasoning_output_tokens: 1,
            total_tokens: 13,
        }),
        duration_ms: Some(25),
        time_to_first_token_ms: Some(5),
    });
    assert!(completion.starts_with("\n### Response\n\n```markdown\ndone\n```\n"));
    assert!(completion.contains("- Total tokens：13"));
    assert!(completion.contains("- Latency：25 ms"));
    assert!(completion.ends_with("- Time to first token：5 ms\n"));
    let failed = completion_record(&TurnAuditCompletion {
        response: Some("ignored".to_string()),
        error: Some("boom".to_string()),
        usage: None,
        duration_ms: None,
        time_to_first_token_ms: None,
    });
    assert_eq!(failed, "\n### Error\n\n```text\nboom\n```\n");
    assert_eq!(start_error_record("nope"), "\n### Error\n\n```text\nnope\n```\n");
}

#[test]
fn fences_outgrow_backtick_runs_and_long_texts_are_cut() {
    assert_eq!(code_block("a ``` b", "text"), "````text\na ``` b\n````\n");
    assert_eq!(code_block("plain", "json"), "```json\nplain\n```\n");
    let cut: String = truncate_chars(&"abcdef".chars().collect::<Vec<_>>(), 3).into_iter().collect();
    assert_eq!(cut, "abc\n[truncated after 3 characters]");
    let kept: String = truncate_chars(&"abc".chars().collect::<Vec<_>>(), 3).into_iter().collect();
    assert_eq!(kept, "abc");
    let record = stream_operation_record(7, "sse_parser", "close", "detail");
    assert_eq!(
        record,
        "\n### Stream Operation\n\n- Time：7\n- Stage：sse_parser\n- Operation：close\n\n```text\ndetail\n```\n"
    );
}

#[test]
fn data_urls_are_replaced_by_a_digest_note() {
    assert_eq!(
        redact_data_urls("see data:image/png;base64,aGVsbG8= end"),
        "see [data URL omitted: mime=image/png, encoded_chars=8, sha256=333d6b3a3c1f5db6] end"
    );
    assert_eq!(redact_data_urls("data:;base64,QQ=="), "[data URL omitted: mime=unknown, encoded_chars=4, sha256=ee0b13692453f0f8]");
    assert_eq!(redact_data_urls("no urls here"), "no urls here");
    assert_eq!(redact_data_urls("data:text/plain,hi"), "data:text/plain,hi");
}

#[test]
fn audit_files_are_named_after_agent_turn_and_attempt() {
    assert_eq!(audit_file_name(&context()), "director_x-turn-2-attempt-1.md");
    assert_eq!(model3d_audit_file_name("job-1"), "model3d-job-1.md");
}

fn object(entries: Vec<(&str, JsonValue)>) -> JsonValue {
    JsonValue::Object(entries.into_iter().map(|(k, v)| (k.to_string(), v)).collect())
}

#[test]
fn audits_are_kept_unless_the_project_turns_them_off() {
    assert!(conversation_audit_enabled(Some(&object(vec![
        ("schemaVersion", JsonValue::Number("2".to_string())),
        ("projectId", JsonValue::String("project-1".to_string())),
    ]))));
    assert!(!conversation_audit_enabled(Some(&object(vec![(
        "conversationAudit",
        JsonValue::Bool(false)
    )]))));
    assert!(!conversation_audit_enabled(Some(&object(vec![(
        "conversation_audit",
        JsonValue::Bool(false)
    )]))));
    assert!(conversation_audit_enabled(Some(&object(vec![
        ("conversationAudit", JsonValue::String("no".to_string())),
        ("conversation_audit", JsonValue::Bool(false)),
    ]))));
    assert!(!conversation_audit_enabled(Some(&JsonValue::Array(Vec::new()))));
    assert!(!conversation_audit_enabled(None));
}

#[test]
fn raw_stream_records_keep_the_bytes() {
    assert_eq!(
        response_headers_record(b"a: b\r\n"),
        b"\n### Response Headers\n\na: b\r\n\n".to_vec()
    );
    assert_eq!(stream_response_record(b"\xff"), b"\n### Stream Response\n\n\xff\n".to_vec());
}

#[test]
fn model3d_records_show_job_and_calls() {
    assert_eq!(
        model3d_audit_header("job-1", "project-1", "hero", "tripo", "2", "abc", 9),
        "# 3D 模型生成审计\n\n- Job：job-1\n- 项目：project-1\n- 角色：hero\n- Provider：tripo\n- Pipeline 版本：2\n- 四视图哈希：abc\n- 记录开始：9\n"
    );
    let call = model3d_call_record("multiview_to_model", 3, "failure", 12, "{}", "{\n  \"face_limit\": 5000\n}", "{\n  \"code\": 2010\n}");
    assert!(call.starts_with("\n## multiview_to_model\n\n- Time：3\n- Outcome：failure\n- Duration：12 ms\n"));
    assert!(call.contains("\"face_limit\": 5000"));
    assert!(call.ends_with("```json\n{\n  \"code\": 2010\n}\n```\n"));
    let file = Model3dAuditFile::new(None);
    assert!(file.path().is_none());
    let file = Model3dAuditFile::new(Some(PathBuf::from("/tmp/a.md")));
    assert_eq!(file.path(), Some(&PathBuf::from("/tmp/a.md")));
}
