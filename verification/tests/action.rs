use game_runtime::action::{check_action_fields, complete_agent_turn, split_agent_turn, validate_action, ActionProtocolError};
use game_runtime::events::JsonValue;
use game_runtime::domain::{
    AgentAction, AgentActionKind, AgentActionPayload, AgentResult, AgentResultStatus,
    ArtifactDraft, ChoiceGroup, ACTION_END, ACTION_START,
};

fn output(json: &str) -> String {
    format!("正文\n{ACTION_START}\n{json}\n{ACTION_END}")
}

fn action(kind: AgentActionKind, target: Option<&str>, reason: &str, payload: AgentActionPayload) -> AgentAction {
    AgentAction {
        action: kind,
        target_agent: target.map(str::to_string),
        reason: reason.to_string(),
        payload,
    }
}

fn choice(item: &str, options: &[&str], recommended: &[&str]) -> ChoiceGroup {
    ChoiceGroup {
        item: item.to_string(),
        options: options.iter().map(|o| o.to_string()).collect(),
        recommended: recommended.iter().map(|o| o.to_string()).collect(),
        multiple: false,
    }
}

fn strings(values: &[&str]) -> Vec<String> {
    values.iter().map(|v| v.to_string()).collect()
}

#[test]
fn accepts_one_trailing_action_and_strips_it_from_display_text() {
    let json = r#"{"action":"ask_user","target_agent":null,"reason":"需要用户选择","payload":{"choices":[{"item":"风格","options":["写实","卡通"],"recommended":["卡通"],"multiple":false}]}}"#;
    let block = split_agent_turn(&output(json)).expect("one block");
    assert_eq!(block.body, json);
    let mut payload = AgentActionPayload::empty();
    payload.choices = Some(vec![choice("风格", &["写实", "卡通"], &["卡通"])]);
    let parsed = complete_agent_turn(
        block.text,
        action(AgentActionKind::AskUser, None, "需要用户选择", payload),
        "game_designer",
        "studio_director",
        &strings(&["studio_director"]),
    )
    .expect("valid action");

    assert_eq!(parsed.text, "正文");
    assert_eq!(parsed.action.action, AgentActionKind::AskUser);
}

#[test]
fn rejects_duplicate_non_trailing_and_unknown_action_fields() {
    let valid = output(r#"{"action":"done","target_agent":null,"reason":"任务完成","payload":{}}"#);
    assert_eq!(
        split_agent_turn(&format!("{valid}\n{valid}")).map(|b| b.body),
        Err(ActionProtocolError::MissingOrDuplicate)
    );
    assert_eq!(
        split_agent_turn(&format!("{valid}\n额外内容")).map(|b| b.body),
        Err(ActionProtocolError::NotLast)
    );
    let unknown = output(
        r#"{"action":"done","target_agent":null,"reason":"任务完成","payload":{},"extra":true}"#,
    );
    let block = split_agent_turn(&unknown).expect("the block is located");
    let value: serde_json::Value = serde_json::from_str(&block.body).expect("json");
    assert!(matches!(
        check_action_fields(&json_model(&value)),
        Err(ActionProtocolError::InvalidJson(_))
    ));
    let in_payload = output(
        r#"{"action":"done","target_agent":null,"reason":"任务完成","payload":{"extra":1}}"#,
    );
    let block = split_agent_turn(&in_payload).expect("the block is located");
    let value: serde_json::Value = serde_json::from_str(&block.body).expect("json");
    assert_eq!(
        check_action_fields(&json_model(&value)),
        Err(ActionProtocolError::InvalidJson("unknown field `extra`".to_string()))
    );
    let block = split_agent_turn(&valid).expect("the block is located");
    let value: serde_json::Value = serde_json::from_str(&block.body).expect("json");
    assert_eq!(check_action_fields(&json_model(&value)), Ok(()));
}

fn json_model(value: &serde_json::Value) -> JsonValue {
    match value {
        serde_json::Value::Null => JsonValue::Null,
        serde_json::Value::Bool(b) => JsonValue::Bool(*b),
        serde_json::Value::Number(n) => JsonValue::Number(n.to_string()),
        serde_json::Value::String(s) => JsonValue::String(s.clone()),
        serde_json::Value::Array(items) => JsonValue::Array(items.iter().map(json_model).collect()),
        serde_json::Value::Object(entries) => {
            JsonValue::Object(entries.iter().map(|(k, v)| (k.clone(), json_model(v))).collect())
        }
    }
}

#[test]
fn enforces_handoff_allowlist_and_choice_contract() {
    let handoff = action(
        AgentActionKind::Handoff,
        Some("spec_writer"),
        "需要编写设定",
        AgentActionPayload::empty(),
    );
    assert_eq!(
        validate_action(&handoff, "studio_director", "studio_director", &[]),
        Err(ActionProtocolError::InvalidHandoff)
    );
    assert!(validate_action(
        &handoff,
        "studio_director",
        "studio_director",
        &strings(&["spec_writer"]),
    )
    .is_ok());

    let mut payload = AgentActionPayload::empty();
    payload.choices = Some(Vec::new());
    let empty_choices = action(AgentActionKind::AskUser, None, "需要用户选择", payload);
    assert_eq!(
        validate_action(&empty_choices, "game_designer", "studio_director", &[]),
        Err(ActionProtocolError::InvalidChoices)
    );
}

#[test]
fn specialists_must_return_control_to_the_director() {
    let done = action(AgentActionKind::Done, None, "设定编写完成", AgentActionPayload::empty());
    assert_eq!(
        validate_action(&done, "spec_writer", "studio_director", &strings(&["studio_director"])),
        Err(ActionProtocolError::SpecialistMustReturnToDirector)
    );

    let direct_handoff = action(
        AgentActionKind::Handoff,
        Some("spec_reviewer"),
        "交给审校继续处理",
        AgentActionPayload::empty(),
    );
    assert_eq!(
        validate_action(
            &direct_handoff,
            "spec_writer",
            "studio_director",
            &strings(&["studio_director", "spec_reviewer"]),
        ),
        Err(ActionProtocolError::InvalidHandoff)
    );

    let return_to_director = action(
        AgentActionKind::Handoff,
        Some("studio_director"),
        "设定编写完成，交回总管决定下一步",
        AgentActionPayload::empty(),
    );
    assert!(validate_action(
        &return_to_director,
        "spec_writer",
        "studio_director",
        &strings(&["studio_director"]),
    )
    .is_ok());
}

#[test]
fn enforces_choice_and_draft_sequence() {
    let mut payload = AgentActionPayload::empty();
    payload.choices = Some(vec![choice("主色", &["朱砂红", "深靛蓝"], &["朱砂红"])]);
    payload.drafts = Some(Vec::new());
    let choice_with_empty_drafts = action(AgentActionKind::AskUser, None, "需要用户确认角色设定", payload);
    assert!(validate_action(&choice_with_empty_drafts, "spec_writer", "studio_director", &[]).is_ok());

    let mut payload = AgentActionPayload::empty();
    payload.choices = Some(vec![choice("主色", &["朱砂红", "深靛蓝"], &["朱砂红"])]);
    payload.drafts = Some(vec![ArtifactDraft {
        artifact_slot: None,
        target_path: "docs/角色定稿.md".to_string(),
        content: "# 角色设定".to_string(),
        based_on_hash: None,
    }]);
    let mixed_interaction = action(AgentActionKind::AskUser, None, "需要用户确认角色设定", payload);
    assert_eq!(
        validate_action(&mixed_interaction, "spec_writer", "studio_director", &[]),
        Err(ActionProtocolError::InvalidPayload(
            "choices 与 drafts 不能在同一轮出现；必须先让用户完成选择，下一轮才能输出 drafts".to_string()
        ))
    );
}

#[test]
fn enforces_result_status_and_artifact_contract() {
    let mut payload = AgentActionPayload::empty();
    payload.result = Some(AgentResult {
        status: AgentResultStatus::Success,
        error: None,
        artifacts: Vec::new(),
        revision_scope: None,
        focus_changes_summary: None,
    });
    let invalid_success = action(
        AgentActionKind::Handoff,
        Some("studio_director"),
        "图片生成完成，交回总管",
        payload,
    );
    assert_eq!(
        validate_action(&invalid_success, "image_t2i", "studio_director", &strings(&["studio_director"])),
        Err(ActionProtocolError::InvalidResult)
    );

    let mut payload = AgentActionPayload::empty();
    payload.result = Some(AgentResult {
        status: AgentResultStatus::Failed,
        error: None,
        artifacts: Vec::new(),
        revision_scope: None,
        focus_changes_summary: None,
    });
    let invalid_failure = action(AgentActionKind::Blocked, None, "缺少图片执行器", payload);
    assert_eq!(
        validate_action(&invalid_failure, "image_t2i", "studio_director", &[]),
        Err(ActionProtocolError::InvalidResult)
    );
}

#[test]
fn reasons_must_be_one_nonblank_sentence() {
    let blank = action(AgentActionKind::Done, None, "   ", AgentActionPayload::empty());
    assert_eq!(
        validate_action(&blank, "studio_director", "studio_director", &[]),
        Err(ActionProtocolError::InvalidReason)
    );
    let two_lines = action(AgentActionKind::Done, None, "第一行\n第二行", AgentActionPayload::empty());
    assert_eq!(
        validate_action(&two_lines, "studio_director", "studio_director", &[]),
        Err(ActionProtocolError::InvalidReason)
    );
    let two_sentences = action(AgentActionKind::Done, None, "完成了。还有事", AgentActionPayload::empty());
    assert_eq!(
        validate_action(&two_sentences, "studio_director", "studio_director", &[]),
        Err(ActionProtocolError::InvalidReason)
    );
    let one_sentence = action(AgentActionKind::Done, None, "完成了。", AgentActionPayload::empty());
    assert!(validate_action(&one_sentence, "studio_director", "studio_director", &[]).is_ok());
}

#[test]
fn ask_user_and_done_take_no_target() {
    let ask = action(AgentActionKind::AskUser, Some("x"), "需要确认", AgentActionPayload::empty());
    assert_eq!(
        validate_action(&ask, "studio_director", "studio_director", &[]),
        Err(ActionProtocolError::UnexpectedTarget("ask_user"))
    );
    let done = action(AgentActionKind::Done, Some("x"), "完成", AgentActionPayload::empty());
    let error = validate_action(&done, "studio_director", "studio_director", &[]).unwrap_err();
    assert_eq!(error, ActionProtocolError::UnexpectedTarget("done"));
    assert_eq!(error.message(), "done 的 target_agent 必须是 null");
}

#[test]
fn missing_block_is_reported() {
    assert_eq!(
        split_agent_turn("只有正文").map(|b| b.body),
        Err(ActionProtocolError::MissingOrDuplicate)
    );
    assert_eq!(
        ActionProtocolError::MissingOrDuplicate.message(),
        "每轮必须且只能输出一个完整 Action 块"
    );
    assert_eq!(
        ActionProtocolError::InvalidJson("bad".to_string()).message(),
        "Action JSON 不合法：bad"
    );
}
