use game_runtime::conversation::{
    artifact_failure_message, check_review_subject, conversation_history, handoffs_in_turn,
    inferred_gate_times, memory_lines, metadata_failure_message, next_focus_agent,
    protocol_violation_message, review_subject, HistoryMessage,
};
use game_runtime::domain::{AgentAction, AgentActionKind, AgentActionPayload, AgentVerdict, CharacterState};

fn message(i: usize) -> HistoryMessage {
    HistoryMessage {
        role: "user".to_string(),
        agent_code: "studio_director".to_string(),
        content: format!("m{i}"),
    }
}

#[test]
fn history_keeps_the_last_twelve_messages() {
    let messages: Vec<_> = (0..15).map(message).collect();
    let history = conversation_history(&messages);
    assert_eq!(history.len(), 12);
    assert_eq!(history[0], "user(studio_director): m3");
    assert_eq!(history[11], "user(studio_director): m14");
    assert_eq!(conversation_history(&messages[..2]).len(), 2);
    assert!(conversation_history(&[]).is_empty());
}

#[test]
fn memories_and_handoffs_are_summarised() {
    assert_eq!(
        memory_lines(&[("style".to_string(), "写实".to_string())]),
        vec!["style:写实".to_string()]
    );
    assert_eq!(handoffs_in_turn(&[1, 2, 2, 3, 2], 2), 3);
    assert_eq!(handoffs_in_turn(&[], 2), 0);
}

fn handoff_with_verdict(token: &str, subject: &str) -> AgentAction {
    let mut payload = AgentActionPayload::empty();
    payload.verdict = Some(AgentVerdict {
        token: token.to_string(),
        subject_id: subject.to_string(),
        decision: "APPROVE".to_string(),
        sections: Vec::new(),
        constraints: Vec::new(),
    });
    AgentAction {
        action: AgentActionKind::Handoff,
        target_agent: Some("studio_director".to_string()),
        reason: "审校完成".to_string(),
        payload,
    }
}

#[test]
fn spec_checks_must_name_the_draft_under_review() {
    let refused = Err("Action 协议校验失败：SPEC-CHECK subject_id 必须匹配当前待审草稿".to_string());
    assert_eq!(
        check_review_subject("spec_reviewer", &handoff_with_verdict("SPEC-CHECK", "d1"), Some("d1")),
        Ok(())
    );
    assert_eq!(
        check_review_subject("spec_reviewer", &handoff_with_verdict("SPEC-CHECK", "d0"), Some("d1")),
        refused
    );
    assert_eq!(
        check_review_subject("spec_reviewer", &handoff_with_verdict("OTHER", "d1"), Some("d1")),
        refused
    );
    assert_eq!(
        check_review_subject("spec_reviewer", &handoff_with_verdict("SPEC-CHECK", "d1"), None),
        refused
    );
    assert_eq!(
        check_review_subject("spec_writer", &handoff_with_verdict("OTHER", "d1"), None),
        Ok(())
    );
    assert_eq!(review_subject("spec_reviewer", Some(3)), Some(3));
    assert_eq!(review_subject("spec_writer", Some(3)), None);
}

#[test]
fn failure_messages_and_focus() {
    assert_eq!(protocol_violation_message(None), "Action 协议校验失败：Agent 未返回输出");
    assert_eq!(protocol_violation_message(Some("坏了")), "Action 协议校验失败：坏了");
    assert_eq!(artifact_failure_message("x"), "Action 产物校验失败：x");
    assert_eq!(metadata_failure_message("y"), "Action 产物元数据写入失败：y");
    let handoff = handoff_with_verdict("SPEC-CHECK", "d1");
    assert_eq!(next_focus_agent(&handoff, "spec_reviewer").as_deref(), Some("studio_director"));
    let done = AgentAction {
        action: AgentActionKind::Done,
        target_agent: None,
        reason: "完成".to_string(),
        payload: AgentActionPayload::empty(),
    };
    assert_eq!(next_focus_agent(&done, "studio_director").as_deref(), Some("studio_director"));
    let bare_handoff = AgentAction { action: AgentActionKind::Handoff, target_agent: None, ..done };
    assert_eq!(next_focus_agent(&bare_handoff, "studio_director"), None);
}

#[test]
fn gates_follow_the_recorded_state() {
    assert_eq!(inferred_gate_times(CharacterState::S0SpecDrafting, 7), (None, None, None));
    assert_eq!(inferred_gate_times(CharacterState::S2RenderGenerated, 7), (Some(7), None, None));
    assert_eq!(inferred_gate_times(CharacterState::S4ViewsGenerated, 7), (Some(7), Some(7), None));
    assert_eq!(inferred_gate_times(CharacterState::S5ViewsConfirmed, 7), (Some(7), Some(7), Some(7)));
}
