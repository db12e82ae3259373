use game_runtime::action::ActionProtocolError;
use game_runtime::domain::{
    AgentAction, AgentActionKind, AgentActionPayload, AgentVerdict, ConversationStatus, MessageStatus,
};
use game_runtime::project::GameServiceError;
use game_runtime::turn_output::{complete_turn_output_step, TurnAttemptContext, TurnOutputStep};
use game_runtime::turns::{ConversationTurns, TurnMessage};

const SUBJECT_MESSAGE: &str = "Action 协议校验失败：SPEC-CHECK subject_id 必须匹配当前待审草稿";

fn message(id: &str, role: &str, agent: &str, status: MessageStatus) -> TurnMessage {
    TurnMessage {
        id: id.to_string(),
        turn: 1,
        role: role.to_string(),
        agent_code: agent.to_string(),
        recipient_agent_code: None,
        content: String::new(),
        status,
        folded: false,
        action: None,
        created_at: 1,
    }
}

fn conversation() -> ConversationTurns {
    ConversationTurns {
        turn: 1,
        focus_agent_code: Some("spec_reviewer".to_string()),
        director_agent_code: "studio_director".to_string(),
        status: ConversationStatus::Running,
        updated_at: 5,
        messages: vec![
            message("u1", "user", "", MessageStatus::Completed),
            message("a1", "assistant", "spec_reviewer", MessageStatus::Thinking),
        ],
    }
}

fn reviewer_context(subject: Option<&str>) -> TurnAttemptContext {
    TurnAttemptContext {
        agent_code: "spec_reviewer".to_string(),
        conversation_id: "c1".to_string(),
        allowed_handoffs: vec!["studio_director".to_string()],
        review_subject_id: subject.map(str::to_string),
    }
}

fn handoff(verdict: Option<AgentVerdict>) -> AgentAction {
    let mut payload = AgentActionPayload::empty();
    payload.verdict = verdict;
    AgentAction {
        action: AgentActionKind::Handoff,
        target_agent: Some("studio_director".to_string()),
        reason: "规格审校已完成".to_string(),
        payload,
    }
}

fn verdict(token: &str, subject: &str) -> AgentVerdict {
    AgentVerdict {
        token: token.to_string(),
        subject_id: subject.to_string(),
        decision: "APPROVE".to_string(),
        sections: vec![("缺失维度".to_string(), Vec::new())],
        constraints: Vec::new(),
    }
}

fn step(context: &TurnAttemptContext, action: AgentAction) -> TurnOutputStep {
    let c = conversation();
    let before = c.clone();
    let r = complete_turn_output_step("turn1", Some(context), Some(&c), Some(Ok(("审校".to_string(), action))))
        .expect("step");
    assert_eq!(c, before);
    r
}

fn violation(message: &str) -> TurnOutputStep {
    TurnOutputStep::ActionProtocolViolation {
        codex_turn_id: "turn1".to_string(),
        assistant_message_id: "a1".to_string(),
        message: message.to_string(),
    }
}

#[test]
fn a_turn_no_store_knows_completes_with_nothing() {
    let c = conversation();
    assert_eq!(
        complete_turn_output_step("turn1", None, Some(&c), None),
        Ok(TurnOutputStep::NothingToComplete)
    );
}

#[test]
fn a_reviewer_handoff_must_check_the_draft_under_review() {
    let context = reviewer_context(Some("draft-1"));
    assert_eq!(step(&context, handoff(None)), violation(SUBJECT_MESSAGE));
    assert_eq!(step(&context, handoff(Some(verdict("VIEW-CHECK", "draft-1")))), violation(SUBJECT_MESSAGE));
    assert_eq!(step(&context, handoff(Some(verdict("SPEC-CHECK", "draft-2")))), violation(SUBJECT_MESSAGE));
    assert_eq!(
        step(&reviewer_context(None), handoff(Some(verdict("SPEC-CHECK", "draft-1")))),
        violation(SUBJECT_MESSAGE)
    );
    let accepted = handoff(Some(verdict("SPEC-CHECK", "draft-1")));
    assert_eq!(
        step(&context, accepted.clone()),
        TurnOutputStep::Accepted {
            assistant_message_id: "a1".to_string(),
            output: game_runtime::domain::AgentTurnOutput { text: "审校".to_string(), action: accepted },
        }
    );
}

#[test]
fn missing_or_unreadable_output_is_a_protocol_violation() {
    let context = reviewer_context(Some("draft-1"));
    let c = conversation();
    assert_eq!(
        complete_turn_output_step("turn1", Some(&context), Some(&c), None),
        Ok(violation("Action 协议校验失败：Agent 未返回输出"))
    );
    let unreadable = complete_turn_output_step(
        "turn1",
        Some(&context),
        Some(&c),
        Some(Err(ActionProtocolError::MissingOrDuplicate)),
    );
    assert_eq!(
        unreadable,
        Ok(violation(&format!(
            "Action 协议校验失败：{}",
            ActionProtocolError::MissingOrDuplicate.message()
        )))
    );
}

#[test]
fn an_action_outside_the_protocol_is_a_protocol_violation() {
    let context = reviewer_context(Some("draft-1"));
    let done = AgentAction {
        action: AgentActionKind::Done,
        target_agent: None,
        reason: "完成".to_string(),
        payload: AgentActionPayload::empty(),
    };
    let r = step(&context, done);
    let TurnOutputStep::ActionProtocolViolation { message, .. } = r else {
        panic!("violation");
    };
    assert!(message.starts_with("Action 协议校验失败："));
    assert_ne!(message, SUBJECT_MESSAGE);
}

#[test]
fn the_turn_needs_its_conversation_and_a_thinking_reply() {
    let context = reviewer_context(Some("draft-1"));
    assert_eq!(
        complete_turn_output_step("turn1", Some(&context), None, None),
        Err(GameServiceError::ConversationNotFound("c1".to_string()))
    );
    let mut c = conversation();
    c.messages[1].status = MessageStatus::Completed;
    assert_eq!(
        complete_turn_output_step("turn1", Some(&context), Some(&c), None),
        Err(GameServiceError::InvalidAction("找不到本轮待完成的 Agent 消息".to_string()))
    );
}
