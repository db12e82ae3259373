use game_runtime::domain::{
    AgentAction, AgentActionKind, AgentActionPayload, ConversationStatus, MessageStatus,
    TaskAttemptStatus,
};
use game_runtime::project::GameServiceError;
use game_runtime::turns::{
    reply_fallback, reply_status, settled_reply_text, ConversationTurns, TurnMessage, CONVERSATION_ALREADY_RUNNING,
    RESTART_FALLBACK,
};

fn invalid(m: &str) -> GameServiceError {
    GameServiceError::InvalidAction(m.to_string())
}

fn conversation() -> ConversationTurns {
    ConversationTurns {
        turn: 3,
        focus_agent_code: None,
        director_agent_code: "studio_director".to_string(),
        status: ConversationStatus::Active,
        updated_at: 10,
        messages: Vec::new(),
    }
}

fn agents(list: &[&str]) -> Vec<String> {
    list.iter().map(|a| a.to_string()).collect()
}

fn action(kind: AgentActionKind, target: Option<&str>) -> AgentAction {
    AgentAction {
        action: kind,
        target_agent: target.map(str::to_string),
        reason: "r".to_string(),
        payload: AgentActionPayload::empty(),
    }
}

fn message(id: &str, turn: u64, role: &str, agent: &str, action: Option<AgentAction>) -> TurnMessage {
    TurnMessage {
        id: id.to_string(),
        turn,
        role: role.to_string(),
        agent_code: agent.to_string(),
        recipient_agent_code: None,
        content: "text".to_string(),
        status: MessageStatus::Completed,
        folded: false,
        action,
        created_at: 1,
    }
}

#[test]
fn a_user_message_opens_a_turn_for_the_addressed_agent() {
    let stage = agents(&["studio_director", "spec_writer"]);
    let mut c = conversation();
    let agent = c
        .begin_user_turn("u1", "a1", "画一个角色", None, false, "spec", &stage, 20)
        .unwrap();
    assert_eq!(agent, "studio_director");
    assert_eq!(c.turn, 4);
    assert_eq!(c.status, ConversationStatus::Running);
    assert_eq!(c.focus_agent_code.as_deref(), Some("studio_director"));
    assert_eq!(c.updated_at, 20);
    assert_eq!(c.messages.len(), 2);
    assert_eq!(c.messages[0].role, "user");
    assert_eq!(c.messages[0].content, "画一个角色");
    assert_eq!(c.messages[1].status, MessageStatus::Thinking);
    assert_eq!(c.messages[1].agent_code, "studio_director");
    assert_eq!(c.messages[1].turn, 4);

    assert_eq!(
        c.begin_user_turn("u2", "a2", "再来", None, false, "spec", &stage, 21),
        Err(invalid(CONVERSATION_ALREADY_RUNNING))
    );
    c.status = ConversationStatus::Active;
    let agent = c
        .begin_user_turn("u2", "a2", "改一下", Some("spec_writer"), true, "spec", &stage, 22)
        .unwrap();
    assert_eq!(agent, "spec_writer");
    assert_eq!(c.messages[2].recipient_agent_code.as_deref(), Some("spec_writer"));
    assert!(c.messages[2].folded);
}

#[test]
fn refused_user_messages_change_nothing() {
    let stage = agents(&["studio_director"]);
    let mut c = conversation();
    let before = c.clone();
    assert_eq!(
        c.begin_user_turn("u", "a", "   ", None, false, "spec", &stage, 20),
        Err(invalid("消息不能为空"))
    );
    assert_eq!(
        c.begin_user_turn("u", "a", "hi", Some("visual_designer"), false, "spec", &stage, 20),
        Err(invalid("Agent visual_designer 不允许处理 spec 阶段"))
    );
    assert_eq!(c, before);
}

#[test]
fn an_unstored_turn_is_taken_back() {
    let stage = agents(&["studio_director", "spec_writer"]);
    let mut c = conversation();
    c.focus_agent_code = Some("spec_writer".to_string());
    c.messages.push(message("m0", 3, "user", "user", None));
    let before = c.clone();
    c.begin_user_turn("u1", "a1", "hi", None, false, "spec", &stage, 20).unwrap();
    c.undo_user_turn("u1", "a1", before.focus_agent_code.clone());
    assert_eq!(c.messages, before.messages);
    assert_eq!(c.turn, before.turn);
    assert_eq!(c.focus_agent_code, before.focus_agent_code);
    assert_eq!(c.status, ConversationStatus::Active);
}

#[test]
fn handoffs_continue_the_latest_action() {
    let stage = agents(&["studio_director", "spec_writer", "spec_reviewer"]);
    let mut c = conversation();
    assert_eq!(c.check_handoff_continuation("spec_writer", 0), Err(invalid("没有可继续的 handoff")));
    c.messages.push(message("u", 3, "user", "user", None));
    c.messages.push(message(
        "a",
        3,
        "assistant",
        "studio_director",
        Some(action(AgentActionKind::Handoff, Some("spec_writer"))),
    ));
    c.messages.push(message("t", 3, "assistant", "studio_director", None));
    assert_eq!(c.check_handoff_continuation("spec_writer", 8), Ok(()));
    assert_eq!(
        c.check_handoff_continuation("spec_writer", 9),
        Err(invalid("单轮自动 handoff 不得超过 8 次"))
    );
    assert_eq!(
        c.check_handoff_continuation("spec_reviewer", 0),
        Err(invalid("handoff 目标与上一条 Action 不一致"))
    );
    c.begin_handoff_turn("h1", "spec_writer", "spec", &stage, 30).unwrap();
    assert_eq!(c.turn, 3);
    assert_eq!(c.status, ConversationStatus::Running);
    assert_eq!(c.focus_agent_code.as_deref(), Some("spec_writer"));
    assert_eq!(c.messages.last().unwrap().agent_code, "spec_writer");
    assert_eq!(c.messages.last().unwrap().status, MessageStatus::Thinking);
    assert_eq!(c.turn_user_message(), Ok(0));
    assert_eq!(
        c.begin_handoff_turn("h2", "visual_designer", "spec", &stage, 31),
        Err(invalid("Agent visual_designer 不允许处理 spec 阶段"))
    );

    let mut d = conversation();
    d.messages.push(message(
        "a",
        3,
        "assistant",
        "spec_writer",
        Some(action(AgentActionKind::Handoff, Some("spec_reviewer"))),
    ));
    assert_eq!(
        d.check_handoff_continuation("spec_reviewer", 0),
        Err(invalid("专业 Agent 只能将控制权交回总管"))
    );
    assert_eq!(d.turn_user_message(), Err(invalid("handoff 缺少原始用户消息")));
}

#[test]
fn replies_close_the_turn() {
    let stage = agents(&["studio_director", "spec_writer"]);
    let mut c = conversation();
    c.begin_user_turn("u1", "a1", "hi", None, false, "spec", &stage, 20).unwrap();
    assert_eq!(c.pending_reply("studio_director"), Ok(1));
    assert_eq!(c.pending_reply("spec_writer"), Err(invalid("找不到本轮待完成的 Agent 消息")));
    assert_eq!(
        c.complete_reply("zz", "x".to_string(), action(AgentActionKind::Done, None), "studio_director", 25),
        Err(invalid("找不到本轮 Agent 消息"))
    );
    c.complete_reply(
        "a1",
        "交给编剧".to_string(),
        action(AgentActionKind::Handoff, Some("spec_writer")),
        "studio_director",
        25,
    )
    .unwrap();
    assert_eq!(c.status, ConversationStatus::Active);
    assert_eq!(c.focus_agent_code.as_deref(), Some("spec_writer"));
    assert_eq!(c.messages[1].status, MessageStatus::Completed);
    assert_eq!(c.messages[1].content, "交给编剧");
    assert_eq!(c.updated_at, 25);

    c.begin_user_turn("u2", "a2", "继续", None, false, "spec", &stage, 30).unwrap();
    c.complete_reply("a2", "好".to_string(), action(AgentActionKind::Handoff, None), "spec_writer", 31)
        .unwrap();
    assert_eq!(c.focus_agent_code, None);

    c.begin_user_turn("u3", "a3", "再试", None, false, "spec", &stage, 40).unwrap();
    c.fail_reply("a3", "Action 协议校验失败：x".to_string(), 41).unwrap();
    assert_eq!(c.messages[5].status, MessageStatus::Failed);
    assert_eq!(c.status, ConversationStatus::Active);

    c.begin_user_turn("u4", "a4", "再试", None, false, "spec", &stage, 50).unwrap();
    c.complete_blocked("a4", "缺少素材".to_string(), 51).unwrap();
    let blocked = c.messages[7].action.as_ref().unwrap();
    assert_eq!(blocked.action, AgentActionKind::Blocked);
    assert_eq!(blocked.reason, "缺少素材");
    assert_eq!(c.messages[7].content, "缺少素材");
    assert_eq!(c.complete_blocked("nope", "x".to_string(), 52), Err(invalid("找不到待完成的 Agent 消息")));
}

#[test]
fn an_ended_attempt_settles_the_thinking_reply() {
    let stage = agents(&["studio_director"]);
    let mut c = conversation();
    c.begin_user_turn("u1", "a1", "hi", None, false, "spec", &stage, 20).unwrap();
    let status = reply_status(TaskAttemptStatus::Interrupted);
    assert_eq!(status, MessageStatus::Interrupted);
    c.settle_running_reply(status, reply_fallback(status), 22);
    assert_eq!(c.messages[1].status, MessageStatus::Interrupted);
    assert_eq!(c.messages[1].content, "运行已中断");
    assert_eq!(c.status, ConversationStatus::Active);
    assert_eq!(reply_status(TaskAttemptStatus::Unknown), MessageStatus::Failed);
    assert_eq!(reply_status(TaskAttemptStatus::Succeeded), MessageStatus::Completed);
    assert_eq!(reply_fallback(MessageStatus::Failed), "Agent 执行失败，可重试本轮。");
    assert_eq!(reply_fallback(MessageStatus::Completed), "");
    let mut d = conversation();
    d.status = ConversationStatus::Running;
    d.messages.push(message("m", 3, "assistant", "studio_director", None));
    d.messages[0].status = MessageStatus::Thinking;
    d.settle_running_reply(MessageStatus::Failed, "fallback".to_string(), 23);
    assert_eq!(d.messages[0].content, "text");
    assert_eq!(d.messages[0].status, MessageStatus::Failed);
}

#[test]
fn a_new_conversation_waits_for_its_first_turn() {
    let c = ConversationTurns::new("studio_director".to_string(), 7);
    assert_eq!(c.turn, 0);
    assert_eq!(c.focus_agent_code, None);
    assert_eq!(c.status, ConversationStatus::Active);
    assert_eq!(c.updated_at, 7);
    assert!(c.messages.is_empty());
}

#[test]
fn a_stored_reply_keeps_its_text_or_the_partial_output() {
    assert_eq!(settled_reply_text("done", Some("partial"), MessageStatus::Failed), "done");
    assert_eq!(settled_reply_text("", Some("partial"), MessageStatus::Failed), "partial");
    assert_eq!(settled_reply_text("", Some("  "), MessageStatus::Failed), "Agent 执行失败，可重试本轮。");
    assert_eq!(settled_reply_text("", None, MessageStatus::Interrupted), "运行已中断");
    assert_eq!(settled_reply_text("", None, MessageStatus::Completed), "");
}

#[test]
fn restart_interrupts_every_thinking_reply_and_frees_the_conversation() {
    let mut c = conversation();
    c.status = ConversationStatus::Running;
    let mut silent = message("a1", 1, "assistant", "spec_writer", None);
    silent.content = String::new();
    silent.status = MessageStatus::Thinking;
    let mut partial = message("a2", 2, "assistant", "studio_director", None);
    partial.content = "写到一半".to_string();
    partial.status = MessageStatus::Thinking;
    let done = message("a3", 2, "assistant", "spec_writer", None);
    c.messages = vec![silent, partial, done.clone()];
    c.recover_after_restart();
    assert_eq!(c.status, ConversationStatus::Active);
    assert_eq!(c.messages[0].status, MessageStatus::Interrupted);
    assert_eq!(c.messages[0].content, RESTART_FALLBACK);
    assert_eq!(c.messages[0].content, "运行在应用退出后中断，可重新发送。");
    assert_eq!(c.messages[1].status, MessageStatus::Interrupted);
    assert_eq!(c.messages[1].content, "写到一半");
    assert_eq!(c.messages[2], done);
    assert_eq!(c.updated_at, 10);
}

#[test]
fn restart_leaves_an_idle_conversation_as_it_was() {
    let mut c = conversation();
    c.messages = vec![message("u1", 1, "user", "", None)];
    let before = c.clone();
    c.recover_after_restart();
    assert_eq!(c, before);
}
