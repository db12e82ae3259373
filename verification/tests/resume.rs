use game_runtime::domain::CharacterState;
use game_runtime::project::GameServiceError;
use game_runtime::resume::{character_workflow_progress, continuation_key, resume_if_idle, resume_request};
use game_runtime::turns::CONVERSATION_ALREADY_RUNNING;
use game_runtime::workflow::{CharacterWorkflowFacts, SpecReviewStatus};

fn facts(review: SpecReviewStatus) -> CharacterWorkflowFacts {
    CharacterWorkflowFacts {
        pending_spec: None,
        spec_review_status: review,
        latest_spec_verdict: None,
        latest_spec_rejection_id: Some("rej-1".to_string()),
        render_rejection_id: Some("rr-1".to_string()),
        views_rejection_id: None,
        render_rejected_after_generation: false,
        views_rejected_after_generation: false,
        failed_design_stage: None,
        has_running_task: false,
    }
}

#[test]
fn each_state_waits_on_its_own_key() {
    let pending = facts(SpecReviewStatus::Pending);
    assert_eq!(
        continuation_key(CharacterState::S0SpecDrafting, false, &pending, Some("d1"), None, None).as_deref(),
        Some("spec:d1")
    );
    let rejected_review = facts(SpecReviewStatus::AwaitingDraft);
    assert_eq!(
        continuation_key(CharacterState::S0SpecDrafting, false, &rejected_review, None, None, None).as_deref(),
        Some("spec-rewrite:rej-1")
    );
    let approved = facts(SpecReviewStatus::Approved);
    assert_eq!(continuation_key(CharacterState::S0SpecDrafting, false, &approved, Some("d1"), None, None), None);
    assert_eq!(
        continuation_key(CharacterState::S1SpecConfirmed, false, &approved, None, Some(1700), None).as_deref(),
        Some("render:1700")
    );
    assert_eq!(
        continuation_key(CharacterState::S2RenderGenerated, false, &approved, None, None, None).as_deref(),
        Some("render-retry:rr-1")
    );
    assert_eq!(
        continuation_key(CharacterState::S3RenderConfirmed, false, &approved, None, None, Some(-3)).as_deref(),
        Some("views:-3")
    );
    assert_eq!(continuation_key(CharacterState::S4ViewsGenerated, false, &approved, None, None, None), None);
    assert_eq!(continuation_key(CharacterState::S5ViewsConfirmed, false, &approved, None, None, None), None);
    assert_eq!(continuation_key(CharacterState::S1SpecConfirmed, true, &approved, None, Some(1), None), None);
    let mut running = facts(SpecReviewStatus::Pending);
    running.has_running_task = true;
    assert_eq!(continuation_key(CharacterState::S0SpecDrafting, false, &running, Some("d1"), None, None), None);
}

#[test]
fn progress_carries_the_continuation() {
    let approved = facts(SpecReviewStatus::Concerns);
    let progress =
        character_workflow_progress(CharacterState::S1SpecConfirmed, false, &approved, None, Some(9), None);
    assert_eq!(progress.steps.len(), 6);
    assert!(progress.needs_resume);
    assert_eq!(progress.continuation_key.as_deref(), Some("render:9"));
    let idle = character_workflow_progress(CharacterState::S5ViewsConfirmed, false, &approved, None, None, None);
    assert!(!idle.needs_resume);
}

#[test]
fn resumes_go_ahead_only_on_the_current_key() {
    assert_eq!(resume_request(None, "render:9"), Ok(None));
    assert_eq!(
        resume_request(Some("render:9"), "render:8"),
        Err(GameServiceError::InvalidCharacterOperation("续跑标识已过期，请刷新角色状态".to_string()))
    );
    assert_eq!(
        resume_request(Some("render:9"), "render:9"),
        Ok(Some("检测到角色工作流待续跑（render:9），请根据当前状态继续处理。".to_string()))
    );
    let busy: Result<u8, GameServiceError> =
        Err(GameServiceError::InvalidAction(CONVERSATION_ALREADY_RUNNING.to_string()));
    assert_eq!(resume_if_idle(busy), Ok(None));
    assert_eq!(resume_if_idle::<u8>(Ok(3)), Ok(Some(3)));
    let other: Result<u8, GameServiceError> = Err(GameServiceError::InvalidAction("x".to_string()));
    assert_eq!(resume_if_idle(other), Err(GameServiceError::InvalidAction("x".to_string())));
}
