use game_runtime::domain::{
    ConversationStatus, ConversationTargetKind, GenerationReviewStatus, MessageStatus,
    Model3dJobStatus, Model3dStage, ProjectState,
};
use game_runtime::records::{
    conversation_status_name, generation_review_status_name, job_stage_name, job_status_name,
    message_status_name, parse_conversation_status, parse_conversation_target_kind,
    parse_generation_review_status, parse_message_status, parse_stage, parse_status,
    project_state_name,
};

#[test]
fn conversation_rows_read_back() {
    for status in [ConversationStatus::Active, ConversationStatus::Running] {
        assert_eq!(parse_conversation_status(conversation_status_name(status)), Ok(status));
    }
    assert_eq!(
        parse_conversation_status("idle"),
        Err("unknown conversation status: idle".to_string())
    );
    for kind in [ConversationTargetKind::Project, ConversationTargetKind::Character] {
        assert_eq!(parse_conversation_target_kind(kind.as_str()), Ok(kind));
    }
    assert_eq!(ConversationTargetKind::Character.as_str(), "character");
    assert_eq!(
        parse_conversation_target_kind("group"),
        Err("unknown conversation target kind: group".to_string())
    );
}

#[test]
fn message_statuses_accept_their_older_names() {
    for status in [
        MessageStatus::Thinking,
        MessageStatus::Completed,
        MessageStatus::Failed,
        MessageStatus::Interrupted,
    ] {
        assert_eq!(parse_message_status(message_status_name(status)), Ok(status));
    }
    assert_eq!(parse_message_status("done"), Ok(MessageStatus::Completed));
    assert_eq!(parse_message_status("cancelled"), Ok(MessageStatus::Interrupted));
    assert_eq!(message_status_name(MessageStatus::Completed), "completed");
    assert_eq!(
        parse_message_status("Done"),
        Err("unknown message status: Done".to_string())
    );
}

#[test]
fn generation_and_project_states_have_fixed_names() {
    for status in [
        GenerationReviewStatus::Pending,
        GenerationReviewStatus::Accepted,
        GenerationReviewStatus::RevisionRequested,
        GenerationReviewStatus::Superseded,
    ] {
        assert_eq!(parse_generation_review_status(generation_review_status_name(status)), Ok(status));
    }
    assert_eq!(
        generation_review_status_name(GenerationReviewStatus::RevisionRequested),
        "revisionRequested"
    );
    assert_eq!(
        parse_generation_review_status("revision_requested"),
        Err("unknown generation review status: revision_requested".to_string())
    );
    assert_eq!(project_state_name(ProjectState::Drafting), "drafting");
    assert_eq!(project_state_name(ProjectState::StyleSettled), "styleSettled");
    assert_eq!(project_state_name(ProjectState::Ready), "ready");
}

#[test]
fn model3d_jobs_read_back() {
    for status in [
        Model3dJobStatus::Pending,
        Model3dJobStatus::Running,
        Model3dJobStatus::Succeeded,
        Model3dJobStatus::Failed,
        Model3dJobStatus::NeedsAttention,
    ] {
        assert_eq!(parse_status(job_status_name(status)), Ok(status));
    }
    for stage in [
        Model3dStage::UploadingViews,
        Model3dStage::GeneratingModel,
        Model3dStage::CheckingRig,
        Model3dStage::Rigging,
        Model3dStage::Retargeting,
        Model3dStage::Downloading,
        Model3dStage::Validating,
        Model3dStage::Completed,
    ] {
        assert_eq!(parse_stage(job_stage_name(stage)), Ok(stage));
    }
    assert_eq!(job_status_name(Model3dJobStatus::NeedsAttention), "needsAttention");
    assert_eq!(parse_status("queued"), Err("unknown model3d status: queued".to_string()));
    assert_eq!(parse_stage("done"), Err("unknown model3d stage: done".to_string()));
}
