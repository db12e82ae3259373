//! The names under which conversations, messages, generations, projects and
//! 3D model jobs keep their states in the store, and how they are read back.

use vstd::prelude::*;
use crate::action::{owned, str_eq};
use crate::domain::{
    ConversationStatus, ConversationTargetKind, GenerationReviewStatus, MessageStatus,
    Model3dJobStatus, Model3dStage, ProjectState,
};

verus! {

/// The name under which a conversation status is stored.
pub open spec fn conversation_status_text(v: ConversationStatus) -> Seq<char> {
    match v {
        ConversationStatus::Active => "active"@,
        ConversationStatus::Running => "running"@,
    }
}

/// The name under which a conversation status is stored.
pub fn conversation_status_name(v: ConversationStatus) -> (r: &'static str)
    ensures
        r@ == conversation_status_text(v),
{
    match v {
        ConversationStatus::Active => "active",
        ConversationStatus::Running => "running",
    }
}

/// The conversation status stored under `value`, if any.
pub open spec fn conversation_status_of(value: Seq<char>) -> Option<ConversationStatus> {
    if value == "active"@ {
        Some(ConversationStatus::Active)
    } else if value == "running"@ {
        Some(ConversationStatus::Running)
    } else {
        None
    }
}

/// Reads a stored conversation status; the error is the decode message.
pub fn parse_conversation_status(value: &str) -> (r: Result<ConversationStatus, String>)
    ensures
        match conversation_status_of(value@) {
            Some(v) => r == Ok::<ConversationStatus, String>(v),
            None => r matches Err(m) && m@ == "unknown conversation status: "@ + value@,
        },
{
    if str_eq(value, "active") {
        Ok(ConversationStatus::Active)
    } else if str_eq(value, "running") {
        Ok(ConversationStatus::Running)
    } else {
        let mut m = owned("unknown conversation status: ");
        m.append(value);
        Err(m)
    }
}

/// Every conversation status is read back from the name it is stored under.
pub proof fn law_conversation_status_round_trip(v: ConversationStatus)
    ensures
        conversation_status_of(conversation_status_text(v)) == Some(v),
{
    reveal_strlit("active");
    reveal_strlit("running");
    assert("active"@.len() != "running"@.len());
}

/// The name under which a conversation target kind is stored.
pub open spec fn conversation_target_kind_text(v: ConversationTargetKind) -> Seq<char> {
    match v {
        ConversationTargetKind::Project => "project"@,
        ConversationTargetKind::Character => "character"@,
    }
}

/// The conversation target kind stored under `value`, if any.
pub open spec fn conversation_target_kind_of(value: Seq<char>) -> Option<ConversationTargetKind> {
    if value == "project"@ {
        Some(ConversationTargetKind::Project)
    } else if value == "character"@ {
        Some(ConversationTargetKind::Character)
    } else {
        None
    }
}

/// Reads a stored conversation target kind; the error is the decode message.
pub fn parse_conversation_target_kind(value: &str) -> (r: Result<ConversationTargetKind, String>)
    ensures
        match conversation_target_kind_of(value@) {
            Some(v) => r == Ok::<ConversationTargetKind, String>(v),
            None => r matches Err(m) && m@ == "unknown conversation target kind: "@ + value@,
        },
{
    if str_eq(value, "project") {
        Ok(ConversationTargetKind::Project)
    } else if str_eq(value, "character") {
        Ok(ConversationTargetKind::Character)
    } else {
        let mut m = owned("unknown conversation target kind: ");
        m.append(value);
        Err(m)
    }
}

/// Every conversation target kind is read back from the name it is stored under.
pub proof fn law_conversation_target_kind_round_trip(v: ConversationTargetKind)
    ensures
        conversation_target_kind_of(conversation_target_kind_text(v)) == Some(v),
{
    reveal_strlit("project");
    reveal_strlit("character");
    assert("project"@.len() != "character"@.len());
}

/// The name under which a message status is stored.
pub open spec fn message_status_text(v: MessageStatus) -> Seq<char> {
    match v {
        MessageStatus::Thinking => "thinking"@,
        MessageStatus::Completed => "completed"@,
        MessageStatus::Failed => "failed"@,
        MessageStatus::Interrupted => "interrupted"@,
    }
}

/// The name under which a message status is stored.
pub fn message_status_name(v: MessageStatus) -> (r: &'static str)
    ensures
        r@ == message_status_text(v),
{
    match v {
        MessageStatus::Thinking => "thinking",
        MessageStatus::Completed => "completed",
        MessageStatus::Failed => "failed",
        MessageStatus::Interrupted => "interrupted",
    }
}

/// The message status stored under `value`, if any; older rows may hold an alias.
pub open spec fn message_status_of(value: Seq<char>) -> Option<MessageStatus> {
    if value == "thinking"@ {
        Some(MessageStatus::Thinking)
    } else if value == "completed"@ {
        Some(MessageStatus::Completed)
    } else if value == "failed"@ {
        Some(MessageStatus::Failed)
    } else if value == "interrupted"@ {
        Some(MessageStatus::Interrupted)
    } else if value == "done"@ {
        Some(MessageStatus::Completed)
    } else if value == "cancelled"@ {
        Some(MessageStatus::Interrupted)
    } else {
        None
    }
}

/// Reads a stored message status; the error is the decode message.
pub fn parse_message_status(value: &str) -> (r: Result<MessageStatus, String>)
    ensures
        match message_status_of(value@) {
            Some(v) => r == Ok::<MessageStatus, String>(v),
            None => r matches Err(m) && m@ == "unknown message status: "@ + value@,
        },
{
    if str_eq(value, "thinking") {
        Ok(MessageStatus::Thinking)
    } else if str_eq(value, "completed") {
        Ok(MessageStatus::Completed)
    } else if str_eq(value, "failed") {
        Ok(MessageStatus::Failed)
    } else if str_eq(value, "interrupted") {
        Ok(MessageStatus::Interrupted)
    } else if str_eq(value, "done") {
        Ok(MessageStatus::Completed)
    } else if str_eq(value, "cancelled") {
        Ok(MessageStatus::Interrupted)
    } else {
        let mut m = owned("unknown message status: ");
        m.append(value);
        Err(m)
    }
}

/// Every message status is read back from the name it is stored under.
pub proof fn law_message_status_round_trip(v: MessageStatus)
    ensures
        message_status_of(message_status_text(v)) == Some(v),
{
    reveal_strlit("thinking");
    reveal_strlit("completed");
    reveal_strlit("failed");
    reveal_strlit("interrupted");
    reveal_strlit("done");
    reveal_strlit("cancelled");
    assert("thinking"@.len() != "completed"@.len());
    assert("thinking"@.len() != "failed"@.len());
    assert("thinking"@.len() != "interrupted"@.len());
    assert("thinking"@.len() != "done"@.len());
    assert("thinking"@.len() != "cancelled"@.len());
    assert("completed"@.len() != "failed"@.len());
    assert("completed"@.len() != "interrupted"@.len());
    assert("completed"@.len() != "done"@.len());
    assert("completed"@[1] != "cancelled"@[1]);
    assert("failed"@.len() != "interrupted"@.len());
    assert("failed"@.len() != "done"@.len());
    assert("failed"@.len() != "cancelled"@.len());
    assert("interrupted"@.len() != "done"@.len());
    assert("interrupted"@.len() != "cancelled"@.len());
    assert("done"@.len() != "cancelled"@.len());
}

/// The name under which a generation review status is stored.
pub open spec fn generation_review_status_text(v: GenerationReviewStatus) -> Seq<char> {
    match v {
        GenerationReviewStatus::Pending => "pending"@,
        GenerationReviewStatus::Accepted => "accepted"@,
        GenerationReviewStatus::RevisionRequested => "revisionRequested"@,
        GenerationReviewStatus::Superseded => "superseded"@,
    }
}

/// The name under which a generation review status is stored.
pub fn generation_review_status_name(v: GenerationReviewStatus) -> (r: &'static str)
    ensures
        r@ == generation_review_status_text(v),
{
    match v {
        GenerationReviewStatus::Pending => "pending",
        GenerationReviewStatus::Accepted => "accepted",
        GenerationReviewStatus::RevisionRequested => "revisionRequested",
        GenerationReviewStatus::Superseded => "superseded",
    }
}

/// The generation review status stored under `value`, if any.
pub open spec fn generation_review_status_of(value: Seq<char>) -> Option<GenerationReviewStatus> {
    if value == "pending"@ {
        Some(GenerationReviewStatus::Pending)
    } else if value == "accepted"@ {
        Some(GenerationReviewStatus::Accepted)
    } else if value == "revisionRequested"@ {
        Some(GenerationReviewStatus::RevisionRequested)
    } else if value == "superseded"@ {
        Some(GenerationReviewStatus::Superseded)
    } else {
        None
    }
}

/// Reads a stored generation review status; the error is the decode message.
pub fn parse_generation_review_status(value: &str) -> (r: Result<GenerationReviewStatus, String>)
    ensures
        match generation_review_status_of(value@) {
            Some(v) => r == Ok::<GenerationReviewStatus, String>(v),
            None => r matches Err(m) && m@ == "unknown generation review status: "@ + value@,
        },
{
    if str_eq(value, "pending") {
        Ok(GenerationReviewStatus::Pending)
    } else if str_eq(value, "accepted") {
        Ok(GenerationReviewStatus::Accepted)
    } else if str_eq(value, "revisionRequested") {
        Ok(GenerationReviewStatus::RevisionRequested)
    } else if str_eq(value, "superseded") {
        Ok(GenerationReviewStatus::Superseded)
    } else {
        let mut m = owned("unknown generation review status: ");
        m.append(value);
        Err(m)
    }
}

/// Every generation review status is read back from the name it is stored under.
pub proof fn law_generation_review_status_round_trip(v: GenerationReviewStatus)
    ensures
        generation_review_status_of(generation_review_status_text(v)) == Some(v),
{
    reveal_strlit("pending");
    reveal_strlit("accepted");
    reveal_strlit("revisionRequested");
    reveal_strlit("superseded");
    assert("pending"@.len() != "accepted"@.len());
    assert("pending"@.len() != "revisionRequested"@.len());
    assert("pending"@.len() != "superseded"@.len());
    assert("accepted"@.len() != "revisionRequested"@.len());
    assert("accepted"@.len() != "superseded"@.len());
    assert("revisionRequested"@.len() != "superseded"@.len());
}

/// The name under which a model3d status is stored.
pub open spec fn model3d_job_status_text(v: Model3dJobStatus) -> Seq<char> {
    match v {
        Model3dJobStatus::Pending => "pending"@,
        Model3dJobStatus::Running => "running"@,
        Model3dJobStatus::Succeeded => "succeeded"@,
        Model3dJobStatus::Failed => "failed"@,
        Model3dJobStatus::NeedsAttention => "needsAttention"@,
    }
}

/// The name under which a model3d status is stored.
pub fn job_status_name(v: Model3dJobStatus) -> (r: &'static str)
    ensures
        r@ == model3d_job_status_text(v),
{
    match v {
        Model3dJobStatus::Pending => "pending",
        Model3dJobStatus::Running => "running",
        Model3dJobStatus::Succeeded => "succeeded",
        Model3dJobStatus::Failed => "failed",
        Model3dJobStatus::NeedsAttention => "needsAttention",
    }
}

/// The model3d status stored under `value`, if any.
pub open spec fn model3d_job_status_of(value: Seq<char>) -> Option<Model3dJobStatus> {
    if value == "pending"@ {
        Some(Model3dJobStatus::Pending)
    } else if value == "running"@ {
        Some(Model3dJobStatus::Running)
    } else if value == "succeeded"@ {
        Some(Model3dJobStatus::Succeeded)
    } else if value == "failed"@ {
        Some(Model3dJobStatus::Failed)
    } else if value == "needsAttention"@ {
        Some(Model3dJobStatus::NeedsAttention)
    } else {
        None
    }
}

/// Reads a stored model3d status; the error is the decode message.
pub fn parse_status(value: &str) -> (r: Result<Model3dJobStatus, String>)
    ensures
        match model3d_job_status_of(value@) {
            Some(v) => r == Ok::<Model3dJobStatus, String>(v),
            None => r matches Err(m) && m@ == "unknown model3d status: "@ + value@,
        },
{
    if str_eq(value, "pending") {
        Ok(Model3dJobStatus::Pending)
    } else if str_eq(value, "running") {
        Ok(Model3dJobStatus::Running)
    } else if str_eq(value, "succeeded") {
        Ok(Model3dJobStatus::Succeeded)
    } else if str_eq(value, "failed") {
        Ok(Model3dJobStatus::Failed)
    } else if str_eq(value, "needsAttention") {
        Ok(Model3dJobStatus::NeedsAttention)
    } else {
        let mut m = owned("unknown model3d status: ");
        m.append(value);
        Err(m)
    }
}

/// Every model3d status is read back from the name it is stored under.
pub proof fn law_model3d_job_status_round_trip(v: Model3dJobStatus)
    ensures
        model3d_job_status_of(model3d_job_status_text(v)) == Some(v),
{
    reveal_strlit("pending");
    reveal_strlit("running");
    reveal_strlit("succeeded");
    reveal_strlit("failed");
    reveal_strlit("needsAttention");
    assert("pending"@[0] != "running"@[0]);
    assert("pending"@.len() != "succeeded"@.len());
    assert("pending"@.len() != "failed"@.len());
    assert("pending"@.len() != "needsAttention"@.len());
    assert("running"@.len() != "succeeded"@.len());
    assert("running"@.len() != "failed"@.len());
    assert("running"@.len() != "needsAttention"@.len());
    assert("succeeded"@.len() != "failed"@.len());
    assert("succeeded"@.len() != "needsAttention"@.len());
    assert("failed"@.len() != "needsAttention"@.len());
}

/// The name under which a model3d stage is stored.
pub open spec fn model3d_stage_text(v: Model3dStage) -> Seq<char> {
    match v {
        Model3dStage::UploadingViews => "uploadingViews"@,
        Model3dStage::GeneratingModel => "generatingModel"@,
        Model3dStage::CheckingRig => "checkingRig"@,
        Model3dStage::Rigging => "rigging"@,
        Model3dStage::Retargeting => "retargeting"@,
        Model3dStage::Downloading => "downloading"@,
        Model3dStage::Validating => "validating"@,
        Model3dStage::Completed => "completed"@,
    }
}

/// The name under which a model3d stage is stored.
pub fn job_stage_name(v: Model3dStage) -> (r: &'static str)
    ensures
        r@ == model3d_stage_text(v),
{
    match v {
        Model3dStage::UploadingViews => "uploadingViews",
        Model3dStage::GeneratingModel => "generatingModel",
        Model3dStage::CheckingRig => "checkingRig",
        Model3dStage::Rigging => "rigging",
        Model3dStage::Retargeting => "retargeting",
        Model3dStage::Downloading => "downloading",
        Model3dStage::Validating => "validating",
        Model3dStage::Completed => "completed",
    }
}

/// The model3d stage stored under `value`, if any.
pub open spec fn model3d_stage_of(value: Seq<char>) -> Option<Model3dStage> {
    if value == "uploadingViews"@ {
        Some(Model3dStage::UploadingViews)
    } else if value == "generatingModel"@ {
        Some(Model3dStage::GeneratingModel)
    } else if value == "checkingRig"@ {
        Some(Model3dStage::CheckingRig)
    } else if value == "rigging"@ {
        Some(Model3dStage::Rigging)
    } else if value == "retargeting"@ {
        Some(Model3dStage::Retargeting)
    } else if value == "downloading"@ {
        Some(Model3dStage::Downloading)
    } else if value == "validating"@ {
        Some(Model3dStage::Validating)
    } else if value == "completed"@ {
        Some(Model3dStage::Completed)
    } else {
        None
    }
}

/// Reads a stored model3d stage; the error is the decode message.
pub fn parse_stage(value: &str) -> (r: Result<Model3dStage, String>)
    ensures
        match model3d_stage_of(value@) {
            Some(v) => r == Ok::<Model3dStage, String>(v),
            None => r matches Err(m) && m@ == "unknown model3d stage: "@ + value@,
        },
{
    if str_eq(value, "uploadingViews") {
        Ok(Model3dStage::UploadingViews)
    } else if str_eq(value, "generatingModel") {
        Ok(Model3dStage::GeneratingModel)
    } else if str_eq(value, "checkingRig") {
        Ok(Model3dStage::CheckingRig)
    } else if str_eq(value, "rigging") {
        Ok(Model3dStage::Rigging)
    } else if str_eq(value, "retargeting") {
        Ok(Model3dStage::Retargeting)
    } else if str_eq(value, "downloading") {
        Ok(Model3dStage::Downloading)
    } else if str_eq(value, "validating") {
        Ok(Model3dStage::Validating)
    } else if str_eq(value, "completed") {
        Ok(Model3dStage::Completed)
    } else {
        let mut m = owned("unknown model3d stage: ");
        m.append(value);
        Err(m)
    }
}

/// Every model3d stage is read back from the name it is stored under.
pub proof fn law_model3d_stage_round_trip(v: Model3dStage)
    ensures
        model3d_stage_of(model3d_stage_text(v)) == Some(v),
{
    reveal_strlit("uploadingViews");
    reveal_strlit("generatingModel");
    reveal_strlit("checkingRig");
    reveal_strlit("rigging");
    reveal_strlit("retargeting");
    reveal_strlit("downloading");
    reveal_strlit("validating");
    reveal_strlit("completed");
    assert("uploadingViews"@.len() != "generatingModel"@.len());
    assert("uploadingViews"@.len() != "checkingRig"@.len());
    assert("uploadingViews"@.len() != "rigging"@.len());
    assert("uploadingViews"@.len() != "retargeting"@.len());
    assert("uploadingViews"@.len() != "downloading"@.len());
    assert("uploadingViews"@.len() != "validating"@.len());
    assert("uploadingViews"@.len() != "completed"@.len());
    assert("generatingModel"@.len() != "checkingRig"@.len());
    assert("generatingModel"@.len() != "rigging"@.len());
    assert("generatingModel"@.len() != "retargeting"@.len());
    assert("generatingModel"@.len() != "downloading"@.len());
    assert("generatingModel"@.len() != "validating"@.len());
    assert("generatingModel"@.len() != "completed"@.len());
    assert("checkingRig"@.len() != "rigging"@.len());
    assert("checkingRig"@[0] != "retargeting"@[0]);
    assert("checkingRig"@[0] != "downloading"@[0]);
    assert("checkingRig"@.len() != "validating"@.len());
    assert("checkingRig"@.len() != "completed"@.len());
    assert("rigging"@.len() != "retargeting"@.len());
    assert("rigging"@.len() != "downloading"@.len());
    assert("rigging"@.len() != "validating"@.len());
    assert("rigging"@.len() != "completed"@.len());
    assert("retargeting"@[0] != "downloading"@[0]);
    assert("retargeting"@.len() != "validating"@.len());
    assert("retargeting"@.len() != "completed"@.len());
    assert("downloading"@.len() != "validating"@.len());
    assert("downloading"@.len() != "completed"@.len());
    assert("validating"@.len() != "completed"@.len());
}

/// The name under which a project state is written.
pub open spec fn project_state_text(v: ProjectState) -> Seq<char> {
    match v {
        ProjectState::Drafting => "drafting"@,
        ProjectState::StyleSettled => "styleSettled"@,
        ProjectState::Ready => "ready"@,
    }
}

/// The name under which a project state is written.
pub fn project_state_name(v: ProjectState) -> (r: &'static str)
    ensures
        r@ == project_state_text(v),
{
    match v {
        ProjectState::Drafting => "drafting",
        ProjectState::StyleSettled => "styleSettled",
        ProjectState::Ready => "ready",
    }
}

/// The project state written under `value`, if any.
pub open spec fn project_state_of(value: Seq<char>) -> Option<ProjectState> {
    if value == "drafting"@ {
        Some(ProjectState::Drafting)
    } else if value == "styleSettled"@ {
        Some(ProjectState::StyleSettled)
    } else if value == "ready"@ {
        Some(ProjectState::Ready)
    } else {
        None
    }
}

/// Every project state is read back from the name it is written under.
pub proof fn law_project_state_round_trip(v: ProjectState)
    ensures
        project_state_of(project_state_text(v)) == Some(v),
{
    reveal_strlit("drafting");
    reveal_strlit("styleSettled");
    reveal_strlit("ready");
    assert("drafting"@.len() != "styleSettled"@.len());
    assert("drafting"@.len() != "ready"@.len());
    assert("styleSettled"@.len() != "ready"@.len());
}

} // verus!
