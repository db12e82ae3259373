//! The agent action protocol's data: what an agent's trailing action block holds.

use vstd::prelude::*;

verus! {

/// Marks the start of the action block that ends every agent reply.
pub const ACTION_START: &'static str = "<action>";

/// Marks the end of the action block.
pub const ACTION_END: &'static str = "</action>";

/// The most choice groups one `ask_user` action may carry.
pub const MAX_CHOICE_GROUPS: usize = 4;

/// The most automatic handoffs one user turn may trigger.
pub const MAX_HANDOFFS: usize = 8;

/// Where a character stands in its design pipeline.
#[derive(Debug, Clone, Copy, PartialEq, Eq, Structural)]
pub enum CharacterState {
    S0SpecDrafting,
    S1SpecConfirmed,
    S2RenderGenerated,
    S3RenderConfirmed,
    S4ViewsGenerated,
    S5ViewsConfirmed,
}

/// The lifecycle of a task.
#[derive(Debug, Clone, Copy, PartialEq, Eq, Structural)]
pub enum TaskStatus {
    Pending,
    Running,
    Succeeded,
    Failed,
    Cancelled,
}

/// The lifecycle of one attempt at a task.
#[derive(Debug, Clone, Copy, PartialEq, Eq, Structural)]
pub enum TaskAttemptStatus {
    Pending,
    Running,
    Succeeded,
    Failed,
    Cancelled,
    Interrupted,
    Unknown,
}

/// The health the backend reports to its callers.
#[derive(Debug, Clone, Copy, PartialEq, Eq, Structural)]
pub enum BackendStatus {
    Starting,
    Recovering,
    Ready,
    ReadOnly,
}

/// Whether a conversation is waiting for the user or has an agent at work.
#[derive(Debug, Clone, Copy, PartialEq, Eq, Structural)]
pub enum ConversationStatus {
    Active,
    Running,
}

/// What a conversation is about: the project as a whole or one character.
#[derive(Debug, Clone, Copy, PartialEq, Eq, Structural)]
pub enum ConversationTargetKind {
    Project,
    Character,
}

impl ConversationTargetKind {
    /// The name of the kind, as agents and stored rows know it.
    pub fn as_str(&self) -> (r: &'static str)
        ensures
            r@ == (match *self {
                ConversationTargetKind::Project => "project"@,
                ConversationTargetKind::Character => "character"@,
            }),
    {
        match self {
            ConversationTargetKind::Project => "project",
            ConversationTargetKind::Character => "character",
        }
    }
}

/// Where one message of a conversation stands.
#[derive(Debug, Clone, Copy, PartialEq, Eq, Structural)]
pub enum MessageStatus {
    Thinking,
    Completed,
    Failed,
    Interrupted,
}

/// What the user made of a generated image.
#[derive(Debug, Clone, Copy, PartialEq, Eq, Structural)]
pub enum GenerationReviewStatus {
    Pending,
    Accepted,
    RevisionRequested,
    Superseded,
}

/// How far a project has been set up.
#[derive(Debug, Clone, Copy, PartialEq, Eq, Structural)]
pub enum ProjectState {
    Drafting,
    StyleSettled,
    Ready,
}

/// Where a 3D model job stands.
#[derive(Debug, Clone, Copy, PartialEq, Eq, Structural)]
pub enum Model3dJobStatus {
    Pending,
    Running,
    Succeeded,
    Failed,
    NeedsAttention,
}

/// The step a 3D model job is at.
#[derive(Debug, Clone, Copy, PartialEq, Eq, Structural)]
pub enum Model3dStage {
    UploadingViews,
    GeneratingModel,
    CheckingRig,
    Rigging,
    Retargeting,
    Downloading,
    Validating,
    Completed,
}

/// What an agent asks the runtime to do after its reply.
#[derive(Debug, Clone, Copy, PartialEq, Eq, Structural)]
pub enum AgentActionKind {
    AskUser,
    Handoff,
    Done,
    Blocked,
}

/// Whether delegated work succeeded.
#[derive(Debug, Clone, Copy, PartialEq, Eq, Structural)]
pub enum AgentResultStatus {
    Success,
    Failed,
}

/// One question put to the user, with its options.
#[derive(Debug, Clone, PartialEq, Eq)]
pub struct ChoiceGroup {
    pub item: String,
    pub options: Vec<String>,
    pub recommended: Vec<String>,
    pub multiple: bool,
}

/// What an agent has settled and what is still open.
#[derive(Debug, Clone, PartialEq, Eq)]
pub struct AgentProgress {
    pub decisions: Vec<String>,
    pub open_questions: Vec<String>,
    pub next_step: String,
}

/// A document an agent proposes to write into the project.
#[derive(Debug, Clone, PartialEq, Eq)]
pub struct ArtifactDraft {
    pub artifact_slot: Option<String>,
    pub target_path: String,
    pub content: String,
    pub based_on_hash: Option<String>,
}

/// A memory an agent asks to keep for the project or a character.
#[derive(Debug, Clone, PartialEq, Eq)]
pub struct MemoryDraft {
    pub scope: String,
    pub kind: String,
    pub content: String,
}

/// A proposed project name with its code.
#[derive(Debug, Clone, PartialEq, Eq)]
pub struct NamingOption {
    pub name: String,
    pub code: String,
    pub reason: String,
}

/// The specification of one asset to generate.
#[derive(Debug, Clone, PartialEq, Eq)]
pub struct AssetSpec {
    pub code: String,
    pub name: String,
    pub category: String,
    pub size: String,
    pub format: String,
    pub file_name: String,
    pub description: String,
    pub anchors: String,
    pub view_background_color: String,
    pub prompt: String,
    pub negative_prompt: String,
}

/// A constraint that a review fixes for later stages.
#[derive(Debug, Clone, PartialEq, Eq)]
pub struct VerdictConstraint {
    pub scope: String,
    pub item: String,
    pub value: String,
}

/// The decision an agent gives on a subject.
#[derive(Debug, Clone, PartialEq, Eq)]
pub struct AgentVerdict {
    pub token: String,
    pub subject_id: String,
    pub decision: String,
    pub sections: Vec<(String, Vec<String>)>,
    pub constraints: Vec<VerdictConstraint>,
}

/// The outcome of delegated work.
#[derive(Debug, Clone, PartialEq, Eq)]
pub struct AgentResult {
    pub status: AgentResultStatus,
    pub error: Option<String>,
    pub artifacts: Vec<String>,
    pub revision_scope: Option<String>,
    pub focus_changes_summary: Option<String>,
}

/// The optional parts of an action.
#[derive(Debug, Clone, PartialEq, Eq)]
pub struct AgentActionPayload {
    pub choices: Option<Vec<ChoiceGroup>>,
    pub progress: Option<AgentProgress>,
    pub drafts: Option<Vec<ArtifactDraft>>,
    pub memories: Option<Vec<MemoryDraft>>,
    pub naming: Option<Vec<NamingOption>>,
    pub asset_specs: Option<Vec<AssetSpec>>,
    pub verdict: Option<AgentVerdict>,
    pub result: Option<AgentResult>,
}

impl AgentActionPayload {
    /// A payload with no parts.
    pub fn empty() -> (r: Self)
        ensures
            r.choices is None && r.progress is None && r.drafts is None && r.memories is None
                && r.naming is None && r.asset_specs is None && r.verdict is None && r.result is None,
    {
        AgentActionPayload {
            choices: None,
            progress: None,
            drafts: None,
            memories: None,
            naming: None,
            asset_specs: None,
            verdict: None,
            result: None,
        }
    }
}

/// The action block of one agent reply.
#[derive(Debug, Clone, PartialEq, Eq)]
pub struct AgentAction {
    pub action: AgentActionKind,
    pub target_agent: Option<String>,
    pub reason: String,
    pub payload: AgentActionPayload,
}

/// An agent reply split into its display text and its action.
#[derive(Debug, Clone, PartialEq, Eq)]
pub struct AgentTurnOutput {
    pub text: String,
    pub action: AgentAction,
}

} // verus!
