//! The store's records and the names under which its states are persisted.

use vstd::prelude::*;
use crate::action::{owned, str_eq};
use crate::domain::{BackendStatus, CharacterState, TaskAttemptStatus, TaskStatus};

verus! {

/// Whether a project store may be written.
#[derive(Debug, Clone, Copy, PartialEq, Eq, Structural)]
pub enum ProjectAccess {
    ReadWrite,
    ReadOnly,
}

/// The attempt and task that a finished turn completed.
#[derive(Debug, Clone, PartialEq, Eq)]
pub struct TurnAttemptCompletion {
    pub attempt_id: String,
    pub task_id: String,
    pub conversation_id: String,
}

/// An attempt whose turn is running.
#[derive(Debug, Clone, PartialEq, Eq)]
pub struct RunningAttempt {
    pub attempt_id: String,
    pub task_id: String,
    pub agent_code: String,
    pub thread_id: String,
    pub turn_id: String,
}

/// A provider account as the studio database knows it.
#[derive(Debug, Clone, PartialEq, Eq)]
pub struct ProviderAccountMetadata {
    pub id: String,
    pub provider: String,
    pub model: String,
    pub enabled: bool,
}

/// The route a scope is bound to.
#[derive(Debug, Clone, PartialEq, Eq)]
pub struct StoredRouteBinding {
    pub scope_key: String,
    pub provider_account_id: String,
    pub provider: String,
    pub model: String,
}

/// One usage amount to record against an account.
#[derive(Debug, Clone, PartialEq, Eq)]
pub struct StudioUsageEntry {
    pub metric: String,
    pub amount: u64,
    pub event_payload_json: String,
}

/// A route event as stored.
#[derive(Debug, Clone, PartialEq, Eq)]
pub struct StoredRouteEvent {
    pub sequence: u64,
    pub event_type: String,
    pub payload_json: String,
    pub created_at: i64,
}

/// The code under which a backend status is kept.
pub open spec fn status_code_of(status: BackendStatus) -> u8 {
    match status {
        BackendStatus::Starting => 0,
        BackendStatus::Recovering => 1,
        BackendStatus::Ready => 2,
        BackendStatus::ReadOnly => 3,
    }
}

/// The backend status a code stands for; unknown codes read as ready.
pub open spec fn status_of_code(code: u8) -> BackendStatus {
    if code == 0 {
        BackendStatus::Starting
    } else if code == 1 {
        BackendStatus::Recovering
    } else if code == 3 {
        BackendStatus::ReadOnly
    } else {
        BackendStatus::Ready
    }
}

fn status_code(status: BackendStatus) -> (r: u8)
    ensures
        r == status_code_of(status),
{
    match status {
        BackendStatus::Starting => 0,
        BackendStatus::Recovering => 1,
        BackendStatus::Ready => 2,
        BackendStatus::ReadOnly => 3,
    }
}

/// The recovery barrier shared by the game's request handlers.
#[derive(Debug)]
pub struct StoreState {
    status: u8,
}

impl View for StoreState {
    type V = BackendStatus;

    closed spec fn view(&self) -> BackendStatus {
        status_of_code(self.status)
    }
}

impl StoreState {
    /// A barrier that reports `status`.
    pub fn new(status: BackendStatus) -> (r: Self)
        ensures
            r@ == status,
    {
        StoreState { status: status_code(status) }
    }

    /// The status the barrier reports.
    pub fn status(&self) -> (r: BackendStatus)
        ensures
            r == self@,
    {
        if self.status == 0 {
            BackendStatus::Starting
        } else if self.status == 1 {
            BackendStatus::Recovering
        } else if self.status == 3 {
            BackendStatus::ReadOnly
        } else {
            BackendStatus::Ready
        }
    }

    /// Makes the barrier report `status`.
    pub fn set_status(&mut self, status: BackendStatus)
        ensures
            final(self)@ == status,
    {
        self.status = status_code(status);
    }
}

/// Every status survives being kept as its code.
pub proof fn law_status_code_round_trip(status: BackendStatus)
    ensures
        status_of_code(status_code_of(status)) == status,
{
}

/// The name under which a character state is stored.
pub open spec fn character_state_text(state: CharacterState) -> Seq<char> {
    match state {
        CharacterState::S0SpecDrafting => "S0_spec_drafting"@,
        CharacterState::S1SpecConfirmed => "S1_spec_confirmed"@,
        CharacterState::S2RenderGenerated => "S2_render_generated"@,
        CharacterState::S3RenderConfirmed => "S3_render_confirmed"@,
        CharacterState::S4ViewsGenerated => "S4_views_generated"@,
        CharacterState::S5ViewsConfirmed => "S5_views_confirmed"@,
    }
}

/// The name under which a character state is stored.
pub fn character_state_name(state: CharacterState) -> (r: &'static str)
    ensures
        r@ == character_state_text(state),
{
    match state {
        CharacterState::S0SpecDrafting => "S0_spec_drafting",
        CharacterState::S1SpecConfirmed => "S1_spec_confirmed",
        CharacterState::S2RenderGenerated => "S2_render_generated",
        CharacterState::S3RenderConfirmed => "S3_render_confirmed",
        CharacterState::S4ViewsGenerated => "S4_views_generated",
        CharacterState::S5ViewsConfirmed => "S5_views_confirmed",
    }
}

/// The character state stored under `value`, if any.
pub open spec fn character_state_of(value: Seq<char>) -> Option<CharacterState> {
    if value == "S0_spec_drafting"@ {
        Some(CharacterState::S0SpecDrafting)
    } else if value == "S1_spec_confirmed"@ {
        Some(CharacterState::S1SpecConfirmed)
    } else if value == "S2_render_generated"@ {
        Some(CharacterState::S2RenderGenerated)
    } else if value == "S3_render_confirmed"@ {
        Some(CharacterState::S3RenderConfirmed)
    } else if value == "S4_views_generated"@ {
        Some(CharacterState::S4ViewsGenerated)
    } else if value == "S5_views_confirmed"@ {
        Some(CharacterState::S5ViewsConfirmed)
    } else {
        None
    }
}

/// Reads a stored character state; the error is the decode message.
pub fn parse_character_state(value: &str) -> (r: Result<CharacterState, String>)
    ensures
        match character_state_of(value@) {
            Some(s) => r == Ok::<CharacterState, String>(s),
            None => r matches Err(m) && m@ == "unknown character state: "@ + value@,
        },
{
    if str_eq(value, "S0_spec_drafting") {
        Ok(CharacterState::S0SpecDrafting)
    } else if str_eq(value, "S1_spec_confirmed") {
        Ok(CharacterState::S1SpecConfirmed)
    } else if str_eq(value, "S2_render_generated") {
        Ok(CharacterState::S2RenderGenerated)
    } else if str_eq(value, "S3_render_confirmed") {
        Ok(CharacterState::S3RenderConfirmed)
    } else if str_eq(value, "S4_views_generated") {
        Ok(CharacterState::S4ViewsGenerated)
    } else if str_eq(value, "S5_views_confirmed") {
        Ok(CharacterState::S5ViewsConfirmed)
    } else {
        let mut m = owned("unknown character state: ");
        m.append(value);
        Err(m)
    }
}

/// The name under which a task status is stored.
pub open spec fn task_status_text(status: TaskStatus) -> Seq<char> {
    match status {
        TaskStatus::Pending => "pending"@,
        TaskStatus::Running => "running"@,
        TaskStatus::Succeeded => "succeeded"@,
        TaskStatus::Failed => "failed"@,
        TaskStatus::Cancelled => "cancelled"@,
    }
}

/// The task status stored under `value`, if any.
pub open spec fn task_status_of(value: Seq<char>) -> Option<TaskStatus> {
    if value == "pending"@ {
        Some(TaskStatus::Pending)
    } else if value == "running"@ {
        Some(TaskStatus::Running)
    } else if value == "succeeded"@ {
        Some(TaskStatus::Succeeded)
    } else if value == "failed"@ {
        Some(TaskStatus::Failed)
    } else if value == "cancelled"@ {
        Some(TaskStatus::Cancelled)
    } else {
        None
    }
}

/// Reads a stored task status; the error is the decode message.
pub fn parse_task_status(value: &str) -> (r: Result<TaskStatus, String>)
    ensures
        match task_status_of(value@) {
            Some(s) => r == Ok::<TaskStatus, String>(s),
            None => r matches Err(m) && m@ == "unknown task status: "@ + value@,
        },
{
    if str_eq(value, "pending") {
        Ok(TaskStatus::Pending)
    } else if str_eq(value, "running") {
        Ok(TaskStatus::Running)
    } else if str_eq(value, "succeeded") {
        Ok(TaskStatus::Succeeded)
    } else if str_eq(value, "failed") {
        Ok(TaskStatus::Failed)
    } else if str_eq(value, "cancelled") {
        Ok(TaskStatus::Cancelled)
    } else {
        let mut m = owned("unknown task status: ");
        m.append(value);
        Err(m)
    }
}

/// The name under which an attempt status is stored.
pub open spec fn attempt_status_text(status: TaskAttemptStatus) -> Seq<char> {
    match status {
        TaskAttemptStatus::Pending => "pending"@,
        TaskAttemptStatus::Running => "running"@,
        TaskAttemptStatus::Succeeded => "succeeded"@,
        TaskAttemptStatus::Failed => "failed"@,
        TaskAttemptStatus::Cancelled => "cancelled"@,
        TaskAttemptStatus::Interrupted => "interrupted"@,
        TaskAttemptStatus::Unknown => "unknown"@,
    }
}

/// The name under which an attempt status is stored.
pub fn attempt_status_name(status: TaskAttemptStatus) -> (r: &'static str)
    ensures
        r@ == attempt_status_text(status),
{
    match status {
        TaskAttemptStatus::Pending => "pending",
        TaskAttemptStatus::Running => "running",
        TaskAttemptStatus::Succeeded => "succeeded",
        TaskAttemptStatus::Failed => "failed",
        TaskAttemptStatus::Cancelled => "cancelled",
        TaskAttemptStatus::Interrupted => "interrupted",
        TaskAttemptStatus::Unknown => "unknown",
    }
}

/// The status a task takes when its attempt ends in `status`: an interrupted or
/// unknown attempt fails its task.
pub open spec fn task_status_for_attempt_of(status: TaskAttemptStatus) -> TaskStatus {
    match status {
        TaskAttemptStatus::Pending => TaskStatus::Pending,
        TaskAttemptStatus::Running => TaskStatus::Running,
        TaskAttemptStatus::Succeeded => TaskStatus::Succeeded,
        TaskAttemptStatus::Cancelled => TaskStatus::Cancelled,
        TaskAttemptStatus::Failed | TaskAttemptStatus::Interrupted | TaskAttemptStatus::Unknown =>
            TaskStatus::Failed,
    }
}

/// The stored name of the status a task takes when its attempt ends in `status`.
pub fn task_status_for_attempt(status: TaskAttemptStatus) -> (r: &'static str)
    ensures
        r@ == task_status_text(task_status_for_attempt_of(status)),
{
    match status {
        TaskAttemptStatus::Pending => "pending",
        TaskAttemptStatus::Running => "running",
        TaskAttemptStatus::Succeeded => "succeeded",
        TaskAttemptStatus::Cancelled => "cancelled",
        TaskAttemptStatus::Failed | TaskAttemptStatus::Interrupted | TaskAttemptStatus::Unknown => {
            "failed"
        },
    }
}

/// Every task status is read back from the name it is stored under.
pub proof fn law_task_status_round_trip(status: TaskStatus)
    ensures
        task_status_of(task_status_text(status)) == Some(status),
{
    reveal_strlit("pending");
    reveal_strlit("running");
    reveal_strlit("succeeded");
    reveal_strlit("failed");
    reveal_strlit("cancelled");
    assert("pending"@[0] != "running"@[0]);
    assert("pending"@.len() != "succeeded"@.len());
    assert("pending"@.len() != "failed"@.len());
    assert("pending"@.len() != "cancelled"@.len());
    assert("running"@.len() != "succeeded"@.len());
    assert("running"@.len() != "failed"@.len());
    assert("running"@.len() != "cancelled"@.len());
    assert("succeeded"@[0] != "cancelled"@[0]);
    assert("succeeded"@.len() != "failed"@.len());
    assert("failed"@.len() != "cancelled"@.len());
}

/// Every character state is read back from the name it is stored under.
pub proof fn law_character_state_round_trip(state: CharacterState)
    ensures
        character_state_of(character_state_text(state)) == Some(state),
{
    reveal_strlit("S0_spec_drafting");
    reveal_strlit("S1_spec_confirmed");
    reveal_strlit("S2_render_generated");
    reveal_strlit("S3_render_confirmed");
    reveal_strlit("S4_views_generated");
    reveal_strlit("S5_views_confirmed");
    assert("S0_spec_drafting"@[1] != "S1_spec_confirmed"@[1]);
    assert("S0_spec_drafting"@[1] != "S2_render_generated"@[1]);
    assert("S0_spec_drafting"@[1] != "S3_render_confirmed"@[1]);
    assert("S0_spec_drafting"@[1] != "S4_views_generated"@[1]);
    assert("S0_spec_drafting"@[1] != "S5_views_confirmed"@[1]);
    assert("S1_spec_confirmed"@[1] != "S2_render_generated"@[1]);
    assert("S1_spec_confirmed"@[1] != "S3_render_confirmed"@[1]);
    assert("S1_spec_confirmed"@[1] != "S4_views_generated"@[1]);
    assert("S1_spec_confirmed"@[1] != "S5_views_confirmed"@[1]);
    assert("S2_render_generated"@[1] != "S3_render_confirmed"@[1]);
    assert("S2_render_generated"@[1] != "S4_views_generated"@[1]);
    assert("S2_render_generated"@[1] != "S5_views_confirmed"@[1]);
    assert("S3_render_confirmed"@[1] != "S4_views_generated"@[1]);
    assert("S3_render_confirmed"@[1] != "S5_views_confirmed"@[1]);
    assert("S4_views_generated"@[1] != "S5_views_confirmed"@[1]);
}

} // verus!
