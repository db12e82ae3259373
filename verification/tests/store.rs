use game_runtime::domain::{BackendStatus, CharacterState, TaskAttemptStatus, TaskStatus};
use game_runtime::store::{
    attempt_status_name, character_state_name, parse_character_state, parse_task_status,
    task_status_for_attempt, StoreState,
};

#[test]
fn store_state_reports_what_was_set() {
    let mut state = StoreState::new(BackendStatus::Starting);
    assert_eq!(state.status(), BackendStatus::Starting);
    for status in [
        BackendStatus::Recovering,
        BackendStatus::Ready,
        BackendStatus::ReadOnly,
        BackendStatus::Starting,
    ] {
        state.set_status(status);
        assert_eq!(state.status(), status);
    }
}

#[test]
fn character_states_round_trip_through_their_names() {
    for state in [
        CharacterState::S0SpecDrafting,
        CharacterState::S1SpecConfirmed,
        CharacterState::S2RenderGenerated,
        CharacterState::S3RenderConfirmed,
        CharacterState::S4ViewsGenerated,
        CharacterState::S5ViewsConfirmed,
    ] {
        assert_eq!(parse_character_state(character_state_name(state)), Ok(state));
    }
    assert_eq!(character_state_name(CharacterState::S2RenderGenerated), "S2_render_generated");
    assert_eq!(
        parse_character_state("S9"),
        Err("unknown character state: S9".to_string())
    );
}

#[test]
fn attempts_end_their_tasks() {
    assert_eq!(task_status_for_attempt(TaskAttemptStatus::Interrupted), "failed");
    assert_eq!(task_status_for_attempt(TaskAttemptStatus::Unknown), "failed");
    assert_eq!(task_status_for_attempt(TaskAttemptStatus::Succeeded), "succeeded");
    assert_eq!(task_status_for_attempt(TaskAttemptStatus::Pending), "pending");
    assert_eq!(
        parse_task_status(task_status_for_attempt(TaskAttemptStatus::Cancelled)),
        Ok(TaskStatus::Cancelled)
    );
    assert_eq!(attempt_status_name(TaskAttemptStatus::Interrupted), "interrupted");
    assert_eq!(
        parse_task_status("done"),
        Err("unknown task status: done".to_string())
    );
}
