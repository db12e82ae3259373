use game_runtime::attempts::{
    AttemptLedger, StoreError, StoredAttempt, StoredTask, TaskAttempt, MSG_RETRY_ENDED, MSG_RETRY_MISMATCH,
    MSG_RETRY_STARTED, MSG_RETRY_UNRESTORABLE,
};
use game_runtime::domain::{TaskAttemptStatus, TaskStatus};
use game_runtime::store::ProjectAccess;

fn attempt(id: &str, task: &str, no: u32, turn: Option<&str>, status: TaskAttemptStatus) -> StoredAttempt {
    StoredAttempt {
        id: id.to_string(),
        task_id: task.to_string(),
        attempt_no: no,
        conversation_codex_thread_id: "ct1".to_string(),
        codex_turn_id: turn.map(|t| t.to_string()),
        status,
    }
}

fn task(id: &str, status: TaskStatus) -> StoredTask {
    StoredTask { id: id.to_string(), status }
}

fn new_attempt(id: &str, task: &str, no: u32) -> TaskAttempt {
    TaskAttempt {
        id: id.to_string(),
        task_id: task.to_string(),
        attempt_no: no,
        conversation_codex_thread_id: "ct1".to_string(),
    }
}

fn status_of(ledger: &AttemptLedger, id: &str) -> TaskAttemptStatus {
    ledger.attempt(id).expect("attempt").status
}

fn running_ledger() -> AttemptLedger {
    let mut ledger = AttemptLedger::new(ProjectAccess::ReadWrite);
    ledger.insert_task(task("t1", TaskStatus::Running)).expect("seed task");
    ledger
        .insert_attempt(attempt("a1", "t1", 1, Some("turn1"), TaskAttemptStatus::Running))
        .expect("seed attempt");
    ledger
}

#[test]
fn binds_turn_and_attempt_in_one_store_operation() {
    let mut ledger = AttemptLedger::new(ProjectAccess::ReadWrite);
    ledger
        .insert_attempt(attempt("a1", "t1", 1, None, TaskAttemptStatus::Pending))
        .expect("seed attempt");
    ledger.bind_turn_to_attempt("a1", "turn1").expect("bind turn");
    let bound = ledger.attempt("a1").expect("attempt");
    assert_eq!(bound.status, TaskAttemptStatus::Running);
    assert_eq!(bound.codex_turn_id.as_deref(), Some("turn1"));
}

#[test]
fn completing_turn_updates_attempt_and_task_atomically() {
    let mut ledger = running_ledger();
    let completion = ledger
        .complete_turn("turn1", TaskAttemptStatus::Succeeded)
        .expect("complete turn")
        .expect("known turn");
    assert_eq!(completion, ("a1".to_string(), "t1".to_string()));
    assert_eq!(status_of(&ledger, "a1"), TaskAttemptStatus::Succeeded);
    assert_eq!(ledger.task_status("t1"), Some(TaskStatus::Succeeded));
}

#[test]
fn recovery_interrupts_unfinished_attempts() {
    let mut ledger = AttemptLedger::new(ProjectAccess::ReadWrite);
    ledger
        .insert_attempt(attempt("a1", "t1", 1, None, TaskAttemptStatus::Running))
        .expect("seed attempt");
    let recovered = ledger.recover_incomplete_attempts().expect("recover");
    assert_eq!(recovered.len(), 1);
    assert_eq!(recovered[0].id, "a1");
    assert_eq!(status_of(&ledger, "a1"), TaskAttemptStatus::Interrupted);
}

#[test]
fn recovery_fails_unfinished_tasks_and_leaves_ended_ones() {
    let mut ledger = AttemptLedger::new(ProjectAccess::ReadWrite);
    ledger.insert_task(task("t1", TaskStatus::Running)).expect("task");
    ledger.insert_task(task("t2", TaskStatus::Succeeded)).expect("task");
    ledger.insert_task(task("t3", TaskStatus::Pending)).expect("task");
    ledger
        .insert_attempt(attempt("a1", "t1", 1, Some("turn1"), TaskAttemptStatus::Running))
        .expect("attempt");
    ledger
        .insert_attempt(attempt("a2", "t2", 1, Some("turn2"), TaskAttemptStatus::Succeeded))
        .expect("attempt");
    ledger
        .insert_attempt(attempt("a3", "t3", 1, None, TaskAttemptStatus::Pending))
        .expect("attempt");
    let recovered = ledger.recover_incomplete_attempts().expect("recover");
    let ids: Vec<&str> = recovered.iter().map(|a| a.id.as_str()).collect();
    assert_eq!(ids, vec!["a1", "a3"]);
    assert_eq!(recovered[0].status, TaskAttemptStatus::Running);
    assert_eq!(status_of(&ledger, "a2"), TaskAttemptStatus::Succeeded);
    assert_eq!(status_of(&ledger, "a3"), TaskAttemptStatus::Interrupted);
    assert_eq!(ledger.task_status("t1"), Some(TaskStatus::Failed));
    assert_eq!(ledger.task_status("t2"), Some(TaskStatus::Succeeded));
    assert_eq!(ledger.task_status("t3"), Some(TaskStatus::Failed));
    let again = ledger.recover_incomplete_attempts().expect("recover again");
    assert!(again.is_empty());
}

#[test]
fn retry_replaces_running_attempt_and_rollback_restores_it() {
    let mut ledger = running_ledger();
    ledger
        .begin_task_attempt_retry("a1", &new_attempt("a2", "t1", 2))
        .expect("begin retry");
    assert_eq!(status_of(&ledger, "a1"), TaskAttemptStatus::Failed);
    let retry = ledger.attempt("a2").expect("retry");
    assert_eq!(retry.status, TaskAttemptStatus::Pending);
    assert_eq!(retry.codex_turn_id, None);
    assert_eq!(ledger.task_status("t1"), Some(TaskStatus::Running));

    ledger.rollback_task_attempt_retry("a1", "a2").expect("rollback");
    assert!(ledger.attempt("a2").is_none());
    assert_eq!(status_of(&ledger, "a1"), TaskAttemptStatus::Running);
}

#[test]
fn retry_of_an_ended_attempt_is_a_conflict() {
    let mut ledger = running_ledger();
    ledger
        .mark_attempt_status("a1", TaskAttemptStatus::Succeeded)
        .expect("mark");
    let error = ledger
        .begin_task_attempt_retry("a1", &new_attempt("a2", "t1", 2))
        .expect_err("ended");
    assert_eq!(error, StoreError::Conflict(MSG_RETRY_ENDED.to_string()));
    let missing = ledger
        .begin_task_attempt_retry("nope", &new_attempt("a2", "t1", 2))
        .expect_err("missing");
    assert_eq!(missing, StoreError::Conflict(MSG_RETRY_ENDED.to_string()));
}

#[test]
fn retry_must_continue_the_same_task_with_the_next_number() {
    let mut ledger = running_ledger();
    for retry in [new_attempt("a2", "t2", 2), new_attempt("a2", "t1", 3)] {
        let error = ledger.begin_task_attempt_retry("a1", &retry).expect_err("mismatch");
        assert_eq!(error, StoreError::Conflict(MSG_RETRY_MISMATCH.to_string()));
    }
    let mut other_thread = new_attempt("a2", "t1", 2);
    other_thread.conversation_codex_thread_id = "ct2".to_string();
    let error = ledger.begin_task_attempt_retry("a1", &other_thread).expect_err("thread");
    assert_eq!(error, StoreError::Conflict(MSG_RETRY_MISMATCH.to_string()));
    assert_eq!(status_of(&ledger, "a1"), TaskAttemptStatus::Running);
}

#[test]
fn rollback_after_the_retry_started_is_refused() {
    let mut ledger = running_ledger();
    ledger
        .begin_task_attempt_retry("a1", &new_attempt("a2", "t1", 2))
        .expect("begin retry");
    ledger.bind_turn_to_attempt("a2", "turn2").expect("bind retry");
    let error = ledger.rollback_task_attempt_retry("a1", "a2").expect_err("started");
    assert_eq!(error, StoreError::Conflict(MSG_RETRY_STARTED.to_string()));
    assert_eq!(status_of(&ledger, "a2"), TaskAttemptStatus::Running);
}

#[test]
fn rollback_without_a_failed_original_changes_nothing() {
    let mut ledger = running_ledger();
    ledger
        .insert_attempt(attempt("a2", "t1", 2, None, TaskAttemptStatus::Pending))
        .expect("pending retry");
    let error = ledger.rollback_task_attempt_retry("a1", "a2").expect_err("unrestorable");
    assert_eq!(error, StoreError::Conflict(MSG_RETRY_UNRESTORABLE.to_string()));
    assert!(ledger.attempt("a2").is_some());
    assert_eq!(status_of(&ledger, "a1"), TaskAttemptStatus::Running);
}

#[test]
fn marking_an_attempt_moves_its_task() {
    let mut ledger = running_ledger();
    ledger
        .mark_attempt_status("a1", TaskAttemptStatus::Interrupted)
        .expect("mark");
    assert_eq!(status_of(&ledger, "a1"), TaskAttemptStatus::Interrupted);
    assert_eq!(ledger.task_status("t1"), Some(TaskStatus::Failed));
    let error = ledger
        .mark_attempt_status("a9", TaskAttemptStatus::Failed)
        .expect_err("unknown");
    assert_eq!(error, StoreError::NotFound("task attempt a9".to_string()));
    assert_eq!(error.message(), "store record was not found: task attempt a9");
}

#[test]
fn binding_needs_an_unbound_attempt_and_a_free_turn() {
    let mut ledger = running_ledger();
    let bound_already = ledger.bind_turn_to_attempt("a1", "turn9").expect_err("bound");
    assert_eq!(bound_already, StoreError::NotFound("unbound task attempt a1".to_string()));
    ledger
        .insert_attempt(attempt("a2", "t1", 2, None, TaskAttemptStatus::Pending))
        .expect("attempt");
    let taken = ledger.bind_turn_to_attempt("a2", "turn1").expect_err("turn taken");
    assert!(matches!(taken, StoreError::Database(_)));
    assert_eq!(ledger.attempt("a2").expect("a2").codex_turn_id, None);
}

#[test]
fn completing_an_unknown_or_ended_turn_changes_nothing() {
    let mut ledger = running_ledger();
    assert_eq!(ledger.complete_turn("turn9", TaskAttemptStatus::Failed).expect("complete"), None);
    ledger
        .complete_turn("turn1", TaskAttemptStatus::Cancelled)
        .expect("complete")
        .expect("known");
    assert_eq!(ledger.task_status("t1"), Some(TaskStatus::Cancelled));
    assert_eq!(ledger.complete_turn("turn1", TaskAttemptStatus::Succeeded).expect("again"), None);
    assert_eq!(status_of(&ledger, "a1"), TaskAttemptStatus::Cancelled);
}

#[test]
fn keys_of_attempts_and_tasks_are_unique() {
    let mut ledger = running_ledger();
    let same_id = ledger
        .insert_attempt(attempt("a1", "t2", 1, None, TaskAttemptStatus::Pending))
        .expect_err("id");
    let same_number = ledger
        .insert_attempt(attempt("a2", "t1", 1, None, TaskAttemptStatus::Pending))
        .expect_err("number");
    let same_task = ledger.insert_task(task("t1", TaskStatus::Pending)).expect_err("task");
    assert!(matches!(same_id, StoreError::Database(_)));
    assert!(matches!(same_number, StoreError::Database(_)));
    assert!(matches!(same_task, StoreError::Database(_)));
    assert_ne!(same_id, same_number);
    let created = ledger.create_task_attempt("t1", &new_attempt("a5", "t1", 5));
    assert!(matches!(created, Err(StoreError::Database(_))));
    assert!(ledger.attempt("a5").is_none());
}

#[test]
fn creating_a_task_attempt_writes_both_pending() {
    let mut ledger = AttemptLedger::new(ProjectAccess::ReadWrite);
    ledger
        .create_task_attempt("t1", &new_attempt("a1", "t1", 1))
        .expect("create");
    assert_eq!(ledger.task_status("t1"), Some(TaskStatus::Pending));
    assert_eq!(status_of(&ledger, "a1"), TaskAttemptStatus::Pending);
}

#[test]
fn a_read_only_store_refuses_every_write() {
    let mut ledger = AttemptLedger::new(ProjectAccess::ReadOnly);
    assert_eq!(
        ledger.create_task_attempt("t1", &new_attempt("a1", "t1", 1)),
        Err(StoreError::ReadOnly)
    );
    assert_eq!(ledger.recover_incomplete_attempts(), Err(StoreError::ReadOnly));
    assert_eq!(ledger.complete_turn("turn1", TaskAttemptStatus::Failed), Err(StoreError::ReadOnly));
    assert_eq!(ledger.bind_turn_to_attempt("a1", "turn1"), Err(StoreError::ReadOnly));
    assert_eq!(StoreError::ReadOnly.message(), "project store is read-only");
}
