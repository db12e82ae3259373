use game_runtime::domain::{AgentAction, AgentActionKind, AgentActionPayload, ArtifactDraft, ChoiceGroup};
use game_runtime::draft_log::{commit_drafts, record_action_drafts, record_turn_drafts, DraftRow, DraftStatus};

fn row(id: &str, slot: &str, status: DraftStatus) -> DraftRow {
    DraftRow { id: id.to_string(), slot: slot.to_string(), status }
}

fn statuses(rows: &[DraftRow]) -> Vec<(&str, DraftStatus)> {
    rows.iter().map(|r| (r.id.as_str(), r.status)).collect()
}

#[test]
fn new_drafts_supersede_the_pending_draft_of_their_slot() {
    let mut rows = vec![
        row("d1", "project_art_bible", DraftStatus::Pending),
        row("d2", "project_manifest", DraftStatus::Pending),
    ];
    record_turn_drafts(&mut rows, false, vec![row("d3", "project_art_bible", DraftStatus::Pending)]);
    assert_eq!(
        statuses(&rows),
        vec![
            ("d1", DraftStatus::Superseded),
            ("d2", DraftStatus::Pending),
            ("d3", DraftStatus::Pending),
        ]
    );
    record_turn_drafts(&mut rows, true, Vec::new());
    assert!(rows.iter().all(|r| r.status != DraftStatus::Pending));
}

#[test]
fn a_question_leaves_only_its_own_drafts_pending() {
    let mut rows = vec![row("d1", "a", DraftStatus::Pending), row("d2", "b", DraftStatus::Committed)];
    record_turn_drafts(
        &mut rows,
        true,
        vec![row("d3", "c", DraftStatus::Pending), row("d4", "c", DraftStatus::Pending)],
    );
    assert_eq!(
        statuses(&rows),
        vec![
            ("d1", DraftStatus::Superseded),
            ("d2", DraftStatus::Committed),
            ("d3", DraftStatus::Superseded),
            ("d4", DraftStatus::Pending),
        ]
    );
}

#[test]
fn committing_is_all_or_nothing() {
    let mut rows = vec![row("d1", "a", DraftStatus::Pending), row("d2", "b", DraftStatus::Pending)];
    let before = rows.clone();
    assert_eq!(
        commit_drafts(&mut rows, &["d1".to_string(), "d1".to_string()]),
        Err("draft is not pending: d1".to_string())
    );
    assert_eq!(rows, before);
    assert_eq!(
        commit_drafts(&mut rows, &["d2".to_string(), "zz".to_string()]),
        Err("draft is not pending: zz".to_string())
    );
    assert_eq!(rows, before);
    commit_drafts(&mut rows, &["d2".to_string(), "d1".to_string()]).unwrap();
    assert_eq!(statuses(&rows), vec![("d1", DraftStatus::Committed), ("d2", DraftStatus::Committed)]);
}

#[test]
fn new_interaction_supersedes_obsolete_pending_drafts() {
    let mut rows = vec![
        row("d1", "project_art_bible", DraftStatus::Pending),
        row("d2", "project_manifest", DraftStatus::Pending),
    ];
    let mut payload = AgentActionPayload::empty();
    payload.drafts = Some(vec![ArtifactDraft {
        artifact_slot: Some("project_art_bible".to_string()),
        target_path: "art-bible.md".to_string(),
        content: "new art bible".to_string(),
        based_on_hash: None,
    }]);
    let update = AgentAction {
        action: AgentActionKind::AskUser,
        target_agent: None,
        reason: "请确认更新后的风格".to_string(),
        payload,
    };
    record_action_drafts(&mut rows, &update, vec!["d3".to_string()]);
    assert_eq!(
        statuses(&rows),
        vec![("d1", DraftStatus::Superseded), ("d2", DraftStatus::Pending), ("d3", DraftStatus::Pending)]
    );
    assert_eq!(rows[2].slot, "project_art_bible");

    let mut payload = AgentActionPayload::empty();
    payload.choices = Some(vec![ChoiceGroup {
        item: "风格".to_string(),
        options: vec!["A".to_string(), "B".to_string()],
        recommended: Vec::new(),
        multiple: false,
    }]);
    let choose = AgentAction {
        action: AgentActionKind::AskUser,
        target_agent: None,
        reason: "请选择风格".to_string(),
        payload,
    };
    record_action_drafts(&mut rows, &choose, Vec::new());
    assert!(rows.iter().all(|r| r.status != DraftStatus::Pending));
}

#[test]
fn a_draft_without_a_slot_fills_the_slot_of_its_path() {
    let mut rows = vec![row("d1", "notes/a.md", DraftStatus::Pending)];
    let mut payload = AgentActionPayload::empty();
    payload.drafts = Some(vec![ArtifactDraft {
        artifact_slot: None,
        target_path: "notes/a.md".to_string(),
        content: "x".to_string(),
        based_on_hash: None,
    }]);
    let action = AgentAction { action: AgentActionKind::AskUser, target_agent: None, reason: "r".to_string(), payload };
    record_action_drafts(&mut rows, &action, vec!["d2".to_string()]);
    assert_eq!(statuses(&rows), vec![("d1", DraftStatus::Superseded), ("d2", DraftStatus::Pending)]);
}
