use game_runtime::domain::{AgentVerdict, CharacterState, TaskStatus};
use game_runtime::facts::{
    character_workflow_facts, DraftRecord, GenerationRecord, MemoryRecord, TaskRecord,
};
use game_runtime::workflow::{
    allowed_handoffs_for, build_character_workflow_progress, current_design_stage,
    spec_review_status_for, CharacterWorkflowFacts, CharacterWorkflowProgress,
    CharacterWorkflowStep, SpecReviewStatus,
};

fn expected_workflow(status_label: &str, statuses: [&str; 6]) -> CharacterWorkflowProgress {
    let labels = [
        ("spec_design", "角色设定"),
        ("spec_confirm", "确认设定"),
        ("render_design", "效果图设计"),
        ("render_confirm", "确认效果图"),
        ("views_design", "四视图设计"),
        ("views_confirm", "确认四视图"),
    ];
    CharacterWorkflowProgress {
        status_label: status_label.to_string(),
        steps: labels
            .into_iter()
            .zip(statuses)
            .map(|((key, label), status)| CharacterWorkflowStep {
                key: key.to_string(),
                label: label.to_string(),
                status: status.to_string(),
            })
            .collect(),
        needs_resume: false,
        continuation_key: None,
    }
}

fn test_workflow_facts(spec_review_status: SpecReviewStatus) -> CharacterWorkflowFacts {
    CharacterWorkflowFacts {
        pending_spec: None,
        spec_review_status,
        latest_spec_verdict: None,
        latest_spec_rejection_id: None,
        render_rejection_id: None,
        views_rejection_id: None,
        render_rejected_after_generation: false,
        views_rejected_after_generation: false,
        failed_design_stage: None,
        has_running_task: false,
    }
}

#[test]
fn character_workflow_maps_persistent_states_to_six_business_steps() {
    let cases = [
        (
            CharacterState::S0SpecDrafting,
            false,
            "角色设定",
            ["process", "wait", "wait", "wait", "wait", "wait"],
        ),
        (
            CharacterState::S0SpecDrafting,
            true,
            "确认设定",
            ["finish", "process", "wait", "wait", "wait", "wait"],
        ),
        (
            CharacterState::S1SpecConfirmed,
            false,
            "效果图设计",
            ["finish", "finish", "process", "wait", "wait", "wait"],
        ),
        (
            CharacterState::S2RenderGenerated,
            false,
            "确认效果图",
            ["finish", "finish", "finish", "process", "wait", "wait"],
        ),
        (
            CharacterState::S3RenderConfirmed,
            false,
            "四视图设计",
            ["finish", "finish", "finish", "finish", "process", "wait"],
        ),
        (
            CharacterState::S4ViewsGenerated,
            false,
            "确认四视图",
            ["finish", "finish", "finish", "finish", "finish", "process"],
        ),
        (
            CharacterState::S5ViewsConfirmed,
            false,
            "角色视觉设计完成",
            ["finish", "finish", "finish", "finish", "finish", "finish"],
        ),
    ];

    for (state, spec_confirmation_ready, status_label, statuses) in cases {
        assert_eq!(
            build_character_workflow_progress(
                state,
                spec_confirmation_ready,
                false,
                false,
                false,
                None,
                None,
            ),
            expected_workflow(status_label, statuses)
        );
    }
}

#[test]
fn character_handoffs_follow_review_and_gate_state() {
    let cases = [
        (SpecReviewStatus::AwaitingDraft, vec!["spec_writer"]),
        (SpecReviewStatus::Pending, vec!["spec_reviewer"]),
        (SpecReviewStatus::Error, vec!["spec_reviewer"]),
        (SpecReviewStatus::Rejected, vec!["spec_writer"]),
        (SpecReviewStatus::Approved, Vec::new()),
        (SpecReviewStatus::Concerns, Vec::new()),
    ];
    let no_stage_agents: Vec<String> = Vec::new();
    for (status, expected) in cases {
        let facts = test_workflow_facts(status);
        assert_eq!(
            allowed_handoffs_for(
                "character",
                "studio_director",
                "studio_director",
                0,
                &no_stage_agents,
                Some(CharacterState::S0SpecDrafting),
                Some(&facts),
            ),
            expected
        );
    }

    let mut state = CharacterState::S2RenderGenerated;
    let mut facts = test_workflow_facts(SpecReviewStatus::Approved);
    assert!(allowed_handoffs_for(
        "character",
        "studio_director",
        "studio_director",
        0,
        &no_stage_agents,
        Some(state),
        Some(&facts),
    )
    .is_empty());
    facts.render_rejected_after_generation = true;
    assert_eq!(
        allowed_handoffs_for(
            "character",
            "studio_director",
            "studio_director",
            0,
            &no_stage_agents,
            Some(state),
            Some(&facts),
        ),
        vec!["visual_designer"]
    );
    state = CharacterState::S5ViewsConfirmed;
    assert!(allowed_handoffs_for(
        "character",
        "studio_director",
        "studio_director",
        0,
        &no_stage_agents,
        Some(state),
        Some(&facts),
    )
    .is_empty());
}

fn verdict(subject_id: &str, decision: &str) -> AgentVerdict {
    AgentVerdict {
        token: "SPEC-CHECK".to_string(),
        subject_id: subject_id.to_string(),
        decision: decision.to_string(),
        sections: Vec::new(),
        constraints: Vec::new(),
    }
}

#[test]
fn spec_review_verdict_matches_the_pending_draft_id() {
    let draft = DraftRecord {
        id: "draft-current".to_string(),
        status: "pending".to_string(),
        target_path: "docs/角色定稿.md".to_string(),
        created_at: 2,
    };
    let verdicts = vec![verdict("draft-current", "CONCERNS"), verdict("draft-old", "REJECT")];

    let facts = character_workflow_facts(
        "character-1",
        CharacterState::S0SpecDrafting,
        &verdicts,
        &vec![draft],
        &Vec::new(),
        &Vec::new(),
        &Vec::new(),
    );

    assert_eq!(facts.spec_review_status, SpecReviewStatus::Concerns);
    assert_eq!(facts.pending_spec, Some(0));
    assert_eq!(
        facts
            .latest_spec_verdict
            .map(|index| verdicts[index].subject_id.as_str()),
        Some("draft-old")
    );
}

#[test]
fn workflow_progress_reports_resume_and_review_failure() {
    let resumable = build_character_workflow_progress(
        CharacterState::S1SpecConfirmed,
        false,
        false,
        false,
        false,
        None,
        Some("render:1".to_string()),
    );
    assert!(resumable.needs_resume);
    assert_eq!(resumable.continuation_key.as_deref(), Some("render:1"));

    let review_failed = build_character_workflow_progress(
        CharacterState::S0SpecDrafting,
        false,
        true,
        false,
        false,
        None,
        None,
    );
    assert_eq!(review_failed.steps[0].status, "error");
    assert!(!review_failed.needs_resume);

    let terminal = build_character_workflow_progress(
        CharacterState::S5ViewsConfirmed,
        false,
        false,
        false,
        false,
        None,
        None,
    );
    assert!(!terminal.needs_resume);
    assert!(terminal.continuation_key.is_none());
}

#[test]
fn character_workflow_returns_to_design_after_rejection_and_marks_failures() {
    assert_eq!(
        build_character_workflow_progress(
            CharacterState::S2RenderGenerated,
            false,
            false,
            true,
            false,
            Some("render"),
            None,
        ),
        expected_workflow(
            "效果图设计",
            ["finish", "finish", "error", "wait", "wait", "wait"],
        )
    );
    assert_eq!(
        build_character_workflow_progress(
            CharacterState::S4ViewsGenerated,
            false,
            false,
            false,
            true,
            None,
            None,
        ),
        expected_workflow(
            "四视图设计",
            ["finish", "finish", "finish", "finish", "process", "wait"],
        )
    );
}

#[test]
fn specialists_may_only_hand_back_to_the_director() {
    let stage_agents = vec!["studio_director".to_string(), "spec_writer".to_string()];
    assert_eq!(
        allowed_handoffs_for(
            "project",
            "spec_writer",
            "studio_director",
            0,
            &stage_agents,
            None,
            None,
        ),
        vec!["studio_director"]
    );
    assert_eq!(
        allowed_handoffs_for(
            "project",
            "studio_director",
            "studio_director",
            0,
            &stage_agents,
            None,
            None,
        ),
        vec!["spec_writer"]
    );
    assert!(allowed_handoffs_for(
        "project",
        "studio_director",
        "studio_director",
        game_runtime::domain::MAX_HANDOFFS,
        &stage_agents,
        None,
        None,
    )
    .is_empty());
    assert!(allowed_handoffs_for(
        "character",
        "studio_director",
        "studio_director",
        0,
        &stage_agents,
        None,
        None,
    )
    .is_empty());
}

#[test]
fn spec_review_status_follows_verdict_then_reviewer_task() {
    assert_eq!(spec_review_status_for(false, Some("APPROVE"), None), SpecReviewStatus::AwaitingDraft);
    assert_eq!(spec_review_status_for(true, Some("APPROVE"), None), SpecReviewStatus::Approved);
    assert_eq!(spec_review_status_for(true, Some("REJECT"), None), SpecReviewStatus::Rejected);
    assert_eq!(spec_review_status_for(true, Some("MAYBE"), None), SpecReviewStatus::Error);
    assert_eq!(
        spec_review_status_for(true, None, Some(("spec_reviewer", TaskStatus::Running))),
        SpecReviewStatus::Pending
    );
    assert_eq!(
        spec_review_status_for(true, None, Some(("spec_reviewer", TaskStatus::Succeeded))),
        SpecReviewStatus::Error
    );
    assert_eq!(
        spec_review_status_for(true, None, Some(("spec_writer", TaskStatus::Failed))),
        SpecReviewStatus::Pending
    );
    assert_eq!(spec_review_status_for(true, None, None), SpecReviewStatus::Pending);
    assert_eq!(SpecReviewStatus::AwaitingDraft.as_str(), "awaiting_draft");
    assert_eq!(SpecReviewStatus::Concerns.as_str(), "concerns");
}

#[test]
fn design_stage_follows_state_and_rejections() {
    assert_eq!(current_design_stage(CharacterState::S0SpecDrafting, false, false), Some("spec"));
    assert_eq!(current_design_stage(CharacterState::S2RenderGenerated, false, false), None);
    assert_eq!(current_design_stage(CharacterState::S2RenderGenerated, true, false), Some("render"));
    assert_eq!(current_design_stage(CharacterState::S4ViewsGenerated, false, true), Some("views"));
    assert_eq!(current_design_stage(CharacterState::S5ViewsConfirmed, true, true), None);
}

fn memory(id: &str, kind: &str, updated_at: i64) -> MemoryRecord {
    MemoryRecord {
        id: id.to_string(),
        character_ref: Some("character-1".to_string()),
        kind: kind.to_string(),
        updated_at,
    }
}

#[test]
fn rejections_count_only_after_the_latest_generation() {
    let generations = vec![
        GenerationRecord {
            id: "g1".to_string(),
            stage: "render".to_string(),
            created_at: 10,
        },
        GenerationRecord {
            id: "g2".to_string(),
            stage: "render".to_string(),
            created_at: 20,
        },
    ];
    let memories = vec![memory("m1", "render_rejection", 15), memory("m2", "views_rejection", 30)];
    let tasks = vec![TaskRecord {
        target_id: "character-1".to_string(),
        stage: "render".to_string(),
        agent_code: "visual_designer".to_string(),
        status: TaskStatus::Failed,
    }];
    let facts = character_workflow_facts(
        "character-1",
        CharacterState::S2RenderGenerated,
        &Vec::new(),
        &Vec::new(),
        &tasks,
        &generations,
        &memories,
    );
    assert!(!facts.render_rejected_after_generation);
    assert_eq!(facts.render_rejection_id, None);
    assert!(!facts.views_rejected_after_generation);
    assert_eq!(facts.failed_design_stage, None);
    assert!(!facts.has_running_task);

    let later = vec![memory("m1", "render_rejection", 15), memory("m3", "render_rejection", 25)];
    let facts = character_workflow_facts(
        "character-1",
        CharacterState::S2RenderGenerated,
        &Vec::new(),
        &Vec::new(),
        &tasks,
        &generations,
        &later,
    );
    assert!(facts.render_rejected_after_generation);
    assert_eq!(facts.render_rejection_id.as_deref(), Some("m3"));
    assert_eq!(facts.failed_design_stage.as_deref(), Some("render"));
}

#[test]
fn drafts_older_than_the_latest_spec_rejection_are_not_pending() {
    let drafts = vec![
        DraftRecord {
            id: "d-old".to_string(),
            status: "pending".to_string(),
            target_path: "docs/角色定稿.md".to_string(),
            created_at: 5,
        },
        DraftRecord {
            id: "d-other".to_string(),
            status: "pending".to_string(),
            target_path: "docs/其他.md".to_string(),
            created_at: 50,
        },
    ];
    let memories = vec![memory("r1", "spec_rejection", 7)];
    let tasks = vec![TaskRecord {
        target_id: "character-9".to_string(),
        stage: "spec".to_string(),
        agent_code: "spec_writer".to_string(),
        status: TaskStatus::Running,
    }];
    let facts = character_workflow_facts(
        "character-1",
        CharacterState::S0SpecDrafting,
        &Vec::new(),
        &drafts,
        &tasks,
        &Vec::new(),
        &memories,
    );
    assert_eq!(facts.pending_spec, None);
    assert_eq!(facts.spec_review_status, SpecReviewStatus::AwaitingDraft);
    assert_eq!(facts.latest_spec_rejection_id.as_deref(), Some("r1"));
    assert!(facts.has_running_task);
}

#[test]
fn progress_moves_forward_with_the_lifecycle() {
    let states = [
        CharacterState::S0SpecDrafting,
        CharacterState::S1SpecConfirmed,
        CharacterState::S2RenderGenerated,
        CharacterState::S3RenderConfirmed,
        CharacterState::S4ViewsGenerated,
        CharacterState::S5ViewsConfirmed,
    ];
    let finished = |p: &CharacterWorkflowProgress| p.steps.iter().filter(|s| s.status == "finish").count();
    let rank = |s: &str| match s {
        "finish" => 2,
        "wait" => 0,
        _ => 1,
    };
    let mut most_before = 0;
    for state in states {
        let mut fewest = usize::MAX;
        let mut most = 0;
        for flags in 0..16u32 {
            for failed in [None, Some("spec"), Some("render"), Some("views")] {
                let p = build_character_workflow_progress(
                    state,
                    flags & 1 != 0,
                    flags & 2 != 0,
                    flags & 4 != 0,
                    flags & 8 != 0,
                    failed,
                    None,
                );
                let ranks = p.steps.iter().map(|s| rank(&s.status)).collect::<Vec<_>>();
                for i in 0..6 {
                    for j in i + 1..6 {
                        assert!(!(ranks[j] == 2 && ranks[i] != 2));
                        assert!(!(ranks[i] == 0 && ranks[j] != 0));
                    }
                }
                fewest = fewest.min(finished(&p));
                most = most.max(finished(&p));
            }
        }
        assert!(most_before <= fewest);
        most_before = most;
    }
    assert_eq!(most_before, 6);
}
