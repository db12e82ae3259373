use game_runtime::action::validate_action;
use game_runtime::action_contract::{
    contract_example_actions, contract_examples, instruction, render_action_contract, render_examples, schema_branches,
    schema_definition_names, validate_action_profile, ContractExample, PayloadSchema, SchemaBranch,
    TargetSchema,
};
use game_runtime::domain::{AgentAction, AgentActionKind, AgentActionPayload, AgentResult, AgentResultStatus};

fn strings(values: &[&str]) -> Vec<String> {
    values.iter().map(|v| v.to_string()).collect()
}

#[test]
fn spec_writer_profile_has_three_branches_with_drafts() {
    let branches = schema_branches("spec_writer", None, "spec", &[]).expect("profile");
    assert_eq!(branches.len(), 3);
    assert_eq!(
        branches[1],
        SchemaBranch {
            action: AgentActionKind::AskUser,
            target: TargetSchema::Null,
            payload: PayloadSchema::Drafts,
        }
    );
    assert_eq!(
        contract_examples("spec_writer", None, "spec", "studio_director", &[]),
        vec![ContractExample::SpecWriterAskUser, ContractExample::SpecWriterDrafts]
    );
    let actions = contract_example_actions("spec_writer", None, "spec", "studio_director", &[]);
    let drafts = actions[1].payload.drafts.as_ref().expect("drafts");
    assert_eq!(drafts[0].artifact_slot.as_deref(), Some("character_spec"));
    assert_eq!(actions[1].action, AgentActionKind::AskUser);
    assert_eq!(schema_definition_names("spec_writer"), Some(vec!["AgentProgress", "ChoiceGroup"]));
}

#[test]
fn director_examples_use_only_current_handoff_targets() {
    let allowed = strings(&["visual_designer"]);
    let examples = contract_examples("studio_director", None, "render", "studio_director", &allowed);
    assert_eq!(
        examples,
        vec![
            ContractExample::DirectorHandoff("visual_designer".to_string()),
            ContractExample::DirectorAskUser,
            ContractExample::DirectorDone,
        ]
    );
    assert!(instruction("studio_director", "render", "studio_director", &allowed).contains("visual_designer"));
    let branches = schema_branches("studio_director", None, "render", &allowed).expect("profile");
    assert_eq!(branches.len(), 4);
    assert_eq!(branches[0].target, TargetSchema::AllowedHandoffs);
    assert_eq!(schema_branches("studio_director", None, "render", &[]).expect("profile").len(), 3);
}

#[test]
fn project_naming_profile_exposes_only_the_required_step() {
    let allowed = strings(&["art_bible_designer"]);
    let director = schema_branches("studio_director", Some("collectProjectNaming"), "project", &allowed)
        .expect("profile");
    assert_eq!(director.len(), 2);
    assert_eq!(
        contract_examples("studio_director", Some("collectProjectNaming"), "project", "studio_director", &allowed),
        vec![ContractExample::ProjectTaskHandoff("art_bible_designer".to_string())]
    );
    assert_eq!(
        contract_examples("studio_director", Some("draftProjectArtBible"), "project", "studio_director", &[]),
        vec![ContractExample::ProjectTaskBlocked]
    );
    assert_eq!(
        contract_examples("art_bible_designer", Some("collectProjectNaming"), "project", "studio_director", &[]),
        vec![ContractExample::ProjectNamingChoices]
    );
    assert_eq!(
        schema_branches("studio_director", Some("completed"), "project", &allowed).expect("profile").len(),
        2
    );
}

#[test]
fn visual_profile_follows_the_stage() {
    let render = schema_branches("visual_designer", None, "render", &[]).expect("profile");
    assert_eq!(render.len(), 3);
    assert_eq!(render[0].payload, PayloadSchema::VisualSuccess { views: false });
    assert_eq!(render[0].action, AgentActionKind::Handoff);
    let views = schema_branches("visual_designer", None, "views", &[]).expect("profile");
    assert_eq!(views[0].payload, PayloadSchema::VisualSuccess { views: true });
    assert_eq!(
        contract_examples("visual_designer", None, "views", "studio_director", &[]),
        vec![ContractExample::VisualBlocked]
    );
    assert_eq!(
        contract_examples("visual_designer", None, "views", "studio_director", &strings(&["studio_director"])),
        vec![ContractExample::VisualHandBack { views: true }, ContractExample::VisualBlocked]
    );
    let back = contract_example_actions("visual_designer", None, "render", "studio_director", &strings(&["studio_director"]));
    assert_eq!(back[0].target_agent.as_deref(), Some("studio_director"));
    assert_eq!(
        back[0].payload.result.as_ref().and_then(|r| r.revision_scope.as_deref()),
        Some("render")
    );
    assert_eq!(schema_branches("image_t2i", None, "render", &[]), None);
    assert_eq!(schema_definition_names("image_t2i"), None);
    assert_eq!(
        contract_examples("image_t2i", None, "render", "studio_director", &[]),
        vec![ContractExample::SpecialistBlocked]
    );
    assert_eq!(
        contract_examples("image_t2i", None, "render", "studio_director", &strings(&["studio_director"])),
        vec![ContractExample::GenericHandBack]
    );
}

#[test]
fn rendered_contract_and_examples() {
    assert_eq!(
        render_action_contract("I", "S", "E", 3),
        "<action_contract version=\"3\">\nI\n\nJSON Schema：\nS\n\n本轮合法完整示例：\nE\n</action_contract>"
    );
    assert_eq!(
        render_examples(&strings(&["{}", "[]"])),
        "<action>\n{}\n</action>\n\n<action>\n[]\n</action>"
    );
    assert!(instruction("spec_writer", "spec", "studio_director", &[]).contains("无；本轮不得输出 handoff"));
}

#[test]
fn profiles_refuse_actions_outside_their_shapes() {
    let done = AgentAction {
        action: AgentActionKind::Done,
        target_agent: None,
        reason: "完成".to_string(),
        payload: AgentActionPayload::empty(),
    };
    assert_eq!(
        validate_action_profile("spec_writer", "studio_director", &[], &done),
        Err("当前 Agent spec_writer 的 action/payload 组合不属于本轮 ActionContractProfile；director=studio_director".to_string())
    );
    assert_eq!(validate_action_profile("studio_director", "studio_director", &[], &done), Ok(()));
    assert_eq!(validate_action_profile("image_t2i", "studio_director", &[], &done), Ok(()));
    let mut payload = AgentActionPayload::empty();
    payload.result = Some(AgentResult {
        status: AgentResultStatus::Success,
        error: None,
        artifacts: Vec::new(),
        revision_scope: Some("render".to_string()),
        focus_changes_summary: Some("更新".to_string()),
    });
    let visual = AgentAction { payload, ..done.clone() };
    assert!(validate_action_profile("visual_designer", "studio_director", &[], &visual).is_err());
    let handed_back = AgentAction {
        action: AgentActionKind::Handoff,
        target_agent: Some("studio_director".to_string()),
        ..visual
    };
    assert_eq!(
        validate_action_profile("visual_designer", "studio_director", &strings(&["studio_director"]), &handed_back),
        Ok(())
    );
}

#[test]
fn every_profile_example_passes_the_runtime_parser() {
    let cases = [
        ("studio_director", "spec", strings(&["spec_writer"])),
        ("spec_writer", "spec", Vec::new()),
        ("spec_reviewer", "spec", Vec::new()),
        ("visual_designer", "render", Vec::new()),
        ("visual_designer", "views", Vec::new()),
        ("spec_writer", "spec", strings(&["studio_director"])),
        ("spec_reviewer", "spec", strings(&["studio_director"])),
        ("visual_designer", "render", strings(&["studio_director"])),
        ("visual_designer", "views", strings(&["studio_director"])),
        ("image_t2i", "render", strings(&["studio_director"])),
        ("image_t2i", "render", Vec::new()),
    ];
    for (agent, stage, allowed) in cases {
        let actions = contract_example_actions(agent, None, stage, "studio_director", &allowed);
        assert!(!actions.is_empty());
        for action in &actions {
            assert_eq!(
                validate_action(action, agent, "studio_director", &allowed),
                Ok(()),
                "{agent}/{stage}: {action:?}"
            );
            assert_eq!(validate_action_profile(agent, "studio_director", &allowed, action), Ok(()));
        }
    }
    let naming = contract_example_actions(
        "art_bible_designer",
        Some("collectProjectNaming"),
        "project",
        "studio_director",
        &[],
    );
    assert_eq!(validate_action(&naming[0], "art_bible_designer", "studio_director", &[]), Ok(()));
    let spec_review = contract_example_actions("spec_reviewer", None, "spec", "studio_director", &strings(&["studio_director"]));
    assert_eq!(spec_review[0].action, AgentActionKind::Handoff);
    assert_eq!(spec_review[0].payload.verdict.as_ref().map(|v| v.token.as_str()), Some("SPEC-CHECK"));
}

#[test]
fn each_rendered_example_reads_back_through_the_parser() {
    let jsons = vec![
        "{\n  \"action\": \"ask_user\",\n  \"reason\": \"需要确认。\"\n}".to_string(),
        "{\"action\":\"done\"}".to_string(),
    ];
    let examples = render_examples(&jsons);
    let blocks = examples
        .split(game_runtime::domain::ACTION_END)
        .filter(|chunk| !chunk.trim().is_empty())
        .map(|chunk| format!("{}\n{}", chunk.trim(), game_runtime::domain::ACTION_END))
        .collect::<Vec<_>>();
    assert_eq!(blocks.len(), 2);
    for (block, json) in blocks.iter().zip(&jsons) {
        let read = game_runtime::action::split_agent_turn(block).expect("one block");
        assert_eq!(read.text, "");
        assert_eq!(&read.body, json);
    }
}
