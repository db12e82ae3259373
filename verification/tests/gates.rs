use game_runtime::domain::{AgentVerdict, CharacterState, ProjectState, VerdictConstraint};
use game_runtime::facts::DraftRecord;
use game_runtime::gates::{
    collect_verdict_constraints, final_image, join, new_character_layout, registered_variant,
    registration_next_state, require_ready_project, CharacterGates, GenerationCandidate,
};
use game_runtime::project::GameServiceError;

fn refused(m: &str) -> GameServiceError {
    GameServiceError::InvalidCharacterOperation(m.to_string())
}

fn draft(id: &str, status: &str, target: &str) -> DraftRecord {
    DraftRecord {
        id: id.to_string(),
        status: status.to_string(),
        target_path: target.to_string(),
        created_at: 1,
    }
}

fn verdict(token: &str, subject: &str, decision: &str, item: &str) -> AgentVerdict {
    AgentVerdict {
        token: token.to_string(),
        subject_id: subject.to_string(),
        decision: decision.to_string(),
        sections: Vec::new(),
        constraints: vec![VerdictConstraint {
            scope: "character".to_string(),
            item: item.to_string(),
            value: "红色".to_string(),
        }],
    }
}

fn candidate(id: &str, variant: Option<&str>, path: &str) -> GenerationCandidate {
    GenerationCandidate {
        id: id.to_string(),
        variant: variant.map(str::to_string),
        file_path: path.to_string(),
    }
}

#[test]
fn new_characters_need_a_ready_project_and_plain_names() {
    assert_eq!(
        new_character_layout(ProjectState::Ready, " 孙悟空 ", None),
        Ok(("characters/孙悟空".to_string(), None))
    );
    assert_eq!(
        new_character_layout(ProjectState::Ready, "孙悟空", Some(" 主角 ")),
        Ok(("characters/主角/孙悟空".to_string(), Some("主角".to_string())))
    );
    assert_eq!(
        new_character_layout(ProjectState::Ready, "孙悟空", Some("  ")),
        Ok(("characters/孙悟空".to_string(), None))
    );
    assert_eq!(
        new_character_layout(ProjectState::StyleSettled, "孙悟空", None),
        Err(GameServiceError::ProjectGate("Art Bible 与立项尚未确认".to_string()))
    );
    assert_eq!(new_character_layout(ProjectState::Ready, "a/b", None), Err(refused("名称不能用于目录")));
    assert_eq!(
        new_character_layout(ProjectState::Ready, "ok", Some("..")),
        Err(refused("名称不能用于目录"))
    );
    let gates = CharacterGates::new("characters/孙悟空".to_string(), 5);
    assert_eq!(gates.state, CharacterState::S0SpecDrafting);
    assert_eq!(gates.updated_at, 5);
    assert!(gates.spec_path.is_none() && gates.view_paths.is_empty());
}

#[test]
fn the_latest_matching_verdict_decides() {
    let verdicts = vec![
        verdict("SPEC-CHECK", "d1", "APPROVE", "old"),
        verdict("SPEC-CHECK", "d2", "REJECT", "other"),
        verdict("SPEC-CHECK", "d1", "CONCERNS", "new"),
    ];
    let constraints = collect_verdict_constraints(&verdicts, "SPEC-CHECK", "d1").unwrap();
    assert_eq!(constraints[0].item, "new");
    assert_eq!(
        collect_verdict_constraints(&verdicts, "SPEC-CHECK", "d2"),
        Err(refused("当前角色设定草稿未通过审校，不能确认"))
    );
    assert_eq!(
        collect_verdict_constraints(&verdicts, "OTHER", "d1"),
        Err(refused("缺少与当前角色设定草稿匹配的审校结论"))
    );
}

#[test]
fn confirming_the_spec_moves_to_render() {
    let mut gates = CharacterGates::new("characters/悟空".to_string(), 1);
    let drafts = vec![
        draft("d0", "committed", "docs/角色定稿.md"),
        draft("d1", "pending", "docs/角色定稿.md"),
        draft("d2", "pending", "docs/其他.md"),
    ];
    let verdicts = vec![verdict("SPEC-CHECK", "d1", "APPROVE", "hair")];
    assert_eq!(
        gates.check_spec_confirmation(&drafts, "d0", &verdicts),
        Err(refused("角色设定草稿不存在或已提交"))
    );
    assert_eq!(
        gates.check_spec_confirmation(&drafts, "d2", &verdicts),
        Err(refused("角色设定草稿目标必须是 docs/角色定稿.md"))
    );
    let confirmation = gates.check_spec_confirmation(&drafts, "d1", &verdicts).unwrap();
    assert_eq!(confirmation.draft_index, 1);
    assert_eq!(confirmation.spec_path, "characters/悟空/docs/角色定稿.md");
    gates.confirm_spec(confirmation, 9);
    assert_eq!(gates.state, CharacterState::S1SpecConfirmed);
    assert_eq!(gates.gate_spec_confirmed_at, Some(9));
    assert_eq!(gates.updated_at, 9);
    assert_eq!(gates.hard_constraints[0].item, "hair");
    assert_eq!(gates.spec_path.as_deref(), Some("characters/悟空/docs/角色定稿.md"));
    assert_eq!(
        gates.check_spec_confirmation(&drafts, "d1", &verdicts),
        Err(refused("角色设定已确认或尚未处于 S0"))
    );
}

#[test]
fn registrations_move_only_from_the_right_states() {
    assert_eq!(
        registration_next_state("render", CharacterState::S1SpecConfirmed),
        Ok(Some(CharacterState::S2RenderGenerated))
    );
    assert_eq!(registration_next_state("render", CharacterState::S2RenderGenerated), Ok(None));
    assert_eq!(
        registration_next_state("views", CharacterState::S3RenderConfirmed),
        Ok(Some(CharacterState::S4ViewsGenerated))
    );
    assert_eq!(registration_next_state("views", CharacterState::S4ViewsGenerated), Ok(None));
    assert_eq!(
        registration_next_state("views", CharacterState::S2RenderGenerated),
        Err(refused("当前角色状态不允许登记 views 产物"))
    );
    assert_eq!(
        registration_next_state("spec", CharacterState::S0SpecDrafting),
        Err(refused("generation stage 必须为 render 或 views"))
    );
    assert_eq!(registered_variant("views", None), Ok(Some("quad".to_string())));
    assert_eq!(
        registered_variant("views", Some("front")),
        Err(refused("四视图候选必须是单张 2×2 四宫格（variant=quad）"))
    );
    assert_eq!(registered_variant("render", Some("hero")), Ok(Some("hero".to_string())));
    assert_eq!(registered_variant("render", None), Ok(None));
}

#[test]
fn the_whole_pipeline_in_order() {
    let mut gates = CharacterGates::new("characters/悟空".to_string(), 1);
    gates.state = CharacterState::S1SpecConfirmed;
    let next = registration_next_state("render", gates.state).unwrap();
    gates.record_registration(next, 2);
    assert_eq!(gates.state, CharacterState::S2RenderGenerated);
    assert_eq!(gates.updated_at, 2);
    gates.record_registration(registration_next_state("render", gates.state).unwrap(), 3);
    assert_eq!(gates.updated_at, 2);

    let renders = vec![candidate("r1", None, "tmp/a.webp"), candidate("r2", None, "tmp/b")];
    assert_eq!(gates.check_render_confirmation(&renders, "rx"), Err(refused("渲染记录不存在")));
    assert_eq!(gates.check_render_confirmation(&renders, "r2"), Ok(1));
    assert_eq!(
        final_image(&gates.dir_name, "render-final", "/game/tmp/a.webp"),
        "characters/悟空/images/render-final.webp"
    );
    let path = final_image(&gates.dir_name, "render-final", "/game/tmp/b");
    assert_eq!(path, "characters/悟空/images/render-final.png");
    gates.confirm_render(path, 4);
    assert_eq!(gates.state, CharacterState::S3RenderConfirmed);
    assert_eq!(gates.gate_render_confirmed_at, Some(4));
    assert_eq!(
        gates.check_render_confirmation(&renders, "r2"),
        Err(refused("只能在 S2 确认渲染图"))
    );

    gates.record_registration(registration_next_state("views", gates.state).unwrap(), 5);
    assert_eq!(gates.state, CharacterState::S4ViewsGenerated);
    let views = vec![candidate("v1", Some("front"), "tmp/v1.png"), candidate("v2", Some("quad"), "tmp/v2.png")];
    let one = |id: &str| vec![id.to_string()];
    assert_eq!(
        gates.check_views_confirmation(&views, &[]),
        Err(refused("必须选择一张完整的 2×2 四视图候选"))
    );
    assert_eq!(gates.check_views_confirmation(&views, &one("vx")), Err(refused("四视图记录不存在")));
    assert_eq!(
        gates.check_views_confirmation(&views, &one("v1")),
        Err(refused("四视图候选必须是完整的 2×2 四宫格"))
    );
    assert_eq!(gates.check_views_confirmation(&views, &one("v2")), Ok(1));
    let archived = final_image(&gates.dir_name, "views-final", "/game/tmp/v2.png");
    gates.confirm_views(archived.clone(), 6);
    assert_eq!(gates.state, CharacterState::S5ViewsConfirmed);
    let names: Vec<&str> = gates.view_paths.iter().map(|(k, _)| k.as_str()).collect();
    assert_eq!(names, ["back", "front", "left", "right"]);
    assert!(gates.view_paths.iter().all(|(_, v)| *v == archived));
    assert_eq!(archived, "characters/悟空/images/views-final.png");
    assert_eq!(gates.gate_views_confirmed_at, Some(6));
    assert_eq!(gates.gate_render_confirmed_at, Some(4));
}

#[test]
fn rejections_name_the_stage_being_rejected() {
    let mut gates = CharacterGates::new("c".to_string(), 1);
    assert_eq!(gates.check_rejection("spec", "  太普通 "), Ok("太普通".to_string()));
    assert_eq!(gates.check_rejection("spec", "  "), Err(refused("拒绝当前结果时必须说明原因")));
    assert_eq!(
        gates.check_rejection("model", "x"),
        Err(refused("拒绝阶段必须是 spec、render 或 views"))
    );
    assert_eq!(
        gates.check_rejection("render", "x"),
        Err(refused("当前角色状态不允许拒绝 render 结果"))
    );
    gates.state = CharacterState::S4ViewsGenerated;
    assert_eq!(gates.check_rejection("views", "背面不对"), Ok("背面不对".to_string()));
}

#[test]
fn joining_adds_one_separator() {
    assert_eq!(join("a", "b"), "a/b");
    assert_eq!(join("a/", "b"), "a/b");
    assert_eq!(join("", "b"), "b");
}

#[test]
fn characters_need_a_ready_project() {
    assert_eq!(require_ready_project(ProjectState::Ready), Ok(()));
    assert_eq!(
        require_ready_project(ProjectState::Drafting),
        Err(GameServiceError::ProjectGate("Art Bible 与立项尚未确认".to_string()))
    );
}
