use game_runtime::domain::{AgentActionKind, CharacterState};
use game_runtime::generations::{
    check_artifact, generation_variant, plan_registration, ArtifactFields, RegistrationPlan,
};
use game_runtime::project::GameServiceError;

fn invalid(m: &str) -> GameServiceError {
    GameServiceError::InvalidAction(m.to_string())
}

fn plan(
    agent: &str,
    stage: &str,
    action: AgentActionKind,
    has_result: bool,
    count: usize,
    character: bool,
    state: CharacterState,
) -> Result<RegistrationPlan, GameServiceError> {
    plan_registration(agent, stage, action, has_result, count, character, state)
}

#[test]
fn only_the_visual_designer_registers_images() {
    assert_eq!(
        plan("spec_writer", "render", AgentActionKind::Done, false, 0, true, CharacterState::S1SpecConfirmed),
        Ok(RegistrationPlan::Nothing)
    );
    assert_eq!(
        plan("visual_designer", "render", AgentActionKind::Blocked, true, 0, true, CharacterState::S1SpecConfirmed),
        Ok(RegistrationPlan::Nothing)
    );
}

#[test]
fn render_and_views_move_the_character_forward() {
    assert_eq!(
        plan("visual_designer", "render", AgentActionKind::Handoff, true, 1, true, CharacterState::S1SpecConfirmed),
        Ok(RegistrationPlan::Register {
            executor: "image_t2i",
            next_state: Some(CharacterState::S2RenderGenerated)
        })
    );
    assert_eq!(
        plan("visual_designer", "render", AgentActionKind::Handoff, true, 1, true, CharacterState::S2RenderGenerated),
        Ok(RegistrationPlan::Register { executor: "image_t2i", next_state: None })
    );
    assert_eq!(
        plan("visual_designer", "views", AgentActionKind::Handoff, true, 1, true, CharacterState::S3RenderConfirmed),
        Ok(RegistrationPlan::Register {
            executor: "image_i2i",
            next_state: Some(CharacterState::S4ViewsGenerated)
        })
    );
    assert_eq!(
        plan("visual_designer", "views", AgentActionKind::Handoff, true, 1, true, CharacterState::S4ViewsGenerated),
        Ok(RegistrationPlan::Register { executor: "image_i2i", next_state: None })
    );
}

#[test]
fn each_refusal_names_its_reason() {
    let s1 = CharacterState::S1SpecConfirmed;
    let h = AgentActionKind::Handoff;
    assert_eq!(
        plan("visual_designer", "render", h, false, 1, true, s1),
        Err(invalid("视觉设计任务必须返回 payload.result"))
    );
    assert_eq!(
        plan("visual_designer", "render", h, true, 0, true, s1),
        Err(invalid("图片执行成功时必须返回至少一个产物"))
    );
    assert_eq!(
        plan("visual_designer", "spec", h, true, 1, true, s1),
        Err(invalid("图片产物只能登记到 render 或 views 阶段"))
    );
    assert_eq!(
        plan("visual_designer", "render", h, true, 1, false, s1),
        Err(invalid("图片执行 Agent 只能为角色会话登记产物"))
    );
    assert_eq!(
        plan("visual_designer", "views", h, true, 1, true, s1),
        Err(GameServiceError::InvalidCharacterOperation(
            "当前角色状态不允许登记 views 产物".to_string()
        ))
    );
    assert_eq!(
        plan("visual_designer", "render", h, true, 2, true, s1),
        Err(invalid("角色图片 Agent 每次必须且只能返回一张 2048x2048 图片"))
    );
}

fn artifact(executor: Option<&str>, path: Option<&str>, size: Option<&str>) -> ArtifactFields {
    ArtifactFields {
        executor: executor.map(str::to_string),
        path: path.map(str::to_string),
        size: size.map(str::to_string),
        variant: None,
    }
}

#[test]
fn artifacts_are_checked_in_order() {
    let ok = artifact(Some("image_t2i"), Some("tmp/a.png"), Some("2048x2048"));
    assert_eq!(
        check_artifact("/game", "render", "image_t2i", &ok),
        Ok(("tmp/a.png".to_string(), "/game/tmp/a.png".to_string()))
    );
    assert_eq!(
        check_artifact("/game", "render", "image_t2i", &artifact(None, None, None)),
        Err(invalid("视觉产物缺少内部 executor"))
    );
    assert_eq!(
        check_artifact("/game", "render", "image_t2i", &artifact(Some("image_i2i"), None, None)),
        Err(invalid("render 阶段必须使用 image_t2i 内部执行器"))
    );
    assert_eq!(
        check_artifact("/game", "render", "image_t2i", &artifact(Some("image_t2i"), Some("  "), None)),
        Err(invalid("图片产物缺少 path"))
    );
    for outside in ["out/a.png", "tmpx/a.png", "./tmp/a.png"] {
        assert_eq!(
            check_artifact("/game", "render", "image_t2i", &artifact(Some("image_t2i"), Some(outside), Some("2048x2048"))),
            Err(invalid("图片执行产物必须写入项目 tmp/ 临时目录")),
            "{outside}"
        );
    }
    assert_eq!(
        check_artifact("/game", "render", "image_t2i", &artifact(Some("image_t2i"), Some("tmp/a.png"), Some("1024x1024"))),
        Err(invalid("角色图片产物尺寸必须为 2048x2048"))
    );
    assert_eq!(
        check_artifact("/game", "render", "image_t2i", &artifact(Some("image_t2i"), Some("tmp/../../x.png"), Some("2048x2048"))),
        Err(GameServiceError::InvalidCharacterOperation("文件路径必须位于项目内".to_string()))
    );
}

#[test]
fn views_are_registered_as_a_quad() {
    assert_eq!(generation_variant("views", None), Ok(Some("quad".to_string())));
    assert_eq!(generation_variant("views", Some("quad")), Ok(Some("quad".to_string())));
    assert_eq!(
        generation_variant("views", Some("front")),
        Err(invalid("四视图产物必须是单张 2×2 四宫格（variant=quad）"))
    );
    assert_eq!(generation_variant("render", None), Ok(None));
    assert_eq!(generation_variant("render", Some("hero")), Ok(Some("hero".to_string())));
}
