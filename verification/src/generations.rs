//! What a visual designer's finished turn may register: one 2048x2048 image,
//! made by the stage's internal executor, written under the project's `tmp/`,
//! and the character state it moves to.

use vstd::prelude::*;
use crate::action::{owned, str_eq};
use crate::domain::{AgentActionKind, CharacterState};
use crate::project::{inside_project, joined_path, safe_project_path, GameServiceError};
use crate::text::{chars_of, is_blank, trim};
use crate::workflow::opt_str_view;

verus! {

/// The fields of an artifact that registration reads (each when it is a string).
#[derive(Debug, Clone, PartialEq, Eq)]
pub struct ArtifactFields {
    pub executor: Option<String>,
    pub path: Option<String>,
    pub size: Option<String>,
    pub variant: Option<String>,
}

/// The internal executor a stage's images must come from.
pub open spec fn stage_executor(stage: Seq<char>) -> Option<Seq<char>> {
    if stage == "render"@ {
        Some("image_t2i"@)
    } else if stage == "views"@ {
        Some("image_i2i"@)
    } else {
        None
    }
}

/// The state a character moves to when an image of `stage` is registered:
/// `Ok(None)` when it stays, `Err` when the state does not take such images.
pub open spec fn registration_state(stage: Seq<char>, state: CharacterState) -> Result<Option<CharacterState>, ()> {
    if stage == "render"@ && state == CharacterState::S1SpecConfirmed {
        Ok(Some(CharacterState::S2RenderGenerated))
    } else if stage == "render"@ && state == CharacterState::S2RenderGenerated {
        Ok(None)
    } else if stage == "views"@ && state == CharacterState::S3RenderConfirmed {
        Ok(Some(CharacterState::S4ViewsGenerated))
    } else if stage == "views"@ && state == CharacterState::S4ViewsGenerated {
        Ok(None)
    } else {
        Err(())
    }
}

/// What registration decides before it looks at the artifacts' files.
pub enum RegistrationPlanView {
    /// Nothing is registered.
    Nothing,
    /// The artifact is registered from this executor, moving the character
    /// to the state, if any.
    Register { executor: Seq<char>, next_state: Option<CharacterState> },
    Refused(GameServiceErrorTextView),
}

/// A game service error by kind and message.
pub enum GameServiceErrorTextView {
    InvalidAction(Seq<char>),
    InvalidCharacterOperation(Seq<char>),
}

/// The view of a game service error of the two kinds registration gives.
pub open spec fn error_view(e: GameServiceError) -> Option<GameServiceErrorTextView> {
    match e {
        GameServiceError::InvalidAction(m) => Some(GameServiceErrorTextView::InvalidAction(m@)),
        GameServiceError::InvalidCharacterOperation(m) => Some(
            GameServiceErrorTextView::InvalidCharacterOperation(m@),
        ),
        _ => None,
    }
}

/// The registration plan of a turn, from who replied, in which stage, with
/// which action and result, for which target, and how many artifacts.
pub open spec fn registration_plan(
    agent_code: Seq<char>,
    stage: Seq<char>,
    action: AgentActionKind,
    has_result: bool,
    artifact_count: nat,
    character_target: bool,
    state: CharacterState,
) -> RegistrationPlanView {
    if agent_code != "visual_designer"@ {
        RegistrationPlanView::Nothing
    } else if !has_result {
        RegistrationPlanView::Refused(
            GameServiceErrorTextView::InvalidAction("视觉设计任务必须返回 payload.result"@),
        )
    } else if action == AgentActionKind::Blocked {
        RegistrationPlanView::Nothing
    } else if artifact_count == 0 {
        RegistrationPlanView::Refused(
            GameServiceErrorTextView::InvalidAction("图片执行成功时必须返回至少一个产物"@),
        )
    } else if stage_executor(stage) is None {
        RegistrationPlanView::Refused(
            GameServiceErrorTextView::InvalidAction("图片产物只能登记到 render 或 views 阶段"@),
        )
    } else if !character_target {
        RegistrationPlanView::Refused(
            GameServiceErrorTextView::InvalidAction("图片执行 Agent 只能为角色会话登记产物"@),
        )
    } else if registration_state(stage, state) is Err {
        RegistrationPlanView::Refused(
            GameServiceErrorTextView::InvalidCharacterOperation(
                "当前角色状态不允许登记 "@ + stage + " 产物"@,
            ),
        )
    } else if artifact_count != 1 {
        RegistrationPlanView::Refused(
            GameServiceErrorTextView::InvalidAction(
                "角色图片 Agent 每次必须且只能返回一张 2048x2048 图片"@,
            ),
        )
    } else {
        RegistrationPlanView::Register {
            executor: stage_executor(stage)->0,
            next_state: registration_state(stage, state)->Ok_0,
        }
    }
}

/// What registration decides before it looks at the artifacts' files.
#[derive(Debug, Clone, PartialEq, Eq)]
pub enum RegistrationPlan {
    Nothing,
    Register { executor: &'static str, next_state: Option<CharacterState> },
}

fn invalid_action(m: &str) -> (r: GameServiceError)
    ensures
        error_view(r) == Some(GameServiceErrorTextView::InvalidAction(m@)),
{
    GameServiceError::InvalidAction(owned(m))
}

/// Decides what a finished turn registers, before its artifacts are read.
pub fn plan_registration(
    agent_code: &str,
    stage: &str,
    action: AgentActionKind,
    has_result: bool,
    artifact_count: usize,
    character_target: bool,
    state: CharacterState,
) -> (r: Result<RegistrationPlan, GameServiceError>)
    ensures
        match registration_plan(agent_code@, stage@, action, has_result, artifact_count as nat, character_target, state) {
            RegistrationPlanView::Nothing => r == Ok::<RegistrationPlan, GameServiceError>(RegistrationPlan::Nothing),
            RegistrationPlanView::Register { executor, next_state } => r matches Ok(
                RegistrationPlan::Register { executor: e, next_state: n },
            ) && e@ == executor && n == next_state,
            RegistrationPlanView::Refused(v) => r matches Err(e) && error_view(e) == Some(v),
        },
{
    if !str_eq(agent_code, "visual_designer") {
        return Ok(RegistrationPlan::Nothing);
    }
    if !has_result {
        return Err(invalid_action("视觉设计任务必须返回 payload.result"));
    }
    match action {
        AgentActionKind::Blocked => {
            return Ok(RegistrationPlan::Nothing);
        },
        _ => {},
    }
    if artifact_count == 0 {
        return Err(invalid_action("图片执行成功时必须返回至少一个产物"));
    }
    let render = str_eq(stage, "render");
    let views = str_eq(stage, "views");
    proof {
        reveal_strlit("render");
        reveal_strlit("views");
    }
    let executor: &'static str = if render {
        "image_t2i"
    } else if views {
        "image_i2i"
    } else {
        return Err(invalid_action("图片产物只能登记到 render 或 views 阶段"));
    };
    if !character_target {
        return Err(invalid_action("图片执行 Agent 只能为角色会话登记产物"));
    }
    let next_state = match (render, state) {
        (true, CharacterState::S1SpecConfirmed) => Some(CharacterState::S2RenderGenerated),
        (true, CharacterState::S2RenderGenerated) => None,
        (false, CharacterState::S3RenderConfirmed) => Some(CharacterState::S4ViewsGenerated),
        (false, CharacterState::S4ViewsGenerated) => None,
        _ => {
            let mut m = owned("当前角色状态不允许登记 ");
            m.append(stage);
            m.append(" 产物");
            return Err(GameServiceError::InvalidCharacterOperation(m));
        },
    };
    if artifact_count != 1 {
        return Err(invalid_action("角色图片 Agent 每次必须且只能返回一张 2048x2048 图片"));
    }
    Ok(RegistrationPlan::Register { executor, next_state })
}

/// A path under the project's `tmp/` directory.
pub open spec fn under_tmp(p: Seq<char>) -> bool {
    p == "tmp"@ || (p.len() >= 4 && p.take(4) == "tmp/"@)
}

/// Why an artifact cannot be registered from `executor` in `stage`, if it
/// cannot; checked in order: its executor, its path, its size, then whether
/// the path stays inside the project.
pub open spec fn artifact_error(
    root: Seq<char>,
    stage: Seq<char>,
    executor: Seq<char>,
    a: ArtifactFields,
) -> Option<GameServiceErrorTextView> {
    match a.executor {
        None => Some(GameServiceErrorTextView::InvalidAction("视觉产物缺少内部 executor"@)),
        Some(e) => if e@ != executor {
            Some(
                GameServiceErrorTextView::InvalidAction(
                    stage + " 阶段必须使用 "@ + executor + " 内部执行器"@,
                ),
            )
        } else {
            match a.path {
                None => Some(GameServiceErrorTextView::InvalidAction("图片产物缺少 path"@)),
                Some(p) => if trim(p@).len() == 0 {
                    Some(GameServiceErrorTextView::InvalidAction("图片产物缺少 path"@))
                } else if !under_tmp(p@) {
                    Some(GameServiceErrorTextView::InvalidAction("图片执行产物必须写入项目 tmp/ 临时目录"@))
                } else if !(a.size matches Some(s) && s@ == "2048x2048"@) {
                    Some(GameServiceErrorTextView::InvalidAction("角色图片产物尺寸必须为 2048x2048"@))
                } else if !inside_project(p@) {
                    Some(
                        GameServiceErrorTextView::InvalidCharacterOperation("文件路径必须位于项目内"@),
                    )
                } else {
                    None
                },
            }
        },
    }
}

fn is_under_tmp(p: &str) -> (r: bool)
    ensures
        r == under_tmp(p@),
{
    let cs = chars_of(p);
    proof {
        reveal_strlit("tmp/");
    }
    if str_eq(p, "tmp") {
        return true;
    }
    if cs.len() < 4 {
        return false;
    }
    let ok = cs[0] == 't' && cs[1] == 'm' && cs[2] == 'p' && cs[3] == '/';
    proof {
        let t = "tmp/"@;
        assert(t.len() == 4 && t[0] == 't' && t[1] == 'm' && t[2] == 'p' && t[3] == '/');
        if ok {
            assert(cs@.take(4) =~= t);
        } else {
            assert(cs@.take(4) != t) by {
                if cs@.take(4) == t {
                    assert(cs@.take(4)[0] == t[0] && cs@.take(4)[1] == t[1]);
                    assert(cs@.take(4)[2] == t[2] && cs@.take(4)[3] == t[3]);
                }
            }
        }
    }
    ok
}

/// Checks one artifact and gives the project path of its file, joined under
/// `root`; its file is then checked on disk.
pub fn check_artifact(root: &str, stage: &str, executor: &str, artifact: &ArtifactFields) -> (r: Result<
    (String, String),
    GameServiceError,
>)
    ensures
        match artifact_error(root@, stage@, executor@, *artifact) {
            Some(v) => r matches Err(e) && error_view(e) == Some(v),
            None => r matches Ok((relative, joined)) && artifact.path matches Some(p) && relative@ == p@
                && joined@ == joined_path(root@, p@),
        },
{
    let e = match &artifact.executor {
        None => {
            return Err(invalid_action("视觉产物缺少内部 executor"));
        },
        Some(e) => e,
    };
    if !str_eq(e.as_str(), executor) {
        let mut m = owned(stage);
        m.append(" 阶段必须使用 ");
        m.append(executor);
        m.append(" 内部执行器");
        return Err(GameServiceError::InvalidAction(m));
    }
    let p = match &artifact.path {
        None => {
            return Err(invalid_action("图片产物缺少 path"));
        },
        Some(p) => p,
    };
    if is_blank(p.as_str()) {
        return Err(invalid_action("图片产物缺少 path"));
    }
    if !is_under_tmp(p.as_str()) {
        return Err(invalid_action("图片执行产物必须写入项目 tmp/ 临时目录"));
    }
    let size_ok = match &artifact.size {
        Some(s) => str_eq(s.as_str(), "2048x2048"),
        None => false,
    };
    if !size_ok {
        return Err(invalid_action("角色图片产物尺寸必须为 2048x2048"));
    }
    match safe_project_path(root, p.as_str()) {
        Ok(joined) => Ok((owned(p.as_str()), joined)),
        Err(e) => Err(e),
    }
}

/// The variant an image of `stage` is registered as: the artifact's, or for
/// the views a quad; the views must be a quad.
pub open spec fn variant_of(stage: Seq<char>, variant: Option<Seq<char>>) -> Result<Option<Seq<char>>, ()> {
    let v = match variant {
        Some(v) => Some(v),
        None => if stage == "views"@ { Some("quad"@) } else { None },
    };
    if stage == "views"@ && v != Some("quad"@) {
        Err(())
    } else {
        Ok(v)
    }
}

/// The variant an image of `stage` is registered as.
pub fn generation_variant(stage: &str, variant: Option<&str>) -> (r: Result<Option<String>, GameServiceError>)
    ensures
        match variant_of(stage@, opt_str_view(variant)) {
            Ok(v) => r matches Ok(x) && crate::workflow::opt_string_view(x) == v,
            Err(()) => r matches Err(e) && error_view(e) == Some(
                GameServiceErrorTextView::InvalidAction("四视图产物必须是单张 2×2 四宫格（variant=quad）"@),
            ),
        },
{
    let views = str_eq(stage, "views");
    let v = match variant {
        Some(v) => Some(owned(v)),
        None => if views { Some(owned("quad")) } else { None },
    };
    if views {
        let is_quad = match &v {
            Some(x) => str_eq(x.as_str(), "quad"),
            None => false,
        };
        if !is_quad {
            return Err(invalid_action("四视图产物必须是单张 2×2 四宫格（variant=quad）"));
        }
    }
    Ok(v)
}

} // verus!
