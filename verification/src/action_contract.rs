//! The per-turn action contract: which action/payload shapes an agent may return,
//! and the text that tells it so.

use vstd::prelude::*;
use crate::action::{owned, str_eq};
use crate::domain::{AgentAction, AgentActionKind, AgentActionPayload, AgentResultStatus};
use crate::text::{
    count_matches, decimal, find_from, is_ws, lead, occurs_at, push_chars, string_views, trail, trim,
    trim_end, u64_decimal,
};

verus! {

/// What an agent is told about the actions it may return this turn.
#[derive(Debug, Clone, PartialEq, Eq)]
pub struct ActionContractProfile {
    pub instruction: String,
    pub schema: String,
    pub examples: String,
}

/// The payload has no parts at all.
pub open spec fn payload_is_empty(p: AgentActionPayload) -> bool {
    p.choices is None && p.progress is None && p.drafts is None && p.memories is None && p.naming is None
        && p.asset_specs is None && p.verdict is None && p.result is None
}

/// The payload has non-empty choices and nothing but (optionally) progress.
pub open spec fn payload_has_only_choices(p: AgentActionPayload) -> bool {
    (p.choices matches Some(c) && c.len() > 0) && p.drafts is None && p.memories is None && p.naming is None
        && p.asset_specs is None && p.verdict is None && p.result is None
}

/// The payload has non-empty drafts and nothing but (optionally) progress.
pub open spec fn payload_has_only_drafts(p: AgentActionPayload) -> bool {
    (p.drafts matches Some(d) && d.len() > 0) && p.choices is None && p.memories is None && p.naming is None
        && p.asset_specs is None && p.verdict is None && p.result is None
}

/// The payload has nothing but (optionally) a verdict.
pub open spec fn payload_has_only_verdict(p: AgentActionPayload) -> bool {
    p.choices is None && p.progress is None && p.drafts is None && p.memories is None && p.naming is None
        && p.asset_specs is None && p.result is None
}

/// The payload has nothing but (optionally) a result.
pub open spec fn payload_has_only_result(p: AgentActionPayload) -> bool {
    p.choices is None && p.progress is None && p.drafts is None && p.memories is None && p.naming is None
        && p.asset_specs is None && p.verdict is None
}

pub open spec fn allowed_contains(allowed: Seq<String>, t: Seq<char>) -> bool {
    exists|i: int| 0 <= i < allowed.len() && (#[trigger] allowed[i])@ == t
}

/// Whether an agent's action fits its profile; `None` for agents without a profile.
pub open spec fn profile_accepts(agent: Seq<char>, allowed: Seq<String>, a: AgentAction) -> Option<bool> {
    let p = a.payload;
    if agent == "studio_director"@ {
        Some(match a.action {
            AgentActionKind::Handoff => (a.target_agent matches Some(t) && allowed_contains(allowed, t@))
                && payload_is_empty(p),
            AgentActionKind::AskUser => payload_has_only_choices(p),
            AgentActionKind::Done => payload_is_empty(p),
            AgentActionKind::Blocked => payload_is_empty(p),
        })
    } else if agent == "spec_writer"@ {
        Some(match a.action {
            AgentActionKind::AskUser => payload_has_only_choices(p) || payload_has_only_drafts(p),
            AgentActionKind::Blocked => payload_is_empty(p),
            _ => false,
        })
    } else if agent == "spec_reviewer"@ {
        Some(match a.action {
            AgentActionKind::Handoff => (a.target_agent matches Some(t) && allowed_contains(allowed, t@))
                && p.verdict is Some && payload_has_only_verdict(p),
            AgentActionKind::Blocked => payload_is_empty(p),
            _ => false,
        })
    } else if agent == "visual_designer"@ {
        Some(match a.action {
            AgentActionKind::Handoff => (a.target_agent matches Some(t) && allowed_contains(allowed, t@)) && (
            p.result matches Some(r) && r.status == AgentResultStatus::Success) && payload_has_only_result(p),
            AgentActionKind::Blocked => (p.result matches Some(r) && r.status == AgentResultStatus::Failed)
                && payload_has_only_result(p),
            AgentActionKind::AskUser => payload_has_only_choices(p),
            AgentActionKind::Done => false,
        })
    } else {
        None
    }
}

/// The message for an action that does not fit the agent's profile.
pub open spec fn profile_error_message(agent: Seq<char>, director: Seq<char>) -> Seq<char> {
    "当前 Agent "@ + agent + " 的 action/payload 组合不属于本轮 ActionContractProfile；director="@ + director
}

fn payload_empty(p: &AgentActionPayload) -> (r: bool)
    ensures
        r == payload_is_empty(*p),
{
    p.choices.is_none() && p.progress.is_none() && p.drafts.is_none() && p.memories.is_none() && p.naming.is_none()
        && p.asset_specs.is_none() && p.verdict.is_none() && p.result.is_none()
}

fn only_choices(p: &AgentActionPayload) -> (r: bool)
    ensures
        r == payload_has_only_choices(*p),
{
    let has = match &p.choices {
        Some(c) => c.len() > 0,
        None => false,
    };
    has && p.drafts.is_none() && p.memories.is_none() && p.naming.is_none() && p.asset_specs.is_none()
        && p.verdict.is_none() && p.result.is_none()
}

fn only_drafts(p: &AgentActionPayload) -> (r: bool)
    ensures
        r == payload_has_only_drafts(*p),
{
    let has = match &p.drafts {
        Some(d) => d.len() > 0,
        None => false,
    };
    has && p.choices.is_none() && p.memories.is_none() && p.naming.is_none() && p.asset_specs.is_none()
        && p.verdict.is_none() && p.result.is_none()
}

fn only_verdict(p: &AgentActionPayload) -> (r: bool)
    ensures
        r == payload_has_only_verdict(*p),
{
    p.choices.is_none() && p.progress.is_none() && p.drafts.is_none() && p.memories.is_none() && p.naming.is_none()
        && p.asset_specs.is_none() && p.result.is_none()
}

fn only_result(p: &AgentActionPayload) -> (r: bool)
    ensures
        r == payload_has_only_result(*p),
{
    p.choices.is_none() && p.progress.is_none() && p.drafts.is_none() && p.memories.is_none() && p.naming.is_none()
        && p.asset_specs.is_none() && p.verdict.is_none()
}

fn list_contains(allowed: &[String], t: &String) -> (r: bool)
    ensures
        r == allowed_contains(allowed@, t@),
{
    for i in 0..allowed.len()
        invariant
            forall|k: int| 0 <= k < i ==> allowed@[k]@ != t@,
    {
        if allowed[i] == *t {
            assert((allowed@[i as int])@ == t@);
            return true;
        }
    }
    false
}

fn result_with_status(p: &AgentActionPayload, status: AgentResultStatus) -> (r: bool)
    ensures
        r == (p.result matches Some(x) && x.status == status),
{
    match &p.result {
        Some(x) => x.status == status,
        None => false,
    }
}

/// Checks an action against the action/payload shapes that the agent's profile allows.
///
/// Agents without a profile accept every action.
pub fn validate_action_profile(
    agent_code: &str,
    director_agent: &str,
    allowed_handoffs: &[String],
    action: &AgentAction,
) -> (r: Result<(), String>)
    ensures
        match profile_accepts(agent_code@, allowed_handoffs@, *action) {
            Some(false) => r matches Err(m) && m@ == profile_error_message(agent_code@, director_agent@),
            _ => r is Ok,
        },
{
    let p = &action.payload;
    let valid = if str_eq(agent_code, "studio_director") {
        match action.action {
            AgentActionKind::Handoff => {
                let target_ok = match &action.target_agent {
                    Some(t) => list_contains(allowed_handoffs, t),
                    None => false,
                };
                target_ok && payload_empty(p)
            },
            AgentActionKind::AskUser => only_choices(p),
            AgentActionKind::Done => payload_empty(p),
            AgentActionKind::Blocked => payload_empty(p),
        }
    } else if str_eq(agent_code, "spec_writer") {
        match action.action {
            AgentActionKind::AskUser => only_choices(p) || only_drafts(p),
            AgentActionKind::Blocked => payload_empty(p),
            _ => false,
        }
    } else if str_eq(agent_code, "spec_reviewer") {
        match action.action {
            AgentActionKind::Handoff => {
                let target_ok = match &action.target_agent {
                    Some(t) => list_contains(allowed_handoffs, t),
                    None => false,
                };
                target_ok && p.verdict.is_some() && only_verdict(p)
            },
            AgentActionKind::Blocked => payload_empty(p),
            _ => false,
        }
    } else if str_eq(agent_code, "visual_designer") {
        match action.action {
            AgentActionKind::Handoff => {
                let target_ok = match &action.target_agent {
                    Some(t) => list_contains(allowed_handoffs, t),
                    None => false,
                };
                target_ok && result_with_status(p, AgentResultStatus::Success) && only_result(p)
            },
            AgentActionKind::Blocked => result_with_status(p, AgentResultStatus::Failed) && only_result(p),
            AgentActionKind::AskUser => only_choices(p),
            AgentActionKind::Done => false,
        }
    } else {
        return Ok(());
    };
    if valid {
        Ok(())
    } else {
        let mut m = owned("当前 Agent ");
        m.append(agent_code);
        m.append(" 的 action/payload 组合不属于本轮 ActionContractProfile；director=");
        m.append(director_agent);
        Err(m)
    }
}

/// The action contract block handed to an agent: its version, the instruction, the
/// schema and the examples, in this order.
pub open spec fn action_contract_text(
    instruction: Seq<char>,
    schema: Seq<char>,
    examples: Seq<char>,
    version: nat,
) -> Seq<char> {
    "<action_contract version=\""@ + decimal(version) + "\">\n"@ + instruction + "\n\nJSON Schema：\n"@ + schema
        + "\n\n本轮合法完整示例：\n"@ + examples + "\n</action_contract>"@
}

/// Renders the action contract block.
pub fn render_action_contract(instruction: &str, schema: &str, examples: &str, version: u64) -> (r: String)
    ensures
        r@ == action_contract_text(instruction@, schema@, examples@, version as nat),
{
    let mut s = owned("<action_contract version=\"");
    let digits = u64_decimal(version);
    push_chars(&mut s, digits.as_slice());
    s.append("\">\n");
    s.append(instruction);
    s.append("\n\nJSON Schema：\n");
    s.append(schema);
    s.append("\n\n本轮合法完整示例：\n");
    s.append(examples);
    s.append("\n</action_contract>");
    s
}

/// `parts` joined with `sep` between consecutive parts.
pub open spec fn join(parts: Seq<Seq<char>>, sep: Seq<char>) -> Seq<char>
    decreases parts.len(),
{
    if parts.len() == 0 {
        Seq::empty()
    } else if parts.len() == 1 {
        parts[0]
    } else {
        join(parts.drop_last(), sep) + sep + parts.last()
    }
}

/// Joins `parts` with `sep`.
pub fn join_strings(parts: &[String], sep: &str) -> (r: String)
    ensures
        r@ == join(string_views(parts@), sep@),
{
    let mut r = String::new();
    let ghost all = string_views(parts@);
    for i in 0..parts.len()
        invariant
            all == string_views(parts@),
            r@ == join(all.take(i as int), sep@),
    {
        assert(all.take(i + 1).drop_last() =~= all.take(i as int));
        if i != 0 {
            r.append(sep);
        }
        r.append(parts[i].as_str());
        assert(all.take(i + 1).last() == parts@[i as int]@);
        assert(i == 0 ==> all.take(1) =~= seq![parts@[0]@]);
    }
    assert(all.take(parts.len() as int) =~= all);
    r
}

/// The payload rule line of the instruction for an agent.
pub open spec fn payload_rule(agent: Seq<char>) -> Seq<char> {
    if agent == "studio_director"@ {
        "handoff 的 payload 必须为 {}；ask_user 的 choices[] 每项必须且只能包含 item、options、recommended、multiple。"@
    } else if agent == "spec_writer"@ {
        "对焦时只输出 ask_user + choices；草稿完成时只输出 ask_user + drafts 交由用户确认，drafts[] 包含 artifact_slot、target_path、content、based_on_hash，角色规格的 artifact_slot 固定为 character_spec。"@
    } else if agent == "spec_reviewer"@ {
        "成功审校只输出 handoff + verdict 交回总管；verdict 必须包含 token、subject_id、decision、sections、constraints，后续确认或回派由系统执行。"@
    } else if agent == "visual_designer"@ {
        "生成成功只输出 handoff + result 交回总管；result 必须包含 status、error、revision_scope、focus_changes_summary，禁止返回 path、references、executor、prompt 或其他产物路径字段；后续确认门禁由系统创建。"@
    } else {
        "只使用 schema 中定义的字段；不需要的 payload 字段必须省略。"@
    }
}

/// The handoff targets as listed in the instruction.
pub open spec fn handoff_targets(allowed: Seq<String>) -> Seq<char> {
    if allowed.len() == 0 {
        "无；本轮不得输出 handoff"@
    } else {
        join(string_views(allowed), "、"@)
    }
}

/// The instruction an agent receives about its action block this turn.
pub open spec fn instruction_text(agent: Seq<char>, stage: Seq<char>, allowed: Seq<String>) -> Seq<char> {
    "当前 Agent："@ + agent + "；当前阶段："@ + stage + "；允许 handoff 目标："@ + handoff_targets(allowed)
        + INSTRUCTION_BODY@ + payload_rule(agent) + "运行时仍会执行严格字段、组合和业务校验。"@
}

pub const INSTRUCTION_BODY: &'static str = "。\n请先阅读 game_context.agentRoleDescriptions，按其中的角色说明与职责边界协作；只有 handoffAllowed 为 true 的 Agent 才能作为 handoff 目标，internalExecutor 仅供系统内部执行。项目会话还必须严格遵守 game_context.projectWorkflowContext 和 game_context.currentTask；不得跳步、重做已完成步骤或替 currentTask.ownerAgent 产出专业内容。\n每次回复末尾必须且只能有一个 Action 块，Action 块后不得再输出内容。顶层必须且只能包含 action、target_agent、reason、payload。";

fn payload_rule_for(agent: &str) -> (r: &'static str)
    ensures
        r@ == payload_rule(agent@),
{
    if str_eq(agent, "studio_director") {
        "handoff 的 payload 必须为 {}；ask_user 的 choices[] 每项必须且只能包含 item、options、recommended、multiple。"
    } else if str_eq(agent, "spec_writer") {
        "对焦时只输出 ask_user + choices；草稿完成时只输出 ask_user + drafts 交由用户确认，drafts[] 包含 artifact_slot、target_path、content、based_on_hash，角色规格的 artifact_slot 固定为 character_spec。"
    } else if str_eq(agent, "spec_reviewer") {
        "成功审校只输出 handoff + verdict 交回总管；verdict 必须包含 token、subject_id、decision、sections、constraints，后续确认或回派由系统执行。"
    } else if str_eq(agent, "visual_designer") {
        "生成成功只输出 handoff + result 交回总管；result 必须包含 status、error、revision_scope、focus_changes_summary，禁止返回 path、references、executor、prompt 或其他产物路径字段；后续确认门禁由系统创建。"
    } else {
        "只使用 schema 中定义的字段；不需要的 payload 字段必须省略。"
    }
}

/// The instruction part of an agent's action contract.
pub fn instruction(agent_code: &str, stage: &str, director_agent: &str, allowed_handoffs: &[String]) -> (r: String)
    ensures
        r@ == instruction_text(agent_code@, stage@, allowed_handoffs@),
{
    let mut s = owned("当前 Agent：");
    s.append(agent_code);
    s.append("；当前阶段：");
    s.append(stage);
    s.append("；允许 handoff 目标：");
    if allowed_handoffs.len() == 0 {
        s.append("无；本轮不得输出 handoff");
    } else {
        let targets = join_strings(allowed_handoffs, "、");
        s.append(targets.as_str());
    }
    s.append(INSTRUCTION_BODY);
    s.append(payload_rule_for(agent_code));
    s.append("运行时仍会执行严格字段、组合和业务校验。");
    s
}


/// What a branch of the profile schema allows as the target agent.
#[derive(Debug, Clone, Copy, PartialEq, Eq, Structural)]
pub enum TargetSchema {
    /// The target must be null.
    Null,
    /// The target must be one of the allowed handoff targets.
    AllowedHandoffs,
}

/// What a branch of the profile schema allows as the payload.
#[derive(Debug, Clone, Copy, PartialEq, Eq, Structural)]
pub enum PayloadSchema {
    Empty,
    Choices,
    Drafts,
    Verdict,
    /// A visual result that succeeded for the stage (views or else render).
    VisualSuccess { views: bool },
    VisualFailure,
}

/// The kind of action a branch is for.
#[derive(Debug, Clone, Copy, PartialEq, Eq, Structural)]
pub struct SchemaBranch {
    pub action: AgentActionKind,
    pub target: TargetSchema,
    pub payload: PayloadSchema,
}

/// A project task that asks the director for exactly one specialist step.
pub open spec fn is_specialist_task(task: Option<Seq<char>>) -> bool {
    task == Some("draftProjectArtBible"@) || task == Some("collectProjectNaming"@)
}

/// A project task with nothing left to hand off.
pub open spec fn is_settled_task(task: Option<Seq<char>>) -> bool {
    task == Some("confirmArtBible"@) || task == Some("completed"@)
}

pub open spec fn branch(action: AgentActionKind, target: TargetSchema, payload: PayloadSchema) -> SchemaBranch {
    SchemaBranch { action, target, payload }
}

/// The branches of an agent's profile schema, in order; `None` when the agent
/// has no profile and the whole action schema applies.
pub open spec fn schema_plan(
    agent: Seq<char>,
    task: Option<Seq<char>>,
    stage: Seq<char>,
    has_handoffs: bool,
) -> Option<Seq<SchemaBranch>> {
    let handoff = if has_handoffs {
        seq![branch(AgentActionKind::Handoff, TargetSchema::AllowedHandoffs, PayloadSchema::Empty)]
    } else {
        Seq::empty()
    };
    let blocked = branch(AgentActionKind::Blocked, TargetSchema::Null, PayloadSchema::Empty);
    if agent == "studio_director"@ && is_specialist_task(task) {
        Some(handoff.push(blocked))
    } else if agent == "studio_director"@ && is_settled_task(task) {
        Some(seq![branch(AgentActionKind::Done, TargetSchema::Null, PayloadSchema::Empty), blocked])
    } else if agent == "art_bible_designer"@ && task == Some("collectProjectNaming"@) {
        Some(seq![branch(AgentActionKind::AskUser, TargetSchema::Null, PayloadSchema::Choices), blocked])
    } else if agent == "studio_director"@ {
        Some(
            handoff + seq![
                branch(AgentActionKind::AskUser, TargetSchema::Null, PayloadSchema::Choices),
                branch(AgentActionKind::Done, TargetSchema::Null, PayloadSchema::Empty),
                blocked,
            ],
        )
    } else if agent == "spec_writer"@ {
        Some(
            seq![
                branch(AgentActionKind::AskUser, TargetSchema::Null, PayloadSchema::Choices),
                branch(AgentActionKind::AskUser, TargetSchema::Null, PayloadSchema::Drafts),
                blocked,
            ],
        )
    } else if agent == "spec_reviewer"@ {
        Some(seq![branch(AgentActionKind::Handoff, TargetSchema::AllowedHandoffs, PayloadSchema::Verdict), blocked])
    } else if agent == "visual_designer"@ {
        Some(
            seq![
                branch(
                    AgentActionKind::Handoff,
                    TargetSchema::AllowedHandoffs,
                    PayloadSchema::VisualSuccess { views: stage == "views"@ },
                ),
                branch(AgentActionKind::Blocked, TargetSchema::Null, PayloadSchema::VisualFailure),
                branch(AgentActionKind::AskUser, TargetSchema::Null, PayloadSchema::Choices),
            ],
        )
    } else {
        None
    }
}

fn make_branch(action: AgentActionKind, target: TargetSchema, payload: PayloadSchema) -> (r: SchemaBranch)
    ensures
        r == branch(action, target, payload),
{
    SchemaBranch { action, target, payload }
}

fn task_is(task: Option<&str>, name: &str) -> (r: bool)
    ensures
        r == (crate::workflow::opt_str_view(task) == Some(name@)),
{
    match task {
        Some(t) => str_eq(t, name),
        None => false,
    }
}

/// The branches of an agent's profile schema for this turn, in order; `None`
/// when the agent has no profile.
pub fn schema_branches(agent_code: &str, project_task: Option<&str>, stage: &str, allowed_handoffs: &[String]) -> (r:
    Option<Vec<SchemaBranch>>)
    ensures
        match schema_plan(
            agent_code@,
            crate::workflow::opt_str_view(project_task),
            stage@,
            allowed_handoffs@.len() > 0,
        ) {
            Some(plan) => r matches Some(v) && v@ == plan,
            None => r is None,
        },
{
    let director = str_eq(agent_code, "studio_director");
    let blocked = make_branch(AgentActionKind::Blocked, TargetSchema::Null, PayloadSchema::Empty);
    let mut out: Vec<SchemaBranch> = Vec::new();
    if director && (task_is(project_task, "draftProjectArtBible") || task_is(
        project_task,
        "collectProjectNaming",
    )) {
        if allowed_handoffs.len() > 0 {
            out.push(make_branch(AgentActionKind::Handoff, TargetSchema::AllowedHandoffs, PayloadSchema::Empty));
        }
        out.push(blocked);
        assert(out@ =~= schema_plan(
            agent_code@,
            crate::workflow::opt_str_view(project_task),
            stage@,
            allowed_handoffs@.len() > 0,
        )->0);
        return Some(out);
    }
    if director && (task_is(project_task, "confirmArtBible") || task_is(project_task, "completed")) {
        out.push(make_branch(AgentActionKind::Done, TargetSchema::Null, PayloadSchema::Empty));
        out.push(blocked);
        assert(out@ =~= seq![branch(AgentActionKind::Done, TargetSchema::Null, PayloadSchema::Empty), blocked]);
        return Some(out);
    }
    if str_eq(agent_code, "art_bible_designer") && task_is(project_task, "collectProjectNaming") {
        out.push(make_branch(AgentActionKind::AskUser, TargetSchema::Null, PayloadSchema::Choices));
        out.push(blocked);
        assert(out@ =~= seq![branch(AgentActionKind::AskUser, TargetSchema::Null, PayloadSchema::Choices), blocked]);
        return Some(out);
    }
    if director {
        if allowed_handoffs.len() > 0 {
            out.push(make_branch(AgentActionKind::Handoff, TargetSchema::AllowedHandoffs, PayloadSchema::Empty));
        }
        out.push(make_branch(AgentActionKind::AskUser, TargetSchema::Null, PayloadSchema::Choices));
        out.push(make_branch(AgentActionKind::Done, TargetSchema::Null, PayloadSchema::Empty));
        out.push(blocked);
        assert(out@ =~= schema_plan(
            agent_code@,
            crate::workflow::opt_str_view(project_task),
            stage@,
            allowed_handoffs@.len() > 0,
        )->0);
        return Some(out);
    }
    if str_eq(agent_code, "spec_writer") {
        out.push(make_branch(AgentActionKind::AskUser, TargetSchema::Null, PayloadSchema::Choices));
        out.push(make_branch(AgentActionKind::AskUser, TargetSchema::Null, PayloadSchema::Drafts));
        out.push(blocked);
        assert(out@ =~= schema_plan(
            agent_code@,
            crate::workflow::opt_str_view(project_task),
            stage@,
            allowed_handoffs@.len() > 0,
        )->0);
        return Some(out);
    }
    if str_eq(agent_code, "spec_reviewer") {
        out.push(make_branch(AgentActionKind::Handoff, TargetSchema::AllowedHandoffs, PayloadSchema::Verdict));
        out.push(blocked);
        assert(out@ =~= seq![
            branch(AgentActionKind::Handoff, TargetSchema::AllowedHandoffs, PayloadSchema::Verdict),
            blocked,
        ]);
        return Some(out);
    }
    if str_eq(agent_code, "visual_designer") {
        let views = str_eq(stage, "views");
        out.push(
            make_branch(AgentActionKind::Handoff, TargetSchema::AllowedHandoffs, PayloadSchema::VisualSuccess { views }),
        );
        out.push(make_branch(AgentActionKind::Blocked, TargetSchema::Null, PayloadSchema::VisualFailure));
        out.push(make_branch(AgentActionKind::AskUser, TargetSchema::Null, PayloadSchema::Choices));
        assert(out@ =~= schema_plan(
            agent_code@,
            crate::workflow::opt_str_view(project_task),
            stage@,
            allowed_handoffs@.len() > 0,
        )->0);
        return Some(out);
    }
    None
}

/// The schema definitions a profile keeps, by name; `None` keeps them all.
pub open spec fn definition_plan(agent: Seq<char>) -> Option<Seq<Seq<char>>> {
    if agent == "studio_director"@ {
        Some(seq!["ChoiceGroup"@])
    } else if agent == "spec_writer"@ || agent == "visual_designer"@ {
        Some(seq!["AgentProgress"@, "ChoiceGroup"@])
    } else if agent == "spec_reviewer"@ {
        Some(seq!["AgentVerdict"@, "VerdictConstraint"@, "VerdictConstraintScope"@])
    } else {
        None
    }
}

/// The schema definitions an agent's profile keeps, by name; `None` keeps them all.
pub fn schema_definition_names(agent_code: &str) -> (r: Option<Vec<&'static str>>)
    ensures
        match definition_plan(agent_code@) {
            Some(names) => r matches Some(v) && v@.map_values(|n: &'static str| n@) == names,
            None => r is None,
        },
{
    let mut v: Vec<&'static str> = Vec::new();
    if str_eq(agent_code, "studio_director") {
        v.push("ChoiceGroup");
        assert(v@.map_values(|n: &'static str| n@) =~= seq!["ChoiceGroup"@]);
        Some(v)
    } else if str_eq(agent_code, "spec_writer") || str_eq(agent_code, "visual_designer") {
        v.push("AgentProgress");
        v.push("ChoiceGroup");
        assert(v@.map_values(|n: &'static str| n@) =~= seq!["AgentProgress"@, "ChoiceGroup"@]);
        Some(v)
    } else if str_eq(agent_code, "spec_reviewer") {
        v.push("AgentVerdict");
        v.push("VerdictConstraint");
        v.push("VerdictConstraintScope");
        assert(v@.map_values(|n: &'static str| n@) =~= seq![
            "AgentVerdict"@,
            "VerdictConstraint"@,
            "VerdictConstraintScope"@,
        ]);
        Some(v)
    } else {
        None
    }
}

/// One example action shown in an agent's contract.
#[derive(Debug, Clone, PartialEq, Eq)]
pub enum ContractExample {
    /// The director hands the project task to this specialist.
    ProjectTaskHandoff(String),
    /// No specialist can take the project task.
    ProjectTaskBlocked,
    /// The project is settled and the director is done.
    ProjectSettled,
    /// The project name and code are put to the user.
    ProjectNamingChoices,
    DirectorHandoff(String),
    DirectorAskUser,
    DirectorDone,
    SpecWriterAskUser,
    /// The spec writer puts its draft to the user.
    SpecWriterDrafts,
    /// The checking agent hands its verdict back to the director.
    SpecReviewerVerdict,
    /// A visual candidate (for the views stage or else the render) goes back
    /// to the director.
    VisualHandBack { views: bool },
    VisualBlocked,
    /// A specialist hands its finished task back to the director.
    GenericHandBack,
    /// A specialist cannot go on.
    SpecialistBlocked,
}

pub enum ContractExampleView {
    ProjectTaskHandoff(Seq<char>),
    ProjectTaskBlocked,
    ProjectSettled,
    ProjectNamingChoices,
    DirectorHandoff(Seq<char>),
    DirectorAskUser,
    DirectorDone,
    SpecWriterAskUser,
    SpecWriterDrafts,
    SpecReviewerVerdict,
    VisualHandBack { views: bool },
    VisualBlocked,
    GenericHandBack,
    SpecialistBlocked,
}

impl View for ContractExample {
    type V = ContractExampleView;

    open spec fn view(&self) -> ContractExampleView {
        match self {
            ContractExample::ProjectTaskHandoff(t) => ContractExampleView::ProjectTaskHandoff(t@),
            ContractExample::ProjectTaskBlocked => ContractExampleView::ProjectTaskBlocked,
            ContractExample::ProjectSettled => ContractExampleView::ProjectSettled,
            ContractExample::ProjectNamingChoices => ContractExampleView::ProjectNamingChoices,
            ContractExample::DirectorHandoff(t) => ContractExampleView::DirectorHandoff(t@),
            ContractExample::DirectorAskUser => ContractExampleView::DirectorAskUser,
            ContractExample::DirectorDone => ContractExampleView::DirectorDone,
            ContractExample::SpecWriterAskUser => ContractExampleView::SpecWriterAskUser,
            ContractExample::SpecWriterDrafts => ContractExampleView::SpecWriterDrafts,
            ContractExample::SpecReviewerVerdict => ContractExampleView::SpecReviewerVerdict,
            ContractExample::VisualHandBack { views } => ContractExampleView::VisualHandBack { views: *views },
            ContractExample::VisualBlocked => ContractExampleView::VisualBlocked,
            ContractExample::GenericHandBack => ContractExampleView::GenericHandBack,
            ContractExample::SpecialistBlocked => ContractExampleView::SpecialistBlocked,
        }
    }
}

pub open spec fn example_views(s: Seq<ContractExample>) -> Seq<ContractExampleView> {
    s.map_values(|e: ContractExample| e@)
}

/// The examples in an agent's contract, in order. A specialist's finished
/// work goes back to the director, shown only where the director is among
/// the agents it may hand off to; a spec writer puts its drafts to the user.
pub open spec fn example_plan(
    agent: Seq<char>,
    task: Option<Seq<char>>,
    stage: Seq<char>,
    director: Seq<char>,
    allowed: Seq<Seq<char>>,
) -> Seq<ContractExampleView> {
    let back = allowed.contains(director);
    if agent == "studio_director"@ && is_specialist_task(task) {
        if allowed.len() > 0 {
            seq![ContractExampleView::ProjectTaskHandoff(allowed[0])]
        } else {
            seq![ContractExampleView::ProjectTaskBlocked]
        }
    } else if agent == "studio_director"@ && is_settled_task(task) {
        seq![ContractExampleView::ProjectSettled]
    } else if agent == "art_bible_designer"@ && task == Some("collectProjectNaming"@) {
        seq![ContractExampleView::ProjectNamingChoices]
    } else if agent == "studio_director"@ {
        (if allowed.len() > 0 {
            seq![ContractExampleView::DirectorHandoff(allowed[0])]
        } else {
            Seq::empty()
        }) + seq![ContractExampleView::DirectorAskUser, ContractExampleView::DirectorDone]
    } else if agent == "spec_writer"@ {
        seq![ContractExampleView::SpecWriterAskUser, ContractExampleView::SpecWriterDrafts]
    } else if agent == "spec_reviewer"@ {
        (if back {
            seq![ContractExampleView::SpecReviewerVerdict]
        } else {
            Seq::empty()
        }) + seq![ContractExampleView::SpecialistBlocked]
    } else if agent == "visual_designer"@ {
        (if back {
            seq![ContractExampleView::VisualHandBack { views: stage == "views"@ }]
        } else {
            Seq::empty()
        }) + seq![ContractExampleView::VisualBlocked]
    } else if back {
        seq![ContractExampleView::GenericHandBack]
    } else {
        seq![ContractExampleView::SpecialistBlocked]
    }
}

/// The examples in an agent's contract for this turn, in order.
pub fn contract_examples(
    agent_code: &str,
    project_task: Option<&str>,
    stage: &str,
    director_agent: &str,
    allowed_handoffs: &[String],
) -> (r: Vec<ContractExample>)
    ensures
        example_views(r@) == example_plan(
            agent_code@,
            crate::workflow::opt_str_view(project_task),
            stage@,
            director_agent@,
            string_views(allowed_handoffs@),
        ),
{
    let ghost plan = example_plan(
        agent_code@,
        crate::workflow::opt_str_view(project_task),
        stage@,
        director_agent@,
        string_views(allowed_handoffs@),
    );
    let back = crate::action::contains_string(allowed_handoffs, &owned(director_agent));
    let director = str_eq(agent_code, "studio_director");
    let mut out: Vec<ContractExample> = Vec::new();
    if director && (task_is(project_task, "draftProjectArtBible") || task_is(
        project_task,
        "collectProjectNaming",
    )) {
        if allowed_handoffs.len() > 0 {
            out.push(ContractExample::ProjectTaskHandoff(owned(allowed_handoffs[0].as_str())));
        } else {
            out.push(ContractExample::ProjectTaskBlocked);
        }
    } else if director && (task_is(project_task, "confirmArtBible") || task_is(project_task, "completed")) {
        out.push(ContractExample::ProjectSettled);
    } else if str_eq(agent_code, "art_bible_designer") && task_is(project_task, "collectProjectNaming") {
        out.push(ContractExample::ProjectNamingChoices);
    } else if director {
        if allowed_handoffs.len() > 0 {
            out.push(ContractExample::DirectorHandoff(owned(allowed_handoffs[0].as_str())));
        }
        out.push(ContractExample::DirectorAskUser);
        out.push(ContractExample::DirectorDone);
    } else if str_eq(agent_code, "spec_writer") {
        out.push(ContractExample::SpecWriterAskUser);
        out.push(ContractExample::SpecWriterDrafts);
    } else if str_eq(agent_code, "spec_reviewer") {
        if back {
            out.push(ContractExample::SpecReviewerVerdict);
        }
        out.push(ContractExample::SpecialistBlocked);
    } else if str_eq(agent_code, "visual_designer") {
        if back {
            out.push(ContractExample::VisualHandBack { views: str_eq(stage, "views") });
        }
        out.push(ContractExample::VisualBlocked);
    } else if back {
        out.push(ContractExample::GenericHandBack);
    } else {
        out.push(ContractExample::SpecialistBlocked);
    }
    assert(example_views(out@) =~= plan);
    out
}

// --- the example actions ---------------------------------------------------------

/// The kind of action an example shows.
pub open spec fn example_kind(e: ContractExampleView) -> AgentActionKind {
    match e {
        ContractExampleView::ProjectTaskHandoff(_) | ContractExampleView::DirectorHandoff(_)
        | ContractExampleView::SpecReviewerVerdict | ContractExampleView::VisualHandBack { .. }
        | ContractExampleView::GenericHandBack => AgentActionKind::Handoff,
        ContractExampleView::ProjectTaskBlocked | ContractExampleView::VisualBlocked
        | ContractExampleView::SpecialistBlocked => AgentActionKind::Blocked,
        ContractExampleView::ProjectSettled | ContractExampleView::DirectorDone => AgentActionKind::Done,
        ContractExampleView::ProjectNamingChoices | ContractExampleView::DirectorAskUser
        | ContractExampleView::SpecWriterAskUser | ContractExampleView::SpecWriterDrafts => AgentActionKind::AskUser,
    }
}

/// The agent an example hands off to, if it hands off.
pub open spec fn example_target(e: ContractExampleView, director: Seq<char>) -> Option<Seq<char>> {
    match e {
        ContractExampleView::ProjectTaskHandoff(t) => Some(t),
        ContractExampleView::DirectorHandoff(t) => Some(t),
        ContractExampleView::SpecReviewerVerdict | ContractExampleView::VisualHandBack { .. }
        | ContractExampleView::GenericHandBack => Some(director),
        _ => None,
    }
}

/// The examples that only the director shows.
pub open spec fn director_example(e: ContractExampleView) -> bool {
    match e {
        ContractExampleView::ProjectTaskHandoff(_) | ContractExampleView::ProjectTaskBlocked
        | ContractExampleView::ProjectSettled | ContractExampleView::DirectorHandoff(_)
        | ContractExampleView::DirectorAskUser | ContractExampleView::DirectorDone => true,
        _ => false,
    }
}

/// A text with no line break and no sentence end anywhere.
pub open spec fn one_clause(s: Seq<char>) -> bool {
    forall|i: int| 0 <= i < s.len() ==> #[trigger] s[i] != '\n' && s[i] != '\r' && !crate::action::is_terminator(s[i])
}

proof fn lemma_ends_trim(s: Seq<char>)
    requires
        s.len() > 0,
        !crate::text::is_ws(s[0]),
        !crate::text::is_ws(s[s.len() - 1]),
    ensures
        crate::text::trim(s) == s,
{
    assert(crate::text::lead(s, 0) == 0);
    assert(crate::text::trail(s, s.len() as int, 0) == s.len());
    assert(s.subrange(0, s.len() as int) =~= s);
}

proof fn lemma_reason_ok(s: Seq<char>)
    requires
        s.len() > 0,
        !crate::text::is_ws(s[0]),
        !crate::text::is_ws(s[s.len() - 1]),
        one_clause(s),
    ensures
        !crate::action::reason_invalid(s),
{
    lemma_ends_trim(s);
    if s.contains('\n') {
        let i = choose|i: int| 0 <= i < s.len() && s[i] == '\n';
        assert(s[i] != '\n');
    }
    if s.contains('\r') {
        let i = choose|i: int| 0 <= i < s.len() && s[i] == '\r';
        assert(s[i] != '\r');
    }
    if crate::action::has_sentence_break(s) {
        let (i, j) = choose|i: int, j: int|
            0 <= i < j < s.len() && #[trigger] crate::action::is_terminator(s[i]) && !crate::text::is_ws(
                #[trigger] s[j],
            );
        assert(!crate::action::is_terminator(s[i]));
    }
}

proof fn lemma_no_sep(s: Seq<char>, from: int)
    requires
        0 <= from <= s.len(),
        forall|i: int| 0 <= i < s.len() ==> !crate::action::is_path_sep(#[trigger] s[i]),
    ensures
        crate::action::next_sep(s, from) == s.len(),
    decreases s.len() - from,
{
    if from < s.len() {
        lemma_no_sep(s, from + 1);
    }
}

proof fn lemma_file_name_safe(s: Seq<char>)
    requires
        s.len() > 2,
        !crate::text::is_ws(s[0]),
        !crate::text::is_ws(s[s.len() - 1]),
        forall|i: int| 0 <= i < s.len() ==> !crate::action::is_path_sep(#[trigger] s[i]),
    ensures
        crate::action::safe_relative_path(s),
{
    lemma_ends_trim(s);
    lemma_no_sep(s, 0);
    assert(s.take(s.len() as int) =~= s);
    assert(s != seq!['.']);
    assert(s != seq!['.', '.']);
    assert(!crate::action::is_path_sep(s[0]));
}

fn text(s: &str) -> (r: String)
    ensures
        r@ == s@,
{
    owned(s)
}

/// The action an example shows, for `current` in a conversation run by
/// `director`. Whenever the example is one its sender may show (the
/// director's own examples by the director, the others by a specialist),
/// its reason, choices and payload pass the protocol.
pub fn example_action(e: &ContractExample, director_agent: &str) -> (r: AgentAction)
    ensures
        r.action == example_kind(e@),
        crate::workflow::opt_string_view(r.target_agent) == example_target(e@, director_agent@),
        !crate::action::reason_invalid(r.reason@),
        crate::action::choices_error(r) is None,
        forall|current: Seq<char>|
            (director_example(e@) <==> current == director_agent@) ==> crate::action::payload_error(
                r,
                current,
                director_agent@,
            ) is None,
{
    match e {
        ContractExample::ProjectTaskHandoff(t) => {
            let reason = "执行当前项目状态要求的唯一专业任务";
            proof {
                reveal_strlit("执行当前项目状态要求的唯一专业任务");
                lemma_reason_ok(reason@);
            }
            AgentAction {
                action: AgentActionKind::Handoff,
                target_agent: Some(t.clone()),
                reason: text(reason),
                payload: AgentActionPayload::empty(),
            }
        },
        ContractExample::ProjectTaskBlocked => {
            let reason = "当前项目任务没有可用的专业 Agent";
            proof {
                reveal_strlit("当前项目任务没有可用的专业 Agent");
                lemma_reason_ok(reason@);
            }
            AgentAction {
                action: AgentActionKind::Blocked,
                target_agent: None,
                reason: text(reason),
                payload: AgentActionPayload::empty(),
            }
        },
        ContractExample::ProjectSettled => {
            let reason = "当前项目状态已说明完毕";
            proof {
                reveal_strlit("当前项目状态已说明完毕");
                lemma_reason_ok(reason@);
            }
            AgentAction {
                action: AgentActionKind::Done,
                target_agent: None,
                reason: text(reason),
                payload: AgentActionPayload::empty(),
            }
        },
        ContractExample::ProjectNamingChoices => {
            let reason = "请选择一组对应的项目名称与项目代号";
            proof {
                reveal_strlit("项目名称");
                reveal_strlit("项目名一");
                reveal_strlit("项目名二");
                assert("项目名一"@[3] != "项目名二"@[3]);
            }
            let g1 = choice_group("项目名称", "项目名一", "项目名二");
            proof {
                reveal_strlit("项目代号");
                reveal_strlit("project-one");
                reveal_strlit("project-two");
                assert("project-one"@[8] != "project-two"@[8]);
            }
            let g2 = choice_group("项目代号", "project-one", "project-two");
            proof {
                reveal_strlit("请选择一组对应的项目名称与项目代号");
                lemma_reason_ok(reason@);
            }
            let mut payload = AgentActionPayload::empty();
            payload.choices = Some(vec![g1, g2]);
            AgentAction { action: AgentActionKind::AskUser, target_agent: None, reason: text(reason), payload }
        },
        ContractExample::DirectorHandoff(t) => {
            let reason = "该专业任务应由此 Agent 承接";
            proof {
                reveal_strlit("该专业任务应由此 Agent 承接");
                lemma_reason_ok(reason@);
            }
            AgentAction {
                action: AgentActionKind::Handoff,
                target_agent: Some(t.clone()),
                reason: text(reason),
                payload: AgentActionPayload::empty(),
            }
        },
        ContractExample::DirectorAskUser => {
            let reason = "需要用户确认关键选项";
            proof {
                reveal_strlit("需要确认的事项");
                reveal_strlit("方案 A");
                reveal_strlit("方案 B");
                assert("方案 A"@[3] != "方案 B"@[3]);
            }
            let g = choice_group("需要确认的事项", "方案 A", "方案 B");
            proof {
                reveal_strlit("需要用户确认关键选项");
                lemma_reason_ok(reason@);
            }
            let mut payload = AgentActionPayload::empty();
            payload.choices = Some(vec![g]);
            AgentAction { action: AgentActionKind::AskUser, target_agent: None, reason: text(reason), payload }
        },
        ContractExample::DirectorDone => {
            let reason = "当前状态已说明完毕";
            proof {
                reveal_strlit("当前状态已说明完毕");
                lemma_reason_ok(reason@);
            }
            AgentAction {
                action: AgentActionKind::Done,
                target_agent: None,
                reason: text(reason),
                payload: AgentActionPayload::empty(),
            }
        },
        ContractExample::SpecWriterAskUser => {
            let reason = "需要用户确认角色外观";
            proof {
                reveal_strlit("角色外观");
                reveal_strlit("方案 A");
                reveal_strlit("方案 B");
                assert("方案 A"@[3] != "方案 B"@[3]);
            }
            let g = choice_group("角色外观", "方案 A", "方案 B");
            proof {
                reveal_strlit("需要用户确认角色外观");
                lemma_reason_ok(reason@);
            }
            let mut payload = AgentActionPayload::empty();
            payload.choices = Some(vec![g]);
            payload.progress = Some(
                crate::domain::AgentProgress {
                    decisions: Vec::new(),
                    open_questions: vec![text("角色外观")],
                    next_step: text("确认后生成角色规格草稿"),
                },
            );
            AgentAction { action: AgentActionKind::AskUser, target_agent: None, reason: text(reason), payload }
        },
        ContractExample::SpecWriterDrafts => {
            let reason = "角色规格草稿已生成，请用户确认";
            let content = "# 角色定稿\n...";
            let path = "角色规格.md";
            proof {
                reveal_strlit("角色规格草稿已生成，请用户确认");
                reveal_strlit("# 角色定稿\n...");
                reveal_strlit("角色规格.md");
                lemma_reason_ok(reason@);
                lemma_ends_trim(content@);
                lemma_file_name_safe(path@);
            }
            let draft = crate::domain::ArtifactDraft {
                artifact_slot: Some(text("character_spec")),
                target_path: text(path),
                content: text(content),
                based_on_hash: None,
            };
            let mut payload = AgentActionPayload::empty();
            payload.drafts = Some(vec![draft]);
            payload.progress = Some(
                crate::domain::AgentProgress {
                    decisions: vec![text("角色规格已完整")],
                    open_questions: Vec::new(),
                    next_step: text("等待用户确认草稿"),
                },
            );
            let r = AgentAction { action: AgentActionKind::AskUser, target_agent: None, reason: text(reason), payload };
            proof {
                let ds = r.payload.drafts.unwrap();
                assert(ds@.len() == 1);
                assert(!crate::action::draft_invalid(ds@[0]));
            }
            r
        },
        ContractExample::SpecReviewerVerdict => {
            let reason = "规格审校已完成";
            let item = "头身比";
            let value = "7 头身";
            proof {
                reveal_strlit("规格审校已完成");
                reveal_strlit("头身比");
                reveal_strlit("7 头身");
                lemma_reason_ok(reason@);
                lemma_ends_trim(item@);
                lemma_ends_trim(value@);
            }
            let verdict = crate::domain::AgentVerdict {
                token: text("SPEC-CHECK"),
                subject_id: text("<reviewSubject.id>"),
                decision: text("APPROVE"),
                sections: vec![(text("缺失维度"), Vec::new())],
                constraints: vec![crate::domain::VerdictConstraint { scope: text("identity"), item: text(item), value: text(value) }],
            };
            let mut payload = AgentActionPayload::empty();
            payload.verdict = Some(verdict);
            AgentAction {
                action: AgentActionKind::Handoff,
                target_agent: Some(text(director_agent)),
                reason: text(reason),
                payload,
            }
        },
        ContractExample::VisualHandBack { views } => {
            let reason = "视觉候选已生成并交回总管";
            proof {
                reveal_strlit("视觉候选已生成并交回总管");
                lemma_reason_ok(reason@);
            }
            let result = crate::domain::AgentResult {
                status: AgentResultStatus::Success,
                error: None,
                artifacts: vec![text("<generated-image>")],
                revision_scope: Some(if *views { text("views") } else { text("render") }),
                focus_changes_summary: Some(text("已按当前反馈更新对焦设定")),
            };
            let mut payload = AgentActionPayload::empty();
            payload.result = Some(result);
            AgentAction {
                action: AgentActionKind::Handoff,
                target_agent: Some(text(director_agent)),
                reason: text(reason),
                payload,
            }
        },
        ContractExample::VisualBlocked => {
            let reason = "缺少生成所需的前置条件";
            proof {
                reveal_strlit("缺少生成所需的前置条件");
                lemma_reason_ok(reason@);
            }
            let result = crate::domain::AgentResult {
                status: AgentResultStatus::Failed,
                error: Some(text(reason)),
                artifacts: Vec::new(),
                revision_scope: None,
                focus_changes_summary: None,
            };
            let mut payload = AgentActionPayload::empty();
            payload.result = Some(result);
            AgentAction { action: AgentActionKind::Blocked, target_agent: None, reason: text(reason), payload }
        },
        ContractExample::GenericHandBack => {
            let reason = "当前专业任务已完成";
            proof {
                reveal_strlit("当前专业任务已完成");
                lemma_reason_ok(reason@);
            }
            AgentAction {
                action: AgentActionKind::Handoff,
                target_agent: Some(text(director_agent)),
                reason: text(reason),
                payload: AgentActionPayload::empty(),
            }
        },
        ContractExample::SpecialistBlocked => {
            let reason = "缺少完成当前任务所需的前置条件";
            proof {
                reveal_strlit("缺少完成当前任务所需的前置条件");
                lemma_reason_ok(reason@);
            }
            AgentAction {
                action: AgentActionKind::Blocked,
                target_agent: None,
                reason: text(reason),
                payload: AgentActionPayload::empty(),
            }
        },
    }
}

/// A single-answer question with two options, the first recommended.
fn choice_group(item: &str, first: &str, second: &str) -> (r: crate::domain::ChoiceGroup)
    requires
        item@.len() > 0 && !crate::text::is_ws(item@[0]) && !crate::text::is_ws(item@[item@.len() - 1]),
        first@.len() > 0 && !crate::text::is_ws(first@[0]) && !crate::text::is_ws(first@[first@.len() - 1]),
        second@.len() > 0 && !crate::text::is_ws(second@[0]) && !crate::text::is_ws(second@[second@.len() - 1]),
        first@ != second@,
    ensures
        !crate::action::group_invalid(r),
        r.item@ == item@,
        r.options@.len() == 2 && r.options@[0]@ == first@ && r.options@[1]@ == second@,
{
    proof {
        lemma_ends_trim(item@);
        lemma_ends_trim(first@);
        lemma_ends_trim(second@);
    }
    let r = crate::domain::ChoiceGroup {
        item: text(item),
        options: vec![text(first), text(second)],
        recommended: vec![text(first)],
        multiple: false,
    };
    proof {
        assert(crate::text::trim(r.options@[0]@) == first@);
        assert(crate::text::trim(r.options@[1]@) == second@);
        assert(crate::action::two_distinct_options(r));
        assert(crate::action::offers(r, crate::text::trim(r.recommended@[0]@)));
    }
    r
}

/// Whether every example an agent shows passes the protocol: the conversation
/// is run by the studio director, and each agent the sender may hand off to
/// is named and is not the sender itself.
pub open spec fn examples_can_pass(agent: Seq<char>, director: Seq<char>, allowed: Seq<Seq<char>>) -> bool {
    &&& director == "studio_director"@
    &&& forall|k: int| 0 <= k < allowed.len() ==> (#[trigger] allowed[k]).len() > 0 && allowed[k] != agent
}

/// The example actions of an agent's contract for this turn, one for each
/// planned example and in its order. Where the sender's handoffs are sound
/// (see `examples_can_pass`), every one of them passes `validate_action` for
/// that sender: the examples never teach an action the runtime refuses.
pub fn contract_example_actions(
    agent_code: &str,
    project_task: Option<&str>,
    stage: &str,
    director_agent: &str,
    allowed_handoffs: &[String],
) -> (r: Vec<AgentAction>)
    ensures
        ({
            let plan = example_plan(
                agent_code@,
                crate::workflow::opt_str_view(project_task),
                stage@,
                director_agent@,
                string_views(allowed_handoffs@),
            );
            &&& r@.len() == plan.len()
            &&& forall|i: int|
                0 <= i < r@.len() ==> (#[trigger] r@[i]).action == example_kind(plan[i])
                    && crate::workflow::opt_string_view(r@[i].target_agent) == example_target(plan[i], director_agent@)
            &&& examples_can_pass(agent_code@, director_agent@, string_views(allowed_handoffs@)) ==> forall|i: int|
                0 <= i < r@.len() ==> crate::action::action_error(
                    #[trigger] r@[i],
                    agent_code@,
                    director_agent@,
                    string_views(allowed_handoffs@),
                ) is None
        }),
{
    let examples = contract_examples(agent_code, project_task, stage, director_agent, allowed_handoffs);
    let ghost allowed = string_views(allowed_handoffs@);
    let ghost plan = example_plan(
        agent_code@,
        crate::workflow::opt_str_view(project_task),
        stage@,
        director_agent@,
        allowed,
    );
    proof {
        reveal_strlit("studio_director");
        reveal_strlit("spec_writer");
        reveal_strlit("spec_reviewer");
        reveal_strlit("visual_designer");
        reveal_strlit("art_bible_designer");
        if examples_can_pass(agent_code@, director_agent@, allowed) {
            assert forall|i: int| 0 <= i < plan.len() implies (director_example(#[trigger] plan[i]) <==> agent_code@
                == director_agent@) && (plan[i] matches ContractExampleView::ProjectTaskHandoff(t) ==> allowed.contains(t))
                && (plan[i] matches ContractExampleView::DirectorHandoff(t) ==> allowed.contains(t))
                && ((plan[i] is SpecReviewerVerdict || plan[i] is VisualHandBack || plan[i] is GenericHandBack)
                ==> allowed.contains(director_agent@)) by {
                if allowed.len() > 0 {
                    assert(allowed.contains(allowed[0]));
                }
            }
        }
    }
    let mut out: Vec<AgentAction> = Vec::new();
    let mut i: usize = 0;
    while i < examples.len()
        invariant
            i <= examples@.len(),
            example_views(examples@) == plan,
            allowed == string_views(allowed_handoffs@),
            out@.len() == i,
            forall|k: int|
                0 <= k < i ==> (#[trigger] out@[k]).action == example_kind(plan[k])
                    && crate::workflow::opt_string_view(out@[k].target_agent) == example_target(plan[k], director_agent@)
                    && !crate::action::reason_invalid(out@[k].reason@) && crate::action::choices_error(out@[k]) is None
                    && ((director_example(plan[k]) <==> agent_code@ == director_agent@) ==> crate::action::payload_error(
                    out@[k],
                    agent_code@,
                    director_agent@,
                ) is None),
        decreases examples.len() - i,
    {
        let a = example_action(&examples[i], director_agent);
        proof {
            assert(example_views(examples@)[i as int] == examples@[i as int]@);
        }
        out.push(a);
        i = i + 1;
    }
    proof {
        if examples_can_pass(agent_code@, director_agent@, allowed) {
            assert forall|k: int| 0 <= k < out@.len() implies crate::action::action_error(
                #[trigger] out@[k],
                agent_code@,
                director_agent@,
                allowed,
            ) is None by {
                assert(director_example(plan[k]) <==> agent_code@ == director_agent@);
                match plan[k] {
                    ContractExampleView::ProjectTaskHandoff(t) => {
                        assert(allowed.contains(t));
                    },
                    ContractExampleView::DirectorHandoff(t) => {
                        assert(allowed.contains(t));
                    },
                    _ => {},
                }
            }
        }
    }
    out
}

/// An example action in its block.
pub open spec fn action_block_text(json: Seq<char>) -> Seq<char> {
    crate::domain::ACTION_START@ + "\n"@ + json + "\n"@ + crate::domain::ACTION_END@
}

/// The examples of a contract: each rendered action in its block, separated by
/// a blank line.
pub open spec fn examples_text(jsons: Seq<Seq<char>>) -> Seq<char> {
    join(blocks_of(jsons), "\n\n"@)
}

/// Each rendered action in its block.
pub open spec fn blocks_of(jsons: Seq<Seq<char>>) -> Seq<Seq<char>> {
    jsons.map_values(|j: Seq<char>| action_block_text(j))
}

/// Renders the examples of a contract from their rendered JSON.
pub fn render_examples(jsons: &[String]) -> (r: String)
    ensures
        r@ == examples_text(string_views(jsons@)),
{
    let mut blocks: Vec<String> = Vec::new();
    for i in 0..jsons.len()
        invariant
            string_views(blocks@) == blocks_of(string_views(jsons@).take(i as int)),
    {
        let mut b = owned(crate::domain::ACTION_START);
        b.append("\n");
        b.append(jsons[i].as_str());
        b.append("\n");
        b.append(crate::domain::ACTION_END);
        let ghost before = blocks@;
        let ghost bv = b@;
        assert(bv == action_block_text(jsons@[i as int]@));
        blocks.push(b);
        assert(string_views(blocks@) =~= string_views(before).push(bv));
        assert(string_views(jsons@).take(i + 1) =~= string_views(jsons@).take(i as int).push(jsons@[i as int]@));
        assert(blocks_of(string_views(jsons@).take(i + 1)) =~= blocks_of(string_views(jsons@).take(i as int)).push(bv));
    }
    assert(string_views(jsons@).take(jsons@.len() as int) =~= string_views(jsons@));
    join_strings(blocks.as_slice(), "\n\n")
}


proof fn lemma_find_first(s: Seq<char>, p: Seq<char>, from: int, i: int)
    requires
        0 <= from <= i,
        occurs_at(s, p, i),
        forall|k: int| from <= k < i ==> !occurs_at(s, p, k),
    ensures
        find_from(s, p, from) == Some(i),
    decreases i - from,
{
    if from < i {
        lemma_find_first(s, p, from + 1, i);
    }
}

proof fn lemma_find_none(s: Seq<char>, p: Seq<char>, from: int)
    requires
        0 <= from,
        forall|k: int| from <= k ==> !occurs_at(s, p, k),
    ensures
        find_from(s, p, from) is None,
    decreases s.len() + 1 - from,
{
    if from + p.len() <= s.len() {
        lemma_find_none(s, p, from + 1);
    }
}

/// Each block of the rendered examples reads back, through the runtime's
/// cutting of a reply at its action block (`split_agent_turn`), to exactly the
/// JSON it was rendered from, with no display text before it. This holds of
/// every rendered action that begins and ends with a non-blank character and
/// has no `<` in it, as a JSON object whose strings hold no `<` is.
pub proof fn law_example_block_reads_back(json: Seq<char>)
    requires
        json.len() > 0,
        !is_ws(json[0]),
        !is_ws(json[json.len() - 1]),
        forall|k: int| 0 <= k < json.len() ==> json[k] != '<',
    ensures
        crate::action::split_action_block(action_block_text(json)) == Ok::<_, crate::action::ActionProtocolErrorView>(
            (Seq::<char>::empty(), json),
        ),
{
    reveal_strlit("<action>");
    reveal_strlit("</action>");
    reveal_strlit("\n");
    let st = crate::domain::ACTION_START@;
    let en = crate::domain::ACTION_END@;
    let s = action_block_text(json);
    let n = json.len() as int;
    let e = n + 10;
    assert(st.len() == 8 && en.len() == 9);
    assert(s.len() == n + 19);
    assert forall|k: int| 0 <= k < 8 implies s[k] == st[k] by {}
    assert(s[8] == '\n');
    assert forall|k: int| 0 <= k < n implies s[9 + k] == json[k] by {}
    assert(s[9 + n] == '\n');
    assert forall|k: int| 0 <= k < 9 implies s[e + k] == en[k] by {}
    assert forall|k: int| 0 <= k < s.len() && s[k] == '<' implies k == 0 || k == e by {
        if 9 <= k < 9 + n {
            assert(s[k] == json[k - 9]);
        }
    }
    // the start marker occurs at 0 and nowhere else
    assert(occurs_at(s, st, 0)) by {
        assert(s.subrange(0, 8) =~= st);
    }
    assert forall|k: int| 1 <= k implies !occurs_at(s, st, k) by {
        if occurs_at(s, st, k) {
            assert(s.subrange(k, k + 8)[0] == s[k]);
            assert(s.subrange(k, k + 8)[1] == s[k + 1]);
        }
    }
    lemma_find_first(s, st, 0, 0);
    lemma_find_none(s, st, 8);
    // the end marker occurs at e and nowhere else
    assert(occurs_at(s, en, e)) by {
        assert(s.subrange(e, e + 9) =~= en);
    }
    assert forall|k: int| 0 <= k < e implies !occurs_at(s, en, k) by {
        if occurs_at(s, en, k) {
            assert(s.subrange(k, k + 9)[0] == s[k]);
            assert(s.subrange(k, k + 9)[1] == s[k + 1]);
        }
    }
    lemma_find_first(s, en, 0, e);
    lemma_find_first(s, en, 8, e);
    lemma_find_none(s, en, e + 9);
    assert(count_matches(s, st, 8) == 0);
    assert(count_matches(s, st, 0) == 1);
    assert(count_matches(s, en, e + 9) == 0);
    assert(count_matches(s, en, 0) == 1);
    // nothing after the block, and the body trims to the JSON
    let tail = s.subrange(e + 9, s.len() as int);
    assert(tail.len() == 0);
    assert(lead(tail, 0) == 0);
    assert(trim(tail).len() == 0);
    assert(trim_end(s.take(0)) =~= Seq::<char>::empty());
    let mid = s.subrange(8, e);
    assert(mid.len() == n + 2);
    assert(mid[0] == '\n' && is_ws(mid[0]));
    assert(mid[1] == json[0]);
    assert(lead(mid, 1) == 1);
    assert(lead(mid, 0) == 1);
    assert(mid[n + 1] == '\n' && is_ws(mid[n + 1]));
    assert(mid[n] == json[n - 1]);
    assert(trail(mid, n + 1, 1) == n + 1);
    assert(trail(mid, n + 2, 1) == n + 1);
    assert(trim(mid) =~= json);
}

/// Whether a rendered action can stand in a block: it begins and ends with a
/// non-blank character and has no `<` in it.
pub open spec fn block_safe(json: Seq<char>) -> bool {
    &&& json.len() > 0
    &&& !is_ws(json[0])
    &&& !is_ws(json[json.len() - 1])
    &&& forall|k: int| 0 <= k < json.len() ==> json[k] != '<'
}

/// The examples that `render_examples` writes are the blocks of the rendered
/// actions, in order, joined by blank lines; each block reads back through
/// `split_agent_turn` to exactly the action it was rendered from.
pub proof fn law_rendered_examples_read_back(jsons: Seq<Seq<char>>)
    requires
        forall|i: int| 0 <= i < jsons.len() ==> block_safe(#[trigger] jsons[i]),
    ensures
        examples_text(jsons) == join(blocks_of(jsons), "\n\n"@),
        blocks_of(jsons).len() == jsons.len(),
        forall|i: int|
            0 <= i < jsons.len() ==> crate::action::split_action_block(#[trigger] blocks_of(jsons)[i]) == Ok::<
                _,
                crate::action::ActionProtocolErrorView,
            >((Seq::<char>::empty(), jsons[i])),
{
    assert forall|i: int| 0 <= i < jsons.len() implies crate::action::split_action_block(
        #[trigger] blocks_of(jsons)[i],
    ) == Ok::<_, crate::action::ActionProtocolErrorView>((Seq::<char>::empty(), jsons[i])) by {
        assert(block_safe(jsons[i]));
        law_example_block_reads_back(jsons[i]);
    }
}

} // verus!
