//! The character design workflow: six business steps derived from the
//! character's persisted state, and who the director may hand work to.

use vstd::prelude::*;
use crate::action::{owned, str_eq};
use crate::domain::{AgentVerdict, CharacterState, TaskStatus, MAX_HANDOFFS};
use crate::text::string_views;

verus! {

/// Where the review of the pending character spec stands.
#[derive(Debug, Clone, Copy, PartialEq, Eq, Structural)]
pub enum SpecReviewStatus {
    AwaitingDraft,
    Pending,
    Approved,
    Concerns,
    Rejected,
    Error,
}

/// The name under which a review status is reported.
pub open spec fn spec_review_text(s: SpecReviewStatus) -> Seq<char> {
    match s {
        SpecReviewStatus::AwaitingDraft => "awaiting_draft"@,
        SpecReviewStatus::Pending => "pending"@,
        SpecReviewStatus::Approved => "approved"@,
        SpecReviewStatus::Concerns => "concerns"@,
        SpecReviewStatus::Rejected => "rejected"@,
        SpecReviewStatus::Error => "error"@,
    }
}

impl SpecReviewStatus {
    /// The name under which this status is reported.
    pub fn as_str(&self) -> (r: &'static str)
        ensures
            r@ == spec_review_text(*self),
    {
        match self {
            SpecReviewStatus::AwaitingDraft => "awaiting_draft",
            SpecReviewStatus::Pending => "pending",
            SpecReviewStatus::Approved => "approved",
            SpecReviewStatus::Concerns => "concerns",
            SpecReviewStatus::Rejected => "rejected",
            SpecReviewStatus::Error => "error",
        }
    }
}

/// The state of one of the six steps.
#[derive(Debug, Clone, Copy, PartialEq, Eq, Structural)]
pub enum StepStatus {
    Wait,
    Process,
    Finish,
    Error,
}

/// The name under which a step status is reported.
pub open spec fn step_status_text(s: StepStatus) -> Seq<char> {
    match s {
        StepStatus::Wait => "wait"@,
        StepStatus::Process => "process"@,
        StepStatus::Finish => "finish"@,
        StepStatus::Error => "error"@,
    }
}

/// One step of the character workflow as shown to the user.
#[derive(Debug, Clone, PartialEq, Eq)]
pub struct CharacterWorkflowStep {
    pub key: String,
    pub label: String,
    pub status: String,
}

/// The character workflow as shown to the user.
#[derive(Debug, Clone, PartialEq, Eq)]
pub struct CharacterWorkflowProgress {
    pub status_label: String,
    pub steps: Vec<CharacterWorkflowStep>,
    pub needs_resume: bool,
    pub continuation_key: Option<String>,
}

/// What the workflow derives from the project's records for one character.
#[derive(Debug, Clone, PartialEq, Eq)]
pub struct CharacterWorkflowFacts {
    /// The index of the pending spec draft among the drafts read.
    pub pending_spec: Option<usize>,
    pub spec_review_status: SpecReviewStatus,
    /// The index of the latest spec check verdict among the verdicts read.
    pub latest_spec_verdict: Option<usize>,
    pub latest_spec_rejection_id: Option<String>,
    pub render_rejection_id: Option<String>,
    pub views_rejection_id: Option<String>,
    pub render_rejected_after_generation: bool,
    pub views_rejected_after_generation: bool,
    pub failed_design_stage: Option<String>,
    pub has_running_task: bool,
}

/// The key of step `i`.
pub open spec fn step_key(i: int) -> Seq<char> {
    if i == 0 {
        "spec_design"@
    } else if i == 1 {
        "spec_confirm"@
    } else if i == 2 {
        "render_design"@
    } else if i == 3 {
        "render_confirm"@
    } else if i == 4 {
        "views_design"@
    } else {
        "views_confirm"@
    }
}

/// The label of step `i`.
pub open spec fn step_label(i: int) -> Seq<char> {
    if i == 0 {
        "角色设定"@
    } else if i == 1 {
        "确认设定"@
    } else if i == 2 {
        "效果图设计"@
    } else if i == 3 {
        "确认效果图"@
    } else if i == 4 {
        "四视图设计"@
    } else {
        "确认四视图"@
    }
}

/// The design step (its index and its stage) that is being worked on, if any.
pub open spec fn design_focus(
    state: CharacterState,
    spec_confirmation_ready: bool,
    render_rejected: bool,
    views_rejected: bool,
) -> Option<(int, Seq<char>)> {
    match state {
        CharacterState::S0SpecDrafting => if spec_confirmation_ready {
            None
        } else {
            Some((0int, "spec"@))
        },
        CharacterState::S1SpecConfirmed => Some((2int, "render"@)),
        CharacterState::S2RenderGenerated => if render_rejected {
            Some((2int, "render"@))
        } else {
            None
        },
        CharacterState::S3RenderConfirmed => Some((4int, "views"@)),
        CharacterState::S4ViewsGenerated => if views_rejected {
            Some((4int, "views"@))
        } else {
            None
        },
        CharacterState::S5ViewsConfirmed => None,
    }
}

/// The status of step `i` from the state alone, before failures are marked.
pub open spec fn base_step(
    state: CharacterState,
    spec_confirmation_ready: bool,
    render_rejected: bool,
    views_rejected: bool,
    i: int,
) -> StepStatus {
    match state {
        CharacterState::S0SpecDrafting => if spec_confirmation_ready {
            if i == 0 {
                StepStatus::Finish
            } else if i == 1 {
                StepStatus::Process
            } else {
                StepStatus::Wait
            }
        } else if i == 0 {
            StepStatus::Process
        } else {
            StepStatus::Wait
        },
        CharacterState::S1SpecConfirmed => if i < 2 {
            StepStatus::Finish
        } else if i == 2 {
            StepStatus::Process
        } else {
            StepStatus::Wait
        },
        CharacterState::S2RenderGenerated => if i < 2 {
            StepStatus::Finish
        } else if i == 2 {
            if render_rejected { StepStatus::Process } else { StepStatus::Finish }
        } else if i == 3 {
            if render_rejected { StepStatus::Wait } else { StepStatus::Process }
        } else {
            StepStatus::Wait
        },
        CharacterState::S3RenderConfirmed => if i < 4 {
            StepStatus::Finish
        } else if i == 4 {
            StepStatus::Process
        } else {
            StepStatus::Wait
        },
        CharacterState::S4ViewsGenerated => if i < 4 {
            StepStatus::Finish
        } else if i == 4 {
            if views_rejected { StepStatus::Process } else { StepStatus::Finish }
        } else {
            if views_rejected { StepStatus::Wait } else { StepStatus::Process }
        },
        CharacterState::S5ViewsConfirmed => StepStatus::Finish,
    }
}

/// The status of step `i`: a failed review of the spec draft, or a failed task
/// of the design stage being worked on, marks that step as an error.
pub open spec fn step_status(
    state: CharacterState,
    spec_confirmation_ready: bool,
    spec_review_failed: bool,
    render_rejected: bool,
    views_rejected: bool,
    failed_design_stage: Option<Seq<char>>,
    i: int,
) -> StepStatus {
    if state == CharacterState::S0SpecDrafting && spec_review_failed && i == 0 {
        StepStatus::Error
    } else {
        match design_focus(state, spec_confirmation_ready, render_rejected, views_rejected) {
            Some((index, stage)) => if failed_design_stage == Some(stage) && i == index {
                StepStatus::Error
            } else {
                base_step(state, spec_confirmation_ready, render_rejected, views_rejected, i)
            },
            None => base_step(state, spec_confirmation_ready, render_rejected, views_rejected, i),
        }
    }
}

/// Whether a step status asks for the user's attention.
pub open spec fn is_active(s: StepStatus) -> bool {
    s == StepStatus::Process || s == StepStatus::Error
}

/// The first step at or after `i` that is active, if any.
pub open spec fn first_active_from(
    state: CharacterState,
    spec_confirmation_ready: bool,
    spec_review_failed: bool,
    render_rejected: bool,
    views_rejected: bool,
    failed_design_stage: Option<Seq<char>>,
    i: int,
) -> Option<int>
    decreases 6 - i,
{
    if i >= 6 || i < 0 {
        None
    } else if is_active(
        step_status(
            state,
            spec_confirmation_ready,
            spec_review_failed,
            render_rejected,
            views_rejected,
            failed_design_stage,
            i,
        ),
    ) {
        Some(i)
    } else {
        first_active_from(
            state,
            spec_confirmation_ready,
            spec_review_failed,
            render_rejected,
            views_rejected,
            failed_design_stage,
            i + 1,
        )
    }
}

/// The headline of the workflow: done once the views are confirmed, else the
/// label of the first active step.
pub open spec fn progress_label(
    state: CharacterState,
    spec_confirmation_ready: bool,
    spec_review_failed: bool,
    render_rejected: bool,
    views_rejected: bool,
    failed_design_stage: Option<Seq<char>>,
) -> Seq<char> {
    if state == CharacterState::S5ViewsConfirmed {
        "角色视觉设计完成"@
    } else {
        match first_active_from(
            state,
            spec_confirmation_ready,
            spec_review_failed,
            render_rejected,
            views_rejected,
            failed_design_stage,
            0,
        ) {
            Some(i) => step_label(i),
            None => "角色视觉设计"@,
        }
    }
}

/// The view of an optional string slice.
pub open spec fn opt_str_view(o: Option<&str>) -> Option<Seq<char>> {
    match o {
        Some(s) => Some(s@),
        None => None,
    }
}

/// The view of an optional string.
pub open spec fn opt_string_view(o: Option<String>) -> Option<Seq<char>> {
    match o {
        Some(s) => Some(s@),
        None => None,
    }
}

fn step_key_text(i: usize) -> (r: String)
    requires
        i < 6,
    ensures
        r@ == step_key(i as int),
{
    if i == 0 {
        owned("spec_design")
    } else if i == 1 {
        owned("spec_confirm")
    } else if i == 2 {
        owned("render_design")
    } else if i == 3 {
        owned("render_confirm")
    } else if i == 4 {
        owned("views_design")
    } else {
        owned("views_confirm")
    }
}

fn step_label_text(i: usize) -> (r: String)
    requires
        i < 6,
    ensures
        r@ == step_label(i as int),
{
    if i == 0 {
        owned("角色设定")
    } else if i == 1 {
        owned("确认设定")
    } else if i == 2 {
        owned("效果图设计")
    } else if i == 3 {
        owned("确认效果图")
    } else if i == 4 {
        owned("四视图设计")
    } else {
        owned("确认四视图")
    }
}

fn step_status_string(s: StepStatus) -> (r: String)
    ensures
        r@ == step_status_text(s),
{
    match s {
        StepStatus::Wait => owned("wait"),
        StepStatus::Process => owned("process"),
        StepStatus::Finish => owned("finish"),
        StepStatus::Error => owned("error"),
    }
}

fn base_step_at(
    state: CharacterState,
    spec_confirmation_ready: bool,
    render_rejected: bool,
    views_rejected: bool,
    i: usize,
) -> (r: StepStatus)
    ensures
        r == base_step(state, spec_confirmation_ready, render_rejected, views_rejected, i as int),
{
    match state {
        CharacterState::S0SpecDrafting => if spec_confirmation_ready {
            if i == 0 {
                StepStatus::Finish
            } else if i == 1 {
                StepStatus::Process
            } else {
                StepStatus::Wait
            }
        } else if i == 0 {
            StepStatus::Process
        } else {
            StepStatus::Wait
        },
        CharacterState::S1SpecConfirmed => if i < 2 {
            StepStatus::Finish
        } else if i == 2 {
            StepStatus::Process
        } else {
            StepStatus::Wait
        },
        CharacterState::S2RenderGenerated => if i < 2 {
            StepStatus::Finish
        } else if i == 2 {
            if render_rejected { StepStatus::Process } else { StepStatus::Finish }
        } else if i == 3 {
            if render_rejected { StepStatus::Wait } else { StepStatus::Process }
        } else {
            StepStatus::Wait
        },
        CharacterState::S3RenderConfirmed => if i < 4 {
            StepStatus::Finish
        } else if i == 4 {
            StepStatus::Process
        } else {
            StepStatus::Wait
        },
        CharacterState::S4ViewsGenerated => if i < 4 {
            StepStatus::Finish
        } else if i == 4 {
            if views_rejected { StepStatus::Process } else { StepStatus::Finish }
        } else {
            if views_rejected { StepStatus::Wait } else { StepStatus::Process }
        },
        CharacterState::S5ViewsConfirmed => StepStatus::Finish,
    }
}

/// The design stage being worked on, with the index of its step.
fn design_focus_at(
    state: CharacterState,
    spec_confirmation_ready: bool,
    render_rejected: bool,
    views_rejected: bool,
) -> (r: Option<(usize, &'static str)>)
    ensures
        match design_focus(state, spec_confirmation_ready, render_rejected, views_rejected) {
            Some((index, stage)) => r matches Some((j, st)) && j == index && st@ == stage,
            None => r is None,
        },
{
    match state {
        CharacterState::S0SpecDrafting => if spec_confirmation_ready {
            None
        } else {
            Some((0, "spec"))
        },
        CharacterState::S1SpecConfirmed => Some((2, "render")),
        CharacterState::S2RenderGenerated => if render_rejected {
            Some((2, "render"))
        } else {
            None
        },
        CharacterState::S3RenderConfirmed => Some((4, "views")),
        CharacterState::S4ViewsGenerated => if views_rejected {
            Some((4, "views"))
        } else {
            None
        },
        CharacterState::S5ViewsConfirmed => None,
    }
}

/// Maps a character's persisted state, and what is known of its reviews,
/// rejections and failed tasks, to the six business steps shown to the user.
pub fn build_character_workflow_progress(
    state: CharacterState,
    spec_confirmation_ready: bool,
    spec_review_failed: bool,
    render_rejected_after_generation: bool,
    views_rejected_after_generation: bool,
    failed_design_stage: Option<&str>,
    continuation_key: Option<String>,
) -> (r: CharacterWorkflowProgress)
    ensures
        r.steps.len() == 6,
        forall|i: int|
            0 <= i < 6 ==> {
                &&& (#[trigger] r.steps@[i]).key@ == step_key(i)
                &&& r.steps@[i].label@ == step_label(i)
                &&& r.steps@[i].status@ == step_status_text(
                    step_status(
                        state,
                        spec_confirmation_ready,
                        spec_review_failed,
                        render_rejected_after_generation,
                        views_rejected_after_generation,
                        opt_str_view(failed_design_stage),
                        i,
                    ),
                )
            },
        r.status_label@ == progress_label(
            state,
            spec_confirmation_ready,
            spec_review_failed,
            render_rejected_after_generation,
            views_rejected_after_generation,
            opt_str_view(failed_design_stage),
        ),
        r.needs_resume == continuation_key.is_some(),
        opt_string_view(r.continuation_key) == opt_string_view(continuation_key),
{
    let ghost failed = opt_str_view(failed_design_stage);
    let focus = design_focus_at(
        state,
        spec_confirmation_ready,
        render_rejected_after_generation,
        views_rejected_after_generation,
    );
    let mut error_index: usize = 6;
    match focus {
        Some((index, stage)) => {
            match failed_design_stage {
                Some(f) => {
                    if str_eq(f, stage) {
                        error_index = index;
                    }
                },
                None => {},
            }
        },
        None => {},
    }
    let review_error = state == CharacterState::S0SpecDrafting && spec_review_failed;
    let mut steps: Vec<CharacterWorkflowStep> = Vec::new();
    let mut active: usize = 6;
    for i in 0..6usize
        invariant
            steps.len() == i,
            error_index <= 6,
            review_error == (state == CharacterState::S0SpecDrafting && spec_review_failed),
            match design_focus(
                state,
                spec_confirmation_ready,
                render_rejected_after_generation,
                views_rejected_after_generation,
            ) {
                Some((index, stage)) => (failed == Some(stage)) == (error_index == index)
                    && (error_index < 6 ==> error_index == index),
                None => error_index == 6,
            },
            failed == opt_str_view(failed_design_stage),
            forall|k: int|
                0 <= k < i ==> {
                    &&& (#[trigger] steps@[k]).key@ == step_key(k)
                    &&& steps@[k].label@ == step_label(k)
                    &&& steps@[k].status@ == step_status_text(
                        step_status(
                            state,
                            spec_confirmation_ready,
                            spec_review_failed,
                            render_rejected_after_generation,
                            views_rejected_after_generation,
                            failed,
                            k,
                        ),
                    )
                },
            active <= 6,
            active < 6 ==> active < i,
            first_active_from(
                state,
                spec_confirmation_ready,
                spec_review_failed,
                render_rejected_after_generation,
                views_rejected_after_generation,
                failed,
                0,
            ) == if active < 6 {
                Some(active as int)
            } else {
                first_active_from(
                    state,
                    spec_confirmation_ready,
                    spec_review_failed,
                    render_rejected_after_generation,
                    views_rejected_after_generation,
                    failed,
                    i as int,
                )
            },
    {
        let status = if review_error && i == 0 {
            StepStatus::Error
        } else if i == error_index {
            StepStatus::Error
        } else {
            base_step_at(
                state,
                spec_confirmation_ready,
                render_rejected_after_generation,
                views_rejected_after_generation,
                i,
            )
        };
        assert(status == step_status(
            state,
            spec_confirmation_ready,
            spec_review_failed,
            render_rejected_after_generation,
            views_rejected_after_generation,
            failed,
            i as int,
        ));
        if active == 6 && (status == StepStatus::Process || status == StepStatus::Error) {
            active = i;
        }
        let step = CharacterWorkflowStep {
            key: step_key_text(i),
            label: step_label_text(i),
            status: step_status_string(status),
        };
        steps.push(step);
    }
    let status_label = if state == CharacterState::S5ViewsConfirmed {
        owned("角色视觉设计完成")
    } else if active < 6 {
        step_label_text(active)
    } else {
        owned("角色视觉设计")
    };
    let needs_resume = continuation_key.is_some();
    CharacterWorkflowProgress { status_label, steps, needs_resume, continuation_key }
}

/// `s` without the occurrences of `x`, in order.
pub open spec fn without(s: Seq<Seq<char>>, x: Seq<char>) -> Seq<Seq<char>>
    decreases s.len(),
{
    if s.len() == 0 {
        Seq::empty()
    } else if s.last() == x {
        without(s.drop_last(), x)
    } else {
        without(s.drop_last(), x).push(s.last())
    }
}

/// The specialist the director may hand a character to, given its state and
/// the review of its spec.
pub open spec fn character_handoff(
    state: CharacterState,
    review: SpecReviewStatus,
    render_rejected: bool,
    views_rejected: bool,
) -> Option<Seq<char>> {
    match state {
        CharacterState::S0SpecDrafting => match review {
            SpecReviewStatus::AwaitingDraft | SpecReviewStatus::Rejected => Some("spec_writer"@),
            SpecReviewStatus::Pending | SpecReviewStatus::Error => Some("spec_reviewer"@),
            SpecReviewStatus::Approved | SpecReviewStatus::Concerns => None,
        },
        CharacterState::S1SpecConfirmed | CharacterState::S3RenderConfirmed => Some(
            "visual_designer"@,
        ),
        CharacterState::S2RenderGenerated => if render_rejected {
            Some("visual_designer"@)
        } else {
            None
        },
        CharacterState::S4ViewsGenerated => if views_rejected {
            Some("visual_designer"@)
        } else {
            None
        },
        CharacterState::S5ViewsConfirmed => None,
    }
}

/// The agents the current agent may hand off to: none once the turn's handoff
/// budget is spent; only the director for a specialist; for the director, the
/// stage's other agents, or for a character the one specialist its workflow
/// calls for.
pub open spec fn allowed_handoffs(
    target_kind: Seq<char>,
    current_agent: Seq<char>,
    director_agent: Seq<char>,
    handoff_count: int,
    stage_agents: Seq<Seq<char>>,
    character_state: Option<CharacterState>,
    workflow: Option<CharacterWorkflowFacts>,
) -> Seq<Seq<char>> {
    if handoff_count >= MAX_HANDOFFS {
        Seq::empty()
    } else if current_agent != director_agent {
        seq![director_agent]
    } else if target_kind != "character"@ {
        without(stage_agents, director_agent)
    } else {
        match (character_state, workflow) {
            (Some(state), Some(facts)) => match character_handoff(
                state,
                facts.spec_review_status,
                facts.render_rejected_after_generation,
                facts.views_rejected_after_generation,
            ) {
                Some(agent) => seq![agent],
                None => Seq::empty(),
            },
            _ => Seq::empty(),
        }
    }
}

fn character_handoff_of(
    state: CharacterState,
    review: SpecReviewStatus,
    render_rejected: bool,
    views_rejected: bool,
) -> (r: Option<&'static str>)
    ensures
        opt_str_view(r) == character_handoff(state, review, render_rejected, views_rejected),
{
    match state {
        CharacterState::S0SpecDrafting => match review {
            SpecReviewStatus::AwaitingDraft | SpecReviewStatus::Rejected => Some("spec_writer"),
            SpecReviewStatus::Pending | SpecReviewStatus::Error => Some("spec_reviewer"),
            SpecReviewStatus::Approved | SpecReviewStatus::Concerns => None,
        },
        CharacterState::S1SpecConfirmed | CharacterState::S3RenderConfirmed => Some(
            "visual_designer",
        ),
        CharacterState::S2RenderGenerated => if render_rejected {
            Some("visual_designer")
        } else {
            None
        },
        CharacterState::S4ViewsGenerated => if views_rejected {
            Some("visual_designer")
        } else {
            None
        },
        CharacterState::S5ViewsConfirmed => None,
    }
}

/// The agents the current agent may hand off to. `stage_agents` are the agents
/// that serve the target's kind and stage, in order.
pub fn allowed_handoffs_for(
    target_kind: &str,
    current_agent: &str,
    director_agent: &str,
    handoff_count: usize,
    stage_agents: &Vec<String>,
    character_state: Option<CharacterState>,
    workflow: Option<&CharacterWorkflowFacts>,
) -> (r: Vec<String>)
    ensures
        string_views(r@) == allowed_handoffs(
            target_kind@,
            current_agent@,
            director_agent@,
            handoff_count as int,
            string_views(stage_agents@),
            character_state,
            match workflow {
                Some(f) => Some(*f),
                None => None,
            },
        ),
{
    let mut out: Vec<String> = Vec::new();
    if handoff_count >= MAX_HANDOFFS {
        assert(string_views(out@) =~= Seq::<Seq<char>>::empty());
        return out;
    }
    if !str_eq(current_agent, director_agent) {
        out.push(owned(director_agent));
        assert(string_views(out@) =~= seq![director_agent@]);
        return out;
    }
    if !str_eq(target_kind, "character") {
        let ghost all = string_views(stage_agents@);
        for i in 0..stage_agents.len()
            invariant
                all == string_views(stage_agents@),
                string_views(out@) == without(all.take(i as int), director_agent@),
        {
            let agent = &stage_agents[i];
            assert(all.take(i + 1).drop_last() =~= all.take(i as int));
            assert(all.take(i + 1).last() == agent@);
            if !str_eq(agent.as_str(), director_agent) {
                out.push(agent.clone());
                assert(string_views(out@) =~= without(all.take(i as int), director_agent@).push(
                    agent@,
                ));
            }
        }
        assert(all.take(all.len() as int) =~= all);
        return out;
    }
    match (character_state, workflow) {
        (Some(state), Some(facts)) => {
            match character_handoff_of(
                state,
                facts.spec_review_status,
                facts.render_rejected_after_generation,
                facts.views_rejected_after_generation,
            ) {
                Some(agent) => {
                    out.push(owned(agent));
                    assert(string_views(out@) =~= seq![agent@]);
                },
                None => {
                    assert(string_views(out@) =~= Seq::<Seq<char>>::empty());
                },
            }
        },
        _ => {
            assert(string_views(out@) =~= Seq::<Seq<char>>::empty());
        },
    }
    out
}

/// How the review of the pending spec draft stands: no draft awaits a draft;
/// a verdict on the pending draft decides; otherwise a spec checking task still
/// open means pending, and a finished one that left no verdict an error.
pub open spec fn spec_review_status_of(
    has_pending_spec: bool,
    matching_decision: Option<Seq<char>>,
    latest_spec_task: Option<(Seq<char>, TaskStatus)>,
) -> SpecReviewStatus {
    if !has_pending_spec {
        SpecReviewStatus::AwaitingDraft
    } else {
        match matching_decision {
            Some(d) => if d == "APPROVE"@ {
                SpecReviewStatus::Approved
            } else if d == "CONCERNS"@ {
                SpecReviewStatus::Concerns
            } else if d == "REJECT"@ {
                SpecReviewStatus::Rejected
            } else {
                SpecReviewStatus::Error
            },
            None => match latest_spec_task {
                Some((agent, status)) => if agent == "spec_reviewer"@ {
                    if status == TaskStatus::Pending || status == TaskStatus::Running {
                        SpecReviewStatus::Pending
                    } else {
                        SpecReviewStatus::Error
                    }
                } else {
                    SpecReviewStatus::Pending
                },
                None => SpecReviewStatus::Pending,
            },
        }
    }
}

/// Decides how the review of the pending spec draft stands. `matching_decision`
/// is the decision of the latest spec verdict on the pending draft, and
/// `latest_spec_task` the agent and status of the latest spec task of the
/// character.
pub fn spec_review_status_for(
    has_pending_spec: bool,
    matching_decision: Option<&str>,
    latest_spec_task: Option<(&str, TaskStatus)>,
) -> (r: SpecReviewStatus)
    ensures
        r == spec_review_status_of(
            has_pending_spec,
            opt_str_view(matching_decision),
            match latest_spec_task {
                Some((a, st)) => Some((a@, st)),
                None => None,
            },
        ),
{
    if !has_pending_spec {
        return SpecReviewStatus::AwaitingDraft;
    }
    match matching_decision {
        Some(d) => {
            if str_eq(d, "APPROVE") {
                SpecReviewStatus::Approved
            } else if str_eq(d, "CONCERNS") {
                SpecReviewStatus::Concerns
            } else if str_eq(d, "REJECT") {
                SpecReviewStatus::Rejected
            } else {
                SpecReviewStatus::Error
            }
        },
        None => match latest_spec_task {
            Some((agent, status)) => {
                if str_eq(agent, "spec_reviewer") {
                    match status {
                        TaskStatus::Pending | TaskStatus::Running => SpecReviewStatus::Pending,
                        _ => SpecReviewStatus::Error,
                    }
                } else {
                    SpecReviewStatus::Pending
                }
            },
            None => SpecReviewStatus::Pending,
        },
    }
}

/// The design stage whose task decides a failure mark: the stage being worked
/// on, which after a generation is only so once the result was rejected.
pub open spec fn current_design_stage_of(
    state: CharacterState,
    render_rejected: bool,
    views_rejected: bool,
) -> Option<Seq<char>> {
    match state {
        CharacterState::S0SpecDrafting => Some("spec"@),
        CharacterState::S1SpecConfirmed => Some("render"@),
        CharacterState::S2RenderGenerated => if render_rejected {
            Some("render"@)
        } else {
            None
        },
        CharacterState::S3RenderConfirmed => Some("views"@),
        CharacterState::S4ViewsGenerated => if views_rejected {
            Some("views"@)
        } else {
            None
        },
        CharacterState::S5ViewsConfirmed => None,
    }
}

/// The design stage whose latest task, if it failed, marks the workflow.
pub fn current_design_stage(
    state: CharacterState,
    render_rejected_after_generation: bool,
    views_rejected_after_generation: bool,
) -> (r: Option<&'static str>)
    ensures
        opt_str_view(r) == current_design_stage_of(
            state,
            render_rejected_after_generation,
            views_rejected_after_generation,
        ),
{
    match state {
        CharacterState::S0SpecDrafting => Some("spec"),
        CharacterState::S1SpecConfirmed => Some("render"),
        CharacterState::S2RenderGenerated => if render_rejected_after_generation {
            Some("render")
        } else {
            None
        },
        CharacterState::S3RenderConfirmed => Some("views"),
        CharacterState::S4ViewsGenerated => if views_rejected_after_generation {
            Some("views")
        } else {
            None
        },
        CharacterState::S5ViewsConfirmed => None,
    }
}


/// A specialist may hand work back to the director and to no one else, until
/// the turn's handoff budget is spent.
pub proof fn law_specialist_hands_back_only_to_director(
    target_kind: Seq<char>,
    current_agent: Seq<char>,
    director_agent: Seq<char>,
    handoff_count: int,
    stage_agents: Seq<Seq<char>>,
    character_state: Option<CharacterState>,
    workflow: Option<CharacterWorkflowFacts>,
)
    requires
        current_agent != director_agent,
        handoff_count < MAX_HANDOFFS,
    ensures
        allowed_handoffs(
            target_kind,
            current_agent,
            director_agent,
            handoff_count,
            stage_agents,
            character_state,
            workflow,
        ) == seq![director_agent],
{
}

proof fn lemma_without_excludes(s: Seq<Seq<char>>, x: Seq<char>)
    ensures
        !without(s, x).contains(x),
        without(s, x).len() <= s.len(),
    decreases s.len(),
{
    if s.len() > 0 {
        lemma_without_excludes(s.drop_last(), x);
        if s.last() != x {
            let w = without(s.drop_last(), x);
            assert forall|i: int| 0 <= i < w.push(s.last()).len() implies w.push(s.last())[i] != x by {
                if i < w.len() {
                    assert(w.push(s.last())[i] == w[i]);
                }
            }
        }
    }
}

/// Nobody is ever offered a handoff to themselves, and the director never
/// hands work to the director.
pub proof fn law_no_handoff_to_self(
    target_kind: Seq<char>,
    current_agent: Seq<char>,
    director_agent: Seq<char>,
    handoff_count: int,
    stage_agents: Seq<Seq<char>>,
    character_state: Option<CharacterState>,
    workflow: Option<CharacterWorkflowFacts>,
)
    requires
        director_agent != "spec_writer"@,
        director_agent != "spec_reviewer"@,
        director_agent != "visual_designer"@,
    ensures
        !allowed_handoffs(
            target_kind,
            current_agent,
            director_agent,
            handoff_count,
            stage_agents,
            character_state,
            workflow,
        ).contains(current_agent),
{
    lemma_without_excludes(stage_agents, director_agent);
    if current_agent != director_agent {
        assert(seq![director_agent][0] == director_agent);
        assert(!seq![director_agent].contains(current_agent)) by {
            if seq![director_agent].contains(current_agent) {
                let i = choose|i: int| 0 <= i < 1 && seq![director_agent][i] == current_agent;
            }
        }
    }
    match (character_state, workflow) {
        (Some(state), Some(facts)) => {
            match character_handoff(
                state,
                facts.spec_review_status,
                facts.render_rejected_after_generation,
                facts.views_rejected_after_generation,
            ) {
                Some(agent) => {
                    assert(!seq![agent].contains(director_agent)) by {
                        if seq![agent].contains(director_agent) {
                            let i = choose|i: int| 0 <= i < 1 && seq![agent][i] == director_agent;
                        }
                    }
                },
                None => {},
            }
        },
        _ => {},
    }
}

/// A character's workflow calls for at most one specialist at a time.
pub proof fn law_character_has_one_next_specialist(
    current_agent: Seq<char>,
    director_agent: Seq<char>,
    handoff_count: int,
    stage_agents: Seq<Seq<char>>,
    character_state: Option<CharacterState>,
    workflow: Option<CharacterWorkflowFacts>,
)
    ensures
        allowed_handoffs(
            "character"@,
            current_agent,
            director_agent,
            handoff_count,
            stage_agents,
            character_state,
            workflow,
        ).len() <= 1,
{
}

/// Until the views are confirmed some step asks for attention, and the
/// headline names the first such step; once they are, every step is finished.
pub proof fn law_progress_headline(
    state: CharacterState,
    spec_confirmation_ready: bool,
    spec_review_failed: bool,
    render_rejected: bool,
    views_rejected: bool,
    failed_design_stage: Option<Seq<char>>,
)
    ensures
        state == CharacterState::S5ViewsConfirmed ==> forall|i: int|
            0 <= i < 6 ==> #[trigger] step_status(
                state,
                spec_confirmation_ready,
                spec_review_failed,
                render_rejected,
                views_rejected,
                failed_design_stage,
                i,
            ) == StepStatus::Finish,
        state != CharacterState::S5ViewsConfirmed ==> (exists|i: int|
            0 <= i < 6 && progress_label(
                state,
                spec_confirmation_ready,
                spec_review_failed,
                render_rejected,
                views_rejected,
                failed_design_stage,
            ) == step_label(i) && is_active(
                step_status(
                    state,
                    spec_confirmation_ready,
                    spec_review_failed,
                    render_rejected,
                    views_rejected,
                    failed_design_stage,
                    i,
                ),
            )),
{
    reveal_with_fuel(first_active_from, 7);
    let f = failed_design_stage;
    let (a, b, c, d) = (spec_confirmation_ready, spec_review_failed, render_rejected, views_rejected);
    if state != CharacterState::S5ViewsConfirmed {
        let r = first_active_from(state, a, b, c, d, f, 0);
        assert(r is Some) by {
            assert(is_active(step_status(state, a, b, c, d, f, 0))
                || is_active(step_status(state, a, b, c, d, f, 1))
                || is_active(step_status(state, a, b, c, d, f, 2))
                || is_active(step_status(state, a, b, c, d, f, 3))
                || is_active(step_status(state, a, b, c, d, f, 4))
                || is_active(step_status(state, a, b, c, d, f, 5)));
        }
        lemma_first_active_is_active(state, a, b, c, d, f, 0);
        let i = r->0;
        assert(0 <= i < 6 && progress_label(state, a, b, c, d, f) == step_label(i));
    }
}

proof fn lemma_first_active_is_active(
    state: CharacterState,
    a: bool,
    b: bool,
    c: bool,
    d: bool,
    f: Option<Seq<char>>,
    from: int,
)
    requires
        0 <= from,
    ensures
        first_active_from(state, a, b, c, d, f, from) matches Some(i) ==> from <= i < 6 && is_active(
            step_status(state, a, b, c, d, f, i),
        ),
    decreases 6 - from,
{
    if from < 6 && !is_active(step_status(state, a, b, c, d, f, from)) {
        lemma_first_active_is_active(state, a, b, c, d, f, from + 1);
    }
}


/// The position of a state in the character's lifecycle.
pub open spec fn state_rank(state: CharacterState) -> int {
    match state {
        CharacterState::S0SpecDrafting => 0,
        CharacterState::S1SpecConfirmed => 1,
        CharacterState::S2RenderGenerated => 2,
        CharacterState::S3RenderConfirmed => 3,
        CharacterState::S4ViewsGenerated => 4,
        CharacterState::S5ViewsConfirmed => 5,
    }
}

/// How many of the first `n` steps are finished.
pub open spec fn finished_steps(
    state: CharacterState,
    spec_confirmation_ready: bool,
    spec_review_failed: bool,
    render_rejected: bool,
    views_rejected: bool,
    failed_design_stage: Option<Seq<char>>,
    n: int,
) -> int
    decreases n,
{
    if n <= 0 {
        0
    } else {
        finished_steps(
            state,
            spec_confirmation_ready,
            spec_review_failed,
            render_rejected,
            views_rejected,
            failed_design_stage,
            n - 1,
        ) + if step_status(
            state,
            spec_confirmation_ready,
            spec_review_failed,
            render_rejected,
            views_rejected,
            failed_design_stage,
            n - 1,
        ) == StepStatus::Finish {
            1int
        } else {
            0int
        }
    }
}

/// The steps of the progress are in order: a finished step comes only after
/// finished steps, and a waiting step only before waiting steps.
pub proof fn law_progress_steps_are_ordered(
    state: CharacterState,
    spec_confirmation_ready: bool,
    spec_review_failed: bool,
    render_rejected: bool,
    views_rejected: bool,
    failed_design_stage: Option<Seq<char>>,
    i: int,
    j: int,
)
    requires
        0 <= i < j < 6,
    ensures
        ({
            let si = step_status(state, spec_confirmation_ready, spec_review_failed, render_rejected, views_rejected, failed_design_stage, i);
            let sj = step_status(state, spec_confirmation_ready, spec_review_failed, render_rejected, views_rejected, failed_design_stage, j);
            &&& sj == StepStatus::Finish ==> si == StepStatus::Finish
            &&& si == StepStatus::Wait ==> sj == StepStatus::Wait
        }),
{
}

/// The bounds on the finished steps in each state.
proof fn lemma_finished_steps_bounds(
    state: CharacterState,
    a: bool,
    b: bool,
    c: bool,
    d: bool,
    f: Option<Seq<char>>,
)
    ensures
        ({
            let n = finished_steps(state, a, b, c, d, f, 6);
            &&& state == CharacterState::S0SpecDrafting ==> 0 <= n <= 1
            &&& state == CharacterState::S1SpecConfirmed ==> n == 2
            &&& state == CharacterState::S2RenderGenerated ==> 2 <= n <= 3
            &&& state == CharacterState::S3RenderConfirmed ==> n == 4
            &&& state == CharacterState::S4ViewsGenerated ==> 4 <= n <= 5
            &&& state == CharacterState::S5ViewsConfirmed ==> n == 6
        }),
{
    reveal_with_fuel(finished_steps, 7);
}

/// The progress only moves forward with the lifecycle: a later state shows at
/// least as many finished steps as an earlier one, whatever the reviews,
/// rejections and failed tasks of either; once the views are confirmed all
/// six steps are finished.
pub proof fn law_progress_advances_with_state(
    s1: CharacterState,
    a1: bool,
    b1: bool,
    c1: bool,
    d1: bool,
    f1: Option<Seq<char>>,
    s2: CharacterState,
    a2: bool,
    b2: bool,
    c2: bool,
    d2: bool,
    f2: Option<Seq<char>>,
)
    requires
        state_rank(s1) < state_rank(s2),
    ensures
        finished_steps(s1, a1, b1, c1, d1, f1, 6) <= finished_steps(s2, a2, b2, c2, d2, f2, 6),
        finished_steps(s2, a2, b2, c2, d2, f2, 6) == 6 <==> s2 == CharacterState::S5ViewsConfirmed,
{
    lemma_finished_steps_bounds(s1, a1, b1, c1, d1, f1);
    lemma_finished_steps_bounds(s2, a2, b2, c2, d2, f2);
}


/// For the director on a character, with handoff budget left, past the spec
/// stage: the visual designer is the one agent it may hand to exactly while a
/// render or the views are being worked on (after the spec or the render is
/// confirmed, or after a generated render or set of views was rejected), and
/// nobody may be handed to otherwise. So the handoffs are offered exactly when
/// the progress has a design stage in hand.
pub proof fn law_director_hands_design_work_to_visual_designer(
    director_agent: Seq<char>,
    handoff_count: int,
    stage_agents: Seq<Seq<char>>,
    state: CharacterState,
    facts: CharacterWorkflowFacts,
    spec_confirmation_ready: bool,
)
    requires
        handoff_count < MAX_HANDOFFS,
        state != CharacterState::S0SpecDrafting,
    ensures
        ({
            let handoffs = allowed_handoffs(
                "character"@,
                director_agent,
                director_agent,
                handoff_count,
                stage_agents,
                Some(state),
                Some(facts),
            );
            let design_in_hand = state == CharacterState::S1SpecConfirmed || state
                == CharacterState::S3RenderConfirmed || (state == CharacterState::S2RenderGenerated
                && facts.render_rejected_after_generation) || (state == CharacterState::S4ViewsGenerated
                && facts.views_rejected_after_generation);
            &&& design_in_hand ==> handoffs == seq!["visual_designer"@]
            &&& !design_in_hand ==> handoffs.len() == 0
            &&& (handoffs.len() > 0 <==> design_focus(
                state,
                spec_confirmation_ready,
                facts.render_rejected_after_generation,
                facts.views_rejected_after_generation,
            ) is Some)
        }),
{
}

/// For the director on a character still in the spec stage, with handoff
/// budget left: the spec writer is called for while no draft awaits review or
/// the last one was rejected, the spec_reviewer agent while a review is pending or
/// went wrong, and nobody once the draft was approved (with or without
/// concerns) and awaits the user's confirmation.
pub proof fn law_director_hands_spec_work_by_review(
    director_agent: Seq<char>,
    handoff_count: int,
    stage_agents: Seq<Seq<char>>,
    facts: CharacterWorkflowFacts,
)
    requires
        handoff_count < MAX_HANDOFFS,
    ensures
        ({
            let handoffs = allowed_handoffs(
                "character"@,
                director_agent,
                director_agent,
                handoff_count,
                stage_agents,
                Some(CharacterState::S0SpecDrafting),
                Some(facts),
            );
            let review = facts.spec_review_status;
            &&& (review == SpecReviewStatus::AwaitingDraft || review == SpecReviewStatus::Rejected)
                ==> handoffs == seq!["spec_writer"@]
            &&& (review == SpecReviewStatus::Pending || review == SpecReviewStatus::Error) ==> handoffs
                == seq!["spec_reviewer"@]
            &&& (review == SpecReviewStatus::Approved || review == SpecReviewStatus::Concerns)
                ==> handoffs.len() == 0
        }),
{
}

/// How the review of a spec draft stands, by what is known of it: without a
/// pending draft it awaits one; a verdict on the pending draft decides by its
/// decision (APPROVE, CONCERNS, REJECT; anything else is an error); without
/// one, a task of the spec_reviewer agent keeps it pending exactly while that task is pending
/// or running, and once it has ended without a verdict the review is an error;
/// while the latest spec task is not that agent's (or there is none), the
/// review is pending.
pub proof fn law_spec_review_status(
    has_pending_spec: bool,
    decision: Option<Seq<char>>,
    latest_spec_task: Option<(Seq<char>, TaskStatus)>,
)
    ensures
        ({
            let s = spec_review_status_of(has_pending_spec, decision, latest_spec_task);
            let task = latest_spec_task->0;
            &&& !has_pending_spec ==> s == SpecReviewStatus::AwaitingDraft
            &&& has_pending_spec && decision == Some("APPROVE"@) ==> s == SpecReviewStatus::Approved
            &&& has_pending_spec && decision == Some("CONCERNS"@) ==> s == SpecReviewStatus::Concerns
            &&& has_pending_spec && decision == Some("REJECT"@) ==> s == SpecReviewStatus::Rejected
            &&& has_pending_spec && decision is Some && decision->0 != "APPROVE"@ && decision->0 != "CONCERNS"@
                && decision->0 != "REJECT"@ ==> s == SpecReviewStatus::Error
            &&& has_pending_spec && decision is None && latest_spec_task is Some && task.0
                == "spec_reviewer"@ ==> ({
                let st = task.1;
                &&& s == SpecReviewStatus::Pending <==> (st == TaskStatus::Pending || st == TaskStatus::Running)
                &&& s == SpecReviewStatus::Error <==> (st == TaskStatus::Succeeded || st == TaskStatus::Failed || st
                    == TaskStatus::Cancelled)
            })
            &&& has_pending_spec && decision is None && !(latest_spec_task is Some && task.0
                == "spec_reviewer"@) ==> s == SpecReviewStatus::Pending
        }),
{
    reveal_strlit("APPROVE");
    reveal_strlit("CONCERNS");
    reveal_strlit("REJECT");
    assert("CONCERNS"@[0] != "APPROVE"@[0]);
    assert("REJECT"@[0] != "APPROVE"@[0] && "REJECT"@[0] != "CONCERNS"@[0]);
}

/// The verdict decisions that an agent's reply may carry are exactly those
/// that the review of a spec draft reads: a verdict with a known token, at
/// least one section and no blank constraint passes validation exactly when
/// the review status it leads to is not an error; so APPROVE, CONCERNS and
/// REJECT are each accepted.
pub proof fn law_accepted_verdicts_are_read(v: AgentVerdict, latest_spec_task: Option<(Seq<char>, TaskStatus)>)
    requires
        v.token@ == "SPEC-CHECK"@ || v.token@ == "VIEW-CHECK"@,
        v.sections.len() > 0,
        forall|i: int|
            0 <= i < v.constraints.len() ==> !crate::action::blank((#[trigger] v.constraints@[i]).item)
                && !crate::action::blank(v.constraints@[i].value),
    ensures
        !crate::action::verdict_invalid(v) <==> spec_review_status_of(true, Some(v.decision@), latest_spec_task)
            != SpecReviewStatus::Error,
        (v.decision@ == "APPROVE"@ || v.decision@ == "CONCERNS"@ || v.decision@ == "REJECT"@)
            ==> !crate::action::verdict_invalid(v),
{
    reveal_strlit("APPROVE");
    reveal_strlit("CONCERNS");
    reveal_strlit("REJECT");
    assert("CONCERNS"@[0] != "APPROVE"@[0]);
    assert("REJECT"@[0] != "APPROVE"@[0] && "REJECT"@[0] != "CONCERNS"@[0]);
}

} // verus!
