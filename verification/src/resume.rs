//! Resuming a character's workflow: the key under which it waits to be
//! continued, the progress shown with it, and the director's resume turn.

use vstd::prelude::*;
use crate::action::{owned, str_eq};
use crate::domain::CharacterState;
use crate::project::GameServiceError;
use crate::text::{i64_decimal, push_chars, signed_decimal};
use crate::turns::CONVERSATION_ALREADY_RUNNING;
use crate::workflow::{
    build_character_workflow_progress, opt_str_view, opt_string_view, progress_label,
    step_key, step_label, step_status, step_status_text, CharacterWorkflowFacts, CharacterWorkflowProgress,
    SpecReviewStatus,
};

verus! {

/// `prefix` followed by `id`, when there is an id.
pub open spec fn keyed(prefix: Seq<char>, id: Option<Seq<char>>) -> Option<Seq<char>> {
    match id {
        Some(i) => Some(prefix + i),
        None => None,
    }
}

/// `prefix` followed by the time, when there is one.
pub open spec fn timed(prefix: Seq<char>, at: Option<i64>) -> Option<Seq<char>> {
    match at {
        Some(t) => Some(prefix + signed_decimal(t as int)),
        None => None,
    }
}

/// The key under which a character's workflow waits to be continued, if it
/// does: nothing waits while its conversation or one of its tasks runs; a
/// drafting character waits on its pending draft's review, or on the rewrite
/// that a rejection asks for; a confirmed stage waits on the next stage from
/// its confirmation; a rejected image waits on its retry.
pub open spec fn continuation_key_of(
    state: CharacterState,
    busy: bool,
    review: SpecReviewStatus,
    pending_draft_id: Option<Seq<char>>,
    spec_rejection_id: Option<Seq<char>>,
    render_rejection_id: Option<Seq<char>>,
    views_rejection_id: Option<Seq<char>>,
    gate_spec_confirmed_at: Option<i64>,
    gate_render_confirmed_at: Option<i64>,
) -> Option<Seq<char>> {
    if busy {
        None
    } else {
        match state {
            CharacterState::S0SpecDrafting => match review {
                SpecReviewStatus::Pending | SpecReviewStatus::Rejected => keyed("spec:"@, pending_draft_id),
                SpecReviewStatus::AwaitingDraft => keyed("spec-rewrite:"@, spec_rejection_id),
                _ => None,
            },
            CharacterState::S1SpecConfirmed => timed("render:"@, gate_spec_confirmed_at),
            CharacterState::S2RenderGenerated => keyed("render-retry:"@, render_rejection_id),
            CharacterState::S3RenderConfirmed => timed("views:"@, gate_render_confirmed_at),
            CharacterState::S4ViewsGenerated => keyed("views-retry:"@, views_rejection_id),
            CharacterState::S5ViewsConfirmed => None,
        }
    }
}

fn key_with(prefix: &str, id: &Option<String>) -> (r: Option<String>)
    ensures
        opt_string_view(r) == keyed(prefix@, opt_string_view(*id)),
{
    match id {
        Some(i) => {
            let mut k = owned(prefix);
            k.append(i.as_str());
            Some(k)
        },
        None => None,
    }
}

fn key_at(prefix: &str, at: Option<i64>) -> (r: Option<String>)
    ensures
        opt_string_view(r) == timed(prefix@, at),
{
    match at {
        Some(t) => {
            let mut k = owned(prefix);
            let digits = i64_decimal(t);
            push_chars(&mut k, digits.as_slice());
            Some(k)
        },
        None => None,
    }
}

/// The key under which a character's workflow waits to be continued.
pub fn continuation_key(
    state: CharacterState,
    conversation_running: bool,
    facts: &CharacterWorkflowFacts,
    pending_draft_id: Option<&str>,
    gate_spec_confirmed_at: Option<i64>,
    gate_render_confirmed_at: Option<i64>,
) -> (r: Option<String>)
    ensures
        opt_string_view(r) == continuation_key_of(
            state,
            conversation_running || facts.has_running_task,
            facts.spec_review_status,
            opt_str_view(pending_draft_id),
            opt_string_view(facts.latest_spec_rejection_id),
            opt_string_view(facts.render_rejection_id),
            opt_string_view(facts.views_rejection_id),
            gate_spec_confirmed_at,
            gate_render_confirmed_at,
        ),
{
    if conversation_running || facts.has_running_task {
        return None;
    }
    match state {
        CharacterState::S0SpecDrafting => match facts.spec_review_status {
            SpecReviewStatus::Pending | SpecReviewStatus::Rejected => match pending_draft_id {
                Some(id) => {
                    let mut k = owned("spec:");
                    k.append(id);
                    Some(k)
                },
                None => None,
            },
            SpecReviewStatus::AwaitingDraft => key_with("spec-rewrite:", &facts.latest_spec_rejection_id),
            _ => None,
        },
        CharacterState::S1SpecConfirmed => key_at("render:", gate_spec_confirmed_at),
        CharacterState::S2RenderGenerated => key_with("render-retry:", &facts.render_rejection_id),
        CharacterState::S3RenderConfirmed => key_at("views:", gate_render_confirmed_at),
        CharacterState::S4ViewsGenerated => key_with("views-retry:", &facts.views_rejection_id),
        CharacterState::S5ViewsConfirmed => None,
    }
}

/// Whether the pending spec may be confirmed: its review approved it, with or
/// without concerns.
pub open spec fn confirmation_ready(review: SpecReviewStatus) -> bool {
    review == SpecReviewStatus::Approved || review == SpecReviewStatus::Concerns
}

/// The progress of a character's workflow as shown to the user, with the key
/// under which it waits to be continued.
pub fn character_workflow_progress(
    state: CharacterState,
    conversation_running: bool,
    facts: &CharacterWorkflowFacts,
    pending_draft_id: Option<&str>,
    gate_spec_confirmed_at: Option<i64>,
    gate_render_confirmed_at: Option<i64>,
) -> (r: CharacterWorkflowProgress)
    ensures
        r.steps.len() == 6,
        forall|i: int|
            0 <= i < 6 ==> {
                &&& (#[trigger] r.steps@[i]).key@ == step_key(i)
                &&& r.steps@[i].label@ == step_label(i)
                &&& r.steps@[i].status@ == step_status_text(
                    step_status(
                        state,
                        confirmation_ready(facts.spec_review_status),
                        facts.spec_review_status == SpecReviewStatus::Error,
                        facts.render_rejected_after_generation,
                        facts.views_rejected_after_generation,
                        opt_string_view(facts.failed_design_stage),
                        i,
                    ),
                )
            },
        r.status_label@ == progress_label(
            state,
            confirmation_ready(facts.spec_review_status),
            facts.spec_review_status == SpecReviewStatus::Error,
            facts.render_rejected_after_generation,
            facts.views_rejected_after_generation,
            opt_string_view(facts.failed_design_stage),
        ),
        opt_string_view(r.continuation_key) == continuation_key_of(
            state,
            conversation_running || facts.has_running_task,
            facts.spec_review_status,
            opt_str_view(pending_draft_id),
            opt_string_view(facts.latest_spec_rejection_id),
            opt_string_view(facts.render_rejection_id),
            opt_string_view(facts.views_rejection_id),
            gate_spec_confirmed_at,
            gate_render_confirmed_at,
        ),
        r.needs_resume == (r.continuation_key is Some),
{
    let key = continuation_key(
        state,
        conversation_running,
        facts,
        pending_draft_id,
        gate_spec_confirmed_at,
        gate_render_confirmed_at,
    );
    let ready = match facts.spec_review_status {
        SpecReviewStatus::Approved | SpecReviewStatus::Concerns => true,
        _ => false,
    };
    let failed = match facts.spec_review_status {
        SpecReviewStatus::Error => true,
        _ => false,
    };
    let failed_stage = match &facts.failed_design_stage {
        Some(s) => Some(s.as_str()),
        None => None,
    };
    build_character_workflow_progress(
        state,
        ready,
        failed,
        facts.render_rejected_after_generation,
        facts.views_rejected_after_generation,
        failed_stage,
        key,
    )
}

/// What the director is told when a workflow is resumed under `key`.
pub open spec fn resume_text(key: Seq<char>) -> Seq<char> {
    "检测到角色工作流待续跑（"@ + key + "），请根据当前状态继续处理。"@
}

/// Whether a resume asked for under `requested` goes ahead, given the key the
/// workflow now waits under: nothing is resumed when it waits for nothing, a
/// stale key is refused, and otherwise the director is told what to resume.
pub fn resume_request(current_key: Option<&str>, requested: &str) -> (r: Result<Option<String>, GameServiceError>)
    ensures
        match current_key {
            None => r == Ok::<Option<String>, GameServiceError>(None),
            Some(k) => if k@ != requested@ {
                r matches Err(GameServiceError::InvalidCharacterOperation(m)) && m@ == "续跑标识已过期，请刷新角色状态"@
            } else {
                r matches Ok(Some(t)) && t@ == resume_text(k@)
            },
        },
{
    let key = match current_key {
        None => {
            return Ok(None);
        },
        Some(k) => k,
    };
    if !str_eq(key, requested) {
        return Err(GameServiceError::InvalidCharacterOperation(owned("续跑标识已过期，请刷新角色状态")));
    }
    let mut text = owned("检测到角色工作流待续跑（");
    text.append(key);
    text.append("），请根据当前状态继续处理。");
    Ok(Some(text))
}

/// A resume that finds the conversation already running is skipped rather
/// than refused; any other outcome stands.
pub fn resume_if_idle<T>(outcome: Result<T, GameServiceError>) -> (r: Result<Option<T>, GameServiceError>)
    ensures
        match outcome {
            Ok(t) => r == Ok::<Option<T>, GameServiceError>(Some(t)),
            Err(e) => if e matches GameServiceError::InvalidAction(m) && m@ == CONVERSATION_ALREADY_RUNNING@ {
                r == Ok::<Option<T>, GameServiceError>(None)
            } else {
                r == Err::<Option<T>, GameServiceError>(e)
            },
        },
{
    match outcome {
        Ok(t) => Ok(Some(t)),
        Err(e) => {
            let running = match &e {
                GameServiceError::InvalidAction(m) => str_eq(m.as_str(), CONVERSATION_ALREADY_RUNNING),
                _ => false,
            };
            if running {
                Ok(None)
            } else {
                Err(e)
            }
        },
    }
}

/// A workflow never waits to be resumed while its conversation or one of its
/// tasks is running, nor once its views are confirmed.
pub proof fn law_nothing_resumes_while_running(
    state: CharacterState,
    busy: bool,
    review: SpecReviewStatus,
    pending_draft_id: Option<Seq<char>>,
    spec_rejection_id: Option<Seq<char>>,
    render_rejection_id: Option<Seq<char>>,
    views_rejection_id: Option<Seq<char>>,
    gate_spec_confirmed_at: Option<i64>,
    gate_render_confirmed_at: Option<i64>,
)
    ensures
        busy ==> continuation_key_of(
            state,
            busy,
            review,
            pending_draft_id,
            spec_rejection_id,
            render_rejection_id,
            views_rejection_id,
            gate_spec_confirmed_at,
            gate_render_confirmed_at,
        ) is None,
        state == CharacterState::S5ViewsConfirmed ==> continuation_key_of(
            state,
            busy,
            review,
            pending_draft_id,
            spec_rejection_id,
            render_rejection_id,
            views_rejection_id,
            gate_spec_confirmed_at,
            gate_render_confirmed_at,
        ) is None,
{
}

} // verus!
