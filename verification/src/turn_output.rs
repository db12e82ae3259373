//! Completing a turn with the agent's output: which store's attempt it ends,
//! which reply it fills, and whether the output keeps the action protocol.
//! A refused output writes nothing: the caller is told to retry or fail the
//! turn. An accepted output goes on to be checked and committed.

use vstd::prelude::*;
use crate::action::{action_error, complete_agent_turn, owned, protocol_error_text, ActionProtocolError};
use crate::conversation::{
    check_review_subject, protocol_violation_message, review_subject_message, review_subject_refused, violation_text,
};
use crate::domain::{AgentAction, AgentTurnOutput};
use crate::facts::last_true;
use crate::project::GameServiceError;
use crate::text::string_views;
use crate::turns::{invalid, pending_replies, ConversationTurns};
use crate::workflow::opt_string_view;

verus! {

/// What the store that ran a turn knows of its attempt.
#[derive(Debug, Clone, PartialEq, Eq)]
pub struct TurnAttemptContext {
    pub agent_code: String,
    pub conversation_id: String,
    pub allowed_handoffs: Vec<String>,
    /// The draft being checked, when the turn checks one.
    pub review_subject_id: Option<String>,
}

/// What completing a turn with an output comes to.
#[derive(Debug, Clone, PartialEq, Eq)]
pub enum TurnOutputStep {
    /// No writable store knows the turn: it completes with nothing.
    NothingToComplete,
    /// The output breaks the action protocol. Nothing has been written: no
    /// store row and no message changes; the caller retries the turn or fails
    /// it with `message`.
    ActionProtocolViolation { codex_turn_id: String, assistant_message_id: String, message: String },
    /// The output keeps the protocol; it fills reply `assistant_message_id`
    /// once its artifacts are checked and the turn is committed.
    Accepted { assistant_message_id: String, output: AgentTurnOutput },
}

/// Why an output is refused, if it is: no output at all, a block that could
/// not be read as an action, an action outside the protocol for its sender,
/// or a checking agent's handoff without a spec check on the draft at hand.
pub open spec fn output_refusal(
    decoded: Option<Result<(String, AgentAction), ActionProtocolError>>,
    agent: Seq<char>,
    director: Seq<char>,
    allowed: Seq<Seq<char>>,
    subject: Option<Seq<char>>,
) -> Option<Seq<char>> {
    match decoded {
        None => Some(violation_text(None)),
        Some(Err(e)) => Some(violation_text(Some(protocol_error_text(e@)))),
        Some(Ok((_, a))) => match action_error(a, agent, director, allowed) {
            Some(e) => Some(violation_text(Some(protocol_error_text(e)))),
            None => if review_subject_refused(agent, a, subject) {
                Some(review_subject_message())
            } else {
                None
            },
        },
    }
}

fn violation(codex_turn_id: &str, assistant_message_id: &String, message: String) -> (s: TurnOutputStep)
    ensures
        s matches TurnOutputStep::ActionProtocolViolation { codex_turn_id: t, assistant_message_id: id, message: m }
            && t@ == codex_turn_id@ && id@ == assistant_message_id@ && m == message,
{
    TurnOutputStep::ActionProtocolViolation {
        codex_turn_id: owned(codex_turn_id),
        assistant_message_id: assistant_message_id.clone(),
        message,
    }
}

/// Decides what completing turn `codex_turn_id` with an output comes to.
///
/// `context` is what the first writable store that knows the turn says of its
/// attempt (`None` when none does); `conversation` is the conversation that
/// attempt belongs to, if the runtime holds it; `decoded` is the output, cut at
/// its action block and read as an action (`None` when the agent returned
/// nothing). Deciding writes nothing.
pub fn complete_turn_output_step(
    codex_turn_id: &str,
    context: Option<&TurnAttemptContext>,
    conversation: Option<&ConversationTurns>,
    decoded: Option<Result<(String, AgentAction), ActionProtocolError>>,
) -> (r: Result<TurnOutputStep, GameServiceError>)
    ensures
        match context {
            None => r == Ok::<TurnOutputStep, GameServiceError>(TurnOutputStep::NothingToComplete),
            Some(c) => match conversation {
                None => r matches Err(GameServiceError::ConversationNotFound(id)) && id@ == c.conversation_id@,
                Some(conv) => match last_true(pending_replies(conv.messages@, c.agent_code@)) {
                    None => r matches Err(e) && invalid(e, "找不到本轮待完成的 Agent 消息"@),
                    Some(i) => match output_refusal(
                        decoded,
                        c.agent_code@,
                        conv.director_agent_code@,
                        string_views(c.allowed_handoffs@),
                        opt_string_view(c.review_subject_id),
                    ) {
                        Some(m) => r matches Ok(
                            TurnOutputStep::ActionProtocolViolation { codex_turn_id: t, assistant_message_id: id, message },
                        ) && t@ == codex_turn_id@ && id@ == conv.messages@[i].id@ && message@ == m,
                        None => r matches Ok(TurnOutputStep::Accepted { assistant_message_id: id, output })
                            && id@ == conv.messages@[i].id@ && (decoded matches Some(Ok((text, a)))
                            && output.text == text && output.action == a),
                    },
                },
            },
        },
{
    let c = match context {
        None => {
            return Ok(TurnOutputStep::NothingToComplete);
        },
        Some(c) => c,
    };
    let conv = match conversation {
        None => {
            return Err(GameServiceError::ConversationNotFound(c.conversation_id.clone()));
        },
        Some(conv) => conv,
    };
    let i = match conv.pending_reply(c.agent_code.as_str()) {
        Ok(i) => i,
        Err(e) => {
            return Err(e);
        },
    };
    let assistant_message_id = conv.messages[i].id.clone();
    let (text, action) = match decoded {
        None => {
            return Ok(violation(codex_turn_id, &assistant_message_id, protocol_violation_message(None)));
        },
        Some(Err(e)) => {
            let m = e.message();
            return Ok(violation(codex_turn_id, &assistant_message_id, protocol_violation_message(Some(m.as_str()))));
        },
        Some(Ok(pair)) => pair,
    };
    let output = match complete_agent_turn(
        text,
        action,
        c.agent_code.as_str(),
        conv.director_agent_code.as_str(),
        c.allowed_handoffs.as_slice(),
    ) {
        Ok(output) => output,
        Err(e) => {
            let m = e.message();
            return Ok(violation(codex_turn_id, &assistant_message_id, protocol_violation_message(Some(m.as_str()))));
        },
    };
    let subject = match &c.review_subject_id {
        Some(s) => Some(s.as_str()),
        None => None,
    };
    match check_review_subject(c.agent_code.as_str(), &output.action, subject) {
        Ok(()) => {},
        Err(m) => {
            return Ok(violation(codex_turn_id, &assistant_message_id, m));
        },
    }
    Ok(TurnOutputStep::Accepted { assistant_message_id, output })
}

} // verus!
