//! The boundary through which game workflows start Codex threads and turns,
//! and the retry decisions taken around it.

use vstd::prelude::*;
use crate::action::owned;
use crate::routing::{RouteDecision, RouteFailureKind};
use crate::text::{decimal, push_chars, u64_decimal};

verus! {

/// A request to open a Codex thread for an agent.
#[derive(Debug, Clone, PartialEq, Eq)]
pub struct StartThreadRequest {
    pub cwd: String,
    pub agent_code: String,
    pub route: RouteDecision,
    pub image_generation_route: Option<RouteDecision>,
}

/// A thread that was opened.
#[derive(Debug, Clone, PartialEq, Eq)]
pub struct StartedThread {
    pub thread_id: String,
    pub session_id: String,
}

/// A turn that was started.
#[derive(Debug, Clone, PartialEq, Eq)]
pub struct StartedTurn {
    pub turn_id: String,
}

/// A message to steer a running turn.
#[derive(Debug, Clone, PartialEq, Eq)]
pub struct SteerTurnRequest {
    pub thread_id: String,
    pub expected_turn_id: String,
    pub message: String,
}

/// Why an execution request failed.
#[derive(Debug, Clone, PartialEq, Eq)]
pub enum ExecutionError {
    InvalidRequest(String),
    Retryable(String),
    ContextTooLarge(String),
    CapabilityUnavailable(String),
    Fatal(String),
}

/// The message of an execution error.
pub open spec fn execution_error_text(e: ExecutionError) -> Seq<char> {
    match e {
        ExecutionError::InvalidRequest(m) => "execution request is invalid: "@ + m@,
        ExecutionError::Retryable(m) => "execution can be retried: "@ + m@,
        ExecutionError::ContextTooLarge(m) => "execution context is too large: "@ + m@,
        ExecutionError::CapabilityUnavailable(m) => "execution capability is unavailable: "@ + m@,
        ExecutionError::Fatal(m) => "execution failed: "@ + m@,
    }
}

impl ExecutionError {
    /// The message that describes this error.
    pub fn message(&self) -> (r: String)
        ensures
            r@ == execution_error_text(*self),
    {
        let (mut s, m) = match self {
            ExecutionError::InvalidRequest(m) => (owned("execution request is invalid: "), m),
            ExecutionError::Retryable(m) => (owned("execution can be retried: "), m),
            ExecutionError::ContextTooLarge(m) => (owned("execution context is too large: "), m),
            ExecutionError::CapabilityUnavailable(m) => (
                owned("execution capability is unavailable: "),
                m,
            ),
            ExecutionError::Fatal(m) => (owned("execution failed: "), m),
        };
        s.append(m.as_str());
        s
    }
}

/// How a failed execution counts against its route: a request that was invalid
/// or too large says nothing of the route.
pub open spec fn failure_kind_of(e: ExecutionError) -> Option<RouteFailureKind> {
    match e {
        ExecutionError::Retryable(_) => Some(RouteFailureKind::Retryable),
        ExecutionError::CapabilityUnavailable(_) => Some(RouteFailureKind::CapabilityUnavailable),
        ExecutionError::Fatal(_) => Some(RouteFailureKind::Fatal),
        ExecutionError::ContextTooLarge(_) | ExecutionError::InvalidRequest(_) => None,
    }
}

/// How a failed execution counts against its route.
pub fn route_failure_kind(error: &ExecutionError) -> (r: Option<RouteFailureKind>)
    ensures
        r == failure_kind_of(*error),
{
    match error {
        ExecutionError::Retryable(_) => Some(RouteFailureKind::Retryable),
        ExecutionError::CapabilityUnavailable(_) => Some(RouteFailureKind::CapabilityUnavailable),
        ExecutionError::Fatal(_) => Some(RouteFailureKind::Fatal),
        ExecutionError::ContextTooLarge(_) | ExecutionError::InvalidRequest(_) => None,
    }
}

/// The input a turn hands the model: the agent definition, the prompt, and the
/// serialized context package tagged with the attempt.
pub open spec fn model_input_text(
    agent_definition: Seq<char>,
    prompt: Seq<char>,
    attempt_id: Seq<char>,
    context_json: Seq<char>,
) -> Seq<char> {
    "<game_agent_definition>\n"@ + agent_definition + "\n</game_agent_definition>\n\n"@ + prompt
        + "\n\n<game_context attempt_id=\""@ + attempt_id + "\">\n"@ + context_json
        + "\n</game_context>"@
}

/// Builds the input a turn hands the model; `context_json` is the serialized
/// context package.
pub fn model_input(agent_definition: &str, prompt: &str, attempt_id: &str, context_json: &str) -> (r:
    String)
    ensures
        r@ == model_input_text(agent_definition@, prompt@, attempt_id@, context_json@),
{
    let mut s = owned("<game_agent_definition>\n");
    s.append(agent_definition);
    s.append("\n</game_agent_definition>\n\n");
    s.append(prompt);
    s.append("\n\n<game_context attempt_id=\"");
    s.append(attempt_id);
    s.append("\">\n");
    s.append(context_json);
    s.append("\n</game_context>");
    s
}

/// What a retried attempt was started as.
#[derive(Debug, Clone, PartialEq, Eq)]
pub struct TaskAttemptRetry {
    pub attempt_id: String,
    pub task_id: String,
    pub conversation_id: String,
    pub agent_code: String,
    pub turn_id: String,
}

/// How many times an output that breaks the action contract is retried.
pub const MAX_ACTION_CONTRACT_RETRIES: u32 = 3;

/// The output token limit of the retry after the `n`-th attempt was cut off by
/// its length (counting from 1), if it may be retried.
pub open spec fn output_length_retry_limit_of(attempt_no: nat) -> Option<u64> {
    let index = if attempt_no == 0 { 0nat } else { (attempt_no - 1) as nat };
    if index == 0 {
        Some(32_000u64)
    } else if index == 1 {
        Some(64_000u64)
    } else if index == 2 {
        Some(128_000u64)
    } else if index == 3 {
        Some(200_000u64)
    } else {
        None
    }
}

/// The output token limit of the retry after an attempt was cut off by its
/// length; `None` once the limits are spent.
pub fn output_length_retry_limit(attempt_no: u32) -> (r: Option<u64>)
    ensures
        r == output_length_retry_limit_of(attempt_no as nat),
{
    let limits: [u64; 4] = [32_000, 64_000, 128_000, 200_000];
    let index = attempt_no.saturating_sub(1);
    if index < 4 {
        Some(limits[index as usize])
    } else {
        None
    }
}

/// The prompt of a retry after an output broke the action contract.
pub open spec fn action_contract_retry_text(validation_error: Seq<char>, attempt_no: nat) -> Seq<
    char,
> {
    "系统检测到上一轮输出未通过 Action 契约校验："@ + validation_error + "\n这是第 "@ + decimal(
        attempt_no,
    ) + " 次自动重试。请根据校验错误修正输出，重新给出完整回复，并严格遵守 Agent 定义中的 Action 协议。不要解释本次重试。"@
}

/// Builds the prompt of a retry after an output broke the action contract.
pub fn action_contract_retry_prompt(validation_error: &str, attempt_no: u32) -> (r: String)
    ensures
        r@ == action_contract_retry_text(validation_error@, attempt_no as nat),
{
    let mut s = owned("系统检测到上一轮输出未通过 Action 契约校验：");
    s.append(validation_error);
    s.append("\n这是第 ");
    let digits = u64_decimal(attempt_no as u64);
    push_chars(&mut s, digits.as_slice());
    s.append(" 次自动重试。请根据校验错误修正输出，重新给出完整回复，并严格遵守 Agent 定义中的 Action 协议。不要解释本次重试。");
    s
}

/// The prompt of a retry after an output was cut off by its length.
pub open spec fn output_length_retry_text(attempt_no: nat, max_output_tokens: nat) -> Seq<char> {
    "系统检测到上一轮输出因达到长度上限而中断。这是第 "@ + decimal(attempt_no)
        + " 次自动重试，本轮输出上限已提高到 "@ + decimal(max_output_tokens)
        + " tokens。请重新给出完整回复，保持内容精炼，并严格遵守 Agent 定义中的 Action 协议。不要解释本次重试。"@
}

/// Builds the prompt of a retry after an output was cut off by its length.
pub fn output_length_retry_prompt(attempt_no: u32, max_output_tokens: u64) -> (r: String)
    ensures
        r@ == output_length_retry_text(attempt_no as nat, max_output_tokens as nat),
{
    let mut s = owned("系统检测到上一轮输出因达到长度上限而中断。这是第 ");
    let digits = u64_decimal(attempt_no as u64);
    push_chars(&mut s, digits.as_slice());
    s.append(" 次自动重试，本轮输出上限已提高到 ");
    let limit = u64_decimal(max_output_tokens);
    push_chars(&mut s, limit.as_slice());
    s.append(" tokens。请重新给出完整回复，保持内容精炼，并严格遵守 Agent 定义中的 Action 协议。不要解释本次重试。");
    s
}

} // verus!
