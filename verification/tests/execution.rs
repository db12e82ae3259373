use game_runtime::execution::{
    action_contract_retry_prompt, model_input, output_length_retry_limit, output_length_retry_prompt,
    route_failure_kind, ExecutionError, MAX_ACTION_CONTRACT_RETRIES,
};
use game_runtime::routing::RouteFailureKind;

#[test]
fn execution_failures_map_to_route_failures() {
    assert_eq!(
        route_failure_kind(&ExecutionError::Retryable("x".to_string())),
        Some(RouteFailureKind::Retryable)
    );
    assert_eq!(
        route_failure_kind(&ExecutionError::CapabilityUnavailable("x".to_string())),
        Some(RouteFailureKind::CapabilityUnavailable)
    );
    assert_eq!(
        route_failure_kind(&ExecutionError::Fatal("x".to_string())),
        Some(RouteFailureKind::Fatal)
    );
    assert_eq!(route_failure_kind(&ExecutionError::ContextTooLarge("x".to_string())), None);
    assert_eq!(route_failure_kind(&ExecutionError::InvalidRequest("x".to_string())), None);
    assert_eq!(
        ExecutionError::ContextTooLarge("too big".to_string()).message(),
        "execution context is too large: too big"
    );
    assert_eq!(ExecutionError::Fatal("boom".to_string()).message(), "execution failed: boom");
}

#[test]
fn model_input_wraps_definition_prompt_and_context() {
    assert_eq!(
        model_input("DEF", "PROMPT", "attempt-1", "{}"),
        "<game_agent_definition>\nDEF\n</game_agent_definition>\n\nPROMPT\n\n<game_context attempt_id=\"attempt-1\">\n{}\n</game_context>"
    );
}

#[test]
fn output_length_retries_raise_the_limit_four_times() {
    assert_eq!(output_length_retry_limit(0), Some(32_000));
    assert_eq!(output_length_retry_limit(1), Some(32_000));
    assert_eq!(output_length_retry_limit(2), Some(64_000));
    assert_eq!(output_length_retry_limit(3), Some(128_000));
    assert_eq!(output_length_retry_limit(4), Some(200_000));
    assert_eq!(output_length_retry_limit(5), None);
    assert_eq!(MAX_ACTION_CONTRACT_RETRIES, 3);
}

#[test]
fn retry_prompts_name_the_attempt() {
    assert_eq!(
        action_contract_retry_prompt("缺少 Action", 2),
        "系统检测到上一轮输出未通过 Action 契约校验：缺少 Action\n这是第 2 次自动重试。请根据校验错误修正输出，重新给出完整回复，并严格遵守 Agent 定义中的 Action 协议。不要解释本次重试。"
    );
    assert_eq!(
        output_length_retry_prompt(1, 32_000),
        "系统检测到上一轮输出因达到长度上限而中断。这是第 1 次自动重试，本轮输出上限已提高到 32000 tokens。请重新给出完整回复，保持内容精炼，并严格遵守 Agent 定义中的 Action 协议。不要解释本次重试。"
    );
}
