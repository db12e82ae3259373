use game_runtime::execution::ExecutionError;
use game_runtime::orchestration::{
    after_reservation_failure, after_start_failure, binding_lock_key, breaker_record,
    conversation_scope, internal_executor, internal_image_usage_key, internal_route_scope,
    next_binding_version, request_requirement, reuse_active_thread, BreakerRecord,
    ReservationStep, StartFailureStep,
};
use game_runtime::routing::{
    Capability, RouteDecision, RouteError, RouteEvent, RouteFailureKind, RouteOutcome,
};

fn decision() -> RouteDecision {
    RouteDecision {
        account_id: "a".to_string(),
        provider: "p".to_string(),
        model: "m".to_string(),
    }
}

#[test]
fn active_threads_are_kept_only_on_a_kept_route() {
    let selected = RouteEvent::Selected { scope: "s".to_string(), decision: decision() };
    let switched = RouteEvent::Switched { scope: "s".to_string(), decision: decision() };
    assert!(reuse_active_thread(false, &selected, true, true));
    assert!(!reuse_active_thread(true, &selected, true, true));
    assert!(!reuse_active_thread(false, &switched, true, true));
    assert!(!reuse_active_thread(false, &selected, false, true));
    assert!(!reuse_active_thread(false, &selected, true, false));
}

#[test]
fn start_failures_switch_routes_only_when_the_route_is_at_fault() {
    assert_eq!(
        after_start_failure(&ExecutionError::Retryable("x".to_string())),
        StartFailureStep::SwitchRoute(RouteFailureKind::Retryable)
    );
    assert_eq!(
        after_start_failure(&ExecutionError::InvalidRequest("x".to_string())),
        StartFailureStep::Fail
    );
    let quota = RouteError::QuotaExceeded { account_id: "a".to_string(), metric: "calls".to_string() };
    assert_eq!(
        after_reservation_failure(quota),
        (
            ReservationStep::Failover,
            Some(RouteOutcome::Failed(RouteFailureKind::CapabilityUnavailable))
        )
    );
    assert_eq!(
        after_reservation_failure(RouteError::StateUnavailable),
        (ReservationStep::Fail(RouteError::StateUnavailable), None)
    );
}

#[test]
fn requests_reserve_one_unit_of_their_metric() {
    let image = request_requirement(Capability::ImageTextToImage);
    assert_eq!((image.metric.as_str(), image.amount), ("images", 1));
    let text = request_requirement(Capability::TextReasoning);
    assert_eq!((text.metric.as_str(), text.amount), ("calls", 1));
}

#[test]
fn internal_executors_come_with_their_capability() {
    assert_eq!(
        internal_executor(Some("image_t2i"), Some(Capability::ImageTextToImage)),
        Ok(Some(("image_t2i".to_string(), Capability::ImageTextToImage)))
    );
    assert_eq!(internal_executor(None, None), Ok(None));
    assert_eq!(
        internal_executor(Some("image_t2i"), None),
        Err(ExecutionError::InvalidRequest(
            "internal executor code and capability must be configured together".to_string()
        ))
    );
}

#[test]
fn scopes_keys_and_versions() {
    assert_eq!(conversation_scope("c1"), "conversation:c1");
    assert_eq!(internal_route_scope("c1", "image_t2i"), "conversation:c1:internal:image_t2i");
    assert_eq!(internal_image_usage_key("k"), "k:internal-image");
    assert_eq!(binding_lock_key("c1", "a"), "c1\u{1f}a");
    assert_eq!(next_binding_version(None), 1);
    assert_eq!(next_binding_version(Some(4)), 5);
    assert_eq!(breaker_record(RouteOutcome::Succeeded), BreakerRecord::Success);
    assert_eq!(
        breaker_record(RouteOutcome::Failed(RouteFailureKind::Fatal)),
        BreakerRecord::Failure
    );
    assert_eq!(
        breaker_record(RouteOutcome::Failed(RouteFailureKind::ContextTooLarge)),
        BreakerRecord::Nothing
    );
}
