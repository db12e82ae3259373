//! The decisions the task orchestrator takes between its calls to Codex and
//! the stores: which thread serves a turn, what a failure leads to, and what
//! usage a request reserves.

use vstd::prelude::*;
use crate::action::owned;
use crate::execution::{failure_kind_of, route_failure_kind, ExecutionError};
use crate::routing::{Capability, QuotaRequirement, RouteError, RouteEvent, RouteFailureKind, RouteOutcome};

verus! {

/// Whether the conversation's active thread keeps serving the agent: only
/// when no internal executor is involved, the route was kept, and the thread
/// still exists.
pub open spec fn keeps_thread(
    has_internal_executor: bool,
    event: RouteEvent,
    has_previous: bool,
    thread_available: bool,
) -> bool {
    !has_internal_executor && event is Selected && has_previous && thread_available
}

/// Whether the conversation's active thread keeps serving the agent.
pub fn reuse_active_thread(
    has_internal_executor: bool,
    event: &RouteEvent,
    has_previous: bool,
    thread_available: bool,
) -> (r: bool)
    ensures
        r == keeps_thread(has_internal_executor, *event, has_previous, thread_available),
{
    let selected = match event {
        RouteEvent::Selected { .. } => true,
        _ => false,
    };
    !has_internal_executor && selected && has_previous && thread_available
}

/// What follows a failed start of a thread or turn.
#[derive(Debug, Clone, Copy, PartialEq, Eq, Structural)]
pub enum StartFailureStep {
    /// The failure says nothing of the route: it is returned as it is.
    Fail,
    /// The route is reported with this failure and another one is chosen.
    SwitchRoute(RouteFailureKind),
}

/// What follows a failed start: a failure that counts against the route
/// switches routes, any other is returned.
pub fn after_start_failure(error: &ExecutionError) -> (r: StartFailureStep)
    ensures
        r == match failure_kind_of(*error) {
            Some(kind) => StartFailureStep::SwitchRoute(kind),
            None => StartFailureStep::Fail,
        },
{
    match route_failure_kind(error) {
        Some(kind) => StartFailureStep::SwitchRoute(kind),
        None => StartFailureStep::Fail,
    }
}

/// What follows a failed usage reservation.
#[derive(Debug, Clone, PartialEq, Eq)]
pub enum ReservationStep {
    /// The account's quota is spent: it is reported unavailable and the
    /// binding is chosen again.
    Failover,
    /// Any other failure is returned.
    Fail(RouteError),
}

/// What follows a failed usage reservation: a spent quota fails over to
/// another account, reported as unable to serve the capability.
pub fn after_reservation_failure(error: RouteError) -> (r: (ReservationStep, Option<RouteOutcome>))
    ensures
        error is QuotaExceeded ==> r == (
            ReservationStep::Failover,
            Some(RouteOutcome::Failed(RouteFailureKind::CapabilityUnavailable)),
        ),
        !(error is QuotaExceeded) ==> r.0 == ReservationStep::Fail(error) && r.1 is None,
{
    match error {
        RouteError::QuotaExceeded { .. } => (
            ReservationStep::Failover,
            Some(RouteOutcome::Failed(RouteFailureKind::CapabilityUnavailable)),
        ),
        other => (ReservationStep::Fail(other), None),
    }
}

/// The metric a request of a capability is counted under: images for image
/// generation, calls otherwise.
pub open spec fn usage_metric(capability: Capability) -> Seq<char> {
    if capability == Capability::ImageTextToImage || capability == Capability::ImageImageToImage {
        "images"@
    } else {
        "calls"@
    }
}

/// The usage one request of a capability reserves: one unit of its metric.
pub fn request_requirement(capability: Capability) -> (r: QuotaRequirement)
    ensures
        r.metric@ == usage_metric(capability),
        r.amount == 1,
{
    let metric = match capability {
        Capability::ImageTextToImage | Capability::ImageImageToImage => owned("images"),
        _ => owned("calls"),
    };
    QuotaRequirement { metric, amount: 1 }
}

/// The message of an internal executor that is half configured.
pub open spec fn half_configured_message() -> Seq<char> {
    "internal executor code and capability must be configured together"@
}

/// The internal executor of a request: its agent and capability together, or
/// neither.
pub fn internal_executor(code: Option<&str>, capability: Option<Capability>) -> (r: Result<
    Option<(String, Capability)>,
    ExecutionError,
>)
    ensures
        match (code, capability) {
            (Some(c), Some(k)) => r matches Ok(Some((a, kk))) && a@ == c@ && kk == k,
            (None, None) => r matches Ok(None),
            _ => r matches Err(ExecutionError::InvalidRequest(m)) && m@ == half_configured_message(),
        },
{
    match (code, capability) {
        (Some(c), Some(k)) => Ok(Some((owned(c), k))),
        (None, None) => Ok(None),
        _ => Err(
            ExecutionError::InvalidRequest(
                owned("internal executor code and capability must be configured together"),
            ),
        ),
    }
}

/// The routing scope of a conversation.
pub fn conversation_scope(conversation_id: &str) -> (r: String)
    ensures
        r@ == "conversation:"@ + conversation_id@,
{
    let mut s = owned("conversation:");
    s.append(conversation_id);
    s
}

/// The routing scope of a conversation's internal executor.
pub fn internal_route_scope(conversation_id: &str, agent_code: &str) -> (r: String)
    ensures
        r@ == "conversation:"@ + conversation_id@ + ":internal:"@ + agent_code@,
{
    let mut s = owned("conversation:");
    s.append(conversation_id);
    s.append(":internal:");
    s.append(agent_code);
    s
}

/// The idempotency key of the usage an internal image executor reserves.
pub fn internal_image_usage_key(idempotency_key: &str) -> (r: String)
    ensures
        r@ == idempotency_key@ + ":internal-image"@,
{
    let mut s = owned(idempotency_key);
    s.append(":internal-image");
    s
}

/// The key that serializes work per conversation and agent.
pub fn binding_lock_key(conversation_id: &str, agent_code: &str) -> (r: String)
    ensures
        r@ == conversation_id@ + seq!['\u{1f}'] + agent_code@,
{
    let mut s = owned(conversation_id);
    s.append("\u{1f}");
    s.append(agent_code);
    proof {
        reveal_strlit("\u{1f}");
    }
    s
}

/// The version of a new thread binding: one more than the binding it
/// replaces, or 1.
pub fn next_binding_version(previous: Option<u64>) -> (r: u64)
    requires
        previous matches Some(v) ==> v < u64::MAX,
    ensures
        r == match previous {
            Some(v) => v + 1,
            None => 1,
        },
{
    match previous {
        Some(v) => v + 1,
        None => 1,
    }
}

/// What a route outcome records against the account's breaker.
#[derive(Debug, Clone, Copy, PartialEq, Eq, Structural)]
pub enum BreakerRecord {
    Success,
    Failure,
    Nothing,
}

/// What a route outcome records against the account's breaker: success
/// closes it, a failure that counts against the route feeds it, and a
/// request that was too large or invalid leaves it.
pub open spec fn breaker_record_of(outcome: RouteOutcome) -> BreakerRecord {
    match outcome {
        RouteOutcome::Succeeded => BreakerRecord::Success,
        RouteOutcome::Failed(RouteFailureKind::Retryable)
        | RouteOutcome::Failed(RouteFailureKind::CapabilityUnavailable)
        | RouteOutcome::Failed(RouteFailureKind::Fatal) => BreakerRecord::Failure,
        RouteOutcome::Failed(RouteFailureKind::ContextTooLarge)
        | RouteOutcome::Failed(RouteFailureKind::InvalidRequest) => BreakerRecord::Nothing,
    }
}

/// What a route outcome records against the account's breaker.
pub fn breaker_record(outcome: RouteOutcome) -> (r: BreakerRecord)
    ensures
        r == breaker_record_of(outcome),
{
    match outcome {
        RouteOutcome::Succeeded => BreakerRecord::Success,
        RouteOutcome::Failed(RouteFailureKind::Retryable)
        | RouteOutcome::Failed(RouteFailureKind::CapabilityUnavailable)
        | RouteOutcome::Failed(RouteFailureKind::Fatal) => BreakerRecord::Failure,
        RouteOutcome::Failed(RouteFailureKind::ContextTooLarge)
        | RouteOutcome::Failed(RouteFailureKind::InvalidRequest) => BreakerRecord::Nothing,
    }
}


/// The outcomes that feed an account's breaker are exactly those that take
/// the account out of route selection.
pub proof fn law_breaker_follows_route_failures(outcome: RouteOutcome)
    ensures
        (breaker_record_of(outcome) == BreakerRecord::Failure) == crate::routing::outcome_disables(outcome),
{
}

/// An execution failure switches routes exactly when it would feed the
/// breaker of the route it was tried on.
pub proof fn law_switching_follows_breaker(error: ExecutionError)
    ensures
        (failure_kind_of(error) is Some) == (failure_kind_of(error) matches Some(kind)
            && breaker_record_of(RouteOutcome::Failed(kind)) == BreakerRecord::Failure),
{
}

} // verus!
