use game_runtime::routing::{
    Capability, QuotaRequirement, RouteCandidate, RouteDecision, RouteError, RouteEvent,
    RouteFailureKind, RouteOutcome, RouteSelector,
};

fn candidate(account_id: &str, model: &str) -> RouteCandidate {
    RouteCandidate {
        account_id: account_id.to_string(),
        provider: "fixed".to_string(),
        model: model.to_string(),
        capabilities: vec![Capability::TextReasoning, Capability::TextStructuredOutput],
        available: true,
    }
}

#[test]
fn keeps_a_sticky_route_then_switches_accounts_before_models() {
    let mut selector = RouteSelector::new(vec![
        candidate("a", "model-a"),
        candidate("c", "model-b"),
        candidate("b", "model-a"),
    ]);
    let (first, _) = selector
        .select(Capability::TextReasoning, "conversation:1")
        .expect("first route");
    let (sticky, _) = selector
        .select(Capability::TextReasoning, "conversation:1")
        .expect("sticky route");
    assert_eq!(first, sticky);
    selector
        .report(&first, RouteOutcome::Failed(RouteFailureKind::Fatal))
        .expect("report");
    let (switched, event) = selector
        .select(Capability::TextReasoning, "conversation:1")
        .expect("fallback route");
    assert_eq!(switched.account_id, "b");
    assert!(matches!(event, RouteEvent::Switched { .. }));
}

#[test]
fn reserves_all_quota_metrics_atomically_and_idempotently() {
    let mut selector = RouteSelector::new(vec![candidate("a", "model-a")]);
    selector.set_quota("a", "tokens", 100).expect("tokens");
    selector.set_quota("a", "requests", 1).expect("requests");
    let (decision, _) = selector
        .select(Capability::TextStructuredOutput, "execution:1")
        .expect("route");
    let requirements = vec![
        QuotaRequirement {
            metric: "tokens".to_string(),
            amount: 80,
        },
        QuotaRequirement {
            metric: "requests".to_string(),
            amount: 1,
        },
    ];
    assert_eq!(
        selector
            .reserve_usage(&decision, "usage-1", &requirements)
            .expect("reserve")
            .len(),
        2
    );
    assert!(selector
        .reserve_usage(&decision, "usage-1", &requirements)
        .expect("idempotent reserve")
        .is_empty());
    assert!(matches!(
        selector.reserve_usage(
            &decision,
            "usage-2",
            &[QuotaRequirement {
                metric: "tokens".to_string(),
                amount: 21,
            }],
        ),
        Err(RouteError::QuotaExceeded { .. })
    ));
}

#[test]
fn first_selection_is_reported_as_selected_and_bound() {
    let mut selector = RouteSelector::new(vec![candidate("a", "model-a")]);
    let (decision, event) = selector
        .select(Capability::TextReasoning, "conversation:7")
        .expect("route");
    assert_eq!(decision.account_id, "a");
    assert_eq!(
        event,
        RouteEvent::Selected {
            scope: "conversation:7".to_string(),
            decision: decision.clone(),
        }
    );
    assert_eq!(RouteSelector::event_type(&event), "route.selected");
    assert_eq!(
        selector.current_binding("conversation:7").expect("binding"),
        Some(decision)
    );
    assert_eq!(selector.current_binding("conversation:8").expect("binding"), None);
}

#[test]
fn missing_capability_is_an_error_with_its_message() {
    let mut selector = RouteSelector::new(vec![candidate("a", "model-a")]);
    let error = selector
        .select(Capability::ImageTextToImage, "conversation:1")
        .expect_err("no image route");
    assert_eq!(error, RouteError::CapabilityUnavailable);
    assert_eq!(error.message(), "no provider supports the requested capability");
    assert_eq!(
        RouteError::QuotaExceeded {
            account_id: "a".to_string(),
            metric: "tokens".to_string(),
        }
        .message(),
        "quota is insufficient for account a metric tokens"
    );
    assert_eq!(RouteError::StateUnavailable.message(), "route state is unavailable");
}

#[test]
fn failed_account_leaves_health_and_selection() {
    let mut selector = RouteSelector::new(vec![candidate("a", "model-a"), candidate("b", "model-a")]);
    assert_eq!(
        selector
            .health(Capability::TextReasoning)
            .expect("health")
            .available_candidates,
        2
    );
    let (first, _) = selector
        .select(Capability::TextReasoning, "s")
        .expect("route");
    assert_eq!(first.account_id, "a");
    selector
        .report(&first, RouteOutcome::Failed(RouteFailureKind::Retryable))
        .expect("report");
    assert_eq!(
        selector
            .health(Capability::TextReasoning)
            .expect("health")
            .available_candidates,
        1
    );
    selector
        .report(&first, RouteOutcome::Succeeded)
        .expect("report");
    let (second, event) = selector
        .select(Capability::TextReasoning, "s")
        .expect("route");
    assert_eq!(second.account_id, "b");
    assert_eq!(RouteSelector::event_type(&event), "route.switched");
}

#[test]
fn context_and_request_failures_keep_the_account() {
    let mut selector = RouteSelector::new(vec![candidate("a", "model-a")]);
    let (first, _) = selector.select(Capability::TextReasoning, "s").expect("route");
    selector
        .report(&first, RouteOutcome::Failed(RouteFailureKind::ContextTooLarge))
        .expect("report");
    selector
        .report(&first, RouteOutcome::Failed(RouteFailureKind::InvalidRequest))
        .expect("report");
    let (again, _) = selector.select(Capability::TextReasoning, "s").expect("route");
    assert_eq!(again, first);
}

#[test]
fn restored_binding_is_kept_for_its_scope() {
    let mut selector = RouteSelector::new(vec![candidate("a", "model-a"), candidate("b", "model-a")]);
    let decision = RouteDecision {
        account_id: "b".to_string(),
        provider: "fixed".to_string(),
        model: "model-a".to_string(),
    };
    selector
        .restore_binding("conversation:2".to_string(), decision.clone())
        .expect("restore");
    let (chosen, event) = selector
        .select(Capability::TextReasoning, "conversation:2")
        .expect("route");
    assert_eq!(chosen, decision);
    assert_eq!(RouteSelector::event_type(&event), "route.selected");
    assert_eq!(selector.candidates().len(), 2);
}

#[test]
fn usage_events_name_account_metric_and_amount() {
    let mut selector = RouteSelector::new(vec![candidate("a", "model-a")]);
    selector.set_quota("a", "tokens", 10).expect("quota");
    let (decision, _) = selector.select(Capability::TextReasoning, "s").expect("route");
    let events = selector
        .reserve_usage(
            &decision,
            "k",
            &[QuotaRequirement {
                metric: "tokens".to_string(),
                amount: 4,
            }],
        )
        .expect("reserve");
    assert_eq!(
        events,
        vec![RouteEvent::UsageUpdated {
            account_id: "a".to_string(),
            metric: "tokens".to_string(),
            amount: 4,
        }]
    );
    assert_eq!(RouteSelector::event_type(&events[0]), "usage.updated");
    assert!(matches!(
        selector.reserve_usage(
            &decision,
            "k2",
            &[QuotaRequirement {
                metric: "tokens".to_string(),
                amount: 7,
            }],
        ),
        Err(RouteError::QuotaExceeded { .. })
    ));
    assert_eq!(
        selector
            .reserve_usage(
                &decision,
                "k3",
                &[QuotaRequirement {
                    metric: "tokens".to_string(),
                    amount: 6,
                }],
            )
            .expect("exact fit")
            .len(),
        1
    );
}

#[test]
fn requirements_on_one_metric_are_reserved_together_or_not_at_all() {
    let mut selector = RouteSelector::new(vec![candidate("a", "model-a")]);
    selector.set_quota("a", "tokens", 100).expect("tokens");
    let (decision, _) = selector
        .select(Capability::TextStructuredOutput, "execution:1")
        .expect("route");
    let twice = vec![
        QuotaRequirement { metric: "tokens".to_string(), amount: 60 },
        QuotaRequirement { metric: "tokens".to_string(), amount: 60 },
    ];
    assert_eq!(
        selector.reserve_usage(&decision, "k", &twice),
        Err(RouteError::QuotaExceeded { account_id: "a".to_string(), metric: "tokens".to_string() })
    );
    let all = vec![QuotaRequirement { metric: "tokens".to_string(), amount: 100 }];
    assert_eq!(selector.reserve_usage(&decision, "k", &all).expect("whole quota left").len(), 1);
    let one = vec![QuotaRequirement { metric: "tokens".to_string(), amount: 1 }];
    assert!(matches!(
        selector.reserve_usage(&decision, "k2", &one),
        Err(RouteError::QuotaExceeded { .. })
    ));
}

#[test]
fn bindings_failures_and_reservations_outlast_later_calls() {
    let mut selector = RouteSelector::new(vec![
        candidate("a", "model-a"),
        candidate("b", "model-a"),
        candidate("c", "model-b"),
    ]);
    let (first, _) = selector.select(Capability::TextReasoning, "scope:1").expect("route");
    assert_eq!(selector.current_binding("scope:2"), Ok(None));
    selector.set_quota("a", "tokens", 10).expect("quota");
    let (other, _) = selector.select(Capability::TextReasoning, "scope:2").expect("other scope");
    let reqs = vec![QuotaRequirement { metric: "tokens".to_string(), amount: 4 }];
    assert_eq!(selector.reserve_usage(&first, "k", &reqs).expect("reserve").len(), 1);
    let healthy = selector.health(Capability::TextReasoning).expect("health").available_candidates;
    let failed = RouteDecision { account_id: "c".to_string(), ..other.clone() };
    selector.report(&failed, RouteOutcome::Failed(RouteFailureKind::Retryable)).expect("report");
    assert!(selector.health(Capability::TextReasoning).expect("health").available_candidates <= healthy);
    let (again, event) = selector.select(Capability::TextReasoning, "scope:1").expect("sticky");
    assert_eq!(again, first);
    assert!(matches!(event, RouteEvent::Selected { .. }));
    assert_eq!(selector.current_binding("scope:1"), Ok(Some(first.clone())));
    let big = vec![QuotaRequirement { metric: "tokens".to_string(), amount: 1000 }];
    assert_eq!(selector.reserve_usage(&first, "k", &big), Ok(Vec::new()));
    for scope in ["scope:3", "scope:4"] {
        let (d, _) = selector.select(Capability::TextReasoning, scope).expect("route");
        assert_ne!(d.account_id, "c");
    }
}

#[test]
fn a_new_quota_judges_the_next_reservation() {
    let mut selector = RouteSelector::new(vec![candidate("a", "model-a")]);
    selector.set_quota("a", "tokens", 10).expect("tokens");
    selector.set_quota("a", "requests", 3).expect("requests");
    selector.set_quota("a", "tokens", 50).expect("tokens again");
    let (decision, _) = selector
        .select(Capability::TextStructuredOutput, "execution:q")
        .expect("route");
    let ask = |amount: u64| {
        vec![QuotaRequirement {
            metric: "tokens".to_string(),
            amount,
        }]
    };
    assert_eq!(
        selector.reserve_usage(&decision, "over", &ask(51)),
        Err(RouteError::QuotaExceeded {
            account_id: "a".to_string(),
            metric: "tokens".to_string(),
        })
    );
    assert_eq!(selector.reserve_usage(&decision, "fits", &ask(50)).expect("fits").len(), 1);
    assert!(selector.reserve_usage(&decision, "next", &ask(1)).is_err());
    let requests = vec![QuotaRequirement {
        metric: "requests".to_string(),
        amount: 3,
    }];
    assert!(selector.reserve_usage(&decision, "requests", &requests).is_ok());
}
