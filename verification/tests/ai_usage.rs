use game_runtime::ai_usage::{reserve_ai_usage, AiLimit, AiUsageRow};
use game_runtime::attempts::StoreError;
use game_runtime::limits::LimitKind;

fn limit(model: &str, kind: LimitKind, max: u64, period: &str, group: &str) -> AiLimit {
    AiLimit {
        model_id: model.to_string(),
        limit_kind: kind,
        max_value: max,
        period_expr: period.to_string(),
        group_name: group.to_string(),
    }
}

fn used(model: &str, kind: LimitKind, amount: u64, key: &str, at: i64) -> AiUsageRow {
    AiUsageRow {
        model_id: model.to_string(),
        limit_kind: kind,
        amount,
        idempotency_key: key.to_string(),
        created_at: at,
    }
}

#[test]
fn a_group_shares_its_limit_and_a_refusal_writes_nothing() {
    let limits = vec![
        limit("m1", LimitKind::TotalTokens, 100, "total", "g"),
        limit("m2", LimitKind::TotalTokens, 100, "total", "g"),
        limit("m1", LimitKind::Calls, 10, "total", "calls-g"),
    ];
    let mut usage = vec![used("m2", LimitKind::TotalTokens, 60, "k0", 1)];
    let refused = reserve_ai_usage(&mut usage, &limits, "m1", "k1", &[(LimitKind::Calls, 1), (LimitKind::TotalTokens, 50)], 5);
    assert_eq!(
        refused,
        Err(StoreError::Conflict("AI quota exceeded for model m1, metric total_tokens".to_string()))
    );
    assert_eq!(usage.len(), 1);
    assert_eq!(
        reserve_ai_usage(&mut usage, &limits, "m1", "k1", &[(LimitKind::Calls, 1), (LimitKind::TotalTokens, 40)], 5),
        Ok(true)
    );
    assert_eq!(usage.len(), 3);
    assert_eq!(usage[1], used("m1", LimitKind::Calls, 1, "k1", 5));
    assert_eq!(usage[2], used("m1", LimitKind::TotalTokens, 40, "k1", 5));
    assert_eq!(
        reserve_ai_usage(&mut usage, &limits, "m1", "k1", &[(LimitKind::TotalTokens, 1000)], 6),
        Ok(false)
    );
    assert_eq!(usage.len(), 3);
}

#[test]
fn only_the_current_window_counts_and_a_zero_limit_has_no_bound() {
    let limits = vec![
        limit("m1", LimitKind::Calls, 2, "hour", "g"),
        limit("m1", LimitKind::Credits, 0, "hour", "g"),
    ];
    let mut usage = vec![
        used("m1", LimitKind::Calls, 2, "old", 3599),
        used("m1", LimitKind::Calls, 1, "new", 3600),
    ];
    assert_eq!(reserve_ai_usage(&mut usage, &limits, "m1", "k", &[(LimitKind::Calls, 1)], 3700), Ok(true));
    assert!(matches!(
        reserve_ai_usage(&mut usage, &limits, "m1", "k2", &[(LimitKind::Calls, 1)], 3700),
        Err(StoreError::Conflict(_))
    ));
    assert_eq!(reserve_ai_usage(&mut usage, &limits, "m1", "k3", &[(LimitKind::Credits, 1_000_000)], 3700), Ok(true));
    assert_eq!(reserve_ai_usage(&mut usage, &limits, "m9", "k4", &[(LimitKind::Calls, 99)], 3700), Ok(true));
}

#[test]
fn an_unreadable_period_refuses_the_reservation() {
    let limits = vec![limit("m1", LimitKind::Calls, 2, "fortnight", "g")];
    let mut usage = Vec::new();
    assert_eq!(
        reserve_ai_usage(&mut usage, &limits, "m1", "k", &[(LimitKind::Calls, 1)], 10),
        Err(StoreError::InvalidData("invalid AI limit period: fortnight".to_string()))
    );
    assert!(usage.is_empty());
}
