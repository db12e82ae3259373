use game_runtime::limits::{
    breaker_after_failure, exceeds_quota, limit_kind_name, model_has_capacity, parse_limit_kind,
    parse_period_duration, period_start, rem_euclid, route_model_available, BreakerUpdate,
    ConfigError, LimitKind,
};

#[test]
fn limit_kinds_round_trip_through_their_names() {
    for kind in [
        LimitKind::Calls,
        LimitKind::InputTokens,
        LimitKind::OutputTokens,
        LimitKind::TotalTokens,
        LimitKind::Tokens,
        LimitKind::Credits,
    ] {
        assert_eq!(parse_limit_kind(limit_kind_name(&kind)), Ok(kind));
    }
    assert_eq!(
        parse_limit_kind("bananas"),
        Err(ConfigError::InvalidData("unknown limit kind: bananas".to_string()))
    );
}

#[test]
fn period_durations_read_amount_and_unit() {
    assert_eq!(parse_period_duration("90s"), Ok(90));
    assert_eq!(parse_period_duration("2h"), Ok(7200));
    assert_eq!(parse_period_duration("3D"), Ok(259200));
    assert_eq!(parse_period_duration("1w"), Ok(604800));
    assert_eq!(parse_period_duration("5m"), Ok(300));
    assert_eq!(
        parse_period_duration("0s"),
        Err(ConfigError::InvalidData("invalid AI limit period: 0s".to_string()))
    );
    assert_eq!(
        parse_period_duration("xs"),
        Err(ConfigError::InvalidData("invalid AI limit period: xs".to_string()))
    );
    assert_eq!(
        parse_period_duration("10y"),
        Err(ConfigError::InvalidData("invalid AI limit period: 10y".to_string()))
    );
    assert_eq!(
        parse_period_duration(""),
        Err(ConfigError::InvalidData("invalid AI limit period: ".to_string()))
    );
}

#[test]
fn period_windows_start_at_the_last_boundary() {
    assert_eq!(period_start(1000, "total"), Ok(0));
    assert_eq!(period_start(125, "minute"), Ok(120));
    assert_eq!(period_start(86_400 + 5, "day"), Ok(86_400));
    assert_eq!(period_start(100, "day+10s"), Ok(10));
    assert_eq!(period_start(5, "day+10s"), Ok(-86_390));
    assert_eq!(period_start(95, "30s"), Ok(90));
    assert_eq!(
        period_start(95, "fortnight"),
        Err(ConfigError::InvalidData("invalid AI limit period: fortnight".to_string()))
    );
    assert_eq!(rem_euclid(-7, 3), 2);
    assert_eq!(rem_euclid(7, 3), 1);
}

#[test]
fn quotas_and_capacity() {
    assert!(!exceeds_quota(90, 10, 100));
    assert!(exceeds_quota(91, 10, 100));
    assert!(model_has_capacity(&[(0, 500), (10, 9)]));
    assert!(!model_has_capacity(&[(10, 10)]));
    assert!(route_model_available(true, true, Some(5), 5, true));
    assert!(!route_model_available(true, true, Some(6), 5, true));
    assert!(!route_model_available(true, false, None, 5, true));
}

#[test]
fn breaker_opens_at_threshold() {
    assert_eq!(
        breaker_after_failure(None, Some(2), Some(10), 100),
        BreakerUpdate {
            failure_count: 1,
            opened_at: None,
            retry_at: None,
        }
    );
    assert_eq!(
        breaker_after_failure(Some(1), Some(2), Some(10), 101),
        BreakerUpdate {
            failure_count: 2,
            opened_at: Some(101),
            retry_at: Some(111),
        }
    );
    assert_eq!(
        breaker_after_failure(Some(2), None, None, 0),
        BreakerUpdate {
            failure_count: 3,
            opened_at: Some(0),
            retry_at: Some(60),
        }
    );
    assert_eq!(breaker_after_failure(None, Some(0), None, 7).opened_at, Some(7));
}
