use relayer::bignum::BigNum;
use relayer::errors::RelayError;
use relayer::fees::{
    derive_base_fee_scaled, derive_gas_limit, derive_priority_fee, max_fee_per_gas,
    scale_ceil_percent,
};
use relayer::logbook::{logs_page, mark_log_failure, mark_log_success, reserve_log, PaymentLog,
    PaymentStatus};
use relayer::ratelimit::{daily_cap_in_smallest_unit, enforce_rate_limits, RateLimitConfig,
    RateLimitState};

#[test]
fn scaling_rounds_up_exactly() {
    let v = scale_ceil_percent(&BigNum::from_u64(100), 120).unwrap();
    assert_eq!(v.to_u64().unwrap(), 120);
    let v = scale_ceil_percent(&BigNum::from_u64(1), 50).unwrap();
    assert_eq!(v.to_u64().unwrap(), 1);
    let v = scale_ceil_percent(&BigNum::from_u64(0), 120).unwrap();
    assert!(v.is_zero());
    let v = scale_ceil_percent(&BigNum::from_u64(999), 100).unwrap();
    assert_eq!(v.to_u64().unwrap(), 999);
    let wide = BigNum::from_be_bytes(&[1u8; 17]);
    assert!(matches!(
        scale_ceil_percent(&wide, 120),
        Err(RelayError::NumberOutOfRange { .. })
    ));
}

#[test]
fn gas_limit_floor_then_scale() {
    // An estimate below the floor uses the floor, then gains a fifth.
    let g = derive_gas_limit(&BigNum::from_u64(30_000)).unwrap();
    assert_eq!(g.to_u64().unwrap(), 60_000);
    let g = derive_gas_limit(&BigNum::from_u64(49_999)).unwrap();
    assert_eq!(g.to_u64().unwrap(), 60_000);
    // The happy-path numbers: 120 000 estimated, 144 000 submitted.
    let g = derive_gas_limit(&BigNum::from_u64(120_000)).unwrap();
    assert_eq!(g.to_u64().unwrap(), 144_000);
}

#[test]
fn priority_fee_floor_at_one_gwei() {
    let p = derive_priority_fee(&BigNum::from_u64(0), 120).unwrap();
    assert_eq!(p.to_u64().unwrap(), 1_000_000_000);
    let p = derive_priority_fee(&BigNum::from_u64(2_000_000_000), 120).unwrap();
    assert_eq!(p.to_u64().unwrap(), 2_400_000_000);
    // A multiplier below one never regresses the suggestion.
    let p = derive_priority_fee(&BigNum::from_u64(10), 50).unwrap();
    assert_eq!(p.to_u64().unwrap(), 10);
}

#[test]
fn max_fee_is_base_scaled_plus_priority() {
    let base = derive_base_fee_scaled(&BigNum::from_u64(30_000_000_000), 200).unwrap();
    assert_eq!(base.to_u64().unwrap(), 60_000_000_000);
    let prio = derive_priority_fee(&BigNum::from_u64(2_000_000_000), 120).unwrap();
    let max = max_fee_per_gas(&base, &prio);
    assert_eq!(max.to_u64().unwrap(), 62_400_000_000);
}

fn limits(per_min: u32, daily: u64) -> RateLimitConfig {
    RateLimitConfig { per_addr_per_min: per_min, daily_cap_token: daily }
}

#[test]
fn per_minute_counter_caps_hits() {
    let config = limits(3, 0);
    let mut st = RateLimitState::new();
    let sender = [0xaau8; 20];
    let amount = BigNum::from_u64(5);
    for _ in 0..3 {
        assert!(enforce_rate_limits(&config, &mut st, &sender, &amount, 30).is_ok());
    }
    assert!(matches!(
        enforce_rate_limits(&config, &mut st, &sender, &amount, 59),
        Err(RelayError::RateLimited)
    ));
    // Another sender is unaffected.
    assert!(enforce_rate_limits(&config, &mut st, &[0xbbu8; 20], &amount, 59).is_ok());
}

#[test]
fn per_minute_counter_resets_on_window_boundary() {
    let config = limits(3, 0);
    let mut st = RateLimitState::new();
    let sender = [0xccu8; 20];
    let amount = BigNum::from_u64(1);
    for _ in 0..3 {
        assert!(enforce_rate_limits(&config, &mut st, &sender, &amount, 59).is_ok());
    }
    assert!(enforce_rate_limits(&config, &mut st, &sender, &amount, 59).is_err());
    // At t = 60·k the window resets and the limit's worth of fresh
    // submissions is accepted again.
    for _ in 0..3 {
        assert!(enforce_rate_limits(&config, &mut st, &sender, &amount, 60).is_ok());
    }
    assert!(enforce_rate_limits(&config, &mut st, &sender, &amount, 60).is_err());
}

#[test]
fn daily_cap_counts_value_after_increment() {
    // Cap of 1 token = 10^18 base units.
    let config = limits(0, 1);
    let cap = daily_cap_in_smallest_unit(&config).unwrap();
    assert_eq!(cap.to_u128().unwrap(), 1_000_000_000_000_000_000);
    let mut st = RateLimitState::new();
    let sender = [0x01u8; 20];
    let half = BigNum::from_u128(500_000_000_000_000_000);
    assert!(enforce_rate_limits(&config, &mut st, &sender, &half, 100).is_ok());
    assert!(enforce_rate_limits(&config, &mut st, &sender, &half, 100).is_ok());
    // The next half tips the accumulated amount over the cap.
    assert!(matches!(
        enforce_rate_limits(&config, &mut st, &sender, &half, 100),
        Err(RelayError::RateLimited)
    ));
    // A disabled cap accepts anything.
    let open = limits(0, 0);
    assert!(daily_cap_in_smallest_unit(&open).is_none());
    let huge = BigNum::from_be_bytes(&[9u8; 40]);
    assert!(enforce_rate_limits(&open, &mut st, &sender, &huge, 100).is_ok());
}

fn reserve(logs: &mut Vec<PaymentLog>, next: &mut u64, ts: u64) -> u64 {
    reserve_log(
        logs,
        next,
        ts,
        vec![1, 2, 3],
        "0xaaaaaaaaaaaaaaaaaaaaaaaaaaaaaaaaaaaaaaaa".to_string(),
        "0xbbbbbbbbbbbbbbbbbbbbbbbbbbbbbbbbbbbbbbbb".to_string(),
        BigNum::from_u64(7),
    )
}

#[test]
fn log_ids_are_dense_and_monotonic() {
    let mut logs: Vec<PaymentLog> = Vec::new();
    let mut next: u64 = 1;
    let a = reserve(&mut logs, &mut next, 10);
    let b = reserve(&mut logs, &mut next, 11);
    let c = reserve(&mut logs, &mut next, 12);
    assert_eq!((a, b, c), (1, 2, 3));
    assert!(logs.windows(2).all(|w| w[0].id < w[1].id));
}

#[test]
fn marking_is_terminal_and_targeted() {
    let mut logs: Vec<PaymentLog> = Vec::new();
    let mut next: u64 = 1;
    let a = reserve(&mut logs, &mut next, 10);
    let b = reserve(&mut logs, &mut next, 11);
    mark_log_failure(&mut logs, a, "boom");
    mark_log_success(&mut logs, b, "0xdeadbeef");
    assert_eq!(logs[0].status, PaymentStatus::Failed);
    assert_eq!(logs[0].fail_reason.as_deref(), Some("boom"));
    assert!(logs[0].tx_hash.is_none());
    assert_eq!(logs[1].status, PaymentStatus::Broadcasted);
    assert_eq!(logs[1].tx_hash.as_deref(), Some("0xdeadbeef"));
    assert!(logs[1].fail_reason.is_none());
    // An unknown id changes nothing.
    mark_log_failure(&mut logs, 99, "nope");
    assert_eq!(logs[1].status, PaymentStatus::Broadcasted);
}

#[test]
fn paging_is_reverse_chronological_with_cursor() {
    let mut logs: Vec<PaymentLog> = Vec::new();
    let mut next: u64 = 1;
    for ts in 0..5 {
        reserve(&mut logs, &mut next, ts);
    }
    let page = logs_page(&logs, None, 2);
    assert_eq!(page.len(), 2);
    assert_eq!(page[0].id, 5);
    assert_eq!(page[1].id, 4);
    // limit 0 is treated as 1
    let page = logs_page(&logs, None, 0);
    assert_eq!(page.len(), 1);
    assert_eq!(page[0].id, 5);
    // a cursor hides everything at or below it
    let page = logs_page(&logs, Some(3), 10);
    assert_eq!(page.len(), 2);
    assert_eq!(page[0].id, 5);
    assert_eq!(page[1].id, 4);
    assert_eq!(page[0].status, "accepted");
    assert_eq!(page[0].value.to_u64().unwrap(), 7);
}

#[test]
fn error_messages_render_canonically() {
    assert_eq!(RelayError::Paused.message(), "service paused");
    assert_eq!(RelayError::RateLimited.message(), "rate limit exceeded");
    assert_eq!(
        RelayError::ConfigurationMissing { field: "chain_id".to_string() }.message(),
        "configuration missing: chain_id"
    );
    assert_eq!(
        RelayError::InvalidAddressLength {
            field: "from".to_string(),
            expected: 20,
            actual: 3
        }
        .message(),
        "invalid from length: expected 20, got 3"
    );
    assert_eq!(
        RelayError::RpcError { code: -32000, message: "boom".to_string() }.message(),
        "rpc error -32000: boom"
    );
    assert_eq!(
        RelayError::GasBalanceLow {
            required: BigNum::from_u128(1_000_000_000_000_000),
            actual: BigNum::from_u64(1)
        }
        .message(),
        "gas balance low: required 0x038d7ea4c68000, actual 0x01"
    );
    assert_eq!(
        RelayError::NumberOutOfRange { field: "u64".to_string() }.message(),
        "number out of range: u64"
    );
    assert_eq!(
        RelayError::HexDecodeFailed { value: "0xzz".to_string() }.message(),
        "failed to decode hex: 0xzz"
    );
}
