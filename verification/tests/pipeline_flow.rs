use relayer::bignum::BigNum;
use relayer::errors::RelayError;
use relayer::logbook::PaymentStatus;
use relayer::network::{resolve_rpc_service, RpcService};
use relayer::pipeline::{
    begin_balance_refresh, begin_submission, finish_balance_refresh, pipeline_step,
    PipelineAction, PipelineEvent, StepResult, SubmitRequest,
};
use relayer::rpc::{
    frame_eth_call, rpc_result_base_fee, rpc_result_string, RequestOutcome, RpcFailure,
};
use relayer::state::{
    add_asset, default_init_args, init_state, pause, set_chain_id, set_relayer_address,
    set_rpc_target, set_threshold, RelayerState,
};

const ASSET_ADDR: &str = "0x8a9b00000000000000000000000000000000cafe";
const RELAYER_ADDR: &str = "0x1111111111111111111111111111111111111111";

fn configured_state() -> RelayerState {
    let mut st = init_state(default_init_args(), vec![0xad, 0x01]);
    pause(&mut st, false);
    set_chain_id(&mut st, BigNum::from_u64(80002));
    set_rpc_target(&mut st, vec![0x05], "polygon-amoy".to_string());
    set_threshold(&mut st, BigNum::from_u64(0));
    set_relayer_address(&mut st, RELAYER_ADDR).unwrap();
    add_asset(&mut st, vec![0x07], ASSET_ADDR, &BigNum::from_u64(0)).unwrap();
    st
}

fn request(now: u64) -> SubmitRequest {
    SubmitRequest {
        asset: vec![0x07],
        from: vec![0x21; 20],
        to: vec![0x22; 20],
        value: BigNum::from_u128(1_000_000_000_000_000_000),
        valid_after: BigNum::from_u64(0),
        valid_before: BigNum::from_u64(now + 3600),
        nonce: vec![0x33; 32],
        sig_v: 27,
        sig_r: vec![0x44; 32],
        sig_s: vec![0x55; 32],
    }
}

fn body(result: &str) -> PipelineEvent {
    PipelineEvent::Rpc(RequestOutcome::Body(format!(
        "{{\"jsonrpc\":\"2.0\",\"id\":1,\"result\":\"{}\"}}",
        result
    )))
}

fn expect_continue(r: StepResult) -> PipelineAction {
    match r {
        StepResult::Continue(a) => a,
        StepResult::Finished(h) => panic!("finished early: {}", h),
        StepResult::Failed(e) => panic!("failed: {}", e.message()),
    }
}

#[test]
fn happy_path_broadcasts_and_logs() {
    let now: u64 = 1_700_000_000;
    let mut st = configured_state();
    let (mut run, action) = begin_submission(&mut st, request(now), now).unwrap();
    let payload = match action {
        PipelineAction::Rpc { payload } => payload,
        _ => panic!("expected an rpc action"),
    };
    assert!(payload.contains("\"method\":\"eth_call\""));
    assert!(payload.contains(ASSET_ADDR));
    assert_eq!(st.logs.len(), 1);
    assert_eq!(st.logs[0].status, PaymentStatus::Accepted);

    // Replay check: the authorization is unused.
    let zeros = format!("0x{}", "00".repeat(32));
    let a = expect_continue(pipeline_step(&mut st, &mut run, body(&zeros)));
    match &a {
        PipelineAction::Rpc { payload } => {
            assert!(payload.contains("\"from\":\"0x1111"));
        },
        _ => panic!("expected the simulation call"),
    }
    // Simulation succeeds.
    let a = expect_continue(pipeline_step(&mut st, &mut run, body("0x")));
    match &a {
        PipelineAction::Rpc { payload } => {
            assert!(payload.contains("eth_estimateGas"));
        },
        _ => panic!("expected the gas estimate call"),
    }
    // 120 000 gas estimated.
    let a = expect_continue(pipeline_step(&mut st, &mut run, body("0x1d4c0")));
    assert_eq!(run.gas_limit.to_u64().unwrap(), 144_000);
    match &a {
        PipelineAction::Rpc { payload } => {
            assert!(payload.contains("eth_getBlockByNumber"));
        },
        _ => panic!("expected the base fee call"),
    }
    // Base fee 30 gwei arrives inside the block header.
    let header = PipelineEvent::Rpc(RequestOutcome::Body(
        "{\"jsonrpc\":\"2.0\",\"id\":4,\"result\":{\"baseFeePerGas\":\"0x6fc23ac00\"}}"
            .to_string(),
    ));
    let a = expect_continue(pipeline_step(&mut st, &mut run, header));
    assert_eq!(run.base_fee.to_u64().unwrap(), 30_000_000_000);
    match &a {
        PipelineAction::Rpc { payload } => {
            assert!(payload.contains("eth_maxPriorityFeePerGas"));
        },
        _ => panic!("expected the priority fee call"),
    }
    // Priority fee 2 gwei: doubled base plus scaled priority.
    let a = expect_continue(pipeline_step(&mut st, &mut run, body("0x77359400")));
    assert_eq!(run.priority_fee_effective.to_u64().unwrap(), 2_400_000_000);
    assert_eq!(run.max_fee_per_gas.to_u64().unwrap(), 62_400_000_000);
    match &a {
        PipelineAction::Rpc { payload } => {
            assert!(payload.contains("eth_getBalance"));
        },
        _ => panic!("expected the balance call"),
    }
    // Plenty of balance against a zero threshold.
    let a = expect_continue(pipeline_step(&mut st, &mut run, body("0xde0b6b3a7640000")));
    assert_eq!(st.last_known_gas.to_u128().unwrap(), 1_000_000_000_000_000_000);
    match &a {
        PipelineAction::Rpc { payload } => {
            assert!(payload.contains("eth_getTransactionCount"));
            assert!(payload.contains("\"pending\""));
        },
        _ => panic!("expected the nonce call"),
    }
    // Transaction nonce 5: the digest goes to the signer.
    let a = expect_continue(pipeline_step(&mut st, &mut run, body("0x5")));
    let digest = match a {
        PipelineAction::Sign { key_name, digest, .. } => {
            assert_eq!(key_name, "test_key_1");
            digest
        },
        _ => panic!("expected the signing request"),
    };
    assert_eq!(digest.len(), 32);
    // A 65-byte reply carries its parity verbatim.
    let mut sig = vec![0x66u8; 64];
    sig.push(1);
    let a = expect_continue(pipeline_step(&mut st, &mut run, PipelineEvent::SignReply(sig)));
    match &a {
        PipelineAction::Rpc { payload } => {
            assert!(payload.contains("eth_sendRawTransaction"));
            assert!(payload.contains("\"0x02"));
        },
        _ => panic!("expected the broadcast"),
    }
    // The node echoes a transaction hash and the log turns Broadcasted.
    let hash = format!("0x{}", "ab".repeat(32));
    match pipeline_step(&mut st, &mut run, body(&hash)) {
        StepResult::Finished(h) => assert_eq!(h, hash),
        _ => panic!("expected the run to finish"),
    }
    assert_eq!(st.logs[0].status, PaymentStatus::Broadcasted);
    assert_eq!(st.logs[0].tx_hash.as_deref(), Some(hash.as_str()));
}

#[test]
fn replayed_nonce_fails_and_marks_log() {
    let now: u64 = 1_700_000_000;
    let mut st = configured_state();
    let (mut run, _) = begin_submission(&mut st, request(now), now).unwrap();
    // authorizationState returns an ABI-encoded true: last byte 0x01.
    let used = format!("0x{}01", "00".repeat(31));
    match pipeline_step(&mut st, &mut run, body(&used)) {
        StepResult::Failed(RelayError::AuthorizationAlreadyUsed) => {},
        other => panic!("unexpected outcome: {:?}", outcome_name(&other)),
    }
    assert_eq!(st.logs[0].status, PaymentStatus::Failed);
    assert_eq!(
        st.logs[0].fail_reason.as_deref(),
        Some("authorization already used")
    );
}

#[test]
fn underfunded_relayer_fails_balance_gate() {
    let now: u64 = 1_700_000_000;
    let mut st = configured_state();
    set_threshold(&mut st, BigNum::from_u128(1_000_000_000_000_000));
    let (mut run, _) = begin_submission(&mut st, request(now), now).unwrap();
    let zeros = format!("0x{}", "00".repeat(32));
    expect_continue(pipeline_step(&mut st, &mut run, body(&zeros)));
    expect_continue(pipeline_step(&mut st, &mut run, body("0x")));
    expect_continue(pipeline_step(&mut st, &mut run, body("0x1d4c0")));
    let header = PipelineEvent::Rpc(RequestOutcome::Body(
        "{\"jsonrpc\":\"2.0\",\"id\":4,\"result\":{\"baseFeePerGas\":\"0x6fc23ac00\"}}"
            .to_string(),
    ));
    expect_continue(pipeline_step(&mut st, &mut run, header));
    expect_continue(pipeline_step(&mut st, &mut run, body("0x77359400")));
    // One wei against a 10^15 threshold.
    match pipeline_step(&mut st, &mut run, body("0x1")) {
        StepResult::Failed(RelayError::GasBalanceLow { required, actual }) => {
            assert_eq!(required.to_u128().unwrap(), 1_000_000_000_000_000);
            assert_eq!(actual.to_u64().unwrap(), 1);
        },
        other => panic!("unexpected outcome: {:?}", outcome_name(&other)),
    }
    assert_eq!(st.last_known_gas.to_u64().unwrap(), 1);
    assert_eq!(st.logs[0].status, PaymentStatus::Failed);
    assert_eq!(
        st.logs[0].fail_reason.as_deref(),
        Some("gas balance low: required 0x038d7ea4c68000, actual 0x01")
    );
}

#[test]
fn expired_authorization_leaves_no_log() {
    let now: u64 = 1_700_000_000;
    let mut st = configured_state();
    let mut req = request(now);
    req.valid_before = BigNum::from_u64(now - 1);
    match begin_submission(&mut st, req, now) {
        Err(RelayError::AuthorizationExpired) => {},
        _ => panic!("expected the expiry gate"),
    }
    assert!(st.logs.is_empty());
    // The boundary is strict: valid_before == now is already expired.
    let mut req = request(now);
    req.valid_before = BigNum::from_u64(now);
    match begin_submission(&mut st, req, now) {
        Err(RelayError::AuthorizationExpired) => {},
        _ => panic!("expected the expiry gate at the boundary"),
    }
    assert!(st.logs.is_empty());
}

#[test]
fn rate_limit_trips_before_reserving_a_log() {
    let now: u64 = 1_700_000_000;
    let mut st = configured_state();
    st.rate_limit.per_addr_per_min = 3;
    for _ in 0..3 {
        let (_, _) = begin_submission(&mut st, request(now), now).unwrap();
    }
    assert_eq!(st.logs.len(), 3);
    match begin_submission(&mut st, request(now), now) {
        Err(RelayError::RateLimited) => {},
        _ => panic!("expected the rate gate"),
    }
    assert_eq!(st.logs.len(), 3);
}

#[test]
fn paused_and_shape_gates_come_first() {
    let now: u64 = 1_700_000_000;
    let mut st = configured_state();
    pause(&mut st, true);
    assert!(matches!(
        begin_submission(&mut st, request(now), now),
        Err(RelayError::Paused)
    ));
    pause(&mut st, false);
    let mut req = request(now);
    req.from = vec![0x21; 19];
    assert!(matches!(
        begin_submission(&mut st, req, now),
        Err(RelayError::InvalidAddressLength { expected: 20, actual: 19, .. })
    ));
    let mut req = request(now);
    req.asset = vec![0xff];
    assert!(matches!(
        begin_submission(&mut st, req, now),
        Err(RelayError::AssetNotRegistered)
    ));
    relayer::state::disable_asset(&mut st, &[0x07]);
    assert!(matches!(
        begin_submission(&mut st, request(now), now),
        Err(RelayError::AssetNotActive)
    ));
    assert!(st.logs.is_empty());
}

#[test]
fn unconfigured_target_marks_the_reserved_entry() {
    let now: u64 = 1_700_000_000;
    let mut st = init_state(default_init_args(), vec![0xad]);
    pause(&mut st, false);
    set_chain_id(&mut st, BigNum::from_u64(80002));
    set_relayer_address(&mut st, RELAYER_ADDR).unwrap();
    add_asset(&mut st, vec![0x07], ASSET_ADDR, &BigNum::from_u64(0)).unwrap();
    match begin_submission(&mut st, request(now), now) {
        Err(RelayError::ConfigurationMissing { field }) => assert_eq!(field, "rpc_target"),
        _ => panic!("expected the configuration gate"),
    }
    assert_eq!(st.logs.len(), 1);
    assert_eq!(st.logs[0].status, PaymentStatus::Failed);
    assert_eq!(
        st.logs[0].fail_reason.as_deref(),
        Some("rpc target not configured")
    );
}

#[test]
fn transport_failures_surface_as_relay_errors() {
    let now: u64 = 1_700_000_000;
    let mut st = configured_state();
    let (mut run, _) = begin_submission(&mut st, request(now), now).unwrap();
    let event = PipelineEvent::Rpc(RequestOutcome::Failed(RpcFailure::JsonRpc {
        code: -32005,
        message: "over quota".to_string(),
    }));
    match pipeline_step(&mut st, &mut run, event) {
        StepResult::Failed(RelayError::RpcError { code, message }) => {
            assert_eq!(code, -32005);
            assert_eq!(message, "over quota");
        },
        other => panic!("unexpected outcome: {:?}", outcome_name(&other)),
    }
    assert_eq!(
        st.logs[0].fail_reason.as_deref(),
        Some("rpc error -32005: over quota")
    );
}

#[test]
fn simulation_errors_keep_the_revert_reason() {
    let now: u64 = 1_700_000_000;
    let mut st = configured_state();
    let (mut run, _) = begin_submission(&mut st, request(now), now).unwrap();
    let zeros = format!("0x{}", "00".repeat(32));
    expect_continue(pipeline_step(&mut st, &mut run, body(&zeros)));
    let err_body = PipelineEvent::Rpc(RequestOutcome::Body(
        "{\"jsonrpc\":\"2.0\",\"id\":2,\"error\":{\"code\":3,\"message\":\"execution reverted\"}}"
            .to_string(),
    ));
    match pipeline_step(&mut st, &mut run, err_body) {
        StepResult::Failed(RelayError::SimulationFailed { message }) => {
            assert_eq!(message, "execution reverted");
        },
        other => panic!("unexpected outcome: {:?}", outcome_name(&other)),
    }
}

fn outcome_name(r: &StepResult) -> String {
    match r {
        StepResult::Continue(_) => "continue".to_string(),
        StepResult::Finished(h) => format!("finished {}", h),
        StepResult::Failed(e) => format!("failed: {}", e.message()),
    }
}

#[test]
fn network_tags_resolve() {
    assert!(matches!(
        resolve_rpc_service("provider: 7").unwrap(),
        RpcService::Provider(7)
    ));
    match resolve_rpc_service("custom: https://node.example ").unwrap() {
        RpcService::Custom { url } => assert_eq!(url, "https://node.example"),
        _ => panic!("expected a custom url"),
    }
    match resolve_rpc_service("https://rpc.example").unwrap() {
        RpcService::Custom { url } => assert_eq!(url, "https://rpc.example"),
        _ => panic!("expected a pass-through url"),
    }
    match resolve_rpc_service("polygon-amoy").unwrap() {
        RpcService::Custom { url } => assert_eq!(url, "https://rpc-amoy.polygon.technology"),
        _ => panic!("expected the preset url"),
    }
    assert!(matches!(
        resolve_rpc_service("eth-mainnet").unwrap(),
        RpcService::EthMainnetPublicNode
    ));
    assert!(matches!(
        resolve_rpc_service("base-mainnet").unwrap(),
        RpcService::BaseMainnetPublicNode
    ));
    assert!(resolve_rpc_service("").is_err());
    assert!(resolve_rpc_service("provider:x").is_err());
    assert!(resolve_rpc_service("custom:").is_err());
    assert!(resolve_rpc_service("testnet-of-nowhere").is_err());
}

#[test]
fn response_bodies_are_classified() {
    let ok = "{\"jsonrpc\":\"2.0\",\"id\":1,\"result\":\"0x1\"}";
    assert_eq!(rpc_result_string(ok, "hex string").unwrap(), "0x1");
    let err = "{\"jsonrpc\":\"2.0\",\"id\":1,\"error\":{\"code\":-32601,\"message\":\"no method\"}}";
    assert!(matches!(
        rpc_result_string(err, "hex string"),
        Err(RelayError::RpcError { code: -32601, .. })
    ));
    let default_err = "{\"jsonrpc\":\"2.0\",\"id\":1,\"error\":{}}";
    match rpc_result_string(default_err, "hex string") {
        Err(RelayError::RpcError { code, message }) => {
            assert_eq!(code, -32000);
            assert_eq!(message, "unknown error");
        },
        _ => panic!("expected the defaulted error"),
    }
    let no_result = "{\"jsonrpc\":\"2.0\",\"id\":1}";
    assert!(matches!(
        rpc_result_string(no_result, "hex string"),
        Err(RelayError::RpcResultTypeMismatch { .. })
    ));
    assert!(matches!(
        rpc_result_string("not json", "hex string"),
        Err(RelayError::JsonError { .. })
    ));
    let header = "{\"jsonrpc\":\"2.0\",\"id\":1,\"result\":{\"baseFeePerGas\":\"0x10\"}}";
    assert_eq!(rpc_result_base_fee(header).unwrap(), "0x10");
    let not_object = "{\"jsonrpc\":\"2.0\",\"id\":1,\"result\":\"0x10\"}";
    match rpc_result_base_fee(not_object) {
        Err(RelayError::RpcResultTypeMismatch { expected }) => {
            assert_eq!(expected, "block object");
        },
        _ => panic!("expected the block-object mismatch"),
    }
}

#[test]
fn frames_embed_monotonic_ids() {
    let f = frame_eth_call(12, "0xabc", "0xdef");
    assert_eq!(
        f,
        "{\"id\":12,\"jsonrpc\":\"2.0\",\"method\":\"eth_call\",\"params\":[{\"data\":\"0xdef\",\"to\":\"0xabc\"},\"latest\"]}"
    );
    let parsed: serde_json::Value = serde_json::from_str(&f).unwrap();
    assert_eq!(parsed["id"], 12);
    assert_eq!(parsed["method"], "eth_call");
}

#[test]
fn balance_refresh_updates_last_known_gas() {
    let mut st = configured_state();
    let payload = begin_balance_refresh(&mut st).unwrap();
    assert!(payload.contains("eth_getBalance"));
    assert!(payload.contains(RELAYER_ADDR));
    let balance = finish_balance_refresh(
        &mut st,
        "{\"jsonrpc\":\"2.0\",\"id\":9,\"result\":\"0x2540be400\"}",
    )
    .unwrap();
    assert_eq!(balance.to_u64().unwrap(), 10_000_000_000);
    assert_eq!(st.last_known_gas.to_u64().unwrap(), 10_000_000_000);
    // With no relayer address configured the refresh is refused.
    let mut bare = init_state(default_init_args(), vec![0x01]);
    assert!(matches!(
        begin_balance_refresh(&mut bare),
        Err(RelayError::RelayerAddressMissing)
    ));
}
