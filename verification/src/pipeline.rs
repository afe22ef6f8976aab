//! The authorization pipeline: validation, anti-replay, fee derivation,
//! transaction assembly, signing and broadcast, narrated into the log.
//!
//! The pipeline never performs network work itself: it hands the host an
//! action (a JSON-RPC payload to dispatch, or a digest to sign), takes the
//! outcome back as an event, and decides the next step. Every decision and
//! every state write stands here, verified; the host only ferries bytes.

use vstd::prelude::*;
use vstd::string::StringSliceAdditionalSpecFns;
use crate::abi::{
    encode_authorization_state_call, encode_transfer_with_authorization_call, decode_bool_abi,
    spec_auth_state_call, spec_decode_bool, spec_transfer_call,
};
use crate::bignum::BigNum;
use crate::errors::{spec_message, RelayError};
use crate::fees::{
    derive_base_fee_scaled, derive_gas_limit, derive_priority_fee, max_fee_per_gas,
    spec_base_fee_scaled, spec_gas_limit, spec_priority_fee,
};
use crate::hexfmt::{
    parse_hex_bytes, spec_hex_chars, spec_parse_hex, to_hex_address, to_hex_prefixed,
    evm_address_bytes,
};
use crate::logbook::{mark_log_failure, mark_log_success, reserve_log, PaymentLog, PaymentStatus};
use crate::ratelimit::{enforce_rate_limits, spec_daily_ok, spec_minute_ok};
use crate::rpc::{
    frame_block_by_number, frame_address_block, frame_estimate_gas, frame_eth_call, RpcFailure,
    frame_eth_call_from, frame_max_priority_fee, frame_send_raw_transaction, next_json_rpc_id,
    relay_error_from_rpc_failure, rpc_result_base_fee, rpc_result_ok, rpc_result_string,
    RequestOutcome,
};
use crate::signer::{signature_parts_from_reply, SignatureParts};
use crate::state::{AssetStatus, RelayerState, spec_asset_lookup};
use crate::tx::{signed_tx_items, tx_digest, typed_envelope, unsigned_tx_items};

verus! {

/// A submission as the host hands it in: plain bytes and integers.
pub struct SubmitRequest {
    pub asset: Vec<u8>,
    pub from: Vec<u8>,
    pub to: Vec<u8>,
    pub value: BigNum,
    pub valid_after: BigNum,
    pub valid_before: BigNum,
    pub nonce: Vec<u8>,
    pub sig_v: u8,
    pub sig_r: Vec<u8>,
    pub sig_s: Vec<u8>,
}

impl SubmitRequest {
    pub open spec fn wf(&self) -> bool {
        &&& self.value.wf()
        &&& self.valid_after.wf()
        &&& self.valid_before.wf()
    }
}

/// Where a run stands: which reply it waits for next.
#[derive(PartialEq, Eq, Structural)]
pub enum Phase {
    ReplayCheck,
    Simulate,
    EstimateGas,
    BaseFee,
    PriorityFee,
    Balance,
    TxNonce,
    Sign,
    Broadcast,
}

/// What the host must do next for a run.
pub enum PipelineAction {
    /// Dispatch this JSON-RPC payload to the configured backend.
    Rpc { payload: String },
    /// Have the remote signer sign this 32-byte digest.
    Sign { key_name: String, derivation_path: Vec<Vec<u8>>, digest: Vec<u8> },
}

/// What came back from the host's last action.
pub enum PipelineEvent {
    Rpc(RequestOutcome),
    SignReply(Vec<u8>),
    SignRejected { code: String, message: String },
}

/// The pipeline's verdict on an event.
pub enum StepResult {
    Continue(PipelineAction),
    Finished(String),
    Failed(RelayError),
}

/// One submission's snapshot and progress. Cloned out of the state before
/// the first suspension; the pipeline never reads live configuration
/// after this point.
pub struct Submission {
    pub phase: Phase,
    pub log_id: u64,
    pub chain_id: BigNum,
    pub asset_address: String,
    pub asset_address_bytes: Vec<u8>,
    pub relayer_address: String,
    pub relayer_address_bytes: Vec<u8>,
    pub threshold_wei: BigNum,
    pub max_fee_multiplier_percent: u32,
    pub priority_multiplier_percent: u32,
    pub ecdsa_key_name: String,
    pub ecdsa_derivation_path: Vec<Vec<u8>>,
    pub from: Vec<u8>,
    pub to: Vec<u8>,
    pub value: BigNum,
    pub valid_after: BigNum,
    pub valid_before: BigNum,
    pub auth_nonce: Vec<u8>,
    pub sig_v: u8,
    pub sig_r: Vec<u8>,
    pub sig_s: Vec<u8>,
    pub call_data: Vec<u8>,
    pub gas_limit: BigNum,
    pub base_fee: BigNum,
    pub priority_fee_effective: BigNum,
    pub max_fee_per_gas: BigNum,
    pub tx_nonce: BigNum,
    pub gas_estimate: BigNum,
    pub priority_fee_raw: BigNum,
    pub last_balance: BigNum,
    pub sighash: Vec<u8>,
    pub unsigned_items: Vec<Vec<u8>>,
}

impl Submission {
    pub open spec fn wf(&self) -> bool {
        &&& self.chain_id.wf()
        &&& self.threshold_wei.wf()
        &&& self.value.wf()
        &&& self.valid_after.wf()
        &&& self.valid_before.wf()
        &&& self.gas_limit.wf()
        &&& self.base_fee.wf()
        &&& self.priority_fee_effective.wf()
        &&& self.max_fee_per_gas.wf()
        &&& self.tx_nonce.wf()
        &&& self.gas_estimate.wf()
        &&& self.priority_fee_raw.wf()
        &&& self.last_balance.wf()
        &&& self.chain_id.value() <= u64::MAX
        &&& self.gas_limit.value() <= u128::MAX
        &&& self.priority_fee_effective.value() <= u128::MAX
        &&& self.max_fee_per_gas.value() <= u128::MAX + u128::MAX
        &&& self.tx_nonce.value() < crate::rlp::pow256(32)
        &&& self.asset_address_bytes@.len() == 20
        &&& self.relayer_address_bytes@.len() == 20
        &&& self.call_data@.len() <= 0x10000
        &&& (self.phase == Phase::Sign ==> self.sighash@.len() == 32
            && self.unsigned_items@.len() == 9 && (forall|k: int|
            0 <= k < 9 ==> crate::rlp::views_of(self.unsigned_items@)[k].len() <= 0x11000))
    }
}

/// The log after one entry was reserved for this submission and then
/// marked failed with `reason`: the old entries stand untouched, and the
/// new last entry carries the submission's data, `Failed`, and the reason.
pub open spec fn spec_failed_after_reserve(
    old_st: RelayerState,
    new_st: RelayerState,
    req: SubmitRequest,
    now_sec: u64,
    reason: Seq<char>,
) -> bool {
    &&& new_st.next_log_id == old_st.next_log_id + 1
    &&& new_st.logs@.len() == old_st.logs@.len() + 1
    &&& (forall|i: int| 0 <= i < old_st.logs@.len() ==> new_st.logs@[i] == old_st.logs@[i])
    &&& ({
        let e = new_st.logs@.last();
        &&& e.id == old_st.next_log_id
        &&& e.ts_sec == now_sec
        &&& e.asset@ == req.asset@
        &&& e.from@ == "0x"@ + spec_hex_chars(req.from@)
        &&& e.to@ == "0x"@ + spec_hex_chars(req.to@)
        &&& e.value.value() == req.value.value()
        &&& e.status == PaymentStatus::Failed
        &&& e.tx_hash is None
        &&& (e.fail_reason matches Some(m) && m@ == reason)
    })
}

/// The log after one entry was reserved for this submission and left in
/// `Accepted` state.
pub open spec fn spec_reserved_accepted(
    old_st: RelayerState,
    new_st: RelayerState,
    req: SubmitRequest,
    now_sec: u64,
) -> bool {
    &&& new_st.next_log_id == old_st.next_log_id + 1
    &&& new_st.logs@.len() == old_st.logs@.len() + 1
    &&& (forall|i: int| 0 <= i < old_st.logs@.len() ==> new_st.logs@[i] == old_st.logs@[i])
    &&& ({
        let e = new_st.logs@.last();
        &&& e.id == old_st.next_log_id
        &&& e.ts_sec == now_sec
        &&& e.asset@ == req.asset@
        &&& e.from@ == "0x"@ + spec_hex_chars(req.from@)
        &&& e.to@ == "0x"@ + spec_hex_chars(req.to@)
        &&& e.value.value() == req.value.value()
        &&& e.status == PaymentStatus::Accepted
        &&& e.tx_hash is None
        &&& e.fail_reason is None
    })
}

/// Whether the submission passes both rate rules against the given state.
pub open spec fn spec_rate_ok(st: RelayerState, req: SubmitRequest, now_sec: u64) -> bool {
    spec_minute_ok(st.rate_limit, st.rate_state.per_min@, req.from@, req.value.value(), now_sec)
        && spec_daily_ok(st.rate_limit, st.rate_state.daily@, req.from@, req.value.value(), now_sec)
}

/// Whether the four input gates admit the submission: not paused, 20-byte
/// addresses, a registered asset that is not disabled, an unexpired
/// window, and both rate rules.
pub open spec fn spec_gates_passed(st: RelayerState, req: SubmitRequest, now_sec: u64) -> bool {
    &&& !st.config.paused
    &&& req.from@.len() == 20
    &&& req.to@.len() == 20
    &&& (spec_asset_lookup(st.assets@, req.asset@) matches Some(cfg) && cfg.status
        != AssetStatus::Disabled)
    &&& req.valid_before.value() <= u64::MAX
    &&& req.valid_before.value() > now_sec as nat
    &&& spec_rate_ok(st, req, now_sec)
}

/// Whether a stored address string parses back to 20 bytes.
pub open spec fn spec_addr_ok(a: Seq<char>) -> bool {
    spec_parse_hex(vstd::utf8::encode_utf8(a)) matches Some(v) && v.len() == 20
}

/// The rate tables after the rules were applied and committed for this
/// submission, exactly as `enforce_rate_limits` leaves them.
pub open spec fn spec_rate_tables_after(
    old_st: RelayerState,
    new_st: RelayerState,
    from: Seq<u8>,
    v: nat,
    now_sec: u64,
) -> bool {
    &&& old_st.rate_limit.per_addr_per_min > 0
        ==> crate::ratelimit::spec_lookup_view(new_st.rate_state.per_min@, from) == Some(
        crate::ratelimit::spec_minute_result(
            old_st.rate_limit,
            old_st.rate_state.per_min@,
            from,
            v,
            now_sec,
        ).0,
    ) && (forall|k: Seq<u8>| k != from ==> crate::ratelimit::spec_lookup_view(
        new_st.rate_state.per_min@,
        k,
    ) == crate::ratelimit::spec_lookup_view(old_st.rate_state.per_min@, k))
    &&& old_st.rate_limit.per_addr_per_min == 0 ==> new_st.rate_state.per_min@
        == old_st.rate_state.per_min@
    &&& (spec_minute_ok(old_st.rate_limit, old_st.rate_state.per_min@, from, v, now_sec)
        && crate::ratelimit::spec_daily_cap(old_st.rate_limit) is Some)
        ==> crate::ratelimit::spec_lookup_view(new_st.rate_state.daily@, from) == Some(
        crate::ratelimit::spec_daily_result(
            old_st.rate_limit,
            old_st.rate_state.daily@,
            from,
            v,
            now_sec,
        ).0,
    ) && (forall|k: Seq<u8>| k != from ==> crate::ratelimit::spec_lookup_view(
        new_st.rate_state.daily@,
        k,
    ) == crate::ratelimit::spec_lookup_view(old_st.rate_state.daily@, k))
    &&& (!spec_minute_ok(old_st.rate_limit, old_st.rate_state.per_min@, from, v, now_sec)
        || crate::ratelimit::spec_daily_cap(old_st.rate_limit) is None) ==> new_st.rate_state.daily@
        == old_st.rate_state.daily@
}

/// The quantity bytes a success body's string result decodes to: the
/// result string read as `0x…` hexadecimal.
pub open spec fn spec_body_quantity(body: Seq<char>) -> Option<Seq<u8>> {
    if crate::rpc::spec_ok_string_body(body) {
        spec_parse_hex(vstd::utf8::encode_utf8(crate::rpc::spec_result_str_of(body)->Some_0))
    } else {
        None
    }
}

/// The base-fee bytes a block-header body decodes to.
pub open spec fn spec_base_fee_quantity(body: Seq<char>) -> Option<Seq<u8>> {
    if crate::rpc::spec_ok_base_fee_body(body) {
        spec_parse_hex(vstd::utf8::encode_utf8(crate::rpc::spec_base_fee_of(body)->Some_0))
    } else {
        None
    }
}

/// Whether the request's signature halves, nonce and integers fit the
/// `transferWithAuthorization` encoding.
pub open spec fn spec_request_encodable(run: Submission) -> bool {
    &&& run.sig_r@.len() == 32
    &&& run.sig_s@.len() == 32
    &&& run.auth_nonce@.len() == 32
    &&& run.value.value() < crate::rlp::pow256(32)
    &&& run.valid_after.value() < crate::rlp::pow256(32)
    &&& run.valid_before.value() < crate::rlp::pow256(32)
}

/// Validates a submission, enforces the rate limits, reserves its log
/// entry, checks the configuration, and hands back the run together with
/// the anti-replay `eth_call` the host must dispatch first.
///
/// Input-shape failures (pause, address lengths, unknown or disabled
/// asset, expiry, rate limit) leave no log entry; every later failure
/// marks the reserved entry `Failed` before surfacing.
#[verifier::rlimit(60)]
pub fn begin_submission(st: &mut RelayerState, req: SubmitRequest, now_sec: u64) -> (r: Result<
    (Submission, PipelineAction),
    RelayError,
>)
    requires
        old(st).wf(),
        req.wf(),
        old(st).next_log_id < u64::MAX,
    ensures
        final(st).wf(),
        final(st).config == old(st).config,
        final(st).assets == old(st).assets,
        final(st).admins == old(st).admins,
        // Whenever a log entry was reserved, the rate rules were applied
        // and committed first; a rate refusal also leaves its counters.
        final(st).next_log_id == old(st).next_log_id + 1 ==> spec_rate_tables_after(
            *old(st),
            *final(st),
            req.from@,
            req.value.value(),
            now_sec,
        ),
        (r matches Err(e) ==> (e == RelayError::RateLimited ==> spec_rate_tables_after(
            *old(st),
            *final(st),
            req.from@,
            req.value.value(),
            now_sec,
        ))),
        match r {
            Ok((run, action)) => {
                &&& !old(st).config.paused
                &&& req.from@.len() == 20
                &&& req.to@.len() == 20
                &&& spec_asset_lookup(old(st).assets@, req.asset@) matches Some(cfg)
                    && cfg.status != AssetStatus::Disabled && run.asset_address@
                    == cfg.evm_address@
                &&& req.valid_before.value() <= u64::MAX
                &&& req.valid_before.value() > now_sec as nat
                &&& spec_rate_ok(*old(st), req, now_sec)
                &&& spec_reserved_accepted(*old(st), *final(st), req, now_sec)
                &&& old(st).config.rpc_target is Some
                &&& old(st).config.evm_addr is Some
                &&& old(st).config.chain_id matches Some(c) && c.value() <= u64::MAX
                    && run.chain_id.value() == c.value()
                &&& req.nonce@.len() == 32
                &&& run.wf()
                &&& run.phase == Phase::ReplayCheck
                &&& run.log_id == old(st).next_log_id
                &&& run.threshold_wei.value() == old(st).config.threshold_wei.value()
                &&& run.max_fee_multiplier_percent == old(st).config.max_fee_multiplier_percent
                &&& run.priority_multiplier_percent == old(st).config.priority_multiplier_percent
                &&& run.from@ == req.from@
                &&& run.to@ == req.to@
                &&& run.value.value() == req.value.value()
                &&& run.valid_after.value() == req.valid_after.value()
                &&& run.valid_before.value() == req.valid_before.value()
                &&& run.auth_nonce@ == req.nonce@
                &&& run.sig_v == req.sig_v
                &&& run.sig_r@ == req.sig_r@
                &&& run.sig_s@ == req.sig_s@
                &&& (action matches PipelineAction::Rpc { payload } && payload@
                    == crate::rpc::spec_frame_eth_call(
                    old(st).next_rpc_id as nat,
                    run.asset_address@,
                    "0x"@ + spec_hex_chars(spec_auth_state_call(req.from@, req.nonce@)),
                ))
            },
            Err(e) => {
                ||| old(st).config.paused && e == RelayError::Paused && *final(st) == *old(st)
                ||| !old(st).config.paused && req.from@.len() != 20 && (e
                    matches RelayError::InvalidAddressLength { field, expected, actual }
                    && field@ == "from"@ && expected == 20 && actual == req.from@.len())
                    && *final(st) == *old(st)
                ||| !old(st).config.paused && req.from@.len() == 20 && req.to@.len() != 20 && (e
                    matches RelayError::InvalidAddressLength { field, expected, actual }
                    && field@ == "to"@ && expected == 20 && actual == req.to@.len()) && *final(st)
                    == *old(st)
                ||| !old(st).config.paused && req.from@.len() == 20 && req.to@.len() == 20
                    && spec_asset_lookup(old(st).assets@, req.asset@) is None && e
                    == RelayError::AssetNotRegistered && *final(st) == *old(st)
                ||| !old(st).config.paused && req.from@.len() == 20 && req.to@.len() == 20
                    && (spec_asset_lookup(old(st).assets@, req.asset@) matches Some(cfg)
                    && cfg.status == AssetStatus::Disabled) && e == RelayError::AssetNotActive
                    && *final(st) == *old(st)
                ||| !old(st).config.paused && req.from@.len() == 20 && req.to@.len() == 20
                    && (spec_asset_lookup(old(st).assets@, req.asset@) matches Some(cfg)
                    && cfg.status != AssetStatus::Disabled) && req.valid_before.value()
                    > u64::MAX && (e matches RelayError::NumberOutOfRange { field } && field@
                    == "valid_before"@) && *final(st) == *old(st)
                ||| !old(st).config.paused && req.from@.len() == 20 && req.to@.len() == 20
                    && (spec_asset_lookup(old(st).assets@, req.asset@) matches Some(cfg)
                    && cfg.status != AssetStatus::Disabled) && req.valid_before.value()
                    <= u64::MAX && req.valid_before.value() <= now_sec as nat && e
                    == RelayError::AuthorizationExpired && *final(st) == *old(st)
                ||| !old(st).config.paused && req.from@.len() == 20 && req.to@.len() == 20
                    && (spec_asset_lookup(old(st).assets@, req.asset@) matches Some(cfg)
                    && cfg.status != AssetStatus::Disabled) && req.valid_before.value()
                    <= u64::MAX && req.valid_before.value() > now_sec as nat && !spec_rate_ok(
                    *old(st),
                    req,
                    now_sec,
                ) && e == RelayError::RateLimited && final(st).logs == old(st).logs
                    && final(st).next_log_id == old(st).next_log_id
                ||| spec_gates_passed(*old(st), req, now_sec) && old(st).config.rpc_target
                    is None && (e matches RelayError::ConfigurationMissing { field } && field@
                    == "rpc_target"@) && spec_failed_after_reserve(
                    *old(st),
                    *final(st),
                    req,
                    now_sec,
                    "rpc target not configured"@,
                )
                ||| spec_gates_passed(*old(st), req, now_sec) && old(st).config.rpc_target
                    is Some && old(st).config.evm_addr is None && e
                    == RelayError::RelayerAddressMissing && spec_failed_after_reserve(
                    *old(st),
                    *final(st),
                    req,
                    now_sec,
                    "relayer address not configured"@,
                )
                ||| spec_gates_passed(*old(st), req, now_sec) && old(st).config.rpc_target
                    is Some && (old(st).config.evm_addr matches Some(a) && !spec_addr_ok(a@))
                    && ((e matches RelayError::HexDecodeFailed { .. }) || (e
                    matches RelayError::InvalidAddressLength { .. }))
                    && spec_failed_after_reserve(
                    *old(st),
                    *final(st),
                    req,
                    now_sec,
                    spec_message(e),
                )
                ||| spec_gates_passed(*old(st), req, now_sec) && old(st).config.rpc_target
                    is Some && (old(st).config.evm_addr matches Some(a) && spec_addr_ok(a@))
                    && old(st).config.chain_id is None && (e
                    matches RelayError::ConfigurationMissing { field } && field@ == "chain_id"@)
                    && spec_failed_after_reserve(
                    *old(st),
                    *final(st),
                    req,
                    now_sec,
                    "chain id not configured"@,
                )
                ||| spec_gates_passed(*old(st), req, now_sec) && old(st).config.rpc_target
                    is Some && (old(st).config.evm_addr matches Some(a) && spec_addr_ok(a@))
                    && (old(st).config.chain_id matches Some(c) && c.value() > u64::MAX) && (e
                    matches RelayError::NumberOutOfRange { field } && field@ == "u64"@)
                    && spec_failed_after_reserve(
                    *old(st),
                    *final(st),
                    req,
                    now_sec,
                    spec_message(e),
                )
                ||| spec_gates_passed(*old(st), req, now_sec) && old(st).config.rpc_target
                    is Some && (old(st).config.evm_addr matches Some(a) && spec_addr_ok(a@))
                    && (old(st).config.chain_id matches Some(c) && c.value() <= u64::MAX)
                    && req.nonce@.len() != 32 && (e matches RelayError::InvalidNonceLength {
                    expected,
                    actual,
                } && expected == 32 && actual == req.nonce@.len()) && spec_failed_after_reserve(
                    *old(st),
                    *final(st),
                    req,
                    now_sec,
                    spec_message(e),
                )
                ||| spec_gates_passed(*old(st), req, now_sec) && old(st).config.rpc_target
                    is Some && (old(st).config.evm_addr matches Some(a) && spec_addr_ok(a@))
                    && (old(st).config.chain_id matches Some(c) && c.value() <= u64::MAX)
                    && req.nonce@.len() == 32 && (spec_asset_lookup(old(st).assets@, req.asset@)
                    matches Some(cfg) && !spec_addr_ok(cfg.evm_address@)) && ((e
                    matches RelayError::HexDecodeFailed { .. }) || (e
                    matches RelayError::InvalidAddressLength { .. }))
                    && spec_failed_after_reserve(
                    *old(st),
                    *final(st),
                    req,
                    now_sec,
                    spec_message(e),
                )
            },
        },
{
    if st.config.paused {
        return Err(RelayError::Paused);
    }
    if req.from.len() != 20 {
        return Err(
            RelayError::InvalidAddressLength {
                field: String::from_str("from"),
                expected: 20,
                actual: req.from.len(),
            },
        );
    }
    if req.to.len() != 20 {
        return Err(
            RelayError::InvalidAddressLength {
                field: String::from_str("to"),
                expected: 20,
                actual: req.to.len(),
            },
        );
    }
    let asset_cfg = match crate::state::asset_config_of(st, req.asset.as_slice()) {
        Some(cfg) => cfg,
        None => {
            return Err(RelayError::AssetNotRegistered);
        },
    };
    let active = match asset_cfg.status {
        AssetStatus::Active => true,
        AssetStatus::Deprecated => true,
        AssetStatus::Disabled => false,
    };
    if !active {
        return Err(RelayError::AssetNotActive);
    }
    let valid_before_u64 = match req.valid_before.to_u64() {
        Some(v) => v,
        None => {
            return Err(
                RelayError::NumberOutOfRange { field: String::from_str("valid_before") },
            );
        },
    };
    if valid_before_u64 <= now_sec {
        return Err(RelayError::AuthorizationExpired);
    }
    let from_hex = match to_hex_address(req.from.as_slice()) {
        Ok(h) => h,
        Err(e) => {
            return Err(e);
        },
    };
    let to_hex = match to_hex_address(req.to.as_slice()) {
        Ok(h) => h,
        Err(e) => {
            return Err(e);
        },
    };
    match enforce_rate_limits(&st.rate_limit, &mut st.rate_state, req.from.as_slice(), &req.value, now_sec) {
        Ok(()) => {},
        Err(e) => {
            return Err(e);
        },
    }
    let mut asset_key: Vec<u8> = Vec::new();
    crate::rlp::push_all(&mut asset_key, req.asset.as_slice());
    proof {
        assert(asset_key@ =~= req.asset@);
    }
    let log_id = reserve_log(
        &mut st.logs,
        &mut st.next_log_id,
        now_sec,
        asset_key,
        from_hex.clone(),
        to_hex.clone(),
        req.value.clone_value(),
    );
    if st.config.rpc_target.is_none() {
        fail_mark(st, log_id, "rpc target not configured");
        return Err(
            RelayError::ConfigurationMissing { field: String::from_str("rpc_target") },
        );
    }
    let relayer_address = match &st.config.evm_addr {
        Some(a) => a.clone(),
        None => {
            fail_mark(st, log_id, "relayer address not configured");
            return Err(RelayError::RelayerAddressMissing);
        },
    };
    let relayer_address_bytes = match evm_address_bytes(relayer_address.as_str()) {
        Ok(b) => b,
        Err(e) => {
            let msg = e.message();
            fail_mark(st, log_id, msg.as_str());
            return Err(e);
        },
    };
    let chain_id = match &st.config.chain_id {
        Some(c) => c.clone_value(),
        None => {
            let e = RelayError::ConfigurationMissing { field: String::from_str("chain_id") };
            fail_mark(st, log_id, "chain id not configured");
            return Err(e);
        },
    };
    match chain_id.to_u64() {
        Some(_) => {},
        None => {
            let e = RelayError::NumberOutOfRange { field: String::from_str("u64") };
            let msg = e.message();
            fail_mark(st, log_id, msg.as_str());
            return Err(e);
        },
    }
    let auth_data = match encode_authorization_state_call(
        req.from.as_slice(),
        req.nonce.as_slice(),
    ) {
        Ok(d) => d,
        Err(e) => {
            let msg = e.message();
            fail_mark(st, log_id, msg.as_str());
            return Err(e);
        },
    };
    let asset_address = asset_cfg.evm_address;
    let asset_address_bytes = match evm_address_bytes(asset_address.as_str()) {
        Ok(b) => b,
        Err(e) => {
            let msg = e.message();
            fail_mark(st, log_id, msg.as_str());
            return Err(e);
        },
    };
    proof {
        crate::bignum::lemma_pow256_monotone(0, 32);
    }
    let rpc_id = next_json_rpc_id(&mut st.next_rpc_id);
    let data_hex = to_hex_prefixed(auth_data.as_slice());
    let payload = frame_eth_call(rpc_id, asset_address.as_str(), data_hex.as_str());
    let run = Submission {
        phase: Phase::ReplayCheck,
        log_id,
        chain_id,
        asset_address,
        asset_address_bytes,
        relayer_address,
        relayer_address_bytes,
        threshold_wei: st.config.threshold_wei.clone_value(),
        max_fee_multiplier_percent: st.config.max_fee_multiplier_percent,
        priority_multiplier_percent: st.config.priority_multiplier_percent,
        ecdsa_key_name: st.config.ecdsa_key_name.clone(),
        ecdsa_derivation_path: clone_path(&st.config.ecdsa_derivation_path),
        from: req.from,
        to: req.to,
        value: req.value,
        valid_after: req.valid_after,
        valid_before: req.valid_before,
        auth_nonce: req.nonce,
        sig_v: req.sig_v,
        sig_r: req.sig_r,
        sig_s: req.sig_s,
        call_data: Vec::new(),
        gas_limit: BigNum::zero(),
        base_fee: BigNum::zero(),
        priority_fee_effective: BigNum::zero(),
        max_fee_per_gas: BigNum::zero(),
        tx_nonce: BigNum::zero(),
        gas_estimate: BigNum::zero(),
        priority_fee_raw: BigNum::zero(),
        last_balance: BigNum::zero(),
        sighash: Vec::new(),
        unsigned_items: Vec::new(),
    };
    Ok((run, PipelineAction::Rpc { payload }))
}

/// Marks the reserved entry failed and keeps the state well formed.
fn fail_mark(st: &mut RelayerState, log_id: u64, reason: &str)
    requires
        old(st).wf(),
    ensures
        final(st).wf(),
        final(st).config == old(st).config,
        final(st).assets == old(st).assets,
        final(st).admins == old(st).admins,
        final(st).rate_limit == old(st).rate_limit,
        final(st).rate_state == old(st).rate_state,
        final(st).next_log_id == old(st).next_log_id,
        final(st).next_rpc_id == old(st).next_rpc_id,
        final(st).last_known_gas == old(st).last_known_gas,
        final(st).logs@.len() == old(st).logs@.len(),
        forall|i: int| 0 <= i < old(st).logs@.len() && old(st).logs@[i].id != log_id
            ==> final(st).logs@[i] == old(st).logs@[i],
        forall|i: int| 0 <= i < old(st).logs@.len() && old(st).logs@[i].id == log_id ==> {
            let e = final(st).logs@[i];
            let o = old(st).logs@[i];
            &&& e.id == o.id
            &&& e.ts_sec == o.ts_sec
            &&& e.asset == o.asset
            &&& e.from == o.from
            &&& e.to == o.to
            &&& e.value == o.value
            &&& e.status == PaymentStatus::Failed
            &&& e.tx_hash == o.tx_hash
            &&& (e.fail_reason matches Some(m) && m@ == reason@)
        },
{
    let ghost before = st.logs@;
    mark_log_failure(&mut st.logs, log_id, reason);
    proof {
        crate::logbook::lemma_marking_preserves_wf(before, st.logs@, st.next_log_id, log_id);
    }
}

/// Copies a derivation path.

fn clone_path(path: &Vec<Vec<u8>>) -> (out: Vec<Vec<u8>>)
    ensures
        out@.len() == path@.len(),
        forall|i: int| 0 <= i < path@.len() ==> out@[i]@ == path@[i]@,
{
    let mut out: Vec<Vec<u8>> = Vec::new();
    let mut i: usize = 0;
    while i < path.len()
        invariant
            i <= path@.len(),
            out@.len() == i,
            forall|j: int| 0 <= j < i ==> out@[j]@ == path@[j]@,
        decreases path@.len() - i,
    {
        let mut item: Vec<u8> = Vec::new();
        crate::rlp::push_all(&mut item, path[i].as_slice());
        proof {
            assert(item@ =~= path@[i as int]@);
        }
        out.push(item);
        i = i + 1;
    }
    out
}

} // verus!

verus! {

/// The phase an accepted event advances a run to.
pub open spec fn spec_next_phase(p: Phase) -> Phase {
    match p {
        Phase::ReplayCheck => Phase::Simulate,
        Phase::Simulate => Phase::EstimateGas,
        Phase::EstimateGas => Phase::BaseFee,
        Phase::BaseFee => Phase::PriorityFee,
        Phase::PriorityFee => Phase::Balance,
        Phase::Balance => Phase::TxNonce,
        Phase::TxNonce => Phase::Sign,
        Phase::Sign => Phase::Broadcast,
        Phase::Broadcast => Phase::Broadcast,
    }
}

/// The log after the run's entry was marked failed with `reason`.
pub open spec fn spec_marked_failed(
    old_logs: Seq<PaymentLog>,
    new_logs: Seq<PaymentLog>,
    log_id: u64,
    reason: Seq<char>,
) -> bool {
    &&& new_logs.len() == old_logs.len()
    &&& (forall|i: int| 0 <= i < old_logs.len() && old_logs[i].id != log_id ==> new_logs[i]
        == old_logs[i])
    &&& forall|i: int| 0 <= i < old_logs.len() && old_logs[i].id == log_id ==> {
        let e = new_logs[i];
        let o = old_logs[i];
        &&& e.id == o.id
        &&& e.ts_sec == o.ts_sec
        &&& e.value == o.value
        &&& e.status == PaymentStatus::Failed
        &&& (e.fail_reason matches Some(m) && m@ == reason)
    }
}

/// The log after the run's entry was marked broadcasted with `tx_hash`.
pub open spec fn spec_marked_success(
    old_logs: Seq<PaymentLog>,
    new_logs: Seq<PaymentLog>,
    log_id: u64,
    tx_hash: Seq<char>,
) -> bool {
    &&& new_logs.len() == old_logs.len()
    &&& (forall|i: int| 0 <= i < old_logs.len() && old_logs[i].id != log_id ==> new_logs[i]
        == old_logs[i])
    &&& forall|i: int| 0 <= i < old_logs.len() && old_logs[i].id == log_id ==> {
        let e = new_logs[i];
        let o = old_logs[i];
        &&& e.id == o.id
        &&& e.ts_sec == o.ts_sec
        &&& e.value == o.value
        &&& e.status == PaymentStatus::Broadcasted
        &&& (e.tx_hash matches Some(h) && h@ == tx_hash)
        &&& e.fail_reason is None
    }
}

/// The nine unsigned transaction items a run stands for.
pub open spec fn spec_unsigned_items_of(run: Submission) -> Seq<Seq<u8>> {
    crate::tx::spec_unsigned_items(
        run.chain_id.value(),
        run.tx_nonce.value(),
        run.priority_fee_effective.value(),
        run.max_fee_per_gas.value(),
        run.gas_limit.value(),
        run.asset_address_bytes@,
        run.call_data@,
    )
}

/// The `y_parity` a signer reply stands for: the 65th byte where there is
/// one, else the low bit of the first matching recovery id.
pub open spec fn spec_reply_y_parity(sig: Seq<u8>, digest: Seq<u8>, expected: Seq<u8>) -> u8 {
    if sig.len() == 65 {
        sig[64]
    } else {
        (crate::signer::spec_first_recovery(digest, sig, expected)->Some_0 % 2) as u8
    }
}

/// The broadcast payload a signer reply leads to: the signed twelve-item
/// list in its type-2 envelope, hex-encoded into `eth_sendRawTransaction`.
pub open spec fn spec_broadcast_payload(
    run: Submission,
    sig: Seq<u8>,
    rpc_id: nat,
) -> Seq<char> {
    let y = spec_reply_y_parity(sig, run.sighash@, run.relayer_address_bytes@);
    let items12 = crate::rlp::views_of(run.unsigned_items@) + crate::tx::spec_signature_items(
        y,
        crate::signer::spec_trimmed_half(sig.subrange(0, 32)),
        crate::signer::spec_trimmed_half(sig.subrange(32, 64)),
    );
    crate::rpc::spec_frame_send_raw_transaction(
        rpc_id,
        "0x"@ + spec_hex_chars(crate::tx::spec_typed_envelope(items12)),
    )
}

/// Marks the run's entry failed (with the error's canonical reason) and
/// surfaces the error.
fn fail_step(st: &mut RelayerState, log_id: u64, e: RelayError) -> (r: StepResult)
    requires
        old(st).wf(),
    ensures
        final(st).wf(),
        final(st).config == old(st).config,
        final(st).assets == old(st).assets,
        final(st).admins == old(st).admins,
        final(st).rate_state == old(st).rate_state,
        final(st).next_log_id == old(st).next_log_id,
        final(st).next_rpc_id == old(st).next_rpc_id,
        final(st).last_known_gas == old(st).last_known_gas,
        r matches StepResult::Failed(e2) && e2 == e,
        spec_marked_failed(old(st).logs@, final(st).logs@, log_id, spec_message(e)),
{
    let msg = e.message();
    fail_mark(st, log_id, msg.as_str());
    StepResult::Failed(e)
}

/// Parses a `0x…` hexadecimal quantity into a number; `0x` alone is zero.
pub fn nat_from_hex(value: &str) -> (r: Result<BigNum, RelayError>)
    ensures
        match r {
            Ok(n) => n.wf() && (spec_parse_hex(value.spec_bytes()) matches Some(b) && n.value()
                == crate::rlp::spec_be_val(b)),
            Err(e) => spec_parse_hex(value.spec_bytes()) is None && e
                matches RelayError::HexDecodeFailed { .. },
        },
{
    let bytes = parse_hex_bytes(value)?;
    Ok(BigNum::from_be_bytes(bytes.as_slice()))
}

/// Hands the RPC outcome's body on, normalising a transport failure into
/// its relay error.
fn rpc_body(outcome: RequestOutcome) -> (r: Result<String, RelayError>)
    ensures
        match outcome {
            RequestOutcome::Body(b) => r matches Ok(b2) && b2 == b,
            RequestOutcome::Failed(_) => r is Err,
        },
        r is Err ==> ((r->Err_0 matches RelayError::RpcError { .. }) || (r->Err_0
            matches RelayError::RpcTransportError { .. })),
        (outcome matches RequestOutcome::Failed(f) ==> (f matches RpcFailure::JsonRpc {
            code,
            message,
        } ==> r == Err::<String, RelayError>(RelayError::RpcError { code, message }))),
{
    match outcome {
        RequestOutcome::Body(b) => Ok(b),
        RequestOutcome::Failed(f) => Err(relay_error_from_rpc_failure(f)),
    }
}

/// Feeds one event into a run and decides the next step. Every failure
/// marks the run's log entry before surfacing; the balance phase is the
/// only one that touches `last_known_gas`; a finished run has its entry
/// marked `Broadcasted` with the returned transaction hash.
#[verifier::rlimit(100)]
#[verifier::loop_isolation(false)]
pub fn pipeline_step(st: &mut RelayerState, run: &mut Submission, event: PipelineEvent) -> (r:
    StepResult)
    requires
        old(st).wf(),
        old(run).wf(),
        old(run).phase == Phase::Sign ==> !(event is Rpc),
        old(run).phase != Phase::Sign ==> event is Rpc,
    ensures
        final(st).wf(),
        final(run).wf(),
        final(st).config == old(st).config,
        final(st).assets == old(st).assets,
        final(st).admins == old(st).admins,
        final(st).rate_state == old(st).rate_state,
        final(st).next_log_id == old(st).next_log_id,
        final(run).log_id == old(run).log_id,
        old(run).phase != Phase::Balance ==> final(st).last_known_gas == old(st).last_known_gas,
        (r matches StepResult::Failed(e) ==> spec_marked_failed(
            old(st).logs@,
            final(st).logs@,
            old(run).log_id,
            spec_message(e),
        )),
        (r matches StepResult::Finished(h) ==> old(run).phase == Phase::Broadcast
            && spec_marked_success(old(st).logs@, final(st).logs@, old(run).log_id, h@)),
        (r is Continue ==> final(st).logs == old(st).logs && final(run).phase == spec_next_phase(
            old(run).phase,
        )),
        // What an accepted reply leaves behind, phase by phase.
        (old(run).phase == Phase::ReplayCheck ==> (r matches StepResult::Continue(a)
            ==> final(run).call_data@ == spec_transfer_call(
            old(run).from@,
            old(run).to@,
            old(run).value.value(),
            old(run).valid_after.value(),
            old(run).valid_before.value(),
            old(run).auth_nonce@,
            old(run).sig_v,
            old(run).sig_r@,
            old(run).sig_s@,
        ) && (a matches PipelineAction::Rpc { payload } && payload@
            == crate::rpc::spec_frame_eth_call_from(
            old(st).next_rpc_id as nat,
            old(run).relayer_address@,
            old(run).asset_address@,
            "0x"@ + spec_hex_chars(final(run).call_data@),
        )))),
        (old(run).phase == Phase::Simulate ==> (r matches StepResult::Continue(a) ==> (a
            matches PipelineAction::Rpc { payload } && payload@
            == crate::rpc::spec_frame_estimate_gas(
            old(st).next_rpc_id as nat,
            old(run).relayer_address@,
            old(run).asset_address@,
            "0x"@ + spec_hex_chars(old(run).call_data@),
        )))),
        (old(run).phase == Phase::EstimateGas && r is Continue ==> final(run).gas_limit.value()
            == spec_gas_limit(final(run).gas_estimate.value())),
        (old(run).phase == Phase::PriorityFee && r is Continue ==> final(run).priority_fee_effective.value() == spec_priority_fee(
            final(run).priority_fee_raw.value(),
            old(run).priority_multiplier_percent as nat,
        ) && final(run).max_fee_per_gas.value() == spec_base_fee_scaled(
            final(run).base_fee.value(),
            old(run).max_fee_multiplier_percent as nat,
        ) + final(run).priority_fee_effective.value()),
        (old(run).phase == Phase::Balance ==> final(st).last_known_gas.value() == final(run).last_balance.value() || final(st).last_known_gas == old(st).last_known_gas),
        (old(run).phase == Phase::Balance && r is Continue ==> final(run).last_balance.value()
            >= old(run).threshold_wei.value() && final(st).last_known_gas.value() == final(run).last_balance.value()),
        (old(run).phase == Phase::Balance ==> (r matches StepResult::Failed(e) ==> (e
            matches RelayError::GasBalanceLow { required, actual } ==> required.value() == old(run).threshold_wei.value() && actual.value() == final(run).last_balance.value() && final(run).last_balance.value() < old(run).threshold_wei.value() && final(st).last_known_gas.value() == final(run).last_balance.value()))),
        (old(run).phase == Phase::TxNonce ==> (r matches StepResult::Continue(a) ==> final(run).sighash@ == crate::tx::spec_tx_digest(spec_unsigned_items_of(*final(run)))
            && crate::rlp::views_of(final(run).unsigned_items@) == spec_unsigned_items_of(
            *final(run),
        ) && (a matches PipelineAction::Sign { key_name, derivation_path, digest } && digest@
            == final(run).sighash@ && key_name@ == old(run).ecdsa_key_name@))),
        (old(run).phase == Phase::Sign ==> (event matches PipelineEvent::SignReply(sig) ==> (r
            matches StepResult::Continue(a) ==> (a matches PipelineAction::Rpc { payload }
            && payload@ == spec_broadcast_payload(*old(run), sig@, old(st).next_rpc_id as nat))))),
        (old(run).phase == Phase::Sign ==> (event matches PipelineEvent::SignRejected { .. }
            ==> (r matches StepResult::Failed(e) && (e
            matches RelayError::RpcTransportError { .. })))),
        // What each phase owes for a given body: success is forced, and
        // the decisive error of each phase is the one that surfaces.
        (old(run).phase == Phase::ReplayCheck ==> (event matches PipelineEvent::Rpc(o) ==> (o
            matches RequestOutcome::Body(b) ==> {
            &&& ((spec_body_quantity(b@) matches Some(bytes) && !spec_decode_bool(bytes)
                && spec_request_encodable(*old(run))) ==> r is Continue)
            &&& ((spec_body_quantity(b@) matches Some(bytes) && spec_decode_bool(bytes)) ==> (r
                matches StepResult::Failed(e) && e == RelayError::AuthorizationAlreadyUsed))
        }))),
        (old(run).phase == Phase::Simulate ==> (event matches PipelineEvent::Rpc(o) ==> {
            &&& (o matches RequestOutcome::Body(b) ==> {
                &&& ((crate::rpc::spec_body_parses(b@) && !crate::rpc::spec_body_has_error(b@)
                    && crate::rpc::spec_body_has_result(b@)) ==> r is Continue)
                &&& ((crate::rpc::spec_body_parses(b@) && crate::rpc::spec_body_has_error(b@))
                    ==> (r matches StepResult::Failed(e) && (e
                    matches RelayError::SimulationFailed { message } && message@
                    == crate::rpc::spec_rpc_error_message(b@))))
            })
            &&& (o matches RequestOutcome::Failed(f) ==> (f matches RpcFailure::JsonRpc {
                code,
                message,
            } ==> (r matches StepResult::Failed(e) && (e
                matches RelayError::SimulationFailed { message: m2 } && m2@ == message@))))
        })),
        (old(run).phase == Phase::EstimateGas ==> (event matches PipelineEvent::Rpc(o) ==> {
            &&& (o matches RequestOutcome::Body(b) ==> {
                &&& (spec_body_quantity(b@) matches Some(bytes) ==> (crate::fees::spec_scalable(
                    if crate::rlp::spec_be_val(bytes) < crate::fees::MIN_GAS_LIMIT as nat {
                        crate::fees::MIN_GAS_LIMIT as nat
                    } else {
                        crate::rlp::spec_be_val(bytes)
                    },
                    crate::fees::GAS_LIMIT_SCALE_PERCENT as nat,
                ) ==> r is Continue && final(run).gas_estimate.value()
                    == crate::rlp::spec_be_val(bytes)))
                &&& ((crate::rpc::spec_body_parses(b@) && crate::rpc::spec_body_has_error(b@))
                    ==> (r matches StepResult::Failed(e) && (e
                    matches RelayError::GasEstimateFailed { message } && message@
                    == crate::rpc::spec_rpc_error_message(b@))))
            })
            &&& (o matches RequestOutcome::Failed(f) ==> (f matches RpcFailure::JsonRpc {
                code,
                message,
            } ==> (r matches StepResult::Failed(e) && (e
                matches RelayError::GasEstimateFailed { message: m2 } && m2@ == message@))))
        })),
        (old(run).phase == Phase::BaseFee ==> (event matches PipelineEvent::Rpc(o) ==> (o
            matches RequestOutcome::Body(b) ==> (spec_base_fee_quantity(b@) matches Some(bytes)
            ==> r is Continue && final(run).base_fee.value() == crate::rlp::spec_be_val(
            bytes,
        ))))),
        (old(run).phase == Phase::PriorityFee ==> (event matches PipelineEvent::Rpc(o) ==> (o
            matches RequestOutcome::Body(b) ==> (spec_body_quantity(b@) matches Some(bytes)
            ==> ((crate::fees::spec_scalable(
            crate::rlp::spec_be_val(bytes),
            old(run).priority_multiplier_percent as nat,
        ) && crate::fees::spec_scalable(
            old(run).base_fee.value(),
            old(run).max_fee_multiplier_percent as nat,
        )) ==> r is Continue && final(run).priority_fee_raw.value() == crate::rlp::spec_be_val(
            bytes,
        )))))),
        (old(run).phase == Phase::Balance ==> (event matches PipelineEvent::Rpc(o) ==> (o
            matches RequestOutcome::Body(b) ==> (spec_body_quantity(b@) matches Some(bytes) ==> {
            &&& final(run).last_balance.value() == crate::rlp::spec_be_val(bytes)
            &&& final(st).last_known_gas.value() == crate::rlp::spec_be_val(bytes)
            &&& crate::rlp::spec_be_val(bytes) >= old(run).threshold_wei.value() ==> r
                is Continue
            &&& crate::rlp::spec_be_val(bytes) < old(run).threshold_wei.value() ==> (r
                matches StepResult::Failed(e) && (e matches RelayError::GasBalanceLow { .. }))
        })))),
        (old(run).phase == Phase::TxNonce ==> (event matches PipelineEvent::Rpc(o) ==> (o
            matches RequestOutcome::Body(b) ==> (spec_body_quantity(b@) matches Some(bytes)
            ==> (crate::rlp::spec_be_val(bytes) < crate::rlp::pow256(32) ==> r is Continue
                && final(run).tx_nonce.value() == crate::rlp::spec_be_val(bytes)))))),
        (old(run).phase == Phase::Sign ==> (event matches PipelineEvent::SignReply(sig) ==> {
            &&& sig@.len() == 65 ==> r is Continue
            &&& (sig@.len() == 64 && crate::signer::spec_valid_rs(sig@)
                && crate::signer::spec_first_recovery(
                old(run).sighash@,
                sig@,
                old(run).relayer_address_bytes@,
            ) is Some) ==> r is Continue
            &&& (sig@.len() != 64 && sig@.len() != 65) ==> (r matches StepResult::Failed(e)
                && (e matches RelayError::InvalidSignatureLength { .. }))
            &&& (sig@.len() == 64 && (!crate::signer::spec_valid_rs(sig@)
                || crate::signer::spec_first_recovery(
                old(run).sighash@,
                sig@,
                old(run).relayer_address_bytes@,
            ) is None)) ==> (r matches StepResult::Failed(e) && (e
                matches RelayError::SignatureRecoveryFailed { .. }))
        })),
        (old(run).phase == Phase::Broadcast ==> (event matches PipelineEvent::Rpc(o) ==> (o
            matches RequestOutcome::Body(b) ==> {
            &&& (crate::rpc::spec_ok_string_body(b@) ==> (r matches StepResult::Finished(h)
                && crate::rpc::spec_result_str_of(b@) == Some(h@)))
            &&& ((crate::rpc::spec_body_parses(b@) && crate::rpc::spec_body_has_error(b@)) ==> (r
                matches StepResult::Failed(e) && (e matches RelayError::RpcError {
                code,
                message,
            } && code == crate::rpc::spec_rpc_error_code(b@) && message@
                == crate::rpc::spec_rpc_error_message(b@))))
        }))),
{
    let log_id = run.log_id;
    match run.phase {
        Phase::ReplayCheck => {
            let outcome = match event {
                PipelineEvent::Rpc(o) => o,
                _ => {
                    return fail_step(
                        st,
                        log_id,
                        RelayError::NotImplemented { feature: String::from_str("event") },
                    );
                },
            };
            let body = match rpc_body(outcome) {
                Ok(b) => b,
                Err(e) => {
                    return fail_step(st, log_id, e);
                },
            };
            let hex = match rpc_result_string(body.as_str(), "hex string") {
                Ok(h) => h,
                Err(e) => {
                    return fail_step(st, log_id, e);
                },
            };
            let bytes = match parse_hex_bytes(hex.as_str()) {
                Ok(b) => b,
                Err(e) => {
                    return fail_step(st, log_id, e);
                },
            };
            if decode_bool_abi(bytes.as_slice()) {
                return fail_step(st, log_id, RelayError::AuthorizationAlreadyUsed);
            }
            let call_data = match encode_transfer_with_authorization_call(
                run.from.as_slice(),
                run.to.as_slice(),
                &run.value,
                &run.valid_after,
                &run.valid_before,
                run.auth_nonce.as_slice(),
                run.sig_v,
                run.sig_r.as_slice(),
                run.sig_s.as_slice(),
            ) {
                Ok(d) => d,
                Err(e) => {
                    return fail_step(st, log_id, e);
                },
            };
            run.call_data = call_data;
            let rpc_id = next_json_rpc_id(&mut st.next_rpc_id);
            let data_hex = to_hex_prefixed(run.call_data.as_slice());
            let payload = frame_eth_call_from(
                rpc_id,
                run.relayer_address.as_str(),
                run.asset_address.as_str(),
                data_hex.as_str(),
            );
            run.phase = Phase::Simulate;
            StepResult::Continue(PipelineAction::Rpc { payload })
        },
        Phase::Simulate => {
            let outcome = match event {
                PipelineEvent::Rpc(o) => o,
                _ => {
                    return fail_step(
                        st,
                        log_id,
                        RelayError::NotImplemented { feature: String::from_str("event") },
                    );
                },
            };
            let sim = match rpc_body(outcome) {
                Ok(body) => rpc_result_ok(body.as_str()),
                Err(e) => Err(e),
            };
            match sim {
                Ok(()) => {},
                Err(e) => {
                    let mapped = match e {
                        RelayError::RpcError { code: _, message } => RelayError::SimulationFailed {
                            message,
                        },
                        other => other,
                    };
                    return fail_step(st, log_id, mapped);
                },
            }
            let rpc_id = next_json_rpc_id(&mut st.next_rpc_id);
            let data_hex = to_hex_prefixed(run.call_data.as_slice());
            let payload = frame_estimate_gas(
                rpc_id,
                run.relayer_address.as_str(),
                run.asset_address.as_str(),
                data_hex.as_str(),
            );
            run.phase = Phase::EstimateGas;
            StepResult::Continue(PipelineAction::Rpc { payload })
        },
        Phase::EstimateGas => {
            let outcome = match event {
                PipelineEvent::Rpc(o) => o,
                _ => {
                    return fail_step(
                        st,
                        log_id,
                        RelayError::NotImplemented { feature: String::from_str("event") },
                    );
                },
            };
            let parsed = match rpc_body(outcome) {
                Ok(body) => match rpc_result_string(body.as_str(), "hex string") {
                    Ok(hex) => match nat_from_hex(hex.as_str()) {
                        Ok(n) => Ok(n),
                        Err(e) => Err(
                            match e {
                                RelayError::HexDecodeFailed { value } => {
                                    RelayError::GasEstimateFailed { message: value }
                                },
                                other => other,
                            },
                        ),
                    },
                    Err(e) => Err(e),
                },
                Err(e) => Err(e),
            };
            let estimate = match parsed {
                Ok(n) => n,
                Err(e) => {
                    let mapped = match e {
                        RelayError::RpcError { code: _, message } => RelayError::GasEstimateFailed {
                            message,
                        },
                        other => other,
                    };
                    return fail_step(st, log_id, mapped);
                },
            };
            let gas_limit = match derive_gas_limit(&estimate) {
                Ok(g) => g,
                Err(e) => {
                    return fail_step(st, log_id, e);
                },
            };
            run.gas_estimate = estimate;
            run.gas_limit = gas_limit;
            let rpc_id = next_json_rpc_id(&mut st.next_rpc_id);
            let payload = frame_block_by_number(rpc_id);
            run.phase = Phase::BaseFee;
            StepResult::Continue(PipelineAction::Rpc { payload })
        },
        Phase::BaseFee => {
            let outcome = match event {
                PipelineEvent::Rpc(o) => o,
                _ => {
                    return fail_step(
                        st,
                        log_id,
                        RelayError::NotImplemented { feature: String::from_str("event") },
                    );
                },
            };
            let base = match rpc_body(outcome) {
                Ok(body) => match rpc_result_base_fee(body.as_str()) {
                    Ok(hex) => nat_from_hex(hex.as_str()),
                    Err(e) => Err(e),
                },
                Err(e) => Err(e),
            };
            let base_fee = match base {
                Ok(n) => n,
                Err(e) => {
                    return fail_step(st, log_id, e);
                },
            };
            run.base_fee = base_fee;
            let rpc_id = next_json_rpc_id(&mut st.next_rpc_id);
            let payload = frame_max_priority_fee(rpc_id);
            run.phase = Phase::PriorityFee;
            StepResult::Continue(PipelineAction::Rpc { payload })
        },
        Phase::PriorityFee => {
            let outcome = match event {
                PipelineEvent::Rpc(o) => o,
                _ => {
                    return fail_step(
                        st,
                        log_id,
                        RelayError::NotImplemented { feature: String::from_str("event") },
                    );
                },
            };
            let prio = match rpc_body(outcome) {
                Ok(body) => match rpc_result_string(body.as_str(), "hex string") {
                    Ok(hex) => nat_from_hex(hex.as_str()),
                    Err(e) => Err(e),
                },
                Err(e) => Err(e),
            };
            let priority_raw = match prio {
                Ok(n) => n,
                Err(e) => {
                    return fail_step(st, log_id, e);
                },
            };
            let priority_effective = match derive_priority_fee(
                &priority_raw,
                run.priority_multiplier_percent,
            ) {
                Ok(p) => p,
                Err(e) => {
                    return fail_step(st, log_id, e);
                },
            };
            let base_scaled = match derive_base_fee_scaled(
                &run.base_fee,
                run.max_fee_multiplier_percent,
            ) {
                Ok(b) => b,
                Err(e) => {
                    return fail_step(st, log_id, e);
                },
            };
            let max_fee = max_fee_per_gas(&base_scaled, &priority_effective);
            run.priority_fee_raw = priority_raw;
            run.priority_fee_effective = priority_effective;
            run.max_fee_per_gas = max_fee;
            let rpc_id = next_json_rpc_id(&mut st.next_rpc_id);
            let payload = frame_address_block(
                rpc_id,
                "eth_getBalance",
                run.relayer_address.as_str(),
                "latest",
            );
            run.phase = Phase::Balance;
            StepResult::Continue(PipelineAction::Rpc { payload })
        },
        Phase::Balance => {
            let outcome = match event {
                PipelineEvent::Rpc(o) => o,
                _ => {
                    return fail_step(
                        st,
                        log_id,
                        RelayError::NotImplemented { feature: String::from_str("event") },
                    );
                },
            };
            let bal = match rpc_body(outcome) {
                Ok(body) => match rpc_result_string(body.as_str(), "hex string") {
                    Ok(hex) => nat_from_hex(hex.as_str()),
                    Err(e) => Err(e),
                },
                Err(e) => Err(e),
            };
            let balance = match bal {
                Ok(n) => n,
                Err(e) => {
                    return fail_step(st, log_id, e);
                },
            };
            st.last_known_gas = balance.clone_value();
            run.last_balance = balance;
            if run.last_balance.lt(&run.threshold_wei) {
                let e = RelayError::GasBalanceLow {
                    required: run.threshold_wei.clone_value(),
                    actual: run.last_balance.clone_value(),
                };
                return fail_step(st, log_id, e);
            }
            let rpc_id = next_json_rpc_id(&mut st.next_rpc_id);
            let payload = frame_address_block(
                rpc_id,
                "eth_getTransactionCount",
                run.relayer_address.as_str(),
                "pending",
            );
            run.phase = Phase::TxNonce;
            StepResult::Continue(PipelineAction::Rpc { payload })
        },
        Phase::TxNonce => {
            let outcome = match event {
                PipelineEvent::Rpc(o) => o,
                _ => {
                    return fail_step(
                        st,
                        log_id,
                        RelayError::NotImplemented { feature: String::from_str("event") },
                    );
                },
            };
            let parsed = match rpc_body(outcome) {
                Ok(body) => match rpc_result_string(body.as_str(), "hex string") {
                    Ok(hex) => nat_from_hex(hex.as_str()),
                    Err(e) => Err(e),
                },
                Err(e) => Err(e),
            };
            let tx_nonce = match parsed {
                Ok(n) => n,
                Err(e) => {
                    return fail_step(st, log_id, e);
                },
            };
            proof {
                if tx_nonce.bytes@.len() > 32 {
                    crate::bignum::lemma_be_val_lower_bound(tx_nonce.bytes@);
                    crate::bignum::lemma_pow256_monotone(32, (tx_nonce.bytes@.len() - 1) as nat);
                }
            }
            if tx_nonce.bytes.len() > 32 {
                return fail_step(
                    st,
                    log_id,
                    RelayError::NumberOutOfRange { field: String::from_str("uint256") },
                );
            }
            proof {
                crate::rlp::lemma_be_val_upper_bound(tx_nonce.bytes@);
                crate::bignum::lemma_pow256_monotone(tx_nonce.bytes@.len(), 32);
            }
            run.tx_nonce = tx_nonce;
            let items = unsigned_tx_items(
                &run.chain_id,
                &run.tx_nonce,
                &run.priority_fee_effective,
                &run.max_fee_per_gas,
                &run.gas_limit,
                run.asset_address_bytes.as_slice(),
                run.call_data.as_slice(),
            );
            proof {
                lemma_unsigned_item_bounds(*run, items@);
            }
            let digest = tx_digest(items.as_slice());
            run.unsigned_items = items;
            run.sighash = digest;
            run.phase = Phase::Sign;
            let mut digest_copy: Vec<u8> = Vec::new();
            crate::rlp::push_all(&mut digest_copy, run.sighash.as_slice());
            proof {
                assert(digest_copy@ =~= run.sighash@);
            }
            StepResult::Continue(
                PipelineAction::Sign {
                    key_name: run.ecdsa_key_name.clone(),
                    derivation_path: clone_path(&run.ecdsa_derivation_path),
                    digest: digest_copy,
                },
            )
        },
        Phase::Sign => {
            let signature = match event {
                PipelineEvent::SignReply(sig) => sig,
                PipelineEvent::SignRejected { code, message } => {
                    return fail_step(st, log_id, RelayError::RpcTransportError { code, message });
                },
                PipelineEvent::Rpc(_) => {
                    return fail_step(
                        st,
                        log_id,
                        RelayError::NotImplemented { feature: String::from_str("event") },
                    );
                },
            };
            let parts = match signature_parts_from_reply(
                signature.as_slice(),
                run.sighash.as_slice(),
                run.relayer_address_bytes.as_slice(),
            ) {
                Ok(p) => p,
                Err(e) => {
                    return fail_step(st, log_id, e);
                },
            };
            let items12 = signed_tx_items(
                run.unsigned_items.as_slice(),
                parts.y_parity,
                parts.r.as_slice(),
                parts.s.as_slice(),
            );
            proof {
                crate::rlp::lemma_trim_len_le(signature@.subrange(0, 32));
                crate::rlp::lemma_trim_len_le(signature@.subrange(32, 64));
                lemma_signed_item_bounds(*run, parts, crate::rlp::views_of(items12@));
            }
            let raw_tx = typed_envelope(items12.as_slice());
            let raw_hex = to_hex_prefixed(raw_tx.as_slice());
            let rpc_id = next_json_rpc_id(&mut st.next_rpc_id);
            let payload = frame_send_raw_transaction(rpc_id, raw_hex.as_str());
            run.phase = Phase::Broadcast;
            StepResult::Continue(PipelineAction::Rpc { payload })
        },
        Phase::Broadcast => {
            let outcome = match event {
                PipelineEvent::Rpc(o) => o,
                _ => {
                    return fail_step(
                        st,
                        log_id,
                        RelayError::NotImplemented { feature: String::from_str("event") },
                    );
                },
            };
            let hash = match rpc_body(outcome) {
                Ok(body) => rpc_result_string(body.as_str(), "transaction hash"),
                Err(e) => Err(e),
            };
            match hash {
                Ok(tx_hash) => {
                    let ghost before = st.logs@;
                    mark_log_success(&mut st.logs, log_id, tx_hash.as_str());
                    proof {
                        crate::logbook::lemma_marking_preserves_wf(
                            before,
                            st.logs@,
                            st.next_log_id,
                            log_id,
                        );
                    }
                    StepResult::Finished(tx_hash)
                },
                Err(e) => fail_step(st, log_id, e),
            }
        },
    }
}

/// Every unsigned item is small: the five integers fit 256 bits, the
/// recipient is 20 bytes, the value is zero, the calldata is bounded and
/// the access list is empty.
proof fn lemma_unsigned_item_bounds(run: Submission, items: Seq<Vec<u8>>)
    requires
        run.wf(),
        crate::rlp::views_of(items) == spec_unsigned_items_of(run),
    ensures
        forall|k: int| 0 <= k < crate::rlp::views_of(items).len()
            ==> (#[trigger] crate::rlp::views_of(items)[k]).len() <= 0x11000,
        crate::rlp::spec_concat_items(crate::rlp::views_of(items)).len() + 200 <= usize::MAX,
        crate::rlp::views_of(items).len() == 9,
{
    let vs = crate::rlp::views_of(items);
    crate::bignum::lemma_pow256_16();
    crate::bignum::lemma_pow256_monotone(16, 32);
    crate::bignum::lemma_pow256_monotone(17, 32);
    crate::rlp::lemma_pow256_8();
    crate::bignum::lemma_pow256_monotone(8, 32);
    assert(crate::rlp::pow256(17) == 256 * crate::rlp::pow256(16));
    assert(run.chain_id.value() < crate::rlp::pow256(32));
    assert(run.gas_limit.value() < crate::rlp::pow256(32));
    assert(run.priority_fee_effective.value() < crate::rlp::pow256(32));
    assert(run.max_fee_per_gas.value() < crate::rlp::pow256(32));
    crate::tx::lemma_rlp_uint_len(run.chain_id.value());
    crate::tx::lemma_rlp_uint_len(run.tx_nonce.value());
    crate::tx::lemma_rlp_uint_len(run.priority_fee_effective.value());
    crate::tx::lemma_rlp_uint_len(run.max_fee_per_gas.value());
    crate::tx::lemma_rlp_uint_len(run.gas_limit.value());
    assert(0nat < crate::rlp::pow256(32)) by {
        crate::bignum::lemma_pow256_monotone(0, 32);
    }
    crate::tx::lemma_rlp_uint_len(0);
    crate::tx::lemma_rlp_bytes_len(run.asset_address_bytes@);
    crate::tx::lemma_rlp_bytes_len(run.call_data@);
    assert(crate::rlp::spec_rlp_encode_list(Seq::empty()).len() == 1) by {
        assert(crate::rlp::spec_concat_items(Seq::<Seq<u8>>::empty()).len() == 0);
    }
    assert(forall|k: int| 0 <= k < vs.len() ==> (#[trigger] vs[k]).len() <= 0x11000);
    crate::rlp::lemma_concat_items_uniform_bound(vs, 0x11000);
}

/// Every signed item is small too: the twelve items stay within the
/// uniform bound, so the envelope fits.
proof fn lemma_signed_item_bounds(run: Submission, parts: SignatureParts, vs12: Seq<Seq<u8>>)
    requires
        run.wf(),
        run.phase == Phase::Sign,
        parts.r@.len() <= 32,
        parts.s@.len() <= 32,
        vs12 == crate::rlp::views_of(run.unsigned_items@) + crate::tx::spec_signature_items(
            parts.y_parity,
            parts.r@,
            parts.s@,
        ),
    ensures
        crate::rlp::spec_concat_items(vs12).len() + 10 <= usize::MAX,
{
    assert((parts.y_parity as nat) < crate::rlp::pow256(32)) by {
        crate::bignum::lemma_pow256_monotone(1, 32);
    }
    crate::tx::lemma_rlp_uint_len(parts.y_parity as nat);
    crate::tx::lemma_rlp_bytes_len(parts.r@);
    crate::tx::lemma_rlp_bytes_len(parts.s@);
    assert(forall|k: int| 0 <= k < vs12.len() ==> (#[trigger] vs12[k]).len() <= 0x11000);
    crate::rlp::lemma_concat_items_uniform_bound(vs12, 0x11000);
}

} // verus!

verus! {

/// Prepares a gas-balance refresh: checks that the relayer address and
/// chain id are configured and frames the `eth_getBalance` call.
pub fn begin_balance_refresh(st: &mut RelayerState) -> (r: Result<String, RelayError>)
    requires
        old(st).wf(),
    ensures
        final(st).wf(),
        final(st).logs == old(st).logs,
        final(st).config == old(st).config,
        final(st).last_known_gas == old(st).last_known_gas,
        match r {
            Ok(payload) => old(st).config.evm_addr is Some && (old(st).config.chain_id
                matches Some(c) && c.value() <= u64::MAX) && payload@
                == crate::rpc::spec_frame_address_block(
                old(st).next_rpc_id as nat,
                "eth_getBalance"@,
                old(st).config.evm_addr->Some_0@,
                "latest"@,
            ),
            Err(e) => {
                ||| old(st).config.evm_addr is None && e == RelayError::RelayerAddressMissing
                ||| old(st).config.evm_addr is Some && old(st).config.chain_id is None && (e
                    matches RelayError::ConfigurationMissing { field } && field@ == "chain_id"@)
                ||| old(st).config.evm_addr is Some && (old(st).config.chain_id matches Some(c)
                    && c.value() > u64::MAX) && (e matches RelayError::NumberOutOfRange { field }
                    && field@ == "u64"@)
            },
        },
{
    let address = match &st.config.evm_addr {
        Some(a) => a.clone(),
        None => {
            return Err(RelayError::RelayerAddressMissing);
        },
    };
    let chain = match &st.config.chain_id {
        Some(c) => c.clone_value(),
        None => {
            return Err(
                RelayError::ConfigurationMissing { field: String::from_str("chain_id") },
            );
        },
    };
    match chain.to_u64() {
        Some(_) => {},
        None => {
            return Err(RelayError::NumberOutOfRange { field: String::from_str("u64") });
        },
    }
    let rpc_id = next_json_rpc_id(&mut st.next_rpc_id);
    Ok(frame_address_block(rpc_id, "eth_getBalance", address.as_str(), "latest"))
}

/// Interprets an `eth_getBalance` body and records the balance as the
/// last known gas.
pub fn finish_balance_refresh(st: &mut RelayerState, body: &str) -> (r: Result<
    BigNum,
    RelayError,
>)
    requires
        old(st).wf(),
    ensures
        final(st).wf(),
        final(st).logs == old(st).logs,
        final(st).config == old(st).config,
        match r {
            Ok(b) => {
                &&& b.wf()
                &&& (spec_body_quantity(body@) matches Some(bytes) && b.value()
                    == crate::rlp::spec_be_val(bytes))
                &&& final(st).last_known_gas.value() == b.value()
            },
            Err(_) => spec_body_quantity(body@) is None && final(st).last_known_gas == old(
                st,
            ).last_known_gas,
        },
{
    let hex = match rpc_result_string(body, "hex string") {
        Ok(h) => h,
        Err(e) => {
            return Err(e);
        },
    };
    let balance = match nat_from_hex(hex.as_str()) {
        Ok(b) => b,
        Err(e) => {
            return Err(e);
        },
    };
    st.last_known_gas = balance.clone_value();
    Ok(balance)
}

} // verus!
