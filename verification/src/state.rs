//! The relayer's singleton state: admins, configuration, the asset
//! registry, rate-limit counters, the payment log and the id counters.

use vstd::prelude::*;
use vstd::string::StringSliceAdditionalSpecFns;
use crate::bignum::BigNum;
use crate::errors::RelayError;
use crate::hexfmt::{normalize_evm_address, spec_hex_chars, spec_parse_hex, spec_trim_ascii};
use crate::logbook::{logs_wf, PaymentLog};
use crate::ratelimit::{RateLimitConfig, RateLimitState};

verus! {

#[derive(PartialEq, Eq, Structural, Clone, Copy, Debug)]
pub enum AssetStatus {
    Active,
    Deprecated,
    Disabled,
}

/// One registered asset: its on-chain contract address in normal form,
/// its lifecycle status, its fee in basis points, and a version counter.
pub struct AssetConfig {
    pub evm_address: String,
    pub status: AssetStatus,
    pub fee_bps: u16,
    pub version: u32,
}

/// A registry entry: the asset's opaque identifier and its configuration.
pub struct AssetEntry {
    pub key: Vec<u8>,
    pub config: AssetConfig,
}

/// The JSON-RPC backend reference: the transport's opaque identifier and
/// the network tag it should resolve.
pub struct RpcTarget {
    pub backend: Vec<u8>,
    pub network: String,
}

/// The relayer's configuration. Multipliers are held in percent: `200`
/// doubles a fee, `120` adds a fifth.
pub struct RelayerConfig {
    pub evm_addr: Option<String>,
    pub ecdsa_key_name: String,
    pub ecdsa_derivation_path: Vec<Vec<u8>>,
    pub chain_id: Option<BigNum>,
    pub threshold_wei: BigNum,
    pub rpc_target: Option<RpcTarget>,
    pub max_fee_multiplier_percent: u32,
    pub priority_multiplier_percent: u32,
    pub paused: bool,
}

/// The singleton state.
pub struct RelayerState {
    pub admins: Vec<Vec<u8>>,
    pub config: RelayerConfig,
    pub assets: Vec<AssetEntry>,
    pub rate_limit: RateLimitConfig,
    pub rate_state: RateLimitState,
    pub logs: Vec<PaymentLog>,
    pub next_log_id: u64,
    pub last_known_gas: BigNum,
    pub next_rpc_id: u64,
}

/// Registry keys are unique.
pub open spec fn assets_wf(entries: Seq<AssetEntry>) -> bool {
    forall|i: int, j: int| 0 <= i < j < entries.len() ==> entries[i].key@ != entries[j].key@
}

impl RelayerConfig {
    pub open spec fn wf(&self) -> bool {
        &&& self.threshold_wei.wf()
        &&& (self.chain_id matches Some(c) ==> c.wf())
    }
}

impl RelayerState {
    pub open spec fn wf(&self) -> bool {
        &&& self.config.wf()
        &&& assets_wf(self.assets@)
        &&& self.rate_state.wf()
        &&& logs_wf(self.logs@, self.next_log_id)
        &&& self.last_known_gas.wf()
    }
}

/// The configuration of the asset stored under `key`, if any.
pub open spec fn spec_asset_lookup(entries: Seq<AssetEntry>, key: Seq<u8>) -> Option<AssetConfig>
    decreases entries.len(),
{
    if entries.len() == 0 {
        None
    } else if entries[0].key@ == key {
        Some(entries[0].config)
    } else {
        spec_asset_lookup(entries.drop_first(), key)
    }
}

pub proof fn lemma_asset_lookup_after_update(
    entries: Seq<AssetEntry>,
    i: int,
    new: AssetEntry,
    k: Seq<u8>,
)
    requires
        assets_wf(entries),
        0 <= i < entries.len(),
        new.key@ == entries[i].key@,
    ensures
        spec_asset_lookup(entries.update(i, new), k) == if k == entries[i].key@ {
            Some(new.config)
        } else {
            spec_asset_lookup(entries, k)
        },
    decreases entries.len(),
{
    let updated = entries.update(i, new);
    if i == 0 {
        assert(updated[0] == new);
        if k != entries[0].key@ {
            assert(updated.drop_first() =~= entries.drop_first());
        }
    } else {
        assert(updated[0] == entries[0]);
        assert(entries[0].key@ != entries[i].key@);
        if entries[0].key@ == k {
        } else {
            assert(updated.drop_first() =~= entries.drop_first().update(i - 1, new));
            assert(assets_wf(entries.drop_first())) by {
                assert(forall|a: int| 0 <= a < entries.drop_first().len()
                    ==> (#[trigger] entries.drop_first()[a]) == entries[a + 1]);
            }
            assert(entries.drop_first()[i - 1] == entries[i]);
            lemma_asset_lookup_after_update(entries.drop_first(), i - 1, new, k);
        }
    }
}

pub proof fn lemma_asset_lookup_after_push(entries: Seq<AssetEntry>, new: AssetEntry, k: Seq<u8>)
    requires
        spec_asset_lookup(entries, new.key@) is None,
    ensures
        spec_asset_lookup(entries.push(new), k) == if k == new.key@ {
            Some(new.config)
        } else {
            spec_asset_lookup(entries, k)
        },
    decreases entries.len(),
{
    let pushed = entries.push(new);
    if entries.len() == 0 {
        assert(pushed[0] == new);
        if k != new.key@ {
            assert(pushed.drop_first() =~= Seq::<AssetEntry>::empty());
            assert(spec_asset_lookup(pushed, k) == spec_asset_lookup(pushed.drop_first(), k));
            assert(spec_asset_lookup(pushed, k) is None);
            assert(spec_asset_lookup(entries, k) is None);
        }
    } else {
        assert(pushed[0] == entries[0]);
        assert(entries[0].key@ != new.key@);
        if entries[0].key@ == k {
        } else {
            assert(pushed.drop_first() =~= entries.drop_first().push(new));
            assert(spec_asset_lookup(entries, new.key@) == spec_asset_lookup(
                entries.drop_first(),
                new.key@,
            ));
            lemma_asset_lookup_after_push(entries.drop_first(), new, k);
        }
    }
}

pub proof fn lemma_asset_lookup_none_absent(entries: Seq<AssetEntry>, k: Seq<u8>)
    requires
        spec_asset_lookup(entries, k) is None,
    ensures
        forall|i: int| 0 <= i < entries.len() ==> (#[trigger] entries[i]).key@ != k,
    decreases entries.len(),
{
    if entries.len() > 0 {
        lemma_asset_lookup_none_absent(entries.drop_first(), k);
        assert(forall|i: int| 1 <= i < entries.len() ==> (#[trigger] entries[i])
            == entries.drop_first()[i - 1]);
    }
}

fn keys_equal(a: &[u8], b: &[u8]) -> (r: bool)
    ensures
        r == (a@ == b@),
{
    if a.len() != b.len() {
        proof {
            assert(a@.len() != b@.len());
        }
        return false;
    }
    let mut i: usize = 0;
    while i < a.len()
        invariant
            i <= a@.len(),
            a@.len() == b@.len(),
            forall|j: int| 0 <= j < i ==> a@[j] == b@[j],
        decreases a@.len() - i,
    {
        if a[i] != b[i] {
            return false;
        }
        i = i + 1;
    }
    proof {
        assert(a@ =~= b@);
    }
    true
}

/// Finds the registry index of `key`.
#[verifier::loop_isolation(false)]
fn find_asset(entries: &Vec<AssetEntry>, key: &[u8]) -> (r: Option<usize>)
    ensures
        match r {
            Some(i) => i < entries@.len() && entries@[i as int].key@ == key@
                && spec_asset_lookup(entries@, key@) == Some(entries@[i as int].config),
            None => spec_asset_lookup(entries@, key@) is None,
        },
{
    proof {
        assert(entries@.skip(0) =~= entries@);
    }
    let mut i: usize = 0;
    while i < entries.len()
        invariant
            i <= entries@.len(),
            spec_asset_lookup(entries@, key@) == spec_asset_lookup(
                entries@.skip(i as int),
                key@,
            ),
        decreases entries@.len() - i,
    {
        if keys_equal(entries[i].key.as_slice(), key) {
            proof {
                assert(entries@.skip(i as int)[0] == entries@[i as int]);
            }
            return Some(i);
        }
        proof {
            assert(entries@.skip(i as int).drop_first() =~= entries@.skip(i + 1));
        }
        i = i + 1;
    }
    None
}

/// Looks an asset up by its identifier, handing back a copy of its
/// configuration.
pub fn asset_config_of(state: &RelayerState, key: &[u8]) -> (r: Option<AssetConfig>)
    ensures
        match r {
            Some(cfg) => spec_asset_lookup(state.assets@, key@) matches Some(c) && cfg.evm_address@
                == c.evm_address@ && cfg.status == c.status && cfg.fee_bps == c.fee_bps
                && cfg.version == c.version,
            None => spec_asset_lookup(state.assets@, key@) is None,
        },
{
    match find_asset(&state.assets, key) {
        Some(i) => {
            let cfg = &state.assets[i].config;
            Some(
                AssetConfig {
                    evm_address: cfg.evm_address.clone(),
                    status: cfg.status,
                    fee_bps: cfg.fee_bps,
                    version: cfg.version,
                },
            )
        },
        None => None,
    }
}

/// Whether `caller` is one of the admins.
pub open spec fn spec_is_admin(admins: Seq<Vec<u8>>, caller: Seq<u8>) -> bool {
    exists|i: int| 0 <= i < admins.len() && admins[i]@ == caller
}

/// Refuses a caller who is not an admin.
#[verifier::loop_isolation(false)]
pub fn ensure_admin(state: &RelayerState, caller: &[u8]) -> (r: Result<(), RelayError>)
    ensures
        r is Ok <==> spec_is_admin(state.admins@, caller@),
        r is Err ==> r->Err_0 == RelayError::NotAuthorized,
{
    let mut i: usize = 0;
    while i < state.admins.len()
        invariant
            i <= state.admins@.len(),
            forall|j: int| 0 <= j < i ==> state.admins@[j]@ != caller@,
        decreases state.admins@.len() - i,
    {
        if keys_equal(state.admins[i].as_slice(), caller) {
            return Ok(());
        }
        i = i + 1;
    }
    Err(RelayError::NotAuthorized)
}

/// The arguments installation accepts; every omitted field has a default.
pub struct InitArgs {
    pub admins: Vec<Vec<u8>>,
    pub ecdsa_key_name: String,
    pub chain_id: Option<BigNum>,
    pub ecdsa_derivation_path: Option<Vec<Vec<u8>>>,
    pub threshold_wei: Option<BigNum>,
    pub max_fee_multiplier_percent: Option<u32>,
    pub priority_multiplier_percent: Option<u32>,
    pub rate_limit_per_min: Option<u32>,
    pub daily_cap_token: Option<u64>,
}

/// The default installation arguments: key `test_key_1`, zero threshold,
/// a doubled base fee, a priority fee raised by a fifth, ten submissions
/// a minute and a ten-thousand-token daily cap.
pub fn default_init_args() -> (r: InitArgs)
    ensures
        r.admins@.len() == 0,
        r.ecdsa_key_name@ == "test_key_1"@,
        r.chain_id is None,
        r.ecdsa_derivation_path is None,
        r.threshold_wei matches Some(t) && t.wf() && t.value() == 0,
        r.max_fee_multiplier_percent == Some(200u32),
        r.priority_multiplier_percent == Some(120u32),
        r.rate_limit_per_min == Some(10u32),
        r.daily_cap_token == Some(10_000u64),
{
    InitArgs {
        admins: Vec::new(),
        ecdsa_key_name: String::from_str("test_key_1"),
        chain_id: None,
        ecdsa_derivation_path: None,
        threshold_wei: Some(BigNum::zero()),
        max_fee_multiplier_percent: Some(200),
        priority_multiplier_percent: Some(120),
        rate_limit_per_min: Some(10),
        daily_cap_token: Some(10_000),
    }
}

/// Builds the initial state: the caller joins the given admins, the
/// service starts paused, the log counter starts at one.
pub fn init_state(args: InitArgs, caller: Vec<u8>) -> (st: RelayerState)
    requires
        (args.threshold_wei matches Some(t) ==> t.wf()),
        (args.chain_id matches Some(c) ==> c.wf()),
    ensures
        st.wf(),
        spec_is_admin(st.admins@, caller@),
        forall|k: Seq<u8>| spec_is_admin(st.admins@, k) <==> (k == caller@ || exists|i: int|
            0 <= i < args.admins@.len() && args.admins@[i]@ == k),
        st.config.evm_addr is None,
        st.config.ecdsa_key_name@ == args.ecdsa_key_name@,
        st.config.ecdsa_derivation_path@ == (match args.ecdsa_derivation_path {
            Some(p) => p@,
            None => Seq::<Vec<u8>>::empty(),
        }),
        st.config.chain_id is Some <==> args.chain_id is Some,
        args.chain_id matches Some(c) ==> st.config.chain_id matches Some(c2) && c2 == c,
        st.config.threshold_wei.value() == (match args.threshold_wei {
            Some(t) => t.value(),
            None => 0nat,
        }),
        st.config.rpc_target is None,
        st.config.max_fee_multiplier_percent == (match args.max_fee_multiplier_percent {
            Some(p) => p,
            None => 200u32,
        }),
        st.config.priority_multiplier_percent == (match args.priority_multiplier_percent {
            Some(p) => p,
            None => 120u32,
        }),
        st.config.paused,
        st.rate_limit.per_addr_per_min == (match args.rate_limit_per_min {
            Some(n) => n,
            None => 10u32,
        }),
        st.rate_limit.daily_cap_token == (match args.daily_cap_token {
            Some(n) => n,
            None => 10_000u64,
        }),
        st.assets@.len() == 0,
        st.logs@.len() == 0,
        st.next_log_id == 1,
        st.last_known_gas.value() == 0,
{
    let ghost given_admins = args.admins@;
    let ghost caller_bytes = caller@;
    let mut admins = args.admins;
    admins.push(caller);
    proof {
        let a = admins@;
        assert(a[a.len() - 1]@ == caller_bytes);
        assert forall|k: Seq<u8>|
            spec_is_admin(a, k) <==> (k == caller_bytes || exists|i: int|
                0 <= i < given_admins.len() && given_admins[i]@ == k) by {
            if spec_is_admin(a, k) {
                let i = choose|i: int| 0 <= i < a.len() && a[i]@ == k;
                if i < a.len() - 1 {
                    assert(given_admins[i]@ == k);
                }
            }
            if k == caller_bytes {
                assert(a[a.len() - 1]@ == k);
                assert(spec_is_admin(a, k));
            }
            if exists|i: int| 0 <= i < given_admins.len() && given_admins[i]@ == k {
                let i = choose|i: int| 0 <= i < given_admins.len() && given_admins[i]@ == k;
                assert(a[i]@ == k);
                assert(spec_is_admin(a, k));
            }
        }
    }
    let threshold = match args.threshold_wei {
        Some(t) => t,
        None => BigNum::zero(),
    };
    let config = RelayerConfig {
        evm_addr: None,
        ecdsa_key_name: args.ecdsa_key_name,
        ecdsa_derivation_path: match args.ecdsa_derivation_path {
            Some(p) => p,
            None => Vec::new(),
        },
        chain_id: args.chain_id,
        threshold_wei: threshold,
        rpc_target: None,
        max_fee_multiplier_percent: match args.max_fee_multiplier_percent {
            Some(p) => p,
            None => 200,
        },
        priority_multiplier_percent: match args.priority_multiplier_percent {
            Some(p) => p,
            None => 120,
        },
        paused: true,
    };
    let rate_limit = RateLimitConfig {
        per_addr_per_min: match args.rate_limit_per_min {
            Some(n) => n,
            None => 10,
        },
        daily_cap_token: match args.daily_cap_token {
            Some(n) => n,
            None => 10_000,
        },
    };
    RelayerState {
        admins,
        config,
        assets: Vec::new(),
        rate_limit,
        rate_state: RateLimitState::new(),
        logs: Vec::new(),
        next_log_id: 1,
        last_known_gas: BigNum::zero(),
        next_rpc_id: 1,
    }
}

/// Installs the JSON-RPC backend reference.
pub fn set_rpc_target(state: &mut RelayerState, backend: Vec<u8>, network: String)
    requires
        old(state).wf(),
    ensures
        final(state).wf(),
        final(state).config.rpc_target matches Some(t) && t.backend@ == backend@ && t.network@
            == network@,
        final(state).admins == old(state).admins,
        final(state).assets == old(state).assets,
        final(state).logs == old(state).logs,
{
    state.config.rpc_target = Some(RpcTarget { backend, network });
}

/// Sets the minimum native balance required to proceed.
pub fn set_threshold(state: &mut RelayerState, value: BigNum)
    requires
        old(state).wf(),
        value.wf(),
    ensures
        final(state).wf(),
        final(state).config.threshold_wei.value() == value.value(),
        final(state).admins == old(state).admins,
        final(state).logs == old(state).logs,
{
    state.config.threshold_wei = value;
}

/// Sets the target chain id.
pub fn set_chain_id(state: &mut RelayerState, chain_id: BigNum)
    requires
        old(state).wf(),
        chain_id.wf(),
    ensures
        final(state).wf(),
        final(state).config.chain_id matches Some(c) && c.value() == chain_id.value(),
        final(state).logs == old(state).logs,
{
    state.config.chain_id = Some(chain_id);
}

/// Sets the signer key derivation path.
pub fn set_ecdsa_derivation_path(state: &mut RelayerState, path: Vec<Vec<u8>>)
    requires
        old(state).wf(),
    ensures
        final(state).wf(),
        final(state).config.ecdsa_derivation_path@ == path@,
        final(state).logs == old(state).logs,
{
    state.config.ecdsa_derivation_path = path;
}

/// Overrides the relayer address after normalising it; a malformed
/// address is refused and nothing changes.
pub fn set_relayer_address(state: &mut RelayerState, address: &str) -> (r: Result<
    (),
    RelayError,
>)
    requires
        old(state).wf(),
    ensures
        final(state).wf(),
        match r {
            Ok(()) => {
                &&& spec_trim_ascii(address.spec_bytes()).len() == 42
                &&& spec_parse_hex(address.spec_bytes()) is Some
                &&& final(state).config.evm_addr matches Some(a) && a@ == "0x"@ + spec_hex_chars(
                    spec_parse_hex(address.spec_bytes())->Some_0,
                )
            },
            Err(_) => *final(state) == *old(state) && (spec_trim_ascii(
                address.spec_bytes(),
            ).len() != 42 || spec_parse_hex(address.spec_bytes()) is None),
        },
        final(state).logs == old(state).logs,
{
    let normalized = normalize_evm_address(address)?;
    state.config.evm_addr = Some(normalized);
    Ok(())
}

/// Sets the hard pause gate.
pub fn pause(state: &mut RelayerState, flag: bool)
    requires
        old(state).wf(),
    ensures
        final(state).wf(),
        final(state).config.paused == flag,
        final(state).logs == old(state).logs,
{
    state.config.paused = flag;
}

/// Registers (or replaces) an asset with a normalised address, `Active`
/// status and version 1. A fee above 16 bits or a malformed address is
/// refused and nothing changes.
pub fn add_asset(state: &mut RelayerState, asset: Vec<u8>, evm_address: &str, fee_bps: &BigNum)
    -> (r: Result<(), RelayError>)
    requires
        old(state).wf(),
        fee_bps.wf(),
    ensures
        final(state).wf(),
        match r {
            Ok(()) => {
                &&& fee_bps.value() <= u16::MAX
                &&& spec_parse_hex(evm_address.spec_bytes()) is Some
                &&& spec_asset_lookup(final(state).assets@, asset@) matches Some(cfg) && cfg.evm_address@
                    == "0x"@ + spec_hex_chars(spec_parse_hex(evm_address.spec_bytes())->Some_0)
                    && cfg.status == AssetStatus::Active && cfg.fee_bps == fee_bps.value()
                    && cfg.version == 1
                &&& forall|k: Seq<u8>| k != asset@ ==> spec_asset_lookup(final(state).assets@, k)
                    == spec_asset_lookup(old(state).assets@, k)
            },
            Err(_) => *final(state) == *old(state) && (fee_bps.value() > u16::MAX || spec_trim_ascii(
                evm_address.spec_bytes(),
            ).len() != 42 || spec_parse_hex(evm_address.spec_bytes()) is None),
        },
        final(state).logs == old(state).logs,
{
    let fee: u16 = match fee_bps.to_u32() {
        Some(v) => {
            if v <= u16::MAX as u32 {
                v as u16
            } else {
                return Err(
                    RelayError::NumberOutOfRange { field: String::from_str("fee_bps") },
                );
            }
        },
        None => {
            return Err(RelayError::NumberOutOfRange { field: String::from_str("fee_bps") });
        },
    };
    let normalized = normalize_evm_address(evm_address)?;
    let config = AssetConfig {
        evm_address: normalized,
        status: AssetStatus::Active,
        fee_bps: fee,
        version: 1,
    };
    match find_asset(&state.assets, asset.as_slice()) {
        Some(i) => {
            let entry = AssetEntry { key: asset, config };
            proof {
                lemma_asset_lookup_after_update(state.assets@, i as int, entry, entry.key@);
            }
            let ghost pre = state.assets@;
            state.assets[i] = entry;
            proof {
                assert forall|k: Seq<u8>| k != asset@ implies spec_asset_lookup(state.assets@, k)
                    == spec_asset_lookup(pre, k) by {
                    lemma_asset_lookup_after_update(pre, i as int, state.assets@[i as int], k);
                }
                assert(assets_wf(state.assets@)) by {
                    assert(forall|a: int| 0 <= a < pre.len() && a != i
                        ==> (#[trigger] state.assets@[a]) == pre[a]);
                }
            }
        },
        None => {
            let entry = AssetEntry { key: asset, config };
            proof {
                lemma_asset_lookup_none_absent(state.assets@, entry.key@);
                lemma_asset_lookup_after_push(state.assets@, entry, entry.key@);
            }
            let ghost pre = state.assets@;
            state.assets.push(entry);
            proof {
                assert forall|k: Seq<u8>| k != asset@ implies spec_asset_lookup(state.assets@, k)
                    == spec_asset_lookup(pre, k) by {
                    lemma_asset_lookup_after_push(pre, state.assets@.last(), k);
                }
                assert(assets_wf(state.assets@)) by {
                    assert(forall|a: int| 0 <= a < pre.len() ==> (#[trigger] state.assets@[a])
                        == pre[a]);
                }
            }
        },
    }
    Ok(())
}

/// Sets the status of a registered asset; an unknown asset changes
/// nothing.
fn set_asset_status(state: &mut RelayerState, asset: &[u8], status: AssetStatus)
    requires
        old(state).wf(),
    ensures
        final(state).wf(),
        spec_asset_lookup(old(state).assets@, asset@) matches Some(cfg) ==> (spec_asset_lookup(
            final(state).assets@,
            asset@,
        ) matches Some(cfg2) && cfg2.evm_address == cfg.evm_address && cfg2.status == status
            && cfg2.fee_bps == cfg.fee_bps && cfg2.version == cfg.version),
        spec_asset_lookup(old(state).assets@, asset@) is None ==> *final(state) == *old(state),
        forall|k: Seq<u8>| k != asset@ ==> spec_asset_lookup(final(state).assets@, k)
            == spec_asset_lookup(old(state).assets@, k),
        final(state).logs == old(state).logs,
{
    match find_asset(&state.assets, asset) {
        Some(i) => {
            let old_entry = state.assets.remove(i);
            let entry = AssetEntry {
                key: old_entry.key,
                config: AssetConfig {
                    evm_address: old_entry.config.evm_address,
                    status,
                    fee_bps: old_entry.config.fee_bps,
                    version: old_entry.config.version,
                },
            };
            let ghost pre = old(state).assets@;
            state.assets.insert(i, entry);
            proof {
                assert(state.assets@ =~= pre.update(i as int, state.assets@[i as int]));
                lemma_asset_lookup_after_update(pre, i as int, state.assets@[i as int], asset@);
                assert forall|k: Seq<u8>| k != asset@ implies spec_asset_lookup(state.assets@, k)
                    == spec_asset_lookup(pre, k) by {
                    lemma_asset_lookup_after_update(pre, i as int, state.assets@[i as int], k);
                }
                assert(assets_wf(state.assets@)) by {
                    assert(forall|a: int| 0 <= a < pre.len() && a != i
                        ==> (#[trigger] state.assets@[a]) == pre[a]);
                }
            }
        },
        None => {},
    }
}

/// Moves an asset to `Deprecated`: it still accepts submissions.
pub fn deprecate_asset(state: &mut RelayerState, asset: &[u8])
    requires
        old(state).wf(),
    ensures
        final(state).wf(),
        spec_asset_lookup(old(state).assets@, asset@) matches Some(cfg) ==> (spec_asset_lookup(
            final(state).assets@,
            asset@,
        ) matches Some(cfg2) && cfg2.status == AssetStatus::Deprecated && cfg2.evm_address
            == cfg.evm_address && cfg2.fee_bps == cfg.fee_bps && cfg2.version == cfg.version),
        spec_asset_lookup(old(state).assets@, asset@) is None ==> *final(state) == *old(state),
        forall|k: Seq<u8>| k != asset@ ==> spec_asset_lookup(final(state).assets@, k)
            == spec_asset_lookup(old(state).assets@, k),
        final(state).logs == old(state).logs,
{
    set_asset_status(state, asset, AssetStatus::Deprecated);
}

/// Moves an asset to `Disabled`: it refuses new submissions.
pub fn disable_asset(state: &mut RelayerState, asset: &[u8])
    requires
        old(state).wf(),
    ensures
        final(state).wf(),
        spec_asset_lookup(old(state).assets@, asset@) matches Some(cfg) ==> (spec_asset_lookup(
            final(state).assets@,
            asset@,
        ) matches Some(cfg2) && cfg2.status == AssetStatus::Disabled && cfg2.evm_address
            == cfg.evm_address && cfg2.fee_bps == cfg.fee_bps && cfg2.version == cfg.version),
        spec_asset_lookup(old(state).assets@, asset@) is None ==> *final(state) == *old(state),
        forall|k: Seq<u8>| k != asset@ ==> spec_asset_lookup(final(state).assets@, k)
            == spec_asset_lookup(old(state).assets@, k),
        final(state).logs == old(state).logs,
{
    set_asset_status(state, asset, AssetStatus::Disabled);
}

/// One asset as the observation surface reports it.
pub struct AssetInfo {
    pub asset: Vec<u8>,
    pub evm_address: String,
    pub status: AssetStatus,
    pub fee_bps: u16,
}

/// The observation snapshot.
pub struct InfoResponse {
    pub relayer_addr: String,
    pub gas_wei: BigNum,
    pub threshold_wei: BigNum,
    pub cycles_balance: BigNum,
    pub assets: Vec<AssetInfo>,
}

/// Assembles the observation snapshot; the runtime's cycle balance is
/// handed in by the host.
#[verifier::loop_isolation(false)]
pub fn info(state: &RelayerState, cycles_balance: BigNum) -> (r: InfoResponse)
    requires
        state.wf(),
        cycles_balance.wf(),
    ensures
        r.relayer_addr@ == (match state.config.evm_addr {
            Some(a) => a@,
            None => Seq::<char>::empty(),
        }),
        r.gas_wei.value() == state.last_known_gas.value(),
        r.threshold_wei.value() == state.config.threshold_wei.value(),
        r.cycles_balance.value() == cycles_balance.value(),
        r.assets@.len() == state.assets@.len(),
        forall|i: int| 0 <= i < state.assets@.len() ==> {
            let e = #[trigger] r.assets@[i];
            let o = state.assets@[i];
            &&& e.asset@ == o.key@
            &&& e.evm_address@ == o.config.evm_address@
            &&& e.status == o.config.status
            &&& e.fee_bps == o.config.fee_bps
        },
{
    let relayer_addr = match &state.config.evm_addr {
        Some(a) => a.clone(),
        None => String::new(),
    };
    let mut assets: Vec<AssetInfo> = Vec::new();
    let mut i: usize = 0;
    while i < state.assets.len()
        invariant
            i <= state.assets@.len(),
            assets@.len() == i,
            forall|j: int| 0 <= j < i ==> {
                let e = #[trigger] assets@[j];
                let o = state.assets@[j];
                &&& e.asset@ == o.key@
                &&& e.evm_address@ == o.config.evm_address@
                &&& e.status == o.config.status
                &&& e.fee_bps == o.config.fee_bps
            },
        decreases state.assets@.len() - i,
    {
        let entry = &state.assets[i];
        let mut key_copy: Vec<u8> = Vec::new();
        crate::rlp::push_all(&mut key_copy, entry.key.as_slice());
        proof {
            assert(key_copy@ =~= entry.key@);
        }
        assets.push(
            AssetInfo {
                asset: key_copy,
                evm_address: entry.config.evm_address.clone(),
                status: entry.config.status,
                fee_bps: entry.config.fee_bps,
            },
        );
        i = i + 1;
    }
    InfoResponse {
        relayer_addr,
        gas_wei: state.last_known_gas.clone_value(),
        threshold_wei: state.config.threshold_wei.clone_value(),
        cycles_balance,
        assets,
    }
}

/// The configured relayer address, if any.
pub fn get_relayer_address(state: &RelayerState) -> (r: Option<String>)
    ensures
        r is Some <==> state.config.evm_addr is Some,
        state.config.evm_addr matches Some(a) ==> r matches Some(b) && b@ == a@,
{
    match &state.config.evm_addr {
        Some(a) => Some(a.clone()),
        None => None,
    }
}

} // verus!
