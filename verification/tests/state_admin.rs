use relayer::bignum::BigNum;
use relayer::errors::RelayError;
use relayer::state::{
    add_asset, default_init_args, deprecate_asset, disable_asset, ensure_admin,
    get_relayer_address, info, init_state, pause, set_relayer_address, AssetStatus,
};

#[test]
fn init_installs_caller_as_admin_and_pauses() {
    let mut args = default_init_args();
    args.admins = vec![vec![0x01], vec![0x02]];
    let st = init_state(args, vec![0x03]);
    assert!(st.config.paused);
    assert_eq!(st.next_log_id, 1);
    assert!(ensure_admin(&st, &[0x01]).is_ok());
    assert!(ensure_admin(&st, &[0x03]).is_ok());
    assert!(matches!(
        ensure_admin(&st, &[0x09]),
        Err(RelayError::NotAuthorized)
    ));
    assert_eq!(st.rate_limit.per_addr_per_min, 10);
    assert_eq!(st.rate_limit.daily_cap_token, 10_000);
    assert_eq!(st.config.max_fee_multiplier_percent, 200);
    assert_eq!(st.config.priority_multiplier_percent, 120);
    assert_eq!(st.config.ecdsa_key_name, "test_key_1");
}

#[test]
fn asset_registry_lifecycle() {
    let mut st = init_state(default_init_args(), vec![0x01]);
    let addr = "0xABCD00000000000000000000000000000000ef01";
    add_asset(&mut st, vec![0x07], addr, &BigNum::from_u64(25)).unwrap();
    assert_eq!(st.assets.len(), 1);
    assert_eq!(
        st.assets[0].config.evm_address,
        "0xabcd00000000000000000000000000000000ef01"
    );
    assert_eq!(st.assets[0].config.status, AssetStatus::Active);
    assert_eq!(st.assets[0].config.fee_bps, 25);
    deprecate_asset(&mut st, &[0x07]);
    assert_eq!(st.assets[0].config.status, AssetStatus::Deprecated);
    disable_asset(&mut st, &[0x07]);
    assert_eq!(st.assets[0].config.status, AssetStatus::Disabled);
    // Replacing the asset reactivates it.
    add_asset(&mut st, vec![0x07], addr, &BigNum::from_u64(30)).unwrap();
    assert_eq!(st.assets.len(), 1);
    assert_eq!(st.assets[0].config.status, AssetStatus::Active);
    assert_eq!(st.assets[0].config.fee_bps, 30);
    // A fee above sixteen bits is refused.
    assert!(matches!(
        add_asset(&mut st, vec![0x08], addr, &BigNum::from_u64(70_000)),
        Err(RelayError::NumberOutOfRange { .. })
    ));
    // A malformed address is refused.
    assert!(add_asset(&mut st, vec![0x09], "0x123", &BigNum::from_u64(0)).is_err());
}

#[test]
fn relayer_address_normalised_on_set() {
    let mut st = init_state(default_init_args(), vec![0x01]);
    assert!(get_relayer_address(&st).is_none());
    set_relayer_address(&mut st, "  0xAAAAAAAAAAAAAAAAAAAAAAAAAAAAAAAAAAAAAAAA ").unwrap();
    assert_eq!(
        get_relayer_address(&st).unwrap(),
        "0xaaaaaaaaaaaaaaaaaaaaaaaaaaaaaaaaaaaaaaaa"
    );
    assert!(set_relayer_address(&mut st, "0xzz").is_err());
}

#[test]
fn info_reports_the_snapshot() {
    let mut st = init_state(default_init_args(), vec![0x01]);
    pause(&mut st, false);
    add_asset(
        &mut st,
        vec![0x07],
        "0x8a9b00000000000000000000000000000000cafe",
        &BigNum::from_u64(5),
    )
    .unwrap();
    st.last_known_gas = BigNum::from_u64(123);
    let snapshot = info(&st, BigNum::from_u64(999));
    assert_eq!(snapshot.relayer_addr, "");
    assert_eq!(snapshot.gas_wei.to_u64().unwrap(), 123);
    assert_eq!(snapshot.threshold_wei.to_u64().unwrap(), 0);
    assert_eq!(snapshot.cycles_balance.to_u64().unwrap(), 999);
    assert_eq!(snapshot.assets.len(), 1);
    assert_eq!(snapshot.assets[0].asset, vec![0x07]);
    assert_eq!(snapshot.assets[0].fee_bps, 5);
}
