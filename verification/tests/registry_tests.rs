use sonotxt::error::ApiError;
use sonotxt::registry::AddressRegistry;
use sonotxt::registry::DEFAULT_MAX_ADDRESSES;
use sonotxt::store::Chain;
use sonotxt::store::Store;
use sonotxt::wallet::WalletDeriver;

fn registry() -> AddressRegistry {
    AddressRegistry::new(WalletDeriver::from_seed_bytes(&[0u8; 32]).unwrap())
}

#[test]
fn get_deposit_address_is_idempotent() {
    let reg = registry();
    let mut store = Store::new();
    let a1 = reg.get_deposit_address(&mut store, "user1@example.com", Chain::PolkadotAssethub)
        .unwrap();
    let a2 = reg.get_deposit_address(&mut store, "user1@example.com", Chain::PolkadotAssethub)
        .unwrap();
    assert_eq!(a1, a2);
    assert_eq!(store.addresses.len(), 1);
    assert_eq!(store.addresses[0].derivation_index, 0);
    assert!(store.addresses[0].is_active);
}

#[test]
fn rotation_monotonicity() {
    let reg = registry();
    let mut store = Store::new();
    let first = reg.get_deposit_address(&mut store, "user1@example.com", Chain::PolkadotAssethub)
        .unwrap();
    let mut addrs = vec![first];
    for _ in 0..3 {
        addrs.push(
            reg.rotate_address(&mut store, "user1@example.com", Chain::PolkadotAssethub).unwrap(),
        );
    }

    let rows = reg.list_addresses(&store, "user1@example.com", Chain::PolkadotAssethub);
    assert_eq!(rows.len(), 4);
    // newest first, indices strictly decreasing, exactly one active row
    for p in 0..rows.len() {
        assert_eq!(rows[p].1, (3 - p) as u32);
        assert_eq!(rows[p].2, p == 0);
        assert_eq!(rows[p].0, addrs[3 - p]);
    }
    // all addresses distinct
    for p in 0..addrs.len() {
        for q in 0..p {
            assert_ne!(addrs[p], addrs[q]);
        }
    }
}

#[test]
fn cap_enforcement() {
    let reg = registry();
    let mut store = Store::new();
    reg.get_deposit_address(&mut store, "user1@example.com", Chain::PolkadotAssethub).unwrap();
    for _ in 0..DEFAULT_MAX_ADDRESSES - 1 {
        reg.rotate_address(&mut store, "user1@example.com", Chain::PolkadotAssethub).unwrap();
    }
    let before = reg.list_addresses(&store, "user1@example.com", Chain::PolkadotAssethub);
    assert_eq!(before.len(), 5);

    match reg.rotate_address(&mut store, "user1@example.com", Chain::PolkadotAssethub) {
        Err(ApiError::AddressLimitExceeded(m)) => assert_eq!(m, "address limit reached (5/5)"),
        other => panic!("expected the cap to reject rotation, got {:?}", other.is_ok()),
    }
    // the active address is untouched
    let after = reg.list_addresses(&store, "user1@example.com", Chain::PolkadotAssethub);
    assert_eq!(after.len(), 5);
    assert_eq!(after[0].0, before[0].0);
    assert!(after[0].2);
}

#[test]
fn remaining_slots_count_down() {
    let reg = registry();
    let mut store = Store::new();
    assert_eq!(
        reg.remaining_address_slots(&store, "user1@example.com", Chain::PolkadotAssethub),
        5
    );
    reg.get_deposit_address(&mut store, "user1@example.com", Chain::PolkadotAssethub).unwrap();
    assert_eq!(
        reg.remaining_address_slots(&store, "user1@example.com", Chain::PolkadotAssethub),
        4
    );
    assert_eq!(reg.count_addresses(&store, "user1@example.com", Chain::PolkadotAssethub), 1);
}

#[test]
fn chains_do_not_share_histories() {
    let reg = registry();
    let mut store = Store::new();
    let dot = reg.get_deposit_address(&mut store, "user1@example.com", Chain::PolkadotAssethub)
        .unwrap();
    let pen = reg.get_deposit_address(&mut store, "user1@example.com", Chain::Penumbra).unwrap();
    assert_ne!(dot, pen);
    assert!(pen.starts_with("penumbra1"));
    assert_eq!(store.addresses.len(), 2);
    // the shielded row carries its sub-index for note matching
    assert!(store.addresses[1].chain_sub_index.is_some());
    assert!(store.addresses[0].chain_sub_index.is_none());
    assert_eq!(
        reg.list_addresses(&store, "user1@example.com", Chain::PolkadotAssethub).len(),
        1
    );
}

#[test]
fn configured_cap_is_respected() {
    let deriver = WalletDeriver::from_seed_bytes(&[1u8; 32]).unwrap();
    let mut reg = AddressRegistry::with_max_addresses(deriver, 2);
    let mut store = Store::new();
    reg.get_deposit_address(&mut store, "u", Chain::Penumbra).unwrap();
    reg.rotate_address(&mut store, "u", Chain::Penumbra).unwrap();
    assert!(reg.rotate_address(&mut store, "u", Chain::Penumbra).is_err());
    reg.set_max_addresses(3);
    assert!(reg.rotate_address(&mut store, "u", Chain::Penumbra).is_ok());
}
