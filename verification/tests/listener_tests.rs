use sonotxt::error::ApiError;
use sonotxt::listener::ChainListener;
use sonotxt::listener::ListenerState;
use sonotxt::listener::ListenerVariant;
use sonotxt::listener::WatchList;
use sonotxt::listener::parse_block_number;
use sonotxt::registry::AddressRegistry;
use sonotxt::store::Chain;
use sonotxt::store::DepositStatus;
use sonotxt::store::Store;
use sonotxt::wallet::WalletDeriver;

#[test]
fn block_numbers_parse_exactly() {
    assert_eq!(parse_block_number("0x1a").unwrap(), 26);
    assert_eq!(parse_block_number("0x0").unwrap(), 0);
    assert_eq!(parse_block_number("0xFFFFffffFFFFffff").unwrap(), u64::MAX);
    assert!(parse_block_number("1a").is_err());
    assert!(parse_block_number("0x").is_err());
    assert!(parse_block_number("0xgg").is_err());
    assert!(parse_block_number("0x10000000000000000").is_err());
}

#[test]
fn listener_state_machine() {
    let mut l = ChainListener::new(ListenerVariant::Transparent);
    assert_eq!(l.state, ListenerState::Disconnected);
    l.on_connected();
    assert_eq!(l.state, ListenerState::Connected);
    assert!(l.observe_finalized(5));
    assert_eq!(l.state, ListenerState::Polling { last_seen_height: 5 });
    assert!(!l.observe_finalized(5));
    assert!(!l.observe_finalized(4));
    assert!(l.observe_finalized(6));
    assert_eq!(l.state, ListenerState::Polling { last_seen_height: 6 });
    l.on_error();
    assert_eq!(l.state, ListenerState::Disconnected);
}

#[test]
fn watch_and_unwatch() {
    let mut w = WatchList::new();
    assert!(w.match_address("1abc").is_none());
    w.watch("1abc", "A", 0, None);
    let (account, index) = w.match_address("1abc").unwrap();
    assert_eq!(account, "A");
    assert_eq!(index, 0);
    // re-watching replaces the entry
    w.watch("1abc", "B", 3, Some(11));
    let (account, index) = w.match_address("1abc").unwrap();
    assert_eq!(account, "B");
    assert_eq!(index, 3);
    let (account, _) = w.match_sub_index(11).unwrap();
    assert_eq!(account, "B");
    w.unwatch("1abc");
    assert!(w.match_address("1abc").is_none());
    assert!(w.match_sub_index(11).is_none());
}

#[test]
fn rebuild_covers_active_addresses() {
    let reg = AddressRegistry::new(WalletDeriver::from_seed_bytes(&[0u8; 32]).unwrap());
    let mut store = Store::new();
    let a1 = reg.get_deposit_address(&mut store, "A", Chain::PolkadotAssethub).unwrap();
    let old = a1.clone();
    let a1 = reg.rotate_address(&mut store, "A", Chain::PolkadotAssethub).unwrap();
    let a2 = reg.get_deposit_address(&mut store, "B", Chain::PolkadotAssethub).unwrap();
    reg.get_deposit_address(&mut store, "A", Chain::Penumbra).unwrap();

    let w = WatchList::rebuild_from_store(&store, Chain::PolkadotAssethub);
    assert_eq!(w.entries.len(), 2);
    assert_eq!(w.match_address(&a1).unwrap().0, "A");
    assert_eq!(w.match_address(&a2).unwrap().0, "B");
    // the rotated-away address is no longer watched
    assert!(w.match_address(&old).is_none());
}

#[test]
fn observed_transfers_become_deposits() {
    let reg = AddressRegistry::new(WalletDeriver::from_seed_bytes(&[0u8; 32]).unwrap());
    let mut store = Store::new();
    let addr = reg.get_deposit_address(&mut store, "A", Chain::PolkadotAssethub).unwrap();

    let mut l = ChainListener::new(ListenerVariant::Transparent);
    l.watch = WatchList::rebuild_from_store(&store, Chain::PolkadotAssethub);

    // a transfer to an unwatched address is ignored
    let r = l.observe_transfer(&mut store, "1unknown", "0xt1", "USDC", 5, 100).unwrap();
    assert!(r.is_none());
    assert_eq!(store.deposits.len(), 0);

    // a transfer to the watched address is recorded pending
    let id = l.observe_transfer(&mut store, &addr, "0xt2", "USDC", 5, 100).unwrap().unwrap();
    assert_eq!(store.deposits[id as usize].account_id, "A");
    assert_eq!(store.deposits[id as usize].status, DepositStatus::Pending);

    // the same transaction hash cannot enter twice
    match l.observe_transfer(&mut store, &addr, "0xt2", "USDC", 5, 101) {
        Err(ApiError::InvalidRequest(m)) => assert_eq!(m, "deposit already recorded"),
        other => panic!("expected rejection, got {:?}", other.is_ok()),
    }
    assert_eq!(store.deposits.len(), 1);
}

#[test]
fn observed_notes_map_through_sub_indices() {
    let reg = AddressRegistry::new(WalletDeriver::from_seed_bytes(&[0u8; 32]).unwrap());
    let mut store = Store::new();
    reg.get_deposit_address(&mut store, "A", Chain::Penumbra).unwrap();
    let sub = store.addresses[0].chain_sub_index.unwrap();

    let mut l = ChainListener::new(ListenerVariant::Shielded);
    l.watch = WatchList::rebuild_from_store(&store, Chain::Penumbra);

    assert!(l.observe_note(&mut store, sub.wrapping_add(1), "0xn1", "USDC", 2, 5).unwrap()
        .is_none());
    let id = l.observe_note(&mut store, sub, "0xn2", "USDC", 2, 5).unwrap().unwrap();
    assert_eq!(store.deposits[id as usize].account_id, "A");
    assert_eq!(store.deposits[id as usize].chain, Chain::Penumbra);
}

#[test]
fn cursors_survive_restart() {
    let mut store = Store::new();
    assert_eq!(store.cursor_height(Chain::PolkadotAssethub), 0);
    store.set_cursor(Chain::PolkadotAssethub, 41);
    store.set_cursor(Chain::Penumbra, 7);
    store.set_cursor(Chain::PolkadotAssethub, 42);
    assert_eq!(store.cursor_height(Chain::PolkadotAssethub), 42);
    assert_eq!(store.cursor_height(Chain::Penumbra), 7);

    // a fresh listener resumes from the durable watermark, not from "now"
    let mut l = ChainListener::new(ListenerVariant::Transparent);
    l.resume(&store);
    assert_eq!(l.state, ListenerState::Polling { last_seen_height: 42 });
    assert!(!l.observe_finalized(42));
    assert!(l.observe_finalized(43));
}
