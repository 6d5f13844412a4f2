use sonotxt::error::ApiError;
use sonotxt::reconciler::ConfirmPolicy;
use sonotxt::store::Chain;
use sonotxt::store::DepositStatus;
use sonotxt::store::Store;

#[test]
fn report_then_credit_then_duplicate_report() {
    let mut store = Store::new();
    let id = store
        .record_deposit("A", Chain::Penumbra, "0xabc", "USDC", 10, None, None, 1_000, DepositStatus::Pending)
        .unwrap();
    assert_eq!(store.balance_of("A"), 0);

    // the sweep's backstop confirms and credits it once it has aged
    let credited = store.sweep_pending(ConfirmPolicy::AfterSeconds(120), 1_000 + 121);
    assert_eq!(credited, 1);
    assert_eq!(store.balance_of("A"), 10);
    assert_eq!(store.ledger.len(), 1);
    assert_eq!(store.deposits[id as usize].status, DepositStatus::Credited);

    // the identical hash is rejected and nothing moves
    let dup = store.record_deposit(
        "A",
        Chain::Penumbra,
        "0xabc",
        "USDC",
        10,
        None,
        None,
        2_000,
        DepositStatus::Pending,
    );
    match dup {
        Err(ApiError::InvalidRequest(m)) => assert_eq!(m, "deposit already recorded"),
        other => panic!("expected the duplicate to be rejected, got {:?}", other.is_ok()),
    }
    assert_eq!(store.balance_of("A"), 10);
    assert_eq!(store.ledger.len(), 1);
}

#[test]
fn no_double_credit() {
    let mut store = Store::new();
    let id = store
        .record_deposit("A", Chain::PolkadotAssethub, "0x1", "USDC", 7, None, None, 0, DepositStatus::Confirmed)
        .unwrap();
    assert!(store.credit_deposit(id, 5).is_ok());
    assert_eq!(store.balance_of("A"), 7);
    assert_eq!(store.ledger.len(), 1);

    // a second credit of the same deposit is rejected before any mutation
    match store.credit_deposit(id, 6) {
        Err(ApiError::InvalidRequest(m)) => assert_eq!(m, "deposit already credited"),
        other => panic!("expected rejection, got {:?}", other.is_ok()),
    }
    assert_eq!(store.balance_of("A"), 7);
    assert_eq!(store.ledger.len(), 1);
}

#[test]
fn failed_credits_change_nothing() {
    let mut store = Store::new();
    let id = store
        .record_deposit("A", Chain::Penumbra, "0x2", "USDC", 4, None, None, 0, DepositStatus::Pending)
        .unwrap();

    // unknown id
    match store.credit_deposit(id + 1, 1) {
        Err(ApiError::NotFound) => {},
        other => panic!("expected not-found, got {:?}", other.is_ok()),
    }
    // still pending
    match store.credit_deposit(id, 1) {
        Err(ApiError::InvalidRequest(m)) => assert_eq!(m, "deposit not confirmed"),
        other => panic!("expected rejection, got {:?}", other.is_ok()),
    }
    assert_eq!(store.balance_of("A"), 0);
    assert_eq!(store.ledger.len(), 0);
    assert_eq!(store.deposits[id as usize].status, DepositStatus::Pending);
}

#[test]
fn balance_overflow_is_rejected_atomically() {
    let mut store = Store::new();
    let max = i64::MAX as u64;
    let id1 = store
        .record_deposit("A", Chain::Penumbra, "0x3", "USDC", max, None, None, 0, DepositStatus::Confirmed)
        .unwrap();
    assert!(store.credit_deposit(id1, 0).is_ok());
    assert_eq!(store.balance_of("A"), i64::MAX);

    let id2 = store
        .record_deposit("A", Chain::Penumbra, "0x4", "USDC", 1, None, None, 0, DepositStatus::Confirmed)
        .unwrap();
    match store.credit_deposit(id2, 0) {
        Err(ApiError::Internal(m)) => assert_eq!(m, "balance overflow"),
        other => panic!("expected overflow rejection, got {:?}", other.is_ok()),
    }
    assert_eq!(store.balance_of("A"), i64::MAX);
    assert_eq!(store.ledger.len(), 1);
    assert_eq!(store.deposits[id2 as usize].status, DepositStatus::Confirmed);
}

#[test]
fn confirmation_count_policy() {
    let mut store = Store::new();
    let id = store
        .record_deposit("B", Chain::PolkadotAssethub, "0x5", "USDT", 3, None, None, 0, DepositStatus::Pending)
        .unwrap();
    // zero confirmations recorded, so a count policy leaves it pending
    let credited = store.sweep_pending(ConfirmPolicy::MinConfirmations(1), 10);
    assert_eq!(credited, 0);
    assert_eq!(store.deposits[id as usize].status, DepositStatus::Pending);
    // a zero-threshold policy promotes it
    let credited = store.sweep_pending(ConfirmPolicy::MinConfirmations(0), 10);
    assert_eq!(credited, 1);
    assert_eq!(store.balance_of("B"), 3);
}

#[test]
fn card_payments_settle_once() {
    let mut store = Store::new();
    let r = store.settle_card_payment("A", "pi_123", "EUR", 1500, 50).unwrap();
    assert!(r.is_some());
    assert_eq!(store.balance_of("A"), 1500);
    assert_eq!(store.ledger.len(), 1);

    // a replayed webhook for the same payment id is a no-op
    let replay = store.settle_card_payment("A", "pi_123", "EUR", 1500, 60).unwrap();
    assert!(replay.is_none());
    assert_eq!(store.balance_of("A"), 1500);
    assert_eq!(store.ledger.len(), 1);
    assert_eq!(store.deposits.len(), 1);
    assert_eq!(store.deposits[0].chain, Chain::Stripe);
}

#[test]
fn balances_stay_per_account() {
    let mut store = Store::new();
    let a = store
        .record_deposit("A", Chain::Penumbra, "0xa", "USDC", 5, None, None, 0, DepositStatus::Confirmed)
        .unwrap();
    let b = store
        .record_deposit("B", Chain::Penumbra, "0xb", "USDC", 9, None, None, 0, DepositStatus::Confirmed)
        .unwrap();
    store.credit_deposit(a, 1).unwrap();
    store.credit_deposit(b, 1).unwrap();
    assert_eq!(store.balance_of("A"), 5);
    assert_eq!(store.balance_of("B"), 9);
    assert_eq!(store.balance_of("C"), 0);
}
