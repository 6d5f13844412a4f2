use sonotxt::wallet::WalletDeriver;
use sonotxt::wallet::decode_polkadot_address;
use sonotxt::wallet::ss58_encode;

use std::collections::HashSet;

#[test]
fn test_derive_address() {
    let seed = [0u8; 32];
    let deriver = WalletDeriver::from_seed_bytes(&seed).unwrap();

    let addr1 = deriver.derive_polkadot_address("user1@example.com", 0);
    let addr2 = deriver.derive_polkadot_address("user1@example.com", 1);
    let addr3 = deriver.derive_polkadot_address("user2@example.com", 0);

    assert_ne!(addr1, addr2);
    assert_ne!(addr1, addr3);
    assert!(addr1.starts_with("1")); // polkadot addresses start with 1
}

#[test]
fn derivation_is_deterministic() {
    let seed = [9u8; 32];
    let a = WalletDeriver::from_seed_bytes(&seed).unwrap();
    let b = WalletDeriver::from_seed_bytes(&seed).unwrap();
    for idx in 0..5u32 {
        assert_eq!(
            a.derive_polkadot_address("user1@example.com", idx),
            b.derive_polkadot_address("user1@example.com", idx)
        );
        assert_eq!(
            a.derive_polkadot_address("user1@example.com", idx),
            a.derive_polkadot_address("user1@example.com", idx)
        );
    }
}

#[test]
fn distinct_pairs_have_distinct_addresses() {
    let seed = [0u8; 32];
    let deriver = WalletDeriver::from_seed_bytes(&seed).unwrap();
    let mut seen: HashSet<String> = HashSet::new();
    for account in 0..50u32 {
        let user = format!("user{}@example.com", account);
        for idx in 0..20u32 {
            let addr = deriver.derive_polkadot_address(&user, idx);
            assert!(seen.insert(addr), "collision for {} index {}", user, idx);
        }
    }
    assert_eq!(seen.len(), 1000);
}

#[test]
fn hex_seed_matches_raw_seed() {
    let raw = WalletDeriver::from_seed_bytes(&[0u8; 32]).unwrap();
    let hex_prefixed = WalletDeriver::from_seed_hex(&format!("0x{}", "00".repeat(32))).unwrap();
    let hex_bare = WalletDeriver::from_seed_hex(&"00".repeat(32)).unwrap();
    assert_eq!(
        raw.derive_polkadot_address("user1@example.com", 0),
        hex_prefixed.derive_polkadot_address("user1@example.com", 0)
    );
    assert_eq!(
        raw.derive_polkadot_address("user1@example.com", 0),
        hex_bare.derive_polkadot_address("user1@example.com", 0)
    );
}

#[test]
fn bad_seeds_are_rejected() {
    assert!(WalletDeriver::from_seed_bytes(&[0u8; 31]).is_err());
    assert!(WalletDeriver::from_seed_bytes(&[0u8; 33]).is_err());
    assert!(WalletDeriver::from_seed_bytes(&[0u8; 64]).is_ok());
    assert!(WalletDeriver::from_seed_hex("0xzz").is_err());
    assert!(WalletDeriver::from_seed_hex("abc").is_err()); // odd length
    assert!(WalletDeriver::from_seed_hex("aabb").is_err()); // wrong width
}

#[test]
fn mnemonic_seed_is_deterministic() {
    let a = WalletDeriver::from_mnemonic("stumble crouch orbit").unwrap();
    let b = WalletDeriver::from_mnemonic("stumble crouch orbit").unwrap();
    let c = WalletDeriver::from_mnemonic("another phrase entirely").unwrap();
    assert_eq!(
        a.derive_polkadot_address("user1@example.com", 0),
        b.derive_polkadot_address("user1@example.com", 0)
    );
    assert_ne!(
        a.derive_polkadot_address("user1@example.com", 0),
        c.derive_polkadot_address("user1@example.com", 0)
    );
}

#[test]
fn penumbra_addresses_carry_sub_indices() {
    let deriver = WalletDeriver::from_seed_bytes(&[0u8; 32]).unwrap();
    let (addr1, sub1) = deriver.derive_penumbra_address("user1@example.com", 0);
    let (addr1b, sub1b) = deriver.derive_penumbra_address("user1@example.com", 0);
    let (addr2, sub2) = deriver.derive_penumbra_address("user1@example.com", 1);
    assert!(addr1.starts_with("penumbra1"));
    assert_eq!(addr1, addr1b);
    assert_eq!(sub1, sub1b);
    assert_ne!(addr1, addr2);
    assert_ne!(sub1, sub2);
}

#[test]
fn ss58_round_trip() {
    let key = [7u8; 32];
    let addr = ss58_encode(&key);
    assert!(addr.starts_with("1"));
    let decoded = decode_polkadot_address(&addr).unwrap();
    assert_eq!(decoded, key.to_vec());
}

#[test]
fn ss58_rejects_malformed_addresses() {
    assert!(decode_polkadot_address("111").is_none());
    assert!(decode_polkadot_address("not base58 0OIl").is_none());
}

#[test]
fn derived_signatures_are_deterministic() {
    let deriver = WalletDeriver::from_seed_bytes(&[3u8; 32]).unwrap();
    let s1 = deriver.sign_with_derived("user1@example.com", 0, b"hello");
    let s2 = deriver.sign_with_derived("user1@example.com", 0, b"hello");
    let s3 = deriver.sign_with_derived("user1@example.com", 0, b"other");
    assert_eq!(s1.len(), 64);
    assert_eq!(s1, s2);
    assert_ne!(s1, s3);
}
