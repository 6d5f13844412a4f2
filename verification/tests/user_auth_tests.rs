use sonotxt::user_auth::combine_credentials;
use sonotxt::user_auth::credentials_to_pubkey;
use sonotxt::user_auth::generate_challenge;
use sonotxt::user_auth::generate_session_token;
use sonotxt::user_auth::hash_nickname;
use sonotxt::user_auth::hash_token;
use sonotxt::user_auth::sign_challenge;
use sonotxt::user_auth::validate_nickname;
use sonotxt::user_auth::validate_pin;
use sonotxt::user_auth::verify_signature;

#[test]
fn test_key_derivation_deterministic() {
    let pubkey1 = credentials_to_pubkey("alice", "1234").unwrap();
    let pubkey2 = credentials_to_pubkey("alice", "1234").unwrap();
    assert_eq!(pubkey1, pubkey2);
}

#[test]
fn test_different_pins_different_keys() {
    let pubkey1 = credentials_to_pubkey("alice", "1234").unwrap();
    let pubkey2 = credentials_to_pubkey("alice", "5678").unwrap();
    assert_ne!(pubkey1, pubkey2);
}

#[test]
fn test_different_nicknames_different_keys() {
    let pubkey1 = credentials_to_pubkey("alice", "1234").unwrap();
    let pubkey2 = credentials_to_pubkey("bob", "1234").unwrap();
    assert_ne!(pubkey1, pubkey2);
}

#[test]
fn test_sign_verify() {
    let challenge = generate_challenge().unwrap();
    let signature = sign_challenge("alice", "1234", &challenge).unwrap();
    let pubkey = credentials_to_pubkey("alice", "1234").unwrap();

    assert!(verify_signature(&pubkey, &challenge, &signature));
}

#[test]
fn test_wrong_pin_fails() {
    let challenge = generate_challenge().unwrap();
    let signature = sign_challenge("alice", "1234", &challenge).unwrap();
    let pubkey = credentials_to_pubkey("alice", "wrong").unwrap();

    assert!(!verify_signature(&pubkey, &challenge, &signature));
}

#[test]
fn test_nickname_validation() {
    assert!(validate_nickname("abc").is_ok());
    assert!(validate_nickname("alice_123").is_ok());
    assert!(validate_nickname("ab").is_err()); // too short
    assert!(validate_nickname("has space").is_err());
}

#[test]
fn test_pin_validation() {
    assert!(validate_pin("1234").is_ok());
    assert!(validate_pin("mypin123").is_ok());
    assert!(validate_pin("123").is_err()); // too short
}

#[test]
fn validation_messages_are_exact() {
    assert_eq!(validate_nickname("ab").unwrap_err(), "nickname must be at least 3 characters");
    assert_eq!(
        validate_nickname(&"x".repeat(21)).unwrap_err(),
        "nickname must be at most 20 characters"
    );
    assert_eq!(
        validate_nickname("has space").unwrap_err(),
        "nickname can only contain letters, numbers, _ and -"
    );
    assert_eq!(validate_pin("123").unwrap_err(), "pin must be at least 4 characters");
    assert_eq!(validate_pin(&"9".repeat(33)).unwrap_err(), "pin must be at most 32 characters");
}

#[test]
fn credentials_are_normalized() {
    assert_eq!(combine_credentials("Alice ", " 1234"), "alice:1234");
    let a = credentials_to_pubkey("Alice", "1234").unwrap();
    let b = credentials_to_pubkey("alice", "1234").unwrap();
    assert_eq!(a, b);
}

#[test]
fn nickname_hash_is_case_insensitive() {
    assert_eq!(hash_nickname("Alice"), hash_nickname("alice"));
    assert_ne!(hash_nickname("alice"), hash_nickname("bob"));
    // tag "sonotxt-nick-v1" followed by the normalized name
    assert_eq!(
        hash_nickname("alice"),
        "aa8dc8642d23317dc9abdfbdebfa81ab2a3b69186a2839301aef6ad7da512fd0"
    );
}

#[test]
fn token_hashes_match_sha256() {
    assert_eq!(
        hash_token(""),
        "e3b0c44298fc1c149afbf4c8996fb92427ae41e4649b934ca495991b7852b855"
    );
    assert_eq!(
        hash_token("abc"),
        "ba7816bf8f01cfea414140de5dae2223b00361a396177a9cb410ff61f20015ad"
    );
}

#[test]
fn challenges_are_fresh_hex() {
    let c1 = generate_challenge().unwrap();
    let c2 = generate_challenge().unwrap();
    let t = generate_session_token().unwrap();
    assert_eq!(c1.len(), 64);
    assert_eq!(t.len(), 64);
    assert!(c1.chars().all(|c| c.is_ascii_hexdigit()));
    assert_ne!(c1, c2);
}

#[test]
fn malformed_signatures_verify_nothing() {
    let pubkey = credentials_to_pubkey("alice", "1234").unwrap();
    let challenge = generate_challenge().unwrap();
    let signature = sign_challenge("alice", "1234", &challenge).unwrap();
    assert!(!verify_signature("zz", &challenge, &signature));
    assert!(!verify_signature(&pubkey, "zz", &signature));
    assert!(!verify_signature(&pubkey, &challenge, "zz"));
    assert!(!verify_signature(&pubkey[..62], &challenge, &signature));
    // signing rejects a non-hex challenge instead of panicking
    assert!(sign_challenge("alice", "1234", "not-hex").is_err());
}
