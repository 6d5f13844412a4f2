//! Trusted boundary to the cryptographic crates.
//!
//! Each executable item here wraps one outside operation and states what it
//! returns. Results that are pure functions of the arguments but too long to
//! write out (digests, encodings, key derivation) are given uninterpreted
//! names; the verified modules reason over those names.

use vstd::prelude::*;

verus! {

/// SHA-256 digest of a byte sequence.
pub uninterp spec fn sha256_of(data: Seq<u8>) -> Seq<u8>;

/// SHA-512 digest of a byte sequence.
pub uninterp spec fn sha512_of(data: Seq<u8>) -> Seq<u8>;

/// BLAKE2b-512 digest of a byte sequence.
pub uninterp spec fn blake2b512_of(data: Seq<u8>) -> Seq<u8>;

/// Base58 rendering (Bitcoin alphabet) of a byte sequence.
pub uninterp spec fn base58_of(data: Seq<u8>) -> Seq<char>;

/// Argon2id key (32 bytes, default parameters) stretched from a password and salt.
pub uninterp spec fn argon2id_of(pwd: Seq<u8>, salt: Seq<u8>) -> Seq<u8>;

/// Ed25519 public key of a 32-byte secret seed.
pub uninterp spec fn ed25519_pubkey_of(seed: Seq<u8>) -> Seq<u8>;

/// Ed25519 signature (deterministic, RFC 8032) of a message under a seed.
pub uninterp spec fn ed25519_sig_of(seed: Seq<u8>, msg: Seq<u8>) -> Seq<u8>;

/// Whether an Ed25519 signature verifies for a public key and message.
pub uninterp spec fn ed25519_verifies(pubkey: Seq<u8>, msg: Seq<u8>, sig: Seq<u8>) -> bool;

/// Unicode lowercasing as performed by `str::to_lowercase`.
pub uninterp spec fn lower_of(s: Seq<char>) -> Seq<char>;

/// Whitespace trimming as performed by `str::trim`.
pub uninterp spec fn trim_of(s: Seq<char>) -> Seq<char>;

/// Relies on sha2's Sha256: the digest is 32 bytes and depends on the data alone.
#[verifier::external_body]
pub(crate) fn sha256(data: &[u8]) -> (r: Vec<u8>)
    ensures
        r@ == sha256_of(data@),
        r@.len() == 32,
{
    <sha2::Sha256 as sha2::Digest>::digest(data).to_vec()
}

/// Relies on sha2's Sha512: the digest is 64 bytes and depends on the data alone.
#[verifier::external_body]
pub(crate) fn sha512(data: &[u8]) -> (r: Vec<u8>)
    ensures
        r@ == sha512_of(data@),
        r@.len() == 64,
{
    <sha2::Sha512 as sha2::Digest>::digest(data).to_vec()
}

/// Relies on blake2's Blake2b512: the digest is 64 bytes and depends on the data alone.
#[verifier::external_body]
pub(crate) fn blake2b512(data: &[u8]) -> (r: Vec<u8>)
    ensures
        r@ == blake2b512_of(data@),
        r@.len() == 64,
{
    <blake2::Blake2b512 as blake2::Digest>::digest(data).to_vec()
}

/// Hex digit (lowercase) for a value below 16.
pub open spec fn hex_char(v: u8) -> char
    recommends
        v < 16,
{
    if v < 10 {
        ((v + 0x30) as u32) as char  // '0'..'9'
    } else {
        ((v + 0x57) as u32) as char  // 'a'..'f'
    }
}

/// Lowercase hex rendering of a byte sequence, two digits per byte.
pub open spec fn hex_lower_of(data: Seq<u8>) -> Seq<char>
    decreases data.len(),
{
    if data.len() == 0 {
        Seq::empty()
    } else {
        seq![hex_char(data.first() / 16), hex_char(data.first() % 16)]
            + hex_lower_of(data.drop_first())
    }
}

/// Value of a hex digit, upper or lower case; 16 marks a non-digit.
pub open spec fn hex_digit_val(c: char) -> u8 {
    let v = c as u32;
    if 0x30 <= v && v <= 0x39 {
        (v - 0x30) as u8
    } else if 0x61 <= v && v <= 0x66 {
        (v - 0x57) as u8
    } else if 0x41 <= v && v <= 0x46 {
        (v - 0x37) as u8
    } else {
        16
    }
}

/// Whether a character sequence is a well-formed hex string: even length,
/// every character a hex digit.
pub open spec fn is_hex_str(s: Seq<char>) -> bool {
    s.len() % 2 == 0 && forall|i: int| 0 <= i < s.len() ==> hex_digit_val(s[i]) < 16
}

/// Bytes denoted by a well-formed hex string.
pub open spec fn hex_decode_of(s: Seq<char>) -> Seq<u8>
    recommends
        is_hex_str(s),
    decreases s.len(),
{
    if s.len() < 2 {
        Seq::empty()
    } else {
        seq![(hex_digit_val(s[0]) * 16 + hex_digit_val(s[1])) as u8]
            + hex_decode_of(s.skip(2))
    }
}

/// Relies on hex::encode: lowercase hex, two digits per byte.
#[verifier::external_body]
pub(crate) fn hex_encode(data: &[u8]) -> (r: String)
    ensures
        r@ == hex_lower_of(data@),
{
    hex::encode(data)
}

/// Relies on hex::decode: succeeds exactly on even-length strings of hex
/// digits (either case) and returns the denoted bytes.
#[verifier::external_body]
pub(crate) fn hex_decode(s: &str) -> (r: Option<Vec<u8>>)
    ensures
        r is Some <==> is_hex_str(s@),
        r is Some ==> r->0@ == hex_decode_of(s@),
{
    match hex::decode(s) {
        Ok(v) => Some(v),
        Err(_) => None,
    }
}

/// Relies on bs58's encode with the Bitcoin alphabet: the rendering depends on
/// the bytes alone; each leading zero byte becomes a leading '1'.
#[verifier::external_body]
pub(crate) fn base58_encode(data: &[u8]) -> (r: String)
    ensures
        r@ == base58_of(data@),
        data@.len() > 0 && data@[0] == 0 ==> r@.len() > 0 && r@[0] == '1',
        data@.len() == 0 ==> r@.len() == 0,
{
    bs58::encode(data).into_string()
}

/// Relies on bs58's decode with the Bitcoin alphabet: on success the returned
/// bytes render back to the input.
#[verifier::external_body]
pub(crate) fn base58_decode(s: &str) -> (r: Option<Vec<u8>>)
    ensures
        r is Some ==> base58_of(r->0@) == s@,
{
    match bs58::decode(s).into_vec() {
        Ok(v) => Some(v),
        Err(_) => None,
    }
}

/// Relies on argon2's Argon2::hash_password_into with the default Argon2id
/// parameters: deterministic in password and salt; rejects exactly salts
/// shorter than 8 bytes and inputs longer than 2^32 - 1 bytes.
#[verifier::external_body]
pub(crate) fn argon2id_derive(pwd: &[u8], salt: &[u8]) -> (r: Option<Vec<u8>>)
    ensures
        r is Some <==> (pwd@.len() <= 0xFFFF_FFFF && 8 <= salt@.len() <= 0xFFFF_FFFF),
        r is Some ==> r->0@ == argon2id_of(pwd@, salt@) && r->0@.len() == 32,
{
    let mut out = [0u8; 32];
    match argon2::Argon2::default().hash_password_into(pwd, salt, &mut out) {
        Ok(()) => Some(out.to_vec()),
        Err(_) => None,
    }
}

/// Relies on ed25519_dalek's SigningKey::from_bytes and verifying_key: every
/// 32-byte seed yields a public key, a pure function of the seed.
#[verifier::external_body]
pub(crate) fn ed25519_public_key(seed: &[u8]) -> (r: Vec<u8>)
    requires
        seed@.len() == 32,
    ensures
        r@ == ed25519_pubkey_of(seed@),
        r@.len() == 32,
{
    let arr: [u8; 32] = seed.try_into().expect("seed is 32 bytes");
    let sk = ed25519_dalek::SigningKey::from_bytes(&arr);
    sk.verifying_key().to_bytes().to_vec()
}

/// Relies on ed25519_dalek's Signer::sign: RFC 8032 signing is deterministic
/// in seed and message and returns 64 bytes.
#[verifier::external_body]
pub(crate) fn ed25519_sign(seed: &[u8], msg: &[u8]) -> (r: Vec<u8>)
    requires
        seed@.len() == 32,
    ensures
        r@ == ed25519_sig_of(seed@, msg@),
        r@.len() == 64,
{
    let arr: [u8; 32] = seed.try_into().expect("seed is 32 bytes");
    let sk = ed25519_dalek::SigningKey::from_bytes(&arr);
    ed25519_dalek::Signer::sign(&sk, msg).to_bytes().to_vec()
}

/// Relies on ed25519_dalek's VerifyingKey::from_bytes and Verifier::verify:
/// acceptance depends on key, message and signature alone; byte strings that
/// are no valid public key accept nothing.
#[verifier::external_body]
pub(crate) fn ed25519_verify(pubkey: &[u8], msg: &[u8], sig: &[u8]) -> (r: bool)
    requires
        pubkey@.len() == 32,
        sig@.len() == 64,
    ensures
        r == ed25519_verifies(pubkey@, msg@, sig@),
{
    let pk_arr: [u8; 32] = pubkey.try_into().expect("pubkey is 32 bytes");
    let sig_arr: [u8; 64] = sig.try_into().expect("sig is 64 bytes");
    let vk = match ed25519_dalek::VerifyingKey::from_bytes(&pk_arr) {
        Ok(vk) => vk,
        Err(_) => return false,
    };
    let signature = ed25519_dalek::Signature::from_bytes(&sig_arr);
    ed25519_dalek::Verifier::verify(&vk, msg, &signature).is_ok()
}

/// Relies on getrandom::getrandom: fills the buffer from the operating
/// system's entropy source; nothing is promised of the bytes.
#[verifier::external_body]
pub(crate) fn random_bytes(n: usize) -> (r: Option<Vec<u8>>)
    ensures
        r is Some ==> r->0@.len() == n,
{
    let mut buf = vec![0u8; n];
    match getrandom::getrandom(&mut buf) {
        Ok(()) => Some(buf),
        Err(_) => None,
    }
}

/// Relies on str::to_lowercase: the result depends on the characters alone.
#[verifier::external_body]
pub(crate) fn lowercase(s: &str) -> (r: String)
    ensures
        r@ == lower_of(s@),
{
    s.to_lowercase()
}

/// Relies on str::trim: the result depends on the characters alone.
#[verifier::external_body]
pub(crate) fn trim(s: &str) -> (r: &str)
    ensures
        r@ == trim_of(s@),
{
    s.trim()
}

} // verus!

verus! {

/// Unicode alphanumericity as decided by char::is_alphanumeric.
pub uninterp spec fn is_alphanumeric_char(c: char) -> bool;

/// Relies on char::is_alphanumeric: a property of the character alone.
#[verifier::external_body]
pub(crate) fn char_is_alphanumeric(c: char) -> (r: bool)
    ensures
        r == is_alphanumeric_char(c),
{
    c.is_alphanumeric()
}

/// A hex rendering is twice as long as its bytes and made of hex digits.
pub proof fn lemma_hex_lower_wf(data: Seq<u8>)
    ensures
        hex_lower_of(data).len() == 2 * data.len(),
        is_hex_str(hex_lower_of(data)),
    decreases data.len(),
{
    if data.len() > 0 {
        lemma_hex_lower_wf(data.drop_first());
        let h = hex_lower_of(data);
        let rest = hex_lower_of(data.drop_first());
        assert(hex_digit_val(hex_char(data.first() / 16)) < 16);
        assert(hex_digit_val(hex_char(data.first() % 16)) < 16);
        assert forall|i: int| 0 <= i < h.len() implies hex_digit_val(h[i]) < 16 by {
            if i >= 2 {
                assert(h[i] == rest[i - 2]);
            }
        }
    }
}

/// Relies on str's PartialEq: equality of the character sequences.
#[verifier::external_body]
pub(crate) fn str_eq(a: &str, b: &str) -> (r: bool)
    ensures
        r == (a@ == b@),
{
    a == b
}

} // verus!
