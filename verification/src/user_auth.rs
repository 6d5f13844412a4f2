//! Pure credential helpers for the key-based login flow: nickname and pin
//! validation, deterministic keypair material from nickname + pin, challenge
//! generation, signing, and verification.
//!
//! The key derivation stretches "nickname:pin" through Argon2id under a
//! fixed salt and uses the 32-byte output as an Ed25519 seed, so the same
//! credentials always yield the same public key and nothing about the key
//! needs to be stored beyond the public half.

use vstd::prelude::*;

use crate::crypto::argon2id_derive;
use crate::crypto::argon2id_of;
use crate::crypto::char_is_alphanumeric;
use crate::crypto::ed25519_pubkey_of;
use crate::crypto::ed25519_public_key;
use crate::crypto::ed25519_sig_of;
use crate::crypto::ed25519_sign;
use crate::crypto::ed25519_verifies;
use crate::crypto::ed25519_verify;
use crate::crypto::hex_decode;
use crate::crypto::hex_decode_of;
use crate::crypto::hex_encode;
use crate::crypto::hex_lower_of;
use crate::crypto::is_alphanumeric_char;
use crate::crypto::is_hex_str;
use crate::crypto::lemma_hex_lower_wf;
use crate::crypto::lower_of;
use crate::crypto::lowercase;
use crate::crypto::random_bytes;
use crate::crypto::sha256;
use crate::crypto::sha256_of;
use crate::crypto::trim;
use crate::crypto::trim_of;
use crate::error::ApiError;
use vstd::string::StrSliceExecFns;
use vstd::string::StringSliceAdditionalSpecFns;
use vstd::string::StringExecFns;
use vstd::utf8::encode_utf8;

verus! {

/// The fixed key-derivation salt, the ASCII bytes of "sonotxt-ed25519-v1".
pub open spec fn key_salt() -> Seq<u8> {
    seq![
        0x73u8,
        0x6fu8,
        0x6eu8,
        0x6fu8,
        0x74u8,
        0x78u8,
        0x74u8,
        0x2du8,
        0x65u8,
        0x64u8,
        0x32u8,
        0x35u8,
        0x35u8,
        0x31u8,
        0x39u8,
        0x2du8,
        0x76u8,
        0x31u8,
    ]
}

/// The nickname-hash context, the ASCII bytes of "sonotxt-nick-v1".
pub open spec fn nick_tag() -> Seq<u8> {
    seq![
        0x73u8,
        0x6fu8,
        0x6eu8,
        0x6fu8,
        0x74u8,
        0x78u8,
        0x74u8,
        0x2du8,
        0x6eu8,
        0x69u8,
        0x63u8,
        0x6bu8,
        0x2du8,
        0x76u8,
        0x31u8,
    ]
}

/// The secret stretched for key derivation: lowercased, trimmed nickname,
/// a colon, and the trimmed pin.
pub open spec fn combined_of(nickname: Seq<char>, pin: Seq<char>) -> Seq<char> {
    trim_of(lower_of(nickname)) + seq![':'] + trim_of(pin)
}

/// The 32-byte Ed25519 seed derived from a nickname and pin.
pub open spec fn derived_seed_of(nickname: Seq<char>, pin: Seq<char>) -> Seq<u8> {
    argon2id_of(encode_utf8(combined_of(nickname, pin)), key_salt())
}

/// The hex public key derived from a nickname and pin.
pub open spec fn pubkey_hex_of(nickname: Seq<char>, pin: Seq<char>) -> Seq<char> {
    hex_lower_of(ed25519_pubkey_of(derived_seed_of(nickname, pin)))
}

/// The exec salt value.
fn salt_bytes() -> (r: Vec<u8>)
    ensures
        r@ == key_salt(),
{
    let mut v: Vec<u8> = Vec::new();
    v.push(0x73);
    v.push(0x6f);
    v.push(0x6e);
    v.push(0x6f);
    v.push(0x74);
    v.push(0x78);
    v.push(0x74);
    v.push(0x2d);
    v.push(0x65);
    v.push(0x64);
    v.push(0x32);
    v.push(0x35);
    v.push(0x35);
    v.push(0x31);
    v.push(0x39);
    v.push(0x2d);
    v.push(0x76);
    v.push(0x31);
    proof {
        assert(v@ =~= key_salt());
    }
    v
}

/// Combine nickname and pin into the secret stretched for key derivation.
pub fn combine_credentials(nickname: &str, pin: &str) -> (r: String)
    ensures
        r@ == combined_of(nickname@, pin@),
{
    let lowered = lowercase(nickname);
    let nick = trim(lowered.as_str());
    let p = trim(pin);
    let mut s = nick.to_owned();
    s.append(":");
    s.append(p);
    proof {
        reveal_strlit(":");
        assert(s@ =~= combined_of(nickname@, pin@));
    }
    s
}

/// The hex-encoded public key derived from nickname and pin. Fails only on
/// credentials whose combined byte length exceeds what the key stretcher
/// accepts.
pub fn credentials_to_pubkey(nickname: &str, pin: &str) -> (r: Result<String, ApiError>)
    ensures
        r is Ok <==> encode_utf8(combined_of(nickname@, pin@)).len() <= 0xFFFF_FFFF,
        r is Ok ==> r->Ok_0@ == pubkey_hex_of(nickname@, pin@),
{
    let secret = combine_credentials(nickname, pin);
    let seed = match derive_seed(secret.as_str()) {
        Ok(seed) => seed,
        Err(e) => {
            return Err(e);
        },
    };
    let pk = ed25519_public_key(seed.as_slice());
    Ok(hex_encode(pk.as_slice()))
}

/// Stretch a combined secret into the 32-byte signing seed.
fn derive_seed(secret: &str) -> (r: Result<Vec<u8>, ApiError>)
    ensures
        r is Ok <==> secret.spec_bytes().len() <= 0xFFFF_FFFF,
        r is Ok ==> r->Ok_0@ == argon2id_of(secret.spec_bytes(), key_salt()) && r->Ok_0@.len()
            == 32,
{
    let b = secret.as_bytes();
    if b.len() > 0xFFFF_FFFF {
        return Err(ApiError::Internal("credentials too long".to_owned()));
    }
    let salt = salt_bytes();
    match argon2id_derive(b, salt.as_slice()) {
        Some(seed) => Ok(seed),
        None => {
            proof {
                assert(false);
            }
            Err(ApiError::Internal("key derivation failed".to_owned()))
        },
    }
}

/// Hash a nickname for the uniqueness check; only this hash is stored to
/// reserve the name.
pub fn hash_nickname(nickname: &str) -> (r: String)
    ensures
        r@ == hex_lower_of(
            sha256_of(nick_tag() + encode_utf8(trim_of(lower_of(nickname@)))),
        ),
{
    let lowered = lowercase(nickname);
    let nick = trim(lowered.as_str());
    let mut buf: Vec<u8> = Vec::new();
    buf.push(0x73);
    buf.push(0x6f);
    buf.push(0x6e);
    buf.push(0x6f);
    buf.push(0x74);
    buf.push(0x78);
    buf.push(0x74);
    buf.push(0x2d);
    buf.push(0x6e);
    buf.push(0x69);
    buf.push(0x63);
    buf.push(0x6b);
    buf.push(0x2d);
    buf.push(0x76);
    buf.push(0x31);
    buf.extend_from_slice(nick.as_bytes());
    proof {
        assert(buf@ =~= nick_tag() + encode_utf8(trim_of(lower_of(nickname@))));
    }
    let digest = sha256(buf.as_slice());
    hex_encode(digest.as_slice())
}

/// Whether every character of a trimmed nickname is acceptable.
pub open spec fn nickname_chars_ok(t: Seq<char>) -> bool {
    forall|i: int|
        0 <= i < t.len() ==> is_alphanumeric_char(#[trigger] t[i]) || t[i] == '_' || t[i] == '-'
}

/// Whether a nickname is well formed: 3 to 20 bytes once trimmed, letters,
/// numbers, '_' and '-' only.
pub open spec fn valid_nickname(s: Seq<char>) -> bool {
    &&& 3 <= encode_utf8(trim_of(s)).len() <= 20
    &&& nickname_chars_ok(trim_of(s))
}

/// Validate nickname format.
#[verifier::loop_isolation(false)]
pub fn validate_nickname(nickname: &str) -> (r: Result<(), &'static str>)
    ensures
        r is Ok <==> valid_nickname(nickname@),
        encode_utf8(trim_of(nickname@)).len() < 3 ==> r is Err && r->Err_0@
            == "nickname must be at least 3 characters"@,
        encode_utf8(trim_of(nickname@)).len() > 20 ==> r is Err && r->Err_0@
            == "nickname must be at most 20 characters"@,
{
    let nick = trim(nickname);
    let nb = nick.as_bytes();
    if nb.len() < 3 {
        return Err("nickname must be at least 3 characters");
    }
    if nb.len() > 20 {
        return Err("nickname must be at most 20 characters");
    }
    let n = nick.unicode_len();
    let mut i: usize = 0;
    while i < n
        invariant
            i <= n,
            forall|k: int|
                0 <= k < i ==> is_alphanumeric_char(#[trigger] nick@[k]) || nick@[k] == '_'
                    || nick@[k] == '-',
        decreases n - i,
    {
        let c = nick.get_char(i);
        if !(char_is_alphanumeric(c) || c == '_' || c == '-') {
            return Err("nickname can only contain letters, numbers, _ and -");
        }
        i += 1;
    }
    Ok(())
}

/// Whether a pin is well formed: 4 to 32 bytes once trimmed.
pub open spec fn valid_pin(s: Seq<char>) -> bool {
    4 <= encode_utf8(trim_of(s)).len() <= 32
}

/// Validate pin format.
pub fn validate_pin(pin: &str) -> (r: Result<(), &'static str>)
    ensures
        r is Ok <==> valid_pin(pin@),
        encode_utf8(trim_of(pin@)).len() < 4 ==> r is Err && r->Err_0@
            == "pin must be at least 4 characters"@,
        encode_utf8(trim_of(pin@)).len() > 32 ==> r is Err && r->Err_0@
            == "pin must be at most 32 characters"@,
{
    let p = trim(pin);
    let pb = p.as_bytes();
    if pb.len() < 4 {
        return Err("pin must be at least 4 characters");
    }
    if pb.len() > 32 {
        return Err("pin must be at most 32 characters");
    }
    Ok(())
}

/// A fresh random challenge for key-based login: 64 hex digits. Fails only
/// when the operating system's entropy source does.
pub fn generate_challenge() -> (r: Result<String, ApiError>)
    ensures
        r is Ok ==> r->Ok_0@.len() == 64 && is_hex_str(r->Ok_0@),
{
    random_hex32()
}

/// A fresh random session token: 64 hex digits. Fails only when the
/// operating system's entropy source does.
pub fn generate_session_token() -> (r: Result<String, ApiError>)
    ensures
        r is Ok ==> r->Ok_0@.len() == 64 && is_hex_str(r->Ok_0@),
{
    random_hex32()
}

/// 32 random bytes as hex.
fn random_hex32() -> (r: Result<String, ApiError>)
    ensures
        r is Ok ==> r->Ok_0@.len() == 64 && is_hex_str(r->Ok_0@),
{
    match random_bytes(32) {
        Some(bytes) => {
            proof {
                lemma_hex_lower_wf(bytes@);
            }
            Ok(hex_encode(bytes.as_slice()))
        },
        None => Err(ApiError::Internal("entropy source unavailable".to_owned())),
    }
}

/// Sign a hex challenge with the key derived from nickname and pin.
pub fn sign_challenge(nickname: &str, pin: &str, challenge: &str) -> (r: Result<String, ApiError>)
    ensures
        r is Ok <==> is_hex_str(challenge@) && encode_utf8(combined_of(nickname@, pin@)).len()
            <= 0xFFFF_FFFF,
        r is Ok ==> r->Ok_0@ == hex_lower_of(
            ed25519_sig_of(derived_seed_of(nickname@, pin@), hex_decode_of(challenge@)),
        ),
{
    let msg = match hex_decode(challenge) {
        Some(m) => m,
        None => {
            return Err(ApiError::InvalidRequest("invalid challenge".to_owned()));
        },
    };
    let secret = combine_credentials(nickname, pin);
    let seed = match derive_seed(secret.as_str()) {
        Ok(seed) => seed,
        Err(e) => {
            return Err(e);
        },
    };
    let sig = ed25519_sign(seed.as_slice(), msg.as_slice());
    Ok(hex_encode(sig.as_slice()))
}

/// Whether a hex public key, hex challenge, and hex signature check out
/// under Ed25519.
pub open spec fn signature_check(pk: Seq<char>, ch: Seq<char>, sig: Seq<char>) -> bool {
    &&& is_hex_str(pk)
    &&& hex_decode_of(pk).len() == 32
    &&& is_hex_str(ch)
    &&& is_hex_str(sig)
    &&& hex_decode_of(sig).len() == 64
    &&& ed25519_verifies(hex_decode_of(pk), hex_decode_of(ch), hex_decode_of(sig))
}

/// Verify a signed challenge; malformed inputs verify nothing.
pub fn verify_signature(pubkey_hex: &str, challenge: &str, signature_hex: &str) -> (r: bool)
    ensures
        r == signature_check(pubkey_hex@, challenge@, signature_hex@),
{
    let pk = match hex_decode(pubkey_hex) {
        Some(v) => v,
        None => {
            return false;
        },
    };
    if pk.len() != 32 {
        return false;
    }
    let msg = match hex_decode(challenge) {
        Some(v) => v,
        None => {
            return false;
        },
    };
    let sig = match hex_decode(signature_hex) {
        Some(v) => v,
        None => {
            return false;
        },
    };
    if sig.len() != 64 {
        return false;
    }
    ed25519_verify(pk.as_slice(), msg.as_slice(), sig.as_slice())
}

/// Hash a session token for storage; only the hash is persisted.
pub fn hash_token(token: &str) -> (r: String)
    ensures
        r@ == hex_lower_of(sha256_of(encode_utf8(token@))),
{
    let digest = sha256(token.as_bytes());
    hex_encode(digest.as_slice())
}

} // verus!
