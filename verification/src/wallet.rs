//! Deterministic per-account wallet derivation.
//!
//! One root seed serves every account: the derivation mixes the seed, a hash
//! of the opaque account identifier, and a 32-bit index into a 512-bit digest,
//! whose first 32 bytes act as the derived key. The transparent chain renders
//! the key as an SS58 address (network prefix 0); the shielded chain renders
//! it under the chain's human-readable prefix and additionally exposes a
//! 64-bit sub-index
//! taken from the digest bytes the key leaves unused, which maps observed
//! notes back to an account.

use vstd::prelude::*;

use crate::crypto::base58_encode;
use crate::crypto::base58_of;
use crate::crypto::blake2b512;
use crate::crypto::blake2b512_of;
use crate::crypto::ed25519_sig_of;
use crate::crypto::ed25519_sign;
use crate::crypto::hex_decode;
use crate::crypto::hex_decode_of;
use crate::crypto::hex_encode;
use crate::crypto::hex_lower_of;
use crate::crypto::is_hex_str;
use crate::crypto::sha256;
use crate::crypto::sha256_of;
use crate::crypto::sha512;
use crate::crypto::sha512_of;
use vstd::utf8::encode_utf8;
use vstd::string::StrSliceExecFns;
use vstd::string::StringExecFns;

verus! {

/// Seeds are accepted at 32 or 64 bytes, the two widths produced by the seed
/// storage backend.
pub open spec fn valid_seed_len(n: nat) -> bool {
    n == 32 || n == 64
}

/// Little-endian rendering of a 32-bit index.
pub open spec fn u32_le(x: u32) -> Seq<u8> {
    seq![
        (x % 0x100) as u8,
        ((x / 0x100) % 0x100) as u8,
        ((x / 0x1_0000) % 0x100) as u8,
        ((x / 0x100_0000) % 0x100) as u8,
    ]
}

/// Byte string hashed to derive one account address: seed, then a digest of
/// the account identifier, then the index.
pub open spec fn derive_material(seed: Seq<u8>, account: Seq<char>, index: u32) -> Seq<u8> {
    seed + sha256_of(encode_utf8(account)) + u32_le(index)
}

/// Full 64-byte derivation digest for one (seed, account, index).
pub open spec fn derive_digest(seed: Seq<u8>, account: Seq<char>, index: u32) -> Seq<u8> {
    sha512_of(derive_material(seed, account, index))
}

/// Derived 32-byte key for one (seed, account, index).
pub open spec fn derived_key(seed: Seq<u8>, account: Seq<char>, index: u32) -> Seq<u8> {
    derive_digest(seed, account, index).take(32)
}

/// The SS58 checksum context, the ASCII bytes of "SS58PRE".
pub open spec fn ss58_context() -> Seq<u8> {
    seq![0x53u8, 0x53u8, 0x35u8, 0x38u8, 0x50u8, 0x52u8, 0x45u8]
}

/// SS58 payload for a 32-byte key under network prefix 0: prefix byte, key,
/// and the first two bytes of the BLAKE2b-512 checksum.
pub open spec fn ss58_payload(key: Seq<u8>) -> Seq<u8> {
    seq![0u8] + key + blake2b512_of(ss58_context() + seq![0u8] + key).take(2)
}

/// Address derived for the transparent chain.
pub open spec fn polkadot_address_of(seed: Seq<u8>, account: Seq<char>, index: u32) -> Seq<char> {
    base58_of(ss58_payload(derived_key(seed, account, index)))
}

/// Address derived for the shielded chain.
pub open spec fn penumbra_address_of(seed: Seq<u8>, account: Seq<char>, index: u32) -> Seq<char> {
    "penumbra1"@ + hex_lower_of(derived_key(seed, account, index))
}

/// Shielded-chain sub-index: the 64-bit little-endian value of digest bytes
/// 32 to 39, the part of the derivation digest the key does not use.
pub open spec fn penumbra_sub_index_of(seed: Seq<u8>, account: Seq<char>, index: u32) -> u64 {
    let d = derive_digest(seed, account, index);
    ((d[32] as int) + (d[33] as int) * 0x100 + (d[34] as int) * 0x1_0000 + (d[35] as int)
        * 0x100_0000 + (d[36] as int) * 0x1_0000_0000 + (d[37] as int) * 0x100_0000_0000 + (
    d[38] as int) * 0x1_0000_0000_0000 + (d[39] as int) * 0x100_0000_0000_0000) as u64
}

/// Hex prefix stripping: drops a leading "0x" if present.
pub open spec fn strip_hex_prefix(s: Seq<char>) -> Seq<char> {
    if s.len() >= 2 && s[0] == '0' && s[1] == 'x' {
        s.skip(2)
    } else {
        s
    }
}

/// Determinism of derivation: two calls over the same seed, account and
/// index return the same address, because `derive_polkadot_address` pins its
/// result to a mathematical function of exactly those three inputs. That two
/// distinct (account, index) pairs give distinct addresses holds only with
/// overwhelming probability and is checked by test, not proof.
pub proof fn lemma_derive_deterministic(
    seed: Seq<u8>,
    account: Seq<char>,
    index: u32,
    a1: Seq<char>,
    a2: Seq<char>,
)
    requires
        a1 == polkadot_address_of(seed, account, index),
        a2 == polkadot_address_of(seed, account, index),
    ensures
        a1 == a2,
{
}

/// Deterministic address deriver for one root seed.
pub struct WalletDeriver {
    seed: Vec<u8>,
}

impl WalletDeriver {
    /// The root seed bytes this deriver was built over.
    pub closed spec fn seed(&self) -> Seq<u8> {
        self.seed@
    }

    /// A deriver is well formed when its seed has an accepted width.
    pub open spec fn wf(&self) -> bool {
        valid_seed_len(self.seed().len())
    }

    /// Create from raw seed bytes; rejects exactly the invalid widths.
    pub fn from_seed_bytes(seed_bytes: &[u8]) -> (r: Result<Self, String>)
        ensures
            r is Ok <==> valid_seed_len(seed_bytes@.len()),
            r is Ok ==> r->Ok_0.seed() == seed_bytes@ && r->Ok_0.wf(),
    {
        if seed_bytes.len() == 32 || seed_bytes.len() == 64 {
            Ok(WalletDeriver { seed: slice_to_vec_u8(seed_bytes) })
        } else {
            Err("seed must be 32 or 64 bytes".to_owned())
        }
    }

    /// Create from a hex-encoded seed, with or without a "0x" prefix.
    pub fn from_seed_hex(seed_hex: &str) -> (r: Result<Self, String>)
        ensures
            r is Ok <==> is_hex_str(strip_hex_prefix(seed_hex@)) && valid_seed_len(
                hex_decode_of(strip_hex_prefix(seed_hex@)).len(),
            ),
            r is Ok ==> r->Ok_0.seed() == hex_decode_of(strip_hex_prefix(seed_hex@))
                && r->Ok_0.wf(),
    {
        let n = seed_hex.unicode_len();
        let stripped: &str = if n >= 2 && seed_hex.get_char(0) == '0' && seed_hex.get_char(1)
            == 'x' {
            let t = seed_hex.substring_char(2, n);
            proof {
                assert(t@ =~= strip_hex_prefix(seed_hex@));
            }
            t
        } else {
            seed_hex
        };
        match hex_decode(stripped) {
            Some(bytes) => {
                match Self::from_seed_bytes(bytes.as_slice()) {
                    Ok(w) => Ok(w),
                    Err(_) => Err("invalid hex seed length".to_owned()),
                }
            },
            None => Err("invalid hex seed".to_owned()),
        }
    }

    /// Create from a recoverable passphrase: a 512-bit hash of the phrase,
    /// truncated to the 32-byte key width.
    pub fn from_mnemonic(mnemonic: &str) -> (r: Result<Self, String>)
        ensures
            r is Ok,
            r->Ok_0.seed() == sha512_of(encode_utf8(mnemonic@)).take(32),
            r->Ok_0.wf(),
    {
        let mut h = sha512(mnemonic.as_bytes());
        h.truncate(32);
        match Self::from_seed_bytes(h.as_slice()) {
            Ok(w) => Ok(w),
            Err(e) => Err(e),
        }
    }

    /// Derive the transparent-chain address for an account and index.
    pub fn derive_polkadot_address(&self, user_id: &str, derivation_index: u32) -> (r: String)
        ensures
            r@ == polkadot_address_of(self.seed(), user_id@, derivation_index),
            r@.len() > 0 && r@[0] == '1',
    {
        let key = self.derive_key(user_id, derivation_index);
        ss58_encode(key.as_slice())
    }

    /// Derive the shielded-chain address and sub-index for an account and index.
    pub fn derive_penumbra_address(&self, user_id: &str, derivation_index: u32) -> (r: (
        String,
        u64,
    ))
        ensures
            r.0@ == penumbra_address_of(self.seed(), user_id@, derivation_index),
            r.1 == penumbra_sub_index_of(self.seed(), user_id@, derivation_index),
    {
        let digest = self.derive_digest_bytes(user_id, derivation_index);
        let sub_index: u64 = (digest[32] as u64) + (digest[33] as u64) * 0x100 + (
        digest[34] as u64) * 0x1_0000 + (digest[35] as u64) * 0x100_0000 + (digest[36] as u64)
            * 0x1_0000_0000 + (digest[37] as u64) * 0x100_0000_0000 + (digest[38] as u64)
            * 0x1_0000_0000_0000 + (digest[39] as u64) * 0x100_0000_0000_0000;
        let mut key = digest;
        key.truncate(32);
        let hexpart = hex_encode(key.as_slice());
        let mut addr = "penumbra1".to_owned();
        addr.append(hexpart.as_str());
        (addr, sub_index)
    }

    /// Sign a message with the key derived for an account and index.
    pub fn sign_with_derived(&self, user_id: &str, derivation_index: u32, message: &[u8]) -> (r:
        Vec<u8>)
        ensures
            r@ == ed25519_sig_of(derived_key(self.seed(), user_id@, derivation_index), message@),
            r@.len() == 64,
    {
        let key = self.derive_key(user_id, derivation_index);
        ed25519_sign(key.as_slice(), message)
    }

    /// The full 64-byte derivation digest for an account and index.
    fn derive_digest_bytes(&self, user_id: &str, derivation_index: u32) -> (r: Vec<u8>)
        ensures
            r@ == derive_digest(self.seed(), user_id@, derivation_index),
            r@.len() == 64,
    {
        let mut buf: Vec<u8> = Vec::new();
        buf.extend_from_slice(self.seed.as_slice());
        let account_digest = sha256(user_id.as_bytes());
        buf.extend_from_slice(account_digest.as_slice());
        let x = derivation_index;
        buf.push((x % 0x100) as u8);
        buf.push(((x / 0x100) % 0x100) as u8);
        buf.push(((x / 0x1_0000) % 0x100) as u8);
        buf.push(((x / 0x100_0000) % 0x100) as u8);
        proof {
            assert(buf@ =~= derive_material(self.seed(), user_id@, derivation_index));
        }
        sha512(buf.as_slice())
    }

    /// The derived 32-byte key for an account and index.
    fn derive_key(&self, user_id: &str, derivation_index: u32) -> (r: Vec<u8>)
        ensures
            r@ == derived_key(self.seed(), user_id@, derivation_index),
            r@.len() == 32,
    {
        let mut h = self.derive_digest_bytes(user_id, derivation_index);
        h.truncate(32);
        h
    }
}

/// SS58 rendering of a 32-byte key under network prefix 0. The result always
/// opens with '1', the base58 image of the zero prefix byte.
pub fn ss58_encode(key: &[u8]) -> (r: String)
    requires
        key@.len() == 32,
    ensures
        r@ == base58_of(ss58_payload(key@)),
        r@.len() > 0 && r@[0] == '1',
{
    let mut checked: Vec<u8> = Vec::new();
    // "SS58PRE"
    checked.push(0x53);
    checked.push(0x53);
    checked.push(0x35);
    checked.push(0x38);
    checked.push(0x50);
    checked.push(0x52);
    checked.push(0x45);
    checked.push(0);
    checked.extend_from_slice(key);
    proof {
        assert(checked@ =~= ss58_context() + seq![0u8] + key@);
    }
    let digest = blake2b512(checked.as_slice());
    let mut payload: Vec<u8> = Vec::new();
    payload.push(0);
    payload.extend_from_slice(key);
    payload.push(digest[0]);
    payload.push(digest[1]);
    proof {
        assert(digest@.take(2) =~= seq![digest@[0], digest@[1]]);
        assert(payload@ =~= ss58_payload(key@));
    }
    base58_encode(payload.as_slice())
}

/// Decode an SS58 address of network prefix 0 back to its 32-byte key,
/// checking length, prefix and checksum. On success the address is exactly
/// the rendering of the returned key.
pub fn decode_polkadot_address(addr: &str) -> (r: Option<Vec<u8>>)
    ensures
        r is Some ==> r->0@.len() == 32 && addr@ == base58_of(ss58_payload(r->0@)),
{
    let decoded = match crate::crypto::base58_decode(addr) {
        Some(d) => d,
        None => {
            return None;
        },
    };
    if decoded.len() != 35 {
        return None;
    }
    if decoded[0] != 0 {
        return None;
    }
    let mut key: Vec<u8> = Vec::new();
    let mut i: usize = 1;
    while i < 33
        invariant
            1 <= i <= 33,
            decoded@.len() == 35,
            key@ =~= decoded@.subrange(1, i as int),
        decreases 33 - i,
    {
        key.push(decoded[i]);
        i += 1;
    }
    let mut checked: Vec<u8> = Vec::new();
    checked.push(0x53);
    checked.push(0x53);
    checked.push(0x35);
    checked.push(0x38);
    checked.push(0x50);
    checked.push(0x52);
    checked.push(0x45);
    checked.push(0);
    checked.extend_from_slice(key.as_slice());
    proof {
        assert(checked@ =~= ss58_context() + seq![0u8] + key@);
    }
    let digest = blake2b512(checked.as_slice());
    if decoded[33] == digest[0] && decoded[34] == digest[1] {
        proof {
            assert(decoded@ =~= ss58_payload(key@));
        }
        Some(key)
    } else {
        None
    }
}

/// Copy a byte slice into an owned vector.
fn slice_to_vec_u8(s: &[u8]) -> (r: Vec<u8>)
    ensures
        r@ == s@,
{
    let mut v: Vec<u8> = Vec::new();
    v.extend_from_slice(s);
    v
}

} // verus!
