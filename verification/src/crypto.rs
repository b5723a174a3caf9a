//! The trusted boundary to the elliptic-curve and hashing crates. Every
//! function here is `external_body`: its contract is believed, not proved,
//! and states only what the called crate's source shows. Results that are a
//! pure function of the arguments but too large to write down (a keccak
//! digest, a curve point, an ECDSA signature) are given opaque names; the
//! verified logic and the laws of the library are proved over those names.

use vstd::prelude::*;

use crate::hexdata::hex_chars;

verus! {

/// The keccak-256 digest (32 bytes) of a byte sequence.
pub uninterp spec fn keccak_of(data: Seq<u8>) -> Seq<u8>;

/// The order of the secp256k1 group.
pub open spec fn curve_order() -> nat {
    0xFFFFFFFFFFFFFFFFFFFFFFFFFFFFFFFEBAAEDCE6AF48A03BBFD25E8CD0364141nat
}

/// Whether 32 bytes form a valid secp256k1 secret scalar — nonzero and,
/// read big-endian, below the curve order. This is exactly the check the
/// curve library's `SecretKey::from_bytes` makes, so a signing key can be
/// built from the bytes iff this holds.
pub open spec fn key_in_range(key: Seq<u8>) -> bool {
    key.len() == 32 && 1 <= crate::numbers::be_value(key) < curve_order()
}

/// The Ethereum address (20 bytes) derived from a private key: the last 20
/// bytes of the keccak-256 digest of the uncompressed public key.
pub uninterp spec fn addr_of_key(key: Seq<u8>) -> Seq<u8>;

/// The compressed SEC1 encoding of the public key of a private key.
pub uninterp spec fn pubkey_of_key(key: Seq<u8>) -> Seq<u8>;

/// The 65-byte recoverable ECDSA signature (r, s, v with v in {27, 28})
/// that the key produces over the digest. Deterministic: the signing crate
/// generates nonces per RFC 6979.
pub uninterp spec fn sig_of_key(key: Seq<u8>, digest: Seq<u8>) -> Seq<u8>;

/// Whether signing the digest with the key succeeds. With deterministic
/// nonces this too is a function of key and digest alone; the signing
/// crate's only failure for a valid key is drawing a zero r or s scalar.
pub uninterp spec fn sign_ok_of(key: Seq<u8>, digest: Seq<u8>) -> bool;

/// The address recovered from a 65-byte signature over a 32-byte digest, or
/// `None` when the signature is not structurally recoverable (r or s out of
/// range, or no curve point matches).
pub uninterp spec fn recover_of(digest: Seq<u8>, sig: Seq<u8>) -> Option<Seq<u8>>;

/// Relies on `ethers_core::utils::keccak256`: the keccak-256 digest of the
/// input, 32 bytes, a function of the input alone.
#[verifier::external_body]
pub(crate) fn keccak256(data: &[u8]) -> (r: Vec<u8>)
    ensures
        r@ == keccak_of(data@),
        r@.len() == 32,
{
    ethers_core::utils::keccak256(data).to_vec()
}

/// Relies on `hex::encode`: two lowercase hex digits for each input byte,
/// in order.
#[verifier::external_body]
pub(crate) fn hex_encode(data: &[u8]) -> (r: String)
    ensures
        r@ == hex_chars(data@),
{
    hex::encode(data)
}

/// Relies on `String::from_utf8`: ASCII bytes decode to exactly those
/// characters. Restricted to ASCII so the characters are the bytes.
#[verifier::external_body]
pub(crate) fn ascii_to_string(bytes: Vec<u8>) -> (r: String)
    requires
        forall|i: int| 0 <= i < bytes@.len() ==> bytes@[i] < 128,
    ensures
        r@ == bytes@.map_values(|b: u8| b as char),
{
    match String::from_utf8(bytes) {
        Ok(s) => s,
        Err(_) => String::new(),
    }
}

/// Relies on `ethers_signers::LocalWallet::new` (backed by
/// `k256::ecdsa::SigningKey::random` over `rand::thread_rng`): the generated
/// key is a valid nonzero scalar, serialized big-endian as 32 bytes. The
/// value itself is random and nothing is stated about it.
#[verifier::external_body]
pub(crate) fn generate_private_key() -> (r: Vec<u8>)
    ensures
        r@.len() == 32,
        key_in_range(r@),
{
    let wallet = ethers_signers::LocalWallet::new(&mut rand::thread_rng());
    wallet.signer().to_bytes().to_vec()
}

/// Relies on `ethers_signers::Wallet::from_bytes` (which fails exactly when
/// the bytes are not a valid secret scalar) and `Signer::address` (the
/// address precomputed from the key by
/// `ethers_core::utils::secret_key_to_address`).
#[verifier::external_body]
pub(crate) fn derive_address(key: &[u8]) -> (r: Option<Vec<u8>>)
    requires
        key@.len() == 32,
    ensures
        r is Some <==> key_in_range(key@),
        r matches Some(a) ==> a@ == addr_of_key(key@) && a@.len() == 20,
{
    match ethers_signers::Wallet::from_bytes(key) {
        Ok(wallet) => Some(ethers_signers::Signer::address(&wallet).0.to_vec()),
        Err(_) => None,
    }
}

/// Relies on `ethers_signers::Wallet::from_bytes` and
/// `k256::ecdsa::VerifyingKey::to_sec1_bytes`: the compressed SEC1 encoding
/// of the key's public key, a function of the key alone.
#[verifier::external_body]
pub(crate) fn derive_public_key(key: &[u8]) -> (r: Option<Vec<u8>>)
    requires
        key@.len() == 32,
    ensures
        r is Some <==> key_in_range(key@),
        r matches Some(p) ==> p@ == pubkey_of_key(key@),
{
    match ethers_signers::Wallet::from_bytes(key) {
        Ok(wallet) => Some(wallet.signer().verifying_key().to_sec1_bytes().to_vec()),
        Err(_) => None,
    }
}

/// Relies on `ethers_signers::Wallet::from_bytes` and `Wallet::sign_hash`:
/// a deterministic (RFC 6979) recoverable signature over the digest, 65
/// bytes, with v = recovery id + 27 (the recovery id is below 4), and r and
/// s big-endian scalars that the signature type keeps nonzero and below the
/// curve order. Success
/// is a function of key and digest alone: the key must be a valid scalar,
/// and the nonce drawn for this digest must not produce a zero scalar. The
/// round-trip clause is what recoverable ECDSA provides and
/// `ethers_core::types::Signature::recover` documents: recovering the
/// signed digest with the produced signature yields the signer's own
/// address.
#[verifier::external_body]
pub(crate) fn sign_digest(key: &[u8], digest: &[u8]) -> (r: Option<Vec<u8>>)
    requires
        key@.len() == 32,
        digest@.len() == 32,
    ensures
        r is Some <==> (key_in_range(key@) && sign_ok_of(key@, digest@)),
        r matches Some(s) ==> s@ == sig_of_key(key@, digest@) && s@.len() == 65
            && recover_of(digest@, s@) == Some(addr_of_key(key@)),
        r matches Some(s) ==> 27 <= s@[64] && s@[64] <= 30,
        r matches Some(s) ==> 1 <= crate::numbers::be_value(s@.take(32)) < curve_order()
            && 1 <= crate::numbers::be_value(s@.subrange(32, 64)) < curve_order(),
{
    let wallet = match ethers_signers::Wallet::from_bytes(key) {
        Ok(w) => w,
        Err(_) => {
            return None;
        },
    };
    let mut h = [0u8; 32];
    h.copy_from_slice(digest);
    match wallet.sign_hash(ethers_core::types::H256(h)) {
        Ok(sig) => {
            let bytes: [u8; 65] = (&sig).into();
            Some(bytes.to_vec())
        },
        Err(_) => None,
    }
}

/// Relies on `ethers_core::types::Signature::recover` over a precomputed
/// hash: the recovered address is a function of the digest and the 65
/// signature bytes alone, `None` exactly when recovery fails (r or s not
/// valid scalars, or no curve point matches).
#[verifier::external_body]
pub(crate) fn recover_signer(digest: &[u8], sig: &[u8]) -> (r: Option<Vec<u8>>)
    requires
        digest@.len() == 32,
        sig@.len() == 65,
    ensures
        r is Some <==> recover_of(digest@, sig@) is Some,
        r matches Some(a) ==> recover_of(digest@, sig@) == Some(a@) && a@.len() == 20,
{
    let signature = match ethers_core::types::Signature::try_from(sig) {
        Ok(s) => s,
        Err(_) => {
            return None;
        },
    };
    let mut h = [0u8; 32];
    h.copy_from_slice(digest);
    let message = ethers_core::types::RecoveryMessage::Hash(ethers_core::types::H256(h));
    match signature.recover(message) {
        Ok(addr) => Some(addr.0.to_vec()),
        Err(_) => None,
    }
}

/// Relies on `rand::random`: a fresh value of the standard distribution.
/// Nothing can be stated about it.
pub assume_specification<T>[ rand::random::<T> ]() -> (r: T)
    where
        rand::distributions::Standard: rand::distributions::Distribution<T>,
;

} // verus!
