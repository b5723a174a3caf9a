//! The message-signing endpoint: read the key, refuse an empty message,
//! hash with the personal-message prefix, and sign.

use vstd::prelude::*;
use vstd::string::StringSliceAdditionalSpecFns;
use vstd::utf8::encode_utf8;

use crate::crypto::{addr_of_key, key_in_range, recover_of, sig_of_key, sign_digest, sign_ok_of};
use crate::errors::EvmError;
use crate::hashing::{hash_message_bytes, message_digest};
use crate::hexdata::{hex_chars_0x, hex_string_0x};
use crate::keys::{parse_private_key, parsed_private_key};
use crate::models::{SignMessageRequest, SignMessageResponse};

verus! {

/// Whether the request's private key is well-formed hex and a valid scalar.
pub open spec fn sign_key_ok(req: SignMessageRequest) -> bool {
    match parsed_private_key(encode_utf8(req.private_key@)) {
        Some(k) => key_in_range(k),
        None => false,
    }
}

/// The key bytes of a request whose key is well-formed.
pub open spec fn sign_key(req: SignMessageRequest) -> Seq<u8> {
    parsed_private_key(encode_utf8(req.private_key@))->Some_0
}

/// How the signing endpoint renders its result for a key and the UTF-8
/// bytes of a message: the signature, the digest, and the signer's address,
/// all in `0x`-prefixed hex. The last clause records what the curve library
/// guarantees of every signature it hands out: recovering the signed digest
/// with it yields the signer's address.
pub open spec fn sign_response_matches(key: Seq<u8>, msg: Seq<u8>, r: SignMessageResponse) -> bool {
    &&& r.signature@ == hex_chars_0x(sig_of_key(key, message_digest(msg)))
    &&& r.message_hash@ == hex_chars_0x(message_digest(msg))
    &&& r.signer_address@ == hex_chars_0x(addr_of_key(key))
    &&& sig_of_key(key, message_digest(msg)).len() == 65
    &&& 27 <= sig_of_key(key, message_digest(msg))[64] <= 30
    &&& 1 <= crate::numbers::be_value(sig_of_key(key, message_digest(msg)).take(32))
        < crate::crypto::curve_order()
    &&& 1 <= crate::numbers::be_value(sig_of_key(key, message_digest(msg)).subrange(32, 64))
        < crate::crypto::curve_order()
    &&& addr_of_key(key).len() == 20
    &&& recover_of(message_digest(msg), sig_of_key(key, message_digest(msg))) == Some(
        addr_of_key(key),
    )
}

/// Sign a message with a private key. The key must be 64 hex digits (with
/// any number of leading `0x` markers) and a valid scalar, and the message
/// must be non-empty; the signature is over the personal-message digest.
/// Signing succeeds exactly when the curve library's deterministic signing
/// does, which fails only on an all-but-impossible zero-scalar draw.
pub fn sign_evm_message(req: &SignMessageRequest) -> (r: Result<SignMessageResponse, EvmError>)
    ensures
        (r is Err && r->Err_0 == EvmError::InvalidPrivateKey) <==> !sign_key_ok(*req),
        (r is Err && r->Err_0 == EvmError::EmptyMessage) <==> (sign_key_ok(*req)
            && req.message@.len() == 0),
        r is Ok <==> (sign_key_ok(*req) && req.message@.len() > 0 && sign_ok_of(
            sign_key(*req),
            message_digest(encode_utf8(req.message@)),
        )),
        (r is Err && r->Err_0 == EvmError::SigningFailed) <==> (sign_key_ok(*req)
            && req.message@.len() > 0 && !sign_ok_of(
            sign_key(*req),
            message_digest(encode_utf8(req.message@)),
        )),
        r is Err ==> r->Err_0 == EvmError::InvalidPrivateKey || r->Err_0 == EvmError::EmptyMessage
            || r->Err_0 == EvmError::SigningFailed,
        r matches Ok(resp) ==> sign_response_matches(sign_key(*req), encode_utf8(req.message@), resp),
{
    let key = match parse_private_key(req.private_key.as_str()) {
        Some(k) => k,
        None => {
            return Err(EvmError::InvalidPrivateKey);
        },
    };
    // the hex is well-formed; the scalar check is the curve library's
    if req.message.as_str().is_empty() {
        match crate::crypto::derive_address(key.as_slice()) {
            Some(_) => {
                return Err(EvmError::EmptyMessage);
            },
            None => {
                return Err(EvmError::InvalidPrivateKey);
            },
        }
    }
    let digest = hash_message_bytes(req.message.as_str().as_bytes());
    let sig = match sign_digest(key.as_slice(), digest.as_slice()) {
        Some(s) => s,
        None => {
            match crate::crypto::derive_address(key.as_slice()) {
                Some(_) => {
                    return Err(EvmError::SigningFailed);
                },
                None => {
                    return Err(EvmError::InvalidPrivateKey);
                },
            }
        },
    };
    let addr = match crate::crypto::derive_address(key.as_slice()) {
        Some(a) => a,
        None => {
            proof {
                assert(false);
            }
            return Err(EvmError::InvalidPrivateKey);
        },
    };
    Ok(
        SignMessageResponse {
            signature: hex_string_0x(sig.as_slice()),
            message_hash: hex_string_0x(digest.as_slice()),
            signer_address: hex_string_0x(addr.as_slice()),
        },
    )
}

} // verus!
