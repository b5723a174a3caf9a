//! The signature-verification endpoint: parse the signature and the
//! expected address, recompute the personal-message digest, recover the
//! signer, and compare. A mismatched address is a negative verdict, not an
//! error.

use vstd::prelude::*;
use vstd::string::StringSliceAdditionalSpecFns;
use vstd::utf8::encode_utf8;

use crate::crypto::recover_of;
use crate::errors::EvmError;
use crate::hashing::{hash_message_bytes, message_digest};
use crate::hexdata::{
    all_hex_digits, bytes_eq, decode_hex, hex_chars_0x, hex_decoded, hex_string_0x,
    strip_one_hex_prefix, strip_one_hex_prefix_any, strip_one_prefix, strip_one_prefix_any,
};
use crate::models::{VerifyMessageRequest, VerifyMessageResponse};

verus! {

/// The 65 signature bytes encoded by the request text: one optional `0x` or
/// `0X` marker, then exactly 130 hex digits.
pub open spec fn parsed_signature(s: Seq<u8>) -> Option<Seq<u8>> {
    let t = strip_one_hex_prefix_any(s);
    if t.len() == 130 && all_hex_digits(t) {
        Some(hex_decoded(t))
    } else {
        None
    }
}

/// The 20 address bytes encoded by the request text: one optional `0x`
/// marker, then exactly 40 hex digits.
pub open spec fn parsed_address(s: Seq<u8>) -> Option<Seq<u8>> {
    let t = strip_one_hex_prefix(s);
    if t.len() == 40 && all_hex_digits(t) {
        Some(hex_decoded(t))
    } else {
        None
    }
}

/// Read a signature from its hex text.
pub fn parse_signature(s: &str) -> (r: Option<Vec<u8>>)
    ensures
        r is Some <==> parsed_signature(s.spec_bytes()) is Some,
        r matches Some(v) ==> Some(v@) == parsed_signature(s.spec_bytes()) && v@.len() == 65,
{
    let t = strip_one_prefix_any(s.as_bytes());
    if t.len() != 130 {
        return None;
    }
    decode_hex(t.as_slice())
}

/// Read an address from its hex text.
pub fn parse_address(s: &str) -> (r: Option<Vec<u8>>)
    ensures
        r is Some <==> parsed_address(s.spec_bytes()) is Some,
        r matches Some(v) ==> Some(v@) == parsed_address(s.spec_bytes()) && v@.len() == 20,
{
    let t = strip_one_prefix(s.as_bytes());
    if t.len() != 40 {
        return None;
    }
    decode_hex(t.as_slice())
}

/// Whether all three request fields are present.
pub open spec fn verify_fields_present(req: VerifyMessageRequest) -> bool {
    req.signature@.len() > 0 && req.message@.len() > 0 && req.expected_address@.len() > 0
}

/// The verdict for a request whose signature and address parse and whose
/// recovery succeeds: validity is the recovered address matching the
/// expected one, byte for byte.
pub open spec fn verify_response_matches(req: VerifyMessageRequest, resp: VerifyMessageResponse) -> bool {
    let digest = message_digest(encode_utf8(req.message@));
    let sig = parsed_signature(encode_utf8(req.signature@))->Some_0;
    let expected = parsed_address(encode_utf8(req.expected_address@))->Some_0;
    match recover_of(digest, sig) {
        Some(a) => {
            &&& resp.is_valid == (a == expected)
            &&& resp.recovered_address@ == hex_chars_0x(a)
            &&& resp.message@ == if a == expected {
                "Signature is valid"@
            } else {
                "Signature is invalid - recovered address does not match expected address"@
            }
        },
        None => false,
    }
}

/// Check a signature over a message against an expected address. A request
/// with an empty signature, message or expected address is rejected as a
/// validation error, before any recovery is attempted.
pub fn verify_evm_message(req: &VerifyMessageRequest) -> (r: Result<
    VerifyMessageResponse,
    EvmError,
>)
    ensures
        (r is Err && r->Err_0 == EvmError::MissingFields) <==> !verify_fields_present(*req),
        verify_fields_present(*req) ==> ((r is Err && r->Err_0 == EvmError::InvalidSignature)
            <==> parsed_signature(encode_utf8(req.signature@)) is None),
        (verify_fields_present(*req) && parsed_signature(encode_utf8(req.signature@)) is Some)
            ==> ((r is Err && r->Err_0 == EvmError::InvalidExpectedAddress) <==> parsed_address(
            encode_utf8(req.expected_address@),
        ) is None),
        (verify_fields_present(*req) && parsed_signature(encode_utf8(req.signature@)) is Some
            && parsed_address(encode_utf8(req.expected_address@)) is Some) ==> ((r is Err
            && r->Err_0 == EvmError::RecoveryFailed) <==> recover_of(
            message_digest(encode_utf8(req.message@)),
            parsed_signature(encode_utf8(req.signature@))->Some_0,
        ) is None),
        r is Ok <==> (verify_fields_present(*req) && parsed_signature(
            encode_utf8(req.signature@),
        ) is Some && parsed_address(encode_utf8(req.expected_address@)) is Some && recover_of(
            message_digest(encode_utf8(req.message@)),
            parsed_signature(encode_utf8(req.signature@))->Some_0,
        ) is Some),
        r is Ok ==> verify_response_matches(*req, r->Ok_0),
{
    if req.signature.as_str().is_empty() || req.message.as_str().is_empty()
        || req.expected_address.as_str().is_empty() {
        return Err(EvmError::MissingFields);
    }
    let sig = match parse_signature(req.signature.as_str()) {
        Some(v) => v,
        None => {
            return Err(EvmError::InvalidSignature);
        },
    };
    let expected = match parse_address(req.expected_address.as_str()) {
        Some(v) => v,
        None => {
            return Err(EvmError::InvalidExpectedAddress);
        },
    };
    let digest = hash_message_bytes(req.message.as_str().as_bytes());
    let recovered = match crate::crypto::recover_signer(digest.as_slice(), sig.as_slice()) {
        Some(a) => a,
        None => {
            return Err(EvmError::RecoveryFailed);
        },
    };
    let is_valid = bytes_eq(recovered.as_slice(), expected.as_slice());
    Ok(
        VerifyMessageResponse {
            is_valid,
            recovered_address: hex_string_0x(recovered.as_slice()),
            message: if is_valid {
                "Signature is valid".to_owned()
            } else {
                "Signature is invalid - recovered address does not match expected address".to_owned()
            },
        },
    )
}

} // verus!
