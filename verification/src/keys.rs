//! Private-key handling: reading a key from its hex text, and building the
//! keypair response of the key-generation endpoint.

use vstd::prelude::*;
use vstd::string::StringSliceAdditionalSpecFns;

use crate::crypto::{
    addr_of_key, ascii_to_string, derive_address, derive_public_key, generate_private_key,
    key_in_range, pubkey_of_key,
};
use crate::errors::EvmError;
use crate::hexdata::{
    all_hex_digits, ascii_chars, byte_list_bytes, decode_hex, format_byte_list, hex_chars_0x,
    hex_decoded, hex_string_0x, strip_hex_prefixes, strip_prefixes, with_0x,
};
use crate::models::KeypairResponse;

verus! {

/// The 32 key bytes encoded by the request text: every leading `0x`
/// stripped, then exactly 64 hex digits; `None` for any other shape.
pub open spec fn parsed_private_key(s: Seq<u8>) -> Option<Seq<u8>> {
    let t = strip_hex_prefixes(s);
    if t.len() == 64 && all_hex_digits(t) {
        Some(hex_decoded(t))
    } else {
        None
    }
}

/// Read a private key from its hex text.
pub fn parse_private_key(s: &str) -> (r: Option<Vec<u8>>)
    ensures
        r is Some <==> parsed_private_key(s.spec_bytes()) is Some,
        r matches Some(k) ==> Some(k@) == parsed_private_key(s.spec_bytes()) && k@.len() == 32,
{
    let bytes = s.as_bytes();
    let t = strip_prefixes(bytes);
    if t.len() != 64 {
        return None;
    }
    match decode_hex(t.as_slice()) {
        Some(k) => Some(k),
        None => None,
    }
}

/// How the keypair endpoint renders a generated key: the raw bytes as a
/// decimal list, the key and the derived address in hex, and the compressed
/// public key as a decimal list behind a `0x` marker.
pub open spec fn keypair_response_matches(key: Seq<u8>, r: KeypairResponse) -> bool {
    &&& r.private_key@ == ascii_chars(byte_list_bytes(key))
    &&& r.private_key_hex@ == hex_chars_0x(key)
    &&& r.public_key@ == "0x"@ + ascii_chars(byte_list_bytes(pubkey_of_key(key)))
    &&& r.address@ == hex_chars_0x(addr_of_key(key))
}

/// Build the keypair response for a given private key; rejected exactly
/// when the bytes are not a valid curve scalar.
pub fn keypair_response_from_key(key: &[u8]) -> (r: Result<KeypairResponse, EvmError>)
    requires
        key@.len() == 32,
    ensures
        r is Ok <==> key_in_range(key@),
        r matches Ok(resp) ==> keypair_response_matches(key@, resp),
        r matches Err(e) ==> e == EvmError::InvalidPrivateKey,
{
    let address = match derive_address(key) {
        Some(a) => a,
        None => {
            return Err(EvmError::InvalidPrivateKey);
        },
    };
    let pubkey = match derive_public_key(key) {
        Some(p) => p,
        None => {
            return Err(EvmError::InvalidPrivateKey);
        },
    };
    let private_key = ascii_to_string(format_byte_list(key));
    let private_key_hex = hex_string_0x(key);
    let pub_list = ascii_to_string(format_byte_list(pubkey.as_slice()));
    let public_key = with_0x(pub_list.as_str());
    let address_hex = hex_string_0x(address.as_slice());
    Ok(
        KeypairResponse {
            private_key,
            private_key_hex,
            public_key,
            address: address_hex,
        },
    )
}

/// Generate a fresh keypair: a random valid private key, its public key,
/// and the derived address.
pub fn generate_evm_keypair() -> (r: Result<KeypairResponse, EvmError>)
    ensures
        r is Ok,
        r matches Ok(resp) ==> exists|key: Seq<u8>|
            #[trigger] key_in_range(key) && key.len() == 32 && keypair_response_matches(key, resp),
{
    let key = generate_private_key();
    match keypair_response_from_key(key.as_slice()) {
        Ok(resp) => {
            proof {
                assert(key_in_range(key@) && keypair_response_matches(key@, resp));
            }
            Ok(resp)
        },
        Err(e) => {
            proof {
                assert(false);
            }
            Err(e)
        },
    }
}

} // verus!
