//! The laws of the library: determinism of key derivation and signing, and
//! the round trip from signing a message to verifying it against the
//! signer's own address.

use vstd::prelude::*;
use vstd::utf8::{encode_utf8, is_ascii_chars, is_ascii_chars_encode_utf8};

use crate::crypto::{addr_of_key, recover_of, sig_of_key};
use crate::hashing::message_digest;
use crate::hexdata::{
    all_hex_digits, hex_chars, hex_chars_0x, hex_decoded, hex_digit_char, hex_digit_value,
    is_hex_digit, strip_one_hex_prefix, strip_one_hex_prefix_any,
};
use crate::keys::keypair_response_matches;
use crate::models::{KeypairResponse, SignMessageResponse, VerifyMessageRequest,
    VerifyMessageResponse};
use crate::signing::sign_response_matches;
use crate::verifying::{
    parsed_address, parsed_signature, verify_fields_present, verify_response_matches,
};

verus! {

/// A hex character is ASCII, and decodes back to its nibble.
proof fn lemma_hex_digit_char_round(n: u8)
    requires
        n < 16,
    ensures
        hex_digit_char(n) <= '\u{7f}',
        (hex_digit_char(n) as u8) < 128,
        is_hex_digit((hex_digit_char(n) as u8)),
        hex_digit_value((hex_digit_char(n) as u8)) == n,
{
    if n < 10 {
        assert(hex_digit_char(n) == ((n + 48) as u8) as char);
        assert((((n + 48) as u8) as char) as u8 == (n + 48) as u8);
    } else {
        assert(hex_digit_char(n) == ((n + 87) as u8) as char);
        assert((((n + 87) as u8) as char) as u8 == (n + 87) as u8);
    }
}

/// The hex rendering of a byte sequence is ASCII, and its bytes decode back
/// to the original sequence.
pub proof fn lemma_hex_round_trip(data: Seq<u8>)
    ensures
        is_ascii_chars(hex_chars(data)),
        ({
            let encoded = hex_chars(data).map_values(|c: char| c as u8);
            &&& encoded.len() == 2 * data.len()
            &&& all_hex_digits(encoded)
            &&& hex_decoded(encoded) == data
        }),
{
    let chars = hex_chars(data);
    let encoded = chars.map_values(|c: char| c as u8);
    assert forall|i: int| 0 <= i < chars.len() implies '\0' <= #[trigger] chars[i] <= '\u{7f}' by {
        if i % 2 == 0 {
            lemma_hex_digit_char_round(data[i / 2] / 16);
        } else {
            lemma_hex_digit_char_round(data[i / 2] % 16);
        }
    }
    assert(is_ascii_chars(chars));
    assert forall|i: int| 0 <= i < encoded.len() implies is_hex_digit(#[trigger] encoded[i]) by {
        if i % 2 == 0 {
            lemma_hex_digit_char_round(data[i / 2] / 16);
        } else {
            lemma_hex_digit_char_round(data[i / 2] % 16);
        }
    }
    assert forall|i: int| 0 <= i < data.len() implies hex_decoded(encoded)[i] == data[i] by {
        lemma_hex_digit_char_round(data[i] / 16);
        lemma_hex_digit_char_round(data[i] % 16);
        assert(encoded[2 * i] == hex_digit_char(data[i] / 16) as u8);
        assert(encoded[2 * i + 1] == hex_digit_char(data[i] % 16) as u8);
        assert(hex_decoded(encoded)[i] == (hex_digit_value(encoded[2 * i]) * 16 + hex_digit_value(
            encoded[2 * i + 1],
        )) as u8);
        assert(data[i] / 16 * 16 + data[i] % 16 == data[i]);
    }
    assert(hex_decoded(encoded) =~= data);
}

/// The UTF-8 bytes of a `0x`-prefixed hex rendering: `0x`, then the hex
/// digits, which parse back to the rendered bytes.
pub proof fn lemma_hex_0x_parses(data: Seq<u8>)
    ensures
        ({
            let bytes = encode_utf8(hex_chars_0x(data));
            &&& bytes.len() == 2 + 2 * data.len()
            &&& strip_one_hex_prefix(bytes) == hex_chars(data).map_values(|c: char| c as u8)
            &&& strip_one_hex_prefix_any(bytes) == hex_chars(data).map_values(|c: char| c as u8)
        }),
{
    let chars = hex_chars_0x(data);
    let tail = hex_chars(data);
    lemma_hex_round_trip(data);
    reveal_strlit("0x");
    assert(chars.len() == 2 + tail.len());
    assert(chars[0] == '0' && chars[1] == 'x');
    assert forall|i: int| 0 <= i < chars.len() implies '\0' <= #[trigger] chars[i] <= '\u{7f}' by {
        if i >= 2 {
            assert(chars[i] == tail[i - 2]);
        }
    }
    assert(is_ascii_chars(chars));
    is_ascii_chars_encode_utf8(chars);
    let bytes = encode_utf8(chars);
    assert(bytes[0] == '0' as u8 && bytes[1] == 'x' as u8);
    assert(bytes[0] == 48 && bytes[1] == 120);
    let encoded = tail.map_values(|c: char| c as u8);
    assert forall|i: int| 0 <= i < encoded.len() implies bytes.skip(2)[i] == #[trigger] encoded[i] by {
        assert(bytes[i + 2] == chars[i + 2] as u8);
        assert(chars[i + 2] == tail[i]);
    }
    assert(bytes.skip(2) =~= encoded);
}

/// Deriving the keypair response from one private key always gives the same
/// fields: address derivation is deterministic, so repeated calls agree.
pub proof fn lemma_keypair_deterministic(key: Seq<u8>, r1: KeypairResponse, r2: KeypairResponse)
    requires
        keypair_response_matches(key, r1),
        keypair_response_matches(key, r2),
    ensures
        r1.private_key@ == r2.private_key@,
        r1.private_key_hex@ == r2.private_key_hex@,
        r1.public_key@ == r2.public_key@,
        r1.address@ == r2.address@,
{
}

/// Signing one message with one key always gives the same signature, digest
/// and signer address: the signature scheme is deterministic.
pub proof fn lemma_signing_deterministic(
    key: Seq<u8>,
    msg: Seq<u8>,
    r1: SignMessageResponse,
    r2: SignMessageResponse,
)
    requires
        sign_response_matches(key, msg, r1),
        sign_response_matches(key, msg, r2),
    ensures
        r1.signature@ == r2.signature@,
        r1.message_hash@ == r2.message_hash@,
        r1.signer_address@ == r2.signer_address@,
{
}

/// Signing then verifying with the signer's own address validates: for any
/// message, a verification request built from the signing response parses,
/// recovers the signer's address, and every well-formed answer to it says
/// the signature is valid.
pub proof fn lemma_sign_then_verify(
    key: Seq<u8>,
    msg: Seq<char>,
    resp: SignMessageResponse,
    vreq: VerifyMessageRequest,
)
    requires
        sign_response_matches(key, encode_utf8(msg), resp),
        msg.len() > 0,
        vreq.signature@ == resp.signature@,
        vreq.message@ == msg,
        vreq.expected_address@ == resp.signer_address@,
    ensures
        verify_fields_present(vreq),
        parsed_signature(encode_utf8(vreq.signature@)) == Some(
            sig_of_key(key, message_digest(encode_utf8(msg))),
        ),
        parsed_address(encode_utf8(vreq.expected_address@)) == Some(addr_of_key(key)),
        recover_of(
            message_digest(encode_utf8(vreq.message@)),
            parsed_signature(encode_utf8(vreq.signature@))->Some_0,
        ) == Some(parsed_address(encode_utf8(vreq.expected_address@))->Some_0),
        forall|vresp: VerifyMessageResponse|
            #[trigger] verify_response_matches(vreq, vresp) ==> vresp.is_valid,
{
    let digest = message_digest(encode_utf8(msg));
    let sig = sig_of_key(key, digest);
    let addr = addr_of_key(key);
    lemma_hex_0x_parses(sig);
    lemma_hex_round_trip(sig);
    lemma_hex_0x_parses(addr);
    lemma_hex_round_trip(addr);
    assert(vreq.signature@.len() > 0 && vreq.expected_address@.len() > 0);
    assert(parsed_signature(encode_utf8(vreq.signature@)) == Some(sig));
    assert(parsed_address(encode_utf8(vreq.expected_address@)) == Some(addr));
    assert forall|vresp: VerifyMessageResponse|
        #[trigger] verify_response_matches(vreq, vresp) implies vresp.is_valid by {
        assert(recover_of(digest, sig) == Some(addr));
    }
}

} // verus!
