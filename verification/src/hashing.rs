//! The EIP-191 "personal message" digest: a fixed prefix, the decimal byte
//! length of the message, and the message itself, hashed with keccak-256.
//! The prefix assembly is verified; the hash itself is the named result of
//! the trusted keccak wrapper.

use vstd::prelude::*;

use crate::crypto::{keccak256, keccak_of};
use crate::numbers::{dec_digits, format_u128};

verus! {

/// The signed-message prefix: `"\x19Ethereum Signed Message:\n"`.
pub open spec fn personal_prefix() -> Seq<u8> {
    seq![
        25u8,
        69,
        116,
        104,
        101,
        114,
        101,
        117,
        109,
        32,
        83,
        105,
        103,
        110,
        101,
        100,
        32,
        77,
        101,
        115,
        115,
        97,
        103,
        101,
        58,
        10,
    ]
}

/// The full text that is hashed: prefix, decimal byte length, message.
pub open spec fn personal_message(msg: Seq<u8>) -> Seq<u8> {
    personal_prefix() + dec_digits(msg.len()) + msg
}

/// The digest the service signs and verifies.
pub open spec fn message_digest(msg: Seq<u8>) -> Seq<u8> {
    keccak_of(personal_message(msg))
}

/// Compute the personal-message digest of a message.
pub fn hash_message_bytes(msg: &[u8]) -> (r: Vec<u8>)
    ensures
        r@ == message_digest(msg@),
        r@.len() == 32,
{
    let mut m: Vec<u8> = Vec::new();
    m.push(25);
    m.push(69);
    m.push(116);
    m.push(104);
    m.push(101);
    m.push(114);
    m.push(101);
    m.push(117);
    m.push(109);
    m.push(32);
    m.push(83);
    m.push(105);
    m.push(103);
    m.push(110);
    m.push(101);
    m.push(100);
    m.push(32);
    m.push(77);
    m.push(101);
    m.push(115);
    m.push(115);
    m.push(97);
    m.push(103);
    m.push(101);
    m.push(58);
    m.push(10);
    proof {
        assert(m@ =~= personal_prefix());
    }
    let mut len_digits = format_u128(msg.len() as u128);
    m.append(&mut len_digits);
    let mut msg_copy = vstd::slice::slice_to_vec(msg);
    m.append(&mut msg_copy);
    proof {
        assert(m@ =~= personal_message(msg@));
    }
    keccak256(m.as_slice())
}

} // verus!
