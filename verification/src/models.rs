//! The request and response shapes of the service. The HTTP layer holds
//! serializable copies of these and converts at the boundary; the contracts
//! of the service functions pin every field of the responses.

use vstd::prelude::*;

verus! {

/// A single to-do entry, echoed back by the to-do endpoint.
#[derive(Clone, Debug)]
pub struct Todo {
    pub id: u32,
    pub title: String,
    pub completed: bool,
}

/// A freshly generated keypair: the raw private key (as a decimal byte
/// list), its hex form, the compressed public key, and the derived address.
#[derive(Clone, Debug)]
pub struct KeypairResponse {
    pub private_key: String,
    pub private_key_hex: String,
    pub public_key: String,
    pub address: String,
}

/// A request to send ether: sender key, recipient, decimal amount in ether,
/// and an optional RPC endpoint.
#[derive(Clone, Debug)]
pub struct SendEtherRequest {
    pub from_private_key: String,
    pub to_address: String,
    pub amount_eth: String,
    pub rpc_url: Option<String>,
}

/// The outcome of a transfer attempt. A refused transfer (bad amount,
/// insufficient balance) is a well-formed response with `success == false`,
/// not an error.
#[derive(Clone, Debug)]
pub struct SendEtherResponse {
    pub transaction_hash: String,
    pub success: bool,
    pub message: String,
}

/// A request to sign a message with a private key.
#[derive(Clone, Debug)]
pub struct SignMessageRequest {
    pub private_key: String,
    pub message: String,
}

/// A produced signature, with the signed digest and the signer's address.
#[derive(Clone, Debug)]
pub struct SignMessageResponse {
    pub signature: String,
    pub message_hash: String,
    pub signer_address: String,
}

/// A request to check a signature against a message and an expected signer.
#[derive(Clone, Debug)]
pub struct VerifyMessageRequest {
    pub signature: String,
    pub message: String,
    pub expected_address: String,
}

/// The verdict on a signature: validity, the recovered address, and a
/// human-readable summary. A mismatched address is a negative result, not
/// an error.
#[derive(Clone, Debug)]
pub struct VerifyMessageResponse {
    pub is_valid: bool,
    pub recovered_address: String,
    pub message: String,
}

} // verus!
