//! The validation and cryptographic error taxonomy of the service.
//!
//! Structural failures (malformed keys, addresses, signatures, amounts, an
//! empty message, a failed recovery) are errors; negative business outcomes
//! (insufficient balance, a signature that recovers to another address) are
//! not, and are carried in the ordinary responses instead.

use vstd::prelude::*;

verus! {

/// A validation or cryptographic failure of one of the wallet operations.
#[derive(Clone, Copy, Debug, PartialEq, Eq, Structural)]
pub enum EvmError {
    /// The private key is not 32 bytes of hex, or not a valid curve scalar.
    InvalidPrivateKey,
    /// The message to sign is empty.
    EmptyMessage,
    /// The elliptic-curve library refused to sign the digest.
    SigningFailed,
    /// The recipient address is not a well-formed 20-byte hex address.
    InvalidRecipient,
    /// The transfer amount is not a decimal number.
    InvalidAmount,
    /// The signature is not a well-formed 65-byte hex signature.
    InvalidSignature,
    /// The expected address is not a well-formed 20-byte hex address.
    InvalidExpectedAddress,
    /// A verification request left the signature, message or expected
    /// address empty.
    MissingFields,
    /// No address could be recovered from the signature.
    RecoveryFailed,
}

impl EvmError {
    /// The human-readable description of the error, as the HTTP layer
    /// reports it.
    pub open spec fn text(self) -> Seq<char> {
        match self {
            EvmError::InvalidPrivateKey => "Invalid private key format"@,
            EvmError::EmptyMessage => "Message cannot be empty"@,
            EvmError::SigningFailed => "Failed to sign message"@,
            EvmError::InvalidRecipient => "Invalid recipient address"@,
            EvmError::InvalidAmount => "Invalid amount format"@,
            EvmError::InvalidSignature => "Invalid signature format"@,
            EvmError::InvalidExpectedAddress => "Invalid expected address format"@,
            EvmError::MissingFields => "All fields are required"@,
            EvmError::RecoveryFailed => "Failed to recover address from signature"@,
        }
    }

    /// Render the error as its description.
    pub fn message(&self) -> (r: String)
        ensures
            r@ == self.text(),
    {
        match self {
            EvmError::InvalidPrivateKey => "Invalid private key format".to_owned(),
            EvmError::EmptyMessage => "Message cannot be empty".to_owned(),
            EvmError::SigningFailed => "Failed to sign message".to_owned(),
            EvmError::InvalidRecipient => "Invalid recipient address".to_owned(),
            EvmError::InvalidAmount => "Invalid amount format".to_owned(),
            EvmError::InvalidSignature => "Invalid signature format".to_owned(),
            EvmError::InvalidExpectedAddress => "Invalid expected address format".to_owned(),
            EvmError::MissingFields => "All fields are required".to_owned(),
            EvmError::RecoveryFailed => "Failed to recover address from signature".to_owned(),
        }
    }
}

} // verus!
