//! Verified core of an Ethereum-style wallet service: keypair derivation,
//! personal-message signing, signature verification, and ether-transfer
//! validation. The elliptic-curve and hashing work is delegated to the
//! `ethers` crates behind trusted wrappers; everything around those calls
//! (hex parsing and formatting, the signed-message prefix, amount handling,
//! validation and response shaping) is verified.

pub mod crypto;
pub mod errors;
pub mod hashing;
pub mod hexdata;
pub mod keys;
pub mod laws;
pub mod models;
pub mod numbers;
pub mod signing;
pub mod transfer;
pub mod verifying;
