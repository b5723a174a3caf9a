use evm_backend::errors::EvmError;
use evm_backend::keys::{generate_evm_keypair, keypair_response_from_key};
use evm_backend::models::{SignMessageRequest, VerifyMessageRequest};
use evm_backend::signing::sign_evm_message;
use evm_backend::verifying::verify_evm_message;

fn key_one() -> [u8; 32] {
    let mut k = [0u8; 32];
    k[31] = 1;
    k
}

const KEY_ONE_HEX: &str = "0x0000000000000000000000000000000000000000000000000000000000000001";
const KEY_ONE_ADDRESS: &str = "0x7e5f4552091a69125d5dfcb7b8c2659029395bdf";

#[test]
fn keypair_fields_shape() {
    let resp = generate_evm_keypair().unwrap();
    assert_eq!(&resp.private_key_hex[..2], "0x");
    assert_eq!(resp.private_key_hex.len(), 66);
    assert_eq!(&resp.address[..2], "0x");
    assert_eq!(resp.address.len(), 42);
    assert!(resp.private_key.starts_with('['));
    assert!(resp.private_key.ends_with(']'));
    assert!(resp.public_key.starts_with("0x["));
}

#[test]
fn keypair_matches_ethers() {
    let resp = generate_evm_keypair().unwrap();
    let wallet: ethers_signers::LocalWallet = resp.private_key_hex.parse().unwrap();
    let addr = ethers_signers::Signer::address(&wallet);
    assert_eq!(resp.address, format!("{:?}", addr));
}

#[test]
fn public_key_matches_ethers() {
    let resp = keypair_response_from_key(&key_one()).unwrap();
    let wallet: ethers_signers::LocalWallet = KEY_ONE_HEX.parse().unwrap();
    let expected = format!("0x{:?}", wallet.signer().verifying_key().to_sec1_bytes());
    assert_eq!(resp.public_key, expected);
}

#[test]
fn known_address_for_key_one() {
    let resp = keypair_response_from_key(&key_one()).unwrap();
    assert_eq!(resp.address, KEY_ONE_ADDRESS);
    assert_eq!(resp.private_key_hex, KEY_ONE_HEX);
}

#[test]
fn private_key_field_is_debug_byte_list() {
    let resp = keypair_response_from_key(&key_one()).unwrap();
    assert_eq!(resp.private_key, format!("{:?}", key_one()));
}

#[test]
fn derived_address_deterministic() {
    let r1 = keypair_response_from_key(&key_one()).unwrap();
    let r2 = keypair_response_from_key(&key_one()).unwrap();
    assert_eq!(r1.address, r2.address);
    assert_eq!(r1.public_key, r2.public_key);
    let s1 = sign_evm_message(&SignMessageRequest {
        private_key: KEY_ONE_HEX.to_string(),
        message: "stable".to_string(),
    })
    .unwrap();
    let s2 = sign_evm_message(&SignMessageRequest {
        private_key: KEY_ONE_HEX.to_string(),
        message: "stable".to_string(),
    })
    .unwrap();
    assert_eq!(s1.signature, s2.signature);
    assert_eq!(s1.signer_address, s2.signer_address);
}

#[test]
fn signature_matches_ethers() {
    let resp = sign_evm_message(&SignMessageRequest {
        private_key: KEY_ONE_HEX.to_string(),
        message: "hello".to_string(),
    })
    .unwrap();
    let wallet: ethers_signers::LocalWallet = KEY_ONE_HEX.parse().unwrap();
    let digest = ethers_core::utils::hash_message("hello");
    let sig = wallet.sign_hash(digest).unwrap();
    let sig_bytes: [u8; 65] = sig.into();
    assert_eq!(resp.signature, format!("0x{}", hex::encode(sig_bytes)));
    assert_eq!(resp.message_hash, format!("{:?}", digest));
    assert_eq!(resp.signer_address, KEY_ONE_ADDRESS);
}

#[test]
fn digest_matches_ethers_for_long_message() {
    // a message whose byte length needs several decimal digits in the prefix
    let message = "x".repeat(123);
    let resp = sign_evm_message(&SignMessageRequest {
        private_key: KEY_ONE_HEX.to_string(),
        message: message.clone(),
    })
    .unwrap();
    let digest = ethers_core::utils::hash_message(&message);
    assert_eq!(resp.message_hash, format!("{:?}", digest));
}

#[test]
fn sign_then_verify_roundtrip() {
    let kp = generate_evm_keypair().unwrap();
    let signed = sign_evm_message(&SignMessageRequest {
        private_key: kp.private_key_hex.clone(),
        message: "round trip".to_string(),
    })
    .unwrap();
    let verdict = verify_evm_message(&VerifyMessageRequest {
        signature: signed.signature.clone(),
        message: "round trip".to_string(),
        expected_address: signed.signer_address.clone(),
    })
    .unwrap();
    assert!(verdict.is_valid);
    assert_eq!(verdict.message, "Signature is valid");
    assert_eq!(verdict.recovered_address, signed.signer_address);
}

#[test]
fn tampered_message_is_invalid_not_error() {
    let signed = sign_evm_message(&SignMessageRequest {
        private_key: KEY_ONE_HEX.to_string(),
        message: "hello world".to_string(),
    })
    .unwrap();
    let verdict = verify_evm_message(&VerifyMessageRequest {
        signature: signed.signature.clone(),
        message: "hello worle".to_string(),
        expected_address: signed.signer_address.clone(),
    })
    .unwrap();
    assert!(!verdict.is_valid);
    assert_ne!(verdict.recovered_address, signed.signer_address);
    assert_eq!(
        verdict.message,
        "Signature is invalid - recovered address does not match expected address"
    );
}

#[test]
fn empty_message_rejected() {
    let err = sign_evm_message(&SignMessageRequest {
        private_key: KEY_ONE_HEX.to_string(),
        message: String::new(),
    })
    .unwrap_err();
    assert_eq!(err, EvmError::EmptyMessage);
    assert_eq!(err.message(), "Message cannot be empty");
}

#[test]
fn malformed_key_rejected() {
    let err = sign_evm_message(&SignMessageRequest {
        private_key: "0x1234".to_string(),
        message: "hi".to_string(),
    })
    .unwrap_err();
    assert_eq!(err, EvmError::InvalidPrivateKey);
    assert_eq!(err.message(), "Invalid private key format");
}

#[test]
fn zero_scalar_key_rejected() {
    let err = sign_evm_message(&SignMessageRequest {
        private_key: format!("0x{}", "0".repeat(64)),
        message: "hi".to_string(),
    })
    .unwrap_err();
    assert_eq!(err, EvmError::InvalidPrivateKey);
}

#[test]
fn repeated_hex_markers_are_stripped() {
    let resp = sign_evm_message(&SignMessageRequest {
        private_key: format!("0x0x{}", &KEY_ONE_HEX[2..]),
        message: "hi".to_string(),
    })
    .unwrap();
    assert_eq!(resp.signer_address, KEY_ONE_ADDRESS);
}

#[test]
fn verify_with_missing_field_is_a_validation_error() {
    let err = verify_evm_message(&VerifyMessageRequest {
        signature: String::new(),
        message: "hi".to_string(),
        expected_address: KEY_ONE_ADDRESS.to_string(),
    })
    .unwrap_err();
    assert_eq!(err, EvmError::MissingFields);
    assert_eq!(err.message(), "All fields are required");
    let err = verify_evm_message(&VerifyMessageRequest {
        signature: format!("0x{}", "11".repeat(65)),
        message: String::new(),
        expected_address: KEY_ONE_ADDRESS.to_string(),
    })
    .unwrap_err();
    assert_eq!(err, EvmError::MissingFields);
    let err = verify_evm_message(&VerifyMessageRequest {
        signature: format!("0x{}", "11".repeat(65)),
        message: "hi".to_string(),
        expected_address: String::new(),
    })
    .unwrap_err();
    assert_eq!(err, EvmError::MissingFields);
}

#[test]
fn verify_rejects_malformed_signature() {
    let err = verify_evm_message(&VerifyMessageRequest {
        signature: "0xzz".to_string(),
        message: "hi".to_string(),
        expected_address: KEY_ONE_ADDRESS.to_string(),
    })
    .unwrap_err();
    assert_eq!(err, EvmError::InvalidSignature);
    assert_eq!(err.message(), "Invalid signature format");
}

#[test]
fn verify_rejects_malformed_address() {
    let signed = sign_evm_message(&SignMessageRequest {
        private_key: KEY_ONE_HEX.to_string(),
        message: "hi".to_string(),
    })
    .unwrap();
    let err = verify_evm_message(&VerifyMessageRequest {
        signature: signed.signature,
        message: "hi".to_string(),
        expected_address: "0x123".to_string(),
    })
    .unwrap_err();
    assert_eq!(err, EvmError::InvalidExpectedAddress);
    assert_eq!(err.message(), "Invalid expected address format");
}

#[test]
fn verify_against_other_signer_recovers_their_address() {
    let other = generate_evm_keypair().unwrap();
    let signed = sign_evm_message(&SignMessageRequest {
        private_key: other.private_key_hex.clone(),
        message: "hi".to_string(),
    })
    .unwrap();
    let verdict = verify_evm_message(&VerifyMessageRequest {
        signature: signed.signature,
        message: "hi".to_string(),
        expected_address: KEY_ONE_ADDRESS.to_string(),
    })
    .unwrap();
    assert!(!verdict.is_valid);
    assert_eq!(verdict.recovered_address, other.address);
}

#[test]
fn uppercase_expected_address_still_matches() {
    let signed = sign_evm_message(&SignMessageRequest {
        private_key: KEY_ONE_HEX.to_string(),
        message: "case".to_string(),
    })
    .unwrap();
    let verdict = verify_evm_message(&VerifyMessageRequest {
        signature: signed.signature.clone(),
        message: "case".to_string(),
        expected_address: format!("0x{}", KEY_ONE_ADDRESS[2..].to_uppercase()),
    })
    .unwrap();
    assert!(verdict.is_valid);
}

#[test]
fn signature_with_upper_hex_marker_parses() {
    let signed = sign_evm_message(&SignMessageRequest {
        private_key: KEY_ONE_HEX.to_string(),
        message: "marker".to_string(),
    })
    .unwrap();
    let verdict = verify_evm_message(&VerifyMessageRequest {
        signature: format!("0X{}", &signed.signature[2..]),
        message: "marker".to_string(),
        expected_address: signed.signer_address.clone(),
    })
    .unwrap();
    assert!(verdict.is_valid);
}

#[test]
fn recovery_matches_ethers() {
    let signed = sign_evm_message(&SignMessageRequest {
        private_key: KEY_ONE_HEX.to_string(),
        message: "cross-check".to_string(),
    })
    .unwrap();
    let sig: ethers_core::types::Signature = signed.signature.parse().unwrap();
    let recovered = sig.recover("cross-check").unwrap();
    assert_eq!(format!("{:?}", recovered), KEY_ONE_ADDRESS);
}
