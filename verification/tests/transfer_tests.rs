use evm_backend::errors::EvmError;
use evm_backend::models::SendEtherRequest;
use evm_backend::transfer::{
    insufficient_balance_response, send_mock_transfer, transfer_success_response,
    validate_transfer, TransferPlan, TransferValidation,
};

const KEY_ONE_HEX: &str = "0x0000000000000000000000000000000000000000000000000000000000000001";
const RECIPIENT: &str = "0x000102030405060708090a0b0c0d0e0f10111213";

fn request(amount: &str) -> SendEtherRequest {
    SendEtherRequest {
        from_private_key: KEY_ONE_HEX.to_string(),
        to_address: RECIPIENT.to_string(),
        amount_eth: amount.to_string(),
        rpc_url: None,
    }
}

#[test]
fn zero_amount_is_refused_not_an_error() {
    match validate_transfer(&request("0")).unwrap() {
        TransferValidation::Refuse(resp) => {
            assert!(!resp.success);
            assert_eq!(resp.transaction_hash, "");
            assert_eq!(resp.message, "Amount must be greater than 0");
        }
        TransferValidation::Proceed(_) => panic!("zero amount must be refused"),
    }
}

#[test]
fn negative_amount_is_refused_not_an_error() {
    match validate_transfer(&request("-1.5")).unwrap() {
        TransferValidation::Refuse(resp) => {
            assert!(!resp.success);
            assert_eq!(resp.message, "Amount must be greater than 0");
        }
        TransferValidation::Proceed(_) => panic!("negative amount must be refused"),
    }
}

#[test]
fn unparseable_amount_is_an_error() {
    let err = validate_transfer(&request("abc")).unwrap_err();
    assert_eq!(err, EvmError::InvalidAmount);
    assert_eq!(err.message(), "Invalid amount format");
}

#[test]
fn fractional_amount_converts_to_wei() {
    match validate_transfer(&request("1.5")).unwrap() {
        TransferValidation::Proceed(plan) => {
            assert_eq!(plan.amount_wei, 1_500_000_000_000_000_000u128);
            assert_eq!(plan.to_address.len(), 20);
            assert_eq!(plan.from_address.len(), 20);
            assert_eq!(
                plan.to_address,
                vec![0, 1, 2, 3, 4, 5, 6, 7, 8, 9, 10, 11, 12, 13, 14, 15, 16, 17, 18, 19]
            );
        }
        TransferValidation::Refuse(_) => panic!("positive amount must proceed"),
    }
}

#[test]
fn bad_recipient_is_an_error() {
    let mut req = request("1");
    req.to_address = "0x12".to_string();
    let err = validate_transfer(&req).unwrap_err();
    assert_eq!(err, EvmError::InvalidRecipient);
    assert_eq!(err.message(), "Invalid recipient address");
}

#[test]
fn bad_key_is_an_error_for_transfer() {
    let mut req = request("1");
    req.from_private_key = "nonsense".to_string();
    let err = validate_transfer(&req).unwrap_err();
    assert_eq!(err, EvmError::InvalidPrivateKey);
}

fn plan_with_amount(amount_wei: u128) -> TransferPlan {
    match validate_transfer(&request("1")).unwrap() {
        TransferValidation::Proceed(mut plan) => {
            plan.amount_wei = amount_wei;
            plan
        }
        TransferValidation::Refuse(_) => panic!("plan expected"),
    }
}

#[test]
fn insufficient_balance_is_refused_with_amounts() {
    let plan = plan_with_amount(1_500_000_000_000_000_000);
    let resp = insufficient_balance_response(&plan, 500_000_000_000_000_000).unwrap();
    assert!(!resp.success);
    assert_eq!(resp.transaction_hash, "");
    assert_eq!(
        resp.message,
        "Insufficient balance. Available: 0.5 ETH, Required: 1.5 ETH"
    );
}

#[test]
fn sufficient_balance_is_not_refused() {
    let plan = plan_with_amount(1_000_000_000_000_000_000);
    assert!(insufficient_balance_response(&plan, 1_000_000_000_000_000_000).is_none());
}

#[test]
fn success_response_formats_the_drawn_hash() {
    let resp = transfer_success_response(1);
    assert!(resp.success);
    assert_eq!(resp.message, "Transaction sent successfully");
    assert_eq!(resp.transaction_hash, format!("0x{:064x}", 1u64));
    let resp2 = transfer_success_response(0xdeadbeef);
    assert_eq!(resp2.transaction_hash, format!("0x{:064x}", 0xdeadbeefu64));
}

#[test]
fn mock_transfer_reports_success() {
    let resp = send_mock_transfer();
    assert!(resp.success);
    assert_eq!(resp.message, "Transaction sent successfully");
    assert_eq!(resp.transaction_hash.len(), 66);
    assert!(resp.transaction_hash.starts_with("0x"));
}

#[test]
fn error_messages_are_exact() {
    assert_eq!(
        EvmError::RecoveryFailed.message(),
        "Failed to recover address from signature"
    );
    assert_eq!(EvmError::SigningFailed.message(), "Failed to sign message");
}
