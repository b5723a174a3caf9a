//! The ether-transfer endpoint's decisions: validating the sender key, the
//! recipient address and the amount, refusing non-positive amounts and
//! insufficient balances, and shaping the (simulated) success response. The
//! balance itself comes from a chain node, so the HTTP layer fetches it and
//! hands it in as a plain number.

use vstd::prelude::*;
use vstd::string::StringExecFns;
use vstd::string::StringSliceAdditionalSpecFns;
use vstd::utf8::encode_utf8;

use crate::crypto::{addr_of_key, ascii_to_string, derive_address, key_in_range};
use crate::errors::EvmError;
use crate::hexdata::{ascii_chars, hex_chars_0x, hex_string_0x};
use crate::keys::{parse_private_key, parsed_private_key};
use crate::models::{SendEtherRequest, SendEtherResponse};
use crate::numbers::{
    amount_is_zero, amount_negative, amount_wei, amount_well_formed, dec_digits, eth_decimal,
    format_eth, lemma_dec_digits_ascii, lemma_pow10_18, parse_amount, pow10, sat_u128,
    ParsedAmount,
};
use crate::verifying::{parse_address, parsed_address};

verus! {

/// A transfer that passed validation: the sender's derived address, the
/// recipient, and the amount in wei.
#[derive(Debug)]
pub struct TransferPlan {
    pub from_address: Vec<u8>,
    pub to_address: Vec<u8>,
    pub amount_wei: u128,
}

impl TransferPlan {
    /// Both addresses are 20 bytes.
    pub open spec fn wf(self) -> bool {
        self.from_address@.len() == 20 && self.to_address@.len() == 20
    }
}

/// The outcome of validation: a plan to carry out, or a refusal response
/// (a well-formed answer with `success == false`, not an error).
#[derive(Debug)]
pub enum TransferValidation {
    Proceed(TransferPlan),
    Refuse(SendEtherResponse),
}

/// Whether the request's sender key is well-formed hex and a valid scalar.
pub open spec fn transfer_key_ok(req: SendEtherRequest) -> bool {
    match parsed_private_key(encode_utf8(req.from_private_key@)) {
        Some(k) => key_in_range(k),
        None => false,
    }
}

/// The key bytes of a request whose key is well-formed.
pub open spec fn transfer_key(req: SendEtherRequest) -> Seq<u8> {
    parsed_private_key(encode_utf8(req.from_private_key@))->Some_0
}

/// Validate a transfer request: the key must parse and be a valid scalar,
/// the recipient must be a 20-byte hex address, and the amount a decimal
/// number. A zero or negative amount is refused with a plain response.
pub fn validate_transfer(req: &SendEtherRequest) -> (r: Result<TransferValidation, EvmError>)
    ensures
        (r is Err && r->Err_0 == EvmError::InvalidPrivateKey) <==> !transfer_key_ok(*req),
        transfer_key_ok(*req) ==> ((r is Err && r->Err_0 == EvmError::InvalidRecipient)
            <==> parsed_address(encode_utf8(req.to_address@)) is None),
        (transfer_key_ok(*req) && parsed_address(encode_utf8(req.to_address@)) is Some) ==> ((
        r is Err && r->Err_0 == EvmError::InvalidAmount) <==> !amount_well_formed(
            encode_utf8(req.amount_eth@),
        )),
        r is Err ==> (r->Err_0 == EvmError::InvalidPrivateKey || r->Err_0
            == EvmError::InvalidRecipient || r->Err_0 == EvmError::InvalidAmount),
        r matches Ok(TransferValidation::Refuse(resp)) ==> (amount_well_formed(
            encode_utf8(req.amount_eth@),
        ) && (amount_negative(encode_utf8(req.amount_eth@)) || amount_is_zero(
            encode_utf8(req.amount_eth@),
        )) && resp.success == false && resp.transaction_hash@ == Seq::<char>::empty()
            && resp.message@ == "Amount must be greater than 0"@),
        r matches Ok(TransferValidation::Proceed(plan)) ==> (plan.wf() && plan.from_address@
            == addr_of_key(transfer_key(*req)) && plan.to_address@ == parsed_address(
            encode_utf8(req.to_address@),
        )->Some_0 && plan.amount_wei == sat_u128(amount_wei(encode_utf8(req.amount_eth@)))
            && amount_well_formed(encode_utf8(req.amount_eth@)) && !amount_negative(
            encode_utf8(req.amount_eth@),
        ) && !amount_is_zero(encode_utf8(req.amount_eth@))),
        r is Ok <==> (transfer_key_ok(*req) && parsed_address(encode_utf8(req.to_address@)) is Some
            && amount_well_formed(encode_utf8(req.amount_eth@))),
{
    let key = match parse_private_key(req.from_private_key.as_str()) {
        Some(k) => k,
        None => {
            return Err(EvmError::InvalidPrivateKey);
        },
    };
    let from_address = match derive_address(key.as_slice()) {
        Some(a) => a,
        None => {
            return Err(EvmError::InvalidPrivateKey);
        },
    };
    let to_address = match parse_address(req.to_address.as_str()) {
        Some(a) => a,
        None => {
            return Err(EvmError::InvalidRecipient);
        },
    };
    match parse_amount(req.amount_eth.as_str().as_bytes()) {
        ParsedAmount::Invalid => Err(EvmError::InvalidAmount),
        ParsedAmount::NotPositive => Ok(
            TransferValidation::Refuse(
                SendEtherResponse {
                    transaction_hash: String::new(),
                    success: false,
                    message: "Amount must be greater than 0".to_owned(),
                },
            ),
        ),
        ParsedAmount::Wei(amount_wei) => Ok(
            TransferValidation::Proceed(
                TransferPlan { from_address, to_address, amount_wei },
            ),
        ),
    }
}

/// The refusal text for a balance that cannot cover the amount, both
/// written in ether.
pub open spec fn insufficient_message(balance_wei: nat, amount_wei: nat) -> Seq<char> {
    "Insufficient balance. Available: "@ + ascii_chars(eth_decimal(balance_wei))
        + " ETH, Required: "@ + ascii_chars(eth_decimal(amount_wei)) + " ETH"@
}

/// Every byte of an ether rendering is ASCII.
proof fn lemma_eth_decimal_ascii(wei: nat)
    ensures
        forall|i: int| 0 <= i < eth_decimal(wei).len() ==> #[trigger] eth_decimal(wei)[i] < 128,
{
    lemma_pow10_18();
    let ip = dec_digits(wei / pow10(18));
    let fd = dec_digits(wei % pow10(18));
    let padded = Seq::new((18 - fd.len()) as nat, |i: int| 48u8) + fd;
    let f = crate::numbers::trim_trailing_zeros(padded);
    lemma_dec_digits_ascii(wei / pow10(18));
    lemma_dec_digits_ascii(wei % pow10(18));
    assert(forall|i: int| 0 <= i < padded.len() ==> #[trigger] padded[i] < 128);
    lemma_trim_is_prefix(padded);
    assert(forall|i: int| 0 <= i < f.len() ==> #[trigger] f[i] < 128);
}

/// Trimming trailing zeros leaves a prefix.
proof fn lemma_trim_is_prefix(s: Seq<u8>)
    ensures
        crate::numbers::trim_trailing_zeros(s).len() <= s.len(),
        forall|i: int| 0 <= i < crate::numbers::trim_trailing_zeros(s).len()
            ==> #[trigger] crate::numbers::trim_trailing_zeros(s)[i] == s[i],
    decreases s.len(),
{
    if s.len() > 0 && s.last() == 48 {
        lemma_trim_is_prefix(s.drop_last());
    }
}

/// Refuse a transfer whose balance cannot cover the amount; `None` when the
/// balance suffices.
pub fn insufficient_balance_response(plan: &TransferPlan, balance_wei: u128) -> (r: Option<
    SendEtherResponse,
>)
    ensures
        r is Some <==> balance_wei < plan.amount_wei,
        r matches Some(resp) ==> (resp.success == false && resp.transaction_hash@ == Seq::<
            char,
        >::empty() && resp.message@ == insufficient_message(
            balance_wei as nat,
            plan.amount_wei as nat,
        )),
{
    if balance_wei >= plan.amount_wei {
        return None;
    }
    proof {
        lemma_eth_decimal_ascii(balance_wei as nat);
        lemma_eth_decimal_ascii(plan.amount_wei as nat);
    }
    let balance_text = ascii_to_string(format_eth(balance_wei));
    let amount_text = ascii_to_string(format_eth(plan.amount_wei));
    let mut message = "Insufficient balance. Available: ".to_owned();
    message.append(balance_text.as_str());
    message.append(" ETH, Required: ");
    message.append(amount_text.as_str());
    message.append(" ETH");
    Some(
        SendEtherResponse { transaction_hash: String::new(), success: false, message },
    )
}

/// The 32 bytes of the simulated transaction hash: 24 zero bytes, then the
/// drawn value big-endian.
pub open spec fn mock_hash_bytes(x: u64) -> Seq<u8> {
    Seq::new(24, |i: int| 0u8) + crate::numbers::be_bytes8(x)
}

/// The success response for a simulated transfer with the given drawn
/// value.
pub fn transfer_success_response(entropy: u64) -> (r: SendEtherResponse)
    ensures
        r.success == true,
        r.message@ == "Transaction sent successfully"@,
        r.transaction_hash@ == hex_chars_0x(mock_hash_bytes(entropy)),
{
    let mut bytes: Vec<u8> = Vec::new();
    let mut i: usize = 0;
    while i < 24
        invariant
            i <= 24,
            bytes@ =~= Seq::new(i as nat, |j: int| 0u8),
        decreases 24 - i,
    {
        bytes.push(0);
        proof {
            assert(bytes@ =~= Seq::new(i as nat + 1, |j: int| 0u8));
        }
        i = i + 1;
    }
    let mut tail = crate::numbers::u64_be_bytes(entropy);
    bytes.append(&mut tail);
    proof {
        assert(bytes@ =~= mock_hash_bytes(entropy));
    }
    SendEtherResponse {
        transaction_hash: hex_string_0x(bytes.as_slice()),
        success: true,
        message: "Transaction sent successfully".to_owned(),
    }
}

/// Simulate the transfer itself: no transaction is broadcast; the reported
/// hash is drawn at random, as the service stands in for a real node.
pub fn send_mock_transfer() -> (r: SendEtherResponse)
    ensures
        r.success == true,
        r.message@ == "Transaction sent successfully"@,
        exists|x: u64| r.transaction_hash@ == hex_chars_0x(#[trigger] mock_hash_bytes(x)),
{
    let x: u64 = rand::random();
    let r = transfer_success_response(x);
    proof {
        assert(r.transaction_hash@ == hex_chars_0x(mock_hash_bytes(x)));
    }
    r
}

} // verus!
