//! What is exchanged with the external payment ledger.
use vstd::prelude::*;
use candid::{Nat, Principal};

verus! {

#[verifier::external_type_specification]
#[verifier::external_body]
pub struct ExNat(Nat);

/// Tokens paid for one confirmed submission.
pub const REWARD_AMOUNT: u64 = 10_000;

/// Why the ledger refused a transfer.
#[derive(Debug)]
pub enum TransferError {
    GenericError { message: String, error_code: Nat },
    TemporarilyUnavailable,
    Duplicate { duplicate_of: Nat },
    BadFee { expected_fee: Nat },
    CreatedInFuture { ledger_time: u64 },
    TooOld,
    InsufficientFunds { balance: Nat },
}

/// A transfer that a reward needs: `amount` tokens to `to`, the payout
/// address of `user_id`, who made submission `data_id`.
pub struct TransferRequest {
    pub data_id: u64,
    pub user_id: String,
    pub to: Principal,
    pub amount: u64,
}

} // verus!
