//! Why an account refuses a command.

use vstd::prelude::*;

verus! {

/// The guard of an account that a command failed.
#[derive(Debug, PartialEq, Eq, Clone, Copy, Structural)]
pub enum AccountError {
    /// A withdrawal or a dispute asks for more than is available.
    InsufficientFunds,
    /// The amount is not positive, or has more than four fractional digits.
    IllegalAmount,
    /// The account was locked by a chargeback.
    AccountLocked,
    /// No open dispute exists for the transaction.
    DisputeNotFound,
    /// The transaction is already under dispute.
    DuplicateDispute,
}

impl AccountError {
    /// The name of the error.
    pub fn to_text(&self) -> (r: String)
        ensures
            r@ == (match *self {
                AccountError::InsufficientFunds => "InsufficientFunds"@,
                AccountError::IllegalAmount => "IllegalAmount"@,
                AccountError::AccountLocked => "AccountLocked"@,
                AccountError::DisputeNotFound => "DisputeNotFound"@,
                AccountError::DuplicateDispute => "DuplicateDispute"@,
            }),
    {
        match self {
            AccountError::InsufficientFunds => "InsufficientFunds".to_owned(),
            AccountError::IllegalAmount => "IllegalAmount".to_owned(),
            AccountError::AccountLocked => "AccountLocked".to_owned(),
            AccountError::DisputeNotFound => "DisputeNotFound".to_owned(),
            AccountError::DuplicateDispute => "DuplicateDispute".to_owned(),
        }
    }
}

} // verus!
