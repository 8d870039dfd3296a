//! Why a transaction refuses a command.

use vstd::prelude::*;

verus! {

/// The guard of a transaction that a command failed.
#[derive(Debug, PartialEq, Eq, Clone, Copy, Structural)]
pub enum TransactionError {
    /// The transaction was recorded before.
    DuplicateTransaction,
}

impl TransactionError {
    /// The name of the error.
    pub fn to_text(&self) -> (r: String)
        ensures
            r@ == "DuplicateTransaction"@,
    {
        "DuplicateTransaction".to_owned()
    }
}

} // verus!
