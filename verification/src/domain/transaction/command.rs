//! What a transaction can be asked to do.

use crate::domain::props::{Amount, ClientId, TransactionId, TxType};
use vstd::prelude::*;

verus! {

/// A command to a transaction.
#[derive(Debug)]
pub enum TransactionCommand {
    RecordTransaction(RecordTransactionPayload),
}

/// Record the transaction with its client and amount.
#[derive(Debug)]
pub struct RecordTransactionPayload {
    pub id: TransactionId,
    pub client_id: ClientId,
    pub amount: Amount,
    /// The kind of the transaction, where it is known.
    pub tx_type: Option<TxType>,
}

impl Clone for RecordTransactionPayload {
    fn clone(&self) -> (r: Self)
        ensures
            r == *self,
    {
        RecordTransactionPayload {
            id: self.id.clone(),
            client_id: self.client_id.clone(),
            amount: self.amount,
            tx_type: self.tx_type,
        }
    }
}

impl Clone for TransactionCommand {
    fn clone(&self) -> (r: Self)
        ensures
            r == *self,
    {
        match self {
            TransactionCommand::RecordTransaction(p) => TransactionCommand::RecordTransaction(
                p.clone(),
            ),
        }
    }
}

} // verus!
