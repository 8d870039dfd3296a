//! What has happened to a transaction.

use crate::domain::props::{Amount, ClientId, TransactionId, TxType};
use vstd::prelude::*;

verus! {

/// An event of a transaction.
#[derive(Debug, PartialEq)]
pub enum TransactionEvent {
    TransactionRecorded(TransactionRecordedPayload),
}

/// A transaction as it was recorded. A fuller model would name both the
/// debited and the credited account.
#[derive(Debug, PartialEq)]
pub struct TransactionRecordedPayload {
    pub id: TransactionId,
    pub client_id: ClientId,
    pub amount: Amount,
    /// The kind of the transaction, where it is known.
    pub tx_type: Option<TxType>,
}

impl TransactionEvent {
    /// The name of the kind of event.
    pub fn event_type(&self) -> (r: String)
        ensures
            r@ == "TransactionRecorded"@,
    {
        let event_type: &str = match self {
            TransactionEvent::TransactionRecorded(_) => "TransactionRecorded",
        };
        event_type.to_owned()
    }

    /// The version of the event's layout.
    pub fn event_version(&self) -> (r: String)
        ensures
            r@ == "1.0"@,
    {
        "1.0".to_owned()
    }
}

impl Clone for TransactionRecordedPayload {
    fn clone(&self) -> (r: Self)
        ensures
            r == *self,
    {
        TransactionRecordedPayload {
            id: self.id.clone(),
            client_id: self.client_id.clone(),
            amount: self.amount,
            tx_type: self.tx_type,
        }
    }
}

impl Clone for TransactionEvent {
    fn clone(&self) -> (r: Self)
        ensures
            r == *self,
    {
        match self {
            TransactionEvent::TransactionRecorded(p) => TransactionEvent::TransactionRecorded(
                p.clone(),
            ),
        }
    }
}

} // verus!
