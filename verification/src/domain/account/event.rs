//! What has happened to an account.

use crate::domain::props::{Amount, ClientId, TransactionId};
use vstd::prelude::*;

verus! {

/// An event of an account.
#[derive(Debug, PartialEq)]
pub enum AccountEvent {
    AccountDeposited(AccountDepositedPayload),
    AccountWithdrawn(AccountWithdrawnPayload),
    FundsDisputed(FundsDisputedPayload),
    DisputeResolved(DisputeResolvedPayload),
    DisputeChargedback(DisputeChargedbackPayload),
}

/// The account was credited.
#[derive(Debug, PartialEq)]
pub struct AccountDepositedPayload {
    pub client_id: ClientId,
    pub transaction_id: TransactionId,
    pub amount: Amount,
}

/// The account was debited.
#[derive(Debug, PartialEq)]
pub struct AccountWithdrawnPayload {
    pub client_id: ClientId,
    pub transaction_id: TransactionId,
    pub amount: Amount,
}

/// Funds were moved from available to held.
#[derive(Debug, PartialEq)]
pub struct FundsDisputedPayload {
    pub client_id: ClientId,
    pub transaction_id: TransactionId,
    pub amount: Amount,
}

/// Held funds were moved back to available.
#[derive(Debug, PartialEq)]
pub struct DisputeResolvedPayload {
    pub client_id: ClientId,
    pub transaction_id: TransactionId,
    pub amount: Amount,
}

/// Held funds were given up, and the account was locked.
#[derive(Debug, PartialEq)]
pub struct DisputeChargedbackPayload {
    pub client_id: ClientId,
    pub transaction_id: TransactionId,
    pub amount: Amount,
}

impl AccountEvent {
    /// The client whose account the event belongs to.
    pub open spec fn client_id(self) -> ClientId {
        match self {
            AccountEvent::AccountDeposited(p) => p.client_id,
            AccountEvent::AccountWithdrawn(p) => p.client_id,
            AccountEvent::FundsDisputed(p) => p.client_id,
            AccountEvent::DisputeResolved(p) => p.client_id,
            AccountEvent::DisputeChargedback(p) => p.client_id,
        }
    }

    /// The transaction the event is about.
    pub open spec fn transaction_id(self) -> TransactionId {
        match self {
            AccountEvent::AccountDeposited(p) => p.transaction_id,
            AccountEvent::AccountWithdrawn(p) => p.transaction_id,
            AccountEvent::FundsDisputed(p) => p.transaction_id,
            AccountEvent::DisputeResolved(p) => p.transaction_id,
            AccountEvent::DisputeChargedback(p) => p.transaction_id,
        }
    }

    /// The amount the event moves.
    pub open spec fn amount(self) -> Amount {
        match self {
            AccountEvent::AccountDeposited(p) => p.amount,
            AccountEvent::AccountWithdrawn(p) => p.amount,
            AccountEvent::FundsDisputed(p) => p.amount,
            AccountEvent::DisputeResolved(p) => p.amount,
            AccountEvent::DisputeChargedback(p) => p.amount,
        }
    }

    /// The name of the kind of event.
    pub fn event_type(&self) -> (r: String)
        ensures
            r@ == (match *self {
                AccountEvent::AccountDeposited(_) => "AccountDeposited"@,
                AccountEvent::AccountWithdrawn(_) => "AccountWithdrawn"@,
                AccountEvent::FundsDisputed(_) => "FundsDisputed"@,
                AccountEvent::DisputeResolved(_) => "DisputeResolved"@,
                AccountEvent::DisputeChargedback(_) => "DisputeChargedback"@,
            }),
    {
        let event_type: &str = match self {
            AccountEvent::AccountDeposited(_) => "AccountDeposited",
            AccountEvent::AccountWithdrawn(_) => "AccountWithdrawn",
            AccountEvent::FundsDisputed(_) => "FundsDisputed",
            AccountEvent::DisputeResolved(_) => "DisputeResolved",
            AccountEvent::DisputeChargedback(_) => "DisputeChargedback",
        };
        event_type.to_owned()
    }

    /// The version of the event's layout.
    pub fn event_version(&self) -> (r: String)
        ensures
            r@ == "1.0"@,
    {
        "1.0".to_owned()
    }
}

impl Clone for AccountDepositedPayload {
    fn clone(&self) -> (r: Self)
        ensures
            r == *self,
    {
        AccountDepositedPayload {
            client_id: self.client_id.clone(),
            transaction_id: self.transaction_id.clone(),
            amount: self.amount,
        }
    }
}

impl Clone for AccountWithdrawnPayload {
    fn clone(&self) -> (r: Self)
        ensures
            r == *self,
    {
        AccountWithdrawnPayload {
            client_id: self.client_id.clone(),
            transaction_id: self.transaction_id.clone(),
            amount: self.amount,
        }
    }
}

impl Clone for FundsDisputedPayload {
    fn clone(&self) -> (r: Self)
        ensures
            r == *self,
    {
        FundsDisputedPayload {
            client_id: self.client_id.clone(),
            transaction_id: self.transaction_id.clone(),
            amount: self.amount,
        }
    }
}

impl Clone for DisputeResolvedPayload {
    fn clone(&self) -> (r: Self)
        ensures
            r == *self,
    {
        DisputeResolvedPayload {
            client_id: self.client_id.clone(),
            transaction_id: self.transaction_id.clone(),
            amount: self.amount,
        }
    }
}

impl Clone for DisputeChargedbackPayload {
    fn clone(&self) -> (r: Self)
        ensures
            r == *self,
    {
        DisputeChargedbackPayload {
            client_id: self.client_id.clone(),
            transaction_id: self.transaction_id.clone(),
            amount: self.amount,
        }
    }
}

impl Clone for AccountEvent {
    fn clone(&self) -> (r: Self)
        ensures
            r == *self,
    {
        match self {
            AccountEvent::AccountDeposited(p) => AccountEvent::AccountDeposited(p.clone()),
            AccountEvent::AccountWithdrawn(p) => AccountEvent::AccountWithdrawn(p.clone()),
            AccountEvent::FundsDisputed(p) => AccountEvent::FundsDisputed(p.clone()),
            AccountEvent::DisputeResolved(p) => AccountEvent::DisputeResolved(p.clone()),
            AccountEvent::DisputeChargedback(p) => AccountEvent::DisputeChargedback(p.clone()),
        }
    }
}

} // verus!
