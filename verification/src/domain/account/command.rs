//! What an account can be asked to do.

use crate::domain::props::{Amount, ClientId, TransactionId};
use vstd::prelude::*;

verus! {

/// A command to an account.
#[derive(Debug)]
pub enum AccountCommand {
    DepositAccount(DepositAccountPayload),
    WithdrawAccount(WithdrawAccountPayload),
    DisputeFunds(DisputeFundsPayload),
    ResolveDispute(ResolveDisputePayload),
    ChargebackDispute(ChargebackDisputePayload),
}

/// Credit the account with the amount of a transaction.
#[derive(Debug)]
pub struct DepositAccountPayload {
    pub client_id: ClientId,
    pub transaction_id: TransactionId,
    pub amount: Amount,
}

/// Debit the account with the amount of a transaction.
#[derive(Debug)]
pub struct WithdrawAccountPayload {
    pub client_id: ClientId,
    pub transaction_id: TransactionId,
    pub amount: Amount,
}

/// Hold the amount of a transaction until its dispute is settled.
#[derive(Debug)]
pub struct DisputeFundsPayload {
    pub client_id: ClientId,
    pub transaction_id: TransactionId,
    pub amount: Amount,
}

/// Settle a transaction's dispute for the client: release what is held.
#[derive(Debug)]
pub struct ResolveDisputePayload {
    pub client_id: ClientId,
    pub transaction_id: TransactionId,
}

/// Settle a transaction's dispute against the client: give up what is
/// held, and lock the account.
#[derive(Debug)]
pub struct ChargebackDisputePayload {
    pub client_id: ClientId,
    pub transaction_id: TransactionId,
}

impl Clone for DepositAccountPayload {
    fn clone(&self) -> (r: Self)
        ensures
            r == *self,
    {
        DepositAccountPayload {
            client_id: self.client_id.clone(),
            transaction_id: self.transaction_id.clone(),
            amount: self.amount,
        }
    }
}

impl Clone for WithdrawAccountPayload {
    fn clone(&self) -> (r: Self)
        ensures
            r == *self,
    {
        WithdrawAccountPayload {
            client_id: self.client_id.clone(),
            transaction_id: self.transaction_id.clone(),
            amount: self.amount,
        }
    }
}

impl Clone for DisputeFundsPayload {
    fn clone(&self) -> (r: Self)
        ensures
            r == *self,
    {
        DisputeFundsPayload {
            client_id: self.client_id.clone(),
            transaction_id: self.transaction_id.clone(),
            amount: self.amount,
        }
    }
}

impl Clone for ResolveDisputePayload {
    fn clone(&self) -> (r: Self)
        ensures
            r == *self,
    {
        ResolveDisputePayload {
            client_id: self.client_id.clone(),
            transaction_id: self.transaction_id.clone(),
        }
    }
}

impl Clone for ChargebackDisputePayload {
    fn clone(&self) -> (r: Self)
        ensures
            r == *self,
    {
        ChargebackDisputePayload {
            client_id: self.client_id.clone(),
            transaction_id: self.transaction_id.clone(),
        }
    }
}

impl Clone for AccountCommand {
    fn clone(&self) -> (r: Self)
        ensures
            r == *self,
    {
        match self {
            AccountCommand::DepositAccount(p) => AccountCommand::DepositAccount(p.clone()),
            AccountCommand::WithdrawAccount(p) => AccountCommand::WithdrawAccount(p.clone()),
            AccountCommand::DisputeFunds(p) => AccountCommand::DisputeFunds(p.clone()),
            AccountCommand::ResolveDispute(p) => AccountCommand::ResolveDispute(p.clone()),
            AccountCommand::ChargebackDispute(p) => AccountCommand::ChargebackDispute(p.clone()),
        }
    }
}

} // verus!
