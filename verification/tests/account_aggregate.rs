use payments_toy_engine::domain::account::aggregate::{Account, AccountServices};
use payments_toy_engine::domain::account::command::{
    AccountCommand, ChargebackDisputePayload, DepositAccountPayload, DisputeFundsPayload,
    ResolveDisputePayload, WithdrawAccountPayload,
};
use payments_toy_engine::domain::account::error::AccountError;
use payments_toy_engine::domain::account::event::{
    AccountDepositedPayload, AccountEvent, AccountWithdrawnPayload, DisputeChargedbackPayload,
    DisputeResolvedPayload, FundsDisputedPayload,
};
use payments_toy_engine::domain::props::{Amount, ClientId, TransactionId};

fn dec(text: &str) -> Amount {
    Amount::parse(text).expect("a decimal number")
}

fn client(id: &str) -> ClientId {
    ClientId(id.to_owned())
}

fn tx(id: &str) -> TransactionId {
    TransactionId(id.to_owned())
}

fn deposited(tx_id: &str, amount: &str) -> AccountEvent {
    AccountEvent::AccountDeposited(AccountDepositedPayload {
        client_id: client("cl-1"),
        transaction_id: tx(tx_id),
        amount: dec(amount),
    })
}

fn withdrawn(tx_id: &str, amount: &str) -> AccountEvent {
    AccountEvent::AccountWithdrawn(AccountWithdrawnPayload {
        client_id: client("cl-1"),
        transaction_id: tx(tx_id),
        amount: dec(amount),
    })
}

fn disputed(tx_id: &str, amount: &str) -> AccountEvent {
    AccountEvent::FundsDisputed(FundsDisputedPayload {
        client_id: client("cl-1"),
        transaction_id: tx(tx_id),
        amount: dec(amount),
    })
}

fn resolved(tx_id: &str, amount: &str) -> AccountEvent {
    AccountEvent::DisputeResolved(DisputeResolvedPayload {
        client_id: client("cl-1"),
        transaction_id: tx(tx_id),
        amount: dec(amount),
    })
}

fn chargedback(tx_id: &str, amount: &str) -> AccountEvent {
    AccountEvent::DisputeChargedback(DisputeChargedbackPayload {
        client_id: client("cl-1"),
        transaction_id: tx(tx_id),
        amount: dec(amount),
    })
}

fn deposit(tx_id: &str, amount: &str) -> AccountCommand {
    AccountCommand::DepositAccount(DepositAccountPayload {
        client_id: client("cl-1"),
        transaction_id: tx(tx_id),
        amount: dec(amount),
    })
}

fn withdraw(tx_id: &str, amount: &str) -> AccountCommand {
    AccountCommand::WithdrawAccount(WithdrawAccountPayload {
        client_id: client("cl-1"),
        transaction_id: tx(tx_id),
        amount: dec(amount),
    })
}

fn dispute(tx_id: &str, amount: &str) -> AccountCommand {
    AccountCommand::DisputeFunds(DisputeFundsPayload {
        client_id: client("cl-1"),
        transaction_id: tx(tx_id),
        amount: dec(amount),
    })
}

fn resolve(tx_id: &str) -> AccountCommand {
    AccountCommand::ResolveDispute(ResolveDisputePayload {
        client_id: client("cl-1"),
        transaction_id: tx(tx_id),
    })
}

fn chargeback(tx_id: &str) -> AccountCommand {
    AccountCommand::ChargebackDispute(ChargebackDisputePayload {
        client_id: client("cl-1"),
        transaction_id: tx(tx_id),
    })
}

/// The account that a history of events leads to.
fn given(events: Vec<AccountEvent>) -> Account {
    Account::rehydrate(&events).expect("a history that can be replayed")
}

fn when(account: &Account, command: AccountCommand) -> Result<Vec<AccountEvent>, AccountError> {
    account.handle(command, &AccountServices {})
}

#[test]
fn test_deposit_fresh_account() {
    let account = given(vec![]);
    assert_eq!(
        when(&account, deposit("tx-1", "1.2345")),
        Ok(vec![deposited("tx-1", "1.2345")])
    );
}

#[test]
fn test_deposit_zero_amount() {
    let account = given(vec![]);
    assert_eq!(
        when(&account, deposit("tx-1", "0")),
        Err(AccountError::IllegalAmount)
    );
}

#[test]
fn test_deposit_overscale_amount() {
    let account = given(vec![]);
    assert_eq!(
        when(&account, deposit("tx-1", "0.12345")),
        Err(AccountError::IllegalAmount)
    );
}

#[test]
fn test_deposit_negative_amount() {
    let account = given(vec![]);
    assert_eq!(
        when(&account, deposit("tx-1", "-1.04")),
        Err(AccountError::IllegalAmount)
    );
}

#[test]
fn test_deposit_locked_account() {
    let account = given(vec![disputed("tx-1", "1.23"), chargedback("tx-1", "1.23")]);
    assert_eq!(
        when(&account, deposit("tx-1", "1.23")),
        Err(AccountError::AccountLocked)
    );
}

#[test]
fn test_withdraw_full_amount() {
    let account = given(vec![deposited("tx-1", "1.23")]);
    assert_eq!(
        when(&account, withdraw("tx-2", "1.23")),
        Ok(vec![withdrawn("tx-2", "1.23")])
    );
}

#[test]
fn test_withdraw_partial_amount() {
    let account = given(vec![deposited("tx-1", "1.23")]);
    assert_eq!(
        when(&account, withdraw("tx-2", "0.23")),
        Ok(vec![withdrawn("tx-2", "0.23")])
    );
}

#[test]
fn test_withdraw_insufficient_funds() {
    let account = given(vec![deposited("tx-1", "1.23")]);
    assert_eq!(
        when(&account, withdraw("tx-2", "1.2301")),
        Err(AccountError::InsufficientFunds)
    );
}

#[test]
fn test_withdraw_zero_amount() {
    let account = given(vec![]);
    assert_eq!(
        when(&account, withdraw("tx-1", "0")),
        Err(AccountError::IllegalAmount)
    );
}

#[test]
fn test_withdraw_negative_amount() {
    let account = given(vec![]);
    assert_eq!(
        when(&account, withdraw("tx-1", "-1.04")),
        Err(AccountError::IllegalAmount)
    );
}

#[test]
fn test_dispute_funds() {
    let account = given(vec![deposited("tx-1", "1.23")]);
    assert_eq!(
        when(&account, dispute("tx-1", "1.0")),
        Ok(vec![disputed("tx-1", "1.0")])
    );
}

#[test]
fn test_dispute_insufficient_funds() {
    let account = given(vec![deposited("tx-1", "1.23")]);
    assert_eq!(
        when(&account, dispute("tx-2", "1.2302")),
        Err(AccountError::InsufficientFunds)
    );
}

#[test]
fn test_dispute_duplicate() {
    let account = given(vec![deposited("tx-1", "1.23"), disputed("tx-1", "1.0")]);
    assert_eq!(
        when(&account, dispute("tx-1", "0.23")),
        Err(AccountError::DuplicateDispute)
    );
}

#[test]
fn test_resolve_dispute() {
    let account = given(vec![deposited("tx-1", "1.23"), disputed("tx-1", "1.0")]);
    assert_eq!(
        when(&account, resolve("tx-1")),
        Ok(vec![resolved("tx-1", "1.0")])
    );
}

#[test]
fn test_resolve_dispute_tx_not_found() {
    let account = given(vec![deposited("tx-1", "1.23"), disputed("tx-1", "1.0")]);
    assert_eq!(
        when(&account, resolve("tx-2")),
        Err(AccountError::DisputeNotFound)
    );
}

#[test]
fn test_resolve_dispute_account_locked() {
    let account = given(vec![
        deposited("tx-1", "1.23"),
        deposited("tx-2", "1.0"),
        disputed("tx-1", "1.23"),
        disputed("tx-2", "1.0"),
        chargedback("tx-1", "1.23"),
    ]);
    assert_eq!(
        when(&account, resolve("tx-2")),
        Err(AccountError::AccountLocked)
    );
}

#[test]
fn test_chargeback_dispute() {
    let account = given(vec![deposited("tx-1", "1.23"), disputed("tx-1", "1.0")]);
    assert_eq!(
        when(&account, chargeback("tx-1")),
        Ok(vec![chargedback("tx-1", "1.0")])
    );
}

#[test]
fn test_chargeback_dispute_tx_not_found() {
    let account = given(vec![deposited("tx-1", "1.23"), disputed("tx-1", "1.0")]);
    assert_eq!(
        when(&account, chargeback("tx-2")),
        Err(AccountError::DisputeNotFound)
    );
}

#[test]
fn test_apply_follows_the_events() {
    let mut account = Account::default();
    for event in [
        deposited("tx-1", "1.23"),
        deposited("tx-2", "2.0"),
        disputed("tx-1", "1.23"),
        withdrawn("tx-3", "0.5"),
    ] {
        assert!(account.accepts(&event));
        account.apply(event);
    }
    assert_eq!(account.funds_available().to_text(), "1.50");
    assert_eq!(account.funds_held().to_text(), "1.23");
    assert!(!account.is_locked());
    account.apply(resolved("tx-1", "1.23"));
    assert_eq!(account.funds_available().to_text(), "2.73");
    assert_eq!(account.funds_held().to_text(), "0.00");
    account.apply(disputed("tx-2", "2.0"));
    account.apply(chargedback("tx-2", "2.0"));
    assert_eq!(account.funds_available().to_text(), "0.73");
    // Held was 0.00, then 2.0 as the sum with zero, then 2.0 - 2.0.
    assert_eq!(account.funds_held().to_text(), "0.0");
    assert!(account.is_locked());
}

#[test]
fn test_rehydrate_refuses_what_cannot_be_replayed() {
    let max = "79228162514264337593543950335";
    assert!(Account::rehydrate(&vec![deposited("tx-1", max)]).is_some());
    assert!(Account::rehydrate(&vec![deposited("tx-1", max), deposited("tx-2", "1")]).is_none());
    let fresh = Account::rehydrate(&vec![]).expect("a fresh account");
    assert!(!fresh.is_locked());
    assert_eq!(fresh.funds_available().to_text(), "0");
}

#[test]
fn test_second_dispute_event_replaces_the_first() {
    let account = given(vec![
        deposited("tx-1", "5.0"),
        disputed("tx-1", "1.0"),
        disputed("tx-1", "2.0"),
    ]);
    assert_eq!(
        when(&account, resolve("tx-1")),
        Ok(vec![resolved("tx-1", "2.0")])
    );
}

#[test]
fn test_account_names() {
    assert_eq!(Account::aggregate_type(), "Account");
    assert_eq!(deposited("tx-1", "1").event_type(), "AccountDeposited");
    assert_eq!(withdrawn("tx-1", "1").event_type(), "AccountWithdrawn");
    assert_eq!(disputed("tx-1", "1").event_type(), "FundsDisputed");
    assert_eq!(resolved("tx-1", "1").event_type(), "DisputeResolved");
    assert_eq!(chargedback("tx-1", "1").event_type(), "DisputeChargedback");
    assert_eq!(deposited("tx-1", "1").event_version(), "1.0");
    assert_eq!(AccountError::InsufficientFunds.to_text(), "InsufficientFunds");
    assert_eq!(AccountError::IllegalAmount.to_text(), "IllegalAmount");
    assert_eq!(AccountError::AccountLocked.to_text(), "AccountLocked");
    assert_eq!(AccountError::DisputeNotFound.to_text(), "DisputeNotFound");
    assert_eq!(AccountError::DuplicateDispute.to_text(), "DuplicateDispute");
}

#[test]
fn test_dispute_is_open_until_it_is_settled() {
    let account = given(vec![deposited("tx-1", "5.0"), deposited("tx-2", "3.0")]);
    assert_eq!(account.open_dispute(&tx("tx-1")), None);

    let account = given(vec![
        deposited("tx-1", "5.0"),
        deposited("tx-2", "3.0"),
        disputed("tx-1", "5.0"),
        disputed("tx-2", "3.0"),
    ]);
    assert_eq!(account.open_dispute(&tx("tx-1")), Some(dec("5.0")));
    assert_eq!(account.open_dispute(&tx("tx-2")), Some(dec("3.0")));
    assert_eq!(account.open_dispute(&tx("tx-3")), None);

    let account = given(vec![
        deposited("tx-1", "5.0"),
        deposited("tx-2", "3.0"),
        disputed("tx-1", "5.0"),
        disputed("tx-2", "3.0"),
        resolved("tx-1", "5.0"),
    ]);
    assert_eq!(account.open_dispute(&tx("tx-1")), None);
    assert_eq!(account.open_dispute(&tx("tx-2")), Some(dec("3.0")));
}

#[test]
fn test_chargeback_closes_the_dispute() {
    let mut account = given(vec![
        deposited("tx-1", "5.0"),
        deposited("tx-2", "3.0"),
        disputed("tx-1", "5.0"),
        disputed("tx-2", "3.0"),
    ]);
    assert!(account.accepts(&chargedback("tx-1", "5.0")));
    account.apply(chargedback("tx-1", "5.0"));
    assert!(account.is_locked());
    // The charged-back dispute is closed; the other one is still open,
    // and held funds are what it holds.
    assert_eq!(account.open_dispute(&tx("tx-1")), None);
    assert_eq!(account.open_dispute(&tx("tx-2")), Some(dec("3.0")));
    assert_eq!(account.funds_held(), dec("3.0"));
    assert_eq!(account.funds_available(), dec("0"));
}
