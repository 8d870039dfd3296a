use payments_toy_engine::csv::CsvPaymentRecord;
use payments_toy_engine::domain::account::aggregate::{Account, AccountServices};
use payments_toy_engine::domain::account::command::{
    AccountCommand, ChargebackDisputePayload, DepositAccountPayload, DisputeFundsPayload,
    ResolveDisputePayload, WithdrawAccountPayload,
};
use payments_toy_engine::domain::account::error::AccountError;
use payments_toy_engine::domain::account::event::AccountEvent;
use payments_toy_engine::domain::props::{Amount, ClientId, TransactionId};
use payments_toy_engine::domain::transaction::error::TransactionError;
use payments_toy_engine::payments::{PaymentError, Payments};
use payments_toy_engine::query::account::AccountView;
use payments_toy_engine::runner::process;

fn num(text: &str) -> Amount {
    Amount::parse(text).expect("a decimal number")
}

fn line(row: &str) -> CsvPaymentRecord {
    let fields: Vec<String> = row.split(',').map(|f| f.trim().to_owned()).collect();
    CsvPaymentRecord::from_fields(&fields).expect("a record")
}

fn mixed_input() -> Vec<CsvPaymentRecord> {
    [
        "deposit, 1, 1, 10.0",
        "deposit, 2, 2, 4.25",
        "withdrawal, 1, 3, 2.5",
        "dispute, 1, 1,",
        "deposit, 1, 4, 20.125",
        "dispute, 1, 1,",
        "dispute, 1, 4,",
        "resolve, 1, 1,",
        "withdrawal, 2, 5, 4.2501",
        "deposit, 3, 6, 0.0001",
        "dispute, 3, 6,",
        "chargeback, 3, 6,",
        "deposit, 3, 7, 1.0",
        "dispute, 2, 2,",
        "resolve, 2, 2,",
        "dispute, 2, 2,",
        "deposit, 1, 8, 7",
        "dispute, 1, 8,",
    ]
    .iter()
    .map(|row| line(row))
    .collect()
}

fn assert_balanced(row: &AccountView) {
    let sum = row
        .available_funds
        .checked_add(&row.held_funds)
        .expect("the sum of available and held funds");
    assert_eq!(row.total_funds, sum);
    assert!(!row.held_funds.less_than(&Amount::zero()));
    assert!(!row.available_funds.less_than(&Amount::zero()));
}

fn sorted_records(rows: &[AccountView]) -> Vec<Vec<String>> {
    let mut records: Vec<Vec<String>> = rows.iter().map(|row| row.to_record()).collect();
    records.sort();
    records
}

#[test]
fn total_is_available_plus_held_after_every_record() {
    let input = mixed_input();
    let mut payments = Payments::new();
    for record in input {
        let _ = payments.handle(record);
        for row in payments.accounts() {
            assert_balanced(&row);
        }
    }
    let rows = payments.accounts();
    assert_eq!(
        sorted_records(&rows),
        vec![
            vec!["1", "27.625", "7", "34.625", "false"],
            vec!["2", "0.00", "4.25", "4.25", "false"],
            vec!["3", "0.0000", "0.0000", "0.0000", "true"],
        ]
    );
}

#[test]
fn transaction_is_recorded_by_its_first_record_only() {
    let mut payments = Payments::new();
    assert!(!payments.load_transaction("1").is_recorded());
    assert_eq!(payments.handle(line("dispute, 1, 1,")), Err(PaymentError::UnknownTransaction));
    assert_eq!(payments.handle(line("deposit, 1, 1,")), Err(PaymentError::MissingAmount));
    // Neither of the two records above has recorded the transaction.
    assert!(!payments.load_transaction("1").is_recorded());
    assert_eq!(payments.handle(line("deposit, 1, 1, 1.0")), Ok(()));
    assert!(payments.load_transaction("1").is_recorded());
    for row in ["deposit, 1, 1, 1.0", "withdrawal, 1, 1, 1.0", "deposit, 2, 1, 5"] {
        assert_eq!(
            payments.handle(line(row)),
            Err(PaymentError::Transaction(TransactionError::DuplicateTransaction))
        );
        assert!(payments.load_transaction("1").is_recorded());
    }
    assert!(!payments.load_transaction("2").is_recorded());
}

#[test]
fn account_events_stand_in_the_order_of_the_records() {
    let input = mixed_input();
    let mut payments = Payments::new();
    let mut seen: Vec<AccountEvent> = Vec::new();
    for record in input {
        let _ = payments.handle(record);
        let events = payments.account_events("1");
        assert!(events.len() == seen.len() || events.len() == seen.len() + 1);
        assert_eq!(&events[..seen.len()], &seen[..]);
        seen = events;
    }
    let order: Vec<(String, String)> = seen
        .iter()
        .map(|e| match e {
            AccountEvent::AccountDeposited(p) => (e.event_type(), p.transaction_id.0.clone()),
            AccountEvent::AccountWithdrawn(p) => (e.event_type(), p.transaction_id.0.clone()),
            AccountEvent::FundsDisputed(p) => (e.event_type(), p.transaction_id.0.clone()),
            AccountEvent::DisputeResolved(p) => (e.event_type(), p.transaction_id.0.clone()),
            AccountEvent::DisputeChargedback(p) => (e.event_type(), p.transaction_id.0.clone()),
        })
        .collect();
    let expected: Vec<(String, String)> = [
        ("AccountDeposited", "1"),
        ("AccountWithdrawn", "3"),
        ("AccountDeposited", "4"),
        ("FundsDisputed", "1"),
        ("DisputeResolved", "1"),
        ("AccountDeposited", "8"),
        ("FundsDisputed", "8"),
    ]
    .iter()
    .map(|(kind, tx)| (kind.to_string(), tx.to_string()))
    .collect();
    assert_eq!(order, expected);
}

#[test]
fn a_row_read_twice_in_a_row_counts_once() {
    let input = mixed_input();
    let expected = sorted_records(&process(&input, 3));
    for at in 0..input.len() {
        let mut doubled = input.clone();
        doubled.insert(at, input[at].clone());
        assert_eq!(sorted_records(&process(&doubled, 3)), expected, "row {} doubled", at);
        assert_eq!(sorted_records(&process(&doubled, 1)), expected, "row {} doubled", at);
    }
}

#[test]
fn a_doubled_deposit_counts_once_wherever_it_stands() {
    let input = mixed_input();
    let expected = sorted_records(&process(&input, 2));
    for from in [0usize, 1, 2, 4, 9, 16] {
        for to in (from + 1)..=input.len() {
            let mut doubled = input.clone();
            doubled.insert(to, input[from].clone());
            assert_eq!(sorted_records(&process(&doubled, 2)), expected);
        }
    }
}

#[test]
fn a_doubled_dispute_counts_twice_once_it_was_resolved() {
    let once = ["deposit, 1, 1, 5", "dispute, 1, 1,", "resolve, 1, 1,"];
    let twice = ["deposit, 1, 1, 5", "dispute, 1, 1,", "resolve, 1, 1,", "dispute, 1, 1,"];
    let once: Vec<CsvPaymentRecord> = once.iter().map(|row| line(row)).collect();
    let twice: Vec<CsvPaymentRecord> = twice.iter().map(|row| line(row)).collect();
    assert_eq!(process(&once, 1)[0].held_funds, num("0"));
    assert_eq!(process(&twice, 1)[0].held_funds, num("5"));
}

#[test]
fn locked_account_takes_no_further_event() {
    let mut payments = Payments::new();
    for row in [
        "deposit, 1, 1, 5.0",
        "deposit, 1, 2, 3.0",
        "dispute, 1, 1,",
        "dispute, 1, 2,",
        "chargeback, 1, 1,",
    ] {
        assert_eq!(payments.handle(line(row)), Ok(()));
    }
    assert!(payments.load_account("1").is_locked());
    let before = payments.account_events("1");
    assert_eq!(before.len(), 5);
    for row in [
        "deposit, 1, 3, 1.0",
        "withdrawal, 1, 4, 1.0",
        "dispute, 1, 3,",
        "resolve, 1, 2,",
        "chargeback, 1, 2,",
        "resolve, 1, 1,",
    ] {
        let _ = payments.handle(line(row));
        assert_eq!(payments.account_events("1"), before);
        assert!(payments.load_account("1").is_locked());
    }
    let rows = payments.accounts();
    assert_eq!(rows[0].to_record(), vec!["1", "0.0", "3.0", "3.0", "true"]);
}

#[test]
fn locked_account_refuses_every_command() {
    let mut payments = Payments::new();
    for row in [
        "deposit, 1, 1, 5.0",
        "deposit, 1, 2, 3.0",
        "dispute, 1, 1,",
        "dispute, 1, 2,",
        "chargeback, 1, 1,",
    ] {
        assert_eq!(payments.handle(line(row)), Ok(()));
    }
    let account: Account = payments.load_account("1");
    let client = || ClientId("1".to_owned());
    let tx = |id: &str| TransactionId(id.to_owned());
    let commands = vec![
        AccountCommand::DepositAccount(DepositAccountPayload {
            client_id: client(),
            transaction_id: tx("9"),
            amount: num("1.0"),
        }),
        AccountCommand::WithdrawAccount(WithdrawAccountPayload {
            client_id: client(),
            transaction_id: tx("9"),
            amount: num("1.0"),
        }),
        AccountCommand::DisputeFunds(DisputeFundsPayload {
            client_id: client(),
            transaction_id: tx("9"),
            amount: num("1.0"),
        }),
        AccountCommand::ResolveDispute(ResolveDisputePayload {
            client_id: client(),
            transaction_id: tx("2"),
        }),
        AccountCommand::ChargebackDispute(ChargebackDisputePayload {
            client_id: client(),
            transaction_id: tx("2"),
        }),
    ];
    for command in commands {
        assert_eq!(
            account.handle(command, &AccountServices {}),
            Err(AccountError::AccountLocked)
        );
    }
    // The amount is looked at before the lock.
    assert_eq!(
        account.handle(
            AccountCommand::DepositAccount(DepositAccountPayload {
                client_id: client(),
                transaction_id: tx("9"),
                amount: num("0"),
            }),
            &AccountServices {}
        ),
        Err(AccountError::IllegalAmount)
    );
}

#[test]
fn table_does_not_depend_on_the_number_of_workers() {
    let input = mixed_input();
    let expected = sorted_records(&process(&input, 1));
    for workers in [2u32, 3, 5, 16] {
        assert_eq!(sorted_records(&process(&input, workers)), expected);
    }
}
