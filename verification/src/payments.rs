//! The payments orchestrator: it turns each input record into commands on
//! the transaction and account aggregates, and keeps their events.
//!
//! A deposit or withdrawal is recorded as a transaction first, and only
//! then moves funds; so a transaction identifier that was seen before
//! moves nothing.

use crate::csv::{CsvPaymentRecord, TxType as RecordType};
use crate::domain::account::aggregate::{acc_aggregate_id, Account, AccountServices, AccountState};
use crate::domain::account::command::{
    AccountCommand, ChargebackDisputePayload, DepositAccountPayload, DisputeFundsPayload,
    ResolveDisputePayload, WithdrawAccountPayload,
};
use crate::domain::account::error::AccountError;
use crate::domain::account::event::AccountEvent;
use crate::domain::account::laws::{lemma_produced_consistent, produced};
use crate::domain::props::{Amount, ClientId, TransactionId, TxType};
use crate::domain::transaction::aggregate::{
    tx_aggregate_id, Transaction, TransactionServices, TransactionState,
};
use crate::domain::transaction::command::{RecordTransactionPayload, TransactionCommand};
use crate::domain::transaction::error::TransactionError;
use crate::domain::transaction::event::TransactionEvent;
use crate::event_store::{events_of, EventStore};
use crate::query::account::{rows_of, AccountRow, AccountView};
use vstd::pervasive::unreached;
use vstd::prelude::*;

verus! {

/// Why an account command had no effect.
#[derive(Debug, PartialEq, Eq, Clone, Copy, Structural)]
pub enum ExecuteError {
    /// The account refused the command.
    Rejected(AccountError),
    /// A balance after the event cannot be represented exactly.
    Overflow,
}

/// Why a record was not processed to its end. None of these stops a run.
#[derive(Debug, PartialEq, Eq, Clone, Copy, Structural)]
pub enum PaymentError {
    /// A deposit or withdrawal names no amount.
    MissingAmount,
    /// The transaction could not be recorded.
    Transaction(TransactionError),
    /// The record refers to a transaction that was never recorded.
    UnknownTransaction,
    /// The record disputes a withdrawal.
    DisputeNotAllowed,
    /// The account refused the dispute.
    Account(AccountError),
    /// A balance after the dispute cannot be represented exactly.
    Overflow,
}

/// The identifier of a client's account stream.
pub open spec fn account_key(client_id: Seq<char>) -> Seq<char> {
    "Account-"@ + client_id
}

/// The identifier of a transaction's stream.
pub open spec fn transaction_key(tx_id: Seq<char>) -> Seq<char> {
    "Transaction-"@ + tx_id
}

/// Whether the events of an account are a history that the account
/// produced itself, and one that folds into a row.
pub open spec fn replayable(events: Seq<AccountEvent>) -> bool {
    produced(events) && AccountRow::project(events) is Some
}

/// What the orchestrator holds, as mathematics sees it: the events of
/// every account and of every transaction, and the order in which the
/// accounts came to be.
pub struct PaymentsState {
    pub accounts: Map<Seq<char>, Seq<AccountEvent>>,
    pub account_ids: Seq<Seq<char>>,
    pub transactions: Map<Seq<char>, Seq<TransactionEvent>>,
}

impl PaymentsState {
    /// The state before the first record: no events at all.
    pub open spec fn initial() -> PaymentsState {
        PaymentsState {
            accounts: Map::empty(),
            account_ids: Seq::empty(),
            transactions: Map::empty(),
        }
    }

    /// Every account has events, they are the account's own history, and
    /// the accounts are listed once each; every transaction that has
    /// events has exactly one, the one that recorded it.
    pub open spec fn sound(self) -> bool {
        &&& forall|id: Seq<char>| #[trigger]
            self.transactions.contains_key(id) ==> self.transactions[id].len() == 1
        &&& forall|id: Seq<char>| #[trigger]
            self.accounts.contains_key(id) ==> replayable(self.accounts[id])
                && self.accounts[id].len() > 0
        &&& forall|i: int|
            0 <= i < self.account_ids.len() ==> self.accounts.contains_key(
                #[trigger] self.account_ids[i],
            )
        &&& forall|id: Seq<char>| #[trigger]
            self.accounts.contains_key(id) ==> self.account_ids.contains(id)
        &&& forall|i: int, j: int|
            0 <= i < j < self.account_ids.len() ==> self.account_ids[i] != self.account_ids[j]
    }

    /// The events of a client's account.
    pub open spec fn account_events(self, client_id: Seq<char>) -> Seq<AccountEvent> {
        events_of(self.accounts, account_key(client_id))
    }

    /// The events of a transaction.
    pub open spec fn transaction_events(self, tx_id: Seq<char>) -> Seq<TransactionEvent> {
        events_of(self.transactions, transaction_key(tx_id))
    }

    /// The state of a client's account.
    pub open spec fn account(self, client_id: Seq<char>) -> Option<AccountState> {
        AccountState::replay(self.account_events(client_id))
    }

    /// The row of a client's account.
    pub open spec fn row(self, client_id: Seq<char>) -> Option<AccountRow> {
        AccountRow::project(self.account_events(client_id))
    }

    /// The state of a transaction.
    pub open spec fn transaction(self, tx_id: Seq<char>) -> TransactionState {
        TransactionState::replay(self.transaction_events(tx_id))
    }

    /// The state with one more event on a client's account.
    pub open spec fn with_account_event(self, client_id: Seq<char>, event: AccountEvent)
        -> PaymentsState {
        PaymentsState {
            accounts: self.accounts.insert(
                account_key(client_id),
                self.account_events(client_id).push(event),
            ),
            account_ids: if self.accounts.contains_key(account_key(client_id)) {
                self.account_ids
            } else {
                self.account_ids.push(account_key(client_id))
            },
            transactions: self.transactions,
        }
    }

    /// The state with one more event on a transaction.
    pub open spec fn with_transaction_event(self, tx_id: Seq<char>, event: TransactionEvent)
        -> PaymentsState {
        PaymentsState {
            accounts: self.accounts,
            account_ids: self.account_ids,
            transactions: self.transactions.insert(
                transaction_key(tx_id),
                self.transaction_events(tx_id).push(event),
            ),
        }
    }

    /// A command on a transaction: its event is appended, or the command
    /// is refused and nothing changes.
    pub open spec fn execute_transaction(self, tx_id: Seq<char>, command: TransactionCommand) -> (
        PaymentsState,
        Result<(), TransactionError>,
    ) {
        match self.transaction(tx_id).decide(command) {
            Ok(event) => (self.with_transaction_event(tx_id, event), Ok(())),
            Err(error) => (self, Err(error)),
        }
    }

    /// A command on an account: its event is appended where the account
    /// decides for it and both the account and its row can take it;
    /// otherwise nothing changes.
    pub open spec fn execute_account(self, client_id: Seq<char>, command: AccountCommand) -> (
        PaymentsState,
        Result<(), ExecuteError>,
    ) {
        match (self.account(client_id), self.row(client_id)) {
            (Some(account), Some(row)) => match account.decide(command) {
                Ok(event) => if account.apply(event) is Some && row.update(event) is Some {
                    (self.with_account_event(client_id, event), Ok(()))
                } else {
                    (self, Err(ExecuteError::Overflow))
                },
                Err(error) => (self, Err(ExecuteError::Rejected(error))),
            },
            _ => (self, Err(ExecuteError::Overflow)),
        }
    }

    /// The command that records a deposit or withdrawal.
    pub open spec fn record_command(r: CsvPaymentRecord, amount: Amount, tx_type: TxType)
        -> TransactionCommand {
        TransactionCommand::RecordTransaction(
            RecordTransactionPayload {
                id: TransactionId(r.tx_id),
                client_id: ClientId(r.client_id),
                amount,
                tx_type: Some(tx_type),
            },
        )
    }

    /// A deposit: without an amount it is refused; a transaction seen
    /// before is refused; otherwise the transaction is recorded and the
    /// account is asked to take the deposit, whatever it answers.
    pub open spec fn deposit(self, r: CsvPaymentRecord) -> (
        PaymentsState,
        Result<(), PaymentError>,
    ) {
        match r.amount {
            None => (self, Err(PaymentError::MissingAmount)),
            Some(amount) => {
                let (recorded, outcome) = self.execute_transaction(
                    r.tx_id@,
                    PaymentsState::record_command(r, amount, TxType::Deposit),
                );
                match outcome {
                    Err(error) => (self, Err(PaymentError::Transaction(error))),
                    Ok(_) => (
                        recorded.execute_account(
                            r.client_id@,
                            AccountCommand::DepositAccount(
                                DepositAccountPayload {
                                    client_id: ClientId(r.client_id),
                                    transaction_id: TransactionId(r.tx_id),
                                    amount,
                                },
                            ),
                        ).0,
                        Ok(()),
                    ),
                }
            },
        }
    }

    /// A withdrawal: as a deposit, with the account asked to withdraw.
    pub open spec fn withdrawal(self, r: CsvPaymentRecord) -> (
        PaymentsState,
        Result<(), PaymentError>,
    ) {
        match r.amount {
            None => (self, Err(PaymentError::MissingAmount)),
            Some(amount) => {
                let (recorded, outcome) = self.execute_transaction(
                    r.tx_id@,
                    PaymentsState::record_command(r, amount, TxType::Withdrawal),
                );
                match outcome {
                    Err(error) => (self, Err(PaymentError::Transaction(error))),
                    Ok(_) => (
                        recorded.execute_account(
                            r.client_id@,
                            AccountCommand::WithdrawAccount(
                                WithdrawAccountPayload {
                                    client_id: ClientId(r.client_id),
                                    transaction_id: TransactionId(r.tx_id),
                                    amount,
                                },
                            ),
                        ).0,
                        Ok(()),
                    ),
                }
            },
        }
    }

    /// A dispute: it needs a recorded transaction that is no withdrawal,
    /// and disputes the amount that transaction was recorded with; the
    /// record's own amount is not read.
    pub open spec fn dispute_funds(self, r: CsvPaymentRecord) -> (
        PaymentsState,
        Result<(), PaymentError>,
    ) {
        let transaction = self.transaction(r.tx_id@);
        if !transaction.recorded {
            (self, Err(PaymentError::UnknownTransaction))
        } else if transaction.tx_type == Some(TxType::Withdrawal) {
            (self, Err(PaymentError::DisputeNotAllowed))
        } else {
            let (disputed, outcome) = self.execute_account(
                r.client_id@,
                AccountCommand::DisputeFunds(
                    DisputeFundsPayload {
                        client_id: ClientId(r.client_id),
                        transaction_id: TransactionId(r.tx_id),
                        amount: transaction.amount,
                    },
                ),
            );
            match outcome {
                Ok(_) => (disputed, Ok(())),
                Err(ExecuteError::Rejected(error)) => (self, Err(PaymentError::Account(error))),
                Err(ExecuteError::Overflow) => (self, Err(PaymentError::Overflow)),
            }
        }
    }

    /// A resolve: it needs a recorded transaction; the account is asked
    /// to resolve the dispute, whatever it answers.
    pub open spec fn resolve_dispute(self, r: CsvPaymentRecord) -> (
        PaymentsState,
        Result<(), PaymentError>,
    ) {
        if !self.transaction(r.tx_id@).recorded {
            (self, Err(PaymentError::UnknownTransaction))
        } else {
            (
                self.execute_account(
                    r.client_id@,
                    AccountCommand::ResolveDispute(
                        ResolveDisputePayload {
                            client_id: ClientId(r.client_id),
                            transaction_id: TransactionId(r.tx_id),
                        },
                    ),
                ).0,
                Ok(()),
            )
        }
    }

    /// A chargeback: as a resolve, with the account asked to charge back.
    pub open spec fn chargeback_dispute(self, r: CsvPaymentRecord) -> (
        PaymentsState,
        Result<(), PaymentError>,
    ) {
        if !self.transaction(r.tx_id@).recorded {
            (self, Err(PaymentError::UnknownTransaction))
        } else {
            (
                self.execute_account(
                    r.client_id@,
                    AccountCommand::ChargebackDispute(
                        ChargebackDisputePayload {
                            client_id: ClientId(r.client_id),
                            transaction_id: TransactionId(r.tx_id),
                        },
                    ),
                ).0,
                Ok(()),
            )
        }
    }

    /// What one record does to the state, and how it ends.
    pub open spec fn step(self, r: CsvPaymentRecord) -> (PaymentsState, Result<(), PaymentError>) {
        match r.tx_type {
            RecordType::Deposit => self.deposit(r),
            RecordType::Withdrawal => self.withdrawal(r),
            RecordType::Dispute => self.dispute_funds(r),
            RecordType::Resolve => self.resolve_dispute(r),
            RecordType::Chargeback => self.chargeback_dispute(r),
        }
    }

    /// The account table: one row per account, in the order in which the
    /// accounts came to be.
    pub open spec fn table(self) -> Seq<AccountRow> {
        Seq::new(
            self.account_ids.len(),
            |i: int| AccountRow::project(self.accounts[self.account_ids[i]]).unwrap(),
        )
    }

    /// What a sequence of records does to the state, taken in order.
    pub open spec fn run(self, records: Seq<CsvPaymentRecord>) -> PaymentsState
        decreases records.len(),
    {
        if records.len() == 0 {
            self
        } else {
            self.run(records.drop_last()).step(records.last()).0
        }
    }
}

/// A command on a transaction leaves every transaction with one event at
/// most: it appends only where there is none.
pub proof fn lemma_execute_transaction_sound(
    state: PaymentsState,
    tx_id: Seq<char>,
    command: TransactionCommand,
)
    requires
        state.sound(),
    ensures
        state.execute_transaction(tx_id, command).0.sound(),
{
    let next = state.execute_transaction(tx_id, command).0;
    let events = state.transaction_events(tx_id);
    if state.transactions.contains_key(transaction_key(tx_id)) {
        assert(events.len() == 1);
        assert(events.drop_last().len() == 0);
        assert(TransactionState::replay(events).recorded);
    }
}

/// An executed command leaves every account's events the account's own
/// history.
pub proof fn lemma_execute_account_sound(
    state: PaymentsState,
    client_id: Seq<char>,
    command: AccountCommand,
)
    requires
        state.sound(),
    ensures
        state.execute_account(client_id, command).0.sound(),
{
    let next = state.execute_account(client_id, command).0;
    if next != state {
        let events = state.account_events(client_id);
        let account = state.account(client_id).unwrap();
        let event = account.decide(command).unwrap();
        let longer = events.push(event);
        let key = account_key(client_id);
        assert(longer.drop_last() =~= events);
        assert(longer.last() == event);
        assert(account.decides(event));
        if state.accounts.contains_key(key) {
            assert(replayable(events));
        }
        assert(produced(events));
        assert(produced(longer));
        assert(AccountRow::project(longer) is Some);
        assert forall|id: Seq<char>| #[trigger]
            next.accounts.contains_key(id) implies next.account_ids.contains(id) by {
            if id == key {
                if state.accounts.contains_key(key) {
                    assert(state.account_ids.contains(key));
                } else {
                    assert(next.account_ids[state.account_ids.len() as int] == key);
                }
            } else {
                assert(state.accounts.contains_key(id));
                let i = choose|i: int|
                    0 <= i < state.account_ids.len() && state.account_ids[i] == id;
                assert(next.account_ids[i] == id);
            }
        }
    }
}

/// The payments orchestrator.
pub struct Payments {
    accounts: EventStore<AccountEvent>,
    transactions: EventStore<TransactionEvent>,
}

impl View for Payments {
    type V = PaymentsState;

    closed spec fn view(&self) -> PaymentsState {
        PaymentsState {
            accounts: self.accounts@,
            account_ids: self.accounts.ids(),
            transactions: self.transactions@,
        }
    }
}

impl Payments {
    /// What holds of every orchestrator: every account's events are the
    /// account's own history.
    #[verifier::type_invariant]
    pub open spec fn is_sound(&self) -> bool {
        self@.sound()
    }

    /// An orchestrator that has seen no record.
    pub fn new() -> (r: Payments)
        ensures
            r@ == PaymentsState::initial(),
    {
        let accounts: EventStore<AccountEvent> = EventStore::new();
        let transactions: EventStore<TransactionEvent> = EventStore::new();
        assert((PaymentsState {
            accounts: accounts@,
            account_ids: accounts.ids(),
            transactions: transactions@,
        }).sound());
        Payments { accounts, transactions }
    }

    /// The transaction aggregate with this identifier, rebuilt from its
    /// events; a transaction without events is a fresh one.
    pub fn load_transaction(&self, tx_id: &str) -> (r: Transaction)
        ensures
            r@ == self@.transaction(tx_id@),
    {
        let id = tx_aggregate_id(tx_id);
        match self.transactions.load(id.as_str()) {
            Some(events) => Transaction::rehydrate(events),
            None => Transaction::default(),
        }
    }

    /// The events of a client's account, in the order they were appended.
    pub fn account_events(&self, client_id: &str) -> (r: Vec<AccountEvent>)
        ensures
            r@ == self@.account_events(client_id@),
    {
        let id = acc_aggregate_id(client_id);
        let mut copy: Vec<AccountEvent> = Vec::new();
        match self.accounts.load(id.as_str()) {
            Some(events) => {
                let mut i: usize = 0;
                while i < events.len()
                    invariant
                        i <= events.len(),
                        copy@ == events@.take(i as int),
                    decreases events.len() - i,
                {
                    copy.push(events[i].clone());
                    proof {
                        assert(events@.take(i + 1) =~= events@.take(i as int).push(
                            events@[i as int],
                        ));
                    }
                    i += 1;
                }
                proof {
                    assert(events@.take(events@.len() as int) =~= events@);
                }
            },
            None => {},
        }
        copy
    }

    /// The account aggregate of a client, rebuilt from its events. It is
    /// consistent: its held funds are the funds under dispute, and neither
    /// of its balances is negative.
    pub fn load_account(&self, client_id: &str) -> (r: Account)
        ensures
            Some(r@) == self@.account(client_id@),
            r@.consistent(),
    {
        let id = acc_aggregate_id(client_id);
        proof {
            use_type_invariant(self);
            if self@.accounts.contains_key(account_key(client_id@)) {
                assert(replayable(self@.account_events(client_id@)));
            }
            lemma_produced_consistent(self@.account_events(client_id@));
        }
        match self.accounts.load(id.as_str()) {
            Some(events) => match Account::rehydrate(events) {
                Some(account) => account,
                // An account's own history can always be replayed.
                None => unreached(),
            },
            None => Account::default(),
        }
    }

    /// The row of a client's account, folded from its events.
    pub fn load_view(&self, client_id: &str) -> (r: AccountView)
        ensures
            Some(r@) == self@.row(client_id@),
    {
        let id = acc_aggregate_id(client_id);
        proof {
            use_type_invariant(self);
        }
        match self.accounts.load(id.as_str()) {
            Some(events) => match AccountView::rehydrate(events) {
                Some(view) => view,
                // Only events that the row can take are ever appended.
                None => unreached(),
            },
            None => AccountView::default(),
        }
    }

    /// Executes a command on a transaction: decides it against the
    /// transaction's events and appends what it produces.
    pub fn execute_transaction(&mut self, tx_id: &str, command: TransactionCommand) -> (r: Result<
        (),
        TransactionError,
    >)
        ensures
            (final(self)@, r) == old(self)@.execute_transaction(tx_id@, command),
    {
        let id = tx_aggregate_id(tx_id);
        let transaction = self.load_transaction(tx_id);
        let version = self.transactions.version(id.as_str());
        match transaction.handle(command, &TransactionServices {  }) {
            Ok(events) => {
                proof {
                    let event = events@[0];
                    assert(old(self)@.transaction_events(tx_id@) + events@ =~= old(
                        self,
                    )@.transaction_events(tx_id@).push(event));
                }
                let mut transactions = EventStore::new();
                proof {
                    use_type_invariant(&*self);
                    assert((PaymentsState { transactions: transactions@, ..self@ }).sound());
                }
                core::mem::swap(&mut self.transactions, &mut transactions);
                let _ = transactions.append(id.as_str(), version, events);
                proof {
                    assert((PaymentsState { transactions: transactions@, ..self@ }).sound());
                }
                self.transactions = transactions;
                Ok(())
            },
            Err(error) => Err(error),
        }
    }

    /// Executes a command on an account: decides it against the account's
    /// events and appends what it produces, provided the balances after
    /// it can be represented exactly.
    pub fn execute_account(&mut self, client_id: &str, command: AccountCommand) -> (r: Result<
        (),
        ExecuteError,
    >)
        ensures
            (final(self)@, r) == old(self)@.execute_account(client_id@, command),
    {
        let id = acc_aggregate_id(client_id);
        let account = self.load_account(client_id);
        let view = self.load_view(client_id);
        let version = self.accounts.version(id.as_str());
        proof {
            use_type_invariant(&*self);
            lemma_execute_account_sound(self@, client_id@, command);
        }
        match account.handle(command, &AccountServices {  }) {
            Ok(events) => {
                if !account.accepts(&events[0]) || !view.accepts(&events[0]) {
                    return Err(ExecuteError::Overflow);
                }
                proof {
                    let event = events@[0];
                    assert(old(self)@.account_events(client_id@) + events@ =~= old(
                        self,
                    )@.account_events(client_id@).push(event));
                }
                let mut accounts = EventStore::new();
                core::mem::swap(&mut self.accounts, &mut accounts);
                let _ = accounts.append(id.as_str(), version, events);
                proof {
                    let next = old(self)@.execute_account(client_id@, command).0;
                    assert(next.sound());
                    assert(accounts@ == next.accounts);
                    assert(accounts.ids() == next.account_ids);
                }
                self.accounts = accounts;
                Ok(())
            },
            Err(error) => Err(ExecuteError::Rejected(error)),
        }
    }

    /// Processes records in order. No record stops the run: how each one
    /// ended is not reported.
    pub fn process_all(&mut self, records: &Vec<CsvPaymentRecord>)
        ensures
            final(self)@ == old(self)@.run(records@),
    {
        let mut i: usize = 0;
        proof {
            assert(records@.take(0) =~= Seq::empty());
        }
        while i < records.len()
            invariant
                i <= records.len(),
                self@ == old(self)@.run(records@.take(i as int)),
            decreases records.len() - i,
        {
            proof {
                assert(records@.take(i + 1).drop_last() =~= records@.take(i as int));
            }
            let _ = self.handle(records[i].clone());
            i += 1;
        }
        proof {
            assert(records@.take(records@.len() as int) =~= records@);
        }
    }

    /// The account table: one row per account that has had an event, in
    /// the order in which the accounts came to be.
    pub fn accounts(&self) -> (rows: Vec<AccountView>)
        ensures
            rows_of(rows@) == self@.table(),
            forall|i: int|
                0 <= i < rows.len() ==> (#[trigger] rows[i])@.balanced() && rows[i]@.held.units()
                    >= 0 && rows[i]@.available.units() >= 0,
    {
        proof {
            use_type_invariant(self);
            crate::laws::lemma_table_balanced(self@);
        }
        let mut rows: Vec<AccountView> = Vec::new();
        let count = self.accounts.stream_count();
        let mut i: usize = 0;
        while i < count
            invariant
                i <= count,
                count == self@.account_ids.len(),
                self@.sound(),
                rows.len() == i,
                forall|k: int| 0 <= k < i ==> (#[trigger] rows[k])@ == self@.table()[k],
            decreases count - i,
        {
            let events = self.accounts.events_at(i);
            assert(self@.accounts.contains_key(self@.account_ids[i as int]));
            let row = match AccountView::rehydrate(events) {
                Some(row) => row,
                // Only events that the row can take are ever appended.
                None => unreached(),
            };
            rows.push(row);
            i += 1;
        }
        proof {
            assert(rows_of(rows@) =~= self@.table());
        }
        rows
    }

    /// Processes one record.
    pub fn handle(&mut self, r: CsvPaymentRecord) -> (outcome: Result<(), PaymentError>)
        ensures
            (final(self)@, outcome) == old(self)@.step(r),
    {
        match r.tx_type {
            RecordType::Deposit => self.handle_deposit(r),
            RecordType::Withdrawal => self.handle_withdrawal(r),
            RecordType::Dispute => self.handle_dispute_funds(r),
            RecordType::Resolve => self.handle_resolve_dispute(r),
            RecordType::Chargeback => self.handle_chargeback_dispute(r),
        }
    }

    /// Processes a deposit: records the transaction, then credits the
    /// account. Where the transaction cannot be recorded the account is
    /// not asked; what the account answers is not reported.
    pub fn handle_deposit(&mut self, r: CsvPaymentRecord) -> (outcome: Result<(), PaymentError>)
        ensures
            (final(self)@, outcome) == old(self)@.deposit(r),
    {
        let amount = match require_amount(r.amount) {
            Ok(amount) => amount,
            Err(error) => {
                return Err(error);
            },
        };

        let recorded = self.execute_transaction(
            r.tx_id.as_str(),
            TransactionCommand::RecordTransaction(
                RecordTransactionPayload {
                    client_id: ClientId(r.client_id.clone()),
                    id: TransactionId(r.tx_id.clone()),
                    amount,
                    tx_type: Some(TxType::Deposit),
                },
            ),
        );
        match recorded {
            Ok(_) => {},
            Err(error) => {
                return Err(PaymentError::Transaction(error));
            },
        }

        let _ = self.execute_account(
            r.client_id.as_str(),
            AccountCommand::DepositAccount(
                DepositAccountPayload {
                    client_id: ClientId(r.client_id.clone()),
                    transaction_id: TransactionId(r.tx_id.clone()),
                    amount,
                },
            ),
        );

        Ok(())
    }

    /// Processes a withdrawal: records the transaction, then debits the
    /// account. Where the transaction cannot be recorded the account is
    /// not asked; what the account answers is not reported.
    pub fn handle_withdrawal(&mut self, r: CsvPaymentRecord) -> (outcome: Result<
        (),
        PaymentError,
    >)
        ensures
            (final(self)@, outcome) == old(self)@.withdrawal(r),
    {
        let amount = match require_amount(r.amount) {
            Ok(amount) => amount,
            Err(error) => {
                return Err(error);
            },
        };

        let recorded = self.execute_transaction(
            r.tx_id.as_str(),
            TransactionCommand::RecordTransaction(
                RecordTransactionPayload {
                    client_id: ClientId(r.client_id.clone()),
                    id: TransactionId(r.tx_id.clone()),
                    amount,
                    tx_type: Some(TxType::Withdrawal),
                },
            ),
        );
        match recorded {
            Ok(_) => {},
            Err(error) => {
                return Err(PaymentError::Transaction(error));
            },
        }

        let _ = self.execute_account(
            r.client_id.as_str(),
            AccountCommand::WithdrawAccount(
                WithdrawAccountPayload {
                    client_id: ClientId(r.client_id.clone()),
                    transaction_id: TransactionId(r.tx_id.clone()),
                    amount,
                },
            ),
        );

        Ok(())
    }

    /// Processes a dispute: looks the transaction up, refuses one that
    /// was never recorded or that is a withdrawal, and asks the account
    /// to hold the amount the transaction was recorded with.
    pub fn handle_dispute_funds(&mut self, r: CsvPaymentRecord) -> (outcome: Result<
        (),
        PaymentError,
    >)
        ensures
            (final(self)@, outcome) == old(self)@.dispute_funds(r),
    {
        let transaction = require_transaction(self, r.tx_id.as_str())?;

        if let Some(tx_type) = transaction.recorded_type() {
            if let TxType::Withdrawal = tx_type {
                return Err(PaymentError::DisputeNotAllowed);
            }
        }

        let amount = transaction.recorded_amount();

        let disputed = self.execute_account(
            r.client_id.as_str(),
            AccountCommand::DisputeFunds(
                DisputeFundsPayload {
                    client_id: ClientId(r.client_id.clone()),
                    transaction_id: TransactionId(r.tx_id.clone()),
                    amount,
                },
            ),
        );
        match disputed {
            Ok(_) => Ok(()),
            Err(ExecuteError::Rejected(error)) => Err(PaymentError::Account(error)),
            Err(ExecuteError::Overflow) => Err(PaymentError::Overflow),
        }
    }

    /// Processes a resolve: looks the transaction up, and asks the account
    /// to release what is held for it. Without an open dispute the account
    /// refuses, which is not reported.
    pub fn handle_resolve_dispute(&mut self, r: CsvPaymentRecord) -> (outcome: Result<
        (),
        PaymentError,
    >)
        ensures
            (final(self)@, outcome) == old(self)@.resolve_dispute(r),
    {
        let _ = require_transaction(self, r.tx_id.as_str())?;

        let _ = self.execute_account(
            r.client_id.as_str(),
            AccountCommand::ResolveDispute(
                ResolveDisputePayload {
                    client_id: ClientId(r.client_id.clone()),
                    transaction_id: TransactionId(r.tx_id.clone()),
                },
            ),
        );

        Ok(())
    }

    /// Processes a chargeback: looks the transaction up, and asks the
    /// account to give up what is held for it and lock. Without an open
    /// dispute the account refuses, which is not reported.
    pub fn handle_chargeback_dispute(&mut self, r: CsvPaymentRecord) -> (outcome: Result<
        (),
        PaymentError,
    >)
        ensures
            (final(self)@, outcome) == old(self)@.chargeback_dispute(r),
    {
        let _ = require_transaction(self, r.tx_id.as_str())?;

        let _ = self.execute_account(
            r.client_id.as_str(),
            AccountCommand::ChargebackDispute(
                ChargebackDisputePayload {
                    client_id: ClientId(r.client_id.clone()),
                    transaction_id: TransactionId(r.tx_id.clone()),
                },
            ),
        );

        Ok(())
    }
}

fn require_amount(amount: Option<Amount>) -> (r: Result<Amount, PaymentError>)
    ensures
        r == (match amount {
            Some(a) => Ok::<Amount, PaymentError>(a),
            None => Err(PaymentError::MissingAmount),
        }),
{
    match amount {
        Some(a) => Ok(a),
        None => Err(PaymentError::MissingAmount),
    }
}

fn require_transaction(payments: &Payments, tx_id: &str) -> (r: Result<Transaction, PaymentError>)
    ensures
        match r {
            Ok(transaction) => transaction@ == payments@.transaction(tx_id@)
                && transaction@.recorded,
            Err(error) => error == PaymentError::UnknownTransaction && !payments@.transaction(
                tx_id@,
            ).recorded,
        },
{
    let transaction = payments.load_transaction(tx_id);
    if !transaction.is_recorded() {
        return Err(PaymentError::UnknownTransaction);
    }
    Ok(transaction)
}

} // verus!
