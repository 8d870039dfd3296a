//! The transaction aggregate.

use crate::domain::props::{Amount, TxType};
use crate::domain::transaction::command::{RecordTransactionPayload, TransactionCommand};
use crate::domain::transaction::error::TransactionError;
use crate::domain::transaction::event::{TransactionEvent, TransactionRecordedPayload};
use vstd::prelude::*;
use vstd::string::StringExecFns;

verus! {

/// The state of a transaction as mathematics sees it.
pub struct TransactionState {
    pub recorded: bool,
    pub tx_type: Option<TxType>,
    pub amount: Amount,
}

impl TransactionState {
    /// A transaction that was never recorded.
    pub open spec fn initial() -> TransactionState {
        TransactionState { recorded: false, tx_type: None, amount: Amount::spec_zero() }
    }

    /// The event a command produces in this state, or the guard it fails:
    /// a transaction is recorded once.
    pub open spec fn decide(self, command: TransactionCommand) -> Result<
        TransactionEvent,
        TransactionError,
    > {
        match command {
            TransactionCommand::RecordTransaction(p) => {
                if self.recorded {
                    Err(TransactionError::DuplicateTransaction)
                } else {
                    Ok(
                        TransactionEvent::TransactionRecorded(
                            TransactionRecordedPayload {
                                id: p.id,
                                client_id: p.client_id,
                                amount: p.amount,
                                tx_type: p.tx_type,
                            },
                        ),
                    )
                }
            },
        }
    }

    /// The state after an event: recorded, with the event's kind and amount.
    pub open spec fn apply(self, event: TransactionEvent) -> TransactionState {
        match event {
            TransactionEvent::TransactionRecorded(p) => TransactionState {
                recorded: true,
                tx_type: p.tx_type,
                amount: p.amount,
            },
        }
    }

    /// The state that a history of events leads to from a fresh
    /// transaction.
    pub open spec fn replay(events: Seq<TransactionEvent>) -> TransactionState
        decreases events.len(),
    {
        if events.len() == 0 {
            TransactionState::initial()
        } else {
            TransactionState::replay(events.drop_last()).apply(events.last())
        }
    }
}

/// The transaction aggregate.
#[derive(Debug)]
pub struct Transaction {
    recorded: bool,
    pub tx_type: Option<TxType>,
    pub amount: Amount,
}

/// The services a transaction could call on; it needs none.
pub struct TransactionServices {}

impl View for Transaction {
    type V = TransactionState;

    closed spec fn view(&self) -> TransactionState {
        TransactionState { recorded: self.recorded, tx_type: self.tx_type, amount: self.amount }
    }
}

impl Default for Transaction {
    fn default() -> (r: Transaction)
        ensures
            r@ == TransactionState::initial(),
    {
        Transaction { recorded: false, tx_type: None, amount: Amount::zero() }
    }
}

impl Transaction {
    /// The name of this kind of aggregate.
    pub fn aggregate_type() -> (r: String)
        ensures
            r@ == "Transaction"@,
    {
        "Transaction".to_owned()
    }

    /// Whether the transaction has been recorded.
    pub fn is_recorded(&self) -> (r: bool)
        ensures
            r == self@.recorded,
    {
        self.recorded
    }

    /// The kind the transaction was recorded with.
    pub fn recorded_type(&self) -> (r: Option<TxType>)
        ensures
            r == self@.tx_type,
    {
        self.tx_type
    }

    /// The amount the transaction was recorded with.
    pub fn recorded_amount(&self) -> (r: Amount)
        ensures
            r == self@.amount,
    {
        self.amount
    }

    /// Rebuilds a transaction from its events.
    pub fn rehydrate(events: &Vec<TransactionEvent>) -> (r: Transaction)
        ensures
            r@ == TransactionState::replay(events@),
    {
        let mut transaction = Transaction::default();
        let mut i: usize = 0;
        proof {
            assert(events@.take(0) =~= Seq::empty());
        }
        while i < events.len()
            invariant
                i <= events.len(),
                transaction@ == TransactionState::replay(events@.take(i as int)),
            decreases events.len() - i,
        {
            proof {
                assert(events@.take(i + 1).drop_last() =~= events@.take(i as int));
            }
            transaction.apply(events[i].clone());
            i += 1;
        }
        proof {
            assert(events@.take(events@.len() as int) =~= events@);
        }
        transaction
    }

    /// Decides a command: the events it produces, or the guard it fails.
    /// The transaction itself is not changed. A transaction is recorded
    /// once: the command is refused exactly when it was recorded before.
    pub fn handle(&self, command: TransactionCommand, _services: &TransactionServices) -> (r:
        Result<Vec<TransactionEvent>, TransactionError>)
        ensures
            match self@.decide(command) {
                Ok(event) => r matches Ok(events) && events@ == seq![event],
                Err(error) => r matches Err(e) && e == error,
            },
            r is Err <==> self@.recorded,
    {
        match command {
            TransactionCommand::RecordTransaction(p) => self.record(p),
        }
    }

    /// Takes an event into the transaction's state.
    pub fn apply(&mut self, event: TransactionEvent)
        ensures
            final(self)@ == old(self)@.apply(event),
    {
        match event {
            TransactionEvent::TransactionRecorded(p) => {
                self.recorded = true;
                self.tx_type = p.tx_type;
                self.amount = p.amount;
            },
        }
    }

    fn record(&self, p: RecordTransactionPayload) -> (r: Result<
        Vec<TransactionEvent>,
        TransactionError,
    >)
        ensures
            match self@.decide(TransactionCommand::RecordTransaction(p)) {
                Ok(event) => r matches Ok(events) && events@ == seq![event],
                Err(error) => r matches Err(e) && e == error,
            },
    {
        require_new(self)?;

        Ok(
            vec![
                TransactionEvent::TransactionRecorded(
                    TransactionRecordedPayload {
                        id: p.id,
                        client_id: p.client_id,
                        amount: p.amount,
                        tx_type: p.tx_type,
                    },
                ),
            ],
        )
    }
}

fn require_new(transaction: &Transaction) -> (r: Result<(), TransactionError>)
    ensures
        r == (if transaction@.recorded {
            Err::<(), TransactionError>(TransactionError::DuplicateTransaction)
        } else {
            Ok(())
        }),
{
    if transaction.recorded {
        return Err(TransactionError::DuplicateTransaction);
    }
    Ok(())
}

/// The identifier under which a transaction keeps its events.
pub fn tx_aggregate_id(id: &str) -> (r: String)
    ensures
        r@ == "Transaction-"@ + id@,
{
    String::from_str("Transaction-").concat(id)
}

} // verus!
