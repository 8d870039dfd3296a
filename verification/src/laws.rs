//! What holds of every run of the orchestrator, whatever the records.

use crate::csv::CsvPaymentRecord;
use crate::domain::account::command::AccountCommand;
use crate::domain::account::laws::{
    lemma_decision_not_repeated, lemma_locked_refuses, lemma_produced_consistent,
};
use crate::domain::props::TxType;
use crate::domain::transaction::aggregate::TransactionState;
use crate::domain::transaction::error::TransactionError;
use crate::domain::transaction::event::TransactionEvent;
use crate::payments::{
    account_key, lemma_execute_account_sound, lemma_execute_transaction_sound, replayable,
    transaction_key, PaymentError, PaymentsState,
};
use crate::query::laws::lemma_row_shows_account;
use vstd::prelude::*;

verus! {

/// Whether a record is one that records its transaction: a deposit or a
/// withdrawal that names an amount.
pub open spec fn records_transaction(r: CsvPaymentRecord) -> bool {
    (r.tx_type is Deposit || r.tx_type is Withdrawal) && r.amount is Some
}

/// Whether one of the first records is one that records this transaction.
pub open spec fn seen_before(records: Seq<CsvPaymentRecord>, k: int, tx_id: Seq<char>) -> bool {
    exists|i: int|
        0 <= i < k && records_transaction(#[trigger] records[i]) && records[i].tx_id@ == tx_id
}

/// Different transactions keep their events under different identifiers.
pub proof fn lemma_transaction_keys_differ(a: Seq<char>, b: Seq<char>)
    ensures
        transaction_key(a) == transaction_key(b) <==> a == b,
{
    let prefix = "Transaction-"@;
    if transaction_key(a) == transaction_key(b) {
        assert(a =~= transaction_key(a).subrange(
            prefix.len() as int,
            transaction_key(a).len() as int,
        ));
        assert(b =~= transaction_key(b).subrange(
            prefix.len() as int,
            transaction_key(b).len() as int,
        ));
    }
}

/// Different clients keep their events under different identifiers.
pub proof fn lemma_account_keys_differ(a: Seq<char>, b: Seq<char>)
    ensures
        account_key(a) == account_key(b) <==> a == b,
{
    let prefix = "Account-"@;
    if account_key(a) == account_key(b) {
        assert(a =~= account_key(a).subrange(prefix.len() as int, account_key(a).len() as int));
        assert(b =~= account_key(b).subrange(prefix.len() as int, account_key(b).len() as int));
    }
}

/// A transaction is recorded exactly when it has an event.
pub proof fn lemma_recorded_has_event(events: Seq<TransactionEvent>)
    ensures
        TransactionState::replay(events).recorded <==> events.len() > 0,
{
}

/// What one record changes: at most the events of its own transaction
/// and of its own client's account.
pub proof fn lemma_step_frame(state: PaymentsState, r: CsvPaymentRecord)
    ensures
        forall|tx_id: Seq<char>|
            tx_id != r.tx_id@ ==> #[trigger] state.step(r).0.transaction_events(tx_id)
                == state.transaction_events(tx_id),
        forall|client_id: Seq<char>|
            client_id != r.client_id@ ==> #[trigger] state.step(r).0.account_events(client_id)
                == state.account_events(client_id),
        !records_transaction(r) ==> state.step(r).0.transactions == state.transactions,
{
    assert forall|tx_id: Seq<char>| tx_id != r.tx_id@ implies #[trigger] state.step(
        r,
    ).0.transaction_events(tx_id) == state.transaction_events(tx_id) by {
        lemma_transaction_keys_differ(tx_id, r.tx_id@);
    }
    assert forall|client_id: Seq<char>| client_id != r.client_id@ implies #[trigger] state.step(
        r,
    ).0.account_events(client_id) == state.account_events(client_id) by {
        lemma_account_keys_differ(client_id, r.client_id@);
    }
}

/// A command on an account leaves every account's events the account's
/// own history, whatever the client and the command.
pub proof fn lemma_execute_sound(state: PaymentsState)
    requires
        state.sound(),
    ensures
        forall|client_id: Seq<char>, command: AccountCommand| #[trigger]
            state.execute_account(client_id, command).0.sound(),
{
    assert forall|client_id: Seq<char>, command: AccountCommand| #[trigger]
        state.execute_account(client_id, command).0.sound() by {
        lemma_execute_account_sound(state, client_id, command);
    }
}

/// One record leaves every account's events the account's own history.
pub proof fn lemma_step_sound(state: PaymentsState, r: CsvPaymentRecord)
    requires
        state.sound(),
    ensures
        state.step(r).0.sound(),
{
    lemma_execute_sound(state);
    if records_transaction(r) {
        let tx_type = if r.tx_type is Deposit {
            TxType::Deposit
        } else {
            TxType::Withdrawal
        };
        let command = PaymentsState::record_command(r, r.amount.unwrap(), tx_type);
        let recorded = state.execute_transaction(r.tx_id@, command).0;
        lemma_execute_transaction_sound(state, r.tx_id@, command);
        lemma_execute_sound(recorded);
    }
}

/// A run leaves every account's events the account's own history.
pub proof fn lemma_run_sound(state: PaymentsState, records: Seq<CsvPaymentRecord>)
    requires
        state.sound(),
    ensures
        state.run(records).sound(),
    decreases records.len(),
{
    if records.len() > 0 {
        lemma_run_sound(state, records.drop_last());
        lemma_step_sound(state.run(records.drop_last()), records.last());
    }
}

/// Running records one after the other is running them all.
pub proof fn lemma_run_concat(
    state: PaymentsState,
    first: Seq<CsvPaymentRecord>,
    then: Seq<CsvPaymentRecord>,
)
    ensures
        state.run(first + then) == state.run(first).run(then),
    decreases then.len(),
{
    if then.len() == 0 {
        assert(first + then =~= first);
    } else {
        lemma_run_concat(state, first, then.drop_last());
        assert((first + then).drop_last() =~= first + then.drop_last());
        assert((first + then).last() == then.last());
    }
}

/// A deposit or withdrawal that names an amount leaves its transaction
/// recorded. Where the transaction was recorded before, the record is
/// refused as a duplicate and changes nothing; where it was not, the
/// record is accepted and the transaction gets its one event.
pub proof fn lemma_step_records(state: PaymentsState, r: CsvPaymentRecord)
    requires
        records_transaction(r),
    ensures
        state.step(r).0.transaction(r.tx_id@).recorded,
        state.transaction(r.tx_id@).recorded ==> state.step(r) == (
            state,
            Err::<(), PaymentError>(
                PaymentError::Transaction(TransactionError::DuplicateTransaction),
            ),
        ),
        !state.transaction(r.tx_id@).recorded ==> state.step(r).1 == Ok::<(), PaymentError>(())
            && state.step(r).0.transaction_events(r.tx_id@).len() == 1,
{
    lemma_recorded_has_event(state.transaction_events(r.tx_id@));
    if !state.transaction(r.tx_id@).recorded {
        let next = state.step(r).0;
        assert(next.transaction_events(r.tx_id@).drop_last() =~= state.transaction_events(
            r.tx_id@,
        ));
    }
}

/// After a run a transaction is recorded exactly when it was recorded
/// before the run or one of the records recorded it.
pub proof fn lemma_run_records(
    state: PaymentsState,
    records: Seq<CsvPaymentRecord>,
    tx_id: Seq<char>,
)
    ensures
        state.run(records).transaction(tx_id).recorded <==> state.transaction(tx_id).recorded
            || seen_before(records, records.len() as int, tx_id),
    decreases records.len(),
{
    if records.len() > 0 {
        let shorter = records.drop_last();
        let last = records.last();
        let before = state.run(shorter);
        lemma_run_records(state, shorter, tx_id);
        lemma_step_frame(before, last);
        if seen_before(shorter, shorter.len() as int, tx_id) {
            let i = choose|i: int|
                0 <= i < shorter.len() && records_transaction(#[trigger] shorter[i])
                    && shorter[i].tx_id@ == tx_id;
            assert(records[i] == shorter[i]);
        }
        if seen_before(records, records.len() as int, tx_id) {
            let i = choose|i: int|
                0 <= i < records.len() && records_transaction(#[trigger] records[i])
                    && records[i].tx_id@ == tx_id;
            if i < shorter.len() {
                assert(shorter[i] == records[i]);
            }
        }
        if last.tx_id@ == tx_id && records_transaction(last) {
            lemma_step_records(before, last);
            assert(records[records.len() - 1] == last);
        } else if last.tx_id@ == tx_id {
            assert(before.step(last).0.transaction_events(tx_id) == before.transaction_events(
                tx_id,
            ));
        }
    }
}

/// A deposit or withdrawal records its transaction exactly when no
/// earlier record of the run has recorded it: it always leaves the
/// transaction recorded, and it is refused as a duplicate exactly when an
/// earlier deposit or withdrawal that names an amount carried the same
/// transaction identifier.
pub proof fn lemma_recorded_once(records: Seq<CsvPaymentRecord>, k: int)
    requires
        0 <= k < records.len(),
        records_transaction(records[k]),
    ensures
        PaymentsState::initial().run(records.take(k)).transaction(records[k].tx_id@).recorded
            <==> seen_before(records, k, records[k].tx_id@),
        PaymentsState::initial().run(records.take(k)).step(records[k]).0.transaction(
            records[k].tx_id@,
        ).recorded,
        PaymentsState::initial().run(records.take(k)).step(records[k]).1 == Err::<
            (),
            PaymentError,
        >(PaymentError::Transaction(TransactionError::DuplicateTransaction)) <==> seen_before(
            records,
            k,
            records[k].tx_id@,
        ),
{
    let r = records[k];
    let earlier = records.take(k);
    let before = PaymentsState::initial().run(earlier);
    lemma_run_records(PaymentsState::initial(), earlier, r.tx_id@);
    lemma_recorded_has_event(PaymentsState::initial().transaction_events(r.tx_id@));
    lemma_step_records(before, r);
    if seen_before(earlier, k, r.tx_id@) {
        let i = choose|i: int|
            0 <= i < k && records_transaction(#[trigger] earlier[i]) && earlier[i].tx_id@
                == r.tx_id@;
        assert(records[i] == earlier[i]);
    }
    if seen_before(records, k, r.tx_id@) {
        let i = choose|i: int|
            0 <= i < k && records_transaction(#[trigger] records[i]) && records[i].tx_id@
                == r.tx_id@;
        assert(records[i] == earlier[i]);
    }
}

/// One record appends at most one event to an account, at the end of the
/// account's events, and only to the account of its own client.
pub proof fn lemma_step_appends(state: PaymentsState, r: CsvPaymentRecord, client_id: Seq<char>)
    ensures
        state.account_events(client_id).is_prefix_of(state.step(r).0.account_events(client_id)),
        state.step(r).0.account_events(client_id).len() <= state.account_events(client_id).len()
            + 1,
        client_id != r.client_id@ ==> state.step(r).0.account_events(client_id)
            == state.account_events(client_id),
{
    lemma_step_frame(state, r);
    let events = state.account_events(client_id);
    let next = state.step(r).0.account_events(client_id);
    if client_id == r.client_id@ {
        if next != events {
            assert(next.drop_last() =~= events);
            assert(events =~= next.subrange(0, events.len() as int));
        } else {
            assert(events =~= next.subrange(0, events.len() as int));
        }
    } else {
        assert(events =~= next.subrange(0, events.len() as int));
    }
}

/// The events of an account stand in the order in which the records were
/// read: what the account holds after the first records of a run is the
/// beginning of what it holds after all of them.
pub proof fn lemma_run_keeps_order(
    state: PaymentsState,
    records: Seq<CsvPaymentRecord>,
    k: int,
    client_id: Seq<char>,
)
    requires
        0 <= k <= records.len(),
    ensures
        state.run(records.take(k)).account_events(client_id).is_prefix_of(
            state.run(records).account_events(client_id),
        ),
    decreases records.len(),
{
    let all = state.run(records).account_events(client_id);
    if k == records.len() {
        assert(records.take(k) =~= records);
        assert(all =~= all.subrange(0, all.len() as int));
    } else {
        let shorter = records.drop_last();
        lemma_run_keeps_order(state, shorter, k, client_id);
        assert(shorter.take(k) =~= records.take(k));
        lemma_step_appends(state.run(shorter), records.last(), client_id);
        let first = state.run(records.take(k)).account_events(client_id);
        let middle = state.run(shorter).account_events(client_id);
        assert(first =~= all.subrange(0, first.len() as int)) by {
            assert(first =~= middle.subrange(0, first.len() as int));
            assert(middle =~= all.subrange(0, middle.len() as int));
        }
    }
}

/// Once an account is locked, no record adds an event to it.
pub proof fn lemma_locked_account_is_final(
    state: PaymentsState,
    r: CsvPaymentRecord,
    client_id: Seq<char>,
)
    requires
        state.account(client_id) is Some,
        state.account(client_id).unwrap().locked,
    ensures
        state.step(r).0.account_events(client_id) == state.account_events(client_id),
{
    lemma_step_frame(state, r);
    if client_id == r.client_id@ {
        let account = state.account(client_id).unwrap();
        assert forall|command: AccountCommand| #[trigger] account.decide(command) is Err by {
            lemma_locked_refuses(account, command);
        }
    }
}

/// Once an account is locked, no run adds an event to it.
pub proof fn lemma_locked_account_stays_final(
    state: PaymentsState,
    records: Seq<CsvPaymentRecord>,
    client_id: Seq<char>,
)
    requires
        state.account(client_id) is Some,
        state.account(client_id).unwrap().locked,
    ensures
        state.run(records).account_events(client_id) == state.account_events(client_id),
    decreases records.len(),
{
    if records.len() > 0 {
        lemma_locked_account_stays_final(state, records.drop_last(), client_id);
        lemma_locked_account_is_final(state.run(records.drop_last()), records.last(), client_id);
    }
}

/// Every row of the account table is balanced and holds no negative
/// funds: its total is the sum of its available and its held funds, and
/// neither of the two is below zero.
pub proof fn lemma_table_balanced(state: PaymentsState)
    requires
        state.sound(),
    ensures
        forall|i: int|
            0 <= i < state.table().len() ==> (#[trigger] state.table()[i]).balanced()
                && state.table()[i].held.units() >= 0 && state.table()[i].available.units() >= 0,
{
    assert forall|i: int| 0 <= i < state.table().len() implies (
    #[trigger] state.table()[i]).balanced() && state.table()[i].held.units() >= 0
        && state.table()[i].available.units() >= 0 by {
        let id = state.account_ids[i];
        assert(state.accounts.contains_key(id));
        let events = state.accounts[id];
        assert(replayable(events));
        lemma_row_shows_account(events);
        lemma_produced_consistent(events);
    }
}

/// A command on a dispute has its effect once: executed again on the
/// state it led to, it changes nothing.
pub proof fn lemma_execute_account_once(
    state: PaymentsState,
    client_id: Seq<char>,
    command: AccountCommand,
)
    requires
        state.sound(),
        !(command is DepositAccount),
        !(command is WithdrawAccount),
    ensures
        state.execute_account(client_id, command).0.execute_account(client_id, command).0
            == state.execute_account(client_id, command).0,
{
    let next = state.execute_account(client_id, command).0;
    if state.execute_account(client_id, command).1 is Ok {
        let events = state.account_events(client_id);
        if state.accounts.contains_key(account_key(client_id)) {
            assert(replayable(events));
        }
        lemma_produced_consistent(events);
        let account = state.account(client_id).unwrap();
        let event = account.decide(command).unwrap();
        assert(next.account_events(client_id) == events.push(event));
        assert(events.push(event).drop_last() =~= events);
        lemma_decision_not_repeated(account, command);
    }
}

/// A record has its effect once: read again right after itself, it
/// changes nothing.
pub proof fn lemma_step_idempotent(state: PaymentsState, r: CsvPaymentRecord)
    requires
        state.sound(),
    ensures
        state.step(r).0.step(r).0 == state.step(r).0,
{
    let next = state.step(r).0;
    if records_transaction(r) {
        lemma_step_records(state, r);
        lemma_step_records(next, r);
    } else if r.tx_type is Dispute || r.tx_type is Resolve || r.tx_type is Chargeback {
        if next != state {
            assert(next.transactions == state.transactions);
            assert forall|command: AccountCommand|
                !(command is DepositAccount) && !(command is WithdrawAccount) implies (
            #[trigger] state.execute_account(r.client_id@, command)).0.execute_account(
                r.client_id@,
                command,
            ).0 == state.execute_account(r.client_id@, command).0 by {
                lemma_execute_account_once(state, r.client_id@, command);
            }
        }
    }
}

/// A row of the input that is read twice in a row counts once: the run
/// with the row doubled ends in the state, and so in the account table,
/// of the run without the double.
pub proof fn lemma_duplicate_row_ignored(
    state: PaymentsState,
    before: Seq<CsvPaymentRecord>,
    r: CsvPaymentRecord,
    after: Seq<CsvPaymentRecord>,
)
    requires
        state.sound(),
    ensures
        state.run(before.push(r).push(r) + after) == state.run(before.push(r) + after),
        state.run(before.push(r).push(r) + after).table() == state.run(
            before.push(r) + after,
        ).table(),
{
    lemma_run_concat(state, before.push(r).push(r), after);
    lemma_run_concat(state, before.push(r), after);
    lemma_run_sound(state, before);
    assert(before.push(r).drop_last() =~= before);
    assert(before.push(r).push(r).drop_last() =~= before.push(r));
    lemma_step_idempotent(state.run(before), r);
}

/// A deposit or withdrawal whose transaction is already recorded changes
/// nothing, wherever in the input it stands.
pub proof fn lemma_recorded_transaction_ignored(state: PaymentsState, r: CsvPaymentRecord)
    requires
        records_transaction(r),
        state.transaction(r.tx_id@).recorded,
    ensures
        state.step(r).0 == state,
{
    lemma_step_records(state, r);
}

/// A deposit or withdrawal that is read again later in a run, however
/// many rows later, counts once: the run with the repeated row ends in
/// the state, and so in the account table, of the run without it.
pub proof fn lemma_repeated_transaction_ignored(
    state: PaymentsState,
    before: Seq<CsvPaymentRecord>,
    r: CsvPaymentRecord,
    between: Seq<CsvPaymentRecord>,
    after: Seq<CsvPaymentRecord>,
)
    requires
        records_transaction(r),
    ensures
        state.run(before.push(r) + between.push(r) + after) == state.run(
            before.push(r) + between + after,
        ),
        state.run(before.push(r) + between.push(r) + after).table() == state.run(
            before.push(r) + between + after,
        ).table(),
{
    let first = before.push(r);
    lemma_run_concat(state, first + between.push(r), after);
    lemma_run_concat(state, first + between, after);
    lemma_run_concat(state, first, between.push(r));
    lemma_run_concat(state, first, between);
    assert(between.push(r).drop_last() =~= between);
    assert(first.drop_last() =~= before);
    lemma_step_records(state.run(before), r);
    lemma_run_records(state.run(first), between, r.tx_id@);
    lemma_recorded_transaction_ignored(state.run(first).run(between), r);
}

/// The account table has one row for each client that has had an event,
/// and no other row.
pub proof fn lemma_one_row_per_account(state: PaymentsState, client_id: Seq<char>)
    requires
        state.sound(),
    ensures
        state.table().len() == state.account_ids.len(),
        state.account_ids.contains(account_key(client_id)) <==> state.account_events(
            client_id,
        ).len() > 0,
        forall|i: int, j: int|
            0 <= i < j < state.account_ids.len() ==> state.account_ids[i] != state.account_ids[j],
{
    let key = account_key(client_id);
    if state.account_ids.contains(key) {
        let i = choose|i: int| 0 <= i < state.account_ids.len() && state.account_ids[i] == key;
        assert(state.accounts.contains_key(state.account_ids[i]));
    }
}

/// A recorded transaction is immutable: it has the one event that
/// recorded it and no other, and a transaction that is not recorded has
/// none.
pub proof fn lemma_transaction_has_one_event(state: PaymentsState, tx_id: Seq<char>)
    requires
        state.sound(),
    ensures
        state.transaction_events(tx_id).len() <= 1,
        state.transaction(tx_id).recorded <==> state.transaction_events(tx_id).len() == 1,
{
    lemma_recorded_has_event(state.transaction_events(tx_id));
    if state.transactions.contains_key(transaction_key(tx_id)) {
        assert(state.transaction_events(tx_id).len() == 1);
    }
}

/// However many records of a run carry a transaction's identifier, the
/// transaction has one event at most, and has it exactly when a deposit
/// or withdrawal that names an amount carried the identifier.
pub proof fn lemma_run_records_once(records: Seq<CsvPaymentRecord>, tx_id: Seq<char>)
    ensures
        PaymentsState::initial().run(records).transaction_events(tx_id).len() == (if seen_before(
            records,
            records.len() as int,
            tx_id,
        ) {
            1nat
        } else {
            0nat
        }),
{
    lemma_run_sound(PaymentsState::initial(), records);
    lemma_transaction_has_one_event(PaymentsState::initial().run(records), tx_id);
    lemma_run_records(PaymentsState::initial(), records, tx_id);
    lemma_recorded_has_event(PaymentsState::initial().transaction_events(tx_id));
}

} // verus!
