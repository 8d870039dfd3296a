//! What holds of every account, whatever commands it is given.

use crate::domain::account::aggregate::{
    lemma_apply_wf, lemma_dispute_position, lemma_same_disputes, lemma_with_dispute,
    lemma_without_dispute, AccountState, Dispute,
};
use crate::domain::account::command::AccountCommand;
use crate::domain::account::error::AccountError;
use crate::domain::account::event::AccountEvent;
use crate::domain::fixed::{
    lemma_minus_exact, lemma_plus_exact, lemma_units_sign, Fixed, MAX_SCALE,
};
use vstd::prelude::*;

verus! {

/// The funds under dispute: the sum of the amounts of the open disputes,
/// in units of `10^-28`.
pub open spec fn disputed_units(disputes: Seq<Dispute>) -> int
    decreases disputes.len(),
{
    if disputes.len() == 0 {
        0
    } else {
        disputed_units(disputes.drop_last()) + disputes.last().amount@.units()
    }
}

/// Every open dispute is for a legal amount.
pub open spec fn legal_disputes(disputes: Seq<Dispute>) -> bool {
    forall|i: int| 0 <= i < disputes.len() ==> (#[trigger] disputes[i]).amount@.is_legal()
}

impl AccountState {
    /// What the account's own decisions keep true: no transaction is
    /// disputed twice, every open dispute is for a legal amount, the held
    /// funds are exactly the funds under dispute, and neither balance is
    /// negative.
    pub open spec fn consistent(self) -> bool {
        &&& self.wf()
        &&& self.available.scale <= MAX_SCALE
        &&& self.held.scale <= MAX_SCALE
        &&& legal_disputes(self.disputes)
        &&& self.available.units() >= 0
        &&& self.held.units() >= 0
        &&& self.held.units() == disputed_units(self.disputes)
    }

    /// Whether the account decides for this event on some command.
    pub open spec fn decides(self, event: AccountEvent) -> bool {
        exists|command: AccountCommand|
            self.decide(command) == Ok::<AccountEvent, AccountError>(event)
    }
}

/// Whether a history is one that an account produced itself: each event
/// is what the account decided on some command, in the state the earlier
/// events led to, and is one the account can take.
pub open spec fn produced(events: Seq<AccountEvent>) -> bool
    decreases events.len(),
{
    events.len() == 0 || (produced(events.drop_last()) && match AccountState::replay(
        events.drop_last(),
    ) {
        Some(state) => state.decides(events.last()) && state.apply(events.last()) is Some,
        None => false,
    })
}

proof fn lemma_disputed_units_remove(disputes: Seq<Dispute>, k: int)
    requires
        0 <= k < disputes.len(),
    ensures
        disputed_units(disputes.remove(k)) == disputed_units(disputes)
            - disputes[k].amount@.units(),
    decreases disputes.len(),
{
    if k == disputes.len() - 1 {
        assert(disputes.remove(k) =~= disputes.drop_last());
    } else {
        lemma_disputed_units_remove(disputes.drop_last(), k);
        assert(disputes.remove(k).drop_last() =~= disputes.drop_last().remove(k));
        assert(disputes.remove(k).last() == disputes.last());
    }
}

proof fn lemma_disputed_units_not_negative(disputes: Seq<Dispute>)
    requires
        legal_disputes(disputes),
    ensures
        disputed_units(disputes) >= 0,
    decreases disputes.len(),
{
    if disputes.len() > 0 {
        assert(legal_disputes(disputes.drop_last())) by {
            assert forall|i: int| 0 <= i < disputes.drop_last().len() implies (
            #[trigger] disputes.drop_last()[i]).amount@.is_legal() by {
                assert(disputes.drop_last()[i] == disputes[i]);
            }
        }
        lemma_disputed_units_not_negative(disputes.drop_last());
        lemma_units_sign(disputes.last().amount@);
    }
}

/// A decision of a consistent account leaves it consistent.
pub proof fn lemma_decision_keeps_consistent(state: AccountState, command: AccountCommand)
    requires
        state.consistent(),
        state.decide(command) is Ok,
        state.apply(state.decide(command).unwrap()) is Some,
    ensures
        state.apply(state.decide(command).unwrap()).unwrap().consistent(),
{
    let event = state.decide(command).unwrap();
    let next = state.apply(event).unwrap();
    let amount = event.amount()@;
    lemma_apply_wf(state, event);
    match command {
        AccountCommand::DepositAccount(p) => {
            lemma_units_sign(amount);
            lemma_plus_exact(state.available, amount);
        },
        AccountCommand::WithdrawAccount(p) => {
            lemma_units_sign(amount);
            lemma_minus_exact(state.available, amount);
        },
        AccountCommand::DisputeFunds(p) => {
            lemma_units_sign(amount);
            lemma_minus_exact(state.available, amount);
            lemma_plus_exact(state.held, amount);
            assert(next.disputes == state.disputes.push(
                Dispute { transaction_id: p.transaction_id, amount: p.amount },
            ));
            assert(next.disputes.drop_last() =~= state.disputes);
        },
        AccountCommand::ResolveDispute(p) => {
            let k = state.dispute_position(p.transaction_id@);
            assert(state.is_dispute_at(p.transaction_id@, k));
            assert(state.disputes[k].amount@.is_legal());
            lemma_units_sign(amount);
            lemma_plus_exact(state.available, amount);
            lemma_minus_exact(state.held, amount);
            lemma_disputed_units_remove(state.disputes, k);
            assert(legal_disputes(next.disputes)) by {
                assert forall|i: int| 0 <= i < next.disputes.len() implies (
                #[trigger] next.disputes[i]).amount@.is_legal() by {
                    let i0 = if i < k { i } else { i + 1 };
                    assert(next.disputes[i] == state.disputes[i0]);
                }
            }
            lemma_disputed_units_not_negative(next.disputes);
        },
        AccountCommand::ChargebackDispute(p) => {
            let k = state.dispute_position(p.transaction_id@);
            assert(state.is_dispute_at(p.transaction_id@, k));
            assert(state.disputes[k].amount@.is_legal());
            lemma_units_sign(amount);
            lemma_minus_exact(state.held, amount);
            lemma_disputed_units_remove(state.disputes, k);
            let rest = state.disputes.remove(k);
            assert(legal_disputes(rest)) by {
                assert forall|i: int| 0 <= i < rest.len() implies (
                #[trigger] rest[i]).amount@.is_legal() by {
                    let i0 = if i < k { i } else { i + 1 };
                    assert(rest[i] == state.disputes[i0]);
                }
            }
            lemma_disputed_units_not_negative(rest);
        },
    }
}

/// A history that an account produced can be replayed, and leads to a
/// consistent state.
pub proof fn lemma_produced_consistent(events: Seq<AccountEvent>)
    requires
        produced(events),
    ensures
        AccountState::replay(events) is Some,
        AccountState::replay(events).unwrap().consistent(),
    decreases events.len(),
{
    if events.len() > 0 {
        lemma_produced_consistent(events.drop_last());
        let state = AccountState::replay(events.drop_last()).unwrap();
        let command = choose|command: AccountCommand|
            state.decide(command) == Ok::<AccountEvent, AccountError>(events.last());
        lemma_decision_keeps_consistent(state, command);
    } else {
        assert(disputed_units(AccountState::initial().disputes) == 0);
        lemma_units_sign(Fixed::zero());
    }
}

/// Every beginning of a history that an account produced is one too.
pub proof fn lemma_produced_prefix(events: Seq<AccountEvent>, k: int)
    requires
        produced(events),
        0 <= k <= events.len(),
    ensures
        produced(events.take(k)),
    decreases events.len(),
{
    if k == events.len() {
        assert(events.take(k) =~= events);
    } else {
        lemma_produced_prefix(events.drop_last(), k);
        assert(events.take(k) =~= events.drop_last().take(k));
    }
}

/// A locked account decides for no event: whatever the command, it is
/// refused.
pub proof fn lemma_locked_refuses(state: AccountState, command: AccountCommand)
    requires
        state.locked,
    ensures
        state.decide(command) is Err,
        match command {
            AccountCommand::ResolveDispute(_)
            | AccountCommand::ChargebackDispute(_) => state.decide(command) == Err::<
                AccountEvent,
                AccountError,
            >(AccountError::AccountLocked),
            _ => state.decide(command) == Err::<AccountEvent, AccountError>(
                AccountError::AccountLocked,
            ) || state.decide(command) == Err::<AccountEvent, AccountError>(
                AccountError::IllegalAmount,
            ),
        },
{
}

/// No event unlocks an account.
pub proof fn lemma_locked_stays(state: AccountState, event: AccountEvent)
    requires
        state.locked,
        state.apply(event) is Some,
    ensures
        state.apply(event).unwrap().locked,
{
}

/// Once a chargeback has locked an account, the account's history ends:
/// a history that the account produced holds no event after the one that
/// locked it.
pub proof fn lemma_locked_is_final(events: Seq<AccountEvent>, k: int)
    requires
        produced(events),
        0 <= k <= events.len(),
        AccountState::replay(events.take(k)) is Some,
        AccountState::replay(events.take(k)).unwrap().locked,
    ensures
        k == events.len(),
{
    if k < events.len() {
        lemma_produced_prefix(events, k + 1);
        let longer = events.take(k + 1);
        assert(longer.drop_last() =~= events.take(k));
        let state = AccountState::replay(events.take(k)).unwrap();
        let command = choose|command: AccountCommand|
            state.decide(command) == Ok::<AccountEvent, AccountError>(longer.last());
        lemma_locked_refuses(state, command);
    }
}

/// A decision on a dispute is not taken twice: once an account has taken
/// the event of a dispute, a resolve or a chargeback, it refuses the
/// same command.
pub proof fn lemma_decision_not_repeated(state: AccountState, command: AccountCommand)
    requires
        state.wf(),
        !(command is DepositAccount),
        !(command is WithdrawAccount),
        state.decide(command) is Ok,
        state.apply(state.decide(command).unwrap()) is Some,
    ensures
        state.apply(state.decide(command).unwrap()).unwrap().decide(command) is Err,
{
    let event = state.decide(command).unwrap();
    let next = state.apply(event).unwrap();
    match command {
        AccountCommand::DisputeFunds(p) => {
            assert(next.is_dispute_at(p.transaction_id@, state.disputes.len() as int));
        },
        AccountCommand::ResolveDispute(p) => {
            let k = state.dispute_position(p.transaction_id@);
            assert(state.is_dispute_at(p.transaction_id@, k));
            if next.has_dispute(p.transaction_id@) {
                let i = next.dispute_position(p.transaction_id@);
                assert(next.is_dispute_at(p.transaction_id@, i));
                let i0 = if i < k { i } else { i + 1 };
                assert(next.disputes[i] == state.disputes[i0]);
                assert(state.is_dispute_at(p.transaction_id@, i0));
                lemma_dispute_position(state, p.transaction_id@, i0);
            }
        },
        _ => {},
    }
}

/// Whether, by its events, an account has been asked to hold funds for a
/// transaction and the dispute has not been settled since: the last event
/// about the transaction's dispute is the dispute itself, not a resolve
/// or a chargeback.
pub open spec fn disputed_and_not_settled(events: Seq<AccountEvent>, transaction_id: Seq<char>)
    -> bool
    decreases events.len(),
{
    if events.len() == 0 {
        false
    } else if events.last().transaction_id()@ == transaction_id && events.last() is FundsDisputed {
        true
    } else if events.last().transaction_id()@ == transaction_id && (events.last() is DisputeResolved
        || events.last() is DisputeChargedback) {
        false
    } else {
        disputed_and_not_settled(events.drop_last(), transaction_id)
    }
}

/// After any events, no transaction is under dispute twice, and a
/// transaction is under dispute exactly when it was disputed and the
/// dispute has not been settled since by a resolve or a chargeback.
pub proof fn lemma_open_disputes(events: Seq<AccountEvent>, transaction_id: Seq<char>)
    requires
        AccountState::replay(events) is Some,
    ensures
        AccountState::replay(events).unwrap().wf(),
        AccountState::replay(events).unwrap().has_dispute(transaction_id)
            == disputed_and_not_settled(events, transaction_id),
    decreases events.len(),
{
    if events.len() > 0 {
        lemma_open_disputes(events.drop_last(), transaction_id);
        let state = AccountState::replay(events.drop_last()).unwrap();
        let event = events.last();
        let next = state.apply(event).unwrap();
        lemma_apply_wf(state, event);
        lemma_with_dispute(state, event.transaction_id(), event.amount());
        lemma_without_dispute(state, event.transaction_id()@);
        lemma_same_disputes(
            state.with_disputes(state.disputes_after(event)),
            next,
            transaction_id,
        );
    } else {
        assert(!AccountState::initial().has_dispute(transaction_id)) by {
            if AccountState::initial().has_dispute(transaction_id) {
                let i = AccountState::initial().dispute_position(transaction_id);
                assert(AccountState::initial().is_dispute_at(transaction_id, i));
            }
        }
    }
}

} // verus!
