//! What holds of every row of the account table.

use crate::domain::account::aggregate::AccountState;
use crate::domain::account::command::AccountCommand;
use crate::domain::account::error::AccountError;
use crate::domain::account::event::AccountEvent;
use crate::domain::account::laws::{lemma_produced_consistent, lemma_produced_prefix, produced};
use crate::domain::fixed::{lemma_minus_exact, lemma_plus_exact, lemma_units_sign, Fixed, MAX_SCALE};
use crate::query::account::AccountRow;
use vstd::prelude::*;

verus! {

/// Every amount in the history is one a decimal can hold.
pub open spec fn representable_amounts(events: Seq<AccountEvent>) -> bool {
    forall|i: int| 0 <= i < events.len() ==> (#[trigger] events[i]).amount().is_representable()
}

impl AccountRow {
    /// The total is the sum of the available and the held funds.
    pub open spec fn balanced(self) -> bool {
        &&& self.available.scale <= MAX_SCALE
        &&& self.held.scale <= MAX_SCALE
        &&& self.total.scale <= MAX_SCALE
        &&& self.total.units() == self.available.units() + self.held.units()
    }
}

/// An event keeps a row balanced.
pub proof fn lemma_update_keeps_balanced(row: AccountRow, event: AccountEvent)
    requires
        row.balanced(),
        event.amount().is_representable(),
        row.update(event) is Some,
    ensures
        row.update(event).unwrap().balanced(),
{
    let amount = event.amount()@;
    match event {
        AccountEvent::AccountDeposited(_) => {
            lemma_plus_exact(row.available, amount);
            lemma_plus_exact(row.total, amount);
        },
        AccountEvent::AccountWithdrawn(_) => {
            lemma_minus_exact(row.available, amount);
            lemma_minus_exact(row.total, amount);
        },
        AccountEvent::FundsDisputed(_) => {
            lemma_minus_exact(row.available, amount);
            lemma_plus_exact(row.held, amount);
        },
        AccountEvent::DisputeResolved(_) => {
            lemma_plus_exact(row.available, amount);
            lemma_minus_exact(row.held, amount);
        },
        AccountEvent::DisputeChargedback(_) => {
            lemma_minus_exact(row.held, amount);
            lemma_minus_exact(row.total, amount);
        },
    }
}

/// Whatever the events, the row they fold into is balanced: its total is
/// the sum of its available and its held funds.
pub proof fn lemma_total_is_available_plus_held(events: Seq<AccountEvent>)
    requires
        representable_amounts(events),
        AccountRow::project(events) is Some,
    ensures
        AccountRow::project(events).unwrap().balanced(),
    decreases events.len(),
{
    if events.len() > 0 {
        assert(representable_amounts(events.drop_last())) by {
            assert forall|i: int| 0 <= i < events.drop_last().len() implies (
            #[trigger] events.drop_last()[i]).amount().is_representable() by {
                assert(events.drop_last()[i] == events[i]);
            }
        }
        lemma_total_is_available_plus_held(events.drop_last());
        assert(events.last() == events[events.len() - 1]);
        lemma_update_keeps_balanced(
            AccountRow::project(events.drop_last()).unwrap(),
            events.last(),
        );
    } else {
        lemma_units_sign(Fixed::zero());
    }
}

/// The row of an account's own history shows the account's balances and
/// its lock, and is balanced.
pub proof fn lemma_row_shows_account(events: Seq<AccountEvent>)
    requires
        produced(events),
        AccountRow::project(events) is Some,
    ensures
        AccountState::replay(events) is Some,
        AccountRow::project(events).unwrap().available == AccountState::replay(
            events,
        ).unwrap().available,
        AccountRow::project(events).unwrap().held == AccountState::replay(events).unwrap().held,
        AccountRow::project(events).unwrap().locked == AccountState::replay(events).unwrap().locked,
        AccountRow::project(events).unwrap().balanced(),
    decreases events.len(),
{
    lemma_produced_consistent(events);
    if events.len() > 0 {
        lemma_row_shows_account(events.drop_last());
        lemma_produced_consistent(events.drop_last());
        let state = AccountState::replay(events.drop_last()).unwrap();
        let row = AccountRow::project(events.drop_last()).unwrap();
        let event = events.last();
        let amount = event.amount()@;
        let command = choose|command: AccountCommand|
            state.decide(command) == Ok::<AccountEvent, AccountError>(event);
        match command {
            AccountCommand::DepositAccount(_) => {
                lemma_plus_exact(row.available, amount);
                lemma_plus_exact(row.total, amount);
            },
            AccountCommand::WithdrawAccount(_) => {
                lemma_minus_exact(row.available, amount);
                lemma_minus_exact(row.total, amount);
            },
            AccountCommand::DisputeFunds(_) => {
                lemma_minus_exact(row.available, amount);
                lemma_plus_exact(row.held, amount);
            },
            AccountCommand::ResolveDispute(p) => {
                let k = state.dispute_position(p.transaction_id@);
                assert(state.is_dispute_at(p.transaction_id@, k));
                assert(state.disputes[k].amount@.is_legal());
                lemma_plus_exact(row.available, amount);
                lemma_minus_exact(row.held, amount);
            },
            AccountCommand::ChargebackDispute(p) => {
                let k = state.dispute_position(p.transaction_id@);
                assert(state.is_dispute_at(p.transaction_id@, k));
                assert(state.disputes[k].amount@.is_legal());
                lemma_minus_exact(row.held, amount);
                lemma_minus_exact(row.total, amount);
            },
        }
    } else {
        lemma_units_sign(Fixed::zero());
    }
}

/// After any beginning of an account's own history, the row is balanced
/// and holds no negative funds: the total is the sum of the available and
/// the held funds, and neither of the two is below zero.
pub proof fn lemma_balances_hold(events: Seq<AccountEvent>, k: int)
    requires
        produced(events),
        0 <= k <= events.len(),
        AccountRow::project(events.take(k)) is Some,
    ensures
        AccountRow::project(events.take(k)).unwrap().balanced(),
        AccountRow::project(events.take(k)).unwrap().held.units() >= 0,
        AccountRow::project(events.take(k)).unwrap().available.units() >= 0,
{
    lemma_produced_prefix(events, k);
    lemma_row_shows_account(events.take(k));
    lemma_produced_consistent(events.take(k));
}

/// The funds that a history of events holds: what its disputes moved to
/// held, less what its resolves and chargebacks took from it, in units of
/// `10^-28`.
pub open spec fn held_units(events: Seq<AccountEvent>) -> int
    decreases events.len(),
{
    if events.len() == 0 {
        0
    } else {
        held_units(events.drop_last()) + (match events.last() {
            AccountEvent::FundsDisputed(p) => p.amount@.units(),
            AccountEvent::DisputeResolved(p) => -p.amount@.units(),
            AccountEvent::DisputeChargedback(p) => -p.amount@.units(),
            _ => 0,
        })
    }
}

/// The held funds of a row are the disputed amounts less the resolved and
/// the charged-back ones.
pub proof fn lemma_held_is_disputed_less_settled(events: Seq<AccountEvent>)
    requires
        representable_amounts(events),
        AccountRow::project(events) is Some,
    ensures
        AccountRow::project(events).unwrap().held.scale <= MAX_SCALE,
        AccountRow::project(events).unwrap().held.units() == held_units(events),
    decreases events.len(),
{
    if events.len() > 0 {
        assert(representable_amounts(events.drop_last())) by {
            assert forall|i: int| 0 <= i < events.drop_last().len() implies (
            #[trigger] events.drop_last()[i]).amount().is_representable() by {
                assert(events.drop_last()[i] == events[i]);
            }
        }
        lemma_held_is_disputed_less_settled(events.drop_last());
        assert(events.last() == events[events.len() - 1]);
        let row = AccountRow::project(events.drop_last()).unwrap();
        let amount = events.last().amount()@;
        match events.last() {
            AccountEvent::FundsDisputed(_) => {
                lemma_plus_exact(row.held, amount);
            },
            AccountEvent::DisputeResolved(_) => {
                lemma_minus_exact(row.held, amount);
            },
            AccountEvent::DisputeChargedback(_) => {
                lemma_minus_exact(row.held, amount);
            },
            _ => {},
        }
    } else {
        lemma_units_sign(Fixed::zero());
    }
}

} // verus!
