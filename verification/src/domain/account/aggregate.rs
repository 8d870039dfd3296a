//! The account aggregate: the balance of one client, the disputes open on
//! it, and the rules by which commands become events.

use crate::domain::account::command::{
    AccountCommand, ChargebackDisputePayload, DepositAccountPayload, DisputeFundsPayload,
    ResolveDisputePayload, WithdrawAccountPayload,
};
use crate::domain::account::error::AccountError;
use crate::domain::account::event::{
    AccountDepositedPayload, AccountEvent, AccountWithdrawnPayload, DisputeChargedbackPayload,
    DisputeResolvedPayload, FundsDisputedPayload,
};
use crate::domain::account::laws::lemma_decision_keeps_consistent;
use crate::domain::fixed::Fixed;
use crate::domain::props::{Amount, TransactionId};
use vstd::prelude::*;
use vstd::string::StringExecFns;

verus! {

/// A dispute that is open on an account: the disputed transaction and the
/// amount held for it.
#[derive(Debug)]
pub struct Dispute {
    pub transaction_id: TransactionId,
    pub amount: Amount,
}

/// The state of an account as mathematics sees it.
pub struct AccountState {
    pub locked: bool,
    pub available: Fixed,
    pub held: Fixed,
    pub disputes: Seq<Dispute>,
}

impl AccountState {
    /// An account before its first event: unlocked, empty, undisputed.
    pub open spec fn initial() -> AccountState {
        AccountState {
            locked: false,
            available: Fixed::zero(),
            held: Fixed::zero(),
            disputes: Seq::empty(),
        }
    }

    /// No transaction is under dispute twice.
    pub open spec fn wf(self) -> bool {
        forall|i: int, j: int|
            0 <= i < j < self.disputes.len() ==> self.disputes[i].transaction_id@
                != self.disputes[j].transaction_id@
    }

    /// Whether the dispute at a position is the one on the transaction.
    pub open spec fn is_dispute_at(self, transaction_id: Seq<char>, i: int) -> bool {
        0 <= i < self.disputes.len() && self.disputes[i].transaction_id@ == transaction_id
    }

    /// Whether a dispute is open on the transaction.
    pub open spec fn has_dispute(self, transaction_id: Seq<char>) -> bool {
        exists|i: int| self.is_dispute_at(transaction_id, i)
    }

    /// Where the dispute on the transaction stands among the open ones.
    pub open spec fn dispute_position(self, transaction_id: Seq<char>) -> int {
        choose|i: int| self.is_dispute_at(transaction_id, i)
    }

    /// The amount held for the dispute on the transaction.
    pub open spec fn disputed_amount(self, transaction_id: Seq<char>) -> Amount
        recommends
            self.has_dispute(transaction_id),
    {
        self.disputes[self.dispute_position(transaction_id)].amount
    }

    /// The state with other open disputes.
    pub open spec fn with_disputes(self, disputes: Seq<Dispute>) -> AccountState {
        AccountState { disputes, ..self }
    }

    /// The open disputes once one is recorded for the transaction: a
    /// dispute already open on it is replaced.
    pub open spec fn with_dispute(self, transaction_id: TransactionId, amount: Amount) -> Seq<
        Dispute,
    > {
        if self.has_dispute(transaction_id@) {
            self.disputes.update(
                self.dispute_position(transaction_id@),
                Dispute { transaction_id, amount },
            )
        } else {
            self.disputes.push(Dispute { transaction_id, amount })
        }
    }

    /// The open disputes once the one on the transaction is closed.
    pub open spec fn without_dispute(self, transaction_id: Seq<char>) -> Seq<Dispute> {
        if self.has_dispute(transaction_id) {
            self.disputes.remove(self.dispute_position(transaction_id))
        } else {
            self.disputes
        }
    }

    /// The event a command produces in this state, or the first guard it
    /// fails.
    pub open spec fn decide(self, command: AccountCommand) -> Result<AccountEvent, AccountError> {
        match command {
            AccountCommand::DepositAccount(p) => {
                if !p.amount@.is_legal() {
                    Err(AccountError::IllegalAmount)
                } else if self.locked {
                    Err(AccountError::AccountLocked)
                } else {
                    Ok(
                        AccountEvent::AccountDeposited(
                            AccountDepositedPayload {
                                client_id: p.client_id,
                                transaction_id: p.transaction_id,
                                amount: p.amount,
                            },
                        ),
                    )
                }
            },
            AccountCommand::WithdrawAccount(p) => {
                if !p.amount@.is_legal() {
                    Err(AccountError::IllegalAmount)
                } else if self.locked {
                    Err(AccountError::AccountLocked)
                } else if self.available.less_than(p.amount@) {
                    Err(AccountError::InsufficientFunds)
                } else {
                    Ok(
                        AccountEvent::AccountWithdrawn(
                            AccountWithdrawnPayload {
                                client_id: p.client_id,
                                transaction_id: p.transaction_id,
                                amount: p.amount,
                            },
                        ),
                    )
                }
            },
            AccountCommand::DisputeFunds(p) => {
                if !p.amount@.is_legal() {
                    Err(AccountError::IllegalAmount)
                } else if self.locked {
                    Err(AccountError::AccountLocked)
                } else if self.has_dispute(p.transaction_id@) {
                    Err(AccountError::DuplicateDispute)
                } else if self.available.less_than(p.amount@) {
                    Err(AccountError::InsufficientFunds)
                } else {
                    Ok(
                        AccountEvent::FundsDisputed(
                            FundsDisputedPayload {
                                client_id: p.client_id,
                                transaction_id: p.transaction_id,
                                amount: p.amount,
                            },
                        ),
                    )
                }
            },
            AccountCommand::ResolveDispute(p) => {
                if self.locked {
                    Err(AccountError::AccountLocked)
                } else if !self.has_dispute(p.transaction_id@) {
                    Err(AccountError::DisputeNotFound)
                } else {
                    Ok(
                        AccountEvent::DisputeResolved(
                            DisputeResolvedPayload {
                                client_id: p.client_id,
                                transaction_id: p.transaction_id,
                                amount: self.disputed_amount(p.transaction_id@),
                            },
                        ),
                    )
                }
            },
            AccountCommand::ChargebackDispute(p) => {
                if self.locked {
                    Err(AccountError::AccountLocked)
                } else if !self.has_dispute(p.transaction_id@) {
                    Err(AccountError::DisputeNotFound)
                } else {
                    Ok(
                        AccountEvent::DisputeChargedback(
                            DisputeChargedbackPayload {
                                client_id: p.client_id,
                                transaction_id: p.transaction_id,
                                amount: self.disputed_amount(p.transaction_id@),
                            },
                        ),
                    )
                }
            },
        }
    }

    /// The available and held funds after an event, where both can be
    /// computed exactly.
    pub open spec fn balances_after(self, event: AccountEvent) -> Option<(Fixed, Fixed)> {
        match event {
            AccountEvent::AccountDeposited(p) => match self.available.plus(p.amount@) {
                Some(available) => Some((available, self.held)),
                None => None,
            },
            AccountEvent::AccountWithdrawn(p) => match self.available.minus(p.amount@) {
                Some(available) => Some((available, self.held)),
                None => None,
            },
            AccountEvent::FundsDisputed(p) => match (
                self.available.minus(p.amount@),
                self.held.plus(p.amount@),
            ) {
                (Some(available), Some(held)) => Some((available, held)),
                _ => None,
            },
            AccountEvent::DisputeResolved(p) => match (
                self.available.plus(p.amount@),
                self.held.minus(p.amount@),
            ) {
                (Some(available), Some(held)) => Some((available, held)),
                _ => None,
            },
            AccountEvent::DisputeChargedback(p) => match self.held.minus(p.amount@) {
                Some(held) => Some((self.available, held)),
                None => None,
            },
        }
    }

    /// The open disputes after an event: a dispute opens one, a resolve
    /// and a chargeback each close the one they settle.
    pub open spec fn disputes_after(self, event: AccountEvent) -> Seq<Dispute> {
        match event {
            AccountEvent::FundsDisputed(p) => self.with_dispute(p.transaction_id, p.amount),
            AccountEvent::DisputeResolved(p) => self.without_dispute(p.transaction_id@),
            AccountEvent::DisputeChargedback(p) => self.without_dispute(p.transaction_id@),
            _ => self.disputes,
        }
    }

    /// The state after an event; there is none where a balance cannot be
    /// computed exactly.
    pub open spec fn apply(self, event: AccountEvent) -> Option<AccountState> {
        match self.balances_after(event) {
            Some((available, held)) => Some(
                AccountState {
                    locked: self.locked || event is DisputeChargedback,
                    available,
                    held,
                    disputes: self.disputes_after(event),
                },
            ),
            None => None,
        }
    }

    /// The state that a history of events leads to from a fresh account.
    pub open spec fn replay(events: Seq<AccountEvent>) -> Option<AccountState>
        decreases events.len(),
    {
        if events.len() == 0 {
            Some(AccountState::initial())
        } else {
            match AccountState::replay(events.drop_last()) {
                Some(state) => state.apply(events.last()),
                None => None,
            }
        }
    }
}

/// In a well-formed state a transaction's dispute stands at one place only.
pub proof fn lemma_dispute_position(state: AccountState, transaction_id: Seq<char>, i: int)
    requires
        state.wf(),
        state.is_dispute_at(transaction_id, i),
    ensures
        state.has_dispute(transaction_id),
        state.dispute_position(transaction_id) == i,
{
    let j = state.dispute_position(transaction_id);
    assert(state.is_dispute_at(transaction_id, j));
    if i < j {
        assert(state.disputes[i].transaction_id@ != state.disputes[j].transaction_id@);
    } else if j < i {
        assert(state.disputes[j].transaction_id@ != state.disputes[i].transaction_id@);
    }
}

/// Events keep a state well formed.
pub proof fn lemma_apply_wf(state: AccountState, event: AccountEvent)
    requires
        state.wf(),
        state.apply(event) is Some,
    ensures
        state.apply(event).unwrap().wf(),
{
    let next = state.apply(event).unwrap();
    match event {
        AccountEvent::FundsDisputed(p) => {
            lemma_with_dispute(state, p.transaction_id, p.amount);
        },
        AccountEvent::DisputeResolved(p) => {
            lemma_without_dispute(state, p.transaction_id@);
        },
        AccountEvent::DisputeChargedback(p) => {
            lemma_without_dispute(state, p.transaction_id@);
        },
        _ => {},
    }
}

/// Which disputes are open goes by the disputes alone.
pub proof fn lemma_same_disputes(a: AccountState, b: AccountState, transaction_id: Seq<char>)
    requires
        a.disputes == b.disputes,
    ensures
        a.has_dispute(transaction_id) == b.has_dispute(transaction_id),
{
    if a.has_dispute(transaction_id) {
        let i = a.dispute_position(transaction_id);
        assert(b.is_dispute_at(transaction_id, i));
    }
    if b.has_dispute(transaction_id) {
        let i = b.dispute_position(transaction_id);
        assert(a.is_dispute_at(transaction_id, i));
    }
}

/// Closing the dispute on a transaction leaves the other disputes as they
/// were, each still open once, and none on that transaction.
pub proof fn lemma_without_dispute(state: AccountState, transaction_id: Seq<char>)
    requires
        state.wf(),
    ensures
        state.with_disputes(state.without_dispute(transaction_id)).wf(),
        !state.with_disputes(state.without_dispute(transaction_id)).has_dispute(transaction_id),
        forall|other: Seq<char>|
            other != transaction_id ==> (state.with_disputes(
                state.without_dispute(transaction_id),
            ).has_dispute(other) <==> #[trigger] state.has_dispute(other)),
{
    let next = state.with_disputes(state.without_dispute(transaction_id));
    if state.has_dispute(transaction_id) {
        let k = state.dispute_position(transaction_id);
        assert(state.is_dispute_at(transaction_id, k));
        assert forall|i: int, j: int|
            0 <= i < j < next.disputes.len() implies next.disputes[i].transaction_id@
            != next.disputes[j].transaction_id@ by {
            let i0 = if i < k { i } else { i + 1 };
            let j0 = if j < k { j } else { j + 1 };
            assert(state.disputes[i0].transaction_id@ != state.disputes[j0].transaction_id@);
        }
        if next.has_dispute(transaction_id) {
            let i = next.dispute_position(transaction_id);
            assert(next.is_dispute_at(transaction_id, i));
            let i0 = if i < k { i } else { i + 1 };
            assert(state.is_dispute_at(transaction_id, i0));
            lemma_dispute_position(state, transaction_id, i0);
        }
        assert forall|other: Seq<char>| other != transaction_id implies (next.has_dispute(other)
            <==> #[trigger] state.has_dispute(other)) by {
            if next.has_dispute(other) {
                let i = next.dispute_position(other);
                assert(next.is_dispute_at(other, i));
                let i0 = if i < k { i } else { i + 1 };
                assert(state.is_dispute_at(other, i0));
            }
            if state.has_dispute(other) {
                let i0 = state.dispute_position(other);
                assert(state.is_dispute_at(other, i0));
                let i = if i0 < k { i0 } else { i0 - 1 };
                assert(next.is_dispute_at(other, i));
            }
        }
    }
}

/// Opening a dispute on a transaction leaves the other disputes as they
/// were, and one on that transaction, for the amount given.
pub proof fn lemma_with_dispute(state: AccountState, transaction_id: TransactionId, amount: Amount)
    requires
        state.wf(),
    ensures
        state.with_disputes(state.with_dispute(transaction_id, amount)).wf(),
        state.with_disputes(state.with_dispute(transaction_id, amount)).has_dispute(
            transaction_id@,
        ),
        state.with_disputes(state.with_dispute(transaction_id, amount)).disputed_amount(
            transaction_id@,
        ) == amount,
        forall|other: Seq<char>|
            other != transaction_id@ ==> (state.with_disputes(
                state.with_dispute(transaction_id, amount),
            ).has_dispute(other) <==> #[trigger] state.has_dispute(other)),
{
    let next = state.with_disputes(state.with_dispute(transaction_id, amount));
    let k = if state.has_dispute(transaction_id@) {
        state.dispute_position(transaction_id@)
    } else {
        state.disputes.len() as int
    };
    if state.has_dispute(transaction_id@) {
        assert(state.is_dispute_at(transaction_id@, k));
        assert forall|i: int, j: int|
            0 <= i < j < next.disputes.len() implies next.disputes[i].transaction_id@
            != next.disputes[j].transaction_id@ by {
            assert(state.disputes[i].transaction_id@ != state.disputes[j].transaction_id@);
        }
    } else {
        assert forall|i: int, j: int|
            0 <= i < j < next.disputes.len() implies next.disputes[i].transaction_id@
            != next.disputes[j].transaction_id@ by {
            if j == state.disputes.len() {
                assert(!state.is_dispute_at(transaction_id@, i));
            } else {
                assert(state.disputes[i].transaction_id@ != state.disputes[j].transaction_id@);
            }
        }
    }
    assert(next.is_dispute_at(transaction_id@, k));
    lemma_dispute_position(next, transaction_id@, k);
    assert forall|other: Seq<char>| other != transaction_id@ implies (next.has_dispute(other)
        <==> #[trigger] state.has_dispute(other)) by {
        if next.has_dispute(other) {
            let i = next.dispute_position(other);
            assert(next.is_dispute_at(other, i));
            assert(state.is_dispute_at(other, i));
        }
        if state.has_dispute(other) {
            let i = state.dispute_position(other);
            assert(state.is_dispute_at(other, i));
            assert(next.is_dispute_at(other, i));
        }
    }
}

/// A history that can be replayed can be replayed up to any point.
pub proof fn lemma_replay_prefixes(events: Seq<AccountEvent>)
    requires
        AccountState::replay(events) is Some,
    ensures
        forall|k: int| 0 <= k <= events.len() ==> AccountState::replay(events.take(k)) is Some,
    decreases events.len(),
{
    if events.len() > 0 {
        lemma_replay_prefixes(events.drop_last());
        assert forall|k: int| 0 <= k <= events.len() implies AccountState::replay(
            events.take(k),
        ) is Some by {
            if k == events.len() {
                assert(events.take(k) =~= events);
            } else {
                assert(events.take(k) =~= events.drop_last().take(k));
            }
        }
    } else {
        assert forall|k: int| 0 <= k <= events.len() implies AccountState::replay(
            events.take(k),
        ) is Some by {
            assert(events.take(k) =~= events);
        }
    }
}

/// The account aggregate.
#[derive(Debug)]
pub struct Account {
    locked: bool,
    funds_available: Amount,
    funds_held: Amount,
    disputes: Vec<Dispute>,
}

/// The services an account could call on; it needs none.
pub struct AccountServices {}

impl View for Account {
    type V = AccountState;

    closed spec fn view(&self) -> AccountState {
        AccountState {
            locked: self.locked,
            available: self.funds_available@,
            held: self.funds_held@,
            disputes: self.disputes@,
        }
    }
}

impl Default for Account {
    fn default() -> (r: Account)
        ensures
            r@ == AccountState::initial(),
    {
        Account {
            locked: false,
            funds_available: Amount::zero(),
            funds_held: Amount::zero(),
            disputes: Vec::new(),
        }
    }
}

impl Account {
    /// What holds of every account: no transaction is under dispute twice.
    #[verifier::type_invariant]
    pub open spec fn is_well_formed(&self) -> bool {
        self@.wf()
    }

    /// The name of this kind of aggregate.
    pub fn aggregate_type() -> (r: String)
        ensures
            r@ == "Account"@,
    {
        "Account".to_owned()
    }

    /// Whether a chargeback has locked the account.
    pub fn is_locked(&self) -> (r: bool)
        ensures
            r == self@.locked,
    {
        self.locked
    }

    /// The funds the client can withdraw or have disputed.
    pub fn funds_available(&self) -> (r: Amount)
        ensures
            r@ == self@.available,
    {
        self.funds_available
    }

    /// The funds held for open disputes.
    pub fn funds_held(&self) -> (r: Amount)
        ensures
            r@ == self@.held,
    {
        self.funds_held
    }

    /// Where the dispute on the transaction stands, if one is open.
    fn find_dispute(&self, transaction_id: &TransactionId) -> (r: Option<usize>)
        ensures
            match r {
                Some(i) => self@.is_dispute_at(transaction_id@, i as int),
                None => !self@.has_dispute(transaction_id@),
            },
    {
        let mut i: usize = 0;
        while i < self.disputes.len()
            invariant
                i <= self.disputes.len(),
                forall|j: int| 0 <= j < i ==> !self@.is_dispute_at(transaction_id@, j),
            decreases self.disputes.len() - i,
        {
            if self.disputes[i].transaction_id.0 == transaction_id.0 {
                return Some(i);
            }
            i += 1;
        }
        None
    }

    /// Rebuilds an account from its events; there is none where a balance
    /// on the way cannot be computed exactly.
    pub fn rehydrate(events: &Vec<AccountEvent>) -> (r: Option<Account>)
        ensures
            match AccountState::replay(events@) {
                Some(state) => r matches Some(account) && account@ == state,
                None => r is None,
            },
    {
        let mut account = Account::default();
        let mut i: usize = 0;
        proof {
            assert(events@.take(0) =~= Seq::empty());
        }
        while i < events.len()
            invariant
                i <= events.len(),
                Some(account@) == AccountState::replay(events@.take(i as int)),
            decreases events.len() - i,
        {
            proof {
                assert(events@.take(i + 1).drop_last() =~= events@.take(i as int));
            }
            if !account.accepts(&events[i]) {
                proof {
                    if AccountState::replay(events@) is Some {
                        lemma_replay_prefixes(events@);
                    }
                }
                return None;
            }
            account.apply(events[i].clone());
            i += 1;
        }
        proof {
            assert(events@.take(events@.len() as int) =~= events@);
        }
        Some(account)
    }

    /// Decides a command: the events it produces, or the first guard it
    /// fails. The account itself is not changed. A locked account refuses
    /// every command.
    pub fn handle(&self, command: AccountCommand, _services: &AccountServices) -> (r: Result<
        Vec<AccountEvent>,
        AccountError,
    >)
        ensures
            match self@.decide(command) {
                Ok(event) => r matches Ok(events) && events@ == seq![event],
                Err(error) => r matches Err(e) && e == error,
            },
            self@.locked ==> r is Err,
    {
        match command {
            AccountCommand::DepositAccount(p) => self.deposit(p),
            AccountCommand::WithdrawAccount(p) => self.withdraw(p),
            AccountCommand::DisputeFunds(p) => self.dispute(p),
            AccountCommand::ResolveDispute(p) => self.resolve_dispute(p),
            AccountCommand::ChargebackDispute(p) => self.chargeback_dispute(p),
        }
    }

    /// The available and held funds after an event, where both can be
    /// computed exactly.
    fn balances_after(&self, event: &AccountEvent) -> (r: Option<(Amount, Amount)>)
        ensures
            match self@.balances_after(*event) {
                Some(b) => r matches Some(c) && c.0@ == b.0 && c.1@ == b.1,
                None => r is None,
            },
    {
        match event {
            AccountEvent::AccountDeposited(p) => match self.funds_available.checked_add(&p.amount) {
                Some(available) => Some((available, self.funds_held)),
                None => None,
            },
            AccountEvent::AccountWithdrawn(p) => match self.funds_available.checked_sub(&p.amount) {
                Some(available) => Some((available, self.funds_held)),
                None => None,
            },
            AccountEvent::FundsDisputed(p) => match (
                self.funds_available.checked_sub(&p.amount),
                self.funds_held.checked_add(&p.amount),
            ) {
                (Some(available), Some(held)) => Some((available, held)),
                _ => None,
            },
            AccountEvent::DisputeResolved(p) => match (
                self.funds_available.checked_add(&p.amount),
                self.funds_held.checked_sub(&p.amount),
            ) {
                (Some(available), Some(held)) => Some((available, held)),
                _ => None,
            },
            AccountEvent::DisputeChargedback(p) => match self.funds_held.checked_sub(&p.amount) {
                Some(held) => Some((self.funds_available, held)),
                None => None,
            },
        }
    }

    /// Whether the account can take an event: whether the balances after
    /// it can be computed exactly.
    pub fn accepts(&self, event: &AccountEvent) -> (r: bool)
        ensures
            r == (self@.apply(*event) is Some),
    {
        self.balances_after(event).is_some()
    }

    /// Takes an event into the account's state. A dispute opens, a resolve
    /// and a chargeback close the dispute on their transaction; only a
    /// chargeback locks, and nothing unlocks. An event that the account
    /// decided for itself keeps the account consistent: held funds are the
    /// funds under dispute, and no balance is negative.
    pub fn apply(&mut self, event: AccountEvent)
        requires
            old(self)@.apply(event) is Some,
        ensures
            Some(final(self)@) == old(self)@.apply(event),
            final(self)@.locked == (old(self)@.locked || event is DisputeChargedback),
            event is FundsDisputed ==> final(self)@.has_dispute(event.transaction_id()@),
            event is DisputeResolved || event is DisputeChargedback ==> !final(self)@.has_dispute(
                event.transaction_id()@,
            ),
            old(self)@.consistent() && old(self)@.decides(event) ==> final(self)@.consistent(),
    {
        proof {
            use_type_invariant(&*self);
            lemma_apply_wf(self@, event);
            lemma_without_dispute(self@, event.transaction_id()@);
            lemma_with_dispute(self@, event.transaction_id(), event.amount());
            if self@.consistent() && self@.decides(event) {
                let command = choose|command: AccountCommand|
                    self@.decide(command) == Ok::<AccountEvent, AccountError>(event);
                lemma_decision_keeps_consistent(self@, command);
            }
        }
        let ghost before = self@;
        let balances = self.balances_after(&event);
        let found = match &event {
            AccountEvent::FundsDisputed(p) => self.find_dispute(&p.transaction_id),
            AccountEvent::DisputeResolved(p) => self.find_dispute(&p.transaction_id),
            AccountEvent::DisputeChargedback(p) => self.find_dispute(&p.transaction_id),
            _ => None,
        };
        // The account is taken apart, changed, and put together again.
        let mut taken = Account::default();
        core::mem::swap(self, &mut taken);
        let Account { locked, funds_available, funds_held, disputes } = taken;
        let mut locked = locked;
        let mut disputes = disputes;
        match event {
            AccountEvent::AccountDeposited(_) => {},
            AccountEvent::AccountWithdrawn(_) => {},
            AccountEvent::FundsDisputed(p) => {
                let dispute = Dispute { transaction_id: p.transaction_id, amount: p.amount };
                match found {
                    Some(i) => {
                        proof {
                            lemma_dispute_position(before, p.transaction_id@, i as int);
                        }
                        disputes.set(i, dispute);
                    },
                    None => {
                        disputes.push(dispute);
                    },
                }
            },
            AccountEvent::DisputeResolved(p) => {
                match found {
                    Some(i) => {
                        proof {
                            lemma_dispute_position(before, p.transaction_id@, i as int);
                        }
                        let _ = disputes.remove(i);
                    },
                    None => {},
                }
            },
            AccountEvent::DisputeChargedback(p) => {
                locked = true;
                match found {
                    Some(i) => {
                        proof {
                            lemma_dispute_position(before, p.transaction_id@, i as int);
                        }
                        let _ = disputes.remove(i);
                    },
                    None => {},
                }
            },
        }
        let (funds_available, funds_held) = match balances {
            Some(balances) => balances,
            None => (funds_available, funds_held),
        };
        assert(disputes@ =~= before.disputes_after(event));
        *self = Account { locked, funds_available, funds_held, disputes };
        proof {
            lemma_same_disputes(
                before.with_disputes(before.disputes_after(event)),
                self@,
                event.transaction_id()@,
            );
        }
    }

    /// The amount held for the dispute on a transaction, if one is open.
    pub fn open_dispute(&self, transaction_id: &TransactionId) -> (r: Option<Amount>)
        ensures
            r == (if self@.has_dispute(transaction_id@) {
                Some(self@.disputed_amount(transaction_id@))
            } else {
                None
            }),
    {
        match self.find_dispute(transaction_id) {
            Some(i) => {
                proof {
                    use_type_invariant(self);
                    lemma_dispute_position(self@, transaction_id@, i as int);
                }
                Some(self.disputes[i].amount)
            },
            None => None,
        }
    }

    fn deposit(&self, p: DepositAccountPayload) -> (r: Result<Vec<AccountEvent>, AccountError>)
        ensures
            match self@.decide(AccountCommand::DepositAccount(p)) {
                Ok(event) => r matches Ok(events) && events@ == seq![event],
                Err(error) => r matches Err(e) && e == error,
            },
    {
        require_legal_amount(&p.amount)?;
        require_active_account(self)?;

        Ok(
            vec![
                AccountEvent::AccountDeposited(
                    AccountDepositedPayload {
                        client_id: p.client_id,
                        transaction_id: p.transaction_id,
                        amount: p.amount,
                    },
                ),
            ],
        )
    }

    fn withdraw(&self, p: WithdrawAccountPayload) -> (r: Result<Vec<AccountEvent>, AccountError>)
        ensures
            match self@.decide(AccountCommand::WithdrawAccount(p)) {
                Ok(event) => r matches Ok(events) && events@ == seq![event],
                Err(error) => r matches Err(e) && e == error,
            },
    {
        require_legal_amount(&p.amount)?;
        require_active_account(self)?;
        require_sufficient_funds(self, &p.amount)?;

        Ok(
            vec![
                AccountEvent::AccountWithdrawn(
                    AccountWithdrawnPayload {
                        client_id: p.client_id,
                        transaction_id: p.transaction_id,
                        amount: p.amount,
                    },
                ),
            ],
        )
    }

    fn dispute(&self, p: DisputeFundsPayload) -> (r: Result<Vec<AccountEvent>, AccountError>)
        ensures
            match self@.decide(AccountCommand::DisputeFunds(p)) {
                Ok(event) => r matches Ok(events) && events@ == seq![event],
                Err(error) => r matches Err(e) && e == error,
            },
    {
        require_legal_amount(&p.amount)?;
        require_active_account(self)?;
        require_no_active_dispute(self, &p.transaction_id)?;
        require_sufficient_funds(self, &p.amount)?;

        Ok(
            vec![
                AccountEvent::FundsDisputed(
                    FundsDisputedPayload {
                        client_id: p.client_id,
                        transaction_id: p.transaction_id,
                        amount: p.amount,
                    },
                ),
            ],
        )
    }

    fn resolve_dispute(&self, p: ResolveDisputePayload) -> (r: Result<
        Vec<AccountEvent>,
        AccountError,
    >)
        ensures
            match self@.decide(AccountCommand::ResolveDispute(p)) {
                Ok(event) => r matches Ok(events) && events@ == seq![event],
                Err(error) => r matches Err(e) && e == error,
            },
    {
        require_active_account(self)?;

        let dispute = require_dispute(self, &p.transaction_id)?;

        Ok(
            vec![
                AccountEvent::DisputeResolved(
                    DisputeResolvedPayload {
                        client_id: p.client_id,
                        transaction_id: p.transaction_id,
                        amount: dispute,
                    },
                ),
            ],
        )
    }

    fn chargeback_dispute(&self, p: ChargebackDisputePayload) -> (r: Result<
        Vec<AccountEvent>,
        AccountError,
    >)
        ensures
            match self@.decide(AccountCommand::ChargebackDispute(p)) {
                Ok(event) => r matches Ok(events) && events@ == seq![event],
                Err(error) => r matches Err(e) && e == error,
            },
    {
        require_active_account(self)?;

        let dispute = require_dispute(self, &p.transaction_id)?;

        Ok(
            vec![
                AccountEvent::DisputeChargedback(
                    DisputeChargedbackPayload {
                        client_id: p.client_id,
                        transaction_id: p.transaction_id,
                        amount: dispute,
                    },
                ),
            ],
        )
    }
}

fn require_legal_amount(amount: &Amount) -> (r: Result<(), AccountError>)
    ensures
        r == (if amount@.is_legal() {
            Ok::<(), AccountError>(())
        } else {
            Err(AccountError::IllegalAmount)
        }),
{
    if !amount.is_legal() {
        return Err(AccountError::IllegalAmount);
    }
    Ok(())
}

fn require_active_account(account: &Account) -> (r: Result<(), AccountError>)
    ensures
        r == (if account@.locked {
            Err::<(), AccountError>(AccountError::AccountLocked)
        } else {
            Ok(())
        }),
{
    if account.locked {
        return Err(AccountError::AccountLocked);
    }
    Ok(())
}

fn require_sufficient_funds(account: &Account, amount: &Amount) -> (r: Result<(), AccountError>)
    ensures
        r == (if account@.available.less_than(amount@) {
            Err::<(), AccountError>(AccountError::InsufficientFunds)
        } else {
            Ok(())
        }),
{
    if account.funds_available.less_than(amount) {
        return Err(AccountError::InsufficientFunds);
    }
    Ok(())
}

fn require_dispute(account: &Account, transaction_id: &TransactionId) -> (r: Result<
    Amount,
    AccountError,
>)
    ensures
        r == (if account@.has_dispute(transaction_id@) {
            Ok::<Amount, AccountError>(account@.disputed_amount(transaction_id@))
        } else {
            Err(AccountError::DisputeNotFound)
        }),
{
    match account.open_dispute(transaction_id) {
        Some(amount) => Ok(amount),
        None => Err(AccountError::DisputeNotFound),
    }
}

fn require_no_active_dispute(account: &Account, transaction_id: &TransactionId) -> (r: Result<
    (),
    AccountError,
>)
    ensures
        r == (if account@.has_dispute(transaction_id@) {
            Err::<(), AccountError>(AccountError::DuplicateDispute)
        } else {
            Ok(())
        }),
{
    if account.find_dispute(transaction_id).is_some() {
        return Err(AccountError::DuplicateDispute);
    }
    Ok(())
}

/// The identifier under which a client's account keeps its events.
pub fn acc_aggregate_id(id: &str) -> (r: String)
    ensures
        r@ == "Account-"@ + id@,
{
    String::from_str("Account-").concat(id)
}

} // verus!
