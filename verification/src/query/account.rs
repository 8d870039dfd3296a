//! The account view: one row of balances per account, folded from the
//! account's events.

use crate::domain::account::event::AccountEvent;
use crate::domain::decimal::decimal_text;
use crate::domain::fixed::Fixed;
use crate::domain::props::Amount;
use crate::query::laws::lemma_update_keeps_balanced;
use vstd::prelude::*;

verus! {

/// A row of the account table as mathematics sees it.
pub struct AccountRow {
    pub client_id: Seq<char>,
    pub available: Fixed,
    pub held: Fixed,
    pub total: Fixed,
    pub locked: bool,
}

impl AccountRow {
    /// The row of an account before its first event.
    pub open spec fn initial() -> AccountRow {
        AccountRow {
            client_id: Seq::empty(),
            available: Fixed::zero(),
            held: Fixed::zero(),
            total: Fixed::zero(),
            locked: false,
        }
    }

    /// The available, held and total funds after an event, where all of
    /// them can be computed exactly.
    pub open spec fn balances_after(self, event: AccountEvent) -> Option<(Fixed, Fixed, Fixed)> {
        match event {
            AccountEvent::AccountDeposited(p) => match (
                self.available.plus(p.amount@),
                self.total.plus(p.amount@),
            ) {
                (Some(available), Some(total)) => Some((available, self.held, total)),
                _ => None,
            },
            AccountEvent::AccountWithdrawn(p) => match (
                self.available.minus(p.amount@),
                self.total.minus(p.amount@),
            ) {
                (Some(available), Some(total)) => Some((available, self.held, total)),
                _ => None,
            },
            AccountEvent::FundsDisputed(p) => match (
                self.available.minus(p.amount@),
                self.held.plus(p.amount@),
            ) {
                (Some(available), Some(held)) => Some((available, held, self.total)),
                _ => None,
            },
            AccountEvent::DisputeResolved(p) => match (
                self.available.plus(p.amount@),
                self.held.minus(p.amount@),
            ) {
                (Some(available), Some(held)) => Some((available, held, self.total)),
                _ => None,
            },
            AccountEvent::DisputeChargedback(p) => match (
                self.held.minus(p.amount@),
                self.total.minus(p.amount@),
            ) {
                (Some(held), Some(total)) => Some((self.available, held, total)),
                _ => None,
            },
        }
    }

    /// The row after an event; there is none where a balance cannot be
    /// computed exactly. A deposit names the client, a chargeback locks.
    pub open spec fn update(self, event: AccountEvent) -> Option<AccountRow> {
        match self.balances_after(event) {
            Some((available, held, total)) => Some(
                AccountRow {
                    client_id: match event {
                        AccountEvent::AccountDeposited(p) => p.client_id@,
                        _ => self.client_id,
                    },
                    available,
                    held,
                    total,
                    locked: self.locked || event is DisputeChargedback,
                },
            ),
            None => None,
        }
    }

    /// The row that a history of events folds into.
    pub open spec fn project(events: Seq<AccountEvent>) -> Option<AccountRow>
        decreases events.len(),
    {
        if events.len() == 0 {
            Some(AccountRow::initial())
        } else {
            match AccountRow::project(events.drop_last()) {
                Some(row) => row.update(events.last()),
                None => None,
            }
        }
    }

    /// The fields of the row as the account table prints them.
    pub open spec fn record(self) -> Seq<Seq<char>> {
        seq![
            self.client_id,
            decimal_text(self.available.mantissa, self.available.scale),
            decimal_text(self.held.mantissa, self.held.scale),
            decimal_text(self.total.mantissa, self.total.scale),
            if self.locked { "true"@ } else { "false"@ },
        ]
    }
}

/// A history that folds into a row folds into one up to any point.
pub proof fn lemma_project_prefixes(events: Seq<AccountEvent>)
    requires
        AccountRow::project(events) is Some,
    ensures
        forall|k: int| 0 <= k <= events.len() ==> AccountRow::project(events.take(k)) is Some,
    decreases events.len(),
{
    if events.len() > 0 {
        lemma_project_prefixes(events.drop_last());
        assert forall|k: int| 0 <= k <= events.len() implies AccountRow::project(
            events.take(k),
        ) is Some by {
            if k == events.len() {
                assert(events.take(k) =~= events);
            } else {
                assert(events.take(k) =~= events.drop_last().take(k));
            }
        }
    } else {
        assert forall|k: int| 0 <= k <= events.len() implies AccountRow::project(
            events.take(k),
        ) is Some by {
            assert(events.take(k) =~= events);
        }
    }
}

/// The names of the columns of the account table.
pub open spec fn header_record() -> Seq<Seq<char>> {
    seq!["client"@, "available"@, "held"@, "total"@, "locked"@]
}

/// The account table as it is printed: the header, then the rows.
pub open spec fn table_records(rows: Seq<AccountRow>) -> Seq<Seq<Seq<char>>> {
    seq![header_record()] + rows.map_values(|row: AccountRow| row.record())
}

/// The texts that the fields of a line hold.
pub open spec fn texts_of(fields: Seq<String>) -> Seq<Seq<char>> {
    fields.map_values(|field: String| field@)
}

/// The texts that the lines of a table hold.
pub open spec fn lines_of(lines: Seq<Vec<String>>) -> Seq<Seq<Seq<char>>> {
    lines.map_values(|line: Vec<String>| texts_of(line@))
}

/// The rows that the rows of a table stand for.
pub open spec fn rows_of(rows: Seq<AccountView>) -> Seq<AccountRow> {
    rows.map_values(|row: AccountView| row@)
}

/// One row of the account table.
#[derive(Debug, PartialEq)]
pub struct AccountView {
    pub client_id: String,
    pub available_funds: Amount,
    pub held_funds: Amount,
    pub total_funds: Amount,
    pub is_locked: bool,
}

impl View for AccountView {
    type V = AccountRow;

    open spec fn view(&self) -> AccountRow {
        AccountRow {
            client_id: self.client_id@,
            available: self.available_funds@,
            held: self.held_funds@,
            total: self.total_funds@,
            locked: self.is_locked,
        }
    }
}

impl Default for AccountView {
    fn default() -> (r: AccountView)
        ensures
            r@ == AccountRow::initial(),
    {
        AccountView {
            client_id: String::new(),
            available_funds: Amount::zero(),
            held_funds: Amount::zero(),
            total_funds: Amount::zero(),
            is_locked: false,
        }
    }
}

impl Clone for AccountView {
    fn clone(&self) -> (r: Self)
        ensures
            r == *self,
    {
        AccountView {
            client_id: self.client_id.clone(),
            available_funds: self.available_funds,
            held_funds: self.held_funds,
            total_funds: self.total_funds,
            is_locked: self.is_locked,
        }
    }
}

impl AccountView {
    /// The available, held and total funds after an event, where all of
    /// them can be computed exactly.
    fn balances_after(&self, event: &AccountEvent) -> (r: Option<(Amount, Amount, Amount)>)
        ensures
            match self@.balances_after(*event) {
                Some(b) => r matches Some(c) && c.0@ == b.0 && c.1@ == b.1 && c.2@ == b.2,
                None => r is None,
            },
            event.amount().is_representable(),
    {
        proof {
            match event {
                AccountEvent::AccountDeposited(p) => use_type_invariant(&p.amount),
                AccountEvent::AccountWithdrawn(p) => use_type_invariant(&p.amount),
                AccountEvent::FundsDisputed(p) => use_type_invariant(&p.amount),
                AccountEvent::DisputeResolved(p) => use_type_invariant(&p.amount),
                AccountEvent::DisputeChargedback(p) => use_type_invariant(&p.amount),
            }
        }
        match event {
            AccountEvent::AccountDeposited(p) => match (
                self.available_funds.checked_add(&p.amount),
                self.total_funds.checked_add(&p.amount),
            ) {
                (Some(available), Some(total)) => Some((available, self.held_funds, total)),
                _ => None,
            },
            AccountEvent::AccountWithdrawn(p) => match (
                self.available_funds.checked_sub(&p.amount),
                self.total_funds.checked_sub(&p.amount),
            ) {
                (Some(available), Some(total)) => Some((available, self.held_funds, total)),
                _ => None,
            },
            AccountEvent::FundsDisputed(p) => match (
                self.available_funds.checked_sub(&p.amount),
                self.held_funds.checked_add(&p.amount),
            ) {
                (Some(available), Some(held)) => Some((available, held, self.total_funds)),
                _ => None,
            },
            AccountEvent::DisputeResolved(p) => match (
                self.available_funds.checked_add(&p.amount),
                self.held_funds.checked_sub(&p.amount),
            ) {
                (Some(available), Some(held)) => Some((available, held, self.total_funds)),
                _ => None,
            },
            AccountEvent::DisputeChargedback(p) => match (
                self.held_funds.checked_sub(&p.amount),
                self.total_funds.checked_sub(&p.amount),
            ) {
                (Some(held), Some(total)) => Some((self.available_funds, held, total)),
                _ => None,
            },
        }
    }

    /// Folds a history of events into a row; there is none where a balance
    /// on the way cannot be computed exactly.
    pub fn rehydrate(events: &Vec<AccountEvent>) -> (r: Option<AccountView>)
        ensures
            match AccountRow::project(events@) {
                Some(row) => r matches Some(view) && view@ == row,
                None => r is None,
            },
    {
        let mut view = AccountView::default();
        let mut i: usize = 0;
        proof {
            assert(events@.take(0) =~= Seq::empty());
        }
        while i < events.len()
            invariant
                i <= events.len(),
                Some(view@) == AccountRow::project(events@.take(i as int)),
            decreases events.len() - i,
        {
            proof {
                assert(events@.take(i + 1).drop_last() =~= events@.take(i as int));
            }
            if !view.accepts(&events[i]) {
                proof {
                    if AccountRow::project(events@) is Some {
                        lemma_project_prefixes(events@);
                    }
                }
                return None;
            }
            view.update(&events[i]);
            i += 1;
        }
        proof {
            assert(events@.take(events@.len() as int) =~= events@);
        }
        Some(view)
    }

    /// Whether the row can take an event: whether the balances after it
    /// can be computed exactly.
    pub fn accepts(&self, event: &AccountEvent) -> (r: bool)
        ensures
            r == (self@.update(*event) is Some),
    {
        self.balances_after(event).is_some()
    }

    /// Folds an event into the row. A row whose total is the sum of its
    /// available and held funds stays so.
    pub fn update(&mut self, event: &AccountEvent)
        requires
            old(self)@.update(*event) is Some,
        ensures
            Some(final(self)@) == old(self)@.update(*event),
            old(self)@.balanced() ==> final(self)@.balanced(),
    {
        let balances = self.balances_after(event);
        proof {
            if self@.balanced() {
                lemma_update_keeps_balanced(self@, *event);
            }
        }
        match balances {
            Some((available, held, total)) => {
                self.available_funds = available;
                self.held_funds = held;
                self.total_funds = total;
            },
            None => {},
        }
        match event {
            AccountEvent::AccountDeposited(p) => {
                self.client_id = p.client_id.0.clone();
            },
            AccountEvent::AccountWithdrawn(_) => {},
            AccountEvent::FundsDisputed(_) => {},
            AccountEvent::DisputeResolved(_) => {},
            AccountEvent::DisputeChargedback(_) => {
                self.is_locked = true;
            },
        }
    }

    /// The fields of the row as the account table prints them: the client,
    /// the three balances with the fractional digits of their scale, and
    /// the lock in lower case.
    pub fn to_record(&self) -> (r: Vec<String>)
        ensures
            texts_of(r@) == self@.record(),
    {
        let locked = if self.is_locked {
            "true".to_owned()
        } else {
            "false".to_owned()
        };
        let r = vec![
            self.client_id.clone(),
            self.available_funds.to_text(),
            self.held_funds.to_text(),
            self.total_funds.to_text(),
            locked,
        ];
        assert(texts_of(r@) =~= self@.record());
        r
    }
}

/// The header of the account table.
pub fn accounts_header() -> (r: Vec<String>)
    ensures
        texts_of(r@) == header_record(),
{
    let r = vec![
        "client".to_owned(),
        "available".to_owned(),
        "held".to_owned(),
        "total".to_owned(),
        "locked".to_owned(),
    ];
    assert(texts_of(r@) =~= header_record());
    r
}

/// The account table as it is printed: the header, then one line for each
/// row, in the order of the rows.
pub fn accounts_csv(rows: &Vec<AccountView>) -> (lines: Vec<Vec<String>>)
    ensures
        lines_of(lines@) == table_records(rows_of(rows@)),
{
    let mut lines: Vec<Vec<String>> = Vec::new();
    lines.push(accounts_header());
    let mut i: usize = 0;
    proof {
        assert(lines_of(lines@) =~= table_records(rows_of(rows@.take(0))));
    }
    while i < rows.len()
        invariant
            i <= rows.len(),
            lines_of(lines@) == table_records(rows_of(rows@.take(i as int))),
        decreases rows.len() - i,
    {
        let ghost before = lines@;
        lines.push(rows[i].to_record());
        proof {
            assert(rows@.take(i + 1) =~= rows@.take(i as int).push(rows@[i as int]));
            assert(lines_of(lines@) =~= lines_of(before).push(rows@[i as int]@.record()));
            assert(table_records(rows_of(rows@.take(i + 1))) =~= table_records(
                rows_of(rows@.take(i as int)),
            ).push(rows@[i as int]@.record()));
        }
        i += 1;
    }
    proof {
        assert(rows@.take(rows@.len() as int) =~= rows@);
    }
    lines
}

} // verus!
