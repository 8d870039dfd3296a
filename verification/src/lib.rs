//! A batch payments engine. It reads deposits, withdrawals, disputes,
//! resolves and chargebacks, keeps one event-sourced account per client,
//! and gives the table of the accounts' balances.
//!
//! - [`domain`] holds the amounts and the two aggregates, account and
//!   transaction, with the rules by which commands become events.
//! - [`event_store`] keeps the events of each aggregate, in memory.
//! - [`payments`] is the orchestrator: one record in, commands on the two
//!   aggregates out.
//! - [`query`] folds an account's events into its row of the table.
//! - [`router`] and [`runner`] deal the records out to workers, so that
//!   every client is served by one worker, in the order of the input.
//! - [`csv`] and [`cli`] read the rows of the input and the command line.
//! - [`laws`] states what holds of every run.

pub mod cli;
pub mod csv;
pub mod domain;
pub mod event_store;
pub mod laws;
pub mod payments;
pub mod query;
pub mod router;
pub mod runner;
