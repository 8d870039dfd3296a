//! The account aggregate: its commands, its events, and the rules that
//! turn the one into the other.

pub mod aggregate;
pub mod command;
pub mod error;
pub mod event;
pub mod laws;
