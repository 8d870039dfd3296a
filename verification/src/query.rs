//! Read models folded from the event streams.

pub mod account;
pub mod laws;
