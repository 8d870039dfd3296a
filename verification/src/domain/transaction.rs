//! The transaction aggregate: it records each transaction once, and
//! remembers its kind and amount for later disputes.

pub mod aggregate;
pub mod command;
pub mod error;
pub mod event;
