//! The domain model: identifiers, amounts and the two aggregates.

pub mod account;
pub mod decimal;
pub mod fixed;
pub mod props;
pub mod transaction;
