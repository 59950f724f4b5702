//! The requests that the multisig answers, one file for each group of accounts.
pub mod administration;
pub mod approval;
pub mod new_multisig;
pub mod new_transaction;
