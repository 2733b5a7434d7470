//! A programmable ledger for one fungible asset: balances, delegated
//! allowances and frozen accounts, and on top of them vesting schedules,
//! conditional transfers and batch transfers.
//!
//! The ledger keeps its records in memory and takes the current tick and the
//! authorizations of an invocation as arguments. Every operation states, over
//! the map of records that is the view of each store, what it returns and
//! what it changes; an operation that is refused changes nothing.

pub mod address;
pub mod admin;
pub mod allowance;
pub mod balance;
pub mod batch;
pub mod conditional;
pub mod contract;
pub mod store;
pub mod vesting;
