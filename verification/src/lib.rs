//! A small payments engine: an ordered stream of deposits, withdrawals,
//! disputes, resolutions and chargebacks is applied to per-client accounts.
//!
//! Balances are fixed-point integers with four fractional digits. Every
//! operation either takes effect completely or leaves the engine untouched.

pub mod account;
pub mod amount;
pub mod engine;
pub mod error;
pub mod laws;
pub mod transaction;

pub use account::{Account, AccountSer};
pub use engine::{Engine, Ledger};
pub use error::Error;
pub use transaction::{Disputed, Event, Executed, Received, Reverted, State, Transaction, Tx, TxState};
