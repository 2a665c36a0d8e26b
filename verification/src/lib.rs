//! A sharded account ledger.
//!
//! Transactions (deposits, withdrawals, disputes, resolutions and chargebacks)
//! are applied to per-client accounts. Each account enforces its balance,
//! dispute and lock rules; a consistent-hash ring assigns every client to one
//! of a fixed number of independent shards.
//!
//! Monetary arithmetic is done by `rust_decimal`, and the ring is the one of
//! `hashring`; the calls into both are the only unproved parts of the crate.

pub mod account;
pub mod amount;
pub mod ring;
pub mod system;
pub mod transaction;

pub use account::{
    AccountSnapshot, AccountState, AccountView, DepositState, RejectReason, TransitionOutcome,
};
pub use amount::{Amount, AmountView};
pub use system::{AccountSystem, ShardedAccountSystem};
pub use transaction::{RecordError, Transaction};
