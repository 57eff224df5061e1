//! A verified escrow-staking ledger.
//!
//! A user places a unique asset into escrow ("stake") to accrue time-based
//! reward points, reclaims the asset ("unstake") once a minimum lock period
//! has passed, and redeems accumulated points for a fungible reward balance
//! ("claim"). This crate holds the lifecycle state machine: custody-record
//! bookkeeping, temporal lock enforcement, and point-accrual arithmetic.
//! Moving the assets themselves, verifying collection membership, and reading
//! the clock are the host's business; the operations here take their results
//! as plain values.

pub mod engine;
pub mod errors;
pub mod laws;
pub mod model;
pub mod state;
