//! Accounting and round lifecycle engine of a pooled-fund vault.
//!
//! Deposits and withdrawals are queued during a round, while the pooled
//! capital is deployed in an outside strategy, and are converted between
//! underlying units and shares at the rate that the round settles at.
use vstd::prelude::*;

pub mod error;
pub mod instant;
pub mod key;
pub mod ledger;
pub mod owed;
pub mod pending;
pub mod requests;
pub mod round;
pub mod settlement;
pub mod table;
pub mod vault;
pub mod whitelist;

verus! {

} // verus!
