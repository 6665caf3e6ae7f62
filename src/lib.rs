//! Client-side view of a ledger node: coins listed across pages, balances
//! summed per asset, coins provisioned for test wallets, and transfer
//! transactions built from their inputs and outputs.

use vstd::prelude::*;

pub mod balance;
pub mod pagination;
pub mod provider;
pub mod provision;
pub mod types;

verus! {

} // verus!
