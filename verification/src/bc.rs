//! The best-chain ledger: transactions, the context they are applied to, and blocks.

use vstd::prelude::*;

pub mod block;
pub mod context;
pub mod traits;
pub mod transaction;

verus! {

/// Prepares logging for the ledger. The ledger itself emits nothing, so there is
/// nothing to prepare.
pub fn init_logging() {
}

} // verus!
