//! The message envelope that nodes exchange.

use vstd::prelude::*;

verus! {

/// A timestamped message. The content is opaque to the network.
#[derive(Debug, Clone, PartialEq, Eq)]
pub struct Message {
    pub content: String,
    pub timestamp: u64,
}

} // verus!
