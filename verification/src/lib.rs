//! A best-chain ledger with transparent and shielded value, and a Streamlet-style
//! consensus simulator driven by a logical-time event queue.

pub mod bc;
pub mod bft;
pub mod seq_facts;
