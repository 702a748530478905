//! Blocks of the best chain.

use vstd::prelude::*;
use rand::Rng;
use crate::bc::transaction::BCTransaction;

verus! {

/// A block: the hash of its parent, its score, its transactions, its own hash.
#[derive(Debug, Clone)]
pub struct BCBlock {
    pub parent: Option<BlockHash>,
    pub score: i32,
    pub transactions: Vec<BCTransaction>,
    pub hash: BlockHash,
}

/// What identifies a block: a nonce drawn at random.
#[derive(Debug, Clone, Copy)]
pub struct BlockHash(u64);

/// Draws a `u64` from rand's thread-local generator (`thread_rng`, `Rng::gen`).
/// Nothing is claimed of the number.
#[verifier::external_body]
fn random_nonce() -> (nonce: u64) {
    rand::thread_rng().gen()
}

impl Default for BlockHash {
    fn default() -> Self {
        Self::new()
    }
}

impl BlockHash {
    /// The nonce that the hash stands for.
    pub closed spec fn nonce_value(self) -> u64 {
        self.0
    }

    /// A new hash, drawn at random.
    pub fn new() -> Self {
        BlockHash(random_nonce())
    }

    /// The hash that stands for `nonce`.
    pub fn from_nonce(nonce: u64) -> (r: Self)
        ensures
            r.nonce_value() == nonce,
    {
        BlockHash(nonce)
    }

    /// The nonce that the hash stands for.
    pub fn nonce(&self) -> (r: u64)
        ensures
            r == self.nonce_value(),
    {
        self.0
    }
}

/// What can be asked of a block.
pub trait BlockTrait {
    /// The hash of the parent, if there is one.
    fn parent(&self) -> &Option<BlockHash>;

    /// The score.
    fn score(&self) -> i32;

    /// The transactions.
    fn transactions(&self) -> &Vec<BCTransaction>;
}

impl BlockTrait for BCBlock {
    fn parent(&self) -> (r: &Option<BlockHash>)
        ensures
            *r == self.parent,
    {
        &self.parent
    }

    fn score(&self) -> (r: i32)
        ensures
            r == self.score,
    {
        self.score
    }

    fn transactions(&self) -> (r: &Vec<BCTransaction>)
        ensures
            *r == self.transactions,
    {
        &self.transactions
    }
}

} // verus!
