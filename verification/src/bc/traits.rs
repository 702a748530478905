//! What can be asked of a transaction and of a context.

use vstd::prelude::*;
use crate::bc::context::BCContext;
use crate::bc::transaction::{BCTransaction, Note, TXO};

verus! {

/// What can be asked of a transaction.
pub trait TransactionTrait {
    /// The transparent inputs.
    fn transparent_inputs(&self) -> &[TXO];

    /// The transparent outputs.
    fn transparent_outputs(&self) -> &[TXO];

    /// The shielded inputs.
    fn shielded_inputs(&self) -> &[Note];

    /// The shielded outputs.
    fn shielded_outputs(&self) -> &[Note];

    /// The fee.
    fn fee(&self) -> i32;

    /// The anchor, if there is one.
    fn anchor(&self) -> Option<&BCContext>;

    /// The issuance.
    fn issuance(&self) -> i32;
}

/// What can be asked of a context.
pub trait ContextTrait: Sized {
    /// Applies a transaction, and says whether it did.
    fn add_transaction(&mut self, tx: BCTransaction) -> bool;

    /// Whether a note is spent.
    fn is_spent(&self, note: &Note) -> bool;

    /// A copy of the context.
    fn copy(&self) -> Self;
}

impl TransactionTrait for BCTransaction {
    fn transparent_inputs(&self) -> (r: &[TXO])
        ensures
            r@ == self.transparent_inputs@,
    {
        self.transparent_inputs.as_slice()
    }

    fn transparent_outputs(&self) -> (r: &[TXO])
        ensures
            r@ == self.transparent_outputs@,
    {
        self.transparent_outputs.as_slice()
    }

    fn shielded_inputs(&self) -> (r: &[Note])
        ensures
            r@ == self.shielded_inputs@,
    {
        self.shielded_inputs.as_slice()
    }

    fn shielded_outputs(&self) -> (r: &[Note])
        ensures
            r@ == self.shielded_outputs@,
    {
        self.shielded_outputs.as_slice()
    }

    fn fee(&self) -> (r: i32)
        ensures
            r == self.fee,
    {
        self.fee
    }

    fn anchor(&self) -> (r: Option<&BCContext>)
        ensures
            match r {
                Some(ctx) => self.anchor == Some(*ctx),
                None => self.anchor is None,
            },
    {
        match &self.anchor {
            Some(ctx) => Some(ctx),
            None => None,
        }
    }

    fn issuance(&self) -> (r: i32)
        ensures
            r == self.issuance,
    {
        self.issuance
    }
}

} // verus!
