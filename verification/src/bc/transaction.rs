//! Transactions, transparent outputs and shielded notes.

use vstd::prelude::*;
use crate::bc::context::{
    context_view, copy_context, lemma_utxo_view, BCContext, ContextView, Spentness,
};

verus! {

/// A transaction of the ledger. It is a coinbase when it has no inputs of either kind.
#[derive(Debug)]
pub struct BCTransaction {
    pub transparent_inputs: Vec<TXO>,
    pub transparent_outputs: Vec<TXO>,
    pub shielded_inputs: Vec<Note>,
    pub shielded_outputs: Vec<Note>,
    pub fee: i32,
    pub anchor: Option<BCContext>,
    pub issuance: i32,
}

/// A transparent output: the transaction it belongs to, its index there, its value.
#[derive(Debug)]
pub struct TXO {
    pub tx: BCTransaction,
    pub index: usize,
    pub value: i32,
}

/// A shielded note.
#[derive(Debug, Clone, PartialEq, Eq, Hash, Structural)]
pub struct Note {
    pub value: i32,
}

/// What a transaction is: its inputs and outputs in order, each note by its value,
/// and the anchor as the context it is.
pub ghost struct TransactionView {
    pub transparent_inputs: Seq<TxoView>,
    pub transparent_outputs: Seq<TxoView>,
    pub shielded_inputs: Seq<i32>,
    pub shielded_outputs: Seq<i32>,
    pub fee: int,
    pub anchor: Option<ContextView>,
    pub issuance: int,
}

/// What a transparent output is.
pub ghost struct TxoView {
    pub tx: TransactionView,
    pub index: int,
    pub value: int,
}

/// What an output is: its owning transaction, its index and its value.
pub open spec fn txo_view(t: TXO) -> TxoView
    decreases t,
{
    TxoView { tx: transaction_view(t.tx), index: t.index as int, value: t.value as int }
}

/// What a transaction is, field by field.
pub open spec fn transaction_view(t: BCTransaction) -> TransactionView
    decreases t,
{
    TransactionView {
        transparent_inputs: Seq::new(
            t.transparent_inputs@.len(),
            |i: int|
                if 0 <= i < t.transparent_inputs@.len() {
                    txo_view(t.transparent_inputs@[i])
                } else {
                    arbitrary()
                },
        ),
        transparent_outputs: Seq::new(
            t.transparent_outputs@.len(),
            |i: int|
                if 0 <= i < t.transparent_outputs@.len() {
                    txo_view(t.transparent_outputs@[i])
                } else {
                    arbitrary()
                },
        ),
        shielded_inputs: note_values(t.shielded_inputs@),
        shielded_outputs: note_values(t.shielded_outputs@),
        fee: t.fee as int,
        anchor: match t.anchor {
            Some(ctx) => Some(context_view(ctx)),
            None => None,
        },
        issuance: t.issuance as int,
    }
}

impl View for TXO {
    type V = TxoView;

    open spec fn view(&self) -> TxoView {
        txo_view(*self)
    }
}

impl View for BCTransaction {
    type V = TransactionView;

    open spec fn view(&self) -> TransactionView {
        transaction_view(*self)
    }
}

/// The views of a list of outputs, in order.
pub open spec fn txo_views(v: Seq<TXO>) -> Seq<TxoView> {
    Seq::new(v.len(), |i: int| v[i]@)
}

/// The values of a list of notes, in order.
pub open spec fn note_values(v: Seq<Note>) -> Seq<i32> {
    Seq::new(v.len(), |i: int| v[i].value)
}

/// Whether two lists of outputs are the same, element by element.
pub fn txos_same(a: &Vec<TXO>, b: &Vec<TXO>) -> (r: bool)
    ensures
        r == (txo_views(a@) == txo_views(b@)),
    decreases a,
{
    if a.len() != b.len() {
        assert(txo_views(a@).len() != txo_views(b@).len());
        return false;
    }
    let mut i: usize = 0;
    while i < a.len()
        invariant
            i <= a.len(),
            a.len() == b.len(),
            forall|j: int| 0 <= j < i ==> a@[j]@ == b@[j]@,
        decreases a.len() - i,
    {
        if !a[i].same_as(&b[i]) {
            assert(txo_views(a@)[i as int] != txo_views(b@)[i as int]);
            return false;
        }
        i += 1;
    }
    assert(txo_views(a@) =~= txo_views(b@));
    true
}

/// Whether two lists of notes are the same, element by element.
pub fn notes_same(a: &Vec<Note>, b: &Vec<Note>) -> (r: bool)
    ensures
        r == (note_values(a@) == note_values(b@)),
{
    if a.len() != b.len() {
        assert(note_values(a@).len() != note_values(b@).len());
        return false;
    }
    let mut i: usize = 0;
    while i < a.len()
        invariant
            i <= a.len(),
            a.len() == b.len(),
            forall|j: int| 0 <= j < i ==> a@[j].value == b@[j].value,
        decreases a.len() - i,
    {
        if a[i].value != b[i].value {
            assert(note_values(a@)[i as int] != note_values(b@)[i as int]);
            return false;
        }
        i += 1;
    }
    assert(note_values(a@) =~= note_values(b@));
    true
}

impl TXO {
    /// Structural equality: the same owning transaction, index and value.
    pub fn same_as(&self, other: &TXO) -> (r: bool)
        ensures
            r == (self@ == other@),
        decreases self,
    {
        self.index == other.index && self.value == other.value && self.tx.same_as(&other.tx)
    }
}

impl BCTransaction {
    /// Structural equality, field by field.
    pub fn same_as(&self, other: &BCTransaction) -> (r: bool)
        ensures
            r == (self@ == other@),
        decreases self,
    {
        proof {
            assert(self@.transparent_inputs =~= txo_views(self.transparent_inputs@));
            assert(other@.transparent_inputs =~= txo_views(other.transparent_inputs@));
            assert(self@.transparent_outputs =~= txo_views(self.transparent_outputs@));
            assert(other@.transparent_outputs =~= txo_views(other.transparent_outputs@));
        }
        if self.fee != other.fee || self.issuance != other.issuance {
            return false;
        }
        if !notes_same(&self.shielded_inputs, &other.shielded_inputs) {
            return false;
        }
        if !notes_same(&self.shielded_outputs, &other.shielded_outputs) {
            return false;
        }
        if !txos_same(&self.transparent_inputs, &other.transparent_inputs) {
            return false;
        }
        if !txos_same(&self.transparent_outputs, &other.transparent_outputs) {
            return false;
        }
        match (&self.anchor, &other.anchor) {
            (None, None) => true,
            (Some(a), Some(b)) => a.same_as(b),
            _ => false,
        }
    }
}

impl TransactionView {
    /// A coinbase has no transparent and no shielded inputs.
    pub open spec fn is_coinbase(self) -> bool {
        self.transparent_inputs.len() == 0 && self.shielded_inputs.len() == 0
    }

    /// The rules a transaction must meet to be applied to `ctx`:
    /// only a coinbase may carry a negative fee or any issuance; every transparent
    /// input is in the UTXO set; every shielded input is unspent in `ctx`; and where
    /// there are shielded inputs, there is an anchor in which they are unspent too.
    pub open spec fn valid_in(self, ctx: ContextView) -> bool {
        &&& !self.is_coinbase() ==> self.fee >= 0 && self.issuance == 0
        &&& forall|i: int|
            0 <= i < self.transparent_inputs.len() ==> ctx.utxo_set.contains(
                #[trigger] self.transparent_inputs[i],
            )
        &&& all_unspent(ctx.notes, self.shielded_inputs)
        &&& self.shielded_inputs.len() > 0 ==> self.anchor is Some && all_unspent(
            self.anchor->0.notes,
            self.shielded_inputs,
        )
    }
}

/// Whether every note of `wanted` is in `notes` and unspent there.
pub open spec fn all_unspent(notes: Map<i32, Spentness>, wanted: Seq<i32>) -> bool {
    forall|i: int|
        0 <= i < wanted.len() ==> notes.contains_key(#[trigger] wanted[i]) && notes[wanted[i]]
            == Spentness::Unspent
}

/// Where `txo` stands in `set`, if it is there.
pub fn find_txo(set: &Vec<TXO>, txo: &TXO) -> (r: Option<usize>)
    ensures
        match r {
            Some(i) => i < set.len() && set@[i as int]@ == txo@,
            None => !txo_views(set@).contains(txo@),
        },
{
    let mut i: usize = 0;
    while i < set.len()
        invariant
            i <= set.len(),
            forall|j: int| 0 <= j < i ==> set@[j]@ != txo@,
        decreases set.len() - i,
    {
        if set[i].same_as(txo) {
            return Some(i);
        }
        i += 1;
    }
    None
}

impl BCTransaction {
    /// Whether the transaction may be applied to `context`.
    pub fn is_valid(&self, context: &BCContext) -> (ok: bool)
        ensures
            ok == self@.valid_in(context@),
    {
        let is_coinbase = self.is_coinbase();
        if !is_coinbase && self.fee < 0 {
            return false;
        }
        if !is_coinbase && self.issuance != 0 {
            return false;
        }
        let mut i: usize = 0;
        while i < self.transparent_inputs.len()
            invariant
                i <= self.transparent_inputs.len(),
                forall|j: int|
                    0 <= j < i ==> context@.utxo_set.contains(#[trigger] self@.transparent_inputs[j]),
            decreases self.transparent_inputs.len() - i,
        {
            proof {
                lemma_utxo_view(*context);
            }
            match find_txo(&context.utxo_set, &self.transparent_inputs[i]) {
                Some(k) => {
                    assert(txo_views(context.utxo_set@)[k as int]
                        == self@.transparent_inputs[i as int]);
                },
                None => {
                    assert(!context@.utxo_set.contains(self@.transparent_inputs[i as int]));
                    return false;
                },
            }
            i += 1;
        }
        if !context.can_spend(self.shielded_inputs.as_slice()) {
            return false;
        }
        if self.shielded_inputs.len() > 0 {
            match &self.anchor {
                Some(anchor) => anchor.can_spend(self.shielded_inputs.as_slice()),
                None => false,
            }
        } else {
            true
        }
    }

    /// Whether the transaction is a coinbase.
    pub fn is_coinbase(&self) -> (r: bool)
        ensures
            r == self@.is_coinbase(),
    {
        self.transparent_inputs.len() == 0 && self.shielded_inputs.len() == 0
    }
}

/// A copy of a list of outputs.
pub fn copy_txos(v: &Vec<TXO>) -> (r: Vec<TXO>)
    ensures
        txo_views(r@) == txo_views(v@),
    decreases v,
{
    let mut r: Vec<TXO> = Vec::new();
    let mut i: usize = 0;
    while i < v.len()
        invariant
            i <= v.len(),
            r.len() == i,
            forall|j: int| 0 <= j < i ==> r@[j]@ == v@[j]@,
        decreases v.len() - i,
    {
        r.push(copy_txo(&v[i]));
        i += 1;
    }
    assert(txo_views(r@) =~= txo_views(v@));
    r
}

/// A copy of a list of notes.
pub fn copy_notes(v: &Vec<Note>) -> (r: Vec<Note>)
    ensures
        note_values(r@) == note_values(v@),
{
    let mut r: Vec<Note> = Vec::new();
    let mut i: usize = 0;
    while i < v.len()
        invariant
            i <= v.len(),
            r.len() == i,
            forall|j: int| 0 <= j < i ==> r@[j].value == v@[j].value,
        decreases v.len() - i,
    {
        r.push(Note { value: v[i].value });
        i += 1;
    }
    assert(note_values(r@) =~= note_values(v@));
    r
}

/// A copy of an output, down to its owning transaction.
pub fn copy_txo(t: &TXO) -> (r: TXO)
    ensures
        r@ == t@,
    decreases t,
{
    TXO { tx: copy_transaction(&t.tx), index: t.index, value: t.value }
}

/// A copy of a transaction, down to its anchor.
pub fn copy_transaction(t: &BCTransaction) -> (r: BCTransaction)
    ensures
        r@ == t@,
    decreases t,
{
    let r = BCTransaction {
        transparent_inputs: copy_txos(&t.transparent_inputs),
        transparent_outputs: copy_txos(&t.transparent_outputs),
        shielded_inputs: copy_notes(&t.shielded_inputs),
        shielded_outputs: copy_notes(&t.shielded_outputs),
        fee: t.fee,
        anchor: match &t.anchor {
            Some(ctx) => Some(copy_context(ctx)),
            None => None,
        },
        issuance: t.issuance,
    };
    proof {
        assert(r@.transparent_inputs =~= txo_views(r.transparent_inputs@));
        assert(t@.transparent_inputs =~= txo_views(t.transparent_inputs@));
        assert(r@.transparent_outputs =~= txo_views(r.transparent_outputs@));
        assert(t@.transparent_outputs =~= txo_views(t.transparent_outputs@));
    }
    r
}

impl PartialEq for TXO {
    fn eq(&self, other: &Self) -> (r: bool) {
        self.same_as(other)
    }
}

impl vstd::std_specs::cmp::PartialEqSpecImpl for TXO {
    open spec fn obeys_eq_spec() -> bool {
        true
    }

    open spec fn eq_spec(&self, other: &Self) -> bool {
        self@ == other@
    }
}

impl Eq for TXO {

}

impl PartialEq for BCTransaction {
    fn eq(&self, other: &Self) -> (r: bool) {
        self.same_as(other)
    }
}

impl vstd::std_specs::cmp::PartialEqSpecImpl for BCTransaction {
    open spec fn obeys_eq_spec() -> bool {
        true
    }

    open spec fn eq_spec(&self, other: &Self) -> bool {
        self@ == other@
    }
}

impl Eq for BCTransaction {

}

impl Clone for TXO {
    fn clone(&self) -> (r: Self)
        ensures
            r@ == self@,
    {
        copy_txo(self)
    }
}

impl Clone for BCTransaction {
    fn clone(&self) -> (r: Self)
        ensures
            r@ == self@,
    {
        copy_transaction(self)
    }
}

} // verus!
