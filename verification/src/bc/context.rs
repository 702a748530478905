//! The ledger context: what has been applied, what can still be spent.

use vstd::prelude::*;
use vstd::multiset::Multiset;
use std::collections::HashMap;
use vstd::std_specs::iter::IteratorSpec;
use crate::seq_facts::lemma_take_next;
use crate::bc::transaction::{
    all_unspent, copy_transaction, copy_txo, copy_txos, find_txo, note_values, transaction_view,
    txo_view, txo_views, txos_same, BCTransaction, Note, TransactionView, TxoView, TXO,
};

verus! {

/// Whether a note can still be spent.
#[derive(Debug, Clone, Copy, PartialEq, Eq, Structural)]
pub enum Spentness {
    Unspent,
    Spent,
}

/// The state of the ledger.
#[derive(Debug)]
pub struct BCContext {
    /// The applied transactions, in the order in which they were applied.
    pub transactions: Vec<BCTransaction>,
    /// The outputs that can be spent. Each stands here once.
    pub utxo_set: Vec<TXO>,
    /// The notes, each under its value, and whether they are spent.
    pub notes: HashMap<i32, Spentness>,
    /// What the applied transactions issued, in sum.
    pub total_issuance: i32,
}

/// What a context is: the applied transactions in order, the UTXO set, the notes
/// with their spentness, and the total issuance. The UTXO set holds each of its
/// outputs once, and in no order: a recursive type cannot hold a `Set`, so it is a
/// multiset in which nothing counts twice.
pub ghost struct ContextView {
    pub transactions: Seq<TransactionView>,
    pub utxo_set: Multiset<TxoView>,
    pub notes: Map<i32, Spentness>,
    pub total_issuance: int,
}

/// The set of the outputs that `s` lists, whatever their order and however often.
pub open spec fn as_set(s: Seq<TxoView>) -> Multiset<TxoView> {
    Multiset::from_set(s.to_set())
}

/// The set of the outputs that `s` lists holds an output once where `s` lists it,
/// and not otherwise; and two lists give the same set exactly when they list the
/// same outputs.
pub proof fn lemma_as_set(s: Seq<TxoView>)
    ensures
        forall|t: TxoView| #[trigger] as_set(s).count(t) == if s.contains(t) { 1nat } else { 0nat },
        forall|t: TxoView| #[trigger] as_set(s).contains(t) <==> s.contains(t),
        as_set(s).dom() == s.to_set(),
{
    broadcast use vstd::seq_lib::seq_to_set_is_finite;

    let counts = Map::new(|k: TxoView| s.to_set().contains(k), |v: TxoView| 1nat);
    assert(counts.dom() =~= s.to_set());
    assert forall|t: TxoView| #[trigger] as_set(s).count(t) == if s.contains(t) { 1nat } else { 0nat } by {
        if s.contains(t) {
            assert(counts.dom().contains(t));
        } else {
            assert(!counts.dom().contains(t));
        }
    }
    assert(as_set(s).dom() =~= s.to_set());
}

/// Two lists give the same set exactly when each lists what the other lists.
pub proof fn lemma_as_set_equal(a: Seq<TxoView>, b: Seq<TxoView>)
    ensures
        as_set(a) == as_set(b) <==> a.to_set() == b.to_set(),
{
    lemma_as_set(a);
    lemma_as_set(b);
}

/// A context's UTXO set holds exactly the outputs that its vector lists.
pub proof fn lemma_utxo_view(c: BCContext)
    ensures
        c@.utxo_set == as_set(txo_views(c.utxo_set@)),
        c@.utxo_set.dom() == txo_views(c.utxo_set@).to_set(),
        forall|t: TxoView| #[trigger] c@.utxo_set.contains(t) <==> txo_views(c.utxo_set@).contains(t),
{
    assert(listed_utxos(c.utxo_set) =~= txo_views(c.utxo_set@));
    lemma_as_set(txo_views(c.utxo_set@));
}

/// The outputs that a vector lists, in its order.
pub open spec fn listed_utxos(v: Vec<TXO>) -> Seq<TxoView>
    decreases v,
{
    Seq::new(
        v@.len(),
        |i: int|
            if 0 <= i < v@.len() {
                txo_view(v@[i])
            } else {
                arbitrary()
            },
    )
}

/// What a context is, field by field.
pub open spec fn context_view(c: BCContext) -> ContextView
    decreases c,
{
    ContextView {
        transactions: Seq::new(
            c.transactions@.len(),
            |i: int|
                if 0 <= i < c.transactions@.len() {
                    transaction_view(c.transactions@[i])
                } else {
                    arbitrary()
                },
        ),
        utxo_set: as_set(listed_utxos(c.utxo_set)),
        notes: c.notes@,
        total_issuance: c.total_issuance as int,
    }
}

impl View for BCContext {
    type V = ContextView;

    open spec fn view(&self) -> ContextView {
        context_view(*self)
    }
}

/// The views of a list of transactions, in order.
pub open spec fn transaction_views(v: Seq<BCTransaction>) -> Seq<TransactionView> {
    Seq::new(v.len(), |i: int| v[i]@)
}

/// Whether two lists of transactions are the same, element by element.
pub fn transactions_same(a: &Vec<BCTransaction>, b: &Vec<BCTransaction>) -> (r: bool)
    ensures
        r == (transaction_views(a@) == transaction_views(b@)),
    decreases a,
{
    if a.len() != b.len() {
        assert(transaction_views(a@).len() != transaction_views(b@).len());
        return false;
    }
    let mut i: usize = 0;
    while i < a.len()
        invariant
            i <= a.len(),
            a.len() == b.len(),
            forall|j: int| 0 <= j < i ==> a@[j]@ == b@[j]@,
        decreases a.len() - i,
    {
        if !a[i].same_as(&b[i]) {
            assert(transaction_views(a@)[i as int] != transaction_views(b@)[i as int]);
            return false;
        }
        i += 1;
    }
    assert(transaction_views(a@) =~= transaction_views(b@));
    true
}

/// Whether two note maps hold the same notes with the same spentness.
pub fn note_maps_same(a: &HashMap<i32, Spentness>, b: &HashMap<i32, Spentness>) -> (r: bool)
    ensures
        r == (a@ == b@),
{
    broadcast use vstd::std_specs::hash::group_hash_axioms;

    if a.len() != b.len() {
        return false;
    }
    let ghost keys = a.keys().remaining().unref();
    for k in it: a.keys()
        invariant
            it.seq().unref() == keys,
            keys.to_set() == a@.dom(),
            forall|j: int|
                0 <= j < it.index() ==> b@.contains_key(#[trigger] keys[j]) && b@[keys[j]]
                    == a@[keys[j]],
    {
        assert(keys[it.index() as int] == *k);
        assert(keys.to_set().contains(*k));
        match (a.get(k), b.get(k)) {
            (Some(v), Some(w)) => {
                if *v != *w {
                    return false;
                }
            },
            _ => {
                return false;
            },
        }
    }
    proof {
        assert forall|x: i32| a@.dom().contains(x) implies b@.dom().contains(x) && a@[x]
            == b@[x] by {
            assert(keys.to_set().contains(x));
            let j = choose|j: int| 0 <= j < keys.len() && keys[j] == x;
            assert(b@.contains_key(keys[j]));
        }
        assert(a@.dom().subset_of(b@.dom()));
        vstd::set_lib::lemma_subset_equality(a@.dom(), b@.dom());
        assert(a@ =~= b@);
    }
    true
}

impl BCContext {
    /// Structural equality, field by field.
    pub fn same_as(&self, other: &BCContext) -> (r: bool)
        ensures
            r == (self@ == other@),
        decreases self,
    {
        proof {
            assert(self@.transactions =~= transaction_views(self.transactions@));
            assert(other@.transactions =~= transaction_views(other.transactions@));
            lemma_utxo_view(*self);
            lemma_utxo_view(*other);
            lemma_as_set_equal(txo_views(self.utxo_set@), txo_views(other.utxo_set@));
        }
        self.total_issuance == other.total_issuance && note_maps_same(&self.notes, &other.notes)
            && txos_same_set(&self.utxo_set, &other.utxo_set) && transactions_same(
            &self.transactions,
            &other.transactions,
        )
    }
}

/// Whether two lists of outputs list the same outputs, whatever their order.
pub fn txos_same_set(a: &Vec<TXO>, b: &Vec<TXO>) -> (r: bool)
    ensures
        r == (txo_views(a@).to_set() == txo_views(b@).to_set()),
    decreases a,
{
    let ghost left = txo_views(a@);
    let ghost right = txo_views(b@);
    // Every output of `a` is in `b`.
    let mut i: usize = 0;
    while i < a.len()
        invariant
            i <= a.len(),
            left == txo_views(a@),
            right == txo_views(b@),
            forall|k: int| 0 <= k < i ==> right.contains(#[trigger] left[k]),
        decreases a.len() - i,
    {
        let mut found = false;
        let mut j: usize = 0;
        while j < b.len() && !found
            invariant
                j <= b.len(),
                i < a.len(),
                left == txo_views(a@),
                right == txo_views(b@),
                found ==> right.contains(left[i as int]),
                !found ==> forall|k: int| 0 <= k < j ==> right[k] != left[i as int],
            decreases b.len() - j,
        {
            if a[i].same_as(&b[j]) {
                assert(right[j as int] == left[i as int]);
                found = true;
            }
            j += 1;
        }
        if !found {
            assert(left.to_set().contains(left[i as int]));
            assert(!right.to_set().contains(left[i as int]));
            return false;
        }
        i += 1;
    }
    // Every output of `b` is in `a`.
    let mut j: usize = 0;
    while j < b.len()
        invariant
            j <= b.len(),
            left == txo_views(a@),
            right == txo_views(b@),
            forall|k: int| 0 <= k < left.len() ==> right.contains(#[trigger] left[k]),
            forall|k: int| 0 <= k < j ==> left.contains(#[trigger] right[k]),
        decreases b.len() - j,
    {
        let mut found = false;
        let mut i: usize = 0;
        while i < a.len() && !found
            invariant
                i <= a.len(),
                j < b.len(),
                left == txo_views(a@),
                right == txo_views(b@),
                found ==> left.contains(right[j as int]),
                !found ==> forall|k: int| 0 <= k < i ==> left[k] != right[j as int],
            decreases a.len() - i,
        {
            if a[i].same_as(&b[j]) {
                assert(left[i as int] == right[j as int]);
                found = true;
            }
            i += 1;
        }
        if !found {
            assert(right.to_set().contains(right[j as int]));
            assert(!left.to_set().contains(right[j as int]));
            return false;
        }
        j += 1;
    }
    assert(left.to_set() =~= right.to_set());
    true
}

impl BCContext {
    /// No output stands twice in the vector that lists the UTXO set.
    pub open spec fn well_formed(&self) -> bool {
        txo_views(self.utxo_set@).no_duplicates()
    }
}

impl ContextView {
    /// The number of outputs in the UTXO set.
    pub open spec fn utxo_count(self) -> nat {
        self.utxo_set.dom().len()
    }

    /// The total issuance is the sum of what the applied transactions issued.
    pub open spec fn accounted(self) -> bool {
        self.total_issuance == issuance_sum(self.transactions)
    }
}

impl ContextView {
    /// Whether `next` is this context after `tx` was applied to it.
    pub open spec fn applied(self, tx: TransactionView, next: ContextView) -> bool {
        &&& next.transactions == self.transactions.push(tx)
        &&& next.utxo_set == Multiset::from_set(
            self.utxo_set.dom().difference(tx.transparent_inputs.to_set()).union(
                tx.transparent_outputs.to_set(),
            ),
        )
        &&& next.notes == notes_after(self.notes, tx.shielded_inputs, tx.shielded_outputs)
        &&& next.total_issuance == self.total_issuance + tx.issuance
    }
}

/// The sum of what the transactions of `txs` issue.
pub open spec fn issuance_sum(txs: Seq<TransactionView>) -> int
    decreases txs.len(),
{
    if txs.len() == 0 {
        0
    } else {
        issuance_sum(txs.drop_last()) + txs.last().issuance
    }
}

/// The note map after the notes of `spent` were spent and those of `minted` were
/// put in: a minted note is unspent, whatever it was before.
pub open spec fn notes_after(notes: Map<i32, Spentness>, spent: Seq<i32>, minted: Seq<i32>) -> Map<
    i32,
    Spentness,
> {
    Map::new(
        |k: i32| notes.contains_key(k) || minted.contains(k),
        |k: i32|
            if minted.contains(k) {
                Spentness::Unspent
            } else if spent.contains(k) {
                Spentness::Spent
            } else {
                notes[k]
            },
    )
}

/// `cur` holds what `before` holds but for what `gone` holds.
spec fn holds_without(cur: Seq<TxoView>, before: Seq<TxoView>, gone: Seq<TxoView>) -> bool {
    forall|t: TxoView| cur.contains(t) <==> before.contains(t) && !gone.contains(t)
}

/// `cur` holds what `before` holds and what `fresh` holds.
spec fn holds_with(cur: Seq<TxoView>, before: Seq<TxoView>, fresh: Seq<TxoView>) -> bool {
    forall|t: TxoView| cur.contains(t) <==> before.contains(t) || fresh.contains(t)
}

/// Takes every output of `gone` out of `set`.
fn remove_txos(set: &mut Vec<TXO>, gone: &Vec<TXO>)
    requires
        txo_views(old(set)@).no_duplicates(),
    ensures
        txo_views(final(set)@).no_duplicates(),
        txo_views(final(set)@).to_set() == txo_views(old(set)@).to_set().difference(
            txo_views(gone@).to_set(),
        ),
{
    let ghost before = txo_views(set@);
    let ghost out = txo_views(gone@);
    let mut i: usize = 0;
    while i < gone.len()
        invariant
            i <= gone.len(),
            before == txo_views(old(set)@),
            out == txo_views(gone@),
            txo_views(set@).no_duplicates(),
            holds_without(txo_views(set@), before, out.take(i as int)),
        decreases gone.len() - i,
    {
        let ghost cur = txo_views(set@);
        let found = find_txo(set, &gone[i]);
        proof {
            lemma_take_next(out, i as int);
        }
        match found {
            Some(k) => {
                set.remove(k);
                proof {
                    let next = txo_views(set@);
                    assert(next =~= cur.remove(k as int));
                    assert(cur[k as int] == out[i as int]);
                    assert forall|t: TxoView|
                        next.contains(t) <==> cur.contains(t) && t != out[i as int] by {
                        if next.contains(t) {
                            let j = choose|j: int| 0 <= j < next.len() && next[j] == t;
                            if j < k {
                                assert(cur[j] == t);
                            } else {
                                assert(cur[j + 1] == t);
                            }
                        }
                        if cur.contains(t) && t != out[i as int] {
                            let j = choose|j: int| 0 <= j < cur.len() && cur[j] == t;
                            if j < k {
                                assert(next[j] == t);
                            } else {
                                assert(next[j - 1] == t);
                            }
                        }
                    }
                }
            },
            None => {
                assert(!cur.contains(out[i as int]));
            },
        }
        proof {
            assert forall|t: TxoView|
                txo_views(set@).contains(t) <==> before.contains(t) && !out.take(
                    i + 1,
                ).contains(t) by {
                assert(cur.contains(t) <==> before.contains(t) && !out.take(i as int).contains(t));
            }
            assert(holds_without(txo_views(set@), before, out.take(i + 1)));
        }
        i += 1;
    }
    proof {
        assert(out.take(i as int) =~= out);
        assert forall|t: TxoView|
            txo_views(set@).to_set().contains(t) <==> before.to_set().difference(
                out.to_set(),
            ).contains(t) by {
            assert(txo_views(set@).contains(t) <==> before.contains(t) && !out.contains(t));
        }
        assert(txo_views(set@).to_set() =~= before.to_set().difference(out.to_set()));
    }
}

/// Puts every output of `fresh` into `set`, unless it is there already.
fn insert_txos(set: &mut Vec<TXO>, fresh: &Vec<TXO>)
    requires
        txo_views(old(set)@).no_duplicates(),
    ensures
        txo_views(final(set)@).no_duplicates(),
        txo_views(final(set)@).to_set() == txo_views(old(set)@).to_set().union(
            txo_views(fresh@).to_set(),
        ),
{
    let ghost before = txo_views(set@);
    let ghost inn = txo_views(fresh@);
    let mut i: usize = 0;
    while i < fresh.len()
        invariant
            i <= fresh.len(),
            before == txo_views(old(set)@),
            inn == txo_views(fresh@),
            txo_views(set@).no_duplicates(),
            holds_with(txo_views(set@), before, inn.take(i as int)),
        decreases fresh.len() - i,
    {
        let ghost cur = txo_views(set@);
        let found = find_txo(set, &fresh[i]);
        proof {
            lemma_take_next(inn, i as int);
        }
        match found {
            Some(k) => {
                assert(cur[k as int] == inn[i as int]);
            },
            None => {
                set.push(copy_txo(&fresh[i]));
                proof {
                    let next = txo_views(set@);
                    assert(next =~= cur.push(inn[i as int]));
                    assert forall|t: TxoView|
                        next.contains(t) <==> cur.contains(t) || t == inn[i as int] by {
                        if next.contains(t) {
                            let j = choose|j: int| 0 <= j < next.len() && next[j] == t;
                            if j < cur.len() {
                                assert(cur[j] == t);
                            }
                        }
                        if cur.contains(t) {
                            let j = choose|j: int| 0 <= j < cur.len() && cur[j] == t;
                            assert(next[j] == t);
                        }
                        if t == inn[i as int] {
                            assert(next[cur.len() as int] == t);
                        }
                    }
                }
            },
        }
        proof {
            assert forall|t: TxoView|
                txo_views(set@).contains(t) <==> before.contains(t) || inn.take(i + 1).contains(
                    t,
                ) by {
                assert(cur.contains(t) <==> before.contains(t) || inn.take(i as int).contains(t));
            }
            assert(holds_with(txo_views(set@), before, inn.take(i + 1)));
        }
        i += 1;
    }
    proof {
        assert(inn.take(i as int) =~= inn);
        assert forall|t: TxoView|
            txo_views(set@).to_set().contains(t) <==> before.to_set().union(
                inn.to_set(),
            ).contains(t) by {
            assert(txo_views(set@).contains(t) <==> before.contains(t) || inn.contains(t));
        }
        assert(txo_views(set@).to_set() =~= before.to_set().union(inn.to_set()));
    }
}

/// Marks the notes of `spent` as spent, then puts the notes of `minted` in as unspent.
fn update_notes(notes: &mut HashMap<i32, Spentness>, spent: &Vec<Note>, minted: &Vec<Note>)
    requires
        forall|i: int| 0 <= i < spent.len() ==> old(notes)@.contains_key(#[trigger] spent@[i].value),
    ensures
        final(notes)@ == notes_after(old(notes)@, note_values(spent@), note_values(minted@)),
{
    broadcast use vstd::std_specs::hash::group_hash_axioms;

    let ghost before = notes@;
    let ghost ins = note_values(spent@);
    let ghost outs = note_values(minted@);
    let mut i: usize = 0;
    while i < spent.len()
        invariant
            i <= spent.len(),
            ins == note_values(spent@),
            forall|j: int| 0 <= j < spent.len() ==> before.contains_key(#[trigger] spent@[j].value),
            notes@ == notes_after(before, ins.take(i as int), Seq::<i32>::empty()),
        decreases spent.len() - i,
    {
        notes.insert(spent[i].value, Spentness::Spent);
        proof {
            assert(ins[i as int] == spent@[i as int].value);
            lemma_take_next(ins, i as int);
            assert(notes@ =~= notes_after(before, ins.take(i + 1), Seq::<i32>::empty()));
        }
        i += 1;
    }
    assert(ins.take(i as int) =~= ins);
    let mut i: usize = 0;
    while i < minted.len()
        invariant
            i <= minted.len(),
            outs == note_values(minted@),
            notes@ == notes_after(before, ins, outs.take(i as int)),
        decreases minted.len() - i,
    {
        notes.insert(minted[i].value, Spentness::Unspent);
        proof {
            assert(outs[i as int] == minted@[i as int].value);
            lemma_take_next(outs, i as int);
            assert(notes@ =~= notes_after(before, ins, outs.take(i + 1)));
        }
        i += 1;
    }
    assert(outs.take(i as int) =~= outs);
}

impl BCContext {
    /// An empty context: nothing applied, nothing to spend, nothing issued.
    pub fn new() -> (r: Self)
        ensures
            r@.transactions.len() == 0,
            r@.utxo_set == Multiset::<TxoView>::empty(),
            r@.notes == Map::<i32, Spentness>::empty(),
            r@.total_issuance == 0,
            r.well_formed(),
            r@.accounted(),
    {
        let r = BCContext {
            transactions: Vec::new(),
            utxo_set: Vec::new(),
            notes: HashMap::new(),
            total_issuance: 0,
        };
        proof {
            lemma_utxo_view(r);
            lemma_as_set(txo_views(r.utxo_set@));
            assert forall|t: TxoView| r@.utxo_set.count(t) == 0 by {
                assert(!txo_views(r.utxo_set@).contains(t));
            }
            assert(r@.utxo_set =~= Multiset::<TxoView>::empty());
        }
        r
    }

    /// Applies `tx` if it is valid in this context, and says whether it did. A valid
    /// transaction takes its transparent inputs out of the UTXO set and puts its
    /// transparent outputs in, spends its shielded inputs, puts its shielded outputs in
    /// as unspent, adds its issuance to the total, and joins the applied transactions.
    /// An invalid one changes nothing.
    pub fn add_transaction(&mut self, tx: BCTransaction) -> (ok: bool)
        requires
            old(self).well_formed(),
            tx@.valid_in(old(self)@) ==> i32::MIN <= old(self)@.total_issuance + tx@.issuance
                <= i32::MAX,
        ensures
            ok == tx@.valid_in(old(self)@),
            !ok ==> *final(self) == *old(self),
            ok ==> old(self)@.applied(tx@, final(self)@),
            final(self).well_formed(),
            old(self)@.accounted() ==> final(self)@.accounted(),
    {
        if !tx.is_valid(self) {
            return false;
        }
        proof {
            lemma_utxo_view(*self);
            assert(tx@.transparent_inputs =~= txo_views(tx.transparent_inputs@));
            assert(tx@.transparent_outputs =~= txo_views(tx.transparent_outputs@));
            assert forall|i: int| 0 <= i < tx.shielded_inputs.len() implies self.notes@.contains_key(
                #[trigger] tx.shielded_inputs@[i].value,
            ) by {
                assert(tx@.shielded_inputs[i] == tx.shielded_inputs@[i].value);
            }
        }
        remove_txos(&mut self.utxo_set, &tx.transparent_inputs);
        insert_txos(&mut self.utxo_set, &tx.transparent_outputs);
        update_notes(&mut self.notes, &tx.shielded_inputs, &tx.shielded_outputs);
        self.total_issuance = self.total_issuance + tx.issuance;
        let ghost applied = self@.transactions;
        self.transactions.push(tx);
        proof {
            lemma_utxo_view(*self);
            assert(self@.transactions =~= applied.push(tx@));
            assert(self@.transactions.drop_last() =~= applied);
        }
        true
    }

    /// Whether every one of `notes` is in the context and unspent.
    pub fn can_spend(&self, notes: &[Note]) -> (r: bool)
        ensures
            r == all_unspent(self@.notes, note_values(notes@)),
    {
        broadcast use vstd::std_specs::hash::group_hash_axioms;

        let mut i: usize = 0;
        while i < notes.len()
            invariant
                i <= notes.len(),
                forall|j: int|
                    0 <= j < i ==> self.notes@.contains_key(#[trigger] notes@[j].value)
                        && self.notes@[notes@[j].value] == Spentness::Unspent,
            decreases notes.len() - i,
        {
            let unspent = match self.notes.get(&notes[i].value) {
                Some(s) => *s == Spentness::Unspent,
                None => false,
            };
            if !unspent {
                assert(note_values(notes@)[i as int] == notes@[i as int].value);
                return false;
            }
            i += 1;
        }
        true
    }

    /// Whether `note` is in the context and spent.
    pub fn is_spent(&self, note: &Note) -> (r: bool)
        ensures
            r == (self@.notes.contains_key(note.value) && self@.notes[note.value]
                == Spentness::Spent),
    {
        broadcast use vstd::std_specs::hash::group_hash_axioms;

        match self.notes.get(&note.value) {
            Some(s) => *s == Spentness::Spent,
            None => false,
        }
    }

    /// A snapshot that later changes to the context do not reach.
    pub fn copy(&self) -> (r: Self)
        ensures
            r@ == self@,
    {
        copy_context(self)
    }
}

/// A copy of a list of transactions.
pub fn copy_transactions(v: &Vec<BCTransaction>) -> (r: Vec<BCTransaction>)
    ensures
        transaction_views(r@) == transaction_views(v@),
    decreases v,
{
    let mut r: Vec<BCTransaction> = Vec::new();
    let mut i: usize = 0;
    while i < v.len()
        invariant
            i <= v.len(),
            r.len() == i,
            forall|j: int| 0 <= j < i ==> r@[j]@ == v@[j]@,
        decreases v.len() - i,
    {
        r.push(copy_transaction(&v[i]));
        i += 1;
    }
    assert(transaction_views(r@) =~= transaction_views(v@));
    r
}

/// A copy of a context that shares nothing with it.
pub fn copy_context(c: &BCContext) -> (r: BCContext)
    ensures
        r@ == c@,
    decreases c,
{
    let r = BCContext {
        transactions: copy_transactions(&c.transactions),
        utxo_set: copy_txos(&c.utxo_set),
        notes: c.notes.clone(),
        total_issuance: c.total_issuance,
    };
    proof {
        assert(r@.transactions =~= transaction_views(r.transactions@));
        assert(c@.transactions =~= transaction_views(c.transactions@));
        lemma_utxo_view(r);
        lemma_utxo_view(*c);
    }
    r
}

impl PartialEq for BCContext {
    fn eq(&self, other: &Self) -> (r: bool) {
        self.same_as(other)
    }
}

impl vstd::std_specs::cmp::PartialEqSpecImpl for BCContext {
    open spec fn obeys_eq_spec() -> bool {
        true
    }

    open spec fn eq_spec(&self, other: &Self) -> bool {
        self@ == other@
    }
}

impl Eq for BCContext {

}

impl Default for BCContext {
    fn default() -> (r: Self)
        ensures
            r@.transactions.len() == 0,
            r@.utxo_set == Multiset::<TxoView>::empty(),
            r@.notes == Map::<i32, Spentness>::empty(),
            r@.total_issuance == 0,
            r.well_formed(),
            r@.accounted(),
    {
        Self::new()
    }
}

impl Clone for BCContext {
    fn clone(&self) -> (r: Self)
        ensures
            r@ == self@,
    {
        copy_context(self)
    }
}

/// Conservation of the UTXO set: applying a valid transaction whose inputs are
/// pairwise distinct, whose outputs are pairwise distinct, and none of whose outputs
/// is in the set already (unless the transaction itself takes it out) changes the
/// size of the set by the number of outputs less the number of inputs.
pub proof fn lemma_utxo_conservation(ctx: ContextView, tx: TransactionView, next: ContextView)
    requires
        tx.valid_in(ctx),
        ctx.applied(tx, next),
        tx.transparent_inputs.no_duplicates(),
        tx.transparent_outputs.no_duplicates(),
        forall|j: int|
            0 <= j < tx.transparent_outputs.len() && ctx.utxo_set.contains(
                #[trigger] tx.transparent_outputs[j],
            ) ==> tx.transparent_inputs.contains(tx.transparent_outputs[j]),
    ensures
        next.utxo_count() == ctx.utxo_count() - tx.transparent_inputs.len()
            + tx.transparent_outputs.len(),
{
    broadcast use vstd::seq_lib::seq_to_set_is_finite;

    let before = ctx.utxo_set.dom();
    let ins = tx.transparent_inputs.to_set();
    let outs = tx.transparent_outputs.to_set();
    let after = before.difference(ins).union(outs);
    tx.transparent_inputs.unique_seq_to_set();
    tx.transparent_outputs.unique_seq_to_set();
    assert(before.intersect(ins) =~= ins) by {
        assert forall|t: TxoView| ins.contains(t) implies before.contains(t) by {
            let i = choose|i: int|
                0 <= i < tx.transparent_inputs.len() && tx.transparent_inputs[i] == t;
            assert(ctx.utxo_set.contains(tx.transparent_inputs[i]));
        }
    }
    vstd::set_lib::lemma_set_difference_len(before, ins);
    assert(before.difference(ins).disjoint(outs)) by {
        assert forall|t: TxoView| before.difference(ins).contains(t) implies !outs.contains(t) by {
            if outs.contains(t) {
                let j = choose|j: int|
                    0 <= j < tx.transparent_outputs.len() && tx.transparent_outputs[j] == t;
                assert(ctx.utxo_set.contains(tx.transparent_outputs[j]));
            }
        }
    }
    vstd::set_lib::lemma_set_disjoint_lens(before.difference(ins), outs);
    assert(after == before.difference(ins) + outs);
    assert(next.utxo_set.dom() =~= after) by {
        let counts = Map::new(|k: TxoView| after.contains(k), |v: TxoView| 1nat);
        assert(counts.dom() =~= after);
        assert forall|t: TxoView| next.utxo_set.dom().contains(t) <==> after.contains(t) by {
            if after.contains(t) {
                assert(counts.dom().contains(t));
                assert(next.utxo_set.count(t) == 1);
            } else {
                assert(!counts.dom().contains(t));
                assert(next.utxo_set.count(t) == 0);
            }
        }
    }
}

/// The vector of a context lists each output of the UTXO set once, so its length is
/// the size of the set.
pub proof fn lemma_utxo_count(c: BCContext)
    requires
        c.well_formed(),
    ensures
        c.utxo_set@.len() == c@.utxo_count(),
{
    lemma_utxo_view(c);
    txo_views(c.utxo_set@).unique_seq_to_set();
}

/// Spentness after a transaction was applied: each of its shielded outputs is
/// unspent; each of its shielded inputs that is not also an output is spent; every
/// other note is as it was.
pub proof fn lemma_note_spentness(ctx: ContextView, tx: TransactionView, next: ContextView, n: i32)
    requires
        tx.valid_in(ctx),
        ctx.applied(tx, next),
    ensures
        tx.shielded_outputs.contains(n) ==> next.notes.contains_key(n) && next.notes[n]
            == Spentness::Unspent,
        tx.shielded_inputs.contains(n) && !tx.shielded_outputs.contains(n)
            ==> next.notes.contains_key(n) && next.notes[n] == Spentness::Spent,
        !tx.shielded_inputs.contains(n) && !tx.shielded_outputs.contains(n) ==> (
        next.notes.contains_key(n) <==> ctx.notes.contains_key(n)) && (ctx.notes.contains_key(n)
            ==> next.notes[n] == ctx.notes[n]),
{
    if tx.shielded_inputs.contains(n) {
        let i = choose|i: int| 0 <= i < tx.shielded_inputs.len() && tx.shielded_inputs[i] == n;
        assert(ctx.notes.contains_key(tx.shielded_inputs[i]));
    }
}

/// Issuance accounting: an applied transaction adds its issuance to the total, and
/// the total stays the sum of what the applied transactions issued.
pub proof fn lemma_total_issuance(ctx: ContextView, tx: TransactionView, next: ContextView)
    requires
        ctx.accounted(),
        ctx.applied(tx, next),
    ensures
        next.total_issuance == ctx.total_issuance + tx.issuance,
        next.accounted(),
{
    assert(next.transactions.drop_last() =~= ctx.transactions);
}

} // verus!
