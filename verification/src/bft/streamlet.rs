//! Streamlet: a genesis, proposals that collect signatures, and blocks, with the
//! rule that three blocks of consecutive epochs make the middle one final.

use vstd::prelude::*;
use std::collections::HashSet;
use vstd::std_specs::iter::IteratorSpec;
use crate::seq_facts::lemma_take_next;
use crate::bft::{
    chain_view, copy_chain, ChainView, BaseView, PermissionedBFTBase, PermissionedBFTEnum,
};

verus! {

/// The configuration a chain starts from.
#[derive(Debug, Clone, PartialEq, Eq)]
pub struct StreamletGenesis {
    pub n: usize,
    pub t: usize,
}

/// A proposal: what it builds on, its epoch, and who signed it.
#[derive(Debug, PartialEq, Eq)]
pub struct StreamletProposal {
    pub parent: Box<PermissionedBFTEnum>,
    pub epoch: usize,
    pub signatures: HashSet<usize>,
}

/// A block: a notarized proposal, and what the block builds on.
#[derive(Debug, PartialEq, Eq)]
pub struct StreamletBlock {
    pub proposal: Box<StreamletProposal>,
    pub parent: Option<Box<PermissionedBFTEnum>>,
}

/// What a proposal is.
pub ghost struct ProposalView {
    pub parent: Box<ChainView>,
    pub epoch: nat,
    pub signatures: Set<usize>,
}

/// What a block is.
pub ghost struct BlockView {
    pub proposal: ProposalView,
    pub parent: Option<Box<ChainView>>,
}

/// What a proposal is, down to the genesis.
pub open spec fn proposal_view(p: StreamletProposal) -> ProposalView
    decreases p,
{
    ProposalView {
        parent: Box::new(chain_view(*p.parent)),
        epoch: p.epoch as nat,
        signatures: p.signatures@,
    }
}

/// What a block is, down to the genesis.
pub open spec fn block_view(b: StreamletBlock) -> BlockView
    decreases b,
{
    BlockView {
        proposal: proposal_view(*b.proposal),
        parent: match b.parent {
            Some(p) => Some(Box::new(chain_view(*p))),
            None => None,
        },
    }
}

impl View for StreamletProposal {
    type V = ProposalView;

    open spec fn view(&self) -> ProposalView {
        proposal_view(*self)
    }
}

impl View for StreamletBlock {
    type V = BlockView;

    open spec fn view(&self) -> BlockView {
        block_view(*self)
    }
}

/// The tolerance for `n` participants: two thirds of `n`, rounded up.
pub open spec fn tolerance(n: nat) -> nat {
    (2 * n + 2) / 3
}

impl ProposalView {
    /// The number of participants.
    pub open spec fn n(self) -> nat {
        self.parent.n()
    }

    /// The tolerance.
    pub open spec fn t(self) -> nat {
        self.parent.t()
    }

    /// A proposal is notarized once more than `t` participants have signed it.
    pub open spec fn is_notarized(self) -> bool {
        self.signatures.len() >= self.t() + 1
    }
}

impl BlockView {
    /// The block's epoch is its proposal's.
    pub open spec fn epoch(self) -> nat {
        self.proposal.epoch
    }

    /// The last final node as seen from this block. With no parent, the block
    /// itself. Else the search runs down the parents with a window of three blocks,
    /// starting at this block and its two parents.
    pub open spec fn last_final(self) -> ChainView {
        match self.parent {
            None => ChainView::Block(self),
            Some(p) => match *p {
                ChainView::Block(middle) => match middle.parent {
                    None => ChainView::Block(middle),
                    Some(q) => match *q {
                        ChainView::Block(first) => window_final(first, middle, self),
                        other => other,
                    },
                },
                other => other,
            },
        }
    }
}

/// Whether the three epochs follow one another.
pub open spec fn consecutive(first: BlockView, middle: BlockView, last: BlockView) -> bool {
    first.epoch() + 1 == middle.epoch() && middle.epoch() + 1 == last.epoch()
}

/// The result of the search from the window `(first, middle, last)`: where the
/// window's epochs are consecutive, `middle`; else, where `first` has no parent,
/// `first`, the oldest block; else the window moves one block down, and where what
/// lies below `first` is no block, that node is the result.
pub open spec fn window_final(first: BlockView, middle: BlockView, last: BlockView) -> ChainView
    decreases first,
{
    if consecutive(first, middle, last) {
        ChainView::Block(middle)
    } else {
        match first.parent {
            None => ChainView::Block(first),
            Some(p) => match *p {
                ChainView::Block(below) => window_final(below, first, middle),
                other => other,
            },
        }
    }
}

/// A copy of a set of signatures.
pub fn copy_signatures(s: &HashSet<usize>) -> (r: HashSet<usize>)
    ensures
        r@ == s@,
{
    broadcast use vstd::std_specs::hash::group_hash_axioms;

    let mut r: HashSet<usize> = HashSet::new();
    let ghost ids = s.iter().remaining().unref();
    for id in it: s.iter()
        invariant
            it.seq().unref() == ids,
            ids.to_set() == s@,
            r@ == ids.take(it.index() as int).to_set(),
    {
        proof {
            let i = it.index() as int;
            lemma_take_next(ids, i);
            assert forall|x: usize|
                ids.take(i + 1).to_set().contains(x) <==> ids.take(i).to_set().insert(
                    ids[i],
                ).contains(x) by {
                assert(ids.take(i + 1).contains(x) <==> ids.take(i).contains(x) || x == ids[i]);
            }
            assert(ids.take(i + 1).to_set() =~= ids.take(i).to_set().insert(ids[i]));
        }
        r.insert(*id);
    }
    assert(ids.take(ids.len() as int) =~= ids);
    r
}

/// A copy of a proposal.
pub fn copy_proposal(p: &StreamletProposal) -> (r: StreamletProposal)
    ensures
        r@ == p@,
    decreases p,
{
    StreamletProposal {
        parent: Box::new(copy_chain(&p.parent)),
        epoch: p.epoch,
        signatures: copy_signatures(&p.signatures),
    }
}

/// A copy of a block.
pub fn copy_block(b: &StreamletBlock) -> (r: StreamletBlock)
    ensures
        r@ == b@,
    decreases b,
{
    StreamletBlock {
        proposal: Box::new(copy_proposal(&b.proposal)),
        parent: match &b.parent {
            Some(p) => Some(Box::new(copy_chain(p))),
            None => None,
        },
    }
}

impl Clone for StreamletProposal {
    fn clone(&self) -> (r: Self)
        ensures
            r@ == self@,
    {
        copy_proposal(self)
    }
}

impl Clone for StreamletBlock {
    fn clone(&self) -> (r: Self)
        ensures
            r@ == self@,
    {
        copy_block(self)
    }
}

impl StreamletGenesis {
    /// The genesis for `n` participants, with the tolerance that goes with `n`.
    pub fn new(n: usize) -> (r: Self)
        ensures
            r.n == n,
            r.t == tolerance(n as nat),
    {
        let t = n / 3 * 2 + (n % 3 * 2 + 2) / 3;
        Self { n, t }
    }

    /// The genesis is final from the start: a base with no parent.
    pub fn last_final(&self) -> (r: PermissionedBFTEnum)
        ensures
            r@ == ChainView::Base(BaseView { n: self.n as nat, t: self.t as nat, parent: None }),
    {
        PermissionedBFTEnum::Base(PermissionedBFTBase { n: self.n, t: self.t, parent: None })
    }
}

impl StreamletProposal {
    /// A proposal on `parent` for `epoch`, which must be above the parent's. Nobody
    /// has signed it yet.
    pub fn new(parent: Box<PermissionedBFTEnum>, epoch: usize) -> (r: Self)
        requires
            epoch > parent@.epoch(),
        ensures
            r@ == (ProposalView {
                parent: Box::new(parent@),
                epoch: epoch as nat,
                signatures: Set::<usize>::empty(),
            }),
            r@.epoch > r@.parent.epoch(),
            parent@.epochs_increase() ==> ChainView::Proposal(r@).epochs_increase(),
    {
        Self { parent, epoch, signatures: HashSet::new() }
    }

    /// The number of participants.
    pub fn n(&self) -> (r: usize)
        ensures
            r == self@.n(),
    {
        self.parent.n()
    }

    /// The tolerance.
    pub fn t(&self) -> (r: usize)
        ensures
            r == self@.t(),
    {
        self.parent.t()
    }

    /// The epoch.
    pub fn epoch(&self) -> (r: usize)
        ensures
            r == self@.epoch,
    {
        self.epoch
    }

    /// Records the signature of `node_id`. Signing twice is signing once; a
    /// notarized proposal stays notarized; and the signature notarizes the proposal
    /// exactly when it is new and brings the number of signatures from `t` to
    /// `t + 1`.
    pub fn add_signature(&mut self, node_id: usize)
        ensures
            final(self)@ == (ProposalView {
                signatures: old(self)@.signatures.insert(node_id),
                ..old(self)@
            }),
            old(self)@.signatures.contains(node_id) ==> final(self)@ == old(self)@,
            old(self)@.is_notarized() ==> final(self)@.is_notarized(),
            (!old(self)@.is_notarized() && final(self)@.is_notarized()) <==> (old(
                self,
            )@.signatures.len() == old(self)@.t() && !old(self)@.signatures.contains(node_id)),
    {
        broadcast use vstd::std_specs::hash::group_hash_axioms;

        let ghost ids = self.signatures.iter().remaining().unref();
        proof {
            assert(ids.to_set() == self.signatures@);
            vstd::seq_lib::seq_to_set_is_finite(ids);
            lemma_notarization_threshold(self@, node_id);
        }
        self.signatures.insert(node_id);
    }

    /// Whether more than `t` participants have signed.
    pub fn is_notarized(&self) -> (r: bool)
        ensures
            r == self@.is_notarized(),
    {
        broadcast use vstd::std_specs::hash::group_hash_axioms;

        self.signatures.len() > self.t()
    }

    /// States that the proposal is notarized; to be called on no other.
    pub fn assert_notarized(&self)
        requires
            self@.is_notarized(),
    {
    }
}

impl StreamletBlock {
    /// The last final node as seen from this block.
    pub fn last_final(&self) -> (r: PermissionedBFTEnum)
        ensures
            r@ == self@.last_final(),
    {
        let mut last = self;
        let mut middle = match &last.parent {
            None => {
                return PermissionedBFTEnum::Block(copy_block(last));
            },
            Some(p) => match &**p {
                PermissionedBFTEnum::Block(b) => b,
                other => {
                    return copy_chain(other);
                },
            },
        };
        let mut first = match &middle.parent {
            None => {
                return PermissionedBFTEnum::Block(copy_block(middle));
            },
            Some(p) => match &**p {
                PermissionedBFTEnum::Block(b) => b,
                other => {
                    return copy_chain(other);
                },
            },
        };
        loop
            invariant
                window_final(first@, middle@, last@) == self@.last_final(),
            decreases first,
        {
            if first.epoch() < usize::MAX && first.epoch() + 1 == middle.epoch() && middle.epoch()
                < usize::MAX && middle.epoch() + 1 == last.epoch() {
                return PermissionedBFTEnum::Block(copy_block(middle));
            }
            let below = match &first.parent {
                None => {
                    return PermissionedBFTEnum::Block(copy_block(first));
                },
                Some(p) => p,
            };
            let new_first = match &**below {
                PermissionedBFTEnum::Block(b) => b,
                other => {
                    return copy_chain(other);
                },
            };
            last = middle;
            middle = first;
            first = new_first;
        }
    }

    /// The block's epoch.
    pub fn epoch(&self) -> (r: usize)
        ensures
            r == self@.epoch(),
    {
        self.proposal.epoch()
    }
}

/// Whether `to` is `from` itself or lies before it: `from` leads to `to` by going
/// from block to parent.
pub open spec fn reaches(from: ChainView, to: ChainView) -> bool
    decreases from,
{
    from == to || match from {
        ChainView::Block(b) => match b.parent {
            Some(p) => reaches(*p, to),
            None => false,
        },
        _ => false,
    }
}

/// Epoch monotonicity: in a chain whose epochs increase, a proposal's epoch is
/// above its parent's, and so is the epoch of a block that builds on what its
/// proposal builds on; and the epochs increase in what lies before.
pub proof fn lemma_epochs_increase_along_edges(c: ChainView)
    requires
        c.epochs_increase(),
    ensures
        match c {
            ChainView::Base(_) => true,
            ChainView::Proposal(p) => c.epoch() > p.parent.epoch() && p.parent.epochs_increase(),
            ChainView::Block(b) => {
                &&& b.proposal.parent.epochs_increase()
                &&& b.parent matches Some(q) ==> q.epochs_increase() && (q == b.proposal.parent
                    ==> c.epoch() > q.epoch())
            },
        },
{
}

/// How many blocks lie before a node on the way from block to parent.
pub open spec fn depth(c: ChainView) -> nat
    decreases c,
{
    match c {
        ChainView::Block(b) => match b.parent {
            Some(p) => 1 + depth(*p),
            None => 0,
        },
        _ => 0,
    }
}

/// A node that is reached lies no deeper than where the way began, and as deep
/// only if it is that node: two nodes that reach each other are one.
pub proof fn lemma_reaches_goes_down(from: ChainView, to: ChainView)
    requires
        reaches(from, to),
    ensures
        depth(to) <= depth(from),
        from != to ==> depth(to) < depth(from),
        reaches(to, from) ==> from == to,
    decreases from,
{
    if from != to {
        match from {
            ChainView::Block(b) => {
                lemma_reaches_goes_down(*b.parent->0, to);
            },
            _ => {},
        }
        if reaches(to, from) {
            lemma_reaches_goes_up(to, from);
        }
    }
}

/// A node that is reached lies no deeper than where the way began.
proof fn lemma_reaches_goes_up(from: ChainView, to: ChainView)
    requires
        reaches(from, to),
    ensures
        depth(to) <= depth(from),
    decreases from,
{
    if from != to {
        match from {
            ChainView::Block(b) => {
                lemma_reaches_goes_up(*b.parent->0, to);
            },
            _ => {},
        }
    }
}

/// The notarization threshold. Signing twice is signing once; a notarized proposal
/// stays notarized; and a signature notarizes a proposal exactly when it is new and
/// is the one that brings the number of signatures from `t` to `t + 1`.
pub proof fn lemma_notarization_threshold(p: ProposalView, id: usize)
    requires
        p.signatures.finite(),
    ensures
        ({
            let q = ProposalView { signatures: p.signatures.insert(id), ..p };
            &&& p.signatures.contains(id) ==> q == p
            &&& p.is_notarized() ==> q.is_notarized()
            &&& (!p.is_notarized() && q.is_notarized()) <==> (p.signatures.len() == p.t()
                && !p.signatures.contains(id))
        }),
{
    if p.signatures.contains(id) {
        assert(p.signatures.insert(id) =~= p.signatures);
    }
}

/// Finality under three consecutive epochs: where a block is followed by two
/// blocks, and the three epochs follow one another, the last block holds the middle
/// one to be final, whatever lies before the first.
pub proof fn lemma_three_consecutive_epochs(b1: BlockView, b2: BlockView, b3: BlockView)
    requires
        b2.parent == Some(Box::new(ChainView::Block(b1))),
        b3.parent == Some(Box::new(ChainView::Block(b2))),
        consecutive(b1, b2, b3),
    ensures
        b3.last_final() == ChainView::Block(b2),
{
}

/// Going on from a node that was reached reaches further.
pub proof fn lemma_reaches_transitive(a: ChainView, b: ChainView, c: ChainView)
    requires
        reaches(a, b),
        reaches(b, c),
    ensures
        reaches(a, c),
    decreases a,
{
    if a != b {
        match a {
            ChainView::Block(block) => {
                lemma_reaches_transitive(*block.parent->0, b, c);
            },
            _ => {},
        }
    }
}

/// What a window search returns is the middle block or lies before it.
proof fn lemma_window_final_reached(first: BlockView, middle: BlockView, last: BlockView)
    requires
        middle.parent == Some(Box::new(ChainView::Block(first))),
    ensures
        reaches(ChainView::Block(middle), window_final(first, middle, last)),
    decreases first,
{
    let found = window_final(first, middle, last);
    if !consecutive(first, middle, last) {
        match first.parent {
            None => {},
            Some(p) => {
                match *p {
                    ChainView::Block(below) => {
                        lemma_window_final_reached(below, first, middle);
                    },
                    other => {
                        assert(reaches(*p, found));
                    },
                }
            },
        }
        assert(reaches(ChainView::Block(first), found));
    }
}

/// What a block holds to be final is the block itself or lies before it.
pub proof fn lemma_last_final_reached(b: BlockView)
    ensures
        reaches(ChainView::Block(b), b.last_final()),
{
    match b.parent {
        None => {},
        Some(p) => match *p {
            ChainView::Block(middle) => {
                match middle.parent {
                    None => {},
                    Some(q) => match *q {
                        ChainView::Block(first) => {
                            lemma_window_final_reached(first, middle, b);
                        },
                        other => {
                            assert(reaches(*q, b.last_final()));
                        },
                    },
                }
                assert(reaches(ChainView::Block(middle), b.last_final()));
            },
            other => {
                assert(reaches(*p, b.last_final()));
            },
        },
    }
}

/// What a block holds to be final is what its parent block holds to be final, or a
/// block that came after that.
proof fn lemma_finality_step(child: BlockView, b: BlockView)
    requires
        child.parent == Some(Box::new(ChainView::Block(b))),
    ensures
        reaches(child.last_final(), b.last_final()),
{
    match b.parent {
        None => {},
        Some(q) => match *q {
            ChainView::Block(m) => {
                if consecutive(m, b, child) {
                    lemma_last_final_reached(b);
                }
            },
            other => {},
        },
    }
}

/// Finality stability: what a block that extends `b` holds to be final is what `b`
/// holds to be final, or comes after it; it never lies before it.
pub proof fn lemma_finality_stable(tip: BlockView, b: BlockView)
    requires
        reaches(ChainView::Block(tip), ChainView::Block(b)),
    ensures
        reaches(tip.last_final(), b.last_final()),
        tip.last_final() != b.last_final() ==> !reaches(b.last_final(), tip.last_final()),
    decreases tip,
{
    if tip == b {
        assert(reaches(tip.last_final(), tip.last_final()));
    } else {
        assert(tip.parent is Some && reaches(*tip.parent->0, ChainView::Block(b)));
        match *tip.parent->0 {
            ChainView::Block(below) => {
                lemma_finality_stable(below, b);
                lemma_finality_step(tip, below);
                lemma_reaches_transitive(tip.last_final(), below.last_final(), b.last_final());
            },
            _ => {},
        }
    }
    lemma_reaches_goes_down(tip.last_final(), b.last_final());
}

} // verus!
