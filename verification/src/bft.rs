//! The consensus simulator: chain nodes, the event queue, the network and the nodes.

use vstd::prelude::*;
use crate::bft::streamlet::{
    block_view, copy_block, copy_proposal, proposal_view, BlockView, ProposalView, StreamletBlock,
    StreamletProposal,
};

pub mod event_queue;
pub mod message;
pub mod network;
pub mod node;
pub mod simulation;
pub mod streamlet;

verus! {

/// A permissioned consensus protocol's chain node.
pub trait PermissionedBFT: std::fmt::Debug + Clone {

}

/// What a chain node holds to be final.
pub trait LastFinal {
    fn last_final(self) -> PermissionedBFTEnum;
}

/// A node of the chain: the genesis base, a proposal, or a block.
#[derive(Debug, PartialEq, Eq)]
pub enum PermissionedBFTEnum {
    Base(PermissionedBFTBase),
    Block(StreamletBlock),
    Proposal(StreamletProposal),
}

/// The genesis of a chain: the number of participants and the tolerance.
#[derive(Debug, PartialEq, Eq)]
pub struct PermissionedBFTBase {
    pub n: usize,
    pub t: usize,
    pub parent: Option<Box<PermissionedBFTEnum>>,
}

/// What a chain node is.
pub ghost enum ChainView {
    Base(BaseView),
    Block(BlockView),
    Proposal(ProposalView),
}

/// What a genesis base is.
pub ghost struct BaseView {
    pub n: nat,
    pub t: nat,
    pub parent: Option<Box<ChainView>>,
}

/// What a chain node is, down to its genesis.
pub open spec fn chain_view(e: PermissionedBFTEnum) -> ChainView
    decreases e,
{
    match e {
        PermissionedBFTEnum::Base(b) => ChainView::Base(base_view(b)),
        PermissionedBFTEnum::Block(b) => ChainView::Block(block_view(b)),
        PermissionedBFTEnum::Proposal(p) => ChainView::Proposal(proposal_view(p)),
    }
}

/// What a base is.
pub open spec fn base_view(b: PermissionedBFTBase) -> BaseView
    decreases b,
{
    BaseView {
        n: b.n as nat,
        t: b.t as nat,
        parent: match b.parent {
            Some(p) => Some(Box::new(chain_view(*p))),
            None => None,
        },
    }
}

impl View for PermissionedBFTEnum {
    type V = ChainView;

    open spec fn view(&self) -> ChainView {
        chain_view(*self)
    }
}

impl View for PermissionedBFTBase {
    type V = BaseView;

    open spec fn view(&self) -> BaseView {
        base_view(*self)
    }
}

impl ChainView {
    /// The number of participants, inherited from the genesis.
    pub open spec fn n(self) -> nat
        decreases self,
    {
        match self {
            ChainView::Base(b) => b.n,
            ChainView::Block(b) => b.proposal.parent.n(),
            ChainView::Proposal(p) => p.parent.n(),
        }
    }

    /// The tolerance, inherited from the genesis.
    pub open spec fn t(self) -> nat
        decreases self,
    {
        match self {
            ChainView::Base(b) => b.t,
            ChainView::Block(b) => b.proposal.parent.t(),
            ChainView::Proposal(p) => p.parent.t(),
        }
    }

    /// The epoch: 0 for the genesis, a proposal's own, a block's proposal's.
    pub open spec fn epoch(self) -> nat {
        match self {
            ChainView::Base(_) => 0,
            ChainView::Block(b) => b.proposal.epoch,
            ChainView::Proposal(p) => p.epoch,
        }
    }

    /// The node before this one, if there is one. A base has none.
    pub open spec fn parent(self) -> Option<ChainView> {
        match self {
            ChainView::Base(_) => None,
            ChainView::Block(b) => match b.parent {
                Some(p) => Some(*p),
                None => None,
            },
            ChainView::Proposal(p) => Some(*p.parent),
        }
    }

    /// The last final node: a base is its own; a block's by the rule of three
    /// consecutive epochs; a proposal's is that of its parent.
    pub open spec fn last_final(self) -> ChainView
        decreases self,
    {
        match self {
            ChainView::Base(_) => self,
            ChainView::Block(b) => b.last_final(),
            ChainView::Proposal(p) => p.parent.last_final(),
        }
    }

    /// Every proposal in the node, and in what lies before it, has an epoch above its
    /// parent's.
    pub open spec fn epochs_increase(self) -> bool
        decreases self,
    {
        match self {
            ChainView::Base(b) => match b.parent {
                Some(p) => p.epochs_increase(),
                None => true,
            },
            ChainView::Block(b) => {
                &&& b.proposal.epoch > b.proposal.parent.epoch()
                &&& b.proposal.parent.epochs_increase()
                &&& match b.parent {
                    Some(p) => p.epochs_increase(),
                    None => true,
                }
            },
            ChainView::Proposal(p) => p.epoch > p.parent.epoch() && p.parent.epochs_increase(),
        }
    }
}

/// A copy of a chain node, down to its genesis.
pub fn copy_chain(e: &PermissionedBFTEnum) -> (r: PermissionedBFTEnum)
    ensures
        r@ == e@,
    decreases e,
{
    match e {
        PermissionedBFTEnum::Base(b) => PermissionedBFTEnum::Base(copy_base(b)),
        PermissionedBFTEnum::Block(b) => PermissionedBFTEnum::Block(copy_block(b)),
        PermissionedBFTEnum::Proposal(p) => PermissionedBFTEnum::Proposal(copy_proposal(p)),
    }
}

/// A copy of a base.
pub fn copy_base(b: &PermissionedBFTBase) -> (r: PermissionedBFTBase)
    ensures
        r@ == b@,
    decreases b,
{
    PermissionedBFTBase {
        n: b.n,
        t: b.t,
        parent: match &b.parent {
            Some(p) => Some(Box::new(copy_chain(p))),
            None => None,
        },
    }
}

impl Clone for PermissionedBFTEnum {
    fn clone(&self) -> (r: Self)
        ensures
            r@ == self@,
    {
        copy_chain(self)
    }
}

impl Clone for PermissionedBFTBase {
    fn clone(&self) -> (r: Self)
        ensures
            r@ == self@,
    {
        copy_base(self)
    }
}

impl PermissionedBFT for PermissionedBFTEnum {

}

/// The last final node of `e`.
pub fn chain_last_final(e: &PermissionedBFTEnum) -> (r: PermissionedBFTEnum)
    ensures
        r@ == e@.last_final(),
    decreases e,
{
    match e {
        PermissionedBFTEnum::Base(base) => base.last_final(),
        PermissionedBFTEnum::Block(block) => block.last_final(),
        PermissionedBFTEnum::Proposal(proposal) => chain_last_final(&proposal.parent),
    }
}

impl LastFinal for PermissionedBFTEnum {
    fn last_final(self) -> (r: PermissionedBFTEnum)
        ensures
            r@ == self@.last_final(),
    {
        chain_last_final(&self)
    }
}

impl PermissionedBFTBase {
    /// The genesis is final from the start.
    pub fn last_final(&self) -> (r: PermissionedBFTEnum)
        ensures
            r@ == ChainView::Base(self@),
    {
        PermissionedBFTEnum::Base(copy_base(self))
    }

    /// The genesis has epoch 0.
    pub fn epoch(&self) -> (r: usize)
        ensures
            r == 0,
    {
        0
    }
}

impl PermissionedBFTEnum {
    /// The number of participants.
    pub fn n(&self) -> (r: usize)
        ensures
            r == self@.n(),
        decreases self,
    {
        match self {
            PermissionedBFTEnum::Base(base) => base.n,
            PermissionedBFTEnum::Block(block) => {
                assert(block@.proposal == block.proposal@);
                block.proposal.parent.n()
            },
            PermissionedBFTEnum::Proposal(proposal) => proposal.parent.n(),
        }
    }

    /// The tolerance.
    pub fn t(&self) -> (r: usize)
        ensures
            r == self@.t(),
        decreases self,
    {
        match self {
            PermissionedBFTEnum::Base(base) => base.t,
            PermissionedBFTEnum::Block(block) => {
                assert(block@.proposal == block.proposal@);
                block.proposal.parent.t()
            },
            PermissionedBFTEnum::Proposal(proposal) => proposal.parent.t(),
        }
    }

    /// The epoch.
    pub fn epoch(&self) -> (r: usize)
        ensures
            r == self@.epoch(),
    {
        match self {
            PermissionedBFTEnum::Base(_) => 0,
            PermissionedBFTEnum::Block(block) => {
                assert(block@.proposal == block.proposal@);
                block.proposal.epoch
            },
            PermissionedBFTEnum::Proposal(proposal) => proposal.epoch,
        }
    }

    /// The node before this one, if there is one.
    pub fn parent(&self) -> (r: Option<&PermissionedBFTEnum>)
        ensures
            match r {
                Some(p) => self@.parent() == Some(p@),
                None => self@.parent() is None,
            },
    {
        match self {
            PermissionedBFTEnum::Base(_) => None,
            PermissionedBFTEnum::Block(block) => match &block.parent {
                Some(p) => Some(&**p),
                None => None,
            },
            PermissionedBFTEnum::Proposal(proposal) => Some(&*proposal.parent),
        }
    }
}

} // verus!
