//! The participants: passive, sequential, honest and Byzantine nodes.

use vstd::prelude::*;
use std::collections::{HashMap, VecDeque};
use crate::bft::message::Message;

verus! {

/// What a node did in its turn: `node` handled `message`, which `sender` had sent.
#[derive(Debug, Clone, PartialEq, Eq)]
pub struct Effect {
    pub node: usize,
    pub sender: usize,
    pub message: Message,
}

/// The effects that a node with the given mailbox has yet to yield, in order.
pub open spec fn effects_of(node: usize, mailbox: Seq<(usize, Message)>) -> Seq<Effect> {
    Seq::new(
        mailbox.len(),
        |i: int| Effect { node, sender: mailbox[i].0, message: mailbox[i].1 },
    )
}

/// Empties `mailbox` into the effects of `node`, in the order of arrival.
fn drain_mailbox(node: usize, mailbox: &mut VecDeque<(usize, Message)>) -> (effects: Vec<Effect>)
    ensures
        effects@ == effects_of(node, old(mailbox)@),
        final(mailbox)@.len() == 0,
{
    let mut effects: Vec<Effect> = Vec::new();
    while mailbox.len() > 0
        invariant
            effects@.len() + mailbox@.len() == old(mailbox)@.len(),
            effects@ == effects_of(node, old(mailbox)@.take(effects@.len() as int)),
            mailbox@ == old(mailbox)@.skip(effects@.len() as int),
        decreases mailbox@.len(),
    {
        let ghost done = effects@.len() as int;
        match mailbox.pop_front() {
            Some((sender, message)) => {
                effects.push(Effect { node, sender, message });
                proof {
                    assert(mailbox@ =~= old(mailbox)@.skip(done + 1));
                    assert(effects@ =~= effects_of(node, old(mailbox)@.take(done + 1)));
                }
            },
            None => {},
        }
    }
    proof {
        assert(old(mailbox)@.take(effects@.len() as int) =~= old(mailbox)@);
    }
    effects
}

/// A node that takes no part: it receives and does nothing.
pub struct PassiveNode {
    pub id: usize,
}

impl PassiveNode {
    pub fn new(id: usize) -> (r: Self)
        ensures
            r.id == id,
    {
        Self { id }
    }

    /// Receives `message` and keeps nothing of it.
    pub fn handle(&mut self, sender: usize, message: Message)
        ensures
            *final(self) == *old(self),
    {
    }

    /// A passive node has no effects to yield.
    pub fn run(&mut self) -> (effects: Vec<Effect>)
        ensures
            effects@.len() == 0,
            *final(self) == *old(self),
    {
        Vec::new()
    }
}

/// A node that handles its messages one by one, in the order of arrival.
pub struct SequentialNode {
    pub id: usize,
    pub mailbox: VecDeque<(usize, Message)>,
}

impl SequentialNode {
    pub fn new(id: usize) -> (r: Self)
        ensures
            r.id == id,
            r.mailbox@.len() == 0,
    {
        Self { id, mailbox: VecDeque::new() }
    }

    /// Puts `message` at the end of the mailbox.
    pub fn handle(&mut self, sender: usize, message: Message)
        ensures
            final(self).id == old(self).id,
            final(self).mailbox@ == old(self).mailbox@.push((sender, message)),
    {
        self.mailbox.push_back((sender, message));
    }

    /// Yields one effect for each message in the mailbox, in the order of arrival,
    /// and leaves the mailbox empty.
    pub fn run(&mut self) -> (effects: Vec<Effect>)
        ensures
            effects@ == effects_of(old(self).id, old(self).mailbox@),
            final(self).id == old(self).id,
            final(self).mailbox@.len() == 0,
    {
        drain_mailbox(self.id, &mut self.mailbox)
    }
}

/// A node that follows the protocol. Its clock is a Lamport clock.
pub struct HonestNode {
    pub id: usize,
    pub mailbox: VecDeque<(usize, Message)>,
    pub proposals: Vec<String>,
    pub votes: HashMap<usize, Vec<String>>,
    pub finalized: Option<String>,
    pub clock: u64,
}

/// The clock after a message with the given timestamp was received.
pub open spec fn clock_after(clock: u64, timestamp: u64) -> int {
    if clock >= timestamp {
        clock + 1
    } else {
        timestamp + 1
    }
}

/// The votes cast so far for proposal `proposal_id`, in order.
pub open spec fn votes_for(votes: Map<usize, Vec<String>>, proposal_id: usize) -> Seq<String> {
    if votes.contains_key(proposal_id) {
        votes[proposal_id]@
    } else {
        Seq::empty()
    }
}

impl HonestNode {
    pub fn new(id: usize) -> (r: Self)
        ensures
            r.id == id,
            r.mailbox@.len() == 0,
            r.proposals@.len() == 0,
            r.votes@ == Map::<usize, Vec<String>>::empty(),
            r.finalized is None,
            r.clock == 0,
    {
        Self {
            id,
            mailbox: VecDeque::new(),
            proposals: Vec::new(),
            votes: HashMap::new(),
            finalized: None,
            clock: 0,
        }
    }

    /// Advances the clock by one and returns it.
    pub fn increment_clock(&mut self) -> (r: u64)
        requires
            old(self).clock < u64::MAX,
        ensures
            r == old(self).clock + 1,
            *final(self) == (HonestNode { clock: r, ..*old(self) }),
    {
        self.clock = self.clock + 1;
        self.clock
    }

    /// Sets the clock past both itself and `other_clock`.
    pub fn update_clock(&mut self, other_clock: u64)
        requires
            clock_after(old(self).clock, other_clock) <= u64::MAX,
        ensures
            final(self).clock == clock_after(old(self).clock, other_clock),
            final(self).clock > old(self).clock,
            final(self).clock > other_clock,
            *final(self) == (HonestNode { clock: final(self).clock, ..*old(self) }),
    {
        if self.clock >= other_clock {
            self.clock = self.clock + 1;
        } else {
            self.clock = other_clock + 1;
        }
    }

    /// Receives `message`: the clock moves past the message's timestamp, and the
    /// message joins the mailbox.
    pub fn handle(&mut self, sender: usize, message: Message)
        requires
            clock_after(old(self).clock, message.timestamp) <= u64::MAX,
        ensures
            final(self).clock == clock_after(old(self).clock, message.timestamp),
            final(self).mailbox@ == old(self).mailbox@.push((sender, message)),
            final(self).id == old(self).id,
            final(self).proposals == old(self).proposals,
            final(self).votes == old(self).votes,
            final(self).finalized == old(self).finalized,
    {
        self.update_clock(message.timestamp);
        self.mailbox.push_back((sender, message));
    }

    /// Yields one effect for each message in the mailbox, in the order of arrival,
    /// and leaves the mailbox empty.
    pub fn run(&mut self) -> (effects: Vec<Effect>)
        ensures
            effects@ == effects_of(old(self).id, old(self).mailbox@),
            final(self).mailbox@.len() == 0,
            final(self).id == old(self).id,
            final(self).clock == old(self).clock,
            final(self).proposals == old(self).proposals,
            final(self).votes == old(self).votes,
            final(self).finalized == old(self).finalized,
    {
        drain_mailbox(self.id, &mut self.mailbox)
    }

    /// Proposes `value`: the clock advances, and the value joins the proposals.
    pub fn propose(&mut self, value: String)
        requires
            old(self).clock < u64::MAX,
        ensures
            final(self).clock == old(self).clock + 1,
            final(self).proposals@ == old(self).proposals@.push(value),
            final(self).id == old(self).id,
            final(self).mailbox == old(self).mailbox,
            final(self).votes == old(self).votes,
            final(self).finalized == old(self).finalized,
    {
        let _timestamp = self.increment_clock();
        self.proposals.push(value);
    }

    /// Votes `value` for proposal `proposal_id`: the clock advances, and the vote
    /// joins those cast for it.
    pub fn vote(&mut self, proposal_id: usize, value: String)
        requires
            old(self).clock < u64::MAX,
        ensures
            final(self).votes@.dom() == old(self).votes@.dom().insert(proposal_id),
            votes_for(final(self).votes@, proposal_id) == votes_for(
                old(self).votes@,
                proposal_id,
            ).push(value),
            forall|other: usize|
                other != proposal_id && old(self).votes@.contains_key(other)
                    ==> final(self).votes@[other] == old(self).votes@[other],
            final(self).id == old(self).id,
            final(self).mailbox == old(self).mailbox,
            final(self).proposals == old(self).proposals,
            final(self).finalized == old(self).finalized,
            final(self).clock == old(self).clock + 1,
    {
        broadcast use vstd::std_specs::hash::group_hash_axioms;

        let _timestamp = self.increment_clock();
        let mut cast = match self.votes.remove(&proposal_id) {
            Some(cast) => cast,
            None => Vec::new(),
        };
        cast.push(value);
        self.votes.insert(proposal_id, cast);
        proof {
            assert(final(self).votes@.dom() =~= old(self).votes@.dom().insert(proposal_id));
        }
    }

    /// Finalizes `value` and returns it.
    pub fn finalize(&mut self, value: String) -> (r: Option<String>)
        ensures
            r == Some(value),
            *final(self) == (HonestNode { finalized: Some(value), ..*old(self) }),
    {
        self.finalized = Some(value.clone());
        Some(value)
    }
}

/// A node that does not follow the protocol: it ignores what it receives, keeps
/// no track of what it proposes or votes, and finalizes nothing.
pub struct ByzantineNode {
    pub id: usize,
}

impl ByzantineNode {
    pub fn new(id: usize) -> (r: Self)
        ensures
            r.id == id,
    {
        Self { id }
    }

    /// Ignores `message`.
    pub fn handle(&mut self, sender: usize, message: Message)
        ensures
            *final(self) == *old(self),
    {
    }

    /// A Byzantine node has no effects to yield.
    pub fn run(&mut self) -> (effects: Vec<Effect>)
        ensures
            effects@.len() == 0,
            *final(self) == *old(self),
    {
        Vec::new()
    }

    /// Proposes `value` and keeps no track of it.
    pub fn propose(&mut self, value: String)
        ensures
            *final(self) == *old(self),
    {
    }

    /// Votes `value` and keeps no track of it.
    pub fn vote(&mut self, proposal_id: usize, value: String)
        ensures
            *final(self) == *old(self),
    {
    }

    /// Refuses to finalize.
    pub fn finalize(&mut self, value: String) -> (r: Option<String>)
        ensures
            r is None,
            *final(self) == *old(self),
    {
        None
    }
}

/// A node of any kind.
pub enum NodeKind {
    Passive(PassiveNode),
    Sequential(SequentialNode),
    Honest(HonestNode),
    Byzantine(ByzantineNode),
}

impl NodeKind {
    /// The node's id.
    pub open spec fn id(self) -> usize {
        match self {
            NodeKind::Passive(node) => node.id,
            NodeKind::Sequential(node) => node.id,
            NodeKind::Honest(node) => node.id,
            NodeKind::Byzantine(node) => node.id,
        }
    }

    /// Whether the node keeps what it receives until its turn.
    pub open spec fn keeps_mail(self) -> bool {
        self is Sequential || self is Honest
    }

    /// The messages the node has received and not yet handled, in order.
    pub open spec fn mailbox(self) -> Seq<(usize, Message)> {
        match self {
            NodeKind::Sequential(node) => node.mailbox@,
            NodeKind::Honest(node) => node.mailbox@,
            _ => Seq::empty(),
        }
    }

    /// Whether the node's clock has room for a message with the given timestamp.
    pub open spec fn can_receive(self, timestamp: u64) -> bool {
        self matches NodeKind::Honest(node) ==> clock_after(node.clock, timestamp) <= u64::MAX
    }

    /// Whether `next` is this node but for its mailbox and its clock: the same kind
    /// of node with the same id, and for an honest node the same proposals, votes
    /// and finalized value.
    pub open spec fn kept_by(self, next: NodeKind) -> bool {
        match (self, next) {
            (NodeKind::Passive(a), NodeKind::Passive(b)) => a == b,
            (NodeKind::Sequential(a), NodeKind::Sequential(b)) => a.id == b.id,
            (NodeKind::Honest(a), NodeKind::Honest(b)) => {
                &&& b.id == a.id
                &&& b.proposals == a.proposals
                &&& b.votes == a.votes
                &&& b.finalized == a.finalized
            },
            (NodeKind::Byzantine(a), NodeKind::Byzantine(b)) => a == b,
            _ => false,
        }
    }

    /// Whether `next` is this node after it received a message with the given
    /// timestamp, its mailbox aside: an honest node's clock has moved past the
    /// timestamp, and nothing else has changed.
    pub open spec fn received(self, timestamp: u64, next: NodeKind) -> bool {
        &&& self.kept_by(next)
        &&& self matches NodeKind::Honest(a) ==> next matches NodeKind::Honest(b) && b.clock
            == clock_after(a.clock, timestamp)
    }

    /// Whether `next` is this node after its turn: its mailbox is empty, and
    /// nothing else has changed.
    pub open spec fn had_turn(self, next: NodeKind) -> bool {
        &&& self.kept_by(next)
        &&& next.mailbox().len() == 0
        &&& self matches NodeKind::Honest(a) ==> next matches NodeKind::Honest(b) && b.clock
            == a.clock
    }

    /// Hands `message` to the node. A node that keeps its mail puts it at the end
    /// of its mailbox, and an honest node moves its clock past the timestamp.
    pub fn handle(&mut self, sender: usize, message: Message)
        requires
            old(self).can_receive(message.timestamp),
        ensures
            old(self).received(message.timestamp, *final(self)),
            final(self).mailbox() == if old(self).keeps_mail() {
                old(self).mailbox().push((sender, message))
            } else {
                old(self).mailbox()
            },
    {
        match self {
            NodeKind::Passive(node) => node.handle(sender, message),
            NodeKind::Sequential(node) => node.handle(sender, message),
            NodeKind::Honest(node) => node.handle(sender, message),
            NodeKind::Byzantine(node) => node.handle(sender, message),
        }
    }

    /// Gives the node its turn: it yields one effect for each message in its
    /// mailbox, in the order of arrival, and its mailbox is empty afterwards.
    pub fn run(&mut self) -> (effects: Vec<Effect>)
        ensures
            effects@ == effects_of(old(self).id(), old(self).mailbox()),
            old(self).had_turn(*final(self)),
    {
        match self {
            NodeKind::Passive(node) => {
                let effects = node.run();
                assert(effects@ =~= effects_of(node.id, Seq::empty()));
                effects
            },
            NodeKind::Sequential(node) => node.run(),
            NodeKind::Honest(node) => node.run(),
            NodeKind::Byzantine(node) => {
                let effects = node.run();
                assert(effects@ =~= effects_of(node.id, Seq::empty()));
                effects
            },
        }
    }
}

} // verus!
