//! The driver: it owns the network and the nodes, and runs them until nothing is
//! on its way.

use vstd::prelude::*;
use vstd::string::StringExecFns;
use crate::bft::message::Message;
use crate::bft::event_queue::Event;
use crate::bft::network::{deliveries_to, Network};
use crate::bft::node::{effects_of, Effect, NodeKind};

verus! {

/// The digit `d` as a character.
pub open spec fn digit_char(d: nat) -> char {
    ((48 + d) as u8) as char
}

/// The decimal digits of `n`, the most significant first.
pub open spec fn decimal_text(n: nat) -> Seq<char>
    decreases n,
{
    if n < 10 {
        seq![digit_char(n)]
    } else {
        decimal_text(n / 10).push(digit_char(n % 10))
    }
}

/// What a new node is told: that the node with its id is initialized.
pub open spec fn greeting_text(node_id: usize) -> Seq<char> {
    "Node "@ + decimal_text(node_id as nat) + " initialized."@
}

/// The digit `d` as text.
fn digit_text(d: usize) -> (text: &'static str)
    requires
        d < 10,
    ensures
        text@ == seq![digit_char(d as nat)],
{
    proof {
        reveal_strlit("0");
        reveal_strlit("1");
        reveal_strlit("2");
        reveal_strlit("3");
        reveal_strlit("4");
        reveal_strlit("5");
        reveal_strlit("6");
        reveal_strlit("7");
        reveal_strlit("8");
        reveal_strlit("9");
    }
    let text = match d {
        0 => "0",
        1 => "1",
        2 => "2",
        3 => "3",
        4 => "4",
        5 => "5",
        6 => "6",
        7 => "7",
        8 => "8",
        _ => "9",
    };
    assert(text@ =~= seq![digit_char(d as nat)]);
    text
}

/// The number `n` in decimal.
pub fn decimal(n: usize) -> (text: String)
    ensures
        text@ == decimal_text(n as nat),
    decreases n,
{
    if n < 10 {
        String::from_str(digit_text(n))
    } else {
        let mut text = decimal(n / 10);
        text.append(digit_text(n % 10));
        assert(text@ =~= decimal_text(n as nat));
        text
    }
}

/// The greeting for the node with the given id.
pub fn greeting(node_id: usize) -> (text: String)
    ensures
        text@ == greeting_text(node_id),
{
    let mut text = String::from_str("Node ");
    let number = decimal(node_id);
    text.append(number.as_str());
    text.append(" initialized.");
    text
}

/// The effects that the nodes have yet to yield, node by node.
pub open spec fn all_effects(nodes: Seq<NodeKind>) -> Seq<Effect>
    decreases nodes.len(),
{
    if nodes.len() == 0 {
        Seq::empty()
    } else {
        all_effects(nodes.drop_last()) + effects_of(nodes.last().id(), nodes.last().mailbox())
    }
}

/// A network and the nodes on it.
pub struct Simulation {
    pub network: Network,
    pub nodes: Vec<NodeKind>,
}

impl Simulation {
    /// A simulation with no nodes.
    pub fn new() -> (r: Self)
        ensures
            r.network.node_count() == 0,
            r.network.pending() == Seq::<Event>::empty(),
            r.network.well_formed(),
            r.nodes@.len() == 0,
    {
        Self { network: Network::new(), nodes: Vec::new() }
    }

    /// Registers `node` on the network, greets it with a message that names the id
    /// it got, and adds it to the nodes. The node's inbox on the network is empty,
    /// and nothing else on the network changes.
    pub fn add_node(&mut self, node: NodeKind)
        requires
            node.can_receive(0),
        ensures
            final(self).network.node_count() == old(self).network.node_count() + 1,
            final(self).network.pending() == old(self).network.pending(),
            final(self).network.inbox(old(self).network.node_count() as usize) == Seq::<
                Message,
            >::empty(),
            forall|id: usize|
                id != old(self).network.node_count() ==> final(self).network.inbox(id) == old(
                    self,
                ).network.inbox(id),
            old(self).network.well_formed() ==> final(self).network.well_formed(),
            final(self).nodes@.len() == old(self).nodes@.len() + 1,
            final(self).nodes@.drop_last() == old(self).nodes@,
            node.received(0, final(self).nodes@.last()),
            node.keeps_mail() ==> {
                &&& final(self).nodes@.last().mailbox().len() == node.mailbox().len() + 1
                &&& final(self).nodes@.last().mailbox().drop_last() == node.mailbox()
                &&& final(self).nodes@.last().mailbox().last().0 == 0
                &&& final(self).nodes@.last().mailbox().last().1.timestamp == 0
                &&& final(self).nodes@.last().mailbox().last().1.content@ == greeting_text(
                    old(self).network.node_count() as usize,
                )
            },
            !node.keeps_mail() ==> final(self).nodes@.last() == node,
    {
        let node_id = self.network.add_node();
        let ghost given = node;
        let mut node = node;
        node.handle(0, Message { content: greeting(node_id), timestamp: 0 });
        proof {
            if node.keeps_mail() {
                assert(node.mailbox().drop_last() =~= given.mailbox());
            }
        }
        self.nodes.push(node);
        proof {
            assert(self.nodes@.drop_last() =~= old(self).nodes@);
        }
    }

    /// Runs until nothing is on its way. While something is, every message on its
    /// way is delivered to its receiver's inbox, the earliest first, and then every
    /// node has its turn, in order. The effects that the nodes yielded are returned
    /// in the order in which they were yielded. An event whose receiver is not
    /// registered is dropped.
    pub fn start(&mut self) -> (effects: Vec<Effect>)
        ensures
            old(self).network.well_formed() ==> final(self).network.well_formed(),
            final(self).network.pending().len() == 0,
            final(self).network.node_count() == old(self).network.node_count(),
            forall|id: usize|
                old(self).network.has_node(id) ==> final(self).network.inbox(id) == old(
                    self,
                ).network.inbox(id) + deliveries_to(old(self).network.pending(), id),
            final(self).nodes@.len() == old(self).nodes@.len(),
            old(self).network.pending().len() == 0 ==> effects@.len() == 0 && *final(self) == *old(
                self,
            ),
            old(self).network.pending().len() > 0 ==> {
                &&& effects@ == all_effects(old(self).nodes@)
                &&& forall|i: int|
                    0 <= i < final(self).nodes@.len() ==> old(self).nodes@[i].had_turn(
                        #[trigger] final(self).nodes@[i],
                    )
            },
    {
        let mut effects: Vec<Effect> = Vec::new();
        let ghost before = self.nodes@;
        while self.network.has_pending()
            invariant
                self.network.node_count() == old(self).network.node_count(),
                self.nodes@.len() == before.len(),
                before == old(self).nodes@,
                old(self).network.pending().len() == 0 || self.network.pending().len() > 0 ==> {
                    &&& effects@.len() == 0
                    &&& *self == *old(self)
                },
                old(self).network.pending().len() > 0 && self.network.pending().len() == 0 ==> {
                    &&& self.network.well_formed()
                    &&& effects@ == all_effects(before)
                    &&& forall|i: int|
                        0 <= i < self.nodes@.len() ==> before[i].had_turn(#[trigger] self.nodes@[i])
                    &&& forall|id: usize|
                        old(self).network.has_node(id) ==> self.network.inbox(id) == old(
                            self,
                        ).network.inbox(id) + deliveries_to(old(self).network.pending(), id)
                },
            decreases self.network.pending().len(),
        {
            let _dropped = self.network.process_events();
            let mut i: usize = 0;
            while i < self.nodes.len()
                invariant
                    i <= self.nodes.len(),
                    self.nodes@.len() == before.len(),
                    self.network.well_formed(),
                    self.network.pending().len() == 0,
                    self.network.node_count() == old(self).network.node_count(),
                    forall|id: usize|
                        old(self).network.has_node(id) ==> self.network.inbox(id) == old(
                            self,
                        ).network.inbox(id) + deliveries_to(old(self).network.pending(), id),
                    effects@ == all_effects(before.take(i as int)),
                    forall|j: int| 0 <= j < i ==> before[j].had_turn(#[trigger] self.nodes@[j]),
                    forall|j: int| i <= j < self.nodes@.len() ==> self.nodes@[j] == before[j],
                decreases self.nodes.len() - i,
            {
                let mut yielded = self.nodes[i].run();
                proof {
                    assert(before.take(i + 1).drop_last() =~= before.take(i as int));
                    assert(before.take(i + 1).last() == before[i as int]);
                }
                effects.append(&mut yielded);
                i += 1;
            }
            proof {
                assert(before.take(i as int) =~= before);
            }
        }
        proof {
            if old(self).network.pending().len() == 0 {
                assert forall|id: usize| old(self).network.has_node(id) implies self.network.inbox(
                    id,
                ) == old(self).network.inbox(id) + deliveries_to(
                    old(self).network.pending(),
                    id,
                ) by {
                    assert(old(self).network.inbox(id) + deliveries_to(
                        old(self).network.pending(),
                        id,
                    ) =~= old(self).network.inbox(id));
                }
            }
        }
        effects
    }
}

impl Default for Simulation {
    fn default() -> (r: Self)
        ensures
            r.network.node_count() == 0,
            r.network.pending() == Seq::<Event>::empty(),
            r.network.well_formed(),
            r.nodes@.len() == 0,
    {
        Self::new()
    }
}

} // verus!
