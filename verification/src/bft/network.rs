//! The network: the registered nodes, an inbox for each, and the queue of messages
//! that are on their way.

use vstd::prelude::*;
use crossbeam_channel::{Receiver, Sender};
use crate::bft::event_queue::{arrival_slot, Event, EventQueue};
use crate::bft::message::Message;

verus! {

/// An inbox: the two ends of one unbounded `crossbeam_channel` channel. Both ends
/// stay in here and are handed to nobody, so what the channel holds is what was
/// put in through this inbox and not yet taken out of it.
#[verifier::external_body]
pub struct Inbox {
    tx: Sender<Message>,
    rx: Receiver<Message>,
}

/// The messages that an inbox holds, the one that was put in first at the front.
pub uninterp spec fn inbox_holds(inbox: Inbox) -> Seq<Message>;

/// Calls `crossbeam_channel::unbounded` and keeps both ends. A new channel holds
/// nothing.
#[verifier::external_body]
fn inbox_open() -> (inbox: Inbox)
    ensures
        inbox_holds(inbox) == Seq::<Message>::empty(),
{
    let (tx, rx) = crossbeam_channel::unbounded();
    Inbox { tx, rx }
}

/// Calls `Sender::send`. An unbounded channel is never full, and this one is never
/// disconnected, since the inbox holds its receiving end: the message goes in
/// behind what the channel holds.
#[verifier::external_body]
fn inbox_put(inbox: &mut Inbox, message: Message)
    ensures
        inbox_holds(*final(inbox)) == inbox_holds(*old(inbox)).push(message),
{
    let _ = inbox.tx.send(message);
}

/// Calls `Receiver::try_recv`, which does not wait: it takes out the message that
/// was put in first, or finds the channel empty.
#[verifier::external_body]
fn inbox_take(inbox: &mut Inbox) -> (r: Option<Message>)
    ensures
        match r {
            Some(m) => {
                &&& inbox_holds(*old(inbox)).len() > 0
                &&& m == inbox_holds(*old(inbox))[0]
                &&& inbox_holds(*final(inbox)) == inbox_holds(*old(inbox)).drop_first()
            },
            None => {
                &&& inbox_holds(*old(inbox)).len() == 0
                &&& inbox_holds(*final(inbox)) == inbox_holds(*old(inbox))
            },
        },
{
    inbox.rx.try_recv().ok()
}

/// What became of a message handed to [`Network::send`].
#[derive(Debug, Clone, Copy, PartialEq, Eq, Structural)]
pub enum SendOutcome {
    /// The message is on its way.
    Scheduled,
    /// No node has the sender's id; nothing was scheduled.
    UnknownSender,
    /// No node has the receiver's id; nothing was scheduled.
    UnknownReceiver,
}

/// The messages of the events of `events` that go to the node `id`, in order.
pub open spec fn deliveries_to(events: Seq<Event>, id: usize) -> Seq<Message>
    decreases events.len(),
{
    if events.len() == 0 {
        Seq::empty()
    } else if events[0].receiver == id {
        seq![events[0].message] + deliveries_to(events.drop_first(), id)
    } else {
        deliveries_to(events.drop_first(), id)
    }
}

/// The events of `events` whose receiver is none of the first `count` ids, in order.
pub open spec fn without_receiver(events: Seq<Event>, count: nat) -> Seq<Event>
    decreases events.len(),
{
    if events.len() == 0 {
        Seq::empty()
    } else if events[0].receiver >= count {
        seq![events[0]] + without_receiver(events.drop_first(), count)
    } else {
        without_receiver(events.drop_first(), count)
    }
}

/// The network. Node ids are handed out from zero upwards.
pub struct Network {
    inboxes: Vec<Inbox>,
    pub event_queue: EventQueue,
}

impl Network {
    /// The number of registered nodes.
    pub closed spec fn node_count(&self) -> nat {
        self.inboxes@.len()
    }

    /// The messages on their way, in the order in which they will be delivered.
    pub closed spec fn pending(&self) -> Seq<Event> {
        self.event_queue.pending()
    }

    /// The messages that were delivered to the node `id` and that it has not
    /// received yet, in the order of delivery. A node that is not registered has none.
    pub closed spec fn inbox(&self, id: usize) -> Seq<Message> {
        if id < self.inboxes@.len() {
            inbox_holds(self.inboxes@[id as int])
        } else {
            Seq::empty()
        }
    }

    /// Whether a node has the id `id`.
    pub open spec fn spec_has_node(&self, id: usize) -> bool {
        id < self.node_count()
    }

    /// The messages on their way stand in delivery order.
    pub closed spec fn well_formed(&self) -> bool {
        self.event_queue.well_formed()
    }

    /// A network with no nodes and nothing on its way.
    pub fn new() -> (r: Self)
        ensures
            r.node_count() == 0,
            r.pending() == Seq::<Event>::empty(),
            r.well_formed(),
    {
        Self { inboxes: Vec::new(), event_queue: EventQueue::new() }
    }

    /// Whether a node has the id `id`.
    #[verifier::when_used_as_spec(spec_has_node)]
    pub fn has_node(&self, id: usize) -> (r: bool)
        ensures
            r == self.has_node(id),
    {
        id < self.inboxes.len()
    }

    /// Registers a node and returns its id: the number of nodes before it. Its
    /// inbox is empty, and nothing else changes.
    pub fn add_node(&mut self) -> (id: usize)
        ensures
            id == old(self).node_count(),
            final(self).node_count() == old(self).node_count() + 1,
            final(self).inbox(id) == Seq::<Message>::empty(),
            forall|other: usize| other != id ==> final(self).inbox(other) == old(self).inbox(other),
            final(self).pending() == old(self).pending(),
            old(self).well_formed() ==> final(self).well_formed(),
    {
        let id = self.inboxes.len();
        self.inboxes.push(inbox_open());
        id
    }

    /// Sends `message` from `sender_id` to `target_id`, to fall due `delay` after its
    /// timestamp. Where both ids are registered, the message gets the later
    /// timestamp and joins the queue; where one is not, nothing changes. No inbox
    /// changes either way.
    pub fn send(&mut self, sender_id: usize, target_id: usize, message: Message, delay: u64) -> (outcome:
        SendOutcome)
        requires
            old(self).has_node(sender_id) && old(self).has_node(target_id) ==> message.timestamp
                + delay <= u64::MAX,
        ensures
            outcome == if !old(self).has_node(sender_id) {
                SendOutcome::UnknownSender
            } else if !old(self).has_node(target_id) {
                SendOutcome::UnknownReceiver
            } else {
                SendOutcome::Scheduled
            },
            outcome == SendOutcome::Scheduled ==> final(self).pending() == old(self).pending().insert(
                arrival_slot(old(self).pending(), (message.timestamp + delay) as u64),
                Event {
                    timestamp: (message.timestamp + delay) as u64,
                    sender: sender_id,
                    receiver: target_id,
                    message: Message {
                        content: message.content,
                        timestamp: (message.timestamp + delay) as u64,
                    },
                },
            ),
            outcome != SendOutcome::Scheduled ==> final(self).pending() == old(self).pending(),
            forall|id: usize| final(self).inbox(id) == old(self).inbox(id),
            final(self).node_count() == old(self).node_count(),
            old(self).well_formed() ==> final(self).well_formed(),
    {
        if !self.has_node(sender_id) {
            return SendOutcome::UnknownSender;
        }
        if !self.has_node(target_id) {
            return SendOutcome::UnknownReceiver;
        }
        let timestamp = message.timestamp + delay;
        let event = Event {
            timestamp,
            sender: sender_id,
            receiver: target_id,
            message: Message { content: message.content, timestamp },
        };
        self.event_queue.schedule(event);
        SendOutcome::Scheduled
    }

    /// Whether a message is on its way.
    pub fn has_pending(&self) -> (r: bool)
        ensures
            r == (self.pending().len() > 0),
    {
        !self.event_queue.is_empty()
    }

    /// Takes every pending event out of the queue, the earliest first, and puts its
    /// message into the receiver's inbox, behind what the inbox holds. Events whose
    /// receiver is not registered are handed back, in the same order.
    pub fn process_events(&mut self) -> (undelivered: Vec<Event>)
        ensures
            final(self).pending().len() == 0,
            forall|id: usize|
                old(self).has_node(id) ==> final(self).inbox(id) == old(self).inbox(id)
                    + deliveries_to(old(self).pending(), id),
            undelivered@ == without_receiver(old(self).pending(), old(self).node_count()),
            final(self).node_count() == old(self).node_count(),
            final(self).well_formed(),
    {
        let mut undelivered: Vec<Event> = Vec::new();
        loop
            invariant
                self.node_count() == old(self).node_count(),
                forall|id: usize|
                    old(self).has_node(id) ==> self.inbox(id) + deliveries_to(self.pending(), id)
                        == old(self).inbox(id) + deliveries_to(old(self).pending(), id),
                undelivered@ + without_receiver(self.pending(), self.node_count())
                    == without_receiver(old(self).pending(), old(self).node_count()),
            ensures
                self.pending().len() == 0,
                self.well_formed(),
            decreases self.pending().len(),
        {
            let ghost before = *self;
            let ghost handed_back = undelivered@;
            match self.event_queue.process_next_event() {
                Some(event) => {
                    if event.receiver < self.inboxes.len() {
                        inbox_put(&mut self.inboxes[event.receiver], event.message);
                        proof {
                            assert forall|id: usize| old(self).has_node(id) implies self.inbox(id)
                                + deliveries_to(self.pending(), id) == old(self).inbox(id)
                                + deliveries_to(old(self).pending(), id) by {
                                assert(before.inbox(id) + deliveries_to(before.pending(), id)
                                    == old(self).inbox(id) + deliveries_to(
                                    old(self).pending(),
                                    id,
                                ));
                                if id == event.receiver {
                                    assert(self.inbox(id) + deliveries_to(self.pending(), id)
                                        =~= before.inbox(id) + deliveries_to(before.pending(), id));
                                }
                            }
                        }
                    } else {
                        undelivered.push(event);
                        proof {
                            assert(undelivered@ + without_receiver(
                                self.pending(),
                                self.node_count(),
                            ) =~= handed_back + without_receiver(
                                before.pending(),
                                before.node_count(),
                            ));
                        }
                    }
                },
                None => {
                    break ;
                },
            }
        }
        proof {
            assert(self.pending() =~= Seq::<Event>::empty());
            assert(undelivered@ =~= undelivered@ + without_receiver(
                self.pending(),
                self.node_count(),
            ));
            assert forall|id: usize| old(self).has_node(id) implies self.inbox(id) == old(
                self,
            ).inbox(id) + deliveries_to(old(self).pending(), id) by {
                assert(self.inbox(id) =~= self.inbox(id) + deliveries_to(self.pending(), id));
            }
        }
        undelivered
    }

    /// Takes the message that was delivered first out of the inbox of node
    /// `node_id`. Where no node has that id, or its inbox is empty, there is none,
    /// and nothing changes.
    pub fn receive(&mut self, node_id: usize) -> (r: Option<Message>)
        ensures
            match r {
                Some(message) => {
                    &&& old(self).inbox(node_id).len() > 0
                    &&& message == old(self).inbox(node_id)[0]
                    &&& final(self).inbox(node_id) == old(self).inbox(node_id).drop_first()
                },
                None => {
                    &&& old(self).inbox(node_id).len() == 0
                    &&& final(self).inbox(node_id) == old(self).inbox(node_id)
                },
            },
            forall|other: usize|
                other != node_id ==> final(self).inbox(other) == old(self).inbox(other),
            final(self).pending() == old(self).pending(),
            final(self).node_count() == old(self).node_count(),
            old(self).well_formed() ==> final(self).well_formed(),
    {
        if node_id < self.inboxes.len() {
            inbox_take(&mut self.inboxes[node_id])
        } else {
            None
        }
    }
}

impl Default for Network {
    fn default() -> (r: Self)
        ensures
            r.node_count() == 0,
            r.pending() == Seq::<Event>::empty(),
            r.well_formed(),
    {
        Self::new()
    }
}

} // verus!
