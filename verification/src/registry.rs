//! The connection registry: the outbound queues of the live sessions, and
//! the fan-out of locally written messages to all of them.

use vstd::prelude::*;
use tokio::sync::mpsc::UnboundedSender;
use crate::chat::{Chat, Message};
use crate::packet::{Packet, PacketView};

verus! {

/// The sending half of an unbounded queue of tokio.
#[verifier::external_type_specification]
#[verifier::external_body]
#[verifier::reject_recursive_types(T)]
pub struct ExUnboundedSender<T>(UnboundedSender<T>);

/// Puts `packet` on the queue behind `queue` with
/// `tokio::sync::mpsc::UnboundedSender::send`, which never waits.
///
/// Whether the queue takes the packet depends on whether its receiving half
/// is still there, so nothing is claimed of that. Where it refuses, the
/// error hands the packet back as it was given.
#[verifier::external_body]
pub(crate) fn enqueue(queue: &UnboundedSender<Packet>, packet: Packet) -> (outcome: Result<(), Packet>)
    ensures
        outcome matches Err(returned) ==> returned == packet,
{
    queue.send(packet).map_err(|refused| refused.0)
}

/// How a batch of sends ended: how many the queues took and how many they
/// refused because the session behind them is gone.
#[derive(Clone, Copy, Debug, PartialEq, Eq, Structural)]
pub struct Delivery {
    pub delivered: usize,
    pub refused: usize,
}

impl Delivery {
    /// The tally after one more send, which the queue took or refused.
    pub fn record(self, taken: bool) -> (tally: Delivery)
        requires
            self.delivered + self.refused < usize::MAX,
        ensures
            tally.delivered == self.delivered + if taken { 1int } else { 0int },
            tally.refused == self.refused + if taken { 0int } else { 1int },
    {
        if taken {
            Delivery { delivered: self.delivered + 1, refused: self.refused }
        } else {
            Delivery { delivered: self.delivered, refused: self.refused + 1 }
        }
    }
}

/// Puts every packet of `replies` on `queue`, in order. A packet that the
/// queue refuses is dropped and counted, and the ones after it are still
/// tried: each packet is tried once.
pub fn send_replies(queue: &UnboundedSender<Packet>, replies: Vec<Packet>) -> (outcome: Delivery)
    ensures
        outcome.delivered + outcome.refused == replies@.len(),
{
    let total: usize = replies.len();
    let mut outcome = Delivery { delivered: 0, refused: 0 };
    for packet in iter: replies
        invariant
            iter.seq().len() == total,
            outcome.delivered + outcome.refused == iter.index(),
    {
        outcome = outcome.record(enqueue(queue, packet).is_ok());
    }
    outcome
}

/// The outbound queues of the sessions that are open, in the order in which
/// they were registered. Queues of sessions that have ended stay in it.
pub struct Connections {
    queues: Vec<UnboundedSender<Packet>>,
}

impl View for Connections {
    type V = Seq<UnboundedSender<Packet>>;

    closed spec fn view(&self) -> Seq<UnboundedSender<Packet>> {
        self.queues@
    }
}

impl Connections {
    /// A registry without queues.
    pub fn new() -> (connections: Self)
        ensures
            connections@ == Seq::<UnboundedSender<Packet>>::empty(),
    {
        Connections { queues: Vec::new() }
    }

    /// Adds the queue of a new session at the end.
    pub fn register(&mut self, queue: UnboundedSender<Packet>)
        ensures
            final(self)@ == old(self)@.push(queue),
    {
        self.queues.push(queue);
    }

    /// How many queues are registered.
    pub fn len(&self) -> (n: usize)
        ensures
            n == self@.len(),
    {
        self.queues.len()
    }

    /// Puts a copy of `packet` on every registered queue, in order. A queue
    /// that refuses it is counted and skipped: each queue is tried once.
    pub fn broadcast(&self, packet: &Packet) -> (outcome: Delivery)
        ensures
            outcome.delivered + outcome.refused == self@.len(),
    {
        let mut outcome = Delivery { delivered: 0, refused: 0 };
        let mut i: usize = 0;
        while i < self.queues.len()
            invariant
                i <= self.queues@.len(),
                outcome.delivered + outcome.refused == i,
            decreases self.queues@.len() - i,
        {
            outcome = outcome.record(enqueue(&self.queues[i], packet.clone()).is_ok());
            i += 1;
        }
        outcome
    }
}

/// Takes a message that the local user wrote into the log and returns the
/// packet that carries it to the peers.
pub fn post_local(chat: &mut Chat, message: Message) -> (packet: Packet)
    ensures
        final(chat)@.all_messages == old(chat)@.all_messages.push(message@),
        final(chat)@.members == old(chat)@.members,
        packet@ == PacketView::UserMessage(message@),
{
    chat.add_message(message.clone());
    Packet::UserMessage(message)
}

/// Publishes a message that the local user wrote: appends it to the log,
/// then puts it, as a [`Packet::UserMessage`], on every registered queue.
/// Queues whose session is gone are skipped.
pub fn broadcast_local(chat: &mut Chat, connections: &Connections, message: Message) -> (outcome:
    Delivery)
    ensures
        final(chat)@.all_messages == old(chat)@.all_messages.push(message@),
        final(chat)@.members == old(chat)@.members,
        outcome.delivered + outcome.refused == connections@.len(),
{
    let packet = post_local(chat, message);
    connections.broadcast(&packet)
}

} // verus!
